//! What the user has chosen to play at: one of the resolutions on offer, or
//! a width and height typed in.

use crate::config::{Config, Preset};
use crate::resolution::Resolution;
use crate::text::{decimal, decimal_string, parse_u32, parsed_u32};
use vstd::prelude::*;
use vstd::string::*;

verus! {

/// The width that stands in for a typed width that is no number.
pub const DEFAULT_WIDTH: u32 = 1280;

/// The height that stands in for a typed height that is no number.
pub const DEFAULT_HEIGHT: u32 = 1024;

/// Whether `at` is the first place of `r` in `list`.
pub open spec fn is_first_at(list: Seq<Resolution>, r: Resolution, at: int) -> bool {
    &&& 0 <= at < list.len()
    &&& list[at] == r
    &&& forall|k: int| 0 <= k < at ==> list[k] != r
}

/// The first place in `list` of the resolution with the given width and
/// height.
pub fn position_of(list: &Vec<Resolution>, width: u32, height: u32) -> (at: Option<usize>)
    ensures
        match at {
            Some(i) => is_first_at(list@, Resolution { width, height }, i as int),
            None => !list@.contains(Resolution { width, height }),
        },
{
    let mut i: usize = 0;
    while i < list.len()
        invariant
            i <= list.len(),
            forall|k: int| 0 <= k < i ==> list@[k] != (Resolution { width, height }),
        decreases list.len() - i,
    {
        if list[i].width == width && list[i].height == height {
            return Some(i);
        }
        i += 1;
    }
    None
}

/// The user's choice of resolution.
#[derive(Debug, Clone)]
pub struct Selection {
    /// The resolutions on offer.
    pub available: Vec<Resolution>,
    /// The place in `available` of the one chosen.
    pub selected_index: usize,
    /// Whether the typed width and height count, rather than the one chosen.
    pub use_custom: bool,
    /// The width as typed.
    pub custom_width: String,
    /// The height as typed.
    pub custom_height: String,
}

impl Selection {
    /// The resolution that the typed width and height stand for. A width
    /// that is no number counts as 1280, such a height as 1024.
    pub open spec fn typed(&self) -> Resolution {
        Resolution {
            width: match parsed_u32(self.custom_width@) {
                Some(w) => w,
                None => DEFAULT_WIDTH,
            },
            height: match parsed_u32(self.custom_height@) {
                Some(h) => h,
                None => DEFAULT_HEIGHT,
            },
        }
    }

    /// The resolution to play at: the typed one where that counts, else the
    /// one chosen from those on offer. `None` where nothing on offer is
    /// chosen.
    pub open spec fn chosen(&self) -> Option<Resolution> {
        if self.use_custom {
            Some(self.typed())
        } else if self.selected_index < self.available@.len() {
            Some(self.available@[self.selected_index as int])
        } else {
            None
        }
    }

    /// The choice that a host starts with: of the resolutions on offer the
    /// one that the settings name, or the first where they name none of
    /// them; the typed width and height are 1280 and 1024 and do not count.
    pub fn new(available: Vec<Resolution>, config: &Config) -> (s: Selection)
        ensures
            s.available@ == available@,
            !s.use_custom,
            s.custom_width@ == "1280"@,
            s.custom_height@ == "1024"@,
            ({
                let wanted = Resolution { width: config.target_width, height: config.target_height };
                if available@.contains(wanted) {
                    is_first_at(available@, wanted, s.selected_index as int)
                } else {
                    s.selected_index == 0
                }
            }),
    {
        let selected_index = match position_of(&available, config.target_width, config.target_height) {
            Some(i) => i,
            None => 0,
        };
        Selection {
            available,
            selected_index,
            use_custom: false,
            custom_width: String::from_str("1280"),
            custom_height: String::from_str("1024"),
        }
    }

    /// The resolution to play at.
    pub fn target(&self) -> (r: Option<Resolution>)
        ensures
            r == self.chosen(),
    {
        if self.use_custom {
            let width = match parse_u32(self.custom_width.as_str()) {
                Some(w) => w,
                None => DEFAULT_WIDTH,
            };
            let height = match parse_u32(self.custom_height.as_str()) {
                Some(h) => h,
                None => DEFAULT_HEIGHT,
            };
            Some(Resolution { width, height })
        } else if self.selected_index < self.available.len() {
            Some(self.available[self.selected_index])
        } else {
            None
        }
    }

    /// Takes the resolution of a preset as the choice: where it is on offer,
    /// it is chosen there, at its first place; where it is not, its width
    /// and height are typed in and count.
    pub fn apply_preset(&mut self, preset: &Preset)
        ensures
            final(self).available@ == old(self).available@,
            final(self).chosen() == Some(
                Resolution { width: preset.resolution_width, height: preset.resolution_height },
            ),
            ({
                let wanted = Resolution {
                    width: preset.resolution_width,
                    height: preset.resolution_height,
                };
                if old(self).available@.contains(wanted) {
                    &&& !final(self).use_custom
                    &&& is_first_at(old(self).available@, wanted, final(self).selected_index as int)
                    &&& final(self).custom_width@ == old(self).custom_width@
                    &&& final(self).custom_height@ == old(self).custom_height@
                } else {
                    &&& final(self).use_custom
                    &&& final(self).selected_index == old(self).selected_index
                    &&& final(self).custom_width@ == decimal(preset.resolution_width as nat)
                    &&& final(self).custom_height@ == decimal(preset.resolution_height as nat)
                }
            }),
    {
        match position_of(&self.available, preset.resolution_width, preset.resolution_height) {
            Some(i) => {
                self.use_custom = false;
                self.selected_index = i;
            },
            None => {
                self.use_custom = true;
                self.custom_width = decimal_string(preset.resolution_width as u64);
                self.custom_height = decimal_string(preset.resolution_height as u64);
                proof {
                    crate::text::lemma_decimal_parses(preset.resolution_width);
                    crate::text::lemma_decimal_parses(preset.resolution_height);
                }
            },
        }
    }

    /// The choice as a preset of the given name. `None` where the name is
    /// empty or nothing is chosen.
    pub fn to_preset(&self, name: &str, apply_to_all_accounts: bool, restore_after_close: bool) -> (p:
        Option<Preset>)
        ensures
            p is Some <==> name@.len() > 0 && self.chosen() is Some,
            p matches Some(preset) ==> {
                &&& preset.name@ == name@
                &&& Some(
                    Resolution { width: preset.resolution_width, height: preset.resolution_height },
                ) == self.chosen()
                &&& preset.apply_to_all_accounts == apply_to_all_accounts
                &&& preset.restore_after_close == restore_after_close
            },
    {
        if name.is_empty() {
            return None;
        }
        match self.target() {
            Some(r) => Some(
                Preset {
                    name: String::from_str(name),
                    resolution_width: r.width,
                    resolution_height: r.height,
                    apply_to_all_accounts,
                    restore_after_close,
                },
            ),
            None => None,
        }
    }
}

} // verus!
