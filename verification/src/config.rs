//! The launcher's own settings, and the edits that switch the game's
//! settings file between its stretched and its native form.

use crate::text::{
    chars_of, decimal, has_prefix, is_plain_line, join_lines, lemma_decimal_is_plain,
    lemma_lines_hold_no_line_feed, lemma_lines_of_written_text, lines_of, push_decimal, same_text,
    split_lines, string_from, text_of,
};
use vstd::prelude::*;
use vstd::string::*;

verus! {

/// The key of the line that selects the game's window mode.
pub open spec fn fullscreen_key() -> Seq<char> {
    "FullscreenMode="@
}

/// The line that selects the borderless full-screen window mode.
pub open spec fn fullscreen_line() -> Seq<char> {
    "FullscreenMode=2"@
}

/// The key of the line that holds the horizontal resolution.
pub open spec fn width_key() -> Seq<char> {
    "ResolutionSizeX="@
}

/// The key of the line that holds the vertical resolution.
pub open spec fn height_key() -> Seq<char> {
    "ResolutionSizeY="@
}

/// The header of the section that holds the game's display settings.
pub open spec fn settings_header() -> Seq<char> {
    "[/Script/ShooterGame.ShooterGameUserSettings]"@
}

/// How every section header begins.
pub open spec fn header_start() -> Seq<char> {
    "["@
}

/// Whether a line selects a window mode.
pub open spec fn is_fullscreen_line(line: Seq<char>) -> bool {
    fullscreen_key().is_prefix_of(line)
}

/// Whether a line is the header of the display settings.
pub open spec fn is_settings_header(line: Seq<char>) -> bool {
    settings_header().is_prefix_of(line)
}

/// Whether a line is a section header.
pub open spec fn is_header(line: Seq<char>) -> bool {
    header_start().is_prefix_of(line)
}

/// The test that a line passes unless it selects a window mode.
pub open spec fn keeps_line() -> spec_fn(Seq<char>) -> bool {
    |line: Seq<char>| !is_fullscreen_line(line)
}

/// The lines without those that select a window mode.
pub open spec fn without_fullscreen(lines: Seq<Seq<char>>) -> Seq<Seq<char>> {
    lines.filter(keeps_line())
}

/// A line after the resolution has been set: a line keyed `ResolutionSizeX`
/// holds the width, one keyed `ResolutionSizeY` the height, any other line
/// is as it was.
pub open spec fn with_size(line: Seq<char>, width: u32, height: u32) -> Seq<char> {
    if width_key().is_prefix_of(line) {
        width_key() + decimal(width as nat)
    } else if height_key().is_prefix_of(line) {
        height_key() + decimal(height as nat)
    } else {
        line
    }
}

/// The lines after the resolution has been set in each of them.
pub open spec fn with_resolution(lines: Seq<Seq<char>>, width: u32, height: u32) -> Seq<Seq<char>> {
    lines.map_values(|line: Seq<char>| with_size(line, width, height))
}

/// Whether line `at` opens a section somewhere after the header of the
/// display settings.
pub open spec fn closes_settings(lines: Seq<Seq<char>>, at: int) -> bool {
    &&& 0 <= at < lines.len()
    &&& is_header(lines[at])
    &&& !is_settings_header(lines[at])
    &&& exists|m: int| 0 <= m < at && is_settings_header(#[trigger] lines[m])
}

/// Whether line `at` is the first that closes the display settings.
pub open spec fn is_settings_end(lines: Seq<Seq<char>>, at: int) -> bool {
    &&& closes_settings(lines, at)
    &&& forall|k: int| 0 <= k < at ==> !closes_settings(lines, k)
}

/// Where the window mode line goes: directly before the header that closes
/// the display settings, or before the empty line that precedes that header.
/// `None` where no header closes the display settings.
pub open spec fn insert_position(lines: Seq<Seq<char>>) -> Option<int> {
    if exists|at: int| is_settings_end(lines, at) {
        let at = choose|at: int| is_settings_end(lines, at);
        if lines[at - 1].len() == 0 {
            Some(at - 1)
        } else {
            Some(at)
        }
    } else {
        None
    }
}

/// The lines with the window mode line put in: at the insert position, or
/// after an empty line at the end where there is no such position.
pub open spec fn with_fullscreen(lines: Seq<Seq<char>>) -> Seq<Seq<char>> {
    match insert_position(lines) {
        Some(at) => lines.insert(at, fullscreen_line()),
        None => lines.push(Seq::empty()).push(fullscreen_line()),
    }
}

/// The stretched form of a settings file: any earlier window mode line is
/// gone, the resolution is the given one, and the window mode line is in.
pub open spec fn stretched(lines: Seq<Seq<char>>, width: u32, height: u32) -> Seq<Seq<char>> {
    with_fullscreen(with_resolution(without_fullscreen(lines), width, height))
}

/// The native form of a settings file: no window mode line; the resolution
/// lines stay as they are.
pub open spec fn native(lines: Seq<Seq<char>>) -> Seq<Seq<char>> {
    without_fullscreen(lines)
}

/// Removes every line that selects a window mode.
pub fn remove_fullscreen(lines: &Vec<String>) -> (out: Vec<String>)
    ensures
        out.deep_view() == without_fullscreen(lines.deep_view()),
{
    let mut out: Vec<String> = Vec::new();
    let mut i: usize = 0;
    proof {
        reveal(Seq::filter);
        assert(lines.deep_view().take(0) =~= Seq::<Seq<char>>::empty());
        assert(out.deep_view() =~= Seq::<Seq<char>>::empty());
    }
    while i < lines.len()
        invariant
            i <= lines.len(),
            out.deep_view() == without_fullscreen(lines.deep_view().take(i as int)),
        decreases lines.len() - i,
    {
        let ghost before = out.deep_view();
        let ghost all = lines.deep_view();
        proof {
            reveal(Seq::filter);
            assert(all.take(i as int + 1).drop_last() =~= all.take(i as int));
            assert(all.take(i as int + 1).last() == lines@[i as int]@);
        }
        if !has_prefix(lines[i].as_str(), "FullscreenMode=") {
            out.push(lines[i].clone());
            proof {
                assert(out.deep_view() =~= before.push(lines@[i as int]@));
            }
        }
        i += 1;
    }
    proof {
        assert(lines.deep_view().take(i as int) =~= lines.deep_view());
    }
    out
}

/// Sets the resolution in every line that holds one.
pub fn set_resolution_lines(lines: &Vec<String>, width: u32, height: u32) -> (out: Vec<String>)
    ensures
        out.deep_view() == with_resolution(lines.deep_view(), width, height),
{
    let mut out: Vec<String> = Vec::new();
    let mut i: usize = 0;
    while i < lines.len()
        invariant
            i <= lines.len(),
            out@.len() == i,
            forall|k: int| 0 <= k < i ==> (#[trigger] out@[k])@ == with_size(lines@[k]@, width, height),
        decreases lines.len() - i,
    {
        let line = lines[i].as_str();
        let new_line = if has_prefix(line, "ResolutionSizeX=") {
            let mut s = String::from_str("ResolutionSizeX=");
            push_decimal(&mut s, width as u64);
            s
        } else if has_prefix(line, "ResolutionSizeY=") {
            let mut s = String::from_str("ResolutionSizeY=");
            push_decimal(&mut s, height as u64);
            s
        } else {
            lines[i].clone()
        };
        out.push(new_line);
        i += 1;
    }
    proof {
        assert(out.deep_view() =~= with_resolution(lines.deep_view(), width, height));
    }
    out
}

/// Finds where the window mode line goes.
pub fn find_insert_position(lines: &Vec<String>) -> (pos: Option<usize>)
    ensures
        match pos {
            Some(at) => insert_position(lines.deep_view()) == Some(at as int) && at <= lines.len(),
            None => insert_position(lines.deep_view()) is None,
        },
{
    let ghost all = lines.deep_view();
    let mut in_settings = false;
    let mut i: usize = 0;
    while i < lines.len()
        invariant
            i <= lines.len(),
            all == lines.deep_view(),
            in_settings <==> exists|m: int| 0 <= m < i && is_settings_header(#[trigger] all[m]),
            forall|k: int| 0 <= k < i ==> !closes_settings(all, k),
        decreases lines.len() - i,
    {
        let line = lines[i].as_str();
        proof {
            assert(all[i as int] == line@);
        }
        if has_prefix(line, "[/Script/ShooterGame.ShooterGameUserSettings]") {
            in_settings = true;
        } else if in_settings && has_prefix(line, "[") {
            proof {
                assert(is_settings_end(all, i as int));
                let chosen = choose|at: int| is_settings_end(all, at);
                assert(chosen == i);
            }
            if i > 0 && lines[i - 1].as_str().is_empty() {
                return Some(i - 1);
            } else {
                return Some(i);
            }
        }
        i += 1;
    }
    proof {
        assert forall|at: int| !is_settings_end(all, at) by {
            if is_settings_end(all, at) {
                assert(closes_settings(all, at));
            }
        }
    }
    None
}

/// Puts the window mode line in.
pub fn insert_fullscreen(lines: Vec<String>) -> (out: Vec<String>)
    ensures
        out.deep_view() == with_fullscreen(lines.deep_view()),
{
    let ghost before = lines.deep_view();
    let mut out = lines;
    match find_insert_position(&out) {
        Some(at) => {
            out.insert(at, String::from_str("FullscreenMode=2"));
            proof {
                assert(out.deep_view() =~= before.insert(at as int, fullscreen_line()));
            }
        },
        None => {
            out.push(String::new());
            out.push(String::from_str("FullscreenMode=2"));
            proof {
                assert(out.deep_view() =~= before.push(Seq::empty()).push(fullscreen_line()));
            }
        },
    }
    out
}

/// Brings the lines of a settings file into the stretched form.
pub fn apply_stretch(lines: &Vec<String>, width: u32, height: u32) -> (out: Vec<String>)
    ensures
        out.deep_view() == stretched(lines.deep_view(), width, height),
{
    let kept = remove_fullscreen(lines);
    let sized = set_resolution_lines(&kept, width, height);
    insert_fullscreen(sized)
}

/// The stretched form of a settings file's text.
pub open spec fn stretched_text(text: Seq<char>, width: u32, height: u32) -> Seq<char> {
    text_of(stretched(lines_of(text), width, height))
}

/// The native form of a settings file's text.
pub open spec fn native_text(text: Seq<char>) -> Seq<char> {
    text_of(native(lines_of(text)))
}

/// A filter that every element passes changes nothing.
proof fn lemma_filter_keeps_all(s: Seq<Seq<char>>)
    requires
        forall|i: int| 0 <= i < s.len() ==> !is_fullscreen_line(#[trigger] s[i]),
    ensures
        without_fullscreen(s) == s,
    decreases s.len(),
{
    reveal(Seq::filter);
    if s.len() > 0 {
        lemma_filter_keeps_all(s.drop_last());
        assert(s.drop_last().push(s.last()) =~= s);
    }
}

/// No line that the resolution was set in selects a window mode, unless it
/// did before.
proof fn lemma_with_size_keeps_kind(line: Seq<char>, width: u32, height: u32)
    requires
        !is_fullscreen_line(line),
    ensures
        !is_fullscreen_line(with_size(line, width, height)),
{
    reveal_strlit("FullscreenMode=");
    reveal_strlit("ResolutionSizeX=");
    reveal_strlit("ResolutionSizeY=");
    let out = with_size(line, width, height);
    if out != line {
        assert(out[0] == 'R');
        if is_fullscreen_line(out) {
            assert(out.subrange(0, fullscreen_key().len() as int)[0] == 'F');
        }
    }
}

/// Removing the window mode lines twice is removing them once.
pub proof fn lemma_native_is_idempotent(lines: Seq<Seq<char>>)
    ensures
        native(native(lines)) == native(lines),
{
    let kept = without_fullscreen(lines);
    assert forall|i: int| 0 <= i < kept.len() implies !is_fullscreen_line(#[trigger] kept[i]) by {
        lines.lemma_filter_pred(keeps_line(), i);
    }
    lemma_filter_keeps_all(kept);
}

/// Reverting a stretched file does not give back the file as it was before:
/// only the window mode line leaves. The resolution lines keep the width and
/// height that were set, window mode lines that the file held before stay
/// out, and where the window mode line went to the end of the file, the
/// empty line before it stays.
pub proof fn lemma_revert_after_apply(lines: Seq<Seq<char>>, width: u32, height: u32)
    ensures
        native(stretched(lines, width, height)) == ({
            let sized = with_resolution(without_fullscreen(lines), width, height);
            if insert_position(sized) is Some {
                sized
            } else {
                sized.push(Seq::empty())
            }
        }),
        stretched(lines, width, height).len() == native(stretched(lines, width, height)).len() + 1,
{
    reveal(Seq::filter);
    reveal_strlit("FullscreenMode=");
    reveal_strlit("FullscreenMode=2");
    let kept = without_fullscreen(lines);
    let sized = with_resolution(kept, width, height);
    let line = fullscreen_line();
    assert(is_fullscreen_line(line)) by {
        assert(fullscreen_key() =~= line.subrange(0, fullscreen_key().len() as int));
    }
    assert forall|i: int| 0 <= i < sized.len() implies !is_fullscreen_line(#[trigger] sized[i]) by {
        lines.lemma_filter_pred(keeps_line(), i);
        lemma_with_size_keeps_kind(kept[i], width, height);
    }
    lemma_filter_keeps_all(sized);
    let one = seq![line];
    let nothing = Seq::<Seq<char>>::empty();
    assert(nothing.filter(keeps_line()) =~= nothing);
    assert(one.filter(keeps_line()) =~= nothing) by {
        assert(one.drop_last() =~= nothing);
        assert(one.last() == line);
    }
    match insert_position(sized) {
        Some(at) => {
            let at: int = choose|at: int| is_settings_end(sized, at);
            let pos = if sized[at - 1].len() == 0 {
                at - 1
            } else {
                at
            };
            let head = sized.take(pos);
            let tail = sized.skip(pos);
            assert(sized.insert(pos, line) =~= head + one + tail);
            assert(head + tail =~= sized);
            Seq::filter_distributes_over_add(head + one, tail, keeps_line());
            Seq::filter_distributes_over_add(head, one, keeps_line());
            Seq::filter_distributes_over_add(head, tail, keeps_line());
            assert(head.filter(keeps_line()) + one.filter(keeps_line()) =~= head.filter(keeps_line()));
            assert(with_fullscreen(sized) == sized.insert(pos, line));
            assert(without_fullscreen(head + one + tail) == sized);
        },
        None => {
            let blank = Seq::<char>::empty();
            let padded = sized.push(blank);
            assert(padded.push(line).drop_last() =~= padded);
            assert(padded.drop_last() =~= sized);
            assert(!is_fullscreen_line(blank));
            assert(with_fullscreen(sized) == padded.push(line));
            assert(without_fullscreen(padded) == padded);
            assert(without_fullscreen(padded.push(line)) == padded);
        },
    }
}

/// Where a header closes the display settings, the window mode line stands
/// directly before that header, or directly before the one empty line that
/// precedes it; every other line is where it was, moved down by one from
/// there on.
pub proof fn lemma_window_mode_line_stands_before_next_section(lines: Seq<Seq<char>>, at: int)
    requires
        is_settings_end(lines, at),
    ensures
        ({
            let out = with_fullscreen(lines);
            let pos = if lines[at - 1].len() == 0 {
                at - 1
            } else {
                at
            };
            &&& 1 <= at
            &&& insert_position(lines) == Some(pos)
            &&& out.len() == lines.len() + 1
            &&& out[pos] == fullscreen_line()
            &&& out[at + 1] == lines[at]
            &&& forall|i: int| 0 <= i < pos ==> out[i] == lines[i]
            &&& forall|i: int| pos <= i < lines.len() ==> out[i + 1] == lines[i]
        }),
{
    let chosen = choose|k: int| is_settings_end(lines, k);
    assert(closes_settings(lines, at));
    assert(closes_settings(lines, chosen));
    assert(chosen == at) by {
        if chosen < at {
            assert(!closes_settings(lines, chosen));
        } else if at < chosen {
            assert(!closes_settings(lines, at));
        }
    }
}

/// In the stretched form every line keyed `ResolutionSizeX` holds the width
/// that was asked for, and every line keyed `ResolutionSizeY` the height,
/// in decimal notation and with nothing after it.
pub proof fn lemma_stretched_holds_the_resolution(lines: Seq<Seq<char>>, width: u32, height: u32)
    ensures
        forall|i: int|
            0 <= i < stretched(lines, width, height).len() && width_key().is_prefix_of(
                #[trigger] stretched(lines, width, height)[i],
            ) ==> stretched(lines, width, height)[i] == width_key() + decimal(width as nat),
        forall|i: int|
            0 <= i < stretched(lines, width, height).len() && height_key().is_prefix_of(
                #[trigger] stretched(lines, width, height)[i],
            ) ==> stretched(lines, width, height)[i] == height_key() + decimal(height as nat),
{
    reveal_strlit("FullscreenMode=2");
    reveal_strlit("ResolutionSizeX=");
    reveal_strlit("ResolutionSizeY=");
    let sized = with_resolution(without_fullscreen(lines), width, height);
    let out = stretched(lines, width, height);
    let mode = fullscreen_line();
    let blank = Seq::<char>::empty();
    assert(!width_key().is_prefix_of(mode) && !height_key().is_prefix_of(mode)) by {
        if width_key().is_prefix_of(mode) {
            assert(mode.subrange(0, width_key().len() as int)[0] == 'R');
        }
        if height_key().is_prefix_of(mode) {
            assert(mode.subrange(0, height_key().len() as int)[0] == 'R');
        }
    }
    assert(!width_key().is_prefix_of(blank) && !height_key().is_prefix_of(blank));
    assert forall|k: int| 0 <= k < sized.len() implies (width_key().is_prefix_of(#[trigger] sized[k])
        ==> sized[k] == width_key() + decimal(width as nat)) && (height_key().is_prefix_of(sized[k])
        ==> sized[k] == height_key() + decimal(height as nat)) by {
        let before = without_fullscreen(lines)[k];
        let line = sized[k];
        if width_key().is_prefix_of(before) {
            assert(line == width_key() + decimal(width as nat));
            if height_key().is_prefix_of(line) {
                assert(line.subrange(0, height_key().len() as int)[14] == 'Y');
                assert(line[14] == 'X');
            }
        } else if height_key().is_prefix_of(before) {
            assert(line == height_key() + decimal(height as nat));
            if width_key().is_prefix_of(line) {
                assert(line.subrange(0, width_key().len() as int)[14] == 'X');
                assert(line[14] == 'Y');
            }
        }
    }
    match insert_position(sized) {
        Some(pos) => {
            let at = choose|at: int| is_settings_end(sized, at);
            assert(closes_settings(sized, at));
            assert(out == sized.insert(pos, mode));
            assert forall|i: int| 0 <= i < out.len() implies (width_key().is_prefix_of(
                #[trigger] out[i],
            ) ==> out[i] == width_key() + decimal(width as nat)) && (height_key().is_prefix_of(out[i])
                ==> out[i] == height_key() + decimal(height as nat)) by {
                if i < pos {
                    assert(out[i] == sized[i]);
                } else if i > pos {
                    assert(out[i] == sized[i - 1]);
                }
            }
        },
        None => {
            assert(out == sized.push(blank).push(mode));
            assert forall|i: int| 0 <= i < out.len() implies (width_key().is_prefix_of(
                #[trigger] out[i],
            ) ==> out[i] == width_key() + decimal(width as nat)) && (height_key().is_prefix_of(out[i])
                ==> out[i] == height_key() + decimal(height as nat)) by {
                if i < sized.len() {
                    assert(out[i] == sized[i]);
                }
            }
        },
    }
}

/// The stretched form of plain lines is made of plain lines.
proof fn lemma_stretched_lines_are_plain(lines: Seq<Seq<char>>, width: u32, height: u32)
    requires
        forall|i: int| 0 <= i < lines.len() ==> is_plain_line(#[trigger] lines[i]),
    ensures
        forall|i: int|
            0 <= i < stretched(lines, width, height).len() ==> is_plain_line(
                #[trigger] stretched(lines, width, height)[i],
            ),
{
    reveal_strlit("FullscreenMode=2");
    reveal_strlit("ResolutionSizeX=");
    reveal_strlit("ResolutionSizeY=");
    let kept = without_fullscreen(lines);
    let sized = with_resolution(kept, width, height);
    let out = with_fullscreen(sized);
    assert forall|i: int| 0 <= i < kept.len() implies is_plain_line(#[trigger] kept[i]) by {
        assert(kept.contains(kept[i]));
        lines.lemma_filter_contains_rev(keeps_line(), kept[i]);
        let k = choose|k: int| 0 <= k < lines.len() && lines[k] == kept[i];
        assert(is_plain_line(lines[k]));
    }
    assert forall|i: int| 0 <= i < sized.len() implies is_plain_line(#[trigger] sized[i]) by {
        let line = sized[i];
        assert(is_plain_line(kept[i]));
        if line != kept[i] {
            lemma_decimal_is_plain(width as nat);
            lemma_decimal_is_plain(height as nat);
            let key = if width_key().is_prefix_of(kept[i]) {
                width_key()
            } else {
                height_key()
            };
            let number = if width_key().is_prefix_of(kept[i]) {
                decimal(width as nat)
            } else {
                decimal(height as nat)
            };
            assert(line == key + number);
            assert forall|j: int| 0 <= j < line.len() implies line[j] != '\n' by {
                if j >= key.len() {
                    assert(line[j] == number[j - key.len()]);
                }
            }
            assert(line.last() == number.last());
        }
    }
    let mode = fullscreen_line();
    assert(is_plain_line(mode));
    assert(is_plain_line(Seq::<char>::empty()));
    match insert_position(sized) {
        Some(pos) => {
            let at = choose|at: int| is_settings_end(sized, at);
            assert(closes_settings(sized, at));
            assert(0 <= pos <= sized.len());
            assert(out == sized.insert(pos, mode));
            assert forall|i: int| 0 <= i < out.len() implies is_plain_line(#[trigger] out[i]) by {
                if i < pos {
                    assert(out[i] == sized[i]);
                } else if i > pos {
                    assert(out[i] == sized[i - 1]);
                }
            }
        },
        None => {
            assert(out == sized.push(Seq::empty()).push(mode));
            assert forall|i: int| 0 <= i < out.len() implies is_plain_line(#[trigger] out[i]) by {
                if i < sized.len() {
                    assert(out[i] == sized[i]);
                }
            }
        },
    }
}

/// What holds of the lines holds of the file: when a file is brought into
/// its stretched form, written, read again and reverted, only the window
/// mode line has left. The resolution lines keep the width and height that
/// were set, and where the window mode line went to the end of the file, the
/// empty line before it stays. This is stated of a file none of whose lines
/// ends in a carriage return once its line ending is taken off; such a
/// carriage return would be read as part of the line ending the next time.
pub proof fn lemma_revert_of_written_file(text: Seq<char>, width: u32, height: u32)
    requires
        forall|i: int|
            0 <= i < lines_of(text).len() && (#[trigger] lines_of(text)[i]).len() > 0 ==> lines_of(
                text,
            )[i].last() != '\r',
    ensures
        lines_of(stretched_text(text, width, height)) == stretched(lines_of(text), width, height),
        native_text(stretched_text(text, width, height)) == text_of(
            {
                let sized = with_resolution(without_fullscreen(lines_of(text)), width, height);
                if insert_position(sized) is Some {
                    sized
                } else {
                    sized.push(Seq::empty())
                }
            },
        ),
{
    let lines = lines_of(text);
    lemma_lines_hold_no_line_feed(text);
    assert forall|i: int| 0 <= i < lines.len() implies is_plain_line(#[trigger] lines[i]) by {
        assert forall|j: int| 0 <= j < lines[i].len() implies lines[i][j] != '\n' by {
            assert(lines_of(text)[i][j] != '\n');
        }
    }
    lemma_stretched_lines_are_plain(lines, width, height);
    lemma_lines_of_written_text(stretched(lines, width, height));
    lemma_revert_after_apply(lines, width, height);
}

/// The settings that the launcher keeps between runs.
#[derive(Debug, Clone)]
pub struct Config {
    pub target_width: u32,
    pub target_height: u32,
    pub auto_launch: bool,
    pub apply_to_all_accounts: bool,
    pub selected_account: Option<String>,
    pub restore_after_close: bool,
}

/// What `restore_after_close` is where stored settings do not say.
pub fn default_restore_after_close() -> (b: bool)
    ensures
        b,
{
    true
}

impl Default for Config {
    fn default() -> (c: Config)
        ensures
            c.target_width == 1280,
            c.target_height == 1024,
            !c.auto_launch,
            c.apply_to_all_accounts,
            c.selected_account is None,
            c.restore_after_close,
    {
        Config {
            target_width: 1280,
            target_height: 1024,
            auto_launch: false,
            apply_to_all_accounts: true,
            selected_account: None,
            restore_after_close: default_restore_after_close(),
        }
    }
}

/// A named choice of resolution and account scope.
#[derive(Debug, Clone)]
pub struct Preset {
    pub name: String,
    pub resolution_width: u32,
    pub resolution_height: u32,
    pub apply_to_all_accounts: bool,
    pub restore_after_close: bool,
}

/// An account of the game on this machine: the name of its folder and the
/// path of its settings file.
#[derive(Debug, Clone)]
pub struct Account {
    pub name: String,
    pub config_path: String,
}

/// Whether a folder beside the accounts' folders may be an account's: it is
/// none of the folders that the game keeps there for itself.
pub open spec fn is_account_folder(name: Seq<char>) -> bool {
    &&& name != "WindowsClient"@
    &&& name != "CrashReportClient"@
    &&& !"989e4975"@.is_prefix_of(name)
}

/// Whether a file name ends in `.json`.
pub open spec fn has_json_suffix(name: Seq<char>) -> bool {
    name.len() >= 5 && name.skip(name.len() - 5) == ".json"@
}

/// A file name without any `.json` at its end, however often it stands
/// there.
pub open spec fn without_json(name: Seq<char>) -> Seq<char>
    decreases name.len(),
{
    if has_json_suffix(name) {
        without_json(name.take(name.len() - 5))
    } else {
        name
    }
}

/// The preset that a file of the presets folder holds, by the file's name:
/// the name without `.json`. `None` for a file that is no preset.
pub open spec fn preset_name_of(file_name: Seq<char>) -> Option<Seq<char>> {
    if has_json_suffix(file_name) {
        Some(without_json(file_name))
    } else {
        None
    }
}

/// A preset is found again under its name by the file that it is saved in,
/// unless the name itself ends in `.json`.
pub proof fn lemma_preset_file_gives_name_back(name: Seq<char>)
    requires
        !has_json_suffix(name),
    ensures
        preset_name_of(name + ".json"@) == Some(name),
{
    reveal_strlit(".json");
    let file = name + ".json"@;
    assert(file.skip(file.len() - 5) =~= ".json"@);
    assert(file.take(file.len() - 5) =~= name);
    assert(without_json(name) == name);
    assert(without_json(file) == without_json(name));
}

/// Whether the first `end` characters of `buf` end in `.json`.
fn ends_in_json(buf: &Vec<char>, end: usize) -> (b: bool)
    requires
        end <= buf.len(),
    ensures
        b == has_json_suffix(buf@.take(end as int)),
{
    proof {
        reveal_strlit(".json");
    }
    let b = end >= 5 && buf[end - 5] == '.' && buf[end - 4] == 'j' && buf[end - 3] == 's' && buf[end
        - 2] == 'o' && buf[end - 1] == 'n';
    proof {
        let s = buf@.take(end as int);
        if b {
            assert(s.skip(s.len() - 5) =~= ".json"@);
        } else if end >= 5 {
            let tail = s.skip(s.len() - 5);
            assert(tail[0] == buf@[end - 5]);
            assert(tail[1] == buf@[end - 4]);
            assert(tail[2] == buf@[end - 3]);
            assert(tail[3] == buf@[end - 2]);
            assert(tail[4] == buf@[end - 1]);
        }
    }
    b
}

/// The rules for the files that the launcher reads and writes. It touches no
/// file itself: it takes a file's text and gives back the text to write.
pub struct ConfigManager;

impl ConfigManager {
    /// The text of a settings file in its stretched form, for the text it has
    /// now and the resolution to play at.
    pub fn modify_valorant_config(content: &str, width: u32, height: u32) -> (out: String)
        ensures
            out@ == stretched_text(content@, width, height),
    {
        let lines = split_lines(content);
        let patched = apply_stretch(&lines, width, height);
        join_lines(&patched)
    }

    /// Whether a folder beside the accounts' folders may be an account's.
    pub fn is_account_folder(name: &str) -> (b: bool)
        ensures
            b == is_account_folder(name@),
    {
        !same_text(name, "WindowsClient") && !same_text(name, "CrashReportClient") && !has_prefix(
            name,
            "989e4975",
        )
    }

    /// The name of the file that a preset is saved in.
    pub fn preset_file_name(name: &str) -> (file_name: String)
        ensures
            file_name@ == name@ + ".json"@,
    {
        let mut file_name = String::from_str(name);
        file_name.append(".json");
        file_name
    }

    /// The name of the preset that a file of the presets folder holds.
    pub fn preset_name(file_name: &str) -> (name: Option<String>)
        ensures
            match name {
                Some(n) => preset_name_of(file_name@) == Some(n@),
                None => preset_name_of(file_name@) is None,
            },
    {
        let buf = chars_of(file_name);
        let mut end: usize = buf.len();
        proof {
            assert(buf@.take(end as int) =~= buf@);
        }
        if !ends_in_json(&buf, end) {
            return None;
        }
        while ends_in_json(&buf, end)
            invariant
                end <= buf.len(),
                without_json(buf@) == without_json(buf@.take(end as int)),
            decreases end,
        {
            proof {
                assert(buf@.take(end as int).take(end - 5) =~= buf@.take(end - 5));
            }
            end -= 5;
        }
        proof {
            assert(buf@.subrange(0, end as int) =~= buf@.take(end as int));
        }
        Some(string_from(&buf, 0, end))
    }

    /// The text of a settings file in its native form, for the text it has
    /// now.
    pub fn restore_valorant_config(content: &str) -> (out: String)
        ensures
            out@ == native_text(content@),
    {
        let lines = split_lines(content);
        let kept = remove_fullscreen(&lines);
        join_lines(&kept)
    }
}

} // verus!
