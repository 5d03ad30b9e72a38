//! Display resolutions and the list of modes offered for selection.

use vstd::prelude::*;

verus! {

/// The smallest width that is offered for selection.
pub const MIN_WIDTH: u32 = 800;

/// The smallest height that is offered for selection.
pub const MIN_HEIGHT: u32 = 600;

/// A display resolution in pixels. Two resolutions are equal when both
/// dimensions are.
#[derive(Debug, Clone, Copy, PartialEq, Eq, Structural)]
pub struct Resolution {
    pub width: u32,
    pub height: u32,
}

impl Resolution {
    /// Whether the resolution is at least 800 wide and 600 high.
    pub open spec fn meets_floor(self) -> bool {
        self.width >= MIN_WIDTH && self.height >= MIN_HEIGHT
    }

    /// The order of the selection list: by width, then by height.
    pub open spec fn precedes(self, other: Resolution) -> bool {
        self.width < other.width || (self.width == other.width && self.height < other.height)
    }

    /// The resolution of the given width and height.
    pub fn new(width: u32, height: u32) -> (r: Resolution)
        ensures
            r.width == width,
            r.height == height,
    {
        Resolution { width, height }
    }

    /// Executable form of [`Resolution::meets_floor`].
    pub fn is_selectable(&self) -> (b: bool)
        ensures
            b == self.meets_floor(),
    {
        self.width >= MIN_WIDTH && self.height >= MIN_HEIGHT
    }

    /// Executable form of [`Resolution::precedes`].
    pub fn comes_before(&self, other: &Resolution) -> (b: bool)
        ensures
            b == self.precedes(*other),
    {
        self.width < other.width || (self.width == other.width && self.height < other.height)
    }
}

/// Every element precedes every later one, so no pair occurs twice.
pub open spec fn strictly_ascending(s: Seq<Resolution>) -> bool {
    forall|i: int, j: int| 0 <= i < j < s.len() ==> (#[trigger] s[i]).precedes(#[trigger] s[j])
}

/// What the selection list holds, given the modes that the display reported:
/// exactly the reported modes that meet the floor.
pub open spec fn offers(list: Seq<Resolution>, reported: Seq<Resolution>) -> bool {
    forall|r: Resolution| #[trigger] list.contains(r) <==> (reported.contains(r) && r.meets_floor())
}

/// Two strictly ascending lists with the same elements are the same list:
/// the order and the elements together fix the selection list.
pub proof fn lemma_ascending_list_is_unique(a: Seq<Resolution>, b: Seq<Resolution>)
    requires
        strictly_ascending(a),
        strictly_ascending(b),
        forall|r: Resolution| a.contains(r) <==> b.contains(r),
    ensures
        a == b,
    decreases a.len(),
{
    if a.len() == 0 {
        if b.len() > 0 {
            assert(b.contains(b[0]));
        }
        assert(a =~= b);
    } else {
        assert(a.contains(a[0]));
        assert(b.len() > 0);
        assert(b.contains(b[0]));
        let i = choose|i: int| 0 <= i < b.len() && b[i] == a[0];
        let j = choose|j: int| 0 <= j < a.len() && a[j] == b[0];
        // a[0] is the least of a and b[0] the least of b, and each occurs in
        // the other list.
        if i > 0 {
            assert(b[0].precedes(b[i]));
            if j > 0 {
                assert(a[0].precedes(a[j]));
            }
        }
        assert(a[0] == b[0]);
        let at = a.drop_first();
        let bt = b.drop_first();
        assert(strictly_ascending(at)) by {
            assert forall|x: int, y: int| 0 <= x < y < at.len() implies (#[trigger] at[x]).precedes(
                #[trigger] at[y],
            ) by {
                assert(a[x + 1].precedes(a[y + 1]));
            }
        }
        assert(strictly_ascending(bt)) by {
            assert forall|x: int, y: int| 0 <= x < y < bt.len() implies (#[trigger] bt[x]).precedes(
                #[trigger] bt[y],
            ) by {
                assert(b[x + 1].precedes(b[y + 1]));
            }
        }
        assert forall|r: Resolution| at.contains(r) <==> bt.contains(r) by {
            if at.contains(r) {
                let k = choose|k: int| 0 <= k < at.len() && at[k] == r;
                assert(a[k + 1] == r);
                assert(a[0].precedes(a[k + 1]));
                assert(a.contains(r));
                let m = choose|m: int| 0 <= m < b.len() && b[m] == r;
                assert(m != 0);
                assert(bt[m - 1] == r);
            }
            if bt.contains(r) {
                let k = choose|k: int| 0 <= k < bt.len() && bt[k] == r;
                assert(b[k + 1] == r);
                assert(b[0].precedes(b[k + 1]));
                assert(b.contains(r));
                let m = choose|m: int| 0 <= m < a.len() && a[m] == r;
                assert(m != 0);
                assert(at[m - 1] == r);
            }
        }
        lemma_ascending_list_is_unique(at, bt);
        assert(a =~= seq![a[0]] + at);
        assert(b =~= seq![b[0]] + bt);
    }
}

/// The display modes of the system, as the selection list presents them.
pub struct ResolutionManager;

impl ResolutionManager {
    /// Builds the selection list from the modes that the display reported,
    /// in the order reported: modes under the floor are left out, a mode
    /// reported several times is listed once, and the list ascends by width,
    /// then height.
    pub fn list_available(reported: &Vec<Resolution>) -> (list: Vec<Resolution>)
        ensures
            strictly_ascending(list@),
            list@.no_duplicates(),
            offers(list@, reported@),
            forall|i: int| 0 <= i < list@.len() ==> (#[trigger] list@[i]).meets_floor(),
    {
        let mut list: Vec<Resolution> = Vec::new();
        let mut n: usize = 0;
        while n < reported.len()
            invariant
                n <= reported.len(),
                strictly_ascending(list@),
                offers(list@, reported@.take(n as int)),
            decreases reported.len() - n,
        {
            let mode = reported[n];
            proof {
                assert(reported@.take(n as int + 1) =~= reported@.take(n as int).push(mode));
            }
            let ghost before = list@;
            if mode.is_selectable() {
                let mut at: usize = 0;
                while at < list.len() && list[at].comes_before(&mode)
                    invariant
                        at <= list.len(),
                        forall|k: int| 0 <= k < at ==> (#[trigger] list@[k]).precedes(mode),
                    decreases list.len() - at,
                {
                    at += 1;
                }
                if at < list.len() && list[at] == mode {
                    proof {
                        assert(list@.contains(mode));
                    }
                } else {
                    list.insert(at, mode);
                    proof {
                        let p = at as int;
                        assert forall|i: int, j: int| 0 <= i < j < list@.len() implies (
                        #[trigger] list@[i]).precedes(#[trigger] list@[j]) by {
                            if j < p {
                                assert(before[i].precedes(before[j]));
                            } else if j == p {
                                assert(before[i].precedes(mode));
                            } else if i < p {
                                assert(before[i].precedes(before[j - 1]));
                            } else if i == p {
                                // `mode` differs from before[p] and does not follow it
                                assert(!before[p].precedes(mode));
                                if j - 1 > p {
                                    assert(before[p].precedes(before[j - 1]));
                                }
                            } else {
                                assert(before[i - 1].precedes(before[j - 1]));
                            }
                        }
                        assert forall|r: Resolution| #[trigger]
                            list@.contains(r) <==> (before.contains(r) || r == mode) by {
                            if before.contains(r) {
                                let k = choose|k: int| 0 <= k < before.len() && before[k] == r;
                                if k < p {
                                    assert(list@[k] == r);
                                } else {
                                    assert(list@[k + 1] == r);
                                }
                            }
                            if r == mode {
                                assert(list@[p] == r);
                            }
                            if list@.contains(r) {
                                let k = choose|k: int| 0 <= k < list@.len() && list@[k] == r;
                                if k < p {
                                    assert(before[k] == r);
                                } else if k > p {
                                    assert(before[k - 1] == r);
                                }
                            }
                        }
                    }
                }
            }
            proof {
                let seen = reported@.take(n as int);
                let next = seen.push(mode);
                assert forall|r: Resolution| #[trigger]
                    list@.contains(r) <==> (next.contains(r) && r.meets_floor()) by {
                    assert(before.contains(r) <==> (seen.contains(r) && r.meets_floor()));
                    if seen.contains(r) {
                        let k = choose|k: int| 0 <= k < seen.len() && seen[k] == r;
                        assert(next[k] == r);
                    }
                    assert(next[next.len() - 1] == mode);
                    if next.contains(r) {
                        let k = choose|k: int| 0 <= k < next.len() && next[k] == r;
                        if k < seen.len() {
                            assert(seen[k] == r);
                        }
                    }
                }
            }
            n += 1;
        }
        proof {
            assert(reported@.take(n as int) =~= reported@);
            assert forall|i: int, j: int| 0 <= i < j < list@.len() implies list@[i] != list@[j] by {
                assert(list@[i].precedes(list@[j]));
            }
            assert forall|i: int| 0 <= i < list@.len() implies (#[trigger] list@[i]).meets_floor() by {
                assert(list@.contains(list@[i]));
            }
        }
        list
    }
}

} // verus!
