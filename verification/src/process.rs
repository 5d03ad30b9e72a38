//! The watch on the game's process: whether it runs, judged from a listing
//! of the system's processes, and what a waiting host does next.

use vstd::prelude::*;
use vstd::std_specs::iter::IteratorSpec;
use vstd::string::*;

verus! {

/// How long a waiting host sleeps between two listings, in seconds.
pub const POLL_INTERVAL_SECS: u64 = 2;

/// The file name of the game's executable.
pub open spec fn game_process_name() -> Seq<char> {
    "VALORANT-Win64-Shipping.exe"@
}

/// The lower-case form of an upper-case ASCII letter; any other character
/// as it is.
pub open spec fn ascii_lower(c: char) -> char {
    if 'A' <= c <= 'Z' {
        ((c as u8) + 32) as char
    } else {
        c
    }
}

/// Whether two names are the same but for the case of their ASCII letters.
pub open spec fn same_name(a: Seq<char>, b: Seq<char>) -> bool {
    &&& a.len() == b.len()
    &&& forall|i: int| 0 <= i < a.len() ==> ascii_lower(#[trigger] a[i]) == ascii_lower(b[i])
}

/// The file name of a path: what follows its last backslash, or all of it
/// where it holds none.
pub open spec fn file_name(path: Seq<char>) -> Seq<char>
    decreases path.len(),
{
    if path.len() == 0 {
        path
    } else if path.last() == '\\' {
        Seq::empty()
    } else {
        file_name(path.drop_last()).push(path.last())
    }
}

/// One process of a listing: its identifier and the path of its executable,
/// where the system gave it.
#[derive(Debug, Clone)]
pub struct ProcessEntry {
    pub pid: u32,
    pub image_path: Option<String>,
}

impl ProcessEntry {
    /// Whether the process runs the executable called `name`. A process with
    /// the identifier 0, or without a path, or with an empty one, runs none
    /// that could be told.
    pub open spec fn runs(self, name: Seq<char>) -> bool {
        &&& self.pid != 0
        &&& self.image_path matches Some(path)
        &&& path@.len() > 0
        &&& same_name(file_name(path@), name)
    }
}

/// Whether `at` is the place of the first process in `table` that runs
/// `name`.
pub open spec fn is_first_running(table: Seq<ProcessEntry>, name: Seq<char>, at: int) -> bool {
    &&& 0 <= at < table.len()
    &&& table[at].runs(name)
    &&& forall|k: int| 0 <= k < at ==> !(#[trigger] table[k]).runs(name)
}

/// Whether a listing shows a process that runs `name`. A listing that could
/// not be made shows none.
pub open spec fn shows(listing: Option<Vec<ProcessEntry>>, name: Seq<char>) -> bool {
    listing matches Some(table) && exists|i: int|
        0 <= i < table@.len() && (#[trigger] table@[i]).runs(name)
}

/// Whether `pid` identifies the first process in the listing that runs
/// `name`.
pub open spec fn is_first_shown(listing: Option<Vec<ProcessEntry>>, name: Seq<char>, pid: u32) -> bool {
    listing matches Some(table) && exists|at: int| #[trigger]
        is_first_running(table@, name, at) && table@[at].pid == pid
}

/// What a host waits for.
#[derive(Debug, Clone, Copy, PartialEq, Eq, Structural)]
pub enum Wait {
    /// For the game's process to come up.
    ForStart,
    /// For the game's process to go.
    ForExit,
}

/// What a waiting host does next.
#[derive(Debug, Clone, Copy, PartialEq, Eq, Structural)]
pub enum Poll {
    /// What was waited for has come: stop waiting.
    Ready,
    /// Sleep for so many seconds, list the processes anew and ask again.
    Sleep { seconds: u64 },
    /// The wait was called off: stop waiting, and do not go on with what was
    /// to follow it.
    Cancelled,
}

/// What a host does that waits for the game to come up, given the newest
/// listing: it is done as soon as the listing shows the game's process, and
/// sleeps for the poll interval before the next listing otherwise.
pub open spec fn poll_for_start(listing: Option<Vec<ProcessEntry>>) -> Poll {
    if shows(listing, game_process_name()) {
        Poll::Ready
    } else {
        Poll::Sleep { seconds: POLL_INTERVAL_SECS }
    }
}

/// What a host does that waits for the game to go, given the newest
/// listing: it is done as soon as the listing does not show the game's
/// process, and sleeps for the poll interval before the next listing
/// otherwise.
pub open spec fn poll_for_exit(listing: Option<Vec<ProcessEntry>>) -> Poll {
    if shows(listing, game_process_name()) {
        Poll::Sleep { seconds: POLL_INTERVAL_SECS }
    } else {
        Poll::Ready
    }
}

/// What a host does whose wait can be called off, given the newest listing
/// and whether the wait has been called off by now. Calling off counts
/// before anything that the listing shows; a wait that goes on is decided as
/// by [`poll_for_start`] and [`poll_for_exit`], so it has no time limit.
pub open spec fn poll_decision(wait: Wait, listing: Option<Vec<ProcessEntry>>, cancelled: bool) -> Poll {
    if cancelled {
        Poll::Cancelled
    } else {
        match wait {
            Wait::ForStart => poll_for_start(listing),
            Wait::ForExit => poll_for_exit(listing),
        }
    }
}

/// A host that waits for the game to come up, and lists the processes once
/// per poll interval, waits through every listing that does not show the
/// game and is done at the first that does: never before the game is seen,
/// and no later than the first listing after it came up.
pub proof fn lemma_wait_for_start_ends_at_first_sighting(
    listings: Seq<Option<Vec<ProcessEntry>>>,
    at: int,
)
    requires
        0 <= at < listings.len(),
        forall|k: int| 0 <= k < at ==> !shows(#[trigger] listings[k], game_process_name()),
        shows(listings[at], game_process_name()),
    ensures
        forall|k: int|
            0 <= k < at ==> poll_for_start(#[trigger] listings[k]) == (Poll::Sleep {
                seconds: POLL_INTERVAL_SECS,
            }),
        poll_for_start(listings[at]) == Poll::Ready,
{
}

/// A host that waits for the game to go, and lists the processes once per
/// poll interval, waits through every listing that shows the game and is
/// done at the first that does not: never while the game is seen, and no
/// later than the first listing after it went. A listing that could not be
/// made counts as one that does not show the game.
pub proof fn lemma_wait_for_exit_ends_at_first_absence(
    listings: Seq<Option<Vec<ProcessEntry>>>,
    at: int,
)
    requires
        0 <= at < listings.len(),
        forall|k: int| 0 <= k < at ==> shows(#[trigger] listings[k], game_process_name()),
        !shows(listings[at], game_process_name()),
    ensures
        forall|k: int|
            0 <= k < at ==> poll_for_exit(#[trigger] listings[k]) == (Poll::Sleep {
                seconds: POLL_INTERVAL_SECS,
            }),
        poll_for_exit(listings[at]) == Poll::Ready,
{
}

/// Executable form of [`ascii_lower`].
pub fn to_ascii_lower(c: char) -> (l: char)
    ensures
        l == ascii_lower(c),
{
    if 'A' <= c && c <= 'Z' {
        ((c as u8) + 32) as char
    } else {
        c
    }
}

/// Whether two names are the same but for the case of their ASCII letters.
pub fn eq_ignore_ascii_case(a: &str, b: &str) -> (same: bool)
    ensures
        same == same_name(a@, b@),
{
    let mut rest = b.chars();
    for c in it: a.chars()
        invariant
            it.seq() == a@,
            rest.remaining() == b@.skip(it.index()),
            it.index() <= b@.len(),
            forall|k: int| 0 <= k < it.index() ==> ascii_lower(#[trigger] a@[k]) == ascii_lower(b@[k]),
    {
        match rest.next() {
            Some(d) => {
                if to_ascii_lower(c) != to_ascii_lower(d) {
                    return false;
                }
                proof {
                    assert(b@.skip(it.index()).drop_first() =~= b@.skip(it.index() + 1));
                }
            },
            None => {
                return false;
            },
        }
    }
    rest.next().is_none()
}

/// The file name of `path`.
pub fn file_name_of(path: &str) -> (name: String)
    ensures
        name@ == file_name(path@),
{
    let mut name = String::new();
    for c in it: path.chars()
        invariant
            it.seq() == path@,
            name@ == file_name(path@.take(it.index())),
    {
        proof {
            let i = it.index();
            assert(path@.take(i + 1).drop_last() =~= path@.take(i));
            assert(path@.take(i + 1).last() == c);
        }
        if c == '\\' {
            name = String::new();
        } else {
            name.push(c);
        }
    }
    proof {
        assert(path@.take(path@.len() as int) =~= path@);
    }
    name
}

/// The processes of the system, as a listing shows them.
pub struct ProcessManager;

impl ProcessManager {
    /// Whether `entry` runs the executable called `name`.
    pub fn entry_runs(entry: &ProcessEntry, name: &str) -> (b: bool)
        ensures
            b == entry.runs(name@),
    {
        if entry.pid == 0 {
            return false;
        }
        match &entry.image_path {
            Some(path) => {
                if path.as_str().is_empty() {
                    false
                } else {
                    let file = file_name_of(path.as_str());
                    eq_ignore_ascii_case(file.as_str(), name)
                }
            },
            None => false,
        }
    }

    /// The identifier of the first process in the listing that runs the
    /// executable called `name`; `None` where there is none, or where the
    /// listing could not be made.
    pub fn find_process(listing: &Option<Vec<ProcessEntry>>, name: &str) -> (found: Option<u32>)
        ensures
            found is Some <==> shows(*listing, name@),
            found matches Some(pid) ==> is_first_shown(*listing, name@, pid),
    {
        match listing {
            None => None,
            Some(table) => {
                let mut i: usize = 0;
                while i < table.len()
                    invariant
                        i <= table.len(),
                        *listing == Some(*table),
                        forall|k: int| 0 <= k < i ==> !(#[trigger] table@[k]).runs(name@),
                    decreases table.len() - i,
                {
                    if Self::entry_runs(&table[i], name) {
                        proof {
                            assert(is_first_running(table@, name@, i as int));
                            assert(listing->0@[i as int].runs(name@));
                            assert(shows(*listing, name@));
                        }
                        return Some(table[i].pid);
                    }
                    i += 1;
                }
                None
            },
        }
    }

    /// Whether the listing shows the game's process.
    pub fn is_valorant_running(listing: &Option<Vec<ProcessEntry>>) -> (running: bool)
        ensures
            running == shows(*listing, game_process_name()),
    {
        Self::find_process(listing, "VALORANT-Win64-Shipping.exe").is_some()
    }

    /// What a host does that waits for the game to come up, given the
    /// newest listing.
    pub fn wait_for_valorant_start(listing: &Option<Vec<ProcessEntry>>) -> (next: Poll)
        ensures
            next == poll_for_start(*listing),
    {
        if Self::is_valorant_running(listing) {
            Poll::Ready
        } else {
            Poll::Sleep { seconds: POLL_INTERVAL_SECS }
        }
    }

    /// What a host does whose wait can be called off, given the newest
    /// listing and whether the wait has been called off by now.
    pub fn poll(wait: Wait, listing: &Option<Vec<ProcessEntry>>, cancelled: bool) -> (next: Poll)
        ensures
            next == poll_decision(wait, *listing, cancelled),
    {
        if cancelled {
            Poll::Cancelled
        } else {
            match wait {
                Wait::ForStart => Self::wait_for_valorant_start(listing),
                Wait::ForExit => Self::wait_for_valorant_exit(listing),
            }
        }
    }

    /// What a host does that waits for the game to go, given the newest
    /// listing.
    pub fn wait_for_valorant_exit(listing: &Option<Vec<ProcessEntry>>) -> (next: Poll)
        ensures
            next == poll_for_exit(*listing),
    {
        if Self::is_valorant_running(listing) {
            Poll::Sleep { seconds: POLL_INTERVAL_SECS }
        } else {
            Poll::Ready
        }
    }
}

} // verus!
