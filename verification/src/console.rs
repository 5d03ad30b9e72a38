//! The console: a bounded record of what a session did and when.

use vstd::prelude::*;
use vstd::string::*;

verus! {

/// How many entries the console keeps.
pub const LOG_CAPACITY: usize = 100;

/// The last `n` elements of `s`; all of `s` where it holds no more than `n`.
pub open spec fn keep_last<T>(s: Seq<T>, n: int) -> Seq<T> {
    if s.len() <= n {
        s
    } else {
        s.skip(s.len() - n)
    }
}

/// Appending to a sequence of at most `n` elements and keeping the last `n`
/// gives at most `n` elements again: all of them where there was room, and
/// otherwise all but the oldest.
pub proof fn lemma_append_within_bound<T>(s: Seq<T>, x: T, n: int)
    requires
        1 <= n,
        s.len() <= n,
    ensures
        keep_last(s.push(x), n).len() <= n,
        s.len() < n ==> keep_last(s.push(x), n) == s.push(x),
        s.len() == n ==> keep_last(s.push(x), n) == s.drop_first().push(x),
{
    if s.len() == n {
        assert(keep_last(s.push(x), n) =~= s.drop_first().push(x));
    }
}

/// Whether `c` is a decimal digit.
pub open spec fn is_digit(c: char) -> bool {
    '0' <= c <= '9'
}

/// The number that the two digits at `at` and `at + 1` stand for.
pub open spec fn two_digit_value(s: Seq<char>, at: int) -> int {
    (s[at] as int - '0' as int) * 10 + (s[at + 1] as int - '0' as int)
}

/// A time of day written as hours, minutes and seconds of two digits each,
/// with colons between them. The seconds go up to 60 for a leap second.
pub open spec fn is_clock_stamp(s: Seq<char>) -> bool {
    &&& s.len() == 8
    &&& is_digit(s[0]) && is_digit(s[1]) && s[2] == ':'
    &&& is_digit(s[3]) && is_digit(s[4]) && s[5] == ':'
    &&& is_digit(s[6]) && is_digit(s[7])
    &&& two_digit_value(s, 0) <= 23
    &&& two_digit_value(s, 3) <= 59
    &&& two_digit_value(s, 6) <= 60
}

/// The local time of day: the time that `chrono::Local::now` gives, written
/// by `DateTime::format` with the pattern `%H:%M:%S`. Trusted, not proved:
/// chrono writes each of the three numbers zero-padded to two digits, the
/// hour up to 23, the minute up to 59 and the second up to 60. Which time
/// it is, is not stated, and two calls may give two stamps. chrono panics
/// where the system's clock stands before 1970.
#[verifier::external_body]
fn clock_stamp() -> (stamp: String)
    ensures
        is_clock_stamp(stamp@),
{
    chrono::Local::now().format("%H:%M:%S").to_string()
}

/// An entry of the console as contracts speak of it: its stamp and its
/// message.
pub type Stamped = (Seq<char>, Seq<char>);

/// The messages of the entries, in their order.
pub open spec fn messages_of(entries: Seq<Stamped>) -> Seq<Seq<char>> {
    entries.map_values(|e: Stamped| e.1)
}

/// The entries as the console shows them, in their order.
pub open spec fn shown_lines(entries: Seq<Stamped>) -> Seq<Seq<char>> {
    entries.map_values(|e: Stamped| shown(e.0, e.1))
}

/// A console line as it is shown: the stamp in square brackets, a space, and
/// the message.
pub open spec fn shown(stamp: Seq<char>, message: Seq<char>) -> Seq<char> {
    "["@ + stamp + "] "@ + message
}

/// The entries that pair each message with the stamp at the same place.
pub open spec fn entries_of(stamps: Seq<Seq<char>>, messages: Seq<Seq<char>>) -> Seq<Stamped> {
    Seq::new(messages.len(), |i: int| (stamps[i], messages[i]))
}

/// Whether `after` is what the console holds once `messages` have been
/// logged, in order, to a console that held `before`: the entries of `before`
/// stay as they are and come first, each message has a time of day as its
/// stamp, and only the newest `LOG_CAPACITY` entries are left.
pub open spec fn appended(
    before: Seq<Stamped>,
    after: Seq<Stamped>,
    messages: Seq<Seq<char>>,
) -> bool {
    &&& before.len() <= LOG_CAPACITY
    &&& exists|stamps: Seq<Seq<char>>|
        {
            &&& stamps.len() == messages.len()
            &&& forall|i: int| 0 <= i < stamps.len() ==> is_clock_stamp(#[trigger] stamps[i])
            &&& after == keep_last(
                before + #[trigger] entries_of(stamps, messages),
                LOG_CAPACITY as int,
            )
        }
}

/// Whatever is logged, the console holds at most `LOG_CAPACITY` entries
/// afterwards: all that it held and all that was logged where that is no
/// more, and otherwise the newest `LOG_CAPACITY` of them, so that the oldest
/// entries are the ones that leave. The messages logged stand at the end, in
/// the order in which they were logged.
pub proof fn lemma_appended_is_bounded(
    before: Seq<Stamped>,
    after: Seq<Stamped>,
    messages: Seq<Seq<char>>,
)
    requires
        appended(before, after, messages),
    ensures
        after.len() <= LOG_CAPACITY,
        after.len() == if before.len() + messages.len() <= LOG_CAPACITY {
            before.len() + messages.len()
        } else {
            LOG_CAPACITY as nat
        },
        messages_of(after) == keep_last(
            messages_of(before) + messages,
            LOG_CAPACITY as int,
        ),
        before.len() + messages.len() <= LOG_CAPACITY ==> after.take(before.len() as int) == before,
{
    let stamps = choose|stamps: Seq<Seq<char>>|
        {
            &&& stamps.len() == messages.len()
            &&& forall|i: int| 0 <= i < stamps.len() ==> is_clock_stamp(#[trigger] stamps[i])
            &&& after == keep_last(
                before + #[trigger] entries_of(stamps, messages),
                LOG_CAPACITY as int,
            )
        };
    let all = before + entries_of(stamps, messages);
    assert(messages_of(all) =~= messages_of(before) + messages);
    assert(messages_of(after) =~= keep_last(
        messages_of(before) + messages,
        LOG_CAPACITY as int,
    ));
    if before.len() + messages.len() <= LOG_CAPACITY {
        assert(after.take(before.len() as int) =~= before);
    }
}

/// Logging nothing leaves a console of at most `LOG_CAPACITY` entries as it
/// is.
pub proof fn lemma_appended_nothing(
    before: Seq<Stamped>,
    after: Seq<Stamped>,
)
    requires
        appended(before, after, Seq::empty()),
    ensures
        after == before,
{
    let stamps = choose|stamps: Seq<Seq<char>>|
        {
            &&& stamps.len() == 0
            &&& forall|i: int| 0 <= i < stamps.len() ==> is_clock_stamp(#[trigger] stamps[i])
            &&& after == keep_last(
                before + #[trigger] entries_of(stamps, Seq::empty()),
                LOG_CAPACITY as int,
            )
        };
    assert(before + entries_of(stamps, Seq::empty()) =~= before);
}

/// Cutting to the newest `n` before an element is appended changes nothing
/// of what is left after the next cut.
pub proof fn lemma_keep_last_push<T>(s: Seq<T>, x: T, n: int)
    requires
        1 <= n,
    ensures
        keep_last(keep_last(s, n).push(x), n) == keep_last(s.push(x), n),
{
    assert(keep_last(keep_last(s, n).push(x), n) =~= keep_last(s.push(x), n));
}

/// One entry of the console.
#[derive(Debug, Clone)]
pub struct LogEntry {
    pub stamp: String,
    pub message: String,
}

impl LogEntry {
    /// The entry as the console shows it.
    pub fn render(&self) -> (line: String)
        ensures
            line@ == shown(self.stamp@, self.message@),
    {
        let mut line = String::from_str("[");
        line.append(self.stamp.as_str());
        line.append("] ");
        line.append(self.message.as_str());
        line
    }
}

/// The console of a session. It holds the newest entries only, at most
/// `LOG_CAPACITY` of them, oldest first.
pub struct ConsoleLog {
    entries: Vec<LogEntry>,
}

impl ConsoleLog {
    #[verifier::type_invariant]
    spec fn within_capacity(&self) -> bool {
        self.entries@.len() <= LOG_CAPACITY
    }

    /// The entries, oldest first, each as its stamp and its message.
    pub closed spec fn view(&self) -> Seq<Stamped> {
        self.entries@.map_values(|e: LogEntry| (e.stamp@, e.message@))
    }

    /// The messages of the entries, oldest first.
    pub open spec fn messages(&self) -> Seq<Seq<char>> {
        messages_of(self@)
    }

    /// An empty console.
    pub fn new() -> (log: ConsoleLog)
        ensures
            log@ == Seq::<Stamped>::empty(),
    {
        let log = ConsoleLog { entries: Vec::new() };
        proof {
            assert(log@ =~= Seq::<Stamped>::empty());
        }
        log
    }

    /// How many entries the console holds.
    pub fn len(&self) -> (n: usize)
        ensures
            n == self@.len(),
            n <= LOG_CAPACITY,
    {
        proof {
            use_type_invariant(self);
        }
        self.entries.len()
    }

    /// Appends an entry with the given stamp. Where the console is full, the
    /// oldest entry leaves.
    pub fn record(&mut self, stamp: String, message: String)
        ensures
            final(self)@ == keep_last(old(self)@.push((stamp@, message@)), LOG_CAPACITY as int),
            final(self)@.len() <= LOG_CAPACITY,
    {
        proof {
            use_type_invariant(&*self);
        }
        let ghost before = self@;
        let mut entries: Vec<LogEntry> = Vec::new();
        std::mem::swap(&mut self.entries, &mut entries);
        if entries.len() >= LOG_CAPACITY {
            entries.remove(0);
        }
        entries.push(LogEntry { stamp, message });
        self.entries = entries;
        proof {
            assert(self@ =~= keep_last(before.push((stamp@, message@)), LOG_CAPACITY as int));
        }
    }

    /// Appends an entry stamped with the local time of day. Where the console
    /// is full, the oldest entry leaves.
    pub fn log(&mut self, message: String)
        ensures
            final(self)@.len() > 0,
            is_clock_stamp(final(self)@.last().0),
            final(self)@ == keep_last(
                old(self)@.push((final(self)@.last().0, message@)),
                LOG_CAPACITY as int,
            ),
            final(self).messages() == keep_last(old(self).messages().push(message@), LOG_CAPACITY as int),
            final(self)@.len() <= LOG_CAPACITY,
    {
        let stamp = clock_stamp();
        let ghost before = self@;
        self.record(stamp, message);
        proof {
            assert(self.messages() =~= keep_last(
                messages_of(before).push(message@),
                LOG_CAPACITY as int,
            ));
        }
    }

    /// Logs each of `messages`, in order, as `log` does.
    pub fn log_all(&mut self, messages: &Vec<String>)
        ensures
            appended(old(self)@, final(self)@, messages.deep_view()),
            final(self).messages() == keep_last(
                old(self).messages() + messages.deep_view(),
                LOG_CAPACITY as int,
            ),
            final(self)@.len() <= LOG_CAPACITY,
    {
        let ghost before = self@;
        let ghost all = messages.deep_view();
        let ghost mut stamps: Seq<Seq<char>> = Seq::empty();
        let mut i: usize = 0;
        proof {
            use_type_invariant(&*self);
            assert(before + entries_of(stamps, all.take(0)) =~= before);
        }
        while i < messages.len()
            invariant
                i <= messages.len(),
                all == messages.deep_view(),
                stamps.len() == i,
                forall|k: int| 0 <= k < stamps.len() ==> is_clock_stamp(#[trigger] stamps[k]),
                self@ == keep_last(
                    before + entries_of(stamps, all.take(i as int)),
                    LOG_CAPACITY as int,
                ),
            decreases messages.len() - i,
        {
            let ghost sofar = before + entries_of(stamps, all.take(i as int));
            self.log(messages[i].clone());
            proof {
                let stamp = self@.last().0;
                let entry = (stamp, all[i as int]);
                lemma_keep_last_push(sofar, entry, LOG_CAPACITY as int);
                assert(sofar.push(entry) =~= before + entries_of(
                    stamps.push(stamp),
                    all.take(i as int + 1),
                ));
                stamps = stamps.push(stamp);
            }
            i += 1;
        }
        proof {
            assert(all.take(i as int) =~= all);
            let entries = entries_of(stamps, all);
            assert(messages_of(before + entries)
                =~= messages_of(before) + all);
            assert(self.messages() =~= keep_last(
                messages_of(before) + all,
                LOG_CAPACITY as int,
            ));
        }
    }

    /// Empties the console.
    pub fn clear(&mut self)
        ensures
            final(self)@ == Seq::<Stamped>::empty(),
    {
        self.entries = Vec::new();
        proof {
            assert(self@ =~= Seq::<Stamped>::empty());
        }
    }

    /// The entries as the console shows them, oldest first.
    pub fn lines(&self) -> (out: Vec<String>)
        ensures
            out.deep_view() == shown_lines(self@),
    {
        let mut out: Vec<String> = Vec::new();
        let mut i: usize = 0;
        while i < self.entries.len()
            invariant
                i <= self.entries.len(),
                out@.len() == i,
                forall|k: int|
                    0 <= k < i ==> (#[trigger] out@[k])@ == shown(
                        self.entries@[k].stamp@,
                        self.entries@[k].message@,
                    ),
            decreases self.entries.len() - i,
        {
            out.push(self.entries[i].render());
            i += 1;
        }
        proof {
            assert(out.deep_view() =~= shown_lines(self@));
        }
        out
    }
}

} // verus!
