//! Text as sequences of characters: the small operations on `str` and
//! `String` that the rest of the library is built from.

use vstd::prelude::*;
use vstd::std_specs::iter::IteratorSpec;
use vstd::string::*;

verus! {

/// Trusted, not proved: `String::push` of the standard library appends the
/// given character to the end of the string and leaves what stood there.
pub assume_specification[ String::push ](s: &mut String, ch: char)
    ensures
        final(s)@ == old(s)@.push(ch),
;

/// The characters of `text`, in order.
pub fn chars_of(text: &str) -> (out: Vec<char>)
    ensures
        out@ == text@,
{
    let mut out: Vec<char> = Vec::new();
    for c in it: text.chars()
        invariant
            it.seq() == text@,
            out@ == it.seq().take(it.index()),
    {
        out.push(c);
        proof {
            assert(it.seq().take(it.index() + 1) =~= it.seq().take(it.index()).push(c));
        }
    }
    proof {
        assert(text@.take(text@.len() as int) =~= text@);
    }
    out
}

/// Whether `line` begins with `prefix`.
pub fn has_prefix(line: &str, prefix: &str) -> (b: bool)
    ensures
        b == prefix@.is_prefix_of(line@),
{
    let mut rest = line.chars();
    for c in it: prefix.chars()
        invariant
            it.seq() == prefix@,
            rest.remaining() == line@.skip(it.index()),
            it.index() <= line@.len(),
            forall|k: int| 0 <= k < it.index() ==> line@[k] == prefix@[k],
    {
        match rest.next() {
            Some(d) => {
                if d != c {
                    proof {
                        let i = it.index();
                        if prefix@.len() <= line@.len() {
                            assert(line@.subrange(0, prefix@.len() as int)[i] == line@[i]);
                        }
                    }
                    return false;
                }
                proof {
                    assert(line@.skip(it.index()).drop_first() =~= line@.skip(it.index() + 1));
                }
            },
            None => {
                return false;
            },
        }
    }
    proof {
        assert(prefix@ =~= line@.subrange(0, prefix@.len() as int));
    }
    true
}

/// The character that stands for a decimal digit.
pub open spec fn digit_char(d: int) -> char {
    if d == 0 {
        '0'
    } else if d == 1 {
        '1'
    } else if d == 2 {
        '2'
    } else if d == 3 {
        '3'
    } else if d == 4 {
        '4'
    } else if d == 5 {
        '5'
    } else if d == 6 {
        '6'
    } else if d == 7 {
        '7'
    } else if d == 8 {
        '8'
    } else {
        '9'
    }
}

/// A number in decimal notation, without sign or leading zeros.
pub open spec fn decimal(n: nat) -> Seq<char>
    decreases n,
{
    if n < 10 {
        seq![digit_char(n as int)]
    } else {
        decimal(n / 10).push(digit_char((n % 10) as int))
    }
}

/// Executable form of [`digit_char`].
pub fn digit_of(d: u64) -> (c: char)
    requires
        d < 10,
    ensures
        c == digit_char(d as int),
{
    match d {
        0 => '0',
        1 => '1',
        2 => '2',
        3 => '3',
        4 => '4',
        5 => '5',
        6 => '6',
        7 => '7',
        8 => '8',
        _ => '9',
    }
}

/// Appends `n` in decimal notation to `out`.
pub fn push_decimal(out: &mut String, n: u64)
    ensures
        final(out)@ == old(out)@ + decimal(n as nat),
    decreases n,
{
    if n >= 10 {
        push_decimal(out, n / 10);
    }
    out.push(digit_of(n % 10));
}

/// `n` in decimal notation.
pub fn decimal_string(n: u64) -> (out: String)
    ensures
        out@ == decimal(n as nat),
{
    let mut out = String::new();
    push_decimal(&mut out, n);
    out
}

/// The characters `chars[from..to]` as a string.
pub fn string_from(chars: &Vec<char>, from: usize, to: usize) -> (out: String)
    requires
        from <= to <= chars.len(),
    ensures
        out@ == chars@.subrange(from as int, to as int),
{
    let mut out = String::new();
    let mut i: usize = from;
    while i < to
        invariant
            from <= i <= to <= chars.len(),
            out@ == chars@.subrange(from as int, i as int),
        decreases to - i,
    {
        out.push(chars[i]);
        proof {
            assert(chars@.subrange(from as int, i as int + 1) =~= chars@.subrange(
                from as int,
                i as int,
            ).push(chars@[i as int]));
        }
        i += 1;
    }
    out
}

/// How many characters precede the first line feed of `text`; its length
/// where it holds none.
pub open spec fn line_end(text: Seq<char>) -> nat
    decreases text.len(),
{
    if text.len() == 0 || text[0] == '\n' {
        0
    } else {
        1 + line_end(text.drop_first())
    }
}

/// `line` without the carriage return at its end, if it has one.
pub open spec fn without_cr(line: Seq<char>) -> Seq<char> {
    if line.len() > 0 && line.last() == '\r' {
        line.drop_last()
    } else {
        line
    }
}

/// The lines of a text. A line ends at a line feed, which is not part of
/// it, nor is a carriage return directly before that line feed. What follows
/// the last line feed is a line too, unless it is empty.
pub open spec fn lines_of(text: Seq<char>) -> Seq<Seq<char>>
    decreases text.len(),
{
    if text.len() == 0 {
        Seq::empty()
    } else {
        let n = line_end(text) as int;
        if n < text.len() {
            seq![without_cr(text.take(n))] + lines_of(text.skip(n + 1))
        } else {
            seq![text]
        }
    }
}

/// The text made of the given lines, each followed by a line feed.
pub open spec fn text_of(lines: Seq<Seq<char>>) -> Seq<char>
    decreases lines.len(),
{
    if lines.len() == 0 {
        Seq::empty()
    } else {
        text_of(lines.drop_last()) + lines.last().push('\n')
    }
}

/// `line_end` is the position of the first line feed.
pub proof fn lemma_line_end(text: Seq<char>, k: int)
    requires
        0 <= k <= text.len(),
        forall|j: int| 0 <= j < k ==> text[j] != '\n',
        k == text.len() || text[k] == '\n',
    ensures
        line_end(text) == k,
    decreases k,
{
    if k > 0 {
        lemma_line_end(text.drop_first(), k - 1);
    }
}

/// No line feed stands before the end of the first line, and one stands at
/// it unless the text ends there.
pub proof fn lemma_line_end_is_first_line_feed(text: Seq<char>)
    ensures
        line_end(text) <= text.len(),
        forall|j: int| 0 <= j < line_end(text) ==> text[j] != '\n',
        line_end(text) < text.len() ==> text[line_end(text) as int] == '\n',
    decreases text.len(),
{
    if text.len() > 0 && text[0] != '\n' {
        let rest = text.drop_first();
        lemma_line_end_is_first_line_feed(rest);
        assert forall|j: int| 0 <= j < line_end(text) implies text[j] != '\n' by {
            if j > 0 {
                assert(rest[j - 1] == text[j]);
            }
        }
    }
}

/// A line that can be written to a text and read back as it is: it holds no
/// line feed and does not end in a carriage return.
pub open spec fn is_plain_line(line: Seq<char>) -> bool {
    &&& forall|j: int| 0 <= j < line.len() ==> line[j] != '\n'
    &&& line.len() > 0 ==> line.last() != '\r'
}

/// No line of a text holds a line feed.
pub proof fn lemma_lines_hold_no_line_feed(text: Seq<char>)
    ensures
        forall|i: int, j: int|
            0 <= i < lines_of(text).len() && 0 <= j < lines_of(text)[i].len() ==> #[trigger] lines_of(
                text,
            )[i][j] != '\n',
    decreases text.len(),
{
    if text.len() > 0 {
        lemma_line_end_is_first_line_feed(text);
        let n = line_end(text) as int;
        if n < text.len() {
            let first = without_cr(text.take(n));
            let rest = lines_of(text.skip(n + 1));
            lemma_lines_hold_no_line_feed(text.skip(n + 1));
            assert forall|i: int, j: int|
                0 <= i < lines_of(text).len() && 0 <= j < lines_of(text)[i].len() implies #[trigger] lines_of(
                text,
            )[i][j] != '\n' by {
                if i == 0 {
                    assert(lines_of(text)[0] == first);
                    assert(first[j] == text[j]);
                } else {
                    assert(lines_of(text)[i] == rest[i - 1]);
                }
            }
        }
    }
}

/// The text of some lines begins with the first line and its line feed.
pub proof fn lemma_text_of_first(first: Seq<char>, rest: Seq<Seq<char>>)
    ensures
        text_of(seq![first] + rest) == first.push('\n') + text_of(rest),
    decreases rest.len(),
{
    let all = seq![first] + rest;
    if rest.len() == 0 {
        assert(all.drop_last() =~= Seq::<Seq<char>>::empty());
        assert(text_of(all.drop_last()) =~= Seq::<char>::empty());
        assert(text_of(all) =~= first.push('\n') + text_of(rest));
    } else {
        lemma_text_of_first(first, rest.drop_last());
        assert(all.drop_last() =~= seq![first] + rest.drop_last());
        assert(all.last() == rest.last());
        assert(text_of(all) =~= first.push('\n') + text_of(rest));
    }
}

/// Lines that are written to a text are read back as they were, provided
/// that none of them holds a line feed or ends in a carriage return.
pub proof fn lemma_lines_of_written_text(lines: Seq<Seq<char>>)
    requires
        forall|i: int| 0 <= i < lines.len() ==> is_plain_line(#[trigger] lines[i]),
    ensures
        lines_of(text_of(lines)) == lines,
    decreases lines.len(),
{
    if lines.len() == 0 {
        assert(lines_of(text_of(lines)) =~= lines);
    } else {
        let first = lines[0];
        let rest = lines.drop_first();
        assert(lines =~= seq![first] + rest);
        lemma_text_of_first(first, rest);
        let text = text_of(lines);
        assert(text =~= first.push('\n') + text_of(rest));
        assert(is_plain_line(lines[0]));
        assert forall|j: int| 0 <= j < first.len() implies text[j] != '\n' by {
            assert(text[j] == first[j]);
        }
        assert(text[first.len() as int] == '\n');
        lemma_line_end(text, first.len() as int);
        assert(text.take(first.len() as int) =~= first);
        assert(text.skip(first.len() as int + 1) =~= text_of(rest));
        assert forall|i: int| 0 <= i < rest.len() implies is_plain_line(#[trigger] rest[i]) by {
            assert(rest[i] == lines[i + 1]);
        }
        lemma_lines_of_written_text(rest);
        assert(lines_of(text) =~= seq![first] + rest);
    }
}

/// A number in decimal notation is made of digits only.
pub proof fn lemma_decimal_is_plain(n: nat)
    ensures
        decimal(n).len() > 0,
        forall|j: int| 0 <= j < decimal(n).len() ==> '0' <= #[trigger] decimal(n)[j] <= '9',
    decreases n,
{
    if n >= 10 {
        lemma_decimal_is_plain(n / 10);
    }
}

/// Splits `text` into its lines.
pub fn split_lines(text: &str) -> (lines: Vec<String>)
    ensures
        lines.deep_view() == lines_of(text@),
{
    let buf = chars_of(text);
    let mut lines: Vec<String> = Vec::new();
    let mut start: usize = 0;
    let mut i: usize = 0;
    proof {
        assert(buf@.skip(0) =~= buf@);
        assert(lines.deep_view() =~= Seq::<Seq<char>>::empty());
    }
    while i < buf.len()
        invariant
            start <= i <= buf.len(),
            buf@ == text@,
            forall|j: int| start <= j < i ==> buf@[j] != '\n',
            lines_of(buf@) == lines.deep_view() + lines_of(buf@.skip(start as int)),
        decreases buf.len() - i,
    {
        if buf[i] == '\n' {
            let end = if i > start && buf[i - 1] == '\r' {
                i - 1
            } else {
                i
            };
            let line = string_from(&buf, start, end);
            proof {
                let rest = buf@.skip(start as int);
                let n = i - start;
                lemma_line_end(rest, n);
                assert(rest.take(n) =~= buf@.subrange(start as int, i as int));
                assert(rest.skip(n + 1) =~= buf@.skip(i as int + 1));
                assert(line@ =~= without_cr(rest.take(n)));
                assert(lines.deep_view().push(line@) + lines_of(buf@.skip(i as int + 1))
                    =~= lines.deep_view() + lines_of(rest));
            }
            let ghost before = lines.deep_view();
            lines.push(line);
            proof {
                assert(lines.deep_view() =~= before.push(line@));
            }
            start = i + 1;
        }
        i += 1;
    }
    if start < buf.len() {
        let line = string_from(&buf, start, buf.len());
        proof {
            let rest = buf@.skip(start as int);
            lemma_line_end(rest, rest.len() as int);
            assert(line@ =~= rest);
        }
        let ghost before = lines.deep_view();
        lines.push(line);
        proof {
            assert(lines.deep_view() =~= before.push(line@));
        }
    }
    lines
}

/// Joins `lines` into one text, ending each with a line feed.
pub fn join_lines(lines: &Vec<String>) -> (text: String)
    ensures
        text@ == text_of(lines.deep_view()),
{
    let mut text = String::new();
    let mut i: usize = 0;
    while i < lines.len()
        invariant
            i <= lines.len(),
            text@ == text_of(lines.deep_view().take(i as int)),
        decreases lines.len() - i,
    {
        text.append(lines[i].as_str());
        text.push('\n');
        proof {
            let all = lines.deep_view();
            assert(all.take(i as int + 1).drop_last() =~= all.take(i as int));
            assert(all.take(i as int + 1).last() == lines@[i as int]@);
        }
        i += 1;
    }
    proof {
        assert(lines.deep_view().take(i as int) =~= lines.deep_view());
    }
    text
}

/// Whether two texts hold the same characters.
pub fn same_text(a: &str, b: &str) -> (same: bool)
    ensures
        same == (a@ == b@),
{
    let mut rest = b.chars();
    for c in it: a.chars()
        invariant
            it.seq() == a@,
            rest.remaining() == b@.skip(it.index()),
            it.index() <= b@.len(),
            forall|k: int| 0 <= k < it.index() ==> a@[k] == b@[k],
    {
        match rest.next() {
            Some(d) => {
                if c != d {
                    return false;
                }
                proof {
                    assert(b@.skip(it.index()).drop_first() =~= b@.skip(it.index() + 1));
                }
            },
            None => {
                return false;
            },
        }
    }
    let same = rest.next().is_none();
    proof {
        if same {
            assert(a@ =~= b@);
        }
    }
    same
}

/// The number that a decimal digit stands for.
pub open spec fn digit_value(c: char) -> Option<nat> {
    if '0' <= c <= '9' {
        Some((c as nat - '0' as nat) as nat)
    } else {
        None
    }
}

/// The number that a run of decimal digits stands for; `None` where a
/// character is no digit. The empty run stands for 0.
pub open spec fn digits_value(s: Seq<char>) -> Option<nat>
    decreases s.len(),
{
    if s.len() == 0 {
        Some(0)
    } else {
        match (digits_value(s.drop_last()), digit_value(s.last())) {
            (Some(v), Some(d)) => Some(v * 10 + d),
            _ => None,
        }
    }
}

/// The number that a text stands for: one or more decimal digits, with or
/// without a plus sign before them, that give a number no greater than
/// `u32::MAX`. `None` for any other text.
pub open spec fn parsed_u32(s: Seq<char>) -> Option<u32> {
    let digits = if s.len() > 0 && s[0] == '+' {
        s.drop_first()
    } else {
        s
    };
    if digits.len() == 0 {
        None
    } else {
        match digits_value(digits) {
            Some(v) => if v <= u32::MAX {
                Some(v as u32)
            } else {
                None
            },
            None => None,
        }
    }
}

/// A run of digits stands for no less than any of its beginnings, and where
/// a beginning holds another character, so does the run.
proof fn lemma_digits_value_grows(s: Seq<char>, n: int)
    requires
        0 <= n <= s.len(),
    ensures
        digits_value(s.take(n)) is None ==> digits_value(s) is None,
        digits_value(s) matches Some(v) ==> digits_value(s.take(n)) matches Some(p) && p <= v,
    decreases s.len() - n,
{
    if n == s.len() {
        assert(s.take(n) =~= s);
    } else {
        lemma_digits_value_grows(s, n + 1);
        assert(s.take(n + 1).drop_last() =~= s.take(n));
    }
}

/// The digits of a number in decimal notation stand for that number.
proof fn lemma_decimal_digits_value(n: nat)
    ensures
        digits_value(decimal(n)) == Some(n),
        decimal(n).len() > 0,
        decimal(n)[0] != '+',
    decreases n,
{
    if n < 10 {
        let s = decimal(n);
        assert(s.drop_last() =~= Seq::<char>::empty());
        assert(digits_value(s.drop_last()) == Some(0nat));
        assert(s.last() == digit_char(n as int));
    } else {
        lemma_decimal_digits_value(n / 10);
        let s = decimal(n);
        assert(s.drop_last() =~= decimal(n / 10));
        assert(s.last() == digit_char((n % 10) as int));
        assert(s[0] == decimal(n / 10)[0]);
    }
}

/// Reading a number that was written in decimal notation gives the number
/// back.
pub proof fn lemma_decimal_parses(n: u32)
    ensures
        parsed_u32(decimal(n as nat)) == Some(n),
{
    lemma_decimal_digits_value(n as nat);
}

/// Reads a number as [`parsed_u32`] says.
pub fn parse_u32(text: &str) -> (out: Option<u32>)
    ensures
        out == parsed_u32(text@),
{
    let buf = chars_of(text);
    let start: usize = if buf.len() > 0 && buf[0] == '+' {
        1
    } else {
        0
    };
    if start == buf.len() {
        return None;
    }
    let ghost digits = buf@.skip(start as int);
    let mut value: u64 = 0;
    let mut i: usize = start;
    proof {
        assert(digits.take(0) =~= Seq::<char>::empty());
        assert(text@.skip(0) =~= text@);
        assert(text@.drop_first() =~= text@.skip(1));
    }
    while i < buf.len()
        invariant
            start <= i <= buf.len(),
            start < buf.len(),
            buf@ == text@,
            digits == if text@.len() > 0 && text@[0] == '+' {
                text@.drop_first()
            } else {
                text@
            },
            digits == buf@.skip(start as int),
            digits_value(digits.take(i - start)) == Some(value as nat),
            value <= u32::MAX,
        decreases buf.len() - i,
    {
        let c = buf[i];
        proof {
            let n = i - start;
            assert(digits.take(n + 1).drop_last() =~= digits.take(n));
            assert(digits.take(n + 1).last() == c);
            lemma_digits_value_grows(digits, n + 1);
        }
        if !('0' <= c && c <= '9') {
            return None;
        }
        let d = (c as u64) - ('0' as u64);
        value = value * 10 + d;
        if value > 0xffff_ffff {
            return None;
        }
        i += 1;
    }
    proof {
        assert(digits.take(digits.len() as int) =~= digits);
    }
    Some(value as u32)
}

} // verus!
