//! Rehearsal intervals and the small language they are written in.
//!
//! An interval is written as words separated by white space, each a decimal
//! number followed by one unit letter: `s`, `m`, `h`, `d` or `w`. The interval
//! is the sum of the words, in seconds.

use crate::text::{chars_of, decimal, is_number, parse_number};
use vstd::prelude::*;

verus! {

/// Seconds in one day, the interval used when none is configured.
pub const SECONDS_PER_DAY: u64 = 86_400;

/// How long a credential may go without a successful recall, in whole seconds.
#[derive(Clone, Copy, Debug, PartialEq, Eq, Structural)]
pub struct Interval {
    pub secs: u64,
}

impl View for Interval {
    type V = nat;

    open spec fn view(&self) -> nat {
        self.secs as nat
    }
}

/// What is wrong with one word of an interval.
#[derive(Clone, Copy, Debug, PartialEq, Eq, Structural)]
pub enum Fault {
    /// The word does not end in one of the unit letters.
    Unit,
    /// What stands before the unit is not a decimal number that fits 64 bits.
    Number,
    /// With this word the sum no longer fits 64 bits of seconds.
    Range,
}

/// Why a text is not an interval.
#[derive(Clone, Copy, Debug, PartialEq, Eq, Structural)]
pub enum DurationError {
    /// The text holds no word at all.
    EmptyDuration,
    /// The word with index `token`, counted from 0, is the first faulty one.
    InvalidDuration { token: usize, fault: Fault },
}

/// The characters that separate words: Unicode's `White_Space`.
pub open spec fn is_space(c: char) -> bool {
    let u = c as u32;
    ||| 0x09 <= u <= 0x0D
    ||| u == 0x20
    ||| u == 0x85
    ||| u == 0xA0
    ||| u == 0x1680
    ||| 0x2000 <= u <= 0x200A
    ||| u == 0x2028
    ||| u == 0x2029
    ||| u == 0x202F
    ||| u == 0x205F
    ||| u == 0x3000
}

/// Seconds in one unit, for the five unit letters.
pub open spec fn unit_seconds(c: char) -> Option<nat> {
    if c == 's' {
        Some(1)
    } else if c == 'm' {
        Some(60)
    } else if c == 'h' {
        Some(3_600)
    } else if c == 'd' {
        Some(86_400)
    } else if c == 'w' {
        Some(604_800)
    } else {
        None
    }
}

/// What one word contributes, in seconds. The unit is looked at first, then
/// the number before it.
pub open spec fn word_seconds(word: Seq<char>) -> Result<nat, Fault> {
    if word.len() == 0 || unit_seconds(word.last()) is None {
        Err(Fault::Unit)
    } else if !is_number(word.drop_last()) || decimal(word.drop_last()) > u64::MAX {
        Err(Fault::Number)
    } else {
        Ok(decimal(word.drop_last()) * unit_seconds(word.last()).unwrap())
    }
}

/// Length of the run of characters at the start of `s` that are not spaces.
pub open spec fn word_len(s: Seq<char>) -> nat
    decreases s.len(),
{
    if s.len() == 0 || is_space(s[0]) {
        0
    } else {
        1 + word_len(s.drop_first())
    }
}

/// The words of `s`: its longest runs of characters that are not spaces, in
/// the order in which they stand.
pub open spec fn words(s: Seq<char>) -> Seq<Seq<char>>
    decreases s.len(),
{
    if s.len() == 0 {
        Seq::empty()
    } else if is_space(s[0]) {
        words(s.drop_first())
    } else {
        proof {
            lemma_word_len_bounds(s);
        }
        seq![s.take(word_len(s) as int)] + words(s.skip(word_len(s) as int))
    }
}

/// The sum of what the words contribute; a faulty word counts as nothing.
pub open spec fn seconds_of(ws: Seq<Seq<char>>) -> nat
    decreases ws.len(),
{
    if ws.len() == 0 {
        0
    } else {
        seconds_of(ws.drop_last()) + match word_seconds(ws.last()) {
            Ok(v) => v,
            Err(_) => 0,
        }
    }
}

/// The fault of word `i` among `ws`, if it has one: its own, or that the sum
/// up to and with it is out of range.
pub open spec fn fault_at(ws: Seq<Seq<char>>, i: int) -> Option<Fault> {
    match word_seconds(ws[i]) {
        Err(f) => Some(f),
        Ok(_) => if seconds_of(ws.take(i + 1)) > u64::MAX {
            Some(Fault::Range)
        } else {
            None
        },
    }
}

/// Whether `r` is what the text `s` parses to: the sum of its words where
/// there is a word and none is faulty, and else the first fault.
pub open spec fn parses_to(s: Seq<char>, r: Result<Interval, DurationError>) -> bool {
    let ws = words(s);
    match r {
        Ok(d) => {
            &&& ws.len() > 0
            &&& forall|j: int| 0 <= j < ws.len() ==> fault_at(ws, j) is None
            &&& d@ == seconds_of(ws)
        },
        Err(DurationError::EmptyDuration) => ws.len() == 0,
        Err(DurationError::InvalidDuration { token, fault }) => {
            &&& token < ws.len()
            &&& fault_at(ws, token as int) == Some(fault)
            &&& forall|j: int| 0 <= j < token ==> fault_at(ws, j) is None
        },
    }
}

/// A run of characters that are not spaces is never longer than the text,
/// and not empty where the text starts with such a character.
pub proof fn lemma_word_len_bounds(s: Seq<char>)
    ensures
        word_len(s) <= s.len(),
        s.len() > 0 && !is_space(s[0]) ==> word_len(s) >= 1,
    decreases s.len(),
{
    if s.len() > 0 && !is_space(s[0]) {
        lemma_word_len_bounds(s.drop_first());
    }
}

/// The interval that applies when the configuration names none: one day.
pub fn default_interval() -> (r: Interval)
    ensures
        r@ == 86_400,
{
    Interval { secs: SECONDS_PER_DAY }
}

/// Whether `c` separates words.
pub fn is_whitespace(c: char) -> (r: bool)
    ensures
        r == is_space(c),
{
    let u: u32 = c as u32;
    (0x09 <= u && u <= 0x0D) || u == 0x20 || u == 0x85 || u == 0xA0 || u == 0x1680 || (0x2000 <= u
        && u <= 0x200A) || u == 0x2028 || u == 0x2029 || u == 0x202F || u == 0x205F || u == 0x3000
}

/// Seconds in the unit that `c` names, if it names one.
pub fn unit_of(c: char) -> (r: Option<u64>)
    ensures
        r is Some <==> unit_seconds(c) is Some,
        r matches Some(m) ==> unit_seconds(c) == Some(m as nat),
{
    if c == 's' {
        Some(1)
    } else if c == 'm' {
        Some(60)
    } else if c == 'h' {
        Some(3_600)
    } else if c == 'd' {
        Some(86_400)
    } else if c == 'w' {
        Some(604_800)
    } else {
        None
    }
}

/// Reads the word that stands in `chars` from `from` up to `to`: its number
/// and the seconds in its unit.
fn parse_word(chars: &[char], from: usize, to: usize) -> (r: Result<(u64, u64), Fault>)
    requires
        from < to <= chars@.len(),
    ensures
        match r {
            Ok((n, m)) => word_seconds(chars@.subrange(from as int, to as int)) == Ok::<nat, Fault>(
                (n * m) as nat,
            ),
            Err(f) => word_seconds(chars@.subrange(from as int, to as int)) == Err::<nat, Fault>(f),
        },
{
    let ghost word = chars@.subrange(from as int, to as int);
    assert(word.drop_last() =~= chars@.subrange(from as int, to - 1));
    match unit_of(chars[to - 1]) {
        None => Err(Fault::Unit),
        Some(m) => match parse_number(chars, from, to - 1) {
            None => Err(Fault::Number),
            Some(n) => Ok((n, m)),
        },
    }
}

/// Parses an interval from its characters.
pub fn parse_chars(chars: &[char]) -> (r: Result<Interval, DurationError>)
    ensures
        parses_to(chars@, r),
{
    let n = chars.len();
    let ghost ws = words(chars@);
    let mut pos: usize = 0;
    let mut count: usize = 0;
    let mut total: u64 = 0;
    assert(chars@.skip(0) =~= chars@);
    loop
        invariant
            n == chars@.len(),
            ws == words(chars@),
            pos <= n,
            count <= pos,
            count <= ws.len(),
            ws =~= ws.take(count as int) + words(chars@.skip(pos as int)),
            forall|j: int| 0 <= j < count ==> fault_at(ws, j) is None,
            total == seconds_of(ws.take(count as int)),
        decreases n - pos,
    {
        let ghost entry = pos;
        while pos < n && is_whitespace(chars[pos])
            invariant
                n == chars@.len(),
                entry <= pos <= n,
                count <= pos,
                ws =~= ws.take(count as int) + words(chars@.skip(pos as int)),
            decreases n - pos,
        {
            assert(chars@.skip(pos as int).drop_first() =~= chars@.skip(pos + 1));
            pos += 1;
        }
        if pos == n {
            if count == 0 {
                return Err(DurationError::EmptyDuration);
            }
            return Ok(Interval { secs: total });
        }
        let start = pos;
        let ghost rest = chars@.skip(start as int);
        let mut end: usize = pos + 1;
        assert(rest.drop_first() =~= chars@.skip(end as int));
        while end < n && !is_whitespace(chars[end])
            invariant
                n == chars@.len(),
                start < end <= n,
                rest == chars@.skip(start as int),
                word_len(rest) == (end - start) + word_len(chars@.skip(end as int)),
            decreases n - end,
        {
            assert(chars@.skip(end as int).drop_first() =~= chars@.skip(end + 1));
            end += 1;
        }
        let ghost word = chars@.subrange(start as int, end as int);
        proof {
            assert(rest.take(end - start) =~= word);
            assert(rest.skip(end - start) =~= chars@.skip(end as int));
            assert(ws.take(count + 1).drop_last() =~= ws.take(count as int));
        }
        let (number, unit) = match parse_word(chars, start, end) {
            Ok(parts) => parts,
            Err(fault) => {
                return Err(DurationError::InvalidDuration { token: count, fault });
            },
        };
        let seconds: u64 = match number.checked_mul(unit) {
            Some(v) => v,
            None => {
                return Err(DurationError::InvalidDuration { token: count, fault: Fault::Range });
            },
        };
        total = match total.checked_add(seconds) {
            Some(v) => v,
            None => {
                return Err(DurationError::InvalidDuration { token: count, fault: Fault::Range });
            },
        };
        count += 1;
        pos = end;
    }
}

/// Parses an interval: the sum of the words of `text`, each a decimal number
/// and a unit letter. A text without a word is an error, not an interval of
/// no length, and so is one with a faulty word.
pub fn parse_duration(text: &str) -> (r: Result<Interval, DurationError>)
    ensures
        parses_to(text@, r),
{
    let chars = chars_of(text);
    parse_chars(chars.as_slice())
}

/// The interval that a configuration asks for: the one its `interval` key
/// writes, or one day where the key is absent.
pub fn interval_from_config(value: Option<&str>) -> (r: Result<Interval, DurationError>)
    ensures
        match value {
            Some(text) => parses_to(text@, r),
            None => r == Ok::<Interval, DurationError>(Interval { secs: SECONDS_PER_DAY }),
        },
{
    match value {
        Some(text) => parse_duration(text),
        None => Ok(default_interval()),
    }
}

/// A text parses to one thing only: the same interval, or the same error
/// for the same word.
pub proof fn lemma_parse_unique(
    s: Seq<char>,
    a: Result<Interval, DurationError>,
    b: Result<Interval, DurationError>,
)
    requires
        parses_to(s, a),
        parses_to(s, b),
    ensures
        a == b,
{
}

} // verus!
