//! Which elements of a log a user asks for: an index, a time, or a range of
//! either, written `a..b`.
use vstd::prelude::*;
use vstd::std_specs::cmp::PartialEqSpecImpl;

use crate::text::{
    dots_from, find_dots, first_dots, i64_text, is_digit, lemma_i64_text, parse_i64, spec_parse_i64,
};

verus! {

#[verifier::external_type_specification]
#[verifier::external_body]
pub struct ExParseError(chrono::ParseError);

/// An instant with the UTC offset it was written in.
#[derive(Clone, Copy, Debug)]
pub struct Timestamp {
    /// Whole seconds since the Unix epoch.
    pub seconds: i64,
    /// Nanoseconds past those seconds.
    pub nanos: u32,
    /// The offset from UTC, in seconds east.
    pub offset_seconds: i32,
}

/// What `chrono::DateTime::parse_from_rfc3339` makes of a text, `None`
/// where it refuses it.
pub uninterp spec fn rfc3339_parse(text: Seq<char>) -> Option<Timestamp>;

/// Calls `chrono::DateTime::parse_from_rfc3339`, which reads an RFC 3339
/// date and time (a space may stand for the `T`); the contract names what it
/// reads `rfc3339_parse`, and the instant comes out as its Unix seconds,
/// nanoseconds and offset.
#[verifier::external_body]
fn parse_rfc3339(text: &str) -> (r: Result<Timestamp, chrono::ParseError>)
    ensures
        r is Ok <==> rfc3339_parse(text@) is Some,
        r matches Ok(t) ==> rfc3339_parse(text@) == Some(t),
{
    chrono::DateTime::parse_from_rfc3339(text).map(
        |t| Timestamp {
            seconds: t.timestamp(),
            nanos: t.timestamp_subsec_nanos(),
            offset_seconds: t.offset().local_minus_utc(),
        },
    )
}

/// Two timestamps are equal when they name the same instant, whatever
/// offsets they were written in.
impl PartialEq for Timestamp {
    fn eq(&self, other: &Self) -> (r: bool) {
        self.seconds == other.seconds && self.nanos == other.nanos
    }
}

impl PartialEqSpecImpl for Timestamp {
    open spec fn obeys_eq_spec() -> bool {
        true
    }

    open spec fn eq_spec(&self, other: &Self) -> bool {
        self.seconds == other.seconds && self.nanos == other.nanos
    }
}

impl Eq for Timestamp {

}

/// Which elements of a log to get.
#[derive(Clone, Copy, Debug, PartialEq, Eq)]
pub enum LogIndex {
    /// The elements written from the first time up to the second.
    DateRange(Timestamp, Timestamp),
    /// The element written at a time.
    DateScalar(Timestamp),
    /// The elements from the first index up to the second.
    NumberRange(i64, i64),
    /// The element at an index.
    NumberScalar(i64),
}

/// Why a text does not name log elements.
#[derive(Debug)]
pub enum LogIndexError {
    /// A range (`a..b`) holds a character outside ASCII.
    NotAscii,
    /// The text is neither an integer nor an RFC 3339 date and time.
    Date(chrono::ParseError),
}

/// The elements that `s` names, or `None` where it names none.
pub open spec fn spec_log_index(s: Seq<char>) -> Option<LogIndex> {
    match first_dots(s) {
        Some(i) => {
            let start = s.subrange(0, i);
            let end = s.subrange(i + 2, s.len() as int);
            if !vstd::utf8::is_ascii_chars(s) {
                None
            } else if spec_parse_i64(start) is Some && spec_parse_i64(end) is Some {
                Some(LogIndex::NumberRange(spec_parse_i64(start)->0, spec_parse_i64(end)->0))
            } else if rfc3339_parse(start) is Some && rfc3339_parse(end) is Some {
                Some(LogIndex::DateRange(rfc3339_parse(start)->0, rfc3339_parse(end)->0))
            } else {
                None
            }
        },
        None => {
            if spec_parse_i64(s) is Some {
                Some(LogIndex::NumberScalar(spec_parse_i64(s)->0))
            } else if rfc3339_parse(s) is Some {
                Some(LogIndex::DateScalar(rfc3339_parse(s)->0))
            } else {
                None
            }
        },
    }
}

/// `s` is a range with a character outside ASCII.
pub open spec fn range_not_ascii(s: Seq<char>) -> bool {
    first_dots(s) is Some && !vstd::utf8::is_ascii_chars(s)
}

impl LogIndex {
    /// Reads which elements `s` names: `a..b` (split at the first `..`) is
    /// a range and anything else a single element; each end is an integer
    /// where `i64::from_str` reads one, and an RFC 3339 date and time
    /// otherwise. A range must be ASCII.
    pub fn from_str(s: &str) -> (r: core::result::Result<LogIndex, LogIndexError>)
        ensures
            match r {
                Ok(index) => spec_log_index(s@) == Some(index),
                Err(LogIndexError::NotAscii) => range_not_ascii(s@),
                Err(LogIndexError::Date(_)) => spec_log_index(s@) is None && !range_not_ascii(s@),
            },
    {
        if let Some(dots_pos) = find_dots(s) {
            if !s.is_ascii() {
                return Err(LogIndexError::NotAscii);
            }
            let len = s.unicode_len();
            let start = s.substring_ascii(0, dots_pos);
            let end = s.substring_ascii(dots_pos + 2, len);
            {
                let start = parse_i64(start);
                let end = parse_i64(end);
                if let (Some(start), Some(end)) = (start, end) {
                    return Ok(LogIndex::NumberRange(start, end));
                }
            }
            let start = match parse_rfc3339(start) {
                Ok(t) => t,
                Err(e) => return Err(LogIndexError::Date(e)),
            };
            let end = match parse_rfc3339(end) {
                Ok(t) => t,
                Err(e) => return Err(LogIndexError::Date(e)),
            };
            Ok(LogIndex::DateRange(start, end))
        } else {
            if let Some(x) = parse_i64(s) {
                Ok(LogIndex::NumberScalar(x))
            } else {
                match parse_rfc3339(s) {
                    Ok(t) => Ok(LogIndex::DateScalar(t)),
                    Err(e) => Err(LogIndexError::Date(e)),
                }
            }
        }
    }

    /// The index of a single element named by number; `None` for a range or
    /// a time.
    pub fn number_scalar(&self) -> (r: Option<i64>)
        ensures
            r == match *self {
                LogIndex::NumberScalar(i) => Some(i),
                _ => None::<i64>,
            },
    {
        match self {
            LogIndex::NumberScalar(i) => Some(*i),
            _ => None,
        }
    }
}

/// No `..` stands anywhere from `i` on in a text without a `.`.
proof fn lemma_no_dots(s: Seq<char>, i: int)
    requires
        forall|k: int| 0 <= k < s.len() ==> s[k] != '.',
    ensures
        dots_from(s, i) is None,
    decreases s.len() - i,
{
    if 0 <= i && i + 1 < s.len() {
        lemma_no_dots(s, i + 1);
    }
}

/// In `a..b`, where `a` holds no `.`, the first `..` from any position up
/// to the end of `a` is the one right after `a`.
proof fn lemma_dots_after(a: Seq<char>, b: Seq<char>, i: int)
    requires
        forall|k: int| 0 <= k < a.len() ==> a[k] != '.',
        0 <= i <= a.len(),
    ensures
        dots_from(a + seq!['.', '.'] + b, i) == Some(a.len() as int),
    decreases a.len() - i,
{
    let s = a + seq!['.', '.'] + b;
    if i < a.len() {
        assert(s[i] == a[i]);
        lemma_dots_after(a, b, i + 1);
    } else {
        assert(s[i] == '.' && s[i + 1] == '.');
    }
}

/// The decimal text of any `i64` names the element at that index, and two
/// such texts joined by `..` name the range between them; the range is
/// ASCII, so `LogIndex::from_str` reads both back.
pub proof fn lemma_number_text_round_trip(a: i64, b: i64)
    ensures
        spec_log_index(i64_text(a)) == Some(LogIndex::NumberScalar(a)),
        spec_log_index(i64_text(a) + seq!['.', '.'] + i64_text(b)) == Some(
            LogIndex::NumberRange(a, b),
        ),
        !range_not_ascii(i64_text(a)),
        !range_not_ascii(i64_text(a) + seq!['.', '.'] + i64_text(b)),
{
    lemma_i64_text(a);
    lemma_i64_text(b);
    let ta = i64_text(a);
    let tb = i64_text(b);
    assert forall|k: int| 0 <= k < ta.len() implies ta[k] != '.' by {
        assert(is_digit(ta[k]) || ta[k] == '-');
    }
    lemma_no_dots(ta, 0);
    lemma_dots_after(ta, tb, 0);
    let s = ta + seq!['.', '.'] + tb;
    assert(s.subrange(0, ta.len() as int) =~= ta);
    assert(s.subrange(ta.len() + 2int, s.len() as int) =~= tb);
    assert forall|k: int| 0 <= k < s.len() implies '\0' <= #[trigger] s[k] <= '\u{7f}' by {
        if k < ta.len() {
            assert(s[k] == ta[k]);
            assert(is_digit(ta[k]) || ta[k] == '-');
        } else if k >= ta.len() + 2 {
            assert(s[k] == tb[k - ta.len() - 2]);
            assert(is_digit(tb[k - ta.len() - 2]) || tb[k - ta.len() - 2] == '-');
        }
    }
}

} // verus!
