//! Text helpers: prefixes, the code-point order that SQLite's `ORDER BY`
//! uses for text keys, and decimal integers.
use vstd::prelude::*;

verus! {

/// `a` sorts before `b`, or is equal to it, in code-point order: the order of
/// SQLite's default (binary) collation on UTF-8 text.
pub open spec fn text_le(a: Seq<char>, b: Seq<char>) -> bool
    decreases a.len(),
{
    if a.len() == 0 {
        true
    } else if b.len() == 0 {
        false
    } else if a[0] != b[0] {
        (a[0] as u32) < (b[0] as u32)
    } else {
        text_le(a.drop_first(), b.drop_first())
    }
}

/// A prefix of `s` is empty, or shares its first character and is a prefix
/// of the rest.
proof fn lemma_prefix_step(p: Seq<char>, s: Seq<char>)
    requires
        p.len() > 0,
        s.len() > 0,
    ensures
        p.is_prefix_of(s) <==> (p[0] == s[0] && p.drop_first().is_prefix_of(s.drop_first())),
{
    if p.is_prefix_of(s) {
        assert(p[0] == s.subrange(0, p.len() as int)[0]);
        assert(p.drop_first() =~= s.drop_first().subrange(0, p.drop_first().len() as int)) by {
            assert forall|i: int| 0 <= i < p.drop_first().len() implies p.drop_first()[i]
                == s.drop_first().subrange(0, p.drop_first().len() as int)[i] by {
                assert(p[i + 1] == s.subrange(0, p.len() as int)[i + 1]);
            }
        }
    }
    if p[0] == s[0] && p.drop_first().is_prefix_of(s.drop_first()) {
        assert(p =~= s.subrange(0, p.len() as int)) by {
            assert forall|i: int| 0 <= i < p.len() implies p[i] == s.subrange(0, p.len() as int)[i] by {
                if i > 0 {
                    assert(p.drop_first()[i - 1] == s.drop_first().subrange(
                        0,
                        p.drop_first().len() as int,
                    )[i - 1]);
                }
            }
        }
    }
}

/// Once a key at or after `p` fails to start with `p`, so does every key
/// after it: the keys that start with `p` form one block that begins at the
/// first key at or after `p`.
pub proof fn lemma_prefix_block(p: Seq<char>, k: Seq<char>, later: Seq<char>)
    requires
        text_le(p, k),
        !p.is_prefix_of(k),
        text_le(k, later),
    ensures
        !p.is_prefix_of(later),
    decreases p.len(),
{
    if p.len() == 0 {
        assert(p.is_prefix_of(k));
    } else if later.len() == 0 {
    } else {
        lemma_prefix_step(p, later);
        if p[0] == k[0] {
            lemma_prefix_step(p, k);
            if later[0] == k[0] {
                lemma_prefix_block(p.drop_first(), k.drop_first(), later.drop_first());
            }
        }
    }
}

/// `p` is a prefix of `s`.
pub fn has_prefix(s: &str, p: &str) -> (r: bool)
    ensures
        r == p@.is_prefix_of(s@),
{
    let s_len = s.unicode_len();
    let p_len = p.unicode_len();
    if p_len > s_len {
        return false;
    }
    let mut i: usize = 0;
    while i < p_len
        invariant
            p_len == p@.len(),
            s_len == s@.len(),
            p_len <= s_len,
            i <= p_len,
            forall|j: int| 0 <= j < i ==> p@[j] == s@[j],
        decreases p_len - i,
    {
        if p.get_char(i) != s.get_char(i) {
            assert(p@[i as int] != s@.subrange(0, p@.len() as int)[i as int]);
            return false;
        }
        i = i + 1;
    }
    assert(p@ =~= s@.subrange(0, p@.len() as int));
    true
}

/// The position of the first `..` in `s`, searching from `i`.
pub open spec fn dots_from(s: Seq<char>, i: int) -> Option<int>
    decreases s.len() - i,
{
    if i < 0 || i + 1 >= s.len() {
        None
    } else if s[i] == '.' && s[i + 1] == '.' {
        Some(i)
    } else {
        dots_from(s, i + 1)
    }
}

/// A `..` found from `i` on stands within `s`, at or after `i`.
pub proof fn lemma_dots_from_found(s: Seq<char>, i: int)
    ensures
        dots_from(s, i) matches Some(j) ==> i <= j && j + 1 < s.len() && s[j] == '.' && s[j + 1]
            == '.',
    decreases s.len() - i,
{
    if 0 <= i && i + 1 < s.len() && !(s[i] == '.' && s[i + 1] == '.') {
        lemma_dots_from_found(s, i + 1);
    }
}

/// The position of the first `..` in `s`.
pub open spec fn first_dots(s: Seq<char>) -> Option<int> {
    dots_from(s, 0)
}

/// Finds the first `..` in `s`, as a position counted in characters.
pub fn find_dots(s: &str) -> (r: Option<usize>)
    ensures
        match r {
            Some(i) => first_dots(s@) == Some(i as int) && i + 1 < s@.len(),
            None => first_dots(s@) is None,
        },
{
    proof {
        lemma_dots_from_found(s@, 0);
    }
    let len = s.unicode_len();
    let mut i: usize = 0;
    while i < len && i + 1 < len
        invariant
            len == s@.len(),
            i <= len,
            dots_from(s@, 0) == dots_from(s@, i as int),
        decreases len - i,
    {
        if s.get_char(i) == '.' && s.get_char(i + 1) == '.' {
            return Some(i);
        }
        i = i + 1;
    }
    None
}

/// `c` is one of the ASCII digits `0` to `9`.
pub open spec fn is_digit(c: char) -> bool {
    '0' <= c && c <= '9'
}

/// The value of the digit `c`.
pub open spec fn digit_value(c: char) -> int {
    (c as int) - ('0' as int)
}

/// The value of the decimal numeral `d`, most significant digit first.
pub open spec fn decimal_value(d: Seq<char>) -> int
    decreases d.len(),
{
    if d.len() == 0 {
        0
    } else {
        decimal_value(d.drop_last()) * 10 + digit_value(d.last())
    }
}

/// `s` without its leading `+` or `-` sign, if it has one.
pub open spec fn unsigned_part(s: Seq<char>) -> Seq<char> {
    if s.len() > 0 && (s[0] == '-' || s[0] == '+') {
        s.drop_first()
    } else {
        s
    }
}

/// An optional `+` or `-` sign, then one or more ASCII digits, whose value
/// fits in an `i64`: the form that `i64::from_str` accepts, with the value it
/// gives.
pub open spec fn spec_parse_i64(s: Seq<char>) -> Option<i64> {
    let negative = s.len() > 0 && s[0] == '-';
    let digits = unsigned_part(s);
    let value = if negative {
        -decimal_value(digits)
    } else {
        decimal_value(digits)
    };
    if digits.len() > 0 && (forall|i: int| 0 <= i < digits.len() ==> is_digit(#[trigger] digits[i]))
        && i64::MIN <= value <= i64::MAX {
        Some(value as i64)
    } else {
        None
    }
}

proof fn lemma_decimal_nonnegative(d: Seq<char>)
    requires
        forall|i: int| 0 <= i < d.len() ==> is_digit(#[trigger] d[i]),
    ensures
        decimal_value(d) >= 0,
    decreases d.len(),
{
    if d.len() > 0 {
        assert(is_digit(d[d.len() - 1]));
        lemma_decimal_nonnegative(d.drop_last());
    }
}

/// Parses `s` as a decimal `i64`, as `i64::from_str` does.
pub fn parse_i64(s: &str) -> (r: Option<i64>)
    ensures
        r == spec_parse_i64(s@),
{
    let len = s.unicode_len();
    let mut start: usize = 0;
    let mut negative = false;
    if len > 0 {
        let c = s.get_char(0);
        if c == '-' {
            negative = true;
            start = 1;
        } else if c == '+' {
            start = 1;
        }
    }
    assert(start == 1 <==> (s@.len() > 0 && (s@[0] == '-' || s@[0] == '+')));
    assert(negative <==> (s@.len() > 0 && s@[0] == '-'));
    let ghost digits = unsigned_part(s@);
    if start >= len {
        return None;
    }
    // The magnitude read so far, held at `cap` once it is past every value
    // an `i64` can take.
    let cap: u128 = 0x8000_0000_0000_0001;
    let mut magnitude: u128 = 0;
    let mut i: usize = start;
    while i < len
        invariant
            len == s@.len(),
            start <= i <= len,
            start <= 1,
            digits.len() == len - start,
            forall|j: int| 0 <= j < digits.len() ==> digits[j] == s@[j + start],
            forall|j: int| 0 <= j < i - start ==> is_digit(#[trigger] digits[j]),
            decimal_value(digits.subrange(0, i - start)) >= 0,
            magnitude == if decimal_value(digits.subrange(0, i - start)) < cap {
                decimal_value(digits.subrange(0, i - start))
            } else {
                cap as int
            },
            cap == 0x8000_0000_0000_0001,
            digits == unsigned_part(s@),
            negative <==> (s@.len() > 0 && s@[0] == '-'),
        decreases len - i,
    {
        let c = s.get_char(i);
        if !('0' <= c && c <= '9') {
            assert(!is_digit(digits[i - start]));
            return None;
        }
        let ghost before = digits.subrange(0, i - start);
        let ghost after = digits.subrange(0, i - start + 1);
        assert(after.drop_last() =~= before);
        assert(after.last() == c);
        let d: u128 = (c as u32 - '0' as u32) as u128;
        if magnitude < cap {
            magnitude = magnitude * 10 + d;
            if magnitude > cap {
                magnitude = cap;
            }
        }
        i = i + 1;
    }
    assert(digits.subrange(0, len - start) =~= digits);
    proof {
        lemma_decimal_nonnegative(digits);
    }
    if negative {
        if magnitude <= 0x8000_0000_0000_0000 {
            Some((0 - (magnitude as i128)) as i64)
        } else {
            None
        }
    } else {
        if magnitude <= 0x7fff_ffff_ffff_ffff {
            Some(magnitude as i64)
        } else {
            None
        }
    }
}

/// The ASCII digit for `d`, from 0 to 9.
pub open spec fn digit_char(d: int) -> char {
    if d <= 0 {
        '0'
    } else if d == 1 {
        '1'
    } else if d == 2 {
        '2'
    } else if d == 3 {
        '3'
    } else if d == 4 {
        '4'
    } else if d == 5 {
        '5'
    } else if d == 6 {
        '6'
    } else if d == 7 {
        '7'
    } else if d == 8 {
        '8'
    } else {
        '9'
    }
}

/// The decimal numeral of `n`, most significant digit first, without
/// leading zeros.
pub open spec fn decimal_text(n: nat) -> Seq<char>
    decreases n,
{
    if n < 10 {
        seq![digit_char(n as int)]
    } else {
        decimal_text(n / 10).push(digit_char((n % 10) as int))
    }
}

/// The decimal text of `n` as Rust writes an `i64`: its digits, after a
/// `-` where it is negative.
pub open spec fn i64_text(n: i64) -> Seq<char> {
    if n < 0 {
        seq!['-'] + decimal_text((-n) as nat)
    } else {
        decimal_text(n as nat)
    }
}

/// A numeral is digits alone, and reads back as its number.
proof fn lemma_decimal_text(n: nat)
    ensures
        decimal_text(n).len() > 0,
        forall|i: int| 0 <= i < decimal_text(n).len() ==> is_digit(#[trigger] decimal_text(n)[i]),
        decimal_value(decimal_text(n)) == n,
    decreases n,
{
    if n >= 10 {
        lemma_decimal_text(n / 10);
        let t = decimal_text(n);
        assert(t.drop_last() =~= decimal_text(n / 10));
        assert(t.last() == digit_char((n % 10) as int));
        assert(decimal_value(t) == decimal_value(decimal_text(n / 10)) * 10 + digit_value(
            digit_char((n % 10) as int),
        ));
        assert forall|i: int| 0 <= i < t.len() implies is_digit(#[trigger] t[i]) by {
            if i < t.len() - 1 {
                assert(t[i] == decimal_text(n / 10)[i]);
            }
        }
        assert(digit_value(digit_char((n % 10) as int)) == n % 10);
        assert((n / 10) * 10 + n % 10 == n) by (nonlinear_arith);
        assert(decimal_value(t) == (n / 10) * 10 + n % 10);
    } else {
        let t = decimal_text(n);
        assert(t.drop_last() =~= Seq::<char>::empty());
        assert(t.last() == digit_char(n as int));
        assert(digit_value(digit_char(n as int)) == n);
        assert(decimal_value(t) == decimal_value(t.drop_last()) * 10 + digit_value(t.last()));
    }
}

/// The decimal text of an `i64` holds digits and at most a `-`, and
/// parses back to that `i64`.
pub proof fn lemma_i64_text(n: i64)
    ensures
        spec_parse_i64(i64_text(n)) == Some(n),
        forall|i: int|
            0 <= i < i64_text(n).len() ==> is_digit(#[trigger] i64_text(n)[i]) || i64_text(n)[i]
                == '-',
{
    let t = i64_text(n);
    if n < 0 {
        let m = (-n) as nat;
        lemma_decimal_text(m);
        assert(t[0] == '-');
        assert(unsigned_part(t) =~= decimal_text(m));
        assert forall|i: int| 0 <= i < t.len() implies is_digit(#[trigger] t[i]) || t[i] == '-' by {
            if i > 0 {
                assert(t[i] == decimal_text(m)[i - 1]);
            }
        }
    } else {
        lemma_decimal_text(n as nat);
        assert(is_digit(t[0]));
        assert(unsigned_part(t) =~= t);
    }
}

} // verus!
