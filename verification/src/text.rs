//! Character-sequence utilities shared by the project modules: decimal
//! formatting and parsing, substring search, white-space trimming and line
//! splitting, each stated over `Seq<char>`.

use vstd::prelude::*;

verus! {

// ---------------------------------------------------------------------------
// Conversions between `str`/`String` and character vectors
// ---------------------------------------------------------------------------

/// Copies the characters of `s` into a vector.
pub fn chars_of(s: &str) -> (v: Vec<char>)
    ensures
        v@ == s@,
{
    let mut v: Vec<char> = Vec::new();
    for c in it: s.chars()
        invariant
            v@ == it.seq().take(it.index() as int),
    {
        v.push(c);
    }
    v
}

/// `String` made of the given characters (std's `FromIterator<char>` for
/// `String`, which appends the characters in order).
#[verifier::external_body]
pub(crate) fn string_of(chars: &Vec<char>) -> (s: String)
    ensures
        s@ == chars@,
{
    chars.iter().collect()
}

/// Appends all characters of `src` to `dst`.
pub fn push_all(dst: &mut Vec<char>, src: &Vec<char>)
    ensures
        final(dst)@ == old(dst)@ + src@,
{
    let mut i: usize = 0;
    while i < src.len()
        invariant
            0 <= i <= src.len(),
            dst@ == old(dst)@ + src@.take(i as int),
        decreases src.len() - i,
    {
        dst.push(src[i]);
        i += 1;
        proof {
            assert(src@.take(i as int) == src@.take(i - 1).push(src@[i - 1]));
        }
    }
    proof {
        assert(src@.take(src.len() as int) == src@);
    }
}

/// Appends all characters of `src` to `dst`.
pub fn push_str(dst: &mut Vec<char>, src: &str)
    ensures
        final(dst)@ == old(dst)@ + src@,
{
    let v = chars_of(src);
    push_all(dst, &v);
}

/// The characters of `s` from `start` (inclusive) to `end` (exclusive).
pub fn slice_chars(s: &Vec<char>, start: usize, end: usize) -> (r: Vec<char>)
    requires
        start <= end <= s.len(),
    ensures
        r@ == s@.subrange(start as int, end as int),
{
    let mut r: Vec<char> = Vec::new();
    let mut i = start;
    while i < end
        invariant
            start <= i <= end <= s.len(),
            r@ == s@.subrange(start as int, i as int),
        decreases end - i,
    {
        r.push(s[i]);
        i += 1;
        proof {
            assert(s@.subrange(start as int, i as int) == s@.subrange(start as int, i - 1).push(
                s@[i - 1],
            ));
        }
    }
    r
}

/// Whether two character vectors are equal.
pub fn chars_eq(a: &Vec<char>, b: &Vec<char>) -> (r: bool)
    ensures
        r == (a@ == b@),
{
    if a.len() != b.len() {
        return false;
    }
    let mut i: usize = 0;
    while i < a.len()
        invariant
            a.len() == b.len(),
            0 <= i <= a.len(),
            forall|j: int| 0 <= j < i ==> a@[j] == b@[j],
        decreases a.len() - i,
    {
        if a[i] != b[i] {
            return false;
        }
        i += 1;
    }
    proof {
        assert(a@ =~= b@);
    }
    true
}

// ---------------------------------------------------------------------------
// Decimal formatting
// ---------------------------------------------------------------------------

/// The decimal digit character for `d` (`0 <= d < 10`).
pub open spec fn digit_char(d: int) -> char {
    ((d + 48) as u32) as char
}

/// Decimal representation of a natural number, as `format!("{}", n)` prints it.
pub open spec fn decimal(n: nat) -> Seq<char>
    decreases n,
{
    if n < 10 {
        seq![digit_char(n as int)]
    } else {
        decimal(n / 10).push(digit_char((n % 10) as int))
    }
}

/// Decimal representation of an integer, with a leading `-` when negative.
pub open spec fn signed_decimal(i: int) -> Seq<char> {
    if i < 0 {
        seq!['-'] + decimal((-i) as nat)
    } else {
        decimal(i as nat)
    }
}

/// `s` left-padded with `'0'` to at least `width` characters (`{:0width}`).
pub open spec fn zero_pad(s: Seq<char>, width: nat) -> Seq<char> {
    if s.len() >= width {
        s
    } else {
        Seq::new((width - s.len()) as nat, |i: int| '0') + s
    }
}

/// Formats `n` in decimal.
pub fn fmt_u64(n: u64) -> (r: Vec<char>)
    ensures
        r@ == decimal(n as nat),
    decreases n,
{
    let d = ((n % 10) as u8 + 48) as char;
    if n < 10 {
        let mut v = Vec::new();
        v.push(d);
        v
    } else {
        let mut v = fmt_u64(n / 10);
        v.push(d);
        v
    }
}

/// Formats `n` in decimal, with a leading `-` when negative.
pub fn fmt_i64(n: i64) -> (r: Vec<char>)
    ensures
        r@ == signed_decimal(n as int),
{
    if n < 0 {
        let m: u64 = ((-(n + 1)) as u64) + 1;
        let mut v = Vec::new();
        v.push('-');
        let digits = fmt_u64(m);
        push_all(&mut v, &digits);
        v
    } else {
        fmt_u64(n as u64)
    }
}

/// Formats `n` in decimal, left-padded with zeros to three digits (`{:03}`).
pub fn fmt_index3(n: usize) -> (r: Vec<char>)
    ensures
        r@ == zero_pad(decimal(n as nat), 3),
{
    let digits = fmt_u64(n as u64);
    if digits.len() >= 3 {
        digits
    } else {
        let mut v: Vec<char> = Vec::new();
        let pad = 3 - digits.len();
        let mut i: usize = 0;
        while i < pad
            invariant
                0 <= i <= pad,
                pad == 3 - digits.len(),
                v@ == Seq::new(i as nat, |j: int| '0'),
            decreases pad - i,
        {
            v.push('0');
            i += 1;
            proof {
                assert(v@ =~= Seq::new(i as nat, |j: int| '0'));
            }
        }
        push_all(&mut v, &digits);
        v
    }
}

// ---------------------------------------------------------------------------
// Decimal parsing, as std's `FromStr` for the integer types
// ---------------------------------------------------------------------------

/// Why std's integer parsing rejected a string (`IntErrorKind`).
#[derive(Debug, Clone, Copy, PartialEq, Eq, Structural)]
pub enum IntParseError {
    Empty,
    InvalidDigit,
    PosOverflow,
    NegOverflow,
}

/// Whether `c` is an ASCII decimal digit.
pub open spec fn is_ascii_digit(c: char) -> bool {
    '0' <= c && c <= '9'
}

/// The value of an ASCII decimal digit.
pub open spec fn digit_value(c: char) -> int {
    (c as u32) - 48
}

/// Value of a digit string read left to right (`digits` all ASCII digits).
pub open spec fn digits_value(digits: Seq<char>) -> int
    decreases digits.len(),
{
    if digits.len() == 0 {
        0
    } else {
        digits_value(digits.drop_last()) * 10 + digit_value(digits.last())
    }
}

/// Result of parsing a magnitude string (after the sign) into a number bounded
/// by `max` (for positive numbers) as std does it: digits are read left to
/// right; the first non-digit or the first prefix whose value exceeds `max`
/// decides the error, whichever comes first. `overflow` is the error that an
/// excess produces.
pub open spec fn parse_magnitude(digits: Seq<char>, max: int, overflow: IntParseError) -> Result<
    int,
    IntParseError,
>
    decreases digits.len(),
{
    if digits.len() == 0 {
        Ok(0)
    } else {
        match parse_magnitude(digits.drop_last(), max, overflow) {
            Err(e) => Err(e),
            Ok(v) => if !is_ascii_digit(digits.last()) {
                Err(IntParseError::InvalidDigit)
            } else if v * 10 + digit_value(digits.last()) > max {
                Err(overflow)
            } else {
                Ok(v * 10 + digit_value(digits.last()))
            },
        }
    }
}

/// `s.parse::<u64>()` (and the other unsigned types, with `max` their maximum):
/// an optional `+`, then one or more ASCII digits.
pub open spec fn parse_unsigned(s: Seq<char>, max: int) -> Result<int, IntParseError> {
    if s.len() == 0 {
        Err(IntParseError::Empty)
    } else if s.len() == 1 && (s[0] == '+' || s[0] == '-') {
        Err(IntParseError::InvalidDigit)
    } else if s[0] == '+' {
        parse_magnitude(s.drop_first(), max, IntParseError::PosOverflow)
    } else {
        parse_magnitude(s, max, IntParseError::PosOverflow)
    }
}

/// `s.parse::<i64>()` (and the other signed types, with `min..=max` their
/// range): an optional sign, then one or more ASCII digits.
pub open spec fn parse_signed(s: Seq<char>, min: int, max: int) -> Result<int, IntParseError> {
    if s.len() == 0 {
        Err(IntParseError::Empty)
    } else if s.len() == 1 && (s[0] == '+' || s[0] == '-') {
        Err(IntParseError::InvalidDigit)
    } else if s[0] == '-' {
        match parse_magnitude(s.drop_first(), -min, IntParseError::NegOverflow) {
            Ok(v) => Ok(-v),
            Err(e) => Err(e),
        }
    } else if s[0] == '+' {
        parse_magnitude(s.drop_first(), max, IntParseError::PosOverflow)
    } else {
        parse_magnitude(s, max, IntParseError::PosOverflow)
    }
}

/// Parsed magnitudes lie between zero and the bound.
pub proof fn lemma_parse_magnitude_bounds_pub(digits: Seq<char>, max: int, overflow: IntParseError)
    requires
        max >= 0,
    ensures
        parse_magnitude(digits, max, overflow) matches Ok(v) ==> 0 <= v <= max,
{
    lemma_parse_magnitude_bounds(digits, max, overflow);
}

proof fn lemma_parse_magnitude_bounds(digits: Seq<char>, max: int, overflow: IntParseError)
    requires
        max >= 0,
    ensures
        parse_magnitude(digits, max, overflow) matches Ok(v) ==> 0 <= v <= max,
    decreases digits.len(),
{
    if digits.len() > 0 {
        lemma_parse_magnitude_bounds(digits.drop_last(), max, overflow);
    }
}

proof fn lemma_parse_magnitude_prefix_err(
    s: Seq<char>,
    k: int,
    max: int,
    ov: IntParseError,
)
    requires
        0 <= k < s.len(),
        parse_magnitude(s.take(k + 1), max, ov) is Err,
    ensures
        parse_magnitude(s, max, ov) == parse_magnitude(s.take(k + 1), max, ov),
    decreases s.len(),
{
    if s.len() == k + 1 {
        assert(s.take(k + 1) == s);
    } else {
        assert(s.drop_last().take(k + 1) == s.take(k + 1));
        lemma_parse_magnitude_prefix_err(s.drop_last(), k, max, ov);
    }
}

/// Parses the magnitude digits `s[start..]` with an upper bound `max`;
/// `neg` selects the overflow error.
fn parse_magnitude_exec(s: &Vec<char>, start: usize, max: u64, neg: bool) -> (r: Result<
    u64,
    IntParseError,
>)
    requires
        start <= s.len(),
    ensures
        match r {
            Ok(v) => parse_magnitude(s@.skip(start as int), max as int, overflow_kind(neg)) == Ok::<
                int,
                IntParseError,
            >(v as int),
            Err(e) => parse_magnitude(s@.skip(start as int), max as int, overflow_kind(neg))
                == Err::<int, IntParseError>(e),
        },
{
    let ghost ov = overflow_kind(neg);
    let ghost t = s@.skip(start as int);
    let mut v: u64 = 0;
    let mut i = start;
    while i < s.len()
        invariant
            start <= i <= s.len(),
            ov == overflow_kind(neg),
            t == s@.skip(start as int),
            parse_magnitude(t.take(i - start), max as int, ov) == Ok::<int, IntParseError>(
                v as int,
            ),
            v <= max,
        decreases s.len() - i,
    {
        let c = s[i];
        proof {
            assert(t.take(i + 1 - start).drop_last() == t.take(i - start));
            assert(t.take(i + 1 - start).last() == c);
        }
        if !('0' <= c && c <= '9') {
            proof {
                lemma_parse_magnitude_prefix_err(t, i - start, max as int, ov);
            }
            return Err(IntParseError::InvalidDigit);
        }
        let d = (c as u32 - 48) as u64;
        let nv: u128 = v as u128 * 10 + d as u128;
        if nv > max as u128 {
            proof {
                lemma_parse_magnitude_prefix_err(t, i - start, max as int, ov);
            }
            if neg {
                return Err(IntParseError::NegOverflow);
            } else {
                return Err(IntParseError::PosOverflow);
            }
        }
        v = nv as u64;
        i += 1;
    }
    proof {
        assert(t.take(s.len() - start) == t);
    }
    Ok(v)
}

/// The error std reports for an excess, by sign.
pub open spec fn overflow_kind(neg: bool) -> IntParseError {
    if neg {
        IntParseError::NegOverflow
    } else {
        IntParseError::PosOverflow
    }
}

/// `s.parse::<T>()` for an unsigned `T` whose maximum is `max`.
pub fn parse_unsigned_exec(s: &Vec<char>, max: u64) -> (r: Result<u64, IntParseError>)
    ensures
        match r {
            Ok(v) => parse_unsigned(s@, max as int) == Ok::<int, IntParseError>(v as int),
            Err(e) => parse_unsigned(s@, max as int) == Err::<int, IntParseError>(e),
        },
{
    if s.len() == 0 {
        return Err(IntParseError::Empty);
    }
    if s.len() == 1 && (s[0] == '+' || s[0] == '-') {
        return Err(IntParseError::InvalidDigit);
    }
    if s[0] == '+' {
        proof {
            assert(s@.skip(1) == s@.drop_first());
        }
        parse_magnitude_exec(s, 1, max, false)
    } else {
        proof {
            assert(s@.skip(0) == s@);
        }
        parse_magnitude_exec(s, 0, max, false)
    }
}

/// `s.parse::<u64>()`.
pub fn parse_u64(s: &Vec<char>) -> (r: Result<u64, IntParseError>)
    ensures
        match r {
            Ok(v) => parse_unsigned(s@, u64::MAX as int) == Ok::<int, IntParseError>(v as int),
            Err(e) => parse_unsigned(s@, u64::MAX as int) == Err::<int, IntParseError>(e),
        },
{
    parse_unsigned_exec(s, u64::MAX)
}

/// `s.parse::<u32>()`.
pub fn parse_u32(s: &Vec<char>) -> (r: Result<u32, IntParseError>)
    ensures
        match r {
            Ok(v) => parse_unsigned(s@, u32::MAX as int) == Ok::<int, IntParseError>(v as int),
            Err(e) => parse_unsigned(s@, u32::MAX as int) == Err::<int, IntParseError>(e),
        },
{
    match parse_unsigned_exec(s, u32::MAX as u64) {
        Ok(v) => {
            proof {
                lemma_parse_unsigned_bounds(s@, u32::MAX as int);
            }
            Ok(v as u32)
        },
        Err(e) => Err(e),
    }
}

proof fn lemma_parse_unsigned_bounds(s: Seq<char>, max: int)
    requires
        max >= 0,
    ensures
        parse_unsigned(s, max) matches Ok(v) ==> 0 <= v <= max,
{
    lemma_parse_magnitude_bounds(s, max, IntParseError::PosOverflow);
    lemma_parse_magnitude_bounds(s.drop_first(), max, IntParseError::PosOverflow);
}

proof fn lemma_parse_signed_bounds(s: Seq<char>, min: int, max: int)
    requires
        min <= 0 <= max,
    ensures
        parse_signed(s, min, max) matches Ok(v) ==> min <= v <= max,
{
    lemma_parse_magnitude_bounds(s, max, IntParseError::PosOverflow);
    lemma_parse_magnitude_bounds(s.drop_first(), max, IntParseError::PosOverflow);
    lemma_parse_magnitude_bounds(s.drop_first(), -min, IntParseError::NegOverflow);
}

/// `s.parse::<T>()` for a signed `T` whose range is `-(neg_max)..=max`.
fn parse_signed_exec(s: &Vec<char>, neg_max: u64, max: u64) -> (r: Result<i128, IntParseError>)
    requires
        max <= neg_max,
    ensures
        match r {
            Ok(v) => parse_signed(s@, -(neg_max as int), max as int) == Ok::<int, IntParseError>(
                v as int,
            ),
            Err(e) => parse_signed(s@, -(neg_max as int), max as int) == Err::<int, IntParseError>(
                e,
            ),
        },
{
    if s.len() == 0 {
        return Err(IntParseError::Empty);
    }
    if s.len() == 1 && (s[0] == '+' || s[0] == '-') {
        return Err(IntParseError::InvalidDigit);
    }
    proof {
        assert(s@.skip(1) == s@.drop_first());
        assert(s@.skip(0) == s@);
    }
    if s[0] == '-' {
        match parse_magnitude_exec(s, 1, neg_max, true) {
            Ok(v) => Ok(-(v as i128)),
            Err(e) => Err(e),
        }
    } else if s[0] == '+' {
        match parse_magnitude_exec(s, 1, max, false) {
            Ok(v) => Ok(v as i128),
            Err(e) => Err(e),
        }
    } else {
        match parse_magnitude_exec(s, 0, max, false) {
            Ok(v) => Ok(v as i128),
            Err(e) => Err(e),
        }
    }
}

/// `s.parse::<i64>()`.
pub fn parse_i64(s: &Vec<char>) -> (r: Result<i64, IntParseError>)
    ensures
        match r {
            Ok(v) => parse_signed(s@, i64::MIN as int, i64::MAX as int) == Ok::<int, IntParseError>(
                v as int,
            ),
            Err(e) => parse_signed(s@, i64::MIN as int, i64::MAX as int) == Err::<
                int,
                IntParseError,
            >(e),
        },
{
    match parse_signed_exec(s, 0x8000_0000_0000_0000u64, i64::MAX as u64) {
        Ok(v) => {
            proof {
                lemma_parse_signed_bounds(s@, i64::MIN as int, i64::MAX as int);
            }
            Ok(v as i64)
        },
        Err(e) => Err(e),
    }
}

/// `s.parse::<i32>()`.
pub fn parse_i32(s: &Vec<char>) -> (r: Result<i32, IntParseError>)
    ensures
        match r {
            Ok(v) => parse_signed(s@, i32::MIN as int, i32::MAX as int) == Ok::<int, IntParseError>(
                v as int,
            ),
            Err(e) => parse_signed(s@, i32::MIN as int, i32::MAX as int) == Err::<
                int,
                IntParseError,
            >(e),
        },
{
    match parse_signed_exec(s, 0x8000_0000u64, i32::MAX as u64) {
        Ok(v) => {
            proof {
                lemma_parse_signed_bounds(s@, i32::MIN as int, i32::MAX as int);
            }
            Ok(v as i32)
        },
        Err(e) => Err(e),
    }
}


// ---------------------------------------------------------------------------
// Substring search
// ---------------------------------------------------------------------------

/// `pat` occurs in `s` at position `p`.
pub open spec fn matches_at(s: Seq<char>, p: int, pat: Seq<char>) -> bool {
    0 <= p && p + pat.len() <= s.len() && s.subrange(p, p + pat.len()) == pat
}

/// `p` is the first position at or after `from` where `pat` occurs in `s`.
pub open spec fn is_first_match(s: Seq<char>, pat: Seq<char>, from: int, p: int) -> bool {
    &&& from <= p
    &&& matches_at(s, p, pat)
    &&& forall|q: int| from <= q < p ==> !#[trigger] matches_at(s, q, pat)
}

/// First position at or after `from` where `pat` occurs in `s`
/// (`s[from..].find(pat)`, shifted by `from`).
pub open spec fn find_from(s: Seq<char>, pat: Seq<char>, from: int) -> Option<int> {
    if exists|p: int| is_first_match(s, pat, from, p) {
        Some(choose|p: int| is_first_match(s, pat, from, p))
    } else {
        None
    }
}

/// First position where `pat` occurs in `s` (`s.find(pat)`).
pub open spec fn find(s: Seq<char>, pat: Seq<char>) -> Option<int> {
    find_from(s, pat, 0)
}

/// `pat` occurs somewhere in `s`.
pub open spec fn contains(s: Seq<char>, pat: Seq<char>) -> bool {
    exists|p: int| matches_at(s, p, pat)
}

/// There is at most one first match after `from`.
pub proof fn lemma_first_match_unique(s: Seq<char>, pat: Seq<char>, from: int, p1: int, p2: int)
    requires
        is_first_match(s, pat, from, p1),
        is_first_match(s, pat, from, p2),
    ensures
        p1 == p2,
{
    if p1 < p2 {
        assert(!matches_at(s, p1, pat));
    } else if p2 < p1 {
        assert(!matches_at(s, p2, pat));
    }
}

/// `find_from` on a first match gives that match.
pub proof fn lemma_find_from_is(s: Seq<char>, pat: Seq<char>, from: int, p: int)
    requires
        is_first_match(s, pat, from, p),
    ensures
        find_from(s, pat, from) == Some(p),
{
    let c = choose|q: int| is_first_match(s, pat, from, q);
    lemma_first_match_unique(s, pat, from, p, c);
}

/// A found position is a match and no earlier match exists after `from`.
pub proof fn lemma_find_from_some(s: Seq<char>, pat: Seq<char>, from: int)
    requires
        find_from(s, pat, from) is Some,
    ensures
        is_first_match(s, pat, from, find_from(s, pat, from)->0),
{
}

/// No position at or after `from` matches when `find_from` gives nothing.
pub proof fn lemma_find_from_none(s: Seq<char>, pat: Seq<char>, from: int, q: int)
    requires
        find_from(s, pat, from) is None,
        from <= q,
    ensures
        !matches_at(s, q, pat),
    decreases s.len() - q,
{
    if matches_at(s, q, pat) {
        lemma_no_match_before_gives_first(s, pat, from, q);
    }
}

/// If `pat` matches at `q >= from`, some first match exists.
proof fn lemma_no_match_before_gives_first(s: Seq<char>, pat: Seq<char>, from: int, q: int)
    requires
        from <= q,
        matches_at(s, q, pat),
    ensures
        exists|p: int| is_first_match(s, pat, from, p),
    decreases q - from,
{
    if forall|r: int| from <= r < q ==> !#[trigger] matches_at(s, r, pat) {
        assert(is_first_match(s, pat, from, q));
    } else {
        let r = choose|r: int| from <= r < q && #[trigger] matches_at(s, r, pat);
        lemma_no_match_before_gives_first(s, pat, from, r);
    }
}

/// Whether `pat` occurs in `s` at `p`.
pub fn matches_at_exec(s: &Vec<char>, p: usize, pat: &Vec<char>) -> (r: bool)
    ensures
        r == matches_at(s@, p as int, pat@),
{
    if p > s.len() || pat.len() > s.len() - p {
        return false;
    }
    let mut i: usize = 0;
    while i < pat.len()
        invariant
            p + pat.len() <= s.len(),
            0 <= i <= pat.len(),
            forall|j: int| 0 <= j < i ==> s@[p + j] == pat@[j],
        decreases pat.len() - i,
    {
        if s[p + i] != pat[i] {
            proof {
                assert(s@.subrange(p as int, p + pat.len())[i as int] != pat@[i as int]);
            }
            return false;
        }
        i += 1;
    }
    proof {
        assert(s@.subrange(p as int, p + pat.len()) =~= pat@);
    }
    true
}

/// First position at or after `from` where `pat` occurs in `s`.
pub fn find_from_exec(s: &Vec<char>, pat: &Vec<char>, from: usize) -> (r: Option<usize>)
    ensures
        match r {
            Some(p) => find_from(s@, pat@, from as int) == Some(p as int),
            None => find_from(s@, pat@, from as int) is None,
        },
{
    if from > s.len() {
        proof {
            if exists|p: int| is_first_match(s@, pat@, from as int, p) {
                let p = choose|p: int| is_first_match(s@, pat@, from as int, p);
                assert(matches_at(s@, p, pat@));
            }
        }
        return None;
    }
    let mut i = from;
    loop
        invariant
            from <= i <= s.len(),
            forall|q: int| from <= q < i ==> !#[trigger] matches_at(s@, q, pat@),
        ensures
            forall|q: int| from <= q <= s.len() ==> !#[trigger] matches_at(s@, q, pat@),
        decreases s.len() - i,
    {
        if matches_at_exec(s, i, pat) {
            proof {
                lemma_find_from_is(s@, pat@, from as int, i as int);
            }
            return Some(i);
        }
        if i == s.len() {
            break;
        }
        i += 1;
    }
    proof {
        if exists|p: int| is_first_match(s@, pat@, from as int, p) {
            let p = choose|p: int| is_first_match(s@, pat@, from as int, p);
            assert(matches_at(s@, p, pat@));
        }
    }
    None
}

/// Whether `pat` occurs in `s`.
pub fn contains_exec(s: &Vec<char>, pat: &Vec<char>) -> (r: bool)
    ensures
        r == contains(s@, pat@),
{
    match find_from_exec(s, pat, 0) {
        Some(p) => {
            proof {
                lemma_find_from_some(s@, pat@, 0);
            }
            true
        },
        None => {
            proof {
                if contains(s@, pat@) {
                    let q = choose|q: int| matches_at(s@, q, pat@);
                    lemma_find_from_none(s@, pat@, 0, q);
                }
            }
            false
        },
    }
}

// ---------------------------------------------------------------------------
// White space, trimming and lines
// ---------------------------------------------------------------------------

/// The Unicode `White_Space` property (`char::is_whitespace`, regex `\s`).
pub open spec fn is_white_space(c: char) -> bool {
    let u = c as u32;
    ||| 0x9 <= u <= 0xd
    ||| u == 0x20
    ||| u == 0x85
    ||| u == 0xa0
    ||| u == 0x1680
    ||| 0x2000 <= u <= 0x200a
    ||| u == 0x2028
    ||| u == 0x2029
    ||| u == 0x202f
    ||| u == 0x205f
    ||| u == 0x3000
}

/// Whether `c` is white space.
pub fn is_white_space_exec(c: char) -> (r: bool)
    ensures
        r == is_white_space(c),
{
    let u = c as u32;
    (0x9 <= u && u <= 0xd) || u == 0x20 || u == 0x85 || u == 0xa0 || u == 0x1680 || (0x2000 <= u
        && u <= 0x200a) || u == 0x2028 || u == 0x2029 || u == 0x202f || u == 0x205f || u == 0x3000
}

/// End of the run of white space in `s` starting at `from`.
pub open spec fn ws_run_end(s: Seq<char>, from: int) -> int
    decreases s.len() - from,
{
    if 0 <= from < s.len() && is_white_space(s[from]) {
        ws_run_end(s, from + 1)
    } else {
        from
    }
}

/// End of the run of characters of `class` in `s` starting at `from`.
pub open spec fn class_run_end(s: Seq<char>, from: int, class: spec_fn(char) -> bool) -> int
    decreases s.len() - from,
{
    if 0 <= from < s.len() && class(s[from]) {
        class_run_end(s, from + 1, class)
    } else {
        from
    }
}

/// Index of the first `c` in `s` at or after `from`, or `s.len()` when there
/// is none.
pub open spec fn run_until(s: Seq<char>, from: int, c: char) -> int
    decreases s.len() - from,
{
    if from >= s.len() || from < 0 {
        s.len() as int
    } else if s[from] == c {
        from
    } else {
        run_until(s, from + 1, c)
    }
}

/// Bounds of `run_until`: the run before it holds no `c`.
pub proof fn lemma_run_until(s: Seq<char>, from: int, c: char)
    requires
        0 <= from <= s.len(),
    ensures
        from <= run_until(s, from, c) <= s.len(),
        run_until(s, from, c) < s.len() ==> s[run_until(s, from, c)] == c,
        forall|j: int| from <= j < run_until(s, from, c) ==> s[j] != c,
    decreases s.len() - from,
{
    if from < s.len() && s[from] != c {
        lemma_run_until(s, from + 1, c);
    }
}

/// Number of occurrences of `c` in `s`.
pub open spec fn count_char(s: Seq<char>, c: char) -> nat
    decreases s.len(),
{
    if s.len() == 0 {
        0
    } else {
        count_char(s.drop_last(), c) + if s.last() == c {
            1nat
        } else {
            0nat
        }
    }
}

/// Counting from the front.
pub proof fn lemma_count_char_front(s: Seq<char>, c: char)
    requires
        s.len() > 0,
    ensures
        count_char(s, c) == count_char(s.drop_first(), c) + if s[0] == c {
            1nat
        } else {
            0nat
        },
    decreases s.len(),
{
    if s.len() > 1 {
        lemma_count_char_front(s.drop_last(), c);
        assert(s.drop_last().drop_first() =~= s.drop_first().drop_last());
        assert(s.drop_first().last() == s.last());
        assert(s.drop_last()[0] == s[0]);
        assert(count_char(s.drop_first(), c) == count_char(s.drop_first().drop_last(), c) + if s.drop_first().last() == c {
            1nat
        } else {
            0nat
        });
    } else {
        assert(s.drop_last().len() == 0);
        assert(s.drop_first().len() == 0);
        assert(count_char(s.drop_last(), c) == 0);
        assert(count_char(s.drop_first(), c) == 0);
        assert(s.last() == s[0]);
    }
}

/// Trimming removes white space only, so it keeps every `c` that is no
/// white space.
pub proof fn lemma_trim_keeps_count(s: Seq<char>, c: char)
    requires
        !is_white_space(c),
    ensures
        count_char(trim(s), c) == count_char(s, c),
{
    lemma_trim_start_keeps_count(s, c);
    lemma_trim_end_keeps_count(trim_start(s), c);
}

proof fn lemma_trim_start_keeps_count(s: Seq<char>, c: char)
    requires
        !is_white_space(c),
    ensures
        count_char(trim_start(s), c) == count_char(s, c),
    decreases s.len(),
{
    if s.len() > 0 && is_white_space(s[0]) {
        lemma_count_char_front(s, c);
        lemma_trim_start_keeps_count(s.drop_first(), c);
    }
}

proof fn lemma_trim_end_keeps_count(s: Seq<char>, c: char)
    requires
        !is_white_space(c),
    ensures
        count_char(trim_end(s), c) == count_char(s, c),
    decreases s.len(),
{
    if s.len() > 0 && is_white_space(s.last()) {
        lemma_trim_end_keeps_count(s.drop_last(), c);
    }
}

/// `s` without leading white space.
pub open spec fn trim_start(s: Seq<char>) -> Seq<char>
    decreases s.len(),
{
    if s.len() > 0 && is_white_space(s[0]) {
        trim_start(s.drop_first())
    } else {
        s
    }
}

/// `s` without trailing white space.
pub open spec fn trim_end(s: Seq<char>) -> Seq<char>
    decreases s.len(),
{
    if s.len() > 0 && is_white_space(s.last()) {
        trim_end(s.drop_last())
    } else {
        s
    }
}

/// `s` without leading and trailing white space (`str::trim`).
pub open spec fn trim(s: Seq<char>) -> Seq<char> {
    trim_end(trim_start(s))
}

proof fn lemma_trim_start_index(s: Seq<char>, a: int)
    requires
        0 <= a <= s.len(),
        forall|i: int| 0 <= i < a ==> is_white_space(#[trigger] s[i]),
        a == s.len() || !is_white_space(s[a]),
    ensures
        trim_start(s) == s.subrange(a, s.len() as int),
    decreases a,
{
    if a == 0 {
        assert(s.subrange(0, s.len() as int) == s);
    } else {
        assert forall|i: int| 0 <= i < a - 1 implies is_white_space(#[trigger] s.drop_first()[i]) by {
            assert(s.drop_first()[i] == s[i + 1]);
        }
        lemma_trim_start_index(s.drop_first(), a - 1);
        assert(s.drop_first().subrange(a - 1, s.len() - 1) == s.subrange(a, s.len() as int));
    }
}

proof fn lemma_trim_end_index(s: Seq<char>, b: int)
    requires
        0 <= b <= s.len(),
        forall|i: int| b <= i < s.len() ==> is_white_space(#[trigger] s[i]),
        b == 0 || !is_white_space(s[b - 1]),
    ensures
        trim_end(s) == s.subrange(0, b),
    decreases s.len() - b,
{
    if b == s.len() {
        assert(s.subrange(0, b) == s);
    } else {
        assert forall|i: int| b <= i < s.len() - 1 implies is_white_space(#[trigger] s.drop_last()[i]) by {
            assert(s.drop_last()[i] == s[i]);
        }
        lemma_trim_end_index(s.drop_last(), b);
        assert(s.drop_last().subrange(0, b) == s.subrange(0, b));
    }
}

/// `s` without leading and trailing white space.
pub fn trim_exec(s: &Vec<char>) -> (r: Vec<char>)
    ensures
        r@ == trim(s@),
{
    let mut a: usize = 0;
    while a < s.len() && is_white_space_exec(s[a])
        invariant
            0 <= a <= s.len(),
            forall|i: int| 0 <= i < a ==> is_white_space(#[trigger] s@[i]),
        decreases s.len() - a,
    {
        a += 1;
    }
    proof {
        lemma_trim_start_index(s@, a as int);
    }
    let ghost t = s@.subrange(a as int, s.len() as int);
    let mut b: usize = s.len();
    while b > a && is_white_space_exec(s[b - 1])
        invariant
            a <= b <= s.len(),
            t == s@.subrange(a as int, s.len() as int),
            forall|i: int| b <= i < s.len() ==> is_white_space(#[trigger] s@[i]),
        decreases b,
    {
        b -= 1;
    }
    proof {
        assert forall|i: int| b - a <= i < t.len() implies is_white_space(#[trigger] t[i]) by {
            assert(t[i] == s@[i + a]);
        }
        if b > a {
            assert(t[b - a - 1] == s@[b - 1]);
        }
        lemma_trim_end_index(t, b - a);
        assert(t.subrange(0, b - a) == s@.subrange(a as int, b as int));
    }
    slice_chars(s, a, b)
}

/// `s` without one trailing `'\r'`, if it has one.
pub open spec fn strip_cr(s: Seq<char>) -> Seq<char> {
    if s.len() > 0 && s.last() == '\r' {
        s.drop_last()
    } else {
        s
    }
}

/// Lines completed so far, and the line in progress, after reading `s` from
/// left to right: each `'\n'` completes the line in progress (without a
/// trailing `'\r'`).
pub open spec fn lines_state(s: Seq<char>) -> (Seq<Seq<char>>, Seq<char>)
    decreases s.len(),
{
    if s.len() == 0 {
        (seq![], seq![])
    } else {
        let (done, cur) = lines_state(s.drop_last());
        if s.last() == '\n' {
            (done.push(strip_cr(cur)), seq![])
        } else {
            (done, cur.push(s.last()))
        }
    }
}

/// The lines of `s` (`str::lines`): split at `'\n'`, each line that ended in a
/// line feed loses a trailing `'\r'`, and a final line ending adds no empty line.
pub open spec fn lines(s: Seq<char>) -> Seq<Seq<char>> {
    let (done, cur) = lines_state(s);
    if cur.len() == 0 {
        done
    } else {
        done.push(cur)
    }
}

/// The lines of `s`.
pub fn lines_exec(s: &Vec<char>) -> (r: Vec<Vec<char>>)
    ensures
        r@.len() == lines(s@).len(),
        forall|i: int| 0 <= i < r@.len() ==> #[trigger] r@[i]@ == lines(s@)[i],
{
    let mut done: Vec<Vec<char>> = Vec::new();
    let mut cur: Vec<char> = Vec::new();
    let mut i: usize = 0;
    while i < s.len()
        invariant
            0 <= i <= s.len(),
            done@.len() == lines_state(s@.take(i as int)).0.len(),
            forall|k: int|
                0 <= k < done@.len() ==> #[trigger] done@[k]@ == lines_state(s@.take(i as int)).0[k],
            cur@ == lines_state(s@.take(i as int)).1,
        decreases s.len() - i,
    {
        proof {
            assert(s@.take(i + 1).drop_last() == s@.take(i as int));
            assert(s@.take(i + 1).last() == s@[i as int]);
        }
        let c = s[i];
        if c == '\n' {
            let mut line = cur;
            if line.len() > 0 && line[line.len() - 1] == '\r' {
                line.pop();
            }
            done.push(line);
            cur = Vec::new();
        } else {
            cur.push(c);
        }
        i += 1;
    }
    proof {
        assert(s@.take(s.len() as int) == s@);
    }
    if cur.len() > 0 {
        done.push(cur);
    }
    done
}

} // verus!
