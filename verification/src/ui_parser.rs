//! Finding UI elements in a uiautomator XML dump: the centre of the first node
//! whose `text`, `resource-id` or `content-desc` matches, computed from its
//! `bounds="[x1,y1][x2,y2]"`.

use vstd::prelude::*;
use crate::text::{
    chars_of, class_run_end, find, find_from, find_from_exec, parse_i32, parse_signed, push_str, slice_chars,
    string_of, IntParseError,
};

verus! {

// ---------------------------------------------------------------------------
// Bounds and centres
// ---------------------------------------------------------------------------

/// The four numbers of a bounds text `[x1,y1][x2,y2]`, as text.
pub struct BoundsText {
    pub x1: Seq<char>,
    pub y1: Seq<char>,
    pub x2: Seq<char>,
    pub y2: Seq<char>,
}

/// The centre of the bounds: each number parsed as an `i32` (`None` when one
/// does not parse), then `((x1 + x2) / 2, (y1 + y2) / 2)` with division
/// rounding toward zero.
pub open spec fn bounds_center(b: BoundsText) -> Option<(int, int)> {
    match (
        parse_signed(b.x1, i32::MIN as int, i32::MAX as int),
        parse_signed(b.y1, i32::MIN as int, i32::MAX as int),
        parse_signed(b.x2, i32::MIN as int, i32::MAX as int),
        parse_signed(b.y2, i32::MIN as int, i32::MAX as int),
    ) {
        (Ok(x1), Ok(y1), Ok(x2), Ok(y2)) => Some((trunc_half(x1 + x2), trunc_half(y1 + y2))),
        _ => None,
    }
}

/// `v / 2` rounded toward zero, as Rust's integer division does.
pub open spec fn trunc_half(v: int) -> int {
    if v >= 0 {
        v / 2
    } else {
        -((-v) / 2)
    }
}

/// The centre of the bounds is computed without `i32` overflow.
pub open spec fn bounds_center_fits(b: BoundsText) -> bool {
    match (
        parse_signed(b.x1, i32::MIN as int, i32::MAX as int),
        parse_signed(b.y1, i32::MIN as int, i32::MAX as int),
        parse_signed(b.x2, i32::MIN as int, i32::MAX as int),
        parse_signed(b.y2, i32::MIN as int, i32::MAX as int),
    ) {
        (Ok(x1), Ok(y1), Ok(x2), Ok(y2)) => i32::MIN <= x1 + x2 <= i32::MAX && i32::MIN <= y1 + y2
            <= i32::MAX,
        _ => true,
    }
}

/// Exec form of a bounds text.
pub struct BoundsFields {
    pub x1: Vec<char>,
    pub y1: Vec<char>,
    pub x2: Vec<char>,
    pub y2: Vec<char>,
}

impl View for BoundsFields {
    type V = BoundsText;

    open spec fn view(&self) -> BoundsText {
        BoundsText { x1: self.x1@, y1: self.y1@, x2: self.x2@, y2: self.y2@ }
    }
}

/// Whether the centre of `b` is computed without overflow.
pub fn bounds_center_fits_exec(b: &BoundsFields) -> (r: bool)
    ensures
        r == bounds_center_fits(b@),
{
    match (parse_i32(&b.x1), parse_i32(&b.y1), parse_i32(&b.x2), parse_i32(&b.y2)) {
        (Ok(x1), Ok(y1), Ok(x2), Ok(y2)) => {
            let sx = x1 as i64 + x2 as i64;
            let sy = y1 as i64 + y2 as i64;
            i32::MIN as i64 <= sx && sx <= i32::MAX as i64 && i32::MIN as i64 <= sy && sy
                <= i32::MAX as i64
        },
        _ => true,
    }
}

/// The centre of `b`.
pub fn bounds_center_exec(b: &BoundsFields) -> (r: Option<(i32, i32)>)
    requires
        bounds_center_fits(b@),
    ensures
        match r {
            Some(c) => bounds_center(b@) == Some((c.0 as int, c.1 as int)),
            None => bounds_center(b@) is None,
        },
{
    let x1 = match parse_i32(&b.x1) {
        Ok(v) => v,
        Err(_) => return None,
    };
    let y1 = match parse_i32(&b.y1) {
        Ok(v) => v,
        Err(_) => return None,
    };
    let x2 = match parse_i32(&b.x2) {
        Ok(v) => v,
        Err(_) => return None,
    };
    let y2 = match parse_i32(&b.y2) {
        Ok(v) => v,
        Err(_) => return None,
    };
    let cx = (x1 + x2) / 2;
    let cy = (y1 + y2) / 2;
    Some((cx, cy))
}

// ---------------------------------------------------------------------------
// Finding elements
// ---------------------------------------------------------------------------

/// The characters that `regex::escape` escapes (regex-syntax's
/// `is_meta_character`).
pub open spec fn is_regex_meta(c: char) -> bool {
    ||| c == '\\'
    ||| c == '.'
    ||| c == '+'
    ||| c == '*'
    ||| c == '?'
    ||| c == '('
    ||| c == ')'
    ||| c == '|'
    ||| c == '['
    ||| c == ']'
    ||| c == '{'
    ||| c == '}'
    ||| c == '^'
    ||| c == '$'
    ||| c == '#'
    ||| c == '&'
    ||| c == '-'
    ||| c == '~'
}

/// `s` with a backslash put before each regex metacharacter.
pub open spec fn regex_escaped(s: Seq<char>) -> Seq<char>
    decreases s.len(),
{
    if s.len() == 0 {
        seq![]
    } else if is_regex_meta(s.last()) {
        regex_escaped(s.drop_last()) + seq!['\\', s.last()]
    } else {
        regex_escaped(s.drop_last()).push(s.last())
    }
}

/// `regex::escape(s)`, which walks the characters of `s` and puts a
/// backslash before each metacharacter (see `regex_escaped`).
#[verifier::external_body]
fn escape_regex_text(s: &str) -> (r: String)
    ensures
        r@ == regex_escaped(s@),
{
    regex::escape(s)
}

/// The pattern a node is found with: `{attr}="[^"]*{escaped}[^"]*"[^>]*bounds="(\[[0-9]+,[0-9]+\]\[[0-9]+,[0-9]+\])"`,
/// which captures the node's bounds text.
pub open spec fn node_pattern(attr: Seq<char>, escaped: Seq<char>) -> Seq<char> {
    attr + "=\"[^\"]*"@ + escaped
        + "[^\"]*\"[^>]*bounds=\"(\\[[0-9]+,[0-9]+\\]\\[[0-9]+,[0-9]+\\])\""@
}

fn node_pattern_exec(attr: &str, escaped: &str) -> (r: String)
    ensures
        r@ == node_pattern(attr@, escaped@),
{
    let mut c = chars_of(attr);
    push_str(&mut c, "=\"[^\"]*");
    push_str(&mut c, escaped);
    push_str(&mut c, "[^\"]*\"[^>]*bounds=\"(\\[[0-9]+,[0-9]+\\]\\[[0-9]+,[0-9]+\\])\"");
    string_of(&c)
}

/// What the regex crate finds of `pattern` in `haystack`: `None` when the
/// pattern does not compile, `Some(None)` when it does not match (or its
/// first group takes no part in the match), `Some(Some(g))` with the text of
/// the first group of the leftmost match.
pub uninterp spec fn regex_first_group(pattern: Seq<char>, haystack: Seq<char>) -> Option<
    Option<Seq<char>>,
>;

/// The view of a search result.
pub open spec fn group_view(r: Option<Option<String>>) -> Option<Option<Seq<char>>> {
    match r {
        Some(Some(g)) => Some(Some(g@)),
        Some(None) => Some(None),
        None => None,
    }
}

/// `Regex::new(pattern)`, then `Regex::captures` on `haystack` and the text
/// of its group 1. The outcome is named `regex_first_group`.
#[verifier::external_body]
fn first_group(pattern: &str, haystack: &str) -> (r: Option<Option<String>>)
    ensures
        group_view(r) == regex_first_group(pattern@, haystack@),
{
    match regex::Regex::new(pattern) {
        Ok(re) => Some(re.captures(haystack).and_then(|c| c.get(1)).map(|g| g.as_str().to_string())),
        Err(_) => None,
    }
}

/// The bounds text of the first node whose `attr` value contains `target`.
pub open spec fn node_bounds_text(xml: Seq<char>, attr: Seq<char>, target: Seq<char>) -> Option<
    Seq<char>,
> {
    match regex_first_group(node_pattern(attr, regex_escaped(target)), xml) {
        Some(Some(b)) => Some(b),
        _ => None,
    }
}

/// Centre of the first node whose `attr` value contains `target`: `None` when
/// the pattern is refused, no node matches, or its bounds give no centre.
pub open spec fn element_center(xml: Seq<char>, attr: Seq<char>, target: Seq<char>) -> Option<(int, int)> {
    match node_bounds_text(xml, attr, target) {
        Some(b) => bounds_string_center(b),
        None => None,
    }
}

/// The centre of the matched node is computed without overflow.
pub open spec fn element_center_fits(xml: Seq<char>, attr: Seq<char>, target: Seq<char>) -> bool {
    match node_bounds_text(xml, attr, target) {
        Some(b) => bounds_string_fits(b),
        None => true,
    }
}

/// The coordinates as mathematical integers.
pub open spec fn coords_view(c: Option<(i32, i32)>) -> Option<(int, int)> {
    match c {
        Some(p) => Some((p.0 as int, p.1 as int)),
        None => None,
    }
}

fn node_bounds_exec(xml: &str, attr: &str, target: &str) -> (r: Option<String>)
    ensures
        match r {
            Some(b) => node_bounds_text(xml@, attr@, target@) == Some(b@),
            None => node_bounds_text(xml@, attr@, target@) is None,
        },
{
    let escaped = escape_regex_text(target);
    let pattern = node_pattern_exec(attr, escaped.as_str());
    match first_group(pattern.as_str(), xml) {
        Some(Some(b)) => Some(b),
        _ => None,
    }
}

fn find_element(xml: &str, attr: &str, target: &str) -> (r: Option<(i32, i32)>)
    requires
        element_center_fits(xml@, attr@, target@),
    ensures
        coords_view(r) == element_center(xml@, attr@, target@),
        r matches Some(c) ==> c.0 >= 0 && c.1 >= 0,
{
    match node_bounds_exec(xml, attr, target) {
        Some(b) => parse_bounds_center(b.as_str()),
        None => None,
    }
}

/// Whether the centre of the node matched in `xml` is computed without
/// overflow (callers check this where they cannot otherwise know it).
pub fn element_center_fits_exec(xml: &str, attr: &str, target: &str) -> (r: bool)
    ensures
        r == element_center_fits(xml@, attr@, target@),
{
    match node_bounds_exec(xml, attr, target) {
        Some(b) => match parse_bounds_center_checked(b.as_str()) {
            Some(_) => true,
            None => false,
        },
        None => true,
    }
}

/// Centre of the first node whose `text` contains `target_text`.
pub fn find_element_by_text(xml: &str, target_text: &str) -> (r: Option<(i32, i32)>)
    requires
        element_center_fits(xml@, "text"@, target_text@),
    ensures
        coords_view(r) == element_center(xml@, "text"@, target_text@),
        r matches Some(c) ==> c.0 >= 0 && c.1 >= 0,
{
    find_element(xml, "text", target_text)
}

/// Centre of the first node whose `resource-id` contains `target_id`.
pub fn find_element_by_id(xml: &str, target_id: &str) -> (r: Option<(i32, i32)>)
    requires
        element_center_fits(xml@, "resource-id"@, target_id@),
    ensures
        coords_view(r) == element_center(xml@, "resource-id"@, target_id@),
        r matches Some(c) ==> c.0 >= 0 && c.1 >= 0,
{
    find_element(xml, "resource-id", target_id)
}

proof fn lemma_unsigned_parse_nonneg(s: Seq<char>)
    requires
        unsigned_text(s),
    ensures
        parse_signed(s, i32::MIN as int, i32::MAX as int) matches Ok(v) ==> v >= 0,
{
    assert(s[0] != '-');
    if s[0] == '+' {
        crate::text::lemma_parse_magnitude_bounds_pub(
            s.drop_first(),
            i32::MAX as int,
            IntParseError::PosOverflow,
        );
    } else {
        crate::text::lemma_parse_magnitude_bounds_pub(s, i32::MAX as int, IntParseError::PosOverflow);
    }
}

// ---------------------------------------------------------------------------
// Parsing a bounds string
// ---------------------------------------------------------------------------

/// Whether the regex class `\d` (Unicode decimal digits, general category
/// Nd) holds `c`.
pub uninterp spec fn regex_digit_char(c: char) -> bool;

/// The captures of `\[(\d+),(\d+)\]\[(\d+),(\d+)\]` when its match starts
/// at `p`, with `digit` for the class `\d`: `[`, a non-empty run of digits,
/// `,`, a run, `][`, a run, `,`, a run and `]`. Each greedy `\d+` can only stop
/// at the end of its run, since `,` and `]` are no digits.
pub open spec fn bounds_at(s: Seq<char>, p: int, digit: spec_fn(char) -> bool) -> Option<
    BoundsText,
> {
    let e1 = class_run_end(s, p + 1, digit);
    let e2 = class_run_end(s, e1 + 1, digit);
    let e3 = class_run_end(s, e2 + 2, digit);
    let e4 = class_run_end(s, e3 + 1, digit);
    if 0 <= p && e4 < s.len() && s[p] == '[' && e1 > p + 1 && s[e1] == ',' && e2 > e1 + 1 && s[e2]
        == ']' && s[e2 + 1] == '[' && e3 > e2 + 2 && s[e3] == ',' && e4 > e3 + 1 && s[e4] == ']' {
        Some(
            BoundsText {
                x1: s.subrange(p + 1, e1),
                y1: s.subrange(e1 + 1, e2),
                x2: s.subrange(e2 + 2, e3),
                y2: s.subrange(e3 + 1, e4),
            },
        )
    } else {
        None
    }
}

/// `p` is where the leftmost bounds match starts.
pub open spec fn is_first_bounds(s: Seq<char>, p: int, digit: spec_fn(char) -> bool) -> bool {
    0 <= p && bounds_at(s, p, digit) is Some && forall|q: int|
        0 <= q < p ==> #[trigger] bounds_at(s, q, digit) is None
}

/// The captures of the leftmost bounds match in `s`, with `digit` for `\d`.
pub open spec fn first_bounds(s: Seq<char>, digit: spec_fn(char) -> bool) -> Option<BoundsText> {
    if exists|p: int| is_first_bounds(s, p, digit) {
        bounds_at(s, choose|p: int| is_first_bounds(s, p, digit), digit)
    } else {
        None
    }
}

/// The captures of the first match of `\[(\d+),(\d+)\]\[(\d+),(\d+)\]`.
pub open spec fn bounds_regex_captures(bounds: Seq<char>) -> Option<BoundsText> {
    first_bounds(bounds, |c: char| regex_digit_char(c))
}

/// A number matched by `\d+`: not empty, and without a sign (`-` and `+` are
/// not decimal digits).
pub open spec fn unsigned_text(s: Seq<char>) -> bool {
    s.len() > 0 && forall|i: int| 0 <= i < s.len() ==> s[i] != '-' && s[i] != '+'
}

/// `Regex::captures` of `\[(\d+),(\d+)\]\[(\d+),(\d+)\]` on `bounds` (the
/// leftmost match), giving the four captures: `first_bounds` with the class
/// `\d`, which is left to the name `regex_digit_char`. Each capture, a
/// non-empty run of decimal digits, carries no sign.
#[verifier::external_body]
fn bounds_captures(bounds: &str) -> (r: Option<BoundsFields>)
    ensures
        match r {
            Some(b) => first_bounds(bounds@, |c: char| regex_digit_char(c)) == Some(b@)
                && unsigned_text(b@.x1) && unsigned_text(b@.y1) && unsigned_text(b@.x2)
                && unsigned_text(b@.y2),
            None => first_bounds(bounds@, |c: char| regex_digit_char(c)) is None,
        },
{
    let re = regex::Regex::new(r"\[(\d+),(\d+)\]\[(\d+),(\d+)\]").unwrap();
    re.captures(bounds).map(|c| BoundsFields {
        x1: c[1].chars().collect(),
        y1: c[2].chars().collect(),
        x2: c[3].chars().collect(),
        y2: c[4].chars().collect(),
    })
}

/// Centre of the bounds string `"[x1,y1][x2,y2]"` (its first match).
pub open spec fn bounds_string_center(bounds: Seq<char>) -> Option<(int, int)> {
    match bounds_regex_captures(bounds) {
        Some(b) => bounds_center(b),
        None => None,
    }
}

/// The centre of the bounds string is computed without overflow.
pub open spec fn bounds_string_fits(bounds: Seq<char>) -> bool {
    match bounds_regex_captures(bounds) {
        Some(b) => bounds_center_fits(b),
        None => true,
    }
}

/// Centre of the bounds string `"[x1,y1][x2,y2]"`.
pub fn parse_bounds_center(bounds: &str) -> (r: Option<(i32, i32)>)
    requires
        bounds_string_fits(bounds@),
    ensures
        coords_view(r) == bounds_string_center(bounds@),
        r matches Some(c) ==> c.0 >= 0 && c.1 >= 0,
{
    match bounds_captures(bounds) {
        Some(b) => {
            proof {
                lemma_unsigned_parse_nonneg(b@.x1);
                lemma_unsigned_parse_nonneg(b@.y1);
                lemma_unsigned_parse_nonneg(b@.x2);
                lemma_unsigned_parse_nonneg(b@.y2);
            }
            bounds_center_exec(&b)
        },
        None => None,
    }
}

/// `parse_bounds_center` where its centre fits in an `i32`; `None` where
/// computing it would overflow.
pub fn parse_bounds_center_checked(bounds: &str) -> (r: Option<Option<(i32, i32)>>)
    ensures
        match r {
            Some(c) => bounds_string_fits(bounds@) && coords_view(c) == bounds_string_center(
                bounds@,
            ),
            None => !bounds_string_fits(bounds@),
        },
{
    let fits = match bounds_captures(bounds) {
        Some(b) => bounds_center_fits_exec(&b),
        None => true,
    };
    if fits {
        Some(parse_bounds_center(bounds))
    } else {
        None
    }
}

/// The bounds text after the first `content-desc="{desc}"`: the value of the
/// next `bounds="..."`.
pub open spec fn content_desc_bounds(xml: Seq<char>, desc: Seq<char>) -> Option<Seq<char>> {
    match find(xml, "content-desc=\""@ + desc + "\""@) {
        None => None,
        Some(d) => {
            let after = xml.skip(d);
            match find(after, "bounds=\""@) {
                None => None,
                Some(b) => match find_from(after, "\""@, b + 8) {
                    None => None,
                    Some(e) => Some(after.subrange(b + 8, e)),
                },
            }
        },
    }
}

/// The bounds text after `content-desc="{desc}"`.
fn content_desc_bounds_exec(xml: &str, desc: &str) -> (r: Option<String>)
    ensures
        match r {
            Some(b) => content_desc_bounds(xml@, desc@) == Some(b@),
            None => content_desc_bounds(xml@, desc@) is None,
        },
{
    proof {
        reveal_strlit("bounds=\"");
    }
    let s = chars_of(xml);
    let mut search = chars_of("content-desc=\"");
    crate::text::push_str(&mut search, desc);
    crate::text::push_str(&mut search, "\"");
    let d = match find_from_exec(&s, &search, 0) {
        Some(d) => d,
        None => return None,
    };
    proof {
        crate::text::lemma_find_from_some(s@, search@, 0);
    }
    let after = slice_chars(&s, d, s.len());
    let bp = chars_of("bounds=\"");
    let quote = chars_of("\"");
    let b = match find_from_exec(&after, &bp, 0) {
        Some(b) => b,
        None => return None,
    };
    proof {
        crate::text::lemma_find_from_some(after@, bp@, 0);
        assert(after@ == s@.skip(d as int));
    }
    let e = match find_from_exec(&after, &quote, b + 8) {
        Some(e) => e,
        None => return None,
    };
    proof {
        crate::text::lemma_find_from_some(after@, quote@, b + 8);
    }
    let t = slice_chars(&after, b + 8, e);
    Some(crate::text::string_of(&t))
}

/// Centre of the first node with `content-desc="{desc}"`.
pub open spec fn content_desc_center(xml: Seq<char>, desc: Seq<char>) -> Option<(int, int)> {
    match content_desc_bounds(xml, desc) {
        Some(b) => bounds_string_center(b),
        None => None,
    }
}

/// The centre found by `content-desc` is computed without overflow.
pub open spec fn content_desc_fits(xml: Seq<char>, desc: Seq<char>) -> bool {
    match content_desc_bounds(xml, desc) {
        Some(b) => bounds_string_fits(b),
        None => true,
    }
}

/// Centre of the node whose `content-desc` is exactly `target_desc`.
pub fn find_element_by_content_desc(xml: &str, target_desc: &str) -> (r: Option<(i32, i32)>)
    requires
        content_desc_fits(xml@, target_desc@),
    ensures
        coords_view(r) == content_desc_center(xml@, target_desc@),
{
    match content_desc_bounds_exec(xml, target_desc) {
        Some(b) => parse_bounds_center(b.as_str()),
        None => None,
    }
}

/// `find_element_by_content_desc` where its centre fits in an `i32`; `None`
/// where computing it would overflow.
pub fn find_element_by_content_desc_checked(xml: &str, target_desc: &str) -> (r: Option<
    Option<(i32, i32)>,
>)
    ensures
        match r {
            Some(c) => content_desc_fits(xml@, target_desc@) && coords_view(c)
                == content_desc_center(xml@, target_desc@),
            None => !content_desc_fits(xml@, target_desc@),
        },
{
    match content_desc_bounds_exec(xml, target_desc) {
        Some(b) => match parse_bounds_center_checked(b.as_str()) {
            Some(c) => Some(c),
            None => None,
        },
        None => Some(None),
    }
}

} // verus!
