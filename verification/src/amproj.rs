//! Reading a project's kind and title from the beginning of its XML.

use vstd::prelude::*;
use crate::xml::{decode_utf8_lossy, utf8_lossy};
use vstd::utf8::{decode_utf8, valid_utf8};
use crate::text::{
    chars_of, class_run_end, find, find_from_exec, matches_at, run_until, string_of, ws_run_end,
};

verus! {

/// Kind of an amproj file.
#[derive(Clone, Copy, Debug, PartialEq, Eq, Structural)]
pub enum AmprojType {
    /// A complete project, which can be exported as a video.
    Project,
    /// An element (preset or component), which cannot be exported directly.
    Element,
}

impl AmprojType {
    /// The kind's display name (`项目` or `元素`).
    pub fn display_name(&self) -> (r: String)
        ensures
            r@ == (match self {
                AmprojType::Project => "项目"@,
                AmprojType::Element => "元素"@,
            }),
    {
        match self {
            AmprojType::Project => String::from_str("项目"),
            AmprojType::Element => String::from_str("元素"),
        }
    }
}

// ---------------------------------------------------------------------------
// The scene title
// ---------------------------------------------------------------------------

/// The title that `<scene\s+title="([^"]*)"` captures when its match starts
/// at `p`: `<scene`, a run of white space (`\s`, Unicode white space) that
/// `title="` follows, and the text up to the next `"`. Greedy `\s+` can only
/// stop at the end of the run, since `t` is no white space, and `[^"]*` stops
/// at the first `"`.
pub open spec fn title_at(s: Seq<char>, p: int) -> Option<Seq<char>> {
    if !matches_at(s, p, "<scene"@) {
        None
    } else {
        let e = ws_run_end(s, p + 6);
        if e == p + 6 || !matches_at(s, e, "title=\""@) {
            None
        } else {
            let q = run_until(s, e + 7, '"');
            if q < s.len() {
                Some(s.subrange(e + 7, q))
            } else {
                None
            }
        }
    }
}

/// `p` is where the leftmost match starts.
pub open spec fn is_first_title(s: Seq<char>, p: int) -> bool {
    0 <= p && title_at(s, p) is Some && forall|q: int| 0 <= q < p ==> #[trigger] title_at(s, q) is None
}

/// The group that `<scene\s+title="([^"]*)"` captures at its leftmost match
/// in `s`, if it matches.
pub open spec fn scene_title_group(s: Seq<char>) -> Option<Seq<char>> {
    if exists|p: int| is_first_title(s, p) {
        title_at(s, choose|p: int| is_first_title(s, p))
    } else {
        None
    }
}

/// `Regex::captures` of `<scene\s+title="([^"]*)"` on `xml` (regex crate),
/// giving its first group: the regex crate reports the leftmost match, so the
/// group is `scene_title_group(xml)`.
#[verifier::external_body]
pub(crate) fn scene_title_capture(xml: &str) -> (r: Option<String>)
    ensures
        match r {
            Some(t) => scene_title_group(xml@) == Some(t@),
            None => scene_title_group(xml@) is None,
        },
{
    regex::Regex::new(r#"<scene\s+title="([^"]*)""#).unwrap().captures(xml).map(|c| c[1].to_string())
}

// ---------------------------------------------------------------------------
// The project kind
// ---------------------------------------------------------------------------

/// Whether the regex class `\w` (Unicode word characters: alphabetic, marks,
/// decimal numbers, connector punctuation and join controls) holds `c`.
pub uninterp spec fn regex_word_char(c: char) -> bool;

/// The value that `type="(\w+)"` captures when its match starts at `p`:
/// `type="`, a non-empty run of word characters, then `"`. Greedy `\w+` can
/// only stop at the end of the run, since `"` is no word character.
pub open spec fn type_value_at(s: Seq<char>, p: int, word: spec_fn(char) -> bool) -> Option<
    Seq<char>,
> {
    let e = class_run_end(s, p + 6, word);
    if matches_at(s, p, "type=\""@) && e > p + 6 && e < s.len() && s[e] == '"' {
        Some(s.subrange(p + 6, e))
    } else {
        None
    }
}

/// `p` is where the leftmost match of `type="(\w+)"` starts.
pub open spec fn is_first_type_value(s: Seq<char>, p: int, word: spec_fn(char) -> bool) -> bool {
    0 <= p && type_value_at(s, p, word) is Some && forall|q: int|
        0 <= q < p ==> #[trigger] type_value_at(s, q, word) is None
}

/// The value that `type="(\w+)"` captures at its leftmost match in `s`,
/// with `word` for the class `\w`.
pub open spec fn first_type_value(s: Seq<char>, word: spec_fn(char) -> bool) -> Option<Seq<char>> {
    if exists|p: int| is_first_type_value(s, p, word) {
        type_value_at(s, choose|p: int| is_first_type_value(s, p, word), word)
    } else {
        None
    }
}

/// The value of the first `type="..."` attribute whose value is a word.
pub open spec fn type_attr_capture(header: Seq<char>) -> Option<Seq<char>> {
    first_type_value(header, |c: char| regex_word_char(c))
}

/// First match of the regex `type="(\w+)"` in `header` (regex crate,
/// `Regex::captures`, which reports the leftmost match), giving its capture:
/// `first_type_value` with the class `\w`, which is left to the name
/// `regex_word_char`.
#[verifier::external_body]
fn first_type_attr(header: &str) -> (r: Option<String>)
    ensures
        match r {
            Some(v) => first_type_value(header@, |c: char| regex_word_char(c)) == Some(v@),
            None => first_type_value(header@, |c: char| regex_word_char(c)) is None,
        },
{
    regex::Regex::new(r#"type="(\w+)""#).unwrap().captures(header).map(|c| c[1].to_string())
}

/// `type="element"` comes before the first `<media`, so it belongs to the
/// root scene rather than to a media declaration.
pub open spec fn element_type_before_media(h: Seq<char>) -> bool {
    match find(h, "type=\"element\""@) {
        Some(f) => match find(h, "<media"@) {
            Some(m) => f < m,
            None => true,
        },
        None => false,
    }
}

/// The kind a header declares: an element when `type="element"` comes before
/// any `<media`, or when the first `type="..."` attribute says `element`; a
/// project otherwise.
pub open spec fn header_type(h: Seq<char>) -> AmprojType {
    match type_attr_capture(h) {
        None => AmprojType::Project,
        Some(v) => if element_type_before_media(h) {
            AmprojType::Element
        } else if v == "element"@ {
            AmprojType::Element
        } else {
            AmprojType::Project
        },
    }
}

/// The title a header declares, `未知` when it declares none.
pub open spec fn header_title(h: Seq<char>) -> Seq<char> {
    match scene_title_group(h) {
        Some(t) => t,
        None => "未知"@,
    }
}

/// Reads the kind and title of a project from the first part of its XML.
pub fn analyze_header(header: &str) -> (r: (AmprojType, String))
    ensures
        r.0 == header_type(header@),
        r.1@ == header_title(header@),
{
    let h = chars_of(header);
    let kind = match first_type_attr(header) {
        None => AmprojType::Project,
        Some(v) => {
            let te = chars_of("type=\"element\"");
            let media = chars_of("<media");
            let before = match find_from_exec(&h, &te, 0) {
                Some(f) => match find_from_exec(&h, &media, 0) {
                    Some(m) => f < m,
                    None => true,
                },
                None => false,
            };
            if before {
                AmprojType::Element
            } else if crate::xml::str_eq(v.as_str(), "element") {
                AmprojType::Element
            } else {
                AmprojType::Project
            }
        },
    };
    let title = match scene_title_capture(header) {
        Some(t) => t,
        None => String::from_str("未知"),
    };
    (kind, title)
}

/// Reads the kind and title of a project from the first bytes of its XML,
/// decoded as `String::from_utf8_lossy` decodes them.
pub fn analyze_header_bytes(bytes: &Vec<u8>) -> (r: (AmprojType, String))
    ensures
        r.0 == header_type(utf8_lossy(bytes@)),
        r.1@ == header_title(utf8_lossy(bytes@)),
        valid_utf8(bytes@) ==> r.0 == header_type(decode_utf8(bytes@)) && r.1@ == header_title(
            decode_utf8(bytes@),
        ),
{
    let header = decode_utf8_lossy(bytes);
    analyze_header(header.as_str())
}

} // verus!
