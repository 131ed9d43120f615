//! Grouping a project into one `embedScene` and cutting the grouped project
//! into chunks of a fixed number of frames.
//!
//! The grouped project keeps `<media>` and `<bookmark>` at the top level and
//! moves every other top-level element into an inner scene inside a new
//! `embedScene`. A chunk is the grouped project with its total time set to the
//! chunk's length and the `embedScene` given `inTime`/`outTime`, so that the
//! inner scene plays the chunk's time window.

use vstd::prelude::*;
use crate::text::{
    chars_of, contains, decimal, digit_char, find, matches_at, find_from, find_from_exec, fmt_i64, fmt_u64, parse_u32, parse_u64,
    parse_unsigned, push_all, push_str, signed_decimal, slice_chars, string_of, IntParseError,
};
use crate::split::{
    attr_text, content_elements, copy_entry, indented_lines, is_skipped_tag, push_attr,
    push_indented_lines, texts_view,
};
use crate::xml::{
    attr_value, attribute, ends_with, load_scene, scene_load, ends_with_exec, entries_view, escape_chars, escape_xml,
    sanitize_chars, sanitize_filename_spec, str_eq, utf8_bytes, ArchiveEntry, AttrModel,
    ElementModel, SceneModel, SceneXml, XmlElement,
};
use vstd::utf8::encode_utf8;

verus! {

/// Default number of frames per chunk.
pub const DEFAULT_FRAMES_PER_CHUNK: u32 = 30;

/// Id given to the grouping `embedScene`.
pub const GROUP_ID: u64 = 99830094;

// ---------------------------------------------------------------------------
// Scene parameters
// ---------------------------------------------------------------------------

/// The message std's `ParseIntError` displays for each kind.
pub open spec fn int_error_message(e: IntParseError) -> Seq<char> {
    match e {
        IntParseError::Empty => "cannot parse integer from empty string"@,
        IntParseError::InvalidDigit => "invalid digit found in string"@,
        IntParseError::PosOverflow => "number too large to fit in target type"@,
        IntParseError::NegOverflow => "number too small to fit in target type"@,
    }
}

/// The message std's `ParseIntError` displays.
pub fn int_error_text(e: &IntParseError) -> (r: Vec<char>)
    ensures
        r@ == int_error_message(*e),
{
    match e {
        IntParseError::Empty => chars_of("cannot parse integer from empty string"),
        IntParseError::InvalidDigit => chars_of("invalid digit found in string"),
        IntParseError::PosOverflow => chars_of("number too large to fit in target type"),
        IntParseError::NegOverflow => chars_of("number too small to fit in target type"),
    }
}

/// A root attribute parsed as an unsigned number bounded by `max`, or the
/// error for a missing attribute or an unparsable value.
pub open spec fn scene_number(root: ElementModel, name: Seq<char>, max: int) -> Result<int, Seq<char>> {
    match attr_value(root.attrs, name) {
        None => Err("scene 缺少 "@ + name + " 属性"@),
        Some(v) => match parse_unsigned(v, max) {
            Ok(n) => Ok(n),
            Err(e) => Err(name + " 解析失败: "@ + int_error_message(e)),
        },
    }
}

/// The error for a missing attribute or an unparsable value.
fn number_error(name: &str, value: Option<&String>, e: Option<IntParseError>) -> (r: String)
    requires
        value is None || e is Some,
    ensures
        value is None ==> r@ == "scene 缺少 "@ + name@ + " 属性"@,
        value is Some ==> r@ == name@ + " 解析失败: "@ + int_error_message(e->0),
{
    let mut m: Vec<char> = Vec::new();
    match value {
        None => {
            push_str(&mut m, "scene 缺少 ");
            push_str(&mut m, name);
            push_str(&mut m, " 属性");
        },
        Some(_) => {
            push_str(&mut m, name);
            push_str(&mut m, " 解析失败: ");
            match e {
                Some(k) => {
                    let t = int_error_text(&k);
                    push_all(&mut m, &t);
                },
                None => {},
            }
        },
    }
    string_of(&m)
}

/// The scene's `totalTime` (milliseconds).
pub fn scene_total_time(root: &XmlElement) -> (r: Result<u64, String>)
    ensures
        match r {
            Ok(t) => scene_number(root@, "totalTime"@, u64::MAX as int) == Ok::<int, Seq<char>>(
                t as int,
            ),
            Err(e) => scene_number(root@, "totalTime"@, u64::MAX as int) == Err::<
                int,
                Seq<char>,
            >(e@),
        },
{
    match attribute(root, "totalTime") {
        None => Err(number_error("totalTime", None, None)),
        Some(v) => {
            let c = chars_of(v.as_str());
            match parse_u64(&c) {
                Ok(t) => Ok(t),
                Err(e) => Err(number_error("totalTime", Some(v), Some(e))),
            }
        },
    }
}

/// The scene's `fps`.
pub fn scene_fps(root: &XmlElement) -> (r: Result<u32, String>)
    ensures
        match r {
            Ok(t) => scene_number(root@, "fps"@, u32::MAX as int) == Ok::<int, Seq<char>>(
                t as int,
            ),
            Err(e) => scene_number(root@, "fps"@, u32::MAX as int) == Err::<int, Seq<char>>(e@),
        },
{
    match attribute(root, "fps") {
        None => Err(number_error("fps", None, None)),
        Some(v) => {
            let c = chars_of(v.as_str());
            match parse_u32(&c) {
                Ok(t) => Ok(t),
                Err(e) => Err(number_error("fps", Some(v), Some(e))),
            }
        },
    }
}

/// An attribute's value, or `default` when absent.
pub open spec fn attr_or(attrs: Seq<AttrModel>, name: Seq<char>, default: Seq<char>) -> Seq<char> {
    match attr_value(attrs, name) {
        Some(v) => v,
        None => default,
    }
}

/// An attribute's value as characters, or `default`.
pub fn attribute_or(el: &XmlElement, name: &str, default: &str) -> (r: Vec<char>)
    ensures
        r@ == attr_or(el@.attrs, name@, default@),
{
    match attribute(el, name) {
        Some(v) => chars_of(v.as_str()),
        None => chars_of(default),
    }
}

/// Canvas width and height of the scene (`1280` and `960` when absent), from
/// which the caller places the group at the canvas centre.
pub fn canvas_size(doc: &SceneXml) -> (r: (String, String))
    ensures
        r.0@ == attr_or(doc@.root.attrs, "width"@, "1280"@),
        r.1@ == attr_or(doc@.root.attrs, "height"@, "960"@),
{
    let w = attribute_or(&doc.root, "width", "1280");
    let h = attribute_or(&doc.root, "height", "960");
    (string_of(&w), string_of(&h))
}

// ---------------------------------------------------------------------------
// The grouped project
// ---------------------------------------------------------------------------

/// The elements kept at the top level (`<media>` and `<bookmark>`), in order.
pub open spec fn kept_elements(children: Seq<ElementModel>) -> Seq<ElementModel>
    decreases children.len(),
{
    if children.len() == 0 {
        seq![]
    } else if is_skipped_tag(children.last().tag) {
        kept_elements(children.drop_last()).push(children.last())
    } else {
        kept_elements(children.drop_last())
    }
}

/// The sources of the elements.
pub open spec fn sources(els: Seq<ElementModel>) -> Seq<Seq<char>> {
    els.map_values(|e: ElementModel| e.source)
}

/// The root's attributes, each written with its value escaped.
pub open spec fn attrs_text(attrs: Seq<AttrModel>) -> Seq<char>
    decreases attrs.len(),
{
    if attrs.len() == 0 {
        seq![]
    } else {
        attrs_text(attrs.drop_last()) + attr_text(attrs.last().name, attrs.last().value)
    }
}

/// Opening tag of the inner scene, made from the outer scene's size, frame
/// rate and version attributes (with their defaults).
pub open spec fn inner_scene_tag(root: ElementModel, total_time: int) -> Seq<char> {
    let w = attr_or(root.attrs, "width"@, "1280"@);
    let h = attr_or(root.attrs, "height"@, "960"@);
    "    <scene title=\"\" width=\""@ + w + "\" height=\""@ + h + "\" exportWidth=\""@ + w
        + "\" exportHeight=\""@ + h
        + "\" precompose=\"dynamicResolution\" bgcolor=\"#00000000\" totalTime=\""@ + decimal(
        total_time as nat,
    ) + "\" fps=\""@ + attr_or(root.attrs, "fps"@, "60"@) + "\" modifiedTime=\"0\" amver=\""@
        + attr_or(root.attrs, "amver"@, "43475"@) + "\" ffver=\""@ + attr_or(
        root.attrs,
        "ffver"@,
        "105"@,
    ) + "\" am=\""@ + escape_xml(attr_or(root.attrs, "am"@, "com.taffy.alemon/4.3.4.3019"@))
        + "\" amplatform=\""@ + attr_or(root.attrs, "amplatform"@, "android"@)
        + "\" retime=\"off\" retimeAdaptFPS=\"false\">\n"@
}

/// XML of the grouped project. `location_xy` is the group's position (the
/// canvas centre, `x,y`).
pub open spec fn grouped_text(doc: SceneModel, total_time: int, location_xy: Seq<char>) -> Seq<char> {
    "<?xml version='1.0' encoding='UTF-8' ?>\n"@ + "<scene"@ + attrs_text(doc.root.attrs) + ">\n"@
        + indented_lines(sources(kept_elements(doc.children)), "  "@)
        + "  <embedScene id=\"99830094\" label=\"编组\" startTime=\"0\" endTime=\""@ + decimal(
        total_time as nat,
    ) + "\" fillType=\"intrinsic\">\n"@ + "    <transform>\n"@ + "      <location value=\""@
        + location_xy + ",0.000000\" />\n"@ + "    </transform>\n"@
        + "    <fillColor value=\"#ff000000\" />\n"@ + inner_scene_tag(doc.root, total_time)
        + indented_lines(sources(content_elements(doc.children)), "      "@) + "    </scene>\n"@
        + "  </embedScene>\n"@ + "</scene>\n"@
}

/// The XML declaration that starts every written project.
pub open spec fn xml_declaration() -> Seq<char> {
    "<?xml version='1.0' encoding='UTF-8' ?>\n"@
}

/// The grouped project up to its kept lines: the declaration and the outer
/// scene's start tag.
pub open spec fn grouped_head(doc: SceneModel) -> Seq<char> {
    xml_declaration() + "<scene"@ + attrs_text(doc.root.attrs) + ">\n"@
}

/// The kept `<media>` and `<bookmark>` lines of the grouped project.
pub open spec fn grouped_kept_lines(doc: SceneModel) -> Seq<char> {
    indented_lines(sources(kept_elements(doc.children)), "  "@)
}

/// The grouping `embedScene` start tag before its `>`, with its indent.
pub open spec fn embed_open_text(total_time: int) -> Seq<char> {
    "  <embedScene id=\"99830094\" label=\"编组\" startTime=\"0\" endTime=\""@ + decimal(
        total_time as nat,
    ) + "\" fillType=\"intrinsic\""@
}

/// The grouped project from the `>` of the grouping `embedScene` start tag
/// on: the transform, the fill, the inner scene with the content elements,
/// and the closing tags.
pub open spec fn grouped_after_embed_tag(doc: SceneModel, total_time: int, location_xy: Seq<char>) -> Seq<
    char,
> {
    ">\n"@ + "    <transform>\n"@ + "      <location value=\""@ + location_xy + ",0.000000\" />\n"@
        + "    </transform>\n"@ + "    <fillColor value=\"#ff000000\" />\n"@ + inner_scene_tag(
        doc.root,
        total_time,
    ) + indented_lines(sources(content_elements(doc.children)), "      "@) + "    </scene>\n"@
        + "  </embedScene>\n"@ + "</scene>\n"@
}

/// The attribute names hold neither `<` nor `>` (as XML names never do).
pub open spec fn names_without_angles(attrs: Seq<AttrModel>) -> bool {
    forall|k: int| 0 <= k < attrs.len() ==> lacks(#[trigger] attrs[k].name, '<') && lacks(
        attrs[k].name,
        '>',
    )
}

proof fn lemma_attrs_text_no_angles(attrs: Seq<AttrModel>)
    requires
        names_without_angles(attrs),
    ensures
        lacks(attrs_text(attrs), '<'),
        lacks(attrs_text(attrs), '>'),
        attrs.len() > 0 ==> attrs_text(attrs).len() > 0 && attrs_text(attrs).last() == '"',
    decreases attrs.len(),
{
    reveal_strlit(" ");
    reveal_strlit("=\"");
    reveal_strlit("\"");
    if attrs.len() > 0 {
        let a = attrs.last();
        assert(a == attrs[attrs.len() - 1]);
        assert(names_without_angles(attrs.drop_last())) by {
            assert forall|k: int| 0 <= k < attrs.drop_last().len() implies lacks(
                #[trigger] attrs.drop_last()[k].name,
                '<',
            ) && lacks(attrs.drop_last()[k].name, '>') by {
                assert(attrs.drop_last()[k] == attrs[k]);
            }
        }
        lemma_attrs_text_no_angles(attrs.drop_last());
        crate::xml::law_escape_has_no_delimiters(a.value);
        let e = escape_xml(a.value);
        assert(lacks(e, '<') && lacks(e, '>'));
        let sp = " "@;
        let eq = "=\""@;
        let q = "\""@;
        assert(lacks(sp, '<') && lacks(sp, '>'));
        assert(lacks(eq, '<') && lacks(eq, '>'));
        assert(lacks(q, '<') && lacks(q, '>'));
        let prev = attrs_text(attrs.drop_last());
        lemma_concat_lacks(prev, sp, '<');
        lemma_concat_lacks(prev + sp, a.name, '<');
        lemma_concat_lacks(prev + sp + a.name, eq, '<');
        lemma_concat_lacks(prev + sp + a.name + eq, e, '<');
        lemma_concat_lacks(prev + sp + a.name + eq + e, q, '<');
        lemma_concat_lacks(prev, sp, '>');
        lemma_concat_lacks(prev + sp, a.name, '>');
        lemma_concat_lacks(prev + sp + a.name, eq, '>');
        lemma_concat_lacks(prev + sp + a.name + eq, e, '>');
        lemma_concat_lacks(prev + sp + a.name + eq + e, q, '>');
        assert(attrs_text(attrs) =~= prev + sp + a.name + eq + e + q);
    }
}

proof fn lemma_attrs_text_append(a: Seq<AttrModel>, b: Seq<AttrModel>)
    ensures
        attrs_text(a + b) == attrs_text(a) + attrs_text(b),
    decreases b.len(),
{
    if b.len() == 0 {
        assert(a + b =~= a);
        assert(attrs_text(b) =~= Seq::<char>::empty());
        assert(attrs_text(a) + attrs_text(b) =~= attrs_text(a));
    } else {
        assert((a + b).drop_last() =~= a + b.drop_last());
        assert((a + b).last() == b.last());
        lemma_attrs_text_append(a, b.drop_last());
        assert(attrs_text(a + b) =~= attrs_text(a) + attrs_text(b));
    }
}

/// An attribute named `totalTime` puts `totalTime="` into the attributes'
/// text, with a `"` after it.
proof fn lemma_attrs_text_total_time(attrs: Seq<AttrModel>, k: int)
    requires
        0 <= k < attrs.len(),
        attrs[k].name == "totalTime"@,
    ensures
        exists|m: int|
            #![trigger matches_at(attrs_text(attrs), m, "totalTime=\""@)]
            matches_at(attrs_text(attrs), m, "totalTime=\""@) && m + 11 < attrs_text(attrs).len(),
{
    reveal_strlit("totalTime=\"");
    reveal_strlit("totalTime");
    reveal_strlit(" ");
    reveal_strlit("=\"");
    reveal_strlit("\"");
    let pre = attrs.take(k);
    let one = seq![attrs[k]];
    let post = attrs.skip(k + 1);
    assert(attrs =~= pre + one + post);
    lemma_attrs_text_append(pre + one, post);
    lemma_attrs_text_append(pre, one);
    assert(one.drop_last() =~= Seq::<AttrModel>::empty());
    assert(attrs_text(one.drop_last()) =~= Seq::<char>::empty());
    assert(one.last() == attrs[k]);
    let piece = attr_text(attrs[k].name, attrs[k].value);
    assert(attrs_text(one) =~= piece);
    let full = attrs_text(attrs);
    let off = attrs_text(pre).len();
    assert(full =~= attrs_text(pre) + piece + attrs_text(post));
    let m: int = off as int + 1;
    assert(piece.subrange(1, 12) =~= "totalTime=\""@);
    assert(full.subrange(m, m + 11) =~= piece.subrange(1, 12));
    assert(matches_at(full, m, "totalTime=\""@));
}

/// The head of a grouped project or chunk: the declaration, then `<scene`,
/// then no `<` up to the kept lines.
pub open spec fn head_shape(h: Seq<char>) -> bool {
    &&& h.len() >= 46
    &&& h.take(46) == xml_declaration() + "<scene"@
    &&& forall|i: int| 46 <= i < h.len() ==> #[trigger] h[i] != '<'
}

/// A first match found by position.
proof fn lemma_first_at(s: Seq<char>, pat: Seq<char>, from: int, p: int)
    requires
        from <= p,
        matches_at(s, p, pat),
        forall|q: int| from <= q < p ==> !#[trigger] matches_at(s, q, pat),
    ensures
        find_from(s, pat, from) == Some(p),
{
    crate::text::lemma_find_from_is(s, pat, from, p);
}

/// A match at `x` bounds the first match from `from` by `x`.
proof fn lemma_first_at_most(s: Seq<char>, pat: Seq<char>, from: int, x: int)
    requires
        from <= x,
        matches_at(s, x, pat),
    ensures
        find_from(s, pat, from) is Some,
        from <= find_from(s, pat, from)->0 <= x,
{
    if find_from(s, pat, from) is None {
        crate::text::lemma_find_from_none(s, pat, from, x);
    }
    crate::text::lemma_find_from_some(s, pat, from);
}

proof fn lemma_declaration_chars()
    ensures
        xml_declaration().len() == 40,
        xml_declaration()[0] == '<',
        xml_declaration()[1] == '?',
        forall|q: int| 0 < q < 40 ==> #[trigger] xml_declaration()[q] != '<',
{
    reveal_strlit("<?xml version='1.0' encoding='UTF-8' ?>\n");
}

/// Where the outer scene's start tag stands in a grouped project.
proof fn lemma_head_layout(doc: SceneModel, rest: Seq<char>)
    requires
        names_without_angles(doc.root.attrs),
    ensures
        ({
            let a_text = attrs_text(doc.root.attrs);
            let g = grouped_head(doc) + rest;
            let e: int = 46 + a_text.len() as int;
            &&& find(g, "<scene"@) == Some(40int)
            &&& find_from(g, ">"@, 40) == Some(e)
            &&& g.subrange(40, e + 1) == "<scene"@ + a_text + ">"@
            &&& grouped_head(doc).len() == e + 2
            &&& head_shape(grouped_head(doc))
            &&& (doc.root.attrs.len() > 0 ==> g[e - 1] == '"')
        }),
{
    reveal_strlit("<scene");
    reveal_strlit(">\n");
    reveal_strlit(">");
    lemma_declaration_chars();
    let d = xml_declaration();
    let attrs = doc.root.attrs;
    let a_text = attrs_text(attrs);
    let h = grouped_head(doc);
    let g = h + rest;
    let e: int = 46 + a_text.len() as int;
    lemma_attrs_text_no_angles(attrs);
    assert(h =~= d + "<scene"@ + a_text + ">\n"@);
    assert forall|i: int| 0 <= i < h.len() implies #[trigger] g[i] == h[i] by {}
    assert forall|i: int| 0 <= i < 40 implies #[trigger] h[i] == d[i] by {}
    assert forall|i: int| 40 <= i < 46 implies #[trigger] h[i] == "<scene"@[i - 40] by {}
    assert forall|i: int| 46 <= i < e implies #[trigger] h[i] == a_text[i - 46] by {}
    assert(h[e] == '>' && h[e + 1] == '\n');
    assert forall|q: int| 0 <= q < 40 implies !#[trigger] matches_at(g, q, "<scene"@) by {
        if matches_at(g, q, "<scene"@) {
            assert(g.subrange(q, q + 6)[0] == g[q]);
            assert(g.subrange(q, q + 6)[1] == g[q + 1]);
        }
    }
    assert(g.subrange(40, 46) =~= "<scene"@);
    lemma_first_at(g, "<scene"@, 0, 40);
    assert forall|q: int| 40 <= q < e implies !#[trigger] matches_at(g, q, ">"@) by {
        if matches_at(g, q, ">"@) {
            assert(g.subrange(q, q + 1)[0] == g[q]);
            if q >= 46 {
                assert(a_text[q - 46] != '>');
            }
        }
    }
    assert(g.subrange(e, e + 1) =~= ">"@);
    lemma_first_at(g, ">"@, 40, e);
    assert(g.subrange(40, e + 1) =~= "<scene"@ + a_text + ">"@);
    assert(h.take(46) =~= d + "<scene"@);
    assert forall|i: int| 46 <= i < h.len() implies #[trigger] h[i] != '<' by {
        if i < e {
            assert(a_text[i - 46] != '<');
        }
    }
    if attrs.len() > 0 {
        assert(a_text[a_text.len() - 1] == '"');
    }
}

/// Setting the total time of a grouped project changes only its head: the
/// head keeps its shape and the rest is kept.
#[verifier::rlimit(60)]
proof fn lemma_total_time_in_head(doc: SceneModel, rest: Seq<char>, total_time: int)
    requires
        names_without_angles(doc.root.attrs),
        exists|k: int|
            0 <= k < doc.root.attrs.len() && (#[trigger] doc.root.attrs[k]).name == "totalTime"@,
    ensures
        exists|h2: Seq<char>|
            replace_scene_total_time_spec(grouped_head(doc) + rest, total_time) == h2 + rest
                && head_shape(h2),
{
    reveal_strlit("\"");
    reveal_strlit("totalTime=\"");
    let attrs = doc.root.attrs;
    let a_text = attrs_text(attrs);
    let h = grouped_head(doc);
    let g = h + rest;
    let e: int = 46 + a_text.len() as int;
    lemma_head_layout(doc, rest);
    lemma_attrs_text_no_angles(attrs);
    let tag = g.subrange(40, e + 1);
    let pat = "totalTime=\""@;
    match find(tag, pat) {
        None => {
            assert(replace_scene_total_time_spec(g, total_time) == h + rest);
        },
        Some(t) => {
            crate::text::lemma_find_from_some(tag, pat, 0);
            let k = choose|k: int|
                0 <= k < attrs.len() && (#[trigger] attrs[k]).name == "totalTime"@;
            lemma_attrs_text_total_time(attrs, k);
            let m = choose|m: int|
                #![trigger matches_at(a_text, m, pat)]
                matches_at(a_text, m, pat) && m + 11 < a_text.len();
            assert(tag.subrange(6 + m, 17 + m) =~= a_text.subrange(m, m + 11));
            assert(matches_at(tag, 6 + m, pat));
            assert(t <= 6 + m);
            let a = 40 + t + 11;
            assert(g.subrange(e - 1, e) =~= "\""@);
            lemma_first_at_most(g, "\""@, a, e - 1);
            let q = find_from(g, "\""@, a)->0;
            let dec = decimal(total_time as nat);
            lemma_decimal_no_gt(total_time as nat);
            assert(replace_scene_total_time_spec(g, total_time) == g.take(a) + dec + g.skip(q));
            lemma_splice_in_head(h, rest, a, q, dec);
        },
    }
}

/// Replacing a part of a head after its `<scene` by a text without `<`
/// keeps it a head.
proof fn lemma_splice_in_head(h: Seq<char>, rest: Seq<char>, a: int, q: int, dec: Seq<char>)
    requires
        head_shape(h),
        46 <= a <= q < h.len(),
        lacks(dec, '<'),
    ensures
        head_shape(h.take(a) + dec + h.skip(q)),
        (h + rest).take(a) + dec + (h + rest).skip(q) == h.take(a) + dec + h.skip(q) + rest,
{
    let g = h + rest;
    let h2 = h.take(a) + dec + h.skip(q);
    assert(g.take(a) =~= h.take(a));
    assert(g.skip(q) =~= h.skip(q) + rest);
    assert(g.take(a) + dec + g.skip(q) =~= h2 + rest);
    assert(h2.take(46) =~= h.take(46));
    assert forall|i: int| 46 <= i < h2.len() implies #[trigger] h2[i] != '<' by {
        if i < a {
            assert(h2[i] == h[i]);
        } else if i < a + dec.len() {
            assert(h2[i] == dec[i - a]);
        } else {
            assert(h2[i] == h[q + i - a - dec.len()]);
        }
    }
}

/// No `<embedScene` starts inside kept lines whose sources hold none: a
/// match cannot reach past a source into the line's newline.
proof fn lemma_lines_hold_no_embed(srcs: Seq<Seq<char>>, tail: Seq<char>)
    requires
        forall|i: int| 0 <= i < srcs.len() ==> !contains(#[trigger] srcs[i], "<embedScene"@),
    ensures
        forall|p: int|
            0 <= p < indented_lines(srcs, "  "@).len() ==> !#[trigger] matches_at(
                indented_lines(srcs, "  "@) + tail,
                p,
                "<embedScene"@,
            ),
    decreases srcs.len(),
{
    reveal_strlit("<embedScene");
    reveal_strlit("  ");
    reveal_strlit("\n");
    let pat = "<embedScene"@;
    if srcs.len() > 0 {
        let src = srcs.last();
        assert(src == srcs[srcs.len() - 1]);
        let kp = indented_lines(srcs.drop_last(), "  "@);
        let k = indented_lines(srcs, "  "@);
        let line_tail = "  "@ + src + "\n"@ + tail;
        assert(k =~= kp + "  "@ + src + "\n"@);
        assert(k + tail =~= kp + line_tail);
        assert forall|i: int| 0 <= i < srcs.drop_last().len() implies !contains(
            #[trigger] srcs.drop_last()[i],
            pat,
        ) by {
            assert(srcs.drop_last()[i] == srcs[i]);
        }
        lemma_lines_hold_no_embed(srcs.drop_last(), line_tail);
        let b: int = kp.len() as int + 2;
        let u = k + tail;
        assert forall|p: int| 0 <= p < k.len() implies !#[trigger] matches_at(u, p, pat) by {
            if p >= kp.len() && matches_at(u, p, pat) {
                assert(u.subrange(p, p + 11)[0] == u[p]);
                if p < b {
                    assert(u[p] == ' ');
                } else if p + 11 <= b + src.len() {
                    assert(u.subrange(p, p + 11) =~= src.subrange(p - b, p - b + 11));
                    assert(matches_at(src, p - b, pat));
                } else if p < b + src.len() {
                    let j: int = b + src.len() - p;
                    assert(u.subrange(p, p + 11)[j] == u[b + src.len()]);
                    assert(u[b + src.len()] == '\n');
                    assert(pat[j] != '\n');
                } else {
                    assert(u[p] == '\n');
                }
            }
        }
    }
}

/// In a head, then kept lines without `<embedScene`, then the grouping
/// `embedScene` start tag and a text that starts with `>`, the first
/// `<embedScene` is the grouping one and its tag ends at that `>`.
#[verifier::rlimit(60)]
proof fn lemma_embed_tag_located(
    h: Seq<char>,
    srcs: Seq<Seq<char>>,
    total_time: int,
    after: Seq<char>,
)
    requires
        head_shape(h),
        forall|i: int| 0 <= i < srcs.len() ==> !contains(#[trigger] srcs[i], "<embedScene"@),
        after.len() > 0,
        after[0] == '>',
    ensures
        ({
            let k = indented_lines(srcs, "  "@);
            let x = h + k + embed_open_text(total_time) + after;
            let s2: int = h.len() as int + k.len() as int + 2;
            let e2: int = h.len() as int + k.len() as int + embed_open_text(total_time).len() as int;
            &&& find(x, "<embedScene"@) == Some(s2)
            &&& find_from(x, ">"@, s2) == Some(e2)
            &&& x.take(s2) == h + k + "  "@
            &&& x.skip(e2) == after
            &&& embed_tag_text(x.subrange(s2, e2))
        }),
{
    reveal_strlit("<embedScene");
    reveal_strlit("  ");
    reveal_strlit(">");
    reveal_strlit("<scene");
    reveal_strlit("  <embedScene id=\"99830094\" label=\"编组\" startTime=\"0\" endTime=\"");
    reveal_strlit("\" fillType=\"intrinsic\"");
    lemma_declaration_chars();
    let pat = "<embedScene"@;
    let k = indented_lines(srcs, "  "@);
    let e0 = embed_open_text(total_time);
    let x = h + k + e0 + after;
    let s2: int = h.len() as int + k.len() as int + 2;
    let e2: int = h.len() as int + k.len() as int + e0.len() as int;
    let lit1 = "  <embedScene id=\"99830094\" label=\"编组\" startTime=\"0\" endTime=\""@;
    let lit2 = "\" fillType=\"intrinsic\""@;
    let dec = decimal(total_time as nat);
    lemma_decimal_no_gt(total_time as nat);
    assert(e0 == lit1 + dec + lit2);
    lemma_concat_lacks(lit1, dec, '>');
    lemma_concat_lacks(lit1 + dec, lit2, '>');
    assert(x =~= h + (k + (e0 + after)));
    // Nothing in the head starts a match.
    assert forall|p: int| 0 <= p < h.len() implies !#[trigger] matches_at(x, p, pat) by {
        if matches_at(x, p, pat) {
            assert(x.subrange(p, p + 11)[0] == x[p]);
            assert(x.subrange(p, p + 11)[1] == x[p + 1]);
            assert(x[p] == h[p]);
            if p < 46 {
                assert(h[p] == h.take(46)[p]);
                assert(h[p + 1] == h.take(46)[p + 1]);
                if p < 40 {
                    assert(h.take(46)[p] == xml_declaration()[p]);
                    if p == 0 {
                        assert(h.take(46)[1] == xml_declaration()[1]);
                    }
                } else {
                    assert(h.take(46)[p] == "<scene"@[p - 40]);
                    assert(h.take(46)[p + 1] == "<scene"@[p - 39]);
                }
            }
        }
    }
    // Nor anything in the kept lines.
    lemma_lines_hold_no_embed(srcs, e0 + after);
    assert forall|p: int| h.len() <= p < h.len() + k.len() implies !#[trigger] matches_at(
        x,
        p,
        pat,
    ) by {
        let u = k + (e0 + after);
        if matches_at(x, p, pat) {
            assert(x.subrange(p, p + 11) =~= u.subrange(p - h.len(), p - h.len() + 11));
            assert(matches_at(u, p - h.len(), pat));
        }
    }
    assert forall|p: int| h.len() + k.len() <= p < s2 implies !#[trigger] matches_at(x, p, pat) by {
        if matches_at(x, p, pat) {
            assert(x.subrange(p, p + 11)[0] == x[p]);
            assert(x[p] == lit1[p - h.len() - k.len()]);
        }
    }
    assert(x.subrange(s2, s2 + 11) =~= pat);
    lemma_first_at(x, pat, 0, s2);
    // Its tag ends at the `>` that starts `after`.
    assert forall|p: int| s2 <= p < e2 implies !#[trigger] matches_at(x, p, ">"@) by {
        if matches_at(x, p, ">"@) {
            assert(x.subrange(p, p + 1)[0] == x[p]);
            assert(x[p] == e0[p - h.len() - k.len()]);
        }
    }
    assert(x.subrange(e2, e2 + 1) =~= ">"@);
    lemma_first_at(x, ">"@, s2, e2);
    assert(x.take(s2) =~= h + k + "  "@);
    assert(x.skip(e2) =~= after);
    let t = x.subrange(s2, e2);
    assert(t =~= e0.skip(2));
    assert(t.take(11) =~= pat);
    assert forall|i: int| 0 <= i < t.len() implies #[trigger] t[i] != '>' by {
        assert(t[i] == e0[i + 2]);
    }
}

proof fn lemma_grouped_parts(doc: SceneModel, total_time: int, location_xy: Seq<char>)
    ensures
        grouped_text(doc, total_time, location_xy) == grouped_head(doc) + grouped_kept_lines(doc)
            + embed_open_text(total_time) + grouped_after_embed_tag(doc, total_time, location_xy),
{
    reveal_strlit("\" fillType=\"intrinsic\">\n");
    reveal_strlit("\" fillType=\"intrinsic\"");
    reveal_strlit(">\n");
    assert("\" fillType=\"intrinsic\">\n"@ =~= "\" fillType=\"intrinsic\""@ + ">\n"@);
    assert(grouped_text(doc, total_time, location_xy) =~= grouped_head(doc) + grouped_kept_lines(
        doc,
    ) + embed_open_text(total_time) + grouped_after_embed_tag(doc, total_time, location_xy));
}

/// The grouped project's XML, or the error for a scene without content.
pub open spec fn grouped_result(doc: SceneModel, total_time: int, location_xy: Seq<char>) -> Result<
    Seq<char>,
    Seq<char>,
> {
    if content_elements(doc.children).len() == 0 {
        Err("scene 中没有内容元素可编组"@)
    } else {
        Ok(grouped_text(doc, total_time, location_xy))
    }
}

/// Sources of the kept and the content elements, in order.
fn partition_sources(children: &Vec<XmlElement>) -> (r: (Vec<Vec<char>>, Vec<Vec<char>>))
    ensures
        texts_view(r.0@) == sources(kept_elements(children@.map_values(|e: XmlElement| e@))),
        texts_view(r.1@) == sources(content_elements(children@.map_values(|e: XmlElement| e@))),
{
    let ghost cv = children@.map_values(|e: XmlElement| e@);
    let mut kept: Vec<Vec<char>> = Vec::new();
    let mut content: Vec<Vec<char>> = Vec::new();
    let mut i: usize = 0;
    while i < children.len()
        invariant
            0 <= i <= children.len(),
            cv == children@.map_values(|e: XmlElement| e@),
            texts_view(kept@) == sources(kept_elements(cv.take(i as int))),
            texts_view(content@) == sources(content_elements(cv.take(i as int))),
        decreases children.len() - i,
    {
        proof {
            assert(cv.take(i + 1).drop_last() == cv.take(i as int));
            assert(cv.take(i + 1).last() == cv[i as int]);
        }
        let tag = children[i].tag.as_str();
        let src = chars_of(children[i].source.as_str());
        let ghost old_kept = texts_view(kept@);
        let ghost old_content = texts_view(content@);
        proof {
            assert(cv[i as int].source == src@);
        }
        if str_eq(tag, "media") || str_eq(tag, "bookmark") {
            kept.push(src);
            proof {
                assert(texts_view(kept@) =~= old_kept.push(src@));
                assert(sources(kept_elements(cv.take(i + 1))) =~= sources(kept_elements(cv.take(i as int))).push(src@));
            }
        } else {
            content.push(src);
            proof {
                assert(texts_view(content@) =~= old_content.push(src@));
                assert(sources(content_elements(cv.take(i + 1))) =~= sources(content_elements(cv.take(i as int))).push(src@));
            }
        }
        i += 1;
    }
    proof {
        assert(cv.take(children.len() as int) == cv);
    }
    (kept, content)
}

/// Appends the root's attributes, each with its value escaped.
fn push_root_attrs(out: &mut Vec<char>, root: &XmlElement)
    ensures
        final(out)@ == old(out)@ + attrs_text(root@.attrs),
{
    let ghost start = out@;
    let ghost av = root@.attrs;
    let mut i: usize = 0;
    while i < root.attrs.len()
        invariant
            0 <= i <= root.attrs.len(),
            av == root@.attrs,
            out@ == start + attrs_text(av.take(i as int)),
        decreases root.attrs.len() - i,
    {
        proof {
            assert(av.take(i + 1).drop_last() == av.take(i as int));
            assert(av.take(i + 1).last() == root.attrs@[i as int]@);
        }
        let v = chars_of(root.attrs[i].value.as_str());
        push_attr(out, root.attrs[i].name.as_str(), &v);
        i += 1;
    }
    proof {
        assert(av.take(root.attrs.len() as int) == av);
    }
}

/// Appends the inner scene's opening tag.
fn push_inner_scene_tag(out: &mut Vec<char>, root: &XmlElement, total_time: u64)
    ensures
        final(out)@ == old(out)@ + inner_scene_tag(root@, total_time as int),
{
    let w = attribute_or(root, "width", "1280");
    let h = attribute_or(root, "height", "960");
    let t = fmt_u64(total_time);
    let fps = attribute_or(root, "fps", "60");
    let amver = attribute_or(root, "amver", "43475");
    let ffver = attribute_or(root, "ffver", "105");
    let am = attribute_or(root, "am", "com.taffy.alemon/4.3.4.3019");
    let am_escaped = escape_chars(&am);
    let platform = attribute_or(root, "amplatform", "android");
    push_str(out, "    <scene title=\"\" width=\"");
    push_all(out, &w);
    push_str(out, "\" height=\"");
    push_all(out, &h);
    push_str(out, "\" exportWidth=\"");
    push_all(out, &w);
    push_str(out, "\" exportHeight=\"");
    push_all(out, &h);
    push_str(out, "\" precompose=\"dynamicResolution\" bgcolor=\"#00000000\" totalTime=\"");
    push_all(out, &t);
    push_str(out, "\" fps=\"");
    push_all(out, &fps);
    push_str(out, "\" modifiedTime=\"0\" amver=\"");
    push_all(out, &amver);
    push_str(out, "\" ffver=\"");
    push_all(out, &ffver);
    push_str(out, "\" am=\"");
    push_all(out, &am_escaped);
    push_str(out, "\" amplatform=\"");
    push_all(out, &platform);
    push_str(out, "\" retime=\"off\" retimeAdaptFPS=\"false\">\n");
}

/// Builds the grouped project's XML (see `grouped_result`); `location_xy` is
/// the group's position, the canvas centre as `x,y`.
pub fn build_grouped_xml(doc: &SceneXml, total_time: u64, location_xy: &str) -> (r: Result<
    String,
    String,
>)
    ensures
        match r {
            Ok(x) => grouped_result(doc@, total_time as int, location_xy@) == Ok::<
                Seq<char>,
                Seq<char>,
            >(x@),
            Err(e) => grouped_result(doc@, total_time as int, location_xy@) == Err::<
                Seq<char>,
                Seq<char>,
            >(e@),
        },
{
    let (kept, content) = partition_sources(&doc.children);
    proof {
        assert(doc@.children == doc.children@.map_values(|e: XmlElement| e@));
    }
    if content.len() == 0 {
        return Err(String::from_str("scene 中没有内容元素可编组"));
    }
    let mut out: Vec<char> = Vec::new();
    push_str(&mut out, "<?xml version='1.0' encoding='UTF-8' ?>\n");
    push_str(&mut out, "<scene");
    push_root_attrs(&mut out, &doc.root);
    push_str(&mut out, ">\n");
    push_indented_lines(&mut out, &kept, "  ");
    push_str(&mut out, "  <embedScene id=\"99830094\" label=\"编组\" startTime=\"0\" endTime=\"");
    let t = fmt_u64(total_time);
    push_all(&mut out, &t);
    push_str(&mut out, "\" fillType=\"intrinsic\">\n");
    push_str(&mut out, "    <transform>\n");
    push_str(&mut out, "      <location value=\"");
    push_str(&mut out, location_xy);
    push_str(&mut out, ",0.000000\" />\n");
    push_str(&mut out, "    </transform>\n");
    push_str(&mut out, "    <fillColor value=\"#ff000000\" />\n");
    push_inner_scene_tag(&mut out, &doc.root, total_time);
    push_indented_lines(&mut out, &content, "      ");
    push_str(&mut out, "    </scene>\n");
    push_str(&mut out, "  </embedScene>\n");
    push_str(&mut out, "</scene>\n");
    Ok(string_of(&out))
}


// ---------------------------------------------------------------------------
// Retiming the grouped project
// ---------------------------------------------------------------------------

/// `xml` with the value of `totalTime` in its first `<scene ...>` tag set to
/// `total_time`; unchanged when there is no such tag or attribute.
pub open spec fn replace_scene_total_time_spec(xml: Seq<char>, total_time: int) -> Seq<char> {
    match find(xml, "<scene"@) {
        None => xml,
        Some(s) => match find_from(xml, ">"@, s) {
            None => xml,
            Some(e) => match find(xml.subrange(s, e + 1), "totalTime=\""@) {
                None => xml,
                Some(t) => {
                    let a = s + t + 11;
                    match find_from(xml, "\""@, a) {
                        None => xml,
                        Some(q) => xml.take(a) + decimal(total_time as nat) + xml.skip(q),
                    }
                },
            },
        },
    }
}

/// Sets `totalTime` in the first `<scene ...>` tag of `xml`.
pub fn replace_scene_total_time(xml: &Vec<char>, total_time: u64) -> (r: Vec<char>)
    ensures
        r@ == replace_scene_total_time_spec(xml@, total_time as int),
{
    let unchanged = slice_chars(xml, 0, xml.len());
    proof {
        assert(xml@.subrange(0, xml@.len() as int) == xml@);
    }
    proof {
        reveal_strlit("<scene");
        reveal_strlit(">");
        reveal_strlit("totalTime=\"");
        reveal_strlit("\"");
    }
    let scene_pat = chars_of("<scene");
    let gt = chars_of(">");
    let tt = chars_of("totalTime=\"");
    let quote = chars_of("\"");
    let s = match find_from_exec(xml, &scene_pat, 0) {
        Some(s) => s,
        None => return unchanged,
    };
    proof {
        crate::text::lemma_find_from_some(xml@, scene_pat@, 0);
    }
    let e = match find_from_exec(xml, &gt, s) {
        Some(e) => e,
        None => return unchanged,
    };
    proof {
        crate::text::lemma_find_from_some(xml@, gt@, s as int);
    }
    let tag = slice_chars(xml, s, e + 1);
    let t = match find_from_exec(&tag, &tt, 0) {
        Some(t) => t,
        None => return unchanged,
    };
    proof {
        crate::text::lemma_find_from_some(tag@, tt@, 0);
    }
    let a = s + t + 11;
    let q = match find_from_exec(xml, &quote, a) {
        Some(q) => q,
        None => return unchanged,
    };
    proof {
        crate::text::lemma_find_from_some(xml@, quote@, a as int);
    }
    let mut out = slice_chars(xml, 0, a);
    let d = fmt_u64(total_time);
    push_all(&mut out, &d);
    let rest = slice_chars(xml, q, xml.len());
    push_all(&mut out, &rest);
    proof {
        assert(xml@.subrange(0, a as int) == xml@.take(a as int));
        assert(xml@.subrange(q as int, xml@.len() as int) == xml@.skip(q as int));
    }
    out
}

/// `fillType="intrinsic"`, after which the time window attributes go.
pub open spec fn fill_type_attr() -> Seq<char> {
    "fillType=\"intrinsic\""@
}

/// The first `<embedScene ...>` tag's text (without `>`) with `endTime` set.
pub open spec fn tag_with_end_time(tag: Seq<char>, end_time: int) -> Seq<char> {
    match find(tag, "endTime=\""@) {
        None => tag,
        Some(p) => match find_from(tag, "\""@, p + 9) {
            None => tag,
            Some(q) => tag.take(p + 9) + decimal(end_time as nat) + tag.skip(q),
        },
    }
}

/// ` inTime="{in_time}"` inserted after `fillType="intrinsic"` when `in_time > 0`.
pub open spec fn tag_with_in_time(tag: Seq<char>, in_time: int) -> Seq<char> {
    if in_time > 0 {
        match find(tag, fill_type_attr()) {
            None => tag,
            Some(p) => tag.take(p + 20) + " inTime=\""@ + decimal(in_time as nat) + "\""@ + tag.skip(
                p + 20,
            ),
        }
    } else {
        tag
    }
}

/// `inTime="{in_time}"`.
pub open spec fn in_time_attr(in_time: int) -> Seq<char> {
    "inTime=\""@ + decimal(in_time as nat) + "\""@
}

/// ` outTime="{out_time}"` inserted after the `inTime` attribute (after
/// `fillType="intrinsic"` when there is none).
pub open spec fn tag_with_out_time(tag: Seq<char>, in_time: int, out_time: int) -> Seq<char> {
    match find(tag, fill_type_attr()) {
        None => tag,
        Some(p) => {
            let at = if in_time > 0 {
                match find(tag, in_time_attr(in_time)) {
                    Some(ip) => ip + in_time_attr(in_time).len(),
                    None => p + 20,
                }
            } else {
                p + 20
            };
            tag.take(at) + " outTime=\""@ + signed_decimal(out_time) + "\""@ + tag.skip(at)
        },
    }
}

/// `xml` with its first `<embedScene ...>` tag given `endTime`, `inTime` (when
/// positive) and `outTime`; unchanged when there is no such tag.
pub open spec fn replace_embed_scene_time_spec(
    xml: Seq<char>,
    end_time: int,
    in_time: int,
    out_time: int,
) -> Seq<char> {
    match find(xml, "<embedScene"@) {
        None => xml,
        Some(s) => match find_from(xml, ">"@, s) {
            None => xml,
            Some(e) => xml.take(s) + tag_with_out_time(
                tag_with_in_time(tag_with_end_time(xml.subrange(s, e), end_time), in_time),
                in_time,
                out_time,
            ) + xml.skip(e),
        },
    }
}

/// `t` holds no `c`.
pub open spec fn lacks(t: Seq<char>, c: char) -> bool {
    forall|i: int| 0 <= i < t.len() ==> #[trigger] t[i] != c
}

/// `t` holds no `>`.
pub open spec fn no_gt(t: Seq<char>) -> bool {
    lacks(t, '>')
}

/// `t` is the text of an `embedScene` start tag before its `>`: it begins
/// with `<embedScene` and holds no `>`.
pub open spec fn embed_tag_text(t: Seq<char>) -> bool {
    t.len() >= 11 && t.take(11) == "<embedScene"@ && no_gt(t)
}

proof fn lemma_decimal_digits(n: nat)
    ensures
        forall|i: int|
            0 <= i < decimal(n).len() ==> 48 <= #[trigger] decimal(n)[i] as u32 <= 57,
    decreases n,
{
    if n >= 10 {
        lemma_decimal_digits(n / 10);
        let d = (n % 10) as int;
        assert(digit_char(d) as u32 == d + 48);
        assert(decimal(n) == decimal(n / 10).push(digit_char(d)));
        assert forall|i: int| 0 <= i < decimal(n).len() implies 48 <= #[trigger] decimal(n)[i] as u32
            <= 57 by {
            if i < decimal(n / 10).len() {
                assert(decimal(n)[i] == decimal(n / 10)[i]);
            }
        }
    } else {
        assert(digit_char(n as int) as u32 == n + 48);
    }
}

proof fn lemma_decimal_no_gt(n: nat)
    ensures
        no_gt(decimal(n)),
        lacks(decimal(n), '<'),
{
    lemma_decimal_digits(n);
    assert forall|i: int| 0 <= i < decimal(n).len() implies #[trigger] decimal(n)[i] != '>'
        && decimal(n)[i] != '<' by {
        assert(48 <= decimal(n)[i] as u32 <= 57);
    }
}

/// A text made of two texts without `c` holds none.
proof fn lemma_concat_lacks(a: Seq<char>, b: Seq<char>, c: char)
    requires
        lacks(a, c),
        lacks(b, c),
    ensures
        lacks(a + b, c),
{
    assert forall|i: int| 0 <= i < (a + b).len() implies #[trigger] (a + b)[i] != c by {
        if i < a.len() {
            assert((a + b)[i] == a[i]);
        } else {
            assert((a + b)[i] == b[i - a.len()]);
        }
    }
}

proof fn lemma_signed_decimal_no_gt(i: int)
    ensures
        no_gt(signed_decimal(i)),
{
    if i < 0 {
        lemma_decimal_no_gt((-i) as nat);
        let d = decimal((-i) as nat);
        assert forall|k: int| 0 <= k < (seq!['-'] + d).len() implies #[trigger] (seq!['-'] + d)[k]
            != '>' by {
            if k > 0 {
                assert((seq!['-'] + d)[k] == d[k - 1]);
            }
        }
    } else {
        lemma_decimal_no_gt(i as nat);
    }
}

/// An attribute ` {name}"{value}"` holds no `>` when its name and value hold
/// none.
proof fn lemma_quoted_no_gt(a: Seq<char>, v: Seq<char>)
    requires
        no_gt(a),
        no_gt(v),
    ensures
        no_gt(a + v + "\""@),
{
    reveal_strlit("\"");
    let t = a + v + "\""@;
    assert forall|k: int| 0 <= k < t.len() implies #[trigger] t[k] != '>' by {
        if k < a.len() {
            assert(t[k] == a[k]);
        } else if k < a.len() + v.len() {
            assert(t[k] == v[k - a.len()]);
        } else {
            assert(t[k] == '"');
        }
    }
}

/// Replacing the part `[a, b)` of a tag text by a text without `>`, after
/// its `<embedScene`, keeps it a tag text.
proof fn lemma_splice_tag(t: Seq<char>, a: int, b: int, ins: Seq<char>)
    requires
        embed_tag_text(t),
        11 <= a <= b <= t.len(),
        no_gt(ins),
    ensures
        embed_tag_text(t.take(a) + ins + t.skip(b)),
{
    let r = t.take(a) + ins + t.skip(b);
    assert(r.take(11) == t.take(11));
    assert forall|k: int| 0 <= k < r.len() implies #[trigger] r[k] != '>' by {
        if k < a {
            assert(r[k] == t[k]);
        } else if k < a + ins.len() {
            assert(r[k] == ins[k - a]);
        } else {
            assert(r[k] == t[b + k - a - ins.len()]);
        }
    }
}

proof fn lemma_end_time_keeps_tag(tag: Seq<char>, end_time: int)
    requires
        embed_tag_text(tag),
    ensures
        embed_tag_text(tag_with_end_time(tag, end_time)),
{
    reveal_strlit("endTime=\"");
    reveal_strlit("\"");
    reveal_strlit("<embedScene");
    if let Some(p) = find(tag, "endTime=\""@) {
        crate::text::lemma_find_from_some(tag, "endTime=\""@, 0);
        assert(tag.subrange(p, p + 9)[0] == tag[p]);
        assert(tag.subrange(p, p + 9)[1] == tag[p + 1]);
        assert(tag.take(11)[0] == tag[0]);
        assert(tag.take(11)[2] == tag[2]);
        if let Some(q) = find_from(tag, "\""@, p + 9) {
            crate::text::lemma_find_from_some(tag, "\""@, p + 9);
            lemma_decimal_no_gt(end_time as nat);
            lemma_splice_tag(tag, p + 9, q, decimal(end_time as nat));
        }
    }
}

proof fn lemma_in_time_keeps_tag(tag: Seq<char>, in_time: int)
    requires
        embed_tag_text(tag),
    ensures
        embed_tag_text(tag_with_in_time(tag, in_time)),
{
    reveal_strlit("fillType=\"intrinsic\"");
    reveal_strlit(" inTime=\"");
    if in_time > 0 {
        if let Some(p) = find(tag, fill_type_attr()) {
            crate::text::lemma_find_from_some(tag, fill_type_attr(), 0);
            let a = " inTime=\""@;
            assert(no_gt(a)) by {
                assert forall|k: int| 0 <= k < a.len() implies #[trigger] a[k] != '>' by {}
            }
            lemma_decimal_no_gt(in_time as nat);
            lemma_quoted_no_gt(a, decimal(in_time as nat));
            let ins = a + decimal(in_time as nat) + "\""@;
            lemma_splice_tag(tag, p + 20, p + 20, ins);
            assert(tag.take(p + 20) + a + decimal(in_time as nat) + "\""@ + tag.skip(p + 20)
                == tag.take(p + 20) + ins + tag.skip(p + 20));
        }
    }
}

proof fn lemma_out_time_keeps_tag(tag: Seq<char>, in_time: int, out_time: int)
    requires
        embed_tag_text(tag),
    ensures
        embed_tag_text(tag_with_out_time(tag, in_time, out_time)),
{
    reveal_strlit("fillType=\"intrinsic\"");
    reveal_strlit(" outTime=\"");
    reveal_strlit("inTime=\"");
    reveal_strlit("\"");
    reveal_strlit("<embedScene");
    if let Some(p) = find(tag, fill_type_attr()) {
        crate::text::lemma_find_from_some(tag, fill_type_attr(), 0);
        let at = if in_time > 0 {
            match find(tag, in_time_attr(in_time)) {
                Some(ip) => ip + in_time_attr(in_time).len(),
                None => p + 20,
            }
        } else {
            p + 20
        };
        if in_time > 0 {
            if let Some(ip) = find(tag, in_time_attr(in_time)) {
                crate::text::lemma_find_from_some(tag, in_time_attr(in_time), 0);
                let attr = in_time_attr(in_time);
                assert(decimal(in_time as nat).len() >= 1);
                assert(attr[0] == 'i');
                assert(tag.subrange(ip, ip + attr.len())[0] == tag[ip]);
                assert(tag.take(11)[0] == tag[0]);
                assert(ip >= 1);
            }
        }
        let a = " outTime=\""@;
        assert(no_gt(a)) by {
            assert forall|k: int| 0 <= k < a.len() implies #[trigger] a[k] != '>' by {}
        }
        lemma_signed_decimal_no_gt(out_time);
        lemma_quoted_no_gt(a, signed_decimal(out_time));
        let ins = a + signed_decimal(out_time) + "\""@;
        lemma_splice_tag(tag, at, at, ins);
        assert(tag.take(at) + a + signed_decimal(out_time) + "\""@ + tag.skip(at) == tag.take(at)
            + ins + tag.skip(at));
    }
}

/// Retiming touches only the first `embedScene` start tag: the text before
/// it and the text from its closing `>` on are kept, and what stands between
/// is still the text of an `embedScene` start tag (it begins with
/// `<embedScene` and holds no `>`). A text without such a tag is kept whole.
pub proof fn law_retime_changes_only_the_embed_tag(
    xml: Seq<char>,
    end_time: int,
    in_time: int,
    out_time: int,
)
    ensures
        ({
            let r = replace_embed_scene_time_spec(xml, end_time, in_time, out_time);
            match find(xml, "<embedScene"@) {
                None => r == xml,
                Some(s) => match find_from(xml, ">"@, s) {
                    None => r == xml,
                    Some(e) => {
                        let mid = r.len() - (xml.len() - e);
                        &&& s <= mid <= r.len()
                        &&& r.take(s) == xml.take(s)
                        &&& r.skip(mid) == xml.skip(e)
                        &&& embed_tag_text(r.subrange(s, mid))
                    },
                },
            }
        }),
{
    reveal_strlit("<embedScene");
    reveal_strlit(">");
    if let Some(s) = find(xml, "<embedScene"@) {
        crate::text::lemma_find_from_some(xml, "<embedScene"@, 0);
        if let Some(e) = find_from(xml, ">"@, s) {
            crate::text::lemma_find_from_some(xml, ">"@, s);
            assert forall|k: int| s <= k < e implies #[trigger] xml[k] != '>' by {
                if xml[k] == '>' {
                    assert(xml.subrange(k, k + 1) == ">"@);
                    assert(matches_at(xml, k, ">"@));
                }
            }
            assert forall|k: int| 0 <= k < 11 implies xml[s + k] == #[trigger] "<embedScene"@[k] by {
                assert(xml.subrange(s, s + 11)[k] == xml[s + k]);
            }
            assert(e >= s + 11) by {
                if e < s + 11 {
                    assert(xml[e] == ">"@[0]) by {
                        assert(xml.subrange(e, e + 1)[0] == xml[e]);
                    }
                    assert(xml[e] == "<embedScene"@[e - s]);
                }
            }
            let tag = xml.subrange(s, e);
            assert(embed_tag_text(tag)) by {
                assert(tag.take(11) == "<embedScene"@);
                assert forall|k: int| 0 <= k < tag.len() implies #[trigger] tag[k] != '>' by {
                    assert(tag[k] == xml[s + k]);
                }
            }
            lemma_end_time_keeps_tag(tag, end_time);
            let t1 = tag_with_end_time(tag, end_time);
            lemma_in_time_keeps_tag(t1, in_time);
            let t2 = tag_with_in_time(t1, in_time);
            lemma_out_time_keeps_tag(t2, in_time, out_time);
            let t3 = tag_with_out_time(t2, in_time, out_time);
            let r = xml.take(s) + t3 + xml.skip(e);
            assert(r.take(s) == xml.take(s));
            assert(r.skip(s + t3.len()) == xml.skip(e));
            assert(r.subrange(s, s + t3.len()) == t3);
        }
    }
}

/// Inserts `attr` into `tag` at position `at`.
fn insert_at(tag: &Vec<char>, at: usize, attr: &Vec<char>) -> (r: Vec<char>)
    requires
        at <= tag.len(),
    ensures
        r@ == tag@.take(at as int) + attr@ + tag@.skip(at as int),
{
    let mut out = slice_chars(tag, 0, at);
    push_all(&mut out, attr);
    let rest = slice_chars(tag, at, tag.len());
    push_all(&mut out, &rest);
    proof {
        assert(tag@.subrange(0, at as int) == tag@.take(at as int));
        assert(tag@.subrange(at as int, tag@.len() as int) == tag@.skip(at as int));
    }
    out
}

fn tag_with_end_time_exec(tag: &Vec<char>, end_time: u64) -> (r: Vec<char>)
    ensures
        r@ == tag_with_end_time(tag@, end_time as int),
{
    let unchanged = slice_chars(tag, 0, tag.len());
    proof {
        assert(tag@.subrange(0, tag@.len() as int) == tag@);
    }
    proof {
        reveal_strlit("endTime=\"");
    }
    let pat = chars_of("endTime=\"");
    let quote = chars_of("\"");
    let p = match find_from_exec(tag, &pat, 0) {
        Some(p) => p,
        None => return unchanged,
    };
    proof {
        crate::text::lemma_find_from_some(tag@, pat@, 0);
    }
    let q = match find_from_exec(tag, &quote, p + 9) {
        Some(q) => q,
        None => return unchanged,
    };
    proof {
        crate::text::lemma_find_from_some(tag@, quote@, p + 9);
    }
    let mut out = slice_chars(tag, 0, p + 9);
    let d = fmt_u64(end_time);
    push_all(&mut out, &d);
    let rest = slice_chars(tag, q, tag.len());
    push_all(&mut out, &rest);
    proof {
        assert(tag@.subrange(0, p + 9) == tag@.take(p + 9));
        assert(tag@.subrange(q as int, tag@.len() as int) == tag@.skip(q as int));
    }
    out
}

fn tag_with_in_time_exec(tag: &Vec<char>, in_time: u64) -> (r: Vec<char>)
    ensures
        r@ == tag_with_in_time(tag@, in_time as int),
{
    let unchanged = slice_chars(tag, 0, tag.len());
    proof {
        assert(tag@.subrange(0, tag@.len() as int) == tag@);
    }
    if in_time == 0 {
        return unchanged;
    }
    proof {
        reveal_strlit("fillType=\"intrinsic\"");
    }
    let ft = chars_of("fillType=\"intrinsic\"");
    match find_from_exec(tag, &ft, 0) {
        Some(p) => {
            proof {
                crate::text::lemma_find_from_some(tag@, ft@, 0);
            }
            let mut attr = chars_of(" inTime=\"");
            let d = fmt_u64(in_time);
            push_all(&mut attr, &d);
            push_str(&mut attr, "\"");
            insert_at(tag, p + 20, &attr)
        },
        None => unchanged,
    }
}

fn tag_with_out_time_exec(tag: &Vec<char>, in_time: u64, out_time: i64) -> (r: Vec<char>)
    ensures
        r@ == tag_with_out_time(tag@, in_time as int, out_time as int),
{
    proof {
        reveal_strlit("fillType=\"intrinsic\"");
    }
    let ft = chars_of("fillType=\"intrinsic\"");
    match find_from_exec(tag, &ft, 0) {
        None => {
            let unchanged = slice_chars(tag, 0, tag.len());
            proof {
                assert(tag@.subrange(0, tag@.len() as int) == tag@);
            }
            unchanged
        },
        Some(p) => {
            let n = tag.len();
            proof {
                crate::text::lemma_find_from_some(tag@, ft@, 0);
                assert(p + 20 <= n);
            }
            let after_fill: usize = p + 20;
            let mut at = after_fill;
            if in_time > 0 {
                let mut it = chars_of("inTime=\"");
                let d = fmt_u64(in_time);
                push_all(&mut it, &d);
                push_str(&mut it, "\"");
                match find_from_exec(tag, &it, 0) {
                    Some(ip) => {
                        proof {
                            crate::text::lemma_find_from_some(tag@, it@, 0);
                            assert(ip + it@.len() <= tag@.len());
                        }
                        at = ip + it.len();
                    },
                    None => {},
                }
            }
            let mut attr = chars_of(" outTime=\"");
            let d = fmt_i64(out_time);
            push_all(&mut attr, &d);
            push_str(&mut attr, "\"");
            insert_at(tag, at, &attr)
        },
    }
}

/// Gives the first `<embedScene ...>` tag of `xml` its time window.
pub fn replace_embed_scene_time(xml: &Vec<char>, end_time: u64, in_time: u64, out_time: i64) -> (r:
    Vec<char>)
    ensures
        r@ == replace_embed_scene_time_spec(xml@, end_time as int, in_time as int, out_time as int),
{
    let unchanged = slice_chars(xml, 0, xml.len());
    proof {
        assert(xml@.subrange(0, xml@.len() as int) == xml@);
    }
    proof {
        reveal_strlit(">");
    }
    let es = chars_of("<embedScene");
    let gt = chars_of(">");
    let s = match find_from_exec(xml, &es, 0) {
        Some(s) => s,
        None => return unchanged,
    };
    proof {
        crate::text::lemma_find_from_some(xml@, es@, 0);
    }
    let e = match find_from_exec(xml, &gt, s) {
        Some(e) => e,
        None => return unchanged,
    };
    proof {
        crate::text::lemma_find_from_some(xml@, gt@, s as int);
    }
    let tag = slice_chars(xml, s, e);
    let t1 = tag_with_end_time_exec(&tag, end_time);
    let t2 = tag_with_in_time_exec(&t1, in_time);
    let t3 = tag_with_out_time_exec(&t2, in_time, out_time);
    let mut out = slice_chars(xml, 0, s);
    push_all(&mut out, &t3);
    let rest = slice_chars(xml, e, xml.len());
    push_all(&mut out, &rest);
    proof {
        assert(xml@.subrange(0, s as int) == xml@.take(s as int));
        assert(xml@.subrange(e as int, xml@.len() as int) == xml@.skip(e as int));
    }
    out
}


// ---------------------------------------------------------------------------
// Cutting the grouped project into chunks
// ---------------------------------------------------------------------------

/// Length (ms) of a full chunk: `frames + 1` frames at `fps`, less one.
pub open spec fn chunk_duration(frames: int, fps: int) -> int {
    (frames + 1) * 1000 / fps - 1
}

/// Number of chunks: the frame count divided by the chunk size, rounded up.
pub open spec fn chunk_count(total_frames: int, frames: int) -> int {
    (total_frames + frames - 1) / frames
}

/// Start (ms) of chunk `i`.
pub open spec fn chunk_in_time(i: int, frames: int, fps: int) -> int {
    i * frames * 1000 / fps
}

/// Length (ms) of chunk `i`: a full chunk, or what is left of the timeline.
pub open spec fn chunk_actual_duration(i: int, total_time: int, frames: int, fps: int) -> int {
    let rest = if total_time >= chunk_in_time(i, frames, fps) {
        total_time - chunk_in_time(i, frames, fps)
    } else {
        0
    };
    if chunk_duration(frames, fps) <= rest {
        chunk_duration(frames, fps)
    } else {
        rest
    }
}

/// A `u64` read as `i64` (`as` keeps the bits).
pub open spec fn as_i64(x: int) -> int {
    if x > i64::MAX {
        x - 0x1_0000_0000_0000_0000
    } else {
        x
    }
}

/// `outTime` of chunk `i`: `i32::MAX - totalTime + duration + inTime`.
pub open spec fn chunk_out_time(i: int, total_time: int, frames: int, fps: int) -> int {
    i32::MAX - as_i64(total_time) + chunk_actual_duration(i, total_time, frames, fps) + as_i64(
        chunk_in_time(i, frames, fps),
    )
}

/// `x` fits in an `i64`.
pub open spec fn in_i64(x: int) -> bool {
    i64::MIN <= x <= i64::MAX
}

/// Chunk `i` is computed without overflow.
pub open spec fn chunk_fits(i: int, total_time: int, frames: int, fps: int) -> bool {
    &&& i * frames <= u64::MAX
    &&& i * frames * 1000 <= u64::MAX
    &&& in_i64(i32::MAX - as_i64(total_time))
    &&& in_i64(
        i32::MAX - as_i64(total_time) + chunk_actual_duration(i, total_time, frames, fps),
    )
    &&& in_i64(chunk_out_time(i, total_time, frames, fps))
    &&& (i + 1) * frames <= u64::MAX
}

/// The whole chunk plan is computed without a division by zero or an
/// overflow: the inputs on which the chunking is defined.
pub open spec fn chunk_plan_fits(total_time: int, fps: int, frames: int, total_frames: int) -> bool {
    &&& 1 <= frames < u32::MAX
    &&& fps > 0
    &&& (frames + 1) * 1000 / fps >= 1
    &&& total_frames + frames <= u64::MAX
    &&& forall|i: int|
        0 <= i < chunk_count(total_frames, frames) ==> #[trigger] chunk_fits(
            i,
            total_time,
            frames,
            fps,
        )
}

/// First frame of chunk `i`.
pub open spec fn chunk_start_frame(i: int, frames: int) -> int {
    i * frames
}

/// Frame after the last of chunk `i`.
pub open spec fn chunk_end_frame(i: int, frames: int, total_frames: int) -> int {
    if (i + 1) * frames <= total_frames {
        (i + 1) * frames
    } else {
        total_frames
    }
}

/// File name of chunk `i`: `{start}-{end}.amproj`.
pub open spec fn chunk_file_name(i: int, frames: int, total_frames: int) -> Seq<char> {
    decimal(chunk_start_frame(i, frames) as nat) + "-"@ + decimal(
        chunk_end_frame(i, frames, total_frames) as nat,
    ) + ".amproj"@
}

/// XML of chunk `i`: the grouped XML retimed to the chunk's window.
pub open spec fn chunk_xml(grouped: Seq<char>, i: int, total_time: int, frames: int, fps: int) -> Seq<
    char,
> {
    let d = chunk_actual_duration(i, total_time, frames, fps);
    replace_embed_scene_time_spec(
        replace_scene_total_time_spec(grouped, d),
        d,
        chunk_in_time(i, frames, fps),
        chunk_out_time(i, total_time, frames, fps),
    )
}

/// A chunk keeps the grouped project's kept `<media>`/`<bookmark>` lines and
/// everything from the `>` of the grouping `embedScene` start tag on (the
/// transform, the fill, the inner scene with all its content, and the
/// closing tags) byte for byte: before the kept lines stands a head (the
/// declaration, `<scene` and the outer start tag, whose total time is
/// retimed), and between them and the kept rest only the retimed
/// `embedScene` start tag. This holds when the root has a `totalTime`
/// attribute, its attribute names hold no `<` or `>`, and no kept element's
/// text holds `<embedScene`.
#[verifier::rlimit(60)]
pub proof fn law_chunk_keeps_kept_lines_and_inner_scene(
    doc: SceneModel,
    total_time: int,
    location_xy: Seq<char>,
    i: int,
    frames: int,
    fps: int,
)
    requires
        exists|k: int|
            0 <= k < doc.root.attrs.len() && (#[trigger] doc.root.attrs[k]).name == "totalTime"@,
        names_without_angles(doc.root.attrs),
        forall|j: int|
            0 <= j < kept_elements(doc.children).len() ==> !contains(
                (#[trigger] kept_elements(doc.children)[j]).source,
                "<embedScene"@,
            ),
    ensures
        exists|head: Seq<char>, tag: Seq<char>|
            chunk_xml(grouped_text(doc, total_time, location_xy), i, total_time, frames, fps) == head
                + grouped_kept_lines(doc) + "  "@ + tag + grouped_after_embed_tag(
                doc,
                total_time,
                location_xy,
            ) && head_shape(head) && embed_tag_text(tag),
{
    reveal_strlit(">\n");
    let d = chunk_actual_duration(i, total_time, frames, fps);
    let it = chunk_in_time(i, frames, fps);
    let ot = chunk_out_time(i, total_time, frames, fps);
    let h = grouped_head(doc);
    let srcs = sources(kept_elements(doc.children));
    let k = grouped_kept_lines(doc);
    let e0 = embed_open_text(total_time);
    let after = grouped_after_embed_tag(doc, total_time, location_xy);
    lemma_grouped_parts(doc, total_time, location_xy);
    let rest = k + e0 + after;
    assert(grouped_text(doc, total_time, location_xy) =~= h + rest);
    lemma_total_time_in_head(doc, rest, d);
    let h2 = choose|h2: Seq<char>|
        replace_scene_total_time_spec(h + rest, d) == h2 + rest && head_shape(h2);
    let x = h2 + k + e0 + after;
    assert(h2 + rest =~= x);
    assert forall|j: int| 0 <= j < srcs.len() implies !contains(#[trigger] srcs[j], "<embedScene"@) by {
        assert(srcs[j] == kept_elements(doc.children)[j].source);
    }
    assert(after[0] == '>');
    lemma_embed_tag_located(h2, srcs, total_time, after);
    let s2: int = h2.len() as int + k.len() as int + 2;
    let e2: int = h2.len() as int + k.len() as int + e0.len() as int;
    let tag = x.subrange(s2, e2);
    lemma_end_time_keeps_tag(tag, d);
    let t1 = tag_with_end_time(tag, d);
    lemma_in_time_keeps_tag(t1, it);
    let t2 = tag_with_in_time(t1, it);
    lemma_out_time_keeps_tag(t2, it, ot);
    let t3 = tag_with_out_time(t2, it, ot);
    assert(replace_embed_scene_time_spec(x, d, it, ot) == x.take(s2) + t3 + x.skip(e2));
    assert(x.take(s2) + t3 + x.skip(e2) =~= h2 + k + "  "@ + t3 + after);
}

/// A chunk's `embedScene` start tag carries its time window at the scene's
/// own frame rate: chunk `i` of a grouped project is a head, the kept lines,
/// and then the grouping tag with `endTime` the chunk's duration `d`,
/// `inTime="t"` when `t > 0`, and `outTime="i32::MAX - totalTime + d + t"`,
/// followed by the rest of the grouped project. Here `t` is the time of the
/// chunk's first frame, `i * frames`, at `fps` frames per second, rounded down
/// to a millisecond, and `d` is the time of `frames + 1` frames less one
/// millisecond (rounded the same way), or what is left of the timeline after
/// `t` when that is less. This holds on the grouped projects of
/// `law_chunk_keeps_kept_lines_and_inner_scene`.
pub proof fn law_chunk_tag_times(
    doc: SceneModel,
    total_time: int,
    location_xy: Seq<char>,
    i: int,
    frames: int,
    fps: int,
)
    requires
        exists|k: int|
            0 <= k < doc.root.attrs.len() && (#[trigger] doc.root.attrs[k]).name == "totalTime"@,
        names_without_angles(doc.root.attrs),
        forall|j: int|
            0 <= j < kept_elements(doc.children).len() ==> !contains(
                (#[trigger] kept_elements(doc.children)[j]).source,
                "<embedScene"@,
            ),
        0 <= i,
        0 <= frames,
        fps > 0,
    ensures
        exists|head: Seq<char>, t: int, full: int, d: int|
            #![trigger grouping_tag(decimal(d as nat)), in_time_text(t), head_shape(head), full + 1]
            {
                &&& chunk_xml(grouped_text(doc, total_time, location_xy), i, total_time, frames, fps)
                    == head + grouped_kept_lines(doc) + "  "@ + grouping_tag(decimal(d as nat))
                    + in_time_text(t) + out_time_text(i32::MAX - as_i64(total_time) + d + as_i64(t))
                    + grouped_after_embed_tag(doc, total_time, location_xy)
                &&& head_shape(head)
                &&& t * fps <= i * frames * 1000 < (t + 1) * fps
                &&& (full + 1) * fps <= (frames + 1) * 1000 < (full + 2) * fps
                &&& d == if full <= (if total_time >= t {
                    total_time - t
                } else {
                    0
                }) {
                    full
                } else if total_time >= t {
                    total_time - t
                } else {
                    0
                }
            },
{
    let d = chunk_actual_duration(i, total_time, frames, fps);
    let it = chunk_in_time(i, frames, fps);
    let ot = chunk_out_time(i, total_time, frames, fps);
    let full = chunk_duration(frames, fps);
    law_chunk_times_follow_the_frame_rate(i, total_time, frames, fps);
    let h2 = lemma_chunk_layout(doc, total_time, location_xy, d, it, ot);
    assert(ot == i32::MAX - as_i64(total_time) + d + as_i64(it));
    assert(full + 1 == full + 1);
}

/// A retimed grouped project: the head, the kept lines, the retimed
/// grouping tag and the rest.
#[verifier::rlimit(60)]
proof fn lemma_chunk_layout(
    doc: SceneModel,
    total_time: int,
    location_xy: Seq<char>,
    d: int,
    it: int,
    ot: int,
) -> (h2: Seq<char>)
    requires
        exists|k: int|
            0 <= k < doc.root.attrs.len() && (#[trigger] doc.root.attrs[k]).name == "totalTime"@,
        names_without_angles(doc.root.attrs),
        forall|j: int|
            0 <= j < kept_elements(doc.children).len() ==> !contains(
                (#[trigger] kept_elements(doc.children)[j]).source,
                "<embedScene"@,
            ),
    ensures
        head_shape(h2),
        replace_embed_scene_time_spec(
            replace_scene_total_time_spec(grouped_text(doc, total_time, location_xy), d),
            d,
            it,
            ot,
        ) == h2 + grouped_kept_lines(doc) + "  "@ + grouping_tag(decimal(d as nat)) + in_time_text(it)
            + out_time_text(ot) + grouped_after_embed_tag(doc, total_time, location_xy),
{
    reveal_strlit(">\n");
    let h = grouped_head(doc);
    let srcs = sources(kept_elements(doc.children));
    let k = grouped_kept_lines(doc);
    let e0 = embed_open_text(total_time);
    let after = grouped_after_embed_tag(doc, total_time, location_xy);
    lemma_grouped_parts(doc, total_time, location_xy);
    let rest = k + e0 + after;
    assert(grouped_text(doc, total_time, location_xy) =~= h + rest);
    lemma_total_time_in_head(doc, rest, d);
    let h2 = choose|h2: Seq<char>|
        replace_scene_total_time_spec(h + rest, d) == h2 + rest && head_shape(h2);
    let x = h2 + k + e0 + after;
    assert(h2 + rest =~= x);
    assert forall|j: int| 0 <= j < srcs.len() implies !contains(#[trigger] srcs[j], "<embedScene"@) by {
        assert(srcs[j] == kept_elements(doc.children)[j].source);
    }
    assert(after[0] == '>');
    lemma_embed_tag_located(h2, srcs, total_time, after);
    let s2: int = h2.len() as int + k.len() as int + 2;
    let e2: int = h2.len() as int + k.len() as int + e0.len() as int;
    let tag = x.subrange(s2, e2);
    lemma_grouping_tag_is_open_text(total_time);
    assert(tag =~= e0.skip(2));
    let t3 = lemma_retimed_grouping_tag(total_time, d, it, ot);
    assert(replace_embed_scene_time_spec(x, d, it, ot) == x.take(s2) + t3 + x.skip(e2));
    assert(x.take(s2) + t3 + x.skip(e2) =~= h2 + k + "  "@ + t3 + after);
    h2
}

proof fn lemma_grouping_tag_is_open_text(total_time: int)
    ensures
        embed_open_text(total_time).skip(2) == grouping_tag(decimal(total_time as nat)),
{
    reveal_strlit("  <embedScene id=\"99830094\" label=\"编组\" startTime=\"0\" endTime=\"");
    reveal_strlit("<embedScene id=\"99830094\" label=\"编组\" startTime=\"0\" endTime=\"");
    reveal_strlit("  ");
    assert("  <embedScene id=\"99830094\" label=\"编组\" startTime=\"0\" endTime=\""@ =~= "  "@
        + embed_tag_head());
    assert(embed_open_text(total_time).skip(2) =~= grouping_tag(decimal(total_time as nat)));
}

/// The grouping tag with its times set.
proof fn lemma_retimed_grouping_tag(total_time: int, d: int, it: int, ot: int) -> (t3: Seq<char>)
    ensures
        t3 == tag_with_out_time(
            tag_with_in_time(tag_with_end_time(grouping_tag(decimal(total_time as nat)), d), it),
            it,
            ot,
        ),
        t3 == grouping_tag(decimal(d as nat)) + in_time_text(it) + out_time_text(ot),
{
    let dt = decimal(total_time as nat);
    lemma_decimal_digits(total_time as nat);
    lemma_decimal_digits(d as nat);
    assert(all_digits(dt));
    assert(all_digits(decimal(d as nat)));
    lemma_end_time_of_grouping_tag(dt, d);
    lemma_in_time_of_grouping_tag(decimal(d as nat), it);
    lemma_out_time_of_grouping_tag(decimal(d as nat), it, ot);
    tag_with_out_time(tag_with_in_time(tag_with_end_time(grouping_tag(dt), d), it), it, ot)
}

/// A chunk of the grouped project: its file name and XML.
pub struct TimeChunk {
    pub file_name: String,
    pub xml: String,
}

/// Checks `chunk_plan_fits`.
pub fn chunk_plan_fits_exec(total_time: u64, fps: u32, frames: u32, total_frames: u64) -> (r: bool)
    ensures
        r == chunk_plan_fits(total_time as int, fps as int, frames as int, total_frames as int),
{
    if frames < 1 || frames == u32::MAX || fps == 0 {
        return false;
    }
    let fr = frames as u128;
    let fp = fps as u128;
    if (fr + 1) * 1000 / fp < 1 || total_frames as u128 + fr > u64::MAX as u128 {
        return false;
    }
    let count: u64 = ((total_frames as u128 + fr - 1) / fr) as u64;
    let tt: i128 = if total_time > i64::MAX as u64 {
        total_time as i128 - 0x1_0000_0000_0000_0000i128
    } else {
        total_time as i128
    };
    let dur: u128 = (fr + 1) * 1000 / fp - 1;
    let mut i: u64 = 0;
    while i < count
        invariant
            0 <= i <= count,
            count == chunk_count(total_frames as int, frames as int),
            fr == frames,
            fp == fps,
            fps > 0,
            1 <= frames < u32::MAX,
            tt == as_i64(total_time as int),
            dur == chunk_duration(frames as int, fps as int),
            forall|j: int| 0 <= j < i ==> #[trigger] chunk_fits(j, total_time as int, frames as int, fps as int),
        decreases count - i,
    {
        let ii = i as u128;
        proof {
            assert(ii * fr <= (u64::MAX as int) * (u32::MAX as int)) by (nonlinear_arith)
                requires ii <= u64::MAX, fr <= u32::MAX;
            assert(ii * fr * 1000 <= (u64::MAX as int) * (u32::MAX as int) * 1000) by (nonlinear_arith)
                requires ii * fr <= (u64::MAX as int) * (u32::MAX as int);
            assert((ii + 1) * fr <= (u64::MAX as int + 1) * (u32::MAX as int)) by (nonlinear_arith)
                requires ii <= u64::MAX, fr <= u32::MAX;
        }
        let start = ii * fr;
        let scaled = start * 1000;
        let next_end = (ii + 1) * fr;
        if start > u64::MAX as u128 || scaled > u64::MAX as u128 || next_end > u64::MAX as u128 {
            proof {
                assert(!chunk_fits(i as int, total_time as int, frames as int, fps as int));
            }
            return false;
        }
        let in_time: u128 = scaled / fp;
        let rest: u128 = if total_time as u128 >= in_time {
            total_time as u128 - in_time
        } else {
            0
        };
        let actual: u128 = if dur <= rest {
            dur
        } else {
            rest
        };
        let it: i128 = if in_time > i64::MAX as u128 {
            in_time as i128 - 0x1_0000_0000_0000_0000i128
        } else {
            in_time as i128
        };
        proof {
            assert(dur <= 0x1_0000_0000 * 1000);
        }
        let a = 0x7fff_ffffi128 - tt;
        let b = a + actual as i128;
        let c = b + it;
        if a < i64::MIN as i128 || a > i64::MAX as i128 || b < i64::MIN as i128 || b > i64::MAX as i128
            || c < i64::MIN as i128 || c > i64::MAX as i128 {
            proof {
                assert(in_time == chunk_in_time(i as int, frames as int, fps as int));
                assert(actual == chunk_actual_duration(i as int, total_time as int, frames as int, fps as int));
                assert(!chunk_fits(i as int, total_time as int, frames as int, fps as int));
            }
            return false;
        }
        proof {
            assert(in_time == chunk_in_time(i as int, frames as int, fps as int));
            assert(actual == chunk_actual_duration(i as int, total_time as int, frames as int, fps as int));
            assert(chunk_fits(i as int, total_time as int, frames as int, fps as int));
        }
        i += 1;
    }
    true
}

/// Cuts the grouped project into chunks of `frames` frames: chunk `i` covers
/// frames `i * frames` up to the next chunk (or `total_frames`), starts at
/// `chunk_in_time` and lasts `chunk_actual_duration`.
pub fn split_grouped(
    grouped_xml: &String,
    total_time: u64,
    fps: u32,
    frames: u32,
    total_frames: u64,
) -> (r: Vec<TimeChunk>)
    requires
        chunk_plan_fits(total_time as int, fps as int, frames as int, total_frames as int),
    ensures
        r@.len() == chunk_count(total_frames as int, frames as int),
        forall|i: int|
            0 <= i < r@.len() ==> (#[trigger] r@[i]).file_name@ == chunk_file_name(
                i,
                frames as int,
                total_frames as int,
            ) && r@[i].xml@ == chunk_xml(
                grouped_xml@,
                i,
                total_time as int,
                frames as int,
                fps as int,
            ),
{
    let fr = frames as u64;
    let fp = fps as u64;
    let chunk_dur: u64 = (fr + 1) * 1000 / fp - 1;
    let count: u64 = (total_frames + fr - 1) / fr;
    let grouped = chars_of(grouped_xml.as_str());
    let tt: i64 = total_time as i64;
    proof {
        assert(tt == as_i64(total_time as int)) by (bit_vector)
            requires tt == total_time as i64;
    }
    let mut out: Vec<TimeChunk> = Vec::new();
    let mut i: u64 = 0;
    while i < count
        invariant
            0 <= i <= count,
            count == chunk_count(total_frames as int, frames as int),
            chunk_plan_fits(total_time as int, fps as int, frames as int, total_frames as int),
            fr == frames,
            fp == fps,
            chunk_dur == chunk_duration(frames as int, fps as int),
            tt == as_i64(total_time as int),
            grouped@ == grouped_xml@,
            out@.len() == i,
            forall|j: int|
                0 <= j < i ==> (#[trigger] out@[j]).file_name@ == chunk_file_name(
                    j,
                    frames as int,
                    total_frames as int,
                ) && out@[j].xml@ == chunk_xml(grouped_xml@, j, total_time as int, frames as int, fps as int),
        decreases count - i,
    {
        proof {
            assert(chunk_fits(i as int, total_time as int, frames as int, fps as int));
        }
        let start = i * fr;
        let in_time = start * 1000 / fp;
        let rest = if total_time >= in_time {
            total_time - in_time
        } else {
            0
        };
        let actual = if chunk_dur <= rest {
            chunk_dur
        } else {
            rest
        };
        let it: i64 = in_time as i64;
        proof {
            assert(it == as_i64(in_time as int)) by (bit_vector)
                requires it == in_time as i64;
            assert(actual <= chunk_dur);
            assert(chunk_dur <= 0x1_0000_0000 * 1000);
        }
        let out_time: i64 = 0x7fff_ffffi64 - tt + actual as i64 + it;
        let next = (i + 1) * fr;
        let end = if next <= total_frames {
            next
        } else {
            total_frames
        };
        let mut name = fmt_u64(start);
        push_str(&mut name, "-");
        let e = fmt_u64(end);
        push_all(&mut name, &e);
        push_str(&mut name, ".amproj");
        let retimed = replace_scene_total_time(&grouped, actual);
        let xml = replace_embed_scene_time(&retimed, actual, in_time, out_time);
        out.push(TimeChunk { file_name: string_of(&name), xml: string_of(&xml) });
        i += 1;
    }
    out
}

/// The chunks tile the frames: chunk `0` starts at frame `0`, each chunk
/// ends where the next starts, the last ends at `total_frames`, and every
/// chunk is non-empty.
pub proof fn law_chunks_tile_frames(total_frames: int, frames: int)
    requires
        frames >= 1,
        total_frames >= 1,
    ensures
        chunk_start_frame(0, frames) == 0,
        forall|i: int|
            0 <= i < chunk_count(total_frames, frames) - 1 ==> #[trigger] chunk_end_frame(
                i,
                frames,
                total_frames,
            ) == chunk_start_frame(i + 1, frames),
        chunk_end_frame(chunk_count(total_frames, frames) - 1, frames, total_frames) == total_frames,
        forall|i: int|
            0 <= i < chunk_count(total_frames, frames) ==> chunk_start_frame(i, frames)
                < #[trigger] chunk_end_frame(i, frames, total_frames),
{
    let n = chunk_count(total_frames, frames);
    assert((n - 1) * frames < total_frames && n * frames >= total_frames && n >= 1) by (nonlinear_arith)
        requires
            n == (total_frames + frames - 1) / frames,
            frames >= 1,
            total_frames >= 1,
    ;
    assert forall|i: int| 0 <= i < n - 1 implies #[trigger] chunk_end_frame(i, frames, total_frames)
        == chunk_start_frame(i + 1, frames) by {
        assert((i + 1) * frames <= (n - 1) * frames) by (nonlinear_arith)
            requires
                i + 1 <= n - 1,
                frames >= 1,
        ;
    }
    assert forall|i: int| 0 <= i < n implies chunk_start_frame(i, frames) < #[trigger] chunk_end_frame(
        i,
        frames,
        total_frames,
    ) by {
        assert(i * frames <= (n - 1) * frames) by (nonlinear_arith)
            requires
                i <= n - 1,
                frames >= 1,
        ;
        assert((i + 1) * frames == i * frames + frames) by (nonlinear_arith);
    }
}

/// Each chunk's window stays inside the timeline and is at most a full chunk
/// long; its `outTime` is `i32::MAX - totalTime + duration + inTime` whenever
/// the times fit in an `i64`.
pub proof fn law_chunk_window(i: int, total_time: int, frames: int, fps: int)
    requires
        0 <= i,
        1 <= frames,
        fps > 0,
        0 <= total_time <= i64::MAX,
        chunk_in_time(i, frames, fps) <= i64::MAX,
    ensures
        chunk_actual_duration(i, total_time, frames, fps) <= chunk_duration(frames, fps),
        chunk_in_time(i, frames, fps) <= total_time ==> chunk_in_time(i, frames, fps)
            + chunk_actual_duration(i, total_time, frames, fps) <= total_time,
        chunk_out_time(i, total_time, frames, fps) == i32::MAX - total_time
            + chunk_actual_duration(i, total_time, frames, fps) + chunk_in_time(i, frames, fps),
{
}

/// Each chunk starts at the time of its first frame at the scene's own frame
/// rate, rounded down to a whole millisecond: `inTime * fps` is at most
/// `first_frame * 1000` and within `fps` of it. A full chunk lasts the time of
/// `frames + 1` frames at that rate, rounded down, less one millisecond; a
/// chunk that fits before the end of the timeline is full.
pub proof fn law_chunk_times_follow_the_frame_rate(i: int, total_time: int, frames: int, fps: int)
    requires
        0 <= i,
        0 <= frames,
        fps > 0,
    ensures
        chunk_in_time(i, frames, fps) * fps <= chunk_start_frame(i, frames) * 1000 < (chunk_in_time(
            i,
            frames,
            fps,
        ) + 1) * fps,
        (chunk_duration(frames, fps) + 1) * fps <= (frames + 1) * 1000 < (chunk_duration(frames, fps)
            + 2) * fps,
        chunk_in_time(i, frames, fps) + chunk_duration(frames, fps) <= total_time
            ==> chunk_actual_duration(i, total_time, frames, fps) == chunk_duration(frames, fps),
{
    let n = chunk_start_frame(i, frames) * 1000;
    assert(n == i * frames * 1000);
    let t = chunk_in_time(i, frames, fps);
    assert(t * fps <= n < (t + 1) * fps) by (nonlinear_arith)
        requires
            t == n / fps,
            fps > 0,
    ;
    let m = (frames + 1) * 1000;
    let d = chunk_duration(frames, fps);
    assert((d + 1) * fps <= m < (d + 2) * fps) by (nonlinear_arith)
        requires
            d == m / fps - 1,
            fps > 0,
    ;
}

/// The grouping `embedScene` start tag up to its end time's value.
pub open spec fn embed_tag_head() -> Seq<char> {
    "<embedScene id=\"99830094\" label=\"编组\" startTime=\"0\" endTime=\""@
}

/// The grouping `embedScene` start tag after its end time's value.
pub open spec fn embed_tag_fill() -> Seq<char> {
    "\" fillType=\"intrinsic\""@
}

proof fn lemma_embed_tag_literals()
    ensures
        embed_tag_head().len() == 60,
        embed_tag_fill().len() == 22,
        embed_tag_head().subrange(51, 60) == "endTime=\""@,
        embed_tag_fill()[0] == '"',
        embed_tag_fill().subrange(2, 22) == fill_type_attr(),
        forall|q: int|
            0 <= q < 51 ==> !(#[trigger] embed_tag_head()[q] == 'e' && embed_tag_head()[q + 1] == 'n'
                && embed_tag_head()[q + 2] == 'd'),
        forall|q: int| 0 <= q < 60 ==> #[trigger] embed_tag_head()[q] != 'f',
        forall|q: int|
            0 <= q < 60 ==> !(#[trigger] embed_tag_head()[q] == 'i' && q + 1 < 60
                && embed_tag_head()[q + 1] == 'n'),
        forall|q: int|
            0 <= q < 60 ==> (#[trigger] embed_tag_head()[q] == 'i' ==> q + 1 < 60),
        forall|q: int|
            0 <= q < 20 ==> !(#[trigger] embed_tag_fill()[q] == 'i' && embed_tag_fill()[q + 1] == 'n'
                && embed_tag_fill()[q + 2] == 'T'),
        forall|q: int| 20 <= q < 22 ==> #[trigger] embed_tag_fill()[q] != 'i',
{
    reveal_strlit("<embedScene id=\"99830094\" label=\"编组\" startTime=\"0\" endTime=\"");
    reveal_strlit("\" fillType=\"intrinsic\"");
    reveal_strlit("endTime=\"");
    reveal_strlit("fillType=\"intrinsic\"");
    assert(embed_tag_head().subrange(51, 60) =~= "endTime=\""@);
    assert(embed_tag_fill().subrange(2, 22) =~= fill_type_attr());
}

/// A run of decimal digits.
pub open spec fn all_digits(d: Seq<char>) -> bool {
    forall|i: int| 0 <= i < d.len() ==> 48 <= #[trigger] d[i] as u32 <= 57
}

/// The grouping tag with the end time `d` written in.
pub open spec fn grouping_tag(d: Seq<char>) -> Seq<char> {
    embed_tag_head() + d + embed_tag_fill()
}

proof fn lemma_end_time_of_grouping_tag(dt: Seq<char>, end_time: int)
    requires
        all_digits(dt),
    ensures
        tag_with_end_time(grouping_tag(dt), end_time) == grouping_tag(decimal(end_time as nat)),
{
    reveal_strlit("endTime=\"");
    reveal_strlit("\"");
    lemma_embed_tag_literals();
    let h = embed_tag_head();
    let f = embed_tag_fill();
    let t = grouping_tag(dt);
    let pat = "endTime=\""@;
    assert forall|q: int| 0 <= q < t.len() && q < 60 implies #[trigger] t[q] == h[q] by {}
    assert(t.subrange(51, 60) =~= h.subrange(51, 60));
    assert forall|q: int| 0 <= q < 51 implies !#[trigger] matches_at(t, q, pat) by {
        if matches_at(t, q, pat) {
            assert(t.subrange(q, q + 9)[0] == t[q]);
            assert(t.subrange(q, q + 9)[1] == t[q + 1]);
            assert(t.subrange(q, q + 9)[2] == t[q + 2]);
            assert(h[q] == 'e' && h[q + 1] == 'n' && h[q + 2] == 'd');
        }
    }
    lemma_first_at(t, pat, 0, 51);
    let e: int = 60 + dt.len() as int;
    assert forall|q: int| 60 <= q < e implies !#[trigger] matches_at(t, q, "\""@) by {
        if matches_at(t, q, "\""@) {
            assert(t.subrange(q, q + 1)[0] == t[q]);
            assert(t[q] == dt[q - 60]);
            assert(48 <= dt[q - 60] as u32 <= 57);
        }
    }
    assert(t[e] == f[0]);
    assert(t.subrange(e, e + 1) =~= "\""@);
    lemma_first_at(t, "\""@, 60, e);
    assert(t.take(60) =~= h);
    assert(t.skip(e) =~= f);
}

proof fn lemma_fill_of_grouping_tag(dt: Seq<char>, rest: Seq<char>)
    requires
        all_digits(dt),
    ensures
        find(grouping_tag(dt) + rest, fill_type_attr()) == Some(62 + dt.len() as int),
{
    reveal_strlit("fillType=\"intrinsic\"");
    reveal_strlit("\" fillType=\"intrinsic\"");
    lemma_embed_tag_literals();
    let h = embed_tag_head();
    let f = embed_tag_fill();
    let t = grouping_tag(dt) + rest;
    let pat = fill_type_attr();
    let p: int = 62 + dt.len() as int;
    assert forall|q: int| 0 <= q < p implies !#[trigger] matches_at(t, q, pat) by {
        if matches_at(t, q, pat) {
            assert(t.subrange(q, q + 20)[0] == t[q]);
            if q < 60 {
                assert(t[q] == h[q]);
            } else if q < 60 + dt.len() {
                assert(t[q] == dt[q - 60]);
                assert(48 <= dt[q - 60] as u32 <= 57);
            } else {
                assert(t[q] == f[q - 60 - dt.len()]);
            }
        }
    }
    assert(t.subrange(p, p + 20) =~= f.subrange(2, 22));
    lemma_first_at(t, pat, 0, p);
}

/// ` inTime="{in_time}"` when `in_time` is positive, nothing otherwise.
pub open spec fn in_time_text(in_time: int) -> Seq<char> {
    if in_time > 0 {
        " "@ + in_time_attr(in_time)
    } else {
        seq![]
    }
}

/// ` outTime="{out_time}"`.
pub open spec fn out_time_text(out_time: int) -> Seq<char> {
    " outTime=\""@ + signed_decimal(out_time) + "\""@
}

proof fn lemma_in_time_of_grouping_tag(dt: Seq<char>, in_time: int)
    requires
        all_digits(dt),
    ensures
        tag_with_in_time(grouping_tag(dt), in_time) == grouping_tag(dt) + in_time_text(in_time),
{
    reveal_strlit(" inTime=\"");
    reveal_strlit(" ");
    reveal_strlit("inTime=\"");
    reveal_strlit("\"");
    lemma_embed_tag_literals();
    let t = grouping_tag(dt);
    lemma_fill_of_grouping_tag(dt, seq![]);
    assert(t + Seq::<char>::empty() =~= t);
    if in_time > 0 {
        let p: int = 62 + dt.len() as int;
        assert(t.take(p + 20) =~= t);
        assert(t.skip(p + 20) =~= Seq::<char>::empty());
        assert(t.take(p + 20) + " inTime=\""@ + decimal(in_time as nat) + "\""@ + t.skip(p + 20)
            =~= t + in_time_text(in_time));
    }
}

proof fn lemma_in_attr_of_grouping_tag(dt: Seq<char>, in_time: int)
    requires
        all_digits(dt),
        in_time > 0,
    ensures
        find(grouping_tag(dt) + in_time_text(in_time), in_time_attr(in_time)) == Some(
            grouping_tag(dt).len() as int + 1,
        ),
{
    reveal_strlit(" ");
    reveal_strlit("inTime=\"");
    lemma_embed_tag_literals();
    let h = embed_tag_head();
    let f = embed_tag_fill();
    let t1 = grouping_tag(dt);
    let it = in_time_text(in_time);
    let t2 = t1 + it;
    let n: int = t1.len() as int;
    let attr = in_time_attr(in_time);
    assert(attr[0] == 'i' && attr[1] == 'n' && attr[2] == 'T');
    assert(it[0] == ' ');
    assert forall|q: int| 0 <= q < n + 1 implies !#[trigger] matches_at(t2, q, attr) by {
        if matches_at(t2, q, attr) {
            assert(t2.subrange(q, q + attr.len())[0] == t2[q]);
            assert(t2.subrange(q, q + attr.len())[1] == t2[q + 1]);
            assert(t2.subrange(q, q + attr.len())[2] == t2[q + 2]);
            if q < 60 {
                assert(t2[q] == h[q]);
                if q + 1 < 60 {
                    assert(t2[q + 1] == h[q + 1]);
                }
            } else if q < 60 + dt.len() {
                assert(t2[q] == dt[q - 60]);
                assert(48 <= dt[q - 60] as u32 <= 57);
            } else if q < n {
                let r = q - 60 - dt.len();
                assert(t2[q] == f[r]);
                if r < 20 {
                    assert(t2[q + 1] == f[r + 1]);
                    assert(t2[q + 2] == f[r + 2]);
                }
            } else {
                assert(t2[q] == it[0]);
            }
        }
    }
    assert(t2.subrange(n + 1, n + 1 + attr.len()) =~= attr);
    lemma_first_at(t2, attr, 0, n + 1);
}

proof fn lemma_out_time_of_grouping_tag(dt: Seq<char>, in_time: int, out_time: int)
    requires
        all_digits(dt),
    ensures
        tag_with_out_time(grouping_tag(dt) + in_time_text(in_time), in_time, out_time)
            == grouping_tag(dt) + in_time_text(in_time) + out_time_text(out_time),
{
    reveal_strlit(" outTime=\"");
    reveal_strlit(" ");
    reveal_strlit("inTime=\"");
    reveal_strlit("\"");
    let t1 = grouping_tag(dt);
    let it = in_time_text(in_time);
    let t2 = t1 + it;
    lemma_fill_of_grouping_tag(dt, it);
    lemma_embed_tag_literals();
    let p: int = 62 + dt.len() as int;
    assert(t1.len() == p + 20);
    let at: int = if in_time > 0 {
        match find(t2, in_time_attr(in_time)) {
            Some(ip) => ip + in_time_attr(in_time).len(),
            None => p + 20,
        }
    } else {
        p + 20
    };
    if in_time > 0 {
        lemma_in_attr_of_grouping_tag(dt, in_time);
        assert(at == t2.len());
    } else {
        assert(it =~= Seq::<char>::empty());
        assert(at == t2.len());
    }
    assert(t2.take(at) =~= t2);
    assert(t2.skip(at) =~= Seq::<char>::empty());
    assert(t2.take(at) + " outTime=\""@ + signed_decimal(out_time) + "\""@ + t2.skip(at) =~= t2
        + out_time_text(out_time));
}

/// The grouped project's parameters: its total time, frame rate and XML.
pub struct GroupedScene {
    pub xml: String,
    pub total_time: u64,
    pub fps: u32,
}

/// Grouping for a time split: the scene's total time, then its frame rate,
/// then the grouped XML, each failing with its message.
pub open spec fn group_for_split(doc: SceneModel, location_xy: Seq<char>) -> Result<
    (int, int, Seq<char>),
    Seq<char>,
> {
    match scene_number(doc.root, "totalTime"@, u64::MAX as int) {
        Err(e) => Err(e),
        Ok(t) => match scene_number(doc.root, "fps"@, u32::MAX as int) {
            Err(e) => Err(e),
            Ok(f) => match grouped_result(doc, t, location_xy) {
                Err(e) => Err(e),
                Ok(x) => Ok((t, f, x)),
            },
        },
    }
}

/// Groups the scene for a time split (see `group_for_split`); `location_xy`
/// is the canvas centre.
pub fn group_for_time_split(doc: &SceneXml, location_xy: &str) -> (r: Result<GroupedScene, String>)
    ensures
        match r {
            Ok(g) => group_for_split(doc@, location_xy@) == Ok::<
                (int, int, Seq<char>),
                Seq<char>,
            >((g.total_time as int, g.fps as int, g.xml@)),
            Err(e) => group_for_split(doc@, location_xy@) == Err::<(int, int, Seq<char>), Seq<char>>(
                e@,
            ),
        },
{
    let total_time = scene_total_time(&doc.root)?;
    let fps = scene_fps(&doc.root)?;
    let xml = build_grouped_xml(doc, total_time, location_xy)?;
    Ok(GroupedScene { xml, total_time, fps })
}

/// A project to write: its file name and its archive entries.
pub struct ProjectArchive {
    pub file_name: String,
    pub entries: Vec<ArchiveEntry>,
}

impl View for ProjectArchive {
    type V = (Seq<char>, Seq<(Seq<char>, Seq<u8>)>);

    open spec fn view(&self) -> (Seq<char>, Seq<(Seq<char>, Seq<u8>)>) {
        (self.file_name@, entries_view(self.entries@))
    }
}

/// Chunk `k` of a time split of the archive `entries`, grouped into `xml`
/// with total time `t` and frame rate `f`: its file name and the archive
/// with every XML entry replaced by the chunk's XML.
pub open spec fn time_chunk_archive(
    entries: Seq<(Seq<char>, Seq<u8>)>,
    xml: Seq<char>,
    t: int,
    f: int,
    frames: int,
    total_frames: int,
    k: int,
) -> (Seq<char>, Seq<(Seq<char>, Seq<u8>)>) {
    (chunk_file_name(k, frames, total_frames), archive_with_xml(entries, chunk_xml(xml, k, t, frames, f)))
}

/// The time split of an archive: the scene is loaded and grouped (failing
/// as `scene_load` and `group_for_split` say), then cut into
/// `chunk_count(total_frames, frames)` chunks of `frames` frames.
pub open spec fn time_split(
    entries: Seq<(Seq<char>, Seq<u8>)>,
    location_xy: Seq<char>,
    frames: int,
    total_frames: int,
) -> Result<Seq<(Seq<char>, Seq<(Seq<char>, Seq<u8>)>)>, Seq<char>> {
    match scene_load(entries) {
        Err(e) => Err(e),
        Ok(doc) => match group_for_split(doc, location_xy) {
            Err(e) => Err(e),
            Ok((t, f, x)) => Ok(
                Seq::new(
                    chunk_count(total_frames, frames) as nat,
                    |k: int| time_chunk_archive(entries, x, t, f, frames, total_frames, k),
                ),
            ),
        },
    }
}

/// The chunk plan of the scene in `entries` can be computed (see
/// `chunk_plan_fits`); an archive that fails to load or group has no plan to
/// compute.
pub open spec fn time_split_fits(
    entries: Seq<(Seq<char>, Seq<u8>)>,
    location_xy: Seq<char>,
    frames: int,
    total_frames: int,
) -> bool {
    match scene_load(entries) {
        Err(_) => true,
        Ok(doc) => match group_for_split(doc, location_xy) {
            Err(_) => true,
            Ok((t, f, _)) => chunk_plan_fits(t, f, frames, total_frames),
        },
    }
}

/// `r` is what `time_split` gives.
pub open spec fn is_time_split(
    r: Result<Vec<ProjectArchive>, String>,
    entries: Seq<(Seq<char>, Seq<u8>)>,
    location_xy: Seq<char>,
    frames: int,
    total_frames: int,
) -> bool {
    match r {
        Ok(v) => match time_split(entries, location_xy, frames, total_frames) {
            Ok(chunks) => v@.len() == chunks.len() && forall|k: int|
                0 <= k < v@.len() ==> #[trigger] v@[k]@ == chunks[k],
            Err(_) => false,
        },
        Err(e) => time_split(entries, location_xy, frames, total_frames) == Err::<
            Seq<(Seq<char>, Seq<(Seq<char>, Seq<u8>)>)>,
            Seq<char>,
        >(e@),
    }
}

/// Groups the project in `entries` into one `embedScene` and cuts it into
/// chunks of `frames` frames, each an archive to write (see `time_split`).
/// `location_xy` is the canvas centre and `total_frames` the scene's frame
/// count.
pub fn group_and_split(
    entries: &Vec<ArchiveEntry>,
    location_xy: &str,
    frames: u32,
    total_frames: u64,
) -> (r: Result<Vec<ProjectArchive>, String>)
    requires
        time_split_fits(entries_view(entries@), location_xy@, frames as int, total_frames as int),
    ensures
        is_time_split(r, entries_view(entries@), location_xy@, frames as int, total_frames as int),
{
    let ghost ev = entries_view(entries@);
    let doc = load_scene(entries)?;
    let g = group_for_time_split(&doc, location_xy)?;
    let chunks = split_grouped(&g.xml, g.total_time, g.fps, frames, total_frames);
    let ghost all = Seq::new(
        chunk_count(total_frames as int, frames as int) as nat,
        |k: int|
            time_chunk_archive(
                ev,
                g.xml@,
                g.total_time as int,
                g.fps as int,
                frames as int,
                total_frames as int,
                k,
            ),
    );
    let mut out: Vec<ProjectArchive> = Vec::new();
    let mut i: usize = 0;
    while i < chunks.len()
        invariant
            i <= chunks.len(),
            chunks@.len() == all.len(),
            ev == entries_view(entries@),
            forall|k: int|
                0 <= k < chunks@.len() ==> (#[trigger] chunks@[k]).file_name@ == chunk_file_name(
                    k,
                    frames as int,
                    total_frames as int,
                ) && chunks@[k].xml@ == chunk_xml(
                    g.xml@,
                    k,
                    g.total_time as int,
                    frames as int,
                    g.fps as int,
                ),
            all == Seq::new(
                chunk_count(total_frames as int, frames as int) as nat,
                |k: int|
                    time_chunk_archive(
                        ev,
                        g.xml@,
                        g.total_time as int,
                        g.fps as int,
                        frames as int,
                        total_frames as int,
                        k,
                    ),
            ),
            out@.len() == i,
            forall|k: int| 0 <= k < i ==> #[trigger] out@[k]@ == all[k],
        decreases chunks.len() - i,
    {
        let archive = archive_with_xml_exec(entries, &chunks[i].xml);
        let name = chunks[i].file_name.clone();
        out.push(ProjectArchive { file_name: name, entries: archive });
        i += 1;
    }
    Ok(out)
}

/// `group_and_split` when the chunk plan can be computed; `None` when it
/// cannot (see `time_split_fits`).
pub fn group_and_split_checked(
    entries: &Vec<ArchiveEntry>,
    location_xy: &str,
    frames: u32,
    total_frames: u64,
) -> (r: Option<Result<Vec<ProjectArchive>, String>>)
    ensures
        r is None <==> !time_split_fits(
            entries_view(entries@),
            location_xy@,
            frames as int,
            total_frames as int,
        ),
        match r {
            Some(res) => is_time_split(
                res,
                entries_view(entries@),
                location_xy@,
                frames as int,
                total_frames as int,
            ),
            None => true,
        },
{
    let doc = match load_scene(entries) {
        Ok(d) => d,
        Err(e) => return Some(Err(e)),
    };
    let g = match group_for_time_split(&doc, location_xy) {
        Ok(g) => g,
        Err(e) => return Some(Err(e)),
    };
    if !chunk_plan_fits_exec(g.total_time, g.fps, frames, total_frames) {
        return None;
    }
    Some(group_and_split(entries, location_xy, frames, total_frames))
}

/// A grouped project: its file name and XML.
pub struct GroupOutput {
    pub file_name: String,
    pub xml: String,
}

/// Name of the grouped project: `{title}_grouped.amproj` with the title
/// (`未知` when absent) sanitized.
pub open spec fn grouped_file_name(doc: SceneModel) -> Seq<char> {
    sanitize_filename_spec(attr_or(doc.root.attrs, "title"@, "未知"@)) + "_grouped.amproj"@
}

/// Grouping only: the scene's total time, then the grouped XML.
pub open spec fn group_only(doc: SceneModel, location_xy: Seq<char>) -> Result<
    (Seq<char>, Seq<char>),
    Seq<char>,
> {
    match scene_number(doc.root, "totalTime"@, u64::MAX as int) {
        Err(e) => Err(e),
        Ok(t) => match grouped_result(doc, t, location_xy) {
            Err(e) => Err(e),
            Ok(x) => Ok((grouped_file_name(doc), x)),
        },
    }
}

/// Groups the scene into one `embedScene` (see `group_only`); `location_xy`
/// is the canvas centre.
pub fn group_scene(doc: &SceneXml, location_xy: &str) -> (r: Result<GroupOutput, String>)
    ensures
        match r {
            Ok(g) => group_only(doc@, location_xy@) == Ok::<(Seq<char>, Seq<char>), Seq<char>>(
                (g.file_name@, g.xml@),
            ),
            Err(e) => group_only(doc@, location_xy@) == Err::<(Seq<char>, Seq<char>), Seq<char>>(
                e@,
            ),
        },
{
    let total_time = scene_total_time(&doc.root)?;
    let xml = build_grouped_xml(doc, total_time, location_xy)?;
    let title = attribute_or(&doc.root, "title", "未知");
    let mut name = sanitize_chars(&title, false);
    push_str(&mut name, "_grouped.amproj");
    Ok(GroupOutput { file_name: string_of(&name), xml })
}

/// Grouping of an archive: the scene is loaded (failing as `scene_load`
/// says) and grouped (see `group_only`); the grouped project keeps the
/// archive's entries in order, with every XML entry replaced by the grouped
/// XML.
pub open spec fn group_archive(entries: Seq<(Seq<char>, Seq<u8>)>, location_xy: Seq<char>) -> Result<
    (Seq<char>, Seq<(Seq<char>, Seq<u8>)>),
    Seq<char>,
> {
    match scene_load(entries) {
        Err(e) => Err(e),
        Ok(doc) => match group_only(doc, location_xy) {
            Err(e) => Err(e),
            Ok((name, x)) => Ok((name, archive_with_xml(entries, x))),
        },
    }
}

/// Groups the project in `entries` into one `embedScene`: the project to
/// write (see `group_archive`). `location_xy` is the canvas centre.
pub fn group_amproj(entries: &Vec<ArchiveEntry>, location_xy: &str) -> (r: Result<
    ProjectArchive,
    String,
>)
    ensures
        match r {
            Ok(p) => group_archive(entries_view(entries@), location_xy@) == Ok::<
                (Seq<char>, Seq<(Seq<char>, Seq<u8>)>),
                Seq<char>,
            >(p@),
            Err(e) => group_archive(entries_view(entries@), location_xy@) == Err::<
                (Seq<char>, Seq<(Seq<char>, Seq<u8>)>),
                Seq<char>,
            >(e@),
        },
{
    let doc = load_scene(entries)?;
    let g = group_scene(&doc, location_xy)?;
    let archive = archive_with_xml_exec(entries, &g.xml);
    Ok(ProjectArchive { file_name: g.file_name, entries: archive })
}

/// The archive of a grouped project or chunk: every entry whose name ends
/// with `.xml` holds `xml`, the others are kept as they are.
pub open spec fn archive_with_xml(entries: Seq<(Seq<char>, Seq<u8>)>, xml: Seq<char>) -> Seq<
    (Seq<char>, Seq<u8>),
> {
    entries.map_values(
        |e: (Seq<char>, Seq<u8>)|
            if ends_with(e.0, ".xml"@) {
                (e.0, encode_utf8(xml))
            } else {
                e
            },
    )
}

/// Builds `archive_with_xml`.
pub fn archive_with_xml_exec(entries: &Vec<ArchiveEntry>, xml: &String) -> (r: Vec<ArchiveEntry>)
    ensures
        entries_view(r@) == archive_with_xml(entries_view(entries@), xml@),
{
    let bytes = utf8_bytes(xml);
    let suffix = chars_of(".xml");
    let ghost ev = entries_view(entries@);
    let mut out: Vec<ArchiveEntry> = Vec::new();
    let mut i: usize = 0;
    while i < entries.len()
        invariant
            0 <= i <= entries.len(),
            ev == entries_view(entries@),
            bytes@ == encode_utf8(xml@),
            suffix@ == ".xml"@,
            out@.len() == i,
            forall|j: int|
                0 <= j < i ==> #[trigger] out@[j]@ == (if ends_with(ev[j].0, ".xml"@) {
                    (ev[j].0, encode_utf8(xml@))
                } else {
                    ev[j]
                }),
        decreases entries.len() - i,
    {
        let name = chars_of(entries[i].name.as_str());
        if ends_with_exec(&name, &suffix) {
            out.push(
                ArchiveEntry {
                    name: entries[i].name.clone(),
                    data: vstd::slice::slice_to_vec(bytes.as_slice()),
                },
            );
        } else {
            out.push(copy_entry(&entries[i]));
        }
        i += 1;
    }
    proof {
        assert(entries_view(out@) =~= archive_with_xml(ev, xml@));
    }
    out
}

/// A grouped project or chunk keeps every entry of the archive, in order and
/// under its name; only the XML entries get new bytes.
pub proof fn law_grouped_archive_keeps_entries(entries: Seq<(Seq<char>, Seq<u8>)>, xml: Seq<char>)
    ensures
        archive_with_xml(entries, xml).len() == entries.len(),
        forall|i: int|
            0 <= i < entries.len() ==> (#[trigger] archive_with_xml(entries, xml)[i]).0
                == entries[i].0,
        forall|i: int|
            0 <= i < entries.len() && !ends_with(entries[i].0, ".xml"@) ==> #[trigger] archive_with_xml(
                entries,
                xml,
            )[i] == entries[i],
        forall|i: int|
            0 <= i < entries.len() && ends_with(entries[i].0, ".xml"@) ==> (
            #[trigger] archive_with_xml(entries, xml)[i]).1 == encode_utf8(xml),
{
}

} // verus!
