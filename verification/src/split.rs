//! Splitting a project: every top-level content element of the scene becomes
//! a project of its own, carrying the media declarations and resource files
//! that the element refers to.

use vstd::prelude::*;
use vstd::slice::slice_to_vec;
use vstd::utf8::encode_utf8;
use crate::text::{
    chars_of, decimal, fmt_index3, lines, lines_state, push_all, push_str, string_of, strip_cr,
    zero_pad,
};
use crate::paths::last_index_of_exec;
use crate::xml::{
    attr_value, attribute, entries_view, escape_chars, escape_xml, load_scene,
    sanitize_filename, sanitize_filename_spec, scene_load, str_eq, utf8_bytes, ArchiveEntry,
    AttrModel, ElementModel, SceneModel, SceneXml, XmlAttr, XmlElement,
};

verus! {

// ---------------------------------------------------------------------------
// What a split produces
// ---------------------------------------------------------------------------

/// Tags of top-level elements that are not rendered content.
pub open spec fn is_skipped_tag(tag: Seq<char>) -> bool {
    tag == "media"@ || tag == "bookmark"@
}

/// The content elements among the root's children, in order.
pub open spec fn content_elements(children: Seq<ElementModel>) -> Seq<ElementModel>
    decreases children.len(),
{
    if children.len() == 0 {
        seq![]
    } else if is_skipped_tag(children.last().tag) {
        content_elements(children.drop_last())
    } else {
        content_elements(children.drop_last()).push(children.last())
    }
}

/// The `<media>` declarations among the root's children, in order.
pub open spec fn media_elements(children: Seq<ElementModel>) -> Seq<ElementModel>
    decreases children.len(),
{
    if children.len() == 0 {
        seq![]
    } else if children.last().tag == "media"@ {
        media_elements(children.drop_last()).push(children.last())
    } else {
        media_elements(children.drop_last())
    }
}

/// `s` without the prefix `p`, when it starts with it.
pub open spec fn strip_prefix(s: Seq<char>, p: Seq<char>) -> Option<Seq<char>> {
    if s.len() >= p.len() && s.take(p.len() as int) == p {
        Some(s.skip(p.len() as int))
    } else {
        None
    }
}

/// An attribute's value, or the empty text when absent.
pub open spec fn attr_or_empty(attrs: Seq<AttrModel>, name: Seq<char>) -> Seq<char> {
    match attr_value(attrs, name) {
        Some(v) => v,
        None => seq![],
    }
}

/// A media declaration: its `sig`, the archive file its `amproj:` URI names,
/// and its source text.
pub struct MediaRef {
    pub sig: Seq<char>,
    pub asset: Seq<char>,
    pub source: Seq<char>,
}

/// The media reference declared by a `<media>` element.
pub open spec fn media_ref(m: ElementModel) -> MediaRef {
    MediaRef {
        sig: attr_or_empty(m.attrs, "sig"@),
        asset: match strip_prefix(attr_or_empty(m.attrs, "uri"@), "amproj:"@) {
            Some(f) => f,
            None => seq![],
        },
        source: m.source,
    }
}

/// Index of the last occurrence of `c` in `s`.
pub open spec fn last_index_of(s: Seq<char>, c: char) -> Option<int>
    decreases s.len(),
{
    if s.len() == 0 {
        None
    } else if s.last() == c {
        Some(s.len() - 1)
    } else {
        last_index_of(s.drop_last(), c)
    }
}

/// The attribute refers to the resource `key`: an `amproj:` value names the
/// file (and, before its last `.`, its hash), and a non-empty `sig` names the
/// hash.
pub open spec fn attr_refers(a: AttrModel, key: Seq<char>) -> bool {
    ||| match strip_prefix(a.value, "amproj:"@) {
        Some(f) => key == f || match last_index_of(f, '.') {
            Some(k) => key == f.take(k),
            None => false,
        },
        None => false,
    }
    ||| a.name == "sig"@ && a.value.len() > 0 && key == a.value
}

/// Some attribute of the subtree refers to `key`.
pub open spec fn refers(attrs: Seq<AttrModel>, key: Seq<char>) -> bool {
    exists|i: int| 0 <= i < attrs.len() && attr_refers(#[trigger] attrs[i], key)
}

/// The media declarations that the subtree (given by its attributes) uses, in
/// declaration order.
pub open spec fn needed_media(medias: Seq<MediaRef>, attrs: Seq<AttrModel>) -> Seq<MediaRef>
    decreases medias.len(),
{
    if medias.len() == 0 {
        seq![]
    } else if refers(attrs, medias.last().sig) || refers(attrs, medias.last().asset) {
        needed_media(medias.drop_last(), attrs).push(medias.last())
    } else {
        needed_media(medias.drop_last(), attrs)
    }
}

/// The archive file `name` belongs to one of the needed media.
pub open spec fn asset_needed(name: Seq<char>, needed: Seq<MediaRef>) -> bool {
    name.len() > 0 && exists|j: int| 0 <= j < needed.len() && #[trigger] needed[j].asset == name
}

/// The archive files that the needed media name, in archive order.
pub open spec fn selected_assets(
    entries: Seq<(Seq<char>, Seq<u8>)>,
    needed: Seq<MediaRef>,
) -> Seq<(Seq<char>, Seq<u8>)>
    decreases entries.len(),
{
    if entries.len() == 0 {
        seq![]
    } else if asset_needed(entries.last().0, needed) {
        selected_assets(entries.drop_last(), needed).push(entries.last())
    } else {
        selected_assets(entries.drop_last(), needed)
    }
}

/// The names joined with `"\n"`.
pub open spec fn join_lines(names: Seq<Seq<char>>) -> Seq<char>
    decreases names.len(),
{
    if names.len() == 0 {
        seq![]
    } else if names.len() == 1 {
        names[0]
    } else {
        join_lines(names.drop_last()) + "\n"@ + names.last()
    }
}

/// ` name="value"` with the value escaped.
pub open spec fn attr_text(name: Seq<char>, value: Seq<char>) -> Seq<char> {
    " "@ + name + "=\""@ + escape_xml(value) + "\""@
}

/// Value written for a root attribute in a split project: the title becomes the
/// element's label and the total time its end time (when it has one).
pub open spec fn split_attr_value(a: AttrModel, label: Seq<char>, end_time: Option<Seq<char>>) -> Seq<
    char,
> {
    if a.name == "title"@ {
        label
    } else if a.name == "totalTime"@ {
        match end_time {
            Some(t) => t,
            None => a.value,
        }
    } else {
        a.value
    }
}

/// The root attributes of a split project.
pub open spec fn split_attrs_text(
    attrs: Seq<AttrModel>,
    label: Seq<char>,
    end_time: Option<Seq<char>>,
) -> Seq<char>
    decreases attrs.len(),
{
    if attrs.len() == 0 {
        seq![]
    } else {
        split_attrs_text(attrs.drop_last(), label, end_time) + attr_text(
            attrs.last().name,
            split_attr_value(attrs.last(), label, end_time),
        )
    }
}

/// Each fragment on a line of its own, after `indent`.
pub open spec fn indented_lines(frags: Seq<Seq<char>>, indent: Seq<char>) -> Seq<char>
    decreases frags.len(),
{
    if frags.len() == 0 {
        seq![]
    } else {
        indented_lines(frags.drop_last(), indent) + indent + frags.last() + "\n"@
    }
}

/// The sources of the media references.
pub open spec fn media_sources(medias: Seq<MediaRef>) -> Seq<Seq<char>> {
    medias.map_values(|m: MediaRef| m.source)
}

/// XML of a split project: the root's attributes (retitled and retimed), the
/// needed media declarations, and the element.
pub open spec fn split_scene_text(
    root: ElementModel,
    label: Seq<char>,
    end_time: Option<Seq<char>>,
    media: Seq<Seq<char>>,
    element: ElementModel,
) -> Seq<char> {
    "<?xml version='1.0' encoding='UTF-8' ?>\n<scene"@ + split_attrs_text(root.attrs, label, end_time)
        + ">\n"@ + indented_lines(media, "  "@) + "  "@ + element.source + "\n"@ + "</scene>\n"@
}

/// The label of an element: its `label`, else its `id`, else `element`.
pub open spec fn element_label(e: ElementModel) -> Seq<char> {
    match attr_value(e.attrs, "label"@) {
        Some(v) => v,
        None => match attr_value(e.attrs, "id"@) {
            Some(v) => v,
            None => "element"@,
        },
    }
}

/// File-name stem of split project `k`: `{k:03}_{label}` with the label sanitized.
pub open spec fn piece_stem(k: int, label: Seq<char>) -> Seq<char> {
    zero_pad(decimal(k as nat), 3) + "_"@ + sanitize_filename_spec(label)
}

/// Split project `k` of the scene: its file name and its archive entries
/// (the XML, the needed resource files, and a manifest listing them).
pub open spec fn split_piece(doc: SceneModel, entries: Seq<(Seq<char>, Seq<u8>)>, k: int) -> (
    Seq<char>,
    Seq<(Seq<char>, Seq<u8>)>,
) {
    let element = content_elements(doc.children)[k];
    let medias = media_elements(doc.children).map_values(|m: ElementModel| media_ref(m));
    let needed = needed_media(medias, element.subtree_attrs);
    let label = element_label(element);
    let xml = split_scene_text(
        doc.root,
        label,
        attr_value(element.attrs, "endTime"@),
        media_sources(needed),
        element,
    );
    let stem = piece_stem(k, label);
    let assets = selected_assets(entries, needed);
    (
        stem + ".amproj"@,
        seq![(stem + ".xml"@, encode_utf8(xml))] + assets + seq![
            ("manifest.txt"@, encode_utf8(join_lines(assets.map_values(|e: (Seq<char>, Seq<u8>)| e.0)))),
        ],
    )
}

/// The element refers to the media declaration `m`, by its `sig` or by the
/// file its URI names.
pub open spec fn uses_media(attrs: Seq<AttrModel>, m: MediaRef) -> bool {
    refers(attrs, m.sig) || refers(attrs, m.asset)
}

/// The archive file `name` is a resource of content element `k`: some media
/// declaration of the scene names it and the element refers to that
/// declaration.
pub open spec fn resource_of_element(doc: SceneModel, k: int, name: Seq<char>) -> bool {
    let medias = media_elements(doc.children).map_values(|m: ElementModel| media_ref(m));
    name.len() > 0 && exists|j: int|
        0 <= j < medias.len() && (#[trigger] medias[j]).asset == name && uses_media(
            content_elements(doc.children)[k].subtree_attrs,
            medias[j],
        )
}

proof fn lemma_needed_media_members(medias: Seq<MediaRef>, attrs: Seq<AttrModel>)
    ensures
        forall|i: int|
            0 <= i < needed_media(medias, attrs).len() ==> medias.contains(
                #[trigger] needed_media(medias, attrs)[i],
            ) && uses_media(attrs, needed_media(medias, attrs)[i]),
        forall|j: int|
            0 <= j < medias.len() && uses_media(attrs, #[trigger] medias[j]) ==> needed_media(
                medias,
                attrs,
            ).contains(medias[j]),
    decreases medias.len(),
{
    if medias.len() > 0 {
        let rest = medias.drop_last();
        lemma_needed_media_members(rest, attrs);
        assert forall|i: int|
            0 <= i < needed_media(medias, attrs).len() implies medias.contains(
            #[trigger] needed_media(medias, attrs)[i],
        ) && uses_media(attrs, needed_media(medias, attrs)[i]) by {
            if i < needed_media(rest, attrs).len() {
                let x = needed_media(rest, attrs)[i];
                let w = choose|w: int| 0 <= w < rest.len() && rest[w] == x;
                assert(medias[w] == x);
            } else {
                assert(medias[medias.len() - 1] == medias.last());
            }
        }
        assert forall|j: int|
            0 <= j < medias.len() && uses_media(attrs, #[trigger] medias[j]) implies needed_media(
            medias,
            attrs,
        ).contains(medias[j]) by {
            if j < medias.len() - 1 {
                assert(rest[j] == medias[j]);
                let n = needed_media(rest, attrs);
                let w = choose|w: int| 0 <= w < n.len() && n[w] == medias[j];
                assert(needed_media(medias, attrs)[w] == medias[j]);
            } else {
                let n = needed_media(medias, attrs);
                assert(n[n.len() - 1] == medias[j]);
            }
        }
    }
}

proof fn lemma_selected_assets_members(entries: Seq<(Seq<char>, Seq<u8>)>, needed: Seq<MediaRef>)
    ensures
        forall|i: int|
            0 <= i < selected_assets(entries, needed).len() ==> entries.contains(
                #[trigger] selected_assets(entries, needed)[i],
            ) && asset_needed(selected_assets(entries, needed)[i].0, needed),
        forall|j: int|
            0 <= j < entries.len() && asset_needed((#[trigger] entries[j]).0, needed)
                ==> selected_assets(entries, needed).contains(entries[j]),
    decreases entries.len(),
{
    if entries.len() > 0 {
        let rest = entries.drop_last();
        lemma_selected_assets_members(rest, needed);
        assert forall|i: int|
            0 <= i < selected_assets(entries, needed).len() implies entries.contains(
            #[trigger] selected_assets(entries, needed)[i],
        ) && asset_needed(selected_assets(entries, needed)[i].0, needed) by {
            if i < selected_assets(rest, needed).len() {
                let x = selected_assets(rest, needed)[i];
                let w = choose|w: int| 0 <= w < rest.len() && rest[w] == x;
                assert(entries[w] == x);
            } else {
                assert(entries[entries.len() - 1] == entries.last());
            }
        }
        assert forall|j: int|
            0 <= j < entries.len() && asset_needed((#[trigger] entries[j]).0, needed)
            implies selected_assets(entries, needed).contains(entries[j]) by {
            if j < entries.len() - 1 {
                assert(rest[j] == entries[j]);
                let n = selected_assets(rest, needed);
                let w = choose|w: int| 0 <= w < n.len() && n[w] == entries[j];
                assert(selected_assets(entries, needed)[w] == entries[j]);
            } else {
                let n = selected_assets(entries, needed);
                assert(n[n.len() - 1] == entries[j]);
            }
        }
    }
}

/// A split project carries exactly the resource files of its element: each
/// archive file between its XML and its manifest is a file of the input
/// archive that the element refers to (through a media declaration), and
/// every such file of the archive is carried.
pub proof fn law_split_carries_element_resources(
    doc: SceneModel,
    entries: Seq<(Seq<char>, Seq<u8>)>,
    k: int,
)
    requires
        0 <= k < content_elements(doc.children).len(),
    ensures
        ({
            let files = split_piece(doc, entries, k).1;
            let carried = files.subrange(1, files.len() - 1);
            &&& files.len() >= 2
            &&& forall|i: int|
                0 <= i < carried.len() ==> entries.contains(#[trigger] carried[i])
                    && resource_of_element(doc, k, carried[i].0)
            &&& forall|j: int|
                0 <= j < entries.len() && resource_of_element(doc, k, (#[trigger] entries[j]).0)
                    ==> carried.contains(entries[j])
        }),
{
    let element = content_elements(doc.children)[k];
    let medias = media_elements(doc.children).map_values(|m: ElementModel| media_ref(m));
    let needed = needed_media(medias, element.subtree_attrs);
    let assets = selected_assets(entries, needed);
    let files = split_piece(doc, entries, k).1;
    lemma_needed_media_members(medias, element.subtree_attrs);
    lemma_selected_assets_members(entries, needed);
    assert(files.subrange(1, files.len() - 1) =~= assets);
    assert forall|i: int| 0 <= i < assets.len() implies entries.contains(#[trigger] assets[i])
        && resource_of_element(doc, k, assets[i].0) by {
        let name = assets[i].0;
        assert(asset_needed(name, needed));
        let j = choose|j: int| 0 <= j < needed.len() && #[trigger] needed[j].asset == name;
        assert(medias.contains(needed[j]) && uses_media(element.subtree_attrs, needed[j]));
        let w = choose|w: int| 0 <= w < medias.len() && medias[w] == needed[j];
        assert(medias[w].asset == name);
    }
    assert forall|j: int|
        0 <= j < entries.len() && resource_of_element(doc, k, (#[trigger] entries[j]).0)
        implies assets.contains(entries[j]) by {
        let name = entries[j].0;
        let w = choose|w: int|
            0 <= w < medias.len() && (#[trigger] medias[w]).asset == name && uses_media(
                element.subtree_attrs,
                medias[w],
            );
        assert(needed.contains(medias[w]));
        let q = choose|q: int| 0 <= q < needed.len() && needed[q] == medias[w];
        assert(needed[q].asset == name);
        assert(asset_needed(name, needed));
    }
}

/// Total length of the names.
pub open spec fn names_length(names: Seq<Seq<char>>) -> int
    decreases names.len(),
{
    if names.len() == 0 {
        0
    } else {
        names_length(names.drop_last()) + names.last().len()
    }
}

/// Reading on past a text without line feeds extends the line in progress.
proof fn lemma_lines_state_plain(a: Seq<char>, b: Seq<char>)
    requires
        forall|i: int| 0 <= i < b.len() ==> #[trigger] b[i] != '\n',
    ensures
        lines_state(a + b) == (lines_state(a).0, lines_state(a).1 + b),
    decreases b.len(),
{
    if b.len() == 0 {
        assert(a + b =~= a);
        assert(lines_state(a).1 + b =~= lines_state(a).1);
    } else {
        assert((a + b).drop_last() =~= a + b.drop_last());
        assert((a + b).last() == b.last());
        lemma_lines_state_plain(a, b.drop_last());
        assert(lines_state(a).1 + b.drop_last() + seq![b.last()] =~= lines_state(a).1 + b);
    }
}

/// Reading names joined with line feeds ends with the last name in progress
/// and the others completed, when no name holds a line feed and no name but
/// the last ends with a carriage return.
proof fn lemma_lines_state_of_joined(names: Seq<Seq<char>>)
    requires
        names.len() > 0,
        forall|i: int, j: int|
            0 <= i < names.len() && 0 <= j < names[i].len() ==> #[trigger] names[i][j] != '\n',
        forall|i: int|
            0 <= i < names.len() - 1 ==> !(#[trigger] names[i].len() > 0 && names[i].last()
                == '\r'),
    ensures
        lines_state(join_lines(names)) == (names.drop_last(), names.last()),
        join_lines(names).len() + 1 == names_length(names) + names.len(),
    decreases names.len(),
{
    reveal_strlit("\n");
    let last = names.last();
    assert(last == names[names.len() - 1]);
    assert forall|j: int| 0 <= j < last.len() implies #[trigger] last[j] != '\n' by {
        assert(names[names.len() - 1][j] != '\n');
    }
    if names.len() == 1 {
        lemma_lines_state_plain(seq![], last);
        assert(Seq::<char>::empty() + last =~= last);
        assert(names.drop_last() =~= Seq::<Seq<char>>::empty());
        assert(names_length(names.drop_last()) == 0);
    } else {
        let prev = names.drop_last();
        assert forall|i: int, j: int| 0 <= i < prev.len() && 0 <= j < prev[i].len() implies
            #[trigger] prev[i][j] != '\n' by {
            assert(prev[i] == names[i]);
        }
        assert forall|i: int| 0 <= i < prev.len() - 1 implies !(#[trigger] prev[i].len() > 0
            && prev[i].last() == '\r') by {
            assert(prev[i] == names[i]);
        }
        lemma_lines_state_of_joined(prev);
        let jp = join_lines(prev);
        assert(prev.last() == names[names.len() - 2]);
        assert(strip_cr(prev.last()) == prev.last());
        let with_lf = jp + "\n"@;
        assert(with_lf.drop_last() =~= jp);
        assert(with_lf.last() == '\n');
        assert(lines_state(with_lf) == (prev.drop_last().push(prev.last()), Seq::<char>::empty()));
        assert(prev.drop_last().push(prev.last()) =~= prev);
        lemma_lines_state_plain(with_lf, last);
        assert(Seq::<char>::empty() + last =~= last);
        assert(join_lines(names) == with_lf + last);
    }
}

/// The lines of names joined with line feeds are the names (see
/// `lemma_lines_state_of_joined`), when the last name is not empty.
proof fn lemma_lines_of_joined(names: Seq<Seq<char>>)
    requires
        names.len() > 0,
        names.last().len() > 0,
        forall|i: int, j: int|
            0 <= i < names.len() && 0 <= j < names[i].len() ==> #[trigger] names[i][j] != '\n',
        forall|i: int|
            0 <= i < names.len() - 1 ==> !(#[trigger] names[i].len() > 0 && names[i].last()
                == '\r'),
    ensures
        lines(join_lines(names)) == names,
        join_lines(names).len() + 1 == names_length(names) + names.len(),
{
    lemma_lines_state_of_joined(names);
    assert(names.drop_last().push(names.last()) =~= names);
}

/// The manifest of a split project lists its resource files: it is the last
/// entry, named `manifest.txt`, and its text, read line by line, gives the
/// names of the files between the project's XML and its manifest, in order,
/// with one line feed between two names and nothing else added. This holds
/// when no carried name holds a line feed and none but the last ends with a
/// carriage return.
pub proof fn law_split_manifest_lists_resources(
    doc: SceneModel,
    entries: Seq<(Seq<char>, Seq<u8>)>,
    k: int,
)
    requires
        0 <= k < content_elements(doc.children).len(),
        ({
            let files = split_piece(doc, entries, k).1;
            let carried = files.subrange(1, files.len() - 1);
            &&& forall|i: int, j: int|
                0 <= i < carried.len() && 0 <= j < carried[i].0.len() ==> #[trigger] carried[i].0[j]
                    != '\n'
            &&& forall|i: int|
                0 <= i < carried.len() - 1 ==> !(#[trigger] carried[i].0.len() > 0
                    && carried[i].0.last() == '\r')
        }),
    ensures
        ({
            let files = split_piece(doc, entries, k).1;
            let carried = files.subrange(1, files.len() - 1);
            let names = carried.map_values(|e: (Seq<char>, Seq<u8>)| e.0);
            &&& files.len() >= 2
            &&& files.last().0 == "manifest.txt"@
            &&& exists|text: Seq<char>|
                #![trigger encode_utf8(text)]
                files.last().1 == encode_utf8(text) && lines(text) == names && (names.len() > 0
                    ==> text.len() + 1 == names_length(names) + names.len()) && (names.len() == 0
                    ==> text.len() == 0)
        }),
{
    law_split_carries_element_resources(doc, entries, k);
    let element = content_elements(doc.children)[k];
    let medias = media_elements(doc.children).map_values(|m: ElementModel| media_ref(m));
    let needed = needed_media(medias, element.subtree_attrs);
    let assets = selected_assets(entries, needed);
    let files = split_piece(doc, entries, k).1;
    let carried = files.subrange(1, files.len() - 1);
    assert(carried =~= assets);
    let names = carried.map_values(|e: (Seq<char>, Seq<u8>)| e.0);
    assert(names =~= assets.map_values(|e: (Seq<char>, Seq<u8>)| e.0));
    let text = join_lines(names);
    assert(files.last() == ("manifest.txt"@, encode_utf8(text)));
    if names.len() > 0 {
        assert(resource_of_element(doc, k, carried[carried.len() - 1].0));
        assert(names.last() == carried[carried.len() - 1].0);
        assert forall|i: int, j: int| 0 <= i < names.len() && 0 <= j < names[i].len() implies
            #[trigger] names[i][j] != '\n' by {
            assert(names[i] == carried[i].0);
        }
        assert forall|i: int| 0 <= i < names.len() - 1 implies !(#[trigger] names[i].len() > 0
            && names[i].last() == '\r') by {
            assert(names[i] == carried[i].0);
        }
        lemma_lines_of_joined(names);
    } else {
        assert(lines_state(text) == (Seq::<Seq<char>>::empty(), Seq::<char>::empty()));
    }
}

/// One project produced by a split: its file name and its archive entries.
pub struct SplitPiece {
    pub file_name: String,
    pub entries: Vec<ArchiveEntry>,
}

impl View for SplitPiece {
    type V = (Seq<char>, Seq<(Seq<char>, Seq<u8>)>);

    open spec fn view(&self) -> (Seq<char>, Seq<(Seq<char>, Seq<u8>)>) {
        (self.file_name@, entries_view(self.entries@))
    }
}


// ---------------------------------------------------------------------------
// Computing a split
// ---------------------------------------------------------------------------

/// The text held by an optional string.
pub open spec fn opt_view(o: Option<&String>) -> Option<Seq<char>> {
    match o {
        Some(s) => Some(s@),
        None => None,
    }
}

/// Indices (into the root's children) of the content elements, in order.
fn content_indices(children: &Vec<XmlElement>) -> (r: Vec<usize>)
    ensures
        r@.len() == content_elements(children@.map_values(|e: XmlElement| e@)).len(),
        forall|k: int|
            0 <= k < r@.len() ==> #[trigger] r@[k] < children@.len() && children@[r@[k] as int]@
                == content_elements(children@.map_values(|e: XmlElement| e@))[k],
{
    let ghost cv = children@.map_values(|e: XmlElement| e@);
    let mut r: Vec<usize> = Vec::new();
    let mut i: usize = 0;
    while i < children.len()
        invariant
            0 <= i <= children.len(),
            cv == children@.map_values(|e: XmlElement| e@),
            r@.len() == content_elements(cv.take(i as int)).len(),
            forall|k: int|
                0 <= k < r@.len() ==> #[trigger] r@[k] < i && cv[r@[k] as int] == content_elements(
                    cv.take(i as int),
                )[k],
        decreases children.len() - i,
    {
        proof {
            assert(cv.take(i + 1).drop_last() == cv.take(i as int));
            assert(cv.take(i + 1).last() == cv[i as int]);
        }
        let tag = children[i].tag.as_str();
        if !(str_eq(tag, "media") || str_eq(tag, "bookmark")) {
            r.push(i);
        }
        i += 1;
    }
    proof {
        assert(cv.take(children.len() as int) == cv);
    }
    r
}

/// A media declaration of the scene, read for the split.
struct MediaInfo {
    sig: Vec<char>,
    asset: Vec<char>,
    index: usize,
}

/// Whether `s` starts with `p`, and then the rest of `s`.
fn strip_prefix_exec(s: &Vec<char>, p: &Vec<char>) -> (r: Option<Vec<char>>)
    ensures
        match r {
            Some(t) => strip_prefix(s@, p@) == Some(t@),
            None => strip_prefix(s@, p@) is None,
        },
{
    if p.len() <= s.len() && crate::text::matches_at_exec(s, 0, p) {
        proof {
            assert(s@.subrange(0, p@.len() as int) == s@.take(p@.len() as int));
        }
        let t = crate::text::slice_chars(s, p.len(), s.len());
        proof {
            assert(t@ == s@.skip(p@.len() as int));
        }
        Some(t)
    } else {
        proof {
            if s@.len() >= p@.len() && s@.take(p@.len() as int) == p@ {
                assert(s@.subrange(0, p@.len() as int) == s@.take(p@.len() as int));
            }
        }
        None
    }
}

/// The value of an attribute as characters, or nothing.
fn attribute_chars(el: &XmlElement, name: &str) -> (r: Vec<char>)
    ensures
        r@ == attr_or_empty(el@.attrs, name@),
{
    match attribute(el, name) {
        Some(v) => chars_of(v.as_str()),
        None => Vec::new(),
    }
}

/// The media declarations of the scene, in order.
#[verifier::spinoff_prover]
fn media_infos(children: &Vec<XmlElement>) -> (r: Vec<MediaInfo>)
    ensures
        r@.len() == media_elements(children@.map_values(|e: XmlElement| e@)).len(),
        forall|j: int|
            0 <= j < r@.len() ==> {
                let m = media_ref(media_elements(children@.map_values(|e: XmlElement| e@))[j]);
                &&& #[trigger] r@[j].index < children@.len()
                &&& r@[j].sig@ == m.sig
                &&& r@[j].asset@ == m.asset
                &&& children@[r@[j].index as int].source@ == m.source
            },
{
    let ghost cv = children@.map_values(|e: XmlElement| e@);
    let prefix = chars_of("amproj:");
    let mut r: Vec<MediaInfo> = Vec::new();
    let mut i: usize = 0;
    while i < children.len()
        invariant
            0 <= i <= children.len(),
            cv == children@.map_values(|e: XmlElement| e@),
            prefix@ == "amproj:"@,
            r@.len() == media_elements(cv.take(i as int)).len(),
            forall|j: int|
                0 <= j < r@.len() ==> {
                    let m = media_ref(media_elements(cv.take(i as int))[j]);
                    &&& #[trigger] r@[j].index < i
                    &&& r@[j].sig@ == m.sig
                    &&& r@[j].asset@ == m.asset
                    &&& children@[r@[j].index as int].source@ == m.source
                },
        decreases children.len() - i,
    {
        proof {
            assert(cv.take(i + 1).drop_last() == cv.take(i as int));
            assert(cv.take(i + 1).last() == cv[i as int]);
        }
        if str_eq(children[i].tag.as_str(), "media") {
            let sig = attribute_chars(&children[i], "sig");
            let uri = attribute_chars(&children[i], "uri");
            let asset = match strip_prefix_exec(&uri, &prefix) {
                Some(f) => f,
                None => Vec::new(),
            };
            r.push(MediaInfo { sig, asset, index: i });
        }
        i += 1;
    }
    proof {
        assert(cv.take(children.len() as int) == cv);
        assert(media_elements(cv.take(children.len() as int)) == media_elements(cv));
    }
    r
}

/// Whether the attribute refers to the resource `key`.
fn attr_refers_exec(a: &XmlAttr, key: &Vec<char>, prefix: &Vec<char>) -> (r: bool)
    requires
        prefix@ == "amproj:"@,
    ensures
        r == attr_refers(a@, key@),
{
    let v = chars_of(a.value.as_str());
    let by_uri = match strip_prefix_exec(&v, prefix) {
        Some(f) => {
            if crate::text::chars_eq(key, &f) {
                true
            } else {
                match last_index_of_exec(&f, '.') {
                    Some(k) => {
                        let stem = crate::text::slice_chars(&f, 0, k);
                        proof {
                            assert(stem@ == f@.take(k as int));
                        }
                        crate::text::chars_eq(key, &stem)
                    },
                    None => false,
                }
            }
        },
        None => false,
    };
    let by_sig = str_eq(a.name.as_str(), "sig") && v.len() > 0 && crate::text::chars_eq(key, &v);
    by_uri || by_sig
}

/// Whether some attribute of `attrs` refers to the resource `key`.
fn refers_exec(attrs: &Vec<XmlAttr>, key: &Vec<char>, prefix: &Vec<char>) -> (r: bool)
    requires
        prefix@ == "amproj:"@,
    ensures
        r == refers(attrs@.map_values(|a: XmlAttr| a@), key@),
{
    let ghost av = attrs@.map_values(|a: XmlAttr| a@);
    let mut i: usize = 0;
    while i < attrs.len()
        invariant
            0 <= i <= attrs.len(),
            av == attrs@.map_values(|a: XmlAttr| a@),
            prefix@ == "amproj:"@,
            forall|j: int| 0 <= j < i ==> !attr_refers(#[trigger] av[j], key@),
        decreases attrs.len() - i,
    {
        if attr_refers_exec(&attrs[i], key, prefix) {
            proof {
                assert(attr_refers(av[i as int], key@));
            }
            return true;
        }
        i += 1;
    }
    false
}

/// Positions (in `medias`) of the media that the subtree uses, in order.
fn needed_positions(medias: &Vec<MediaInfo>, attrs: &Vec<XmlAttr>, Ghost(ms): Ghost<Seq<MediaRef>>) -> (r: Vec<usize>)
    requires
        ms.len() == medias@.len(),
        forall|j: int|
            0 <= j < ms.len() ==> #[trigger] ms[j].sig == medias@[j].sig@ && ms[j].asset
                == medias@[j].asset@,
    ensures
        r@.len() == needed_media(ms, attrs@.map_values(|a: XmlAttr| a@)).len(),
        forall|k: int|
            0 <= k < r@.len() ==> #[trigger] r@[k] < medias@.len() && ms[r@[k] as int]
                == needed_media(ms, attrs@.map_values(|a: XmlAttr| a@))[k],
{
    let ghost av = attrs@.map_values(|a: XmlAttr| a@);
    let prefix = chars_of("amproj:");
    let mut r: Vec<usize> = Vec::new();
    let mut i: usize = 0;
    while i < medias.len()
        invariant
            0 <= i <= medias.len(),
            ms.len() == medias@.len(),
            forall|j: int|
                0 <= j < ms.len() ==> #[trigger] ms[j].sig == medias@[j].sig@ && ms[j].asset
                    == medias@[j].asset@,
            av == attrs@.map_values(|a: XmlAttr| a@),
            prefix@ == "amproj:"@,
            r@.len() == needed_media(ms.take(i as int), av).len(),
            forall|k: int|
                0 <= k < r@.len() ==> #[trigger] r@[k] < i && ms[r@[k] as int] == needed_media(
                    ms.take(i as int),
                    av,
                )[k],
        decreases medias.len() - i,
    {
        proof {
            assert(ms.take(i + 1).drop_last() == ms.take(i as int));
            assert(ms.take(i + 1).last() == ms[i as int]);
            assert(ms[i as int].sig == medias@[i as int].sig@);
            assert(ms[i as int].asset == medias@[i as int].asset@);
        }
        let by_sig = refers_exec(attrs, &medias[i].sig, &prefix);
        let by_asset = refers_exec(attrs, &medias[i].asset, &prefix);
        if by_sig || by_asset {
            r.push(i);
        }
        i += 1;
    }
    proof {
        assert(ms.take(medias.len() as int) == ms);
    }
    r
}


/// The characters of a list of texts, viewed as mathematical sequences.
pub open spec fn texts_view(v: Seq<Vec<char>>) -> Seq<Seq<char>> {
    v.map_values(|t: Vec<char>| t@)
}

/// Appends each fragment on a line of its own, after `indent`.
pub fn push_indented_lines(out: &mut Vec<char>, frags: &Vec<Vec<char>>, indent: &str)
    ensures
        final(out)@ == old(out)@ + indented_lines(texts_view(frags@), indent@),
{
    let ghost start = out@;
    let ghost fv = texts_view(frags@);
    let mut i: usize = 0;
    while i < frags.len()
        invariant
            0 <= i <= frags.len(),
            fv == texts_view(frags@),
            out@ == start + indented_lines(fv.take(i as int), indent@),
        decreases frags.len() - i,
    {
        proof {
            assert(fv.take(i + 1).drop_last() == fv.take(i as int));
            assert(fv.take(i + 1).last() == frags@[i as int]@);
        }
        push_str(out, indent);
        push_all(out, &frags[i]);
        push_str(out, "\n");
        i += 1;
        proof {
            assert(out@ == start + indented_lines(fv.take(i as int), indent@));
        }
    }
    proof {
        assert(fv.take(frags.len() as int) == fv);
    }
}

/// Appends ` name="value"` with the value escaped.
pub fn push_attr(out: &mut Vec<char>, name: &str, value: &Vec<char>)
    ensures
        final(out)@ == old(out)@ + attr_text(name@, value@),
{
    push_str(out, " ");
    push_str(out, name);
    push_str(out, "=\"");
    let e = escape_chars(value);
    push_all(out, &e);
    push_str(out, "\"");
}

/// XML of a split project (see `split_scene_text`).
fn build_split_xml(
    root: &XmlElement,
    label: &Vec<char>,
    end_time: Option<&String>,
    media: &Vec<Vec<char>>,
    element: &XmlElement,
) -> (r: Vec<char>)
    ensures
        r@ == split_scene_text(root@, label@, opt_view(end_time), texts_view(media@), element@),
{
    let ghost av = root@.attrs;
    let mut out: Vec<char> = Vec::new();
    push_str(&mut out, "<?xml version='1.0' encoding='UTF-8' ?>\n<scene");
    let ghost head = out@;
    let mut i: usize = 0;
    while i < root.attrs.len()
        invariant
            0 <= i <= root.attrs.len(),
            av == root@.attrs,
            out@ == head + split_attrs_text(av.take(i as int), label@, opt_view(end_time)),
        decreases root.attrs.len() - i,
    {
        proof {
            assert(av.take(i + 1).drop_last() == av.take(i as int));
            assert(av.take(i + 1).last() == root.attrs@[i as int]@);
        }
        let a = &root.attrs[i];
        let value: Vec<char> = if str_eq(a.name.as_str(), "title") {
            crate::text::slice_chars(label, 0, label.len())
        } else if str_eq(a.name.as_str(), "totalTime") {
            match end_time {
                Some(t) => chars_of(t.as_str()),
                None => chars_of(a.value.as_str()),
            }
        } else {
            chars_of(a.value.as_str())
        };
        proof {
            assert(label@.subrange(0, label@.len() as int) == label@);
        }
        push_attr(&mut out, a.name.as_str(), &value);
        i += 1;
    }
    proof {
        assert(av.take(root.attrs.len() as int) == av);
    }
    push_str(&mut out, ">\n");
    push_indented_lines(&mut out, media, "  ");
    push_str(&mut out, "  ");
    push_str(&mut out, element.source.as_str());
    push_str(&mut out, "\n");
    push_str(&mut out, "</scene>\n");
    out
}

/// Whether `name` is a non-empty name equal to one of `assets`.
fn asset_needed_exec(name: &Vec<char>, assets: &Vec<Vec<char>>, Ghost(needed): Ghost<Seq<MediaRef>>) -> (r: bool)
    requires
        assets@.len() == needed.len(),
        forall|j: int| 0 <= j < needed.len() ==> #[trigger] needed[j].asset == assets@[j]@,
    ensures
        r == asset_needed(name@, needed),
{
    if name.len() == 0 {
        return false;
    }
    let mut j: usize = 0;
    while j < assets.len()
        invariant
            0 <= j <= assets.len(),
            name@.len() > 0,
            assets@.len() == needed.len(),
            forall|q: int| 0 <= q < needed.len() ==> #[trigger] needed[q].asset == assets@[q]@,
            forall|q: int| 0 <= q < j ==> #[trigger] needed[q].asset != name@,
        decreases assets.len() - j,
    {
        if crate::text::chars_eq(&assets[j], name) {
            proof {
                assert(needed[j as int].asset == name@);
                assert(name@.len() > 0);
                assert(exists|q: int| 0 <= q < needed.len() && #[trigger] needed[q].asset == name@);
            }
            return true;
        }
        j += 1;
    }
    false
}

/// A copy of an archive entry.
pub fn copy_entry(e: &ArchiveEntry) -> (r: ArchiveEntry)
    ensures
        r@ == e@,
{
    ArchiveEntry { name: e.name.clone(), data: slice_to_vec(e.data.as_slice()) }
}

/// The archive entries whose names are needed assets, in archive order.
fn select_assets(entries: &Vec<ArchiveEntry>, assets: &Vec<Vec<char>>, Ghost(needed): Ghost<Seq<MediaRef>>) -> (r: Vec<ArchiveEntry>)
    requires
        assets@.len() == needed.len(),
        forall|j: int| 0 <= j < needed.len() ==> #[trigger] needed[j].asset == assets@[j]@,
    ensures
        entries_view(r@) == selected_assets(entries_view(entries@), needed),
{
    let ghost ev = entries_view(entries@);
    let mut r: Vec<ArchiveEntry> = Vec::new();
    let mut i: usize = 0;
    while i < entries.len()
        invariant
            0 <= i <= entries.len(),
            ev == entries_view(entries@),
            assets@.len() == needed.len(),
            forall|j: int| 0 <= j < needed.len() ==> #[trigger] needed[j].asset == assets@[j]@,
            entries_view(r@) == selected_assets(ev.take(i as int), needed),
        decreases entries.len() - i,
    {
        proof {
            assert(ev.take(i + 1).drop_last() == ev.take(i as int));
            assert(ev.take(i + 1).last() == entries@[i as int]@);
        }
        let name = chars_of(entries[i].name.as_str());
        if asset_needed_exec(&name, assets, Ghost(needed)) {
            let c = copy_entry(&entries[i]);
            r.push(c);
            proof {
                assert(entries_view(r@) =~= selected_assets(ev.take(i as int), needed).push(entries@[i as int]@));
            }
        }
        i += 1;
    }
    proof {
        assert(ev.take(entries.len() as int) == ev);
    }
    r
}

/// The names of the entries joined with `"\n"`.
fn join_entry_names(entries: &Vec<ArchiveEntry>) -> (r: Vec<char>)
    ensures
        r@ == join_lines(entries_view(entries@).map_values(|e: (Seq<char>, Seq<u8>)| e.0)),
{
    let ghost names = entries_view(entries@).map_values(|e: (Seq<char>, Seq<u8>)| e.0);
    let mut out: Vec<char> = Vec::new();
    let mut i: usize = 0;
    while i < entries.len()
        invariant
            0 <= i <= entries.len(),
            names == entries_view(entries@).map_values(|e: (Seq<char>, Seq<u8>)| e.0),
            out@ == join_lines(names.take(i as int)),
        decreases entries.len() - i,
    {
        proof {
            assert(names.take(i + 1).drop_last() == names.take(i as int));
            assert(names.take(i + 1).last() == entries@[i as int].name@);
            if i == 0 {
                assert(names.take(1)[0] == entries@[0].name@);
            }
        }
        if i > 0 {
            push_str(&mut out, "\n");
        }
        push_str(&mut out, entries[i].name.as_str());
        i += 1;
    }
    proof {
        assert(names.take(entries.len() as int) == names);
    }
    out
}


/// The label of an element (see `element_label`).
fn element_label_exec(el: &XmlElement) -> (r: Vec<char>)
    ensures
        r@ == element_label(el@),
{
    match attribute(el, "label") {
        Some(v) => chars_of(v.as_str()),
        None => match attribute(el, "id") {
            Some(v) => chars_of(v.as_str()),
            None => chars_of("element"),
        },
    }
}

/// The media references of the scene's `<media>` children.
pub open spec fn scene_media(doc: SceneModel) -> Seq<MediaRef> {
    media_elements(doc.children).map_values(|m: ElementModel| media_ref(m))
}

/// Builds split project `k`, whose element is child `child` of the root.
fn build_piece(
    doc: &SceneXml,
    entries: &Vec<ArchiveEntry>,
    medias: &Vec<MediaInfo>,
    child: usize,
    k: usize,
) -> (r: SplitPiece)
    requires
        medias@.len() == scene_media(doc@).len(),
        forall|j: int|
            0 <= j < medias@.len() ==> {
                let m = scene_media(doc@)[j];
                &&& #[trigger] medias@[j].index < doc.children@.len()
                &&& medias@[j].sig@ == m.sig
                &&& medias@[j].asset@ == m.asset
                &&& doc.children@[medias@[j].index as int].source@ == m.source
            },
        child < doc.children@.len(),
        k < content_elements(doc@.children).len(),
        doc@.children[child as int] == content_elements(doc@.children)[k as int],
    ensures
        r@ == split_piece(doc@, entries_view(entries@), k as int),
{
    let ghost ms = scene_media(doc@);
    let el = &doc.children[child];
    assert(el@ == doc@.children[child as int]);
    assert forall|j: int| 0 <= j < ms.len() implies #[trigger] ms[j].sig == medias@[j].sig@
        && ms[j].asset == medias@[j].asset@ by {
        assert(medias@[j].index < doc.children@.len());
    }
    let pos = needed_positions(medias, &el.subtree_attrs, Ghost(ms));
    let ghost needed = needed_media(ms, el@.subtree_attrs);
    let mut sources: Vec<Vec<char>> = Vec::new();
    let mut assets: Vec<Vec<char>> = Vec::new();
    let mut q: usize = 0;
    while q < pos.len()
        invariant
            0 <= q <= pos.len(),
            pos@.len() == needed.len(),
            forall|k2: int|
                0 <= k2 < pos@.len() ==> #[trigger] pos@[k2] < medias@.len() && ms[pos@[k2] as int]
                    == needed[k2],
            medias@.len() == ms.len(),
            forall|j: int|
                0 <= j < medias@.len() ==> {
                    let m = ms[j];
                    &&& #[trigger] medias@[j].index < doc.children@.len()
                    &&& medias@[j].asset@ == m.asset
                    &&& doc.children@[medias@[j].index as int].source@ == m.source
                },
            sources@.len() == q,
            assets@.len() == q,
            forall|k2: int| 0 <= k2 < q ==> #[trigger] sources@[k2]@ == needed[k2].source,
            forall|k2: int| 0 <= k2 < q ==> #[trigger] assets@[k2]@ == needed[k2].asset,
        decreases pos.len() - q,
    {
        let m = &medias[pos[q]];
        proof {
            assert(ms[pos@[q as int] as int] == needed[q as int]);
        }
        sources.push(chars_of(doc.children[m.index].source.as_str()));
        assets.push(crate::text::slice_chars(&m.asset, 0, m.asset.len()));
        proof {
            assert(m.asset@.subrange(0, m.asset@.len() as int) == m.asset@);
        }
        q += 1;
    }
    proof {
        assert(texts_view(sources@) =~= media_sources(needed));
    }
    let label = element_label_exec(el);
    let end_time = attribute(el, "endTime");
    let xml = build_split_xml(&doc.root, &label, end_time, &sources, el);
    let xml_string = string_of(&xml);
    let xml_bytes = utf8_bytes(&xml_string);
    let mut stem = fmt_index3(k);
    push_str(&mut stem, "_");
    let safe = crate::xml::sanitize_chars(&label, false);
    push_all(&mut stem, &safe);
    let mut file_name = crate::text::slice_chars(&stem, 0, stem.len());
    push_str(&mut file_name, ".amproj");
    let mut xml_name = crate::text::slice_chars(&stem, 0, stem.len());
    push_str(&mut xml_name, ".xml");
    proof {
        assert(stem@.subrange(0, stem@.len() as int) == stem@);
    }
    let selected = select_assets(entries, &assets, Ghost(needed));
    let manifest = join_entry_names(&selected);
    let manifest_string = string_of(&manifest);
    let manifest_bytes = utf8_bytes(&manifest_string);
    let mut out: Vec<ArchiveEntry> = Vec::new();
    out.push(ArchiveEntry { name: string_of(&xml_name), data: xml_bytes });
    let mut i: usize = 0;
    while i < selected.len()
        invariant
            0 <= i <= selected.len(),
            out@.len() == i + 1,
            out@[0]@ == (xml_name@, encode_utf8(xml@)),
            forall|j: int| 0 <= j < i ==> #[trigger] out@[j + 1]@ == selected@[j]@,
        decreases selected.len() - i,
    {
        out.push(copy_entry(&selected[i]));
        i += 1;
    }
    out.push(ArchiveEntry { name: String::from_str("manifest.txt"), data: manifest_bytes });
    proof {
        let ev = entries_view(entries@);
        let sv = selected_assets(ev, needed);
        assert(entries_view(selected@) == sv);
        let expected = split_piece(doc@, ev, k as int);
        assert(expected.1 =~= entries_view(out@)) by {
            assert forall|j: int| 0 <= j < entries_view(out@).len() implies #[trigger] entries_view(out@)[j] == expected.1[j] by {
                if j == 0 {
                } else if j <= selected@.len() {
                    assert(out@[(j - 1) + 1]@ == selected@[j - 1]@);
                    assert(entries_view(selected@)[j - 1] == selected@[j - 1]@);
                } else {
                }
            }
        }
    }
    SplitPiece { file_name: string_of(&file_name), entries: out }
}

/// Splits the scene: one project per top-level content element (anything but
/// `<media>` and `<bookmark>`), in document order.
pub fn split_scene(doc: &SceneXml, entries: &Vec<ArchiveEntry>) -> (r: Vec<SplitPiece>)
    ensures
        r@.len() == content_elements(doc@.children).len(),
        forall|k: int|
            0 <= k < r@.len() ==> #[trigger] r@[k]@ == split_piece(doc@, entries_view(entries@), k),
{
    let idx = content_indices(&doc.children);
    let medias = media_infos(&doc.children);
    proof {
        assert(doc@.children == doc.children@.map_values(|e: XmlElement| e@));
    }
    let mut out: Vec<SplitPiece> = Vec::new();
    let mut k: usize = 0;
    while k < idx.len()
        invariant
            0 <= k <= idx.len(),
            doc@.children == doc.children@.map_values(|e: XmlElement| e@),
            idx@.len() == content_elements(doc@.children).len(),
            forall|k2: int|
                0 <= k2 < idx@.len() ==> #[trigger] idx@[k2] < doc.children@.len()
                    && doc.children@[idx@[k2] as int]@ == content_elements(doc@.children)[k2],
            medias@.len() == media_elements(doc@.children).len(),
            forall|j: int|
                0 <= j < medias@.len() ==> {
                    let m = media_ref(media_elements(doc@.children)[j]);
                    &&& #[trigger] medias@[j].index < doc.children@.len()
                    &&& medias@[j].sig@ == m.sig
                    &&& medias@[j].asset@ == m.asset
                    &&& doc.children@[medias@[j].index as int].source@ == m.source
                },
            out@.len() == k,
            forall|k2: int|
                0 <= k2 < k ==> #[trigger] out@[k2]@ == split_piece(doc@, entries_view(entries@), k2),
        decreases idx.len() - k,
    {
        proof {
            assert(doc@.children[idx@[k as int] as int] == doc.children@[idx@[k as int] as int]@);
        }
        let piece = build_piece(doc, entries, &medias, idx[k], k);
        out.push(piece);
        k += 1;
    }
    out
}

/// Splits an amproj archive (given by its entries) into one project per
/// top-level content element; fails as `scene_load` says when the archive has
/// no XML, the XML does not parse, or its root is not `<scene>`.
pub fn split_amproj(entries: &Vec<ArchiveEntry>) -> (r: Result<Vec<SplitPiece>, String>)
    ensures
        match r {
            Ok(pieces) => match scene_load(entries_view(entries@)) {
                Ok(doc) => pieces@.len() == content_elements(doc.children).len() && forall|k: int|
                    0 <= k < pieces@.len() ==> #[trigger] pieces@[k]@ == split_piece(
                        doc,
                        entries_view(entries@),
                        k,
                    ),
                Err(_) => false,
            },
            Err(e) => scene_load(entries_view(entries@)) == Err::<SceneModel, Seq<char>>(e@),
        },
{
    let doc = load_scene(entries)?;
    Ok(split_scene(&doc, entries))
}

} // verus!
