//! Fixing resource URIs: every `amproj:{file}` reference becomes
//! `am:{hash}.{ext}` using the hash that `manifest.txt` gives for the file, so
//! that importing the project needs no URI remapping.

use vstd::prelude::*;
use crate::text::{
    chars_eq, chars_of, find, find_from, find_from_exec, is_white_space, lines, lines_exec,
    contains, matches_at, matches_at_exec, push_all, push_str, slice_chars, string_of, trim,
    trim_exec, run_until, lemma_run_until, count_char,
};
use crate::split::copy_entry;
use crate::amproj::{scene_title_capture, scene_title_group};
use crate::paths::{extension, extension_exec, file_stem, file_stem_exec, join, join_exec};
use crate::xml::{
    decode_utf8_lossy, entries_view, last_xml_entry, last_xml_entry_exec, no_xml_message,
    sanitize_chars, sanitize_dirname_spec, str_eq, unicode_alphanumeric, utf8_bytes, utf8_lossy, ArchiveEntry,
};
use vstd::utf8::encode_utf8;

verus! {

// ---------------------------------------------------------------------------
// manifest.txt
// ---------------------------------------------------------------------------

/// The (file name, SHA1) pair a manifest line declares: in `sha1:file` and in
/// `sha1:proxy:file` (where the file name may itself hold `:`) the SHA1 is
/// the first field; a blank line or one without `:` declares nothing.
pub open spec fn manifest_entry(line: Seq<char>) -> Option<(Seq<char>, Seq<char>)> {
    let t = trim(line);
    if t.len() == 0 {
        None
    } else {
        match find(t, ":"@) {
            None => None,
            Some(a) => match find_from(t, ":"@, a + 1) {
                None => Some((t.skip(a + 1), t.take(a))),
                Some(b) => Some((t.skip(b + 1), t.take(a))),
            },
        }
    }
}

/// The pairs declared by the lines, in order.
pub open spec fn manifest_pairs(lines: Seq<Seq<char>>) -> Seq<(Seq<char>, Seq<char>)>
    decreases lines.len(),
{
    if lines.len() == 0 {
        seq![]
    } else {
        match manifest_entry(lines.last()) {
            Some(p) => manifest_pairs(lines.drop_last()).push(p),
            None => manifest_pairs(lines.drop_last()),
        }
    }
}

/// The map from file name to hash made by inserting the pairs in order (a
/// later pair for the same file replaces an earlier one).
pub open spec fn pairs_map(pairs: Seq<(Seq<char>, Seq<char>)>) -> Map<Seq<char>, Seq<char>>
    decreases pairs.len(),
{
    if pairs.len() == 0 {
        Map::empty()
    } else {
        pairs_map(pairs.drop_last()).insert(pairs.last().0, pairs.last().1)
    }
}

/// The file-name-to-hash map of a manifest text.
pub open spec fn manifest_map(text: Seq<char>) -> Map<Seq<char>, Seq<char>> {
    pairs_map(manifest_pairs(lines(text)))
}

/// The parsed `manifest.txt`: the declared pairs in order.
pub struct Manifest {
    pub pairs: Vec<(String, String)>,
}

impl View for Manifest {
    type V = Map<Seq<char>, Seq<char>>;

    open spec fn view(&self) -> Map<Seq<char>, Seq<char>> {
        pairs_map(self.pairs@.map_values(|p: (String, String)| (p.0@, p.1@)))
    }
}

/// The pair a manifest line declares.
fn manifest_entry_exec(line: &Vec<char>) -> (r: Option<(Vec<char>, Vec<char>)>)
    ensures
        match r {
            Some(p) => manifest_entry(line@) == Some((p.0@, p.1@)),
            None => manifest_entry(line@) is None,
        },
{
    proof {
        reveal_strlit(":");
    }
    let t = trim_exec(line);
    if t.len() == 0 {
        return None;
    }
    let colon = chars_of(":");
    let a = match find_from_exec(&t, &colon, 0) {
        Some(a) => a,
        None => return None,
    };
    proof {
        crate::text::lemma_find_from_some(t@, colon@, 0);
    }
    match find_from_exec(&t, &colon, a + 1) {
        None => {
            let file = slice_chars(&t, a + 1, t.len());
            let hash = slice_chars(&t, 0, a);
            proof {
                assert(file@ == t@.skip(a + 1));
                assert(hash@ == t@.take(a as int));
            }
            Some((file, hash))
        },
        Some(b) => {
            proof {
                crate::text::lemma_find_from_some(t@, colon@, a + 1);
            }
            let file = slice_chars(&t, b + 1, t.len());
            let hash = slice_chars(&t, 0, a);
            proof {
                assert(file@ == t@.skip(b + 1));
                assert(hash@ == t@.take(a as int));
            }
            Some((file, hash))
        },
    }
}

/// Parses `manifest.txt` (`sha1:file` or `sha1:proxy:file` per line) into the
/// map from file name to SHA1.
pub fn parse_manifest(text: &str) -> (r: Manifest)
    ensures
        r@ == manifest_map(text@),
{
    let chars = chars_of(text);
    let ls = lines_exec(&chars);
    let ghost lv = lines(text@);
    let mut pairs: Vec<(String, String)> = Vec::new();
    let mut i: usize = 0;
    while i < ls.len()
        invariant
            0 <= i <= ls.len(),
            lv == lines(text@),
            ls@.len() == lv.len(),
            forall|k: int| 0 <= k < ls@.len() ==> #[trigger] ls@[k]@ == lv[k],
            pairs@.map_values(|p: (String, String)| (p.0@, p.1@)) == manifest_pairs(
                lv.take(i as int),
            ),
        decreases ls.len() - i,
    {
        proof {
            assert(lv.take(i + 1).drop_last() == lv.take(i as int));
            assert(lv.take(i + 1).last() == ls@[i as int]@);
        }
        match manifest_entry_exec(&ls[i]) {
            Some(p) => {
                let ghost before = pairs@.map_values(|p: (String, String)| (p.0@, p.1@));
                pairs.push((string_of(&p.0), string_of(&p.1)));
                proof {
                    assert(pairs@.map_values(|p: (String, String)| (p.0@, p.1@)) =~= before.push(
                        (p.0@, p.1@),
                    ));
                }
            },
            None => {},
        }
        i += 1;
    }
    proof {
        assert(lv.take(ls.len() as int) == lv);
    }
    Manifest { pairs }
}

/// The hash the manifest gives for `file`.
pub fn manifest_lookup(m: &Manifest, file: &Vec<char>) -> (r: Option<Vec<char>>)
    ensures
        match r {
            Some(h) => m@.contains_key(file@) && m@[file@] == h@,
            None => !m@.contains_key(file@),
        },
{
    let ghost pv = m.pairs@.map_values(|p: (String, String)| (p.0@, p.1@));
    let mut i = m.pairs.len();
    proof {
        assert(pv.take(i as int) == pv);
    }
    while i > 0
        invariant
            0 <= i <= m.pairs.len(),
            pv == m.pairs@.map_values(|p: (String, String)| (p.0@, p.1@)),
            forall|k: Seq<char>|
                #[trigger] pairs_map(pv).contains_key(k) && k == file@ ==> pairs_map(pv.take(i as int)).contains_key(k)
                    && pairs_map(pv)[k] == pairs_map(pv.take(i as int))[k],
            !pairs_map(pv).contains_key(file@) ==> !pairs_map(pv.take(i as int)).contains_key(file@),
            pairs_map(pv.take(i as int)).contains_key(file@) ==> pairs_map(pv).contains_key(file@),
        decreases i,
    {
        proof {
            assert(pv.take(i as int).drop_last() == pv.take(i - 1));
            assert(pv.take(i as int).last() == pv[i - 1]);
        }
        let name = chars_of(m.pairs[i - 1].0.as_str());
        if chars_eq(&name, file) {
            return Some(chars_of(m.pairs[i - 1].1.as_str()));
        }
        i -= 1;
    }
    proof {
        assert(pv.take(0) == Seq::<(Seq<char>, Seq<char>)>::empty());
    }
    None
}


// ---------------------------------------------------------------------------
// Rewriting resource URIs
// ---------------------------------------------------------------------------

/// The URI that replaces `amproj:{file}`: `am:{hash}.{ext}` (`am:{hash}` when
/// the file has no extension) when the manifest knows the file; otherwise
/// the URI stays `amproj:{file}`.
pub open spec fn fixed_uri(file: Seq<char>, m: Map<Seq<char>, Seq<char>>) -> Seq<char> {
    if m.contains_key(file) {
        match extension(file) {
            Some(e) => if e.len() > 0 {
                "am:"@ + m[file] + "."@ + e
            } else {
                "am:"@ + m[file]
            },
            None => "am:"@ + m[file],
        }
    } else {
        "amproj:"@ + file
    }
}

/// The fixed URI for `file`.
fn fixed_uri_exec(file: &Vec<char>, m: &Manifest) -> (r: Vec<char>)
    ensures
        r@ == fixed_uri(file@, m@),
{
    match manifest_lookup(m, file) {
        Some(hash) => {
            let mut out = chars_of("am:");
            push_all(&mut out, &hash);
            match extension_exec(file) {
                Some(e) => {
                    if e.len() > 0 {
                        push_str(&mut out, ".");
                        push_all(&mut out, &e);
                    }
                },
                None => {},
            }
            out
        },
        None => {
            let mut out = chars_of("amproj:");
            push_all(&mut out, file);
            out
        },
    }
}

/// The text that replaces a match of `amproj:([^"]+)` whose group is `file`.
pub fn uri_replacement(m: &Manifest, file: &str) -> (r: String)
    ensures
        r@ == fixed_uri(file@, m@),
{
    let f = chars_of(file);
    let u = fixed_uri_exec(&f, m);
    string_of(&u)
}

/// `s` with every match of `amproj:([^"]+)`, taken from left to right without
/// overlap, replaced by the fixed URI of its group: a match is `amproj:`, one
/// character that is not `"`, and the rest up to the next `"` (or the end),
/// since `[^"]+` is greedy and cannot pass a `"`.
pub open spec fn amproj_uris_replaced(s: Seq<char>, m: Map<Seq<char>, Seq<char>>) -> Seq<char>
    decreases s.len(),
{
    if s.len() == 0 {
        seq![]
    } else if s.len() > 7 && s.take(7) == "amproj:"@ && s[7] != '"' {
        let e = run_until(s, 7, '"');
        proof {
            lemma_run_until(s, 7, '"');
        }
        fixed_uri(s.subrange(7, e), m) + amproj_uris_replaced(s.skip(e), m)
    } else {
        seq![s[0]] + amproj_uris_replaced(s.drop_first(), m)
    }
}

/// `Regex::replace_all` of `amproj:([^"]+)` on `xml`, each match replaced by
/// `uri_replacement(m, group)`, whose text is `fixed_uri(group, m@)`:
/// `replace_all` replaces the leftmost non-overlapping matches and keeps the
/// text between them, which `amproj_uris_replaced` states.
#[verifier::external_body]
fn replace_amproj_uris(xml: &str, m: &Manifest) -> (r: String)
    ensures
        r@ == amproj_uris_replaced(xml@, m@),
{
    regex::Regex::new(r#"amproj:([^"]+)"#)
        .unwrap()
        .replace_all(xml, |c: &regex::Captures| uri_replacement(m, &c[1]))
        .to_string()
}

/// Replaces every `amproj:{file}` URI of `xml` by `am:{hash}.{ext}`, using
/// the manifest's hash for the file (see `fixed_uri`); URIs of files it does
/// not list stay, and a text without `amproj:` is left as it is.
pub fn rewrite_to_am_direct(xml: &str, m: &Manifest) -> (r: String)
    ensures
        r@ == amproj_uris_replaced(xml@, m@),
        !contains(xml@, "amproj:"@) ==> r@ == xml@,
{
    let r = replace_amproj_uris(xml, m);
    proof {
        if !contains(xml@, "amproj:"@) {
            law_rewrite_without_uris(xml@, m@);
        }
    }
    r
}

/// A rewrite is the identity when there is nothing to rewrite: a text with no
/// `amproj:` in it is left as it is.
pub proof fn law_rewrite_without_uris(s: Seq<char>, m: Map<Seq<char>, Seq<char>>)
    requires
        !contains(s, "amproj:"@),
    ensures
        amproj_uris_replaced(s, m) == s,
    decreases s.len(),
{
    reveal_strlit("amproj:");
    if s.len() > 0 {
        if s.len() > 7 && s.take(7) == "amproj:"@ {
            assert(s.subrange(0, 7) == s.take(7));
            assert(matches_at(s, 0, "amproj:"@));
        }
        if contains(s.drop_first(), "amproj:"@) {
            let p = choose|p: int| matches_at(s.drop_first(), p, "amproj:"@);
            assert(s.drop_first().subrange(p, p + 7) == s.subrange(p + 1, p + 8));
            assert(matches_at(s, p + 1, "amproj:"@));
        }
        law_rewrite_without_uris(s.drop_first(), m);
        assert(seq![s[0]] + s.drop_first() == s);
    }
}

// ---------------------------------------------------------------------------
// Fixing a project
// ---------------------------------------------------------------------------

/// The project's name: its sanitized scene title when non-empty, else the
/// sanitized file stem of `input_path`, else `unknown`.
pub open spec fn project_name(xml: Seq<char>, input_path: Seq<char>) -> Seq<char> {
    match scene_title_group(xml) {
        Some(t) if t.len() > 0 => sanitize_dirname_spec(t),
        _ => match file_stem(input_path) {
            Some(stem) => sanitize_dirname_spec(stem),
            None => "unknown"@,
        },
    }
}

/// A titled project's name keeps the title's dots: it holds exactly as many
/// `.` as the scene title it is made from, and otherwise only letters,
/// digits, `-` and `_`.
pub proof fn law_project_name_keeps_title_dots(xml: Seq<char>, input_path: Seq<char>, t: Seq<char>)
    requires
        scene_title_group(xml) == Some(t),
        t.len() > 0,
    ensures
        count_char(project_name(xml, input_path), '.') == count_char(t, '.'),
        forall|i: int|
            0 <= i < project_name(xml, input_path).len() ==> {
                let c = #[trigger] project_name(xml, input_path)[i];
                unicode_alphanumeric(c) || c == '-' || c == '_' || c == '.'
            },
{
    crate::xml::law_dirname_keeps_dots(t);
    crate::xml::law_sanitized_dirname_chars(t);
}

/// An untitled project's name keeps the dots of its file's stem.
pub proof fn law_project_name_keeps_stem_dots(xml: Seq<char>, input_path: Seq<char>, stem: Seq<char>)
    requires
        scene_title_group(xml) is None || scene_title_group(xml) == Some(Seq::<char>::empty()),
        file_stem(input_path) == Some(stem),
    ensures
        count_char(project_name(xml, input_path), '.') == count_char(stem, '.'),
{
    crate::xml::law_dirname_keeps_dots(stem);
}

/// The project's name from its XML title or its file name (see `project_name`).
pub fn extract_project_name(xml: &str, input_path: &str) -> (r: String)
    ensures
        r@ == project_name(xml@, input_path@),
{
    match scene_title_capture(xml) {
        Some(t) => {
            if !t.as_str().is_empty() {
                let n = sanitize_chars(&chars_of(t.as_str()), true);
                return string_of(&n);
            }
        },
        None => {},
    }
    let p = chars_of(input_path);
    match file_stem_exec(&p) {
        Some(stem) => {
            let n = sanitize_chars(&stem, true);
            string_of(&n)
        },
        None => String::from_str("unknown"),
    }
}

/// What a fix reads from the archive: the XML entry's name and text, and the
/// project's name.
pub struct FixSource {
    pub xml_name: String,
    pub xml: String,
    pub project_name: String,
}

/// The fix source of an archive: the last `.xml` entry (which must decode to
/// a non-empty text) and the project's name.
pub open spec fn fix_source(entries: Seq<(Seq<char>, Seq<u8>)>, input_path: Seq<char>) -> Option<
    (Seq<char>, Seq<char>, Seq<char>),
> {
    match last_xml_entry(entries) {
        Some(i) => {
            let xml = utf8_lossy(entries[i].1);
            if xml.len() == 0 {
                None
            } else {
                Some((entries[i].0, xml, project_name(xml, input_path)))
            }
        },
        None => None,
    }
}

/// Reads the XML entry of an archive and names the project.
pub fn prepare_fix(entries: &Vec<ArchiveEntry>, input_path: &str) -> (r: Result<FixSource, String>)
    ensures
        match r {
            Ok(src) => fix_source(entries_view(entries@), input_path@) == Some(
                (src.xml_name@, src.xml@, src.project_name@),
            ),
            Err(e) => fix_source(entries_view(entries@), input_path@) is None && e@
                == no_xml_message(),
        },
{
    match last_xml_entry_exec(entries) {
        Some(i) => {
            let xml = decode_utf8_lossy(&entries[i].data);
            if xml.as_str().is_empty() {
                return Err(String::from_str("amproj 中未找到 XML 文件"));
            }
            let name = extract_project_name(xml.as_str(), input_path);
            Ok(FixSource { xml_name: entries[i].name.clone(), xml, project_name: name })
        },
        None => Err(String::from_str("amproj 中未找到 XML 文件")),
    }
}

/// Result of a fix: where the fixed project is written.
pub struct FixResult {
    pub output_amproj: String,
}

/// A fixed project to write: its path and its archive entries.
pub struct FixPlan {
    pub result: FixResult,
    pub entries: Vec<ArchiveEntry>,
}

/// Index of the first entry named `manifest.txt`.
pub open spec fn manifest_entry_index(entries: Seq<(Seq<char>, Seq<u8>)>) -> Option<int>
    decreases entries.len(),
{
    if entries.len() == 0 {
        None
    } else if entries[0].0 == "manifest.txt"@ {
        Some(0)
    } else {
        match manifest_entry_index(entries.drop_first()) {
            Some(i) => Some(i + 1),
            None => None,
        }
    }
}

/// The entries of the fixed archive: those named like the XML entry hold the
/// rewritten XML, the others are kept.
pub open spec fn fixed_entries(
    entries: Seq<(Seq<char>, Seq<u8>)>,
    xml_name: Seq<char>,
    new_xml: Seq<char>,
) -> Seq<(Seq<char>, Seq<u8>)> {
    entries.map_values(
        |e: (Seq<char>, Seq<u8>)|
            if e.0 == xml_name {
                (e.0, encode_utf8(new_xml))
            } else {
                e
            },
    )
}

/// A fix keeps every entry of the archive, in order and under its name; only
/// the entries named like the XML entry get new bytes (the rewritten XML), so
/// every embedded resource stays as it was.
pub proof fn law_fix_keeps_entries(
    entries: Seq<(Seq<char>, Seq<u8>)>,
    xml_name: Seq<char>,
    new_xml: Seq<char>,
)
    ensures
        fixed_entries(entries, xml_name, new_xml).len() == entries.len(),
        forall|i: int|
            0 <= i < entries.len() ==> (#[trigger] fixed_entries(entries, xml_name, new_xml)[i]).0
                == entries[i].0,
        forall|i: int|
            0 <= i < entries.len() && entries[i].0 != xml_name ==> #[trigger] fixed_entries(
                entries,
                xml_name,
                new_xml,
            )[i] == entries[i],
        forall|i: int|
            0 <= i < entries.len() && entries[i].0 == xml_name ==> (#[trigger] fixed_entries(
                entries,
                xml_name,
                new_xml,
            )[i]).1 == encode_utf8(new_xml),
{
}

/// The fix of an archive whose XML was read into `src`, written into
/// `output_dir`: the output path `{output_dir}/{project}_fixed.amproj` and the
/// entries with the XML's URIs rewritten by the first `manifest.txt`; `None`
/// when there is no manifest.
pub open spec fn fix_plan(
    src: (Seq<char>, Seq<char>, Seq<char>),
    entries: Seq<(Seq<char>, Seq<u8>)>,
    output_dir: Seq<char>,
) -> Option<(Seq<char>, Seq<(Seq<char>, Seq<u8>)>)> {
    match manifest_entry_index(entries) {
        None => None,
        Some(k) => {
            let m = manifest_map(utf8_lossy(entries[k].1));
            Some(
                (
                    join(output_dir, src.2 + "_fixed.amproj"@),
                    fixed_entries(entries, src.0, amproj_uris_replaced(src.1, m)),
                ),
            )
        },
    }
}

/// Index of the first entry named `manifest.txt`.
fn manifest_entry_index_exec(entries: &Vec<ArchiveEntry>) -> (r: Option<usize>)
    ensures
        match r {
            Some(k) => k < entries.len() && manifest_entry_index(entries_view(entries@)) == Some(
                k as int,
            ),
            None => manifest_entry_index(entries_view(entries@)) is None,
        },
{
    let ghost ev = entries_view(entries@);
    let mut i: usize = 0;
    proof {
        assert(ev.skip(0) == ev);
    }
    while i < entries.len()
        invariant
            0 <= i <= entries.len(),
            ev == entries_view(entries@),
            manifest_entry_index(ev) == match manifest_entry_index(ev.skip(i as int)) {
                Some(j) => Some(j + i),
                None => None::<int>,
            },
        decreases entries.len() - i,
    {
        proof {
            assert(ev.skip(i as int).drop_first() == ev.skip(i + 1));
            assert(ev.skip(i as int)[0] == entries@[i as int]@);
        }
        if str_eq(entries[i].name.as_str(), "manifest.txt") {
            return Some(i);
        }
        i += 1;
    }
    None
}

/// Fixes the resource URIs of a project (see `fix_plan`), failing when the
/// archive holds no `manifest.txt`.
pub fn fix_amproj(src: &FixSource, entries: &Vec<ArchiveEntry>, output_dir: &str) -> (r: Result<
    FixPlan,
    String,
>)
    ensures
        match r {
            Ok(plan) => fix_plan(
                (src.xml_name@, src.xml@, src.project_name@),
                entries_view(entries@),
                output_dir@,
            ) == Some((plan.result.output_amproj@, entries_view(plan.entries@))),
            Err(e) => fix_plan(
                (src.xml_name@, src.xml@, src.project_name@),
                entries_view(entries@),
                output_dir@,
            ) is None && e@ == "amproj 中未找到 manifest.txt"@,
        },
{
    let k = match manifest_entry_index_exec(entries) {
        Some(k) => k,
        None => return Err(String::from_str("amproj 中未找到 manifest.txt")),
    };
    let text = decode_utf8_lossy(&entries[k].data);
    let m = parse_manifest(text.as_str());
    let new_xml = rewrite_to_am_direct(src.xml.as_str(), &m);
    let new_bytes = crate::xml::utf8_bytes(&new_xml);
    let mut out: Vec<ArchiveEntry> = Vec::new();
    let ghost ev = entries_view(entries@);
    let mut i: usize = 0;
    while i < entries.len()
        invariant
            0 <= i <= entries.len(),
            ev == entries_view(entries@),
            new_bytes@ == encode_utf8(new_xml@),
            out@.len() == i,
            forall|j: int|
                0 <= j < i ==> #[trigger] out@[j]@ == (if ev[j].0 == src.xml_name@ {
                    (ev[j].0, encode_utf8(new_xml@))
                } else {
                    ev[j]
                }),
        decreases entries.len() - i,
    {
        if str_eq(entries[i].name.as_str(), src.xml_name.as_str()) {
            out.push(
                ArchiveEntry {
                    name: entries[i].name.clone(),
                    data: vstd::slice::slice_to_vec(new_bytes.as_slice()),
                },
            );
        } else {
            out.push(copy_entry(&entries[i]));
        }
        i += 1;
    }
    let dir = chars_of(output_dir);
    let mut file = chars_of(src.project_name.as_str());
    push_str(&mut file, "_fixed.amproj");
    let path = join_exec(&dir, &file);
    proof {
        assert(entries_view(out@) =~= fixed_entries(ev, src.xml_name@, new_xml@));
    }
    Ok(FixPlan { result: FixResult { output_amproj: string_of(&path) }, entries: out })
}

} // verus!
