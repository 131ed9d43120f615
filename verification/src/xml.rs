//! XML attribute escaping, file-name sanitizing, the plain model of a parsed
//! `.amproj` scene document, and loading that model from the archive entries.

use vstd::prelude::*;
use vstd::utf8::*;
use crate::text::{
    chars_eq, chars_of, count_char, is_white_space, lemma_trim_keeps_count, matches_at_exec,
    push_str, string_of, trim, trim_end, trim_exec, trim_start,
};

verus! {

// ---------------------------------------------------------------------------
// Attribute escaping
// ---------------------------------------------------------------------------

/// The escaped form of one character in an attribute value.
pub open spec fn escape_char(c: char) -> Seq<char> {
    if c == '&' {
        seq!['&', 'a', 'm', 'p', ';']
    } else if c == '"' {
        seq!['&', 'q', 'u', 'o', 't', ';']
    } else if c == '<' {
        seq!['&', 'l', 't', ';']
    } else if c == '>' {
        seq!['&', 'g', 't', ';']
    } else {
        seq![c]
    }
}

/// `s` with `&`, `"`, `<` and `>` replaced by their entities.
pub open spec fn escape_xml(s: Seq<char>) -> Seq<char>
    decreases s.len(),
{
    if s.len() == 0 {
        seq![]
    } else {
        escape_xml(s.drop_last()) + escape_char(s.last())
    }
}

/// `s` with the entities `&amp;`, `&quot;`, `&lt;` and `&gt;` decoded,
/// read from left to right.
pub open spec fn unescape_xml(s: Seq<char>) -> Seq<char>
    decreases s.len(),
{
    if s.len() == 0 {
        seq![]
    } else if s.len() >= 5 && s.take(5) == seq!['&', 'a', 'm', 'p', ';'] {
        seq!['&'] + unescape_xml(s.skip(5))
    } else if s.len() >= 6 && s.take(6) == seq!['&', 'q', 'u', 'o', 't', ';'] {
        seq!['"'] + unescape_xml(s.skip(6))
    } else if s.len() >= 4 && s.take(4) == seq!['&', 'l', 't', ';'] {
        seq!['<'] + unescape_xml(s.skip(4))
    } else if s.len() >= 4 && s.take(4) == seq!['&', 'g', 't', ';'] {
        seq!['>'] + unescape_xml(s.skip(4))
    } else {
        seq![s[0]] + unescape_xml(s.drop_first())
    }
}

/// Escapes `&`, `"`, `<` and `>` for use inside a double-quoted attribute.
pub fn escape_xml_attr(s: &str) -> (r: String)
    ensures
        r@ == escape_xml(s@),
{
    let v = chars_of(s);
    let r = escape_chars(&v);
    string_of(&r)
}

/// Escapes `&`, `"`, `<` and `>` in a character vector.
pub fn escape_chars(v: &Vec<char>) -> (r: Vec<char>)
    ensures
        r@ == escape_xml(v@),
{
    let mut r: Vec<char> = Vec::new();
    let mut i: usize = 0;
    while i < v.len()
        invariant
            0 <= i <= v.len(),
            r@ == escape_xml(v@.take(i as int)),
        decreases v.len() - i,
    {
        let c = v[i];
        proof {
            assert(v@.take(i + 1).drop_last() == v@.take(i as int));
        }
        if c == '&' {
            r.push('&');
            r.push('a');
            r.push('m');
            r.push('p');
            r.push(';');
        } else if c == '"' {
            r.push('&');
            r.push('q');
            r.push('u');
            r.push('o');
            r.push('t');
            r.push(';');
        } else if c == '<' {
            r.push('&');
            r.push('l');
            r.push('t');
            r.push(';');
        } else if c == '>' {
            r.push('&');
            r.push('g');
            r.push('t');
            r.push(';');
        } else {
            r.push(c);
        }
        proof {
            assert(r@ == escape_xml(v@.take(i as int)) + escape_char(c));
        }
        i += 1;
    }
    proof {
        assert(v@.take(v.len() as int) == v@);
    }
    r
}

proof fn lemma_escape_front(s: Seq<char>)
    requires
        s.len() > 0,
    ensures
        escape_xml(s) == escape_char(s[0]) + escape_xml(s.drop_first()),
    decreases s.len(),
{
    if s.len() == 1 {
        assert(s.drop_last().len() == 0);
        assert(s.drop_first().len() == 0);
        assert(escape_xml(s.drop_last()) == Seq::<char>::empty());
        assert(escape_xml(s.drop_first()) == Seq::<char>::empty());
    } else {
        lemma_escape_front(s.drop_last());
        assert(s.drop_last().drop_first() == s.drop_first().drop_last());
        assert(s.drop_first().last() == s.last());
    }
}

proof fn lemma_unescape_after_escape_char(c: char, rest: Seq<char>)
    ensures
        unescape_xml(escape_char(c) + rest) == seq![c] + unescape_xml(rest),
{
    let e = escape_char(c) + rest;
    if c == '&' {
        assert(e.take(5) == seq!['&', 'a', 'm', 'p', ';']);
        assert(e.skip(5) == rest);
    } else if c == '"' {
        assert(e.take(5) != seq!['&', 'a', 'm', 'p', ';']) by {
            assert(e.take(5)[1] == 'q');
        }
        assert(e.take(6) == seq!['&', 'q', 'u', 'o', 't', ';']);
        assert(e.skip(6) == rest);
    } else if c == '<' {
        if e.len() >= 5 {
            assert(e.take(5)[1] == 'l');
        }
        if e.len() >= 6 {
            assert(e.take(6)[1] == 'l');
        }
        assert(e.take(4) == seq!['&', 'l', 't', ';']);
        assert(e.skip(4) == rest);
    } else if c == '>' {
        if e.len() >= 5 {
            assert(e.take(5)[1] == 'g');
        }
        if e.len() >= 6 {
            assert(e.take(6)[1] == 'g');
        }
        assert(e.take(4)[1] == 'g');
        assert(e.take(4) == seq!['&', 'g', 't', ';']);
        assert(e.skip(4) == rest);
    } else {
        if e.len() >= 4 {
            assert(e.take(4)[0] == c);
        }
        if e.len() >= 5 {
            assert(e.take(5)[0] == c);
        }
        if e.len() >= 6 {
            assert(e.take(6)[0] == c);
        }
        assert(e.drop_first() == rest);
    }
}

/// Escaping loses nothing: decoding the entities of an escaped value gives
/// back the value.
pub proof fn law_unescape_escape(s: Seq<char>)
    ensures
        unescape_xml(escape_xml(s)) == s,
    decreases s.len(),
{
    if s.len() == 0 {
    } else {
        lemma_escape_front(s);
        lemma_unescape_after_escape_char(s[0], escape_xml(s.drop_first()));
        law_unescape_escape(s.drop_first());
        assert(seq![s[0]] + s.drop_first() == s);
    }
}

/// An escaped value holds no `"`, `<` or `>`, so it can stand inside a
/// double-quoted attribute without ending it or opening a tag.
pub proof fn law_escape_has_no_delimiters(s: Seq<char>)
    ensures
        forall|i: int|
            0 <= i < escape_xml(s).len() ==> #[trigger] escape_xml(s)[i] != '"' && escape_xml(
                s,
            )[i] != '<' && escape_xml(s)[i] != '>',
    decreases s.len(),
{
    if s.len() > 0 {
        law_escape_has_no_delimiters(s.drop_last());
        let a = escape_xml(s.drop_last());
        let b = escape_char(s.last());
        assert forall|i: int| 0 <= i < (a + b).len() implies #[trigger] (a + b)[i] != '"' && (a
            + b)[i] != '<' && (a + b)[i] != '>' by {
            if i < a.len() {
                assert((a + b)[i] == a[i]);
            } else {
                assert((a + b)[i] == b[i - a.len()]);
            }
        }
    }
}

/// A value without `&`, `"`, `<` and `>` is its own escaped form.
pub proof fn law_escape_keeps_plain_text(s: Seq<char>)
    requires
        forall|i: int|
            0 <= i < s.len() ==> #[trigger] s[i] != '&' && s[i] != '"' && s[i] != '<' && s[i]
                != '>',
    ensures
        escape_xml(s) == s,
    decreases s.len(),
{
    if s.len() > 0 {
        assert(s.last() == s[s.len() - 1]);
        law_escape_keeps_plain_text(s.drop_last());
        assert(s.drop_last().push(s.last()) == s);
    }
}

/// `s` with every occurrence of `pat`, found from left to right without
/// overlap, replaced by `rep` (`str::replace`).
pub open spec fn replace_text(s: Seq<char>, pat: Seq<char>, rep: Seq<char>) -> Seq<char>
    decreases s.len(),
{
    if s.len() == 0 {
        seq![]
    } else if pat.len() > 0 && s.len() >= pat.len() && s.take(pat.len() as int) == pat {
        rep + replace_text(s.skip(pat.len() as int), pat, rep)
    } else {
        seq![s[0]] + replace_text(s.drop_first(), pat, rep)
    }
}

/// The usual way to decode an attribute value: replace `&quot;`, `&lt;` and
/// `&gt;`, then `&amp;`, each over the whole text in turn.
pub open spec fn decode_by_replacing(s: Seq<char>) -> Seq<char> {
    replace_text(
        replace_text(
            replace_text(
                replace_text(s, seq!['&', 'q', 'u', 'o', 't', ';'], seq!['"']),
                seq!['&', 'l', 't', ';'],
                seq!['<'],
            ),
            seq!['&', 'g', 't', ';'],
            seq!['>'],
        ),
        seq!['&', 'a', 'm', 'p', ';'],
        seq!['&'],
    )
}

/// The entity decoded in replacing step `k` and the character it stands for.
spec fn step_entity(k: int) -> (Seq<char>, char) {
    if k == 0 {
        (seq!['&', 'q', 'u', 'o', 't', ';'], '"')
    } else if k == 1 {
        (seq!['&', 'l', 't', ';'], '<')
    } else if k == 2 {
        (seq!['&', 'g', 't', ';'], '>')
    } else {
        (seq!['&', 'a', 'm', 'p', ';'], '&')
    }
}

/// `c` is back to itself after `k` replacing steps.
spec fn decoded_after(c: char, k: int) -> bool {
    (c == '"' && k >= 1) || (c == '<' && k >= 2) || (c == '>' && k >= 3) || (c == '&' && k >= 4)
}

/// An escaped value after `k` replacing steps, character by character.
spec fn escaped_after(s: Seq<char>, k: int) -> Seq<char>
    decreases s.len(),
{
    if s.len() == 0 {
        seq![]
    } else {
        (if decoded_after(s[0], k) {
            seq![s[0]]
        } else {
            escape_char(s[0])
        }) + escaped_after(s.drop_first(), k)
    }
}

proof fn lemma_escaped_after_ends(s: Seq<char>)
    ensures
        escaped_after(s, 0) == escape_xml(s),
        escaped_after(s, 4) == s,
    decreases s.len(),
{
    if s.len() > 0 {
        lemma_escape_front(s);
        lemma_escaped_after_ends(s.drop_first());
        assert(seq![s[0]] + s.drop_first() == s);
    }
}

/// Replacing an entity (which starts with `&`) leaves a text without `&` as
/// it is.
proof fn lemma_replace_skips_plain(t: Seq<char>, rest: Seq<char>, pat: Seq<char>, rep: Seq<char>)
    requires
        pat.len() > 0,
        pat[0] == '&',
        forall|i: int| 0 <= i < t.len() ==> #[trigger] t[i] != '&',
    ensures
        replace_text(t + rest, pat, rep) == t + replace_text(rest, pat, rep),
    decreases t.len(),
{
    if t.len() == 0 {
        assert(t + rest == rest);
    } else {
        let u = t + rest;
        assert(u[0] == t[0]);
        if u.len() >= pat.len() {
            assert(u.take(pat.len() as int)[0] == t[0]);
        }
        assert(u.drop_first() == t.drop_first() + rest);
        lemma_replace_skips_plain(t.drop_first(), rest, pat, rep);
        assert(seq![t[0]] + t.drop_first() == t);
    }
}

/// Replacing step `k` turns the value after `k` steps into the value after
/// `k + 1` steps.
proof fn lemma_replace_step(s: Seq<char>, k: int)
    requires
        0 <= k < 4,
    ensures
        replace_text(escaped_after(s, k), step_entity(k).0, seq![step_entity(k).1])
            == escaped_after(s, k + 1),
    decreases s.len(),
{
    let pat = step_entity(k).0;
    let rep = seq![step_entity(k).1];
    if s.len() > 0 {
        let c = s[0];
        let rest = escaped_after(s.drop_first(), k);
        lemma_replace_step(s.drop_first(), k);
        if decoded_after(c, k) || !is_entity_char(c) {
            let t = seq![c];
            assert(escaped_after(s, k) == t + rest);
            lemma_replace_skips_plain(t, rest, pat, rep);
        } else if c == step_entity(k).1 {
            let u = pat + rest;
            assert(escaped_after(s, k) == u);
            assert(u.take(pat.len() as int) == pat);
            assert(u.skip(pat.len() as int) == rest);
        } else {
            let e = escape_char(c);
            let u = e + rest;
            assert(escaped_after(s, k) == u);
            assert(u[1] == e[1]);
            if u.len() >= pat.len() {
                assert(u.take(pat.len() as int)[1] == u[1]);
            }
            assert(u.drop_first() == e.drop_first() + rest);
            lemma_replace_skips_plain(e.drop_first(), rest, pat, rep);
            assert(seq!['&'] + e.drop_first() == e);
        }
    }
}

/// The characters that escaping turns into entities.
pub open spec fn is_entity_char(c: char) -> bool {
    c == '&' || c == '"' || c == '<' || c == '>'
}

/// Escaping is also undone by the usual decoder that replaces `&quot;`,
/// `&lt;`, `&gt;` and last `&amp;` over the whole text.
pub proof fn law_decode_by_replacing_escape(s: Seq<char>)
    ensures
        decode_by_replacing(escape_xml(s)) == s,
{
    lemma_escaped_after_ends(s);
    lemma_replace_step(s, 0);
    lemma_replace_step(s, 1);
    lemma_replace_step(s, 2);
    lemma_replace_step(s, 3);
}

// ---------------------------------------------------------------------------
// File-name sanitizing
// ---------------------------------------------------------------------------

/// Unicode `Alphabetic || Numeric`, as `char::is_alphanumeric` decides it.
pub uninterp spec fn unicode_alphanumeric(c: char) -> bool;

/// `char::is_alphanumeric`. Its result is named `unicode_alphanumeric`.
#[verifier::external_body]
fn is_alphanumeric(c: char) -> (r: bool)
    ensures
        r == unicode_alphanumeric(c),
{
    c.is_alphanumeric()
}

/// A character kept as it is by the sanitizers (`.` only when `keep_dot`).
pub open spec fn name_char_kept(c: char, keep_dot: bool) -> bool {
    unicode_alphanumeric(c) || c == '-' || c == '_' || c == ' ' || (keep_dot && c == '.')
}

/// Each character not kept becomes `_`.
pub open spec fn sanitize_map(s: Seq<char>, keep_dot: bool) -> Seq<char> {
    s.map_values(|c: char| if name_char_kept(c, keep_dot) { c } else { '_' })
}

/// Each space becomes `_`.
pub open spec fn replace_spaces(s: Seq<char>) -> Seq<char> {
    s.map_values(|c: char| if c == ' ' { '_' } else { c })
}

/// The name-safe form of `s`: characters other than letters, digits, `-`, `_`
/// and space (and `.` when `keep_dot`) become `_`, surrounding white space is
/// removed and the remaining spaces become `_`.
pub open spec fn sanitize_spec(s: Seq<char>, keep_dot: bool) -> Seq<char> {
    replace_spaces(trim(sanitize_map(s, keep_dot)))
}

/// The name-safe form of `v` (see `sanitize_spec`).
pub fn sanitize_chars(v: &Vec<char>, keep_dot: bool) -> (r: Vec<char>)
    ensures
        r@ == sanitize_spec(v@, keep_dot),
{
    let mut m: Vec<char> = Vec::new();
    let mut i: usize = 0;
    while i < v.len()
        invariant
            0 <= i <= v.len(),
            m@ == sanitize_map(v@.take(i as int), keep_dot),
        decreases v.len() - i,
    {
        let c = v[i];
        let kept = is_alphanumeric(c) || c == '-' || c == '_' || c == ' ' || (keep_dot && c == '.');
        m.push(if kept { c } else { '_' });
        i += 1;
        proof {
            assert(sanitize_map(v@.take(i as int), keep_dot) =~= sanitize_map(
                v@.take(i - 1),
                keep_dot,
            ).push(if kept { c } else { '_' }));
        }
    }
    proof {
        assert(v@.take(v.len() as int) == v@);
    }
    let t = trim_exec(&m);
    let mut r: Vec<char> = Vec::new();
    let mut j: usize = 0;
    while j < t.len()
        invariant
            0 <= j <= t.len(),
            r@ == replace_spaces(t@.take(j as int)),
        decreases t.len() - j,
    {
        let c = t[j];
        r.push(if c == ' ' { '_' } else { c });
        j += 1;
        proof {
            assert(replace_spaces(t@.take(j as int)) =~= replace_spaces(t@.take(j - 1)).push(
                if c == ' ' { '_' } else { c },
            ));
        }
    }
    proof {
        assert(t@.take(t.len() as int) == t@);
    }
    r
}

proof fn lemma_sanitize_map_keeps_dots(s: Seq<char>)
    ensures
        count_char(sanitize_map(s, true), '.') == count_char(s, '.'),
    decreases s.len(),
{
    if s.len() > 0 {
        lemma_sanitize_map_keeps_dots(s.drop_last());
        assert(sanitize_map(s, true).drop_last() =~= sanitize_map(s.drop_last(), true));
    }
}

proof fn lemma_replace_spaces_keeps_dots(s: Seq<char>)
    ensures
        count_char(replace_spaces(s), '.') == count_char(s, '.'),
    decreases s.len(),
{
    if s.len() > 0 {
        lemma_replace_spaces_keeps_dots(s.drop_last());
        assert(replace_spaces(s).drop_last() =~= replace_spaces(s.drop_last()));
    }
}

/// The directory-name form keeps every `.`: it holds exactly as many dots as
/// the text it is made from.
pub proof fn law_dirname_keeps_dots(s: Seq<char>)
    ensures
        count_char(sanitize_dirname_spec(s), '.') == count_char(s, '.'),
{
    lemma_sanitize_map_keeps_dots(s);
    lemma_trim_keeps_count(sanitize_map(s, true), '.');
    lemma_replace_spaces_keeps_dots(trim(sanitize_map(s, true)));
}

/// The file-name-safe form of `s` (letters, digits, `-`, `_`).
pub open spec fn sanitize_filename_spec(s: Seq<char>) -> Seq<char> {
    sanitize_spec(s, false)
}

/// The directory-name-safe form of `s` (letters, digits, `-`, `_`, `.`).
pub open spec fn sanitize_dirname_spec(s: Seq<char>) -> Seq<char> {
    sanitize_spec(s, true)
}

/// Makes `s` safe as a file name: characters other than letters, digits, `-`,
/// `_` and space become `_`, the ends are trimmed and spaces become `_`.
pub fn sanitize_filename(s: &str) -> (r: String)
    ensures
        r@ == sanitize_filename_spec(s@),
{
    let v = chars_of(s);
    let r = sanitize_chars(&v, false);
    string_of(&r)
}

/// As `sanitize_filename`, but `.` is kept too.
pub fn sanitize_dirname(s: &str) -> (r: String)
    ensures
        r@ == sanitize_dirname_spec(s@),
{
    let v = chars_of(s);
    let r = sanitize_chars(&v, true);
    string_of(&r)
}

proof fn lemma_trim_start_shape(s: Seq<char>)
    ensures
        trim_start(s).len() == 0 || !is_white_space(trim_start(s)[0]),
        exists|a: int|
            0 <= a <= s.len() && trim_start(s) == s.subrange(a, s.len() as int),
    decreases s.len(),
{
    if s.len() > 0 && is_white_space(s[0]) {
        lemma_trim_start_shape(s.drop_first());
        let a = choose|a: int|
            0 <= a <= s.drop_first().len() && trim_start(s.drop_first())
                == s.drop_first().subrange(a, s.drop_first().len() as int);
        assert(s.drop_first().subrange(a, s.drop_first().len() as int) == s.subrange(
            a + 1,
            s.len() as int,
        ));
    } else {
        assert(s.subrange(0, s.len() as int) == s);
    }
}

proof fn lemma_trim_end_shape(s: Seq<char>)
    ensures
        trim_end(s).len() == 0 || !is_white_space(trim_end(s).last()),
        trim_end(s).len() <= s.len(),
        forall|i: int| 0 <= i < trim_end(s).len() ==> trim_end(s)[i] == s[i],
    decreases s.len(),
{
    if s.len() > 0 && is_white_space(s.last()) {
        lemma_trim_end_shape(s.drop_last());
        assert forall|i: int| 0 <= i < trim_end(s).len() implies trim_end(s)[i] == s[i] by {
            assert(trim_end(s)[i] == s.drop_last()[i]);
        }
    }
}

proof fn lemma_trim_shape(s: Seq<char>)
    ensures
        trim(s).len() == 0 || (!is_white_space(trim(s)[0]) && !is_white_space(trim(s).last())),
{
    lemma_trim_start_shape(s);
    lemma_trim_end_shape(trim_start(s));
}

proof fn lemma_trim_of_trimmed(s: Seq<char>)
    requires
        s.len() == 0 || (!is_white_space(s[0]) && !is_white_space(s.last())),
    ensures
        trim(s) == s,
{
}

/// Sanitizing is idempotent: a sanitized name is left as it is.
pub proof fn law_sanitize_idempotent(s: Seq<char>, keep_dot: bool)
    ensures
        sanitize_spec(sanitize_spec(s, keep_dot), keep_dot) == sanitize_spec(s, keep_dot),
{
    let m = sanitize_map(s, keep_dot);
    let t = trim(m);
    let u = replace_spaces(t);
    lemma_trim_shape(m);
    lemma_trim_start_shape(m);
    lemma_trim_end_shape(trim_start(m));
    let a = choose|a: int| 0 <= a <= m.len() && trim_start(m) == m.subrange(a, m.len() as int);
    assert forall|i: int| 0 <= i < t.len() implies name_char_kept(#[trigger] t[i], keep_dot) by {
        assert(t[i] == trim_start(m)[i]);
        assert(trim_start(m)[i] == m[i + a]);
    }
    assert forall|i: int| 0 <= i < u.len() implies name_char_kept(#[trigger] u[i], keep_dot)
        && u[i] != ' ' by {
        assert(name_char_kept(t[i], keep_dot));
    }
    assert(sanitize_map(u, keep_dot) =~= u);
    if u.len() > 0 {
        assert(u[0] == t[0]);
        assert(u.last() == t.last());
    }
    lemma_trim_of_trimmed(u);
    assert(replace_spaces(u) =~= u);
}

/// A sanitized file name holds only letters, digits, `-` and `_` (no path
/// separator and no space).
pub proof fn law_sanitized_filename_chars(s: Seq<char>)
    ensures
        forall|i: int|
            0 <= i < sanitize_filename_spec(s).len() ==> {
                let c = #[trigger] sanitize_filename_spec(s)[i];
                unicode_alphanumeric(c) || c == '-' || c == '_'
            },
{
    let m = sanitize_map(s, false);
    let t = trim(m);
    lemma_trim_start_shape(m);
    lemma_trim_end_shape(trim_start(m));
    let a = choose|a: int| 0 <= a <= m.len() && trim_start(m) == m.subrange(a, m.len() as int);
    assert forall|i: int| 0 <= i < t.len() implies name_char_kept(#[trigger] t[i], false) by {
        assert(t[i] == trim_start(m)[i]);
        assert(trim_start(m)[i] == m[i + a]);
    }
}

/// A directory-name-safe name holds only letters, digits, `-`, `_` and `.`.
pub proof fn law_sanitized_dirname_chars(s: Seq<char>)
    ensures
        forall|i: int|
            0 <= i < sanitize_dirname_spec(s).len() ==> {
                let c = #[trigger] sanitize_dirname_spec(s)[i];
                unicode_alphanumeric(c) || c == '-' || c == '_' || c == '.'
            },
{
    let m = sanitize_map(s, true);
    let t = trim(m);
    lemma_trim_start_shape(m);
    lemma_trim_end_shape(trim_start(m));
    let a = choose|a: int| 0 <= a <= m.len() && trim_start(m) == m.subrange(a, m.len() as int);
    assert forall|i: int| 0 <= i < t.len() implies name_char_kept(#[trigger] t[i], true) by {
        assert(t[i] == trim_start(m)[i]);
        assert(trim_start(m)[i] == m[i + a]);
    }
}

// ---------------------------------------------------------------------------
// The scene document model
// ---------------------------------------------------------------------------

/// An attribute: its local name, its (decoded) value, and whether its name is
/// in a namespace.
pub struct XmlAttr {
    pub name: String,
    pub value: String,
    pub in_namespace: bool,
}

/// An element: its local tag name, its source text, its own attributes in
/// document order, and the attributes of it and all its descendant elements in
/// document order.
pub struct XmlElement {
    pub tag: String,
    pub source: String,
    pub attrs: Vec<XmlAttr>,
    pub subtree_attrs: Vec<XmlAttr>,
}

/// A parsed document: the root element and its element children in order.
pub struct SceneXml {
    pub root: XmlElement,
    pub children: Vec<XmlElement>,
}

/// Mathematical form of `XmlAttr`.
pub struct AttrModel {
    pub name: Seq<char>,
    pub value: Seq<char>,
    pub in_namespace: bool,
}

/// Mathematical form of `XmlElement`.
pub struct ElementModel {
    pub tag: Seq<char>,
    pub source: Seq<char>,
    pub attrs: Seq<AttrModel>,
    pub subtree_attrs: Seq<AttrModel>,
}

/// Mathematical form of `SceneXml`.
pub struct SceneModel {
    pub root: ElementModel,
    pub children: Seq<ElementModel>,
}

impl View for XmlAttr {
    type V = AttrModel;

    open spec fn view(&self) -> AttrModel {
        AttrModel { name: self.name@, value: self.value@, in_namespace: self.in_namespace }
    }
}

impl View for XmlElement {
    type V = ElementModel;

    open spec fn view(&self) -> ElementModel {
        ElementModel {
            tag: self.tag@,
            source: self.source@,
            attrs: self.attrs@.map_values(|a: XmlAttr| a@),
            subtree_attrs: self.subtree_attrs@.map_values(|a: XmlAttr| a@),
        }
    }
}

impl View for SceneXml {
    type V = SceneModel;

    open spec fn view(&self) -> SceneModel {
        SceneModel { root: self.root@, children: self.children@.map_values(|e: XmlElement| e@) }
    }
}

/// A node of a parsed document, in document order: whether it is an element,
/// the index of its parent node, its local tag name, its source text and its
/// attributes in order.
pub struct XmlNode {
    pub is_element: bool,
    pub parent: Option<usize>,
    pub tag: String,
    pub source: String,
    pub attrs: Vec<XmlAttr>,
}

/// Mathematical form of `XmlNode`.
pub struct NodeModel {
    pub is_element: bool,
    pub parent: Option<int>,
    pub tag: Seq<char>,
    pub source: Seq<char>,
    pub attrs: Seq<AttrModel>,
}

/// The attributes as mathematical values.
pub open spec fn attrs_view(attrs: Seq<XmlAttr>) -> Seq<AttrModel> {
    attrs.map_values(|a: XmlAttr| a@)
}

impl View for XmlNode {
    type V = NodeModel;

    open spec fn view(&self) -> NodeModel {
        NodeModel {
            is_element: self.is_element,
            parent: match self.parent {
                Some(p) => Some(p as int),
                None => None,
            },
            tag: self.tag@,
            source: self.source@,
            attrs: attrs_view(self.attrs@),
        }
    }
}

/// The nodes as mathematical values.
pub open spec fn nodes_view(nodes: Seq<XmlNode>) -> Seq<NodeModel> {
    nodes.map_values(|n: XmlNode| n@)
}

/// The nodes of the document that `roxmltree::Document::parse` makes of
/// `text`, in document order starting with the document node, or the
/// parser's error message.
pub uninterp spec fn xml_nodes(text: Seq<char>) -> Result<Seq<NodeModel>, Seq<char>>;

/// The document node has an element child (the root element).
pub open spec fn has_root_element(nodes: Seq<NodeModel>) -> bool {
    exists|i: int| 0 <= i < nodes.len() && is_child_element(nodes, i, 0)
}

/// Parses `text` with `roxmltree::Document::parse` and lists its nodes
/// (`Document::descendants`, which walks them in document order with node
/// `i` at index `i`), each with its kind, its parent's index, tag name, the
/// source text of its byte range and its attributes. The list, or the
/// parser's error message, is named `xml_nodes`; the one fact claimed of it is
/// the documented one that a parsed document always has a root element.
#[verifier::external_body]
fn parse_xml_nodes(text: &str) -> (r: Result<Vec<XmlNode>, String>)
    ensures
        match r {
            Ok(ns) => xml_nodes(text@) == Ok::<Seq<NodeModel>, Seq<char>>(nodes_view(ns@))
                && has_root_element(nodes_view(ns@)),
            Err(e) => xml_nodes(text@) == Err::<Seq<NodeModel>, Seq<char>>(e@),
        },
{
    let doc = roxmltree::Document::parse(text).map_err(|e| e.to_string())?;
    let attr = |a: roxmltree::Attribute| XmlAttr {
        name: a.name().to_string(),
        value: a.value().to_string(),
        in_namespace: a.namespace().is_some(),
    };
    Ok(doc.descendants().map(|n| XmlNode {
        is_element: n.is_element(),
        parent: n.parent().map(|p| p.id().get_usize()),
        tag: n.tag_name().name().to_string(),
        source: text[n.range()].to_string(),
        attrs: n.attributes().map(attr).collect(),
    }).collect())
}

/// Node `i` is an element child of node `p`.
pub open spec fn is_child_element(nodes: Seq<NodeModel>, i: int, p: int) -> bool {
    nodes[i].is_element && nodes[i].parent == Some(p)
}

/// The first element child of node `p` at index `i` or later.
pub open spec fn first_child_element_from(nodes: Seq<NodeModel>, p: int, i: int) -> Option<int>
    decreases nodes.len() - i,
{
    if i < 0 || i >= nodes.len() {
        None
    } else if is_child_element(nodes, i, p) {
        Some(i)
    } else {
        first_child_element_from(nodes, p, i + 1)
    }
}

/// The root element's index: the document node's first element child.
pub open spec fn root_index(nodes: Seq<NodeModel>) -> int {
    match first_child_element_from(nodes, 0, 0) {
        Some(i) => i,
        None => 0,
    }
}

/// The element children of node `p` among the nodes before index `k`, in
/// order.
pub open spec fn child_elements_upto(nodes: Seq<NodeModel>, p: int, k: int) -> Seq<int>
    decreases k,
{
    if k <= 0 {
        seq![]
    } else if is_child_element(nodes, k - 1, p) {
        child_elements_upto(nodes, p, k - 1).push(k - 1)
    } else {
        child_elements_upto(nodes, p, k - 1)
    }
}

/// Node `j` lies in the subtree of node `e`: following parents from `j`
/// (each before its child) reaches `e`.
pub open spec fn in_subtree(nodes: Seq<NodeModel>, j: int, e: int) -> bool
    decreases j,
{
    if j == e {
        true
    } else if j < e || j >= nodes.len() {
        false
    } else {
        match nodes[j].parent {
            Some(p) => if 0 <= p < j {
                in_subtree(nodes, p, e)
            } else {
                false
            },
            None => false,
        }
    }
}

/// The attributes of the elements of `e`'s subtree among the nodes before
/// index `k`, in document order.
pub open spec fn subtree_attrs_upto(nodes: Seq<NodeModel>, e: int, k: int) -> Seq<AttrModel>
    decreases k,
{
    if k <= 0 {
        seq![]
    } else if nodes[k - 1].is_element && in_subtree(nodes, k - 1, e) {
        subtree_attrs_upto(nodes, e, k - 1) + nodes[k - 1].attrs
    } else {
        subtree_attrs_upto(nodes, e, k - 1)
    }
}

/// The model of element `i`.
pub open spec fn element_at(nodes: Seq<NodeModel>, i: int) -> ElementModel {
    ElementModel {
        tag: nodes[i].tag,
        source: nodes[i].source,
        attrs: nodes[i].attrs,
        subtree_attrs: subtree_attrs_upto(nodes, i, nodes.len() as int),
    }
}

/// The scene model of a node list: the root element and its element
/// children in order.
pub open spec fn scene_of_nodes(nodes: Seq<NodeModel>) -> SceneModel {
    let r = root_index(nodes);
    SceneModel {
        root: element_at(nodes, r),
        children: child_elements_upto(nodes, r, nodes.len() as int).map_values(
            |i: int| element_at(nodes, i),
        ),
    }
}

/// What `roxmltree::Document::parse` makes of `text`, read into the model:
/// the root element and its element children, or the parser's error message.
pub open spec fn xml_scene_model(text: Seq<char>) -> Result<SceneModel, Seq<char>> {
    match xml_nodes(text) {
        Ok(nodes) => Ok(scene_of_nodes(nodes)),
        Err(e) => Err(e),
    }
}

fn copy_attrs(attrs: &Vec<XmlAttr>, out: &mut Vec<XmlAttr>)
    ensures
        attrs_view(final(out)@) == attrs_view(old(out)@) + attrs_view(attrs@),
{
    let mut i: usize = 0;
    while i < attrs.len()
        invariant
            0 <= i <= attrs.len(),
            attrs_view(out@) == attrs_view(old(out)@) + attrs_view(attrs@).take(i as int),
        decreases attrs.len() - i,
    {
        let a = &attrs[i];
        let copy = XmlAttr { name: a.name.clone(), value: a.value.clone(), in_namespace: a.in_namespace };
        let ghost prev = out@;
        out.push(copy);
        proof {
            assert(copy@ == attrs@[i as int]@);
            assert(out@ == prev.push(copy));
            assert(attrs_view(out@) =~= attrs_view(prev).push(copy@));
            assert(attrs_view(attrs@).take(i + 1) =~= attrs_view(attrs@).take(i as int).push(
                attrs@[i as int]@,
            ));
            assert(attrs_view(out@) =~= attrs_view(old(out)@) + attrs_view(attrs@).take(i + 1));
        }
        i += 1;
    }
    proof {
        assert(attrs_view(attrs@).take(i as int) == attrs_view(attrs@));
    }
}

fn in_subtree_exec(nodes: &Vec<XmlNode>, j: usize, e: usize) -> (r: bool)
    requires
        j < nodes.len(),
    ensures
        r == in_subtree(nodes_view(nodes@), j as int, e as int),
{
    let ghost ns = nodes_view(nodes@);
    let mut cur = j;
    while cur != e
        invariant
            cur < nodes.len(),
            ns == nodes_view(nodes@),
            in_subtree(ns, j as int, e as int) == in_subtree(ns, cur as int, e as int),
        decreases cur,
    {
        if cur < e {
            return false;
        }
        match nodes[cur].parent {
            Some(p) => {
                if p < cur {
                    cur = p;
                } else {
                    return false;
                }
            },
            None => {
                return false;
            },
        }
    }
    true
}

fn element_from_nodes(nodes: &Vec<XmlNode>, i: usize) -> (r: XmlElement)
    requires
        i < nodes.len(),
    ensures
        r@ == element_at(nodes_view(nodes@), i as int),
{
    let ghost ns = nodes_view(nodes@);
    let mut attrs: Vec<XmlAttr> = Vec::new();
    copy_attrs(&nodes[i].attrs, &mut attrs);
    let mut sub: Vec<XmlAttr> = Vec::new();
    let mut k: usize = 0;
    proof {
        assert(attrs_view(sub@) =~= subtree_attrs_upto(ns, i as int, 0));
    }
    while k < nodes.len()
        invariant
            0 <= k <= nodes.len(),
            i < nodes.len(),
            ns == nodes_view(nodes@),
            attrs_view(sub@) == subtree_attrs_upto(ns, i as int, k as int),
        decreases nodes.len() - k,
    {
        if nodes[k].is_element && in_subtree_exec(nodes, k, i) {
            copy_attrs(&nodes[k].attrs, &mut sub);
        }
        k += 1;
    }
    proof {
        assert(attrs_view(attrs@) =~= ns[i as int].attrs);
    }
    XmlElement {
        tag: nodes[i].tag.clone(),
        source: nodes[i].source.clone(),
        attrs,
        subtree_attrs: sub,
    }
}

proof fn lemma_first_child_found(nodes: Seq<NodeModel>, p: int, i: int, w: int)
    requires
        0 <= i <= w < nodes.len(),
        is_child_element(nodes, w, p),
    ensures
        first_child_element_from(nodes, p, i) is Some,
    decreases w - i,
{
    if !is_child_element(nodes, i, p) {
        lemma_first_child_found(nodes, p, i + 1, w);
    }
}

/// Parses `text` into the scene model.
fn parse_scene_xml(text: &str) -> (r: Result<SceneXml, String>)
    ensures
        match r {
            Ok(doc) => xml_scene_model(text@) == Ok::<SceneModel, Seq<char>>(doc@),
            Err(e) => xml_scene_model(text@) == Err::<SceneModel, Seq<char>>(e@),
        },
{
    let nodes = match parse_xml_nodes(text) {
        Ok(ns) => ns,
        Err(e) => {
            return Err(e);
        },
    };
    let ghost ns = nodes_view(nodes@);
    proof {
        let w = choose|w: int| 0 <= w < ns.len() && is_child_element(ns, w, 0);
        lemma_first_child_found(ns, 0, 0, w);
    }
    let mut r: usize = 0;
    while r < nodes.len() && !(nodes[r].is_element && nodes[r].parent == Some(0usize))
        invariant
            0 <= r <= nodes.len(),
            ns == nodes_view(nodes@),
            first_child_element_from(ns, 0, 0) == first_child_element_from(ns, 0, r as int),
            first_child_element_from(ns, 0, 0) is Some,
        decreases nodes.len() - r,
    {
        r += 1;
    }
    let root = element_from_nodes(&nodes, r);
    let mut children: Vec<XmlElement> = Vec::new();
    let mut k: usize = 0;
    while k < nodes.len()
        invariant
            0 <= k <= nodes.len(),
            r < nodes.len(),
            ns == nodes_view(nodes@),
            root_index(ns) == r as int,
            children@.map_values(|e: XmlElement| e@) == child_elements_upto(
                ns,
                r as int,
                k as int,
            ).map_values(|i: int| element_at(ns, i)),
        decreases nodes.len() - k,
    {
        let ghost prev = children@;
        if nodes[k].is_element && nodes[k].parent == Some(r) {
            let el = element_from_nodes(&nodes, k);
            children.push(el);
            proof {
                assert(children@ == prev.push(el));
                assert(children@.map_values(|e: XmlElement| e@) =~= prev.map_values(
                    |e: XmlElement| e@,
                ).push(el@));
            }
        }
        proof {
            assert(children@.map_values(|e: XmlElement| e@) =~= child_elements_upto(
                ns,
                r as int,
                k + 1,
            ).map_values(|i: int| element_at(ns, i)));
        }
        k += 1;
    }
    Ok(SceneXml { root, children })
}

/// Value of the first attribute named `name` outside any namespace
/// (`roxmltree::Node::attribute` with a plain name).
pub open spec fn attr_value(attrs: Seq<AttrModel>, name: Seq<char>) -> Option<Seq<char>>
    decreases attrs.len(),
{
    if attrs.len() == 0 {
        None
    } else if !attrs[0].in_namespace && attrs[0].name == name {
        Some(attrs[0].value)
    } else {
        attr_value(attrs.drop_first(), name)
    }
}

/// Whether two strings hold the same characters.
pub fn str_eq(a: &str, b: &str) -> (r: bool)
    ensures
        r == (a@ == b@),
{
    let x = chars_of(a);
    let y = chars_of(b);
    chars_eq(&x, &y)
}

/// Value of the first attribute of `el` named `name` outside any namespace.
pub fn attribute<'a>(el: &'a XmlElement, name: &str) -> (r: Option<&'a String>)
    ensures
        match r {
            Some(v) => attr_value(el@.attrs, name@) == Some(v@),
            None => attr_value(el@.attrs, name@) is None,
        },
{
    let mut i: usize = 0;
    proof {
        assert(el@.attrs.skip(0) == el@.attrs);
    }
    while i < el.attrs.len()
        invariant
            0 <= i <= el.attrs.len(),
            attr_value(el@.attrs, name@) == attr_value(el@.attrs.skip(i as int), name@),
        decreases el.attrs.len() - i,
    {
        proof {
            assert(el@.attrs.skip(i as int).drop_first() == el@.attrs.skip(i + 1));
            assert(el@.attrs.skip(i as int)[0] == el.attrs@[i as int]@);
        }
        if !el.attrs[i].in_namespace && str_eq(el.attrs[i].name.as_str(), name) {
            return Some(&el.attrs[i].value);
        }
        i += 1;
    }
    None
}

// ---------------------------------------------------------------------------
// Archive entries and loading the scene
// ---------------------------------------------------------------------------

/// A file of a ZIP archive: its name and its bytes.
pub struct ArchiveEntry {
    pub name: String,
    pub data: Vec<u8>,
}

impl View for ArchiveEntry {
    type V = (Seq<char>, Seq<u8>);

    open spec fn view(&self) -> (Seq<char>, Seq<u8>) {
        (self.name@, self.data@)
    }
}

/// `s` ends with `suffix`.
pub open spec fn ends_with(s: Seq<char>, suffix: Seq<char>) -> bool {
    s.len() >= suffix.len() && s.subrange(s.len() - suffix.len(), s.len() as int) == suffix
}

/// Whether `s` ends with `suffix`.
pub fn ends_with_exec(s: &Vec<char>, suffix: &Vec<char>) -> (r: bool)
    ensures
        r == ends_with(s@, suffix@),
{
    if s.len() < suffix.len() {
        return false;
    }
    matches_at_exec(s, s.len() - suffix.len(), suffix)
}

/// The archive entries viewed as mathematical values.
pub open spec fn entries_view(entries: Seq<ArchiveEntry>) -> Seq<(Seq<char>, Seq<u8>)> {
    entries.map_values(|e: ArchiveEntry| e@)
}

/// Index of the last entry whose name ends with `.xml`.
pub open spec fn last_xml_entry(entries: Seq<(Seq<char>, Seq<u8>)>) -> Option<int>
    decreases entries.len(),
{
    if entries.len() == 0 {
        None
    } else if ends_with(entries.last().0, ".xml"@) {
        Some(entries.len() - 1)
    } else {
        last_xml_entry(entries.drop_last())
    }
}

/// Index of the first entry whose name ends with `.xml`.
pub open spec fn first_xml_entry(entries: Seq<Seq<char>>) -> Option<int>
    decreases entries.len(),
{
    if entries.len() == 0 {
        None
    } else if ends_with(entries[0], ".xml"@) {
        Some(0)
    } else {
        match first_xml_entry(entries.drop_first()) {
            Some(i) => Some(i + 1),
            None => None,
        }
    }
}

/// How much of the project XML the analysis reads (bytes).
pub const HEADER_BYTES: usize = 2048;

/// Index of the first archive entry, by name, that ends with `.xml` (the one
/// the analysis reads).
pub fn first_xml_entry_exec(names: &Vec<String>) -> (r: Option<usize>)
    ensures
        match r {
            Some(i) => i < names.len() && first_xml_entry(names@.map_values(|n: String| n@))
                == Some(i as int),
            None => first_xml_entry(names@.map_values(|n: String| n@)) is None,
        },
{
    let ghost ns = names@.map_values(|n: String| n@);
    let suffix = chars_of(".xml");
    let mut i: usize = 0;
    proof {
        assert(ns.skip(0) == ns);
    }
    while i < names.len()
        invariant
            0 <= i <= names.len(),
            ns == names@.map_values(|n: String| n@),
            suffix@ == ".xml"@,
            first_xml_entry(ns) == match first_xml_entry(ns.skip(i as int)) {
                Some(j) => Some(j + i),
                None => None::<int>,
            },
        decreases names.len() - i,
    {
        proof {
            assert(ns.skip(i as int).drop_first() == ns.skip(i + 1));
            assert(ns.skip(i as int)[0] == names@[i as int]@);
        }
        let n = chars_of(names[i].as_str());
        if ends_with_exec(&n, &suffix) {
            return Some(i);
        }
        i += 1;
    }
    None
}

/// The text `String::from_utf8_lossy` makes of `bytes`.
pub uninterp spec fn utf8_lossy(bytes: Seq<u8>) -> Seq<char>;

/// `String::from_utf8_lossy(bytes).to_string()`: the result is named
/// `utf8_lossy`; for valid UTF-8 the documentation gives it as the decoded
/// characters. How invalid sequences are replaced is left to the name.
#[verifier::external_body]
pub(crate) fn decode_utf8_lossy(bytes: &Vec<u8>) -> (r: String)
    ensures
        r@ == utf8_lossy(bytes@),
        valid_utf8(bytes@) ==> r@ == decode_utf8(bytes@),
{
    String::from_utf8_lossy(bytes).to_string()
}

/// Index of the last entry whose name ends with `.xml`.
pub fn last_xml_entry_exec(entries: &Vec<ArchiveEntry>) -> (r: Option<usize>)
    ensures
        match r {
            Some(i) => i < entries.len() && last_xml_entry(entries_view(entries@)) == Some(
                i as int,
            ),
            None => last_xml_entry(entries_view(entries@)) is None,
        },
{
    let suffix = chars_of(".xml");
    let mut i = entries.len();
    proof {
        assert(entries_view(entries@).take(i as int) == entries_view(entries@));
    }
    while i > 0
        invariant
            0 <= i <= entries.len(),
            suffix@ == ".xml"@,
            last_xml_entry(entries_view(entries@)) == last_xml_entry(
                entries_view(entries@).take(i as int),
            ),
        decreases i,
    {
        let name = chars_of(entries[i - 1].name.as_str());
        proof {
            assert(entries_view(entries@).take(i as int).drop_last() == entries_view(
                entries@,
            ).take(i - 1));
            assert(entries_view(entries@).take(i as int).last() == entries@[i - 1]@);
        }
        if ends_with_exec(&name, &suffix) {
            return Some(i - 1);
        }
        i -= 1;
    }
    None
}

/// The amproj XML text of the archive: the last entry whose name ends with
/// `.xml`, decoded; `None` when there is none or it is empty.
pub open spec fn archive_xml(entries: Seq<(Seq<char>, Seq<u8>)>) -> Option<Seq<char>> {
    match last_xml_entry(entries) {
        Some(i) => if utf8_lossy(entries[i].1).len() == 0 {
            None
        } else {
            Some(utf8_lossy(entries[i].1))
        },
        None => None,
    }
}

/// Error message for an archive without XML.
pub open spec fn no_xml_message() -> Seq<char> {
    "amproj 中未找到 XML 文件"@
}

/// The XML text of the archive (see `archive_xml`), or the missing-XML error.
pub fn read_archive_xml(entries: &Vec<ArchiveEntry>) -> (r: Result<String, String>)
    ensures
        match r {
            Ok(x) => archive_xml(entries_view(entries@)) == Some(x@),
            Err(e) => archive_xml(entries_view(entries@)) is None && e@ == no_xml_message(),
        },
{
    match last_xml_entry_exec(entries) {
        Some(i) => {
            let x = decode_utf8_lossy(&entries[i].data);
            if x.as_str().is_empty() {
                Err(String::from_str("amproj 中未找到 XML 文件"))
            } else {
                Ok(x)
            }
        },
        None => Err(String::from_str("amproj 中未找到 XML 文件")),
    }
}

/// The parsed scene of an archive: its XML text parsed, whose root must be a
/// `<scene>` element; or the error message, as the amproj tools report it.
pub open spec fn scene_load(entries: Seq<(Seq<char>, Seq<u8>)>) -> Result<SceneModel, Seq<char>> {
    match archive_xml(entries) {
        None => Err(no_xml_message()),
        Some(x) => match xml_scene_model(x) {
            Err(e) => Err("XML 解析失败: "@ + e),
            Ok(doc) => if doc.root.tag == "scene"@ {
                Ok(doc)
            } else {
                Err("根节点不是 <scene>，而是 <"@ + doc.root.tag + ">"@)
            },
        },
    }
}

/// Reads the archive's XML (the last `.xml` entry), parses it and checks that
/// its root is `<scene>`.
pub fn load_scene(entries: &Vec<ArchiveEntry>) -> (r: Result<SceneXml, String>)
    ensures
        match r {
            Ok(doc) => scene_load(entries_view(entries@)) == Ok::<SceneModel, Seq<char>>(doc@),
            Err(e) => scene_load(entries_view(entries@)) == Err::<SceneModel, Seq<char>>(e@),
        },
{
    let xml = read_archive_xml(entries)?;
    match parse_scene_xml(xml.as_str()) {
        Err(e) => {
            let mut m: Vec<char> = Vec::new();
            push_str(&mut m, "XML 解析失败: ");
            push_str(&mut m, e.as_str());
            Err(string_of(&m))
        },
        Ok(doc) => {
            if str_eq(doc.root.tag.as_str(), "scene") {
                Ok(doc)
            } else {
                let mut m: Vec<char> = Vec::new();
                push_str(&mut m, "根节点不是 <scene>，而是 <");
                push_str(&mut m, doc.root.tag.as_str());
                push_str(&mut m, ">");
                Err(string_of(&m))
            }
        },
    }
}

/// The UTF-8 bytes of `s`.
pub fn utf8_bytes(s: &String) -> (r: Vec<u8>)
    ensures
        r@ == encode_utf8(s@),
{
    s.as_str().as_bytes_vec()
}

} // verus!
