//! Bookkeeping of a batch render: the success and failure counts, and the
//! renames that give a batch's outputs their projects' titles.

use vstd::prelude::*;
use crate::paths::{extension, extension_exec};
use crate::text::{chars_eq, chars_of, push_str, string_of};

verus! {

/// How many projects of a batch succeeded and failed.
#[derive(Debug, Clone, Copy, PartialEq, Eq, Structural)]
pub struct BatchTally {
    pub success: u32,
    pub failed: u32,
}

impl BatchTally {
    /// A tally with nothing counted.
    pub fn new() -> (r: BatchTally)
        ensures
            r.success == 0,
            r.failed == 0,
    {
        BatchTally { success: 0, failed: 0 }
    }

    /// Counts one more project, as a success when `ok`.
    pub fn record(&mut self, ok: bool)
        requires
            old(self).success + old(self).failed < u32::MAX,
        ensures
            final(self).success == old(self).success + (if ok {
                1int
            } else {
                0int
            }),
            final(self).failed == old(self).failed + (if ok {
                0int
            } else {
                1int
            }),
    {
        if ok {
            self.success = self.success + 1;
        } else {
            self.failed = self.failed + 1;
        }
    }

    /// How many projects were counted.
    pub fn total(&self) -> (r: u64)
        ensures
            r == self.success + self.failed,
    {
        self.success as u64 + self.failed as u64
    }
}

/// The output path `{dir}/{name}{ext}`.
pub open spec fn output_file(dir: Seq<char>, name: Seq<char>, ext: Seq<char>) -> Seq<char> {
    dir + "/"@ + name + ext
}

/// The renames that give a project's outputs its title in place of its file
/// stem: the video, then the package when one was exported; a rename whose
/// two names agree is left out.
pub open spec fn output_renames(dir: Seq<char>, stem: Seq<char>, title: Seq<char>, with_package: bool) -> Seq<
    (Seq<char>, Seq<char>),
> {
    let video = (output_file(dir, stem, ".mp4"@), output_file(dir, title, ".mp4"@));
    let package = (output_file(dir, stem, ".amproj"@), output_file(dir, title, ".amproj"@));
    let first = if video.0 != video.1 {
        seq![video]
    } else {
        seq![]
    };
    if with_package && package.0 != package.1 {
        first.push(package)
    } else {
        first
    }
}

/// The views of a list of renames.
pub open spec fn renames_view(v: Seq<(String, String)>) -> Seq<(Seq<char>, Seq<char>)> {
    v.map_values(|p: (String, String)| (p.0@, p.1@))
}

fn output_file_exec(dir: &str, name: &str, ext: &str) -> (r: Vec<char>)
    ensures
        r@ == output_file(dir@, name@, ext@),
{
    let mut c = chars_of(dir);
    push_str(&mut c, "/");
    push_str(&mut c, name);
    push_str(&mut c, ext);
    c
}

/// The renames of `output_renames` (the caller renames the files that exist).
pub fn output_renames_exec(dir: &str, stem: &str, title: &str, with_package: bool) -> (r: Vec<
    (String, String),
>)
    ensures
        renames_view(r@) == output_renames(dir@, stem@, title@, with_package),
{
    let mut out: Vec<(String, String)> = Vec::new();
    let old_video = output_file_exec(dir, stem, ".mp4");
    let new_video = output_file_exec(dir, title, ".mp4");
    if !chars_eq(&old_video, &new_video) {
        out.push((string_of(&old_video), string_of(&new_video)));
    }
    if with_package {
        let old_package = output_file_exec(dir, stem, ".amproj");
        let new_package = output_file_exec(dir, title, ".amproj");
        if !chars_eq(&old_package, &new_package) {
            out.push((string_of(&old_package), string_of(&new_package)));
        }
    }
    proof {
        assert(renames_view(out@) =~= output_renames(dir@, stem@, title@, with_package));
    }
    out
}

/// No rename moves a file onto itself, and every rename keeps the directory
/// and extension and trades the stem for the title.
pub proof fn law_renames_are_proper(dir: Seq<char>, stem: Seq<char>, title: Seq<char>, with_package: bool)
    ensures
        forall|i: int|
            0 <= i < output_renames(dir, stem, title, with_package).len() ==> {
                let p = #[trigger] output_renames(dir, stem, title, with_package)[i];
                &&& p.0 != p.1
                &&& (p == (output_file(dir, stem, ".mp4"@), output_file(dir, title, ".mp4"@)) || (
                with_package && p == (
                    output_file(dir, stem, ".amproj"@),
                    output_file(dir, title, ".amproj"@),
                )))
            },
        stem == title ==> output_renames(dir, stem, title, with_package).len() == 0,
{
}

// ---------------------------------------------------------------------------
// Choosing the projects of a folder
// ---------------------------------------------------------------------------

/// `a` sorts strictly before `b`: lexicographic order of the characters,
/// the order of `str` and (for names in one folder) of `Path`.
pub open spec fn chars_lt(a: Seq<char>, b: Seq<char>) -> bool
    decreases a.len(),
{
    if b.len() == 0 {
        false
    } else if a.len() == 0 {
        true
    } else if a[0] != b[0] {
        a[0] < b[0]
    } else {
        chars_lt(a.drop_first(), b.drop_first())
    }
}

/// `a` sorts before `b` or equals it.
pub open spec fn chars_le(a: Seq<char>, b: Seq<char>) -> bool {
    a == b || chars_lt(a, b)
}

/// The strings are in ascending order.
pub open spec fn sorted_chars(s: Seq<Seq<char>>) -> bool {
    forall|i: int, j: int| 0 <= i < j < s.len() ==> chars_le(#[trigger] s[i], #[trigger] s[j])
}

/// A path names a project file: its extension is `amproj`.
pub open spec fn is_project_path(p: Seq<char>) -> bool {
    extension(p) == Some("amproj"@)
}

/// The views of a list of strings.
pub open spec fn strings_view(v: Seq<String>) -> Seq<Seq<char>> {
    v.map_values(|s: String| s@)
}

proof fn lemma_drop_first_eq(a: Seq<char>, b: Seq<char>)
    requires
        a.len() > 0,
        b.len() > 0,
        a[0] == b[0],
        a.drop_first() == b.drop_first(),
    ensures
        a == b,
{
    assert(a =~= seq![a[0]] + a.drop_first());
    assert(b =~= seq![b[0]] + b.drop_first());
}

proof fn lemma_lt_irreflexive(a: Seq<char>, b: Seq<char>)
    requires
        chars_lt(a, b),
    ensures
        a != b,
        !chars_lt(b, a),
    decreases a.len(),
{
    if a.len() > 0 && b.len() > 0 && a[0] == b[0] {
        lemma_lt_irreflexive(a.drop_first(), b.drop_first());
    }
}

proof fn lemma_lt_total(a: Seq<char>, b: Seq<char>)
    requires
        a != b,
    ensures
        chars_lt(a, b) || chars_lt(b, a),
    decreases a.len(),
{
    if a.len() == 0 {
        if b.len() == 0 {
            assert(a =~= b);
        }
    } else if b.len() == 0 {
    } else if a[0] == b[0] {
        if a.drop_first() == b.drop_first() {
            lemma_drop_first_eq(a, b);
        }
        lemma_lt_total(a.drop_first(), b.drop_first());
    }
}

proof fn lemma_lt_transitive(a: Seq<char>, b: Seq<char>, c: Seq<char>)
    requires
        chars_lt(a, b),
        chars_lt(b, c),
    ensures
        chars_lt(a, c),
    decreases a.len(),
{
    if a.len() > 0 && b.len() > 0 && c.len() > 0 && a[0] == b[0] && b[0] == c[0] {
        lemma_lt_transitive(a.drop_first(), b.drop_first(), c.drop_first());
    }
}

proof fn lemma_le_transitive(a: Seq<char>, b: Seq<char>, c: Seq<char>)
    requires
        chars_le(a, b),
        chars_le(b, c),
    ensures
        chars_le(a, c),
{
    if chars_lt(a, b) && chars_lt(b, c) {
        lemma_lt_transitive(a, b, c);
    }
}

/// Whether `a` sorts before `b` or equals it.
pub fn chars_le_exec(a: &Vec<char>, b: &Vec<char>) -> (r: bool)
    ensures
        r == chars_le(a@, b@),
{
    let mut i: usize = 0;
    proof {
        assert(a@.skip(0) == a@);
        assert(b@.skip(0) == b@);
        assert(a@.take(0) =~= b@.take(0));
    }
    while i < a.len() && i < b.len() && a[i] == b[i]
        invariant
            0 <= i <= a.len(),
            i <= b.len(),
            a@.take(i as int) == b@.take(i as int),
            chars_lt(a@, b@) == chars_lt(a@.skip(i as int), b@.skip(i as int)),
        decreases a.len() - i,
    {
        proof {
            assert(a@.skip(i as int).drop_first() == a@.skip(i + 1));
            assert(b@.skip(i as int).drop_first() == b@.skip(i + 1));
            assert(a@.take(i + 1) == a@.take(i as int).push(a@[i as int]));
            assert(b@.take(i + 1) == b@.take(i as int).push(b@[i as int]));
        }
        i += 1;
    }
    proof {
        if i == a.len() && i == b.len() {
            assert(a@ == a@.take(i as int));
            assert(b@ == b@.take(i as int));
        } else if i < a.len() && i < b.len() {
            if a@ == b@ {
                assert(a@[i as int] == b@[i as int]);
            }
        } else if i == a.len() {
            assert(a@.len() != b@.len());
        } else {
            assert(a@.len() != b@.len());
        }
    }
    if i == a.len() {
        true
    } else if i == b.len() {
        false
    } else {
        a[i] < b[i]
    }
}

/// Inserts `x` into the sorted `v` after every element that sorts before it
/// or equals it.
fn insert_sorted(v: &mut Vec<Vec<char>>, x: Vec<char>)
    requires
        sorted_chars(old(v)@.map_values(|e: Vec<char>| e@)),
    ensures
        sorted_chars(final(v)@.map_values(|e: Vec<char>| e@)),
        final(v)@.map_values(|e: Vec<char>| e@).to_multiset() == old(v)@.map_values(
            |e: Vec<char>| e@,
        ).to_multiset().insert(x@),
{
    let ghost before = v@.map_values(|e: Vec<char>| e@);
    let mut j: usize = 0;
    while j < v.len() && chars_le_exec(&v[j], &x)
        invariant
            0 <= j <= v.len(),
            v@.map_values(|e: Vec<char>| e@) == before,
            sorted_chars(before),
            forall|k: int| 0 <= k < j ==> chars_le(#[trigger] before[k], x@),
        decreases v.len() - j,
    {
        j += 1;
    }
    proof {
        if j < v.len() {
            assert(!chars_le(before[j as int], x@));
            lemma_lt_total(before[j as int], x@);
            assert(chars_lt(x@, before[j as int]));
        }
    }
    let ghost xv = x@;
    v.insert(j, x);
    proof {
        let after = v@.map_values(|e: Vec<char>| e@);
        assert(after =~= before.insert(j as int, xv));
        assert forall|a: int, b: int| 0 <= a < b < after.len() implies chars_le(
            #[trigger] after[a],
            #[trigger] after[b],
        ) by {
            if b < j {
                assert(after[a] == before[a] && after[b] == before[b]);
            } else if b == j {
                assert(after[a] == before[a]);
            } else if a == j {
                assert(after[b] == before[b - 1]);
                assert(chars_le(before[j as int], before[b - 1]));
                lemma_le_transitive(xv, before[j as int], before[b - 1]);
            } else if a < j {
                assert(after[a] == before[a] && after[b] == before[b - 1]);
            } else {
                assert(after[a] == before[a - 1] && after[b] == before[b - 1]);
            }
        }
        vstd::seq_lib::to_multiset_insert(before, j as int, xv);
    }
}

/// The project files among `paths`, in ascending order (the order a folder's
/// projects are rendered in).
pub fn project_files(paths: &Vec<String>) -> (r: Vec<String>)
    ensures
        sorted_chars(strings_view(r@)),
        strings_view(r@).to_multiset() == strings_view(paths@).filter(
            |p: Seq<char>| is_project_path(p),
        ).to_multiset(),
{
    let mut chosen: Vec<Vec<char>> = Vec::new();
    let ext = chars_of("amproj");
    let mut i: usize = 0;
    proof {
        reveal(Seq::filter);
        assert(strings_view(paths@.take(0)) =~= Seq::<Seq<char>>::empty());
        assert(strings_view(paths@.take(0)).filter(|p: Seq<char>| is_project_path(p))
            =~= Seq::<Seq<char>>::empty());
        assert(chosen@.map_values(|e: Vec<char>| e@) =~= Seq::<Seq<char>>::empty());
    }
    while i < paths.len()
        invariant
            0 <= i <= paths@.len(),
            ext@ == "amproj"@,
            sorted_chars(chosen@.map_values(|e: Vec<char>| e@)),
            chosen@.map_values(|e: Vec<char>| e@).to_multiset() == strings_view(
                paths@.take(i as int),
            ).filter(|p: Seq<char>| is_project_path(p)).to_multiset(),
        decreases paths.len() - i,
    {
        let p = chars_of(paths[i].as_str());
        let keep = match extension_exec(&p) {
            Some(e) => chars_eq(&e, &ext),
            None => false,
        };
        proof {
            assert(strings_view(paths@.take(i + 1)) == strings_view(paths@.take(i as int)).push(
                paths@[i as int]@,
            ));
            strings_view(paths@.take(i as int)).lemma_filter_push(
                paths@[i as int]@,
                |p: Seq<char>| is_project_path(p),
            );
            vstd::seq_lib::to_multiset_build(
                strings_view(paths@.take(i as int)).filter(|p: Seq<char>| is_project_path(p)),
                paths@[i as int]@,
            );
        }
        if keep {
            insert_sorted(&mut chosen, p);
        }
        i += 1;
    }
    let mut out: Vec<String> = Vec::new();
    let mut k: usize = 0;
    while k < chosen.len()
        invariant
            0 <= k <= chosen@.len(),
            strings_view(out@) == chosen@.map_values(|e: Vec<char>| e@).take(k as int),
        decreases chosen.len() - k,
    {
        out.push(string_of(&chosen[k]));
        proof {
            assert(chosen@.map_values(|e: Vec<char>| e@).take(k + 1) == chosen@.map_values(
                |e: Vec<char>| e@,
            ).take(k as int).push(chosen@[k as int]@));
        }
        k += 1;
    }
    proof {
        assert(chosen@.map_values(|e: Vec<char>| e@).take(k as int) == chosen@.map_values(
            |e: Vec<char>| e@,
        ));
        assert(paths@.take(i as int) == paths@);
    }
    out
}

} // verus!
