//! The walk-level guarantees: a fingerprinted copy is itself marked, a second
//! fingerprint run changes nothing, and a clean run after a fingerprint run
//! restores the unmarked files exactly.
//!
//! Both guarantees ask that every file name carry an extension: the
//! fingerprinted name of an extensionless file ends in the marker, which then
//! falls outside the stem that the marker test inspects.

use vstd::prelude::*;
use crate::hashing::digest_string_of;
use crate::names::{
    lemma_last_dot_bounds, spec_has_ext, spec_is_marked, spec_last_dot, spec_stem,
};
use crate::strings::contains_at;
use crate::walk::{
    spec_copy_name, spec_fingerprint_files, spec_manifest_after, spec_marked_paths,
    spec_paths_of, spec_unmarked_files, FileView,
};

verus! {

proof fn lemma_last_dot_at(s: Seq<char>, k: int)
    requires
        0 <= k < s.len(),
        s[k] == '.',
        forall|j: int| k < j < s.len() ==> s[j] != '.',
    ensures
        spec_last_dot(s) == k,
    decreases s.len(),
{
    if k == s.len() - 1 {
    } else {
        assert(s.last() != '.');
        assert(s.drop_last()[k] == s[k]);
        assert forall|j: int| k < j < s.drop_last().len() implies s.drop_last()[j] != '.' by {
            assert(s.drop_last()[j] == s[j]);
        }
        lemma_last_dot_at(s.drop_last(), k);
    }
}

/// A fingerprinted name is itself marked, provided the original name has an
/// extension: the marker then sits inside the new name's stem.
pub proof fn lemma_copy_is_marked(f: FileView, marker: Seq<char>)
    requires
        spec_has_ext(f.name),
    ensures
        spec_is_marked(spec_copy_name(f, marker), marker),
{
    let s = spec_stem(f.name);
    let d = digest_string_of(f.bytes);
    let ld = spec_last_dot(f.name);
    let e = f.name.skip(ld + 1);
    let n = spec_copy_name(f, marker);
    let k = s.len() + d.len() + marker.len() + 2;
    lemma_last_dot_bounds(f.name);
    assert(n =~= s + seq!['.'] + d + seq!['.'] + marker + seq!['.'] + e);
    assert(n[k as int] == '.');
    assert forall|j: int| k < j < n.len() implies n[j] != '.' by {
        assert(n[j] == e[j - k - 1]);
        assert(e[j - k - 1] == f.name[ld + 1 + (j - k - 1)]);
    }
    lemma_last_dot_at(n, k as int);
    assert(spec_has_ext(n));
    let stem_n = spec_stem(n);
    assert(stem_n =~= s + seq!['.'] + d + seq!['.'] + marker);
    let pos = s.len() + d.len() + 2;
    assert(stem_n.subrange(pos as int, pos + marker.len() as int) =~= marker);
    assert(contains_at(stem_n, marker, pos as int));
}

/// Every copy a fingerprint walk creates is marked, provided every file name
/// has an extension.
pub proof fn lemma_fingerprint_all_marked(files: Seq<FileView>, marker: Seq<char>)
    requires
        forall|i: int| 0 <= i < files.len() ==> spec_has_ext(#[trigger] files[i].name),
    ensures
        forall|i: int|
            0 <= i < spec_fingerprint_files(files, marker).len() ==> spec_is_marked(
                #[trigger] spec_fingerprint_files(files, marker)[i].name,
                marker,
            ),
    decreases files.len(),
{
    if files.len() > 0 {
        assert forall|i: int|
            0 <= i < files.drop_last().len() implies spec_has_ext(
            #[trigger] files.drop_last()[i].name,
        ) by {
            assert(files.drop_last()[i] == files[i]);
        }
        lemma_fingerprint_all_marked(files.drop_last(), marker);
        let f = files.last();
        assert(f == files[files.len() - 1]);
        if !spec_is_marked(f.name, marker) {
            lemma_copy_is_marked(f, marker);
        }
        let res = spec_fingerprint_files(files, marker);
        let rest = spec_fingerprint_files(files.drop_last(), marker);
        assert forall|i: int| 0 <= i < res.len() implies spec_is_marked(
            #[trigger] res[i].name,
            marker,
        ) by {
            if i < rest.len() {
                assert(res[i] == rest[i]);
            }
        }
    }
}

proof fn lemma_walks_ignore_marked_suffix(
    a: Seq<FileView>,
    b: Seq<FileView>,
    marker: Seq<char>,
    root: Option<Seq<char>>,
    m0: Map<Seq<char>, Seq<char>>,
)
    requires
        forall|i: int| 0 <= i < b.len() ==> spec_is_marked(#[trigger] b[i].name, marker),
    ensures
        spec_fingerprint_files(a + b, marker) == spec_fingerprint_files(a, marker),
        spec_manifest_after(a + b, marker, root, m0) == spec_manifest_after(a, marker, root, m0),
        spec_unmarked_files(a + b, marker) == spec_unmarked_files(a, marker),
        spec_marked_paths(a + b, marker) == spec_marked_paths(a, marker) + spec_paths_of(b),
    decreases b.len(),
{
    if b.len() == 0 {
        assert(a + b =~= a);
        assert(spec_marked_paths(a, marker) + spec_paths_of(b) =~= spec_marked_paths(a, marker));
    } else {
        assert((a + b).drop_last() =~= a + b.drop_last());
        assert((a + b).last() == b[b.len() - 1]);
        assert forall|i: int|
            0 <= i < b.drop_last().len() implies spec_is_marked(
            #[trigger] b.drop_last()[i].name,
            marker,
        ) by {
            assert(b.drop_last()[i] == b[i]);
        }
        lemma_walks_ignore_marked_suffix(a, b.drop_last(), marker, root, m0);
        assert(spec_marked_paths(a + b, marker) =~= spec_marked_paths(a, marker) + spec_paths_of(
            b,
        ));
    }
}

/// Idempotency: a second fingerprint run over the unchanged tree (the
/// original files together with the copies of the first run) creates exactly
/// the copies that already exist and accumulates the same manifest, provided
/// every file name has an extension.
pub proof fn lemma_fingerprint_idempotent(
    files: Seq<FileView>,
    marker: Seq<char>,
    root: Option<Seq<char>>,
    m0: Map<Seq<char>, Seq<char>>,
)
    requires
        forall|i: int| 0 <= i < files.len() ==> spec_has_ext(#[trigger] files[i].name),
    ensures
        spec_fingerprint_files(files + spec_fingerprint_files(files, marker), marker)
            == spec_fingerprint_files(files, marker),
        spec_manifest_after(files + spec_fingerprint_files(files, marker), marker, root, m0)
            == spec_manifest_after(files, marker, root, m0),
{
    lemma_fingerprint_all_marked(files, marker);
    lemma_walks_ignore_marked_suffix(
        files,
        spec_fingerprint_files(files, marker),
        marker,
        root,
        m0,
    );
}

/// Round-trip symmetry: a clean run over the tree a fingerprint run leaves
/// behind keeps exactly the unmarked files that stood before the fingerprint
/// run, and deletes exactly the files that were already marked together with
/// the copies the run created, provided every file name has an extension.
pub proof fn lemma_round_trip(files: Seq<FileView>, marker: Seq<char>)
    requires
        forall|i: int| 0 <= i < files.len() ==> spec_has_ext(#[trigger] files[i].name),
    ensures
        spec_unmarked_files(files + spec_fingerprint_files(files, marker), marker)
            == spec_unmarked_files(files, marker),
        spec_marked_paths(files + spec_fingerprint_files(files, marker), marker)
            == spec_marked_paths(files, marker) + spec_paths_of(
            spec_fingerprint_files(files, marker),
        ),
{
    lemma_fingerprint_all_marked(files, marker);
    lemma_walks_ignore_marked_suffix(
        files,
        spec_fingerprint_files(files, marker),
        marker,
        None,
        Map::empty(),
    );
}

} // verus!
