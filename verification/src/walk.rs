//! The per-file work of the two walks over a plain model of the file tree:
//! fingerprinting (hash, name, record, copy) and cleaning (select marked
//! files for deletion). Reading directories and touching the disk is left to
//! the caller, which hands the matched files in as values.

use vstd::prelude::*;
use crate::config::{spec_asset_root, ProcessedConfig};
use crate::hashing::{digest_string_of, hash_bytes};
use crate::manifest::Manifest;
use crate::names::{
    build_name, spec_build_name, spec_ext, spec_is_marked, spec_stem, stem_and_extension,
};
use crate::paths::{join_path, relativize, spec_join, spec_relativize};
use crate::strings::contains_substr;

verus! {

/// A file of the tree: its parent directory, its base name, and its content.
pub struct FileRec {
    pub dir: String,
    pub name: String,
    pub bytes: Vec<u8>,
}

/// The mathematical shadow of a file.
#[verifier::ext_equal]
pub ghost struct FileView {
    pub dir: Seq<char>,
    pub name: Seq<char>,
    pub bytes: Seq<u8>,
}

impl View for FileRec {
    type V = FileView;

    open spec fn view(&self) -> FileView {
        FileView { dir: self.dir@, name: self.name@, bytes: self.bytes@ }
    }
}

/// The views of a sequence of files.
pub open spec fn views_of(files: Seq<FileRec>) -> Seq<FileView> {
    files.map_values(|f: FileRec| f@)
}

/// The base name of the fingerprinted copy of a file.
pub open spec fn spec_copy_name(f: FileView, marker: Seq<char>) -> Seq<char> {
    spec_build_name(spec_stem(f.name), digest_string_of(f.bytes), marker, spec_ext(f.name))
}

/// The fingerprinted copy of a file: same directory, same content, the
/// digest and the marker embedded in the name.
pub open spec fn spec_copy_file(f: FileView, marker: Seq<char>) -> FileView {
    FileView { dir: f.dir, name: spec_copy_name(f, marker), bytes: f.bytes }
}

/// The manifest key a file contributes: its normalized original path.
pub open spec fn spec_entry_key(f: FileView, root: Option<Seq<char>>) -> Seq<char> {
    spec_relativize(spec_join(f.dir, f.name), root)
}

/// The manifest value a file contributes: its normalized fingerprinted path.
pub open spec fn spec_entry_val(f: FileView, marker: Seq<char>, root: Option<Seq<char>>) -> Seq<
    char,
> {
    spec_relativize(spec_join(f.dir, spec_copy_name(f, marker)), root)
}

/// The copies a fingerprint walk creates, in walk order: one per file whose
/// stem does not yet carry the marker.
pub open spec fn spec_fingerprint_files(files: Seq<FileView>, marker: Seq<char>) -> Seq<FileView>
    decreases files.len(),
{
    if files.len() == 0 {
        Seq::empty()
    } else {
        let rest = spec_fingerprint_files(files.drop_last(), marker);
        let f = files.last();
        if spec_is_marked(f.name, marker) {
            rest
        } else {
            rest.push(spec_copy_file(f, marker))
        }
    }
}

/// The manifest a fingerprint walk accumulates on top of `m0`: one entry per
/// unmarked file, inserted in walk order, so that the last write to a key
/// wins.
pub open spec fn spec_manifest_after(
    files: Seq<FileView>,
    marker: Seq<char>,
    root: Option<Seq<char>>,
    m0: Map<Seq<char>, Seq<char>>,
) -> Map<Seq<char>, Seq<char>>
    decreases files.len(),
{
    if files.len() == 0 {
        m0
    } else {
        let m = spec_manifest_after(files.drop_last(), marker, root, m0);
        let f = files.last();
        if spec_is_marked(f.name, marker) {
            m
        } else {
            m.insert(spec_entry_key(f, root), spec_entry_val(f, marker, root))
        }
    }
}

/// The files a clean walk leaves in place: those whose stem does not carry
/// the marker.
pub open spec fn spec_unmarked_files(files: Seq<FileView>, marker: Seq<char>) -> Seq<FileView>
    decreases files.len(),
{
    if files.len() == 0 {
        Seq::empty()
    } else {
        let rest = spec_unmarked_files(files.drop_last(), marker);
        let f = files.last();
        if spec_is_marked(f.name, marker) {
            rest
        } else {
            rest.push(f)
        }
    }
}

/// The full paths a clean walk deletes: those of the marked files, in walk
/// order.
pub open spec fn spec_marked_paths(files: Seq<FileView>, marker: Seq<char>) -> Seq<Seq<char>>
    decreases files.len(),
{
    if files.len() == 0 {
        Seq::empty()
    } else {
        let rest = spec_marked_paths(files.drop_last(), marker);
        let f = files.last();
        if spec_is_marked(f.name, marker) {
            rest.push(spec_join(f.dir, f.name))
        } else {
            rest
        }
    }
}

/// The full paths of a sequence of files.
pub open spec fn spec_paths_of(files: Seq<FileView>) -> Seq<Seq<char>> {
    files.map_values(|f: FileView| spec_join(f.dir, f.name))
}

fn clone_bytes(v: &Vec<u8>) -> (r: Vec<u8>)
    ensures
        r@ == v@,
{
    let mut r: Vec<u8> = Vec::new();
    let mut i: usize = 0;
    while i < v.len()
        invariant
            i <= v@.len(),
            r@ =~= v@.take(i as int),
        decreases v@.len() - i,
    {
        r.push(v[i]);
        proof {
            assert(r@ =~= v@.take(i + 1));
        }
        i = i + 1;
    }
    proof {
        assert(v@.take(v@.len() as int) =~= v@);
    }
    r
}

/// Fingerprint one file: skip it when its stem already carries the marker;
/// otherwise hash its content, record the manifest entry, and return the copy
/// to create beside it.
pub fn hash_and_copy(pconfig: &ProcessedConfig, acc: &mut Manifest, file: &FileRec) -> (r: Option<
    FileRec,
>)
    requires
        old(acc).wf(),
    ensures
        final(acc).wf(),
        spec_is_marked(file@.name, pconfig.marker@) ==> r is None && final(acc)@ == old(acc)@,
        !spec_is_marked(file@.name, pconfig.marker@) ==> match r {
            Some(copy) => copy@ == spec_copy_file(file@, pconfig.marker@) && final(acc)@ == old(
                acc,
            )@.insert(
                spec_entry_key(file@, spec_asset_root(pconfig.asset_path)),
                spec_entry_val(file@, pconfig.marker@, spec_asset_root(pconfig.asset_path)),
            ),
            None => false,
        },
{
    let (stem, ext) = stem_and_extension(file.name.as_str());
    if contains_substr(stem, pconfig.marker.as_str()) {
        return None;
    }
    let digest = hash_bytes(file.bytes.as_slice());
    let new_name = build_name(stem, digest.as_str(), pconfig.marker.as_str(), ext);
    let orig_path = join_path(file.dir.as_str(), file.name.as_str());
    let copy_path = join_path(file.dir.as_str(), new_name.as_str());
    let root_ref: Option<&str> = match &pconfig.asset_path {
        Some(a) => Some(a.as_str()),
        None => None,
    };
    let key = relativize(orig_path.as_str(), root_ref);
    let value = relativize(copy_path.as_str(), root_ref);
    acc.insert(key, value);
    let copy = FileRec { dir: file.dir.clone(), name: new_name, bytes: clone_bytes(&file.bytes) };
    proof {
        assert(copy@ =~= spec_copy_file(file@, pconfig.marker@));
    }
    Some(copy)
}

/// Fingerprint every file of a matched tree, in walk order: accumulate the
/// manifest entries into `acc` and return the copies to create.
pub fn hash_and_copy_dir(pconfig: &ProcessedConfig, acc: &mut Manifest, files: &Vec<FileRec>) -> (
    copies: Vec<FileRec>)
    requires
        old(acc).wf(),
    ensures
        final(acc).wf(),
        views_of(copies@) == spec_fingerprint_files(views_of(files@), pconfig.marker@),
        final(acc)@ == spec_manifest_after(
            views_of(files@),
            pconfig.marker@,
            spec_asset_root(pconfig.asset_path),
            old(acc)@,
        ),
{
    let ghost m0: Map<Seq<char>, Seq<char>> = acc@;
    let ghost root: Option<Seq<char>> = spec_asset_root(pconfig.asset_path);
    let mut copies: Vec<FileRec> = Vec::new();
    let mut i: usize = 0;
    while i < files.len()
        invariant
            acc.wf(),
            i <= files@.len(),
            views_of(copies@) == spec_fingerprint_files(
                views_of(files@).take(i as int),
                pconfig.marker@,
            ),
            acc@ == spec_manifest_after(
                views_of(files@).take(i as int),
                pconfig.marker@,
                root,
                m0,
            ),
            root == spec_asset_root(pconfig.asset_path),
        decreases files@.len() - i,
    {
        let r = hash_and_copy(pconfig, acc, &files[i]);
        proof {
            assert(views_of(files@).take(i + 1).drop_last() =~= views_of(files@).take(i as int));
            assert(views_of(files@).take(i + 1).last() == files@[i as int]@);
        }
        match r {
            Some(copy) => copies.push(copy),
            None => (),
        }
        proof {
            assert(views_of(copies@) =~= spec_fingerprint_files(
                views_of(files@).take(i + 1),
                pconfig.marker@,
            ));
        }
        i = i + 1;
    }
    proof {
        assert(views_of(files@).take(files@.len() as int) =~= views_of(files@));
    }
    copies
}

/// Select the files a clean walk deletes: the full path of every file whose
/// stem carries the marker, in walk order.
pub fn clean_marked_paths(pconfig: &ProcessedConfig, files: &Vec<FileRec>) -> (doomed: Vec<String>)
    ensures
        doomed@.map_values(|p: String| p@) == spec_marked_paths(
            views_of(files@),
            pconfig.marker@,
        ),
{
    let mut doomed: Vec<String> = Vec::new();
    let mut i: usize = 0;
    while i < files.len()
        invariant
            i <= files@.len(),
            doomed@.map_values(|p: String| p@) == spec_marked_paths(
                views_of(files@).take(i as int),
                pconfig.marker@,
            ),
        decreases files@.len() - i,
    {
        let file = &files[i];
        proof {
            assert(views_of(files@).take(i + 1).drop_last() =~= views_of(files@).take(i as int));
            assert(views_of(files@).take(i + 1).last() == files@[i as int]@);
        }
        if crate::names::is_already_fingerprinted(file.name.as_str(), pconfig.marker.as_str()) {
            let path = join_path(file.dir.as_str(), file.name.as_str());
            doomed.push(path);
        }
        proof {
            assert(doomed@.map_values(|p: String| p@) =~= spec_marked_paths(
                views_of(files@).take(i + 1),
                pconfig.marker@,
            ));
        }
        i = i + 1;
    }
    proof {
        assert(views_of(files@).take(files@.len() as int) =~= views_of(files@));
    }
    doomed
}

} // verus!
