//! The fingerprint namer: splitting a base name into stem and extension,
//! building the `<stem>.<digest>.<marker>[.<extension>]` name, and detecting
//! whether a base name already carries the marker.

use vstd::prelude::*;
use crate::strings::{contains_substr, str_contains};

verus! {

/// Index of the last '.' in a name, or -1 when there is none.
pub open spec fn spec_last_dot(name: Seq<char>) -> int
    decreases name.len(),
{
    if name.len() == 0 {
        -1
    } else if name.last() == '.' {
        name.len() - 1
    } else {
        spec_last_dot(name.drop_last())
    }
}

/// A name has an extension when a '.' stands after its first character; a
/// leading '.' alone (a hidden file) does not begin an extension.
pub open spec fn spec_has_ext(name: Seq<char>) -> bool {
    spec_last_dot(name) > 0
}

/// The base name without its extension; the whole name when it has none.
pub open spec fn spec_stem(name: Seq<char>) -> Seq<char> {
    if spec_has_ext(name) {
        name.take(spec_last_dot(name))
    } else {
        name
    }
}

/// The extension: what follows the last '.', or None when there is none.
pub open spec fn spec_ext(name: Seq<char>) -> Option<Seq<char>> {
    if spec_has_ext(name) {
        Some(name.skip(spec_last_dot(name) + 1))
    } else {
        None
    }
}

/// The fingerprinted name: stem, digest and marker joined by dots, with the
/// original extension appended when one exists.
pub open spec fn spec_build_name(
    stem: Seq<char>,
    digest: Seq<char>,
    marker: Seq<char>,
    ext: Option<Seq<char>>,
) -> Seq<char> {
    let base = stem + seq!['.'] + digest + seq!['.'] + marker;
    match ext {
        Some(e) => base + seq!['.'] + e,
        None => base,
    }
}

/// A base name counts as already fingerprinted when its stem contains the
/// marker as a substring (a deliberately over-broad match).
pub open spec fn spec_is_marked(name: Seq<char>, marker: Seq<char>) -> bool {
    str_contains(spec_stem(name), marker)
}

/// The last-dot index lies in the name, lands on a '.', and nothing after it
/// is a '.'.
pub proof fn lemma_last_dot_bounds(name: Seq<char>)
    ensures
        -1 <= spec_last_dot(name) < name.len(),
        spec_last_dot(name) >= 0 ==> name[spec_last_dot(name)] == '.',
        forall|j: int| spec_last_dot(name) < j < name.len() ==> name[j] != '.',
    decreases name.len(),
{
    if name.len() > 0 && name.last() != '.' {
        lemma_last_dot_bounds(name.drop_last());
        assert(forall|j: int| 0 <= j < name.len() - 1 ==> name[j] == name.drop_last()[j]);
    }
}

fn last_dot_index(name: &str) -> (r: Option<usize>)
    ensures
        match r {
            Some(i) => spec_last_dot(name@) == i,
            None => spec_last_dot(name@) == -1,
        },
{
    let len = name.unicode_len();
    proof {
        assert(name@.take(len as int) =~= name@);
    }
    let mut i: usize = len;
    while i > 0
        invariant
            len == name@.len(),
            i <= len,
            spec_last_dot(name@) == spec_last_dot(name@.take(i as int)),
        decreases i,
    {
        i = i - 1;
        let c = name.get_char(i);
        proof {
            assert(name@.take(i + 1).drop_last() =~= name@.take(i as int));
            assert(name@.take(i + 1).last() == name@[i as int]);
        }
        if c == '.' {
            return Some(i);
        }
    }
    None
}

/// Split a base name into its stem and its optional extension.
pub fn stem_and_extension(name: &str) -> (r: (&str, Option<&str>))
    ensures
        r.0@ == spec_stem(name@),
        match r.1 {
            Some(e) => spec_ext(name@) == Some(e@),
            None => spec_ext(name@) is None,
        },
{
    let len = name.unicode_len();
    match last_dot_index(name) {
        Some(i) if i > 0 => {
            proof {
                lemma_last_dot_bounds(name@);
            }
            let stem = name.substring_char(0, i);
            let ext = name.substring_char(i + 1, len);
            proof {
                assert(stem@ =~= spec_stem(name@));
                assert(ext@ =~= name@.skip(i + 1));
            }
            (stem, Some(ext))
        },
        _ => (name, None),
    }
}

/// The stem of a base name (the name itself when it has no extension).
pub fn file_stem_of(name: &str) -> (r: &str)
    ensures
        r@ == spec_stem(name@),
{
    let (stem, _) = stem_and_extension(name);
    stem
}

/// Whether a base name already carries the marker in its stem: such a file is
/// never a hashing candidate again and is what the clean walk deletes.
pub fn is_already_fingerprinted(name: &str, marker: &str) -> (r: bool)
    ensures
        r == spec_is_marked(name@, marker@),
{
    let stem = file_stem_of(name);
    contains_substr(stem, marker)
}

/// Build the fingerprinted base name from stem, digest, marker and optional
/// extension.
pub fn build_name(stem: &str, digest: &str, marker: &str, extension: Option<&str>) -> (r: String)
    ensures
        r@ == spec_build_name(
            stem@,
            digest@,
            marker@,
            match extension {
                Some(e) => Some(e@),
                None => None,
            },
        ),
{
    proof {
        reveal_strlit(".");
    }
    let mut s = String::from_str(stem);
    s.append(".");
    s.append(digest);
    s.append(".");
    s.append(marker);
    match extension {
        Some(e) => {
            s.append(".");
            s.append(e);
            proof {
                assert(s@ =~= spec_build_name(stem@, digest@, marker@, Some(e@)));
            }
        },
        None => {
            proof {
                assert(s@ =~= spec_build_name(stem@, digest@, marker@, None));
            }
        },
    }
    s
}

} // verus!
