//! The path normalizer: joining a directory with a base name, and computing
//! the manifest-facing relative form of a path under an optional asset root.

use vstd::prelude::*;
use crate::strings::{starts_with, str_starts_with};

verus! {

/// A path is absolute when it begins with '/'.
pub open spec fn spec_is_absolute(p: Seq<char>) -> bool {
    p.len() > 0 && p[0] == '/'
}

/// A relative path coerced to an absolute-rooted form; an absolute path is
/// kept as it is.
pub open spec fn spec_absolutize(p: Seq<char>) -> Seq<char> {
    if spec_is_absolute(p) {
        p
    } else {
        seq!['/'] + p
    }
}

/// A path lies under a root when the root is a prefix of it and the prefix
/// ends at a component boundary.
pub open spec fn spec_rooted_under(p: Seq<char>, root: Seq<char>) -> bool {
    starts_with(p, root) && (p.len() == root.len() || p[root.len() as int] == '/' || (root.len()
        > 0 && root.last() == '/'))
}

/// The path relative to a root it lies under: the rest after the root, with
/// one separating '/' removed.
pub open spec fn spec_strip_root(p: Seq<char>, root: Seq<char>) -> Seq<char> {
    let rest = p.skip(root.len() as int);
    if rest.len() > 0 && rest[0] == '/' {
        rest.skip(1)
    } else {
        rest
    }
}

/// The manifest-facing form of a path: relative to the asset root when it
/// lies under it, otherwise the path itself in absolute-rooted form.
pub open spec fn spec_relativize(p: Seq<char>, root: Option<Seq<char>>) -> Seq<char> {
    match root {
        Some(r) => if spec_rooted_under(p, r) {
            spec_strip_root(p, r)
        } else {
            spec_absolutize(p)
        },
        None => spec_absolutize(p),
    }
}

/// A directory path joined with a base name; an empty directory stands for
/// the current directory and adds no separator.
pub open spec fn spec_join(dir: Seq<char>, name: Seq<char>) -> Seq<char> {
    if dir.len() == 0 {
        name
    } else {
        dir + seq!['/'] + name
    }
}

/// Join a directory path and a base name into a full path.
pub fn join_path(dir: &str, name: &str) -> (r: String)
    ensures
        r@ == spec_join(dir@, name@),
{
    proof {
        reveal_strlit("/");
    }
    if dir.unicode_len() == 0 {
        String::from_str(name)
    } else {
        let mut s = String::from_str(dir);
        s.append("/");
        s.append(name);
        proof {
            assert(s@ =~= spec_join(dir@, name@));
        }
        s
    }
}

fn absolutize(path: &str) -> (r: String)
    ensures
        r@ == spec_absolutize(path@),
{
    proof {
        reveal_strlit("/");
    }
    if path.unicode_len() > 0 && path.get_char(0) == '/' {
        String::from_str(path)
    } else {
        let mut s = String::from_str("/");
        s.append(path);
        proof {
            assert(s@ =~= spec_absolutize(path@));
        }
        s
    }
}

/// Compute the manifest-facing form of a path given the optional asset root.
pub fn relativize(path: &str, asset_root: Option<&str>) -> (r: String)
    ensures
        r@ == spec_relativize(
            path@,
            match asset_root {
                Some(a) => Some(a@),
                None => None,
            },
        ),
{
    match asset_root {
        Some(root) => {
            let plen = path.unicode_len();
            let rlen = root.unicode_len();
            let mut under = str_starts_with(path, root);
            if under && !(plen == rlen || path.get_char(rlen) == '/' || (rlen > 0 && root.get_char(
                rlen - 1,
            ) == '/')) {
                under = false;
            }
            if under {
                let rest = path.substring_char(rlen, plen);
                let r = if rest.unicode_len() > 0 && rest.get_char(0) == '/' {
                    String::from_str(rest.substring_char(1, plen - rlen))
                } else {
                    String::from_str(rest)
                };
                proof {
                    assert(rest@ =~= path@.skip(rlen as int));
                    assert(r@ =~= spec_strip_root(path@, root@));
                }
                r
            } else {
                absolutize(path)
            }
        },
        None => absolutize(path),
    }
}

} // verus!
