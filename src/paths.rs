use vstd::prelude::*;
use crate::text::{forward_slashes, has_substring, str_backslashes_to_slashes, str_contains};

verus! {

/// Whether a path is left out of tracking: it mentions the metadata
/// directory or one of the common tool, build and temporary names.
pub open spec fn ignored_path(p: Seq<char>) -> bool {
    has_substring(p, ".flowversion"@) || has_substring(p, ".git"@) || has_substring(p, ".gitignore"@)
        || has_substring(p, "node_modules"@) || has_substring(p, "target"@) || has_substring(
        p,
        ".DS_Store"@,
    ) || has_substring(p, "Thumbs.db"@) || has_substring(p, ".tmp"@) || has_substring(p, ".temp"@)
}

pub fn is_ignored(path: &str) -> (r: bool)
    ensures
        r == ignored_path(path@),
{
    if str_contains(path, ".flowversion") {
        return true;
    }
    str_contains(path, ".git") || str_contains(path, ".gitignore") || str_contains(
        path,
        "node_modules",
    ) || str_contains(path, "target") || str_contains(path, ".DS_Store") || str_contains(
        path,
        "Thumbs.db",
    ) || str_contains(path, ".tmp") || str_contains(path, ".temp")
}

/// A path with forward slashes only.
pub fn normalize_path(path: &str) -> (r: String)
    ensures
        r@ == forward_slashes(path@),
{
    str_backslashes_to_slashes(path)
}

/// The first path, nearest first, whose metadata directory exists.
pub open spec fn first_marked(ancestors: Seq<(Seq<char>, bool)>) -> Option<Seq<char>>
    decreases ancestors.len(),
{
    if ancestors.len() == 0 {
        None
    } else if ancestors[0].1 {
        Some(ancestors[0].0)
    } else {
        first_marked(ancestors.subrange(1, ancestors.len() as int))
    }
}

/// The repository root for a start directory, given its ancestors from the
/// start directory upward, each with whether a metadata directory exists in it.
pub fn find_repository_root(ancestors: &Vec<(String, bool)>) -> (r: Option<String>)
    ensures
        match r {
            Some(p) => first_marked(ancestors@.map_values(|a: (String, bool)| (a.0@, a.1)))
                == Some(p@),
            None => first_marked(ancestors@.map_values(|a: (String, bool)| (a.0@, a.1))) is None,
        },
{
    let ghost all = ancestors@.map_values(|a: (String, bool)| (a.0@, a.1));
    assert(all.subrange(0, all.len() as int) =~= all);
    let mut i: usize = 0;
    while i < ancestors.len()
        invariant
            0 <= i <= ancestors.len(),
            all == ancestors@.map_values(|a: (String, bool)| (a.0@, a.1)),
            first_marked(all) == first_marked(all.subrange(i as int, all.len() as int)),
        decreases ancestors.len() - i,
    {
        proof {
            let rest = all.subrange(i as int, all.len() as int);
            assert(rest.subrange(1, rest.len() as int) =~= all.subrange(i as int + 1, all.len() as int));
        }
        if ancestors[i].1 {
            return Some(ancestors[i].0.clone());
        }
        i = i + 1;
    }
    None
}

} // verus!
