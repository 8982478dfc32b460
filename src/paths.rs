//! Where a glob pattern's walk starts.
use crate::text::{contains_char, views};
use vstd::prelude::*;
use vstd::string::StringExecFns;

verus! {

pub uninterp spec fn path_components(p: Seq<char>) -> Seq<Seq<char>>;

pub uninterp spec fn path_parent(p: Seq<char>) -> Option<Seq<char>>;

pub uninterp spec fn path_joined(parts: Seq<Seq<char>>) -> Seq<char>;

/// Relies on std::path::Path::components: the components of a path in order, each
/// as text (the root as "/"); the result depends on the text alone.
#[verifier::external_body]
fn components(p: &str) -> (r: Vec<String>)
    ensures
        views(r@) == path_components(p@),
{
    std::path::Path::new(p).components().map(|c| c.as_os_str().to_string_lossy().to_string()).collect()
}

/// Relies on std::path::Path::parent: the path without its last component, if it
/// has one.
#[verifier::external_body]
fn parent(p: &str) -> (r: Option<String>)
    ensures
        r matches Some(s) ==> path_parent(p@) == Some(s@),
        r is None ==> path_parent(p@) is None,
{
    std::path::Path::new(p).parent().map(|x| x.display().to_string())
}

/// Relies on collecting path components into a std::path::PathBuf: the path made
/// of `parts` in order.
#[verifier::external_body]
fn join(parts: &[String]) -> (r: String)
    ensures
        r@ == path_joined(views(parts@)),
{
    parts.iter().collect::<std::path::PathBuf>().display().to_string()
}

/// A component holds a glob metacharacter.
pub open spec fn has_glob_meta(c: Seq<char>) -> bool {
    c.contains('*') || c.contains('?') || c.contains('[') || c.contains('{')
}

/// The number of leading components without a glob metacharacter.
pub open spec fn literal_prefix_len(cs: Seq<Seq<char>>, k: int) -> bool {
    &&& 0 <= k <= cs.len()
    &&& forall|j: int| 0 <= j < k ==> !has_glob_meta(#[trigger] cs[j])
    &&& k < cs.len() ==> has_glob_meta(cs[k])
}

/// The directory to walk for a glob pattern: its leading components up to the
/// first one with a metacharacter; when there are none, the pattern's parent, or
/// the root.
pub fn glob_root(pattern: &str) -> (r: String)
    ensures
        exists|k: int|
            literal_prefix_len(path_components(pattern@), k) && r@ == if k == 0 {
                match path_parent(pattern@) {
                    Some(p) => p,
                    None => "/"@,
                }
            } else {
                path_joined(path_components(pattern@).subrange(0, k))
            },
{
    let comps = components(pattern);
    let ghost cs = path_components(pattern@);
    let mut k: usize = 0;
    while k < comps.len()
        invariant
            views(comps@) == cs,
            k <= comps@.len(),
            forall|j: int| 0 <= j < k ==> !has_glob_meta(#[trigger] cs[j]),
        ensures
            k <= comps@.len(),
            forall|j: int| 0 <= j < k ==> !has_glob_meta(#[trigger] cs[j]),
            k < comps@.len() ==> has_glob_meta(cs[k as int]),
        decreases comps@.len() - k,
    {
        let c = comps[k].as_str();
        assert(cs[k as int] == c@);
        if contains_char(c, '*') || contains_char(c, '?') || contains_char(c, '[') || contains_char(
            c,
            '{',
        ) {
            break;
        }
        k = k + 1;
    }
    assert(literal_prefix_len(cs, k as int));
    if k == 0 {
        match parent(pattern) {
            Some(p) => p,
            None => String::from_str("/"),
        }
    } else {
        let prefix = comps.as_slice().split_at(k).0;
        proof {
            assert(views(prefix@) == cs.subrange(0, k as int));
        }
        join(prefix)
    }
}

} // verus!
