//! Paths below the well-known root, as lists of components.

use vstd::prelude::*;
use crate::text::same_text;

verus! {

/// Whether two paths are the same, component for component.
pub fn same_path(a: &Vec<String>, b: &Vec<String>) -> (same: bool)
    ensures
        same == (a.deep_view() == b.deep_view()),
{
    if a.len() != b.len() {
        assert(a.deep_view().len() != b.deep_view().len());
        return false;
    }
    let mut i: usize = 0;
    while i < a.len()
        invariant
            i <= a.len(),
            a.len() == b.len(),
            forall|k: int| 0 <= k < i ==> a[k]@ == b[k]@,
        decreases a.len() - i,
    {
        if !same_text(a[i].as_str(), b[i].as_str()) {
            assert(a.deep_view()[i as int] != b.deep_view()[i as int]);
            return false;
        }
        i += 1;
    }
    assert(a.deep_view() =~= b.deep_view());
    true
}

/// The first `len` components of a path, or the whole path where it has
/// no more than `len`.
pub fn prefix(path: &Vec<String>, len: usize) -> (start: Vec<String>)
    ensures
        start.deep_view() == if len <= path.len() {
            path.deep_view().take(len as int)
        } else {
            path.deep_view()
        },
{
    let end = if len <= path.len() {
        len
    } else {
        path.len()
    };
    let mut start: Vec<String> = Vec::new();
    let mut i: usize = 0;
    while i < end
        invariant
            i <= end <= path.len(),
            start@ =~= path@.take(i as int),
        decreases end - i,
    {
        start.push(path[i].clone());
        i += 1;
    }
    assert(path@.take(path.len() as int) =~= path@);
    start
}

/// A path with one more component below it.
pub fn child(directory: &Vec<String>, name: &str) -> (path: Vec<String>)
    ensures
        path.deep_view() == directory.deep_view().push(name@),
{
    let mut path = prefix(directory, directory.len());
    let ghost above = path;
    path.push(name.to_owned());
    assert(above.deep_view() =~= directory.deep_view());
    path
}

} // verus!
