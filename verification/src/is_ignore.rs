//! The ignore resolver: whether a file is excluded from formatting.
//!
//! The directory that holds the file is walked with the project's ignore files
//! in force, and the walk yields the paths that no pattern excludes. A file is
//! eligible when the walk yields its path, and ignored when it does not.

use vstd::prelude::*;

verus! {

/// The paths that a walk yielded, each as its bytes.
pub open spec fn paths(walked: Seq<Vec<u8>>) -> Seq<Seq<u8>> {
    walked.map_values(|p: Vec<u8>| p@)
}

/// `path` is ignored when the walk did not yield it.
pub open spec fn is_ignored_spec(path: Seq<u8>, walked: Seq<Seq<u8>>) -> bool {
    !walked.contains(path)
}

/// Whether two byte strings are the same.
pub fn same_bytes(a: &[u8], b: &[u8]) -> (r: bool)
    ensures
        r == (a@ == b@),
{
    if a.len() != b.len() {
        return false;
    }
    let mut i: usize = 0;
    while i < a.len()
        invariant
            a.len() == b.len(),
            i <= a.len(),
            forall|j: int| 0 <= j < i ==> a@[j] == b@[j],
        decreases a.len() - i,
    {
        if a[i] != b[i] {
            return false;
        }
        i += 1;
    }
    assert(a@ =~= b@);
    true
}

/// Whether `path` is excluded from formatting, given the paths that the walk
/// of its directory yielded: it is, if and only if it is not among them.
pub fn is_ignored(path: &[u8], walked: &Vec<Vec<u8>>) -> (ignored: bool)
    ensures
        ignored == is_ignored_spec(path@, paths(walked@)),
{
    let mut i: usize = 0;
    while i < walked.len()
        invariant
            i <= walked.len(),
            forall|j: int| 0 <= j < i ==> paths(walked@)[j] != path@,
        decreases walked.len() - i,
    {
        if same_bytes(path, walked[i].as_slice()) {
            assert(paths(walked@)[i as int] == path@);
            return false;
        }
        i += 1;
    }
    true
}

} // verus!
