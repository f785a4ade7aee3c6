//! Reconciliation: which regular files found by the audit walk are
//! reported as orphans.
use vstd::prelude::*;
use crate::aggregate::VerifiedPaths;
use crate::manifest::str_strip_prefix;
use crate::verification::paths_view;

verus! {

/// Whether `path` lies at or below `root`, comparing whole path components
/// (`/a/bc` is not below `/a/b`). `root` is written without a trailing `/`.
pub open spec fn under(path: Seq<char>, root: Seq<char>) -> bool {
    &&& root.is_prefix_of(path)
    &&& (path.len() == root.len() || path[root.len() as int] == '/')
}

/// Whether a file found at `path` by the walk is reported: it is outside
/// the manifest storage and not a verified package file.
pub open spec fn reported(verified: Set<Seq<char>>, storage_root: Seq<char>, path: Seq<char>) -> bool {
    !under(path, storage_root) && !verified.contains(path)
}

/// The report for a walk that found the files `walked`, in walk order.
pub open spec fn report_of(
    verified: Set<Seq<char>>,
    storage_root: Seq<char>,
    walked: Seq<Seq<char>>,
) -> Seq<Seq<char>>
    decreases walked.len(),
{
    if walked.len() == 0 {
        seq![]
    } else {
        let prev = report_of(verified, storage_root, walked.drop_last());
        if reported(verified, storage_root, walked.last()) {
            prev.push(walked.last())
        } else {
            prev
        }
    }
}

pub fn is_under(path: &str, root: &str) -> (r: bool)
    ensures
        r == under(path@, root@),
{
    proof {
        reveal_strlit("/");
    }
    match str_strip_prefix(path, root) {
        None => false,
        Some(rest) => {
            if rest.is_empty() {
                true
            } else {
                let below = str_strip_prefix(rest, "/").is_some();
                assert(rest@[0] == path@[root@.len() as int]);
                assert("/"@.len() == 1 && "/"@[0] == '/');
                assert(below <==> rest@[0] == '/') by {
                    if rest@[0] == '/' {
                        assert(rest@.subrange(0, 1) =~= "/"@);
                    }
                    if below {
                        assert(rest@.subrange(0, 1)[0] == "/"@[0]);
                    }
                }
                below
            }
        },
    }
}

/// Whether a file found at `path` by the walk is an orphan.
pub fn is_orphan(verified: &VerifiedPaths, path: &str, storage_root: &str) -> (r: bool)
    ensures
        r == reported(verified@, storage_root@, path@),
{
    !is_under(path, storage_root) && !verified.contains(path)
}

/// The orphans among the files a walk found, in walk order.
pub fn orphans(verified: &VerifiedPaths, walked: &Vec<String>, storage_root: &str) -> (r: Vec<String>)
    ensures
        paths_view(r@) == report_of(verified@, storage_root@, paths_view(walked@)),
{
    let mut out: Vec<String> = Vec::new();
    let mut i: usize = 0;
    while i < walked.len()
        invariant
            i <= walked@.len(),
            paths_view(out@) == report_of(verified@, storage_root@, paths_view(walked@.subrange(0, i as int))),
        decreases walked@.len() - i,
    {
        assert(paths_view(walked@.subrange(0, i + 1)).drop_last() =~= paths_view(walked@.subrange(0, i as int)));
        assert(paths_view(walked@.subrange(0, i + 1)).last() == walked@[i as int]@);
        if is_orphan(verified, walked[i].as_str(), storage_root) {
            let ghost prev = out@;
            out.push(walked[i].clone());
            assert(paths_view(out@) =~= paths_view(prev).push(walked@[i as int]@));
        }
        i = i + 1;
    }
    assert(walked@.subrange(0, walked@.len() as int) =~= walked@);
    out
}

} // verus!
