//! Verification of declared files against the digests of their live
//! content.
use vstd::prelude::*;
use crate::manifest::{FileCheck, check_view, checks_view};

verus! {

/// The paths that pass verification, in order: those whose observed digest
/// is present and equals the expected one. An observed `None` stands for a
/// file that could not be opened; such a file is silently left out.
pub open spec fn verified_of(
    checks: Seq<(Seq<char>, u128)>,
    observed: Seq<Option<u128>>,
) -> Seq<Seq<char>>
    decreases checks.len(),
{
    if checks.len() == 0 || observed.len() == 0 {
        seq![]
    } else {
        let prev = verified_of(checks.drop_last(), observed.drop_last());
        if observed.last() == Some(checks.last().1) {
            prev.push(checks.last().0)
        } else {
            prev
        }
    }
}

pub open spec fn paths_view(v: Seq<String>) -> Seq<Seq<char>> {
    v.map_values(|s: String| s@)
}

/// Whether a live file whose digest was observed as `observed` is the
/// unmodified content the check declares.
pub fn digest_matches(check: &FileCheck, observed: Option<u128>) -> (r: bool)
    ensures
        r == (observed == Some(check.expected)),
{
    match observed {
        Some(d) => d == check.expected,
        None => false,
    }
}

/// The absolute paths of one manifest that are verified, given for each
/// check the digest of its live file (`None` where it could not be opened).
pub fn verified_paths(checks: &Vec<FileCheck>, observed: &Vec<Option<u128>>) -> (r: Vec<String>)
    requires
        checks@.len() == observed@.len(),
    ensures
        paths_view(r@) == verified_of(checks_view(checks@), observed@),
{
    let mut out: Vec<String> = Vec::new();
    let mut i: usize = 0;
    while i < checks.len()
        invariant
            i <= checks@.len(),
            checks@.len() == observed@.len(),
            paths_view(out@) == verified_of(
                checks_view(checks@.subrange(0, i as int)),
                observed@.subrange(0, i as int),
            ),
        decreases checks@.len() - i,
    {
        assert(checks_view(checks@.subrange(0, i + 1)).drop_last() =~= checks_view(
            checks@.subrange(0, i as int),
        ));
        assert(observed@.subrange(0, i + 1).drop_last() =~= observed@.subrange(0, i as int));
        assert(checks_view(checks@.subrange(0, i + 1)).last() == check_view(checks@[i as int]));
        if digest_matches(&checks[i], observed[i]) {
            let ghost prev = out@;
            out.push(checks[i].path.clone());
            assert(paths_view(out@) =~= paths_view(prev).push(checks@[i as int].path@));
        }
        i = i + 1;
    }
    assert(checks@.subrange(0, checks@.len() as int) =~= checks@);
    assert(observed@.subrange(0, observed@.len() as int) =~= observed@);
    out
}

} // verus!
