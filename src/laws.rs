//! Properties of the whole pipeline: manifests verified, aggregated, and
//! reconciled against a walk of the audited roots.
use vstd::prelude::*;
use crate::aggregate::union_of;
use crate::reconcile::{report_of, reported, under};
use crate::verification::verified_of;

verus! {

/// Per-manifest checks and observed digests fit together.
pub open spec fn well_paired(
    checks: Seq<Seq<(Seq<char>, u128)>>,
    observed: Seq<Seq<Option<u128>>>,
) -> bool {
    &&& checks.len() == observed.len()
    &&& forall|m: int| 0 <= m < checks.len() ==> (#[trigger] checks[m]).len() == observed[m].len()
}

/// The verified set that the pipeline builds from every manifest's checks
/// and the digests observed for them.
pub open spec fn verified_set(
    checks: Seq<Seq<(Seq<char>, u128)>>,
    observed: Seq<Seq<Option<u128>>>,
) -> Set<Seq<char>> {
    union_of(Seq::new(checks.len(), |m: int| verified_of(checks[m], observed[m])))
}

/// A path is in one manifest's verified list exactly when some check of
/// that manifest names it and its observed digest matches.
pub proof fn lemma_verified_of_contains(
    checks: Seq<(Seq<char>, u128)>,
    observed: Seq<Option<u128>>,
    p: Seq<char>,
)
    requires
        checks.len() == observed.len(),
    ensures
        verified_of(checks, observed).contains(p) <==> exists|i: int|
            0 <= i < checks.len() && (#[trigger] checks[i]).0 == p && observed[i] == Some(checks[i].1),
    decreases checks.len(),
{
    if checks.len() > 0 {
        let c0 = checks.drop_last();
        let o0 = observed.drop_last();
        lemma_verified_of_contains(c0, o0, p);
        let prev = verified_of(c0, o0);
        let n = checks.len() - 1;
        if verified_of(checks, observed).contains(p) {
            if !prev.contains(p) {
                let k = choose|k: int| 0 <= k < verified_of(checks, observed).len() && verified_of(checks, observed)[k] == p;
                assert(k == prev.len());
                assert(checks[n].0 == p && observed[n] == Some(checks[n].1));
            } else {
                let i = choose|i: int| 0 <= i < c0.len() && (#[trigger] c0[i]).0 == p && o0[i] == Some(c0[i].1);
                assert(checks[i] == c0[i]);
            }
        }
        if exists|i: int| 0 <= i < checks.len() && (#[trigger] checks[i]).0 == p && observed[i] == Some(checks[i].1) {
            let i = choose|i: int| 0 <= i < checks.len() && (#[trigger] checks[i]).0 == p && observed[i] == Some(checks[i].1);
            if i < n {
                assert(c0[i] == checks[i]);
                let k = choose|k: int| 0 <= k < prev.len() && prev[k] == p;
                assert(verified_of(checks, observed)[k] == p);
            } else {
                assert(verified_of(checks, observed).last() == p);
            }
        }
    }
}

/// A path is in the report exactly when the walk found it and it is
/// reported.
pub proof fn lemma_report_of_contains(
    verified: Set<Seq<char>>,
    storage_root: Seq<char>,
    walked: Seq<Seq<char>>,
    p: Seq<char>,
)
    ensures
        report_of(verified, storage_root, walked).contains(p) <==> (walked.contains(p) && reported(
            verified,
            storage_root,
            p,
        )),
    decreases walked.len(),
{
    if walked.len() > 0 {
        let w0 = walked.drop_last();
        lemma_report_of_contains(verified, storage_root, w0, p);
        let prev = report_of(verified, storage_root, w0);
        let full = report_of(verified, storage_root, walked);
        if full.contains(p) && !prev.contains(p) {
            let k = choose|k: int| 0 <= k < full.len() && full[k] == p;
            assert(k == prev.len());
            assert(walked[walked.len() - 1] == p);
        }
        if full.contains(p) && prev.contains(p) {
            let k = choose|k: int| 0 <= k < w0.len() && w0[k] == p;
            assert(walked[k] == p);
        }
        if walked.contains(p) && reported(verified, storage_root, p) {
            let k = choose|k: int| 0 <= k < walked.len() && walked[k] == p;
            if k < w0.len() {
                assert(w0[k] == p);
                let j = choose|j: int| 0 <= j < prev.len() && prev[j] == p;
                assert(full[j] == p);
            } else {
                assert(full.last() == p);
            }
        }
    }
}

/// A file whose live content matches the digest a manifest declares for it
/// never appears in the report.
pub proof fn lemma_matching_file_not_reported(
    checks: Seq<Seq<(Seq<char>, u128)>>,
    observed: Seq<Seq<Option<u128>>>,
    storage_root: Seq<char>,
    walked: Seq<Seq<char>>,
    m: int,
    i: int,
)
    requires
        well_paired(checks, observed),
        0 <= m < checks.len(),
        0 <= i < checks[m].len(),
        observed[m][i] == Some(checks[m][i].1),
    ensures
        !report_of(verified_set(checks, observed), storage_root, walked).contains(checks[m][i].0),
{
    let p = checks[m][i].0;
    let lists = Seq::new(checks.len(), |k: int| verified_of(checks[k], observed[k]));
    lemma_verified_of_contains(checks[m], observed[m], p);
    assert(lists[m].contains(p));
    assert(verified_set(checks, observed).contains(p));
    lemma_report_of_contains(verified_set(checks, observed), storage_root, walked, p);
}

/// A file found by the walk, outside the manifest storage, for which no
/// manifest declares a matching digest (none names it, or every manifest
/// that names it declares another digest than the one observed) is in the
/// report.
pub proof fn lemma_drifted_file_reported(
    checks: Seq<Seq<(Seq<char>, u128)>>,
    observed: Seq<Seq<Option<u128>>>,
    storage_root: Seq<char>,
    walked: Seq<Seq<char>>,
    p: Seq<char>,
)
    requires
        well_paired(checks, observed),
        walked.contains(p),
        !under(p, storage_root),
        forall|m: int, i: int|
            0 <= m < checks.len() && 0 <= i < checks[m].len() && (#[trigger] checks[m][i]).0 == p
                ==> observed[m][i] != Some(checks[m][i].1),
    ensures
        report_of(verified_set(checks, observed), storage_root, walked).contains(p),
{
    let lists = Seq::new(checks.len(), |k: int| verified_of(checks[k], observed[k]));
    if verified_set(checks, observed).contains(p) {
        let m = choose|m: int| 0 <= m < lists.len() && (#[trigger] lists[m]).contains(p);
        lemma_verified_of_contains(checks[m], observed[m], p);
        let i = choose|i: int| 0 <= i < checks[m].len() && (#[trigger] checks[m][i]).0 == p && observed[m][i] == Some(checks[m][i].1);
        assert(false);
    }
    lemma_report_of_contains(verified_set(checks, observed), storage_root, walked, p);
}

/// A file found by the walk, outside the manifest storage, that no manifest
/// names at all is in the report.
pub proof fn lemma_unlisted_file_reported(
    checks: Seq<Seq<(Seq<char>, u128)>>,
    observed: Seq<Seq<Option<u128>>>,
    storage_root: Seq<char>,
    walked: Seq<Seq<char>>,
    p: Seq<char>,
)
    requires
        well_paired(checks, observed),
        walked.contains(p),
        !under(p, storage_root),
        forall|m: int, i: int| 0 <= m < checks.len() && 0 <= i < checks[m].len() ==> (#[trigger] checks[m][i]).0 != p,
    ensures
        report_of(verified_set(checks, observed), storage_root, walked).contains(p),
{
    lemma_drifted_file_reported(checks, observed, storage_root, walked, p);
}

/// No file under the manifest storage root is ever in the report, whatever
/// was verified.
pub proof fn lemma_storage_never_reported(
    verified: Set<Seq<char>>,
    storage_root: Seq<char>,
    walked: Seq<Seq<char>>,
    p: Seq<char>,
)
    requires
        under(p, storage_root),
    ensures
        !report_of(verified, storage_root, walked).contains(p),
{
    lemma_report_of_contains(verified, storage_root, walked, p);
}

/// Two runs over the same manifests, the same observed digests and the
/// same files (walked in any order) report the same set of paths.
pub proof fn lemma_report_idempotent(
    checks: Seq<Seq<(Seq<char>, u128)>>,
    observed: Seq<Seq<Option<u128>>>,
    storage_root: Seq<char>,
    walked1: Seq<Seq<char>>,
    walked2: Seq<Seq<char>>,
)
    requires
        walked1.to_set() == walked2.to_set(),
    ensures
        report_of(verified_set(checks, observed), storage_root, walked1).to_set()
            == report_of(verified_set(checks, observed), storage_root, walked2).to_set(),
{
    let v = verified_set(checks, observed);
    let r1 = report_of(v, storage_root, walked1);
    let r2 = report_of(v, storage_root, walked2);
    assert forall|p: Seq<char>| r1.to_set().contains(p) <==> r2.to_set().contains(p) by {
        lemma_report_of_contains(v, storage_root, walked1, p);
        lemma_report_of_contains(v, storage_root, walked2, p);
        assert(walked1.to_set().contains(p) == walked2.to_set().contains(p));
        assert(walked1.to_set().contains(p) == walked1.contains(p));
        assert(walked2.to_set().contains(p) == walked2.contains(p));
        assert(r1.to_set().contains(p) == r1.contains(p));
        assert(r2.to_set().contains(p) == r2.contains(p));
    }
    assert(r1.to_set() =~= r2.to_set());
}

/// Aggregation holds exactly the paths of the union of the per-manifest
/// lists, and does not depend on the order in which the lists arrive: any
/// two arrangements of the same lists give the same set.
pub proof fn lemma_union_order_insensitive(l1: Seq<Seq<Seq<char>>>, l2: Seq<Seq<Seq<char>>>)
    requires
        l1.to_set() == l2.to_set(),
    ensures
        union_of(l1) == union_of(l2),
        forall|i: int, p: Seq<char>| 0 <= i < l1.len() && #[trigger] l1[i].contains(p) ==> union_of(l1).contains(p),
        forall|p: Seq<char>| #[trigger] union_of(l1).contains(p) ==> exists|i: int| 0 <= i < l1.len() && (#[trigger] l1[i]).contains(p),
{
    assert forall|p: Seq<char>| union_of(l1).contains(p) implies union_of(l2).contains(p) by {
        let i = choose|i: int| 0 <= i < l1.len() && (#[trigger] l1[i]).contains(p);
        assert(l1.to_set().contains(l1[i]));
        assert(l2.to_set().contains(l1[i]));
        let j = choose|j: int| 0 <= j < l2.len() && l2[j] == l1[i];
        assert(l2[j].contains(p));
    }
    assert forall|p: Seq<char>| union_of(l2).contains(p) implies union_of(l1).contains(p) by {
        let i = choose|i: int| 0 <= i < l2.len() && (#[trigger] l2[i]).contains(p);
        assert(l2.to_set().contains(l2[i]));
        assert(l1.to_set().contains(l2[i]));
        let j = choose|j: int| 0 <= j < l1.len() && l1[j] == l2[i];
        assert(l1[j].contains(p));
    }
    assert(union_of(l1) =~= union_of(l2));
}

} // verus!
