//! Aggregation of the verified paths of every manifest into one
//! deduplicated set.
use vstd::prelude::*;
use vstd::hash_set::StringHashSet;
use crate::verification::paths_view;

verus! {

/// The paths listed by any of the lists.
pub open spec fn union_of(lists: Seq<Seq<Seq<char>>>) -> Set<Seq<char>> {
    Set::new(|p: Seq<char>| exists|i: int| 0 <= i < lists.len() && (#[trigger] lists[i]).contains(p))
}

pub open spec fn lists_view(lists: Seq<Vec<String>>) -> Seq<Seq<Seq<char>>> {
    lists.map_values(|l: Vec<String>| paths_view(l@))
}

/// The set of absolute paths confirmed to be unmodified package-owned files.
pub struct VerifiedPaths {
    set: StringHashSet,
}

impl View for VerifiedPaths {
    type V = Set<Seq<char>>;

    closed spec fn view(&self) -> Set<Seq<char>> {
        self.set@
    }
}

impl VerifiedPaths {
    pub fn new() -> (r: VerifiedPaths)
        ensures
            r@ == Set::<Seq<char>>::empty(),
    {
        VerifiedPaths { set: StringHashSet::new() }
    }

    pub fn contains(&self, path: &str) -> (r: bool)
        ensures
            r == self@.contains(path@),
    {
        self.set.contains(path)
    }

    /// Number of distinct paths held.
    pub fn len(&self) -> (r: usize)
        ensures
            r == self@.len(),
    {
        self.set.len()
    }

    /// Adds every path of one manifest's verified list.
    pub fn add_all(&mut self, paths: &Vec<String>)
        ensures
            final(self)@ == old(self)@.union(paths_view(paths@).to_set()),
    {
        let mut i: usize = 0;
        while i < paths.len()
            invariant
                i <= paths@.len(),
                forall|p: Seq<char>| #[trigger] self@.contains(p) <==> (old(self)@.contains(p) || exists|k: int| 0 <= k < i && paths@[k]@ == p),
            decreases paths@.len() - i,
        {
            let ghost before = self@;
            self.set.insert(paths[i].clone());
            assert forall|p: Seq<char>| #[trigger] self@.contains(p) <==> (old(self)@.contains(p) || exists|k: int| 0 <= k < i + 1 && paths@[k]@ == p) by {
                if p == paths@[i as int]@ {
                    assert(0 <= i < i + 1 && paths@[i as int]@ == p);
                }
                if exists|k: int| 0 <= k < i + 1 && paths@[k]@ == p {
                    let k = choose|k: int| 0 <= k < i + 1 && paths@[k]@ == p;
                    if k < i {
                        assert(before.contains(p));
                    }
                }
            }
            i = i + 1;
        }
        assert forall|p: Seq<char>| self@.contains(p) <==> old(self)@.union(paths_view(paths@).to_set()).contains(p) by {
            if exists|k: int| 0 <= k < paths@.len() && paths@[k]@ == p {
                let k = choose|k: int| 0 <= k < paths@.len() && paths@[k]@ == p;
                assert(paths_view(paths@)[k] == p);
            }
            if paths_view(paths@).contains(p) {
                let k = choose|k: int| 0 <= k < paths_view(paths@).len() && paths_view(paths@)[k] == p;
                assert(paths@[k]@ == p);
            }
        }
        assert(self@ =~= old(self)@.union(paths_view(paths@).to_set()));
    }
}

/// Merges the verified lists of all manifests into one set: exactly the
/// union of the lists, whatever order they come in.
pub fn aggregate(lists: &Vec<Vec<String>>) -> (r: VerifiedPaths)
    ensures
        r@ == union_of(lists_view(lists@)),
{
    let mut acc = VerifiedPaths::new();
    let mut i: usize = 0;
    while i < lists.len()
        invariant
            i <= lists@.len(),
            acc@ == union_of(lists_view(lists@.subrange(0, i as int))),
        decreases lists@.len() - i,
    {
        let ghost before = acc@;
        acc.add_all(&lists[i]);
        let ghost lv = lists_view(lists@.subrange(0, i + 1));
        let ghost lv0 = lists_view(lists@.subrange(0, i as int));
        assert forall|p: Seq<char>| acc@.contains(p) <==> union_of(lv).contains(p) by {
            if before.contains(p) {
                let j = choose|j: int| 0 <= j < lv0.len() && (#[trigger] lv0[j]).contains(p);
                assert(lv[j] == lv0[j]);
            }
            if paths_view(lists@[i as int]@).to_set().contains(p) {
                assert(lv[i as int] == paths_view(lists@[i as int]@));
            }
            if union_of(lv).contains(p) {
                let j = choose|j: int| 0 <= j < lv.len() && (#[trigger] lv[j]).contains(p);
                if j < i {
                    assert(lv[j] == lv0[j]);
                } else {
                    assert(lv[j] == paths_view(lists@[i as int]@));
                }
            }
        }
        assert(acc@ =~= union_of(lv));
        i = i + 1;
    }
    assert(lists@.subrange(0, lists@.len() as int) =~= lists@);
    acc
}

} // verus!
