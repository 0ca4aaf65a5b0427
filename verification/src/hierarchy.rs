use vstd::prelude::*;

use crate::model::{BoneDatabase, BoneView, Skeleton};

verus! {

/// Following parent references from bone `i` reaches a root bone (one
/// with no parent) within `fuel` visited bones, every step staying
/// inside the list. An out-of-range index breaks the chain just as a
/// cycle does: the walk never reaches a root.
pub open spec fn chain_reaches_root(bones: Seq<BoneView>, i: int, fuel: nat) -> bool
    decreases fuel,
{
    if fuel == 0 {
        false
    } else if !(0 <= i < bones.len()) {
        false
    } else {
        match bones[i].parent {
            None => true,
            Some(p) => chain_reaches_root(bones, p as int, (fuel - 1) as nat),
        }
    }
}

/// Every bone's parent chain reaches a root within as many visited bones
/// as the skeleton has: the bounded-walk criterion for an acyclic,
/// unbroken hierarchy. A chain that is longer than the bone list must
/// revisit a bone, so a walk that exhausts this bound has found a cycle.
pub open spec fn hierarchy_ok(bones: Seq<BoneView>) -> bool {
    forall|i: int| 0 <= i < bones.len() ==> chain_reaches_root(bones, i, bones.len())
}

impl Skeleton {
    /// The optional post-decode validation pass: walks parent references
    /// from each bone, bounded by the bone count, and reports the first
    /// bone whose walk fails to reach a root — a structural cycle, or a
    /// step through an out-of-range parent index. Decoding itself does
    /// not run this check, since some producers legitimately emit
    /// non-hierarchical structures.
    pub fn check_hierarchy(&self) -> (r: Option<usize>)
        ensures
            match r {
                None => hierarchy_ok(self.deep_view().bones),
                Some(i) => {
                    let bv = self.deep_view().bones;
                    &&& i < bv.len()
                    &&& !chain_reaches_root(bv, i as int, bv.len())
                    &&& forall|j: int| 0 <= j < i ==> chain_reaches_root(bv, j, bv.len())
                },
            },
    {
        let ghost bv = self.deep_view().bones;
        let n = self.bones.len();
        let mut i: usize = 0;
        while i < n
            invariant
                n == self.bones@.len(),
                bv == self.deep_view().bones,
                i <= n,
                forall|j: int| 0 <= j < i ==> chain_reaches_root(bv, j, n as nat),
            decreases n - i,
        {
            let mut cur: usize = i;
            let mut steps: usize = 0;
            let mut ok: bool;
            loop
                invariant_except_break
                    n == self.bones@.len(),
                    bv == self.deep_view().bones,
                    i < n,
                    steps <= n,
                    chain_reaches_root(bv, i as int, n as nat) == chain_reaches_root(
                        bv,
                        cur as int,
                        (n - steps) as nat,
                    ),
                ensures
                    n == self.bones@.len(),
                    bv == self.deep_view().bones,
                    i < n,
                    ok == chain_reaches_root(bv, i as int, n as nat),
                decreases n - steps,
            {
                if steps == n {
                    ok = false;
                    break ;
                }
                if cur >= n {
                    ok = false;
                    break ;
                }
                match self.bones[cur].parent {
                    None => {
                        ok = true;
                        break ;
                    },
                    Some(p) => {
                        proof {
                            assert(bv[cur as int].parent == self.bones@[cur as int].parent);
                        }
                        cur = p as usize;
                        steps = steps + 1;
                    },
                }
            }
            if !ok {
                return Some(i);
            }
            i = i + 1;
        }
        None
    }
}

impl BoneDatabase {
    /// Runs the hierarchy walk on every skeleton in order and reports the
    /// first failure as a (skeleton index, bone index) pair.
    pub fn check_hierarchy(&self) -> (r: Option<(usize, usize)>)
        ensures
            match r {
                None => forall|s: int|
                    0 <= s < self.skeletons@.len() ==> hierarchy_ok(
                        #[trigger] self.deep_view().skeletons[s].bones,
                    ),
                Some((s, i)) => {
                    let bones = self.deep_view().skeletons[s as int].bones;
                    &&& s < self.skeletons@.len()
                    &&& i < bones.len()
                    &&& !chain_reaches_root(bones, i as int, bones.len())
                    &&& forall|t: int|
                        0 <= t < s ==> hierarchy_ok(#[trigger] self.deep_view().skeletons[t].bones)
                },
            },
    {
        let k = self.skeletons.len();
        let mut s: usize = 0;
        while s < k
            invariant
                k == self.skeletons@.len(),
                s <= k,
                forall|t: int|
                    0 <= t < s ==> hierarchy_ok(#[trigger] self.deep_view().skeletons[t].bones),
            decreases k - s,
        {
            proof {
                assert(self.deep_view().skeletons[s as int] == self.skeletons@[s as int].deep_view());
            }
            if let Some(i) = self.skeletons[s].check_hierarchy() {
                return Some((s, i));
            }
            s = s + 1;
        }
        None
    }
}

} // verus!
