//! Nearest-hit resolution over a scene: every object is tested against the
//! ray, and the hit with the smallest ray parameter wins, the earliest
//! object on ties. Each object's answer is given as an ordering key of its
//! ray parameter (`None` for no hit); keys order as the parameters do.

use vstd::prelude::*;

verus! {

/// Whether object `i` holds the winning hit among `keys`: it was hit, no
/// object was hit nearer, and every earlier object was hit strictly farther
/// or not at all.
pub open spec fn is_nearest(keys: Seq<Option<u64>>, i: int) -> bool {
    &&& 0 <= i < keys.len()
    &&& keys[i] is Some
    &&& forall|j: int| 0 <= j < keys.len() && keys[j] is Some ==> keys[i]->0 <= keys[j]->0
    &&& forall|j: int| 0 <= j < i && keys[j] is Some ==> keys[i]->0 < keys[j]->0
}

/// At most one object holds the winning hit, so the result of
/// `nearest_hit` is determined by the objects' answers.
pub proof fn lemma_nearest_unique(keys: Seq<Option<u64>>, i: int, j: int)
    requires
        is_nearest(keys, i),
        is_nearest(keys, j),
    ensures
        i == j,
{
    if i < j {
        assert(keys[j]->0 < keys[i]->0);
    } else if j < i {
        assert(keys[i]->0 < keys[j]->0);
    }
}

/// Index of the nearest hit among the objects' answers, or `None` when no
/// object was hit.
pub fn nearest_hit(keys: &Vec<Option<u64>>) -> (r: Option<usize>)
    ensures
        r is None <==> (forall|j: int| 0 <= j < keys@.len() ==> keys@[j] is None),
        r matches Some(i) ==> is_nearest(keys@, i as int),
{
    let mut best: Option<usize> = None;
    let mut i: usize = 0;
    while i < keys.len()
        invariant
            i <= keys@.len(),
            best is None <==> (forall|j: int| 0 <= j < i ==> keys@[j] is None),
            best matches Some(b) ==> is_nearest(keys@.take(i as int), b as int),
        decreases keys@.len() - i,
    {
        let ghost prefix = keys@.take(i as int);
        let ghost next = keys@.take(i + 1);
        assert(next =~= prefix.push(keys@[i as int]));
        if let Some(k) = keys[i] {
            let nearer = match best {
                Some(b) => {
                    let kb = keys[b].unwrap();
                    assert(prefix[b as int] == keys@[b as int]);
                    k < kb
                },
                None => true,
            };
            if nearer {
                best = Some(i);
                assert forall|j: int| 0 <= j < next.len() && next[j] is Some implies next[i as int]->0
                    <= next[j]->0 by {
                    if j < i {
                        assert(next[j] == prefix[j]);
                    }
                }
                assert forall|j: int| 0 <= j < i && next[j] is Some implies next[i as int]->0
                    < next[j]->0 by {
                    assert(next[j] == prefix[j]);
                }
            } else {
                let ghost b = best->0 as int;
                assert forall|j: int| 0 <= j < next.len() && next[j] is Some implies next[b]->0
                    <= next[j]->0 by {
                    if j < i {
                        assert(next[j] == prefix[j]);
                    }
                }
                assert forall|j: int| 0 <= j < b && next[j] is Some implies next[b]->0
                    < next[j]->0 by {
                    assert(next[j] == prefix[j]);
                }
            }
        } else {
            if let Some(b) = best {
                assert forall|j: int| 0 <= j < next.len() && next[j] is Some implies next[b as int]->0
                    <= next[j]->0 by {
                    if j < i {
                        assert(next[j] == prefix[j]);
                    }
                }
                assert forall|j: int| 0 <= j < b && next[j] is Some implies next[b as int]->0
                    < next[j]->0 by {
                    assert(next[j] == prefix[j]);
                }
            }
        }
        i = i + 1;
    }
    assert(keys@.take(i as int) =~= keys@);
    best
}

} // verus!
