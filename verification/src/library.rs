//! The games on offer, each under an identifier of its own.

use vstd::prelude::*;

verus! {

/// Whether the identifier at index `i` of `ids` occurs there for the first time.
pub open spec fn is_first_of_id(ids: Seq<String>, i: int) -> bool {
    &&& 0 <= i < ids.len()
    &&& forall|j: int| 0 <= j < i ==> (#[trigger] ids[j])@ != ids[i]@
}

/// Of games loaded one after the other under the identifiers `ids`, tells
/// which to keep: each one whose identifier no earlier game bears, by its
/// index, in rising order.
pub fn first_of_each_id(ids: &Vec<String>) -> (kept: Vec<usize>)
    ensures
        forall|k: int| 0 <= k < kept@.len() ==> is_first_of_id(ids@, #[trigger] kept@[k] as int),
        forall|i: int| is_first_of_id(ids@, i) ==> kept@.contains(i as usize),
        forall|k: int, l: int| 0 <= k < l < kept@.len() ==> kept@[k] < kept@[l],
{
    let mut kept: Vec<usize> = Vec::new();
    let mut i: usize = 0;
    while i < ids.len()
        invariant
            i <= ids@.len(),
            forall|k: int|
                0 <= k < kept@.len() ==> is_first_of_id(ids@, #[trigger] kept@[k] as int)
                    && kept@[k] < i,
            forall|n: int| 0 <= n < i && is_first_of_id(ids@, n) ==> kept@.contains(n as usize),
            forall|k: int, l: int| 0 <= k < l < kept@.len() ==> kept@[k] < kept@[l],
        decreases ids@.len() - i,
    {
        let mut seen = false;
        let mut j: usize = 0;
        while j < i
            invariant
                j <= i < ids@.len(),
                seen <==> exists|m: int| 0 <= m < j && (#[trigger] ids@[m])@ == ids@[i as int]@,
            decreases i - j,
        {
            if ids[j] == ids[i] {
                seen = true;
            }
            j += 1;
        }
        if !seen {
            let ghost before = kept@;
            kept.push(i);
            proof {
                assert forall|n: int| 0 <= n < i + 1 && is_first_of_id(ids@, n) implies kept@.contains(
                    n as usize,
                ) by {
                    if n < i {
                        let k = choose|k: int| 0 <= k < before.len() && before[k] == n as usize;
                        assert(kept@[k] == n as usize);
                    } else {
                        assert(kept@[before.len() as int] == i);
                    }
                }
            }
        }
        i += 1;
    }
    kept
}

} // verus!
