//! Numbers that providers give under more than one name.
use vstd::prelude::*;

verus! {

/// The first number that could be read.
pub open spec fn first_read<N>(candidates: Seq<Option<N>>) -> Option<N>
    decreases candidates.len(),
{
    if candidates.len() == 0 {
        None
    } else {
        match candidates[0] {
            Some(number) => Some(number),
            None => first_read(candidates.drop_first()),
        }
    }
}

/// The first number that could be read, of those under each name in turn. A name with something
/// else under it is passed over.
pub fn first_usable<N: Copy>(candidates: &Vec<Option<N>>) -> (r: Option<N>)
    ensures
        r == first_read(candidates@),
{
    let mut i: usize = 0;
    assert(candidates@.skip(0) =~= candidates@);
    while i < candidates.len()
        invariant
            i <= candidates@.len(),
            first_read(candidates@) == first_read(candidates@.skip(i as int)),
        decreases candidates@.len() - i,
    {
        proof {
            assert(candidates@.skip(i as int)[0] == candidates@[i as int]);
            assert(candidates@.skip(i as int).drop_first() =~= candidates@.skip(i + 1));
        }
        if let Some(number) = candidates[i] {
            return Some(number);
        }
        i += 1;
    }
    None
}

/// The first number that could be read counts, whatever comes behind it, and there is none only
/// where none could be.
pub proof fn law_first_number_counts<N: Copy>(candidates: &Vec<Option<N>>, r: Option<N>, k: int)
    requires
        call_ensures(first_usable::<N>, (candidates,), r),
        0 <= k <= candidates@.len(),
        forall|i: int| 0 <= i < k ==> #[trigger] candidates@[i] is None,
        k < candidates@.len() ==> candidates@[k] is Some,
    ensures
        k < candidates@.len() ==> r == candidates@[k],
        k == candidates@.len() ==> r is None,
{
    lemma_first_read(candidates@, k);
}

proof fn lemma_first_read<N>(candidates: Seq<Option<N>>, k: int)
    requires
        0 <= k <= candidates.len(),
        forall|i: int| 0 <= i < k ==> #[trigger] candidates[i] is None,
        k < candidates.len() ==> candidates[k] is Some,
    ensures
        k < candidates.len() ==> first_read(candidates) == candidates[k],
        k == candidates.len() ==> first_read(candidates) is None,
    decreases candidates.len(),
{
    if k > 0 {
        let rest = candidates.drop_first();
        assert(candidates[0] is None);
        assert forall|i: int| 0 <= i < k - 1 implies #[trigger] rest[i] is None by {
            assert(rest[i] == candidates[i + 1]);
        }
        lemma_first_read(rest, k - 1);
    }
}

} // verus!
