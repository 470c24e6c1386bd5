//! Finding the first position of a key in a sequence.
use vstd::prelude::*;

verus! {

/// `i` is the first position at which `ids` holds `id`.
pub open spec fn is_first_index(ids: Seq<u64>, id: u64, i: int) -> bool {
    0 <= i < ids.len() && ids[i] == id && forall|j: int| 0 <= j < i ==> ids[j] != id
}

/// The first position at which `ids` holds `id`, or -1 when it holds it nowhere.
pub open spec fn first_index(ids: Seq<u64>, id: u64) -> int {
    if exists|i: int| is_first_index(ids, id, i) {
        choose|i: int| is_first_index(ids, id, i)
    } else {
        -1
    }
}

pub proof fn lemma_first_index_unique(ids: Seq<u64>, id: u64, i: int)
    requires
        is_first_index(ids, id, i),
    ensures
        first_index(ids, id) == i,
{
    let k = first_index(ids, id);
    assert(is_first_index(ids, id, k));
    if k < i {
        assert(ids[k] != id);
    }
    if i < k {
        assert(ids[i] != id);
    }
}

pub proof fn lemma_first_index_absent(ids: Seq<u64>, id: u64)
    requires
        forall|j: int| 0 <= j < ids.len() ==> ids[j] != id,
    ensures
        first_index(ids, id) == -1,
{
}

/// A position holding `id` bounds the first one.
pub proof fn lemma_first_index_exists(ids: Seq<u64>, id: u64, w: int)
    requires
        0 <= w < ids.len(),
        ids[w] == id,
    ensures
        exists|i: int| is_first_index(ids, id, i),
    decreases w,
{
    if forall|j: int| 0 <= j < w ==> ids[j] != id {
        assert(is_first_index(ids, id, w));
    } else {
        let j = choose|j: int| 0 <= j < w && ids[j] == id;
        lemma_first_index_exists(ids, id, j);
    }
}

/// The first position of `id` in `ids`, found by a scan.
pub fn find_first(ids: &Vec<u64>, id: u64) -> (r: Option<usize>)
    ensures
        r is None <==> first_index(ids@, id) == -1,
        r matches Some(i) ==> i as int == first_index(ids@, id) && is_first_index(ids@, id, i as int),
{
    let mut i: usize = 0;
    while i < ids.len()
        invariant
            i <= ids@.len(),
            forall|j: int| 0 <= j < i ==> ids@[j] != id,
        decreases ids@.len() - i,
    {
        if ids[i] == id {
            proof {
                lemma_first_index_unique(ids@, id, i as int);
            }
            return Some(i);
        }
        i = i + 1;
    }
    proof {
        lemma_first_index_absent(ids@, id);
    }
    None
}

} // verus!
