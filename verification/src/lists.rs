//! Id lists: finding an id, and what taking one out leaves.

use vstd::prelude::*;
use crate::model::without;

verus! {

/// The first position of `id` in `ids`, if it occurs.
pub fn position(ids: &Vec<u64>, id: u64) -> (at: Option<usize>)
    ensures
        match at {
            Some(i) => i < ids.len() && ids@[i as int] == id && !ids@.take(i as int).contains(id),
            None => !ids@.contains(id),
        },
{
    let mut i: usize = 0;
    while i < ids.len()
        invariant
            i <= ids.len(),
            forall|j: int| 0 <= j < i ==> ids@[j] != id,
        decreases ids.len() - i,
    {
        if ids[i] == id {
            return Some(i);
        }
        i += 1;
    }
    None
}

/// Whether no id occurs twice in `ids`.
pub fn distinct(ids: &Vec<u64>) -> (ok: bool)
    ensures
        ok == ids@.no_duplicates(),
{
    let mut i: usize = 0;
    while i < ids.len()
        invariant
            i <= ids.len(),
            forall|a: int, b: int| 0 <= a < b < ids.len() && a < i ==> ids@[a] != ids@[b],
        decreases ids.len() - i,
    {
        let mut j: usize = i + 1;
        while j < ids.len()
            invariant
                i < j <= ids.len(),
                forall|b: int| i < b < j ==> ids@[i as int] != ids@[b],
            decreases ids.len() - j,
        {
            if ids[i] == ids[j] {
                return false;
            }
            j += 1;
        }
        i += 1;
    }
    true
}

/// A list keeps all its ids when none of them is to go.
pub proof fn lemma_without_none(list: Seq<u64>, gone: Set<u64>)
    requires
        forall|i: int| 0 <= i < list.len() ==> !gone.contains(list[i]),
    ensures
        without(list, gone) == list,
    decreases list.len(),
{
    reveal(Seq::filter);
    if list.len() > 0 {
        lemma_without_none(list.drop_last(), gone);
        assert(list.drop_last().push(list.last()) =~= list);
    }
}

/// In a list without repetitions, to take out the id at a position is to take
/// out the id.
pub proof fn lemma_remove_is_without(list: Seq<u64>, i: int)
    requires
        list.no_duplicates(),
        0 <= i < list.len(),
    ensures
        list.remove(i) == without(list, set![list[i]]),
    decreases list.len(),
{
    reveal(Seq::filter);
    let gone = set![list[i]];
    let front = list.drop_last();
    if i == list.len() - 1 {
        lemma_without_none(front, gone);
        assert(list.remove(i) =~= front);
    } else {
        assert(front[i] == list[i]);
        lemma_remove_is_without(front, i);
        assert(!gone.contains(list.last()));
        assert(list.remove(i) =~= front.remove(i).push(list.last()));
    }
}

/// What is left of a list holds an id exactly if the list held it and it was
/// not to go.
pub proof fn lemma_without_contains(list: Seq<u64>, gone: Set<u64>, id: u64)
    ensures
        without(list, gone).contains(id) <==> list.contains(id) && !gone.contains(id),
    decreases list.len(),
{
    reveal(Seq::filter);
    if list.len() > 0 {
        let front = list.drop_last();
        lemma_without_contains(front, gone, id);
        let kept = without(front, gone);
        if list.contains(id) {
            let i = choose|i: int| 0 <= i < list.len() && list[i] == id;
            if i < list.len() - 1 {
                assert(front[i] == id);
            }
        }
        if front.contains(id) {
            let i = choose|i: int| 0 <= i < front.len() && front[i] == id;
            assert(list[i] == id);
        }
        if !gone.contains(list.last()) {
            let whole = kept.push(list.last());
            assert(whole[kept.len() as int] == list.last());
            if kept.contains(id) {
                let i = choose|i: int| 0 <= i < kept.len() && kept[i] == id;
                assert(whole[i] == id);
            }
        }
    }
}

/// What is left of a list without repetitions has none, and is no longer.
pub proof fn lemma_without_distinct(list: Seq<u64>, gone: Set<u64>)
    requires
        list.no_duplicates(),
    ensures
        without(list, gone).no_duplicates(),
        without(list, gone).len() <= list.len(),
    decreases list.len(),
{
    reveal(Seq::filter);
    if list.len() > 0 {
        let front = list.drop_last();
        lemma_without_distinct(front, gone);
        lemma_without_contains(front, gone, list.last());
        if front.contains(list.last()) {
            let i = choose|i: int| 0 <= i < front.len() && front[i] == list.last();
            assert(list[i] == list[list.len() - 1]);
        }
    }
}

/// What is left of a list is the list itself if it is as long.
pub proof fn lemma_without_same(list: Seq<u64>, gone: Set<u64>)
    ensures
        without(list, gone).len() == list.len() ==> without(list, gone) == list,
    decreases list.len(),
{
    reveal(Seq::filter);
    if list.len() > 0 {
        let front = list.drop_last();
        lemma_without_same(front, gone);
        front.lemma_filter_len(|id: u64| !gone.contains(id));
        assert(front.push(list.last()) =~= list);
    }
}

/// A list without repetitions has none after an id that it lacks is appended.
pub proof fn lemma_push_distinct(list: Seq<u64>, id: u64)
    requires
        list.no_duplicates(),
        !list.contains(id),
    ensures
        list.push(id).no_duplicates(),
{
    let whole = list.push(id);
    assert forall|i: int, j: int|
        0 <= i < whole.len() && 0 <= j < whole.len() && i != j implies whole[i] != whole[j] by {
        if i < list.len() {
            assert(list.contains(list[i]));
        }
        if j < list.len() {
            assert(list.contains(list[j]));
        }
    }
}

} // verus!
