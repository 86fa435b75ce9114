//! Line-item lists: lookup by id, removal by id, and reordering by a list of ids.
use vstd::prelude::*;
use crate::fresh::{candidate, candidate_string, lemma_free_candidate};
use crate::model::LineItem;

verus! {

pub open spec fn has_item(items: Seq<LineItem>, id: Seq<char>) -> bool {
    exists|i: int| 0 <= i < items.len() && (#[trigger] items[i]).id@ == id
}

/// `i` is the first position of an item with this id.
pub open spec fn is_first_match(items: Seq<LineItem>, id: Seq<char>, i: int) -> bool {
    &&& 0 <= i < items.len()
    &&& items[i].id@ == id
    &&& forall|j: int| 0 <= j < i ==> (#[trigger] items[j]).id@ != id
}

/// The first position of an item with this id (meaningful where there is one).
pub open spec fn first_match(items: Seq<LineItem>, id: Seq<char>) -> int {
    choose|i: int| is_first_match(items, id, i)
}

pub proof fn lemma_first_match(items: Seq<LineItem>, id: Seq<char>, i: int)
    requires
        is_first_match(items, id, i),
    ensures
        first_match(items, id) == i,
{
    let j = first_match(items, id);
    assert(is_first_match(items, id, j));
    if j < i {
        assert(items[j].id@ != id);
    } else if i < j {
        assert(items[i].id@ != id);
    }
}

/// The items without those that carry this id.
pub open spec fn without_item(items: Seq<LineItem>, id: Seq<char>) -> Seq<LineItem>
    decreases items.len(),
{
    if items.len() == 0 {
        Seq::<LineItem>::empty()
    } else {
        let rest = without_item(items.drop_last(), id);
        if items.last().id@ == id {
            rest
        } else {
            rest.push(items.last())
        }
    }
}

/// For each id in turn, the first item that carries it; ids that match no
/// item are passed over.
pub open spec fn reordered(items: Seq<LineItem>, ids: Seq<Seq<char>>) -> Seq<LineItem>
    decreases ids.len(),
{
    if ids.len() == 0 {
        Seq::<LineItem>::empty()
    } else {
        let rest = reordered(items, ids.drop_last());
        if has_item(items, ids.last()) {
            rest.push(items[first_match(items, ids.last())])
        } else {
            rest
        }
    }
}

/// Removing items never makes the list longer.
pub proof fn lemma_without_item_len(items: Seq<LineItem>, id: Seq<char>)
    ensures
        without_item(items, id).len() <= items.len(),
    decreases items.len(),
{
    if items.len() > 0 {
        lemma_without_item_len(items.drop_last(), id);
    }
}

/// The first position of an item with this id.
pub fn find_item(items: &Vec<LineItem>, id: &String) -> (r: Option<usize>)
    ensures
        r is None <==> !has_item(items@, id@),
        r matches Some(i) ==> is_first_match(items@, id@, i as int) && i == first_match(items@, id@),
{
    let mut i: usize = 0;
    while i < items.len()
        invariant
            i <= items@.len(),
            forall|j: int| 0 <= j < i ==> (#[trigger] items@[j]).id@ != id@,
        decreases items@.len() - i,
    {
        if items[i].id == *id {
            proof {
                lemma_first_match(items@, id@, i as int);
            }
            return Some(i);
        }
        i = i + 1;
    }
    None
}

/// The first of `base`, `base-1`, `base-2`, ... that no item carries.
pub fn fresh_item_id(items: &Vec<LineItem>, base: &str) -> (r: String)
    ensures
        !has_item(items@, r@),
        exists|k: nat| r@ == candidate(base@, k) && forall|j: nat| j < k ==> has_item(items@, #[trigger] candidate(base@, j)),
{
    let ghost ids = items@.map_values(|e: LineItem| e.id@);
    let len = items.len();
    let mut k: usize = 0;
    loop
        invariant
            k <= len,
            len == items@.len(),
            ids == items@.map_values(|e: LineItem| e.id@),
            forall|j: nat| j < k ==> has_item(items@, #[trigger] candidate(base@, j)),
        decreases len - k,
    {
        let c = candidate_string(base, k as u64);
        if find_item(items, &c).is_none() {
            return c;
        }
        if k == len {
            proof {
                lemma_free_candidate(base@, ids);
                let k0 = choose|k0: nat| k0 <= ids.len() && !ids.contains(#[trigger] candidate(base@, k0));
                let key = candidate(base@, k0);
                assert(has_item(items@, key));
                let i = choose|i: int| 0 <= i < items@.len() && (#[trigger] items@[i]).id@ == key;
                assert(ids[i] == key);
                assert(false);
            }
        }
        k = k + 1;
    }
}

/// The items without those that carry `id`.
pub fn remove_items(items: &Vec<LineItem>, id: &String) -> (r: Vec<LineItem>)
    ensures
        r@ == without_item(items@, id@),
{
    let mut r: Vec<LineItem> = Vec::new();
    let mut i: usize = 0;
    while i < items.len()
        invariant
            i <= items@.len(),
            r@ == without_item(items@.subrange(0, i as int), id@),
        decreases items@.len() - i,
    {
        proof {
            let next = items@.subrange(0, i as int + 1);
            assert(next.drop_last() =~= items@.subrange(0, i as int));
            assert(next.last() == items@[i as int]);
        }
        if items[i].id != *id {
            r.push(items[i].duplicate());
        }
        i = i + 1;
    }
    assert(items@.subrange(0, items@.len() as int) =~= items@);
    r
}

/// The ids as character sequences.
pub open spec fn id_views(ids: Seq<String>) -> Seq<Seq<char>> {
    ids.map_values(|s: String| s@)
}

/// The items in the order the ids give, as `reordered` says.
pub fn reorder_items(items: &Vec<LineItem>, ids: &Vec<String>) -> (r: Vec<LineItem>)
    ensures
        r@ == reordered(items@, id_views(ids@)),
{
    let ghost keys = id_views(ids@);
    let mut r: Vec<LineItem> = Vec::new();
    let mut k: usize = 0;
    while k < ids.len()
        invariant
            k <= ids@.len(),
            keys == id_views(ids@),
            r@ == reordered(items@, keys.subrange(0, k as int)),
        decreases ids@.len() - k,
    {
        proof {
            let next = keys.subrange(0, k as int + 1);
            assert(next.drop_last() =~= keys.subrange(0, k as int));
            assert(next.last() == ids@[k as int]@);
        }
        match find_item(items, &ids[k]) {
            Some(i) => {
                r.push(items[i].duplicate());
            },
            None => {},
        }
        k = k + 1;
    }
    assert(keys.subrange(0, ids@.len() as int) =~= keys);
    r
}

} // verus!
