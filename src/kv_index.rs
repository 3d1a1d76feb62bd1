//! Key layout of a key-value task store: one entry per task, and per
//! account a list of its task ids.
use vstd::prelude::*;
use crate::store::views;

verus! {

/// Key of a task's record: `task:<id>`.
pub fn task_key(id: &str) -> (r: String)
    ensures
        r@ == "task:"@ + id@,
{
    let mut s = String::from_str("task:");
    s.append(id);
    s
}

/// Key of an account's task list: `account_tasks:<hash>`.
pub fn account_index_key(account_hash: &str) -> (r: String)
    ensures
        r@ == "account_tasks:"@ + account_hash@,
{
    let mut s = String::from_str("account_tasks:");
    s.append(account_hash);
    s
}

/// Adds `id` to an account's task list unless it is there; tells whether
/// the list changed (and must be written back).
pub fn add_to_index(ids: &mut Vec<String>, id: &str) -> (changed: bool)
    ensures
        changed == !views(old(ids)@).contains(id@),
        changed ==> views(final(ids)@) == views(old(ids)@).push(id@),
        !changed ==> final(ids)@ == old(ids)@,
{
    let target = String::from_str(id);
    let mut i: usize = 0;
    while i < ids.len()
        invariant
            i <= ids@.len(),
            ids@ == old(ids)@,
            target@ == id@,
            forall|k: int| 0 <= k < i ==> ids@[k]@ != id@,
        decreases ids.len() - i,
    {
        if ids[i] == target {
            assert(views(ids@)[i as int] == id@);
            return false;
        }
        i = i + 1;
    }
    assert(!views(ids@).contains(id@)) by {
        if views(ids@).contains(id@) {
            let k = choose|k: int| 0 <= k < views(ids@).len() && views(ids@)[k] == id@;
            assert(ids@[k]@ == id@);
        }
    }
    let ghost before = ids@;
    ids.push(target);
    assert(views(ids@) =~= views(before).push(id@));
    true
}

/// The entries of `ids` other than `id`, in order.
pub open spec fn without(ids: Seq<Seq<char>>, id: Seq<char>) -> Seq<Seq<char>>
    decreases ids.len(),
{
    if ids.len() == 0 {
        ids
    } else if ids.last() == id {
        without(ids.drop_last(), id)
    } else {
        without(ids.drop_last(), id).push(ids.last())
    }
}

/// An account's task list without `id`.
pub fn remove_from_index(ids: &Vec<String>, id: &str) -> (r: Vec<String>)
    ensures
        views(r@) == without(views(ids@), id@),
{
    let target = String::from_str(id);
    let mut r: Vec<String> = Vec::new();
    let mut i: usize = 0;
    while i < ids.len()
        invariant
            i <= ids@.len(),
            target@ == id@,
            views(r@) == without(views(ids@).take(i as int), id@),
        decreases ids.len() - i,
    {
        assert(views(ids@).take(i + 1).drop_last() =~= views(ids@).take(i as int));
        if ids[i] != target {
            let ghost before = r@;
            let s = ids[i].clone();
            r.push(s);
            assert(views(r@) =~= views(before).push(ids@[i as int]@));
        }
        i = i + 1;
    }
    assert(views(ids@).take(ids@.len() as int) =~= views(ids@));
    r
}

} // verus!
