//! Identities of players and of bus connections.
//!
//! An identity is a string and is compared by value. Contracts speak of an
//! identity as the sequence of its characters.

use vstd::prelude::*;

verus! {

/// The identities that a list of strings holds, in the order of the list.
pub open spec fn names_of(list: Seq<String>) -> Seq<Seq<char>> {
    list.map_values(|s: String| s@)
}

/// The identity that an optional string holds, if any.
pub open spec fn name_of(name: Option<String>) -> Option<Seq<char>> {
    match name {
        Some(s) => Some(s@),
        None => None,
    }
}

/// `list` without `id`, wherever `id` stands in it.
pub open spec fn without(list: Seq<Seq<char>>, id: Seq<char>) -> Seq<Seq<char>> {
    list.filter(|e: Seq<char>| e != id)
}

/// A list that does not hold `id` stays as it is when `id` is taken out.
pub proof fn lemma_without_absent(list: Seq<Seq<char>>, id: Seq<char>)
    requires
        !list.contains(id),
    ensures
        without(list, id) == list,
    decreases list.len(),
{
    reveal(Seq::filter);
    if list.len() > 0 {
        let front = list.drop_last();
        assert forall|e: Seq<char>| front.contains(e) implies list.contains(e) by {
            let i = choose|i: int| 0 <= i < front.len() && front[i] == e;
            assert(list[i] == e);
        }
        assert(list[list.len() - 1] == list.last());
        lemma_without_absent(front, id);
        assert(without(list, id) =~= front.push(list.last()));
        assert(front.push(list.last()) =~= list);
    } else {
        assert(without(list, id) =~= list);
    }
}

/// A list that holds `id` once, at place `k`, loses exactly that place when
/// `id` is taken out.
pub proof fn lemma_without_present(list: Seq<Seq<char>>, id: Seq<char>, k: int)
    requires
        list.no_duplicates(),
        0 <= k < list.len(),
        list[k] == id,
    ensures
        without(list, id) == list.remove(k),
    decreases list.len(),
{
    reveal(Seq::filter);
    let front = list.drop_last();
    if k == list.len() - 1 {
        assert(!front.contains(id)) by {
            if front.contains(id) {
                let i = choose|i: int| 0 <= i < front.len() && front[i] == id;
                assert(list[i] == id);
            }
        }
        lemma_without_absent(front, id);
        assert(list.remove(k) =~= front);
    } else {
        assert(front.no_duplicates());
        assert(front[k] == id);
        lemma_without_present(front, id, k);
        assert(list.last() != id);
        assert(without(list, id) =~= front.remove(k).push(list.last()));
        assert(front.remove(k).push(list.last()) =~= list.remove(k));
    }
}

/// Taking `id` out of a list without duplicates leaves a list without
/// duplicates that holds what the list held, but for `id`.
pub proof fn lemma_without_holds(list: Seq<Seq<char>>, id: Seq<char>)
    requires
        list.no_duplicates(),
    ensures
        without(list, id).no_duplicates(),
        !without(list, id).contains(id),
        forall|e: Seq<char>| without(list, id).contains(e) <==> (list.contains(e) && e != id),
{
    let rest = without(list, id);
    if list.contains(id) {
        let k = choose|k: int| 0 <= k < list.len() && list[k] == id;
        lemma_without_present(list, id, k);
        assert forall|e: Seq<char>| rest.contains(e) <==> (list.contains(e) && e != id) by {
            if rest.contains(e) {
                let i = choose|i: int| 0 <= i < rest.len() && rest[i] == e;
                let m = if i < k {
                    i
                } else {
                    i + 1
                };
                assert(list[m] == e);
            }
            if list.contains(e) && e != id {
                let m = choose|m: int| 0 <= m < list.len() && list[m] == e;
                let i = if m < k {
                    m
                } else {
                    m - 1
                };
                assert(rest[i] == e);
            }
        }
    } else {
        lemma_without_absent(list, id);
    }
}

/// A list without duplicates that takes in an item that it does not hold
/// stays without duplicates, and holds that item besides what it held.
pub proof fn lemma_push_holds(list: Seq<Seq<char>>, id: Seq<char>)
    requires
        list.no_duplicates(),
        !list.contains(id),
    ensures
        list.push(id).no_duplicates(),
        list.push(id).to_set() == list.to_set().insert(id),
{
    let grown = list.push(id);
    assert forall|e: Seq<char>| grown.to_set().contains(e) <==> list.to_set().insert(id).contains(
        e,
    ) by {
        if grown.contains(e) {
            let i = choose|i: int| 0 <= i < grown.len() && grown[i] == e;
            if i < list.len() {
                assert(list[i] == e);
            }
        }
        if list.contains(e) {
            let i = choose|i: int| 0 <= i < list.len() && list[i] == e;
            assert(grown[i] == e);
        }
        if e == id {
            assert(grown[list.len() as int] == e);
        }
    }
    assert(grown.to_set() =~= list.to_set().insert(id));
}

/// A copy of `list`, string by string.
pub fn clone_names(list: &Vec<String>) -> (copy: Vec<String>)
    ensures
        names_of(copy@) == names_of(list@),
{
    let mut copy: Vec<String> = Vec::new();
    let mut i: usize = 0;
    while i < list.len()
        invariant
            i <= list.len(),
            copy.len() == i,
            forall|j: int| 0 <= j < i ==> copy@[j]@ == list@[j]@,
        decreases list.len() - i,
    {
        copy.push(list[i].clone());
        i += 1;
    }
    assert(names_of(copy@) =~= names_of(list@));
    copy
}

/// The first place at which `list` holds `name`, if it holds it at all.
pub fn position_of(list: &Vec<String>, name: &String) -> (found: Option<usize>)
    ensures
        match found {
            Some(k) => {
                &&& k < list.len()
                &&& names_of(list@)[k as int] == name@
                &&& forall|j: int| 0 <= j < k ==> names_of(list@)[j] != name@
            },
            None => !names_of(list@).contains(name@),
        },
{
    let mut i: usize = 0;
    while i < list.len()
        invariant
            i <= list.len(),
            forall|j: int| 0 <= j < i ==> names_of(list@)[j] != name@,
        decreases list.len() - i,
    {
        if list[i] == *name {
            return Some(i);
        }
        i += 1;
    }
    None
}

/// Takes `name` out of `list`, wherever it stands in it. The other names
/// keep their order.
pub fn remove_name(list: &mut Vec<String>, name: &String)
    ensures
        names_of(final(list)@) == without(names_of(old(list)@), name@),
{
    let ghost all = names_of(list@);
    let mut kept: Vec<String> = Vec::new();
    let mut i: usize = 0;
    proof {
        reveal(Seq::filter);
        assert(all.subrange(0, 0) =~= Seq::empty());
        assert(names_of(kept@) =~= without(all.subrange(0, 0), name@));
    }
    while i < list.len()
        invariant
            i <= list.len(),
            all == names_of(list@),
            names_of(kept@) == without(all.subrange(0, i as int), name@),
        decreases list.len() - i,
    {
        let ghost before = names_of(kept@);
        if list[i] != *name {
            kept.push(list[i].clone());
            assert(names_of(kept@) =~= before.push(all[i as int]));
        }
        proof {
            reveal(Seq::filter);
            let next = all.subrange(0, i + 1);
            assert(next.drop_last() =~= all.subrange(0, i as int));
            assert(next.last() == all[i as int]);
        }
        i += 1;
    }
    assert(all.subrange(0, i as int) =~= all);
    *list = kept;
}

/// Tells whether two strings hold the same name.
pub fn same_name(a: &str, b: &str) -> (same: bool)
    ensures
        same == (a@ == b@),
{
    a.to_owned() == b.to_owned()
}

} // verus!
