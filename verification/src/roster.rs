//! The roster: the identities of a registry in the order in which a login or
//! logout broadcast lists them, by display name and, among equal names, by
//! id.

use crate::envelope::{users_view, User, UserView};
use crate::session::SessionView;
use crate::text::{
    lemma_text_lt_irreflexive, lemma_text_lt_total, lemma_text_lt_transitive, same_text,
    text_before, text_lt,
};
use vstd::prelude::*;
use vstd::seq_lib::*;

verus! {

/// Whether `a` is listed before `b`.
pub open spec fn user_lt(a: UserView, b: UserView) -> bool {
    text_lt(a.name, b.name) || (a.name == b.name && text_lt(a.id, b.id))
}

pub proof fn lemma_user_lt_irreflexive(a: UserView)
    ensures
        !user_lt(a, a),
{
    lemma_text_lt_irreflexive(a.name);
    lemma_text_lt_irreflexive(a.id);
}

pub proof fn lemma_user_lt_transitive(a: UserView, b: UserView, c: UserView)
    requires
        user_lt(a, b),
        user_lt(b, c),
    ensures
        user_lt(a, c),
{
    lemma_text_lt_irreflexive(b.name);
    if text_lt(a.name, b.name) && text_lt(b.name, c.name) {
        lemma_text_lt_transitive(a.name, b.name, c.name);
    }
    if a.name == b.name && b.name == c.name {
        lemma_text_lt_transitive(a.id, b.id, c.id);
    }
}

pub proof fn lemma_user_lt_total(a: UserView, b: UserView)
    ensures
        a == b || user_lt(a, b) || user_lt(b, a),
{
    lemma_text_lt_total(a.name, b.name);
    lemma_text_lt_total(a.id, b.id);
}

/// No identity is listed before an earlier one.
pub open spec fn ascending(list: Seq<UserView>) -> bool {
    forall|i: int, j: int| 0 <= i < j < list.len() ==> !user_lt(list[j], list[i])
}

/// `list` is the roster of `entries`: it lists, each before all that come
/// after it in the order of `user_lt`, exactly the identities registered.
pub open spec fn is_roster_of(list: Seq<UserView>, entries: Map<Seq<char>, SessionView>) -> bool {
    &&& forall|i: int, j: int| 0 <= i < j < list.len() ==> user_lt(list[i], list[j])
    &&& forall|i: int|
        0 <= i < list.len() ==> entries.contains_key(#[trigger] list[i].id)
            && entries[list[i].id].user == list[i]
    &&& forall|id: Seq<char>| #[trigger]
        entries.contains_key(id) ==> exists|i: int| 0 <= i < list.len() && list[i].id == id
}

/// The roster of `entries`. `lemma_roster_unique` shows that there is at most
/// one; `UsersState::snapshot_sorted` computes it.
pub open spec fn roster_of(entries: Map<Seq<char>, SessionView>) -> Seq<UserView> {
    choose|list: Seq<UserView>| is_roster_of(list, entries)
}

/// A registry has one roster only.
pub proof fn lemma_roster_unique(
    a: Seq<UserView>,
    b: Seq<UserView>,
    entries: Map<Seq<char>, SessionView>,
)
    requires
        is_roster_of(a, entries),
        is_roster_of(b, entries),
    ensures
        a == b,
    decreases a.len(),
{
    if a.len() == 0 {
        if b.len() > 0 {
            assert(entries.contains_key(b[0].id));
        }
        assert(a =~= b);
    } else {
        let top = a.last();
        assert(entries.contains_key(a[a.len() - 1].id));
        let j = choose|j: int| 0 <= j < b.len() && b[j].id == top.id;
        assert(b[j] == top);
        assert(entries.contains_key(b[b.len() - 1].id));
        let k = choose|k: int| 0 <= k < a.len() && a[k].id == b.last().id;
        assert(a[k] == b.last());
        lemma_user_lt_irreflexive(top);
        if j < b.len() - 1 {
            if k < a.len() - 1 {
                lemma_user_lt_transitive(top, a[k], top);
            }
        }
        assert(b.last() == top);
        let rest = entries.remove(top.id);
        lemma_roster_without_last(a, entries);
        lemma_roster_without_last(b, entries);
        lemma_roster_unique(a.drop_last(), b.drop_last(), rest);
        assert(a =~= a.drop_last().push(top));
        assert(b =~= b.drop_last().push(top));
    }
}

/// A roster without its last identity is the roster of the registry without
/// that identity.
proof fn lemma_roster_without_last(list: Seq<UserView>, entries: Map<Seq<char>, SessionView>)
    requires
        is_roster_of(list, entries),
        list.len() > 0,
    ensures
        is_roster_of(list.drop_last(), entries.remove(list.last().id)),
{
    let top = list.last();
    let shorter = list.drop_last();
    let rest = entries.remove(top.id);
    lemma_user_lt_irreflexive(top);
    assert(entries.contains_key(list[list.len() - 1].id));
    assert forall|i: int| 0 <= i < shorter.len() implies rest.contains_key(
        #[trigger] shorter[i].id,
    ) && rest[shorter[i].id].user == shorter[i] by {
        assert(entries.contains_key(list[i].id));
        assert(user_lt(list[i], top));
    }
    assert forall|id: Seq<char>| #[trigger] rest.contains_key(id) implies exists|i: int|
        0 <= i < shorter.len() && shorter[i].id == id by {
        assert(entries.contains_key(id));
        let i = choose|i: int| 0 <= i < list.len() && list[i].id == id;
        assert(shorter[i].id == id);
    }
}

/// Whether `a` is listed before `b`.
pub fn precedes(a: &User, b: &User) -> (r: bool)
    ensures
        r == user_lt(a@, b@),
{
    if text_before(a.name.as_str(), b.name.as_str()) {
        true
    } else if same_text(a.name.as_str(), b.name.as_str()) {
        text_before(a.id.as_str(), b.id.as_str())
    } else {
        false
    }
}

/// Sorts identities by display name and, among equal names, by id. The
/// result holds the same identities, each as often as the argument does.
pub fn sort_users(users: &Vec<User>) -> (r: Vec<User>)
    ensures
        ascending(users_view(r@)),
        users_view(r@).to_multiset() == users_view(users@).to_multiset(),
{
    let ghost all = users_view(users@);
    let mut out: Vec<User> = Vec::new();
    let mut i: usize = 0;
    assert(users_view(out@) =~= all.subrange(0, 0));
    while i < users.len()
        invariant
            i <= users.len(),
            all == users_view(users@),
            ascending(users_view(out@)),
            users_view(out@).to_multiset() == all.subrange(0, i as int).to_multiset(),
        decreases users.len() - i,
    {
        let user = users[i].clone();
        let ghost before = users_view(out@);
        let mut p: usize = 0;
        while p < out.len() && !precedes(&user, &out[p])
            invariant
                p <= out.len(),
                before == users_view(out@),
                forall|k: int| 0 <= k < p ==> !user_lt(user@, #[trigger] before[k]),
            decreases out.len() - p,
        {
            p += 1;
        }
        out.insert(p, user);
        proof {
            let after = users_view(out@);
            let placed = all[i as int];
            assert(after =~= before.insert(p as int, placed));
            to_multiset_insert(before, p as int, placed);
            assert(all.subrange(0, i + 1) =~= all.subrange(0, i as int).push(placed));
            to_multiset_build(all.subrange(0, i as int), placed);
            assert forall|x: int, y: int| 0 <= x < y < after.len() implies !user_lt(
                after[y],
                after[x],
            ) by {
                if x == p {
                    let later = before[y - 1];
                    if user_lt(later, placed) {
                        lemma_user_lt_transitive(later, placed, before[p as int]);
                        lemma_user_lt_irreflexive(later);
                    }
                } else if y == p {
                    assert(after[x] == before[x]);
                } else if x < p && y > p {
                    assert(after[x] == before[x] && after[y] == before[y - 1]);
                } else if y < p {
                    assert(after[x] == before[x] && after[y] == before[y]);
                } else {
                    assert(after[x] == before[x - 1] && after[y] == before[y - 1]);
                }
            }
        }
        i += 1;
    }
    assert(all.subrange(0, i as int) =~= all);
    out
}

} // verus!
