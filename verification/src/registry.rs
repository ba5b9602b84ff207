//! The connection registry: the one piece of state that connections share.
//! It maps an identity's `id` to the session that last logged in under it.
//!
//! Every operation that changes the registry takes `&mut self`, so each is
//! atomic with respect to every other: connections that share a registry
//! reach it through a lock, one call at a time. A broadcast removes the
//! sessions it finds dead before it returns, inside that one call.

use crate::envelope::{users_view, Data, DataView, MsgType, User, UserView};
use crate::roster::{
    ascending, is_roster_of, lemma_roster_unique, lemma_user_lt_total, roster_of, sort_users,
};
use crate::session::{Frame, Session, SessionView};
use dashmap::DashMap;
use vstd::prelude::*;
use vstd::seq_lib::*;

verus! {

/// `dashmap::DashMap`: the map that holds the sessions. It is private to a
/// `UsersState` and changed through `&mut` only, so between two calls
/// nothing else changes what it holds.
#[verifier::external_type_specification]
#[verifier::external_body]
#[verifier::reject_recursive_types(K)]
#[verifier::reject_recursive_types(V)]
#[verifier::reject_recursive_types(S)]
pub struct ExDashMap<K, V, S>(DashMap<K, V, S>);

/// What a table holds: for each key, the session stored under it.
pub uninterp spec fn table_entries(table: DashMap<String, Session>) -> Map<Seq<char>, SessionView>;

/// The entries of a table that holds nothing.
pub open spec fn no_entries() -> Map<Seq<char>, SessionView> {
    Map::empty()
}

/// `DashMap::new`: a table that holds nothing.
#[verifier::external_body]
fn table_new() -> (table: DashMap<String, Session>)
    ensures
        table_entries(table) == no_entries(),
{
    DashMap::new()
}

/// `DashMap::insert`: stores the value under the key, in place of whatever
/// was there. What was there is dropped.
#[verifier::external_body]
fn table_insert(table: &mut DashMap<String, Session>, key: String, value: Session)
    ensures
        table_entries(*final(table)) == table_entries(*old(table)).insert(key@, value@),
{
    table.insert(key, value);
}

/// `DashMap::remove`: takes the entry under the key out, if there is one.
/// What was there is dropped.
#[verifier::external_body]
fn table_remove(table: &mut DashMap<String, Session>, key: &str)
    ensures
        table_entries(*final(table)) == table_entries(*old(table)).remove(key@),
{
    table.remove(key);
}

/// `DashMap::get`, with the session that the guard points at copied out.
#[verifier::external_body]
fn table_get(table: &DashMap<String, Session>, key: &str) -> (found: Option<Session>)
    ensures
        match found {
            Some(session) => table_entries(*table).contains_key(key@) && table_entries(
                *table,
            )[key@] == session@,
            None => !table_entries(*table).contains_key(key@),
        },
{
    table.get(key).map(|entry| entry.value().clone())
}

/// `DashMap::iter`, with each entry copied out. The iterator walks the
/// shards and yields every entry once; in which order is left open.
#[verifier::external_body]
fn table_list(table: &DashMap<String, Session>) -> (all: Vec<(String, Session)>)
    ensures
        forall|i: int|
            0 <= i < all.len() ==> table_entries(*table).contains_key(#[trigger] all[i].0@)
                && table_entries(*table)[all[i].0@] == all[i].1@,
        forall|i: int, j: int| 0 <= i < j < all.len() ==> all[i].0@ != all[j].0@,
        forall|key: Seq<char>| #[trigger]
            table_entries(*table).contains_key(key) ==> exists|i: int|
                0 <= i < all.len() && all[i].0@ == key,
{
    table.iter().map(|entry| (entry.key().clone(), entry.value().clone())).collect()
}

/// Every session is stored under its own identity's `id`.
pub open spec fn keyed_by_id(entries: Map<Seq<char>, SessionView>) -> bool {
    forall|id: Seq<char>| #[trigger] entries.contains_key(id) ==> entries[id].user.id == id
}

/// The registry of active sessions.
pub struct UsersState {
    table: DashMap<String, Session>,
}

impl View for UsersState {
    type V = Map<Seq<char>, SessionView>;

    closed spec fn view(&self) -> Map<Seq<char>, SessionView> {
        table_entries(self.table)
    }
}

impl Default for UsersState {
    fn default() -> (r: Self)
        ensures
            r.wf(),
            r@ == no_entries(),
    {
        UsersState::new()
    }
}

impl UsersState {
    /// The invariant of a registry: an identity appears under its own `id`,
    /// and so at most once.
    pub open spec fn wf(&self) -> bool {
        keyed_by_id(self@)
    }

    /// An empty registry.
    pub fn new() -> (r: Self)
        ensures
            r.wf(),
            r@ == no_entries(),
    {
        UsersState { table: table_new() }
    }

    /// Registers a session under its identity's `id`. A session already
    /// registered under that `id` is replaced: the last writer wins.
    pub fn insert(&mut self, session: Session)
        requires
            old(self).wf(),
        ensures
            final(self).wf(),
            final(self)@ == old(self)@.insert(session.user.id@, session@),
    {
        let key = session.user.id.clone();
        table_insert(&mut self.table, key, session);
    }

    /// Removes the session registered under `id`, if there is one.
    pub fn remove(&mut self, id: &str)
        requires
            old(self).wf(),
        ensures
            final(self).wf(),
            final(self)@ == old(self)@.remove(id@),
    {
        table_remove(&mut self.table, id);
    }

    /// The session registered under `id`, if there is one.
    pub fn get(&self, id: &str) -> (found: Option<Session>)
        requires
            self.wf(),
        ensures
            match found {
                Some(session) => self@.contains_key(id@) && self@[id@] == session@,
                None => !self@.contains_key(id@),
            },
    {
        table_get(&self.table, id)
    }

    /// A point-in-time copy of the registered identities, as a roster:
    /// sorted by display name and, among equal names, by id.
    pub fn snapshot_sorted(&self) -> (r: Vec<User>)
        requires
            self.wf(),
        ensures
            is_roster_of(users_view(r@), self@),
            users_view(r@) == roster_of(self@),
    {
        let all = table_list(&self.table);
        let mut users: Vec<User> = Vec::new();
        let mut i: usize = 0;
        while i < all.len()
            invariant
                i <= all.len(),
                users.len() == i,
                forall|k: int| 0 <= k < i ==> (#[trigger] users@[k])@ == all@[k].1@.user,
            decreases all.len() - i,
        {
            users.push(all[i].1.user.clone());
            i += 1;
        }
        let sorted = sort_users(&users);
        proof {
            let keys = Seq::new(all@.len(), |k: int| all@[k].0@);
            assert forall|id: Seq<char>| #[trigger] self@.contains_key(id) implies exists|k: int|
                0 <= k < keys.len() && keys[k] == id by {
                let k = choose|k: int| 0 <= k < all.len() && all[k].0@ == id;
                assert(keys[k] == id);
            }
            lemma_sorted_listing_is_roster(
                keys,
                users_view(users@),
                users_view(sorted@),
                self@,
            );
        }
        sorted
    }

    /// The envelope as a broadcast sends it: with the roster of this moment
    /// where it announces a login or a logout, as it is otherwise.
    pub fn seal(&self, data: Data) -> (r: Data)
        requires
            self.wf(),
        ensures
            r@ == sealed(data@, self@),
            announces(data@) ==> is_roster_of(roster_of(self@), self@),
    {
        match data.kind {
            MsgType::Login | MsgType::Logout => {
                let list = self.snapshot_sorted();
                Data { kind: data.kind, msg: data.msg, target: data.target, list: Some(list) }
            },
            _ => data,
        }
    }

    /// Removes the sessions registered under `ids`. This is what a
    /// broadcast does with the sessions whose channel refused the frame.
    pub fn reap(&mut self, ids: &Vec<String>)
        requires
            old(self).wf(),
        ensures
            final(self).wf(),
            final(self)@ == without(old(self)@, texts(ids@)),
    {
        let ghost start = self@;
        let ghost gone = texts(ids@);
        let mut j: usize = 0;
        assert(self@ =~= without(start, gone.subrange(0, 0)));
        while j < ids.len()
            invariant
                j <= ids.len(),
                gone == texts(ids@),
                self.wf(),
                self@ == without(start, gone.subrange(0, j as int)),
            decreases ids.len() - j,
        {
            self.remove(ids[j].as_str());
            proof {
                let prev = gone.subrange(0, j as int);
                let next = gone.subrange(0, j + 1);
                assert(next =~= prev.push(gone[j as int]));
                assert forall|id: Seq<char>| next.contains(id) <==> (prev.contains(id) || id
                    == gone[j as int]) by {
                    if prev.contains(id) {
                        let w = choose|w: int| 0 <= w < prev.len() && prev[w] == id;
                        assert(next[w] == id);
                    }
                    if id == gone[j as int] {
                        assert(next[j as int] == id);
                    }
                }
                assert(self@ =~= without(start, next));
            }
            j += 1;
        }
        assert(gone.subrange(0, j as int) =~= gone);
    }

    /// Offers the envelope to every registered session and removes, as part
    /// of the same call, each session whose channel refused it. An envelope
    /// that announces a login or a logout is sent with the roster of the
    /// moment before the offers.
    ///
    /// Which channels refuse is for the channels to say; the report names
    /// them, and the contract holds whichever they were.
    pub fn broadcast(&mut self, data: Data) -> (sweep: Sweep)
        requires
            old(self).wf(),
        ensures
            final(self).wf(),
            swept(sweep, data@, old(self)@, final(self)@),
    {
        let data = self.seal(data);
        let text = data.to_text();
        let all = table_list(&self.table);
        let mut offered: Vec<String> = Vec::new();
        let mut reaped: Vec<String> = Vec::new();
        let mut i: usize = 0;
        while i < all.len()
            invariant
                i <= all.len(),
                offered.len() == i,
                forall|k: int| 0 <= k < i ==> (#[trigger] offered@[k])@ == all@[k].0@,
                forall|k: int|
                    0 <= k < reaped.len() ==> exists|m: int|
                        0 <= m < i && all@[m].0@ == (#[trigger] reaped@[k])@,
            decreases all.len() - i,
        {
            let accepted = all[i].1.offer(Frame::Text(text.clone()));
            offered.push(all[i].0.clone());
            if !accepted {
                reaped.push(all[i].0.clone());
                assert(all@[i as int].0@ == reaped@[reaped.len() - 1]@);
            }
            i += 1;
        }
        proof {
            let listed = texts(offered@);
            assert forall|id: Seq<char>| self@.contains_key(id) implies listed.contains(id) by {
                let k = choose|k: int| 0 <= k < all.len() && all[k].0@ == id;
                assert(listed[k] == id);
            }
            assert forall|id: Seq<char>| texts(reaped@).contains(id) implies listed.contains(
                id,
            ) by {
                let k = choose|k: int| 0 <= k < reaped.len() && texts(reaped@)[k] == id;
                let m = choose|m: int| 0 <= m < all.len() && all@[m].0@ == reaped@[k]@;
                assert(listed[m] == id);
            }
        }
        self.reap(&reaped);
        Sweep { data, offered, reaped }
    }
}

/// The texts of a sequence of strings, in the same order.
pub open spec fn texts(ids: Seq<String>) -> Seq<Seq<char>> {
    Seq::new(ids.len(), |i: int| ids[i]@)
}

/// The entries that are left when the sessions under `ids` are removed.
pub open spec fn without(entries: Map<Seq<char>, SessionView>, ids: Seq<Seq<char>>) -> Map<
    Seq<char>,
    SessionView,
> {
    entries.remove_keys(Set::new(|id: Seq<char>| ids.contains(id)))
}

/// Whether an envelope announces a login or a logout.
pub open spec fn announces(data: DataView) -> bool {
    data.kind == MsgType::Login || data.kind == MsgType::Logout
}

/// The envelope that a broadcast sends for `data` while the registry holds
/// `entries`: an announcement carries the roster, anything else goes out as
/// it is.
pub open spec fn sealed(data: DataView, entries: Map<Seq<char>, SessionView>) -> DataView {
    if announces(data) {
        DataView {
            kind: data.kind,
            msg: data.msg,
            target: data.target,
            list: Some(roster_of(entries)),
        }
    } else {
        data
    }
}

/// What one broadcast did.
#[derive(Debug)]
pub struct Sweep {
    /// The envelope as it was sent.
    pub data: Data,
    /// The ids of the sessions to whose channel it was offered.
    pub offered: Vec<String>,
    /// The ids of those whose channel refused it, and who were removed.
    pub reaped: Vec<String>,
}

/// `sweep` reports a broadcast of `data` that found the registry holding
/// `before` and left it holding `after`: the envelope went out sealed, was
/// offered once to each session registered, and the registry lost the
/// sessions that refused it and no others.
pub open spec fn swept(
    sweep: Sweep,
    data: DataView,
    before: Map<Seq<char>, SessionView>,
    after: Map<Seq<char>, SessionView>,
) -> bool {
    &&& sweep.data@ == sealed(data, before)
    &&& announces(data) ==> is_roster_of(roster_of(before), before)
    &&& texts(sweep.offered@).no_duplicates()
    &&& forall|id: Seq<char>|
        #![trigger before.contains_key(id)]
        #![trigger texts(sweep.offered@).contains(id)]
        before.contains_key(id) <==> texts(sweep.offered@).contains(id)
    &&& forall|id: Seq<char>| #[trigger]
        texts(sweep.reaped@).contains(id) ==> texts(sweep.offered@).contains(id)
    &&& after == without(before, texts(sweep.reaped@))
}

/// A listing of a registry's entries, sorted, is its roster.
proof fn lemma_sorted_listing_is_roster(
    keys: Seq<Seq<char>>,
    listed: Seq<UserView>,
    sorted: Seq<UserView>,
    entries: Map<Seq<char>, SessionView>,
)
    requires
        keyed_by_id(entries),
        keys.len() == listed.len(),
        forall|k: int|
            0 <= k < keys.len() ==> entries.contains_key(#[trigger] keys[k]) && entries[keys[k]].user
                == listed[k],
        forall|i: int, j: int| 0 <= i < j < keys.len() ==> keys[i] != keys[j],
        forall|id: Seq<char>| #[trigger]
            entries.contains_key(id) ==> exists|k: int| 0 <= k < keys.len() && keys[k] == id,
        ascending(sorted),
        sorted.to_multiset() == listed.to_multiset(),
    ensures
        is_roster_of(sorted, entries),
        sorted == roster_of(entries),
{
    assert forall|i: int, j: int| 0 <= i < listed.len() && 0 <= j < listed.len() && i
        != j implies listed[i] != listed[j] by {
        assert(entries.contains_key(keys[i]) && entries.contains_key(keys[j]));
        assert(listed[i].id == keys[i] && listed[j].id == keys[j]);
    }
    listed.lemma_multiset_has_no_duplicates();
    sorted.lemma_multiset_has_no_duplicates_conv();
    assert forall|i: int, j: int| 0 <= i < j < sorted.len() implies crate::roster::user_lt(
        sorted[i],
        sorted[j],
    ) by {
        lemma_user_lt_total(sorted[i], sorted[j]);
    }
    assert forall|i: int| 0 <= i < sorted.len() implies entries.contains_key(
        #[trigger] sorted[i].id,
    ) && entries[sorted[i].id].user == sorted[i] by {
        assert(sorted.contains(sorted[i]));
        to_multiset_contains(sorted, sorted[i]);
        to_multiset_contains(listed, sorted[i]);
        let k = choose|k: int| 0 <= k < listed.len() && listed[k] == sorted[i];
        assert(entries.contains_key(keys[k]));
    }
    assert forall|id: Seq<char>| #[trigger] entries.contains_key(id) implies exists|i: int|
        0 <= i < sorted.len() && sorted[i].id == id by {
        let k = choose|k: int| 0 <= k < keys.len() && keys[k] == id;
        assert(entries.contains_key(keys[k]));
        assert(listed.contains(listed[k]));
        to_multiset_contains(listed, listed[k]);
        to_multiset_contains(sorted, listed[k]);
        let i = choose|i: int| 0 <= i < sorted.len() && sorted[i] == listed[k];
        assert(sorted[i].id == id);
    }
    assert(is_roster_of(sorted, entries));
    lemma_roster_unique(sorted, roster_of(entries), entries);
}

} // verus!
