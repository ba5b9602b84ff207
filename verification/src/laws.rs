//! What holds of the relay whatever the clients send and whichever channels
//! fail, stated over the same models that the contracts of the registry and
//! of the relay engine use.

use crate::codec::decoded_text;
use crate::envelope::{error_view, DataView, MsgType, UserView};
use crate::registry::{announces, keyed_by_id, no_entries, swept, texts, without, Sweep};
use crate::relay::{received, Connection, Inbound, Routed, INVALID_FORMAT, NOT_ONLINE};
use crate::roster::{is_roster_of, lemma_user_lt_irreflexive, user_lt};
use crate::session::{Session, SessionView};
use crate::text::{lemma_text_lt_irreflexive, lemma_text_lt_transitive, text_lt};
use vstd::prelude::*;

verus! {

/// One change to the registry: a login, a logout, or the removal of the
/// sessions that a broadcast found dead.
pub ghost enum Change {
    Joined(SessionView),
    Left(Seq<char>),
    Reaped(Seq<Seq<char>>),
}

/// The entries after one change: what `insert`, `remove` and `reap` ensure.
pub open spec fn after(entries: Map<Seq<char>, SessionView>, change: Change) -> Map<
    Seq<char>,
    SessionView,
> {
    match change {
        Change::Joined(session) => entries.insert(session.user.id, session),
        Change::Left(id) => entries.remove(id),
        Change::Reaped(ids) => without(entries, ids),
    }
}

/// The entries of a registry that started empty and saw `changes`.
pub open spec fn replay(changes: Seq<Change>) -> Map<Seq<char>, SessionView>
    decreases changes.len(),
{
    if changes.len() == 0 {
        no_entries()
    } else {
        after(replay(changes.drop_last()), changes.last())
    }
}

/// Whether a change is a login under `id`.
pub open spec fn joins(change: Change, id: Seq<char>) -> bool {
    change matches Change::Joined(session) && session.user.id == id
}

/// Whether a change removes the session under `id`.
pub open spec fn removes(change: Change, id: Seq<char>) -> bool {
    match change {
        Change::Joined(_) => false,
        Change::Left(gone) => gone == id,
        Change::Reaped(ids) => ids.contains(id),
    }
}

/// Whether the change at `i` is a login under `id` that no later change
/// undoes.
pub open spec fn joined_for_good(changes: Seq<Change>, id: Seq<char>, i: int) -> bool {
    &&& 0 <= i < changes.len()
    &&& joins(changes[i], id)
    &&& forall|j: int| i < j < changes.len() ==> !#[trigger] removes(changes[j], id)
}

/// Whether `id` has logged in and its session has not been removed since.
pub open spec fn live(changes: Seq<Change>, id: Seq<char>) -> bool {
    exists|i: int| joined_for_good(changes, id, i)
}

/// After any sequence of logins, logouts and reaps, the registry's keys are
/// the ids whose session has not been removed since its login: none is
/// missing, none is stale, and each session stands under its own id, so none
/// stands there twice.
pub proof fn lemma_registry_holds_the_live(changes: Seq<Change>)
    ensures
        keyed_by_id(replay(changes)),
        forall|id: Seq<char>| replay(changes).contains_key(id) <==> live(changes, id),
    decreases changes.len(),
{
    if changes.len() == 0 {
        assert forall|id: Seq<char>| !live(changes, id) by {
            if live(changes, id) {
                let i = choose|i: int| joined_for_good(changes, id, i);
                assert(joined_for_good(changes, id, i));
            }
        }
    } else {
        let earlier = changes.drop_last();
        let last = changes.last();
        let top = changes.len() - 1;
        lemma_registry_holds_the_live(earlier);
        assert forall|id: Seq<char>| replay(changes).contains_key(id) <==> live(changes, id) by {
            assert(replay(earlier).contains_key(id) <==> live(earlier, id));
            assert(replay(changes).contains_key(id) <==> (joins(last, id) || (replay(
                earlier,
            ).contains_key(id) && !removes(last, id))));
            if joins(last, id) {
                assert(joined_for_good(changes, id, top));
            } else if replay(earlier).contains_key(id) && !removes(last, id) {
                let i = choose|i: int| joined_for_good(earlier, id, i);
                assert(joined_for_good(earlier, id, i));
                assert(changes[i] == earlier[i]);
                assert forall|j: int| i < j < changes.len() implies !#[trigger] removes(
                    changes[j],
                    id,
                ) by {
                    if j < top {
                        assert(changes[j] == earlier[j]);
                        assert(!removes(earlier[j], id));
                    }
                }
                assert(joined_for_good(changes, id, i));
            }
            if live(changes, id) && !joins(last, id) {
                let i = choose|i: int| joined_for_good(changes, id, i);
                assert(joined_for_good(changes, id, i));
                assert(!removes(changes[top], id));
                assert(changes[i] == earlier[i]);
                assert forall|j: int| i < j < earlier.len() implies !#[trigger] removes(
                    earlier[j],
                    id,
                ) by {
                    assert(changes[j] == earlier[j]);
                    assert(!removes(changes[j], id));
                }
                assert(joined_for_good(earlier, id, i));
            }
        }
    }
}

/// A roster is sorted by display name, ascending, and lists exactly the
/// identities registered, each once.
pub proof fn lemma_roster_lists_the_registered(
    list: Seq<UserView>,
    entries: Map<Seq<char>, SessionView>,
)
    requires
        is_roster_of(list, entries),
    ensures
        forall|i: int, j: int|
            0 <= i < j < list.len() ==> !text_lt(#[trigger] list[j].name, #[trigger] list[i].name),
        forall|i: int, j: int|
            0 <= i < j < list.len() ==> #[trigger] list[i].id != #[trigger] list[j].id,
        forall|i: int|
            0 <= i < list.len() ==> entries.contains_key(#[trigger] list[i].id)
                && entries[list[i].id].user == list[i],
        forall|id: Seq<char>| #[trigger]
            entries.contains_key(id) <==> exists|i: int| 0 <= i < list.len() && list[i].id == id,
{
    assert forall|i: int, j: int| 0 <= i < j < list.len() implies !text_lt(
        #[trigger] list[j].name,
        #[trigger] list[i].name,
    ) by {
        assert(user_lt(list[i], list[j]));
        lemma_text_lt_irreflexive(list[i].name);
        if text_lt(list[j].name, list[i].name) && text_lt(list[i].name, list[j].name) {
            lemma_text_lt_transitive(list[i].name, list[j].name, list[i].name);
        }
    }
    assert forall|i: int, j: int| 0 <= i < j < list.len() implies #[trigger] list[i].id
        != #[trigger] list[j].id by {
        assert(user_lt(list[i], list[j]));
        lemma_user_lt_irreflexive(list[i]);
        assert(entries.contains_key(list[i].id) && entries[list[i].id].user == list[i]);
        assert(entries.contains_key(list[j].id) && entries[list[j].id].user == list[j]);
    }
    assert forall|id: Seq<char>|
        (exists|i: int| 0 <= i < list.len() && list[i].id == id) implies entries.contains_key(
        id,
    ) by {
        let i = choose|i: int| 0 <= i < list.len() && list[i].id == id;
        assert(entries.contains_key(list[i].id));
    }
}

/// The `list` of a login or logout broadcast is the roster of the registry
/// as it stood when the broadcast began.
pub proof fn lemma_announcement_carries_the_roster(
    sweep: Sweep,
    data: DataView,
    before: Map<Seq<char>, SessionView>,
    after: Map<Seq<char>, SessionView>,
)
    requires
        swept(sweep, data, before, after),
        announces(data),
    ensures
        sweep.data@.list matches Some(list) && is_roster_of(list, before),
{
}

/// A private message for an id that is not registered has one effect: one
/// error envelope, offered to the sender. The registry stays as it was, and
/// so does the connection where the sender's channel took the reply.
pub proof fn lemma_private_to_a_stranger(
    r: Option<Routed>,
    text: String,
    data: DataView,
    own: Session,
    before: Map<Seq<char>, SessionView>,
    after: Map<Seq<char>, SessionView>,
    connection: Connection,
)
    requires
        received(r, Inbound::Text(text), own, before, after, connection),
        decoded_text(text@) matches Ok(found) && found == data,
        data.kind == MsgType::Private,
        data.target matches Some(user) && !before.contains_key(user.id),
    ensures
        r matches Some(Routed::Replied { data: reply, accepted }) && reply@ == error_view(
            NOT_ONLINE@,
        ) && (accepted ==> connection == Connection::Active(own)),
        after == before,
{
}

/// `sweep` reports that `sent` was offered to every session of `entries`, and
/// that each session that took it is registered afterwards as it was before.
pub open spec fn reached_everyone(
    sweep: Sweep,
    sent: DataView,
    entries: Map<Seq<char>, SessionView>,
    after: Map<Seq<char>, SessionView>,
) -> bool {
    &&& sweep.data@ == sent
    &&& forall|id: Seq<char>| #[trigger]
        entries.contains_key(id) ==> texts(sweep.offered@).contains(id)
    &&& forall|id: Seq<char>| #[trigger]
        entries.contains_key(id) && !texts(sweep.reaped@).contains(id) ==> after.contains_key(id)
            && after[id] == entries[id]
}

/// A public message is offered to every session registered, the sender's
/// own among them while the sender is registered, and it goes out with the
/// sender's identity as its `target`, whatever target it came with.
pub proof fn lemma_public_reaches_everyone(
    r: Option<Routed>,
    text: String,
    data: DataView,
    own: Session,
    before: Map<Seq<char>, SessionView>,
    after: Map<Seq<char>, SessionView>,
    connection: Connection,
)
    requires
        received(r, Inbound::Text(text), own, before, after, connection),
        decoded_text(text@) matches Ok(found) && found == data,
        data.kind == MsgType::Public,
    ensures
        r matches Some(Routed::Broadcast(sweep)) && reached_everyone(
            sweep,
            DataView {
                kind: MsgType::Public,
                msg: data.msg,
                target: Some(own.user@),
                list: data.list,
            },
            before,
            after,
        ),
        connection == Connection::Active(own),
{
}

/// A frame that is no envelope has one effect: one error envelope, offered
/// to the sender. The registry stays as it was, and so does the connection
/// where the sender's channel took the reply.
pub proof fn lemma_malformed_frame(
    r: Option<Routed>,
    text: String,
    own: Session,
    before: Map<Seq<char>, SessionView>,
    after: Map<Seq<char>, SessionView>,
    connection: Connection,
)
    requires
        received(r, Inbound::Text(text), own, before, after, connection),
        decoded_text(text@) is Err,
    ensures
        r matches Some(Routed::Replied { data: reply, accepted }) && reply@ == error_view(
            INVALID_FORMAT@,
        ) && (accepted ==> connection == Connection::Active(own)),
        after == before,
{
}

} // verus!
