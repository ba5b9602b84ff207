//! The relay engine: what one connection does, from its first frame to its
//! teardown. The transport reads and writes frames; every decision about
//! them is taken here.

use crate::codec::{decoded_text, DecodeError};
use crate::envelope::{error_view, Data, DataView, MsgType, User, UserView};
use crate::registry::{swept, Sweep, UsersState};
use crate::session::{Frame, Session, SessionView};
use tokio::sync::mpsc::UnboundedSender;
use vstd::pervasive::unreached;
use vstd::prelude::*;
use vstd::string::*;

verus! {

/// The reply to a first frame that is no text frame, or to a stream that
/// ended before one came.
pub const LOGIN_FAILED: &'static str = "登录失败";

/// The reply to a first frame that is no envelope.
pub const LOGIN_MALFORMED: &'static str = "数据格式不正确";

/// The reply to a first envelope that is no login, or that names nobody.
pub const LOGIN_REFUSED: &'static str = "登录参数有误";

/// The reply to a private message for an id that is not registered.
pub const NOT_ONLINE: &'static str = "recipient not online";

/// The reply to an envelope that is neither public nor private, or that is
/// private and names nobody.
pub const INVALID_MESSAGE: &'static str = "invalid message";

/// The reply to a frame that is no envelope.
pub const INVALID_FORMAT: &'static str = "invalid format";

/// The time between two pings of the heartbeat, in seconds.
pub const HEARTBEAT_SECS: u64 = 20;

/// The announcement that `name` has joined.
pub open spec fn joined_text(name: Seq<char>) -> Seq<char> {
    "用户 "@ + name + " 加入聊天室"@
}

/// The announcement that `name` has left.
pub open spec fn left_text(name: Seq<char>) -> Seq<char> {
    "用户 "@ + name + " 退出聊天室"@
}

/// Where a connection stands in its life.
#[derive(Clone, Copy, Debug, PartialEq, Eq, Structural)]
pub enum SessionState {
    Connecting,
    AwaitingLogin,
    Active,
    Closing,
    Closed,
}

/// What the transport hands to a connection.
#[derive(Debug, PartialEq, Eq)]
pub enum Inbound {
    /// A text frame.
    Text(String),
    /// An explicit close frame.
    Close,
    /// A binary frame, a ping or a pong.
    Other,
    /// The stream has ended, or reading from it failed.
    Gone,
}

/// One connection. It holds a session from its login to its teardown, and at
/// no other time.
pub enum Connection {
    Connecting,
    AwaitingLogin,
    Active(Session),
    Closing(Session),
    Closed,
}

/// How a handshake ended.
#[derive(Debug)]
pub enum Handshake {
    /// The session is registered, and its login has been broadcast.
    Accepted(Sweep),
    /// Nothing is registered. The envelope is the one reply, to be written
    /// to the stream before it is closed.
    Rejected(Data),
}

/// What was done with one frame.
#[derive(Debug)]
pub enum Routed {
    /// A public message went to every session.
    Broadcast(Sweep),
    /// A private message was offered to the channel of the session
    /// registered under its recipient's id, and to that channel only.
    Direct { to: Session, data: Data, accepted: bool },
    /// The one answer to the frame is an error, offered to the sender's own
    /// channel.
    Replied { data: Data, accepted: bool },
}

/// What is to be done with one frame: a decision, before anything is sent.
pub ghost enum Plan {
    Broadcast(DataView),
    Direct(SessionView, DataView),
    Reply(DataView),
}

/// An inbound envelope as it is passed on: `target` names the sender.
pub open spec fn forwarded(data: DataView, sender: UserView) -> DataView {
    DataView { kind: data.kind, msg: data.msg, target: Some(sender), list: data.list }
}

/// The routing rules.
pub open spec fn planned(
    entries: Map<Seq<char>, SessionView>,
    sender: UserView,
    decoded: Result<DataView, DecodeError>,
) -> Plan {
    match decoded {
        Err(_) => Plan::Reply(error_view(INVALID_FORMAT@)),
        Ok(data) => match data.kind {
            MsgType::Public => Plan::Broadcast(forwarded(data, sender)),
            MsgType::Private => match data.target {
                Some(user) => if entries.contains_key(user.id) {
                    Plan::Direct(entries[user.id], forwarded(data, sender))
                } else {
                    Plan::Reply(error_view(NOT_ONLINE@))
                },
                None => Plan::Reply(error_view(INVALID_MESSAGE@)),
            },
            _ => Plan::Reply(error_view(INVALID_MESSAGE@)),
        },
    }
}

/// `routed` reports that `plan` was carried out on a registry that held
/// `before` and now holds `after`. Only a broadcast can change the registry.
pub open spec fn carried_out(
    routed: Routed,
    plan: Plan,
    before: Map<Seq<char>, SessionView>,
    after: Map<Seq<char>, SessionView>,
) -> bool {
    match plan {
        Plan::Broadcast(data) => routed matches Routed::Broadcast(sweep) && swept(
            sweep,
            data,
            before,
            after,
        ),
        Plan::Direct(recipient, data) => routed matches Routed::Direct { to, data: sent, .. }
            && to@ == recipient && sent@ == data && after == before,
        Plan::Reply(data) => routed matches Routed::Replied { data: sent, .. } && sent@ == data
            && after == before,
    }
}

/// The view of a decoder's outcome.
pub open spec fn outcome_view(decoded: Result<Data, DecodeError>) -> Result<DataView, DecodeError> {
    match decoded {
        Ok(data) => Ok(data@),
        Err(e) => Err(e),
    }
}

fn reply(session: &Session, text: &str) -> (r: Routed)
    ensures
        r matches Routed::Replied { data, .. } && data@ == error_view(text@),
{
    let data = Data::error(text);
    let accepted = session.offer(data.to_message());
    Routed::Replied { data, accepted }
}

/// Routes one decoded frame of `session`.
pub fn route(
    session: &Session,
    registry: &mut UsersState,
    decoded: Result<Data, DecodeError>,
) -> (r: Routed)
    requires
        old(registry).wf(),
    ensures
        final(registry).wf(),
        carried_out(
            r,
            planned(old(registry)@, session.user@, outcome_view(decoded)),
            old(registry)@,
            final(registry)@,
        ),
{
    match decoded {
        Err(_) => reply(session, INVALID_FORMAT),
        Ok(data) => {
            let Data { kind, msg, target, list } = data;
            match kind {
                MsgType::Public => {
                    let out = Data { kind, msg, target: Some(session.user.clone()), list };
                    Routed::Broadcast(registry.broadcast(out))
                },
                MsgType::Private => match target {
                    Some(user) => match registry.get(user.id.as_str()) {
                        Some(recipient) => {
                            let out = Data { kind, msg, target: Some(session.user.clone()), list };
                            let accepted = recipient.offer(out.to_message());
                            Routed::Direct { to: recipient, data: out, accepted }
                        },
                        None => reply(session, NOT_ONLINE),
                    },
                    None => reply(session, INVALID_MESSAGE),
                },
                _ => reply(session, INVALID_MESSAGE),
            }
        },
    }
}

/// What a first frame holds for the handshake: nothing where it is no text
/// frame, else what decoding it gives.
pub open spec fn first_decoded(first: Inbound) -> Option<Result<DataView, DecodeError>> {
    match first {
        Inbound::Text(text) => Some(decoded_text(text@)),
        _ => None,
    }
}

/// The identity that a first frame claims, or the text of the refusal. Only
/// a login envelope with a target claims one.
pub open spec fn claim_of(first: Option<Result<DataView, DecodeError>>) -> Result<
    UserView,
    Seq<char>,
> {
    match first {
        None => Err(LOGIN_FAILED@),
        Some(Err(_)) => Err(LOGIN_MALFORMED@),
        Some(Ok(data)) => match data.target {
            Some(user) => if data.kind == MsgType::Login {
                Ok(user)
            } else {
                Err(LOGIN_REFUSED@)
            },
            None => Err(LOGIN_REFUSED@),
        },
    }
}

/// The announcement of a login, before the roster is added.
pub open spec fn arrival(user: UserView) -> DataView {
    DataView {
        kind: MsgType::Login,
        msg: joined_text(user.name),
        target: Some(user),
        list: None,
    }
}

/// The announcement of a logout, before the roster is added.
pub open spec fn departure(user: UserView) -> DataView {
    DataView {
        kind: MsgType::Logout,
        msg: left_text(user.name),
        target: Some(user),
        list: None,
    }
}

/// `r` reports the handshake on `claim`. A refusal leaves the registry as it
/// was and the connection closed. An admission registers the session under
/// the claimed id, in place of any other, and then broadcasts the login, so
/// that the roster sent holds the newcomer.
pub open spec fn admitted(
    r: Handshake,
    claim: Result<UserView, Seq<char>>,
    outbound: UnboundedSender<Frame>,
    before: Map<Seq<char>, SessionView>,
    after: Map<Seq<char>, SessionView>,
    connection: Connection,
) -> bool {
    match claim {
        Err(text) => r matches Handshake::Rejected(reply) && reply@ == error_view(text) && after
            == before && connection is Closed,
        Ok(user) => {
            let session = SessionView { user, outbound };
            &&& r matches Handshake::Accepted(sweep) && swept(
                sweep,
                arrival(user),
                before.insert(user.id, session),
                after,
            )
            &&& connection matches Connection::Active(own) && own@ == session
        },
    }
}

/// Whether the sender's own channel refused the answer to its frame: the
/// writer of this connection is gone.
pub open spec fn lost_own(routed: Routed) -> bool {
    routed matches Routed::Replied { accepted, .. } && !accepted
}

/// `r` reports what `frame` led to on a connection that was active as `own`.
pub open spec fn received(
    r: Option<Routed>,
    frame: Inbound,
    own: Session,
    before: Map<Seq<char>, SessionView>,
    after: Map<Seq<char>, SessionView>,
    connection: Connection,
) -> bool {
    match frame {
        Inbound::Text(text) => r matches Some(routed) && carried_out(
            routed,
            planned(before, own.user@, decoded_text(text@)),
            before,
            after,
        ) && connection == (if lost_own(routed) {
            Connection::Closing(own)
        } else {
            Connection::Active(own)
        }),
        Inbound::Other => r is None && after == before && connection == Connection::Active(own),
        _ => r is None && after == before && connection == Connection::Closing(own),
    }
}

fn announcement(name: &str, tail: &str) -> (r: String)
    ensures
        r@ == "用户 "@ + name@ + tail@,
{
    let mut text = "用户 ".to_owned();
    text.append(name);
    text.append(tail);
    text
}

impl Connection {
    /// Where the connection stands in its life.
    pub open spec fn phase(self) -> SessionState {
        match self {
            Connection::Connecting => SessionState::Connecting,
            Connection::AwaitingLogin => SessionState::AwaitingLogin,
            Connection::Active(_) => SessionState::Active,
            Connection::Closing(_) => SessionState::Closing,
            Connection::Closed => SessionState::Closed,
        }
    }

    /// A connection that the transport has accepted.
    pub fn new() -> (r: Self)
        ensures
            r is Connecting,
    {
        Connection::Connecting
    }

    pub fn state(&self) -> (r: SessionState)
        ensures
            r == self.phase(),
    {
        match self {
            Connection::Connecting => SessionState::Connecting,
            Connection::AwaitingLogin => SessionState::AwaitingLogin,
            Connection::Active(_) => SessionState::Active,
            Connection::Closing(_) => SessionState::Closing,
            Connection::Closed => SessionState::Closed,
        }
    }

    /// The stream is there: the connection now waits for its login.
    pub fn ready(&mut self)
        requires
            *old(self) is Connecting,
        ensures
            *final(self) is AwaitingLogin,
    {
        *self = Connection::AwaitingLogin;
    }

    /// The handshake on a first frame that has been decoded, where it was a
    /// text frame at all.
    pub fn welcome(
        &mut self,
        registry: &mut UsersState,
        first: Option<Result<Data, DecodeError>>,
        outbound: UnboundedSender<Frame>,
    ) -> (r: Handshake)
        requires
            *old(self) is AwaitingLogin,
            old(registry).wf(),
        ensures
            final(registry).wf(),
            admitted(
                r,
                claim_of(
                    match first {
                        Some(decoded) => Some(outcome_view(decoded)),
                        None => None,
                    },
                ),
                outbound,
                old(registry)@,
                final(registry)@,
                *final(self),
            ),
    {
        let claim: Result<User, &'static str> = match first {
            None => Err(LOGIN_FAILED),
            Some(Err(_)) => Err(LOGIN_MALFORMED),
            Some(Ok(data)) => match data.target {
                Some(user) => match data.kind {
                    MsgType::Login => Ok(user),
                    _ => Err(LOGIN_REFUSED),
                },
                None => Err(LOGIN_REFUSED),
            },
        };
        match claim {
            Err(text) => {
                *self = Connection::Closed;
                Handshake::Rejected(Data::error(text))
            },
            Ok(user) => {
                let session = Session { user: user.clone(), outbound };
                registry.insert(session.clone());
                let msg = announcement(user.name.as_str(), " 加入聊天室");
                let sweep = registry.broadcast(Data::new(MsgType::Login, user, msg));
                *self = Connection::Active(session);
                Handshake::Accepted(sweep)
            },
        }
    }

    /// The handshake: the first frame must be a login envelope that names
    /// the identity it claims.
    pub fn login(
        &mut self,
        registry: &mut UsersState,
        first: Inbound,
        outbound: UnboundedSender<Frame>,
    ) -> (r: Handshake)
        requires
            *old(self) is AwaitingLogin,
            old(registry).wf(),
        ensures
            final(registry).wf(),
            admitted(
                r,
                claim_of(first_decoded(first)),
                outbound,
                old(registry)@,
                final(registry)@,
                *final(self),
            ),
    {
        let decoded = match &first {
            Inbound::Text(text) => Some(Data::from_str(text.as_str())),
            _ => None,
        };
        self.welcome(registry, decoded, outbound)
    }

    /// One step of the reader. A text frame is decoded and routed; a close
    /// frame or the end of the stream ends the reading; any other frame is
    /// passed over.
    pub fn receive(&mut self, registry: &mut UsersState, frame: Inbound) -> (r: Option<Routed>)
        requires
            *old(self) is Active,
            old(registry).wf(),
        ensures
            final(registry).wf(),
            received(
                r,
                frame,
                (*old(self))->Active_0,
                old(registry)@,
                final(registry)@,
                *final(self),
            ),
    {
        let own = match &*self {
            Connection::Active(session) => session.clone(),
            _ => unreached(),
        };
        match &frame {
            Inbound::Text(text) => {
                let routed = route(&own, registry, Data::from_str(text.as_str()));
                let lost = match &routed {
                    Routed::Replied { accepted, .. } => !*accepted,
                    _ => false,
                };
                if lost {
                    *self = Connection::Closing(own);
                }
                Some(routed)
            },
            Inbound::Other => None,
            _ => {
                *self = Connection::Closing(own);
                None
            },
        }
    }

    /// The teardown, once the reading has ended: the session's id leaves the
    /// registry, and the logout is broadcast to those that remain.
    pub fn finish(&mut self, registry: &mut UsersState) -> (sweep: Sweep)
        requires
            *old(self) is Closing,
            old(registry).wf(),
        ensures
            final(registry).wf(),
            *final(self) is Closed,
            swept(
                sweep,
                departure((*old(self))->Closing_0.user@),
                old(registry)@.remove((*old(self))->Closing_0.user.id@),
                final(registry)@,
            ),
    {
        let user = match &*self {
            Connection::Closing(session) => session.user.clone(),
            _ => unreached(),
        };
        *self = Connection::Closed;
        registry.remove(user.id.as_str());
        let msg = announcement(user.name.as_str(), " 退出聊天室");
        registry.broadcast(Data::new(MsgType::Logout, user, msg))
    }
}

impl Frame {
    /// The ping of the heartbeat. Its payload is the two bytes of `hi`.
    pub fn heartbeat() -> (r: Frame)
        ensures
            r matches Frame::Ping(payload) && payload@ == seq![104u8, 105u8],
    {
        let mut payload: Vec<u8> = Vec::new();
        payload.push(104);
        payload.push(105);
        Frame::Ping(payload)
    }
}

impl Session {
    /// One beat of the heartbeat: the ping is offered to the session's own
    /// channel. The answer is whether the heartbeat goes on; it ends with
    /// the first ping that the channel refuses.
    ///
    /// What is offered is `Frame::heartbeat()`, always. Whether the channel
    /// takes it is for the channel to say, so nothing is promised of the
    /// answer.
    pub fn beat(&self) -> (alive: bool) {
        self.offer(Frame::heartbeat())
    }
}

} // verus!
