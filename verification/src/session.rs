//! A session: one connected, authenticated client, and the channel through
//! which everything written to its socket must pass.

use crate::envelope::{User, UserView};
use tokio::sync::mpsc::error::SendError;
use tokio::sync::mpsc::UnboundedSender;
use vstd::prelude::*;

verus! {

/// `tokio::sync::mpsc::UnboundedSender`: the sending end of a channel. As a
/// value in contracts it stands for the channel that it feeds.
#[verifier::external_type_specification]
#[verifier::external_body]
#[verifier::reject_recursive_types(T)]
pub struct ExUnboundedSender<T>(UnboundedSender<T>);

/// `tokio::sync::mpsc::error::SendError`: a message that a closed channel
/// handed back.
#[verifier::external_type_specification]
#[verifier::external_body]
#[verifier::reject_recursive_types(T)]
pub struct ExSendError<T>(SendError<T>);

/// `UnboundedSender::send`. Whether the message is taken depends on whether
/// the receiving end is still open, so nothing is promised of the result.
pub assume_specification<T>[ UnboundedSender::<T>::send ](
    sender: &UnboundedSender<T>,
    message: T,
) -> (r: Result<(), SendError<T>>);

/// `UnboundedSender::clone`. Claimed: the clone feeds the same channel, which
/// is what equality of senders means in contracts.
pub assume_specification<T>[ <UnboundedSender<T> as Clone>::clone ](
    sender: &UnboundedSender<T>,
) -> (r: UnboundedSender<T>)
    ensures
        r == *sender,
;

/// What is put on a session's outbound channel and later written to its
/// socket: an encoded envelope, or a protocol-level ping.
#[derive(Debug, PartialEq, Eq)]
pub enum Frame {
    Text(String),
    Ping(Vec<u8>),
}

impl Clone for Frame {
    fn clone(&self) -> (r: Self)
        ensures
            match (*self, r) {
                (Frame::Text(a), Frame::Text(b)) => a@ == b@,
                (Frame::Ping(a), Frame::Ping(b)) => a@ == b@,
                _ => false,
            },
    {
        match self {
            Frame::Text(text) => Frame::Text(text.clone()),
            Frame::Ping(payload) => Frame::Ping(payload.clone()),
        }
    }
}

/// One connected client: who it is and where its outbound frames go.
#[derive(Debug)]
pub struct Session {
    pub user: User,
    pub outbound: UnboundedSender<Frame>,
}

pub ghost struct SessionView {
    pub user: UserView,
    pub outbound: UnboundedSender<Frame>,
}

impl View for Session {
    type V = SessionView;

    open spec fn view(&self) -> SessionView {
        SessionView { user: self.user@, outbound: self.outbound }
    }
}

impl Clone for Session {
    fn clone(&self) -> (r: Self)
        ensures
            r == *self,
    {
        Session { user: self.user.clone(), outbound: self.outbound.clone() }
    }
}

impl Session {
    pub fn new(user: User, outbound: UnboundedSender<Frame>) -> (r: Self)
        ensures
            r.user == user,
            r.outbound == outbound,
    {
        Session { user, outbound }
    }

    /// Offers a frame to the session's channel without blocking. The answer
    /// is whether the channel took it; a refusal means that the writer on
    /// the other end is gone.
    ///
    /// The frame goes to the channel as it is. Whether it is taken is for the
    /// channel to say, on every frame, so nothing is promised of the answer:
    /// `taken` reads it off what the channel gave back.
    pub fn offer(&self, frame: Frame) -> (accepted: bool) {
        taken(self.outbound.send(frame))
    }
}

/// Whether a channel took the frame that was sent to it: it did unless it
/// handed the frame back.
pub fn taken(outcome: Result<(), SendError<Frame>>) -> (accepted: bool)
    ensures
        accepted == (outcome is Ok),
{
    match outcome {
        Ok(_) => true,
        Err(_) => false,
    }
}

} // verus!
