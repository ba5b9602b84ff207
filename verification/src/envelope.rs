//! The envelope: the one message structure that travels in both directions,
//! and the identity that envelopes and the registry speak of.

use vstd::prelude::*;

verus! {

/// The kind of an envelope, as carried in its `type` field.
#[derive(Clone, Copy, Debug, PartialEq, Eq, Structural)]
pub enum MsgType {
    Login,
    Logout,
    System,
    Error,
    Public,
    Private,
}

/// A claimed identity: a unique token and a free-form display name.
#[derive(Debug, PartialEq, Eq)]
pub struct User {
    pub id: String,
    pub name: String,
}

/// What a `User` is, as mathematics: two sequences of characters.
pub ghost struct UserView {
    pub id: Seq<char>,
    pub name: Seq<char>,
}

impl View for User {
    type V = UserView;

    open spec fn view(&self) -> UserView {
        UserView { id: self.id@, name: self.name@ }
    }
}

impl Clone for User {
    fn clone(&self) -> (r: Self)
        ensures
            r == *self,
    {
        User { id: self.id.clone(), name: self.name.clone() }
    }
}

impl User {
    pub fn new(id: String, name: String) -> (r: Self)
        ensures
            r@ == (UserView { id: id@, name: name@ }),
    {
        User { id, name }
    }
}

/// The views of a sequence of identities, in the same order.
pub open spec fn users_view(users: Seq<User>) -> Seq<UserView> {
    Seq::new(users.len(), |i: int| users[i]@)
}

/// The wire message. `target` names the recipient on an inbound private
/// message and the sender (or the subject of a login or logout) on every
/// outbound one; `list` is the roster, present on login and logout broadcasts.
#[derive(Debug, PartialEq, Eq)]
pub struct Data {
    pub kind: MsgType,
    pub msg: String,
    pub target: Option<User>,
    pub list: Option<Vec<User>>,
}

pub ghost struct DataView {
    pub kind: MsgType,
    pub msg: Seq<char>,
    pub target: Option<UserView>,
    pub list: Option<Seq<UserView>>,
}

impl View for Data {
    type V = DataView;

    open spec fn view(&self) -> DataView {
        DataView {
            kind: self.kind,
            msg: self.msg@,
            target: match self.target {
                Some(user) => Some(user@),
                None => None,
            },
            list: match self.list {
                Some(users) => Some(users_view(users@)),
                None => None,
            },
        }
    }
}

/// An error envelope is an `Error` with a text and nothing else.
pub open spec fn error_view(msg: Seq<char>) -> DataView {
    DataView { kind: MsgType::Error, msg, target: None, list: None }
}

impl Clone for Data {
    fn clone(&self) -> (r: Self)
        ensures
            r@ == self@,
    {
        let target = match &self.target {
            Some(user) => Some(user.clone()),
            None => None,
        };
        let list = match &self.list {
            Some(users) => Some(clone_users(users)),
            None => None,
        };
        Data { kind: self.kind, msg: self.msg.clone(), target, list }
    }
}

/// Copies a list of identities, element by element.
pub fn clone_users(users: &Vec<User>) -> (r: Vec<User>)
    ensures
        r@ == users@,
{
    let mut out: Vec<User> = Vec::new();
    let mut i: usize = 0;
    while i < users.len()
        invariant
            i <= users.len(),
            out@ == users@.subrange(0, i as int),
        decreases users.len() - i,
    {
        out.push(users[i].clone());
        i += 1;
    }
    out
}

impl Data {
    /// An envelope of kind `t` about `target`, without a roster.
    pub fn new(t: MsgType, target: User, msg: String) -> (r: Self)
        ensures
            r@ == (DataView { kind: t, msg: msg@, target: Some(target@), list: None }),
    {
        Data { msg, kind: t, target: Some(target), list: None }
    }

    /// An error envelope carrying `msg`.
    pub fn error(msg: &str) -> (r: Self)
        ensures
            r@ == error_view(msg@),
    {
        Data { msg: msg.to_owned(), target: None, kind: MsgType::Error, list: None }
    }
}

} // verus!
