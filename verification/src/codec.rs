//! The envelope codec: which JSON documents are envelopes, and the text that
//! an envelope is written as.
//!
//! ```text
//! { "type": "login"|"logout"|"system"|"error"|"public"|"private",
//!   "msg": string,
//!   "target": { "id": string, "name": string } | null,
//!   "list": [ { "id": string, "name": string }, ... ] | null }
//! ```
//!
//! The codec checks shape only. Whether a `private` envelope names a
//! recipient is the relay's question.

use crate::envelope::{users_view, Data, DataView, MsgType, User, UserView};
use crate::json::{
    json_document, json_is_null, json_items, json_member, json_quoted, json_text, member,
    parse_document, quote,
};
use crate::session::Frame;
use crate::text::same_text;
use serde_json::Value;
use vstd::pervasive::unreached;
use vstd::prelude::*;
use vstd::string::*;

verus! {

/// Why a text is not an envelope.
#[derive(Clone, Copy, Debug, PartialEq, Eq, Structural)]
pub enum DecodeError {
    /// The text is not a JSON document.
    Malformed,
    /// `type` is missing, is no string, or is none of the six kinds.
    Type,
    /// `msg` is missing or is no string.
    Message,
    /// `target` is neither absent, `null` nor an identity.
    Target,
    /// `list` is neither absent, `null` nor an array of identities.
    Roster,
}

impl MsgType {
    /// The word that stands for a kind on the wire.
    pub open spec fn tag_view(self) -> Seq<char> {
        match self {
            MsgType::Login => "login"@,
            MsgType::Logout => "logout"@,
            MsgType::System => "system"@,
            MsgType::Error => "error"@,
            MsgType::Public => "public"@,
            MsgType::Private => "private"@,
        }
    }

    /// The kind that a word stands for, if it stands for one.
    pub open spec fn of_tag(tag: Seq<char>) -> Option<MsgType> {
        if tag == "login"@ {
            Some(MsgType::Login)
        } else if tag == "logout"@ {
            Some(MsgType::Logout)
        } else if tag == "system"@ {
            Some(MsgType::System)
        } else if tag == "error"@ {
            Some(MsgType::Error)
        } else if tag == "public"@ {
            Some(MsgType::Public)
        } else if tag == "private"@ {
            Some(MsgType::Private)
        } else {
            None
        }
    }

    pub fn tag(&self) -> (r: &'static str)
        ensures
            r@ == self.tag_view(),
    {
        match self {
            MsgType::Login => "login",
            MsgType::Logout => "logout",
            MsgType::System => "system",
            MsgType::Error => "error",
            MsgType::Public => "public",
            MsgType::Private => "private",
        }
    }

    /// Reads a kind. Any other word, in any other case, is no kind.
    pub fn from_tag(tag: &str) -> (r: Option<MsgType>)
        ensures
            r == MsgType::of_tag(tag@),
    {
        if same_text(tag, "login") {
            Some(MsgType::Login)
        } else if same_text(tag, "logout") {
            Some(MsgType::Logout)
        } else if same_text(tag, "system") {
            Some(MsgType::System)
        } else if same_text(tag, "error") {
            Some(MsgType::Error)
        } else if same_text(tag, "public") {
            Some(MsgType::Public)
        } else if same_text(tag, "private") {
            Some(MsgType::Private)
        } else {
            None
        }
    }
}

/// Every kind is read back from its own word.
pub proof fn lemma_tag_round_trip(kind: MsgType)
    ensures
        MsgType::of_tag(kind.tag_view()) == Some(kind),
{
    reveal_strlit("login");
    reveal_strlit("logout");
    reveal_strlit("system");
    reveal_strlit("error");
    reveal_strlit("public");
    reveal_strlit("private");
    assert("login"@.len() == 5 && "error"@.len() == 5 && "private"@.len() == 7);
    assert("logout"@.len() == 6 && "system"@.len() == 6 && "public"@.len() == 6);
    assert("login"@[0] == 'l' && "error"@[0] == 'e');
    assert("logout"@[0] == 'l' && "system"@[0] == 's' && "public"@[0] == 'p');
}

/// The text under `key`, where `value` is an object whose member of that
/// name is a string.
pub open spec fn text_member(value: Value, key: Seq<char>) -> Option<Seq<char>> {
    match json_member(value, key) {
        Some(found) => json_text(found),
        None => None,
    }
}

/// The member under `key`, unless it is absent or `null`.
pub open spec fn optional_member(value: Value, key: Seq<char>) -> Option<Value> {
    match json_member(value, key) {
        Some(found) => if json_is_null(found) {
            None
        } else {
            Some(found)
        },
        None => None,
    }
}

/// The identity that a value holds: an object with a string `id` and a
/// string `name`. Other members are passed over.
pub open spec fn user_in(value: Value) -> Option<UserView> {
    match (text_member(value, "id"@), text_member(value, "name"@)) {
        (Some(id), Some(name)) => Some(UserView { id, name }),
        _ => None,
    }
}

/// The identities that a sequence of values holds, if each holds one.
pub open spec fn users_in(items: Seq<Value>) -> Option<Seq<UserView>> {
    if forall|i: int| 0 <= i < items.len() ==> (#[trigger] user_in(items[i])) is Some {
        Some(Seq::new(items.len(), |i: int| user_in(items[i])->0))
    } else {
        None
    }
}

pub open spec fn kind_in(root: Value) -> Option<MsgType> {
    match text_member(root, "type"@) {
        Some(tag) => MsgType::of_tag(tag),
        None => None,
    }
}

/// The `target` of a document: `Err` where the member is there, is not
/// `null`, and holds no identity.
pub open spec fn target_in(root: Value) -> Result<Option<UserView>, DecodeError> {
    match optional_member(root, "target"@) {
        None => Ok(None),
        Some(found) => match user_in(found) {
            Some(user) => Ok(Some(user)),
            None => Err(DecodeError::Target),
        },
    }
}

/// The `list` of a document: `Err` where the member is there, is not `null`,
/// and is no array of identities.
pub open spec fn list_in(root: Value) -> Result<Option<Seq<UserView>>, DecodeError> {
    match optional_member(root, "list"@) {
        None => Ok(None),
        Some(found) => match json_items(found) {
            Some(items) => match users_in(items) {
                Some(users) => Ok(Some(users)),
                None => Err(DecodeError::Roster),
            },
            None => Err(DecodeError::Roster),
        },
    }
}

/// The envelope that a JSON value holds, or why it holds none.
pub open spec fn decoded(root: Value) -> Result<DataView, DecodeError> {
    match kind_in(root) {
        None => Err(DecodeError::Type),
        Some(kind) => match text_member(root, "msg"@) {
            None => Err(DecodeError::Message),
            Some(msg) => match target_in(root) {
                Err(e) => Err(e),
                Ok(target) => match list_in(root) {
                    Err(e) => Err(e),
                    Ok(list) => Ok(DataView { kind, msg, target, list }),
                },
            },
        },
    }
}

/// The envelope that a text holds, or why it holds none.
pub open spec fn decoded_text(text: Seq<char>) -> Result<DataView, DecodeError> {
    match json_document(text) {
        Some(root) => decoded(root),
        None => Err(DecodeError::Malformed),
    }
}

fn text_at<'a>(value: &'a Value, key: &str) -> (r: Option<&'a str>)
    ensures
        text_member(*value, key@) == match r {
            Some(text) => Some(text@),
            None => None,
        },
{
    match member(value, key) {
        Some(found) => found.as_str(),
        None => None,
    }
}

fn present<'a>(value: &'a Value, key: &str) -> (r: Option<&'a Value>)
    ensures
        optional_member(*value, key@) == match r {
            Some(found) => Some(*found),
            None => None,
        },
{
    match member(value, key) {
        Some(found) => if found.is_null() {
            None
        } else {
            Some(found)
        },
        None => None,
    }
}

impl User {
    /// Reads an identity from a JSON value.
    pub fn from_value(value: &Value) -> (r: Option<User>)
        ensures
            user_in(*value) == match r {
                Some(user) => Some(user@),
                None => None,
            },
    {
        match text_at(value, "id") {
            Some(id) => match text_at(value, "name") {
                Some(name) => Some(User { id: id.to_owned(), name: name.to_owned() }),
                None => None,
            },
            None => None,
        }
    }
}

fn users_from(items: &Vec<Value>) -> (r: Option<Vec<User>>)
    ensures
        users_in(items@) == match r {
            Some(users) => Some(users_view(users@)),
            None => None,
        },
{
    let mut out: Vec<User> = Vec::new();
    let mut i: usize = 0;
    while i < items.len()
        invariant
            i <= items.len(),
            out.len() == i,
            forall|j: int| 0 <= j < i ==> (#[trigger] user_in(items@[j])) == Some(out@[j]@),
        decreases items.len() - i,
    {
        match User::from_value(&items[i]) {
            Some(user) => {
                out.push(user);
            },
            None => {
                return None;
            },
        }
        i += 1;
    }
    assert(users_in(items@)->0 =~= users_view(out@));
    Some(out)
}

impl Data {
    /// Reads an envelope from a parsed JSON value. Members other than the
    /// four of the format are passed over.
    pub fn from_value(root: &Value) -> (r: Result<Data, DecodeError>)
        ensures
            decoded(*root) == match r {
                Ok(data) => Ok(data@),
                Err(e) => Err(e),
            },
    {
        let kind = match text_at(root, "type") {
            Some(tag) => match MsgType::from_tag(tag) {
                Some(kind) => kind,
                None => {
                    return Err(DecodeError::Type);
                },
            },
            None => {
                return Err(DecodeError::Type);
            },
        };
        let msg = match text_at(root, "msg") {
            Some(msg) => msg.to_owned(),
            None => {
                return Err(DecodeError::Message);
            },
        };
        let target = match present(root, "target") {
            None => None,
            Some(found) => match User::from_value(found) {
                Some(user) => Some(user),
                None => {
                    return Err(DecodeError::Target);
                },
            },
        };
        let list = match present(root, "list") {
            None => None,
            Some(found) => match found.as_array() {
                Some(items) => match users_from(items) {
                    Some(users) => Some(users),
                    None => {
                        return Err(DecodeError::Roster);
                    },
                },
                None => {
                    return Err(DecodeError::Roster);
                },
            },
        };
        Ok(Data { kind, msg, target, list })
    }

    /// Reads an envelope from a frame's text. It is all or nothing: a
    /// document with one member of the wrong shape is no envelope.
    pub fn from_str(text: &str) -> (r: Result<Data, DecodeError>)
        ensures
            decoded_text(text@) == match r {
                Ok(data) => Ok(data@),
                Err(e) => Err(e),
            },
    {
        match parse_document(text) {
            Ok(root) => Data::from_value(&root),
            Err(_) => Err(DecodeError::Malformed),
        }
    }
}

/// An identity as it is written: `{"id":..,"name":..}`.
pub open spec fn user_text(user: UserView) -> Seq<char> {
    "{\"id\":"@ + json_quoted(user.id) + ",\"name\":"@ + json_quoted(user.name) + "}"@
}

/// Identities as they are written inside the brackets of a roster: one
/// after the other, with a comma between two.
pub open spec fn users_text(users: Seq<UserView>) -> Seq<char>
    decreases users.len(),
{
    if users.len() == 0 {
        Seq::empty()
    } else if users.len() == 1 {
        user_text(users[0])
    } else {
        users_text(users.drop_last()) + ","@ + user_text(users.last())
    }
}

pub open spec fn target_text(target: Option<UserView>) -> Seq<char> {
    match target {
        Some(user) => user_text(user),
        None => "null"@,
    }
}

pub open spec fn list_text(list: Option<Seq<UserView>>) -> Seq<char> {
    match list {
        Some(users) => "["@ + users_text(users) + "]"@,
        None => "null"@,
    }
}

/// An envelope as it is written: one JSON object, its members in the order
/// `type`, `msg`, `target`, `list`, without white space.
pub open spec fn wire_text(data: DataView) -> Seq<char> {
    "{\"type\":"@ + json_quoted(data.kind.tag_view()) + ",\"msg\":"@ + json_quoted(data.msg)
        + ",\"target\":"@ + target_text(data.target) + ",\"list\":"@ + list_text(data.list)
        + "}"@
}

fn quoted(text: &str) -> (r: String)
    ensures
        r@ == json_quoted(text@),
{
    match quote(text) {
        Ok(literal) => literal,
        Err(_) => unreached(),
    }
}

impl User {
    /// Writes an identity.
    pub fn to_text(&self) -> (r: String)
        ensures
            r@ == user_text(self@),
    {
        let mut out = "{\"id\":".to_owned();
        out.append(quoted(self.id.as_str()).as_str());
        out.append(",\"name\":");
        out.append(quoted(self.name.as_str()).as_str());
        out.append("}");
        out
    }
}

fn users_to_text(users: &Vec<User>) -> (r: String)
    ensures
        r@ == users_text(users_view(users@)),
{
    let ghost all = users_view(users@);
    let mut out = String::new();
    let mut i: usize = 0;
    while i < users.len()
        invariant
            i <= users.len(),
            all == users_view(users@),
            out@ == users_text(all.subrange(0, i as int)),
        decreases users.len() - i,
    {
        if i > 0 {
            out.append(",");
        }
        out.append(users[i].to_text().as_str());
        proof {
            let next = all.subrange(0, i + 1);
            assert(next.drop_last() =~= all.subrange(0, i as int));
            assert(next.last() == users@[i as int]@);
        }
        i += 1;
    }
    assert(all.subrange(0, i as int) =~= all);
    out
}

impl Data {
    /// Writes an envelope. This cannot fail.
    pub fn to_text(&self) -> (r: String)
        ensures
            r@ == wire_text(self@),
    {
        let mut out = "{\"type\":".to_owned();
        out.append(quoted(self.kind.tag()).as_str());
        out.append(",\"msg\":");
        out.append(quoted(self.msg.as_str()).as_str());
        out.append(",\"target\":");
        match &self.target {
            Some(user) => {
                out.append(user.to_text().as_str());
            },
            None => {
                out.append("null");
            },
        }
        out.append(",\"list\":");
        match &self.list {
            Some(users) => {
                out.append("[");
                out.append(users_to_text(users).as_str());
                out.append("]");
            },
            None => {
                out.append("null");
            },
        }
        out.append("}");
        out
    }

    /// The frame that carries this envelope.
    pub fn to_message(&self) -> (r: Frame)
        ensures
            r matches Frame::Text(text) && text@ == wire_text(self@),
    {
        Frame::Text(self.to_text())
    }
}

} // verus!
