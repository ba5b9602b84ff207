use chat_demo::{Data, Frame, MsgType, Session, User, UsersState};
use tokio::sync::mpsc::{unbounded_channel, UnboundedReceiver};

fn user(id: &str, name: &str) -> User {
    User::new(id.to_string(), name.to_string())
}

fn join(state: &mut UsersState, id: &str, name: &str) -> UnboundedReceiver<Frame> {
    let (tx, rx) = unbounded_channel::<Frame>();
    state.insert(Session::new(user(id, name), tx));
    rx
}

fn take(rx: &mut UnboundedReceiver<Frame>) -> Vec<Frame> {
    let mut frames = Vec::new();
    while let Ok(frame) = rx.try_recv() {
        frames.push(frame);
    }
    frames
}

fn ids(state: &UsersState) -> Vec<String> {
    let mut ids: Vec<String> = state.snapshot_sorted().into_iter().map(|u| u.id).collect();
    ids.sort();
    ids
}

fn sorted(mut ids: Vec<String>) -> Vec<String> {
    ids.sort();
    ids
}

#[test]
fn insert_then_get_finds_the_session() {
    let (tx, mut rx) = unbounded_channel::<Frame>();
    let mut state = UsersState::new();
    state.insert(Session::new(user("1", "Alice"), tx));
    let found = state.get("1").expect("registered");
    assert_eq!(found.user, user("1", "Alice"));
    assert!(found.offer(Frame::Text("hi".to_string())));
    assert_eq!(rx.try_recv().ok(), Some(Frame::Text("hi".to_string())));
    assert!(state.get("2").is_none());
}

#[test]
fn remove_forgets_the_session() {
    let mut state = UsersState::new();
    let _rx = join(&mut state, "1", "Alice");
    state.remove("1");
    assert!(state.get("1").is_none());
    state.remove("1");
    assert!(state.get("1").is_none());
    assert_eq!(ids(&state), Vec::<String>::new());
}

#[test]
fn a_second_insert_under_an_id_replaces_the_first() {
    let mut state = UsersState::new();
    let mut first = join(&mut state, "1", "Alice");
    let mut second = join(&mut state, "1", "Alicia");
    assert_eq!(state.snapshot_sorted(), vec![user("1", "Alicia")]);
    let found = state.get("1").expect("registered");
    assert_eq!(found.user.name, "Alicia");
    assert!(found.offer(Frame::Text("x".to_string())));
    assert_eq!(take(&mut second), vec![Frame::Text("x".to_string())]);
    assert_eq!(take(&mut first), vec![]);
}

#[test]
fn the_keys_are_the_ids_that_logged_in_and_were_not_removed() {
    let mut state = UsersState::new();
    let _a = join(&mut state, "1", "Alice");
    let _b = join(&mut state, "2", "Bob");
    let _c = join(&mut state, "3", "Carol");
    assert_eq!(ids(&state), vec!["1", "2", "3"]);
    state.remove("2");
    assert_eq!(ids(&state), vec!["1", "3"]);
    let _b2 = join(&mut state, "2", "Bob");
    let _a2 = join(&mut state, "1", "Alice");
    assert_eq!(ids(&state), vec!["1", "2", "3"]);
    state.reap(&vec!["3".to_string(), "9".to_string(), "1".to_string()]);
    assert_eq!(ids(&state), vec!["2"]);
    state.reap(&vec![]);
    assert_eq!(ids(&state), vec!["2"]);
}

#[test]
fn broadcast_offers_the_envelope_to_every_session() {
    let mut state = UsersState::new();
    let mut a = join(&mut state, "1", "Alice");
    let mut b = join(&mut state, "2", "Bob");
    let data = Data::new(MsgType::Public, user("1", "Alice"), "hi".to_string());
    let sweep = state.broadcast(data.clone());
    assert_eq!(sweep.data, data);
    assert_eq!(sorted(sweep.offered), vec!["1", "2"]);
    assert_eq!(sweep.reaped, Vec::<String>::new());
    let frame = Frame::Text(
        r#"{"type":"public","msg":"hi","target":{"id":"1","name":"Alice"},"list":null}"#.to_string(),
    );
    assert_eq!(take(&mut a), vec![frame.clone()]);
    assert_eq!(take(&mut b), vec![frame]);
    assert_eq!(ids(&state), vec!["1", "2"]);
}

#[test]
fn broadcast_of_an_announcement_carries_the_sorted_roster() {
    let mut state = UsersState::new();
    let mut b = join(&mut state, "2", "Bob");
    let mut a = join(&mut state, "1", "Alice");
    for kind in [MsgType::Login, MsgType::Logout] {
        let sweep = state.broadcast(Data::new(kind, user("2", "Bob"), "m".to_string()));
        assert_eq!(sweep.data.list, Some(vec![user("1", "Alice"), user("2", "Bob")]));
        let tag = kind.tag();
        let frame = Frame::Text(format!(
            r#"{{"type":"{tag}","msg":"m","target":{{"id":"2","name":"Bob"}},"list":[{{"id":"1","name":"Alice"}},{{"id":"2","name":"Bob"}}]}}"#
        ));
        assert_eq!(take(&mut a), vec![frame.clone()]);
        assert_eq!(take(&mut b), vec![frame]);
    }
}

#[test]
fn broadcast_of_another_kind_sends_the_list_as_it_came() {
    let mut state = UsersState::new();
    let _a = join(&mut state, "1", "Alice");
    let mut data = Data::new(MsgType::System, user("0", "root"), "m".to_string());
    data.list = Some(vec![user("5", "Eve")]);
    let sweep = state.broadcast(data.clone());
    assert_eq!(sweep.data, data);
    let sweep = state.seal(Data::error("e"));
    assert_eq!(sweep, Data::error("e"));
}

#[test]
fn broadcast_reaps_the_sessions_whose_channel_is_closed() {
    let mut state = UsersState::new();
    let mut a = join(&mut state, "1", "Alice");
    let b = join(&mut state, "2", "Bob");
    let mut c = join(&mut state, "3", "Carol");
    drop(b);
    let sweep = state.broadcast(Data::new(MsgType::Public, user("1", "Alice"), "hi".to_string()));
    assert_eq!(sorted(sweep.offered), vec!["1", "2", "3"]);
    assert_eq!(sweep.reaped, vec!["2"]);
    assert_eq!(ids(&state), vec!["1", "3"]);
    assert!(state.get("2").is_none());
    assert_eq!(take(&mut a).len(), 1);
    assert_eq!(take(&mut c).len(), 1);
}

#[test]
fn the_roster_of_a_broadcast_is_taken_before_the_reaping() {
    let mut state = UsersState::new();
    let mut a = join(&mut state, "1", "Alice");
    let b = join(&mut state, "2", "Bob");
    drop(b);
    let sweep = state.broadcast(Data::new(MsgType::Login, user("1", "Alice"), "m".to_string()));
    assert_eq!(sweep.data.list, Some(vec![user("1", "Alice"), user("2", "Bob")]));
    assert_eq!(sweep.reaped, vec!["2"]);
    assert_eq!(take(&mut a).len(), 1);
    assert_eq!(state.snapshot_sorted(), vec![user("1", "Alice")]);
}

#[test]
fn broadcast_on_an_empty_registry_sends_nothing() {
    let mut state = UsersState::new();
    let sweep = state.broadcast(Data::new(MsgType::Logout, user("1", "Alice"), "m".to_string()));
    assert_eq!(sweep.offered, Vec::<String>::new());
    assert_eq!(sweep.reaped, Vec::<String>::new());
    assert_eq!(sweep.data.list, Some(vec![]));
}

#[test]
fn taken_reads_what_the_channel_gave_back() {
    let (tx, rx) = unbounded_channel::<Frame>();
    assert!(chat_demo::session::taken(tx.send(Frame::Ping(vec![]))));
    drop(rx);
    assert!(!chat_demo::session::taken(tx.send(Frame::Ping(vec![]))));
}

#[test]
fn offer_is_refused_once_the_receiver_is_gone() {
    let (tx, rx) = unbounded_channel::<Frame>();
    let session = Session::new(user("1", "Alice"), tx);
    assert!(session.offer(Frame::Ping(vec![1])));
    drop(rx);
    assert!(!session.offer(Frame::Ping(vec![1])));
    assert!(!session.clone().offer(Frame::Ping(vec![1])));
}

#[test]
fn a_clone_of_a_session_feeds_the_same_channel() {
    let (tx, mut rx) = unbounded_channel::<Frame>();
    let session = Session::new(user("1", "Alice"), tx);
    let copy = session.clone();
    assert_eq!(copy.user, session.user);
    assert!(copy.outbound.same_channel(&session.outbound));
    assert!(copy.offer(Frame::Text("a".to_string())));
    assert!(session.offer(Frame::Text("b".to_string())));
    assert_eq!(take(&mut rx), vec![Frame::Text("a".to_string()), Frame::Text("b".to_string())]);
}
