use chat_demo::relay::{
    HEARTBEAT_SECS, INVALID_FORMAT, INVALID_MESSAGE, LOGIN_FAILED, LOGIN_MALFORMED, LOGIN_REFUSED,
    NOT_ONLINE,
};
use chat_demo::{
    Connection, Data, DecodeError, Frame, Handshake, Inbound, MsgType, Routed, SessionState, User,
    UsersState,
};
use tokio::sync::mpsc::{unbounded_channel, UnboundedReceiver};

fn user(id: &str, name: &str) -> User {
    User::new(id.to_string(), name.to_string())
}

fn text(frame: &str) -> Inbound {
    Inbound::Text(frame.to_string())
}

fn login_frame(id: &str, name: &str) -> Inbound {
    Inbound::Text(Data::new(MsgType::Login, user(id, name), String::new()).to_text())
}

fn awaiting() -> Connection {
    let mut connection = Connection::new();
    assert_eq!(connection.state(), SessionState::Connecting);
    connection.ready();
    assert_eq!(connection.state(), SessionState::AwaitingLogin);
    connection
}

fn connect(state: &mut UsersState, id: &str, name: &str) -> (Connection, UnboundedReceiver<Frame>) {
    let (tx, rx) = unbounded_channel::<Frame>();
    let mut connection = awaiting();
    match connection.login(state, login_frame(id, name), tx) {
        Handshake::Accepted(_) => {}
        Handshake::Rejected(reply) => panic!("rejected: {reply:?}"),
    }
    assert_eq!(connection.state(), SessionState::Active);
    (connection, rx)
}

fn take(rx: &mut UnboundedReceiver<Frame>) -> Vec<Data> {
    let mut envelopes = Vec::new();
    while let Ok(frame) = rx.try_recv() {
        match frame {
            Frame::Text(text) => envelopes.push(Data::from_str(&text).expect("an envelope")),
            Frame::Ping(_) => panic!("a ping"),
        }
    }
    envelopes
}

fn ids(state: &UsersState) -> Vec<String> {
    let mut ids: Vec<String> = state.snapshot_sorted().into_iter().map(|u| u.id).collect();
    ids.sort();
    ids
}

fn sorted(mut ids: Vec<String>) -> Vec<String> {
    ids.sort();
    ids
}

fn expect_reply(routed: Option<Routed>, msg: &str) {
    match routed {
        Some(Routed::Replied { data, accepted }) => {
            assert_eq!(data, Data::error(msg));
            assert!(accepted);
        }
        other => panic!("no reply: {other:?}"),
    }
}

#[test]
fn two_clients_log_in_talk_and_one_leaves() {
    let mut state = UsersState::new();
    let (tx_a, mut rx_a) = unbounded_channel::<Frame>();
    let (tx_b, mut rx_b) = unbounded_channel::<Frame>();

    let mut a = awaiting();
    match a.login(&mut state, login_frame("1", "Alice"), tx_a) {
        Handshake::Accepted(sweep) => {
            assert_eq!(sweep.data.list, Some(vec![user("1", "Alice")]));
            assert_eq!(sweep.offered, vec!["1"]);
        }
        Handshake::Rejected(reply) => panic!("rejected: {reply:?}"),
    }
    let mut b = awaiting();
    match b.login(&mut state, login_frame("2", "Bob"), tx_b) {
        Handshake::Accepted(sweep) => {
            assert_eq!(sweep.data.kind, MsgType::Login);
            assert_eq!(sweep.data.msg, "用户 Bob 加入聊天室");
            assert_eq!(sweep.data.target, Some(user("2", "Bob")));
            assert_eq!(sweep.data.list, Some(vec![user("1", "Alice"), user("2", "Bob")]));
            assert_eq!(sorted(sweep.offered), vec!["1", "2"]);
            assert_eq!(sweep.reaped, Vec::<String>::new());
        }
        Handshake::Rejected(reply) => panic!("rejected: {reply:?}"),
    }
    assert_eq!(ids(&state), vec!["1", "2"]);
    let seen_by_a = take(&mut rx_a);
    assert_eq!(seen_by_a.len(), 2);
    assert_eq!(seen_by_a[0].list, Some(vec![user("1", "Alice")]));
    assert_eq!(seen_by_a[1].list, Some(vec![user("1", "Alice"), user("2", "Bob")]));
    let seen_by_b = take(&mut rx_b);
    assert_eq!(seen_by_b.len(), 1);
    assert_eq!(seen_by_b[0], seen_by_a[1]);

    let routed = a.receive(&mut state, text(r#"{"type":"public","msg":"hi"}"#));
    assert!(matches!(routed, Some(Routed::Broadcast(_))));
    let hi = Data {
        kind: MsgType::Public,
        msg: "hi".to_string(),
        target: Some(user("1", "Alice")),
        list: None,
    };
    assert_eq!(take(&mut rx_a), vec![hi.clone()]);
    assert_eq!(take(&mut rx_b), vec![hi]);

    assert!(b.receive(&mut state, Inbound::Gone).is_none());
    assert_eq!(b.state(), SessionState::Closing);
    let sweep = b.finish(&mut state);
    assert_eq!(b.state(), SessionState::Closed);
    assert_eq!(ids(&state), vec!["1"]);
    assert_eq!(sweep.offered, vec!["1"]);
    let bye = Data {
        kind: MsgType::Logout,
        msg: "用户 Bob 退出聊天室".to_string(),
        target: Some(user("2", "Bob")),
        list: Some(vec![user("1", "Alice")]),
    };
    assert_eq!(sweep.data, bye);
    assert_eq!(take(&mut rx_a), vec![bye]);
    assert_eq!(take(&mut rx_b), vec![]);
}

#[test]
fn a_private_message_to_an_id_never_registered_is_answered_with_one_error() {
    let mut state = UsersState::new();
    let (mut a, mut rx_a) = connect(&mut state, "1", "Alice");
    let (_b, mut rx_b) = connect(&mut state, "2", "Bob");
    take(&mut rx_a);
    take(&mut rx_b);
    let routed = a.receive(
        &mut state,
        text(r#"{"type":"private","msg":"psst","target":{"id":"3","name":"Carol"}}"#),
    );
    expect_reply(routed, NOT_ONLINE);
    assert_eq!(take(&mut rx_a), vec![Data::error("recipient not online")]);
    assert_eq!(take(&mut rx_b), vec![]);
    assert_eq!(ids(&state), vec!["1", "2"]);
    assert_eq!(a.state(), SessionState::Active);
}

#[test]
fn a_private_message_goes_to_its_recipient_only() {
    let mut state = UsersState::new();
    let (mut a, mut rx_a) = connect(&mut state, "1", "Alice");
    let (_b, mut rx_b) = connect(&mut state, "2", "Bob");
    let (_c, mut rx_c) = connect(&mut state, "3", "Carol");
    take(&mut rx_a);
    take(&mut rx_b);
    take(&mut rx_c);
    let routed = a.receive(
        &mut state,
        text(r#"{"type":"private","msg":"psst","target":{"id":"2","name":"whoever"}}"#),
    );
    let sent = Data {
        kind: MsgType::Private,
        msg: "psst".to_string(),
        target: Some(user("1", "Alice")),
        list: None,
    };
    match routed {
        Some(Routed::Direct { to, data, accepted }) => {
            assert_eq!(to.user, user("2", "Bob"));
            assert!(to.outbound.same_channel(&state.get("2").expect("registered").outbound));
            assert_eq!(data, sent);
            assert!(accepted);
        }
        other => panic!("not direct: {other:?}"),
    }
    assert_eq!(take(&mut rx_b), vec![sent]);
    assert_eq!(take(&mut rx_a), vec![]);
    assert_eq!(take(&mut rx_c), vec![]);
}

#[test]
fn a_private_message_to_a_dead_channel_is_dropped_in_silence() {
    let mut state = UsersState::new();
    let (mut a, mut rx_a) = connect(&mut state, "1", "Alice");
    let (_b, rx_b) = connect(&mut state, "2", "Bob");
    take(&mut rx_a);
    drop(rx_b);
    let routed = a.receive(
        &mut state,
        text(r#"{"type":"private","msg":"psst","target":{"id":"2","name":"Bob"}}"#),
    );
    assert!(matches!(routed, Some(Routed::Direct { accepted: false, .. })));
    assert_eq!(take(&mut rx_a), vec![]);
    assert_eq!(ids(&state), vec!["1", "2"]);
    assert_eq!(a.state(), SessionState::Active);
}

#[test]
fn a_public_message_reaches_every_session_and_names_its_sender() {
    let mut state = UsersState::new();
    let (mut a, mut rx_a) = connect(&mut state, "1", "Alice");
    let (_b, mut rx_b) = connect(&mut state, "2", "Bob");
    let (_c, mut rx_c) = connect(&mut state, "3", "Carol");
    take(&mut rx_a);
    take(&mut rx_b);
    take(&mut rx_c);
    let routed = a.receive(
        &mut state,
        text(r#"{"type":"public","msg":"all","target":{"id":"9","name":"Mallory"},"list":[]}"#),
    );
    let sent = Data {
        kind: MsgType::Public,
        msg: "all".to_string(),
        target: Some(user("1", "Alice")),
        list: Some(vec![]),
    };
    match routed {
        Some(Routed::Broadcast(sweep)) => {
            assert_eq!(sweep.data, sent);
            assert_eq!(sorted(sweep.offered), vec!["1", "2", "3"]);
            assert_eq!(sweep.reaped, Vec::<String>::new());
        }
        other => panic!("no broadcast: {other:?}"),
    }
    assert_eq!(take(&mut rx_a), vec![sent.clone()]);
    assert_eq!(take(&mut rx_b), vec![sent.clone()]);
    assert_eq!(take(&mut rx_c), vec![sent]);
}

#[test]
fn a_public_message_reaps_the_dead() {
    let mut state = UsersState::new();
    let (mut a, mut rx_a) = connect(&mut state, "1", "Alice");
    let (_b, rx_b) = connect(&mut state, "2", "Bob");
    take(&mut rx_a);
    drop(rx_b);
    match a.receive(&mut state, text(r#"{"type":"public","msg":"hi"}"#)) {
        Some(Routed::Broadcast(sweep)) => assert_eq!(sweep.reaped, vec!["2"]),
        other => panic!("no broadcast: {other:?}"),
    }
    assert_eq!(ids(&state), vec!["1"]);
    assert_eq!(take(&mut rx_a).len(), 1);
}

#[test]
fn a_malformed_frame_is_answered_with_one_error_and_changes_nothing() {
    let mut state = UsersState::new();
    let (mut a, mut rx_a) = connect(&mut state, "1", "Alice");
    let (_b, mut rx_b) = connect(&mut state, "2", "Bob");
    take(&mut rx_a);
    take(&mut rx_b);
    for frame in ["not json", "{}", r#"{"type":"public"}"#, r#"{"type":"private","msg":"x","target":3}"#] {
        let routed = a.receive(&mut state, text(frame));
        expect_reply(routed, INVALID_FORMAT);
        assert_eq!(take(&mut rx_a), vec![Data::error("invalid format")]);
        assert_eq!(take(&mut rx_b), vec![]);
        assert_eq!(ids(&state), vec!["1", "2"]);
        assert_eq!(a.state(), SessionState::Active);
    }
    let routed = a.receive(&mut state, text(r#"{"type":"public","msg":"still here"}"#));
    assert!(matches!(routed, Some(Routed::Broadcast(_))));
}

#[test]
fn an_envelope_of_another_kind_is_answered_with_an_error() {
    let mut state = UsersState::new();
    let (mut a, mut rx_a) = connect(&mut state, "1", "Alice");
    take(&mut rx_a);
    for frame in [
        r#"{"type":"private","msg":"to nobody"}"#,
        r#"{"type":"private","msg":"to nobody","target":null}"#,
        r#"{"type":"login","msg":"","target":{"id":"1","name":"Alice"}}"#,
        r#"{"type":"logout","msg":""}"#,
        r#"{"type":"system","msg":""}"#,
        r#"{"type":"error","msg":""}"#,
    ] {
        let routed = a.receive(&mut state, text(frame));
        expect_reply(routed, INVALID_MESSAGE);
        assert_eq!(take(&mut rx_a), vec![Data::error("invalid message")]);
    }
    assert_eq!(ids(&state), vec!["1"]);
}

#[test]
fn route_takes_what_the_decoder_gave() {
    let mut state = UsersState::new();
    let (_a, mut rx_a) = connect(&mut state, "1", "Alice");
    take(&mut rx_a);
    let own = state.get("1").expect("registered");
    let routed = chat_demo::relay::route(&own, &mut state, Err(DecodeError::Roster));
    expect_reply(Some(routed), INVALID_FORMAT);
    let routed = chat_demo::relay::route(
        &own,
        &mut state,
        Ok(Data::new(MsgType::Private, user("1", "x"), "me".to_string())),
    );
    assert!(matches!(routed, Routed::Direct { accepted: true, .. }));
    assert_eq!(take(&mut rx_a).len(), 2);
}

#[test]
fn frames_that_are_no_text_are_passed_over() {
    let mut state = UsersState::new();
    let (mut a, mut rx_a) = connect(&mut state, "1", "Alice");
    take(&mut rx_a);
    assert!(a.receive(&mut state, Inbound::Other).is_none());
    assert_eq!(a.state(), SessionState::Active);
    assert_eq!(take(&mut rx_a), vec![]);
    assert_eq!(ids(&state), vec!["1"]);
}

#[test]
fn a_close_frame_ends_the_reading_and_teardown_announces_the_logout() {
    let mut state = UsersState::new();
    let (mut a, mut rx_a) = connect(&mut state, "1", "Alice");
    let (_b, mut rx_b) = connect(&mut state, "2", "Bob");
    take(&mut rx_a);
    take(&mut rx_b);
    assert!(a.receive(&mut state, Inbound::Close).is_none());
    assert_eq!(a.state(), SessionState::Closing);
    assert_eq!(ids(&state), vec!["1", "2"]);
    let sweep = a.finish(&mut state);
    assert_eq!(a.state(), SessionState::Closed);
    assert_eq!(sweep.offered, vec!["2"]);
    assert_eq!(sweep.data.list, Some(vec![user("2", "Bob")]));
    assert_eq!(ids(&state), vec!["2"]);
    assert_eq!(take(&mut rx_b), vec![sweep.data]);
    assert_eq!(take(&mut rx_a), vec![]);
}

#[test]
fn a_refused_reply_on_the_own_channel_ends_the_reading() {
    let mut state = UsersState::new();
    let (mut a, rx_a) = connect(&mut state, "1", "Alice");
    drop(rx_a);
    let routed = a.receive(&mut state, text("not json"));
    assert!(matches!(routed, Some(Routed::Replied { accepted: false, .. })));
    assert_eq!(a.state(), SessionState::Closing);
    let sweep = a.finish(&mut state);
    assert_eq!(sweep.offered, Vec::<String>::new());
    assert_eq!(ids(&state), Vec::<String>::new());
}

#[test]
fn a_first_frame_that_is_no_text_is_rejected() {
    for first in [Inbound::Gone, Inbound::Close, Inbound::Other] {
        let mut state = UsersState::new();
        let (tx, mut rx) = unbounded_channel::<Frame>();
        let mut connection = awaiting();
        match connection.login(&mut state, first, tx) {
            Handshake::Rejected(reply) => assert_eq!(reply, Data::error(LOGIN_FAILED)),
            Handshake::Accepted(_) => panic!("accepted"),
        }
        assert_eq!(connection.state(), SessionState::Closed);
        assert_eq!(ids(&state), Vec::<String>::new());
        assert!(rx.try_recv().is_err());
    }
    assert_eq!(LOGIN_FAILED, "登录失败");
}

#[test]
fn a_first_frame_that_is_no_envelope_is_rejected() {
    let mut state = UsersState::new();
    let (_b, mut rx_b) = connect(&mut state, "2", "Bob");
    take(&mut rx_b);
    let (tx, _rx) = unbounded_channel::<Frame>();
    let mut connection = awaiting();
    match connection.login(&mut state, text("{oops"), tx) {
        Handshake::Rejected(reply) => assert_eq!(reply, Data::error("数据格式不正确")),
        Handshake::Accepted(_) => panic!("accepted"),
    }
    assert_eq!(LOGIN_MALFORMED, "数据格式不正确");
    assert_eq!(connection.state(), SessionState::Closed);
    assert_eq!(ids(&state), vec!["2"]);
    assert_eq!(take(&mut rx_b), vec![]);
}

#[test]
fn a_first_envelope_that_is_no_login_or_names_nobody_is_rejected() {
    for frame in [
        r#"{"type":"public","msg":"hi","target":{"id":"1","name":"Alice"}}"#,
        r#"{"type":"login","msg":"hi"}"#,
        r#"{"type":"login","msg":"hi","target":null}"#,
        r#"{"type":"logout","msg":"hi","target":{"id":"1","name":"Alice"}}"#,
    ] {
        let mut state = UsersState::new();
        let (tx, _rx) = unbounded_channel::<Frame>();
        let mut connection = awaiting();
        match connection.login(&mut state, text(frame), tx) {
            Handshake::Rejected(reply) => assert_eq!(reply, Data::error(LOGIN_REFUSED)),
            Handshake::Accepted(_) => panic!("accepted"),
        }
        assert_eq!(connection.state(), SessionState::Closed);
        assert_eq!(ids(&state), Vec::<String>::new());
    }
    assert_eq!(LOGIN_REFUSED, "登录参数有误");
}

#[test]
fn welcome_takes_what_the_decoder_gave() {
    let mut state = UsersState::new();
    let (tx, mut rx) = unbounded_channel::<Frame>();
    let mut connection = awaiting();
    let first = Data {
        kind: MsgType::Login,
        msg: "ignored".to_string(),
        target: Some(user("1", "Alice")),
        list: Some(vec![user("8", "Eve")]),
    };
    match connection.welcome(&mut state, Some(Ok(first)), tx) {
        Handshake::Accepted(sweep) => {
            assert_eq!(sweep.data.msg, "用户 Alice 加入聊天室");
            assert_eq!(sweep.data.list, Some(vec![user("1", "Alice")]));
        }
        Handshake::Rejected(reply) => panic!("rejected: {reply:?}"),
    }
    assert_eq!(take(&mut rx).len(), 1);
    let (tx, _rx) = unbounded_channel::<Frame>();
    let mut other = awaiting();
    assert!(matches!(
        other.welcome(&mut state, Some(Err(DecodeError::Type)), tx),
        Handshake::Rejected(_)
    ));
    assert_eq!(ids(&state), vec!["1"]);
}

#[test]
fn a_second_login_under_an_id_takes_the_entry_and_the_first_teardown_removes_it() {
    let mut state = UsersState::new();
    let (mut first, mut rx_first) = connect(&mut state, "1", "Alice");
    let (second, mut rx_second) = connect(&mut state, "1", "Alice II");
    assert_eq!(state.snapshot_sorted(), vec![user("1", "Alice II")]);
    assert_eq!(take(&mut rx_first).len(), 1);
    assert_eq!(take(&mut rx_second).len(), 1);
    assert!(state.get("1").expect("registered").offer(Frame::Ping(vec![])));
    assert!(matches!(rx_second.try_recv(), Ok(Frame::Ping(_))));
    assert!(first.receive(&mut state, Inbound::Gone).is_none());
    first.finish(&mut state);
    assert_eq!(ids(&state), Vec::<String>::new());
    assert_eq!(second.state(), SessionState::Active);
}

#[test]
fn the_heartbeat_pings_until_the_channel_is_gone() {
    let mut state = UsersState::new();
    let (_a, mut rx_a) = connect(&mut state, "1", "Alice");
    take(&mut rx_a);
    let own = state.get("1").expect("registered");
    assert!(own.beat());
    assert!(own.beat());
    assert_eq!(rx_a.try_recv().ok(), Some(Frame::Ping(b"hi".to_vec())));
    assert_eq!(rx_a.try_recv().ok(), Some(Frame::Ping(b"hi".to_vec())));
    assert!(rx_a.try_recv().is_err());
    drop(rx_a);
    assert!(!own.beat());
    assert_eq!(Frame::heartbeat(), Frame::Ping(vec![104, 105]));
    assert_eq!(HEARTBEAT_SECS, 20);
}

#[test]
fn frames_leave_a_channel_in_the_order_in_which_they_were_offered() {
    let mut state = UsersState::new();
    let (mut a, mut rx_a) = connect(&mut state, "1", "Alice");
    take(&mut rx_a);
    a.receive(&mut state, text(r#"{"type":"public","msg":"one"}"#));
    assert!(state.get("1").expect("registered").beat());
    a.receive(&mut state, text("junk"));
    a.receive(&mut state, text(r#"{"type":"private","msg":"two","target":{"id":"1","name":""}}"#));
    let mut seen = Vec::new();
    while let Ok(frame) = rx_a.try_recv() {
        seen.push(match frame {
            Frame::Text(text) => Data::from_str(&text).expect("an envelope").msg,
            Frame::Ping(_) => "ping".to_string(),
        });
    }
    assert_eq!(seen, vec!["one", "ping", "invalid format", "two"]);
}
