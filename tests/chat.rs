use axumlearn::session::{session_step, SessionAction, SessionEvent, SessionPhase};
use axumlearn::{ChatState, Msg, MsgData, Todo, TodoStore};

fn sorted(mut v: Vec<String>) -> Vec<String> {
    v.sort();
    v
}

fn s(x: &str) -> String {
    x.to_string()
}

#[test]
fn join_then_query_both_sides() {
    let mut st = ChatState::new();
    st.handle_message(Msg::join("general", "alice"));
    assert_eq!(st.get_room_users("general"), vec![s("alice")]);
    st.handle_message(Msg::join("general", "bob"));
    assert_eq!(sorted(st.get_room_users("general")), vec![s("alice"), s("bob")]);
    assert_eq!(st.get_user_rooms("bob"), vec![s("general")]);
    let mut rx = st.subscribe();
    st.handle_disconnect("alice");
    let m = rx.try_recv().unwrap();
    assert_eq!(m.room, "general");
    assert_eq!(m.username, "alice");
    assert!(matches!(m.data, MsgData::Leave));
    assert!(rx.try_recv().is_err());
    assert_eq!(st.get_room_users("general"), vec![s("bob")]);
    assert!(st.get_user_rooms("alice").is_empty());
}

#[test]
fn leave_without_join_is_noop() {
    let mut st = ChatState::new();
    st.leave(&s("carol"), &s("lobby"));
    assert!(st.get_room_users("lobby").is_empty());
    assert!(st.get_user_rooms("carol").is_empty());
    st.join(&s("dave"), &s("lobby"));
    st.leave(&s("carol"), &s("lobby"));
    assert_eq!(st.get_room_users("lobby"), vec![s("dave")]);
    assert_eq!(st.get_user_rooms("dave"), vec![s("lobby")]);
}

#[test]
fn disconnect_publishes_one_leave_per_room() {
    let mut st = ChatState::new();
    st.join(&s("u"), &s("A"));
    st.join(&s("u"), &s("B"));
    st.join(&s("w"), &s("B"));
    let mut rx = st.subscribe();
    st.handle_disconnect("u");
    let mut rooms = Vec::new();
    while let Ok(m) = rx.try_recv() {
        assert_eq!(m.username, "u");
        assert!(matches!(m.data, MsgData::Leave));
        rooms.push(m.room.clone());
    }
    assert_eq!(sorted(rooms), vec![s("A"), s("B")]);
    assert!(st.get_user_rooms("u").is_empty());
    assert!(st.get_room_users("A").is_empty());
    assert_eq!(st.get_room_users("B"), vec![s("w")]);
    st.handle_disconnect("u");
    assert!(rx.try_recv().is_err());
}

#[test]
fn membership_follows_last_call() {
    let mut st = ChatState::new();
    st.join(&s("u"), &s("r"));
    st.join(&s("u"), &s("r"));
    assert_eq!(st.get_room_users("r"), vec![s("u")]);
    st.leave(&s("u"), &s("r"));
    assert!(st.get_room_users("r").is_empty());
    assert!(st.get_user_rooms("u").is_empty());
    st.leave(&s("u"), &s("r"));
    st.join(&s("u"), &s("r"));
    assert_eq!(st.get_room_users("r"), vec![s("u")]);
    assert_eq!(st.get_user_rooms("u"), vec![s("r")]);
}

#[test]
fn inbound_messages_are_republished() {
    let mut st = ChatState::new();
    let mut rx = st.subscribe();
    st.handle_message(Msg::join("r", "u"));
    st.handle_message(Msg::message("r", "u", "hi"));
    st.handle_message(Msg::leave("r", "u"));
    assert!(matches!(rx.try_recv().unwrap().data, MsgData::Join));
    match &rx.try_recv().unwrap().data {
        MsgData::Msg(t) => assert_eq!(t, "hi"),
        _ => panic!("expected a chat line"),
    }
    assert!(matches!(rx.try_recv().unwrap().data, MsgData::Leave));
    assert!(st.get_room_users("r").is_empty());
}

#[test]
fn chat_line_leaves_membership_alone() {
    let mut st = ChatState::new();
    st.handle_message(Msg::message("r", "u", "hello"));
    assert!(st.get_room_users("r").is_empty());
    assert!(st.get_user_rooms("u").is_empty());
}

#[test]
fn subscribers_see_only_later_messages() {
    let mut st = ChatState::new();
    let mut a = st.subscribe();
    let mut b = st.subscribe();
    st.handle_message(Msg::message("r", "u", "e"));
    let mut late = st.subscribe();
    for rx in [&mut a, &mut b] {
        let m = rx.try_recv().unwrap();
        assert_eq!(m.room, "r");
        assert!(matches!(&m.data, MsgData::Msg(t) if t == "e"));
    }
    assert!(late.try_recv().is_err());
}

#[test]
fn constructors_fill_fields() {
    let j = Msg::join("room1", "ann");
    assert_eq!(j.room, "room1");
    assert_eq!(j.username, "ann");
    assert!(matches!(j.data, MsgData::Join));
    let l = Msg::leave("room2", "ben");
    assert_eq!(l.room, "room2");
    assert_eq!(l.username, "ben");
    assert!(matches!(l.data, MsgData::Leave));
    let m = Msg::message("room3", "cy", "text");
    assert_eq!(m.room, "room3");
    assert!(matches!(&m.data, MsgData::Msg(t) if t == "text"));
    let n = Msg::new(s("x"), s("y"), MsgData::Join);
    assert_eq!(n.room, "x");
    assert_eq!(n.username, "y");
}

#[test]
fn timestamps_come_from_the_clock() {
    let m = Msg::join("r", "u");
    assert!(m.timestamp > 1_600_000_000);
    assert!(axumlearn::msg::get_epoch() >= m.timestamp);
}

#[test]
fn session_lifecycle() {
    let (p, a) = session_step(SessionPhase::Connecting, SessionEvent::Accepted);
    assert_eq!((p, a), (SessionPhase::Active, SessionAction::StartPumps));
    assert_eq!(
        session_step(SessionPhase::Active, SessionEvent::BadFrame),
        (SessionPhase::Active, SessionAction::DropFrame)
    );
    assert_eq!(
        session_step(SessionPhase::Active, SessionEvent::InboundEnded),
        (SessionPhase::Closing, SessionAction::CancelOutboundAndDisconnect)
    );
    assert_eq!(
        session_step(SessionPhase::Active, SessionEvent::OutboundEnded),
        (SessionPhase::Closing, SessionAction::CancelInboundAndDisconnect)
    );
    assert_eq!(
        session_step(SessionPhase::Closing, SessionEvent::OutboundEnded),
        (SessionPhase::Closing, SessionAction::Nothing)
    );
    assert_eq!(
        session_step(SessionPhase::Closing, SessionEvent::TornDown),
        (SessionPhase::Closed, SessionAction::Release)
    );
    assert_eq!(
        session_step(SessionPhase::Closed, SessionEvent::Accepted),
        (SessionPhase::Closed, SessionAction::Nothing)
    );
}

#[test]
fn todo_store_lists_by_id() {
    let mut store = TodoStore::new();
    store.add(0, 0, s("world"));
    store.add(1, 7, s("write"));
    store.add(1, 8, s("again"));
    let got = store.todos_for(1);
    assert_eq!(got.len(), 2);
    assert_eq!(got[0].title, "write");
    assert_eq!(got[1].user_id, 8);
    assert!(!got[1].completed);
    assert!(store.todos_for(5).is_empty());
    let t: &Todo = &store.items[0];
    assert_eq!(t.title, "world");
}
