use alice_games::json::JsonValue;
use alice_games::session::games::GameMove;
use alice_games::session::messages::{GameMessage, IsSubscribed, Subscribe};
use alice_games::session::games::Game21;
use alice_games::session::SessionEvents;
use alice_games::webhook::response::ResponseMeta;

fn s(x: &str) -> String {
    x.to_string()
}

fn obj(members: Vec<(&str, JsonValue)>) -> JsonValue {
    JsonValue::Object(members.into_iter().map(|(k, v)| (k.to_string(), v)).collect())
}

fn move_in(id: &str) -> GameMessage {
    GameMessage::Move(GameMove { session_id: s(id), data: JsonValue::Null })
}

#[test]
fn new_registry_knows_no_session() {
    let e: SessionEvents<u32> = SessionEvents::new();
    assert!(!e.is_subscribed(&IsSubscribed(s("a"))));
    assert_eq!(e.recipient_for(&move_in("a")), Err(s("Сессии с выбранным id не существует")));
}

#[test]
fn subscribe_binds_a_new_session() {
    let mut e: SessionEvents<u32> = SessionEvents::new();
    let msg = Subscribe { session_id: s("a"), recipient: 7 };
    assert_eq!(e.replaced(&msg), None);
    e.subscribe(msg, false);
    assert!(e.is_subscribed(&IsSubscribed(s("a"))));
    assert!(!e.is_subscribed(&IsSubscribed(s("b"))));
    assert_eq!(e.recipient_for(&move_in("a")), Ok(&7));
    assert_eq!(e.recipient_for(&GameMessage::Stop(s("a"))), Ok(&7));
}

#[test]
fn subscribe_replaces_only_a_stopped_game() {
    let mut e: SessionEvents<u32> = SessionEvents::new();
    e.subscribe(Subscribe { session_id: s("a"), recipient: 1 }, false);
    let msg = Subscribe { session_id: s("a"), recipient: 2 };
    assert_eq!(e.replaced(&msg), Some(&1));
    assert_eq!(SessionEvents::<u32>::stop_message(&msg), GameMessage::Stop(s("a")));
    e.subscribe(msg, false);
    assert_eq!(e.recipient_for(&move_in("a")), Ok(&1));
    e.subscribe(Subscribe { session_id: s("a"), recipient: 3 }, true);
    assert_eq!(e.recipient_for(&move_in("a")), Ok(&3));
}

#[test]
fn session_of_messages() {
    assert_eq!(SessionEvents::<u32>::session_of(&move_in("q")), "q");
    assert_eq!(SessionEvents::<u32>::session_of(&GameMessage::Stop(s("z"))), "z");
}

#[test]
fn ending_answer_unbinds_the_session() {
    let mut e: SessionEvents<u32> = SessionEvents::new();
    e.subscribe(Subscribe { session_id: s("a"), recipient: 1 }, false);
    e.subscribe(Subscribe { session_id: s("b"), recipient: 2 }, false);
    let answer = obj(vec![("end_session", JsonValue::Bool(true))]);
    let r = e.settle(&move_in("a"), Ok(Ok(answer.deep_clone())));
    assert_eq!(r, Ok(answer));
    assert!(!e.is_subscribed(&IsSubscribed(s("a"))));
    assert!(e.is_subscribed(&IsSubscribed(s("b"))));
}

#[test]
fn other_answers_keep_the_session() {
    let mut e: SessionEvents<u32> = SessionEvents::new();
    e.subscribe(Subscribe { session_id: s("a"), recipient: 1 }, false);
    let not_ending = obj(vec![("end_session", JsonValue::Bool(false))]);
    assert_eq!(e.settle(&move_in("a"), Ok(Ok(not_ending.deep_clone()))), Ok(not_ending));
    let as_text = obj(vec![("end_session", JsonValue::String(s("true")))]);
    assert_eq!(e.settle(&move_in("a"), Ok(Ok(as_text.deep_clone()))), Ok(as_text));
    assert_eq!(e.settle(&move_in("a"), Ok(Err(s("game error")))), Err(s("game error")));
    assert_eq!(e.settle(&move_in("a"), Err(s("Mailbox has closed"))), Err(s("Mailbox has closed")));
    assert!(e.is_subscribed(&IsSubscribed(s("a"))));
}

#[test]
fn delivered_passes_answers_on() {
    assert_eq!(SessionEvents::<u32>::delivered(Ok(Ok(JsonValue::Null))), Ok(JsonValue::Null));
    assert_eq!(SessionEvents::<u32>::delivered(Ok(Err(s("x")))), Err(s("x")));
    assert_eq!(SessionEvents::<u32>::delivered(Err(s("y"))), Err(s("y")));
}

#[test]
fn session_is_unbound_as_the_reply_says() {
    let g = Game21::new();
    let answers = vec![g.show_menu(3), g.show_error(s("x")), g.end_game(vec![s("a")], None), JsonValue::Null];
    for answer in answers {
        let mut e: SessionEvents<u32> = SessionEvents::new();
        e.subscribe(Subscribe { session_id: s("a"), recipient: 1 }, false);
        let ends = ResponseMeta::from(answer.deep_clone()).end_session;
        e.settle(&move_in("a"), Ok(Ok(answer)));
        assert_eq!(e.is_subscribed(&IsSubscribed(s("a"))), !ends);
    }
}

#[test]
fn session_stays_bound_until_an_ending_answer() {
    let mut e: SessionEvents<u32> = SessionEvents::new();
    let ending = obj(vec![("end_session", JsonValue::Bool(true))]);
    e.subscribe(Subscribe { session_id: s("a"), recipient: 1 }, false);
    for _ in 0..3 {
        e.settle(&move_in("a"), Ok(Ok(JsonValue::Null)));
        e.settle(&move_in("b"), Ok(Ok(ending.deep_clone())));
        assert!(e.is_subscribed(&IsSubscribed(s("a"))));
    }
    e.settle(&move_in("a"), Ok(Ok(ending.deep_clone())));
    assert!(!e.is_subscribed(&IsSubscribed(s("a"))));
    e.settle(&move_in("a"), Ok(Ok(JsonValue::Null)));
    assert!(!e.is_subscribed(&IsSubscribed(s("a"))));
    e.subscribe(Subscribe { session_id: s("a"), recipient: 2 }, false);
    assert!(e.is_subscribed(&IsSubscribed(s("a"))));
    assert_eq!(e.recipient_for(&move_in("a")), Ok(&2));
}
