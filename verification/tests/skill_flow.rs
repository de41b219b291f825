use alice_games::json::JsonValue;
use alice_games::session::games::GameMove;
use alice_games::session::messages::GameMessage;
use alice_games::skill::{is_start_session, move_message, reply, route, subscription, Route};
use alice_games::webhook::response::{ResponseMetaText, Session as ReplySession};
use alice_games::webhook::{Request, Session};

fn s(x: &str) -> String {
    x.to_string()
}

fn obj(members: Vec<(&str, JsonValue)>) -> JsonValue {
    JsonValue::Object(members.into_iter().map(|(k, v)| (k.to_string(), v)).collect())
}

fn request(body: JsonValue, version: &str) -> Request {
    Request {
        meta: JsonValue::Null,
        request: body,
        session: Session {
            session_id: s("sid"),
            user_id: s("uid"),
            skill_id: s("skill"),
            new: true,
            message_id: 4,
            user: None,
            application: JsonValue::Null,
            auth_token: JsonValue::Null,
        },
        version: s(version),
    }
}

fn said(words: Vec<&str>) -> JsonValue {
    obj(vec![(
        "nlu",
        obj(vec![("tokens", JsonValue::Array(words.into_iter().map(|w| JsonValue::String(s(w))).collect()))]),
    )])
}

#[test]
fn nlu_tokens_are_read() {
    let r = request(said(vec!["давай", "старт"]), "1.0");
    assert_eq!(r.get_nlu(), vec![s("давай"), s("старт")]);
}

#[test]
fn nlu_tokens_missing() {
    assert_eq!(request(JsonValue::Null, "1.0").get_nlu(), Vec::<String>::new());
    assert_eq!(request(obj(vec![("nlu", JsonValue::Null)]), "1.0").get_nlu(), Vec::<String>::new());
    let odd = obj(vec![("nlu", obj(vec![("tokens", JsonValue::String(s("старт")))]))]);
    assert_eq!(request(odd, "1.0").get_nlu(), Vec::<String>::new());
}

#[test]
fn start_is_recognised() {
    assert!(is_start_session(&request(said(vec!["старт"]), "1.0")));
    assert!(is_start_session(&request(said(vec!["ну", "старт", "игра"]), "1.0")));
    assert!(!is_start_session(&request(said(vec!["стоп"]), "1.0")));
    assert!(!is_start_session(&request(said(vec!["Старт"]), "1.0")));
    assert!(!is_start_session(&request(JsonValue::Null, "1.0")));
}

#[test]
fn routes() {
    assert_eq!(route(true, true), Route::Subscribe);
    assert_eq!(route(false, true), Route::Move);
    assert_eq!(route(false, false), Route::Move);
    assert_eq!(route(true, false), Route::Reject(s("Неизвестная команда")));
}

#[test]
fn move_carries_the_request_body() {
    let body = obj(vec![("command", JsonValue::String(s("еще")))]);
    let r = request(body.deep_clone(), "1.0");
    assert_eq!(move_message(&r), GameMessage::Move(GameMove { session_id: s("sid"), data: body }));
    let sub = subscription(&r, 9u8);
    assert_eq!(sub.session_id, "sid");
    assert_eq!(sub.recipient, 9);
}

#[test]
fn reply_carries_session_and_version() {
    let r = request(JsonValue::Null, "1.0");
    let out = reply(&r, Ok(obj(vec![("text", JsonValue::String(s("hi")))]))).unwrap();
    assert_eq!(out.session, ReplySession { session_id: s("sid"), user_id: s("uid"), message_id: 4 });
    assert_eq!(out.version, "1.0");
    assert_eq!(out.response.text, ResponseMetaText::String(s("hi")));
}

#[test]
fn rejected_request_ends_the_session() {
    let r = request(JsonValue::Null, "1.0");
    let out = reply(&r, Err(s("Неизвестная команда"))).unwrap();
    assert!(out.response.end_session);
    assert_eq!(out.response.text, ResponseMetaText::String(s("Неизвестная команда")));
}

#[test]
fn reply_without_version_is_refused() {
    let r = request(JsonValue::Null, "");
    assert_eq!(reply(&r, Ok(JsonValue::Null)), Err(s("Не указана версия")));
}
