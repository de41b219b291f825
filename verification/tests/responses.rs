use alice_games::json::JsonValue;
use alice_games::webhook::response::{Button, ResponseBuilder, ResponseMeta, ResponseMetaText, Session};

fn s(x: &str) -> String {
    x.to_string()
}

fn obj(members: Vec<(&str, JsonValue)>) -> JsonValue {
    JsonValue::Object(members.into_iter().map(|(k, v)| (k.to_string(), v)).collect())
}

#[test]
fn button_reads_title_and_payload() {
    let v = obj(vec![("title", JsonValue::String(s("ok"))), ("payload", obj(vec![]))]);
    assert_eq!(Button::try_from(v), Ok(Button { title: s("ok"), payload: obj(vec![]) }));
}

#[test]
fn button_with_empty_title_is_refused() {
    let v = obj(vec![("title", JsonValue::String(s(""))), ("payload", obj(vec![]))]);
    assert_eq!(Button::try_from(v), Err(s("Передан неправильный объект")));
}

#[test]
fn button_without_payload_is_refused() {
    let v = obj(vec![("title", JsonValue::String(s("ok")))]);
    assert_eq!(Button::try_from(v), Err(s("Передан неправильный объект")));
    let v = obj(vec![("title", JsonValue::Bool(true)), ("payload", JsonValue::Null)]);
    assert_eq!(Button::try_from(v), Err(s("Передан неправильный объект")));
}

#[test]
fn button_from_no_object_is_refused() {
    assert_eq!(Button::try_from(JsonValue::String(s("ok"))), Err(s("Значение не является объектом")));
}

#[test]
fn button_as_json() {
    let b = Button { title: s("еще"), payload: JsonValue::Null };
    assert_eq!(
        JsonValue::from(b),
        obj(vec![("title", JsonValue::String(s("еще"))), ("payload", JsonValue::Null)])
    );
}

#[test]
fn button_round_trip() {
    let b = Button { title: s("x"), payload: obj(vec![("action", JsonValue::String(s("more")))]) };
    let back = Button::try_from(JsonValue::from(Button { title: b.title.clone(), payload: b.payload.deep_clone() }));
    assert_eq!(back, Ok(b));
}

#[test]
fn meta_text_from_values() {
    let arr = JsonValue::Array(vec![JsonValue::String(s("a")), JsonValue::Null, JsonValue::String(s("b"))]);
    assert_eq!(ResponseMetaText::from(arr), ResponseMetaText::Array(vec![s("a"), s("b")]));
    assert_eq!(ResponseMetaText::from(JsonValue::String(s("t"))), ResponseMetaText::String(s("t")));
    assert_eq!(ResponseMetaText::from(JsonValue::Bool(true)), ResponseMetaText::Array(vec![]));
}

#[test]
fn meta_default_is_empty() {
    let m = ResponseMeta::default();
    assert_eq!(m.text, ResponseMetaText::Array(vec![]));
    assert_eq!(m.tts, "");
    assert!(m.buttons.is_empty());
    assert!(!m.end_session);
    assert_eq!(m.card, None);
    assert!(m.commands.is_empty());
}

#[test]
fn meta_from_a_full_answer() {
    let v = obj(vec![
        ("text", JsonValue::Array(vec![JsonValue::String(s("Счет 3"))])),
        ("tts", JsonValue::String(s("три"))),
        (
            "buttons",
            JsonValue::Array(vec![
                obj(vec![("title", JsonValue::String(s("b1"))), ("payload", JsonValue::Null)]),
                JsonValue::String(s("not a button")),
                obj(vec![("title", JsonValue::String(s(""))), ("payload", JsonValue::Null)]),
            ]),
        ),
        ("end_session", JsonValue::Bool(true)),
    ]);
    let m = ResponseMeta::from(v);
    assert_eq!(m.text, ResponseMetaText::Array(vec![s("Счет 3")]));
    assert_eq!(m.tts, "три");
    assert_eq!(m.buttons, vec![Button { title: s("b1"), payload: JsonValue::Null }]);
    assert!(m.end_session);
    assert_eq!(m.card, None);
    assert!(m.commands.is_empty());
}

#[test]
fn meta_from_wrong_kinds_falls_back() {
    let v = obj(vec![
        ("tts", JsonValue::Bool(true)),
        ("buttons", JsonValue::String(s("x"))),
        ("end_session", JsonValue::String(s("true"))),
    ]);
    assert_eq!(ResponseMeta::from(v), ResponseMeta::default());
    assert_eq!(ResponseMeta::from(JsonValue::Null), ResponseMeta::default());
}

#[test]
fn builder_builds_a_response() {
    let r = ResponseBuilder::new()
        .set_response(Ok(obj(vec![("tts", JsonValue::String(s("hi")))])))
        .set_session(s("sid"), s("uid"), 5)
        .set_version(s("1.0"))
        .build()
        .unwrap();
    assert_eq!(r.session, Session { session_id: s("sid"), user_id: s("uid"), message_id: 5 });
    assert_eq!(r.version, "1.0");
    assert_eq!(r.response.tts, "hi");
    assert!(!r.response.end_session);
}

#[test]
fn builder_error_response_ends_session() {
    let r = ResponseBuilder::new()
        .set_response(Err(s("Неизвестная команда")))
        .set_session(s("sid"), s("uid"), 1)
        .set_version(s("1.0"))
        .build()
        .unwrap();
    assert_eq!(r.response.text, ResponseMetaText::String(s("Неизвестная команда")));
    assert!(r.response.end_session);
    assert_eq!(r.response.tts, "");
}

#[test]
fn builder_without_session_is_refused() {
    let r = ResponseBuilder::new().set_version(s("1.0")).build();
    assert_eq!(r, Err(s("Не указана сессия")));
}

#[test]
fn builder_without_version_is_refused() {
    let r = ResponseBuilder::new().set_session(s("a"), s("b"), 0).build();
    assert_eq!(r, Err(s("Не указана версия")));
    let r = ResponseBuilder::new().set_session(s("a"), s("b"), 0).set_version(s("")).build();
    assert_eq!(r, Err(s("Не указана версия")));
}

#[test]
fn builder_session_missing_wins_over_version_missing() {
    assert_eq!(ResponseBuilder::new().build(), Err(s("Не указана сессия")));
}
