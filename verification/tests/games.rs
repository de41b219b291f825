use alice_games::json::JsonValue;
use alice_games::session::games::{Game, Game21, GameEdible, GameMove, GameReply};
use alice_games::session::messages::GameMessage;
use alice_games::webhook::response::{Button, ResponseMeta, ResponseMetaText};

fn s(x: &str) -> String {
    x.to_string()
}

fn js(x: &str) -> JsonValue {
    JsonValue::String(x.to_string())
}

fn obj(members: Vec<(&str, JsonValue)>) -> JsonValue {
    JsonValue::Object(members.into_iter().map(|(k, v)| (k.to_string(), v)).collect())
}

fn command(cmd: &str) -> GameMessage {
    GameMessage::Move(GameMove { session_id: s("sid"), data: obj(vec![("command", js(cmd))]) })
}

fn g21_menu(score: i32, value: i32) -> JsonValue {
    obj(vec![
        ("text", JsonValue::Array(vec![js(&format!("Счет {}", score)), js(&value.to_string())])),
        ("tts", js(&format!("Тек`ущий сч`ёт `равен {}", score))),
        (
            "buttons",
            JsonValue::Array(vec![
                obj(vec![("title", js("еще")), ("payload", obj(vec![("action", js("more"))]))]),
                obj(vec![("title", js("хватит")), ("payload", obj(vec![("action", js("enough"))]))]),
            ]),
        ),
    ])
}

fn end_game(lines: Vec<&str>, tts: &str) -> JsonValue {
    obj(vec![
        ("text", JsonValue::Array(lines.into_iter().map(js).collect())),
        ("tts", js(tts)),
        ("end_session", JsonValue::Bool(true)),
    ])
}

fn error(text: &str) -> JsonValue {
    obj(vec![("text", js(text)), ("tts", js("Игр`а закончен`а")), ("end_session", JsonValue::Bool(true))])
}

fn edible_menu(score: u32, object: &str) -> JsonValue {
    obj(vec![
        ("text", JsonValue::Array(vec![js(&format!("Счет {}", score)), js(object)])),
        (
            "buttons",
            JsonValue::Array(vec![
                obj(vec![("title", js("съедобное")), ("payload", obj(vec![]))]),
                obj(vec![("title", js("несъедобное")), ("payload", obj(vec![]))]),
            ]),
        ),
    ])
}

fn ok(v: JsonValue, stop: bool) -> GameReply {
    GameReply { response: Ok(v), stop }
}

#[test]
fn game21_score_text() {
    let g = Game21::new();
    assert_eq!(g.get_score_text(7), JsonValue::Array(vec![js("Счет 0"), js("7")]));
}

#[test]
fn game21_menu_shape() {
    let g = Game21::new();
    assert_eq!(g.show_menu(4), g21_menu(0, 4));
}

#[test]
fn game21_start_deals_the_card() {
    let mut g = Game21::new();
    assert_eq!(g.handle_card(GameMessage::Started, 10), ok(g21_menu(10, 10), false));
    assert_eq!(g.get_score_text(0), JsonValue::Array(vec![js("Счет 10"), js("0")]));
}

#[test]
fn game21_more_adds_the_card() {
    let mut g = Game21::new();
    g.handle_card(GameMessage::Started, 10);
    assert_eq!(g.handle_card(command("еще"), 9), ok(g21_menu(19, 9), false));
}

#[test]
fn game21_exactly_twenty_one_wins() {
    let mut g = Game21::new();
    g.handle_card(GameMessage::Started, 10);
    assert_eq!(
        g.handle_card(command("еще"), 11),
        ok(end_game(vec!["Счет 21", "Победа!"], "Вы побед`или"), true)
    );
}

#[test]
fn game21_above_twenty_one_loses() {
    let mut g = Game21::new();
    g.handle_card(GameMessage::Started, 10);
    g.handle_card(command("еще"), 9);
    assert_eq!(
        g.handle_card(command("еще"), 4),
        ok(end_game(vec!["Счет 23", "Вы проиграли"], "Вы проиграли"), true)
    );
}

#[test]
fn game21_enough_ends_the_game() {
    let mut g = Game21::new();
    g.handle_card(GameMessage::Started, 3);
    assert_eq!(g.handle_card(command("хватит"), 8), ok(end_game(vec!["Игра закончена"], "Игр`а зак`ончена"), true));
    let mut g = Game21::new();
    assert_eq!(
        g.handle_card(command("on_interrupt"), 8),
        ok(end_game(vec!["Игра закончена"], "Игр`а зак`ончена"), true)
    );
}

#[test]
fn game21_unknown_command_is_an_error() {
    let mut g = Game21::new();
    g.handle_card(GameMessage::Started, 3);
    assert_eq!(g.handle_card(command("что"), 8), ok(error("Введена неизвестная команда"), false));
    let no_command = GameMessage::Move(GameMove { session_id: s("sid"), data: JsonValue::Null });
    assert_eq!(g.handle_card(no_command, 8), ok(error("Введена неизвестная команда"), false));
    assert_eq!(g.get_score_text(0), JsonValue::Array(vec![js("Счет 3"), js("0")]));
}

#[test]
fn game21_show_error_and_end_game() {
    let g = Game21::new();
    assert_eq!(g.show_error(s("x")), error("x"));
    assert_eq!(g.end_game(vec![s("a"), s("b")], Some(s("c"))), end_game(vec!["a", "b"], "c"));
    assert_eq!(g.end_game(vec![], None), end_game(vec![], "Игр`а зак`ончена"));
}

#[test]
fn game21_draws_from_the_deck() {
    let deck = [2, 3, 4, 6, 7, 8, 9, 10, 11];
    for _ in 0..50 {
        let mut g = Game21::new();
        let r = g.handle(GameMessage::Started);
        assert!(!r.stop);
        let found = deck.iter().any(|c| r.response == Ok(g21_menu(*c, *c)));
        assert!(found, "{:?}", r.response);
    }
}

#[test]
fn game21_random_more_adds_a_deck_card() {
    let mut g = Game21::new();
    g.handle_card(GameMessage::Started, 2);
    let r = g.handle(command("еще"));
    let found = [2, 3, 4, 6, 7, 8, 9, 10, 11].iter().any(|c| r.response == Ok(g21_menu(2 + c, *c)));
    assert!(found, "{:?}", r.response);
}

#[test]
fn game21_stopping_answer_ends_the_session() {
    let mut g = Game21::new();
    g.handle_card(GameMessage::Started, 11);
    let r = g.handle_card(command("еще"), 11);
    assert!(r.stop);
    let meta = ResponseMeta::from(r.response.unwrap());
    assert!(meta.end_session);
    assert_eq!(meta.text, ResponseMetaText::Array(vec![s("Счет 22"), s("Вы проиграли")]));
}

#[test]
fn game21_menu_reads_back_as_buttons() {
    let g = Game21::new();
    let meta = ResponseMeta::from(g.show_menu(5));
    assert!(!meta.end_session);
    assert_eq!(meta.tts, "Тек`ущий сч`ёт `равен 0");
    assert_eq!(
        meta.buttons,
        vec![
            Button { title: s("еще"), payload: obj(vec![("action", js("more"))]) },
            Button { title: s("хватит"), payload: obj(vec![("action", js("enough"))]) },
        ]
    );
}

#[test]
fn edible_score_text_and_menu() {
    let g = GameEdible::new();
    assert_eq!(g.get_score_text(s("🍏")), JsonValue::Array(vec![js("Счет 0"), js("🍏")]));
    assert_eq!(g.show_menu(s("🍏")), edible_menu(0, "🍏"));
}

#[test]
fn edible_start_shows_menu() {
    let mut g = GameEdible::new();
    assert_eq!(g.handle_object(GameMessage::Started, s("🍏")), ok(edible_menu(0, "🍏"), false));
}

#[test]
fn edible_first_answer_after_start_is_wrong() {
    let mut g = GameEdible::new();
    g.handle_object(GameMessage::Started, s("🍏"));
    assert_eq!(g.handle_object(command("съедобное"), s("🍎")), ok(error("Неправильно"), true));
}

#[test]
fn edible_right_and_wrong_answers() {
    let mut g = GameEdible::new();
    g.handle_object(GameMessage::Started, s("🍏"));
    g.handle_object(command("съедобное"), s("🍏"));
    assert_eq!(g.handle_object(command("съедобное"), s("🎲")), ok(edible_menu(1, "🎲"), false));
    assert_eq!(g.handle_object(command("несъедобное"), s("🍗")), ok(edible_menu(2, "🍗"), false));
    assert_eq!(g.handle_object(command("несъедобное"), s("🕹")), ok(error("Неправильно"), true));
    assert_eq!(g.handle_object(command("несъедобное"), s("🍏")), ok(edible_menu(3, "🍏"), false));
    assert_eq!(g.handle_object(command("несъедобное"), s("🍏")), ok(error("Неправильно"), true));
    assert_eq!(g.get_score_text(s("x")), JsonValue::Array(vec![js("Счет 3"), js("x")]));
}

#[test]
fn edible_unknown_command() {
    let mut g = GameEdible::new();
    g.handle_object(GameMessage::Started, s("🍏"));
    assert_eq!(g.handle_object(command("да"), s("🍎")), ok(error("Введена неизвестная команда"), false));
    assert_eq!(g.show_error(s("x")), error("x"));
}

#[test]
fn edible_start_resets_the_score() {
    let mut g = GameEdible::new();
    g.handle_object(GameMessage::Started, s("🍏"));
    g.handle_object(command("съедобное"), s("🍏"));
    g.handle_object(command("съедобное"), s("🍏"));
    assert_eq!(g.handle_object(GameMessage::Started, s("⛸")), ok(edible_menu(0, "⛸"), false));
}

#[test]
fn edible_objects_are_single_characters() {
    let objects: Vec<String> = "🍏🍎🥨🥖🍟🍔🍿🍭🥚🍇🍓🍒🍴🥄🍡🍝🏓🏀🥎🎽🧗\u{200d}♂🧗\u{200d}♀🍮🎂🍗🍈🍆🎲🕹⛸"
        .chars()
        .map(|c| c.to_string())
        .collect();
    assert_eq!(objects.len(), 34);
    for _ in 0..50 {
        let mut g = GameEdible::new();
        let r = g.handle(GameMessage::Started);
        let found = objects.iter().any(|o| r.response == Ok(edible_menu(0, o)));
        assert!(found, "{:?}", r.response);
    }
}

#[test]
fn edible_zero_width_joiner_is_an_object() {
    let mut g = GameEdible::new();
    g.handle_object(GameMessage::Started, s("\u{200d}"));
    g.handle_object(command("съедобное"), s("\u{200d}"));
    assert_eq!(g.handle_object(command("несъедобное"), s("🍏")), ok(edible_menu(1, "🍏"), false));
}

#[test]
fn edible_wrong_answer_ends_session_in_reply() {
    let mut g = GameEdible::new();
    let r = g.handle_object(command("съедобное"), s("🍏"));
    assert!(r.stop);
    let meta = ResponseMeta::from(r.response.unwrap());
    assert!(meta.end_session);
    assert_eq!(meta.text, ResponseMetaText::String(s("Неправильно")));
    assert_eq!(meta.tts, "Игр`а закончен`а");
}

#[test]
fn edible_menu_reads_back_as_buttons() {
    let g = GameEdible::new();
    let meta = ResponseMeta::from(g.show_menu(s("🍏")));
    assert!(!meta.end_session);
    assert_eq!(meta.text, ResponseMetaText::Array(vec![s("Счет 0"), s("🍏")]));
    assert_eq!(meta.buttons.len(), 2);
    assert_eq!(meta.buttons[0].title, "съедобное");
    assert_eq!(meta.buttons[1].title, "несъедобное");
}

#[test]
fn edible_score_counts_right_answers_since_start() {
    let mut g = GameEdible::new();
    // before any start: a wrong first answer, then two right ones
    g.handle_object(command("съедобное"), s("🍏"));
    g.handle_object(command("съедобное"), s("🎲"));
    g.handle_object(command("несъедобное"), s("🍗"));
    assert_eq!(g.score(), 2);
    g.handle_object(GameMessage::Started, s("🍏"));
    assert_eq!(g.score(), 0);
    g.handle_object(command("съедобное"), s("🍏"));
    g.handle_object(command("да"), s("🍏"));
    g.handle_object(command("съедобное"), s("⛸"));
    g.handle_object(command("съедобное"), s("🍎"));
    g.handle_object(command("несъедобное"), s("🍎"));
    g.handle_object(command("съедобное"), s("🍎"));
    assert_eq!(g.score(), 3);
}
