use vstd::prelude::*;

use super::{
    command, command_of, end_game_json, end_game_reply, error_reply, error_reply_json,
    lemma_end_game_meta, lemma_error_reply_meta, lemma_lines_read_back, opt_string_view,
    score_line, text_lines, GameReply, GameReplyView,
};
use crate::json::{
    group_json_view, lemma_get_of_three, member_views, string_views, views, JsonValue, JsonView,
};
use crate::random::pick_one;
use crate::session::messages::GameMessage;
use crate::text::{decimal, decimal_string, with_number};
use crate::webhook::response::{
    button_json, buttons_json, default_meta, lemma_buttons_read_back, lemma_reply_keys_distinct,
    meta_from, Button, ButtonView, MetaTextView, ResponseMetaView,
};

verus! {

/// The game of twenty-one: the user draws cards from the deck and wins with
/// exactly twenty-one points.
pub struct Game21 {
    score: i32,
    deck: Vec<i32>,
}

pub struct Game21View {
    pub score: i32,
    pub deck: Seq<i32>,
}

impl View for Game21 {
    type V = Game21View;

    closed spec fn view(&self) -> Game21View {
        Game21View { score: self.score, deck: self.deck@ }
    }
}

/// The cards of a new game.
pub open spec fn game21_deck() -> Seq<i32> {
    seq![2i32, 3, 4, 6, 7, 8, 9, 10, 11]
}

/// The score line and the card just drawn.
pub open spec fn game21_score_text(score: int, value: int) -> JsonView {
    JsonView::Array(seq![JsonView::String(score_line(score)), JsonView::String(decimal(value))])
}

pub open spec fn game21_button(title: Seq<char>, action: Seq<char>) -> JsonView {
    button_json(
        ButtonView {
            title,
            payload: JsonView::Object(seq![("action"@, JsonView::String(action))]),
        },
    )
}

/// The answer that shows the score and the card drawn, says the score, and
/// offers to draw again or to stop.
pub open spec fn game21_menu(score: int, value: int) -> JsonView {
    JsonView::Object(
        seq![
            ("text"@, game21_score_text(score, value)),
            ("tts"@, JsonView::String("Тек`ущий сч`ёт `равен "@ + decimal(score))),
            ("buttons"@, JsonView::Array(
                seq![game21_button("еще"@, "more"@), game21_button("хватит"@, "enough"@)],
            )),
        ],
    )
}

/// Whether a message asks for one more card.
pub open spec fn asks_for_card(msg: GameMessage) -> bool {
    msg matches GameMessage::Move(m) && command_of(m.data@) == "еще"@
}

/// What the game of twenty-one does with a message when `card` is drawn: the
/// state after it, and the answer.
pub open spec fn game21_step(state: Game21View, msg: GameMessage, card: i32) -> (Game21View, GameReplyView) {
    match msg {
        GameMessage::Started => (
            Game21View { score: card, ..state },
            GameReplyView { response: Ok(game21_menu(card as int, card as int)), stop: false },
        ),
        GameMessage::Move(m) => {
            let cmd = command_of(m.data@);
            if cmd == "еще"@ {
                let s = state.score + card;
                let next = Game21View { score: s as i32, ..state };
                if s > 21 {
                    (next, GameReplyView {
                        response: Ok(end_game_reply(
                            seq![score_line(s), "Вы проиграли"@],
                            Some("Вы проиграли"@),
                        )),
                        stop: true,
                    })
                } else if s == 21 {
                    (next, GameReplyView {
                        response: Ok(end_game_reply(
                            seq![score_line(s), "Победа!"@],
                            Some("Вы побед`или"@),
                        )),
                        stop: true,
                    })
                } else {
                    (next, GameReplyView { response: Ok(game21_menu(s, card as int)), stop: false })
                }
            } else if cmd == "хватит"@ || cmd == "on_interrupt"@ {
                (state, GameReplyView {
                    response: Ok(end_game_reply(seq!["Игра закончена"@], None)),
                    stop: true,
                })
            } else {
                (state, GameReplyView {
                    response: Ok(error_reply("Введена неизвестная команда"@)),
                    stop: false,
                })
            }
        },
        GameMessage::Stop(_) => (state, GameReplyView { response: Ok(JsonView::Null), stop: false }),
    }
}

impl Game21 {
    #[verifier::type_invariant]
    closed spec fn deck_is_dealt(self) -> bool {
        &&& self.deck.len() > 0
        &&& forall|i: int| 0 <= i < self.deck.len() ==> 2 <= #[trigger] self.deck[i] <= 11
    }

    /// A game with no points and the full deck.
    pub fn new() -> (r: Game21)
        ensures
            r@ == (Game21View { score: 0, deck: game21_deck() }),
    {
        let deck = vec![2i32, 3, 4, 6, 7, 8, 9, 10, 11];
        assert(deck@ =~= game21_deck());
        Game21 { score: 0, deck }
    }

    /// The points the user has.
    pub fn score(&self) -> (r: i32)
        ensures
            r == self@.score,
    {
        self.score
    }

    /// The score line and the card `value`.
    pub fn get_score_text(&self, value: i32) -> (r: JsonValue)
        ensures
            r@ == game21_score_text(self@.score as int, value as int),
    {
        broadcast use group_json_view;
        let mut lines: Vec<JsonValue> = Vec::new();
        lines.push(JsonValue::String(with_number("Счет ", self.score as i64)));
        lines.push(JsonValue::String(decimal_string(value as i64)));
        assert(views(lines@) =~= game21_score_text(self@.score as int, value as int)->Array_0);
        JsonValue::Array(lines)
    }

    fn button(title: &str, action: &str) -> (r: JsonValue)
        ensures
            r@ == game21_button(title@, action@),
    {
        broadcast use group_json_view;
        let mut payload: Vec<(String, JsonValue)> = Vec::new();
        payload.push(("action".to_string(), JsonValue::String(String::from_str(action))));
        assert(member_views(payload@) =~= seq![("action"@, JsonView::String(action@))]);
        JsonValue::from(Button { title: String::from_str(title), payload: JsonValue::Object(payload) })
    }

    /// The answer that shows the score and the card `value`, and offers to
    /// draw again or to stop.
    pub fn show_menu(&self, value: i32) -> (r: JsonValue)
        ensures
            r@ == game21_menu(self@.score as int, value as int),
    {
        broadcast use group_json_view;
        let mut buttons: Vec<JsonValue> = Vec::new();
        buttons.push(Self::button("еще", "more"));
        buttons.push(Self::button("хватит", "enough"));
        assert(views(buttons@) =~= seq![game21_button("еще"@, "more"@), game21_button("хватит"@, "enough"@)]);
        let mut m: Vec<(String, JsonValue)> = Vec::new();
        m.push(("text".to_string(), self.get_score_text(value)));
        m.push(("tts".to_string(), JsonValue::String(with_number("Тек`ущий сч`ёт `равен ", self.score as i64))));
        m.push(("buttons".to_string(), JsonValue::Array(buttons)));
        assert(member_views(m@) =~= game21_menu(self@.score as int, value as int)->Object_0);
        JsonValue::Object(m)
    }

    /// The answer that ends the game on an error.
    pub fn show_error(&self, error_text: String) -> (r: JsonValue)
        ensures
            r@ == error_reply(error_text@),
    {
        error_reply_json(error_text)
    }

    /// The answer that ends the game with the lines `end_text` and the words
    /// `speech`.
    pub fn end_game(&self, end_text: Vec<String>, speech: Option<String>) -> (r: JsonValue)
        ensures
            r@ == end_game_reply(string_views(end_text@), opt_string_view(speech)),
    {
        end_game_json(end_text, speech)
    }

    fn two_lines(first: String, second: &str) -> (r: Vec<String>)
        ensures
            string_views(r@) == seq![first@, second@],
    {
        let mut v: Vec<String> = Vec::new();
        let ghost f = first@;
        v.push(first);
        v.push(String::from_str(second));
        assert(string_views(v@) =~= seq![f, second@]);
        v
    }

    /// Answers `msg` where `new_card` is the card drawn for it: a start deals
    /// that card; a move `еще` adds it, and ends the game above twenty-one
    /// points or at exactly twenty-one; `хватит` or `on_interrupt` ends the
    /// game; any other command is answered with an error.
    pub fn handle_card(&mut self, msg: GameMessage, new_card: i32) -> (r: GameReply)
        requires
            !(msg is Stop),
            asks_for_card(msg) ==> i32::MIN <= old(self)@.score + new_card <= i32::MAX,
        ensures
            (final(self)@, r@) == game21_step(old(self)@, msg, new_card),
    {
        proof {
            use_type_invariant(&*self);
        }
        match msg {
            GameMessage::Started => {
                self.score = new_card;
                GameReply { response: Ok(self.show_menu(new_card)), stop: false }
            },
            GameMessage::Move(game_move) => {
                let cmd = command(&game_move.data);
                if cmd == "еще".to_string() {
                    self.score = self.score + new_card;
                    if self.score > 21 {
                        let lines = Self::two_lines(with_number("Счет ", self.score as i64), "Вы проиграли");
                        GameReply {
                            response: Ok(self.end_game(lines, Some("Вы проиграли".to_string()))),
                            stop: true,
                        }
                    } else if self.score == 21 {
                        let lines = Self::two_lines(with_number("Счет ", self.score as i64), "Победа!");
                        GameReply {
                            response: Ok(self.end_game(lines, Some("Вы побед`или".to_string()))),
                            stop: true,
                        }
                    } else {
                        GameReply { response: Ok(self.show_menu(new_card)), stop: false }
                    }
                } else if cmd == "хватит".to_string() || cmd == "on_interrupt".to_string() {
                    let mut lines: Vec<String> = Vec::new();
                    lines.push("Игра закончена".to_string());
                    assert(string_views(lines@) =~= seq!["Игра закончена"@]);
                    GameReply { response: Ok(self.end_game(lines, None)), stop: true }
                } else {
                    GameReply {
                        response: Ok(self.show_error("Введена неизвестная команда".to_string())),
                        stop: false,
                    }
                }
            },
            GameMessage::Stop(_) => {
                GameReply { response: Ok(JsonValue::Null), stop: false }
            },
        }
    }

    /// Draws a card from the deck at random and answers `msg` with it, as
    /// [`Game21::handle_card`] does; the card is one of the deck's.
    pub fn handle(&mut self, msg: GameMessage) -> (r: GameReply)
        requires
            !(msg is Stop),
            asks_for_card(msg) ==> old(self)@.score + 11 <= i32::MAX,
        ensures
            exists|card: i32|
                #![trigger game21_step(old(self)@, msg, card)]
                old(self)@.deck.contains(card) && (final(self)@, r@) == game21_step(
                    old(self)@,
                    msg,
                    card,
                ),
    {
        proof {
            use_type_invariant(&*self);
        }
        let drawn = pick_one(self.deck.as_slice());
        let new_card = match drawn {
            Some(c) => *c,
            // the deck is never empty
            None => 2,
        };
        assert(self@.deck.contains(new_card));
        let r = self.handle_card(msg, new_card);
        r
    }
}

pub open spec fn game21_buttons() -> Seq<ButtonView> {
    seq![
        ButtonView {
            title: "еще"@,
            payload: JsonView::Object(seq![("action"@, JsonView::String("more"@))]),
        },
        ButtonView {
            title: "хватит"@,
            payload: JsonView::Object(seq![("action"@, JsonView::String("enough"@))]),
        },
    ]
}

/// The reply body that the platform gets for the menu of twenty-one: the
/// score and the card, the score said aloud, the buttons `еще` and `хватит`
/// with their actions, and a session that goes on.
pub proof fn lemma_game21_menu_meta(score: int, value: int)
    ensures
        meta_from(game21_menu(score, value)) == (ResponseMetaView {
            text: MetaTextView::Array(seq![score_line(score), decimal(value)]),
            tts: "Тек`ущий сч`ёт `равен "@ + decimal(score),
            buttons: game21_buttons(),
            ..default_meta()
        }),
{
    lemma_reply_keys_distinct();
    reveal_strlit("еще");
    reveal_strlit("хватит");
    let lines = seq![score_line(score), decimal(value)];
    assert(text_lines(lines) =~= game21_score_text(score, value)->Array_0);
    lemma_lines_read_back(lines);
    let bs = game21_buttons();
    assert(bs[0].title.len() > 0);
    assert(bs[1].title.len() > 0);
    lemma_buttons_read_back(bs);
    assert(buttons_json(bs) =~= seq![game21_button("еще"@, "more"@), game21_button("хватит"@, "enough"@)]);
    let a = ("text"@, game21_score_text(score, value));
    let b = ("tts"@, JsonView::String("Тек`ущий сч`ёт `равен "@ + decimal(score)));
    let c = ("buttons"@, JsonView::Array(buttons_json(bs)));
    assert(game21_menu(score, value)->Object_0 =~= seq![a, b, c]);
    lemma_get_of_three(a, b, c, "text"@);
    lemma_get_of_three(a, b, c, "tts"@);
    lemma_get_of_three(a, b, c, "buttons"@);
    lemma_get_of_three(a, b, c, "end_session"@);
}

/// Twenty-one always answers, and a game that stops has told the platform
/// that the session ends.
pub proof fn lemma_game21_stop_ends_session(state: Game21View, msg: GameMessage, card: i32)
    requires
        !(msg is Stop),
    ensures
        game21_step(state, msg, card).1.response is Ok,
        game21_step(state, msg, card).1.stop ==> meta_from(
            game21_step(state, msg, card).1.response->Ok_0,
        ).end_session,
{
    lemma_game21_menu_meta(card as int, card as int);
    lemma_game21_menu_meta(state.score + card, card as int);
    lemma_end_game_meta(seq![score_line(state.score + card), "Вы проиграли"@], Some("Вы проиграли"@));
    lemma_end_game_meta(seq![score_line(state.score + card), "Победа!"@], Some("Вы побед`или"@));
    lemma_end_game_meta(seq!["Игра закончена"@], None);
    lemma_error_reply_meta("Введена неизвестная команда"@);
}

/// A card asked for is added to the score, and the game stops exactly when
/// the score reaches twenty-one or more; it is won at exactly twenty-one.
pub proof fn lemma_game21_card_added(state: Game21View, msg: GameMessage, card: i32)
    requires
        asks_for_card(msg),
        i32::MIN <= state.score + card <= i32::MAX,
    ensures
        game21_step(state, msg, card).0.score == state.score + card,
        game21_step(state, msg, card).0.deck == state.deck,
        game21_step(state, msg, card).1.stop <==> state.score + card >= 21,
        state.score + card == 21 ==> meta_from(game21_step(state, msg, card).1.response->Ok_0).text
            == MetaTextView::Array(seq![score_line(21), "Победа!"@]),
{
    lemma_end_game_meta(seq![score_line(state.score + card), "Победа!"@], Some("Вы побед`или"@));
}

/// Any other command than `еще`, `хватит` and `on_interrupt` leaves the
/// score as it was and is answered with an error that ends the session,
/// though the game goes on.
pub proof fn lemma_game21_unknown_command(state: Game21View, m: super::GameMove, card: i32)
    requires
        command_of(m.data@) != "еще"@,
        command_of(m.data@) != "хватит"@,
        command_of(m.data@) != "on_interrupt"@,
    ensures
        game21_step(state, GameMessage::Move(m), card).0 == state,
        !game21_step(state, GameMessage::Move(m), card).1.stop,
        meta_from(game21_step(state, GameMessage::Move(m), card).1.response->Ok_0) == (ResponseMetaView {
            text: MetaTextView::String("Введена неизвестная команда"@),
            tts: "Игр`а закончен`а"@,
            end_session: true,
            ..default_meta()
        }),
{
    lemma_error_reply_meta("Введена неизвестная команда"@);
}

/// The menu of twenty-one, written out: the score line and the card, the
/// score said aloud, and the buttons `еще` (action `more`) and `хватит`
/// (action `enough`).
pub open spec fn game21_menu_written(score: int, card: int) -> JsonView {
    JsonView::Object(
        seq![
            ("text"@, JsonView::Array(
                seq![JsonView::String("Счет "@ + decimal(score)), JsonView::String(decimal(card))],
            )),
            ("tts"@, JsonView::String("Тек`ущий сч`ёт `равен "@ + decimal(score))),
            ("buttons"@, JsonView::Array(
                seq![
                    JsonView::Object(
                        seq![
                            ("title"@, JsonView::String("еще"@)),
                            ("payload"@, JsonView::Object(seq![("action"@, JsonView::String("more"@))])),
                        ],
                    ),
                    JsonView::Object(
                        seq![
                            ("title"@, JsonView::String("хватит"@)),
                            ("payload"@, JsonView::Object(seq![("action"@, JsonView::String("enough"@))])),
                        ],
                    ),
                ],
            )),
        ],
    )
}

/// A closing answer of twenty-one, written out: its lines, what is said, and
/// the end of the session.
pub open spec fn game21_closing_written(lines: Seq<JsonView>, tts: Seq<char>) -> JsonView {
    JsonView::Object(
        seq![
            ("text"@, JsonView::Array(lines)),
            ("tts"@, JsonView::String(tts)),
            ("end_session"@, JsonView::Bool(true)),
        ],
    )
}

/// A move `еще` adds the card drawn to the score. Above twenty-one the game
/// is lost: the answer shows the score and `Вы проиграли`, says
/// `Вы проиграли`, ends the session, and the game stops. At exactly
/// twenty-one it is won: `Победа!`, said as `Вы побед`или`, and the game
/// stops. Below, the menu shows the new score and the card, and the game
/// goes on.
pub proof fn lemma_game21_more_card(state: Game21View, m: super::GameMove, card: i32)
    requires
        m.data@.get("command"@) == Some(JsonView::String("еще"@)),
        i32::MIN <= state.score + card <= i32::MAX,
    ensures
        game21_step(state, GameMessage::Move(m), card).0 == (Game21View {
            score: (state.score + card) as i32,
            deck: state.deck,
        }),
        state.score + card > 21 ==> game21_step(state, GameMessage::Move(m), card).1 == (GameReplyView {
            response: Ok(game21_closing_written(
                seq![
                    JsonView::String("Счет "@ + decimal(state.score + card)),
                    JsonView::String("Вы проиграли"@),
                ],
                "Вы проиграли"@,
            )),
            stop: true,
        }),
        state.score + card == 21 ==> game21_step(state, GameMessage::Move(m), card).1 == (GameReplyView {
            response: Ok(game21_closing_written(
                seq![JsonView::String("Счет 21"@), JsonView::String("Победа!"@)],
                "Вы побед`или"@,
            )),
            stop: true,
        }),
        state.score + card < 21 ==> game21_step(state, GameMessage::Move(m), card).1 == (GameReplyView {
            response: Ok(game21_menu_written(state.score + card, card as int)),
            stop: false,
        }),
{
    let s = state.score + card;
    reveal_strlit("21");
    assert(decimal(21) =~= "21"@) by {
        reveal_with_fuel(crate::text::digits, 3);
    }
    assert(text_lines(seq![score_line(s), "Вы проиграли"@]) =~= seq![
        JsonView::String("Счет "@ + decimal(s)),
        JsonView::String("Вы проиграли"@),
    ]);
    assert(text_lines(seq![score_line(s), "Победа!"@]) =~= seq![
        JsonView::String("Счет "@ + decimal(s)),
        JsonView::String("Победа!"@),
    ]);
    assert(game21_menu(s, card as int) == game21_menu_written(s, card as int));
    let lost = seq![JsonView::String("Счет "@ + decimal(s)), JsonView::String("Вы проиграли"@)];
    assert(end_game_reply(seq![score_line(s), "Вы проиграли"@], Some("Вы проиграли"@))->Object_0
        =~= game21_closing_written(lost, "Вы проиграли"@)->Object_0);
    let won = seq![JsonView::String("Счет 21"@), JsonView::String("Победа!"@)];
    if s == 21 {
        assert(score_line(s) =~= "Счет 21"@) by {
            reveal_strlit("Счет ");
            reveal_strlit("Счет 21");
        }
        assert(end_game_reply(seq![score_line(s), "Победа!"@], Some("Вы побед`или"@))->Object_0
            =~= game21_closing_written(won, "Вы побед`или"@)->Object_0);
    }
}

/// A start deals the card drawn as the score and shows the menu; `хватит` and
/// `on_interrupt` end the game with `Игра закончена` and leave the score; any
/// other command leaves the score and is answered with the error
/// `Введена неизвестная команда`, which ends the session but not the game.
pub proof fn lemma_game21_other_messages(state: Game21View, m: super::GameMove, card: i32)
    ensures
        game21_step(state, GameMessage::Started, card) == ((Game21View { score: card, deck: state.deck }, GameReplyView {
            response: Ok(game21_menu_written(card as int, card as int)),
            stop: false,
        })),
        (m.data@.get("command"@) == Some(JsonView::String("хватит"@)) || m.data@.get("command"@) == Some(
            JsonView::String("on_interrupt"@),
        )) ==> game21_step(state, GameMessage::Move(m), card) == ((state, GameReplyView {
            response: Ok(game21_closing_written(
                seq![JsonView::String("Игра закончена"@)],
                "Игр`а зак`ончена"@,
            )),
            stop: true,
        })),
        (command_of(m.data@) != "еще"@ && command_of(m.data@) != "хватит"@ && command_of(m.data@)
            != "on_interrupt"@) ==> game21_step(state, GameMessage::Move(m), card) == ((state, GameReplyView {
            response: Ok(JsonView::Object(
                seq![
                    ("text"@, JsonView::String("Введена неизвестная команда"@)),
                    ("tts"@, JsonView::String("Игр`а закончен`а"@)),
                    ("end_session"@, JsonView::Bool(true)),
                ],
            )),
            stop: false,
        })),
{
    reveal_strlit("еще");
    reveal_strlit("хватит");
    reveal_strlit("on_interrupt");
    assert(game21_menu(card as int, card as int) == game21_menu_written(card as int, card as int));
    assert(text_lines(seq!["Игра закончена"@]) =~= seq![JsonView::String("Игра закончена"@)]);
    assert("хватит"@.len() != "еще"@.len());
    assert("on_interrupt"@.len() != "еще"@.len());
    assert(end_game_reply(seq!["Игра закончена"@], None)->Object_0 =~= game21_closing_written(
        seq![JsonView::String("Игра закончена"@)],
        "Игр`а зак`ончена"@,
    )->Object_0);
    assert(error_reply("Введена неизвестная команда"@)->Object_0 =~= seq![
        ("text"@, JsonView::String("Введена неизвестная команда"@)),
        ("tts"@, JsonView::String("Игр`а закончен`а"@)),
        ("end_session"@, JsonView::Bool(true)),
    ]);
}

} // verus!
