use vstd::hash_set::StringHashSet;
use vstd::prelude::*;

use super::{
    command, command_of, error_reply, lemma_error_reply_meta, lemma_lines_read_back, score_line,
    text_lines, Game, GameReply, GameReplyView,
};
use crate::json::{group_json_view, lemma_get_of_two, member_views, views, JsonValue, JsonView};
use crate::random::pick_one;
use crate::session::messages::GameMessage;
use crate::text::{char_strings, chars_as_strings, with_number};
use crate::webhook::response::{
    button_json, buttons_json, default_meta, lemma_buttons_read_back, lemma_reply_keys_distinct,
    meta_from, Button, ButtonView, MetaTextView, ResponseMetaView,
};

verus! {

/// The game of edible things: the user is shown an object and says whether
/// it can be eaten; each right answer scores a point, a wrong one ends the
/// game.
pub struct GameEdible {
    score: u32,
    data: Vec<String>,
    edible: StringHashSet,
    last_object: Option<String>,
}

pub struct EdibleView {
    pub score: u32,
    pub data: Seq<Seq<char>>,
    pub edible: Set<Seq<char>>,
    pub last_object: Option<Seq<char>>,
}

impl View for GameEdible {
    type V = EdibleView;

    closed spec fn view(&self) -> EdibleView {
        EdibleView {
            score: self.score,
            data: self.data@.map_values(|s: String| s@),
            edible: self.edible@,
            last_object: match self.last_object {
                Some(o) => Some(o@),
                None => None,
            },
        }
    }
}

/// The objects that can be shown, one character each.
pub open spec fn edible_game_objects() -> Seq<Seq<char>> {
    char_strings(
        "🍏🍎🥨🥖🍟🍔🍿🍭🥚🍇🍓🍒🍴🥄🍡🍝🏓🏀🥎🎽🧗\u{200d}♂🧗\u{200d}♀🍮🎂🍗🍈🍆🎲🕹⛸"@,
    )
}

/// The objects that can be eaten.
pub open spec fn edible_objects() -> Set<Seq<char>> {
    char_strings("🍏🍎🍡🍝🍮🎂🍗🍈🍆🥨🥖🍟🍔🍿🍭🥚🍇🍓🍒"@).to_set()
}

/// The score line and the object shown.
pub open spec fn edible_score_text(score: int, object: Seq<char>) -> JsonView {
    JsonView::Array(seq![JsonView::String(score_line(score)), JsonView::String(object)])
}

pub open spec fn edible_button(title: Seq<char>) -> JsonView {
    button_json(ButtonView { title, payload: JsonView::Object(Seq::empty()) })
}

/// The answer that shows the score and the object, and offers the two
/// answers.
pub open spec fn edible_menu(score: int, object: Seq<char>) -> JsonView {
    JsonView::Object(
        seq![
            ("text"@, edible_score_text(score, object)),
            ("buttons"@, JsonView::Array(
                seq![edible_button("съедобное"@), edible_button("несъедобное"@)],
            )),
        ],
    )
}

/// Whether `cmd` answers the object shown last rightly.
pub open spec fn answer_is_correct(state: EdibleView, cmd: Seq<char>) -> bool {
    state.last_object matches Some(last) && ((cmd == "съедобное"@ && state.edible.contains(last))
        || (cmd == "несъедобное"@ && !state.edible.contains(last)))
}

/// Whether a message answers the object shown last rightly.
pub open spec fn scores_point(state: EdibleView, msg: GameMessage) -> bool {
    msg matches GameMessage::Move(m) && answer_is_correct(state, command_of(m.data@))
}

/// What the game of edible things does with a message when `object` is the
/// next one to show: the state after it, and the answer.
pub open spec fn edible_step(state: EdibleView, msg: GameMessage, object: Seq<char>) -> (EdibleView, GameReplyView) {
    match msg {
        GameMessage::Started => (
            EdibleView { score: 0, ..state },
            GameReplyView { response: Ok(edible_menu(0, object)), stop: false },
        ),
        GameMessage::Move(m) => {
            let cmd = command_of(m.data@);
            if cmd == "съедобное"@ || cmd == "несъедобное"@ {
                if answer_is_correct(state, cmd) {
                    let s = state.score + 1;
                    (
                        EdibleView { score: s as u32, last_object: Some(object), ..state },
                        GameReplyView { response: Ok(edible_menu(s, object)), stop: false },
                    )
                } else {
                    (
                        EdibleView { last_object: Some(object), ..state },
                        GameReplyView { response: Ok(error_reply("Неправильно"@)), stop: true },
                    )
                }
            } else {
                (state, GameReplyView {
                    response: Ok(error_reply("Введена неизвестная команда"@)),
                    stop: false,
                })
            }
        },
        GameMessage::Stop(_) => (state, GameReplyView { response: Ok(JsonView::Null), stop: false }),
    }
}

impl Game for GameEdible {

}

impl GameEdible {
    #[verifier::type_invariant]
    closed spec fn has_objects(self) -> bool {
        self.data.len() > 0
    }

    /// A game with no points and no object shown yet.
    pub fn new() -> (r: GameEdible)
        ensures
            r@ == (EdibleView {
                score: 0,
                data: edible_game_objects(),
                edible: edible_objects(),
                last_object: None,
            }),
    {
        let data = chars_as_strings(
            "🍏🍎🥨🥖🍟🍔🍿🍭🥚🍇🍓🍒🍴🥄🍡🍝🏓🏀🥎🎽🧗\u{200d}♂🧗\u{200d}♀🍮🎂🍗🍈🍆🎲🕹⛸",
        );
        proof {
            reveal_strlit(
                "🍏🍎🥨🥖🍟🍔🍿🍭🥚🍇🍓🍒🍴🥄🍡🍝🏓🏀🥎🎽🧗\u{200d}♂🧗\u{200d}♀🍮🎂🍗🍈🍆🎲🕹⛸",
            );
        }
        assert(data@.map_values(|s: String| s@).len() > 0);
        let names = chars_as_strings("🍏🍎🍡🍝🍮🎂🍗🍈🍆🥨🥖🍟🍔🍿🍭🥚🍇🍓🍒");
        let ghost all = char_strings("🍏🍎🍡🍝🍮🎂🍗🍈🍆🥨🥖🍟🍔🍿🍭🥚🍇🍓🍒"@);
        let mut edible = StringHashSet::new();
        let mut i: usize = 0;
        while i < names.len()
            invariant
                i <= names.len(),
                names@.map_values(|s: String| s@) == all,
                forall|s: Seq<char>| edible@.contains(s) <==> all.take(i as int).contains(s),
            decreases names.len() - i,
        {
            let ghost prev_set = edible@;
            edible.insert(names[i].clone());
            assert(all[i as int] == names@[i as int]@);
            assert(edible@ == prev_set.insert(all[i as int]));
            let ghost cur = all.take(i as int);
            let ghost next = all.take(i + 1);
            assert(next =~= cur.push(names@[i as int]@));
            assert forall|s: Seq<char>| edible@.contains(s) <==> next.contains(s) by {
                if prev_set.contains(s) {
                    assert(cur.contains(s));
                }
                if s == all[i as int] {
                    assert(next[i as int] == s);
                }
                if next.contains(s) {
                    let j = choose|j: int| 0 <= j < next.len() && next[j] == s;
                    if j < cur.len() {
                        assert(cur[j] == s);
                    }
                }
                if cur.contains(s) {
                    let j = choose|j: int| 0 <= j < cur.len() && cur[j] == s;
                    assert(next[j] == s);
                }
            }
            i = i + 1;
        }
        assert(all.take(names.len() as int) =~= all);
        assert(edible@ =~= edible_objects());
        GameEdible { score: 0, data, edible, last_object: None }
    }

    /// The points the user has.
    pub fn score(&self) -> (r: u32)
        ensures
            r == self@.score,
    {
        self.score
    }

    /// Whether `msg` answers the object shown last rightly.
    pub fn answers_right(&self, msg: &GameMessage) -> (r: bool)
        ensures
            r == scores_point(self@, *msg),
    {
        match msg {
            GameMessage::Move(game_move) => {
                let cmd = command(&game_move.data);
                let eat = "съедобное".to_string();
                let not_eat = "несъедобное".to_string();
                proof {
                    reveal_strlit("съедобное");
                    reveal_strlit("несъедобное");
                    assert("съедобное"@.len() != "несъедобное"@.len());
                }
                if cmd == eat || cmd == not_eat {
                    match &self.last_object {
                        Some(last) => {
                            let is_edible = self.edible.contains(last.as_str());
                            if cmd == eat {
                                is_edible
                            } else {
                                !is_edible
                            }
                        },
                        None => false,
                    }
                } else {
                    false
                }
            },
            _ => false,
        }
    }

    /// The score line and the object shown.
    pub fn get_score_text(&self, object: String) -> (r: JsonValue)
        ensures
            r@ == edible_score_text(self@.score as int, object@),
    {
        broadcast use group_json_view;
        let ghost o = object@;
        let mut lines: Vec<JsonValue> = Vec::new();
        lines.push(JsonValue::String(with_number("Счет ", self.score as i64)));
        lines.push(JsonValue::String(object));
        assert(views(lines@) =~= edible_score_text(self@.score as int, o)->Array_0);
        JsonValue::Array(lines)
    }

    fn button(title: &str) -> (r: JsonValue)
        ensures
            r@ == edible_button(title@),
    {
        broadcast use group_json_view;
        let payload: Vec<(String, JsonValue)> = Vec::new();
        assert(member_views(payload@) =~= Seq::<(Seq<char>, JsonView)>::empty());
        JsonValue::from(Button { title: String::from_str(title), payload: JsonValue::Object(payload) })
    }

    /// The answer that shows the score and `object`, and offers the two
    /// answers.
    pub fn show_menu(&self, object: String) -> (r: JsonValue)
        ensures
            r@ == edible_menu(self@.score as int, object@),
    {
        broadcast use group_json_view;
        let ghost o = object@;
        let mut buttons: Vec<JsonValue> = Vec::new();
        buttons.push(Self::button("съедобное"));
        buttons.push(Self::button("несъедобное"));
        assert(views(buttons@) =~= seq![edible_button("съедобное"@), edible_button("несъедобное"@)]);
        let mut m: Vec<(String, JsonValue)> = Vec::new();
        m.push(("text".to_string(), self.get_score_text(object)));
        m.push(("buttons".to_string(), JsonValue::Array(buttons)));
        assert(member_views(m@) =~= edible_menu(self@.score as int, o)->Object_0);
        JsonValue::Object(m)
    }

    /// Answers `msg` where `new_obj` is the object to show next: a start
    /// resets the score; the answers `съедобное` and `несъедобное` score a
    /// point when they are right for the object shown last, and otherwise
    /// end the game; any other command is answered with an error.
    pub fn handle_object(&mut self, msg: GameMessage, new_obj: String) -> (r: GameReply)
        requires
            !(msg is Stop),
            scores_point(old(self)@, msg) ==> old(self)@.score < u32::MAX,
        ensures
            (final(self)@, r@) == edible_step(old(self)@, msg, new_obj@),
    {
        proof {
            use_type_invariant(&*self);
        }
        match &msg {
            GameMessage::Started => {
                self.score = 0;
                let r = GameReply { response: Ok(self.show_menu(new_obj)), stop: false };
                assert(self@ == edible_step(old(self)@, msg, new_obj@).0);
                r
            },
            GameMessage::Move(game_move) => {
                let right = self.answers_right(&msg);
                let cmd = command(&game_move.data);
                let eat = "съедобное".to_string();
                let not_eat = "несъедобное".to_string();
                if cmd == eat || cmd == not_eat {
                    if right {
                        self.score = self.score + 1;
                        self.last_object = Some(new_obj.clone());
                        GameReply { response: Ok(self.show_menu(new_obj)), stop: false }
                    } else {
                        self.last_object = Some(new_obj);
                        GameReply {
                            response: Ok(self.show_error("Неправильно".to_string())),
                            stop: true,
                        }
                    }
                } else {
                    GameReply {
                        response: Ok(self.show_error("Введена неизвестная команда".to_string())),
                        stop: false,
                    }
                }
            },
            GameMessage::Stop(_) => {
                GameReply { response: Ok(JsonValue::Null), stop: false }
            },
        }
    }

    /// Picks the next object at random and answers `msg` with it, as
    /// [`GameEdible::handle_object`] does; the object is one of the game's.
    pub fn handle(&mut self, msg: GameMessage) -> (r: GameReply)
        requires
            !(msg is Stop),
            scores_point(old(self)@, msg) ==> old(self)@.score < u32::MAX,
        ensures
            exists|object: Seq<char>|
                #![trigger edible_step(old(self)@, msg, object)]
                old(self)@.data.contains(object) && (final(self)@, r@) == edible_step(
                    old(self)@,
                    msg,
                    object,
                ),
    {
        proof {
            use_type_invariant(&*self);
        }
        let new_obj = match pick_one(self.data.as_slice()) {
            Some(o) => o.clone(),
            // there is always an object to show
            None => String::new(),
        };
        assert(self@.data.contains(new_obj@)) by {
            let j = choose|j: int| 0 <= j < self.data@.len() && self.data@[j] == new_obj;
            assert(self@.data[j] == new_obj@);
        }
        self.handle_object(msg, new_obj)
    }
}

pub open spec fn edible_buttons() -> Seq<ButtonView> {
    seq![
        ButtonView { title: "съедобное"@, payload: JsonView::Object(Seq::empty()) },
        ButtonView { title: "несъедобное"@, payload: JsonView::Object(Seq::empty()) },
    ]
}

/// The reply body that the platform gets for the menu of edible things: the
/// score and the object, the two answers as buttons, and a session that goes
/// on.
pub proof fn lemma_edible_menu_meta(score: int, object: Seq<char>)
    ensures
        meta_from(edible_menu(score, object)) == (ResponseMetaView {
            text: MetaTextView::Array(seq![score_line(score), object]),
            buttons: edible_buttons(),
            ..default_meta()
        }),
{
    lemma_reply_keys_distinct();
    reveal_strlit("съедобное");
    reveal_strlit("несъедобное");
    let lines = seq![score_line(score), object];
    assert(text_lines(lines) =~= edible_score_text(score, object)->Array_0);
    lemma_lines_read_back(lines);
    let bs = edible_buttons();
    assert(bs[0].title.len() > 0);
    assert(bs[1].title.len() > 0);
    lemma_buttons_read_back(bs);
    assert(buttons_json(bs) =~= seq![edible_button("съедобное"@), edible_button("несъедобное"@)]);
    let a = ("text"@, edible_score_text(score, object));
    let b = ("buttons"@, JsonView::Array(buttons_json(bs)));
    assert(edible_menu(score, object)->Object_0 =~= seq![a, b]);
    lemma_get_of_two(a, b, "text"@);
    lemma_get_of_two(a, b, "tts"@);
    lemma_get_of_two(a, b, "buttons"@);
    lemma_get_of_two(a, b, "end_session"@);
}

/// The game of edible things always answers, and a game that stops has told
/// the platform that the session ends.
pub proof fn lemma_edible_stop_ends_session(state: EdibleView, msg: GameMessage, object: Seq<char>)
    requires
        !(msg is Stop),
    ensures
        edible_step(state, msg, object).1.response is Ok,
        edible_step(state, msg, object).1.stop ==> meta_from(
            edible_step(state, msg, object).1.response->Ok_0,
        ).end_session,
{
    lemma_edible_menu_meta(0, object);
    lemma_edible_menu_meta(state.score + 1, object);
    lemma_error_reply_meta("Неправильно"@);
    lemma_error_reply_meta("Введена неизвестная команда"@);
}

/// On a move, a right answer scores exactly one point and a wrong answer
/// none; the game stops exactly on a wrong answer; either answer makes the
/// next object the one to judge.
pub proof fn lemma_edible_scoring(state: EdibleView, m: super::GameMove, object: Seq<char>)
    requires
        answer_is_correct(state, command_of(m.data@)) ==> state.score < u32::MAX,
    ensures
        edible_step(state, GameMessage::Move(m), object).0.score == state.score + (if answer_is_correct(
            state,
            command_of(m.data@),
        ) {
            1int
        } else {
            0int
        }),
        edible_step(state, GameMessage::Move(m), object).1.stop <==> ((command_of(m.data@)
            == "съедобное"@ || command_of(m.data@) == "несъедобное"@) && !answer_is_correct(
            state,
            command_of(m.data@),
        )),
        (command_of(m.data@) == "съедобное"@ || command_of(m.data@) == "несъедобное"@) ==> edible_step(
            state,
            GameMessage::Move(m),
            object,
        ).0.last_object == Some(object),
{
}

/// The state after the game has answered `msgs` in turn, where `objects[i]`
/// is the object drawn for `msgs[i]`.
pub open spec fn edible_run(state: EdibleView, msgs: Seq<GameMessage>, objects: Seq<Seq<char>>) -> EdibleView
    decreases msgs.len(),
{
    if msgs.len() == 0 {
        state
    } else {
        edible_step(
            edible_run(state, msgs.drop_last(), objects.drop_last()),
            msgs.last(),
            objects.last(),
        ).0
    }
}

/// Whether a start is among `msgs`.
pub open spec fn has_start(msgs: Seq<GameMessage>) -> bool
    decreases msgs.len(),
{
    msgs.len() > 0 && (msgs.last() is Started || has_start(msgs.drop_last()))
}

/// The number of right answers among `msgs` after the last start (or from
/// the first message, where there is no start).
pub open spec fn right_answers_since_start(state: EdibleView, msgs: Seq<GameMessage>, objects: Seq<Seq<char>>) -> nat
    decreases msgs.len(),
{
    if msgs.len() == 0 {
        0
    } else if msgs.last() is Started {
        0
    } else {
        right_answers_since_start(state, msgs.drop_last(), objects.drop_last()) + if scores_point(
            edible_run(state, msgs.drop_last(), objects.drop_last()),
            msgs.last(),
        ) {
            1nat
        } else {
            0nat
        }
    }
}

/// Over any run of starts and moves, the objects and the edible ones never
/// change, and the score is the number of right answers since the last
/// start, added to the score the run began with where there was no start.
/// The run is one in which no right answer finds the score at its maximum.
pub proof fn lemma_edible_score_counts_right_answers(
    state: EdibleView,
    msgs: Seq<GameMessage>,
    objects: Seq<Seq<char>>,
)
    requires
        objects.len() == msgs.len(),
        forall|i: int| 0 <= i < msgs.len() ==> !(#[trigger] msgs[i] is Stop),
        forall|i: int|
            0 <= i < msgs.len() && #[trigger] scores_point(
                edible_run(state, msgs.take(i), objects.take(i)),
                msgs[i],
            ) ==> edible_run(state, msgs.take(i), objects.take(i)).score < u32::MAX,
    ensures
        edible_run(state, msgs, objects).data == state.data,
        edible_run(state, msgs, objects).edible == state.edible,
        edible_run(state, msgs, objects).score == (if has_start(msgs) {
            0
        } else {
            state.score as int
        }) + right_answers_since_start(state, msgs, objects),
        right_answers_since_start(state, msgs, objects) <= msgs.len(),
    decreases msgs.len(),
{
    if msgs.len() > 0 {
        let prev = msgs.drop_last();
        let prev_objects = objects.drop_last();
        assert forall|i: int| 0 <= i < prev.len() implies !(#[trigger] prev[i] is Stop) by {
            assert(prev[i] == msgs[i]);
        }
        assert forall|i: int|
            0 <= i < prev.len() && #[trigger] scores_point(
                edible_run(state, prev.take(i), prev_objects.take(i)),
                prev[i],
            ) implies edible_run(state, prev.take(i), prev_objects.take(i)).score < u32::MAX by {
            assert(prev.take(i) =~= msgs.take(i));
            assert(prev_objects.take(i) =~= objects.take(i));
            assert(prev[i] == msgs[i]);
            assert(scores_point(edible_run(state, msgs.take(i), objects.take(i)), msgs[i]));
        }
        lemma_edible_score_counts_right_answers(state, prev, prev_objects);
        assert(!(msgs[msgs.len() - 1] is Stop));
        let n = msgs.len() - 1;
        assert(msgs.take(n) =~= prev);
        assert(objects.take(n) =~= prev_objects);
        if scores_point(edible_run(state, prev, prev_objects), msgs.last()) {
            assert(scores_point(edible_run(state, msgs.take(n), objects.take(n)), msgs[n]));
        }
    }
}

/// Every edible object is one that the game shows.
pub proof fn lemma_edible_objects_are_shown()
    ensures
        forall|x: Seq<char>| edible_objects().contains(x) ==> edible_game_objects().contains(x),
{
    reveal_strlit(
        "🍏🍎🥨🥖🍟🍔🍿🍭🥚🍇🍓🍒🍴🥄🍡🍝🏓🏀🥎🎽🧗\u{200d}♂🧗\u{200d}♀🍮🎂🍗🍈🍆🎲🕹⛸",
    );
    reveal_strlit("🍏🍎🍡🍝🍮🎂🍗🍈🍆🥨🥖🍟🍔🍿🍭🥚🍇🍓🍒");
    let d = edible_game_objects();
    let e = char_strings("🍏🍎🍡🍝🍮🎂🍗🍈🍆🥨🥖🍟🍔🍿🍭🥚🍇🍓🍒"@);
    assert(d[0] == e[0]);
    assert(d[1] == e[1]);
    assert(d[14] == e[2]);
    assert(d[15] == e[3]);
    assert(d[26] == e[4]);
    assert(d[27] == e[5]);
    assert(d[28] == e[6]);
    assert(d[29] == e[7]);
    assert(d[30] == e[8]);
    assert(d[2] == e[9]);
    assert(d[3] == e[10]);
    assert(d[4] == e[11]);
    assert(d[5] == e[12]);
    assert(d[6] == e[13]);
    assert(d[7] == e[14]);
    assert(d[8] == e[15]);
    assert(d[9] == e[16]);
    assert(d[10] == e[17]);
    assert(d[11] == e[18]);
    assert forall|x: Seq<char>| edible_objects().contains(x) implies d.contains(x) by {
        let j = choose|j: int| 0 <= j < e.len() && e[j] == x;
        if j == 0 { assert(d[0] == x); }
        if j == 1 { assert(d[1] == x); }
        if j == 2 { assert(d[14] == x); }
        if j == 3 { assert(d[15] == x); }
        if j == 4 { assert(d[26] == x); }
        if j == 5 { assert(d[27] == x); }
        if j == 6 { assert(d[28] == x); }
        if j == 7 { assert(d[29] == x); }
        if j == 8 { assert(d[30] == x); }
        if j == 9 { assert(d[2] == x); }
        if j == 10 { assert(d[3] == x); }
        if j == 11 { assert(d[4] == x); }
        if j == 12 { assert(d[5] == x); }
        if j == 13 { assert(d[6] == x); }
        if j == 14 { assert(d[7] == x); }
        if j == 15 { assert(d[8] == x); }
        if j == 16 { assert(d[9] == x); }
        if j == 17 { assert(d[10] == x); }
        if j == 18 { assert(d[11] == x); }
    }
}

/// The menu of the game of edible things, written out: the score line and
/// the object, and the buttons `съедобное` and `несъедобное` with empty
/// payloads.
pub open spec fn edible_menu_written(score: int, object: Seq<char>) -> JsonView {
    JsonView::Object(
        seq![
            ("text"@, JsonView::Array(
                seq![JsonView::String("Счет "@ + crate::text::decimal(score)), JsonView::String(object)],
            )),
            ("buttons"@, JsonView::Array(
                seq![
                    JsonView::Object(
                        seq![
                            ("title"@, JsonView::String("съедобное"@)),
                            ("payload"@, JsonView::Object(Seq::empty())),
                        ],
                    ),
                    JsonView::Object(
                        seq![
                            ("title"@, JsonView::String("несъедобное"@)),
                            ("payload"@, JsonView::Object(Seq::empty())),
                        ],
                    ),
                ],
            )),
        ],
    )
}

/// The answer to a wrong judgement, written out.
pub open spec fn edible_wrong_written() -> JsonView {
    JsonView::Object(
        seq![
            ("text"@, JsonView::String("Неправильно"@)),
            ("tts"@, JsonView::String("Игр`а закончен`а"@)),
            ("end_session"@, JsonView::Bool(true)),
        ],
    )
}

/// Saying `съедобное` of an edible object shown last, or `несъедобное` of
/// one that is not, scores a point, shows the menu with the new score and
/// the next object, and the game goes on; the other way round, the score
/// stays, the answer is `Неправильно` with the end of the session, and the
/// game stops. Either way the next object is the one to judge.
pub proof fn lemma_edible_judges_answer(state: EdibleView, m: super::GameMove, object: Seq<char>, last: Seq<char>)
    requires
        state.last_object == Some(last),
    ensures
        ((m.data@.get("command"@) == Some(JsonView::String("съедобное"@)) && state.edible.contains(last))
            || (m.data@.get("command"@) == Some(JsonView::String("несъедобное"@)) && !state.edible.contains(last)))
            && state.score < u32::MAX ==> edible_step(state, GameMessage::Move(m), object) == ((EdibleView {
            score: (state.score + 1) as u32,
            last_object: Some(object),
            ..state
        }, GameReplyView { response: Ok(edible_menu_written(state.score + 1, object)), stop: false })),
        ((m.data@.get("command"@) == Some(JsonView::String("съедобное"@)) && !state.edible.contains(last))
            || (m.data@.get("command"@) == Some(JsonView::String("несъедобное"@)) && state.edible.contains(last)))
            ==> edible_step(state, GameMessage::Move(m), object) == ((EdibleView {
            last_object: Some(object),
            ..state
        }, GameReplyView { response: Ok(edible_wrong_written()), stop: true })),
{
    reveal_strlit("съедобное");
    reveal_strlit("несъедобное");
    assert("съедобное"@.len() != "несъедобное"@.len());
    assert(edible_menu(state.score + 1, object) =~= edible_menu_written(state.score + 1, object)) by {
        assert(edible_menu(state.score + 1, object)->Object_0 =~= edible_menu_written(state.score + 1, object)->Object_0);
    }
    assert(error_reply("Неправильно"@)->Object_0 =~= edible_wrong_written()->Object_0);
}

/// Before any object was judged, every answer is wrong.
pub proof fn lemma_edible_no_object_yet(state: EdibleView, m: super::GameMove, object: Seq<char>)
    requires
        state.last_object is None,
        m.data@.get("command"@) == Some(JsonView::String("съедобное"@)) || m.data@.get("command"@) == Some(
            JsonView::String("несъедобное"@),
        ),
    ensures
        edible_step(state, GameMessage::Move(m), object) == ((EdibleView {
            last_object: Some(object),
            ..state
        }, GameReplyView { response: Ok(edible_wrong_written()), stop: true })),
{
    assert(error_reply("Неправильно"@)->Object_0 =~= edible_wrong_written()->Object_0);
}

/// Whether an answer is right depends on the object shown last and on which
/// objects are edible, never on the score.
pub proof fn lemma_edible_judged_without_score(a: EdibleView, b: EdibleView, msg: GameMessage)
    requires
        a.last_object == b.last_object,
        a.edible == b.edible,
    ensures
        scores_point(a, msg) == scores_point(b, msg),
{
}

/// A start sets the score to nothing and shows the menu with the object
/// drawn; it does not make that object the one to judge.
pub proof fn lemma_edible_start(state: EdibleView, object: Seq<char>)
    ensures
        edible_step(state, GameMessage::Started, object) == ((EdibleView { score: 0, ..state }, GameReplyView {
            response: Ok(edible_menu_written(0, object)),
            stop: false,
        })),
{
    assert(edible_menu(0, object)->Object_0 =~= edible_menu_written(0, object)->Object_0);
}

} // verus!
