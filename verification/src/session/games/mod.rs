use vstd::prelude::*;

use crate::json::{
    group_json_view, lemma_get_of_three, member_views, string_views, strings_of, views, JsonValue,
    JsonView,
};
use crate::webhook::response::{
    default_meta, lemma_reply_keys_distinct, meta_from, meta_text_from, MetaTextView, ResponseMetaView,
};
use crate::text::decimal;

pub mod edible;
pub mod game21;

pub use edible::GameEdible;
pub use game21::Game21;

verus! {

/// A move of the user in a session: the request body that carries it.
#[derive(Debug, PartialEq, Eq)]
pub struct GameMove {
    pub session_id: String,
    pub data: JsonValue,
}

/// What a game answers a message, and whether it stops afterwards.
#[derive(Debug, PartialEq, Eq)]
pub struct GameReply {
    pub response: Result<JsonValue, String>,
    pub stop: bool,
}

pub struct GameReplyView {
    pub response: Result<JsonView, Seq<char>>,
    pub stop: bool,
}

impl View for GameReply {
    type V = GameReplyView;

    open spec fn view(&self) -> GameReplyView {
        GameReplyView {
            response: match self.response {
                Ok(v) => Ok(v@),
                Err(e) => Err(e@),
            },
            stop: self.stop,
        }
    }
}

/// The command of a move: the string `command` of its body, or the empty
/// string where there is none.
pub open spec fn command_of(data: JsonView) -> Seq<char> {
    match data.get_str("command"@) {
        Some(c) => c,
        None => Seq::empty(),
    }
}

/// `Счет <score>`: the line that shows the score.
pub open spec fn score_line(score: int) -> Seq<char> {
    "Счет "@ + decimal(score)
}

/// The answer that ends a game on an error.
pub open spec fn error_reply(text: Seq<char>) -> JsonView {
    JsonView::Object(
        seq![
            ("text"@, JsonView::String(text)),
            ("tts"@, JsonView::String("Игр`а закончен`а"@)),
            ("end_session"@, JsonView::Bool(true)),
        ],
    )
}

pub open spec fn text_lines(texts: Seq<Seq<char>>) -> Seq<JsonView> {
    texts.map_values(|t: Seq<char>| JsonView::String(t))
}

/// The answer that ends a game: its lines, and what is said, by default
/// that the game is over.
pub open spec fn end_game_reply(texts: Seq<Seq<char>>, speech: Option<Seq<char>>) -> JsonView {
    JsonView::Object(
        seq![
            ("text"@, JsonView::Array(text_lines(texts))),
            ("tts"@, JsonView::String(
                match speech {
                    Some(t) => t,
                    None => "Игр`а зак`ончена"@,
                },
            )),
            ("end_session"@, JsonView::Bool(true)),
        ],
    )
}

pub open spec fn opt_string_view(s: Option<String>) -> Option<Seq<char>> {
    match s {
        Some(t) => Some(t@),
        None => None,
    }
}

/// The command of a move.
pub fn command(data: &JsonValue) -> (r: String)
    ensures
        r@ == command_of(data@),
{
    match data.get("command") {
        Some(c) => match c.as_str() {
            Some(s) => s.clone(),
            None => String::new(),
        },
        None => String::new(),
    }
}

/// The answer that ends a game on an error.
pub fn error_reply_json(error_text: String) -> (r: JsonValue)
    ensures
        r@ == error_reply(error_text@),
{
    broadcast use group_json_view;
    let ghost t = error_text@;
    let tts = "Игр`а закончен`а".to_string();
    let mut m: Vec<(String, JsonValue)> = Vec::new();
    m.push(("text".to_string(), JsonValue::String(error_text)));
    m.push(("tts".to_string(), JsonValue::String(tts)));
    m.push(("end_session".to_string(), JsonValue::Bool(true)));
    assert(member_views(m@) =~= error_reply(t)->Object_0);
    JsonValue::Object(m)
}

/// The answer that ends a game with the lines `end_text` and the words
/// `speech`.
pub fn end_game_json(end_text: Vec<String>, speech: Option<String>) -> (r: JsonValue)
    ensures
        r@ == end_game_reply(string_views(end_text@), opt_string_view(speech)),
{
    broadcast use group_json_view;
    let ghost texts = string_views(end_text@);
    let ghost sp = opt_string_view(speech);
    let mut lines: Vec<JsonValue> = Vec::new();
    let mut i: usize = 0;
    while i < end_text.len()
        invariant
            i <= end_text.len(),
            texts == string_views(end_text@),
            views(lines@) == text_lines(texts).take(i as int),
        decreases end_text.len() - i,
    {
        let ghost prev = lines@;
        let line = JsonValue::String(end_text[i].clone());
        lines.push(line);
        assert(views(lines@) =~= views(prev).push(line@));
        assert(text_lines(texts).take(i + 1) =~= text_lines(texts).take(i as int).push(line@));
        i = i + 1;
    }
    assert(text_lines(texts).take(end_text.len() as int) =~= text_lines(texts));
    let tts = match speech {
        Some(t) => t,
        None => "Игр`а зак`ончена".to_string(),
    };
    let mut m: Vec<(String, JsonValue)> = Vec::new();
    m.push(("text".to_string(), JsonValue::Array(lines)));
    m.push(("tts".to_string(), JsonValue::String(tts)));
    m.push(("end_session".to_string(), JsonValue::Bool(true)));
    assert(member_views(m@) =~= end_game_reply(texts, sp)->Object_0);
    JsonValue::Object(m)
}

/// The answers that every game gives alike.
pub trait Game {
    /// The answer that ends the game on an error.
    fn show_error(&self, error_text: String) -> (r: JsonValue)
        ensures
            r@ == error_reply(error_text@),
    {
        error_reply_json(error_text)
    }

    /// The answer that ends the game with the lines `end_text` and the words
    /// `speech`.
    fn end_game(&self, end_text: Vec<String>, speech: Option<String>) -> (r: JsonValue)
        ensures
            r@ == end_game_reply(string_views(end_text@), opt_string_view(speech)),
    {
        end_game_json(end_text, speech)
    }
}

/// Lines written as JSON strings read back as the same lines.
pub proof fn lemma_lines_read_back(texts: Seq<Seq<char>>)
    ensures
        strings_of(text_lines(texts)) == texts,
    decreases texts.len(),
{
    if texts.len() > 0 {
        lemma_lines_read_back(texts.drop_last());
        assert(text_lines(texts).drop_last() =~= text_lines(texts.drop_last()));
        assert(texts.drop_last().push(texts.last()) =~= texts);
    } else {
        assert(text_lines(texts) =~= Seq::<JsonView>::empty());
    }
}

/// The reply body that the platform gets for a game's error answer: the
/// error text, the words that the game is over, and the end of the session.
pub proof fn lemma_error_reply_meta(text: Seq<char>)
    ensures
        meta_from(error_reply(text)) == (ResponseMetaView {
            text: MetaTextView::String(text),
            tts: "Игр`а закончен`а"@,
            end_session: true,
            ..default_meta()
        }),
{
    lemma_reply_keys_distinct();
    let a = ("text"@, JsonView::String(text));
    let b = ("tts"@, JsonView::String("Игр`а закончен`а"@));
    let c = ("end_session"@, JsonView::Bool(true));
    lemma_get_of_three(a, b, c, "text"@);
    lemma_get_of_three(a, b, c, "tts"@);
    lemma_get_of_three(a, b, c, "buttons"@);
    lemma_get_of_three(a, b, c, "end_session"@);
}

/// The reply body that the platform gets for a game's closing answer: its
/// lines, the words said (by default that the game is over), and the end of
/// the session.
pub proof fn lemma_end_game_meta(texts: Seq<Seq<char>>, speech: Option<Seq<char>>)
    ensures
        meta_from(end_game_reply(texts, speech)) == (ResponseMetaView {
            text: MetaTextView::Array(texts),
            tts: match speech {
                Some(t) => t,
                None => "Игр`а зак`ончена"@,
            },
            end_session: true,
            ..default_meta()
        }),
{
    lemma_reply_keys_distinct();
    lemma_lines_read_back(texts);
    let tts = match speech {
        Some(t) => t,
        None => "Игр`а зак`ончена"@,
    };
    let lines = JsonView::Array(text_lines(texts));
    let a = ("text"@, lines);
    let b = ("tts"@, JsonView::String(tts));
    let c = ("end_session"@, JsonView::Bool(true));
    assert(end_game_reply(texts, speech)->Object_0 =~= seq![a, b, c]);
    lemma_get_of_three(a, b, c, "text"@);
    lemma_get_of_three(a, b, c, "tts"@);
    lemma_get_of_three(a, b, c, "buttons"@);
    lemma_get_of_three(a, b, c, "end_session"@);
    assert(meta_text_from(lines) == MetaTextView::Array(texts));
}

/// The command of a move is the string member `command` of its body, the
/// one named last where there are several, whatever other members the body
/// has; where `command` is missing or no string, the command is empty; two
/// bodies with the same `command` member give the same command.
pub proof fn lemma_command_is_command_member(members: Seq<(Seq<char>, JsonView)>, c: Seq<char>, data: JsonView, other: JsonView)
    ensures
        command_of(JsonView::Object(members.push(("command"@, JsonView::String(c))))) == c,
        !(data.get("command"@) matches Some(JsonView::String(_))) ==> command_of(data) == Seq::<char>::empty(),
        data.get("command"@) == other.get("command"@) ==> command_of(data) == command_of(other),
{
    crate::json::lemma_get_members(members, "command"@, JsonView::String(c), "command"@);
}

} // verus!
