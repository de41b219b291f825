use vstd::prelude::*;

use crate::json::{
    group_json_view, string_items, string_views, strings_of, views, JsonValue, JsonView,
};

verus! {

/// What the skill answers the platform: the reply, the session it belongs to
/// and the protocol version.
#[derive(Debug, PartialEq, Eq)]
pub struct Response {
    pub response: ResponseMeta,
    pub session: Session,
    pub version: String,
}

/// Collects the parts of a [`Response`]; [`ResponseBuilder::build`] checks
/// that none is missing.
pub struct ResponseBuilder {
    response_meta: ResponseMeta,
    session: Option<Session>,
    version: String,
}

/// The body of a reply: what is shown and said, the buttons offered, and
/// whether the conversation ends.
#[derive(Debug, PartialEq, Eq)]
pub struct ResponseMeta {
    pub text: ResponseMetaText,
    pub tts: String,
    pub buttons: Vec<Button>,
    pub end_session: bool,
    pub card: Option<JsonValue>,
    pub commands: Vec<JsonValue>,
}

/// The session a reply belongs to.
#[derive(Debug, PartialEq, Eq)]
pub struct Session {
    pub session_id: String,
    pub user_id: String,
    pub message_id: i32,
}

/// The text of a reply: one string, or several lines.
#[derive(Debug, PartialEq, Eq)]
pub enum ResponseMetaText {
    String(String),
    Array(Vec<String>),
}

/// A button offered to the user, with the payload that comes back when it is
/// pressed.
#[derive(Debug, PartialEq, Eq)]
pub struct Button {
    pub title: String,
    pub payload: JsonValue,
}

pub struct ButtonView {
    pub title: Seq<char>,
    pub payload: JsonView,
}

pub enum MetaTextView {
    String(Seq<char>),
    Array(Seq<Seq<char>>),
}

pub struct ResponseMetaView {
    pub text: MetaTextView,
    pub tts: Seq<char>,
    pub buttons: Seq<ButtonView>,
    pub end_session: bool,
    pub card: Option<JsonView>,
    pub commands: Seq<JsonView>,
}

pub struct SessionView {
    pub session_id: Seq<char>,
    pub user_id: Seq<char>,
    pub message_id: i32,
}

pub struct ResponseView {
    pub response: ResponseMetaView,
    pub session: SessionView,
    pub version: Seq<char>,
}

pub struct ResponseBuilderView {
    pub response_meta: ResponseMetaView,
    pub session: Option<SessionView>,
    pub version: Seq<char>,
}

impl View for Button {
    type V = ButtonView;

    open spec fn view(&self) -> ButtonView {
        ButtonView { title: self.title@, payload: self.payload@ }
    }
}

impl View for ResponseMetaText {
    type V = MetaTextView;

    open spec fn view(&self) -> MetaTextView {
        match self {
            ResponseMetaText::String(s) => MetaTextView::String(s@),
            ResponseMetaText::Array(a) => MetaTextView::Array(string_views(a@)),
        }
    }
}

pub open spec fn button_views(b: Seq<Button>) -> Seq<ButtonView> {
    b.map_values(|x: Button| x@)
}

impl View for ResponseMeta {
    type V = ResponseMetaView;

    open spec fn view(&self) -> ResponseMetaView {
        ResponseMetaView {
            text: self.text@,
            tts: self.tts@,
            buttons: button_views(self.buttons@),
            end_session: self.end_session,
            card: match self.card {
                Some(c) => Some(c@),
                None => None,
            },
            commands: views(self.commands@),
        }
    }
}

impl View for Session {
    type V = SessionView;

    open spec fn view(&self) -> SessionView {
        SessionView {
            session_id: self.session_id@,
            user_id: self.user_id@,
            message_id: self.message_id,
        }
    }
}

impl View for Response {
    type V = ResponseView;

    open spec fn view(&self) -> ResponseView {
        ResponseView { response: self.response@, session: self.session@, version: self.version@ }
    }
}

impl View for ResponseBuilder {
    type V = ResponseBuilderView;

    closed spec fn view(&self) -> ResponseBuilderView {
        ResponseBuilderView {
            response_meta: self.response_meta@,
            session: match self.session {
                Some(s) => Some(s@),
                None => None,
            },
            version: self.version@,
        }
    }
}

/// The reply body that carries nothing and keeps the conversation open.
pub open spec fn default_meta() -> ResponseMetaView {
    ResponseMetaView {
        text: MetaTextView::Array(Seq::empty()),
        tts: Seq::empty(),
        buttons: Seq::empty(),
        end_session: false,
        card: None,
        commands: Seq::empty(),
    }
}

/// The reply body for a failure: its text, and the end of the conversation.
pub open spec fn error_meta(text: Seq<char>) -> ResponseMetaView {
    ResponseMetaView { text: MetaTextView::String(text), end_session: true, ..default_meta() }
}

/// The text that a JSON value gives a reply: the strings of an array, a
/// string itself, or no line at all.
pub open spec fn meta_text_from(v: JsonView) -> MetaTextView {
    match v {
        JsonView::Array(a) => MetaTextView::Array(strings_of(a)),
        JsonView::String(s) => MetaTextView::String(s),
        _ => MetaTextView::Array(Seq::empty()),
    }
}

/// A button read from JSON: an object with a non-empty string `title` and a
/// `payload`.
pub open spec fn button_from(v: JsonView) -> Result<ButtonView, Seq<char>> {
    match v {
        JsonView::Object(_) => {
            match (v.get_str("title"@), v.get("payload"@)) {
                (Some(title), Some(payload)) => if title.len() > 0 {
                    Ok(ButtonView { title, payload })
                } else {
                    Err("Передан неправильный объект"@)
                },
                _ => Err("Передан неправильный объект"@),
            }
        },
        _ => Err("Значение не является объектом"@),
    }
}

/// The buttons that can be read from `items`, in order; the others are
/// skipped.
pub open spec fn buttons_from(items: Seq<JsonView>) -> Seq<ButtonView>
    decreases items.len(),
{
    if items.len() == 0 {
        Seq::empty()
    } else {
        let rest = buttons_from(items.drop_last());
        match button_from(items.last()) {
            Ok(b) => rest.push(b),
            Err(_) => rest,
        }
    }
}

/// The reply body that a game's JSON answer describes.
pub open spec fn meta_from(v: JsonView) -> ResponseMetaView {
    match v {
        JsonView::Object(_) => ResponseMetaView {
            text: match v.get("text"@) {
                Some(t) => meta_text_from(t),
                None => MetaTextView::Array(Seq::empty()),
            },
            tts: match v.get_str("tts"@) {
                Some(s) => s,
                None => Seq::empty(),
            },
            buttons: match v.get("buttons"@) {
                Some(JsonView::Array(a)) => buttons_from(a),
                _ => Seq::empty(),
            },
            end_session: match v.get("end_session"@) {
                Some(JsonView::Bool(b)) => b,
                _ => false,
            },
            ..default_meta()
        },
        _ => default_meta(),
    }
}

/// A button written as JSON.
pub open spec fn button_json(b: ButtonView) -> JsonView {
    JsonView::Object(seq![("title"@, JsonView::String(b.title)), ("payload"@, b.payload)])
}

pub open spec fn button_result_view(r: Result<Button, String>) -> Result<ButtonView, Seq<char>> {
    match r {
        Ok(b) => Ok(b@),
        Err(e) => Err(e@),
    }
}

impl Default for ResponseMeta {
    fn default() -> (r: ResponseMeta)
        ensures
            r@ == default_meta(),
    {
        let lines: Vec<String> = Vec::new();
        assert(string_views(lines@) =~= Seq::<Seq<char>>::empty());
        let r = ResponseMeta {
            text: ResponseMetaText::Array(lines),
            tts: String::new(),
            buttons: Vec::new(),
            end_session: false,
            card: None,
            commands: Vec::new(),
        };
        assert(r@.buttons =~= Seq::<ButtonView>::empty());
        assert(r@.commands =~= Seq::<JsonView>::empty());
        r
    }
}

impl ResponseMetaText {
    /// The text that `value` gives a reply.
    pub fn from(value: JsonValue) -> (r: ResponseMetaText)
        ensures
            r@ == meta_text_from(value@),
    {
        broadcast use group_json_view;
        if let Some(array) = value.as_array() {
            ResponseMetaText::Array(string_items(array))
        } else if let Some(string) = value.as_str() {
            ResponseMetaText::String(string.clone())
        } else {
            let empty: Vec<String> = Vec::new();
            assert(string_views(empty@) =~= Seq::<Seq<char>>::empty());
            ResponseMetaText::Array(empty)
        }
    }
}

impl Button {
    /// Reads a button from `value`.
    pub fn try_from(value: JsonValue) -> (r: Result<Button, String>)
        ensures
            button_result_view(r) == button_from(value@),
    {
        broadcast use group_json_view;
        match &value {
            JsonValue::Object(_) => {
                let title = match value.get("title") {
                    Some(t) => match t.as_str() {
                        Some(s) => if !s.as_str().is_empty() {
                            Some(s.clone())
                        } else {
                            None
                        },
                        None => None,
                    },
                    None => None,
                };
                let payload = value.get("payload");
                match (title, payload) {
                    (Some(title), Some(payload)) => Ok(Button { title, payload: payload.deep_clone() }),
                    _ => Err("Передан неправильный объект".to_string()),
                }
            },
            _ => Err("Значение не является объектом".to_string()),
        }
    }
}

impl JsonValue {
    /// The button written as JSON.
    pub fn from(b: Button) -> (r: JsonValue)
        ensures
            r@ == button_json(b@),
    {
        broadcast use group_json_view;
        let ghost bv = b@;
        let mut m: Vec<(String, JsonValue)> = Vec::new();
        m.push(("title".to_string(), JsonValue::String(b.title)));
        m.push(("payload".to_string(), b.payload));
        let r = JsonValue::Object(m);
        assert(crate::json::member_views(m@) =~= seq![("title"@, JsonView::String(bv.title)), ("payload"@, bv.payload)]);
        r
    }
}

/// The buttons that can be read from `items`, in order.
fn buttons_of(items: &Vec<JsonValue>) -> (r: Vec<Button>)
    ensures
        button_views(r@) == buttons_from(views(items@)),
{
    let mut out: Vec<Button> = Vec::new();
    let mut i: usize = 0;
    while i < items.len()
        invariant
            i <= items.len(),
            button_views(out@) == buttons_from(views(items@).take(i as int)),
        decreases items.len() - i,
    {
        assert(views(items@).take(i + 1).drop_last() =~= views(items@).take(i as int));
        assert(views(items@).take(i + 1).last() == items@[i as int]@);
        let ghost prev = out@;
        match Button::try_from(items[i].deep_clone()) {
            Ok(b) => {
                out.push(b);
                assert(button_views(out@) =~= button_views(prev).push(b@));
            },
            Err(_) => {},
        }
        i = i + 1;
    }
    assert(views(items@).take(items.len() as int) =~= views(items@));
    out
}

impl ResponseMeta {
    /// The reply body that a game's JSON answer describes: its `text`, `tts`,
    /// the readable `buttons` and `end_session`, each where present and of
    /// the right kind.
    pub fn from(value: JsonValue) -> (r: ResponseMeta)
        ensures
            r@ == meta_from(value@),
    {
        let mut result = ResponseMeta::default();
        match &value {
            JsonValue::Object(_) => {
                result.text = match value.get("text") {
                    Some(t) => ResponseMetaText::from(t.deep_clone()),
                    None => {
                        let lines: Vec<String> = Vec::new();
                        assert(string_views(lines@) =~= Seq::<Seq<char>>::empty());
                        ResponseMetaText::Array(lines)
                    },
                };
                result.tts = match value.get("tts") {
                    Some(s) => match s.as_str() {
                        Some(s) => s.clone(),
                        None => String::new(),
                    },
                    None => String::new(),
                };
                result.buttons = match value.get("buttons") {
                    Some(b) => match b.as_array() {
                        Some(items) => buttons_of(items),
                        None => Vec::new(),
                    },
                    None => Vec::new(),
                };
                result.end_session = match value.get("end_session") {
                    Some(e) => match e.as_bool() {
                        Some(b) => b,
                        None => false,
                    },
                    None => false,
                };
                assert(result@.buttons =~= meta_from(value@).buttons);
            },
            _ => {},
        }
        result
    }
}

pub open spec fn response_result_view(r: Result<Response, String>) -> Result<ResponseView, Seq<char>> {
    match r {
        Ok(x) => Ok(x@),
        Err(e) => Err(e@),
    }
}

/// What `set_response` makes of a game's outcome.
pub open spec fn outcome_meta(response: Result<JsonView, Seq<char>>) -> ResponseMetaView {
    match response {
        Ok(meta) => meta_from(meta),
        Err(text) => error_meta(text),
    }
}

pub open spec fn outcome_view(r: Result<JsonValue, String>) -> Result<JsonView, Seq<char>> {
    match r {
        Ok(v) => Ok(v@),
        Err(e) => Err(e@),
    }
}

impl ResponseBuilder {
    pub fn new() -> (r: ResponseBuilder)
        ensures
            r@ == (ResponseBuilderView { response_meta: default_meta(), session: None, version: Seq::empty() }),
    {
        ResponseBuilder { response_meta: ResponseMeta::default(), session: None, version: String::new() }
    }

    /// Sets the reply body: the one a game's JSON answer describes, or, for a
    /// failure, its text and the end of the conversation.
    pub fn set_response(self, response: Result<JsonValue, String>) -> (r: ResponseBuilder)
        ensures
            r@ == (ResponseBuilderView { response_meta: outcome_meta(outcome_view(response)), ..self@ }),
    {
        let mut b = self;
        b.response_meta = match response {
            Ok(meta) => ResponseMeta::from(meta),
            Err(error_text) => {
                let mut m = ResponseMeta::default();
                m.text = ResponseMetaText::String(error_text);
                m.end_session = true;
                m
            },
        };
        b
    }

    pub fn set_session(self, session_id: String, user_id: String, message_id: i32) -> (r: ResponseBuilder)
        ensures
            r@ == (ResponseBuilderView {
                session: Some(SessionView { session_id: session_id@, user_id: user_id@, message_id }),
                ..self@
            }),
    {
        let mut b = self;
        b.session = Some(Session { session_id, user_id, message_id });
        b
    }

    pub fn set_version(self, version: String) -> (r: ResponseBuilder)
        ensures
            r@ == (ResponseBuilderView { version: version@, ..self@ }),
    {
        let mut b = self;
        b.version = version;
        b
    }

    /// The response, where a session is set and the version is not empty.
    pub fn build(self) -> (r: Result<Response, String>)
        ensures
            response_result_view(r) == (if self@.session is None {
                Err("Не указана сессия"@)
            } else if self@.version.len() == 0 {
                Err("Не указана версия"@)
            } else {
                Ok(ResponseView {
                    response: self@.response_meta,
                    session: self@.session->0,
                    version: self@.version,
                })
            }),
    {
        if self.session.is_none() {
            return Err("Не указана сессия".to_string());
        }
        if self.version.as_str().is_empty() {
            return Err("Не указана версия".to_string());
        }
        match self.session {
            Some(session) => Ok(Response { response: self.response_meta, session, version: self.version }),
            None => Err("Не указана сессия".to_string()),
        }
    }
}

/// The member names of a reply are distinct.
pub proof fn lemma_reply_keys_distinct()
    ensures
        "text"@ != "tts"@,
        "text"@ != "buttons"@,
        "text"@ != "end_session"@,
        "tts"@ != "buttons"@,
        "tts"@ != "end_session"@,
        "buttons"@ != "end_session"@,
        "title"@ != "payload"@,
{
    reveal_strlit("text");
    reveal_strlit("tts");
    reveal_strlit("buttons");
    reveal_strlit("end_session");
    reveal_strlit("title");
    reveal_strlit("payload");
    assert("text"@.len() != "tts"@.len());
    assert("text"@.len() != "buttons"@.len());
    assert("text"@.len() != "end_session"@.len());
    assert("tts"@.len() != "buttons"@.len());
    assert("tts"@.len() != "end_session"@.len());
    assert("buttons"@.len() != "end_session"@.len());
    assert("title"@.len() != "payload"@.len());
}

/// A button written as JSON reads back as the same button, where its title
/// is not empty; with an empty title it is refused.
pub proof fn lemma_button_round_trip(b: ButtonView)
    ensures
        b.title.len() > 0 ==> button_from(button_json(b)) == Ok::<ButtonView, Seq<char>>(b),
        b.title.len() == 0 ==> button_from(button_json(b)) == Err::<ButtonView, Seq<char>>(
            "Передан неправильный объект"@,
        ),
{
    lemma_reply_keys_distinct();
    let members = seq![("title"@, JsonView::String(b.title)), ("payload"@, b.payload)];
    assert(members.drop_last() =~= seq![("title"@, JsonView::String(b.title))]);
    assert(members.drop_last().drop_last() =~= Seq::<(Seq<char>, JsonView)>::empty());
    assert(crate::json::member_get(members, "payload"@) == Some(b.payload));
    assert(crate::json::member_get(members.drop_last(), "title"@) == Some(JsonView::String(b.title)));
    assert(crate::json::member_get(members, "title"@) == Some(JsonView::String(b.title)));
}

pub open spec fn buttons_json(bs: Seq<ButtonView>) -> Seq<JsonView> {
    bs.map_values(|b: ButtonView| button_json(b))
}

/// Buttons written as JSON read back as the same buttons, where none has an
/// empty title.
pub proof fn lemma_buttons_read_back(bs: Seq<ButtonView>)
    requires
        forall|i: int| 0 <= i < bs.len() ==> (#[trigger] bs[i]).title.len() > 0,
    ensures
        buttons_from(buttons_json(bs)) == bs,
    decreases bs.len(),
{
    if bs.len() > 0 {
        lemma_buttons_read_back(bs.drop_last());
        lemma_button_round_trip(bs.last());
        assert(buttons_json(bs).drop_last() =~= buttons_json(bs.drop_last()));
        assert(bs.drop_last().push(bs.last()) =~= bs);
    } else {
        assert(buttons_json(bs) =~= Seq::<JsonView>::empty());
    }
}

/// A refused request or a failed game is answered with the failure's text,
/// and the session ends.
pub proof fn lemma_failure_ends_session(text: Seq<char>)
    ensures
        outcome_meta(Err(text)).end_session,
        outcome_meta(Err(text)).text == MetaTextView::String(text),
        outcome_meta(Err(text)).buttons.len() == 0,
{
}

/// A button is read from any object with a non-empty string `title` and a
/// `payload`, whatever other members it has; an object without them is
/// refused as malformed, and a value that is no object as no object.
pub proof fn lemma_button_reads_title_and_payload(v: JsonView, members: Seq<(Seq<char>, JsonView)>, title: Seq<char>, payload: JsonView)
    ensures
        (v is Object && v.get("title"@) == Some(JsonView::String(title)) && title.len() > 0 && v.get(
            "payload"@,
        ) == Some(payload)) ==> button_from(v) == Ok::<ButtonView, Seq<char>>(ButtonView { title, payload }),
        title.len() > 0 ==> button_from(
            JsonView::Object(members.push(("title"@, JsonView::String(title))).push(("payload"@, payload))),
        ) == Ok::<ButtonView, Seq<char>>(ButtonView { title, payload }),
        (v is Object && (v.get("payload"@) is None || !(v.get("title"@) matches Some(JsonView::String(t)) && t.len()
            > 0))) ==> button_from(v) == Err::<ButtonView, Seq<char>>("Передан неправильный объект"@),
        !(v is Object) ==> button_from(v) == Err::<ButtonView, Seq<char>>("Значение не является объектом"@),
{
    lemma_reply_keys_distinct();
    let inner = members.push(("title"@, JsonView::String(title)));
    crate::json::lemma_get_members(inner, "payload"@, payload, "title"@);
    crate::json::lemma_get_members(members, "title"@, JsonView::String(title), "payload"@);
}

/// The buttons read from `items` are what `filter_map` keeps of them when it
/// keeps each item that reads as a button: all of them, in order.
pub proof fn lemma_buttons_are_the_readable_items(items: Seq<JsonView>)
    ensures
        buttons_from(items) == items.filter_map(
            |x: JsonView|
                match button_from(x) {
                    Ok(b) => Some(b),
                    Err(_) => None,
                },
        ),
    decreases items.len(),
{
    if items.len() > 0 {
        lemma_buttons_are_the_readable_items(items.drop_last());
        match button_from(items.last()) {
            Ok(b) => {
                assert(buttons_from(items.drop_last()).push(b) =~= buttons_from(items.drop_last()) + seq![b]);
            },
            Err(_) => {},
        }
    }
}

/// A game's answer is read member by member, whatever other members it has:
/// `end_session` where it is a boolean, else the session goes on; `tts`
/// where it is a string, else nothing is said; `text` as a string, or as the
/// strings of an array, else no line; `buttons` as the readable buttons of an
/// array, else none. No card and no commands are ever read, and a value that
/// is no object gives the empty reply.
pub proof fn lemma_meta_reads_members(v: JsonView, b: bool, t: Seq<char>, items: Seq<JsonView>)
    ensures
        meta_from(v).card is None,
        meta_from(v).commands.len() == 0,
        !(v is Object) ==> meta_from(v) == default_meta(),
        v is Object && v.get("end_session"@) == Some(JsonView::Bool(b)) ==> meta_from(v).end_session == b,
        v is Object && !(v.get("end_session"@) matches Some(JsonView::Bool(_))) ==> !meta_from(v).end_session,
        v is Object && v.get("tts"@) == Some(JsonView::String(t)) ==> meta_from(v).tts == t,
        v is Object && !(v.get("tts"@) matches Some(JsonView::String(_))) ==> meta_from(v).tts.len() == 0,
        v is Object && v.get("text"@) == Some(JsonView::String(t)) ==> meta_from(v).text == MetaTextView::String(t),
        v is Object && v.get("text"@) == Some(JsonView::Array(items)) ==> meta_from(v).text == MetaTextView::Array(
            items.filter_map(|x: JsonView| x.str_of()),
        ),
        v is Object && !(v.get("text"@) matches Some(JsonView::String(_))) && !(v.get("text"@) matches Some(
            JsonView::Array(_),
        )) ==> meta_from(v).text == MetaTextView::Array(Seq::empty()),
        v is Object && v.get("buttons"@) == Some(JsonView::Array(items)) ==> meta_from(v).buttons == items.filter_map(
            |x: JsonView|
                match button_from(x) {
                    Ok(b) => Some(b),
                    Err(_) => None,
                },
        ),
        v is Object && !(v.get("buttons"@) matches Some(JsonView::Array(_))) ==> meta_from(v).buttons.len() == 0,
{
    crate::json::lemma_strings_of_keeps_every_string(items);
    lemma_buttons_are_the_readable_items(items);
}

/// The text read from a value: every string of an array, in order; a
/// string itself; otherwise no line.
pub proof fn lemma_text_reads_every_string(v: JsonView, items: Seq<JsonView>, t: Seq<char>)
    ensures
        v == JsonView::Array(items) ==> meta_text_from(v) == MetaTextView::Array(
            items.filter_map(|x: JsonView| x.str_of()),
        ),
        v == JsonView::String(t) ==> meta_text_from(v) == MetaTextView::String(t),
        !(v is Array) && !(v is String) ==> meta_text_from(v) == MetaTextView::Array(Seq::empty()),
{
    crate::json::lemma_strings_of_keeps_every_string(items);
}

} // verus!
