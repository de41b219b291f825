use vstd::prelude::*;

use crate::json::{string_views, JsonValue};
use crate::session::games::GameMove;
use crate::session::messages::{GameMessage, Subscribe};
use crate::webhook::response::{
    outcome_meta, outcome_view, response_result_view, Response, ResponseBuilder, ResponseView,
    SessionView,
};
use crate::webhook::{nlu_tokens, Request};

verus! {

/// What becomes of a request: it starts a game, it is a move in the game of
/// its session, or it is refused with a text.
#[derive(Debug, PartialEq, Eq)]
pub enum Route {
    Subscribe,
    Move,
    Reject(String),
}

/// A new session that says `старт` starts a game; a request of a known
/// session is a move; anything else is refused.
pub fn route(is_new_session: bool, is_start_session: bool) -> (r: Route)
    ensures
        match r {
            Route::Subscribe => is_new_session && is_start_session,
            Route::Move => !is_new_session,
            Route::Reject(text) => is_new_session && !is_start_session && text@
                == "Неизвестная команда"@,
        },
{
    if is_new_session && is_start_session {
        Route::Subscribe
    } else if !is_new_session {
        Route::Move
    } else {
        Route::Reject("Неизвестная команда".to_string())
    }
}

/// Whether the user said `старт`.
pub fn is_start_session(request: &Request) -> (r: bool)
    ensures
        r == nlu_tokens(request.request@).contains("старт"@),
{
    let tokens = request.get_nlu();
    let start = "старт".to_string();
    let mut i: usize = 0;
    while i < tokens.len()
        invariant
            i <= tokens.len(),
            start@ == "старт"@,
            string_views(tokens@) == nlu_tokens(request.request@),
            forall|j: int| 0 <= j < i ==> tokens@[j]@ != "старт"@,
        decreases tokens.len() - i,
    {
        if tokens[i] == start {
            assert(string_views(tokens@)[i as int] == "старт"@);
            return true;
        }
        i = i + 1;
    }
    assert forall|j: int| 0 <= j < tokens.len() implies string_views(tokens@)[j] != "старт"@ by {
        assert(string_views(tokens@)[j] == tokens@[j]@);
    }
    false
}

/// The move that a request makes in the game of its session.
pub fn move_message(request: &Request) -> (r: GameMessage)
    ensures
        r matches GameMessage::Move(m) && m.session_id@ == request.session.session_id@ && m.data@
            == request.request@,
{
    GameMessage::Move(
        GameMove {
            session_id: request.session.session_id.clone(),
            data: request.request.deep_clone(),
        },
    )
}

/// The request to bind the session of `request` to the game that
/// `recipient` reaches.
pub fn subscription<R>(request: &Request, recipient: R) -> (r: Subscribe<R>)
    ensures
        r.session_id@ == request.session.session_id@,
        r.recipient == recipient,
{
    Subscribe { session_id: request.session.session_id.clone(), recipient }
}

/// The response to `request` that carries the game's outcome `response`;
/// refused where the request names no version.
pub fn reply(request: &Request, response: Result<JsonValue, String>) -> (r: Result<Response, String>)
    ensures
        response_result_view(r) == (if request.version@.len() == 0 {
            Err("Не указана версия"@)
        } else {
            Ok(ResponseView {
                response: outcome_meta(outcome_view(response)),
                session: SessionView {
                    session_id: request.session.session_id@,
                    user_id: request.session.user_id@,
                    message_id: request.session.message_id,
                },
                version: request.version@,
            })
        }),
{
    ResponseBuilder::new().set_response(response).set_session(
        request.session.session_id.clone(),
        request.session.user_id.clone(),
        request.session.message_id,
    ).set_version(request.version.clone()).build()
}

} // verus!
