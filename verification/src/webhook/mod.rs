use vstd::prelude::*;

use crate::json::{
    lemma_strings_of_keeps_every_string, string_items, string_views, strings_of, JsonValue,
    JsonView,
};

pub mod response;

verus! {

/// A request of the voice platform to the skill.
pub struct Request {
    pub meta: JsonValue,
    pub request: JsonValue,
    pub session: Session,
    pub version: String,
}

/// The session a request belongs to, as the platform describes it.
pub struct Session {
    pub session_id: String,
    pub user_id: String,
    pub skill_id: String,
    pub new: bool,
    pub message_id: i32,
    pub user: Option<JsonValue>,
    pub application: JsonValue,
    pub auth_token: JsonValue,
}

/// The words the platform recognised in a request body: the strings of
/// `nlu.tokens`, or none where that path does not lead to an array.
pub open spec fn nlu_tokens(request: JsonView) -> Seq<Seq<char>> {
    match request.get("nlu"@) {
        Some(nlu) => match nlu.get("tokens"@) {
            Some(JsonView::Array(tokens)) => strings_of(tokens),
            _ => Seq::empty(),
        },
        None => Seq::empty(),
    }
}

impl Request {
    /// The words recognised in the request, in order.
    pub fn get_nlu(&self) -> (r: Vec<String>)
        ensures
            string_views(r@) == nlu_tokens(self.request@),
    {
        let none: Vec<String> = Vec::new();
        assert(string_views(none@) =~= Seq::<Seq<char>>::empty());
        match self.request.get("nlu") {
            Some(nlu) => match nlu.get("tokens") {
                Some(tokens) => match tokens.as_array() {
                    Some(items) => string_items(items),
                    None => none,
                },
                None => none,
            },
            None => none,
        }
    }
}

/// Every word of `nlu.tokens` is read, in order, and nothing else: the
/// words are what `filter_map` keeps of the tokens when it keeps the text of
/// each string, each string token is among them, and each of them is a
/// string token.
pub proof fn lemma_nlu_reads_every_token(request: JsonView, nlu: JsonView, tokens: Seq<JsonView>)
    requires
        request.get("nlu"@) == Some(nlu),
        nlu.get("tokens"@) == Some(JsonView::Array(tokens)),
    ensures
        nlu_tokens(request) == tokens.filter_map(|x: JsonView| x.str_of()),
        forall|i: int| 0 <= i < tokens.len() && (#[trigger] tokens[i]) is String ==> nlu_tokens(request).contains(
            tokens[i]->String_0,
        ),
        forall|j: int| 0 <= j < nlu_tokens(request).len() ==> tokens.contains(JsonView::String(#[trigger] nlu_tokens(request)[j])),
{
    lemma_strings_of_keeps_every_string(tokens);
}

/// Where the request has no `nlu`, or its `nlu` has no array `tokens`, no
/// word is read.
pub proof fn lemma_nlu_without_tokens(request: JsonView, nlu: JsonView)
    ensures
        request.get("nlu"@) is None ==> nlu_tokens(request).len() == 0,
        request.get("nlu"@) == Some(nlu) && !(nlu.get("tokens"@) matches Some(JsonView::Array(_)))
            ==> nlu_tokens(request).len() == 0,
{
}

} // verus!
