use vstd::hash_map::StringHashMap;
use vstd::prelude::*;

use crate::json::{JsonValue, JsonView};
use crate::webhook::response::{meta_from, outcome_view};

pub mod games;
pub mod messages;

use messages::{GameMessage, IsSubscribed, Subscribe};

verus! {

/// The sessions that are bound to a running game, each with the handle `R`
/// that reaches the game.
#[verifier::reject_recursive_types(R)]
pub struct SessionEvents<R> {
    subscribers: StringHashMap<R>,
}

impl<R> View for SessionEvents<R> {
    type V = Map<Seq<char>, R>;

    closed spec fn view(&self) -> Map<Seq<char>, R> {
        self.subscribers@
    }
}

/// How a message that was handed to a game came back: the game's answer, or
/// the text of the failure to deliver it.
pub type Delivery = Result<Result<JsonValue, String>, String>;

pub type DeliveryView = Result<Result<JsonView, Seq<char>>, Seq<char>>;

pub open spec fn delivery_view(d: Delivery) -> DeliveryView {
    match d {
        Ok(r) => Ok(outcome_view(r)),
        Err(e) => Err(e@),
    }
}

/// The session a message is for.
pub open spec fn message_session(msg: GameMessage) -> Seq<char> {
    match msg {
        GameMessage::Move(m) => m.session_id@,
        GameMessage::Stop(s) => s@,
        GameMessage::Started => Seq::empty(),
    }
}

/// What a delivery answers: the game's answer, or the failure to deliver.
pub open spec fn settled(d: DeliveryView) -> Result<JsonView, Seq<char>> {
    match d {
        Ok(r) => r,
        Err(e) => Err(e),
    }
}

/// Whether a delivery brought back an answer that ends the session.
pub open spec fn ends_session(d: DeliveryView) -> bool {
    d matches Ok(Ok(v)) && v.get("end_session"@) == Some(JsonView::Bool(true))
}

/// The sessions after a delivery to the game of session `id`.
pub open spec fn after_delivery<R>(m: Map<Seq<char>, R>, id: Seq<char>, d: DeliveryView) -> Map<Seq<char>, R> {
    if ends_session(d) {
        m.remove(id)
    } else {
        m
    }
}

/// The sessions after `id` was subscribed to the game that `r` reaches:
/// a session that was bound already is bound anew only where its game could
/// be told to stop.
pub open spec fn after_subscribe<R>(m: Map<Seq<char>, R>, id: Seq<char>, r: R, stop_delivered: bool) -> Map<Seq<char>, R> {
    if m.contains_key(id) && !stop_delivered {
        m
    } else {
        m.insert(id, r)
    }
}

impl<R> SessionEvents<R> {
    pub fn new() -> (r: SessionEvents<R>)
        ensures
            r@ == Map::<Seq<char>, R>::empty(),
    {
        SessionEvents { subscribers: StringHashMap::new() }
    }

    /// Whether the session is bound to a game.
    pub fn is_subscribed(&self, msg: &IsSubscribed) -> (r: bool)
        ensures
            r == self@.contains_key(msg.0@),
    {
        self.subscribers.contains_key(msg.0.as_str())
    }

    /// The session a message is for.
    pub fn session_of(msg: &GameMessage) -> (r: String)
        requires
            !(msg is Started),
        ensures
            r@ == message_session(*msg),
    {
        match msg {
            GameMessage::Move(m) => m.session_id.clone(),
            GameMessage::Stop(s) => s.clone(),
            GameMessage::Started => String::new(),
        }
    }

    /// The game to hand `msg` to, or the text of the failure where its
    /// session is bound to none.
    pub fn recipient_for(&self, msg: &GameMessage) -> (r: Result<&R, String>)
        requires
            !(msg is Started),
        ensures
            match r {
                Ok(rec) => self@.contains_key(message_session(*msg)) && *rec == self@[message_session(*msg)],
                Err(e) => !self@.contains_key(message_session(*msg)) && e@ == "Сессии с выбранным id не существует"@,
            },
    {
        let id = Self::session_of(msg);
        match self.subscribers.get(id.as_str()) {
            Some(rec) => Ok(rec),
            None => Err("Сессии с выбранным id не существует".to_string()),
        }
    }

    /// What a delivery answers.
    pub fn delivered(delivery: Delivery) -> (r: Result<JsonValue, String>)
        ensures
            outcome_view(r) == settled(delivery_view(delivery)),
    {
        match delivery {
            Ok(answer) => answer,
            Err(e) => Err(e),
        }
    }

    /// Settles a message that was handed to its game: the session is
    /// unbound where the game's answer ends it; the answer is passed on.
    pub fn settle(&mut self, msg: &GameMessage, delivery: Delivery) -> (r: Result<JsonValue, String>)
        requires
            !(msg is Started),
        ensures
            outcome_view(r) == settled(delivery_view(delivery)),
            final(self)@ == after_delivery(old(self)@, message_session(*msg), delivery_view(delivery)),
    {
        let should_delete = match &delivery {
            Ok(Ok(v)) => match v.get("end_session") {
                Some(e) => match e.as_bool() {
                    Some(b) => b,
                    None => false,
                },
                None => false,
            },
            _ => false,
        };
        if should_delete {
            let id = Self::session_of(msg);
            self.subscribers.remove(id.as_str());
        }
        Self::delivered(delivery)
    }

    /// The game that the session of `msg` is bound to now, which is to be
    /// told to stop before the session is bound anew.
    pub fn replaced(&self, msg: &Subscribe<R>) -> (r: Option<&R>)
        ensures
            match r {
                Some(rec) => self@.contains_key(msg.session_id@) && *rec == self@[msg.session_id@],
                None => !self@.contains_key(msg.session_id@),
            },
    {
        self.subscribers.get(msg.session_id.as_str())
    }

    /// The message that tells the game bound to the session of `msg` to stop.
    pub fn stop_message(msg: &Subscribe<R>) -> (r: GameMessage)
        ensures
            r matches GameMessage::Stop(s) && s@ == msg.session_id@,
    {
        GameMessage::Stop(msg.session_id.clone())
    }

    /// Binds the session of `msg` to its game, where it is bound to none yet
    /// or where the game it was bound to could be told to stop
    /// (`stop_delivered`).
    pub fn subscribe(&mut self, msg: Subscribe<R>, stop_delivered: bool)
        ensures
            final(self)@ == after_subscribe(old(self)@, msg.session_id@, msg.recipient, stop_delivered),
    {
        let bound = self.subscribers.contains_key(msg.session_id.as_str());
        if !bound || stop_delivered {
            self.subscribers.insert(msg.session_id, msg.recipient);
        }
    }
}

/// Subscribing binds the session to the new game, unless it was bound and
/// its game could not be told to stop; other sessions stay as they were.
pub proof fn lemma_subscribe_binds<R>(m: Map<Seq<char>, R>, id: Seq<char>, r: R, stop_delivered: bool)
    ensures
        (!m.contains_key(id) || stop_delivered) ==> after_subscribe(m, id, r, stop_delivered).contains_key(id)
            && after_subscribe(m, id, r, stop_delivered)[id] == r,
        (m.contains_key(id) && !stop_delivered) ==> after_subscribe(m, id, r, stop_delivered) == m,
        forall|k: Seq<char>|
            k != id ==> (#[trigger] after_subscribe(m, id, r, stop_delivered).contains_key(k)
                == m.contains_key(k) && (m.contains_key(k) ==> after_subscribe(
                m,
                id,
                r,
                stop_delivered,
            )[k] == m[k])),
{
}

/// A session stays bound until its game answers that it ends; then it is
/// bound no more, and the other sessions stay as they were.
pub proof fn lemma_delivery_unbinds<R>(m: Map<Seq<char>, R>, id: Seq<char>, d: DeliveryView)
    ensures
        ends_session(d) ==> !after_delivery(m, id, d).contains_key(id),
        !ends_session(d) ==> after_delivery(m, id, d) == m,
        forall|k: Seq<char>|
            k != id ==> (#[trigger] after_delivery(m, id, d).contains_key(k) == m.contains_key(k) && (
            m.contains_key(k) ==> after_delivery(m, id, d)[k] == m[k])),
{
}

/// A session is unbound exactly when the reply that the platform gets for
/// the game's answer says that the session ends.
pub proof fn lemma_unbinds_as_reply_says(v: JsonView)
    ensures
        ends_session(Ok(Ok(v))) == meta_from(v).end_session,
{
}

/// A change of the registry: a session subscribed to the game that
/// `recipient` reaches, or a message delivered to the game of a session.
pub enum RegistryStep<R> {
    Subscribe { id: Seq<char>, recipient: R, stop_delivered: bool },
    Deliver { id: Seq<char>, delivery: DeliveryView },
}

/// The sessions after one change, as `subscribe` and `settle` make it.
pub open spec fn registry_step<R>(m: Map<Seq<char>, R>, step: RegistryStep<R>) -> Map<Seq<char>, R> {
    match step {
        RegistryStep::Subscribe { id, recipient, stop_delivered } => after_subscribe(
            m,
            id,
            recipient,
            stop_delivered,
        ),
        RegistryStep::Deliver { id, delivery } => after_delivery(m, id, delivery),
    }
}

/// The sessions after the changes `steps`, in turn.
pub open spec fn registry_run<R>(m: Map<Seq<char>, R>, steps: Seq<RegistryStep<R>>) -> Map<Seq<char>, R>
    decreases steps.len(),
{
    if steps.len() == 0 {
        m
    } else {
        registry_step(registry_run(m, steps.drop_last()), steps.last())
    }
}

/// Whether a change subscribes session `id`.
pub open spec fn subscribes<R>(step: RegistryStep<R>, id: Seq<char>) -> bool {
    step matches RegistryStep::Subscribe { id: i, .. } && i == id
}

/// Whether a change is an answer of the game of session `id` that ends it.
pub open spec fn ends<R>(step: RegistryStep<R>, id: Seq<char>) -> bool {
    step matches RegistryStep::Deliver { id: i, delivery } && i == id && ends_session(delivery)
}

proof fn lemma_bound_from<R>(m: Map<Seq<char>, R>, steps: Seq<RegistryStep<R>>, id: Seq<char>, i: int, j: int)
    requires
        0 <= i < j <= steps.len(),
        subscribes(steps[i], id),
        forall|k: int| i < k < j ==> !ends(#[trigger] steps[k], id),
    ensures
        registry_run(m, steps.take(j)).contains_key(id),
    decreases j - i,
{
    let run = steps.take(j);
    assert(run.drop_last() =~= steps.take(j - 1));
    assert(run.last() == steps[j - 1]);
    if j - 1 > i {
        lemma_bound_from(m, steps, id, i, j - 1);
        assert(!ends(steps[j - 1], id));
    }
}

proof fn lemma_unbound_from<R>(m: Map<Seq<char>, R>, steps: Seq<RegistryStep<R>>, id: Seq<char>, i: int, j: int)
    requires
        0 <= i < j <= steps.len(),
        ends(steps[i], id),
        forall|k: int| i < k < j ==> !subscribes(#[trigger] steps[k], id),
    ensures
        !registry_run(m, steps.take(j)).contains_key(id),
    decreases j - i,
{
    let run = steps.take(j);
    assert(run.drop_last() =~= steps.take(j - 1));
    assert(run.last() == steps[j - 1]);
    if j - 1 > i {
        lemma_unbound_from(m, steps, id, i, j - 1);
        assert(!subscribes(steps[j - 1], id));
    }
}

/// Over any run of changes, a session is bound from its subscription
/// (`steps[i]`) until an answer of its game ends it, and after such an
/// answer it is bound to no game until it is subscribed again: here after
/// the first `j` changes.
pub proof fn lemma_session_bound_until_ended<R>(m: Map<Seq<char>, R>, steps: Seq<RegistryStep<R>>, id: Seq<char>)
    ensures
        forall|i: int, j: int|
            #![trigger steps[i], registry_run(m, steps.take(j))]
            0 <= i < j <= steps.len() && subscribes(steps[i], id) && (forall|k: int|
                i < k < j ==> !ends(#[trigger] steps[k], id)) ==> registry_run(
                m,
                steps.take(j),
            ).contains_key(id),
        forall|i: int, j: int|
            #![trigger steps[i], registry_run(m, steps.take(j))]
            0 <= i < j <= steps.len() && ends(steps[i], id) && (forall|k: int|
                i < k < j ==> !subscribes(#[trigger] steps[k], id)) ==> !registry_run(
                m,
                steps.take(j),
            ).contains_key(id),
{
    assert forall|i: int, j: int|
        #![trigger steps[i], registry_run(m, steps.take(j))]
        0 <= i < j <= steps.len() && subscribes(steps[i], id) && (forall|k: int|
            i < k < j ==> !ends(#[trigger] steps[k], id)) implies registry_run(
        m,
        steps.take(j),
    ).contains_key(id) by {
        lemma_bound_from(m, steps, id, i, j);
    }
    assert forall|i: int, j: int|
        #![trigger steps[i], registry_run(m, steps.take(j))]
        0 <= i < j <= steps.len() && ends(steps[i], id) && (forall|k: int|
            i < k < j ==> !subscribes(#[trigger] steps[k], id)) implies !registry_run(
        m,
        steps.take(j),
    ).contains_key(id) by {
        lemma_unbound_from(m, steps, id, i, j);
    }
}

} // verus!
