//! Messages between scripts, windows and the host.

use serde_json::Value;
use uuid::Uuid;
use vstd::prelude::*;

use crate::calls::call;

verus! {

/// A JSON value, which is passed on as it is.
#[verifier::external_type_specification]
#[verifier::external_body]
pub struct ExValue(Value);

/// A message that leaves a script.
#[derive(Debug, PartialEq)]
pub enum IpcMessage {
    SentToWindow(SentToWindowMessage),
    SentToDeno(SentToDenoMessage),
}

/// A message to a window.
#[derive(Debug, PartialEq)]
pub struct SentToWindowMessage {
    /// The label of the window.
    pub id: String,
    pub event: String,
    pub content: Value,
}

/// A message to another script.
#[derive(Debug, PartialEq)]
pub struct SentToDenoMessage {
    /// The identifier of the script.
    pub id: String,
    pub event: String,
    pub content: Value,
}

/// What a script reaches the host through. Both parts belong to the runtime:
/// `S` takes messages, `M` keeps the listeners.
#[derive(Clone)]
pub struct IpcState<S, M> {
    pub sender: S,
    pub events_manager: M,
}

/// What the host is handed for a message to a window.
pub fn send_to_host(args: SentToWindowMessage) -> (r: IpcMessage)
    ensures
        r == IpcMessage::SentToWindow(args),
{
    IpcMessage::SentToWindow(args)
}

/// What the host is handed for a message to another script.
pub fn send_to_deno(args: SentToDenoMessage) -> (r: IpcMessage)
    ensures
        r == IpcMessage::SentToDeno(args),
{
    IpcMessage::SentToDeno(args)
}

/// A script's wish to hear of an event.
#[derive(Debug)]
pub struct EventListen {
    pub name: String,
}

/// Whether `id` has the form of a random identifier: of its bits, those that
/// tell version and variant are fixed.
pub open spec fn is_random_id(id: u128) -> bool {
    &&& (id / 0x1000_0000_0000_0000_0000u128) % 16 == 4
    &&& (id / 0x4000_0000_0000_0000u128) % 4 == 2
}

/// `Uuid::new_v4`: some identifier of the form of a random one. Which one, and
/// that it was not used before, is up to chance.
#[verifier::external_body]
pub(crate) fn new_id() -> (r: u128)
    ensures
        is_random_id(r),
{
    Uuid::new_v4().as_u128()
}

/// Whether `new_id` may return `id`.
pub closed spec fn drawn(id: u128) -> bool {
    call_ensures(new_id, (), id)
}

/// How far waiting for an event has come.
pub enum ListenStage {
    Registering,
    Waiting,
    Removing,
    Answered,
}

/// A script that waits for an event once.
pub struct Listening<V> {
    pub name: String,
    /// What the listener is known by.
    pub id: u128,
    pub stage: ListenStage,
    /// What the listener heard.
    pub heard: Option<V>,
}

/// What happened to a listener.
pub enum ListenEvent<V> {
    /// It was registered.
    Registered,
    /// It heard of the event, or, with `None`, will hear nothing any more.
    Received(Option<V>),
    /// Its registration was taken back.
    Removed,
}

/// What waiting for an event calls for next.
pub enum ListenAction<V> {
    /// Register a listener under this name and identifier.
    Register(String, u128),
    /// Wait until the listener hears something.
    Receive,
    /// Take back the registration under this name and identifier.
    Remove(String, u128),
    /// Tell the script what the listener heard.
    Respond(Option<V>),
}

impl<V> Listening<V> {
    /// Whether `event` is what this stage waits for.
    pub open spec fn awaits(self, event: ListenEvent<V>) -> bool {
        match self.stage {
            ListenStage::Registering => event is Registered,
            ListenStage::Waiting => event is Received,
            ListenStage::Removing => event is Removed,
            ListenStage::Answered => false,
        }
    }

    /// The listener after `event`.
    pub open spec fn after(self, event: ListenEvent<V>) -> Self {
        match event {
            ListenEvent::Registered => Listening { stage: ListenStage::Waiting, ..self },
            ListenEvent::Received(heard) => Listening {
                stage: ListenStage::Removing,
                heard,
                ..self
            },
            ListenEvent::Removed => Listening { stage: ListenStage::Answered, heard: None, ..self },
        }
    }

    /// What `event` calls for.
    pub open spec fn action(self, event: ListenEvent<V>) -> ListenAction<V> {
        match event {
            ListenEvent::Registered => ListenAction::Receive,
            ListenEvent::Received(_) => ListenAction::Remove(self.name, self.id),
            ListenEvent::Removed => ListenAction::Respond(self.heard),
        }
    }

    /// A listener that is about to be registered.
    pub open spec fn fresh(name: String, id: u128) -> Self {
        Listening { name, id, stage: ListenStage::Registering, heard: None }
    }

    /// Starts to wait for an event, under an identifier of its own.
    pub fn start(event: EventListen) -> (r: (Self, ListenAction<V>))
        ensures
            drawn(r.0.id),
            is_random_id(r.0.id),
            r.0 == Self::fresh(event.name, r.0.id),
            r.1 == ListenAction::<V>::Register(event.name, r.0.id),
    {
        Self::start_as(event, call(new_id))
    }

    /// Starts to wait for an event under a given identifier.
    pub fn start_as(event: EventListen, id: u128) -> (r: (Self, ListenAction<V>))
        ensures
            r.0 == Self::fresh(event.name, id),
            r.1 == ListenAction::<V>::Register(event.name, id),
    {
        let name = event.name.clone();
        (
            Listening { name: event.name, id, stage: ListenStage::Registering, heard: None },
            ListenAction::Register(name, id),
        )
    }

    /// What is to be done next. The listener that was registered is taken back
    /// before the script hears anything.
    pub fn step(&mut self, event: ListenEvent<V>) -> (r: ListenAction<V>)
        requires
            old(self).awaits(event),
        ensures
            r == old(self).action(event),
            *final(self) == old(self).after(event),
    {
        match event {
            ListenEvent::Registered => {
                self.stage = ListenStage::Waiting;
                ListenAction::Receive
            },
            ListenEvent::Received(heard) => {
                self.stage = ListenStage::Removing;
                self.heard = heard;
                ListenAction::Remove(self.name.clone(), self.id)
            },
            ListenEvent::Removed => {
                self.stage = ListenStage::Answered;
                ListenAction::Respond(self.heard.take())
            },
        }
    }
}

/// The listener that is taken back is the one that was registered, that happens
/// before the script hears anything, and what the script hears is what the
/// listener heard.
pub proof fn law_listener_is_taken_back<V>(name: String, id: u128, heard: Option<V>)
    ensures
        ({
            let registering = Listening::<V>::fresh(name, id);
            let waiting = registering.after(ListenEvent::Registered);
            let removing = waiting.after(ListenEvent::Received(heard));
            let answered = removing.after(ListenEvent::Removed);
            &&& registering.awaits(ListenEvent::Registered)
            &&& registering.action(ListenEvent::Registered) == ListenAction::<V>::Receive
            &&& waiting.awaits(ListenEvent::Received(heard))
            &&& waiting.action(ListenEvent::Received(heard)) == ListenAction::<V>::Remove(name, id)
            &&& removing.awaits(ListenEvent::Removed)
            &&& removing.action(ListenEvent::Removed) == ListenAction::<V>::Respond(heard)
            &&& forall|event: ListenEvent<V>| !#[trigger] answered.awaits(event)
        }),
{
}

/// A listener is known by what the generator of identifiers came to.
pub(crate) proof fn law_identifier_is_drawn<V>(
    event: EventListen,
    r: (Listening<V>, ListenAction<V>),
)
    requires
        call_ensures(Listening::<V>::start, (event,), r),
    ensures
        call_ensures(new_id, (), r.0.id),
{
}

} // verus!
