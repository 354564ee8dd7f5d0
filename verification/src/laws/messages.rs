//! Messages and events.

use vstd::prelude::*;

use crate::ipc::{
    send_to_deno, send_to_host, EventListen, IpcMessage, ListenAction, ListenEvent,
    Listening, SentToDenoMessage, SentToWindowMessage,
};

verus! {

/// A message to a window reaches the host as such, and unchanged.
pub proof fn law_message_to_a_window(args: SentToWindowMessage, r: IpcMessage)
    requires
        call_ensures(send_to_host, (args,), r),
    ensures
        r matches IpcMessage::SentToWindow(sent) && sent == args,
{
}

/// A message to another script reaches the host as such, and unchanged.
pub proof fn law_message_to_a_script(args: SentToDenoMessage, r: IpcMessage)
    requires
        call_ensures(send_to_deno, (args,), r),
    ensures
        r matches IpcMessage::SentToDeno(sent) && sent == args,
{
}

/// Waiting starts with a registration for the event, under an identifier of the
/// form of a random one.
pub proof fn law_listener_is_registered<V>(
    event: EventListen,
    r: (Listening<V>, ListenAction<V>),
)
    requires
        call_ensures(Listening::<V>::start, (event,), r),
    ensures
        r.0.name == event.name,
        r.0.stage is Registering,
        r.0.heard is None,
        r.1 == ListenAction::<V>::Register(event.name, r.0.id),
        (r.0.id / 0x1000_0000_0000_0000_0000u128) % 16 == 4,
        (r.0.id / 0x4000_0000_0000_0000u128) % 4 == 2,
{
}

/// Waiting can start under any identifier, and the registration bears it.
pub proof fn law_listener_bears_its_identifier<V>(
    event: EventListen,
    id: u128,
    r: (Listening<V>, ListenAction<V>),
)
    requires
        call_ensures(Listening::<V>::start_as, (event, id), r),
    ensures
        r.0.name == event.name,
        r.0.id == id,
        r.0.stage is Registering,
        r.0.heard is None,
        r.1 == ListenAction::<V>::Register(event.name, id),
{
}

/// A listener that was registered waits; one that heard something, or will hear
/// nothing any more, is taken back under the name and identifier that it was
/// registered with; then the script is told what was heard, and nothing else.
/// Name and identifier never change.
pub proof fn law_listener_goes_on<V>(
    listening: &mut Listening<V>,
    event: ListenEvent<V>,
    r: ListenAction<V>,
)
    requires
        call_ensures(Listening::<V>::step, (listening, event), r),
    ensures
        final(listening).name == old(listening).name,
        final(listening).id == old(listening).id,
        match event {
            ListenEvent::Registered => {
                &&& r is Receive
                &&& final(listening).stage is Waiting
                &&& final(listening).heard == old(listening).heard
            },
            ListenEvent::Received(heard) => {
                &&& r == ListenAction::<V>::Remove(old(listening).name, old(listening).id)
                &&& final(listening).stage is Removing
                &&& final(listening).heard == heard
            },
            ListenEvent::Removed => {
                &&& r == ListenAction::<V>::Respond(old(listening).heard)
                &&& final(listening).stage is Answered
                &&& final(listening).heard is None
            },
        },
{
}

/// Each stage waits for one kind of event, and the last for none.
pub proof fn law_stages<V>(listening: Listening<V>, event: ListenEvent<V>)
    ensures
        listening.awaits(event) <==> {
            ||| listening.stage is Registering && event is Registered
            ||| listening.stage is Waiting && event is Received
            ||| listening.stage is Removing && event is Removed
        },
{
}

} // verus!
