//! Waking the operations that wait for a channel.
//!
//! Whoever has to wait listens to an event, and whoever changes the channel notifies the event.
//! Which listener a notification reaches, and when, is up to the [`event_listener`] crate; what
//! this crate asks of it, and in which order, is kept track of.
use event_listener::{Event, EventListener};
use vstd::prelude::*;

verus! {

/// Trusted: the type `event_listener::Event`, of which nothing is known but what the functions
/// below say.
#[verifier::external_type_specification]
#[verifier::external_body]
pub struct ExEvent(event_listener::Event);

/// Trusted: the type `event_listener::EventListener`, of which nothing is known.
#[verifier::external_type_specification]
#[verifier::external_body]
pub struct ExEventListener(event_listener::EventListener);

/// What can be asked of an event.
pub enum Signal {
    /// A new listener.
    Listen,
    /// That so many listeners are notified, unless as many are already.
    Notify(usize),
}

/// What has been asked of an event since it was made, in that order.
pub uninterp spec fn asked(event: Event) -> Seq<Signal>;

/// What `event_listener::EventListener::listens_to` answers: whether it is this event whose
/// notifications reach the listener.
pub uninterp spec fn listens(listener: EventListener, event: Event) -> bool;

/// A new event.
///
/// Trusted: `event_listener::Event::new` makes an event that nothing has been asked of.
#[verifier::external_body]
fn new_event() -> (event: Event)
    ensures
        asked(event) == Seq::<Signal>::empty(),
{
    Event::new()
}

/// Notifies `n` listeners of an event.
///
/// Trusted: this asks `event_listener::Event::notify` for `n` notifications, and for nothing else.
/// Whoever listened to the event still does.
/// Which listeners get them rests on who listens at that moment, and is not stated. It panics if
/// the waker of a listener has panicked in an earlier notification.
#[verifier::external_body]
fn notify_event(event: &mut Event, n: usize)
    ensures
        asked(*final(event)) == asked(*old(event)).push(Signal::Notify(n)),
        forall|l: EventListener| #[trigger] listens(l, *old(event)) ==> listens(l, *final(event)),
{
    event.notify(n)
}

/// Starts to listen to an event.
///
/// Trusted: this asks `event_listener::Event::listen` for one listener, and for nothing else. The
/// listener listens to this event, and whoever listened to it before still does. When the listener
/// will be notified rests on what others do, and is not stated. It panics if the waker of another
/// listener has panicked in an earlier notification.
#[verifier::external_body]
fn listen_to_event(event: &mut Event) -> (listener: EventListener)
    ensures
        asked(*final(event)) == asked(*old(event)).push(Signal::Listen),
        listens(listener, *final(event)),
        forall|l: EventListener| #[trigger] listens(l, *old(event)) ==> listens(l, *final(event)),
{
    event.listen()
}

/// An event that operations wait for.
///
/// Its view is what has been asked of it so far.
#[derive(Debug)]
pub struct Ops {
    event: Event,
}

impl View for Ops {
    type V = Seq<Signal>;

    closed spec fn view(&self) -> Seq<Signal> {
        asked(self.event)
    }
}

impl Ops {
    /// The listener is one of this event.
    pub closed spec fn heard_by(self, listener: EventListener) -> bool {
        listens(listener, self.event)
    }

    /// Whoever listened to this event listens to `post` as well.
    pub open spec fn keeps_listeners(self, post: Ops) -> bool {
        forall|l: EventListener| #[trigger] self.heard_by(l) ==> post.heard_by(l)
    }

    /// An event that nobody waits for.
    pub fn new() -> (ops: Ops)
        ensures
            ops@ == Seq::<Signal>::empty(),
    {
        Ops { event: new_event() }
    }

    /// Notifies `n` of those who wait, or all if there are fewer.
    pub fn notify(&mut self, n: usize)
        ensures
            final(self)@ == old(self)@.push(Signal::Notify(n)),
            old(self).keeps_listeners(*final(self)),
    {
        notify_event(&mut self.event, n);
    }

    /// Starts to wait.
    pub fn listen(&mut self) -> (listener: EventListener)
        ensures
            final(self)@ == old(self)@.push(Signal::Listen),
            final(self).heard_by(listener),
            old(self).keeps_listeners(*final(self)),
    {
        listen_to_event(&mut self.event)
    }
}

} // verus!
