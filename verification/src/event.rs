//! The event queue, and the handlers that events are routed to.
//!
//! The queue is owned by the one thread that runs the event loop. A thread
//! without a queue cannot send: its event is dropped and reported.

use std::collections::VecDeque;
use vstd::prelude::*;

verus! {

/// Names a widget.
#[derive(Clone, Copy, Debug, PartialEq, Eq, Hash, Structural)]
pub struct WidgetId(pub usize);

/// Defines the different targets that events can be delivered to. An event is
/// sent to all handlers that match both the target and the type of the event.
#[derive(Clone, Copy, Debug, PartialEq, Eq, Hash, Structural)]
pub enum Target {
    /// Sends an event to a specific widget.
    Widget(WidgetId),
    /// Sends an event to the first child of a widget.
    Child(WidgetId),
    /// Sends an event to every descendant of a widget.
    SubTree(WidgetId),
    /// Sends an event to a widget and then to its ancestors, until a handler
    /// marks the event as handled.
    BubbleUp(WidgetId),
    /// Sends an event to the handlers registered for the whole application.
    Ui,
}

/// An event as it waits in the queue: where it goes, the tag of its type, and
/// what it carries.
pub struct Event<P> {
    pub address: Target,
    pub type_tag: u64,
    pub data: P,
}

/// Events in the order in which they were pushed.
pub struct Queue<P> {
    queue: VecDeque<Event<P>>,
    window_attached: bool,
}

/// What became of an event that was sent.
#[derive(Clone, Copy, Debug, PartialEq, Eq, Structural)]
pub enum Sent {
    /// The event waits in the queue; `wake` says whether the event loop has
    /// to be woken up.
    Queued { wake: bool },
    /// The sender is not the thread that owns the queue: the event was
    /// dropped.
    OffThread,
}

impl<P> View for Queue<P> {
    type V = Seq<Event<P>>;

    closed spec fn view(&self) -> Seq<Event<P>> {
        self.queue@
    }
}

impl<P> Queue<P> {
    /// Whether a window is attached, whose event loop a push wakes up.
    pub closed spec fn has_window(&self) -> bool {
        self.window_attached
    }

    /// An empty queue without a window.
    pub fn new() -> (q: Self)
        ensures
            q@.len() == 0,
            !q.has_window(),
    {
        Queue { queue: VecDeque::new(), window_attached: false }
    }

    /// Attaches the window whose event loop is woken up by every push.
    pub fn set_window(&mut self)
        ensures
            final(self)@ == old(self)@,
            final(self).has_window(),
    {
        self.window_attached = true;
    }

    /// Pushes a new event on the queue. The result says whether the window
    /// has to be woken up: whether one is attached.
    pub fn push(&mut self, address: Target, type_tag: u64, data: P) -> (wake: bool)
        ensures
            final(self)@ == old(self)@.push((Event { address, type_tag, data })),
            final(self).has_window() == old(self).has_window(),
            wake == old(self).has_window(),
    {
        self.queue.push_back(Event { address, type_tag, data });
        self.window_attached
    }

    /// Whether no event waits.
    pub fn is_empty(&self) -> (empty: bool)
        ensures
            empty == (self@.len() == 0),
    {
        self.queue.len() == 0
    }

    /// Takes the event that has waited longest off the queue.
    pub fn next(&mut self) -> (event: Event<P>)
        requires
            old(self)@.len() > 0,
        ensures
            event == old(self)@[0],
            final(self)@ == old(self)@.skip(1),
            final(self).has_window() == old(self).has_window(),
    {
        let front = self.queue.pop_front();
        proof {
            assert(self.queue@ =~= old(self).queue@.skip(1));
        }
        front.unwrap()
    }
}

/// The queue of a thread: the first thread that asks owns the queue, and every
/// later one has none. `first_thread` says whether no thread has asked yet.
pub fn local_queue<P>(first_thread: &mut bool) -> (local: Option<Queue<P>>)
    ensures
        !*final(first_thread),
        local is Some == *old(first_thread),
        local is Some ==> local->0@.len() == 0 && !local->0.has_window(),
{
    if *first_thread {
        *first_thread = false;
        Some(Queue::new())
    } else {
        None
    }
}

/// Whether no event waits in the queue of this thread.
pub fn queue_is_empty<P>(local: &Option<Queue<P>>) -> (empty: bool)
    requires
        local is Some,
    ensures
        empty == (local->0@.len() == 0),
{
    match local {
        Some(queue) => queue.is_empty(),
        None => true,
    }
}

/// Takes the event that has waited longest off the queue of this thread.
pub fn queue_next<P>(local: &mut Option<Queue<P>>) -> (event: Event<P>)
    requires
        (*old(local)) is Some,
        (*old(local))->0@.len() > 0,
    ensures
        (*final(local)) is Some,
        event == (*old(local))->0@[0],
        (*final(local))->0@ == (*old(local))->0@.skip(1),
        (*final(local))->0.has_window() == (*old(local))->0.has_window(),
{
    let mut queue = local.take().unwrap();
    let event = queue.next();
    *local = Some(queue);
    event
}

/// Attaches the window to the queue of this thread.
pub fn queue_set_window<P>(local: &mut Option<Queue<P>>)
    requires
        (*old(local)) is Some,
    ensures
        (*final(local)) is Some,
        (*final(local))->0@ == (*old(local))->0@,
        (*final(local))->0.has_window(),
{
    let mut queue = local.take().unwrap();
    queue.set_window();
    *local = Some(queue);
}

/// Sends an event from this thread. With a queue the event is pushed; without
/// one it is dropped, and nothing changes.
pub fn event<P>(local: &mut Option<Queue<P>>, address: Target, type_tag: u64, data: P) -> (sent:
    Sent)
    ensures
        (*old(local)) is None ==> sent == Sent::OffThread && (*final(local)) is None,
        (*old(local)) is Some ==> {
            &&& (*final(local)) is Some
            &&& (*final(local))->0@ == (*old(local))->0@.push((Event { address, type_tag, data }))
            &&& (*final(local))->0.has_window() == (*old(local))->0.has_window()
            &&& sent == (Sent::Queued { wake: (*old(local))->0.has_window() })
        },
{
    match local.take() {
        Some(queue) => {
            let mut queue = queue;
            let wake = queue.push(address, type_tag, data);
            *local = Some(queue);
            Sent::Queued { wake }
        },
        None => Sent::OffThread,
    }
}

/// The queue after the first `n` of `events` were pushed on an empty queue.
pub open spec fn after_pushes<P>(events: Seq<Event<P>>, n: int) -> Seq<Event<P>>
    decreases n,
{
    if n <= 0 {
        Seq::empty()
    } else {
        after_pushes(events, n - 1).push(events[n - 1])
    }
}

/// The queue after `k` events were taken off `queue`.
pub open spec fn after_pops<P>(queue: Seq<Event<P>>, k: int) -> Seq<Event<P>>
    decreases k,
{
    if k <= 0 {
        queue
    } else {
        after_pops(queue, k - 1).skip(1)
    }
}

/// Events leave the queue in the order in which they were pushed: after `n`
/// events were pushed on an empty queue and `k` of them were taken off, the
/// next one is the event that was pushed as number `k`, and the queue is empty
/// if and only if all `n` were taken off.
pub proof fn lemma_queue_is_fifo<P>(events: Seq<Event<P>>, n: int, k: int)
    requires
        0 <= k <= n <= events.len(),
    ensures
        after_pops(after_pushes(events, n), k).len() == n - k,
        k < n ==> after_pops(after_pushes(events, n), k)[0] == events[k],
        after_pops(after_pushes(events, n), k).len() == 0 <==> k == n,
{
    lemma_pushes(events, n);
    lemma_pops(events.take(n), k);
}

proof fn lemma_pushes<P>(events: Seq<Event<P>>, n: int)
    requires
        0 <= n <= events.len(),
    ensures
        after_pushes(events, n) == events.take(n),
    decreases n,
{
    if n > 0 {
        lemma_pushes(events, n - 1);
        assert(events.take(n - 1).push(events[n - 1]) =~= events.take(n));
    } else {
        assert(events.take(0) =~= Seq::<Event<P>>::empty());
    }
}

proof fn lemma_pops<P>(queue: Seq<Event<P>>, k: int)
    requires
        0 <= k <= queue.len(),
    ensures
        after_pops(queue, k) == queue.skip(k),
    decreases k,
{
    if k > 0 {
        lemma_pops(queue, k - 1);
        assert(queue.skip(k - 1).skip(1) =~= queue.skip(k));
    } else {
        assert(queue.skip(0) =~= queue);
    }
}

} // verus!
