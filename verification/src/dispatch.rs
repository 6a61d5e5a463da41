//! Routing of events to the handlers that registered for them.
//!
//! A handler registers for one address and for the events of one type. The
//! registry hands out a number for each handler; whoever owns the handlers
//! keeps them under those numbers and calls them as the registry says.

use crate::event::{Target, WidgetId};
use vstd::prelude::*;

verus! {

/// Where a handler listens: at one widget, or for the whole application.
#[derive(Clone, Copy, Debug, PartialEq, Eq, Hash, Structural)]
pub enum Address {
    Widget(WidgetId),
    Ui,
}

/// One handler's interest: an address and the tag of one event type.
#[derive(Clone, Copy, Debug, PartialEq, Eq, Hash, Structural)]
pub struct Registration {
    pub address: Address,
    pub type_tag: u64,
}

/// The handlers in the order in which they registered. The number of a
/// handler is its place in that order.
pub struct Registry {
    pub entries: Vec<Registration>,
}

impl View for Registry {
    type V = Seq<Registration>;

    open spec fn view(&self) -> Seq<Registration> {
        self.entries@
    }
}

/// `handlers` holds the number of every handler that registered for the
/// address and the type, and of no other, in the order of registration.
pub open spec fn is_matching(
    entries: Seq<Registration>,
    address: Address,
    type_tag: u64,
    handlers: Seq<usize>,
) -> bool {
    &&& forall|j: int|
        0 <= j < handlers.len() ==> (#[trigger] handlers[j]) < entries.len() && entries[handlers[j] as int]
            == (Registration { address, type_tag })
    &&& forall|j: int, k: int| 0 <= j < k < handlers.len() ==> handlers[j] < handlers[k]
    &&& forall|i: int|
        0 <= i < entries.len() && #[trigger] entries[i] == (Registration { address, type_tag })
            ==> handlers.contains(i as usize)
}

impl Registry {
    /// A registry without handlers.
    pub fn new() -> (r: Self)
        ensures
            r@.len() == 0,
    {
        Registry { entries: Vec::new() }
    }

    /// Registers a handler for the events of one type at one address, behind
    /// all handlers that registered before, and returns its number.
    pub fn register(&mut self, address: Address, type_tag: u64) -> (handler: usize)
        ensures
            final(self)@ == old(self)@.push((Registration { address, type_tag })),
            handler == old(self)@.len(),
    {
        let handler: usize = self.entries.len();
        self.entries.push(Registration { address, type_tag });
        handler
    }

    /// The handlers that are called for an event of the given type at the
    /// given address: all that registered for both, in the order in which
    /// they registered.
    pub fn handlers_for(&self, address: Address, type_tag: u64) -> (handlers: Vec<usize>)
        ensures
            is_matching(self@, address, type_tag, handlers@),
    {
        let mut handlers: Vec<usize> = Vec::new();
        let mut i: usize = 0;
        while i < self.entries.len()
            invariant
                i <= self@.len(),
                is_matching(self@.take(i as int), address, type_tag, handlers@),
            decreases self@.len() - i,
        {
            let entry = self.entries[i];
            let ghost before = handlers@;
            if entry.address == address && entry.type_tag == type_tag {
                handlers.push(i);
                proof {
                    assert forall|k: int|
                        0 <= k < i + 1 && #[trigger] self@.take(i + 1)[k] == (Registration {
                            address,
                            type_tag,
                        }) implies handlers@.contains(k as usize) by {
                        if k < i {
                            assert(self@.take(i as int)[k] == self@.take(i + 1)[k]);
                            let j = choose|j: int| 0 <= j < before.len() && before[j] == k as usize;
                            assert(handlers@[j] == k as usize);
                        } else {
                            assert(handlers@[before.len() as int] == i);
                        }
                    }
                }
            } else {
                proof {
                    assert forall|k: int|
                        0 <= k < i + 1 && #[trigger] self@.take(i + 1)[k] == (Registration {
                            address,
                            type_tag,
                        }) implies handlers@.contains(k as usize) by {
                        assert(k < i);
                        assert(self@.take(i as int)[k] == self@.take(i + 1)[k]);
                    }
                }
            }
            i = i + 1;
        }
        proof {
            assert(self@.take(self@.len() as int) =~= self@);
        }
        handlers
    }
}

/// The address at which the delivery of an event starts, where the target
/// names it: a widget itself, or the application. The first child and the
/// descendants of a widget are known to the widget tree only.
pub fn first_address(target: Target) -> (address: Option<Address>)
    ensures
        address == match target {
            Target::Widget(id) => Some(Address::Widget(id)),
            Target::BubbleUp(id) => Some(Address::Widget(id)),
            Target::Ui => Some(Address::Ui),
            Target::Child(_) => None::<Address>,
            Target::SubTree(_) => None::<Address>,
        },
{
    match target {
        Target::Widget(id) => Some(Address::Widget(id)),
        Target::BubbleUp(id) => Some(Address::Widget(id)),
        Target::Ui => Some(Address::Ui),
        Target::Child(_) => None,
        Target::SubTree(_) => None,
    }
}

/// Where an event that bubbles up goes after the handlers of one widget were
/// called: to the parent of that widget, unless a handler marked the event as
/// handled or the widget has no parent.
pub fn bubble_up(handled: bool, parent: Option<WidgetId>) -> (next: Option<Address>)
    ensures
        next == match parent {
            Some(id) if !handled => Some(Address::Widget(id)),
            _ => None::<Address>,
        },
{
    match parent {
        Some(id) => {
            if handled {
                None
            } else {
                Some(Address::Widget(id))
            }
        },
        None => None,
    }
}

} // verus!
