//! What an emitter is: the state behind its operations, and the operations as transitions of that state

use std::sync::Arc;

use crate::error::{EventError, EventResult};
use crate::listener::{Invocation, ListenerId, SyncEventListener};
use futures_cpupool::CpuPool;
use vstd::prelude::*;

verus! {

/// The listeners of one event.
#[verifier::ext_equal]
pub struct EventView<C> {
    /// The listeners in the order of their registration.
    pub listeners: Seq<Arc<SyncEventListener<C>>>,
    /// Whether a thread panicked while it held the lock on the event's listeners.
    pub poisoned: bool,
}

impl<C> EventView<C> {
    /// The `i`-th listener has the given id.
    pub open spec fn has_at(self, i: int, id: ListenerId) -> bool {
        0 <= i < self.listeners.len() && self.listeners[i].id == id
    }

    /// Some listener has the given id.
    pub open spec fn has(self, id: ListenerId) -> bool {
        exists|i: int| self.has_at(i, id)
    }

    /// The ids ascend strictly, so that an id can be found by bisection.
    pub open spec fn sorted(self) -> bool {
        forall|i: int, j: int|
            0 <= i < j < self.listeners.len() ==> self.listeners[i].id < self.listeners[j].id
    }

    /// The event without its `i`-th listener.
    pub open spec fn without(self, i: int) -> Self {
        EventView { listeners: self.listeners.remove(i), poisoned: self.poisoned }
    }
}

/// The state of an emitter.
#[verifier::ext_equal]
pub struct EmitterView<C> {
    /// The events that were ever listened for, each under its name. One that nobody listens for any more
    /// has no listeners left, but its lock remains.
    pub events: Map<Seq<char>, EventView<C>>,
    /// The id that the next listener will get.
    pub next_id: usize,
    /// Whether a thread panicked while it held the lock on the table of events.
    pub poisoned: bool,
    /// The thread pool that invocations are meant for.
    pub pool: CpuPool,
}

impl<C> EmitterView<C> {
    /// An emitter that nobody has listened to yet.
    pub open spec fn fresh(pool: CpuPool) -> Self {
        EmitterView { events: Map::empty(), next_id: 0, poisoned: false, pool }
    }

    /// The listeners of an event; none if it was never listened for.
    pub open spec fn listeners(self, name: Seq<char>) -> Seq<Arc<SyncEventListener<C>>> {
        if self.events.contains_key(name) {
            self.events[name].listeners
        } else {
            Seq::empty()
        }
    }

    /// The event has a listener with the given id.
    pub open spec fn has(self, name: Seq<char>, id: ListenerId) -> bool {
        self.events.contains_key(name) && self.events[name].has(id)
    }

    /// A lock that every operation on the event has to take is poisoned.
    pub open spec fn blocked(self, name: Seq<char>) -> bool {
        self.poisoned || self.events.contains_key(name) && self.events[name].poisoned
    }

    /// The ids in use are all older than the next one, ascend in each event, and belong to one event
    /// each. This holds of a new emitter and is kept by every operation until the ids run out.
    pub open spec fn consistent(self) -> bool {
        &&& forall|name: Seq<char>| #[trigger]
            self.events.contains_key(name) ==> self.events[name].sorted()
        &&& forall|name: Seq<char>, id: ListenerId| #[trigger]
            self.has(name, id) ==> id < self.next_id
        &&& forall|a: Seq<char>, b: Seq<char>, id: ListenerId| #[trigger]
            self.has(a, id) && #[trigger] self.has(b, id) ==> a == b
    }

    /// The id was handed out earlier and no listener has it any more.
    pub open spec fn retired(self, id: ListenerId) -> bool {
        &&& id < self.next_id
        &&& forall|name: Seq<char>| !#[trigger] self.has(name, id)
    }

    /// The id after this one: ids count up, and start over after the last.
    pub open spec fn bumped(id: usize) -> usize {
        if id == usize::MAX {
            0
        } else {
            (id + 1) as usize
        }
    }

    /// The state once a listener was registered: it gets the next id and comes last in its event.
    pub open spec fn registered(self, name: Seq<char>, once: bool, cb: C) -> Self {
        let listener = Arc::new(SyncEventListener { id: self.next_id as ListenerId, once, cb });
        EmitterView {
            events: self.events.insert(
                name,
                EventView {
                    listeners: self.listeners(name).push(listener),
                    poisoned: self.events.contains_key(name) && self.events[name].poisoned,
                },
            ),
            next_id: Self::bumped(self.next_id),
            ..self
        }
    }

    /// The state once the `i`-th listener of an event was removed. The event stays known.
    pub open spec fn without(self, name: Seq<char>, i: int) -> Self {
        EmitterView { events: self.events.insert(name, self.events[name].without(i)), ..self }
    }

    /// The state once the lock on the table of events was poisoned.
    pub open spec fn with_poison(self) -> Self {
        EmitterView { poisoned: true, ..self }
    }

    /// The state once the lock on the listeners of an event was poisoned.
    pub open spec fn with_event_poison(self, name: Seq<char>) -> Self {
        if self.events.contains_key(name) {
            EmitterView {
                events: self.events.insert(
                    name,
                    EventView { listeners: self.events[name].listeners, poisoned: true },
                ),
                ..self
            }
        } else {
            self
        }
    }

    /// Registering a listener returns `result` and leads to `post`.
    pub open spec fn adds(
        self,
        name: Seq<char>,
        once: bool,
        cb: C,
        result: EventResult<ListenerId>,
        post: Self,
    ) -> bool {
        if self.blocked(name) {
            &&& result == Err::<ListenerId, EventError>(EventError::PoisonError)
            &&& post == self
        } else {
            &&& result == Ok::<ListenerId, EventError>(self.next_id as ListenerId)
            &&& post == self.registered(name, once, cb)
        }
    }

    /// Removing the listener `id` from an event returns `result` and leads to `post`.
    ///
    /// The search may only miss a listener where the ids of the event do not ascend, that is, after the
    /// ids have started over.
    pub open spec fn removes(
        self,
        name: Seq<char>,
        id: ListenerId,
        result: EventResult<bool>,
        post: Self,
    ) -> bool {
        if self.blocked(name) {
            &&& result == Err::<bool, EventError>(EventError::PoisonError)
            &&& post == self
        } else {
            match result {
                Ok(true) => self.events.contains_key(name) && exists|i: int| #[trigger]
                    self.events[name].has_at(i, id) && post == self.without(name, i),
                Ok(false) => {
                    &&& post == self
                    &&& self.events.contains_key(name) && self.events[name].sorted()
                        ==> !self.events[name].has(id)
                },
                Err(_) => false,
            }
        }
    }

    /// Removing the listener `id` from whatever event has it returns `result` and leads to `post`.
    ///
    /// Events are searched in no particular order, and a poisoned event ends the search.
    pub open spec fn removes_any(
        self,
        id: ListenerId,
        result: EventResult<bool>,
        post: Self,
    ) -> bool {
        if self.poisoned {
            &&& result == Err::<bool, EventError>(EventError::PoisonError)
            &&& post == self
        } else {
            match result {
                Ok(true) => exists|name: Seq<char>, i: int|
                    {
                        &&& self.events.contains_key(name)
                        &&& !self.events[name].poisoned
                        &&& #[trigger] self.events[name].has_at(i, id)
                        &&& post == self.without(name, i)
                    },
                Ok(false) => {
                    &&& post == self
                    &&& forall|name: Seq<char>| #[trigger]
                        self.events.contains_key(name) ==> {
                            &&& !self.events[name].poisoned
                            &&& self.events[name].sorted() ==> !self.events[name].has(id)
                        }
                },
                Err(_) => {
                    &&& post == self
                    &&& exists|name: Seq<char>| #[trigger]
                        self.events.contains_key(name) && self.events[name].poisoned
                },
            }
        }
    }

    /// Claiming one invocation of a listener of an event returns `result` and leads to `post`.
    ///
    /// A permanent listener can always be claimed. A listener that is to run once is removed first, and is
    /// claimed only if it was still there to be removed.
    pub open spec fn claims(
        self,
        name: Seq<char>,
        listener: SyncEventListener<C>,
        result: EventResult<bool>,
        post: Self,
    ) -> bool {
        if listener.once {
            self.removes(name, listener.id, result, post)
        } else {
            &&& result == Ok::<bool, EventError>(true)
            &&& post == self
        }
    }

    /// The invocations reach the listeners of the event, each once, in the order of registration.
    pub open spec fn reached<T>(self, name: Seq<char>, invocations: Seq<Invocation<C, T>>) -> bool {
        &&& invocations.len() == self.listeners(name).len()
        &&& forall|i: int|
            0 <= i < invocations.len() ==> (#[trigger] invocations[i]).listener == self.listeners(
                name,
            )[i]
    }

    /// Emitting an event gives `result`: the invocations of its listeners, or an error if a lock that the
    /// emission has to take is poisoned.
    pub open spec fn emits<T>(
        self,
        name: Seq<char>,
        result: EventResult<Vec<Invocation<C, T>>>,
    ) -> bool {
        if self.blocked(name) {
            result == Err::<Vec<Invocation<C, T>>, EventError>(EventError::PoisonError)
        } else {
            result matches Ok(invocations) && self.reached(name, invocations@)
        }
    }

    /// Somebody listens for the event.
    pub open spec fn listened(self, name: Seq<char>) -> bool {
        self.listeners(name).len() > 0
    }

    /// `names` lists the events being listened for, each once.
    pub open spec fn named(self, names: Seq<Seq<char>>) -> bool {
        &&& names.no_duplicates()
        &&& forall|name: Seq<char>| #[trigger] names.contains(name) <==> self.listened(name)
    }
}

} // verus!
