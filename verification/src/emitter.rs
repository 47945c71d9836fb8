//! The emitter

use std::sync::Arc;

use crate::calls::{Round, Visit, Visitor};
use crate::error::{EventError, EventResult};
use crate::listener::{
    ArcCowish, Invocation, ListenerId, PlainListener, SyncEventListener, SyncListener,
    ValueListener,
};
use crate::model::{EmitterView, EventView};
use crate::pool::default_pool;
use crate::table::{insert_place, names_of, new_table, place_of};
use fnv::FnvHashMap;
use futures_cpupool::CpuPool;
use vstd::prelude::*;

verus! {

/// The listeners of one event, and whether the lock on them was poisoned.
struct SyncListeners<C> {
    listeners: Vec<Arc<SyncEventListener<C>>>,
    poisoned: bool,
}

impl<C> View for SyncListeners<C> {
    type V = EventView<C>;

    closed spec fn view(&self) -> EventView<C> {
        EventView { listeners: self.listeners@, poisoned: self.poisoned }
    }
}

impl<C> SyncListeners<C> {
    /// Bisects the listeners for an id.
    fn find(&self, id: ListenerId) -> (found: Option<usize>)
        ensures
            match found {
                Some(i) => self@.has_at(i as int, id),
                None => self@.sorted() ==> !self@.has(id),
            },
    {
        let mut low: usize = 0;
        let mut high: usize = self.listeners.len();
        while low < high
            invariant
                low <= high <= self.listeners.len(),
                self@.sorted() ==> forall|i: int| #[trigger]
                    self@.has_at(i, id) ==> low <= i < high,
            decreases high - low,
        {
            let middle: usize = low + (high - low) / 2;
            let candidate: ListenerId = self.listeners[middle].id;
            assert(candidate == self@.listeners[middle as int].id);
            if candidate == id {
                return Some(middle);
            } else if candidate < id {
                low = middle + 1;
            } else {
                high = middle;
            }
        }
        None
    }
}

/// Pooled Event Emitter
///
/// Listeners added to the emitter are meant to be invoked in a thread pool concurrently. `C` is what the
/// emitter keeps of a callback; it is made of a [`PlainListener`], [`ValueListener`] or [`SyncListener`].
pub struct ParallelEventEmitter<C> {
    events: FnvHashMap<String, usize>,
    poisoned: bool,
    lists: Vec<SyncListeners<C>>,
    counter: usize,
    pool: CpuPool,
}

impl<C> View for ParallelEventEmitter<C> {
    type V = EmitterView<C>;

    closed spec fn view(&self) -> EmitterView<C> {
        let places = crate::table::places(self.events);
        EmitterView {
            events: Map::new(
                |name: Seq<char>| places.contains_key(name),
                |name: Seq<char>| self.lists@[places[name] as int]@,
            ),
            next_id: self.counter,
            poisoned: self.poisoned,
            pool: self.pool,
        }
    }
}

impl<C> ParallelEventEmitter<C> {
    /// Each event name has a place of its own, which holds the event's listeners.
    pub closed spec fn wf(&self) -> bool {
        let places = crate::table::places(self.events);
        &&& forall|name: Seq<char>| #[trigger]
            places.contains_key(name) ==> places[name] < self.lists.len()
        &&& forall|a: Seq<char>, b: Seq<char>| #[trigger]
            places.contains_key(a) && #[trigger] places.contains_key(b) && places[a] == places[b]
                ==> a == b
    }

    /// Creates a new `ParallelEventEmitter` with the default `CpuPool`
    pub fn new() -> (emitter: Self)
        ensures
            emitter.wf(),
            emitter@ == EmitterView::<C>::fresh(emitter@.pool),
            emitter@.consistent(),
    {
        ParallelEventEmitter::with_pool(default_pool())
    }

    /// Creates a new `ParallelEventEmitter` with an already existing `CpuPool` instance.
    ///
    /// This allows for custom thread preferences and lifecycle hooks.
    pub fn with_pool(pool: CpuPool) -> (emitter: Self)
        ensures
            emitter.wf(),
            emitter@ == EmitterView::<C>::fresh(pool),
            emitter@.consistent(),
    {
        let emitter = ParallelEventEmitter {
            events: new_table(),
            poisoned: false,
            lists: Vec::new(),
            counter: 0,
            pool,
        };
        assert(emitter@.events =~= Map::empty());
        emitter
    }

    /// The pool that the emitter was created with.
    pub fn pool(&self) -> (pool: &CpuPool)
        ensures
            *pool == self@.pool,
    {
        &self.pool
    }

    /// Registers a callback, in the form that the emitter keeps, under the next id.
    pub fn add_listener_impl(&mut self, event: &str, once: bool, cb: C) -> (result: EventResult<
        ListenerId,
    >)
        requires
            old(self).wf(),
        ensures
            final(self).wf(),
            old(self)@.adds(event@, once, cb, result, final(self)@),
            old(self)@.consistent() && old(self)@.next_id < usize::MAX ==> final(self)@.consistent(),
    {
        if self.poisoned {
            return Err(EventError::PoisonError);
        }
        let id: ListenerId = self.counter as ListenerId;
        match place_of(&self.events, event) {
            Some(place) => {
                if self.lists[place].poisoned {
                    return Err(EventError::PoisonError);
                }
                self.lists[place].listeners.push(SyncEventListener::new(id, once, cb));
            },
            None => {
                let mut listeners = Vec::with_capacity(1);
                listeners.push(SyncEventListener::new(id, once, cb));
                let place: usize = self.lists.len();
                self.lists.push(SyncListeners { listeners, poisoned: false });
                insert_place(&mut self.events, event.to_owned(), place);
            },
        }
        self.counter = self.counter.wrapping_add(1);
        proof {
            assert(self@.events =~= old(self)@.registered(event@, once, cb).events);
            if old(self)@.consistent() && old(self)@.next_id < usize::MAX {
                crate::laws::adding_keeps_consistent(old(self)@, event@, once, cb, Ok(id), self@);
            }
        }
        Ok(id)
    }

    fn add_listener_impl_simple(&mut self, event: &str, cb: C) -> (result: EventResult<ListenerId>)
        requires
            old(self).wf(),
        ensures
            final(self).wf(),
            old(self)@.adds(event@, false, cb, result, final(self)@),
            old(self)@.consistent() && old(self)@.next_id < usize::MAX ==> final(self)@.consistent(),
    {
        self.add_listener_impl(event, false, cb)
    }

    /// Registers a callback, in the form that the emitter keeps, to be removed by its first invocation.
    pub fn once_impl(&mut self, event: &str, cb: C) -> (result: EventResult<ListenerId>)
        requires
            old(self).wf(),
        ensures
            final(self).wf(),
            old(self)@.adds(event@, true, cb, result, final(self)@),
            old(self)@.consistent() && old(self)@.next_id < usize::MAX ==> final(self)@.consistent(),
    {
        self.add_listener_impl(event, true, cb)
    }

    /// Add a simple listener callback that does not accept any arguments
    ///
    /// The return value of this is a unique ID for that listener, which can later be used to remove it if desired.
    pub fn add_listener<F, X>(&mut self, event: &str, cb: F) -> (result: EventResult<
        ListenerId,
    >) where C: From<PlainListener<F>>, F: Fn() -> Result<(), X>
        requires
            old(self).wf(),
        ensures
            final(self).wf(),
            exists|kept: C| #[trigger]
                call_ensures(<C as From<PlainListener<F>>>::from, (PlainListener { cb },), kept)
                    && old(self)@.adds(event@, false, kept, result, final(self)@),
            old(self)@.consistent() && old(self)@.next_id < usize::MAX ==> final(self)@.consistent(),
    {
        let listener = PlainListener::new(cb);
        let kept: C = listener.into();
        assert(call_ensures(<C as From<PlainListener<F>>>::from, (listener,), kept));
        self.add_listener_impl_simple(event, kept)
    }

    /// Like `add_listener`, but the listener will be removed from the event emitter after a single invocation.
    pub fn once<F, X>(&mut self, event: &str, cb: F) -> (result: EventResult<
        ListenerId,
    >) where C: From<PlainListener<F>>, F: Fn() -> Result<(), X>
        requires
            old(self).wf(),
        ensures
            final(self).wf(),
            exists|kept: C| #[trigger]
                call_ensures(<C as From<PlainListener<F>>>::from, (PlainListener { cb },), kept)
                    && old(self)@.adds(event@, true, kept, result, final(self)@),
            old(self)@.consistent() && old(self)@.next_id < usize::MAX ==> final(self)@.consistent(),
    {
        let listener = PlainListener::new(cb);
        let kept: C = listener.into();
        assert(call_ensures(<C as From<PlainListener<F>>>::from, (listener,), kept));
        self.once_impl(event, kept)
    }

    /// Add a listener that can accept a value passed via `emit_value`, or `emit_value_sync` if `T` is `Clone`
    ///
    /// If no value or an incompatible value was passed to `emit*`, `None` is passed.
    ///
    /// The return value of this is a unique ID for that listener, which can later be used to remove it if desired.
    pub fn add_listener_value<T, F, X>(&mut self, event: &str, cb: F) -> (result: EventResult<
        ListenerId,
    >) where C: From<ValueListener<T, F>>, T: Clone, F: Fn(Option<T>) -> Result<(), X>
        requires
            old(self).wf(),
        ensures
            final(self).wf(),
            exists|kept: C| #[trigger]
                call_ensures(
                    <C as From<ValueListener<T, F>>>::from,
                    (ValueListener::around(cb),),
                    kept,
                ) && old(self)@.adds(event@, false, kept, result, final(self)@),
            old(self)@.consistent() && old(self)@.next_id < usize::MAX ==> final(self)@.consistent(),
    {
        let listener = ValueListener::<T, F>::new(cb);
        let kept: C = listener.into();
        assert(call_ensures(<C as From<ValueListener<T, F>>>::from, (listener,), kept));
        self.add_listener_impl_simple(event, kept)
    }

    /// Like `add_listener_value`, but the listener will be removed from the event emitter after a single invocation.
    pub fn once_value<T, F, X>(&mut self, event: &str, cb: F) -> (result: EventResult<
        ListenerId,
    >) where C: From<ValueListener<T, F>>, T: Clone, F: Fn(Option<T>) -> Result<(), X>
        requires
            old(self).wf(),
        ensures
            final(self).wf(),
            exists|kept: C| #[trigger]
                call_ensures(
                    <C as From<ValueListener<T, F>>>::from,
                    (ValueListener::around(cb),),
                    kept,
                ) && old(self)@.adds(event@, true, kept, result, final(self)@),
            old(self)@.consistent() && old(self)@.next_id < usize::MAX ==> final(self)@.consistent(),
    {
        let listener = ValueListener::<T, F>::new(cb);
        let kept: C = listener.into();
        assert(call_ensures(<C as From<ValueListener<T, F>>>::from, (listener,), kept));
        self.once_impl(event, kept)
    }

    /// Variation of `add_listener_value` that accepts `Sync` types,
    /// where intermediate copies on `emit*` are unnecessary.
    ///
    /// This will attempt to use a reference to the very
    /// value passed to `emit_value_sync`. If a value of `T` was passed via `emit_value`,
    /// the callback will be invoked with the `Clone`d copy.
    ///
    /// There is nothing statically forcing the use of this instead of `add_listener_value`,
    /// but it is here just in case your type `T` is `Sync` but might not implement `Clone`,
    /// or if you want to avoid cloning values all over the place.
    ///
    /// The return value of this is a unique ID for that listener, which can later be used to remove it if desired.
    pub fn add_listener_sync<T, F, X>(&mut self, event: &str, cb: F) -> (result: EventResult<
        ListenerId,
    >) where C: From<SyncListener<T, F>>, F: Fn(Option<&T>) -> Result<(), X>
        requires
            old(self).wf(),
        ensures
            final(self).wf(),
            exists|kept: C| #[trigger]
                call_ensures(
                    <C as From<SyncListener<T, F>>>::from,
                    (SyncListener::around(cb),),
                    kept,
                ) && old(self)@.adds(event@, false, kept, result, final(self)@),
            old(self)@.consistent() && old(self)@.next_id < usize::MAX ==> final(self)@.consistent(),
    {
        let listener = SyncListener::<T, F>::new(cb);
        let kept: C = listener.into();
        assert(call_ensures(<C as From<SyncListener<T, F>>>::from, (listener,), kept));
        self.add_listener_impl_simple(event, kept)
    }

    /// Like `add_listener_sync`, but the listener will be removed from the event emitter after a single invocation.
    pub fn once_sync<T, F, X>(&mut self, event: &str, cb: F) -> (result: EventResult<
        ListenerId,
    >) where C: From<SyncListener<T, F>>, F: Fn(Option<&T>) -> Result<(), X>
        requires
            old(self).wf(),
        ensures
            final(self).wf(),
            exists|kept: C| #[trigger]
                call_ensures(
                    <C as From<SyncListener<T, F>>>::from,
                    (SyncListener::around(cb),),
                    kept,
                ) && old(self)@.adds(event@, true, kept, result, final(self)@),
            old(self)@.consistent() && old(self)@.next_id < usize::MAX ==> final(self)@.consistent(),
    {
        let listener = SyncListener::<T, F>::new(cb);
        let kept: C = listener.into();
        assert(call_ensures(<C as From<SyncListener<T, F>>>::from, (listener,), kept));
        self.once_impl(event, kept)
    }

    /// Removes a listener with the given ID and associated with the given event.
    ///
    /// If the listener was not found (either doesn't exist or the wrong event given) `Ok(false)` is returned.
    ///
    /// If the listener was removed, `Ok(true)` is returned.
    pub fn remove_listener(&mut self, event: &str, id: ListenerId) -> (result: EventResult<bool>)
        requires
            old(self).wf(),
        ensures
            final(self).wf(),
            old(self)@.removes(event@, id, result, final(self)@),
            old(self)@.consistent() ==> final(self)@.consistent(),
    {
        if self.poisoned {
            return Err(EventError::PoisonError);
        }
        if let Some(place) = place_of(&self.events, event) {
            if self.lists[place].poisoned {
                return Err(EventError::PoisonError);
            }
            if let Some(index) = self.lists[place].find(id) {
                self.lists[place].listeners.remove(index);
                assert(old(self)@.events[event@].has_at(index as int, id));
                proof {
                    assert(self@.events =~= old(self)@.without(event@, index as int).events);
                    if old(self)@.consistent() {
                        crate::laws::removing_keeps_consistent(
                            old(self)@,
                            event@,
                            id,
                            Ok(true),
                            self@,
                        );
                    }
                }
                return Ok(true);
            }
        }
        Ok(false)
    }

    /// Exhaustively searches through ALL events for a listener with the given ID.
    ///
    /// `Ok(false)` is returned if it was not found.
    pub fn remove_any_listener(&mut self, id: ListenerId) -> (result: EventResult<bool>)
        requires
            old(self).wf(),
        ensures
            final(self).wf(),
            old(self)@.removes_any(id, result, final(self)@),
            old(self)@.consistent() ==> final(self)@.consistent(),
    {
        match self.locate(id) {
            Ok(Some((place, index))) => {
                let ghost name = choose|name: Seq<char>|
                    #![trigger crate::table::places(old(self).events).contains_key(name)]
                    crate::table::places(old(self).events).contains_key(name) && crate::table::places(
                        old(self).events,
                    )[name] == place;
                self.lists[place].listeners.remove(index);
                assert(old(self)@.events[name].has_at(index as int, id));
                proof {
                    assert(self@.events =~= old(self)@.without(name, index as int).events);
                    if old(self)@.consistent() {
                        crate::laws::removing_any_keeps_consistent(
                            old(self)@,
                            id,
                            Ok(true),
                            self@,
                        );
                    }
                }
                Ok(true)
            },
            Ok(None) => Ok(false),
            Err(err) => Err(err),
        }
    }

    /// Searches all events for a listener with the given ID; returns the place of its event and its index there.
    fn locate(&self, id: ListenerId) -> (result: EventResult<Option<(usize, usize)>>)
        requires
            self.wf(),
        ensures
            self.poisoned ==> result is Err,
            match result {
                Ok(Some((place, index))) => {
                    &&& place < self.lists.len()
                    &&& exists|name: Seq<char>|
                        #![trigger crate::table::places(self.events).contains_key(name)]
                        crate::table::places(self.events).contains_key(name) && crate::table::places(
                            self.events,
                        )[name] == place
                    &&& !self.lists@[place as int]@.poisoned
                    &&& self.lists@[place as int]@.has_at(index as int, id)
                },
                Ok(None) => forall|name: Seq<char>| #[trigger]
                    self@.events.contains_key(name) ==> {
                        &&& !self@.events[name].poisoned
                        &&& self@.events[name].sorted() ==> !self@.events[name].has(id)
                    },
                Err(err) => {
                    &&& err == EventError::PoisonError
                    &&& self.poisoned || exists|name: Seq<char>| #[trigger]
                        self@.events.contains_key(name) && self@.events[name].poisoned
                },
            },
    {
        if self.poisoned {
            return Err(EventError::PoisonError);
        }
        let names = names_of(&self.events);
        let mut i: usize = 0;
        while i < names.len()
            invariant
                self.wf(),
                !self.poisoned,
                i <= names.len(),
                forall|k: int|
                    0 <= k < names.len() ==> crate::table::places(self.events).contains_key(
                        #[trigger] names@[k]@,
                    ),
                forall|k: int|
                    0 <= k < i ==> {
                        let event = self@.events[#[trigger] names@[k]@];
                        &&& !event.poisoned
                        &&& event.sorted() ==> !event.has(id)
                    },
            decreases names.len() - i,
        {
            if let Some(place) = place_of(&self.events, names[i].as_str()) {
                let list = &self.lists[place];
                assert(self@.events.contains_key(names@[i as int]@));
                if list.poisoned {
                    return Err(EventError::PoisonError);
                }
                if let Some(index) = list.find(id) {
                    return Ok(Some((place, index)));
                }
            }
            i = i + 1;
        }
        assert forall|name: Seq<char>| #[trigger] self@.events.contains_key(name) implies {
            &&& !self@.events[name].poisoned
            &&& self@.events[name].sorted() ==> !self@.events[name].has(id)
        } by {
            assert(crate::table::places(self.events).contains_key(name));
        }
        Ok(None)
    }

    /// First half of an invocation: decides whether a listener that an emission of the event reached may run.
    ///
    /// A listener that is to run once is removed before its callback is invoked, so in case it panics or takes
    /// a long time to complete it will have already been removed. If it has already been removed in the short
    /// time between emitting and this, `Ok(false)` is returned and it is not to run.
    pub fn claim(&mut self, event: &str, listener: &SyncEventListener<C>) -> (result: EventResult<
        bool,
    >)
        requires
            old(self).wf(),
        ensures
            final(self).wf(),
            old(self)@.claims(event@, *listener, result, final(self)@),
            old(self)@.consistent() ==> final(self)@.consistent(),
    {
        if listener.once {
            self.remove_listener(event, listener.id)
        } else {
            Ok(true)
        }
    }

    /// The listeners of the event as they are registered now.
    fn snapshot(&self, event: &str) -> (result: EventResult<Vec<Arc<SyncEventListener<C>>>>)
        requires
            self.wf(),
        ensures
            self@.blocked(event@) ==> result == Err::<
                Vec<Arc<SyncEventListener<C>>>,
                EventError,
            >(EventError::PoisonError),
            !self@.blocked(event@) ==> (result matches Ok(listeners) && listeners@
                == self@.listeners(event@)),
    {
        if self.poisoned {
            return Err(EventError::PoisonError);
        }
        let mut listeners: Vec<Arc<SyncEventListener<C>>> = Vec::new();
        if let Some(place) = place_of(&self.events, event) {
            let list = &self.lists[place];
            if list.poisoned {
                return Err(EventError::PoisonError);
            }
            let mut i: usize = 0;
            while i < list.listeners.len()
                invariant
                    i <= list.listeners.len(),
                    listeners@ == list.listeners@.take(i as int),
                decreases list.listeners.len() - i,
            {
                listeners.push(list.listeners[i].clone());
                i = i + 1;
            }
        }
        Ok(listeners)
    }

    /// Emit an event, invoking all the listeners for that event.
    ///
    /// One invocation is returned for each listener. The emission resolves to the number of listeners that ran,
    /// which [`count_ran`](crate::count_ran) gives, and any errors should be forwarded up.
    pub fn emit(&self, event: &str) -> (result: EventResult<Vec<Invocation<C, ()>>>)
        requires
            self.wf(),
        ensures
            self@.emits(event@, result),
            result matches Ok(invocations) ==> crate::listener::carry_nothing(invocations@),
    {
        let listeners = match self.snapshot(event) {
            Ok(listeners) => listeners,
            Err(err) => return Err(err),
        };
        let mut invocations: Vec<Invocation<C, ()>> = Vec::with_capacity(listeners.len());
        let mut i: usize = 0;
        while i < listeners.len()
            invariant
                i <= listeners.len(),
                invocations.len() == i,
                forall|k: int|
                    0 <= k < i ==> (#[trigger] invocations[k]).listener == listeners[k],
                forall|k: int| 0 <= k < i ==> (#[trigger] invocations[k]).arg is None,
            decreases listeners.len() - i,
        {
            invocations.push(Invocation { listener: listeners[i].clone(), arg: None });
            i = i + 1;
        }
        Ok(invocations)
    }

    /// Emit an event, invoking all the listeners for that event.
    ///
    /// A copy of the value will be passed to every listener.
    ///
    /// One invocation is returned for each listener. The emission resolves to the number of listeners that ran,
    /// which [`count_ran`](crate::count_ran) gives, and any errors should be forwarded up.
    pub fn emit_value<T: Clone>(&self, event: &str, value: T) -> (result: EventResult<
        Vec<Invocation<C, T>>,
    >)
        requires
            self.wf(),
        ensures
            self@.emits(event@, result),
            result matches Ok(invocations) ==> crate::listener::carry_copies(invocations@, value),
    {
        let listeners = match self.snapshot(event) {
            Ok(listeners) => listeners,
            Err(err) => return Err(err),
        };
        let mut invocations: Vec<Invocation<C, T>> = Vec::with_capacity(listeners.len());
        let mut i: usize = 0;
        while i < listeners.len()
            invariant
                i <= listeners.len(),
                invocations.len() == i,
                forall|k: int|
                    0 <= k < i ==> (#[trigger] invocations[k]).listener == listeners[k],
                forall|k: int|
                    0 <= k < i ==> ((#[trigger] invocations[k]).arg matches Some(
                        ArcCowish::Owned(copy),
                    ) && vstd::pervasive::strictly_cloned(value, copy)),
            decreases listeners.len() - i,
        {
            // Clone a local copy of value that can be sent to the listener
            let copy = value.clone();
            invocations.push(
                Invocation { listener: listeners[i].clone(), arg: Some(ArcCowish::Owned(copy)) },
            );
            i = i + 1;
        }
        Ok(invocations)
    }

    /// Variation of `emit_value` for `Sync` types, where intermediate copies are unnecessary.
    ///
    /// All listeners receive a reference to the same value.
    ///
    /// One invocation is returned for each listener. The emission resolves to the number of listeners that ran,
    /// which [`count_ran`](crate::count_ran) gives, and any errors should be forwarded up.
    pub fn emit_value_sync<T>(&self, event: &str, value: T) -> (result: EventResult<
        Vec<Invocation<C, T>>,
    >)
        requires
            self.wf(),
        ensures
            self@.emits(event@, result),
            result matches Ok(invocations) ==> crate::listener::carry_shared(invocations@, value),
    {
        let listeners = match self.snapshot(event) {
            Ok(listeners) => listeners,
            Err(err) => return Err(err),
        };
        let mut invocations: Vec<Invocation<C, T>> = Vec::with_capacity(listeners.len());
        let shared: Arc<T> = Arc::new(value);
        let mut i: usize = 0;
        while i < listeners.len()
            invariant
                i <= listeners.len(),
                invocations.len() == i,
                forall|k: int|
                    0 <= k < i ==> (#[trigger] invocations[k]).listener == listeners[k],
                forall|k: int|
                    0 <= k < i ==> ((#[trigger] invocations[k]).arg matches Some(
                        ArcCowish::Borrowed(given),
                    ) && given == shared),
            decreases listeners.len() - i,
        {
            invocations.push(
                Invocation {
                    listener: listeners[i].clone(),
                    arg: Some(ArcCowish::Borrowed(shared.clone())),
                },
            );
            i = i + 1;
        }
        Ok(invocations)
    }

    /// The names of the events that have listeners.
    fn listened(&self) -> (names: Vec<&String>)
        requires
            self.wf(),
        ensures
            forall|i: int, j: int| 0 <= i < j < names.len() ==> names[i]@ != names[j]@,
            forall|i: int| 0 <= i < names.len() ==> self@.listened(#[trigger] names[i]@),
            forall|name: Seq<char>| #[trigger]
                self@.listened(name) ==> exists|i: int|
                    0 <= i < names.len() && #[trigger] names[i]@ == name,
    {
        let known = names_of(&self.events);
        let mut names: Vec<&String> = Vec::new();
        let mut i: usize = 0;
        while i < known.len()
            invariant
                self.wf(),
                i <= known.len(),
                forall|k: int, l: int| 0 <= k < l < known.len() ==> known[k]@ != known[l]@,
                forall|k: int|
                    0 <= k < known.len() ==> crate::table::places(self.events).contains_key(
                        #[trigger] known@[k]@,
                    ),
                forall|k: int, l: int| 0 <= k < l < names.len() ==> names[k]@ != names[l]@,
                forall|k: int| 0 <= k < names.len() ==> self@.listened(#[trigger] names[k]@),
                forall|k: int|
                    0 <= k < names.len() ==> exists|l: int|
                        0 <= l < i && known[l]@ == #[trigger] names[k]@,
                forall|k: int|
                    0 <= k < i && self@.listened(#[trigger] known[k]@) ==> exists|l: int|
                        0 <= l < names.len() && #[trigger] names[l]@ == known[k]@,
            decreases known.len() - i,
        {
            let name = known[i];
            let ghost before = names@;
            if let Some(place) = place_of(&self.events, name.as_str()) {
                if self.lists[place].listeners.len() > 0 {
                    names.push(name);
                    assert(names[names.len() - 1]@ == known[i as int]@);
                }
            }
            assert forall|k: int| 0 <= k < i + 1 && self@.listened(#[trigger] known[k]@) implies exists|
                l: int,
            |
                0 <= l < names.len() && #[trigger] names[l]@ == known[k]@ by {
                if k < i {
                    let l = choose|l: int| 0 <= l < before.len() && #[trigger] before[l]@ == known[k]@;
                    assert(names[l] == before[l]);
                }
            }
            i = i + 1;
        }
        assert forall|name: Seq<char>| #[trigger] self@.listened(name) implies exists|l: int|
            0 <= l < names.len() && #[trigger] names[l]@ == name by {
            assert(crate::table::places(self.events).contains_key(name));
            let k = choose|k: int| 0 <= k < known.len() && #[trigger] known[k]@ == name;
            assert(self@.listened(known[k]@));
        }
        names
    }

    /// Collect the names of all events being listened for.
    pub fn event_names(&self) -> (result: EventResult<Vec<String>>)
        requires
            self.wf(),
        ensures
            self@.poisoned ==> result == Err::<Vec<String>, EventError>(EventError::PoisonError),
            !self@.poisoned ==> (result matches Ok(names) && self@.named(
                names@.map_values(|name: String| name@),
            )),
    {
        if self.poisoned {
            return Err(EventError::PoisonError);
        }
        let names = self.listened();
        let mut copies: Vec<String> = Vec::with_capacity(names.len());
        let mut i: usize = 0;
        while i < names.len()
            invariant
                i <= names.len(),
                copies.len() == i,
                forall|k: int| 0 <= k < i ==> (#[trigger] copies[k])@ == names[k]@,
            decreases names.len() - i,
        {
            copies.push(names[i].clone());
            i = i + 1;
        }
        proof {
            let listed = copies@.map_values(|name: String| name@);
            assert forall|name: Seq<char>| #[trigger]
                listed.contains(name) <==> self@.listened(name) by {
                if listed.contains(name) {
                    let k = choose|k: int| 0 <= k < listed.len() && listed[k] == name;
                    assert(names[k]@ == name);
                }
                if self@.listened(name) {
                    let k = choose|k: int| 0 <= k < names.len() && #[trigger] names[k]@ == name;
                    assert(copies[k]@ == name);
                    assert(listed[k] == name);
                }
            }
        }
        Ok(copies)
    }

    /// As an alternative to cloning all the event names and collecting them into a `Vec`,
    /// like in `event_names`,
    /// a visitor callback can be used to iterate all the event names more efficiently.
    ///
    /// Each name is visited once. The bounds hold of every visitor `Fn(&String)`.
    pub fn event_names_visitor<'n, F>(&'n self, visitor: F) -> (result: EventResult<()>) where
        Vec<&'n String>: Round<'n, F>,
        F: Fn(Visit<'n, F>),
        Visitor<'n, F>: Fn(Visit<'n, F>),

        requires
            self.wf(),
            !self@.poisoned ==> forall|name: Visit<'n, F>|
                self@.listened(Vec::<&'n String>::shown(name)@) ==> #[trigger] call_requires(
                    Vec::<&'n String>::visiting(visitor),
                    (name,),
                ),
        ensures
            self@.poisoned ==> result == Err::<(), EventError>(EventError::PoisonError),
            !self@.poisoned ==> result == Ok::<(), EventError>(()) && forall|name: Seq<char>|
                #[trigger] self@.listened(name) ==> exists|key: Visit<'n, F>|
                    Vec::<&'n String>::shown(key)@ == name && #[trigger] call_ensures(
                        Vec::<&'n String>::visiting(visitor),
                        (key,),
                        (),
                    ),
    {
        if self.poisoned {
            return Err(EventError::PoisonError);
        }
        let listed = self.listened();
        let ghost keys = listed@;
        let (names, visit) = listed.begin(visitor);
        let ghost visits = names@;
        for name in iter: names
            invariant
                iter.seq() == visits,
                forall|k: int|
                    0 <= k < visits.len() ==> call_requires(visit, (#[trigger] visits[k],)),
                forall|k: int|
                    0 <= k < iter.index() ==> call_ensures(visit, (#[trigger] visits[k],), ()),
        {
            visit(name);
        }
        assert forall|name: Seq<char>| #[trigger] self@.listened(name) implies exists|
            key: Visit<'n, F>,
        |
            Vec::<&'n String>::shown(key)@ == name && #[trigger] call_ensures(visit, (key,), ()) by {
            let k = choose|k: int| 0 <= k < keys.len() && #[trigger] keys[k]@ == name;
            assert(call_ensures(visit, (visits[k],), ()));
        }
        Ok(())
    }

    /// Records that a thread panicked while it held the lock on the table of events.
    pub fn poison_events(&mut self)
        requires
            old(self).wf(),
        ensures
            final(self).wf(),
            final(self)@ == old(self)@.with_poison(),
    {
        self.poisoned = true;
        assert(self@.events =~= old(self)@.events);
    }

    /// Records that a thread panicked while it held the lock on the listeners of an event.
    pub fn poison_listeners(&mut self, event: &str)
        requires
            old(self).wf(),
        ensures
            final(self).wf(),
            final(self)@ == old(self)@.with_event_poison(event@),
    {
        if let Some(place) = place_of(&self.events, event) {
            self.lists[place].poisoned = true;
            assert(self@.events =~= old(self)@.with_event_poison(event@).events);
        }
    }
}

impl<C> Default for ParallelEventEmitter<C> {
    fn default() -> (emitter: Self)
        ensures
            emitter.wf(),
            emitter@ == EmitterView::<C>::fresh(emitter@.pool),
            emitter@.consistent(),
    {
        ParallelEventEmitter::new()
    }
}

} // verus!
