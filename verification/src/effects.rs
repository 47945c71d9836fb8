//! What each operation does to what an emitter holds, and what it returns
//!
//! The statements go down to the fields of the state and to the user's callbacks.

use std::sync::Arc;

use crate::calls::{OneCall, Round};
use crate::emitter::ParallelEventEmitter;
use crate::error::{EventError, EventResult};
use crate::listener::{
    ArcCowish, Downcast, Emitted, Invocation, InvocationError, ListenerId, SyncEventListener,
    SyncListener, ValueListener,
};
use crate::model::EmitterView;
use futures_cpupool::CpuPool;
use vstd::prelude::*;

verus! {

/// A new emitter holds no event, has handed out no id, and works with the pool that it is given.
pub proof fn new_emitter_is_empty<C>(pool: CpuPool)
    ensures
        EmitterView::<C>::fresh(pool).events.dom() == Set::<Seq<char>>::empty(),
        EmitterView::<C>::fresh(pool).next_id == 0,
        !EmitterView::<C>::fresh(pool).poisoned,
        EmitterView::<C>::fresh(pool).pool == pool,
{
    assert(EmitterView::<C>::fresh(pool).events.dom() =~= Set::<Seq<char>>::empty());
}

/// Where the table or the event's list is poisoned, a registration is refused and changes nothing.
pub proof fn registration_is_refused<C>(
    state: EmitterView<C>,
    name: Seq<char>,
    once: bool,
    cb: C,
    result: EventResult<ListenerId>,
    post: EmitterView<C>,
)
    requires
        state.adds(name, once, cb, result, post),
        state.poisoned || state.events.contains_key(name) && state.events[name].poisoned,
    ensures
        result == Err::<ListenerId, EventError>(EventError::PoisonError),
        post == state,
{
}

/// Otherwise it returns the next id, puts the listener under that id behind those that the event has, and changes
/// nothing else but the next id.
pub proof fn registration_appends<C>(
    state: EmitterView<C>,
    name: Seq<char>,
    once: bool,
    cb: C,
    result: EventResult<ListenerId>,
    post: EmitterView<C>,
    before: Seq<Arc<SyncEventListener<C>>>,
)
    requires
        state.adds(name, once, cb, result, post),
        !state.poisoned,
        state.events.contains_key(name) ==> !state.events[name].poisoned && before
            == state.events[name].listeners,
        !state.events.contains_key(name) ==> before.len() == 0,
    ensures
        result == Ok::<ListenerId, EventError>(state.next_id as ListenerId),
        post.events.contains_key(name),
        !post.events[name].poisoned,
        post.events[name].listeners.len() == before.len() + 1,
        forall|i: int|
            0 <= i < before.len() ==> #[trigger] post.events[name].listeners[i] == before[i],
        post.events[name].listeners.last().id == state.next_id,
        post.events[name].listeners.last().once == once,
        post.events[name].listeners.last().cb == cb,
        forall|other: Seq<char>|
            other != name ==> (#[trigger] post.events.contains_key(other)
                <==> state.events.contains_key(other)),
        forall|other: Seq<char>|
            other != name && state.events.contains_key(other) ==> #[trigger] post.events[other]
                == state.events[other],
        state.next_id < usize::MAX ==> post.next_id == state.next_id + 1,
        state.next_id == usize::MAX ==> post.next_id == 0,
        !post.poisoned,
        post.pool == state.pool,
{
}

/// Where the table or the event's list is poisoned, a removal is refused and changes nothing.
pub proof fn removal_is_refused<C>(
    state: EmitterView<C>,
    name: Seq<char>,
    id: ListenerId,
    result: EventResult<bool>,
    post: EmitterView<C>,
)
    requires
        state.removes(name, id, result, post),
        state.poisoned || state.events.contains_key(name) && state.events[name].poisoned,
    ensures
        result == Err::<bool, EventError>(EventError::PoisonError),
        post == state,
{
}

/// A removal that succeeds takes one listener with the id from the event, keeps the others in their order, and
/// changes nothing else.
pub proof fn removal_takes_one_listener<C>(
    state: EmitterView<C>,
    name: Seq<char>,
    id: ListenerId,
    post: EmitterView<C>,
) -> (i: int)
    requires
        state.removes(name, id, Ok(true), post),
    ensures
        !state.poisoned,
        state.events.contains_key(name),
        !state.events[name].poisoned,
        0 <= i < state.events[name].listeners.len(),
        state.events[name].listeners[i].id == id,
        post.events[name].listeners == state.events[name].listeners.take(i)
            + state.events[name].listeners.skip(i + 1),
        post.events[name].poisoned == state.events[name].poisoned,
        post.events.dom() == state.events.dom(),
        forall|other: Seq<char>|
            other != name && state.events.contains_key(other) ==> #[trigger] post.events[other]
                == state.events[other],
        post.next_id == state.next_id,
        post.poisoned == state.poisoned,
        post.pool == state.pool,
{
    let i = crate::laws::removed_at(state, name, id, post);
    let listeners = state.events[name].listeners;
    assert(post.events[name].listeners =~= listeners.take(i) + listeners.skip(i + 1));
    assert(post.events.dom() =~= state.events.dom());
    i
}

/// A removal that finds nothing changes nothing. It does not miss a listener with the id where the ids of the
/// event ascend.
pub proof fn removal_misses_nothing<C>(
    state: EmitterView<C>,
    name: Seq<char>,
    id: ListenerId,
    result: EventResult<bool>,
    post: EmitterView<C>,
)
    requires
        state.removes(name, id, result, post),
        !state.poisoned,
        state.events.contains_key(name) ==> !state.events[name].poisoned,
        state.events.contains_key(name) ==> forall|i: int, j: int|
            0 <= i < j < state.events[name].listeners.len() ==> state.events[name].listeners[i].id
                < state.events[name].listeners[j].id,
    ensures
        result is Ok,
        result->Ok_0 <==> state.events.contains_key(name) && exists|i: int|
            0 <= i < state.events[name].listeners.len() && (
            #[trigger] state.events[name].listeners[i]).id == id,
        !result->Ok_0 ==> post == state,
{
    if state.events.contains_key(name) {
        assert(state.events[name].sorted());
        let listeners = state.events[name].listeners;
        if exists|i: int| 0 <= i < listeners.len() && (#[trigger] listeners[i]).id == id {
            let i = choose|i: int| 0 <= i < listeners.len() && (#[trigger] listeners[i]).id == id;
            assert(state.events[name].has_at(i, id));
        }
    }
    if result == Ok::<bool, EventError>(true) {
        let i = removal_takes_one_listener(state, name, id, post);
        assert(state.events[name].listeners[i].id == id);
    }
}

/// Where the table is poisoned, a removal by id alone is refused. It fails only there or where some event's list
/// is poisoned, and then changes nothing.
pub proof fn any_removal_is_refused<C>(
    state: EmitterView<C>,
    id: ListenerId,
    result: EventResult<bool>,
    post: EmitterView<C>,
)
    requires
        state.removes_any(id, result, post),
    ensures
        state.poisoned ==> result is Err,
        result is Err ==> post == state,
        result is Err ==> state.poisoned || exists|name: Seq<char>| #[trigger]
            state.events.contains_key(name) && state.events[name].poisoned,
{
}

/// A removal by id alone that succeeds takes one listener with the id from some event, keeps the others in their
/// order, and changes nothing else.
pub proof fn any_removal_takes_one_listener<C>(
    state: EmitterView<C>,
    id: ListenerId,
    post: EmitterView<C>,
) -> (found: (Seq<char>, int))
    requires
        state.removes_any(id, Ok(true), post),
    ensures
        !state.poisoned,
        state.events.contains_key(found.0),
        !state.events[found.0].poisoned,
        0 <= found.1 < state.events[found.0].listeners.len(),
        state.events[found.0].listeners[found.1].id == id,
        post.events[found.0].listeners == state.events[found.0].listeners.take(found.1)
            + state.events[found.0].listeners.skip(found.1 + 1),
        post.events[found.0].poisoned == state.events[found.0].poisoned,
        post.events.dom() == state.events.dom(),
        forall|other: Seq<char>|
            other != found.0 && state.events.contains_key(other) ==> #[trigger] post.events[other]
                == state.events[other],
        post.next_id == state.next_id,
        post.poisoned == state.poisoned,
        post.pool == state.pool,
{
    let (name, i) = crate::laws::removed_any_at(state, id, post);
    let listeners = state.events[name].listeners;
    assert(post.events[name].listeners =~= listeners.take(i) + listeners.skip(i + 1));
    assert(post.events.dom() =~= state.events.dom());
    (name, i)
}

/// A removal by id alone that finds nothing changes nothing. It misses no listener with the id of an event whose
/// ids ascend, and has passed no poisoned list over.
pub proof fn any_removal_misses_nothing<C>(
    state: EmitterView<C>,
    id: ListenerId,
    post: EmitterView<C>,
    name: Seq<char>,
    i: int,
)
    requires
        state.removes_any(id, Ok(false), post),
        state.events.contains_key(name),
    ensures
        post == state,
        !state.events[name].poisoned,
        0 <= i < state.events[name].listeners.len() && (forall|j: int, k: int|
            0 <= j < k < state.events[name].listeners.len() ==> state.events[name].listeners[j].id
                < state.events[name].listeners[k].id) ==> state.events[name].listeners[i].id != id,
{
    let listeners = state.events[name].listeners;
    if 0 <= i < listeners.len() && listeners[i].id == id && forall|j: int, k: int|
        0 <= j < k < listeners.len() ==> listeners[j].id < listeners[k].id {
        assert(state.events[name].sorted());
        assert(state.events[name].has_at(i, id));
    }
}

/// A claim of a permanent listener succeeds and changes nothing.
pub proof fn permanent_is_claimed<C>(
    state: EmitterView<C>,
    name: Seq<char>,
    listener: SyncEventListener<C>,
    result: EventResult<bool>,
    post: EmitterView<C>,
)
    requires
        state.claims(name, listener, result, post),
        !listener.once,
    ensures
        result == Ok::<bool, EventError>(true),
        post == state,
{
}

/// A claim of a listener that is to run once is a removal of it.
pub proof fn claiming_once_is_removing<C>(
    state: EmitterView<C>,
    name: Seq<char>,
    listener: SyncEventListener<C>,
    result: EventResult<bool>,
    post: EmitterView<C>,
)
    requires
        state.claims(name, listener, result, post),
        listener.once,
    ensures
        state.removes(name, listener.id, result, post),
{
}

/// A poisoned table refuses everything from then on, and nothing else changes.
pub proof fn poisoning_the_table<C>(state: EmitterView<C>)
    ensures
        state.with_poison().poisoned,
        state.with_poison().events == state.events,
        state.with_poison().next_id == state.next_id,
        state.with_poison().pool == state.pool,
{
}

/// A poisoned list is the only thing that changes, if there is such a list.
pub proof fn poisoning_a_list<C>(state: EmitterView<C>, name: Seq<char>)
    ensures
        state.with_event_poison(name).events.dom() == state.events.dom(),
        state.events.contains_key(name) ==> state.with_event_poison(name).events[name].poisoned,
        state.events.contains_key(name) ==> state.with_event_poison(name).events[name].listeners
            == state.events[name].listeners,
        forall|other: Seq<char>|
            other != name && state.events.contains_key(other) ==> #[trigger] state.with_event_poison(
                name,
            ).events[other] == state.events[other],
        state.with_event_poison(name).poisoned == state.poisoned,
        state.with_event_poison(name).next_id == state.next_id,
        state.with_event_poison(name).pool == state.pool,
{
    assert(state.with_event_poison(name).events.dom() =~= state.events.dom());
}

/// An emission in any state is refused exactly if the table or the event's list is poisoned. Otherwise it has as
/// many invocations as the event has listeners, and each is of one of them.
pub proof fn emission_reaches_the_event_alone<C, T>(
    state: EmitterView<C>,
    name: Seq<char>,
    result: EventResult<Vec<Invocation<C, T>>>,
)
    requires
        state.emits(name, result),
    ensures
        result is Err <==> state.poisoned || state.events.contains_key(name)
            && state.events[name].poisoned,
        result matches Ok(invocations) ==> invocations.len() == state.listeners(name).len(),
        result matches Ok(invocations) ==> forall|i: int|
            0 <= i < invocations.len() ==> (#[trigger] invocations@[i]).listener == state.listeners(
                name,
            )[i],
        result matches Ok(invocations) ==> forall|i: int|
            0 <= i < invocations.len() ==> state.events.contains_key(name)
                && state.events[name].listeners.contains((#[trigger] invocations@[i]).listener),
        result matches Ok(invocations) ==> forall|listener: Arc<SyncEventListener<C>>| #[trigger]
            state.listeners(name).contains(listener) ==> exists|i: int|
                0 <= i < invocations.len() && (#[trigger] invocations@[i]).listener == listener,
{
    if let Ok(invocations) = result {
        let listeners = state.listeners(name);
        assert forall|i: int| 0 <= i < invocations.len() implies state.events.contains_key(name)
            && state.events[name].listeners.contains((#[trigger] invocations@[i]).listener) by {
            assert(state.events[name].listeners[i] == invocations@[i].listener);
        }
        assert forall|listener: Arc<SyncEventListener<C>>| #[trigger]
            listeners.contains(listener) implies exists|i: int|
            0 <= i < invocations.len() && (#[trigger] invocations@[i]).listener == listener by {
            let i = choose|i: int| 0 <= i < listeners.len() && listeners[i] == listener;
            assert(invocations@[i].listener == listener);
        }
    }
}

/// The listeners of an event are those in its list; an event without a list has none.
pub proof fn listeners_are_in_the_list<C>(state: EmitterView<C>, name: Seq<char>)
    ensures
        state.events.contains_key(name) ==> state.listeners(name) == state.events[name].listeners,
        !state.events.contains_key(name) ==> state.listeners(name).len() == 0,
{
}

/// Two emissions of different events have no listener in common.
pub proof fn emissions_do_not_mix<C, T, U>(
    state: EmitterView<C>,
    a: Seq<char>,
    b: Seq<char>,
    first: EventResult<Vec<Invocation<C, T>>>,
    second: EventResult<Vec<Invocation<C, U>>>,
    i: int,
    j: int,
)
    requires
        state.consistent(),
        a != b,
        state.emits(a, first),
        state.emits(b, second),
        first is Ok,
        second is Ok,
        0 <= i < first->Ok_0.len(),
        0 <= j < second->Ok_0.len(),
    ensures
        first->Ok_0@[i].listener.id != second->Ok_0@[j].listener.id,
{
    emission_reaches_the_event_alone(state, a, first);
    emission_reaches_the_event_alone(state, b, second);
    let id = first->Ok_0@[i].listener.id;
    if second->Ok_0@[j].listener.id == id {
        assert(state.events[a].has_at(i, id));
        assert(state.events[b].has_at(j, id));
        assert(state.has(a, id) && state.has(b, id));
    }
}

/// `emit` invokes each listener of the event, and no other, once, in the order of registration and without an
/// argument.
pub proof fn emit_invokes_the_listeners<C>(
    emitter: &ParallelEventEmitter<C>,
    event: &str,
    result: EventResult<Vec<Invocation<C, ()>>>,
)
    requires
        call_ensures(ParallelEventEmitter::<C>::emit, (emitter, event), result),
    ensures
        result is Err <==> emitter@.poisoned || emitter@.events.contains_key(event@)
            && emitter@.events[event@].poisoned,
        result is Ok && !emitter@.events.contains_key(event@) ==> result->Ok_0.len() == 0,
        result is Ok && emitter@.events.contains_key(event@) ==> result->Ok_0.len()
            == emitter@.events[event@].listeners.len(),
        result is Ok ==> forall|i: int|
            0 <= i < result->Ok_0.len() ==> (#[trigger] result->Ok_0@[i]).listener
                == emitter@.events[event@].listeners[i],
        result is Ok ==> forall|i: int|
            0 <= i < result->Ok_0.len() ==> (#[trigger] result->Ok_0@[i]).arg is None,
{
    emission_reaches_the_event_alone(emitter@, event@, result);
    listeners_are_in_the_list(emitter@, event@);
}

/// `emit_value` invokes each listener of the event, and no other, once, in the order of registration and with a
/// clone of the value that is its own.
pub proof fn emit_value_invokes_the_listeners<C, T: Clone>(
    emitter: &ParallelEventEmitter<C>,
    event: &str,
    value: T,
    result: EventResult<Vec<Invocation<C, T>>>,
)
    requires
        call_ensures(
            ParallelEventEmitter::<C>::emit_value::<T>,
            (emitter, event, value),
            result,
        ),
    ensures
        result is Err <==> emitter@.poisoned || emitter@.events.contains_key(event@)
            && emitter@.events[event@].poisoned,
        result is Ok && !emitter@.events.contains_key(event@) ==> result->Ok_0.len() == 0,
        result is Ok && emitter@.events.contains_key(event@) ==> result->Ok_0.len()
            == emitter@.events[event@].listeners.len(),
        result is Ok ==> forall|i: int|
            0 <= i < result->Ok_0.len() ==> (#[trigger] result->Ok_0@[i]).listener
                == emitter@.events[event@].listeners[i],
        result is Ok ==> forall|i: int|
            0 <= i < result->Ok_0.len() ==> ((#[trigger] result->Ok_0@[i]).arg matches Some(
                ArcCowish::Owned(copy),
            ) && vstd::pervasive::strictly_cloned(value, copy)),
{
    emission_reaches_the_event_alone(emitter@, event@, result);
    listeners_are_in_the_list(emitter@, event@);
}

/// `emit_value_sync` invokes each listener of the event, and no other, once, in the order of registration and
/// with the value itself, which all of them share.
pub proof fn emit_value_sync_invokes_the_listeners<C, T>(
    emitter: &ParallelEventEmitter<C>,
    event: &str,
    value: T,
    result: EventResult<Vec<Invocation<C, T>>>,
)
    requires
        call_ensures(
            ParallelEventEmitter::<C>::emit_value_sync::<T>,
            (emitter, event, value),
            result,
        ),
    ensures
        result is Err <==> emitter@.poisoned || emitter@.events.contains_key(event@)
            && emitter@.events[event@].poisoned,
        result is Ok && !emitter@.events.contains_key(event@) ==> result->Ok_0.len() == 0,
        result is Ok && emitter@.events.contains_key(event@) ==> result->Ok_0.len()
            == emitter@.events[event@].listeners.len(),
        result is Ok ==> forall|i: int|
            0 <= i < result->Ok_0.len() ==> (#[trigger] result->Ok_0@[i]).listener
                == emitter@.events[event@].listeners[i],
        result is Ok ==> forall|i: int|
            0 <= i < result->Ok_0.len() ==> ((#[trigger] result->Ok_0@[i]).arg matches Some(
                ArcCowish::Borrowed(shared),
            ) && *shared == value),
{
    emission_reaches_the_event_alone(emitter@, event@, result);
    listeners_are_in_the_list(emitter@, event@);
}

/// Events are listed, or visited, exactly if their list holds a listener, and each once.
pub proof fn listed_events_have_listeners<C>(state: EmitterView<C>, names: Seq<Seq<char>>)
    requires
        state.named(names),
    ensures
        forall|i: int, j: int| 0 <= i < j < names.len() ==> names[i] != names[j],
        forall|i: int|
            0 <= i < names.len() ==> state.events.contains_key(#[trigger] names[i])
                && state.events[names[i]].listeners.len() > 0,
        forall|name: Seq<char>| #[trigger]
            state.events.contains_key(name) && state.events[name].listeners.len() > 0
                ==> names.contains(name),
{
    assert forall|i: int| 0 <= i < names.len() implies state.events.contains_key(#[trigger] names[i])
        && state.events[names[i]].listeners.len() > 0 by {
        assert(names.contains(names[i]));
        assert(state.listened(names[i]));
    }
    assert forall|name: Seq<char>| #[trigger]
        state.events.contains_key(name) && state.events[name].listeners.len()
            > 0 implies names.contains(name) by {
        assert(state.listened(name));
    }
}

/// Somebody listens for an event exactly if its list holds a listener.
pub proof fn listened_events_have_listeners<C>(state: EmitterView<C>, name: Seq<char>)
    ensures
        state.listened(name) <==> state.events.contains_key(name)
            && state.events[name].listeners.len() > 0,
{
}

/// `event_names` returns the events whose list holds a listener, each once, unless the table is poisoned.
pub proof fn event_names_are_those_listened_for<C>(
    emitter: &ParallelEventEmitter<C>,
    result: EventResult<Vec<String>>,
)
    requires
        call_ensures(ParallelEventEmitter::<C>::event_names, (emitter,), result),
    ensures
        result is Err <==> emitter@.poisoned,
        result is Ok ==> forall|i: int, j: int|
            0 <= i < j < result->Ok_0.len() ==> (#[trigger] result->Ok_0@[i])@ != (
            #[trigger] result->Ok_0@[j])@,
        result is Ok ==> forall|i: int|
            0 <= i < result->Ok_0.len() ==> emitter@.events.contains_key(
                (#[trigger] result->Ok_0@[i])@,
            ) && emitter@.events[result->Ok_0@[i]@].listeners.len() > 0,
        result is Ok ==> forall|name: Seq<char>| #[trigger]
            emitter@.events.contains_key(name) && emitter@.events[name].listeners.len() > 0
                ==> exists|i: int| 0 <= i < result->Ok_0.len() && (#[trigger] result->Ok_0@[i])@ == name,
{
    if let Ok(copies) = result {
        let names = copies@.map_values(|name: String| name@);
        listed_events_have_listeners(emitter@, names);
        assert forall|i: int, j: int| 0 <= i < j < copies.len() implies (#[trigger] copies@[i])@ != (
        #[trigger] copies@[j])@ by {
            assert(names[i] != names[j]);
        }
        assert forall|i: int| 0 <= i < copies.len() implies emitter@.events.contains_key(
            (#[trigger] copies@[i])@,
        ) && emitter@.events[copies@[i]@].listeners.len() > 0 by {
            assert(names[i] == copies@[i]@);
        }
        assert forall|name: Seq<char>| #[trigger]
            emitter@.events.contains_key(name) && emitter@.events[name].listeners.len()
                > 0 implies exists|i: int| 0 <= i < copies.len() && (#[trigger] copies@[i])@ == name by {
            let i = choose|i: int| 0 <= i < names.len() && names[i] == name;
            assert(copies@[i]@ == name);
        }
    }
}

/// What a round hands on is the visitor itself and the names themselves.
pub proof fn round_hands_on<'n, F>(listed: Vec<&'n String>, name: &'n String, visitor: F)
    ensures
        <Vec<&'n String> as Round<'n, F>>::names(listed) == listed@,
        <Vec<&'n String> as Round<'n, F>>::shown(name) == name,
        <Vec<&'n String> as Round<'n, F>>::visiting(visitor) == visitor,
{
}

/// What is called is the callback itself, and the argument that comes in is what it is called with.
pub proof fn call_hands_on<'s, F: 's, A>(cb: &'s F, arg: A)
    ensures
        <F as OneCall<'s, A>>::carried(arg) == arg,
        *<F as OneCall<'s, A>>::shot(cb) == *cb,
{
}

/// A plain listener accepts an invocation exactly if its callback accepts a call, and what comes of the invocation
/// is what came of the call.
pub proof fn plain_listener_forwards<'s, A, X, F: 's + Fn() -> Result<(), X>>(
    cb: &'s F,
    result: Result<(), X>,
)
    ensures
        call_requires(<F as OneCall<'s, Option<A>>>::shot(cb), ()) == call_requires(*cb, ()),
        call_ensures(<F as OneCall<'s, Option<A>>>::shot(cb), (), result) == call_ensures(
            *cb,
            (),
            result,
        ),
{
}

/// A value listener accepts an invocation exactly if its callback accepts a call, and what comes of the invocation
/// is what came of the call.
pub proof fn value_listener_forwards<
    's,
    'a,
    T: Clone + 'a,
    X,
    F: 's + Fn(Option<T>) -> Result<(), X>,
>(cb: &'s F, given: Option<T>, result: Result<(), X>)
    ensures
        call_requires(<F as OneCall<'s, Option<Downcast<'a, T>>>>::shot(cb), (given,))
            == call_requires(*cb, (given,)),
        call_ensures(<F as OneCall<'s, Option<Downcast<'a, T>>>>::shot(cb), (given,), result)
            == call_ensures(*cb, (given,), result),
{
}

/// A listener for references accepts an invocation exactly if its callback accepts a call, and what comes of the
/// invocation is what came of the call.
pub proof fn sync_listener_forwards<
    's,
    'a,
    T: 'a,
    X,
    F: 's + Fn(Option<&T>) -> Result<(), X>,
>(cb: &'s F, value: T, result: Result<(), X>)
    ensures
        call_requires(<F as OneCall<'s, Option<Downcast<'a, T>>>>::shot(cb), (Some(&value),))
            == call_requires(*cb, (Some(&value),)),
        call_requires(<F as OneCall<'s, Option<Downcast<'a, T>>>>::shot(cb), (None::<&T>,))
            == call_requires(*cb, (None::<&T>,)),
        call_ensures(
            <F as OneCall<'s, Option<Downcast<'a, T>>>>::shot(cb),
            (Some(&value),),
            result,
        ) == call_ensures(*cb, (Some(&value),), result),
        call_ensures(<F as OneCall<'s, Option<Downcast<'a, T>>>>::shot(cb), (None::<&T>,), result)
            == call_ensures(*cb, (None::<&T>,), result),
{
}

/// A callback that is said to return `result` on what it sees returns that very result.
pub proof fn sync_listener_returns_the_outcome<T, X, F: Fn(Option<&T>) -> Result<(), X>>(
    listener: SyncListener<T, F>,
    value: T,
    result: Result<(), X>,
)
    ensures
        listener.accepts(Some(value)) == call_requires(listener.cb, (Some(&value),)),
        listener.accepts(None) == call_requires(listener.cb, (None,)),
        listener.returns_on(Some(value), result) == call_ensures(
            listener.cb,
            (Some(&value),),
            result,
        ),
        listener.returns_on(None, result) == call_ensures(listener.cb, (None,), result),
{
}

/// What a value listener's callback takes: the value if it is the listener's own, a clone if it is shared, and
/// `None` where there is no value or one of another type.
pub proof fn value_listener_takes<'a, T: Clone, F>(value: T, given: Option<T>)
    ensures
        ValueListener::<T, F>::may_take(Some(ArcCowish::Owned(Some(value))), given) <==> given
            == Some(value),
        ValueListener::<T, F>::may_take(Some(ArcCowish::Borrowed(Some(&value))), given) <==> given
            is Some && vstd::pervasive::strictly_cloned(value, given->0),
        ValueListener::<T, F>::may_take(Some(ArcCowish::Owned(None)), given) <==> given is None,
        ValueListener::<T, F>::may_take(Some(ArcCowish::Borrowed(None)), given) <==> given is None,
        ValueListener::<T, F>::may_take(None, given) <==> given is None,
{
}

/// What a callback for references sees: the value, whether it is the listener's own or shared, and `None` where
/// there is no value or one of another type.
pub proof fn sync_listener_sees<T, F>(value: T)
    ensures
        SyncListener::<T, F>::seen(Some(ArcCowish::Owned(Some(value)))) == Some(value),
        SyncListener::<T, F>::seen(Some(ArcCowish::Borrowed(Some(&value)))) == Some(value),
        SyncListener::<T, F>::seen(Some(ArcCowish::Owned(None))) is None,
        SyncListener::<T, F>::seen(Some(ArcCowish::Borrowed(None))) is None,
        SyncListener::<T, F>::seen(None) is None,
{
}

/// The listeners around a callback hold that callback.
pub proof fn listeners_hold_their_callback<T, F>(cb: F)
    ensures
        ValueListener::<T, F>::around(cb).cb == cb,
        SyncListener::<T, F>::around(cb).cb == cb,
{
}

/// What a listener finds of an argument of its own type is that argument.
pub proof fn own_type_is_found<T>(value: T, shared: Arc<T>, found: Option<Downcast<T>>)
    ensures
        crate::listener::found_same(None::<Emitted<T>>, found) <==> found is None,
        crate::listener::found_same(Some(ArcCowish::Owned(value)), found) <==> (found matches Some(
            ArcCowish::Owned(Some(seen)),
        ) && seen == value),
        crate::listener::found_same(Some(ArcCowish::Borrowed(shared)), found) <==> (
        found matches Some(ArcCowish::Borrowed(Some(seen))) && *seen == *shared),
{
}

/// What a listener finds of an argument of another type is that it is none of its own.
pub proof fn other_type_is_not_found<U, T>(value: U, shared: Arc<U>, found: Option<Downcast<T>>)
    ensures
        crate::listener::found_other(None::<Emitted<U>>, found) <==> found is None,
        crate::listener::found_other(Some(ArcCowish::Owned(value)), found) <==> (
        found matches Some(ArcCowish::Owned(None))),
        crate::listener::found_other(Some(ArcCowish::Borrowed(shared)), found) <==> (
        found matches Some(ArcCowish::Borrowed(None))),
{
}

/// What an emission carries: nothing, a clone of the value for each invocation, or the value for all of them.
pub proof fn emissions_carry<C, T: Clone>(
    invocations: Seq<Invocation<C, T>>,
    value: T,
    i: int,
)
    requires
        0 <= i < invocations.len(),
    ensures
        crate::listener::carry_nothing(invocations) ==> invocations[i].arg is None,
        crate::listener::carry_copies(invocations, value) ==> (invocations[i].arg matches Some(
            ArcCowish::Owned(copy),
        ) && vstd::pervasive::strictly_cloned(value, copy)),
        crate::listener::carry_shared(invocations, value) ==> (invocations[i].arg matches Some(
            ArcCowish::Borrowed(shared),
        ) && *shared == value),
{
}

/// An invocation that was claimed counts as run if its callback succeeds, and fails with the callback's error
/// otherwise. One that was not claimed does not count, and an error in claiming it is its error.
pub proof fn invocation_reports<X>(
    outcome: Result<(), X>,
    result: Result<bool, InvocationError<X>>,
    error: X,
    refused: EventError,
)
    ensures
        crate::listener::reports(Ok(()), result) <==> result == Ok::<bool, InvocationError<X>>(true),
        crate::listener::reports(Err(error), result) <==> result == Err::<bool, InvocationError<X>>(
            InvocationError::Callback(error),
        ),
        crate::listener::invoked(Ok(true), outcome, result) <==> crate::listener::reports(
            outcome,
            result,
        ),
        crate::listener::invoked(Ok(false), outcome, result) <==> result == Ok::<
            bool,
            InvocationError<X>,
        >(false),
        crate::listener::invoked(Err(refused), outcome, result) <==> result == Err::<
            bool,
            InvocationError<X>,
        >(InvocationError::Event(refused)),
{
}

/// An emission resolves to how many of its invocations ran: none of none, and one more for each that ran.
pub proof fn emission_counts(executed: Seq<bool>, last: bool)
    ensures
        crate::listener::number_ran(Seq::empty()) == 0,
        crate::listener::number_ran(executed.push(last)) == crate::listener::number_ran(executed) + (
        if last {
            1int
        } else {
            0
        }),
{
    reveal(Seq::filter);
    assert(executed.push(last).drop_last() =~= executed);
}

/// `count_ran` counts how often `true` was reported.
pub proof fn counted_is_how_many_ran(executed: &Vec<bool>, count: usize)
    requires
        call_ensures(crate::listener::count_ran, (executed,), count),
    ensures
        count == executed@.to_multiset().count(true),
{
    crate::laws::number_ran_is_count(executed@);
}

} // verus!
