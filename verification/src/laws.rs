//! Properties that span several operations of an emitter

use std::sync::Arc;

use crate::error::{EventError, EventResult};
use crate::listener::{
    Downcast, Invocation, ListenerId, SyncEventListener, SyncListener, ValueListener,
};
use crate::model::EmitterView;
use vstd::prelude::*;

verus! {

/// Which ids are in use after a registration: those that were in use before, and the new one.
proof fn registered_has<C>(
    state: EmitterView<C>,
    name: Seq<char>,
    once: bool,
    cb: C,
    other: Seq<char>,
    id: ListenerId,
)
    ensures
        state.registered(name, once, cb).has(other, id) <==> state.has(other, id) || (other == name
            && id == state.next_id as ListenerId),
{
    let post = state.registered(name, once, cb);
    let before = state.listeners(name);
    let after = post.events[name].listeners;
    if other == name {
        if state.has(name, id) {
            let i = choose|i: int| state.events[name].has_at(i, id);
            assert(post.events[name].has_at(i, id));
        }
        if id == state.next_id as ListenerId {
            assert(post.events[name].has_at(before.len() as int, id));
        }
        if post.has(name, id) {
            let i = choose|i: int| post.events[name].has_at(i, id);
            if i < before.len() {
                assert(after[i] == before[i]);
                assert(state.events[name].has_at(i, id));
            }
        }
    }
}

/// A new listener comes after all that its event had.
proof fn registered_is_sorted<C>(state: EmitterView<C>, name: Seq<char>, once: bool, cb: C)
    requires
        state.consistent(),
    ensures
        state.registered(name, once, cb).events[name].sorted(),
{
    let before = state.listeners(name);
    let after = state.registered(name, once, cb).events[name].listeners;
    if state.events.contains_key(name) {
        assert(state.events[name].sorted());
    }
    assert forall|i: int, j: int| 0 <= i < j < after.len() implies after[i].id < after[j].id by {
        if j == before.len() {
            assert(state.events[name].has_at(i, before[i].id));
            assert(state.has(name, before[i].id));
        }
    }
}

/// Which ids are in use after a removal: those that were in use before, but the removed one.
proof fn without_has<C>(
    state: EmitterView<C>,
    name: Seq<char>,
    i: int,
    other: Seq<char>,
    id: ListenerId,
)
    requires
        state.events.contains_key(name),
        state.events[name].sorted(),
        0 <= i < state.events[name].listeners.len(),
    ensures
        state.without(name, i).has(other, id) <==> state.has(other, id) && !(other == name && id
            == state.events[name].listeners[i].id),
{
    let post = state.without(name, i);
    let before = state.events[name].listeners;
    let after = post.events[name].listeners;
    if other == name {
        if state.has(name, id) && id != before[i].id {
            let k = choose|k: int| state.events[name].has_at(k, id);
            if k < i {
                assert(after[k] == before[k]);
                assert(post.events[name].has_at(k, id));
            } else {
                assert(after[k - 1] == before[k]);
                assert(post.events[name].has_at(k - 1, id));
            }
        }
        if post.has(name, id) {
            let k = choose|k: int| post.events[name].has_at(k, id);
            if k < i {
                assert(after[k] == before[k]);
                assert(state.events[name].has_at(k, id));
            } else {
                assert(after[k] == before[k + 1]);
                assert(state.events[name].has_at(k + 1, id));
            }
        }
    }
}

/// Registering a listener keeps the ids consistent, as long as they have not run out.
pub proof fn adding_keeps_consistent<C>(
    state: EmitterView<C>,
    name: Seq<char>,
    once: bool,
    cb: C,
    result: EventResult<ListenerId>,
    post: EmitterView<C>,
)
    requires
        state.consistent(),
        state.next_id < usize::MAX,
        state.adds(name, once, cb, result, post),
    ensures
        post.consistent(),
{
    if !state.blocked(name) {
        assert forall|other: Seq<char>, id: ListenerId| #[trigger] post.has(other, id) implies id
            < post.next_id by {
            registered_has(state, name, once, cb, other, id);
        }
        assert forall|a: Seq<char>, b: Seq<char>, id: ListenerId| #[trigger]
            post.has(a, id) && #[trigger] post.has(b, id) implies a == b by {
            registered_has(state, name, once, cb, a, id);
            registered_has(state, name, once, cb, b, id);
        }
        assert forall|other: Seq<char>| #[trigger]
            post.events.contains_key(other) implies post.events[other].sorted() by {
            if other == name {
                registered_is_sorted(state, name, once, cb);
            } else {
                assert(state.events.contains_key(other));
            }
        }
    }
}

/// Removing the `i`-th listener of an event keeps the ids consistent.
proof fn without_keeps_consistent<C>(state: EmitterView<C>, name: Seq<char>, i: int)
    requires
        state.consistent(),
        state.events.contains_key(name),
        0 <= i < state.events[name].listeners.len(),
    ensures
        state.without(name, i).consistent(),
{
    let post = state.without(name, i);
    assert forall|other: Seq<char>, id: ListenerId| #[trigger] post.has(other, id) implies id
        < post.next_id by {
        without_has(state, name, i, other, id);
    }
    assert forall|a: Seq<char>, b: Seq<char>, id: ListenerId| #[trigger]
        post.has(a, id) && #[trigger] post.has(b, id) implies a == b by {
        without_has(state, name, i, a, id);
        without_has(state, name, i, b, id);
    }
    assert forall|other: Seq<char>| #[trigger] post.events.contains_key(other) implies post.events[
    other].sorted() by {
        assert(state.events.contains_key(other));
    }
}

/// Where a removal found the listener in its event.
pub proof fn removed_at<C>(
    state: EmitterView<C>,
    name: Seq<char>,
    id: ListenerId,
    post: EmitterView<C>,
) -> (i: int)
    requires
        state.removes(name, id, Ok(true), post),
    ensures
        state.has(name, id),
        state.events[name].has_at(i, id),
        post == state.without(name, i),
{
    choose|i: int| #[trigger] state.events[name].has_at(i, id) && post == state.without(name, i)
}

/// The event in which a removal by id alone found the listener, and where.
pub proof fn removed_any_at<C>(
    state: EmitterView<C>,
    id: ListenerId,
    post: EmitterView<C>,
) -> (found: (Seq<char>, int))
    requires
        state.removes_any(id, Ok(true), post),
    ensures
        state.has(found.0, id),
        !state.events[found.0].poisoned,
        state.events[found.0].has_at(found.1, id),
        post == state.without(found.0, found.1),
{
    choose|name: Seq<char>, i: int|
        {
            &&& state.events.contains_key(name)
            &&& !state.events[name].poisoned
            &&& #[trigger] state.events[name].has_at(i, id)
            &&& post == state.without(name, i)
        }
}

/// Removing a listener keeps the ids consistent.
pub proof fn removing_keeps_consistent<C>(
    state: EmitterView<C>,
    name: Seq<char>,
    id: ListenerId,
    result: EventResult<bool>,
    post: EmitterView<C>,
)
    requires
        state.consistent(),
        state.removes(name, id, result, post),
    ensures
        post.consistent(),
{
    if result == Ok::<bool, EventError>(true) {
        let i = removed_at(state, name, id, post);
        without_keeps_consistent(state, name, i);
    }
}

/// Removing a listener from whatever event has it keeps the ids consistent.
pub proof fn removing_any_keeps_consistent<C>(
    state: EmitterView<C>,
    id: ListenerId,
    result: EventResult<bool>,
    post: EmitterView<C>,
)
    requires
        state.consistent(),
        state.removes_any(id, result, post),
    ensures
        post.consistent(),
{
    if result == Ok::<bool, EventError>(true) {
        let (name, i) = removed_any_at(state, id, post);
        without_keeps_consistent(state, name, i);
    }
}

/// One operation leads from `pre` to `post`, which is not one that removes the spared id, if there is such;
/// registrations are only considered while ids are left.
pub open spec fn step_sparing<C>(
    pre: EmitterView<C>,
    post: EmitterView<C>,
    spared: Option<ListenerId>,
) -> bool {
    ||| exists|name: Seq<char>, once: bool, cb: C, result: EventResult<ListenerId>|
        pre.next_id < usize::MAX && #[trigger] pre.adds(name, once, cb, result, post)
    ||| exists|name: Seq<char>, id: ListenerId, result: EventResult<bool>| #[trigger]
        pre.removes(name, id, result, post) && spared != Some(id)
    ||| exists|id: ListenerId, result: EventResult<bool>| #[trigger]
        pre.removes_any(id, result, post) && spared != Some(id)
    ||| exists|name: Seq<char>, listener: SyncEventListener<C>, result: EventResult<bool>| #[trigger]
        pre.claims(name, listener, result, post) && (listener.once ==> spared != Some(listener.id))
    ||| post == pre.with_poison()
    ||| exists|name: Seq<char>| post == #[trigger] pre.with_event_poison(name)
}

/// One operation leads from `pre` to `post`.
pub open spec fn step<C>(pre: EmitterView<C>, post: EmitterView<C>) -> bool {
    step_sparing(pre, post, None)
}

/// The states that an emitter goes through, one operation after the other, none of which removes the
/// spared id, if there is such.
pub open spec fn history_sparing<C>(
    states: Seq<EmitterView<C>>,
    spared: Option<ListenerId>,
) -> bool {
    &&& states.len() > 0
    &&& forall|i: int|
        0 <= i < states.len() - 1 ==> step_sparing(#[trigger] states[i], states[i + 1], spared)
}

/// The states that an emitter goes through, one operation after the other.
pub open spec fn history<C>(states: Seq<EmitterView<C>>) -> bool {
    history_sparing(states, None)
}

/// What no operation takes back between two states: ids in use stay consistent and count up, a retired id
/// stays retired, a known event stays known, a poisoned lock stays poisoned, and the pool stays the same.
pub open spec fn keeps<C>(pre: EmitterView<C>, post: EmitterView<C>) -> bool {
    &&& post.consistent()
    &&& pre.next_id <= post.next_id
    &&& forall|id: ListenerId| #[trigger] pre.retired(id) ==> post.retired(id)
    &&& forall|name: Seq<char>| #[trigger]
        pre.events.contains_key(name) ==> post.events.contains_key(name)
    &&& forall|name: Seq<char>| #[trigger] pre.blocked(name) ==> post.blocked(name)
    &&& post.pool == pre.pool
}

proof fn adding_keeps<C>(
    state: EmitterView<C>,
    name: Seq<char>,
    once: bool,
    cb: C,
    result: EventResult<ListenerId>,
    post: EmitterView<C>,
)
    requires
        state.consistent(),
        state.next_id < usize::MAX,
        state.adds(name, once, cb, result, post),
    ensures
        keeps(state, post),
{
    adding_keeps_consistent(state, name, once, cb, result, post);
    if !state.blocked(name) {
        assert forall|id: ListenerId| #[trigger] state.retired(id) implies post.retired(id) by {
            assert forall|other: Seq<char>| !#[trigger] post.has(other, id) by {
                assert(!state.has(other, id));
                registered_has(state, name, once, cb, other, id);
            }
        }
    }
}

proof fn without_keeps<C>(state: EmitterView<C>, name: Seq<char>, i: int)
    requires
        state.consistent(),
        state.events.contains_key(name),
        0 <= i < state.events[name].listeners.len(),
    ensures
        keeps(state, state.without(name, i)),
{
    let post = state.without(name, i);
    without_keeps_consistent(state, name, i);
    assert forall|id: ListenerId| #[trigger] state.retired(id) implies post.retired(id) by {
        assert forall|other: Seq<char>| !#[trigger] post.has(other, id) by {
            assert(!state.has(other, id));
            without_has(state, name, i, other, id);
        }
    }
}

/// Removing a listener retires its id and takes no other listener away.
proof fn without_stays<C>(
    state: EmitterView<C>,
    name: Seq<char>,
    i: int,
    event: Seq<char>,
    listener: Arc<SyncEventListener<C>>,
)
    requires
        state.consistent(),
        state.events.contains_key(name),
        0 <= i < state.events[name].listeners.len(),
    ensures
        state.without(name, i).retired(state.events[name].listeners[i].id),
        state.listeners(event).contains(listener) ==> state.without(name, i).listeners(
            event,
        ).contains(listener) || listener == state.events[name].listeners[i],
{
    let post = state.without(name, i);
    let before = state.events[name].listeners;
    let id = before[i].id;
    assert(state.events[name].has_at(i, id));
    assert(state.has(name, id));
    assert forall|other: Seq<char>| !#[trigger] post.has(other, id) by {
        without_has(state, name, i, other, id);
        if state.has(other, id) {
            assert(other == name);
        }
    }
    if state.listeners(event).contains(listener) && event == name {
        let k = choose|k: int| 0 <= k < before.len() && before[k] == listener;
        if k < i {
            assert(post.listeners(event)[k] == listener);
        } else if k > i {
            assert(post.listeners(event)[k - 1] == listener);
        }
    }
}

proof fn removing_keeps<C>(
    state: EmitterView<C>,
    name: Seq<char>,
    id: ListenerId,
    result: EventResult<bool>,
    post: EmitterView<C>,
    event: Seq<char>,
    listener: Arc<SyncEventListener<C>>,
)
    requires
        state.consistent(),
        state.removes(name, id, result, post),
    ensures
        keeps(state, post),
        result == Ok::<bool, EventError>(true) ==> post.retired(id),
        state.listeners(event).contains(listener) ==> post.listeners(event).contains(listener) || (
        post.retired(listener.id) && listener.id == id),
{
    if result == Ok::<bool, EventError>(true) {
        let i = removed_at(state, name, id, post);
        without_keeps(state, name, i);
        without_stays(state, name, i, event, listener);
    }
}

proof fn poisoning_keeps<C>(state: EmitterView<C>, name: Seq<char>)
    requires
        state.consistent(),
    ensures
        keeps(state, state.with_poison()),
        keeps(state, state.with_event_poison(name)),
{
    let whole = state.with_poison();
    assert forall|other: Seq<char>, id: ListenerId| #[trigger]
        whole.has(other, id) == state.has(other, id) by {}
    assert forall|id: ListenerId| #[trigger] state.retired(id) implies whole.retired(id) by {
        assert forall|other: Seq<char>| !#[trigger] whole.has(other, id) by {
            assert(!state.has(other, id));
        }
    }
    assert(whole.consistent());
    let event = state.with_event_poison(name);
    assert forall|other: Seq<char>, id: ListenerId| #[trigger]
        event.has(other, id) == state.has(other, id) by {
        if state.has(other, id) {
            let i = choose|i: int| state.events[other].has_at(i, id);
            assert(event.events[other].has_at(i, id));
        }
        if event.has(other, id) {
            let i = choose|i: int| event.events[other].has_at(i, id);
            assert(state.events[other].has_at(i, id));
        }
    }
    assert forall|id: ListenerId| #[trigger] state.retired(id) implies event.retired(id) by {
        assert forall|other: Seq<char>| !#[trigger] event.has(other, id) by {
            assert(!state.has(other, id));
        }
    }
    assert forall|other: Seq<char>| #[trigger] event.events.contains_key(other) implies event.events[
    other].sorted() by {
        assert(state.events.contains_key(other));
    }
}

/// No operation takes back what [`keeps`] lists, and none but a removal of its id takes a listener away.
proof fn sparing_step_keeps<C>(
    pre: EmitterView<C>,
    post: EmitterView<C>,
    spared: Option<ListenerId>,
    event: Seq<char>,
    listener: Arc<SyncEventListener<C>>,
)
    requires
        pre.consistent(),
        step_sparing(pre, post, spared),
    ensures
        keeps(pre, post),
        pre.listeners(event).contains(listener) ==> post.listeners(event).contains(listener) || (
        post.retired(listener.id) && spared != Some(listener.id)),
{
    if exists|name: Seq<char>, once: bool, cb: C, result: EventResult<ListenerId>|
        pre.next_id < usize::MAX && #[trigger] pre.adds(name, once, cb, result, post) {
        let (name, once, cb, result) = choose|
            name: Seq<char>,
            once: bool,
            cb: C,
            result: EventResult<ListenerId>,
        |
            pre.next_id < usize::MAX && #[trigger] pre.adds(name, once, cb, result, post);
        adding_keeps(pre, name, once, cb, result, post);
        if pre.listeners(event).contains(listener) {
            let k = choose|k: int|
                0 <= k < pre.listeners(event).len() && pre.listeners(event)[k] == listener;
            assert(post.listeners(event)[k] == listener);
        }
    } else if exists|name: Seq<char>, id: ListenerId, result: EventResult<bool>| #[trigger]
        pre.removes(name, id, result, post) && spared != Some(id) {
        let (name, id, result) = choose|
            name: Seq<char>,
            id: ListenerId,
            result: EventResult<bool>,
        | #[trigger]
            pre.removes(name, id, result, post) && spared != Some(id);
        removing_keeps(pre, name, id, result, post, event, listener);
    } else if exists|id: ListenerId, result: EventResult<bool>| #[trigger]
        pre.removes_any(id, result, post) && spared != Some(id) {
        let (id, result) = choose|id: ListenerId, result: EventResult<bool>| #[trigger]
            pre.removes_any(id, result, post) && spared != Some(id);
        if result == Ok::<bool, EventError>(true) {
            let (name, i) = removed_any_at(pre, id, post);
            without_keeps(pre, name, i);
            without_stays(pre, name, i, event, listener);
        }
    } else if exists|name: Seq<char>, claimed: SyncEventListener<C>, result: EventResult<bool>|
     #[trigger]
        pre.claims(name, claimed, result, post) && (claimed.once ==> spared != Some(claimed.id)) {
        let (name, claimed, result) = choose|
            name: Seq<char>,
            claimed: SyncEventListener<C>,
            result: EventResult<bool>,
        | #[trigger]
            pre.claims(name, claimed, result, post) && (claimed.once ==> spared != Some(
                claimed.id,
            ));
        if claimed.once {
            removing_keeps(pre, name, claimed.id, result, post, event, listener);
        }
    } else if post == pre.with_poison() {
        poisoning_keeps(pre, Seq::empty());
        assert(post.listeners(event) == pre.listeners(event));
    } else {
        let name = choose|name: Seq<char>| post == #[trigger] pre.with_event_poison(name);
        poisoning_keeps(pre, name);
        assert(post.listeners(event) == pre.listeners(event));
    }
}

/// No operation takes back what [`keeps`] lists.
pub proof fn step_keeps<C>(pre: EmitterView<C>, post: EmitterView<C>)
    requires
        pre.consistent(),
        step(pre, post),
    ensures
        keeps(pre, post),
{
    sparing_step_keeps(pre, post, None, Seq::empty(), arbitrary());
}

proof fn sparing_history_keeps<C>(
    states: Seq<EmitterView<C>>,
    spared: Option<ListenerId>,
    event: Seq<char>,
    listener: Arc<SyncEventListener<C>>,
)
    requires
        history_sparing(states, spared),
        states[0].consistent(),
    ensures
        keeps(states[0], states.last()),
        states[0].listeners(event).contains(listener) ==> states.last().listeners(event).contains(
            listener,
        ) || (states.last().retired(listener.id) && spared != Some(listener.id)),
    decreases states.len(),
{
    if states.len() > 1 {
        let earlier = states.drop_last();
        assert forall|i: int| 0 <= i < earlier.len() - 1 implies step_sparing(
            #[trigger] earlier[i],
            earlier[i + 1],
            spared,
        ) by {
            assert(step_sparing(states[i], states[i + 1], spared));
        }
        sparing_history_keeps(earlier, spared, event, listener);
        let i = states.len() - 2;
        assert(step_sparing(states[i], states[i + 1], spared));
        sparing_step_keeps(states[i], states[i + 1], spared, event, listener);
        let first = states[0];
        let before = states[i];
        let last = states.last();
        assert forall|id: ListenerId| #[trigger] first.retired(id) implies last.retired(id) by {
            assert(before.retired(id));
        }
        assert forall|name: Seq<char>| #[trigger] first.blocked(name) implies last.blocked(name) by {
            assert(before.blocked(name));
        }
        if before.retired(listener.id) {
            assert(last.retired(listener.id));
        }
    }
}

/// Over any sequence of operations, nothing that [`keeps`] lists is taken back.
pub proof fn history_keeps<C>(states: Seq<EmitterView<C>>)
    requires
        history(states),
        states[0].consistent(),
    ensures
        keeps(states[0], states.last()),
{
    sparing_history_keeps(states, None, Seq::empty(), arbitrary());
}

/// A listener can be found by its id, and its id under no other listener.
proof fn listener_position<C>(
    state: EmitterView<C>,
    name: Seq<char>,
    listener: Arc<SyncEventListener<C>>,
) -> (i: int)
    requires
        state.consistent(),
        state.listeners(name).contains(listener),
    ensures
        state.has(name, listener.id),
        !state.retired(listener.id),
        0 <= i < state.listeners(name).len(),
        state.listeners(name)[i] == listener,
        forall|j: int|
            0 <= j < state.listeners(name).len() && j != i ==> (#[trigger] state.listeners(
                name,
            )[j]).id != listener.id,
{
    let i = choose|i: int|
        0 <= i < state.listeners(name).len() && state.listeners(name)[i] == listener;
    assert(state.events[name].has_at(i, listener.id));
    assert(state.has(name, listener.id));
    assert(state.events[name].sorted());
    i
}

/// A listener stays with its event until its id is retired, whatever else happens.
pub proof fn stays_until_retired<C>(
    states: Seq<EmitterView<C>>,
    name: Seq<char>,
    listener: Arc<SyncEventListener<C>>,
)
    requires
        history(states),
        states[0].consistent(),
        states[0].listeners(name).contains(listener),
    ensures
        states.last().listeners(name).contains(listener) || states.last().retired(listener.id),
{
    sparing_history_keeps(states, None, name, listener);
}

/// Nothing but a removal of its id, or a claim of it where it is to run once, takes a listener from its event
/// or retires its id.
pub proof fn stays_unless_removed<C>(
    states: Seq<EmitterView<C>>,
    name: Seq<char>,
    listener: Arc<SyncEventListener<C>>,
)
    requires
        history_sparing(states, Some(listener.id)),
        states[0].consistent(),
        states[0].listeners(name).contains(listener),
    ensures
        states.last().listeners(name).contains(listener),
        !states.last().retired(listener.id),
{
    sparing_history_keeps(states, Some(listener.id), name, listener);
    listener_position(states.last(), name, listener);
}

/// The id that a registration returns belongs to no other listener, and to the new one from then on.
pub proof fn new_id_is_unique<C>(
    state: EmitterView<C>,
    name: Seq<char>,
    once: bool,
    cb: C,
    id: ListenerId,
    post: EmitterView<C>,
)
    requires
        state.consistent(),
        state.adds(name, once, cb, Ok(id), post),
    ensures
        forall|other: Seq<char>| !#[trigger] state.has(other, id),
        forall|other: Seq<char>| #[trigger] post.has(other, id) <==> other == name,
{
    assert forall|other: Seq<char>| #[trigger] post.has(other, id) <==> other == name by {
        registered_has(state, name, once, cb, other, id);
    }
}

/// Two registrations with the same emitter, whatever happens in between, return different ids: the later
/// one returns the greater.
pub proof fn ids_never_repeat<C>(
    before: EmitterView<C>,
    first: (Seq<char>, bool, C, ListenerId),
    between: Seq<EmitterView<C>>,
    second: (Seq<char>, bool, C, ListenerId),
    after: EmitterView<C>,
)
    requires
        before.consistent(),
        before.next_id < usize::MAX,
        history(between),
        before.adds(first.0, first.1, first.2, Ok(first.3), between[0]),
        between.last().adds(second.0, second.1, second.2, Ok(second.3), after),
    ensures
        first.3 < second.3,
{
    adding_keeps_consistent(before, first.0, first.1, first.2, Ok(first.3), between[0]);
    history_keeps(between);
}

/// A listener that was just registered can be removed with the id that the registration returned, which
/// leaves the event's listeners as they were before.
pub proof fn adding_then_removing<C>(
    state: EmitterView<C>,
    name: Seq<char>,
    once: bool,
    cb: C,
    id: ListenerId,
    added: EmitterView<C>,
    result: EventResult<bool>,
    post: EmitterView<C>,
)
    requires
        state.consistent(),
        state.adds(name, once, cb, Ok(id), added),
        added.removes(name, id, result, post),
    ensures
        result == Ok::<bool, EventError>(true),
        forall|other: Seq<char>| #[trigger] post.listeners(other) == state.listeners(other),
{
    registered_is_sorted(state, name, once, cb);
    new_id_is_unique(state, name, once, cb, id, added);
    assert(added.has(name, id));
    let last = state.listeners(name).len() as int;
    assert(added.events[name].has_at(last, id));
    let i = removed_at(added, name, id, post);
    assert(i == last);
    assert(post.listeners(name) =~= state.listeners(name));
}

/// Removing a listener retires its id.
pub proof fn removing_retires<C>(
    state: EmitterView<C>,
    name: Seq<char>,
    id: ListenerId,
    post: EmitterView<C>,
)
    requires
        state.consistent(),
        state.removes(name, id, Ok(true), post),
    ensures
        post.retired(id),
{
    removing_keeps(state, name, id, Ok(true), post, name, arbitrary());
}

/// A retired id is not found by any later removal, whatever happens in between: neither in the event that
/// it belonged to nor in any other.
pub proof fn retired_is_not_found<C>(
    states: Seq<EmitterView<C>>,
    name: Seq<char>,
    id: ListenerId,
    result: EventResult<bool>,
    post: EmitterView<C>,
)
    requires
        history(states),
        states[0].consistent(),
        states[0].retired(id),
        states.last().removes(name, id, result, post) || states.last().removes_any(
            id,
            result,
            post,
        ),
    ensures
        result != Ok::<bool, EventError>(true),
        post == states.last(),
{
    history_keeps(states);
    let last = states.last();
    assert(last.retired(id));
    if result == Ok::<bool, EventError>(true) {
        if last.removes(name, id, result, post) {
            removed_at(last, name, id, post);
        } else {
            removed_any_at(last, id, post);
        }
    }
}

/// A listener that is to run once runs at most once: after one invocation of it was claimed, no other is,
/// whatever happens in between.
pub proof fn once_runs_once<C>(
    state: EmitterView<C>,
    name: Seq<char>,
    listener: Arc<SyncEventListener<C>>,
    between: Seq<EmitterView<C>>,
    other: Seq<char>,
    result: EventResult<bool>,
    post: EmitterView<C>,
)
    requires
        state.consistent(),
        listener.once,
        history(between),
        state.claims(name, *listener, Ok(true), between[0]),
        between.last().claims(other, *listener, result, post),
    ensures
        result != Ok::<bool, EventError>(true),
{
    removing_keeps_consistent(state, name, listener.id, Ok(true), between[0]);
    removing_retires(state, name, listener.id, between[0]);
    retired_is_not_found(between, other, listener.id, result, post);
}

/// A retired id is not reached by any later emission, whatever happens in between.
pub proof fn retired_is_not_reached<C, T>(
    states: Seq<EmitterView<C>>,
    id: ListenerId,
    name: Seq<char>,
    invocations: Seq<Invocation<C, T>>,
)
    requires
        history(states),
        states[0].consistent(),
        states[0].retired(id),
        states.last().reached(name, invocations),
    ensures
        forall|i: int|
            0 <= i < invocations.len() ==> (#[trigger] invocations[i]).listener.id != id,
{
    history_keeps(states);
    let last = states.last();
    assert forall|i: int| 0 <= i < invocations.len() implies (
    #[trigger] invocations[i]).listener.id != id by {
        if invocations[i].listener.id == id {
            assert(last.events[name].has_at(i, id));
            assert(last.has(name, id));
        }
    }
}

/// A listener cannot be removed through an event that it does not belong to.
pub proof fn wrong_event_removes_nothing<C>(
    state: EmitterView<C>,
    name: Seq<char>,
    id: ListenerId,
    other: Seq<char>,
    result: EventResult<bool>,
    post: EmitterView<C>,
)
    requires
        state.consistent(),
        state.has(name, id),
        other != name,
        state.removes(other, id, result, post),
    ensures
        result != Ok::<bool, EventError>(true),
        !state.blocked(other) ==> result == Ok::<bool, EventError>(false),
        post == state,
{
    if result == Ok::<bool, EventError>(true) {
        removed_at(state, other, id, post);
    }
}

/// Removing a listener by its id alone does what removing it through its event does, as long as no lock
/// is poisoned.
pub proof fn removing_any_finds_the_event<C>(
    state: EmitterView<C>,
    name: Seq<char>,
    id: ListenerId,
    any: EventResult<bool>,
    any_post: EmitterView<C>,
    result: EventResult<bool>,
    post: EmitterView<C>,
)
    requires
        state.consistent(),
        state.has(name, id),
        forall|other: Seq<char>| !#[trigger] state.blocked(other),
        state.removes_any(id, any, any_post),
        state.removes(name, id, result, post),
    ensures
        any == Ok::<bool, EventError>(true),
        result == Ok::<bool, EventError>(true),
        any_post == post,
{
    assert(!state.blocked(name));
    assert(state.events.contains_key(name) && state.events[name].sorted());
    if any is Err {
        let other = choose|other: Seq<char>| #[trigger]
            state.events.contains_key(other) && state.events[other].poisoned;
        assert(state.blocked(other));
    }
    let (other, i) = removed_any_at(state, id, any_post);
    let k = removed_at(state, name, id, post);
    assert(i == k);
}

/// An id that no event has is found by no removal, and nothing changes.
pub proof fn unknown_id_removes_nothing<C>(
    state: EmitterView<C>,
    id: ListenerId,
    result: EventResult<bool>,
    post: EmitterView<C>,
)
    requires
        forall|name: Seq<char>| !#[trigger] state.has(name, id),
        forall|name: Seq<char>| !#[trigger] state.blocked(name),
        state.removes_any(id, result, post),
    ensures
        result == Ok::<bool, EventError>(false),
        post == state,
{
    if result == Ok::<bool, EventError>(true) {
        removed_any_at(state, id, post);
    }
    if result is Err {
        assert(!state.blocked(Seq::empty()));
        if !state.poisoned {
            let name = choose|name: Seq<char>| #[trigger]
                state.events.contains_key(name) && state.events[name].poisoned;
            assert(state.blocked(name));
        }
    }
}

/// An operation on one event leads from `state` to `post`.
pub open spec fn acts_on<C>(state: EmitterView<C>, name: Seq<char>, post: EmitterView<C>) -> bool {
    ||| exists|once: bool, cb: C, result: EventResult<ListenerId>| #[trigger]
        state.adds(name, once, cb, result, post)
    ||| exists|id: ListenerId, result: EventResult<bool>| #[trigger]
        state.removes(name, id, result, post)
    ||| exists|listener: SyncEventListener<C>, result: EventResult<bool>| #[trigger]
        state.claims(name, listener, result, post)
}

/// Registering with, removing from or claiming an invocation of one event leaves every other event alone.
pub proof fn other_events_are_untouched<C>(
    state: EmitterView<C>,
    name: Seq<char>,
    post: EmitterView<C>,
    other: Seq<char>,
)
    requires
        other != name,
        acts_on(state, name, post),
    ensures
        post.events.contains_key(other) == state.events.contains_key(other),
        post.events.contains_key(other) ==> post.events[other] == state.events[other],
        post.listeners(other) == state.listeners(other),
{
}

/// An emission reaches a listener that was just registered, after all that the event had before.
pub proof fn registered_is_reached<C, T>(
    state: EmitterView<C>,
    name: Seq<char>,
    once: bool,
    cb: C,
    id: ListenerId,
    post: EmitterView<C>,
    result: EventResult<Vec<Invocation<C, T>>>,
)
    requires
        state.adds(name, once, cb, Ok(id), post),
        post.emits(name, result),
    ensures
        result is Ok,
        result->Ok_0.len() == state.listeners(name).len() + 1,
        *result->Ok_0@.last().listener == (SyncEventListener { id, once, cb }),
        state.reached(name, result->Ok_0@.drop_last()),
{
    assert(!post.blocked(name));
    let invocations = result->Ok_0@;
    assert forall|i: int| 0 <= i < invocations.drop_last().len() implies (
    #[trigger] invocations.drop_last()[i]).listener == state.listeners(name)[i] by {
        assert(invocations[i].listener == post.listeners(name)[i]);
    }
    assert(invocations[state.listeners(name).len() as int].listener == post.listeners(
        name,
    ).last());
}

/// An emission reaches the listeners of an event in the order in which they were registered.
pub proof fn reached_in_order<C, T>(
    state: EmitterView<C>,
    name: Seq<char>,
    invocations: Seq<Invocation<C, T>>,
)
    requires
        state.consistent(),
        state.reached(name, invocations),
    ensures
        forall|i: int, j: int|
            0 <= i < j < invocations.len() ==> (#[trigger] invocations[i]).listener.id < (
            #[trigger] invocations[j]).listener.id,
{
    if state.events.contains_key(name) {
        assert(state.events[name].sorted());
    }
}

/// An event that nobody listens for is emitted to nobody.
pub proof fn nobody_is_reached<C, T>(
    state: EmitterView<C>,
    name: Seq<char>,
    result: EventResult<Vec<Invocation<C, T>>>,
)
    requires
        !state.blocked(name),
        state.listeners(name).len() == 0,
        state.emits(name, result),
    ensures
        result matches Ok(invocations) && invocations.len() == 0,
{
}

/// The invocations of one emission are claimed one after the other, in the given order, with nothing in
/// between: `states[k]` is the state before the `k`-th claim, and `results[k]` what it returns.
pub open spec fn claimed_in<C>(
    listeners: Seq<Arc<SyncEventListener<C>>>,
    name: Seq<char>,
    order: Seq<int>,
    states: Seq<EmitterView<C>>,
    results: Seq<EventResult<bool>>,
) -> bool {
    &&& order.no_duplicates()
    &&& forall|k: int| 0 <= k < order.len() ==> 0 <= #[trigger] order[k] < listeners.len()
    &&& results.len() == order.len()
    &&& states.len() == order.len() + 1
    &&& forall|k: int|
        0 <= k < order.len() ==> states[k].claims(
            name,
            *listeners[#[trigger] order[k]],
            results[k],
            states[k + 1],
        )
}

/// What is left of the event after the first `n` claims: all but the listeners that ran for good.
proof fn left_after<C>(
    name: Seq<char>,
    order: Seq<int>,
    states: Seq<EmitterView<C>>,
    results: Seq<EventResult<bool>>,
    n: int,
)
    requires
        0 <= n <= order.len(),
        claimed_in(states[0].listeners(name), name, order, states, results),
        states[0].consistent(),
        !states[0].blocked(name),
    ensures
        states[n].consistent(),
        !states[n].blocked(name),
        states[n].events.dom() == states[0].events.dom(),
        forall|j: int|
            0 <= j < states[0].listeners(name).len() ==> (states[n].has(
                name,
                (#[trigger] states[0].listeners(name)[j]).id,
            ) <==> !(states[0].listeners(name)[j].once && order.take(n).contains(j))),
        forall|k: int| 0 <= k < n ==> #[trigger] results[k] == Ok::<bool, EventError>(true),
    decreases n,
{
    let first = states[0];
    let listeners = first.listeners(name);
    if n == 0 {
        assert forall|j: int| 0 <= j < listeners.len() implies (first.has(
            name,
            (#[trigger] listeners[j]).id,
        ) <==> !(listeners[j].once && order.take(0).contains(j))) by {
            assert(first.events[name].has_at(j, listeners[j].id));
        }
    } else {
        let k = n - 1;
        left_after(name, order, states, results, k);
        let before = states[k];
        let after = states[n];
        let m = order[k];
        let listener = *listeners[m];
        assert(before.claims(name, listener, results[k], after));
        assert(order.take(n) =~= order.take(k).push(m));
        assert(!order.take(k).contains(m));
        assert(before.has(name, listeners[m].id));
        assert forall|j: int| 0 <= j < listeners.len() implies order.take(n).contains(j) == (
        order.take(k).contains(j) || j == m) by {
            if order.take(k).contains(j) {
                let p = choose|p: int| 0 <= p < k && order.take(k)[p] == j;
                assert(order.take(n)[p] == j);
            }
            if j == m {
                assert(order.take(n)[k] == j);
            }
            if order.take(n).contains(j) && j != m {
                let p = choose|p: int| 0 <= p < n && order.take(n)[p] == j;
                assert(order.take(k)[p] == j);
            }
        }
        if listener.once {
            assert(before.events.contains_key(name) && before.events[name].sorted());
            assert(results[k] == Ok::<bool, EventError>(true));
            removing_keeps_consistent(before, name, listener.id, results[k], after);
            let i = removed_at(before, name, listener.id, after);
            assert(after.events.dom() =~= before.events.dom());
            assert forall|j: int| 0 <= j < listeners.len() implies (after.has(
                name,
                (#[trigger] listeners[j]).id,
            ) <==> !(listeners[j].once && order.take(n).contains(j))) by {
                without_has(before, name, i, name, listeners[j].id);
                assert(first.events[name].sorted());
                if j != m {
                    assert(listeners[j].id != listeners[m].id);
                }
            }
        }
    }
}

/// An emission that nothing interferes with runs every listener that it reached, in whatever order their
/// invocations are claimed. Afterwards those of them that were to run once are gone, and the others remain.
pub proof fn undisturbed_emission_runs_all<C>(
    name: Seq<char>,
    order: Seq<int>,
    states: Seq<EmitterView<C>>,
    results: Seq<EventResult<bool>>,
)
    requires
        states.len() > 0,
        states[0].consistent(),
        !states[0].blocked(name),
        order.len() == states[0].listeners(name).len(),
        claimed_in(states[0].listeners(name), name, order, states, results),
    ensures
        forall|k: int|
            0 <= k < results.len() ==> #[trigger] results[k] == Ok::<bool, EventError>(true),
        forall|j: int|
            0 <= j < states[0].listeners(name).len() ==> (states.last().has(
                name,
                (#[trigger] states[0].listeners(name)[j]).id,
            ) <==> !states[0].listeners(name)[j].once),
{
    let n = order.len() as int;
    let listeners = states[0].listeners(name);
    left_after(name, order, states, results, n);
    assert(order.take(n) =~= order);
    assert forall|j: int| 0 <= j < listeners.len() implies order.contains(j) by {
        every_index_occurs(order, j);
    }
}

/// `n` different indices below `n` are all the indices below `n`.
proof fn every_index_occurs(order: Seq<int>, j: int)
    requires
        order.no_duplicates(),
        forall|k: int| 0 <= k < order.len() ==> 0 <= #[trigger] order[k] < order.len(),
        0 <= j < order.len(),
    ensures
        order.contains(j),
{
    order.unique_seq_to_set();
    let all = vstd::set_lib::set_int_range(0, order.len() as int);
    vstd::set_lib::lemma_int_range(0, order.len() as int);
    assert(order.to_set().subset_of(all)) by {
        assert forall|x: int| order.to_set().contains(x) implies all.contains(x) by {
            let k = choose|k: int| 0 <= k < order.len() && order[k] == x;
            assert(0 <= order[k] < order.len());
        }
    }
    vstd::set_lib::lemma_subset_equality(order.to_set(), all);
    assert(order.to_set().contains(j));
}

/// The number of listeners that ran is at most the number of listeners invoked.
pub proof fn at_most_all_ran(executed: Seq<bool>)
    ensures
        crate::listener::number_ran(executed) <= executed.len(),
    decreases executed.len(),
{
    reveal(Seq::filter);
    if executed.len() > 0 {
        at_most_all_ran(executed.drop_last());
    }
}

/// An emission resolves to the number of listeners that it invoked exactly if every one of them ran.
pub proof fn all_ran(executed: Seq<bool>)
    ensures
        crate::listener::number_ran(executed) == executed.len() <==> forall|i: int|
            0 <= i < executed.len() ==> executed[i],
    decreases executed.len(),
{
    reveal(Seq::filter);
    if executed.len() > 0 {
        all_ran(executed.drop_last());
        at_most_all_ran(executed.drop_last());
        if forall|i: int| 0 <= i < executed.len() ==> executed[i] {
            assert forall|i: int| 0 <= i < executed.drop_last().len() implies executed.drop_last()[i] by {
                assert(executed[i]);
            }
            assert(executed[executed.len() - 1]);
        }
        if crate::listener::number_ran(executed) == executed.len() {
            assert forall|i: int| 0 <= i < executed.len() implies executed[i] by {
                if i < executed.len() - 1 {
                    assert(executed.drop_last()[i]);
                }
            }
        }
    }
}

/// The number of listeners that ran does not depend on the order in which they ran.
pub proof fn number_ran_ignores_order(executed: Seq<bool>, reordered: Seq<bool>)
    requires
        executed.to_multiset() == reordered.to_multiset(),
    ensures
        crate::listener::number_ran(executed) == crate::listener::number_ran(reordered),
{
    number_ran_is_count(executed);
    number_ran_is_count(reordered);
}

/// The number of listeners that ran is how often `true` was reported.
pub proof fn number_ran_is_count(executed: Seq<bool>)
    ensures
        crate::listener::number_ran(executed) == executed.to_multiset().count(true),
    decreases executed.len(),
{
    broadcast use vstd::seq_lib::group_to_multiset_ensures;

    reveal(Seq::filter);
    if executed.len() > 0 {
        let earlier = executed.drop_last();
        number_ran_is_count(earlier);
        assert(executed =~= earlier.push(executed.last()));
    }
}

/// An emission that nothing interferes with, and whose callbacks all succeed, resolves to the number of the
/// event's listeners.
pub proof fn undisturbed_emission_counts_all<C, X>(
    name: Seq<char>,
    order: Seq<int>,
    states: Seq<EmitterView<C>>,
    claims: Seq<EventResult<bool>>,
    outcomes: Seq<Result<(), X>>,
    executed: Seq<bool>,
)
    requires
        states.len() > 0,
        states[0].consistent(),
        !states[0].blocked(name),
        order.len() == states[0].listeners(name).len(),
        claimed_in(states[0].listeners(name), name, order, states, claims),
        outcomes.len() == order.len(),
        executed.len() == order.len(),
        forall|k: int| 0 <= k < outcomes.len() ==> (#[trigger] outcomes[k]) is Ok,
        forall|k: int|
            0 <= k < executed.len() ==> crate::listener::invoked(
                claims[k],
                outcomes[k],
                Ok(#[trigger] executed[k]),
            ),
    ensures
        crate::listener::number_ran(executed) == states[0].listeners(name).len(),
{
    undisturbed_emission_runs_all(name, order, states, claims);
    assert forall|k: int| 0 <= k < executed.len() implies executed[k] by {
        assert(claims[k] == Ok::<bool, EventError>(true));
        assert(outcomes[k] is Ok);
    }
    all_ran(executed);
}

/// Once a lock that an event needs is poisoned, every later operation on the event is refused with
/// `EventError::PoisonError` and changes nothing, whatever happens in between.
pub proof fn poisoned_event_is_refused<C, T>(
    states: Seq<EmitterView<C>>,
    name: Seq<char>,
    once: bool,
    cb: C,
    id: ListenerId,
    added: EventResult<ListenerId>,
    removed: EventResult<bool>,
    emitted: EventResult<Vec<Invocation<C, T>>>,
    after_adding: EmitterView<C>,
    after_removing: EmitterView<C>,
)
    requires
        history(states),
        states[0].consistent(),
        states[0].blocked(name),
        states.last().adds(name, once, cb, added, after_adding),
        states.last().removes(name, id, removed, after_removing),
        states.last().emits(name, emitted),
    ensures
        added == Err::<ListenerId, EventError>(EventError::PoisonError),
        removed == Err::<bool, EventError>(EventError::PoisonError),
        emitted == Err::<Vec<Invocation<C, T>>, EventError>(EventError::PoisonError),
        after_adding == states.last(),
        after_removing == states.last(),
{
    history_keeps(states);
}

/// A registration gives its event the new listener, which stays until its id is retired, whatever else
/// happens.
pub proof fn registered_stays_until_retired<C>(
    state: EmitterView<C>,
    name: Seq<char>,
    once: bool,
    cb: C,
    id: ListenerId,
    states: Seq<EmitterView<C>>,
)
    requires
        state.consistent(),
        state.next_id < usize::MAX,
        state.adds(name, once, cb, Ok(id), states[0]),
        history(states),
    ensures
        states[0].consistent(),
        states[0].listeners(name).contains(Arc::new(SyncEventListener { id, once, cb })),
        states.last().listeners(name).contains(Arc::new(SyncEventListener { id, once, cb }))
            || states.last().retired(id),
{
    let listener = Arc::new(SyncEventListener { id, once, cb });
    adding_keeps_consistent(state, name, once, cb, Ok(id), states[0]);
    assert(states[0].listeners(name)[state.listeners(name).len() as int] == listener);
    stays_until_retired(states, name, listener);
}

/// The id of a listener can be used at any later time to remove it: the removal succeeds exactly if the
/// id was not retired before, and retires it.
pub proof fn removable_until_retired<C>(
    states: Seq<EmitterView<C>>,
    name: Seq<char>,
    listener: Arc<SyncEventListener<C>>,
    result: EventResult<bool>,
    post: EmitterView<C>,
)
    requires
        history(states),
        states[0].consistent(),
        states[0].listeners(name).contains(listener),
        !states.last().blocked(name),
        states.last().removes(name, listener.id, result, post),
    ensures
        result == Ok::<bool, EventError>(!states.last().retired(listener.id)),
        post.retired(listener.id),
{
    history_keeps(states);
    stays_until_retired(states, name, listener);
    let last = states.last();
    if last.listeners(name).contains(listener) {
        listener_position(last, name, listener);
        assert(last.events.contains_key(name) && last.events[name].sorted());
        removing_retires(last, name, listener.id, post);
    } else {
        retired_is_not_found(seq![last], name, listener.id, result, post);
    }
}

/// An emission reaches each listener of the event exactly once.
pub proof fn reached_exactly_once<C, T>(
    state: EmitterView<C>,
    name: Seq<char>,
    listener: Arc<SyncEventListener<C>>,
    result: EventResult<Vec<Invocation<C, T>>>,
) -> (i: int)
    requires
        state.consistent(),
        state.listeners(name).contains(listener),
        !state.blocked(name),
        state.emits(name, result),
    ensures
        result is Ok,
        0 <= i < result->Ok_0.len(),
        result->Ok_0@[i].listener == listener,
        forall|j: int|
            0 <= j < result->Ok_0.len() && j != i ==> (
            #[trigger] result->Ok_0@[j]).listener.id != listener.id,
{
    let i = listener_position(state, name, listener);
    let invocations = result->Ok_0@;
    assert(invocations[i].listener == state.listeners(name)[i]);
    assert forall|j: int| 0 <= j < invocations.len() && j != i implies (
    #[trigger] invocations[j]).listener.id != listener.id by {
        assert(invocations[j].listener == state.listeners(name)[j]);
    }
    i
}

/// Every later emission of its event reaches a listener exactly once, until its id is retired.
pub proof fn reached_until_retired<C, T>(
    states: Seq<EmitterView<C>>,
    name: Seq<char>,
    listener: Arc<SyncEventListener<C>>,
    result: EventResult<Vec<Invocation<C, T>>>,
) -> (i: int)
    requires
        history(states),
        states[0].consistent(),
        states[0].listeners(name).contains(listener),
        !states.last().retired(listener.id),
        !states.last().blocked(name),
        states.last().emits(name, result),
    ensures
        result is Ok,
        0 <= i < result->Ok_0.len(),
        result->Ok_0@[i].listener == listener,
        forall|j: int|
            0 <= j < result->Ok_0.len() && j != i ==> (
            #[trigger] result->Ok_0@[j]).listener.id != listener.id,
{
    history_keeps(states);
    stays_until_retired(states, name, listener);
    reached_exactly_once(states.last(), name, listener, result)
}

/// An event is listed at any later time at which a listener of it was not removed.
pub proof fn listed_while_listened<C>(
    states: Seq<EmitterView<C>>,
    name: Seq<char>,
    listener: Arc<SyncEventListener<C>>,
    names: Seq<Seq<char>>,
)
    requires
        history(states),
        states[0].consistent(),
        states[0].listeners(name).contains(listener),
        !states.last().retired(listener.id),
        states.last().named(names),
    ensures
        names.contains(name),
{
    stays_until_retired(states, name, listener);
    assert(states.last().listened(name));
}

/// An event is no longer listed once its last listener was removed.
pub proof fn unlisted_once_removed<C>(
    state: EmitterView<C>,
    name: Seq<char>,
    id: ListenerId,
    post: EmitterView<C>,
    names: Seq<Seq<char>>,
)
    requires
        state.listeners(name).len() == 1,
        state.removes(name, id, Ok(true), post),
        post.named(names),
    ensures
        !names.contains(name),
{
    assert(!post.listened(name));
}

/// An invocation of a permanent listener always runs its callback: it is counted if the callback succeeds,
/// and fails with the callback's error otherwise.
pub proof fn permanent_always_runs<C, X>(
    state: EmitterView<C>,
    name: Seq<char>,
    listener: SyncEventListener<C>,
    claimed: EventResult<bool>,
    post: EmitterView<C>,
    outcome: Result<(), X>,
    result: Result<bool, crate::listener::InvocationError<X>>,
)
    requires
        !listener.once,
        state.claims(name, listener, claimed, post),
        crate::listener::invoked(claimed, outcome, result),
    ensures
        post == state,
        crate::listener::reports(outcome, result),
{
}

/// Until it is removed, every emission of its event runs a permanent listener exactly once, even one whose
/// invocation only has its turn later: it is counted if the callback succeeds, and the invocation fails with
/// the callback's error otherwise.
pub proof fn permanent_runs_in_every_emission<C, T, X>(
    states: Seq<EmitterView<C>>,
    name: Seq<char>,
    listener: Arc<SyncEventListener<C>>,
    emitted: EventResult<Vec<Invocation<C, T>>>,
    later: EmitterView<C>,
    claimed: EventResult<bool>,
    post: EmitterView<C>,
    outcome: Result<(), X>,
    result: Result<bool, crate::listener::InvocationError<X>>,
) -> (i: int)
    requires
        history_sparing(states, Some(listener.id)),
        states[0].consistent(),
        states[0].listeners(name).contains(listener),
        !listener.once,
        !states.last().blocked(name),
        states.last().emits(name, emitted),
        later.claims(name, *listener, claimed, post),
        crate::listener::invoked(claimed, outcome, result),
    ensures
        emitted is Ok,
        0 <= i < emitted->Ok_0.len(),
        emitted->Ok_0@[i].listener == listener,
        forall|j: int|
            0 <= j < emitted->Ok_0.len() && j != i ==> (
            #[trigger] emitted->Ok_0@[j]).listener.id != listener.id,
        crate::listener::reports(outcome, result),
{
    sparing_history_keeps(states, Some(listener.id), name, listener);
    reached_exactly_once(states.last(), name, listener, emitted)
}

/// An invocation of a listener that is to run once, and is still registered, is claimed.
pub proof fn registered_once_is_claimed<C>(
    state: EmitterView<C>,
    name: Seq<char>,
    listener: Arc<SyncEventListener<C>>,
    result: EventResult<bool>,
    post: EmitterView<C>,
)
    requires
        state.consistent(),
        !state.blocked(name),
        listener.once,
        state.listeners(name).contains(listener),
        state.claims(name, *listener, result, post),
    ensures
        result == Ok::<bool, EventError>(true),
        post.retired(listener.id),
{
    listener_position(state, name, listener);
    assert(state.events.contains_key(name) && state.events[name].sorted());
    removing_retires(state, name, listener.id, post);
}

/// A listener that is to run once never runs after its id was retired: removing it in time is enough.
pub proof fn retired_once_never_runs<C>(
    states: Seq<EmitterView<C>>,
    name: Seq<char>,
    listener: SyncEventListener<C>,
    result: EventResult<bool>,
    post: EmitterView<C>,
)
    requires
        history(states),
        states[0].consistent(),
        states[0].retired(listener.id),
        listener.once,
        states.last().claims(name, listener, result, post),
    ensures
        result != Ok::<bool, EventError>(true),
        !states.last().blocked(name) ==> result == Ok::<bool, EventError>(false),
        post == states.last(),
{
    retired_is_not_found(states, name, listener.id, result, post);
}

/// A listener that is to run once can be removed as long as it has not run, and then never runs: not even
/// in an emission that had reached it before.
pub proof fn removed_in_time_never_runs<C>(
    states: Seq<EmitterView<C>>,
    name: Seq<char>,
    listener: Arc<SyncEventListener<C>>,
    removed: EventResult<bool>,
    after: Seq<EmitterView<C>>,
    claimed: EventResult<bool>,
    post: EmitterView<C>,
)
    requires
        history_sparing(states, Some(listener.id)),
        states[0].consistent(),
        states[0].listeners(name).contains(listener),
        listener.once,
        !states.last().blocked(name),
        states.last().removes(name, listener.id, removed, after[0]),
        history(after),
        after.last().claims(name, *listener, claimed, post),
    ensures
        removed == Ok::<bool, EventError>(true),
        claimed != Ok::<bool, EventError>(true),
        !after.last().blocked(name) ==> claimed == Ok::<bool, EventError>(false),
{
    sparing_history_keeps(states, Some(listener.id), name, listener);
    let last = states.last();
    listener_position(last, name, listener);
    assert(last.events.contains_key(name) && last.events[name].sorted());
    removing_keeps_consistent(last, name, listener.id, removed, after[0]);
    removing_retires(last, name, listener.id, after[0]);
    retired_is_not_found(after, name, listener.id, claimed, post);
}

/// From the moment an invocation of a listener that is to run once was claimed, which is before its callback
/// starts, and whatever the callback does, the listener is gone: no removal finds it, no emission reaches
/// it, and no other invocation of it runs.
pub proof fn claimed_once_is_gone<C, T>(
    state: EmitterView<C>,
    name: Seq<char>,
    listener: SyncEventListener<C>,
    states: Seq<EmitterView<C>>,
    removed: EventResult<bool>,
    after_removing: EmitterView<C>,
    claimed: EventResult<bool>,
    after_claiming: EmitterView<C>,
    emitted: Seq<Invocation<C, T>>,
)
    requires
        state.consistent(),
        listener.once,
        state.claims(name, listener, Ok(true), states[0]),
        history(states),
        !states.last().blocked(name),
        states.last().removes(name, listener.id, removed, after_removing),
        states.last().claims(name, listener, claimed, after_claiming),
        states.last().reached(name, emitted),
    ensures
        removed == Ok::<bool, EventError>(false),
        claimed == Ok::<bool, EventError>(false),
        forall|i: int|
            0 <= i < emitted.len() ==> (#[trigger] emitted[i]).listener.id != listener.id,
{
    removing_keeps_consistent(state, name, listener.id, Ok(true), states[0]);
    removing_retires(state, name, listener.id, states[0]);
    retired_is_not_found(states, name, listener.id, removed, after_removing);
    retired_once_never_runs(states, name, listener, claimed, after_claiming);
    retired_is_not_reached(states, listener.id, name, emitted);
}

/// The `p`-th operation is one of the claims.
pub open spec fn is_claim(claimed: Seq<Option<int>>, p: int) -> bool {
    exists|i: int| 0 <= i < claimed.len() && #[trigger] claimed[i] == Some(p)
}

/// Emissions of one event that may overlap, as one listener of the event sees them. The `i`-th is made in
/// `states[emitted[i]]`. If it reaches the listener, it claims one invocation of it at some later time: the
/// operation after `states[p]` is that claim, where `claimed[i]` is `Some(p)`, and returns `results[i]`. No
/// other operation removes the listener.
pub open spec fn overlapping<C>(
    states: Seq<EmitterView<C>>,
    name: Seq<char>,
    listener: Arc<SyncEventListener<C>>,
    emitted: Seq<int>,
    claimed: Seq<Option<int>>,
    results: Seq<EventResult<bool>>,
) -> bool {
    &&& claimed.len() == emitted.len()
    &&& results.len() == emitted.len()
    &&& forall|i: int| 0 <= i < emitted.len() ==> 0 <= #[trigger] emitted[i] < states.len()
    &&& forall|i: int|
        0 <= i < emitted.len() ==> ((#[trigger] claimed[i]) is Some
            <==> states[emitted[i]].listeners(name).contains(listener))
    &&& forall|i: int|
        0 <= i < emitted.len() && (#[trigger] claimed[i]) is Some ==> emitted[i] <= claimed[i]->0
            < states.len() - 1 && states[claimed[i]->0].claims(
            name,
            *listener,
            results[i],
            states[claimed[i]->0 + 1],
        )
    &&& forall|i: int, j: int|
        0 <= i < j < emitted.len() && (#[trigger] claimed[i]) is Some && (
        #[trigger] claimed[j]) is Some ==> claimed[i] != claimed[j]
    &&& forall|p: int|
        0 <= p < states.len() - 1 && !#[trigger] is_claim(claimed, p) ==> step_sparing(
            states[p],
            states[p + 1],
            Some(listener.id),
        )
}

/// None of the claims was made before `states[t]`.
spec fn unclaimed_before(claimed: Seq<Option<int>>, t: int) -> bool {
    forall|i: int| 0 <= i < claimed.len() && (#[trigger] claimed[i]) is Some ==> claimed[i]->0 >= t
}

/// One of the claims was made before `states[t]` and succeeded.
spec fn claimed_before(
    claimed: Seq<Option<int>>,
    results: Seq<EventResult<bool>>,
    t: int,
) -> bool {
    exists|i: int|
        0 <= i < claimed.len() && (#[trigger] claimed[i]) is Some && claimed[i]->0 < t && results[i]
            == Ok::<bool, EventError>(true)
}

/// Overlapping emissions are a history, and so is each stretch of it.
proof fn overlapping_stretch<C>(
    states: Seq<EmitterView<C>>,
    name: Seq<char>,
    listener: Arc<SyncEventListener<C>>,
    emitted: Seq<int>,
    claimed: Seq<Option<int>>,
    results: Seq<EventResult<bool>>,
    from: int,
    to: int,
)
    requires
        overlapping(states, name, listener, emitted, claimed, results),
        0 <= from <= to < states.len(),
    ensures
        history(states.subrange(from, to + 1)),
{
    let stretch = states.subrange(from, to + 1);
    assert forall|k: int| 0 <= k < stretch.len() - 1 implies step_sparing(
        #[trigger] stretch[k],
        stretch[k + 1],
        None,
    ) by {
        let p = from + k;
        assert(stretch[k] == states[p] && stretch[k + 1] == states[p + 1]);
        if is_claim(claimed, p) {
            let i = choose|i: int| 0 <= i < claimed.len() && #[trigger] claimed[i] == Some(p);
            assert(states[p].claims(name, *listener, results[i], states[p + 1]));
        } else {
            assert(step_sparing(states[p], states[p + 1], Some(listener.id)));
        }
    }
}

/// Up to any state, either the listener was not claimed yet and is still registered, or one claim succeeded.
proof fn claimed_or_registered<C>(
    states: Seq<EmitterView<C>>,
    name: Seq<char>,
    listener: Arc<SyncEventListener<C>>,
    emitted: Seq<int>,
    claimed: Seq<Option<int>>,
    results: Seq<EventResult<bool>>,
    t: int,
)
    requires
        overlapping(states, name, listener, emitted, claimed, results),
        states[0].consistent(),
        states[0].listeners(name).contains(listener),
        listener.once,
        forall|p: int| 0 <= p < states.len() ==> !(#[trigger] states[p]).blocked(name),
        0 <= t < states.len(),
    ensures
        states[t].consistent(),
        states[t].listeners(name).contains(listener) && unclaimed_before(claimed, t)
            || claimed_before(claimed, results, t),
    decreases t,
{
    overlapping_stretch(states, name, listener, emitted, claimed, results, 0, t);
    let whole = states.subrange(0, t + 1);
    history_keeps(whole);
    assert(whole.last() == states[t]);
    if t > 0 {
        let p = t - 1;
        claimed_or_registered(states, name, listener, emitted, claimed, results, p);
        if states[p].listeners(name).contains(listener) && unclaimed_before(claimed, p) {
            if is_claim(claimed, p) {
                let i = choose|i: int| 0 <= i < claimed.len() && #[trigger] claimed[i] == Some(p);
                assert(states[p].claims(name, *listener, results[i], states[p + 1]));
                assert(!states[p].blocked(name));
                registered_once_is_claimed(states[p], name, listener, results[i], states[t]);
            } else {
                assert(step_sparing(states[p], states[p + 1], Some(listener.id)));
                sparing_step_keeps(states[p], states[t], Some(listener.id), name, listener);
                assert forall|i: int|
                    0 <= i < claimed.len() && (#[trigger] claimed[i]) is Some implies claimed[i]->0
                    >= t by {
                    if claimed[i]->0 == p {
                        assert(claimed[i] == Some(p));
                        assert(is_claim(claimed, p));
                    }
                }
            }
        } else {
            let i = choose|i: int|
                0 <= i < claimed.len() && (#[trigger] claimed[i]) is Some && claimed[i]->0 < p
                    && results[i] == Ok::<bool, EventError>(true);
            assert(claimed[i] is Some && claimed[i]->0 < t);
        }
    }
}

/// Of two claims among overlapping emissions, the later one fails if the earlier one succeeded.
proof fn later_claim_fails<C>(
    states: Seq<EmitterView<C>>,
    name: Seq<char>,
    listener: Arc<SyncEventListener<C>>,
    emitted: Seq<int>,
    claimed: Seq<Option<int>>,
    results: Seq<EventResult<bool>>,
    i: int,
    j: int,
)
    requires
        overlapping(states, name, listener, emitted, claimed, results),
        states[0].consistent(),
        states[0].listeners(name).contains(listener),
        listener.once,
        forall|p: int| 0 <= p < states.len() ==> !(#[trigger] states[p]).blocked(name),
        0 <= i < claimed.len(),
        0 <= j < claimed.len(),
        claimed[i] is Some,
        claimed[j] is Some,
        claimed[i]->0 < claimed[j]->0,
        results[i] == Ok::<bool, EventError>(true),
    ensures
        results[j] == Ok::<bool, EventError>(false),
{
    let p = claimed[i]->0;
    let q = claimed[j]->0;
    claimed_or_registered(states, name, listener, emitted, claimed, results, p);
    assert(states[p].claims(name, *listener, results[i], states[p + 1]));
    assert(states[q].claims(name, *listener, results[j], states[q + 1]));
    assert(!states[q].blocked(name));
    overlapping_stretch(states, name, listener, emitted, claimed, results, p + 1, q);
    let between = states.subrange(p + 1, q + 1);
    assert(between[0] == states[p + 1] && between.last() == states[q]);
    once_runs_once(states[p], name, listener, between, name, results[j], states[q + 1]);
}

/// A listener that is to run once runs exactly once over any number of emissions of its event, though they
/// overlap: the claim of exactly one of them succeeds, and those of the others find it gone.
pub proof fn once_runs_exactly_once<C>(
    states: Seq<EmitterView<C>>,
    name: Seq<char>,
    listener: Arc<SyncEventListener<C>>,
    emitted: Seq<int>,
    claimed: Seq<Option<int>>,
    results: Seq<EventResult<bool>>,
) -> (winner: int)
    requires
        states.len() > 0,
        states[0].consistent(),
        states[0].listeners(name).contains(listener),
        listener.once,
        forall|p: int| 0 <= p < states.len() ==> !(#[trigger] states[p]).blocked(name),
        emitted.len() > 0,
        overlapping(states, name, listener, emitted, claimed, results),
    ensures
        0 <= winner < emitted.len(),
        claimed[winner] is Some,
        results[winner] == Ok::<bool, EventError>(true),
        forall|i: int|
            0 <= i < emitted.len() && i != winner && (#[trigger] claimed[i]) is Some ==> results[i]
                == Ok::<bool, EventError>(false),
{
    let end = states.len() - 1;
    claimed_or_registered(states, name, listener, emitted, claimed, results, end);
    if unclaimed_before(claimed, end) {
        claimed_or_registered(states, name, listener, emitted, claimed, results, emitted[0]);
        assert(states[emitted[0]].listeners(name).contains(listener));
        assert(claimed[0] is Some);
    }
    let winner = choose|i: int|
        0 <= i < claimed.len() && (#[trigger] claimed[i]) is Some && claimed[i]->0 < end
            && results[i] == Ok::<bool, EventError>(true);
    assert forall|i: int|
        0 <= i < emitted.len() && i != winner && (#[trigger] claimed[i]) is Some implies results[i]
        == Ok::<bool, EventError>(false) by {
        assert(claimed[i] != claimed[winner]);
        let p = claimed[i]->0;
        if claimed[winner]->0 < p {
            later_claim_fails(states, name, listener, emitted, claimed, results, winner, i);
        } else {
            assert(states[p].claims(name, *listener, results[i], states[p + 1]));
            assert(!states[p].blocked(name));
            if results[i] == Ok::<bool, EventError>(true) {
                later_claim_fails(states, name, listener, emitted, claimed, results, i, winner);
            }
        }
    }
    winner
}

/// A listener that is to run once, and whose callback succeeds, is counted by exactly one of the emissions
/// of its event, though they overlap.
pub proof fn once_is_counted_once<C, X>(
    states: Seq<EmitterView<C>>,
    name: Seq<char>,
    listener: Arc<SyncEventListener<C>>,
    emitted: Seq<int>,
    claimed: Seq<Option<int>>,
    results: Seq<EventResult<bool>>,
    executed: Seq<bool>,
)
    requires
        states.len() > 0,
        states[0].consistent(),
        states[0].listeners(name).contains(listener),
        listener.once,
        forall|p: int| 0 <= p < states.len() ==> !(#[trigger] states[p]).blocked(name),
        emitted.len() > 0,
        overlapping(states, name, listener, emitted, claimed, results),
        executed.len() == emitted.len(),
        forall|i: int|
            0 <= i < executed.len() ==> if claimed[i] is Some {
                crate::listener::invoked(
                    results[i],
                    Ok::<(), X>(()),
                    Ok(#[trigger] executed[i]),
                )
            } else {
                !executed[i]
            },
    ensures
        crate::listener::number_ran(executed) == 1,
{
    let winner = once_runs_exactly_once(states, name, listener, emitted, claimed, results);
    assert(executed[winner]);
    one_ran(executed, winner);
}

/// Where one listener ran and no other did, the number of listeners that ran is one.
proof fn one_ran(executed: Seq<bool>, i: int)
    requires
        0 <= i < executed.len(),
        executed[i],
        forall|j: int| 0 <= j < executed.len() && j != i ==> !executed[j],
    ensures
        crate::listener::number_ran(executed) == 1,
    decreases executed.len(),
{
    reveal(Seq::filter);
    let earlier = executed.drop_last();
    if i == executed.len() - 1 {
        none_ran(earlier);
    } else {
        one_ran(earlier, i);
    }
}

/// Where no listener ran, the number of listeners that ran is zero.
proof fn none_ran(executed: Seq<bool>)
    requires
        forall|j: int| 0 <= j < executed.len() ==> !executed[j],
    ensures
        crate::listener::number_ran(executed) == 0,
    decreases executed.len(),
{
    reveal(Seq::filter);
    if executed.len() > 0 {
        none_ran(executed.drop_last());
    }
}

/// Every later emission of a value reaches a listener for values of type `T` exactly once, until its id is
/// retired, and its callback takes a clone of the value if it is a `T`. It is the same whether the listener is
/// permanent or is to run once.
pub proof fn value_listener_takes_the_value<C, T: Clone, F>(
    states: Seq<EmitterView<C>>,
    name: Seq<char>,
    listener: Arc<SyncEventListener<C>>,
    value: T,
    result: EventResult<Vec<Invocation<C, T>>>,
) -> (i: int)
    requires
        history(states),
        states[0].consistent(),
        states[0].listeners(name).contains(listener),
        !states.last().retired(listener.id),
        !states.last().blocked(name),
        states.last().emits(name, result),
        result matches Ok(invocations) ==> crate::listener::carry_copies(invocations@, value)
            || crate::listener::carry_shared(invocations@, value),
    ensures
        result is Ok,
        0 <= i < result->Ok_0.len(),
        result->Ok_0@[i].listener == listener,
        forall|j: int|
            0 <= j < result->Ok_0.len() && j != i ==> (
            #[trigger] result->Ok_0@[j]).listener.id != listener.id,
        forall|found: Option<Downcast<T>>, given: Option<T>|
            crate::listener::found_same(result->Ok_0@[i].arg, found) && #[trigger] ValueListener::<
                T,
                F,
            >::may_take(found, given) ==> (given matches Some(copy)
                && vstd::pervasive::strictly_cloned(value, copy)),
{
    reached_until_retired(states, name, listener, result)
}

/// To a listener for values of type `T`, every later emission of a value of another type, or of no value at
/// all, gives `None`, until its id is retired.
pub proof fn value_listener_takes_nothing_else<C, U, T: Clone, F>(
    states: Seq<EmitterView<C>>,
    name: Seq<char>,
    listener: Arc<SyncEventListener<C>>,
    result: EventResult<Vec<Invocation<C, U>>>,
) -> (i: int)
    requires
        history(states),
        states[0].consistent(),
        states[0].listeners(name).contains(listener),
        !states.last().retired(listener.id),
        !states.last().blocked(name),
        states.last().emits(name, result),
    ensures
        result is Ok,
        0 <= i < result->Ok_0.len(),
        result->Ok_0@[i].listener == listener,
        forall|j: int|
            0 <= j < result->Ok_0.len() && j != i ==> (
            #[trigger] result->Ok_0@[j]).listener.id != listener.id,
        forall|found: Option<Downcast<T>>, given: Option<T>|
            crate::listener::found_other(result->Ok_0@[i].arg, found) && #[trigger] ValueListener::<
                T,
                F,
            >::may_take(found, given) ==> given is None,
{
    reached_until_retired(states, name, listener, result)
}

/// Every later emission of a value reaches a listener for references to values of type `T` exactly once,
/// until its id is retired, and its callback sees the value if it is a `T`: the very value where the emission
/// shares it, and a clone of it otherwise. It is the same whether the listener is permanent or is to run once.
pub proof fn sync_listener_sees_the_value<C, T: Clone, F>(
    states: Seq<EmitterView<C>>,
    name: Seq<char>,
    listener: Arc<SyncEventListener<C>>,
    value: T,
    result: EventResult<Vec<Invocation<C, T>>>,
) -> (i: int)
    requires
        history(states),
        states[0].consistent(),
        states[0].listeners(name).contains(listener),
        !states.last().retired(listener.id),
        !states.last().blocked(name),
        states.last().emits(name, result),
        result matches Ok(invocations) ==> crate::listener::carry_copies(invocations@, value)
            || crate::listener::carry_shared(invocations@, value),
    ensures
        result is Ok,
        0 <= i < result->Ok_0.len(),
        result->Ok_0@[i].listener == listener,
        forall|j: int|
            0 <= j < result->Ok_0.len() && j != i ==> (
            #[trigger] result->Ok_0@[j]).listener.id != listener.id,
        forall|found: Option<Downcast<T>>| #[trigger]
            crate::listener::found_same(result->Ok_0@[i].arg, found) ==> (SyncListener::<
                T,
                F,
            >::seen(found) matches Some(seen) && (crate::listener::carry_copies(
                result->Ok_0@,
                value,
            ) ==> vstd::pervasive::strictly_cloned(value, seen)) && (crate::listener::carry_shared(
                result->Ok_0@,
                value,
            ) ==> seen == value)),
{
    reached_until_retired(states, name, listener, result)
}

/// Every later emission of a shared value reaches a listener for references to values of type `T` exactly once,
/// until its id is retired, and its callback sees the very value if it is a `T`, whether or not a `T` can be
/// cloned. It is the same whether the listener is permanent or is to run once.
pub proof fn sync_listener_sees_the_shared_value<C, T, F>(
    states: Seq<EmitterView<C>>,
    name: Seq<char>,
    listener: Arc<SyncEventListener<C>>,
    value: T,
    result: EventResult<Vec<Invocation<C, T>>>,
) -> (i: int)
    requires
        history(states),
        states[0].consistent(),
        states[0].listeners(name).contains(listener),
        !states.last().retired(listener.id),
        !states.last().blocked(name),
        states.last().emits(name, result),
        result matches Ok(invocations) ==> crate::listener::carry_shared(invocations@, value),
    ensures
        result is Ok,
        0 <= i < result->Ok_0.len(),
        result->Ok_0@[i].listener == listener,
        forall|j: int|
            0 <= j < result->Ok_0.len() && j != i ==> (
            #[trigger] result->Ok_0@[j]).listener.id != listener.id,
        forall|found: Option<Downcast<T>>| #[trigger]
            crate::listener::found_same(result->Ok_0@[i].arg, found) ==> SyncListener::<
                T,
                F,
            >::seen(found) == Some(value),
{
    reached_until_retired(states, name, listener, result)
}

/// To a listener for references to values of type `T`, every later emission of a value of another type, or of
/// no value at all, gives `None`, until its id is retired.
pub proof fn sync_listener_sees_nothing_else<C, U, T, F>(
    states: Seq<EmitterView<C>>,
    name: Seq<char>,
    listener: Arc<SyncEventListener<C>>,
    result: EventResult<Vec<Invocation<C, U>>>,
) -> (i: int)
    requires
        history(states),
        states[0].consistent(),
        states[0].listeners(name).contains(listener),
        !states.last().retired(listener.id),
        !states.last().blocked(name),
        states.last().emits(name, result),
    ensures
        result is Ok,
        0 <= i < result->Ok_0.len(),
        result->Ok_0@[i].listener == listener,
        forall|j: int|
            0 <= j < result->Ok_0.len() && j != i ==> (
            #[trigger] result->Ok_0@[j]).listener.id != listener.id,
        forall|found: Option<Downcast<T>>| #[trigger]
            crate::listener::found_other(result->Ok_0@[i].arg, found) ==> SyncListener::<
                T,
                F,
            >::seen(found) is None,
{
    reached_until_retired(states, name, listener, result)
}

} // verus!
