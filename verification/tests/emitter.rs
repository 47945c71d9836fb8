use std::any::Any;
use std::cell::RefCell;
use std::collections::BTreeSet;
use std::rc::Rc;
use std::sync::atomic::{AtomicUsize, Ordering};
use std::sync::{Arc, Mutex, PoisonError};

use futures::future;
use futures::Future;
use futures_cpupool::CpuPool;
use parallel_event_emitter::{
    count_ran, invoke as run_invocation, ran, run_claimed, try_throw, ArcCowish, Downcast, Emitted,
    EventError, EventResult, Invocation, InvocationError, ListenerId, ParallelEventEmitter,
    PlainListener, SyncEventListener, SyncListener, ValueListener,
};

type Erased = ArcCowish<Box<dyn Any>, Arc<dyn Any>>;

type Outcome = Result<(), &'static str>;

struct Callback(Box<dyn Fn(Option<Erased>) -> Outcome>);

fn downcast<T: Any>(arg: &mut Option<Erased>) -> Option<Downcast<'_, T>> {
    match arg {
        None => None,
        Some(ArcCowish::Borrowed(value)) => Some(ArcCowish::Borrowed((**value).downcast_ref::<T>())),
        Some(ArcCowish::Owned(value)) => {
            let value = std::mem::replace(value, Box::new(()));
            Some(ArcCowish::Owned(value.downcast::<T>().ok().map(|value| *value)))
        }
    }
}

impl<F: Fn() -> Outcome + 'static> From<PlainListener<F>> for Callback {
    fn from(listener: PlainListener<F>) -> Callback {
        Callback(Box::new(move |arg| listener.call(arg)))
    }
}

impl<T: Any + Clone, F: Fn(Option<T>) -> Outcome + 'static> From<ValueListener<T, F>> for Callback {
    fn from(listener: ValueListener<T, F>) -> Callback {
        Callback(Box::new(move |mut arg| listener.call(downcast::<T>(&mut arg))))
    }
}

impl<T: Any, F: Fn(Option<&T>) -> Outcome + 'static> From<SyncListener<T, F>> for Callback {
    fn from(listener: SyncListener<T, F>) -> Callback {
        Callback(Box::new(move |mut arg| listener.call(downcast::<T>(&mut arg))))
    }
}

type Emitter = ParallelEventEmitter<Callback>;

type Failure = InvocationError<&'static str>;

fn emitter() -> Emitter {
    ParallelEventEmitter::with_pool(CpuPool::new(1))
}

fn erase<T: Any>(arg: Option<Emitted<T>>) -> Option<Erased> {
    match arg {
        None => None,
        Some(ArcCowish::Owned(value)) => Some(ArcCowish::Owned(Box::new(value))),
        Some(ArcCowish::Borrowed(value)) => Some(ArcCowish::Borrowed(value)),
    }
}

fn invoke<T: Any>(
    emitter: &mut Emitter,
    event: &str,
    invocation: Invocation<Callback, T>,
) -> Result<bool, Failure> {
    let claimed = emitter.claim(event, &invocation.listener);
    let arg = erase(invocation.arg);
    run_claimed(claimed, || (invocation.listener.cb.0)(arg))
}

fn run<T: Any>(
    emitter: &mut Emitter,
    event: &str,
    invocations: EventResult<Vec<Invocation<Callback, T>>>,
) -> Result<usize, Failure> {
    let mut executed = Vec::new();
    for invocation in invocations.map_err(InvocationError::Event)? {
        executed.push(invoke(emitter, event, invocation)?);
    }
    Ok(count_ran(&executed))
}

fn emit(emitter: &mut Emitter, event: &str) -> Result<usize, Failure> {
    let invocations = emitter.emit(event);
    run(emitter, event, invocations)
}

fn emit_value<T: Any + Clone>(emitter: &mut Emitter, event: &str, value: T) -> Result<usize, Failure> {
    let invocations = emitter.emit_value(event, value);
    run(emitter, event, invocations)
}

fn emit_value_sync<T: Any>(emitter: &mut Emitter, event: &str, value: T) -> Result<usize, Failure> {
    let invocations = emitter.emit_value_sync(event, value);
    run(emitter, event, invocations)
}

fn names(emitter: &Emitter) -> BTreeSet<String> {
    let names = emitter.event_names().unwrap();
    let set: BTreeSet<String> = names.iter().cloned().collect();
    assert_eq!(set.len(), names.len());
    set
}

fn ids<T>(invocations: &Vec<Invocation<Callback, T>>) -> Vec<ListenerId> {
    invocations.iter().map(|invocation| invocation.listener.id).collect()
}

fn set(names: &[&str]) -> BTreeSet<String> {
    names.iter().map(|name| name.to_string()).collect()
}

#[test]
fn one_listener_is_invoked() {
    let mut emitter: Emitter = ParallelEventEmitter::new();
    let calls = Rc::new(RefCell::new(0));
    let counter = calls.clone();
    emitter
        .add_listener("some event", move || {
            *counter.borrow_mut() += 1;
            Ok(())
        })
        .unwrap();
    assert_eq!(1, emit(&mut emitter, "some event").unwrap());
    assert_eq!(1, *calls.borrow());
}

#[test]
fn default_emitter_is_empty() {
    let mut emitter: Emitter = ParallelEventEmitter::default();
    assert!(names(&emitter).is_empty());
    assert_eq!(emit(&mut emitter, "test"), Ok(0));
    assert_eq!(emitter.add_listener("test", || Ok(())), Ok(0));
}

#[test]
fn values_and_references_reach_listeners_of_their_type() {
    let mut emitter = emitter();
    let seen: Rc<RefCell<Vec<String>>> = Rc::new(RefCell::new(Vec::new()));

    let log = seen.clone();
    emitter
        .add_listener("test", move || {
            log.borrow_mut().push("no arguments".to_string());
            Ok(())
        })
        .unwrap();
    let log = seen.clone();
    emitter
        .add_listener_value("test", move |arg: Option<i32>| {
            log.borrow_mut().push(format!("i32 {:?}", arg));
            Ok(())
        })
        .unwrap();
    let log = seen.clone();
    emitter
        .add_listener_value("test", move |arg: Option<&'static str>| {
            log.borrow_mut().push(format!("str {:?}", arg));
            Ok(())
        })
        .unwrap();
    let sum = Arc::new(AtomicUsize::new(0));
    for _ in 0..4 {
        let sum = sum.clone();
        emitter
            .add_listener_sync("some_sync", move |arg: Option<&AtomicUsize>| {
                sum.fetch_add(arg.unwrap().fetch_add(1, Ordering::SeqCst), Ordering::SeqCst);
                Ok(())
            })
            .unwrap();
    }

    assert_eq!(emit(&mut emitter, "test"), Ok(3));
    assert_eq!(*seen.borrow(), vec!["no arguments", "i32 None", "str None"]);
    seen.borrow_mut().clear();

    assert_eq!(emit_value(&mut emitter, "test", 42i32), Ok(3));
    assert_eq!(*seen.borrow(), vec!["no arguments", "i32 Some(42)", "str None"]);
    seen.borrow_mut().clear();

    assert_eq!(emit_value(&mut emitter, "test", "random string"), Ok(3));
    assert_eq!(*seen.borrow(), vec!["no arguments", "i32 None", "str Some(\"random string\")"]);
    seen.borrow_mut().clear();

    assert_eq!(emit_value_sync(&mut emitter, "test", 7i32), Ok(3));
    assert_eq!(*seen.borrow(), vec!["no arguments", "i32 Some(7)", "str None"]);

    assert_eq!(emit_value_sync(&mut emitter, "some_sync", AtomicUsize::new(0)), Ok(4));
    assert_eq!(sum.load(Ordering::SeqCst), 0 + 1 + 2 + 3);
    assert_eq!(names(&emitter), set(&["test", "some_sync"]));
}

#[test]
fn each_listener_gets_its_own_copy_of_a_value() {
    let mut emitter = emitter();
    emitter.add_listener("a", || Ok(())).unwrap();
    emitter.add_listener("a", || Ok(())).unwrap();
    let value = Rc::new(5);
    let invocations = emitter.emit_value("a", value.clone()).unwrap();
    assert_eq!(invocations.len(), 2);
    assert_eq!(Rc::strong_count(&value), 3);
    for invocation in &invocations {
        match &invocation.arg {
            Some(ArcCowish::Owned(copy)) => assert_eq!(**copy, 5),
            _ => panic!("not owned"),
        }
    }
}

#[test]
fn all_listeners_share_a_sync_value() {
    let mut emitter = emitter();
    emitter.add_listener("a", || Ok(())).unwrap();
    emitter.add_listener("a", || Ok(())).unwrap();
    let invocations = emitter.emit_value_sync("a", 5).unwrap();
    match (&invocations[0].arg, &invocations[1].arg) {
        (Some(ArcCowish::Borrowed(a)), Some(ArcCowish::Borrowed(b))) => {
            assert!(Arc::ptr_eq(a, b));
            assert_eq!(**a, 5);
        }
        _ => panic!("not shared"),
    }
}

#[test]
fn plain_emission_carries_no_argument() {
    let mut emitter = emitter();
    emitter.once("a", || Ok(())).unwrap();
    let invocations = emitter.emit("a").unwrap();
    assert_eq!(invocations.len(), 1);
    assert!(invocations[0].arg.is_none());
    assert!(invocations[0].listener.once);
}

#[test]
fn ids_count_up_over_all_events() {
    let mut emitter = emitter();
    assert_eq!(emitter.add_listener("a", || Ok(())), Ok(0));
    assert_eq!(emitter.once("b", || Ok(())), Ok(1));
    assert_eq!(emitter.add_listener_value("a", |_: Option<i32>| Ok(())), Ok(2));
    assert_eq!(emitter.once_value("a", |_: Option<i32>| Ok(())), Ok(3));
    assert_eq!(emitter.add_listener_sync("b", |_: Option<&i32>| Ok(())), Ok(4));
    assert_eq!(emitter.once_sync("c", |_: Option<&i32>| Ok(())), Ok(5));
    assert_eq!(emitter.remove_listener("c", 5), Ok(true));
    assert_eq!(emitter.add_listener("c", || Ok(())), Ok(6));
    assert_eq!(ids(&emitter.emit("a").unwrap()), vec![0, 2, 3]);
    assert_eq!(ids(&emitter.emit("b").unwrap()), vec![1, 4]);
    assert_eq!(ids(&emitter.emit("c").unwrap()), vec![6]);
}

#[test]
fn removing_finds_only_the_right_event() {
    let mut emitter = emitter();
    for _ in 0..5 {
        emitter.add_listener("a", || Ok(())).unwrap();
        emitter.add_listener("b", || Ok(())).unwrap();
    }
    assert_eq!(emitter.remove_listener("b", 4), Ok(false));
    assert_eq!(emitter.remove_listener("c", 4), Ok(false));
    assert_eq!(emitter.remove_listener("a", 100), Ok(false));
    assert_eq!(emitter.remove_listener("a", 4), Ok(true));
    assert_eq!(emitter.remove_listener("a", 4), Ok(false));
    assert_eq!(ids(&emitter.emit("a").unwrap()), vec![0, 2, 6, 8]);
    assert_eq!(emitter.remove_listener("a", 0), Ok(true));
    assert_eq!(emitter.remove_listener("a", 8), Ok(true));
    assert_eq!(ids(&emitter.emit("a").unwrap()), vec![2, 6]);
    assert_eq!(ids(&emitter.emit("b").unwrap()), vec![1, 3, 5, 7, 9]);
    assert_eq!(names(&emitter), set(&["a", "b"]));
}

#[test]
fn removing_any_searches_all_events() {
    let mut emitter = emitter();
    for event in ["a", "b", "c", "d"] {
        emitter.add_listener(event, || Ok(())).unwrap();
        emitter.add_listener(event, || Ok(())).unwrap();
    }
    assert_eq!(emitter.remove_any_listener(8), Ok(false));
    assert_eq!(emitter.remove_any_listener(5), Ok(true));
    assert_eq!(emitter.remove_any_listener(5), Ok(false));
    assert_eq!(ids(&emitter.emit("c").unwrap()), vec![4]);
    assert_eq!(emitter.remove_any_listener(0), Ok(true));
    assert_eq!(ids(&emitter.emit("a").unwrap()), vec![1]);
    assert_eq!(ids(&emitter.emit("b").unwrap()), vec![2, 3]);
    assert_eq!(ids(&emitter.emit("d").unwrap()), vec![6, 7]);
}

#[test]
fn once_listener_runs_once() {
    let mut emitter = emitter();
    let calls = Rc::new(RefCell::new(0));
    let counter = calls.clone();
    emitter
        .once("a", move || {
            *counter.borrow_mut() += 1;
            Ok(())
        })
        .unwrap();
    emitter.add_listener("a", || Ok(())).unwrap();
    assert_eq!(emit(&mut emitter, "a"), Ok(2));
    assert_eq!(emit(&mut emitter, "a"), Ok(1));
    assert_eq!(*calls.borrow(), 1);
}

#[test]
fn once_listener_of_two_emissions_runs_in_one() {
    let mut emitter = emitter();
    emitter.once("a", || Ok(())).unwrap();
    let first = emitter.emit("a");
    let second = emitter.emit("a");
    assert_eq!(run(&mut emitter, "a", second), Ok(1));
    assert_eq!(run(&mut emitter, "a", first), Ok(0));
}

#[test]
fn once_listener_removed_before_its_turn_does_not_run() {
    let mut emitter = emitter();
    let id = emitter.once("a", || panic!("ran")).unwrap();
    let kept = emitter.add_listener("a", || Ok(())).unwrap();
    let invocations = emitter.emit("a");
    assert_eq!(emitter.remove_listener("a", id), Ok(true));
    assert_eq!(emitter.remove_listener("a", kept), Ok(true));
    // A permanent listener that was reached still runs.
    assert_eq!(run(&mut emitter, "a", invocations), Ok(1));
}

#[test]
fn claim_of_an_unknown_event_is_refused_to_once_listeners() {
    let mut emitter = emitter();
    let once = SyncEventListener::new(0, true, Callback(Box::new(|_| Ok(()))));
    let permanent = SyncEventListener::new(0, false, Callback(Box::new(|_| Ok(()))));
    assert_eq!(emitter.claim("a", &once), Ok(false));
    assert_eq!(emitter.claim("a", &permanent), Ok(true));
    assert!(names(&emitter).is_empty());
}

#[test]
fn once_values_reach_their_listeners() {
    let mut emitter = emitter();
    let seen: Rc<RefCell<Vec<String>>> = Rc::new(RefCell::new(Vec::new()));
    let log = seen.clone();
    emitter
        .once_value("a", move |arg: Option<u8>| {
            log.borrow_mut().push(format!("{:?}", arg));
            Ok(())
        })
        .unwrap();
    let log = seen.clone();
    emitter
        .once_sync("a", move |arg: Option<&u8>| {
            log.borrow_mut().push(format!("&{:?}", arg));
            Ok(())
        })
        .unwrap();
    assert_eq!(emit_value(&mut emitter, "a", 9u8), Ok(2));
    assert_eq!(*seen.borrow(), vec!["Some(9)", "&Some(9)"]);
    assert_eq!(emit_value(&mut emitter, "a", 9u8), Ok(0));
    assert_eq!(names(&emitter), set(&[]));
}

#[test]
fn errors_of_callbacks_are_forwarded() {
    let mut emitter = emitter();
    emitter.once("a", || Err("refused")).unwrap();
    assert_eq!(emit(&mut emitter, "a"), Err(InvocationError::Callback("refused")));
    // The listener was removed before its callback was invoked.
    assert_eq!(emit(&mut emitter, "a"), Ok(0));
    // A permanent listener stays, and fails each time.
    emitter.add_listener("b", || Err("refused")).unwrap();
    assert_eq!(emit(&mut emitter, "b"), Err(InvocationError::Callback("refused")));
    assert_eq!(emit(&mut emitter, "b"), Err(InvocationError::Callback("refused")));
}

#[test]
fn only_events_that_are_listened_for_are_named() {
    let mut emitter = emitter();
    let first = emitter.add_listener("a", || Ok(())).unwrap();
    let second = emitter.add_listener("a", || Ok(())).unwrap();
    emitter.once("b", || Ok(())).unwrap();
    assert_eq!(names(&emitter), set(&["a", "b"]));
    assert_eq!(emitter.remove_listener("a", first), Ok(true));
    assert_eq!(names(&emitter), set(&["a", "b"]));
    assert_eq!(emitter.remove_any_listener(second), Ok(true));
    assert_eq!(names(&emitter), set(&["b"]));
    assert_eq!(emit(&mut emitter, "b"), Ok(1));
    assert_eq!(names(&emitter), set(&[]));
    emitter.event_names_visitor(|_| panic!("visited")).unwrap();
    emitter.add_listener("a", || Ok(())).unwrap();
    assert_eq!(names(&emitter), set(&["a"]));
    let visited = RefCell::new(Vec::new());
    emitter.event_names_visitor(|name| visited.borrow_mut().push(name.clone())).unwrap();
    assert_eq!(*visited.borrow(), vec!["a"]);
}

#[test]
fn listener_stays_until_it_is_removed() {
    let mut emitter = emitter();
    emitter.add_listener("a", || Ok(())).unwrap();
    let id = emitter.add_listener("a", || Ok(())).unwrap();
    for _ in 0..3 {
        emitter.once("a", || Ok(())).unwrap();
        let other = emitter.add_listener("b", || Ok(())).unwrap();
        assert_eq!(emitter.remove_listener("a", other), Ok(false));
        assert_eq!(emitter.remove_any_listener(other), Ok(true));
        assert_eq!(emitter.remove_any_listener(other), Ok(false));
        let reached = ids(&emitter.emit("a").unwrap());
        assert_eq!(reached.iter().filter(|reached| **reached == id).count(), 1);
        assert_eq!(emit(&mut emitter, "a"), Ok(3));
    }
    assert_eq!(emitter.remove_any_listener(0), Ok(true));
    emitter.poison_listeners("unknown");
    assert_eq!(ids(&emitter.emit("a").unwrap()), vec![id]);
    assert_eq!(emitter.remove_listener("a", id), Ok(true));
    emitter.add_listener("a", || Ok(())).unwrap();
    assert_eq!(emitter.remove_listener("a", id), Ok(false));
    assert_eq!(emitter.remove_any_listener(id), Ok(false));
    assert!(!ids(&emitter.emit("a").unwrap()).contains(&id));
}

#[test]
fn once_listener_is_counted_by_one_of_overlapping_emissions() {
    let mut emitter = emitter();
    let calls = Rc::new(RefCell::new(0));
    let counter = calls.clone();
    emitter
        .once("a", move || {
            *counter.borrow_mut() += 1;
            Ok(())
        })
        .unwrap();
    let mut pending = Vec::new();
    for _ in 0..3 {
        pending.push(emitter.emit("a"));
        emitter.add_listener("b", || Ok(())).unwrap();
    }
    let mut counts = Vec::new();
    while let Some(emission) = pending.pop() {
        counts.push(run(&mut emitter, "a", emission).unwrap());
    }
    counts.push(emit(&mut emitter, "a").unwrap());
    assert_eq!(counts, vec![1, 0, 0, 0]);
    assert_eq!(*calls.borrow(), 1);
}

#[test]
fn once_listener_is_gone_when_its_callback_starts() {
    let mut emitter = emitter();
    let id = emitter.once("a", || Ok(())).unwrap();
    let reached = emitter.emit("a").unwrap();
    assert_eq!(emitter.claim("a", &reached[0].listener), Ok(true));
    assert_eq!(emitter.remove_listener("a", id), Ok(false));
    assert_eq!(emitter.remove_any_listener(id), Ok(false));
    assert_eq!(emitter.claim("a", &reached[0].listener), Ok(false));
    assert_eq!(emit(&mut emitter, "a"), Ok(0));
}

#[test]
fn once_listener_removed_before_any_emission_never_runs() {
    let mut emitter = emitter();
    let id = emitter.once_value("a", |_: Option<u8>| panic!("ran")).unwrap();
    assert_eq!(emitter.remove_listener("a", id), Ok(true));
    assert_eq!(emit_value(&mut emitter, "a", 1u8), Ok(0));
    assert_eq!(emit_value_sync(&mut emitter, "a", 1u8), Ok(0));
}

#[test]
fn value_listeners_take_a_clone_of_a_shared_value() {
    let mut emitter = emitter();
    let taken: Rc<RefCell<Vec<Rc<u8>>>> = Rc::new(RefCell::new(Vec::new()));
    for once in [true, false] {
        let taken = taken.clone();
        let cb = move |arg: Option<Rc<u8>>| {
            taken.borrow_mut().extend(arg);
            Ok(())
        };
        if once {
            emitter.once_value("a", cb).unwrap();
        } else {
            emitter.add_listener_value("a", cb).unwrap();
        }
    }
    let value = Rc::new(3u8);
    assert_eq!(emit_value_sync(&mut emitter, "a", value.clone()), Ok(2));
    assert_eq!(Rc::strong_count(&value), 3);
    assert_eq!(emit_value(&mut emitter, "a", value.clone()), Ok(1));
    assert_eq!(Rc::strong_count(&value), 4);
    assert_eq!(emit_value(&mut emitter, "a", 3u8), Ok(1));
    assert_eq!(emit(&mut emitter, "a"), Ok(1));
    assert_eq!(taken.borrow().len(), 3);
}

#[test]
fn sync_listeners_see_the_shared_value_itself() {
    let mut emitter = emitter();
    let seen: Rc<RefCell<Vec<Option<u8>>>> = Rc::new(RefCell::new(Vec::new()));
    for once in [true, false] {
        let seen = seen.clone();
        let cb = move |arg: Option<&RefCell<u8>>| {
            let number = arg.map(|value| value.replace_with(|number| *number + 1));
            seen.borrow_mut().push(number);
            Ok(())
        };
        if once {
            emitter.once_sync("a", cb).unwrap();
        } else {
            emitter.add_listener_sync("a", cb).unwrap();
        }
    }
    assert_eq!(emit_value_sync(&mut emitter, "a", RefCell::new(5u8)), Ok(2));
    assert_eq!(*seen.borrow(), vec![Some(5), Some(6)]);
    assert_eq!(emit_value(&mut emitter, "a", RefCell::new(8u8)), Ok(1));
    assert_eq!(emit_value(&mut emitter, "a", 8u8), Ok(1));
    assert_eq!(emit(&mut emitter, "a"), Ok(1));
    assert_eq!(*seen.borrow(), vec![Some(5), Some(6), Some(8), None, None]);
}

#[test]
fn shared_value_need_not_be_cloneable() {
    struct Unique(u8);
    let mut emitter = emitter();
    let seen: Rc<RefCell<Vec<Option<u8>>>> = Rc::new(RefCell::new(Vec::new()));
    let log = seen.clone();
    emitter
        .add_listener_sync("a", move |arg: Option<&Unique>| {
            log.borrow_mut().push(arg.map(|value| value.0));
            Ok(())
        })
        .unwrap();
    let log = seen.clone();
    emitter
        .once_sync("a", move |arg: Option<&Unique>| {
            log.borrow_mut().push(arg.map(|value| value.0));
            Ok(())
        })
        .unwrap();
    assert_eq!(emit_value_sync(&mut emitter, "a", Unique(4)), Ok(2));
    assert_eq!(emit_value_sync(&mut emitter, "a", Unique(6)), Ok(1));
    assert_eq!(emit_value_sync(&mut emitter, "a", 6u8), Ok(1));
    assert_eq!(*seen.borrow(), vec![Some(4), Some(4), Some(6), None]);
}

#[test]
fn kept_callbacks_are_registered_directly() {
    let mut emitter = emitter();
    let callback = || Callback(Box::new(|_| Ok(())));
    assert_eq!(emitter.add_listener_impl("a", false, callback()), Ok(0));
    assert_eq!(emitter.once_impl("a", callback()), Ok(1));
    assert_eq!(emitter.add_listener_impl("a", true, callback()), Ok(2));
    assert_eq!(emit(&mut emitter, "a"), Ok(3));
    assert_eq!(ids(&emitter.emit("a").unwrap()), vec![0]);
}

#[test]
fn event_names_are_visited() {
    let mut emitter = emitter();
    let visited = RefCell::new(BTreeSet::new());
    for event in ["x", "y", "x", "\u{e9}v\u{e9}nement", ""] {
        emitter.add_listener(event, || Ok(())).unwrap();
    }
    emitter
        .event_names_visitor(|name| {
            assert!(visited.borrow_mut().insert(name.clone()));
        })
        .unwrap();
    assert_eq!(*visited.borrow(), set(&["x", "y", "\u{e9}v\u{e9}nement", ""]));
    assert_eq!(names(&emitter), set(&["x", "y", "\u{e9}v\u{e9}nement", ""]));
}

#[test]
fn poisoned_table_refuses_everything() {
    let mut emitter = emitter();
    emitter.add_listener("a", || Ok(())).unwrap();
    let invocations = emitter.emit("a").unwrap();
    emitter.poison_events();
    let poison = EventError::PoisonError;
    assert_eq!(emitter.event_names(), Err(poison));
    assert_eq!(emitter.event_names_visitor(|_| panic!("visited")), Err(poison));
    assert_eq!(emitter.add_listener("a", || Ok(())), Err(poison));
    assert_eq!(emitter.once("b", || Ok(())), Err(poison));
    assert_eq!(emitter.remove_listener("a", 0), Err(poison));
    assert_eq!(emitter.remove_any_listener(0), Err(poison));
    assert_eq!(emit(&mut emitter, "a"), Err(InvocationError::Event(poison)));
    assert_eq!(emit_value(&mut emitter, "a", 1), Err(InvocationError::Event(poison)));
    assert_eq!(emit_value_sync(&mut emitter, "b", 1), Err(InvocationError::Event(poison)));
    let once = SyncEventListener::new(0, true, Callback(Box::new(|_| Ok(()))));
    assert_eq!(emitter.claim("a", &once), Err(poison));
    assert_eq!(emitter.claim("a", &invocations[0].listener), Ok(true));
}

#[test]
fn poisoned_event_refuses_its_own_operations() {
    let mut emitter = emitter();
    emitter.add_listener("a", || Ok(())).unwrap();
    emitter.add_listener("b", || Ok(())).unwrap();
    emitter.poison_listeners("a");
    emitter.poison_listeners("unknown");
    let poison = EventError::PoisonError;
    assert_eq!(names(&emitter), set(&["a", "b"]));
    assert_eq!(emitter.add_listener("a", || Ok(())), Err(poison));
    assert_eq!(emitter.remove_listener("a", 0), Err(poison));
    assert_eq!(emitter.remove_any_listener(0), Err(poison));
    assert_eq!(emitter.remove_any_listener(7), Err(poison));
    assert_eq!(emit(&mut emitter, "a"), Err(InvocationError::Event(poison)));
    assert_eq!(emit(&mut emitter, "b"), Ok(1));
    assert_eq!(emitter.add_listener("b", || Ok(())), Ok(2));
    assert_eq!(emitter.remove_listener("b", 1), Ok(true));
}

#[test]
fn poisoned_lock_becomes_an_event_error() {
    assert_eq!(EventError::from(PoisonError::new(5)), EventError::PoisonError);
    assert_eq!(try_throw::<u8>(Ok(3)), Ok(3));
    assert_eq!(try_throw::<u8>(Err(PoisonError::new(3))), Err(EventError::PoisonError));
    assert_eq!(EventError::PoisonError.description(), "Poison Error");
    assert_eq!(EventError::PoisonError.to_string(), "Poison Error");
}

#[test]
fn claims_decide_what_runs() {
    assert_eq!(run_claimed(Ok(true), || Ok::<(), &str>(())), Ok(true));
    assert_eq!(
        run_claimed(Ok(true), || Err("refused")),
        Err(InvocationError::Callback("refused"))
    );
    assert_eq!(run_claimed::<&str, _>(Ok(false), || panic!("ran")), Ok(false));
    assert_eq!(
        run_claimed::<&str, _>(Err(EventError::PoisonError), || panic!("ran")),
        Err(InvocationError::Event(EventError::PoisonError))
    );
}

#[test]
fn permanent_listener_is_claimed_without_its_emitter() {
    let once = SyncEventListener::new(0, true, ());
    let permanent = SyncEventListener::new(0, false, ());
    assert_eq!(permanent.claim_through(|| panic!("asked")), Ok(true));
    assert_eq!(once.claim_through(|| Ok(false)), Ok(false));
    assert_eq!(once.claim_through(|| Ok(true)), Ok(true));
}

#[test]
fn invocation_takes_the_lock_then_claims_then_runs() {
    let steps = RefCell::new(Vec::new());
    let claim = |answer: EventResult<bool>| {
        let steps = &steps;
        move || {
            steps.borrow_mut().push("claim");
            answer
        }
    };
    let cb = |guard: u8| {
        assert_eq!(guard, 5);
        steps.borrow_mut().push("run");
        Ok::<(), &str>(())
    };
    assert_eq!(run_invocation(Ok(5), claim(Ok(true)), cb), Ok(true));
    assert_eq!(*steps.borrow(), vec!["claim", "run"]);
    steps.borrow_mut().clear();
    assert_eq!(run_invocation(Ok(5), claim(Ok(false)), cb), Ok(false));
    assert_eq!(*steps.borrow(), vec!["claim"]);
    steps.borrow_mut().clear();
    let poison = EventError::PoisonError;
    assert_eq!(
        run_invocation(Ok(5), claim(Err(poison)), cb),
        Err(InvocationError::Event(poison))
    );
    assert_eq!(*steps.borrow(), vec!["claim"]);
    steps.borrow_mut().clear();
    assert_eq!(
        run_invocation(Err(PoisonError::new(5)), claim(Ok(true)), cb),
        Err(InvocationError::Event(poison))
    );
    assert!(steps.borrow().is_empty());
    assert_eq!(
        run_invocation(Ok(5), claim(Ok(true)), |_: u8| Err("refused")),
        Err(InvocationError::Callback("refused"))
    );
}

#[test]
fn ran_listeners_are_counted() {
    assert!(ran(()));
    assert_eq!(count_ran(&vec![]), 0);
    assert_eq!(count_ran(&vec![false, true, true, false, true]), 3);
    assert_eq!(count_ran(&vec![true, true]), 2);
    assert_eq!(count_ran(&vec![false]), 0);
}

#[test]
fn adapters_pick_the_argument() {
    let value = ValueListener::new(|arg: Option<String>| {
        assert_eq!(arg, Some("v".to_string()));
        Ok::<(), &str>(())
    });
    let shared = "v".to_string();
    assert_eq!(value.call(Some(ArcCowish::Owned(Some("v".to_string())))), Ok(()));
    assert_eq!(value.call(Some(ArcCowish::Borrowed(Some(&shared)))), Ok(()));
    let nothing = ValueListener::new(|arg: Option<String>| {
        assert_eq!(arg, None);
        Err("nothing")
    });
    assert_eq!(nothing.call(None), Err("nothing"));
    assert_eq!(nothing.call(Some(ArcCowish::Owned(None))), Err("nothing"));
    assert_eq!(nothing.call(Some(ArcCowish::Borrowed(None))), Err("nothing"));
    let sync = SyncListener::new(|arg: Option<&String>| {
        assert_eq!(arg.map(|s| s.as_str()), Some("v"));
        Ok::<(), &str>(())
    });
    assert_eq!(sync.call(Some(ArcCowish::Owned(Some("v".to_string())))), Ok(()));
    assert_eq!(sync.call(Some(ArcCowish::Borrowed(Some(&shared)))), Ok(()));
    let blind = SyncListener::new(|arg: Option<&String>| {
        assert!(arg.is_none());
        Ok::<(), &str>(())
    });
    assert_eq!(blind.call(None), Ok(()));
    assert_eq!(blind.call(Some(ArcCowish::Owned(None))), Ok(()));
    assert_eq!(blind.call(Some(ArcCowish::Borrowed(None))), Ok(()));
}

#[test]
fn pool_is_the_one_given() {
    let pool = CpuPool::new(3);
    let emitter: Emitter = ParallelEventEmitter::with_pool(pool);
    assert_eq!(format!("{:?}", emitter.pool()), "CpuPool { size: 3 }");
    assert_eq!(emitter.pool().spawn_fn(|| Ok::<i32, ()>(4)).wait(), Ok(4));
}

struct Job(Box<dyn Fn() -> EventResult<()> + Send + Sync>);

impl<F: Fn() -> EventResult<()> + Send + Sync + 'static> From<PlainListener<F>> for Job {
    fn from(listener: PlainListener<F>) -> Job {
        Job(Box::new(move || listener.call::<()>(None)))
    }
}

#[test]
fn invocations_run_in_the_pool() {
    let emitter: Arc<Mutex<ParallelEventEmitter<Job>>> = Arc::new(Mutex::new(ParallelEventEmitter::new()));
    let calls = Arc::new(AtomicUsize::new(0));
    for i in 0..20 {
        let calls = calls.clone();
        let cb = move || {
            calls.fetch_add(1, Ordering::SeqCst);
            Ok(())
        };
        let mut emitter = emitter.lock().unwrap();
        if i % 2 == 0 {
            emitter.once("a", cb).unwrap();
        } else {
            emitter.add_listener("a", cb).unwrap();
        }
    }
    let emissions: Vec<usize> = (0..3)
        .map(|_| {
            let (pool, invocations) = {
                let emitter = emitter.lock().unwrap();
                (emitter.pool().clone(), emitter.emit("a").unwrap())
            };
            let jobs: Vec<_> = invocations
                .into_iter()
                .map(|invocation| {
                    let emitter = emitter.clone();
                    pool.spawn_fn(move || {
                        let claimed = emitter.lock().unwrap().claim("a", &invocation.listener);
                        run_claimed(claimed, || (invocation.listener.cb.0)())
                    })
                })
                .collect();
            future::join_all(jobs).map(|executed| count_ran(&executed)).wait().unwrap()
        })
        .collect();
    assert_eq!(emissions, vec![20, 10, 10]);
    assert_eq!(calls.load(Ordering::SeqCst), 40);
}
