Parallel Event Emitter
======================

An event emitter whose listeners are invoked concurrently in a configurable thread pool. The library under
`src/` is written in [Verus](https://github.com/verus-lang/verus). Every function of it is verified but for the
five that call `FnvHashMap` and `CpuPool`: their contracts are stated and not proved.

* `emitter.rs`: `ParallelEventEmitter`, which keeps the listeners of every event. Emitting an event yields one
  invocation for each of its listeners.
* `listener.rs`: listeners, the arguments that their callbacks receive, and the steps of an invocation.
* `model.rs`: `EmitterView`, the state that the contracts speak of, with each operation as a transition of it.
* `laws.rs`: what holds over several operations, such as that ids are never reused, that a listener stays with
  its event until it is removed, and that one registered with `once` runs exactly once, though emissions overlap.
* `table.rs`, `pool.rs`, `error.rs`: the table of event names, the thread pool and the error type. The five
  unproved contracts are in the first two.

`app/` puts the emitter behind a lock, hands the invocations out to a `CpuPool` and joins their results into a
`Future`:

```rust
let mut emitter = ParallelEventEmitter::new();

emitter.add_listener("some event", || {
    println!("Hello, World!");

    Ok(())
}).unwrap();

assert_eq!(1, emitter.emit("some event").wait().unwrap());
```
