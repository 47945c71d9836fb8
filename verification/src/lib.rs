//! Event emitter core.
//!
//! A [`ParallelEventEmitter`] keeps, for every event name, the listeners that were registered for it,
//! in the order of registration. Emitting an event yields one [`Invocation`] per listener; the
//! invocations are independent of each other and can be handed to the emitter's thread pool.
//!
//! Every operation is described as a transition of an [`EmitterView`]. What each operation does is stated once
//! more in [`effects`], down to the fields of the state; the properties that span several operations are proved
//! in [`laws`]. How often callbacks are called is a matter of types, which [`calls`] explains.

pub mod calls;
pub mod effects;
pub mod emitter;
pub mod error;
pub mod laws;
pub mod listener;
pub mod model;
pub mod pool;
pub mod table;

pub use crate::emitter::ParallelEventEmitter;
pub use crate::error::{try_throw, EventError, EventResult};
pub use crate::listener::{
    count_ran, invoke, ran, run_claimed, ArcCowish, Downcast, Emitted, Invocation, InvocationError,
    ListenerId, PlainListener, SyncEventListener, SyncListener, ValueListener,
};
pub use crate::model::{EmitterView, EventView};
