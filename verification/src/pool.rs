//! The thread pool that an emitter's invocations are meant for

use futures_cpupool::CpuPool;
use vstd::prelude::*;

verus! {

/// `futures_cpupool::CpuPool`, a handle on a pool of worker threads. Nothing is claimed of it.
#[verifier::external_type_specification]
#[verifier::external_body]
pub struct ExCpuPool(CpuPool);

/// `CpuPool::new_num_cpus`: starts a pool with one worker for each CPU of the machine. Which pool that is
/// depends on the machine, so nothing is claimed of it. The call panics where the operating system
/// refuses to start a thread.
#[verifier::external_body]
pub(crate) fn default_pool() -> (pool: CpuPool) {
    CpuPool::new_num_cpus()
}

} // verus!
