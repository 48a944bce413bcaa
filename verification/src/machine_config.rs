use vstd::prelude::*;

use crate::logger::Logger;

verus! {

/// Execution-environment knobs: whether elementwise kernels may fan
/// out across threads, and from which element count on. An explicit
/// value handed around rather than hidden process-global state.
pub struct MachineConfig {
    pub enable_multi_thread: bool,
    pub multi_thread_threshold: usize,
    pub thread_num: Option<usize>,
    pub logger: Logger,
}

impl MachineConfig {
    pub fn new() -> (r: Self)
        ensures
            r.enable_multi_thread,
            r.multi_thread_threshold == crate::raw_dense::MULTI_THREAD_THRESHOLD,
            r.thread_num is None,
    {
        MachineConfig {
            enable_multi_thread: true,
            multi_thread_threshold: crate::raw_dense::MULTI_THREAD_THRESHOLD,
            thread_num: None,
            logger: Logger::new(),
        }
    }
}

} // verus!
