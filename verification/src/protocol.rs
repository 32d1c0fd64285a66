use vstd::prelude::*;

verus! {

/// One warning reported with a statement-protocol response.
pub struct Warning {
    pub code: u32,
    pub message: String,
}

/// Progress statistics reported with each statement-protocol response.
pub struct Stats {
    pub state: String,
    pub queued: bool,
    pub scheduled: bool,
    pub nodes: u32,
    pub total_splits: u32,
    pub queued_splits: u32,
    pub running_splits: u32,
    pub completed_splits: u32,
    pub cpu_time_millis: u32,
    pub wall_time_millis: u32,
    pub queued_time_millis: u32,
    pub elapsed_time_millis: u32,
    pub processed_rows: u32,
    pub processed_bytes: u32,
    pub physical_input_bytes: u32,
    pub peak_memory_bytes: u32,
    pub spilled_bytes: u32,
}

impl Stats {
    /// Whether the upstream still owes rows: a queued or scheduled statement
    /// is not finished.
    pub fn in_flight(&self) -> (r: bool)
        ensures
            r == (self.queued || self.scheduled),
    {
        self.queued || self.scheduled
    }
}

} // verus!
