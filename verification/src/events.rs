use vstd::prelude::*;

verus! {

/// A snapshot of the host's logical clock: a sequence counter and the wall
/// time in seconds since the epoch.
#[derive(Clone, Copy, Debug)]
pub struct ClockSnapshot {
    pub slot: u64,
    pub unix_timestamp: i64,
}

/// The clock fields every notification carries.
#[derive(Clone, Copy, Debug)]
pub struct CommonFields {
    pub slot: u64,
    pub unix_timestamp: i64,
}

impl CommonFields {
    /// Captures the clock snapshot for a notification.
    pub fn new(clock: &ClockSnapshot) -> (r: Self)
        ensures
            r.slot == clock.slot,
            r.unix_timestamp == clock.unix_timestamp,
    {
        Self { slot: clock.slot, unix_timestamp: clock.unix_timestamp }
    }
}

/// The notification published after a successful creation: the clock snapshot,
/// the new record's address, its author and its payload. Fire-and-forget
/// telemetry, not part of the durable state.
pub struct MemoCreated {
    pub common: CommonFields,
    pub memo: Vec<u8>,
    pub author: Vec<u8>,
    pub text: Vec<u8>,
}

} // verus!
