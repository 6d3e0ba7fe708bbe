use vstd::prelude::*;
use tokio::sync::broadcast;

verus! {

/// The phase a progress event reports on.
#[derive(Clone, Copy, Debug, PartialEq, Eq, Structural)]
pub enum State {
    Downloading,
    Extracting,
    Installing,
    Updating,
}

/// Number of progress units that stand for a completed phase: a fraction in
/// `[0, 1]` is carried as `0 ..= PROGRESS_SCALE` units.
pub const PROGRESS_SCALE: u32 = 1000;

/// `p` forced into the progress range.
pub open spec fn clamped(p: int) -> int {
    if p < 0 {
        0
    } else if p > 1000 {
        1000
    } else {
        p
    }
}

/// A progress event: the phase and how far it has advanced, always within
/// the progress range whatever the constructor was given.
#[derive(Clone, Copy, Debug, PartialEq, Eq, Structural)]
pub struct StateProgress {
    pub state: State,
    /// Progress in units of `1 / PROGRESS_SCALE`, at most `PROGRESS_SCALE`.
    pub progress: u32,
}

impl StateProgress {
    /// Build an event, clamping the given progress into the valid range.
    pub fn new(state: State, progress: i64) -> (r: StateProgress)
        ensures
            r.state == state,
            r.progress == clamped(progress as int),
            r.progress <= PROGRESS_SCALE,
    {
        let p: u32 = if progress < 0 {
            0
        } else if progress > 1000 {
            1000
        } else {
            progress as u32
        };
        StateProgress { state, progress: p }
    }
}

#[verifier::external_type_specification]
#[verifier::external_body]
#[verifier::reject_recursive_types(T)]
pub struct ExSender<T>(broadcast::Sender<T>);

#[verifier::external_type_specification]
#[verifier::external_body]
#[verifier::reject_recursive_types(T)]
pub struct ExReceiver<T>(broadcast::Receiver<T>);

/// Relies on tokio::sync::broadcast::channel: creates a bounded broadcast
/// channel (capacity one hundred events; a lagging subscriber loses its
/// oldest unread events instead of blocking the sender). The sender half is
/// kept; the initial receiver is dropped, so the channel starts with no
/// subscribers.
#[verifier::external_body]
pub(crate) fn progress_channel() -> broadcast::Sender<StateProgress> {
    let (tx, _rx) = broadcast::channel(100);
    tx
}

/// Relies on tokio::sync::broadcast::Sender::send: delivers the event to
/// every active subscriber without blocking; with at least one subscriber it
/// returns their number, with none it returns the event back, an error the
/// caller is free to ignore.
#[verifier::external_body]
pub(crate) fn channel_send(tx: &broadcast::Sender<StateProgress>, ev: StateProgress) -> (r: Result<
    usize,
    StateProgress,
>)
    ensures
        r matches Ok(n) ==> n >= 1,
{
    match tx.send(ev) {
        Ok(n) => Ok(n),
        Err(e) => Err(e.0),
    }
}

/// Relies on tokio::sync::broadcast::Sender::subscribe: creates a receiver
/// that observes every event sent after this call.
#[verifier::external_body]
pub(crate) fn channel_subscribe(tx: &broadcast::Sender<StateProgress>) -> broadcast::Receiver<
    StateProgress,
> {
    tx.subscribe()
}

/// The scaled fraction `done / total`, capped at complete.
pub fn progress_fraction(done: u64, total: u64) -> (r: u32)
    requires
        total > 0,
    ensures
        r == clamped(done as int * 1000 / total as int),
{
    let scaled: u128 = (done as u128) * 1000 / (total as u128);
    if scaled > 1000 {
        1000
    } else {
        scaled as u32
    }
}

} // verus!
