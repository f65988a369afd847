//! The switch that turns recording on.

use vstd::prelude::*;

verus! {

/// The error of [`start`] where recording support is not compiled in.
#[derive(Debug)]
pub struct TracingDisabledAtBuildTime;

/// The error of building a trace before recording was started.
#[derive(Debug)]
pub struct TracingDisabled;

impl TracingDisabledAtBuildTime {
    /// What the error says.
    pub fn message(&self) -> (text: &'static str)
        ensures
            text@ == "The \"enable\" feature of perfetto-recorder is not active"@,
    {
        "The \"enable\" feature of perfetto-recorder is not active"
    }
}

impl TracingDisabled {
    /// What the error says.
    pub fn message(&self) -> (text: &'static str)
        ensures
            text@ == "The `perfetto_recorder::start()` was not called"@,
    {
        "The `perfetto_recorder::start()` was not called"
    }
}

/// The state of the switch: whether recording support is compiled in, and
/// whether recording was started. Recording starts off and, once started,
/// stays on.
#[derive(Clone, Copy, Debug)]
pub struct Activation {
    compiled_in: bool,
    started: bool,
}

impl Activation {
    /// Whether recording support is compiled in.
    pub closed spec fn compiled_in(self) -> bool {
        self.compiled_in
    }

    /// Whether recording was started.
    pub closed spec fn started(self) -> bool {
        self.started
    }

    /// Whether events are recorded in this state.
    pub open spec fn enabled(self) -> bool {
        self.compiled_in() && self.started()
    }

    /// The state in which a process begins: not started.
    pub fn new(compiled_in: bool) -> (state: Activation)
        ensures
            state.compiled_in() == compiled_in,
            !state.started(),
    {
        Activation { compiled_in, started: false }
    }

    /// The state with the given flags: for a caller that keeps the flags in
    /// storage of its own.
    pub fn from_flags(compiled_in: bool, started: bool) -> (state: Activation)
        ensures
            state.compiled_in() == compiled_in,
            state.started() == started,
    {
        Activation { compiled_in, started }
    }

    /// Whether recording was started.
    pub fn is_started(&self) -> (started: bool)
        ensures
            started == self.started(),
    {
        self.started
    }
}

/// Turns recording on. Can be called any number of times. Fails, and
/// changes nothing, where recording support is not compiled in.
pub fn start(state: &mut Activation) -> (result: Result<(), TracingDisabledAtBuildTime>)
    ensures
        final(state).compiled_in() == old(state).compiled_in(),
        result is Ok <==> old(state).compiled_in(),
        result is Ok ==> final(state).started(),
        result is Err ==> final(state).started() == old(state).started(),
{
    if !state.compiled_in {
        return Err(TracingDisabledAtBuildTime);
    }
    state.started = true;
    Ok(())
}

/// Returns whether recording is enabled.
pub fn is_enabled(state: &Activation) -> (enabled: bool)
    ensures
        enabled == state.enabled(),
{
    state.compiled_in && state.started
}

} // verus!
