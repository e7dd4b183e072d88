//! How long things are waited for, and how processes are stopped.

use vstd::prelude::*;

verus! {

// ---------------------------------------------------------------------------
// Waiting
// ---------------------------------------------------------------------------

/// How long a local App Server may take to open its socket, in milliseconds.
pub const APP_SERVER_WAIT: u64 = 5_000;

/// How long the bridge in the background may take to open its socket.
pub const BRIDGE_WAIT: u64 = 5_000;

/// How long the Exec Server may take to accept connections.
pub const EXEC_SERVER_WAIT: u64 = 5_000;

/// How long the control socket on the host may take to accept connections.
pub const CONTROL_SOCKET_WAIT: u64 = 10_000;

/// What is to be done about something that is waited for.
#[derive(Debug, Clone, Copy, PartialEq, Eq, Structural)]
pub enum WaitAction {
    /// It is there.
    Done,
    /// It will not come: what was to bring it has ended.
    Ended,
    /// Look again a little later.
    Again,
    /// It has not come in time.
    TooLate,
}

pub open spec fn waiting(limit: u64, found: bool, ended: bool, waited: u64) -> WaitAction {
    if found {
        WaitAction::Done
    } else if ended {
        WaitAction::Ended
    } else if waited < limit {
        WaitAction::Again
    } else {
        WaitAction::TooLate
    }
}

/// Decides about something that has been waited for so many milliseconds:
/// `found` tells whether it is there, `ended` whether what was to bring it has
/// ended.
pub fn wait_step(limit: u64, found: bool, ended: bool, waited: u64) -> (r: WaitAction)
    ensures
        r == waiting(limit, found, ended, waited),
{
    if found {
        WaitAction::Done
    } else if ended {
        WaitAction::Ended
    } else if waited < limit {
        WaitAction::Again
    } else {
        WaitAction::TooLate
    }
}

// ---------------------------------------------------------------------------
// Stopping
// ---------------------------------------------------------------------------

/// How long a process may take to end, in milliseconds: by itself, once it has
/// been asked to, and once it has been forced to.
#[derive(Debug, Clone, Copy)]
pub struct StopLimits {
    pub alone: u64,
    pub asked: u64,
    pub forced: u64,
}

/// An agent that another one replaces.
pub fn agent_limits() -> (r: StopLimits)
    ensures
        r == (StopLimits { alone: 0, asked: 3_000, forced: 2_000 }),
{
    StopLimits { alone: 0, asked: 3_000, forced: 2_000 }
}

/// The bridge in the background.
pub fn bridge_limits() -> (r: StopLimits)
    ensures
        r == (StopLimits { alone: 0, asked: 3_000, forced: 0 }),
{
    StopLimits { alone: 0, asked: 3_000, forced: 0 }
}

/// A child; `patient` where it may end by itself first.
pub fn child_limits(patient: bool) -> (r: StopLimits)
    ensures
        r == (StopLimits {
            alone: if patient {
                3_000
            } else {
                0
            },
            asked: 2_000,
            forced: 0,
        }),
{
    StopLimits {
        alone: if patient {
            3_000
        } else {
            0
        },
        asked: 2_000,
        forced: 0,
    }
}

/// How far the stopping of a process has come.
#[derive(Debug, Clone, Copy, PartialEq, Eq, Structural)]
pub enum StopState {
    Alone,
    Asked,
    Forced,
}

/// What is to be done about a process that has to end.
#[derive(Debug, Clone, Copy, PartialEq, Eq, Structural)]
pub enum StopAction {
    /// It has ended.
    Ended,
    /// Look again a little later.
    Again,
    /// Ask it to end.
    Ask,
    /// Force it to end.
    Force,
    /// It does not end.
    GiveUp,
}

/// One look at a process that has to end, `waited` milliseconds after the
/// state was reached.
pub open spec fn stopping(
    limits: StopLimits,
    state: StopState,
    alive: bool,
    waited: u64,
) -> (StopState, StopAction) {
    if !alive {
        (state, StopAction::Ended)
    } else {
        match state {
            StopState::Alone => if waited < limits.alone {
                (state, StopAction::Again)
            } else {
                (StopState::Asked, StopAction::Ask)
            },
            StopState::Asked => if waited < limits.asked {
                (state, StopAction::Again)
            } else {
                (StopState::Forced, StopAction::Force)
            },
            StopState::Forced => if waited < limits.forced {
                (state, StopAction::Again)
            } else {
                (state, StopAction::GiveUp)
            },
        }
    }
}

pub fn stop_step(limits: &StopLimits, state: StopState, alive: bool, waited: u64) -> (r: (
    StopState,
    StopAction,
))
    ensures
        r == stopping(*limits, state, alive, waited),
{
    if !alive {
        return (state, StopAction::Ended);
    }
    match state {
        StopState::Alone => if waited < limits.alone {
            (state, StopAction::Again)
        } else {
            (StopState::Asked, StopAction::Ask)
        },
        StopState::Asked => if waited < limits.asked {
            (state, StopAction::Again)
        } else {
            (StopState::Forced, StopAction::Force)
        },
        StopState::Forced => if waited < limits.forced {
            (state, StopAction::Again)
        } else {
            (state, StopAction::GiveUp)
        },
    }
}

/// The looks at a process one after the other: where they lead, and what is
/// done about it. Each look tells whether the process lives and how long the
/// state has lasted.
pub open spec fn stop_run(limits: StopLimits, looks: Seq<(bool, u64)>) -> (
    StopState,
    Seq<StopAction>,
)
    decreases looks.len(),
{
    if looks.len() == 0 {
        (StopState::Alone, Seq::empty())
    } else {
        let (state, actions) = stop_run(limits, looks.drop_last());
        let (next, action) = stopping(limits, state, looks.last().0, looks.last().1);
        (next, actions.push(action))
    }
}

/// What is done to a process, in order: looking does nothing to it.
pub open spec fn signals(actions: Seq<StopAction>) -> Seq<StopAction>
    decreases actions.len(),
{
    if actions.len() == 0 {
        Seq::empty()
    } else if actions.last() == StopAction::Ask || actions.last() == StopAction::Force {
        signals(actions.drop_last()).push(actions.last())
    } else {
        signals(actions.drop_last())
    }
}

/// However long it takes, a process is asked to end before it is forced to,
/// and each happens once at most.
pub proof fn law_processes_are_asked_first(limits: StopLimits, looks: Seq<(bool, u64)>)
    ensures
        signals(stop_run(limits, looks).1) == (match stop_run(limits, looks).0 {
            StopState::Alone => Seq::<StopAction>::empty(),
            StopState::Asked => seq![StopAction::Ask],
            StopState::Forced => seq![StopAction::Ask, StopAction::Force],
        }),
    decreases looks.len(),
{
    if looks.len() == 0 {
        assert(signals(stop_run(limits, looks).1) =~= Seq::empty());
    } else {
        let (state, actions) = stop_run(limits, looks.drop_last());
        let (next, action) = stopping(limits, state, looks.last().0, looks.last().1);
        law_processes_are_asked_first(limits, looks.drop_last());
        assert(actions.push(action).drop_last() =~= actions);
        assert(Seq::<StopAction>::empty().push(StopAction::Ask) =~= seq![StopAction::Ask]);
        assert(seq![StopAction::Ask].push(StopAction::Force) =~= seq![
            StopAction::Ask,
            StopAction::Force,
        ]);
    }
}

/// A process that ends is left alone, and none is forced before its time is
/// up.
pub proof fn law_processes_get_their_time(
    limits: StopLimits,
    state: StopState,
    alive: bool,
    waited: u64,
)
    ensures
        !alive ==> stopping(limits, state, alive, waited) == (state, StopAction::Ended),
        stopping(limits, state, alive, waited).1 == StopAction::Ask ==> state == StopState::Alone
            && limits.alone <= waited,
        stopping(limits, state, alive, waited).1 == StopAction::Force ==> state
            == StopState::Asked && limits.asked <= waited,
        stopping(limits, state, alive, waited).1 == StopAction::GiveUp ==> state
            == StopState::Forced && limits.forced <= waited,
{
}

} // verus!
