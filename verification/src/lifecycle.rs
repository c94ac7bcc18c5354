//! The process lifecycle state machines: spawning the daemon on demand
//! with a bounded connect-retry schedule, and stopping it with graceful
//! polling before a forced kill.
use vstd::prelude::*;

verus! {

/// How many connect attempts follow a spawn before giving up.
pub const CONNECT_ATTEMPTS: u8 = 20;

/// How many times the stop sequence polls for a graceful exit before it
/// escalates to a forced kill.
pub const STOP_POLLS: u8 = 20;

/// Where the connect-with-spawn sequence stands. `Start` is before the
/// first attempt; a failed first attempt spawns the daemon and enters
/// `Spawned` with the full retry budget; `Connected` and `Failed` are
/// terminal.
#[derive(Clone, Copy, Debug, PartialEq, Eq, Structural)]
pub enum ConnectPhase {
    Start,
    Spawned { attempts_left: u8 },
    Connected,
    Failed,
}

/// The next phase after one connect attempt's outcome: success connects;
/// the first failure spawns the daemon with the full retry budget; later
/// failures spend one attempt each until the budget is gone.
pub open spec fn connect_step_spec(p: ConnectPhase, connected: bool) -> ConnectPhase {
    match p {
        ConnectPhase::Start => if connected {
            ConnectPhase::Connected
        } else {
            ConnectPhase::Spawned { attempts_left: CONNECT_ATTEMPTS }
        },
        ConnectPhase::Spawned { attempts_left } => if connected {
            ConnectPhase::Connected
        } else if attempts_left > 1 {
            ConnectPhase::Spawned { attempts_left: (attempts_left - 1) as u8 }
        } else {
            ConnectPhase::Failed
        },
        ConnectPhase::Connected => ConnectPhase::Connected,
        ConnectPhase::Failed => ConnectPhase::Failed,
    }
}

/// Advances the connect sequence by one attempt's outcome. A transition
/// from `Start` to `Spawned` is the caller's instruction to spawn the
/// daemon before attempting again.
pub fn connect_step(p: ConnectPhase, connected: bool) -> (r: ConnectPhase)
    ensures
        r == connect_step_spec(p, connected),
{
    match p {
        ConnectPhase::Start => if connected {
            ConnectPhase::Connected
        } else {
            ConnectPhase::Spawned { attempts_left: CONNECT_ATTEMPTS }
        },
        ConnectPhase::Spawned { attempts_left } => if connected {
            ConnectPhase::Connected
        } else if attempts_left > 1 {
            ConnectPhase::Spawned { attempts_left: attempts_left - 1 }
        } else {
            ConnectPhase::Failed
        },
        ConnectPhase::Connected => ConnectPhase::Connected,
        ConnectPhase::Failed => ConnectPhase::Failed,
    }
}

/// The phase reached from `p` after a sequence of attempt outcomes.
pub open spec fn connect_run(p: ConnectPhase, outcomes: Seq<bool>) -> ConnectPhase
    decreases outcomes.len(),
{
    if outcomes.len() == 0 {
        p
    } else {
        connect_run(connect_step_spec(p, outcomes.first()), outcomes.drop_first())
    }
}

/// With `n` attempts left, a first success at attempt `j` (counted from
/// zero) within the budget reaches the connected phase.
proof fn lemma_retry_reaches(n: u8, outcomes: Seq<bool>, j: int)
    requires
        0 <= j < outcomes.len(),
        outcomes[j],
        forall|i: int| 0 <= i < j ==> !outcomes[i],
        j < n,
    ensures
        connect_run(ConnectPhase::Spawned { attempts_left: n }, outcomes.take(j + 1))
            is Connected,
    decreases j,
{
    let p = ConnectPhase::Spawned { attempts_left: n };
    let t = outcomes.take(j + 1);
    if j == 0 {
        assert(t.first());
        assert(connect_step_spec(p, true) is Connected);
        assert(connect_run(ConnectPhase::Connected, t.drop_first()) is Connected);
    } else {
        assert(!t.first());
        assert(n > 1);
        let q = ConnectPhase::Spawned { attempts_left: (n - 1) as u8 };
        assert(connect_step_spec(p, false) == q);
        let rest = outcomes.drop_first();
        assert(forall|i: int| 0 <= i < j - 1 ==> !rest[i]);
        assert(rest[j - 1]);
        lemma_retry_reaches((n - 1) as u8, rest, j - 1);
        assert(t.drop_first() =~= rest.take(j));
    }
}

/// An unreachable daemon recovers: the first failed connect attempt
/// spawns the daemon, and a retry that first succeeds within the budget
/// of `CONNECT_ATTEMPTS` attempts ends the sequence connected.
pub proof fn lemma_connect_recovers(outcomes: Seq<bool>, j: int)
    requires
        outcomes.len() >= 1,
        !outcomes[0],
        1 <= j <= CONNECT_ATTEMPTS,
        j < outcomes.len(),
        outcomes[j],
        forall|i: int| 0 <= i < j ==> !outcomes[i],
    ensures
        connect_step_spec(ConnectPhase::Start, false) == (ConnectPhase::Spawned {
            attempts_left: CONNECT_ATTEMPTS,
        }),
        connect_run(ConnectPhase::Start, outcomes.take(j + 1)) is Connected,
{
    let t = outcomes.take(j + 1);
    assert(!t.first());
    let rest = outcomes.drop_first();
    assert(forall|i: int| 0 <= i < j - 1 ==> !rest[i]);
    assert(rest[j - 1]);
    lemma_retry_reaches(CONNECT_ATTEMPTS, rest, j - 1);
    assert(t.drop_first() =~= rest.take(j));
}

/// Where the stop sequence stands after the graceful termination signal
/// was sent: polling for exit with a budget, escalated to a forced kill,
/// or finished (the marker files are removed in every case).
#[derive(Clone, Copy, Debug, PartialEq, Eq, Structural)]
pub enum StopPhase {
    WaitingExit { polls_left: u8 },
    Escalated,
    Finished,
}

/// The next phase after one poll of the stopping daemon: an exit finishes
/// the sequence; a daemon still alive spends one poll, and an exhausted
/// budget escalates to the forced kill. After the forced kill the
/// sequence always finishes.
pub open spec fn stop_step_spec(p: StopPhase, alive: bool) -> StopPhase {
    match p {
        StopPhase::WaitingExit { polls_left } => if !alive {
            StopPhase::Finished
        } else if polls_left > 1 {
            StopPhase::WaitingExit { polls_left: (polls_left - 1) as u8 }
        } else {
            StopPhase::Escalated
        },
        StopPhase::Escalated => StopPhase::Finished,
        StopPhase::Finished => StopPhase::Finished,
    }
}

/// Advances the stop sequence by one poll's outcome. A transition to
/// `Escalated` is the caller's instruction to send the forced kill.
pub fn stop_step(p: StopPhase, alive: bool) -> (r: StopPhase)
    ensures
        r == stop_step_spec(p, alive),
{
    match p {
        StopPhase::WaitingExit { polls_left } => if !alive {
            StopPhase::Finished
        } else if polls_left > 1 {
            StopPhase::WaitingExit { polls_left: polls_left - 1 }
        } else {
            StopPhase::Escalated
        },
        StopPhase::Escalated => StopPhase::Finished,
        StopPhase::Finished => StopPhase::Finished,
    }
}

} // verus!
