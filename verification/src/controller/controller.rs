//! The process-lifecycle controller: a state machine over the execution
//! flag of the one supervised child, driven by control commands.
//!
//! The controller decides; the surrounding runtime acts. A command either
//! finishes immediately (`CmdOutcome::Done`, with a response and at most one
//! side effect to perform) or claims an obligation the caller must fulfil:
//! launch the child and report back (`LaunchNeeded` / `RestartNeeded`), or
//! stop it and report back (`StopNeeded`). Claiming the start transition
//! first — before any launch work — is what makes two concurrent starts
//! race-free: the state moves to running exactly once, and every later
//! start sees it and answers "already running" with no side effects.

use vstd::prelude::*;

use crate::config::config::{Process, ProcessRestartStrategy};
use crate::controller::command::{Command, Response};

verus! {

/// The two-valued execution flag of the supervised process.
#[derive(Debug, Clone, Copy, PartialEq, Eq, Structural)]
pub enum ExecState {
    NotRunning,
    Running,
}

/// A side effect the caller performs after a finished command.
#[derive(Debug, Clone, Copy, PartialEq, Eq, Structural)]
pub enum Action {
    NoAction,
    /// Forcefully terminate the child and its descendants.
    KillChild,
    /// Deliver the reload signal to the child, if one is running.
    SignalReload,
    /// Stop accepting connections, drain workers, terminate the child.
    BeginShutdown,
}

/// What a command resolved to.
#[derive(Debug)]
pub enum CmdOutcome {
    /// The command finished: reply with the response, perform the action.
    Done { response: Response, action: Action },
    /// This caller won the start race: launch the child, then report the
    /// result through `finish_start`.
    LaunchNeeded,
    /// The child is running and must be stopped: signal it, wait up to the
    /// grace period, then report through `finish_stop`.
    StopNeeded,
    /// Stop the child if one runs, relaunch, then report through
    /// `finish_restart`.
    RestartNeeded,
}

/// The controller's state as the contracts see it.
pub struct CtrlModel {
    pub running: bool,
    /// The child's pid once a launch has been confirmed; `None` while not
    /// running and between winning the start race and confirming it.
    pub pid: Option<u32>,
}

/// The fresh, not-yet-running state.
pub open spec fn spec_fresh() -> CtrlModel {
    CtrlModel { running: false, pid: None }
}

/// Whether a command wins the start transition: only a start against a
/// not-running controller launches anything.
pub open spec fn spec_cmd_launches(s: CtrlModel, cmd: Command) -> bool {
    cmd == Command::Start && !s.running
}

/// The state after a command is accepted (before any launch or stop work
/// the caller still owes).
pub open spec fn spec_cmd_next(s: CtrlModel, cmd: Command) -> CtrlModel {
    match cmd {
        Command::Start => if s.running {
            s
        } else {
            CtrlModel { running: true, pid: None }
        },
        Command::Restart => CtrlModel { running: true, pid: s.pid },
        Command::Kill => CtrlModel { running: false, pid: None },
        Command::Exit => CtrlModel { running: false, pid: None },
        _ => s,
    }
}

/// How a finished command must have resolved: which obligation (launch,
/// stop, restart) it hands the caller, and for every immediately finished
/// command the exact response text, pid and side effect.
pub open spec fn spec_cmd_resolved(s: CtrlModel, cmd: Command, r: CmdOutcome) -> bool {
    &&& (r is LaunchNeeded) == spec_cmd_launches(s, cmd)
    &&& (r is StopNeeded) == (cmd == Command::Stop && s.running)
    &&& (r is RestartNeeded) == (cmd == Command::Restart)
    &&& (cmd == Command::Start && s.running ==> (r matches CmdOutcome::Done { response, action }
        && response.message@ == "already running"@ && response.sup_pid == s.pid && action
        == Action::NoAction))
    &&& (cmd == Command::Stop && !s.running ==> (r matches CmdOutcome::Done { response, action }
        && response.message@ == "stop success"@ && response.sup_pid is None && action
        == Action::NoAction))
    &&& (cmd == Command::Kill ==> (r matches CmdOutcome::Done { response, action }
        && response.message@ == "kill success"@ && response.sup_pid is None && action
        == Action::KillChild))
    &&& (cmd == Command::Reload ==> (r matches CmdOutcome::Done { response, action }
        && response.message@ == "reload success"@ && response.sup_pid is None && action
        == Action::SignalReload))
    &&& (cmd == Command::Status ==> (r matches CmdOutcome::Done { response, action }
        && response.message@ == "get status success"@ && response.sup_pid == (if s.running {
            s.pid
        } else {
            None
        }) && action == Action::NoAction))
    &&& (cmd == Command::Exit ==> (r matches CmdOutcome::Done { response, action }
        && response.message@ == "exit success"@ && response.sup_pid is None && action
        == Action::BeginShutdown))
    &&& (cmd == Command::Unknown ==> (r matches CmdOutcome::Done { response, action }
        && response.message@ == "unknown command"@ && response.sup_pid is None && action
        == Action::NoAction))
}

/// The state after a launch result is reported for a claimed start: success
/// records the pid, failure releases the claim.
pub open spec fn spec_finish_start(s: CtrlModel, launch: Option<u32>) -> CtrlModel {
    if s.running && s.pid is None {
        match launch {
            Some(p) => CtrlModel { running: true, pid: Some(p) },
            None => CtrlModel { running: false, pid: None },
        }
    } else {
        s
    }
}

/// Owns the supervised process's configuration and run state and executes
/// lifecycle commands against them.
pub struct ProcessController {
    exec_state: ExecState,
    child_pid: Option<u32>,
    conf: Process,
}

impl ProcessController {
    /// The contract-level view of the run state.
    pub closed spec fn model(&self) -> CtrlModel {
        CtrlModel { running: self.exec_state is Running, pid: self.child_pid }
    }

    /// The configuration the controller launches with.
    pub closed spec fn spec_conf(&self) -> Process {
        self.conf
    }

    /// A controller starts not running, with no child pid. If the
    /// configuration asks for auto-start, the caller performs one start
    /// round (`exec_cmd(Start)` and its launch) before serving requests.
    pub fn new(conf: Process) -> (r: ProcessController)
        ensures
            r.model() == spec_fresh(),
            r.spec_conf() == conf,
    {
        ProcessController { exec_state: ExecState::NotRunning, child_pid: None, conf }
    }

    /// Whether the configuration asks for an implicit start at startup.
    pub fn wants_auto_start(&self) -> (r: bool)
        ensures
            r == self.spec_conf().auto_start,
    {
        self.conf.auto_start
    }

    /// Read the execution flag.
    pub fn is_executing(&self) -> (r: bool)
        ensures
            r == self.model().running,
    {
        match self.exec_state {
            ExecState::Running => true,
            ExecState::NotRunning => false,
        }
    }

    /// The confirmed child pid, if any.
    pub fn child_pid(&self) -> (r: Option<u32>)
        ensures
            r == self.model().pid,
    {
        self.child_pid
    }

    /// Execute one control command against the run state.
    ///
    /// Exactly the start of a not-running process claims a launch; every
    /// other command resolves as the state machine in the ensures says,
    /// with no window in which a restart is observable as not-running.
    pub fn exec_cmd(&mut self, cmd: Command) -> (r: CmdOutcome)
        ensures
            final(self).model() == spec_cmd_next(old(self).model(), cmd),
            final(self).spec_conf() == old(self).spec_conf(),
            spec_cmd_resolved(old(self).model(), cmd, r),
    {
        match cmd {
            Command::Start => {
                if self.is_executing() {
                    CmdOutcome::Done {
                        response: Response::new("already running".to_owned(), self.child_pid),
                        action: Action::NoAction,
                    }
                } else {
                    self.exec_state = ExecState::Running;
                    self.child_pid = None;
                    CmdOutcome::LaunchNeeded
                }
            },
            Command::Stop => {
                if self.is_executing() {
                    CmdOutcome::StopNeeded
                } else {
                    CmdOutcome::Done {
                        response: Response::new("stop success".to_owned(), None),
                        action: Action::NoAction,
                    }
                }
            },
            Command::Restart => {
                self.exec_state = ExecState::Running;
                CmdOutcome::RestartNeeded
            },
            Command::Kill => {
                self.exec_state = ExecState::NotRunning;
                self.child_pid = None;
                CmdOutcome::Done {
                    response: Response::new("kill success".to_owned(), None),
                    action: Action::KillChild,
                }
            },
            Command::Reload => {
                CmdOutcome::Done {
                    response: Response::new("reload success".to_owned(), None),
                    action: Action::SignalReload,
                }
            },
            Command::Status => {
                let pid = if self.is_executing() {
                    self.child_pid
                } else {
                    None
                };
                CmdOutcome::Done {
                    response: Response::new("get status success".to_owned(), pid),
                    action: Action::NoAction,
                }
            },
            Command::Exit => {
                self.exec_state = ExecState::NotRunning;
                self.child_pid = None;
                CmdOutcome::Done {
                    response: Response::new("exit success".to_owned(), None),
                    action: Action::BeginShutdown,
                }
            },
            Command::Unknown => {
                CmdOutcome::Done {
                    response: Response::new("unknown command".to_owned(), None),
                    action: Action::NoAction,
                }
            },
        }
    }

    /// Report the result of the launch owed after a won start: success
    /// confirms the pid, failure moves the state back to not running.
    pub fn finish_start(&mut self, launch: Option<u32>) -> (r: Response)
        requires
            old(self).model().running,
            old(self).model().pid is None,
        ensures
            final(self).model() == spec_finish_start(old(self).model(), launch),
            final(self).spec_conf() == old(self).spec_conf(),
            match launch {
                Some(p) => r.message@ == "start success"@ && r.sup_pid == Some(p),
                None => r.message@ == "start failed"@ && r.sup_pid is None,
            },
    {
        match launch {
            Some(p) => {
                self.child_pid = Some(p);
                Response::new("start success".to_owned(), Some(p))
            },
            None => {
                self.exec_state = ExecState::NotRunning;
                self.child_pid = None;
                Response::new("start failed".to_owned(), None)
            },
        }
    }

    /// Report the result of the relaunch owed after a restart command.
    pub fn finish_restart(&mut self, launch: Option<u32>) -> (r: Response)
        requires
            old(self).model().running,
        ensures
            final(self).spec_conf() == old(self).spec_conf(),
            match launch {
                Some(p) => final(self).model() == (CtrlModel { running: true, pid: Some(p) })
                    && r.message@ == "restart success"@ && r.sup_pid == Some(p),
                None => final(self).model() == spec_fresh() && r.message@ == "restart failed"@
                    && r.sup_pid is None,
            },
    {
        match launch {
            Some(p) => {
                self.child_pid = Some(p);
                Response::new("restart success".to_owned(), Some(p))
            },
            None => {
                self.exec_state = ExecState::NotRunning;
                self.child_pid = None;
                Response::new("restart failed".to_owned(), None)
            },
        }
    }

    /// Report the outcome of the stop owed after a stop command: the state
    /// leaves running either way; a child that outlived the grace period is
    /// treated as a kill.
    pub fn finish_stop(&mut self, graceful: bool) -> (r: (Response, Action))
        requires
            old(self).model().running,
        ensures
            final(self).model() == spec_fresh(),
            final(self).spec_conf() == old(self).spec_conf(),
            r.0.message@ == "stop success"@,
            r.0.sup_pid is None,
            r.1 == (if graceful {
                Action::NoAction
            } else {
                Action::KillChild
            }),
    {
        self.exec_state = ExecState::NotRunning;
        self.child_pid = None;
        let action = if graceful {
            Action::NoAction
        } else {
            Action::KillChild
        };
        (Response::new("stop success".to_owned(), None), action)
    }
}

/// Whether the daemon relaunches a child that exited on its own: always,
/// only after a failed exit, or never. The explicit restart command is not
/// governed by this — it is always honored.
pub open spec fn spec_auto_restart(strategy: ProcessRestartStrategy, exit_ok: bool) -> bool {
    match strategy {
        ProcessRestartStrategy::Always => true,
        ProcessRestartStrategy::OnFailure => !exit_ok,
        ProcessRestartStrategy::AlwaysNot => false,
    }
}

impl ProcessController {
    /// The supervised child exited without being asked to: the state
    /// leaves running, and the restart strategy alone decides whether the
    /// caller relaunches (reporting back through `finish_start` as after a
    /// won start).
    pub fn on_unexpected_exit(&mut self, exit_ok: bool) -> (r: bool)
        requires
            old(self).model().running,
        ensures
            final(self).model() == spec_fresh(),
            final(self).spec_conf() == old(self).spec_conf(),
            r == spec_auto_restart(old(self).spec_conf().restart_strategy, exit_ok),
    {
        self.exec_state = ExecState::NotRunning;
        self.child_pid = None;
        match self.conf.restart_strategy {
            ProcessRestartStrategy::Always => true,
            ProcessRestartStrategy::OnFailure => !exit_ok,
            ProcessRestartStrategy::AlwaysNot => false,
        }
    }
}

/// Start idempotence: against a fresh controller the first start wins the
/// launch; once the launch is confirmed with pid `p`, a second start
/// launches nothing, leaves the state alone, and (by `exec_cmd`'s contract)
/// is answered "already running" carrying that same pid `p`.
pub proof fn lemma_start_idempotent(p: u32)
    ensures
        spec_cmd_launches(spec_fresh(), Command::Start),
        ({
            let s1 = spec_cmd_next(spec_fresh(), Command::Start);
            let s2 = spec_finish_start(s1, Some(p));
            &&& !spec_cmd_launches(s2, Command::Start)
            &&& spec_cmd_next(s2, Command::Start) == s2
            &&& s2.pid == Some(p)
        }),
{
}

/// One step of a start race: `Claim` models `exec_cmd(Start)` by one
/// concurrent caller, `Confirm` models the winner's successful
/// `finish_start`. The execution flag serializes these steps.
pub enum StartEvent {
    Claim,
    Confirm(u32),
}

/// The state after one race step.
pub open spec fn spec_race_next(s: CtrlModel, e: StartEvent) -> CtrlModel {
    match e {
        StartEvent::Claim => spec_cmd_next(s, Command::Start),
        StartEvent::Confirm(p) => spec_finish_start(s, Some(p)),
    }
}

/// The state after a whole sequence of race steps.
pub open spec fn spec_race_run(s: CtrlModel, es: Seq<StartEvent>) -> CtrlModel
    decreases es.len(),
{
    if es.len() == 0 {
        s
    } else {
        spec_race_run(spec_race_next(s, es[0]), es.skip(1))
    }
}

/// How many of the race steps win a launch.
pub open spec fn spec_race_launch_count(s: CtrlModel, es: Seq<StartEvent>) -> int
    decreases es.len(),
{
    if es.len() == 0 {
        0int
    } else {
        (if es[0] is Claim && spec_cmd_launches(s, Command::Start) {
            1int
        } else {
            0int
        }) + spec_race_launch_count(spec_race_next(s, es[0]), es.skip(1))
    }
}

/// Once running, no race step launches and none leaves the running state.
proof fn lemma_race_stays_running(s: CtrlModel, es: Seq<StartEvent>)
    requires
        s.running,
    ensures
        spec_race_launch_count(s, es) == 0,
        spec_race_run(s, es).running,
    decreases es.len(),
{
    if es.len() > 0 {
        lemma_race_stays_running(spec_race_next(s, es[0]), es.skip(1));
    }
}

/// Concurrent start race: however many concurrent starts and launch
/// confirmations interleave against a fresh controller, exactly one start
/// wins the launch — one if any start occurs at all, zero otherwise. All
/// the others observe the running state and, by `exec_cmd`'s contract, get
/// the "already running" response with no side effects.
pub proof fn lemma_concurrent_start_race(es: Seq<StartEvent>)
    ensures
        spec_race_launch_count(spec_fresh(), es) == (if (exists|i: int|
            0 <= i < es.len() && es[i] is Claim) {
            1int
        } else {
            0int
        }),
{
    lemma_race_from_fresh(spec_fresh(), es);
}

/// Helper induction for the race law, from any not-running state.
proof fn lemma_race_from_fresh(s: CtrlModel, es: Seq<StartEvent>)
    requires
        !s.running,
    ensures
        spec_race_launch_count(s, es) == (if (exists|i: int|
            0 <= i < es.len() && es[i] is Claim) {
            1int
        } else {
            0int
        }),
    decreases es.len(),
{
    if es.len() > 0 {
        let s1 = spec_race_next(s, es[0]);
        if es[0] is Claim {
            lemma_race_stays_running(s1, es.skip(1));
            assert(es[0int] is Claim);
        } else {
            assert(!s1.running);
            lemma_race_from_fresh(s1, es.skip(1));
            assert((exists|i: int| 0 <= i < es.skip(1).len() && es.skip(1)[i] is Claim)
                == (exists|i: int| 0 <= i < es.len() && es[i] is Claim)) by {
                if exists|i: int| 0 <= i < es.skip(1).len() && es.skip(1)[i] is Claim {
                    let i = choose|i: int| 0 <= i < es.skip(1).len() && es.skip(1)[i] is Claim;
                    assert(es[i + 1] is Claim);
                }
                if exists|i: int| 0 <= i < es.len() && es[i] is Claim {
                    let i = choose|i: int| 0 <= i < es.len() && es[i] is Claim;
                    assert(i >= 1);
                    assert(es.skip(1)[i - 1] is Claim);
                }
            }
        }
    }
}

} // verus!
