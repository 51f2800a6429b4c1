use sup_rs::config::config::{Process, ProcessRestartStrategy};
use sup_rs::controller::command::Command;
use sup_rs::controller::controller::{Action, CmdOutcome, ProcessController};
use sup_rs::controller::server::handle_request;

fn test_conf(auto_start: bool) -> Process {
    Process {
        path: "/bin/sleep".to_string(),
        args: Some(vec!["60".to_string()]),
        envs: None,
        work_dir: "/tmp".to_string(),
        auto_start,
        start_interval: 5,
        restart_strategy: ProcessRestartStrategy::OnFailure,
    }
}

#[test]
fn fresh_controller_is_not_running() {
    let ctrl = ProcessController::new(test_conf(false));
    assert!(!ctrl.is_executing());
    assert_eq!(ctrl.child_pid(), None);
    assert!(!ctrl.wants_auto_start());
    assert!(ProcessController::new(test_conf(true)).wants_auto_start());
}

#[test]
fn start_idempotence() {
    // Two sequential starts against a fresh controller: exactly one launch;
    // the second start answers "already running" with the same pid.
    let mut ctrl = ProcessController::new(test_conf(false));
    let mut launches = 0;
    let first = ctrl.exec_cmd(Command::Start);
    assert!(matches!(first, CmdOutcome::LaunchNeeded));
    launches += 1;
    let resp = ctrl.finish_start(Some(42));
    assert_eq!(resp.message, "start success");
    assert_eq!(resp.sup_pid, Some(42));
    match ctrl.exec_cmd(Command::Start) {
        CmdOutcome::Done { response, action } => {
            assert_eq!(response.message, "already running");
            assert_eq!(response.sup_pid, Some(42));
            assert_eq!(action, Action::NoAction);
        }
        _ => panic!("second start must not claim a launch"),
    }
    assert_eq!(launches, 1);
}

#[test]
fn start_race_launches_once() {
    // N starts serialized by the execution flag: exactly one wins the
    // launch, all others observe running.
    let mut ctrl = ProcessController::new(test_conf(false));
    let mut launches = 0;
    for i in 0..8 {
        match ctrl.exec_cmd(Command::Start) {
            CmdOutcome::LaunchNeeded => {
                assert_eq!(i, 0);
                launches += 1;
            }
            CmdOutcome::Done { response, .. } => {
                assert_eq!(response.message, "already running");
                // The winner has not confirmed yet, so no pid is known.
                assert_eq!(response.sup_pid, None);
            }
            _ => panic!("unexpected outcome"),
        }
    }
    assert_eq!(launches, 1);
    let resp = ctrl.finish_start(Some(7));
    assert_eq!(resp.sup_pid, Some(7));
}

#[test]
fn failed_launch_releases_the_claim() {
    let mut ctrl = ProcessController::new(test_conf(false));
    assert!(matches!(ctrl.exec_cmd(Command::Start), CmdOutcome::LaunchNeeded));
    let resp = ctrl.finish_start(None);
    assert_eq!(resp.message, "start failed");
    assert_eq!(resp.sup_pid, None);
    assert!(!ctrl.is_executing());
    // A later start may claim the launch again.
    assert!(matches!(ctrl.exec_cmd(Command::Start), CmdOutcome::LaunchNeeded));
}

#[test]
fn stop_is_idempotent_when_not_running() {
    let mut ctrl = ProcessController::new(test_conf(false));
    match ctrl.exec_cmd(Command::Stop) {
        CmdOutcome::Done { response, action } => {
            assert_eq!(response.message, "stop success");
            assert_eq!(response.sup_pid, None);
            assert_eq!(action, Action::NoAction);
        }
        _ => panic!("stop of a stopped process must finish immediately"),
    }
}

#[test]
fn stop_of_running_process() {
    let mut ctrl = ProcessController::new(test_conf(false));
    ctrl.exec_cmd(Command::Start);
    ctrl.finish_start(Some(9));
    assert!(matches!(ctrl.exec_cmd(Command::Stop), CmdOutcome::StopNeeded));
    let (resp, action) = ctrl.finish_stop(true);
    assert_eq!(resp.message, "stop success");
    assert_eq!(action, Action::NoAction);
    assert!(!ctrl.is_executing());
}

#[test]
fn stop_timeout_is_treated_as_kill() {
    let mut ctrl = ProcessController::new(test_conf(false));
    ctrl.exec_cmd(Command::Start);
    ctrl.finish_start(Some(9));
    ctrl.exec_cmd(Command::Stop);
    let (resp, action) = ctrl.finish_stop(false);
    assert_eq!(resp.message, "stop success");
    assert_eq!(action, Action::KillChild);
    assert!(!ctrl.is_executing());
}

#[test]
fn restart_is_always_honored() {
    let mut ctrl = ProcessController::new(test_conf(false));
    // Even when not running, restart relaunches.
    assert!(matches!(ctrl.exec_cmd(Command::Restart), CmdOutcome::RestartNeeded));
    let resp = ctrl.finish_restart(Some(11));
    assert_eq!(resp.message, "restart success");
    assert_eq!(resp.sup_pid, Some(11));
    assert!(ctrl.is_executing());
    // While running, there is no window in which the state reads not-running.
    assert!(matches!(ctrl.exec_cmd(Command::Restart), CmdOutcome::RestartNeeded));
    assert!(ctrl.is_executing());
    let resp = ctrl.finish_restart(Some(12));
    assert_eq!(resp.sup_pid, Some(12));
}

#[test]
fn kill_is_unconditional() {
    let mut ctrl = ProcessController::new(test_conf(false));
    ctrl.exec_cmd(Command::Start);
    ctrl.finish_start(Some(5));
    match ctrl.exec_cmd(Command::Kill) {
        CmdOutcome::Done { response, action } => {
            assert_eq!(response.message, "kill success");
            assert_eq!(action, Action::KillChild);
        }
        _ => panic!("kill must finish immediately"),
    }
    assert!(!ctrl.is_executing());
    assert_eq!(ctrl.child_pid(), None);
}

#[test]
fn reload_does_not_touch_state() {
    let mut ctrl = ProcessController::new(test_conf(false));
    ctrl.exec_cmd(Command::Start);
    ctrl.finish_start(Some(5));
    match ctrl.exec_cmd(Command::Reload) {
        CmdOutcome::Done { response, action } => {
            assert_eq!(response.message, "reload success");
            assert_eq!(action, Action::SignalReload);
        }
        _ => panic!("reload must finish immediately"),
    }
    assert!(ctrl.is_executing());
    assert_eq!(ctrl.child_pid(), Some(5));
}

#[test]
fn status_reports_run_state_and_pid() {
    let mut ctrl = ProcessController::new(test_conf(false));
    match ctrl.exec_cmd(Command::Status) {
        CmdOutcome::Done { response, .. } => {
            assert_eq!(response.message, "get status success");
            assert_eq!(response.sup_pid, None);
        }
        _ => panic!(),
    }
    ctrl.exec_cmd(Command::Start);
    ctrl.finish_start(Some(77));
    match ctrl.exec_cmd(Command::Status) {
        CmdOutcome::Done { response, .. } => {
            assert_eq!(response.message, "get status success");
            assert_eq!(response.sup_pid, Some(77));
        }
        _ => panic!(),
    }
}

#[test]
fn exit_terminates_child_and_begins_shutdown() {
    let mut ctrl = ProcessController::new(test_conf(false));
    ctrl.exec_cmd(Command::Start);
    ctrl.finish_start(Some(5));
    match ctrl.exec_cmd(Command::Exit) {
        CmdOutcome::Done { response, action } => {
            assert_eq!(response.message, "exit success");
            assert_eq!(action, Action::BeginShutdown);
        }
        _ => panic!(),
    }
    assert!(!ctrl.is_executing());
}

#[test]
fn unknown_command_has_no_side_effects() {
    let mut ctrl = ProcessController::new(test_conf(false));
    ctrl.exec_cmd(Command::Start);
    ctrl.finish_start(Some(5));
    match ctrl.exec_cmd(Command::Unknown) {
        CmdOutcome::Done { response, action } => {
            assert_eq!(response.message, "unknown command");
            assert_eq!(response.sup_pid, None);
            assert_eq!(action, Action::NoAction);
        }
        _ => panic!(),
    }
    assert!(ctrl.is_executing());
    assert_eq!(ctrl.child_pid(), Some(5));
}

#[test]
fn raw_request_bytes_are_dispatched() {
    let mut ctrl = ProcessController::new(test_conf(false));
    match handle_request(&mut ctrl, &vec![5]) {
        CmdOutcome::Done { response, .. } => assert_eq!(response.message, "get status success"),
        _ => panic!(),
    }
    // A malformed request is answered as Unknown, never dropped.
    match handle_request(&mut ctrl, &vec![9, 9]) {
        CmdOutcome::Done { response, .. } => assert_eq!(response.message, "unknown command"),
        _ => panic!(),
    }
    assert!(matches!(handle_request(&mut ctrl, &vec![0]), CmdOutcome::LaunchNeeded));
}

#[test]
fn restart_strategy_governs_unexpected_exits_only() {
    for (strategy, clean, failed) in [
        (ProcessRestartStrategy::Always, true, true),
        (ProcessRestartStrategy::OnFailure, false, true),
        (ProcessRestartStrategy::AlwaysNot, false, false),
    ] {
        let mut conf = test_conf(false);
        conf.restart_strategy = strategy;
        let mut ctrl = ProcessController::new(conf);
        ctrl.exec_cmd(Command::Start);
        ctrl.finish_start(Some(3));
        assert_eq!(ctrl.on_unexpected_exit(true), clean, "{:?} clean exit", strategy);
        assert!(!ctrl.is_executing());

        ctrl.exec_cmd(Command::Start);
        ctrl.finish_start(Some(4));
        assert_eq!(ctrl.on_unexpected_exit(false), failed, "{:?} failed exit", strategy);

        // The explicit restart command is always honored, whatever the
        // strategy says about automatic restarts.
        assert!(matches!(ctrl.exec_cmd(Command::Restart), CmdOutcome::RestartNeeded));
    }
}
