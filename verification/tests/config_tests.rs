use std::collections::HashMap;

use sup_rs::config::config::{
    default_auto_start, default_compress, default_max_backups, default_max_days, default_max_size,
    default_merge_compressed, default_restart_strategy, default_socket, default_start_interval,
    is_absolute_path, Config, Log, Process, Program, ProcessRestartStrategy, Sup,
};
use sup_rs::config::error::Error;

fn sample(work_dir: &str) -> Config {
    Config {
        sup: Sup { socket: "supd/run.sock".to_string() },
        program: Program {
            process: Process {
                path: "conf/run.sh".to_string(),
                args: None,
                envs: None,
                work_dir: work_dir.to_string(),
                auto_start: true,
                start_interval: 5,
                restart_strategy: ProcessRestartStrategy::OnFailure,
            },
            log: Log {
                path: "log/run.log".to_string(),
                max_size: 128,
                max_days: 30,
                max_backups: 16,
                compress: false,
                merge_compressed: false,
            },
        },
    }
}

#[test]
fn defaults_are_the_documented_values() {
    assert_eq!(default_socket(), "./sup.sock");
    assert_eq!(default_auto_start(), false);
    assert_eq!(default_start_interval(), 5);
    assert_eq!(default_restart_strategy(), ProcessRestartStrategy::OnFailure);
    assert_eq!(default_max_size(), 124217728);
    assert_eq!(default_max_days(), 0);
    assert_eq!(default_max_backups(), 32);
    assert_eq!(default_compress(), false);
    assert_eq!(default_merge_compressed(), false);
}

#[test]
fn relative_paths_resolve_against_the_work_dir() {
    let c = sample("/home/work/test/monitor/test-run").resolve().unwrap();
    assert_eq!(c.sup.socket, "/home/work/test/monitor/test-run/supd/run.sock");
    assert_eq!(c.program.process.path, "/home/work/test/monitor/test-run/conf/run.sh");
    assert_eq!(c.program.log.path, "/home/work/test/monitor/test-run/log/run.log");
    assert_eq!(c.program.process.work_dir, "/home/work/test/monitor/test-run");
    assert_eq!(c.program.log.max_days, 30);
    assert_eq!(c.program.log.max_backups, 16);
    assert_eq!(c.program.log.max_size, 128);
}

#[test]
fn absolute_paths_pass_through() {
    let mut cfg = sample("/base");
    cfg.sup.socket = "/run/sup.sock".to_string();
    cfg.program.process.path = "/usr/bin/run".to_string();
    cfg.program.log.path = "/var/log/run.log".to_string();
    let c = cfg.resolve().unwrap();
    assert_eq!(c.sup.socket, "/run/sup.sock");
    assert_eq!(c.program.process.path, "/usr/bin/run");
    assert_eq!(c.program.log.path, "/var/log/run.log");
}

#[test]
fn a_trailing_separator_is_not_doubled() {
    let c = sample("/base/").resolve().unwrap();
    assert_eq!(c.sup.socket, "/base/supd/run.sock");
}

#[test]
fn a_relative_work_dir_is_fatal() {
    match sample("test-run").resolve() {
        Err(Error::FormatCheckError(m)) => {
            assert_eq!(m, "work directory must be absolute");
        }
        other => panic!("a relative work dir must be rejected, got {:?}", other),
    }
}

#[test]
fn absolute_path_test() {
    assert!(is_absolute_path(&"/".to_string()));
    assert!(is_absolute_path(&"/a/b".to_string()));
    assert!(!is_absolute_path(&"".to_string()));
    assert!(!is_absolute_path(&"a/b".to_string()));
}

#[test]
fn optional_fields_pass_through() {
    let mut cfg = sample("/base");
    cfg.program.process.args = Some(vec!["-v".to_string(), "--fast".to_string()]);
    let mut envs = HashMap::new();
    envs.insert("MODE".to_string(), "prod".to_string());
    cfg.program.process.envs = Some(envs.clone());
    let c = cfg.resolve().unwrap();
    assert_eq!(c.program.process.args, Some(vec!["-v".to_string(), "--fast".to_string()]));
    assert_eq!(c.program.process.envs, Some(envs));
}
