use daemon_manager::aggregate::{
    aggregate, aggregate_at, get_unit_info, probe_outcome, ServiceProbe, SkipReason, UnitProperties,
};
use daemon_manager::property::{QueryAnswer, QueryFailure};
use daemon_manager::model::{AutoStart, LoadState, ServiceConfig, ServiceInfo, UnitState};
use daemon_manager::resolve::{find_config_for_unit, has_type_suffix, resolve, service_names_unit, ResolveError};

const BOOT: u64 = 1_700_000_000;

fn config(name: &str, friendly: &str) -> ServiceConfig {
    ServiceConfig::new(name.to_string(), friendly.to_string(), false)
}

fn unit(name: &str) -> UnitState {
    UnitState {
        name: name.to_string(),
        load_state: LoadState::Loaded,
        active: true,
        auto_start: AutoStart::Enabled,
    }
}

fn props(pid: &str, errno: &str, start: &str) -> UnitProperties {
    UnitProperties {
        main_pid: QueryAnswer::Printed(pid.as_bytes().to_vec()),
        status_errno: QueryAnswer::Printed(errno.as_bytes().to_vec()),
        start_monotonic: QueryAnswer::Printed(start.as_bytes().to_vec()),
    }
}

fn now_after_start(start_us: u64, secs: u128) -> u128 {
    BOOT as u128 * 1_000_000 + start_us as u128 + secs * 1_000_000
}

fn assert_same_but_uptime(a: &ServiceInfo, b: &ServiceInfo) {
    assert_eq!(a.config.service_name, b.config.service_name);
    assert_eq!(a.config.friendly_name, b.config.friendly_name);
    assert_eq!(a.config.show_logs, b.config.show_logs);
    assert_eq!(a.status, b.status);
    assert_eq!(a.active, b.active);
    assert_eq!(a.enabled, b.enabled);
    assert_eq!(a.running, b.running);
    assert_eq!(a.pid, b.pid);
    assert_eq!(a.status_code, b.status_code);
}

#[test]
fn resolve_finds_config_by_base_name() {
    let configs = vec![config("myapp.service", "My App")];
    let found = resolve(&"myapp".to_string(), &configs).unwrap();
    assert_eq!(found.service_name, "myapp.service");
    assert_eq!(found.friendly_name, "My App");
}

#[test]
fn resolve_unknown_unit_is_not_found() {
    let configs = vec![config("myapp.service", "My App")];
    assert!(matches!(resolve(&"other".to_string(), &configs), Err(ResolveError::NotFound)));
}

#[test]
fn resolve_splits_at_last_dot() {
    let configs = vec![config("my.app.service", "Dotted")];
    assert!(resolve(&"my.app".to_string(), &configs).is_ok());
    assert!(resolve(&"my".to_string(), &configs).is_err());
}

#[test]
fn resolve_first_match_wins() {
    let configs = vec![
        config("web.service", "First"),
        config("web.socket", "Second"),
    ];
    assert_eq!(find_config_for_unit(&"web".to_string(), &configs), Some(0));
    assert_eq!(resolve(&"web".to_string(), &configs).unwrap().friendly_name, "First");
}

#[test]
fn names_need_a_suffix() {
    assert!(!service_names_unit(&"myapp".to_string(), &"myapp".to_string()));
    assert!(service_names_unit(&"myapp.".to_string(), &"myapp".to_string()));
    assert!(service_names_unit(&"myapp.timer".to_string(), &"myapp".to_string()));
    assert!(has_type_suffix(&"a.service".to_string()));
    assert!(!has_type_suffix(&"aservice".to_string()));
}

#[test]
fn aggregate_skips_failed_unit_and_keeps_others() {
    let configs = vec![
        config("alpha.service", "Alpha"),
        config("beta.service", "Beta"),
        config("gamma.service", "Gamma"),
    ];
    let probes = vec![
        ServiceProbe { unit: Some(unit("alpha")), properties: props("10\n", "0\n", "1000\n") },
        ServiceProbe {
            unit: None,
            properties: UnitProperties {
                main_pid: QueryAnswer::Unreachable,
                status_errno: QueryAnswer::Unreachable,
                start_monotonic: QueryAnswer::Unreachable,
            },
        },
        ServiceProbe { unit: Some(unit("gamma")), properties: props("30\n", "0\n", "3000\n") },
    ];
    let result = aggregate_at(&configs, &probes, BOOT, now_after_start(3000, 60));
    assert_eq!(result.records.len(), 2);
    assert_eq!(result.records[0].config.service_name, "alpha.service");
    assert_eq!(result.records[1].config.service_name, "gamma.service");
    assert_eq!(result.skipped.len(), 1);
    assert_eq!(result.skipped[0].index, 1);
    assert_eq!(result.skipped[0].reason, SkipReason::UnitUnavailable);
}

#[test]
fn stopped_service_keeps_zero_status_code() {
    let configs = vec![config("job.service", "Job")];
    let info = get_unit_info(&unit("job"), &props("0\n", "0\n", "5000000\n"), &configs, BOOT, now_after_start(5_000_000, 45))
        .unwrap();
    assert!(!info.running);
    assert_eq!(info.pid, Some(0));
    assert_eq!(info.status_code, Some(0));
    assert_eq!(info.uptime, "45s");
}

#[test]
fn running_service_has_no_status_code() {
    let configs = vec![config("web.service", "Web")];
    let info = get_unit_info(&unit("web"), &props("1234\n", "3\n", "1000000\n"), &configs, BOOT, now_after_start(1_000_000, 125))
        .unwrap();
    assert!(info.running);
    assert_eq!(info.pid, Some(1234));
    assert_eq!(info.status_code, None);
    assert_eq!(info.uptime, "2m 5s");
    assert_eq!(info.status, "Loaded");
    assert!(info.active);
    assert!(info.enabled);
    assert_eq!(info.config.friendly_name, "Web");
}

#[test]
fn missing_pid_is_not_running_and_keeps_record() {
    let configs = vec![config("web.service", "Web")];
    let p = UnitProperties {
        main_pid: QueryAnswer::ExitFailure,
        status_errno: QueryAnswer::Printed(b"garbage".to_vec()),
        start_monotonic: QueryAnswer::Printed(b"0\n".to_vec()),
    };
    let info = get_unit_info(&unit("web"), &p, &configs, BOOT, now_after_start(0, 90000)).unwrap();
    assert!(!info.running);
    assert_eq!(info.pid, None);
    assert_eq!(info.status_code, None);
    assert_eq!(info.uptime, "1d 1h 0m 0s");
}

#[test]
fn enabled_and_status_follow_unit_state() {
    let configs = vec![config("web.service", "Web")];
    for (auto_start, enabled) in [
        (AutoStart::Enabled, true),
        (AutoStart::EnabledRuntime, true),
        (AutoStart::Disabled, false),
        (AutoStart::Other, false),
    ] {
        let u = UnitState {
            name: "web".to_string(),
            load_state: LoadState::Masked,
            active: false,
            auto_start,
        };
        let info = get_unit_info(&u, &props("1\n", "0\n", "0\n"), &configs, BOOT, 0).unwrap();
        assert_eq!(info.enabled, enabled);
        assert_eq!(info.status, "Masked");
        assert!(!info.active);
        assert_eq!(info.uptime, "0s");
    }
}

#[test]
fn missing_start_timestamp_skips_record() {
    let configs = vec![config("web.service", "Web")];
    let p = UnitProperties {
        main_pid: QueryAnswer::Printed(b"1\n".to_vec()),
        status_errno: QueryAnswer::Printed(b"0\n".to_vec()),
        start_monotonic: QueryAnswer::Printed(b"n/a\n".to_vec()),
    };
    assert!(matches!(
        get_unit_info(&unit("web"), &p, &configs, BOOT, 0),
        Err(SkipReason::MissingStartTimestamp(QueryFailure::Unparseable))
    ));
    let q = UnitProperties {
        main_pid: QueryAnswer::Unreachable,
        status_errno: QueryAnswer::Unreachable,
        start_monotonic: QueryAnswer::Unreachable,
    };
    assert!(matches!(
        get_unit_info(&unit("web"), &q, &configs, BOOT, 0),
        Err(SkipReason::MissingStartTimestamp(QueryFailure::Unreachable))
    ));
    let e = UnitProperties {
        main_pid: QueryAnswer::Unreachable,
        status_errno: QueryAnswer::Unreachable,
        start_monotonic: QueryAnswer::ExitFailure,
    };
    assert!(matches!(
        get_unit_info(&unit("web"), &e, &configs, BOOT, 0),
        Err(SkipReason::MissingStartTimestamp(QueryFailure::CommandFailed))
    ));
}

#[test]
fn unmatched_unit_name_skips_record() {
    let configs = vec![config("web.service", "Web")];
    let probe = ServiceProbe { unit: Some(unit("db")), properties: props("1\n", "0\n", "0\n") };
    assert!(matches!(probe_outcome(&probe, &configs, BOOT, 0), Err(SkipReason::NoMatchingConfig)));
    let result = aggregate_at(&configs, &vec![probe], BOOT, 0);
    assert_eq!(result.records.len(), 0);
    assert_eq!(result.skipped[0].reason, SkipReason::NoMatchingConfig);
}

#[test]
fn aggregate_twice_agrees_except_uptime() {
    let configs = vec![config("a.service", "A"), config("b.service", "B")];
    let probes = vec![
        ServiceProbe { unit: Some(unit("a")), properties: props("0\n", "0\n", "0\n") },
        ServiceProbe { unit: Some(unit("b")), properties: props("7\n", "2\n", "0\n") },
    ];
    let first = aggregate_at(&configs, &probes, BOOT, now_after_start(0, 59));
    let second = aggregate_at(&configs, &probes, BOOT, now_after_start(0, 61));
    assert_eq!(first.records.len(), second.records.len());
    for (a, b) in first.records.iter().zip(second.records.iter()) {
        assert_same_but_uptime(a, b);
        assert_eq!(a.uptime, "59s");
        assert_eq!(b.uptime, "1m 1s");
    }
    assert_eq!(first.skipped, second.skipped);
}

#[test]
fn aggregate_with_clock_returns_all_described() {
    let configs = vec![config("a.service", "A")];
    let probes = vec![ServiceProbe { unit: Some(unit("a")), properties: props("5\n", "0\n", "0\n") }];
    let result = aggregate(&configs, &probes);
    assert_eq!(result.records.len(), 1);
    assert!(result.skipped.is_empty());
}

#[test]
fn aggregate_of_nothing_is_empty() {
    let result = aggregate_at(&Vec::new(), &Vec::new(), BOOT, 0);
    assert!(result.records.is_empty());
    assert!(result.skipped.is_empty());
}
