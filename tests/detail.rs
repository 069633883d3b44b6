use daemon_manager::detail::{command_markup, fetch_detail, find_service_config, DetailError};
use daemon_manager::model::{LoadState, ServiceConfig};

fn config(show_logs: bool) -> ServiceConfig {
    ServiceConfig::new("web.service".to_string(), "Web".to_string(), show_logs)
}

#[test]
fn hidden_logs_are_empty_even_when_present() {
    let d = fetch_detail(&config(false), Some(b"active".to_vec()), Some(b"many log lines".to_vec())).unwrap();
    assert_eq!(d.status_text, "active");
    assert_eq!(d.log_text, "");
}

#[test]
fn shown_logs_are_converted() {
    let d = fetch_detail(&config(true), Some(b"ok".to_vec()), Some(b"a < b".to_vec())).unwrap();
    assert_eq!(d.log_text, "a &lt; b");
    assert_eq!(d.config.service_name, "web.service");
}

#[test]
fn markup_escapes_and_styles() {
    assert_eq!(command_markup(b"<h1>".to_vec()), Some("&lt;h1&gt;".to_string()));
    assert_eq!(command_markup(b"\x1b[1mBold".to_vec()), Some("<b>Bold</b>".to_string()));
}

#[test]
fn markup_rejects_invalid_utf8() {
    assert_eq!(command_markup(vec![0xff, 0xfe]), None);
}

#[test]
fn failed_status_query_fails_detail() {
    assert_eq!(fetch_detail(&config(false), None, None).err(), Some(DetailError::StatusQuery));
    assert_eq!(fetch_detail(&config(true), Some(vec![0xc3]), Some(b"x".to_vec())).err(), Some(DetailError::StatusQuery));
}

#[test]
fn failed_log_query_fails_detail_when_shown() {
    assert_eq!(fetch_detail(&config(true), Some(b"ok".to_vec()), None).err(), Some(DetailError::LogQuery));
    assert!(fetch_detail(&config(false), Some(b"ok".to_vec()), None).is_ok());
}

#[test]
fn empty_outputs_are_not_failures() {
    let d = fetch_detail(&config(true), Some(Vec::new()), Some(Vec::new())).unwrap();
    assert_eq!(d.status_text, "");
    assert_eq!(d.log_text, "");
}

#[test]
fn find_service_config_is_exact() {
    let configs = vec![config(false), ServiceConfig::new("db.service".to_string(), "Db".to_string(), true)];
    assert_eq!(find_service_config(&"db.service".to_string(), &configs), Some(1));
    assert_eq!(find_service_config(&"db".to_string(), &configs), None);
}

#[test]
fn load_state_labels() {
    assert_eq!(LoadState::Loaded.label(), "Loaded");
    assert_eq!(LoadState::Masked.label(), "Masked");
    assert_eq!(LoadState::Unknown.label(), "Unknown");
}
