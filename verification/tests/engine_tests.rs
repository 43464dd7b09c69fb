use admintui::config::Config;
use admintui::engine::describe_result;
use admintui::engine::get_human_readable_cron;
use admintui::engine::get_next_execution;
use admintui::engine::next_execution_display;

const FALLBACK: &str = "Unable to parse cron expression into human-readable format.";

#[test]
fn next_execution_of_valid_schedule_is_a_timestamp() {
    let config = Config::new();
    let r = get_next_execution("*/5 * * * *", &config);
    assert_ne!(r, "Invalid cron expression");
    assert!(!r.is_empty());
    assert!(r.contains(':'));
}

#[test]
fn next_execution_of_invalid_schedule_is_the_fixed_message() {
    let config = Config::new();
    assert_eq!(get_next_execution("not a schedule", &config), "Invalid cron expression");
}

#[test]
fn next_execution_display_maps_the_outcome() {
    assert_eq!(next_execution_display(Some("2031-01-01 00:00:00".to_string())), "2031-01-01 00:00:00");
    assert_eq!(next_execution_display(None), "Invalid cron expression");
}

#[test]
fn describe_falls_back_on_malformed_input() {
    assert_eq!(get_human_readable_cron("not a schedule").unwrap(), FALLBACK);
}

#[test]
fn describe_falls_back_on_list_values() {
    assert_eq!(get_human_readable_cron("0 0 * * 1,5").unwrap(), FALLBACK);
}

#[test]
fn describe_renders_a_sentence_for_plain_schedules() {
    let s = get_human_readable_cron("*/5 * * * *").unwrap();
    assert_ne!(s, FALLBACK);
    assert_ne!(s, "*/5 * * * *");
    assert!(s.to_lowercase().contains("minute"));
}

#[test]
fn describe_result_maps_the_outcome() {
    assert_eq!(describe_result(Some("Every day".to_string())), "Every day");
    assert_eq!(describe_result(None), FALLBACK);
}

#[test]
fn timezone_changes_are_validated() {
    let mut config = Config::new();
    assert_eq!(config.get_timezone(), "Europe/Prague");
    assert!(config.change_timezone("America/New_York").is_ok());
    assert_eq!(config.get_timezone(), "America/New_York");
    let err = config.change_timezone("Nowhere/Atlantis").unwrap_err();
    assert_eq!(err, "Invalid timezone: Nowhere/Atlantis");
    assert_eq!(config.get_timezone(), "America/New_York");
}
