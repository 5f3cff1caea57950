use daebot::text::starts_with;
use daebot::settings::{default_true, validate_season_name, Settings, SettingsError};

#[test]
fn default_true_is_true() {
    assert!(default_true());
}

#[test]
fn first_run_defaults() {
    let s = Settings::first_run_defaults();
    assert!(s.first_run);
    assert!(!s.auto_start);
    assert!(s.minimize_to_tray);
    assert!(!s.start_minimized);
    assert!(!s.open_on_startup);
    assert!(!s.auto_start_bot);
    assert!(!s.starts_hidden(false));
    assert!(s.starts_hidden(true));
    assert!(Settings { start_minimized: true, ..s }.starts_hidden(false));
}

#[test]
fn season_names() {
    assert_eq!(validate_season_name("season-mid-1"), Ok(()));
    assert_eq!(validate_season_name("season-"), Ok(()));
    assert_eq!(validate_season_name("Season-1"), Err(SettingsError::BadSeasonName));
    assert_eq!(validate_season_name("season"), Err(SettingsError::BadSeasonName));
    assert_eq!(validate_season_name(""), Err(SettingsError::BadSeasonName));
    assert!(starts_with("abc", ""));
    assert!(!starts_with("", "a"));
}
