use scsl_core::error::CoreError;
use scsl_core::store::{
    legacy_settings_file_path, settings_file_path, settings_file_to_read, settings_scope, SettingsScope,
};

#[test]
fn names_settings_scopes() {
    assert!(settings_scope(" General ") == Ok(SettingsScope::General));
    assert!(settings_scope("GAME") == Ok(SettingsScope::Game));
    assert!(settings_scope("theme") == Ok(SettingsScope::Theme));
    assert!(settings_scope("ai") == Ok(SettingsScope::Ai));
    assert!(settings_scope("Mirror") == Ok(SettingsScope::Mirror));
    assert!(settings_scope(" Network ") == Err(CoreError::validation("unknown settings scope: network")));
}

#[test]
fn chooses_the_settings_file() {
    assert_eq!(settings_file_path("/w"), "/w/data/settings.json");
    assert_eq!(legacy_settings_file_path("/w"), "/w/data/cli_settings.json");
    assert_eq!(settings_file_to_read("/w", true, true), Some("/w/data/settings.json".to_string()));
    assert_eq!(settings_file_to_read("/w", false, true), Some("/w/data/cli_settings.json".to_string()));
    assert_eq!(settings_file_to_read("/w", false, false), None);
}
