use mutagui::config::{
    should_auto_refresh, Config, DisplayMode, ProjectConfig, RefreshConfig, ThemeMode, UiConfig,
};
use mutagui::editor::editor_name_kind;
use mutagui::status::{SessionDisplayMode, StatusMessage};

#[test]
fn test_default_config() {
    let config = Config::default();
    assert!(config.refresh.enabled);
    assert_eq!(config.refresh.interval_secs, 3);
    assert_eq!(config.ui.theme, ThemeMode::Auto);
    assert_eq!(config.ui.default_display_mode, DisplayMode::Paths);
}

#[test]
fn test_project_config_defaults() {
    let config = ProjectConfig::default();
    assert!(config.search_paths.is_empty());
    assert!(config.exclude_patterns.contains(&"node_modules".to_string()));
}

#[test]
fn test_ui_config_default() {
    let ui = UiConfig::default();
    assert_eq!(ui.theme, ThemeMode::Auto);
    assert_eq!(ui.default_display_mode, DisplayMode::Paths);
}

#[test]
fn test_refresh_config_default() {
    let refresh = RefreshConfig::default();
    assert!(refresh.enabled);
    assert_eq!(refresh.interval_secs, 3);
}

// ============ auto-refresh decision ============

#[test]
fn test_should_auto_refresh_disabled() {
    assert!(!should_auto_refresh(false, false, 3, None, 100));
}

#[test]
fn test_should_auto_refresh_after_error() {
    assert!(!should_auto_refresh(true, true, 3, None, 100));
}

#[test]
fn test_should_auto_refresh_first_time() {
    assert!(should_auto_refresh(true, false, 3, None, 100));
}

#[test]
fn test_should_auto_refresh_interval() {
    assert!(!should_auto_refresh(true, false, 3, Some(98), 100));
    assert!(should_auto_refresh(true, false, 3, Some(97), 100));
    assert!(should_auto_refresh(true, false, 3, Some(90), 100));
}

// ============ status types ============

#[test]
fn test_status_message_text() {
    assert_eq!(StatusMessage::info("ok".to_string()).text(), "ok");
    assert_eq!(StatusMessage::warning("careful".to_string()).text(), "careful");
    assert_eq!(StatusMessage::error("broken".to_string()).text(), "broken");
}

#[test]
fn test_session_display_mode_toggles() {
    assert_eq!(
        SessionDisplayMode::ShowPaths.toggled(),
        SessionDisplayMode::ShowLastRefresh
    );
    assert_eq!(
        SessionDisplayMode::ShowLastRefresh.toggled(),
        SessionDisplayMode::ShowPaths
    );
}

// ============ editor classification ============

#[test]
fn test_editor_name_kind() {
    assert_eq!(editor_name_kind("code"), Some(true));
    assert_eq!(editor_name_kind("Code"), Some(true));
    assert_eq!(editor_name_kind("gnome-text-editor"), Some(true));
    assert_eq!(editor_name_kind("nano"), Some(false));
    assert_eq!(editor_name_kind("emacsclient"), Some(false));
    assert_eq!(editor_name_kind("some-unknown-tool"), None);
}
