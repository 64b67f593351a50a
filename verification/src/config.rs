//! User configuration model: UI, auto-refresh and project-discovery
//! settings with their defaults, and the auto-refresh decision rule.

use vstd::prelude::*;
use vstd::string::StringExecFns;

verus! {

/// Theme mode selection.
#[derive(Debug, Clone, Copy, PartialEq, Eq, Structural)]
pub enum ThemeMode {
    /// Automatically detect the terminal background.
    Auto,
    /// Force the light theme.
    Light,
    /// Force the dark theme.
    Dark,
}

impl Default for ThemeMode {
    fn default() -> (r: Self)
        ensures
            r == ThemeMode::Auto,
    {
        ThemeMode::Auto
    }
}

/// Default display mode for sessions.
#[derive(Debug, Clone, Copy, PartialEq, Eq, Structural)]
pub enum DisplayMode {
    /// Show endpoint paths.
    Paths,
    /// Show the last refresh time.
    LastRefresh,
}

impl Default for DisplayMode {
    fn default() -> (r: Self)
        ensures
            r == DisplayMode::Paths,
    {
        DisplayMode::Paths
    }
}

/// UI configuration options.
#[derive(Debug, Clone, Copy, PartialEq, Eq, Structural)]
pub struct UiConfig {
    /// Force a specific theme.
    pub theme: ThemeMode,
    /// Show session paths or last refresh time by default.
    pub default_display_mode: DisplayMode,
}

impl Default for UiConfig {
    fn default() -> (r: Self)
        ensures
            r.theme == ThemeMode::Auto,
            r.default_display_mode == DisplayMode::Paths,
    {
        UiConfig { theme: ThemeMode::Auto, default_display_mode: DisplayMode::Paths }
    }
}

/// Auto-refresh configuration.
#[derive(Debug, Clone, Copy, PartialEq, Eq, Structural)]
pub struct RefreshConfig {
    /// Enable auto-refresh when idle.
    pub enabled: bool,
    /// Refresh interval in seconds.
    pub interval_secs: u64,
}

impl Default for RefreshConfig {
    fn default() -> (r: Self)
        ensures
            r.enabled,
            r.interval_secs == 3,
    {
        RefreshConfig { enabled: true, interval_secs: 3 }
    }
}

/// Project discovery configuration.
#[derive(Debug)]
pub struct ProjectConfig {
    /// Additional directories to search for project files.
    pub search_paths: Vec<String>,
    /// Directories to exclude from project discovery.
    pub exclude_patterns: Vec<String>,
}

impl Default for ProjectConfig {
    fn default() -> (r: Self)
        ensures
            r.search_paths@.len() == 0,
            r.exclude_patterns.deep_view() == seq!["node_modules"@, ".git"@, "target"@],
    {
        proof {
            reveal_strlit("node_modules");
            reveal_strlit(".git");
            reveal_strlit("target");
        }
        let mut excludes: Vec<String> = Vec::new();
        excludes.push(String::from_str("node_modules"));
        excludes.push(String::from_str(".git"));
        excludes.push(String::from_str("target"));
        proof {
            assert(excludes.deep_view() =~= seq!["node_modules"@, ".git"@, "target"@]);
        }
        ProjectConfig { search_paths: Vec::new(), exclude_patterns: excludes }
    }
}

/// Application configuration.
#[derive(Debug)]
pub struct Config {
    /// UI-related settings.
    pub ui: UiConfig,
    /// Auto-refresh settings.
    pub refresh: RefreshConfig,
    /// Project discovery settings.
    pub projects: ProjectConfig,
}

impl Default for Config {
    fn default() -> (r: Self)
        ensures
            r.ui.theme == ThemeMode::Auto,
            r.ui.default_display_mode == DisplayMode::Paths,
            r.refresh.enabled,
            r.refresh.interval_secs == 3,
            r.projects.search_paths@.len() == 0,
            r.projects.exclude_patterns.deep_view() == seq!["node_modules"@, ".git"@, "target"@],
    {
        Config {
            ui: UiConfig::default(),
            refresh: RefreshConfig::default(),
            projects: ProjectConfig::default(),
        }
    }
}

/// Whether an idle tick is due for an automatic refresh: refreshes must be
/// enabled, the previous one must not have failed, and either none has
/// happened yet or the configured interval has elapsed.
pub open spec fn auto_refresh_due(
    enabled: bool,
    has_refresh_error: bool,
    interval_secs: u64,
    last_refresh: Option<i64>,
    now: i64,
) -> bool {
    &&& enabled
    &&& !has_refresh_error
    &&& match last_refresh {
        Some(t) => now - t >= interval_secs,
        None => true,
    }
}

/// Decide whether to refresh now, from the refresh settings, the error
/// flag, and the time of the previous refresh.
pub fn should_auto_refresh(
    enabled: bool,
    has_refresh_error: bool,
    interval_secs: u64,
    last_refresh: Option<i64>,
    now: i64,
) -> (r: bool)
    ensures
        r == auto_refresh_due(enabled, has_refresh_error, interval_secs, last_refresh, now),
{
    if !enabled {
        return false;
    }
    if has_refresh_error {
        return false;
    }
    match last_refresh {
        Some(t) => {
            let elapsed: i128 = (now as i128) - (t as i128);
            elapsed >= (interval_secs as i128)
        },
        None => true,
    }
}

} // verus!
