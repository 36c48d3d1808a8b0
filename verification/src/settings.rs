//! The settings sections the library acts on, with their defaults.
use vstd::prelude::*;

verus! {

/// Which of the two configured color themes applies.
#[derive(Clone, Copy, Debug, PartialEq, Eq, Structural)]
pub enum ThemeMode {
    Dark,
    Light,
    System,
}

/// The `theme` section of the settings.
#[derive(Clone, Debug)]
pub struct ThemeSettings {
    pub mode: ThemeMode,
    pub light: Option<String>,
    pub dark: Option<String>,
}

impl Default for ThemeSettings {
    fn default() -> (s: Self)
        ensures
            s.mode == ThemeMode::Dark,
            s.light is None,
            s.dark is None,
    {
        ThemeSettings { mode: ThemeMode::Dark, light: None, dark: None }
    }
}

impl ThemeSettings {
    /// The configured name of the color theme in effect: the dark or light
    /// one by mode, and under `System` the one matching the appearance.
    pub open spec fn spec_selected_theme_name(self, appearance_is_light: bool) -> Option<String> {
        match self.mode {
            ThemeMode::Dark => self.dark,
            ThemeMode::Light => self.light,
            ThemeMode::System => if appearance_is_light {
                self.light
            } else {
                self.dark
            },
        }
    }

    /// The theme chosen for the current appearance: the light or dark
    /// name, by the mode and, in system mode, by the appearance.
    pub fn selected_theme_name(&self, appearance_is_light: bool) -> (r: Option<String>)
        ensures
            r is Some == self.spec_selected_theme_name(appearance_is_light) is Some,
            r matches Some(name) ==> name@ == self.spec_selected_theme_name(
                appearance_is_light,
            )->0@,
    {
        let chosen = match self.mode {
            ThemeMode::Dark => &self.dark,
            ThemeMode::Light => &self.light,
            ThemeMode::System => {
                if appearance_is_light {
                    &self.light
                } else {
                    &self.dark
                }
            },
        };
        match chosen {
            Some(name) => Some(name.clone()),
            None => None,
        }
    }
}

/// How git status is shown next to an entry.
#[derive(Clone, Copy, Debug, PartialEq, Eq, Structural)]
pub enum GitBadgeStyle {
    TextColor,
    Icon,
    Both,
}

/// The `git.status` section of the settings.
#[derive(Clone, Debug)]
pub struct GitStatusSettings {
    pub enabled: bool,
    pub show_untracked: bool,
    pub show_ignored: bool,
    pub dim_ignored: bool,
    pub aggregate_folders: bool,
    pub badge_style: GitBadgeStyle,
}

impl Default for GitStatusSettings {
    fn default() -> (s: Self)
        ensures
            s.enabled,
            s.show_untracked,
            !s.show_ignored,
            s.dim_ignored,
            s.aggregate_folders,
            s.badge_style == GitBadgeStyle::TextColor,
    {
        GitStatusSettings {
            enabled: true,
            show_untracked: true,
            show_ignored: false,
            dim_ignored: true,
            aggregate_folders: true,
            badge_style: GitBadgeStyle::TextColor,
        }
    }
}

/// The `git.branch` section of the settings.
#[derive(Clone, Debug)]
pub struct GitBranchSettings {
    pub enabled: bool,
    pub show_in_status_bar: bool,
    pub show_dirty_indicator: bool,
    pub show_ahead_behind: bool,
}

impl Default for GitBranchSettings {
    fn default() -> (s: Self)
        ensures
            s.enabled,
            s.show_in_status_bar,
            s.show_dirty_indicator,
            s.show_ahead_behind,
    {
        GitBranchSettings {
            enabled: true,
            show_in_status_bar: true,
            show_dirty_indicator: true,
            show_ahead_behind: true,
        }
    }
}

/// The `git.refresh` section of the settings.
#[derive(Clone, Debug)]
pub struct GitRefreshSettings {
    pub poll_interval_ms: u64,
}

impl Default for GitRefreshSettings {
    fn default() -> (s: Self)
        ensures
            s.poll_interval_ms == 2000,
    {
        GitRefreshSettings { poll_interval_ms: 2000 }
    }
}

/// The `git.cli` section of the settings.
#[derive(Clone, Debug)]
pub struct GitCliSettings {
    pub binary_path: Option<String>,
    pub timeout_ms: u64,
    pub max_repo_entries: Option<u64>,
}

impl Default for GitCliSettings {
    fn default() -> (s: Self)
        ensures
            s.binary_path is None,
            s.timeout_ms == 3000,
            s.max_repo_entries is None,
    {
        GitCliSettings { binary_path: None, timeout_ms: 3000, max_repo_entries: None }
    }
}

/// The `git` section of the settings.
#[derive(Clone, Debug)]
pub struct GitSettings {
    pub enabled: bool,
    pub status: GitStatusSettings,
    pub branch: GitBranchSettings,
    pub refresh: GitRefreshSettings,
    pub cli: GitCliSettings,
}

impl Default for GitSettings {
    fn default() -> (s: Self)
        ensures
            !s.enabled,
            s.status.enabled && s.status.show_untracked && !s.status.show_ignored
                && s.status.dim_ignored && s.status.aggregate_folders && s.status.badge_style
                == GitBadgeStyle::TextColor,
            s.branch.enabled && s.branch.show_in_status_bar && s.branch.show_dirty_indicator
                && s.branch.show_ahead_behind,
            s.refresh.poll_interval_ms == 2000,
            s.cli.binary_path is None && s.cli.timeout_ms == 3000 && s.cli.max_repo_entries is None,
    {
        GitSettings {
            enabled: false,
            status: GitStatusSettings::default(),
            branch: GitBranchSettings::default(),
            refresh: GitRefreshSettings::default(),
            cli: GitCliSettings::default(),
        }
    }
}

/// The `disk_usage` section of the settings.
#[derive(Clone, Debug)]
pub struct DiskUsageSettings {
    pub cross_filesystem_boundaries: bool,
    pub follow_symlinks: bool,
}

impl Default for DiskUsageSettings {
    fn default() -> (s: Self)
        ensures
            !s.cross_filesystem_boundaries,
            !s.follow_symlinks,
    {
        DiskUsageSettings { cross_filesystem_boundaries: false, follow_symlinks: false }
    }
}

/// A sidebar shortcut to a directory.
#[derive(Clone, Debug)]
pub struct SidebarEntry {
    pub name: String,
    pub path: String,
}

/// A titled group of sidebar shortcuts.
#[derive(Clone, Debug)]
pub struct SidebarSection {
    pub section: String,
    pub entries: Vec<SidebarEntry>,
}

/// One item of the sidebar.
#[derive(Clone, Debug)]
pub enum SidebarItem {
    Section(SidebarSection),
    Entry(SidebarEntry),
}

/// How a search query treats letter case.
#[derive(Clone, Copy, Debug, PartialEq, Eq, Structural)]
pub enum CaseSensitivity {
    Sensitive,
    Insensitive,
    Smart,
}

/// How the search tool is run.
#[derive(Clone, Debug)]
pub struct SearchCliSettings {
    pub binary_path: Option<String>,
    pub timeout_ms: u64,
}

} // verus!
