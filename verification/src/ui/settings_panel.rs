//! The settings: paths, theme, number of snapshots to keep.

use vstd::prelude::*;
use crate::state::{error_note, failure_note, info_note, AppState, MainView};
use crate::text::concat2;

verus! {

/// The number of snapshots that is kept where the settings name none.
pub const DEFAULT_SNAPSHOT_RETENTION: usize = 20;

/// The themes.
#[derive(Clone, Copy, Debug, PartialEq, Eq, Structural)]
pub enum Theme {
    Dark,
    Light,
    Crimson,
}

impl Default for Theme {
    fn default() -> (r: Self)
        ensures
            r == Theme::Dark,
    {
        Theme::Dark
    }
}

/// A mod that was used before: its path, and the name of the file, where it has one.
#[derive(Debug)]
pub struct RecentMod {
    pub path: String,
    pub file_name: Option<String>,
}

/// The settings that are kept between sessions.
#[derive(Debug)]
pub struct Config {
    pub game_dir: Option<String>,
    pub catalog_path: Option<String>,
    pub theme: Option<Theme>,
    pub snapshot_retention: Option<usize>,
    pub recent_mods: Vec<RecentMod>,
}

impl Config {
    /// As it is when the workbench starts.
    pub open spec fn is_fresh(&self) -> bool {
        &&& self.game_dir is None
        &&& self.catalog_path is None
        &&& self.theme is None
        &&& self.snapshot_retention is None
        &&& self.recent_mods@.len() == 0
    }
}

impl Default for Config {
    fn default() -> (r: Self)
        ensures
            r.is_fresh(),
    {
        Config {
            game_dir: None,
            catalog_path: None,
            theme: None,
            snapshot_retention: None,
            recent_mods: Vec::new(),
        }
    }
}

/// The name of a theme.
pub fn theme_label(theme: Theme) -> (r: &'static str)
    ensures
        r@ == match theme {
            Theme::Dark => "Dark"@,
            Theme::Light => "Light"@,
            Theme::Crimson => "Crimson"@,
        },
{
    match theme {
        Theme::Dark => "Dark",
        Theme::Light => "Light",
        Theme::Crimson => "Crimson",
    }
}

/// The theme in use.
pub open spec fn theme_in_use(c: Config) -> Theme {
    match c.theme {
        Some(t) => t,
        None => Theme::Dark,
    }
}

/// The theme in use.
pub fn current_theme(config: &Config) -> (r: Theme)
    ensures
        r == theme_in_use(*config),
{
    match config.theme {
        Some(t) => t,
        None => Theme::default(),
    }
}

/// The number of snapshots that is kept.
pub fn retention(config: &Config) -> (r: usize)
    ensures
        r == match config.snapshot_retention {
            Some(n) => n,
            None => DEFAULT_SNAPSHOT_RETENTION,
        },
{
    match config.snapshot_retention {
        Some(n) => n,
        None => DEFAULT_SNAPSHOT_RETENTION,
    }
}

/// A path as it is shown.
pub fn path_text(path: &Option<String>) -> (r: String)
    ensures
        r@ == match *path {
            Some(p) => p@,
            None => "<not set>"@,
        },
{
    match path {
        Some(p) => p.clone(),
        None => "<not set>".to_owned(),
    }
}

/// Takes over a picked game directory. `has_index` says whether the archive
/// index lies in it; a directory without one is refused. Says whether the
/// settings are to be saved.
pub fn pick_game_dir(state: &mut AppState, path: &String, has_index: bool) -> (dirty: bool)
    ensures
        dirty == has_index,
        has_index ==> {
            &&& final(state).toasts@ == old(state).toasts@.push(
                info_note("Game dir set: "@ + path@),
            )
            &&& *final(state) == (AppState {
                game_dir: Some(*path),
                config: Config { game_dir: Some(*path), ..old(state).config },
                toasts: final(state).toasts,
                ..*old(state)
            })
        },
        !has_index ==> {
            &&& final(state).toasts@ == old(state).toasts@.push(
                error_note("Invalid game dir (meta/0.papgt not found)"@),
            )
            &&& *final(state) == (AppState { toasts: final(state).toasts, ..*old(state) })
        },
{
    if has_index {
        state.game_dir = Some(path.clone());
        state.config.game_dir = Some(path.clone());
        let m = concat2("Game dir set: ", path.as_str());
        state.toasts.info(m.as_str());
        true
    } else {
        state.toasts.error("Invalid game dir (meta/0.papgt not found)");
        false
    }
}

/// Takes over a picked catalog.
pub fn pick_catalog(state: &mut AppState, path: &String)
    ensures
        final(state).toasts@ == old(state).toasts@.push(info_note("Catalog path set: "@ + path@)),
        *final(state) == (AppState {
            config: Config { catalog_path: Some(*path), ..old(state).config },
            toasts: final(state).toasts,
            ..*old(state)
        }),
{
    state.config.catalog_path = Some(path.clone());
    let m = concat2("Catalog path set: ", path.as_str());
    state.toasts.info(m.as_str());
}

/// Chooses a theme. Says whether it is another one, so that the settings are to
/// be saved; it is shown in the next frame.
pub fn choose_theme(state: &mut AppState, selected: Theme) -> (changed: bool)
    ensures
        changed == (selected != theme_in_use(old(state).config)),
        *final(state) == if changed {
            AppState {
                config: Config { theme: Some(selected), ..old(state).config },
                theme_change_pending: true,
                ..*old(state)
            }
        } else {
            *old(state)
        },
{
    if selected != current_theme(&state.config) {
        state.config.theme = Some(selected);
        state.theme_change_pending = true;
        true
    } else {
        false
    }
}

/// Sets the number of snapshots to keep.
pub fn set_retention(state: &mut AppState, count: usize)
    ensures
        *final(state) == (AppState {
            config: Config { snapshot_retention: Some(count), ..old(state).config },
            ..*old(state)
        }),
{
    state.config.snapshot_retention = Some(count);
}

/// Brings theme and number of snapshots back to what they are at first. The
/// paths stay.
pub fn reset_to_defaults(state: &mut AppState)
    ensures
        final(state).toasts@ == old(state).toasts@.push(info_note("Settings reset to defaults"@)),
        *final(state) == (AppState {
            config: Config {
                theme: Some(Theme::Dark),
                snapshot_retention: None,
                ..old(state).config
            },
            theme_change_pending: true,
            toasts: final(state).toasts,
            ..*old(state)
        }),
{
    state.config.theme = Some(Theme::default());
    state.config.snapshot_retention = None;
    state.theme_change_pending = true;
    state.toasts.info("Settings reset to defaults");
}

/// The theme to show, where it changed since it was last asked for.
pub fn take_theme_change(state: &mut AppState) -> (r: Option<Theme>)
    ensures
        r == if old(state).theme_change_pending {
            Some(theme_in_use(old(state).config))
        } else {
            None
        },
        *final(state) == (AppState { theme_change_pending: false, ..*old(state) }),
{
    if state.theme_change_pending {
        state.theme_change_pending = false;
        Some(current_theme(&state.config))
    } else {
        None
    }
}

/// Says that the settings could not be saved, where they could not.
pub fn settings_saved(state: &mut AppState, result: &Result<(), String>)
    ensures
        match *result {
            Ok(_) => *final(state) == *old(state),
            Err(e) => {
                &&& final(state).toasts@ == old(state).toasts@.push(
                    failure_note("Failed to save settings"@, e@),
                )
                &&& *final(state) == (AppState { toasts: final(state).toasts, ..*old(state) })
            },
        },
{
    match result {
        Ok(_) => {},
        Err(e) => {
            state.toasts.error_with_details("Failed to save settings", e.as_str());
        },
    }
}

/// Leaves the panel for the tables.
pub fn close_panel(state: &mut AppState)
    ensures
        *final(state) == (AppState { main_view: MainView::PabgbTables, ..*old(state) }),
{
    state.main_view = MainView::PabgbTables;
}

} // verus!
