use mod_workbench::state::{AppState, Level, MainView};
use mod_workbench::ui::templates_panel::Template;
use mod_workbench::ui::view_tab_bar::{
    click_view, label_for, on_view_switched, tooltip_for, view_groups, wants_templates,
};

const VIEWS: [MainView; 18] = [
    MainView::PabgbTables,
    MainView::Paloc,
    MainView::Paseq,
    MainView::Backups,
    MainView::Conflicts,
    MainView::Lint,
    MainView::Settings,
    MainView::Library,
    MainView::Templates,
    MainView::Wizards,
    MainView::Xml,
    MainView::Archive,
    MainView::Paatt,
    MainView::Paac,
    MainView::Pappt,
    MainView::Pamhc,
    MainView::BinaryInspector,
    MainView::GlobalSearch,
];

fn template() -> Template {
    Template {
        name: "t".to_string(),
        description: String::new(),
        table: "item_info".to_string(),
        field_changes: Vec::new(),
        user_defined: true,
    }
}

#[test]
fn label_and_tooltip_cover_every_variant() {
    for view in VIEWS {
        assert!(!label_for(view).is_empty(), "{:?} missing label", view);
        assert!(
            !tooltip_for(view).is_empty(),
            "{:?} missing tooltip",
            view
        );
    }
}

#[test]
fn every_view_stands_in_the_bar_once() {
    let groups = view_groups();
    assert_eq!(groups.len(), 4);
    let all: Vec<MainView> = groups.into_iter().flatten().collect();
    assert_eq!(all.len(), 18);
    for view in VIEWS {
        assert_eq!(all.iter().filter(|v| **v == view).count(), 1);
    }
    assert_eq!(label_for(all[0]), "PABGB Tables");
    assert_eq!(label_for(all[17]), "Settings");
}

#[test]
fn entering_a_view_drops_what_was_kept_of_the_disk() {
    let mut state = AppState::new();
    state.backup_loaded_once = true;
    state.library_loaded = true;
    state.archive.groups = Some(Vec::new());
    state.archive.diff = Some(None);
    on_view_switched(&mut state, MainView::Backups, Ok(Vec::new()));
    assert!(!state.backup_loaded_once);
    on_view_switched(&mut state, MainView::Library, Ok(Vec::new()));
    assert!(!state.library_loaded);
    on_view_switched(&mut state, MainView::Archive, Ok(Vec::new()));
    assert!(state.archive.groups.is_none() && state.archive.diff.is_none());
}

#[test]
fn templates_are_read_where_there_are_none() {
    let mut state = AppState::new();
    assert!(wants_templates(&state, MainView::Templates));
    assert!(!wants_templates(&state, MainView::Lint));
    on_view_switched(&mut state, MainView::Templates, Err("no directory".to_string()));
    assert!(state.user_templates.is_empty());
    assert_eq!(state.toasts.items[0].level, Level::Error);
    assert_eq!(state.toasts.items[0].message, "Failed to load user templates");
    assert_eq!(state.toasts.items[0].details.as_deref(), Some("no directory"));
    on_view_switched(&mut state, MainView::Templates, Ok(vec![template()]));
    assert_eq!(state.user_templates.len(), 1);
    on_view_switched(&mut state, MainView::Templates, Ok(Vec::new()));
    assert_eq!(state.user_templates.len(), 1);
}

#[test]
fn a_click_on_the_shown_view_changes_nothing() {
    let mut state = AppState::new();
    state.main_view = MainView::Backups;
    state.backup_loaded_once = true;
    click_view(&mut state, MainView::Backups, Ok(Vec::new()));
    assert!(state.backup_loaded_once);
    click_view(&mut state, MainView::Lint, Ok(Vec::new()));
    assert_eq!(state.main_view, MainView::Lint);
    click_view(&mut state, MainView::Backups, Ok(Vec::new()));
    assert!(!state.backup_loaded_once);
}
