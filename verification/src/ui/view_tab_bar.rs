//! The bar of views, and what happens when one of them is entered.

use vstd::prelude::*;
use crate::state::{failure_note, AppState, MainView};
use crate::ui::archive_panel::ArchiveSession;
use crate::ui::templates_panel::Template;

verus! {

broadcast use vstd::seq_lib::group_seq_properties;

/// What a view is for.
pub open spec fn tooltip(view: MainView) -> Seq<char> {
    match view {
        MainView::PabgbTables => "Tabbed PABGB game-data table editor — the historical default. Open a table from the left panel to begin."@,
        MainView::Paloc => "Localization editor (PALOC). Edit per-language string maps; changes ship as a PAZ overlay."@,
        MainView::Paseq => "PASEQ / PASTAGE editor. Sequencer + stage swaps for sleep mods, NPC routines, etc."@,
        MainView::Xml => "Apply slash-path patches (set_text / set_attr / append_child) to XML game configs. Save patches as JSON for sharing."@,
        MainView::Paatt => "Edit projectile attribute (.paatt) physics — radius, shape size, lifetime — for every projectile entry in the game."@,
        MainView::Paac => "Inspect and edit action-chart (.paac) files — character / weapon state machines, transitions, and condition records."@,
        MainView::Pappt => "Edit the part-prefab table (.pappt) — global registry mapping short part-prefab names plus per-character variants."@,
        MainView::Pamhc => "Edit the model-property header collection (.pamhc) — typed/byte sections behind an opaque header."@,
        MainView::Archive => "Browse every PAZ group folder under the game directory: inspect PAMT contents, compare PAPGT checksums, remove overlays."@,
        MainView::BinaryInspector => "Generic byte-level editor for sequencer schedule, stage header, and UI animation init files. Build find/replace byte patches."@,
        MainView::GlobalSearch => "Search across every supported format — PABGB / PALOC / XML / paatt / paac / pappt / pamhc plus opt-in byte / Korean scans."@,
        MainView::Library => "Browse the local mod library and switch between named profiles that batch-deploy a chosen subset of mods."@,
        MainView::Templates => "Apply preset field changes (built-in and user-saved) to the selected entry."@,
        MainView::Wizards => "Step-by-step guided flows for common mod tasks (stat boost, NPC swap, etc.)."@,
        MainView::Lint => "Run validation rules against the active table and review findings (with one-click fixes for known issues)."@,
        MainView::Conflicts => "Mod conflict viewer — load multiple mod JSONs and report overlapping field changes."@,
        MainView::Backups => "Snapshot browser — restore a prior deploy state from disk."@,
        MainView::Settings => "Application settings — game directory, catalog path, theme, snapshot retention."@,
    }
}

/// What a view is for, in a line.
pub fn tooltip_for(view: MainView) -> (r: &'static str)
    ensures
        r@ == tooltip(view),
{
    match view {
        MainView::PabgbTables => "Tabbed PABGB game-data table editor — the historical default. Open a table from the left panel to begin.",
        MainView::Paloc => "Localization editor (PALOC). Edit per-language string maps; changes ship as a PAZ overlay.",
        MainView::Paseq => "PASEQ / PASTAGE editor. Sequencer + stage swaps for sleep mods, NPC routines, etc.",
        MainView::Xml => "Apply slash-path patches (set_text / set_attr / append_child) to XML game configs. Save patches as JSON for sharing.",
        MainView::Paatt => "Edit projectile attribute (.paatt) physics — radius, shape size, lifetime — for every projectile entry in the game.",
        MainView::Paac => "Inspect and edit action-chart (.paac) files — character / weapon state machines, transitions, and condition records.",
        MainView::Pappt => "Edit the part-prefab table (.pappt) — global registry mapping short part-prefab names plus per-character variants.",
        MainView::Pamhc => "Edit the model-property header collection (.pamhc) — typed/byte sections behind an opaque header.",
        MainView::Archive => "Browse every PAZ group folder under the game directory: inspect PAMT contents, compare PAPGT checksums, remove overlays.",
        MainView::BinaryInspector => "Generic byte-level editor for sequencer schedule, stage header, and UI animation init files. Build find/replace byte patches.",
        MainView::GlobalSearch => "Search across every supported format — PABGB / PALOC / XML / paatt / paac / pappt / pamhc plus opt-in byte / Korean scans.",
        MainView::Library => "Browse the local mod library and switch between named profiles that batch-deploy a chosen subset of mods.",
        MainView::Templates => "Apply preset field changes (built-in and user-saved) to the selected entry.",
        MainView::Wizards => "Step-by-step guided flows for common mod tasks (stat boost, NPC swap, etc.).",
        MainView::Lint => "Run validation rules against the active table and review findings (with one-click fixes for known issues).",
        MainView::Conflicts => "Mod conflict viewer — load multiple mod JSONs and report overlapping field changes.",
        MainView::Backups => "Snapshot browser — restore a prior deploy state from disk.",
        MainView::Settings => "Application settings — game directory, catalog path, theme, snapshot retention.",
    }
}

/// The name of a view.
pub open spec fn label(view: MainView) -> Seq<char> {
    match view {
        MainView::PabgbTables => "PABGB Tables"@,
        MainView::Paloc => "PALOC"@,
        MainView::Paseq => "PASEQ"@,
        MainView::Xml => "XML"@,
        MainView::Paatt => "PAATT"@,
        MainView::Paac => "PAAC"@,
        MainView::Pappt => "PAPPT"@,
        MainView::Pamhc => "PAMHC"@,
        MainView::Archive => "Archive"@,
        MainView::BinaryInspector => "Binary Inspector"@,
        MainView::GlobalSearch => "Global Search"@,
        MainView::Library => "Library"@,
        MainView::Templates => "Templates"@,
        MainView::Wizards => "Wizards"@,
        MainView::Lint => "Lint"@,
        MainView::Conflicts => "Conflicts"@,
        MainView::Backups => "Backups"@,
        MainView::Settings => "Settings"@,
    }
}

/// The name of a view.
pub fn label_for(view: MainView) -> (r: &'static str)
    ensures
        r@ == label(view),
{
    match view {
        MainView::PabgbTables => "PABGB Tables",
        MainView::Paloc => "PALOC",
        MainView::Paseq => "PASEQ",
        MainView::Xml => "XML",
        MainView::Paatt => "PAATT",
        MainView::Paac => "PAAC",
        MainView::Pappt => "PAPPT",
        MainView::Pamhc => "PAMHC",
        MainView::Archive => "Archive",
        MainView::BinaryInspector => "Binary Inspector",
        MainView::GlobalSearch => "Global Search",
        MainView::Library => "Library",
        MainView::Templates => "Templates",
        MainView::Wizards => "Wizards",
        MainView::Lint => "Lint",
        MainView::Conflicts => "Conflicts",
        MainView::Backups => "Backups",
        MainView::Settings => "Settings",
    }
}

/// The views in the order of the bar, by group: the editors of data, the tools,
/// the workflow, and the system.
pub open spec fn bar() -> Seq<Seq<MainView>> {
    seq![
        seq![
            MainView::PabgbTables,
            MainView::Paloc,
            MainView::Xml,
            MainView::Paseq,
            MainView::Paatt,
            MainView::Paac,
            MainView::Pappt,
            MainView::Pamhc,
        ],
        seq![MainView::Archive, MainView::BinaryInspector, MainView::GlobalSearch],
        seq![
            MainView::Library,
            MainView::Templates,
            MainView::Wizards,
            MainView::Lint,
            MainView::Conflicts,
            MainView::Backups,
        ],
        seq![MainView::Settings],
    ]
}

/// The views in the order of the bar, by group.
pub fn view_groups() -> (r: Vec<Vec<MainView>>)
    ensures
        r@.map_values(|g: Vec<MainView>| g@) == bar(),
{
    let r = vec![
        vec![
            MainView::PabgbTables,
            MainView::Paloc,
            MainView::Xml,
            MainView::Paseq,
            MainView::Paatt,
            MainView::Paac,
            MainView::Pappt,
            MainView::Pamhc,
        ],
        vec![MainView::Archive, MainView::BinaryInspector, MainView::GlobalSearch],
        vec![
            MainView::Library,
            MainView::Templates,
            MainView::Wizards,
            MainView::Lint,
            MainView::Conflicts,
            MainView::Backups,
        ],
        vec![MainView::Settings],
    ];
    proof {
        let ghost v = r@.map_values(|g: Vec<MainView>| g@);
        assert(v.len() == bar().len());
        assert forall|i: int| 0 <= i < v.len() implies v[i] =~= #[trigger] bar()[i] by {}
        assert(v =~= bar());
    }
    r
}

/// The place of a view in the bar: its group, and its place there.
pub open spec fn place(view: MainView) -> (int, int) {
    match view {
        MainView::PabgbTables => (0, 0),
        MainView::Paloc => (0, 1),
        MainView::Xml => (0, 2),
        MainView::Paseq => (0, 3),
        MainView::Paatt => (0, 4),
        MainView::Paac => (0, 5),
        MainView::Pappt => (0, 6),
        MainView::Pamhc => (0, 7),
        MainView::Archive => (1, 0),
        MainView::BinaryInspector => (1, 1),
        MainView::GlobalSearch => (1, 2),
        MainView::Library => (2, 0),
        MainView::Templates => (2, 1),
        MainView::Wizards => (2, 2),
        MainView::Lint => (2, 3),
        MainView::Conflicts => (2, 4),
        MainView::Backups => (2, 5),
        MainView::Settings => (3, 0),
    }
}

/// Every view stands in the bar, and at one place only.
pub proof fn law_every_view_once(view: MainView, g: int, i: int)
    requires
        0 <= g < bar().len(),
        0 <= i < bar()[g].len(),
    ensures
        0 <= place(view).0 < bar().len(),
        0 <= place(view).1 < bar()[place(view).0].len(),
        bar()[place(view).0][place(view).1] == view,
        bar()[g][i] == view ==> (g, i) == place(view),
{
}

/// What entering a view does. Where the view shows what is on disk, what was
/// kept of it is dropped. Templates are taken over as they were read just now,
/// unless there are some.
pub open spec fn entered(
    before: AppState,
    after: AppState,
    view: MainView,
    templates: Result<Vec<Template>, String>,
) -> bool {
    match view {
        MainView::Backups => after == (AppState { backup_loaded_once: false, ..before }),
        MainView::Templates => if before.user_templates@.len() > 0 {
            after == before
        } else {
            match templates {
                Ok(list) => after == (AppState { user_templates: list, ..before }),
                Err(e) => {
                    &&& after.toasts@ == before.toasts@.push(
                        failure_note("Failed to load user templates"@, e@),
                    )
                    &&& after == (AppState { toasts: after.toasts, ..before })
                },
            }
        },
        MainView::Archive => after == (AppState {
            archive: ArchiveSession { groups: None, detail: None, diff: None, ..before.archive },
            ..before
        }),
        MainView::Library => after == (AppState { library_loaded: false, ..before }),
        _ => after == before,
    }
}

/// Whether the templates are to be read when a view is entered.
pub fn wants_templates(state: &AppState, view: MainView) -> (r: bool)
    ensures
        r == (view is Templates && state.user_templates@.len() == 0),
{
    match view {
        MainView::Templates => state.user_templates.len() == 0,
        _ => false,
    }
}

/// Does what entering a view asks for.
pub fn on_view_switched(
    state: &mut AppState,
    view: MainView,
    templates: Result<Vec<Template>, String>,
)
    ensures
        entered(*old(state), *final(state), view, templates),
{
    match view {
        MainView::Backups => {
            state.backup_loaded_once = false;
        },
        MainView::Templates => {
            if state.user_templates.len() == 0 {
                match templates {
                    Ok(list) => {
                        state.user_templates = list;
                    },
                    Err(e) => {
                        state.toasts.error_with_details(
                            "Failed to load user templates",
                            e.as_str(),
                        );
                    },
                }
            }
        },
        MainView::Archive => {
            state.archive.groups = None;
            state.archive.detail = None;
            state.archive.diff = None;
        },
        MainView::Library => {
            state.library_loaded = false;
        },
        _ => {},
    }
}

/// Goes to a view. Nothing more happens where it is the one that is shown.
pub fn click_view(state: &mut AppState, view: MainView, templates: Result<Vec<Template>, String>)
    ensures
        if old(state).main_view == view {
            *final(state) == *old(state)
        } else {
            entered(AppState { main_view: view, ..*old(state) }, *final(state), view, templates)
        },
{
    if state.main_view == view {
        return;
    }
    state.main_view = view;
    on_view_switched(state, view, templates);
}

/// Entering a view changes nothing that was edited: not the open tables, the
/// settings, the notes or the lists of mods.
pub proof fn law_entering_keeps_edits(
    before: AppState,
    after: AppState,
    view: MainView,
    templates: Result<Vec<Template>, String>,
)
    requires
        entered(before, after, view, templates),
    ensures
        after.open_tabs == before.open_tabs,
        after.active_tab_idx == before.active_tab_idx,
        after.config == before.config,
        after.notes == before.notes,
        after.library == before.library,
        after.loaded_mods == before.loaded_mods,
        after.main_view == before.main_view,
        before.user_templates@.len() > 0 ==> after.user_templates == before.user_templates,
{
}

} // verus!
