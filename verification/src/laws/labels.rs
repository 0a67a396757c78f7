//! Laws of the names that things are shown by.

use vstd::prelude::*;
use crate::digits::dec;
use crate::state::{AppState, ByteHitKind, KoreanEncoding, Level, MainView};
use crate::ui::command_palette::PaletteCategory;
use crate::ui::conflict_panel::{analyze_button, mod_name, ConflictReport};
use crate::ui::entry_table::{header_label, ErrorCategory};
use crate::ui::global_search_panel::{byte_kind_label, encoding_label, group_title};
use crate::ui::history_panel::{hidden_line, marker};
use crate::ui::lint_panel::{severity_color, severity_glyph, severity_label, Severity};
use crate::ui::metadata_dialog::ExportAction;
use crate::ui::paac_panel::{format_label, PaacFormat};
use crate::ui::pamhc_panel::{section_letter, PamhcTab};
use crate::ui::settings_panel::{close_panel, path_text, settings_saved, theme_label, Theme};
use crate::ui::tab_bar::{can_close_others, can_close_to_right};
use crate::ui::templates_panel::{active_name, mode_text, TemplateField};
use crate::ui::view_tab_bar::{label_for, wants_templates};

verus! {

broadcast use vstd::seq_lib::group_seq_properties;

/// The name of each view.
pub proof fn law_names_of_views(view: MainView, r: &'static str)
    requires
        call_ensures(label_for, (view,), r),
    ensures
        view is PabgbTables ==> r@ == "PABGB Tables"@,
        view is Paloc ==> r@ == "PALOC"@,
        view is Paseq ==> r@ == "PASEQ"@,
        view is Xml ==> r@ == "XML"@,
        view is Paatt ==> r@ == "PAATT"@,
        view is Paac ==> r@ == "PAAC"@,
        view is Pappt ==> r@ == "PAPPT"@,
        view is Pamhc ==> r@ == "PAMHC"@,
        view is Archive ==> r@ == "Archive"@,
        view is BinaryInspector ==> r@ == "Binary Inspector"@,
        view is GlobalSearch ==> r@ == "Global Search"@,
        view is Library ==> r@ == "Library"@,
        view is Templates ==> r@ == "Templates"@,
        view is Wizards ==> r@ == "Wizards"@,
        view is Lint ==> r@ == "Lint"@,
        view is Conflicts ==> r@ == "Conflicts"@,
        view is Backups ==> r@ == "Backups"@,
        view is Settings ==> r@ == "Settings"@,
{
}

/// The user's templates are read where their view is entered and none are there.
pub proof fn law_templates_are_wanted(state: &AppState, view: MainView, r: bool)
    requires
        call_ensures(wants_templates, (state, view), r),
    ensures
        r <==> view == MainView::Templates && state.user_templates@.len() == 0,
{
}

/// The name of each theme.
pub proof fn law_names_of_themes(theme: Theme, r: &'static str)
    requires
        call_ensures(theme_label, (theme,), r),
    ensures
        theme == Theme::Dark ==> r@ == "Dark"@,
        theme == Theme::Light ==> r@ == "Light"@,
        theme == Theme::Crimson ==> r@ == "Crimson"@,
{
}

/// A path is shown as it is, or that it is not set.
pub proof fn law_shown_path(path: &Option<String>, r: String)
    requires
        call_ensures(path_text, (path,), r),
    ensures
        path is Some ==> r@ == path->Some_0@,
        path is None ==> r@ == "<not set>"@,
{
}

/// Settings that could not be saved are said with the reason; those that were need
/// no word.
pub proof fn law_saved_settings(state: &mut AppState, result: &Result<(), String>)
    requires
        call_ensures(settings_saved, (state, result), ()),
    ensures
        result is Ok ==> *final(state) == *old(state),
        result is Err ==> final(state).toasts@.last().level == Level::Error && final(
            state).toasts@.last().details == Some(result->Err_0@) && final(state).config == old(
            state).config,
{
}

/// The settings are left for the tables, and so are the findings and the archives.
pub proof fn law_panel_is_left(state: &mut AppState, panel: int)
    requires
        0 <= panel <= 2,
        panel == 0 ==> call_ensures(close_panel, (state,), ()),
        panel == 1 ==> call_ensures(crate::ui::lint_panel::close_panel, (state,), ()),
        panel == 2 ==> call_ensures(crate::ui::archive_panel::close_panel, (state,), ()),
    ensures
        final(state).main_view is PabgbTables,
        final(state).config == old(state).config,
        final(state).open_tabs == old(state).open_tabs,
        final(state).lint_findings == old(state).lint_findings,
{
}

/// Errors, warnings and information are told apart by a letter, a word and a colour:
/// red, yellow and blue.
pub proof fn law_severities(s: Severity, g: &'static str, l: &'static str, c: (u8, u8, u8), n: u8)
    requires
        call_ensures(severity_glyph, (s,), g),
        call_ensures(severity_label, (s,), l),
        call_ensures(severity_color, (s,), c),
        call_ensures(Severity::rank, (s,), n),
    ensures
        s == Severity::Error ==> g@ == "E"@ && l@ == "ERROR"@ && c.0 > c.1 && c.0 > c.2,
        s == Severity::Warn ==> g@ == "W"@ && l@ == "WARN"@ && c.0 > c.2 && c.1 > c.2,
        s == Severity::Info ==> g@ == "i"@ && l@ == "INFO"@ && c.2 > c.0 && c.2 > c.1,
{
}

/// Commands come before tables, those before entries, and those before mods.
pub proof fn law_order_of_kinds(c: PaletteCategory, n: u8, l: &'static str)
    requires
        call_ensures(PaletteCategory::rank, (c,), n),
        call_ensures(PaletteCategory::short_label, (c,), l),
    ensures
        c == PaletteCategory::Action ==> n == 0 && l@ == "Ac"@,
        c == PaletteCategory::LoadedTable ==> n == 1 && l@ == "Ta"@,
        c == PaletteCategory::RecentEntry ==> n == 2 && l@ == "En"@,
        c == PaletteCategory::LibraryMod ==> n == 3 && l@ == "Mo"@,
{
}

/// An export is headed by what it writes.
pub proof fn law_names_of_exports(a: &ExportAction, l: &'static str, b: &'static str)
    requires
        call_ensures(ExportAction::label, (a,), l),
        call_ensures(ExportAction::button_label, (a,), b),
    ensures
        a is SaveJson ==> l@ == "Export as Workbench JSON"@ && b@ == "Export JSON..."@,
        a is SaveModpkg ==> l@ == "Export as .modpkg"@ && b@ == "Export .modpkg..."@,
        a is SaveDmm ==> l@ == "Export as DMM v3 Intent JSON"@ && b@
            == "Export DMM Intent JSON..."@,
        a is SaveDmmModFolder ==> l@ == "Export as DMM Mod Folder"@ && b@
            == "Export Mod Folder..."@,
{
}

/// What a failure to load was about is said.
pub proof fn law_headings_of_failures(c: ErrorCategory, h: &'static str, t: &'static str)
    requires
        call_ensures(header_label, (c,), h),
        call_ensures(ErrorCategory::tag, (c,), t),
    ensures
        c == ErrorCategory::PazLookup ==> h@ == "PAZ lookup failed:"@ && t@ == "PAZ lookup"@,
        c == ErrorCategory::GameDataLookup ==> h@ == "Game data lookup failed:"@ && t@
            == "Game data"@,
        c == ErrorCategory::Panic ==> h@ == "Parser panic:"@ && t@ == "Panic"@,
        c == ErrorCategory::Parser ==> h@ == "Parser error:"@ && t@ == "Parser error"@,
{
}

/// The encoding of a hit is named.
pub proof fn law_names_of_encodings(
    e: KoreanEncoding,
    k: ByteHitKind,
    l: &'static str,
    m: &'static str,
)
    requires
        call_ensures(encoding_label, (e,), l),
        call_ensures(byte_kind_label, (k,), m),
    ensures
        e is Utf8 ==> l@ == "UTF-8"@,
        e is Utf16Le ==> l@ == "UTF-16 LE"@,
        k is Utf8 ==> m@ == "UTF-8 / ASCII match"@,
        k is Utf16Le ==> m@ == "UTF-16 LE wide-string match"@,
{
}

/// A heading has the number of its hits behind it.
pub proof fn law_heading_of_hits(name: &str, n: usize, r: String)
    requires
        call_ensures(group_title, (name, n), r),
    ensures
        r@ == name@ + " ("@ + dec(n as nat) + ")"@,
{
}

/// The kind of a chart is named.
pub proof fn law_names_of_charts(f: PaacFormat, r: &'static str)
    requires
        call_ensures(format_label, (f,), r),
    ensures
        f is InfoTable ==> r@ == "info_table"@,
        f is ActionChartV0 ==> r@ == "action_chart_v0"@,
        f is ActionChartV1 ==> r@ == "action_chart_v1"@,
        f is Unknown ==> r@ == "unknown"@,
{
}

/// A section that is not decoded is named by its letter.
pub proof fn law_letters_of_sections(t: PamhcTab, r: &'static str)
    requires
        call_ensures(section_letter, (t,), r),
    ensures
        t is SectionB ==> r@ == "B"@,
        t is SectionC ==> r@ == "C"@,
        t is SectionD ==> r@ == "D"@,
{
}

/// The state in which the table stands is marked, and edits that are not listed are
/// counted.
pub proof fn law_marks_of_the_history(here: bool, m: &'static str, n: usize, h: String)
    requires
        call_ensures(marker, (here,), m),
        call_ensures(hidden_line, (n,), h),
    ensures
        here ==> m@ == "\u{25B8} here"@,
        !here ==> m@ == "  "@,
        h@ == "... "@ + dec(n as nat) + " older entries hidden"@,
{
}

/// A mod of a report is named as it was loaded.
pub proof fn law_name_of_a_mod(report: &ConflictReport, i: usize, r: String)
    requires
        call_ensures(mod_name, (report, i), r),
    ensures
        i < report.mod_names@.len() ==> r@ == report.mod_names@[i as int]@,
        i >= report.mod_names@.len() ==> r@ == "?"@,
{
}

/// Mods are compared where there are two or more.
pub proof fn law_mods_can_be_compared(state: &AppState, r: (bool, &'static str))
    requires
        call_ensures(analyze_button, (state,), r),
    ensures
        r.0 <==> state.loaded_mods@.len() >= 2,
{
}

/// Tabs can be closed around one where there are some.
pub proof fn law_tabs_can_be_closed(state: &AppState, i: usize, others: bool, right: bool)
    requires
        call_ensures(can_close_others, (state,), others),
        call_ensures(can_close_to_right, (state, i), right),
    ensures
        others <==> state.open_tabs@.len() >= 2,
        right <==> i + 1 < state.open_tabs@.len(),
{
}

/// The table that a template is for is the one in focus, and a field of it is
/// replaced or multiplied.
pub proof fn law_table_for_templates(
    state: &AppState,
    r: String,
    i: usize,
    f: &TemplateField,
    m: &'static str,
)
    requires
        call_ensures(active_name, (state,), r),
        call_ensures(mode_text, (f,), m),
    ensures
        state.active_tab_idx == Some(i) && i < state.open_tabs@.len() ==> r@
            == state.open_tabs@[i as int].dispatch_name@,
        state.active_tab_idx is None ==> r@.len() == 0,
        f.multiplicative ==> m@ == "× multiply"@,
        !f.multiplicative ==> m@ == "= replace"@,
{
}

} // verus!
