//! Laws of what the editors ask for and report: directories, overlays, saved texts
//! and templates.

use vstd::prelude::*;
use crate::ui::{
    binary_inspector_panel, paac_panel, paatt_panel, pamhc_panel, pappt_panel, paseq_panel,
};
use crate::ui::table_list::retry_load;
use crate::state::{AppState, Job, Level, Toasts};
use crate::byte_patch::{report_loaded, report_saved, BytePatchDoc};
use crate::digits::dec;
use crate::json::{Json, Tree};
use crate::rows::position_of;
use crate::ui::paac_panel::{
    counts_line, float_written, hunt_again, hunt_done, opt_u32, state_size, FloatHit, PaacFile,
    PaacSession, PaacState,
};
use crate::ui::paatt_panel::{is_key_field, rescan, PaattSession};
use crate::ui::paloc_panel::{
    changes_line, load_request, save_paloc, save_request, PalocEntry, PalocSession,
};
use crate::ui::templates_panel::{
    apply_enabled, default_name, format_value, is_mismatch, list_label, template_saved,
    templates_reloaded, Template, TemplateDraft,
};
use crate::text::{has_prefix, has_sub, lowercase};

verus! {

broadcast use vstd::seq_lib::group_seq_properties;

/// Each editor reads from the game directory that is set; where none is, that is
/// said and nothing is read.
pub proof fn law_editors_need_the_directory(state: &mut AppState, r: Option<String>, editor: int)
    requires
        0 <= editor <= 3,
        editor == 0 ==> call_ensures(paac_panel::load_dir, (state,), r),
        editor == 1 ==> call_ensures(paatt_panel::load_dir, (state,), r),
        editor == 2 ==> call_ensures(pappt_panel::load_dir, (state,), r),
        editor == 3 ==> call_ensures(pamhc_panel::load_dir, (state,), r),
    ensures
        r == old(state).game_dir,
        r is Some ==> *final(state) == *old(state),
        r is None ==> final(state).toasts@.len() == old(state).toasts@.len() + 1 && final(
            state).toasts@.last().level == Level::Warn,
{
}

/// Each editor removes the overlay of the group that is set for it, from the game
/// directory.
pub proof fn law_overlay_to_remove(state: &AppState, r: Option<(String, String)>, editor: int)
    requires
        0 <= editor <= 3,
        editor == 0 ==> call_ensures(paac_panel::restore_request, (state,), r),
        editor == 1 ==> call_ensures(paatt_panel::restore_request, (state,), r),
        editor == 2 ==> call_ensures(pappt_panel::restore_request, (state,), r),
        editor == 3 ==> call_ensures(pamhc_panel::restore_request, (state,), r),
    ensures
        r is Some <==> state.game_dir is Some,
        r is Some ==> Some(r->Some_0.0) == state.game_dir,
        r is Some && editor == 0 ==> r->Some_0.1 == state.paac.overlay_group,
        r is Some && editor == 1 ==> r->Some_0.1 == state.paatt.overlay_group,
        r is Some && editor == 2 ==> r->Some_0.1 == state.pappt.overlay_group,
        r is Some && editor == 3 ==> r->Some_0.1 == state.pamhc.overlay_group,
{
}

/// What came of the removal is said, with the group and the format, or the reason.
pub proof fn law_removed_overlay_is_reported(
    state: &mut AppState,
    group: &str,
    result: &Result<(), String>,
    editor: int,
)
    requires
        0 <= editor <= 3,
        editor == 0 ==> call_ensures(paac_panel::restore_overlay, (state, group, result), ()),
        editor == 1 ==> call_ensures(paatt_panel::restore_overlay, (state, group, result), ()),
        editor == 2 ==> call_ensures(pappt_panel::restore_overlay, (state, group, result), ()),
        editor == 3 ==> call_ensures(pamhc_panel::restore_overlay, (state, group, result), ()),
    ensures
        result is Ok ==> final(state).toasts@.last().level == Level::Info && final(
            state).toasts@.last().message == "Removed "@ + (if editor == 0 {
            "PAAC"@
        } else if editor == 1 {
            "PAATT"@
        } else if editor == 2 {
            "PAPPT"@
        } else {
            "PAMHC"@
        }) + " overlay group "@ + group@,
        result is Err ==> final(state).toasts@.last().level == Level::Error && final(
            state).toasts@.last().details == Some(result->Err_0@ + "\nGroup: "@ + group@),
        final(state).toasts@.len() == old(state).toasts@.len() + 1,
{
}

/// What came of writing a file to disk is said, with its path or the reason.
pub proof fn law_written_file_is_reported(
    state: &mut AppState,
    path: &str,
    result: &Result<(), String>,
    editor: int,
)
    requires
        0 <= editor <= 3,
        editor == 0 ==> call_ensures(paac_panel::save_paac_to_disk, (state, path, result), ()),
        editor == 1 ==> call_ensures(paatt_panel::save_paatt_to_disk, (state, path, result), ()),
        editor == 2 ==> call_ensures(pappt_panel::save_pappt_to_disk, (state, path, result), ()),
        editor == 3 ==> call_ensures(pamhc_panel::save_pamhc_to_disk, (state, path, result), ()),
    ensures
        result is Ok ==> final(state).toasts@.last().message == "Wrote "@ + path@ && final(
            state).toasts@.last().level == Level::Info,
        result is Err ==> final(state).toasts@.last().level == Level::Error && final(
            state).toasts@.last().details == Some(result->Err_0@ + "\nPath: "@ + path@),
        final(state).toasts@.len() == old(state).toasts@.len() + 1,
{
}

/// A localized text is kept by a filter that its key or its words hold, whatever the
/// case.
pub proof fn law_text_is_kept(s: &PalocSession, e: &PalocEntry, r: bool)
    requires
        call_ensures(PalocSession::matches_filter, (s, e), r),
    ensures
        s.filter@.len() == 0 ==> r,
        has_sub(lowercase(e.string_key@), lowercase(s.filter@)) ==> r,
        has_sub(lowercase(e.string_value@), lowercase(s.filter@)) ==> r,
        r ==> s.filter@.len() == 0 || has_sub(lowercase(e.string_key@), lowercase(s.filter@))
            || has_sub(lowercase(e.string_value@), lowercase(s.filter@)),
{
}

/// The row to scroll to is where the text is listed, and is handed out once.
pub proof fn law_row_to_scroll_to(s: &mut PalocSession, visible: &Vec<usize>, r: Option<usize>)
    requires
        call_ensures(PalocSession::take_scroll_row, (s, visible), r),
    ensures
        final(s).pending_scroll_row is None,
        r is Some ==> r->Some_0 < visible@.len() && Some(visible@[r->Some_0 as int]) == old(
            s).pending_scroll_row,
        old(s).pending_scroll_row is Some && visible@.contains(old(s).pending_scroll_row->Some_0)
            ==> r is Some,
        final(s).entries == old(s).entries,
{
    if old(s).pending_scroll_row is Some {
        lemma_position(visible@, old(s).pending_scroll_row->Some_0);
    }
}

proof fn lemma_position(v: Seq<usize>, x: usize)
    ensures
        match position_of(v, x) {
            Some(i) => 0 <= i < v.len() && v[i] == x,
            None => !v.contains(x),
        },
    decreases v.len(),
{
    if v.len() > 0 && v[0] != x {
        let d = v.drop_first();
        lemma_position(d, x);
        if position_of(v, x) is None && v.contains(x) {
            let i = choose|i: int| 0 <= i < v.len() && v[i] == x;
            assert(d[i - 1] == x);
        }
    }
}

/// The texts of the chosen language are read from the game directory, and are saved
/// there where some are loaded.
pub proof fn law_texts_are_asked_for(
    state: &mut AppState,
    load: Option<(String, String)>,
    save: Option<String>,
    loading: bool,
)
    requires
        loading ==> call_ensures(load_request, (state,), load),
        !loading ==> call_ensures(save_request, (state,), save),
    ensures
        loading && old(state).game_dir is Some ==> load is Some && Some(load->Some_0.0) == old(
            state).game_dir && load->Some_0.1 == old(state).paloc_language,
        loading && old(state).game_dir is None ==> load is None && final(
            state).toasts@.last().level == Level::Warn,
        !loading ==> (save is Some <==> old(state).game_dir is Some && old(
            state).paloc_session is Some),
        !loading && save is Some ==> save == old(state).game_dir,
        !loading && save is None ==> final(state).toasts@.last().level == Level::Warn,
        final(state).paloc_session == old(state).paloc_session,
{
}

/// What came of saving the texts is said, with the language or the reason.
pub proof fn law_saved_texts_are_reported(
    state: &mut AppState,
    dir: &str,
    result: &Result<(), String>,
)
    requires
        call_ensures(save_paloc, (state, dir, result), ()),
        old(state).paloc_session is Some,
    ensures
        result is Ok ==> final(state).toasts@.last().level == Level::Info && final(state).status@
            == final(state).toasts@.last().message && has_prefix(
            final(state).status@,
            "Saved paloc "@ + old(state).paloc_session->Some_0.language@ + " overlay to "@ + dir@
                + "/"@,
        ),
        result is Err ==> final(state).toasts@.last().level == Level::Error && final(
            state).toasts@.last().details == Some(result->Err_0@),
        final(state).paloc_session == old(state).paloc_session,
{
    if result is Ok {
        let p = "Saved paloc "@ + old(state).paloc_session->Some_0.language@ + " overlay to "@ + dir@
            + "/"@;
        assert(final(state).status@.take(p.len() as int) =~= p);
    }
}

/// How many changes there are is said, and that there are none.
pub proof fn law_number_of_changes(n: usize, r: String)
    requires
        call_ensures(changes_line, (n,), r),
    ensures
        n == 0 ==> r@ == "no changes"@,
        n > 0 ==> r@ == dec(n as nat) + " changes"@,
{
}

/// What a chart holds is counted.
pub proof fn law_chart_is_counted(file: &PaacFile, r: String, s: &PaacState, n: usize)
    requires
        call_ensures(counts_line, (file,), r),
        s.record_start <= s.end,
        call_ensures(state_size, (s,), n),
    ensures
        r@ == "states "@ + dec(file.states@.len()) + "  |  transitions "@ + dec(
            file.transitions@.len(),
        ) + "  |  conditions "@ + dec(file.condition_records@.len()) + "  |  strings "@ + dec(
            file.strings@.len(),
        ),
        s.record_start + n == s.end,
{
}

/// A float that was written leaves its bytes in the chart; where it was not, the
/// chart stays.
pub proof fn law_float_is_written(state: &mut AppState, result: Result<Vec<u8>, String>)
    requires
        call_ensures(float_written, (state, result), ()),
    ensures
        result is Ok && old(state).paac.file is Some ==> final(state).paac.file is Some && final(
            state).paac.file->Some_0.raw == result->Ok_0 && final(
            state).paac.file->Some_0.transitions == old(state).paac.file->Some_0.transitions,
        result is Err ==> final(state).paac == old(state).paac && final(
            state).toasts@.last().details == Some(result->Err_0@),
{
}

/// What was found is kept until it is looked for again.
pub proof fn law_found_floats(s: &mut PaacSession, hits: Vec<FloatHit>, again: bool)
    requires
        again ==> call_ensures(hunt_again, (s,), ()),
        !again ==> call_ensures(hunt_done, (s, hits), ()),
    ensures
        final(s).float_hunt_dirty == again,
        !again ==> final(s).float_hunt_hits == hits,
        again ==> final(s).float_hunt_hits == old(s).float_hunt_hits,
        final(s).file == old(s).file,
{
}

/// A number that may be missing is shown as it is, or by a dash.
pub proof fn law_number_or_dash(v: Option<u32>, r: String)
    requires
        call_ensures(opt_u32, (v,), r),
    ensures
        v is Some ==> r@ == dec(v->Some_0 as nat),
        v is None ==> r@ == "-"@,
{
}

/// The entries that were found in the loaded file are listed, and none is selected.
pub proof fn law_entries_are_found(s: &mut PaattSession, offsets: Vec<usize>)
    requires
        call_ensures(rescan, (s, offsets), ()),
    ensures
        old(s).file is Some ==> final(s).entry_offsets == offsets && final(
            s).selected_entry_idx is None,
        old(s).file is None ==> *final(s) == *old(s),
        final(s).file == old(s).file,
{
}

/// A field holds a key where its name begins so.
pub proof fn law_key_fields(name: &str, r: bool)
    requires
        call_ensures(is_key_field, (name,), r),
    ensures
        r <==> name@.len() >= 12 && name@.take(12) == "spawnItemKey"@,
{
    reveal_strlit("spawnItemKey");
}

/// A template is listed by its name and its table, and does not fit another table.
pub proof fn law_template_and_table(t: &Template, table: &str, label: String, r: bool)
    requires
        call_ensures(list_label, (t,), label),
        call_ensures(is_mismatch, (t, table), r),
    ensures
        label@ == t.name@ + "  ["@ + t.table@ + "]"@,
        t.table@ == table@ ==> !r,
        t.table@ != table@ && table@.len() > 0 ==> r,
        table@.len() == 0 ==> !r,
{
}

/// A template can be applied where an entry of the table in focus is selected.
pub proof fn law_template_can_be_applied(state: &AppState, r: bool, i: usize)
    requires
        call_ensures(apply_enabled, (state,), r),
    ensures
        state.active_tab_idx is None ==> !r,
        state.active_tab_idx == Some(i) && i < state.open_tabs@.len() ==> (r
            <==> state.open_tabs@[i as int].selected_entry_idx is Some),
{
}

/// The templates that were read are the user's; where they could not be, the old ones
/// stay.
pub proof fn law_templates_are_read(
    state: &mut AppState,
    result: Result<Vec<Template>, String>,
)
    requires
        call_ensures(templates_reloaded, (state, result), ()),
    ensures
        result is Ok ==> final(state).user_templates == result->Ok_0 && final(
            state).toasts@.last().level == Level::Info,
        result is Err ==> final(state).user_templates == old(state).user_templates && final(
            state).toasts@.last().details == Some(result->Err_0@),
{
}

/// A template that was saved is in the list that was read again.
pub proof fn law_template_is_saved(
    state: &mut AppState,
    name: &str,
    result: &Result<(), String>,
    reloaded: Result<Vec<Template>, String>,
)
    requires
        call_ensures(template_saved, (state, name, result, reloaded), ()),
    ensures
        result is Ok && reloaded is Ok ==> final(state).user_templates == reloaded->Ok_0,
        result is Ok ==> final(state).toasts@.last().message == "Saved template '"@ + name@ + "'"@,
        result is Err || reloaded is Err ==> final(state).user_templates == old(
            state).user_templates,
        result is Err ==> final(state).toasts@.last().details == Some(result->Err_0@),
{
}

/// A draft is offered under the name of its table and the key of its entry.
pub proof fn law_offered_name(d: &TemplateDraft, r: String)
    requires
        call_ensures(default_name, (d,), r),
    ensures
        r@ == d.table@ + "_"@ + dec(d.entry_key as nat) + ".json"@,
{
}

/// A value of a template is shown as it is written.
pub proof fn law_shown_value(v: &Json, r: String)
    requires
        call_ensures(format_value, (v,), r),
    ensures
        v@ is Null ==> r@ == "null"@,
        v@ == Tree::Bool(true) ==> r@ == "true"@,
        v@ == Tree::Bool(false) ==> r@ == "false"@,
        v@ is Str ==> r@ == "\""@ + v@->Str_0 + "\""@,
        v@ is Float ==> r@ == v@->Float_0,
        v@ is Int && v@->Int_0 >= 0 ==> r@ == dec(v@->Int_0 as nat),
{
}

/// The number of texts is said; with a filter also how many of them are shown.
pub proof fn law_number_of_texts(s: &PalocSession, visible: usize, r: String)
    requires
        call_ensures(PalocSession::count_line, (s, visible), r),
    ensures
        s.filter@.len() == 0 ==> r@ == dec(s.entries@.len()) + " entries"@,
        s.filter@.len() > 0 ==> r@ == dec(visible as nat) + " of "@ + dec(s.entries@.len())
            + " entries"@,
{
}

/// Without a table in focus no load is tried again.
pub proof fn law_nothing_to_try_again(state: &mut AppState, job: Option<Job>)
    requires
        call_ensures(retry_load, (state,), job),
        old(state).active_tab_idx is None,
    ensures
        job is None,
        *final(state) == *old(state),
{
}

/// What came of writing a list of patches is said: its path, or whether writing or
/// building the text failed, and why.
pub proof fn law_written_patches(
    last: &mut Option<String>,
    toasts: &mut Toasts,
    path: &String,
    result: &Result<(), (bool, String)>,
)
    requires
        call_ensures(report_saved, (last, toasts, path, result), ()),
    ensures
        final(toasts)@.len() == old(toasts)@.len() + 1,
        result is Ok ==> *final(last) == Some(*path) && final(toasts)@.last().level == Level::Info
            && final(toasts)@.last().message == "Saved patch to "@ + path@,
        result is Err ==> *final(last) == *old(last) && final(toasts)@.last().level == Level::Error,
        result is Err && result->Err_0.0 ==> final(toasts)@.last().message == "Write failed"@
            && final(toasts)@.last().details == Some(result->Err_0.1@ + "\nPath: "@ + path@),
        result is Err && !result->Err_0.0 ==> final(toasts)@.last().message == "Serialize failed"@
            && final(toasts)@.last().details == Some(result->Err_0.1@),
{
}

/// What came of reading a list of patches is said: its path, or whether reading or
/// understanding it failed, and why.
pub proof fn law_read_patches(
    doc: &mut Option<BytePatchDoc>,
    last: &mut Option<String>,
    toasts: &mut Toasts,
    path: &String,
    result: Result<BytePatchDoc, (bool, String)>,
)
    requires
        call_ensures(report_loaded, (doc, last, toasts, path, result), ()),
    ensures
        result is Ok ==> *final(doc) == Some(result->Ok_0) && *final(last) == Some(*path) && final(
            toasts)@.last().message == "Loaded patch JSON: "@ + path@,
        result is Err ==> *final(doc) == *old(doc) && *final(last) == *old(last) && final(
            toasts)@.last().details == Some(result->Err_0.1@ + "\nPath: "@ + path@),
        result is Err && result->Err_0.0 ==> final(toasts)@.last().message
            == "Patch JSON parse failed"@,
        result is Err && !result->Err_0.0 ==> final(toasts)@.last().message == "Read failed"@,
{
}

/// Both editors of patches say what came of a list that was written.
pub proof fn law_editors_say_what_was_written(
    state: &mut AppState,
    path: &String,
    result: &Result<(), (bool, String)>,
    sequencer: bool,
)
    requires
        sequencer ==> call_ensures(paseq_panel::save_patch_doc, (state, path, result), ()),
        !sequencer ==> call_ensures(
            binary_inspector_panel::save_patch_doc,
            (state, path, result),
            (),
        ),
    ensures
        result is Ok ==> final(state).toasts@.last().message == "Saved patch to "@ + path@,
        result is Err && result->Err_0.0 ==> final(state).toasts@.last().message
            == "Write failed"@,
        result is Err && !result->Err_0.0 ==> final(state).toasts@.last().message
            == "Serialize failed"@,
        result is Ok && sequencer ==> final(state).paseq.last_patch_path == Some(*path),
        result is Ok && !sequencer ==> final(state).binary_inspector.last_patch_path == Some(*path),
        sequencer ==> final(state).binary_inspector == old(state).binary_inspector,
        !sequencer ==> final(state).paseq == old(state).paseq,
{
}

/// Both editors of patches say what came of a deploy, with the group.
pub proof fn law_editors_say_what_was_deployed(
    state: &mut AppState,
    group: &str,
    result: &Result<(), String>,
    sequencer: bool,
)
    requires
        sequencer ==> call_ensures(paseq_panel::apply_editor_patches, (state, group, result), ()),
        !sequencer ==> call_ensures(
            binary_inspector_panel::apply_editor_patches,
            (state, group, result),
            (),
        ),
    ensures
        final(state).toasts@.len() == old(state).toasts@.len() + 1,
        result is Ok ==> final(state).toasts@.last().level == Level::Info,
        result is Err ==> final(state).toasts@.last().level == Level::Error,
        result is Ok && !sequencer ==> final(state).toasts@.last().message
            == "Deployed binary inspector overlay to group "@ + group@ + ". Restart the game."@,
        result is Err && !sequencer ==> final(state).toasts@.last().details == Some(
            result->Err_0@ + "\nGroup: "@ + group@,
        ),
{
}

} // verus!
