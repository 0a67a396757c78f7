//! Laws of the editors of files of the archives: what is loaded, deployed and
//! reported, and which waiting search hit an editor takes.

use vstd::prelude::*;
use crate::paz_file::{
    deploy_request, report_save, visible_files, DeployRequest, LoadError, PazEntry,
};
use crate::rows::law_picked;
use crate::state::{AppState, Level, PendingNav, Toasts};
use crate::text::{has_sub, lowercase};
use crate::ui::paac_panel::PaacFile;
use crate::ui::paatt_panel::PaattFile;
use crate::ui::pappt_panel::PapptFile;
use crate::ui::pamhc_panel::PamhcFile;
use crate::ui::{paac_panel, paatt_panel, pamhc_panel, pappt_panel};

verus! {

broadcast use vstd::seq_lib::group_seq_properties;

/// The files that a filter text keeps have it in their name or their directory,
/// in any letter case; all that have it there are kept, in order; and a blank
/// filter keeps all.
pub proof fn law_kept_files(files: &Vec<PazEntry>, filter: &str, r: Vec<usize>, i: usize, k: int)
    requires
        call_ensures(visible_files, (files, filter), r),
        i < files@.len(),
    ensures
        has_sub(lowercase(files@[i as int].filename@), lowercase(filter@)) || has_sub(
            lowercase(files@[i as int].dir_path@),
            lowercase(filter@),
        ) || lowercase(filter@).len() == 0 ==> r@.contains(i),
        0 <= k < r@.len() ==> r@[k] < files@.len() && (lowercase(filter@).len() == 0 || has_sub(
            lowercase(files@[r@[k] as int].filename@),
            lowercase(filter@),
        ) || has_sub(lowercase(files@[r@[k] as int].dir_path@), lowercase(filter@))),
        forall|p: int, q: int| 0 <= p < q < r@.len() ==> r@[p] < r@[q],
{
    let keep = crate::paz_file::file_kept(files@, filter@);
    assert(files@.len() == files.len());
    law_picked(files@.len(), keep);
    assert(keep(i as int) == (lowercase(filter@).len() == 0 || has_sub(
        lowercase(files@[i as int].filename@),
        lowercase(filter@),
    ) || has_sub(lowercase(files@[i as int].dir_path@), lowercase(filter@))));
}

/// A deploy needs a loaded file of the archives and a game directory; it goes to
/// that directory, with that file, into the overlay group that is set.
pub proof fn law_deploy_request(
    loaded: bool,
    entry: &Option<PazEntry>,
    dir: &Option<String>,
    group: &String,
    r: Option<DeployRequest>,
)
    requires
        call_ensures(deploy_request, (loaded, entry, dir, group), r),
    ensures
        r is Some <==> loaded && entry is Some && dir is Some,
        r is Some ==> Some(r->Some_0.game_dir) == *dir && Some(r->Some_0.entry) == *entry
            && r->Some_0.group == *group,
{
}

/// What is said of a file that was written names its path, and of one that was
/// not, why.
pub proof fn law_save_is_reported(
    toasts: &mut Toasts,
    path: &str,
    result: &Result<(), String>,
)
    requires
        call_ensures(report_save, (toasts, path, result), ()),
    ensures
        final(toasts)@.len() == old(toasts)@.len() + 1,
        result is Ok ==> final(toasts)@.last().level == Level::Info && final(toasts)@.last().message
            == "Wrote "@ + path@,
        result is Err ==> final(toasts)@.last().level == Level::Error && final(toasts)@.last().details == Some(result->Err_0@ + "\nPath: "@ + path@),
{
}

/// A PAAC file of the archives that was read is loaded from its bytes with its
/// entry; one that could not be read leaves all as it was, and that is said.
pub proof fn law_paac_is_loaded_from_the_archives(
    state: &mut AppState,
    entry: &PazEntry,
    result: Result<(PaacFile, Vec<u8>), LoadError>,
)
    requires
        call_ensures(paac_panel::load_paac_from_paz, (state, entry, result), ()),
    ensures
        result is Ok ==> {
            &&& final(state).paac.file == Some(result->Ok_0.0)
            &&& final(state).paac.vanilla_bytes == Some(result->Ok_0.1)
            &&& final(state).paac.current_entry == Some(*entry)
            &&& final(state).paac.overlay_group == old(state).paac.overlay_group
            &&& final(state).toasts@.last().level == Level::Info
        },
        result is Err ==> final(state).paac == old(state).paac && final(state).toasts@.last().level
            == Level::Error,
        final(state).open_tabs == old(state).open_tabs,
{
}

/// A PAAC file on disk that was read is loaded from its bytes and has no entry in
/// the archives.
pub proof fn law_paac_is_loaded_from_disk(
    state: &mut AppState,
    path: &String,
    result: Result<(PaacFile, Vec<u8>), LoadError>,
)
    requires
        call_ensures(paac_panel::load_paac_from_path, (state, path, result), ()),
    ensures
        result is Ok ==> {
            &&& final(state).paac.file == Some(result->Ok_0.0)
            &&& final(state).paac.vanilla_bytes == Some(result->Ok_0.1)
            &&& final(state).paac.current_entry is None
        },
        result is Err ==> final(state).paac == old(state).paac && final(state).toasts@.last().level
            == Level::Error,
{
}

/// The PAAC editor takes a waiting hit in a PAAC file, and no other, and loads its
/// file unless it is loaded already.
pub proof fn law_paac_takes_its_hits(state: &mut AppState, r: Option<PazEntry>)
    requires
        call_ensures(paac_panel::consume_pending_nav, (state,), r),
    ensures
        match old(state).pending_global_nav {
            Some(PendingNav::Paac { paz_group, dir_path, filename }) => {
                &&& final(state).pending_global_nav is None
                &&& r is Some ==> r->Some_0.group@ == paz_group@ && r->Some_0.dir_path@ == dir_path@
                    && r->Some_0.filename@ == filename@
                &&& r is None <==> (old(state).paac.current_entry matches Some(c) && c.group@
                    == paz_group@ && c.dir_path@ == dir_path@ && c.filename@ == filename@)
            },
            _ => r is None && final(state).pending_global_nav == old(state).pending_global_nav,
        },
        final(state).paac == old(state).paac,
{
}

/// A PAAC file is deployed as it stands in the editor: from its entry, to the game
/// directory, into the group that is set there.
pub proof fn law_paac_deploys_its_file(state: &AppState, can: bool, r: Option<DeployRequest>)
    requires
        call_ensures(paac_panel::can_apply, (state,), can),
        call_ensures(paac_panel::apply_request, (state,), r),
    ensures
        can == (r is Some),
        r is Some <==> state.paac.file is Some && state.paac.current_entry is Some
            && state.game_dir is Some,
        r is Some ==> Some(r->Some_0.entry) == state.paac.current_entry && Some(r->Some_0.game_dir)
            == state.game_dir && r->Some_0.group == state.paac.overlay_group,
{
}

/// What is said of a PAAC deploy names the file and the group where it went well,
/// and is an error that says why where it did not; nothing else changes.
pub proof fn law_paac_deploy_is_reported(
    state: &mut AppState,
    request: &DeployRequest,
    result: &Result<(), String>,
)
    requires
        call_ensures(paac_panel::apply_to_game, (state, request, result), ()),
    ensures
        final(state).toasts@.len() == old(state).toasts@.len() + 1,
        result is Ok ==> final(state).toasts@.last().level == Level::Info && final(
            state).toasts@.last().message == "Deployed "@ + request.entry.filename@
            + " as overlay group "@ + request.group@,
        result is Err ==> final(state).toasts@.last().level == Level::Error && final(
            state).toasts@.last().details == Some(
            result->Err_0@ + "\nGroup: "@ + request.group@ + "\nFile: "@ + request.entry.filename@,
        ),
        final(state).paac == old(state).paac,
{
}

/// The PAAC files that were found are offered; without any the list stays.
pub proof fn law_paac_files_are_offered(
    state: &mut AppState,
    found: Option<Result<Vec<PazEntry>, String>>,
)
    requires
        call_ensures(paac_panel::browse_done, (state, found), ()),
    ensures
        found matches Some(Ok(files)) ==> final(state).paac.paz_files == Some(files) && final(
            state).toasts@.last().level == Level::Info,
        found matches Some(Err(_)) ==> final(state).paac.paz_files == old(state).paac.paz_files && final(
            state).toasts@.last().level == Level::Error,
        found is None ==> final(state).paac.paz_files == old(state).paac.paz_files && final(
            state).toasts@.last().level == Level::Warn,
        final(state).paac.file == old(state).paac.file,
{
}

/// A PAATT file of the archives that was read is loaded from its bytes with its
/// entry; one that could not be read leaves all as it was, and that is said.
pub proof fn law_paatt_is_loaded_from_the_archives(
    state: &mut AppState,
    entry: &PazEntry,
    result: Result<(PaattFile, Vec<u8>), LoadError>,
    offsets: Vec<usize>,
)
    requires
        call_ensures(paatt_panel::load_paatt_from_paz, (state, entry, result, offsets), ()),
    ensures
        result is Ok ==> {
            &&& final(state).paatt.file == Some(result->Ok_0.0)
            &&& final(state).paatt.vanilla_bytes == Some(result->Ok_0.1)
            &&& final(state).paatt.current_entry == Some(*entry)
            &&& final(state).paatt.overlay_group == old(state).paatt.overlay_group
            &&& final(state).toasts@.last().level == Level::Info
        },
        result is Err ==> final(state).paatt == old(state).paatt && final(state).toasts@.last().level
            == Level::Error,
        final(state).open_tabs == old(state).open_tabs,
{
}

/// A PAATT file on disk that was read is loaded from its bytes and has no entry in
/// the archives.
pub proof fn law_paatt_is_loaded_from_disk(
    state: &mut AppState,
    path: &String,
    result: Result<(PaattFile, Vec<u8>), LoadError>,
    offsets: Vec<usize>,
)
    requires
        call_ensures(paatt_panel::load_paatt_from_path, (state, path, result, offsets), ()),
    ensures
        result is Ok ==> {
            &&& final(state).paatt.file == Some(result->Ok_0.0)
            &&& final(state).paatt.vanilla_bytes == Some(result->Ok_0.1)
            &&& final(state).paatt.current_entry is None
        },
        result is Err ==> final(state).paatt == old(state).paatt && final(state).toasts@.last().level
            == Level::Error,
{
}

/// The PAATT editor takes a waiting hit in a PAATT file, and no other, and loads its
/// file unless it is loaded already.
pub proof fn law_paatt_takes_its_hits(state: &mut AppState, r: Option<PazEntry>)
    requires
        call_ensures(paatt_panel::consume_pending_nav, (state,), r),
    ensures
        match old(state).pending_global_nav {
            Some(PendingNav::Paatt { paz_group, dir_path, filename }) => {
                &&& final(state).pending_global_nav is None
                &&& r is Some ==> r->Some_0.group@ == paz_group@ && r->Some_0.dir_path@ == dir_path@
                    && r->Some_0.filename@ == filename@
                &&& r is None <==> (old(state).paatt.current_entry matches Some(c) && c.group@
                    == paz_group@ && c.dir_path@ == dir_path@ && c.filename@ == filename@)
            },
            _ => r is None && final(state).pending_global_nav == old(state).pending_global_nav,
        },
        final(state).paatt == old(state).paatt,
{
}

/// A PAATT file is deployed as it stands in the editor: from its entry, to the game
/// directory, into the group that is set there.
pub proof fn law_paatt_deploys_its_file(state: &AppState, can: bool, r: Option<DeployRequest>)
    requires
        call_ensures(paatt_panel::can_apply, (state,), can),
        call_ensures(paatt_panel::apply_request, (state,), r),
    ensures
        can == (r is Some),
        r is Some <==> state.paatt.file is Some && state.paatt.current_entry is Some
            && state.game_dir is Some,
        r is Some ==> Some(r->Some_0.entry) == state.paatt.current_entry && Some(r->Some_0.game_dir)
            == state.game_dir && r->Some_0.group == state.paatt.overlay_group,
{
}

/// What is said of a PAATT deploy names the file and the group where it went well,
/// and is an error that says why where it did not; nothing else changes.
pub proof fn law_paatt_deploy_is_reported(
    state: &mut AppState,
    request: &DeployRequest,
    result: &Result<(), String>,
)
    requires
        call_ensures(paatt_panel::apply_to_game, (state, request, result), ()),
    ensures
        final(state).toasts@.len() == old(state).toasts@.len() + 1,
        result is Ok ==> final(state).toasts@.last().level == Level::Info && final(
            state).toasts@.last().message == "Deployed "@ + request.entry.filename@
            + " as overlay group "@ + request.group@,
        result is Err ==> final(state).toasts@.last().level == Level::Error && final(
            state).toasts@.last().details == Some(
            result->Err_0@ + "\nGroup: "@ + request.group@ + "\nFile: "@ + request.entry.filename@,
        ),
        final(state).paatt == old(state).paatt,
{
}

/// The PAATT files that were found are offered; without any the list stays.
pub proof fn law_paatt_files_are_offered(
    state: &mut AppState,
    found: Option<Result<Vec<PazEntry>, String>>,
)
    requires
        call_ensures(paatt_panel::browse_done, (state, found), ()),
    ensures
        found matches Some(Ok(files)) ==> final(state).paatt.paz_files == Some(files) && final(
            state).toasts@.last().level == Level::Info,
        found matches Some(Err(_)) ==> final(state).paatt.paz_files == old(state).paatt.paz_files && final(
            state).toasts@.last().level == Level::Error,
        found is None ==> final(state).paatt.paz_files == old(state).paatt.paz_files && final(
            state).toasts@.last().level == Level::Warn,
        final(state).paatt.file == old(state).paatt.file,
{
}

/// A PAPPT file of the archives that was read is loaded from its bytes with its
/// entry; one that could not be read leaves all as it was, and that is said.
pub proof fn law_pappt_is_loaded_from_the_archives(
    state: &mut AppState,
    entry: &PazEntry,
    result: Result<(PapptFile, Vec<u8>), LoadError>,
)
    requires
        call_ensures(pappt_panel::load_pappt_from_paz, (state, entry, result), ()),
    ensures
        result is Ok ==> {
            &&& final(state).pappt.file == Some(result->Ok_0.0)
            &&& final(state).pappt.vanilla_bytes == Some(result->Ok_0.1)
            &&& final(state).pappt.current_entry == Some(*entry)
            &&& final(state).pappt.overlay_group == old(state).pappt.overlay_group
            &&& final(state).toasts@.last().level == Level::Info
        },
        result is Err ==> final(state).pappt == old(state).pappt && final(state).toasts@.last().level
            == Level::Error,
        final(state).open_tabs == old(state).open_tabs,
{
}

/// A PAPPT file on disk that was read is loaded from its bytes and has no entry in
/// the archives.
pub proof fn law_pappt_is_loaded_from_disk(
    state: &mut AppState,
    path: &String,
    result: Result<(PapptFile, Vec<u8>), LoadError>,
)
    requires
        call_ensures(pappt_panel::load_pappt_from_path, (state, path, result), ()),
    ensures
        result is Ok ==> {
            &&& final(state).pappt.file == Some(result->Ok_0.0)
            &&& final(state).pappt.vanilla_bytes == Some(result->Ok_0.1)
            &&& final(state).pappt.current_entry is None
        },
        result is Err ==> final(state).pappt == old(state).pappt && final(state).toasts@.last().level
            == Level::Error,
{
}

/// The PAPPT editor takes a waiting hit in a PAPPT file, and no other, and loads its
/// file unless it is loaded already.
pub proof fn law_pappt_takes_its_hits(state: &mut AppState, r: Option<PazEntry>)
    requires
        call_ensures(pappt_panel::consume_pending_nav, (state,), r),
    ensures
        match old(state).pending_global_nav {
            Some(PendingNav::Pappt { paz_group, dir_path, filename }) => {
                &&& final(state).pending_global_nav is None
                &&& r is Some ==> r->Some_0.group@ == paz_group@ && r->Some_0.dir_path@ == dir_path@
                    && r->Some_0.filename@ == filename@
                &&& r is None <==> (old(state).pappt.current_entry matches Some(c) && c.group@
                    == paz_group@ && c.dir_path@ == dir_path@ && c.filename@ == filename@)
            },
            _ => r is None && final(state).pending_global_nav == old(state).pending_global_nav,
        },
        final(state).pappt == old(state).pappt,
{
}

/// A PAPPT file is deployed as it stands in the editor: from its entry, to the game
/// directory, into the group that is set there.
pub proof fn law_pappt_deploys_its_file(state: &AppState, can: bool, r: Option<DeployRequest>)
    requires
        call_ensures(pappt_panel::can_apply, (state,), can),
        call_ensures(pappt_panel::apply_request, (state,), r),
    ensures
        can == (r is Some),
        r is Some <==> state.pappt.file is Some && state.pappt.current_entry is Some
            && state.game_dir is Some,
        r is Some ==> Some(r->Some_0.entry) == state.pappt.current_entry && Some(r->Some_0.game_dir)
            == state.game_dir && r->Some_0.group == state.pappt.overlay_group,
{
}

/// What is said of a PAPPT deploy names the file and the group where it went well,
/// and is an error that says why where it did not; nothing else changes.
pub proof fn law_pappt_deploy_is_reported(
    state: &mut AppState,
    request: &DeployRequest,
    result: &Result<(), String>,
)
    requires
        call_ensures(pappt_panel::apply_to_game, (state, request, result), ()),
    ensures
        final(state).toasts@.len() == old(state).toasts@.len() + 1,
        result is Ok ==> final(state).toasts@.last().level == Level::Info && final(
            state).toasts@.last().message == "Deployed "@ + request.entry.filename@
            + " as overlay group "@ + request.group@,
        result is Err ==> final(state).toasts@.last().level == Level::Error && final(
            state).toasts@.last().details == Some(
            result->Err_0@ + "\nGroup: "@ + request.group@ + "\nFile: "@ + request.entry.filename@,
        ),
        final(state).pappt == old(state).pappt,
{
}

/// The PAPPT files that were found are offered; without any the list stays.
pub proof fn law_pappt_files_are_offered(
    state: &mut AppState,
    found: Option<Result<Vec<PazEntry>, String>>,
)
    requires
        call_ensures(pappt_panel::browse_done, (state, found), ()),
    ensures
        found matches Some(Ok(files)) ==> final(state).pappt.paz_files == Some(files) && final(
            state).toasts@.last().level == Level::Info,
        found matches Some(Err(_)) ==> final(state).pappt.paz_files == old(state).pappt.paz_files && final(
            state).toasts@.last().level == Level::Error,
        found is None ==> final(state).pappt.paz_files == old(state).pappt.paz_files && final(
            state).toasts@.last().level == Level::Warn,
        final(state).pappt.file == old(state).pappt.file,
{
}

/// A PAMHC file of the archives that was read is loaded from its bytes with its
/// entry; one that could not be read leaves all as it was, and that is said.
pub proof fn law_pamhc_is_loaded_from_the_archives(
    state: &mut AppState,
    entry: &PazEntry,
    result: Result<(PamhcFile, Vec<u8>), LoadError>,
)
    requires
        call_ensures(pamhc_panel::load_pamhc_from_paz, (state, entry, result), ()),
    ensures
        result is Ok ==> {
            &&& final(state).pamhc.file == Some(result->Ok_0.0)
            &&& final(state).pamhc.vanilla_bytes == Some(result->Ok_0.1)
            &&& final(state).pamhc.current_entry == Some(*entry)
            &&& final(state).pamhc.overlay_group == old(state).pamhc.overlay_group
            &&& final(state).toasts@.last().level == Level::Info
        },
        result is Err ==> final(state).pamhc == old(state).pamhc && final(state).toasts@.last().level
            == Level::Error,
        final(state).open_tabs == old(state).open_tabs,
{
}

/// A PAMHC file on disk that was read is loaded from its bytes and has no entry in
/// the archives.
pub proof fn law_pamhc_is_loaded_from_disk(
    state: &mut AppState,
    path: &String,
    result: Result<(PamhcFile, Vec<u8>), LoadError>,
)
    requires
        call_ensures(pamhc_panel::load_pamhc_from_path, (state, path, result), ()),
    ensures
        result is Ok ==> {
            &&& final(state).pamhc.file == Some(result->Ok_0.0)
            &&& final(state).pamhc.vanilla_bytes == Some(result->Ok_0.1)
            &&& final(state).pamhc.current_entry is None
        },
        result is Err ==> final(state).pamhc == old(state).pamhc && final(state).toasts@.last().level
            == Level::Error,
{
}

/// The PAMHC editor takes a waiting hit in a PAMHC file, and no other, and loads its
/// file unless it is loaded already.
pub proof fn law_pamhc_takes_its_hits(state: &mut AppState, r: Option<PazEntry>)
    requires
        call_ensures(pamhc_panel::consume_pending_nav, (state,), r),
    ensures
        match old(state).pending_global_nav {
            Some(PendingNav::Pamhc { paz_group, dir_path, filename }) => {
                &&& final(state).pending_global_nav is None
                &&& r is Some ==> r->Some_0.group@ == paz_group@ && r->Some_0.dir_path@ == dir_path@
                    && r->Some_0.filename@ == filename@
                &&& r is None <==> (old(state).pamhc.current_entry matches Some(c) && c.group@
                    == paz_group@ && c.dir_path@ == dir_path@ && c.filename@ == filename@)
            },
            _ => r is None && final(state).pending_global_nav == old(state).pending_global_nav,
        },
        final(state).pamhc == old(state).pamhc,
{
}

/// A PAMHC file is deployed as it stands in the editor: from its entry, to the game
/// directory, into the group that is set there.
pub proof fn law_pamhc_deploys_its_file(state: &AppState, can: bool, r: Option<DeployRequest>)
    requires
        call_ensures(pamhc_panel::can_apply, (state,), can),
        call_ensures(pamhc_panel::apply_request, (state,), r),
    ensures
        can == (r is Some),
        r is Some <==> state.pamhc.file is Some && state.pamhc.current_entry is Some
            && state.game_dir is Some,
        r is Some ==> Some(r->Some_0.entry) == state.pamhc.current_entry && Some(r->Some_0.game_dir)
            == state.game_dir && r->Some_0.group == state.pamhc.overlay_group,
{
}

/// What is said of a PAMHC deploy names the file and the group where it went well,
/// and is an error that says why where it did not; nothing else changes.
pub proof fn law_pamhc_deploy_is_reported(
    state: &mut AppState,
    request: &DeployRequest,
    result: &Result<(), String>,
)
    requires
        call_ensures(pamhc_panel::apply_to_game, (state, request, result), ()),
    ensures
        final(state).toasts@.len() == old(state).toasts@.len() + 1,
        result is Ok ==> final(state).toasts@.last().level == Level::Info && final(
            state).toasts@.last().message == "Deployed "@ + request.entry.filename@
            + " as overlay group "@ + request.group@,
        result is Err ==> final(state).toasts@.last().level == Level::Error && final(
            state).toasts@.last().details == Some(
            result->Err_0@ + "\nGroup: "@ + request.group@ + "\nFile: "@ + request.entry.filename@,
        ),
        final(state).pamhc == old(state).pamhc,
{
}

/// The PAMHC files that were found are offered; without any the list stays.
pub proof fn law_pamhc_files_are_offered(
    state: &mut AppState,
    found: Option<Result<Vec<PazEntry>, String>>,
)
    requires
        call_ensures(pamhc_panel::browse_done, (state, found), ()),
    ensures
        found matches Some(Ok(files)) ==> final(state).pamhc.paz_files == Some(files) && final(
            state).toasts@.last().level == Level::Info,
        found matches Some(Err(_)) ==> final(state).pamhc.paz_files == old(state).pamhc.paz_files && final(
            state).toasts@.last().level == Level::Error,
        found is None ==> final(state).pamhc.paz_files == old(state).pamhc.paz_files && final(
            state).toasts@.last().level == Level::Warn,
        final(state).pamhc.file == old(state).pamhc.file,
{
}

} // verus!
