//! The editor of localized texts.

use vstd::prelude::*;
use crate::digits::{dec, dec_text, dec_usize};
use crate::rows::{find_position, law_picked_all, picked, position_of};
use crate::state::{failure_note, info_note, warn_note, AppState, Note, PendingNav};
use crate::text::{concat2, has_sub, lower_contains, lowercase, same};

verus! {

broadcast use vstd::seq_lib::group_seq_properties;

/// The overlay group that texts are saved to.
pub const PALOC_OVERLAY_GROUP: &'static str = "0064";

/// A localized text.
#[derive(Debug)]
pub struct PalocEntry {
    pub unk_id: u64,
    pub string_key: String,
    pub string_value: String,
}

/// The texts of a language, as they are edited.
#[derive(Debug)]
pub struct PalocSession {
    pub language: String,
    pub entries: Vec<PalocEntry>,
    /// The texts as they were loaded.
    pub vanilla: Vec<PalocEntry>,
    pub filter: String,
    /// The entry to scroll to when the table is drawn next.
    pub pending_scroll_row: Option<usize>,
}

/// The filter text stands in the key or the value.
pub open spec fn kept(e: PalocEntry, filter: Seq<char>) -> bool {
    let f = lowercase(filter);
    filter.len() == 0 || has_sub(lowercase(e.string_key@), f) || has_sub(
        lowercase(e.string_value@),
        f,
    )
}

/// An entry differs from what was loaded.
pub open spec fn changed(s: PalocSession, i: int) -> bool {
    i < s.vanilla@.len() && s.entries@[i].string_value@ != s.vanilla@[i].string_value@
}

/// The number of changed entries among the first `n`.
pub open spec fn changes_upto(s: PalocSession, n: nat) -> nat
    decreases n,
{
    if n == 0 {
        0
    } else {
        changes_upto(s, (n - 1) as nat) + (if changed(s, n - 1) {
            1nat
        } else {
            0
        })
    }
}

/// The entries that are shown.
pub open spec fn shown(s: PalocSession) -> Seq<usize> {
    picked(s.entries@.len(), |i: int| kept(s.entries@[i], s.filter@))
}

impl PalocSession {
    /// Whether the filter text stands in the key or the value of an entry.
    pub fn matches_filter(&self, e: &PalocEntry) -> (r: bool)
        ensures
            r == kept(*e, self.filter@),
    {
        if self.filter.as_str().is_empty() {
            return true;
        }
        let f = self.filter.as_str().to_lowercase();
        lower_contains(e.string_key.as_str(), f.as_str()) || lower_contains(
            e.string_value.as_str(),
            f.as_str(),
        )
    }

    /// Whether an entry differs from what was loaded.
    pub fn is_changed(&self, i: usize) -> (r: bool)
        requires
            i < self.entries@.len(),
        ensures
            r == changed(*self, i as int),
    {
        i < self.vanilla.len() && !same(
            self.entries[i].string_value.as_str(),
            self.vanilla[i].string_value.as_str(),
        )
    }

    /// The number of entries that differ from what was loaded.
    pub fn change_count(&self) -> (r: usize)
        ensures
            r == changes_upto(*self, self.entries@.len()),
    {
        let mut n: usize = 0;
        let mut i: usize = 0;
        while i < self.entries.len()
            invariant
                0 <= i <= self.entries.len(),
                n <= i,
                n == changes_upto(*self, i as nat),
            decreases self.entries.len() - i,
        {
            if self.is_changed(i) {
                n = n + 1;
            }
            i = i + 1;
        }
        n
    }

    /// The entries that are shown.
    pub fn visible_rows(&self) -> (r: Vec<usize>)
        ensures
            r@ == shown(*self),
    {
        let ghost keep = |i: int| kept(self.entries@[i], self.filter@);
        let mut out: Vec<usize> = Vec::new();
        let mut i: usize = 0;
        while i < self.entries.len()
            invariant
                0 <= i <= self.entries.len(),
                keep == (|i: int| kept(self.entries@[i], self.filter@)),
                out@ == picked(i as nat, keep),
            decreases self.entries.len() - i,
        {
            if self.matches_filter(&self.entries[i]) {
                out.push(i);
            }
            i = i + 1;
        }
        out
    }

    /// Takes the entry to scroll to, and gives its row among those that are shown.
    pub fn take_scroll_row(&mut self, visible: &Vec<usize>) -> (r: Option<usize>)
        ensures
            match (old(self).pending_scroll_row, r) {
                (Some(e), Some(row)) => position_of(visible@, e) == Some(row as int),
                (Some(e), None) => position_of(visible@, e) is None,
                (None, row) => row is None,
            },
            *final(self) == (PalocSession { pending_scroll_row: None, ..*old(self) }),
    {
        let target = self.pending_scroll_row;
        self.pending_scroll_row = None;
        match target {
            Some(e) => find_position(visible, e),
            None => None,
        }
    }

    /// The line on the number of entries.
    pub fn count_line(&self, visible: usize) -> (r: String)
        ensures
            r@ == if self.filter@.len() == 0 {
                dec(self.entries@.len()) + " entries"@
            } else {
                dec(visible as nat) + " of "@ + dec(self.entries@.len()) + " entries"@
            },
    {
        if self.filter.as_str().is_empty() {
            concat2(dec_usize(self.entries.len()).as_str(), " entries")
        } else {
            let mut s = dec_usize(visible);
            s.push_str(" of ");
            s.push_str(dec_usize(self.entries.len()).as_str());
            s.push_str(" entries");
            s
        }
    }
}

/// The line on the number of changes.
pub fn changes_line(n: usize) -> (r: String)
    ensures
        r@ == if n == 0 {
            "no changes"@
        } else {
            dec(n as nat) + " changes"@
        },
{
    if n == 0 {
        "no changes".to_owned()
    } else {
        concat2(dec_usize(n).as_str(), " changes")
    }
}

/// Nothing counts as changed exactly where every text is as it was loaded.
pub proof fn law_no_changes(s: PalocSession, n: nat)
    requires
        n <= s.entries@.len(),
    ensures
        changes_upto(s, n) == 0 <==> forall|i: int| 0 <= i < n ==> !changed(s, i),
        changes_upto(s, n) <= n,
    decreases n,
{
    if n > 0 {
        law_no_changes(s, (n - 1) as nat);
    }
}

/// Without a filter text every entry is shown, each in the row of its own number.
pub proof fn law_no_filter_shows_all(s: PalocSession, e: int)
    requires
        s.filter@.len() == 0,
        0 <= e < s.entries@.len() <= usize::MAX,
    ensures
        shown(s).len() == s.entries@.len(),
        position_of(shown(s), e as usize) == Some(e),
{
    let keep = |i: int| kept(s.entries@[i], s.filter@);
    law_picked_all(s.entries@.len(), keep);
    lemma_position_in_range(0, s.entries@.len() as int, e);
    assert(shown(s) =~= Seq::new((s.entries@.len() - 0) as nat, |i: int| (0 + i) as usize));
}

proof fn lemma_position_in_range(lo: int, hi: int, e: int)
    requires
        0 <= lo <= e < hi <= usize::MAX,
    ensures
        position_of(Seq::new((hi - lo) as nat, |i: int| (lo + i) as usize), e as usize) == Some(
            e - lo,
        ),
    decreases e - lo,
{
    let v = Seq::new((hi - lo) as nat, |i: int| (lo + i) as usize);
    if lo < e {
        assert(v.drop_first() =~= Seq::new(
            (hi - (lo + 1)) as nat,
            |i: int| (lo + 1 + i) as usize,
        ));
        lemma_position_in_range(lo + 1, hi, e);
        assert(v[0] == lo as usize);
    } else {
        assert(v[0] == e as usize);
    }
}

/// What a search hit asks of the editor.
#[derive(Debug)]
pub struct PalocNav {
    pub lang: String,
    pub hash_id: u64,
    /// The texts of the language are to be loaded first.
    pub needs_load: bool,
}

/// Takes a waiting search hit for this editor out of the queue, and goes to its
/// language. A hit for another editor is left.
pub fn consume_pending_nav(state: &mut AppState) -> (r: Option<PalocNav>)
    ensures
        match old(state).pending_global_nav {
            Some(PendingNav::Paloc { lang, hash_id }) => {
                &&& r == Some(
                    PalocNav {
                        lang,
                        hash_id,
                        needs_load: match old(state).paloc_session {
                            Some(s) => s.language@ != lang@,
                            None => true,
                        },
                    },
                )
                &&& *final(state) == (AppState {
                    pending_global_nav: None,
                    paloc_language: lang,
                    ..*old(state)
                })
            },
            _ => r is None && *final(state) == *old(state),
        },
{
    let (lang, hash_id) = match &state.pending_global_nav {
        Some(PendingNav::Paloc { lang, hash_id }) => (lang.clone(), *hash_id),
        _ => {
            return None;
        },
    };
    state.pending_global_nav = None;
    state.paloc_language = lang.clone();
    let needs_load = match &state.paloc_session {
        Some(s) => !same(s.language.as_str(), lang.as_str()),
        None => true,
    };
    Some(PalocNav { lang, hash_id, needs_load })
}

/// The first entry with an id stands at `i`.
pub open spec fn first_with_id(v: Seq<PalocEntry>, id: u64, i: int) -> bool {
    0 <= i < v.len() && v[i].unk_id == id && forall|j: int| 0 <= j < i ==> (#[trigger] v[j]).unk_id
        != id
}

/// No entry has an id.
pub open spec fn no_id(v: Seq<PalocEntry>, id: u64) -> bool {
    forall|j: int| 0 <= j < v.len() ==> (#[trigger] v[j]).unk_id != id
}

fn find_id(v: &Vec<PalocEntry>, id: u64) -> (r: Option<usize>)
    ensures
        match r {
            Some(i) => first_with_id(v@, id, i as int),
            None => no_id(v@, id),
        },
{
    let mut i: usize = 0;
    while i < v.len()
        invariant
            0 <= i <= v.len(),
            forall|j: int| 0 <= j < i ==> (#[trigger] v@[j]).unk_id != id,
        decreases v.len() - i,
    {
        if v[i].unk_id == id {
            return Some(i);
        }
        i = i + 1;
    }
    None
}

/// The editor went to the entry of a search hit: the filter is cleared, and the
/// entry is the one to scroll to; where there is none, that is said.
pub open spec fn nav_done(
    before: AppState,
    after: AppState,
    lang: Seq<char>,
    hash_id: u64,
) -> bool {
    match (before.paloc_session, after.paloc_session) {
        (Some(a), Some(b)) => {
            &&& b.filter@.len() == 0
            &&& b == (PalocSession {
                filter: b.filter,
                pending_scroll_row: b.pending_scroll_row,
                ..a
            })
            &&& after == (AppState {
                toasts: after.toasts,
                paloc_session: after.paloc_session,
                ..before
            })
            &&& if no_id(a.entries@, hash_id) {
                &&& b.pending_scroll_row == a.pending_scroll_row
                &&& after.toasts@ == before.toasts@.push(
                    warn_note(
                        "PALOC["@ + lang + "]: id "@ + dec(hash_id as nat)
                            + " not found after load."@,
                    ),
                )
            } else {
                &&& b.pending_scroll_row matches Some(i) && first_with_id(
                    a.entries@,
                    hash_id,
                    i as int,
                )
                &&& after.toasts@ == before.toasts@
            }
        },
        _ => after == before,
    }
}

/// Goes to the entry of a search hit, once the texts are loaded.
pub fn finish_nav(state: &mut AppState, lang: &str, hash_id: u64)
    ensures
        nav_done(*old(state), *final(state), lang@, hash_id),
{
    let row = match &mut state.paloc_session {
        Some(s) => {
            s.filter = String::new();
            let row = find_id(&s.entries, hash_id);
            if row.is_some() {
                s.pending_scroll_row = row;
            }
            row
        },
        None => {
            return;
        },
    };
    if row.is_none() {
        let mut m = "PALOC[".to_owned();
        m.push_str(lang);
        m.push_str("]: id ");
        m.push_str(dec_text(hash_id).as_str());
        m.push_str(" not found after load.");
        state.toasts.warn(m.as_str());
    } else {
        assert(!no_id(old(state).paloc_session->Some_0.entries@, hash_id)) by {
            let e = old(state).paloc_session->Some_0.entries@;
            assert(e[row->Some_0 as int].unk_id == hash_id);
        }
    }
}

/// The row that the table scrolls to after a search hit was followed is that of
/// the first entry with its id.
pub proof fn law_nav_row_is_shown(before: AppState, after: AppState, lang: Seq<char>, hash_id: u64)
    requires
        nav_done(before, after, lang, hash_id),
        before.paloc_session is Some,
        after.paloc_session is Some,
        before.paloc_session->Some_0.entries@.len() <= usize::MAX,
        !no_id(before.paloc_session->Some_0.entries@, hash_id),
    ensures
        ({
            let s = after.paloc_session->Some_0;
            &&& s.pending_scroll_row matches Some(i) && position_of(shown(s), i) == Some(i as int)
                && first_with_id(before.paloc_session->Some_0.entries@, hash_id, i as int)
        }),
{
    let s = after.paloc_session->Some_0;
    let i = s.pending_scroll_row->Some_0;
    law_no_filter_shows_all(s, i as int);
}

/// The game directory and the language to load. Where no directory is set, that
/// is said.
pub fn load_request(state: &mut AppState) -> (r: Option<(String, String)>)
    ensures
        match old(state).game_dir {
            Some(d) => r == Some((d, old(state).paloc_language)) && *final(state) == *old(state),
            None => {
                &&& r is None
                &&& final(state).status@ == "Set game dir first (File -> Set Game Dir)"@
                &&& final(state).toasts@ == old(state).toasts@.push(
                    warn_note("Set game dir first"@),
                )
                &&& *final(state) == (AppState {
                    status: final(state).status,
                    toasts: final(state).toasts,
                    ..*old(state)
                })
            },
        },
{
    match &state.game_dir {
        Some(d) => Some((d.clone(), state.paloc_language.clone())),
        None => {
            state.status = "Set game dir first (File -> Set Game Dir)".to_owned();
            state.toasts.warn("Set game dir first");
            None
        },
    }
}

/// Takes over the texts of a language, or says why they could not be loaded.
pub fn load_paloc(state: &mut AppState, lang: &str, result: Result<PalocSession, String>)
    ensures
        match result {
            Ok(s) => {
                let n = dec(s.entries@.len());
                &&& final(state).status@ == "Loaded paloc "@ + lang@ + ": "@ + n + " entries"@
                &&& final(state).toasts@ == old(state).toasts@.push(
                    info_note("Loaded paloc "@ + lang@ + " ("@ + n + " entries)"@),
                )
                &&& *final(state) == (AppState {
                    status: final(state).status,
                    toasts: final(state).toasts,
                    paloc_session: Some(s),
                    ..*old(state)
                })
            },
            Err(e) => {
                &&& final(state).status@ == "Paloc load error: "@ + e@
                &&& final(state).toasts@ == old(state).toasts@.push(
                    failure_note("Failed to load paloc "@ + lang@, e@),
                )
                &&& *final(state) == (AppState {
                    status: final(state).status,
                    toasts: final(state).toasts,
                    ..*old(state)
                })
            },
        },
{
    match result {
        Ok(s) => {
            let n = dec_usize(s.entries.len());
            let mut line = "Loaded paloc ".to_owned();
            line.push_str(lang);
            let mut note = line.clone();
            line.push_str(": ");
            line.push_str(n.as_str());
            line.push_str(" entries");
            note.push_str(" (");
            note.push_str(n.as_str());
            note.push_str(" entries)");
            state.status = line;
            state.toasts.info(note.as_str());
            state.paloc_session = Some(s);
        },
        Err(e) => {
            state.status = concat2("Paloc load error: ", e.as_str());
            state.toasts.error_with_details(
                concat2("Failed to load paloc ", lang).as_str(),
                e.as_str(),
            );
        },
    }
}

/// What is said instead of saving: a directory, or the texts, are missing.
pub open spec fn save_refusal(s: AppState) -> Option<Seq<char>> {
    if s.game_dir is None {
        Some("Set game dir first"@)
    } else if s.paloc_session is None {
        Some("No paloc loaded"@)
    } else {
        None
    }
}

/// The game directory to save the texts to. Where it or the texts are missing,
/// that is said.
pub fn save_request(state: &mut AppState) -> (r: Option<String>)
    ensures
        match save_refusal(*old(state)) {
            None => r == old(state).game_dir && *final(state) == *old(state),
            Some(m) => {
                &&& r is None
                &&& final(state).status@ == m
                &&& final(state).toasts@ == old(state).toasts@.push(warn_note(m))
                &&& *final(state) == (AppState {
                    status: final(state).status,
                    toasts: final(state).toasts,
                    ..*old(state)
                })
            },
        },
{
    match &state.game_dir {
        Some(d) => if state.paloc_session.is_some() {
            Some(d.clone())
        } else {
            state.status = "No paloc loaded".to_owned();
            state.toasts.warn("No paloc loaded");
            None
        },
        None => {
            state.status = "Set game dir first".to_owned();
            state.toasts.warn("Set game dir first");
            None
        },
    }
}

/// What is said when texts were saved, or could not be.
pub open spec fn save_note(language: Seq<char>, dir: Seq<char>, result: Result<(), String>) -> (
    Seq<char>,
    Note,
) {
    match result {
        Ok(_) => {
            let m = "Saved paloc "@ + language + " overlay to "@ + dir + "/"@
                + PALOC_OVERLAY_GROUP@;
            (m, info_note(m))
        },
        Err(e) => ("Paloc save error: "@ + e@, failure_note("Paloc save failed"@, e@)),
    }
}

/// Says how the saving of the texts went.
pub fn save_paloc(state: &mut AppState, dir: &str, result: &Result<(), String>)
    ensures
        match old(state).paloc_session {
            Some(s) => {
                &&& final(state).status@ == save_note(s.language@, dir@, *result).0
                &&& final(state).toasts@ == old(state).toasts@.push(
                    save_note(s.language@, dir@, *result).1,
                )
                &&& *final(state) == (AppState {
                    status: final(state).status,
                    toasts: final(state).toasts,
                    ..*old(state)
                })
            },
            None => *final(state) == *old(state),
        },
{
    match &state.paloc_session {
        Some(s) => match result {
            Ok(_) => {
                let mut m = "Saved paloc ".to_owned();
                m.push_str(s.language.as_str());
                m.push_str(" overlay to ");
                m.push_str(dir);
                m.push_str("/");
                m.push_str(PALOC_OVERLAY_GROUP);
                state.toasts.info(m.as_str());
                state.status = m;
            },
            Err(e) => {
                state.status = concat2("Paloc save error: ", e.as_str());
                state.toasts.error_with_details("Paloc save failed", e.as_str());
            },
        },
        None => {},
    }
}

} // verus!
