//! The mod library and its profiles: named, ordered selections of mods.

use vstd::prelude::*;
use crate::digits::{dec, dec_usize, law_print_parse};
use crate::state::{failure_note, info_note, warn_note, AppState, MainView, Note, Toasts};
use crate::text::{concat2, concat3, join, joined, same, trim, trimmed, views};

verus! {

broadcast use vstd::seq_lib::group_seq_properties;

/// A mod in the library.
#[derive(Debug)]
pub struct LibraryMod {
    pub path: String,
    pub name: String,
    pub author: Option<String>,
    pub version: Option<String>,
    pub change_count: usize,
    pub tables_touched: Vec<String>,
}

/// A named selection of mods, by their paths, the first with the highest priority.
#[derive(Debug)]
pub struct Profile {
    pub name: String,
    pub active_mods: Vec<String>,
}

/// What a profile says.
pub struct Selection {
    pub name: Seq<char>,
    pub mods: Seq<Seq<char>>,
}

impl View for Profile {
    type V = Selection;

    open spec fn view(&self) -> Selection {
        Selection { name: self.name@, mods: views(self.active_mods@) }
    }
}

/// The profiles, and the name of the one in use.
#[derive(Debug)]
pub struct ProfileStore {
    pub profiles: Vec<Profile>,
    pub active_profile: Option<String>,
}

impl ProfileStore {
    /// As it is when the workbench starts.
    pub open spec fn is_fresh(&self) -> bool {
        &&& self.profiles@.len() == 0
        &&& self.active_profile is None
    }
}

impl Default for ProfileStore {
    fn default() -> (r: Self)
        ensures
            r.is_fresh(),
    {
        ProfileStore { profiles: Vec::new(), active_profile: None }
    }
}

/// What the profiles say.
pub struct Store {
    pub profiles: Seq<Selection>,
    pub active: Option<Seq<char>>,
}

/// What a list of profiles says.
pub open spec fn selections(v: Seq<Profile>) -> Seq<Selection> {
    v.map_values(|p: Profile| p@)
}

impl View for ProfileStore {
    type V = Store;

    open spec fn view(&self) -> Store {
        Store {
            profiles: selections(self.profiles@),
            active: match self.active_profile {
                Some(n) => Some(n@),
                None => None,
            },
        }
    }
}

/// The position of the first profile with a name.
pub open spec fn profile_named(v: Seq<Selection>, name: Seq<char>) -> Option<int>
    decreases v.len(),
{
    if v.len() == 0 {
        None
    } else if v[0].name == name {
        Some(0)
    } else {
        match profile_named(v.drop_first(), name) {
            Some(i) => Some(i + 1),
            None => None,
        }
    }
}

proof fn lemma_profile_named(v: Seq<Selection>, name: Seq<char>)
    ensures
        match profile_named(v, name) {
            Some(i) => 0 <= i < v.len() && v[i].name == name,
            None => forall|j: int| 0 <= j < v.len() ==> (#[trigger] v[j]).name != name,
        },
    decreases v.len(),
{
    if v.len() > 0 && v[0].name != name {
        lemma_profile_named(v.drop_first(), name);
        if profile_named(v, name) is None {
            assert forall|j: int| 0 <= j < v.len() implies (#[trigger] v[j]).name != name by {
                if j > 0 {
                    assert(v.drop_first()[j - 1] == v[j]);
                }
            }
        }
    }
}

impl Store {
    /// The position of the profile in use.
    pub open spec fn in_use(self) -> Option<int> {
        match self.active {
            Some(n) => profile_named(self.profiles, n),
            None => None,
        }
    }
}

/// The name that is tried at the `k`th attempt to find a free one.
pub open spec fn numbered(base: Seq<char>, k: nat) -> Seq<char> {
    if k <= 1 {
        base
    } else {
        base + " "@ + dec(k)
    }
}

/// Some profile has a name.
pub open spec fn name_taken(v: Seq<Selection>, name: Seq<char>) -> bool {
    profile_named(v, name) is Some
}

/// The first name that no profile has, tried in order: the name itself, and
/// then with a number from two on.
pub open spec fn is_free_name(v: Seq<Selection>, base: Seq<char>, k: nat) -> bool {
    &&& k >= 1
    &&& !name_taken(v, numbered(base, k))
    &&& forall|j: nat| 1 <= j < k ==> name_taken(v, #[trigger] numbered(base, j))
}

proof fn lemma_numbered_distinct(base: Seq<char>, i: nat, j: nat)
    requires
        1 <= i < j,
    ensures
        numbered(base, i) != numbered(base, j),
{
    reveal_strlit(" ");
    if i == 1 {
        crate::digits::law_digits_read_back(j, 10, false);
        assert(numbered(base, j).len() > base.len());
    } else {
        law_print_parse(i, 10, false, j);
        law_print_parse(j, 10, false, j);
        if numbered(base, i) == numbered(base, j) {
            let n = base.len() as int + 1;
            assert(numbered(base, i).skip(n) =~= dec(i));
            assert(numbered(base, j).skip(n) =~= dec(j));
        }
    }
}

/// Among more names than there are profiles one is free.
proof fn lemma_some_name_free(v: Seq<Selection>, base: Seq<char>)
    ensures
        exists|k: nat| 1 <= k <= v.len() + 1 && !name_taken(v, #[trigger] numbered(base, k)),
{
    let m = v.len() + 1;
    if forall|k: nat| 1 <= k <= m ==> name_taken(v, #[trigger] numbered(base, k)) {
        let tried = Seq::new(m, |i: int| numbered(base, (i + 1) as nat));
        let names = v.map_values(|p: Selection| p.name);
        assert(tried.no_duplicates()) by {
            assert forall|i: int, j: int| 0 <= i < j < tried.len() implies tried[i] != tried[j] by {
                lemma_numbered_distinct(base, (i + 1) as nat, (j + 1) as nat);
            }
        }
        tried.unique_seq_to_set();
        names.lemma_cardinality_of_set();
        assert forall|x: Seq<char>| tried.to_set().contains(x) implies names.to_set().contains(
            x,
        ) by {
            let i = choose|i: int| 0 <= i < tried.len() && tried[i] == x;
            assert(name_taken(v, numbered(base, (i + 1) as nat)));
            lemma_profile_named(v, x);
            let p = profile_named(v, x)->Some_0;
            assert(names[p] == x);
        }
        vstd::set_lib::lemma_len_subset(tried.to_set(), names.to_set());
        assert(false);
    }
}

/// The profiles with one more at the end.
pub open spec fn with_profile(v: Seq<Selection>, name: Seq<char>) -> Seq<Selection> {
    v.push(Selection { name, mods: Seq::empty() })
}

/// No two profiles have one name.
pub open spec fn names_differ(v: Seq<Selection>) -> bool {
    forall|i: int, j: int|
        0 <= i < j < v.len() ==> (#[trigger] v[i]).name != (#[trigger] v[j]).name
}

impl ProfileStore {
    fn find(&self, name: &str) -> (r: Option<usize>)
        ensures
            match r {
                Some(i) => profile_named(self@.profiles, name@) == Some(i as int) && i
                    < self.profiles.len(),
                None => profile_named(self@.profiles, name@) is None,
            },
    {
        let v = &self.profiles;
        let ghost s = selections(v@);
        let mut i: usize = 0;
        assert(s.skip(0) =~= s);
        while i < v.len()
            invariant
                0 <= i <= v.len(),
                s == selections(v@),
                v == &self.profiles,
                profile_named(s, name@) == match profile_named(s.skip(i as int), name@) {
                    Some(k) => Some(k + i),
                    None => None,
                },
            decreases v.len() - i,
        {
            assert(s.skip(i as int).drop_first() =~= s.skip(i + 1));
            assert(s.skip(i as int)[0] == v@[i as int]@);
            if same(v[i].name.as_str(), name) {
                return Some(i);
            }
            i = i + 1;
        }
        None
    }

    /// Whether there is a profile with a name.
    pub fn has(&self, name: &str) -> (r: bool)
        ensures
            r == name_taken(self@.profiles, name@),
    {
        self.find(name).is_some()
    }

    /// The position of the profile in use.
    pub fn active_index(&self) -> (r: Option<usize>)
        ensures
            match r {
                Some(i) => self@.in_use() == Some(i as int) && i < self.profiles.len(),
                None => self@.in_use() is None,
            },
    {
        match &self.active_profile {
            Some(n) => self.find(n.as_str()),
            None => None,
        }
    }

    /// Adds an empty profile under the first free name.
    pub fn add_unique(&mut self, base: &str) -> (r: String)
        requires
            old(self).profiles@.len() < usize::MAX - 1,
        ensures
            exists|k: nat| #[trigger] is_free_name(old(self)@.profiles, base@, k) && r@ == numbered(
                base@,
                k,
            ),
            final(self)@ == (Store {
                profiles: with_profile(old(self)@.profiles, r@),
                ..old(self)@
            }),
    {
        let ghost v = self@.profiles;
        proof {
            lemma_some_name_free(v, base@);
        }
        let ghost free = choose|k: nat|
            1 <= k <= v.len() + 1 && !name_taken(v, #[trigger] numbered(base@, k));
        let mut name = base.to_owned();
        let mut k: usize = 1;
        while self.has(name.as_str())
            invariant
                v == self@.profiles,
                v.len() == self.profiles@.len(),
                self.profiles@.len() < usize::MAX - 1,
                *self == *old(self),
                1 <= k <= free <= v.len() + 1,
                !name_taken(v, numbered(base@, free)),
                name@ == numbered(base@, k as nat),
                forall|j: nat| 1 <= j < k ==> name_taken(v, #[trigger] numbered(base@, j)),
            decreases free - k,
        {
            assert(k < free);
            k = k + 1;
            let mut s = base.to_owned();
            s.push_str(" ");
            s.push_str(dec_usize(k).as_str());
            name = s;
        }
        proof {
            assert(is_free_name(v, base@, k as nat));
        }
        let ghost p0 = self.profiles@;
        let fresh = Profile { name: name.clone(), active_mods: Vec::new() };
        let ghost f = fresh@;
        self.profiles.push(fresh);
        assert(views(Seq::<String>::empty()) =~= Seq::empty());
        assert(selections(self.profiles@) =~= selections(p0).push(f));
        assert(f == (Selection { name: name@, mods: Seq::empty() })) by {
            assert(f.mods =~= Seq::empty());
        }
        name
    }

    /// Removes the first profile with a name; where it was the one in use, none is.
    pub fn remove(&mut self, name: &str) -> (r: bool)
        ensures
            r == name_taken(old(self)@.profiles, name@),
            !r ==> *final(self) == *old(self),
            r ==> final(self)@ == (Store {
                profiles: old(self)@.profiles.remove(
                    profile_named(old(self)@.profiles, name@)->Some_0,
                ),
                active: if old(self)@.active == Some(name@) {
                    None
                } else {
                    old(self)@.active
                },
            }),
    {
        match self.find(name) {
            None => false,
            Some(i) => {
                let ghost p0 = self.profiles@;
                let _gone = self.profiles.remove(i);
                assert(selections(self.profiles@) =~= selections(p0).remove(i as int));
                let was_active = match &self.active_profile {
                    Some(n) => same(n.as_str(), name),
                    None => false,
                };
                if was_active {
                    self.active_profile = None;
                }
                true
            },
        }
    }

    /// Renames the first profile with a name, unless another one has the new
    /// name. The one in use stays in use.
    pub fn rename(&mut self, from: &str, to: &str) -> (r: bool)
        ensures
            r == can_rename(old(self)@.profiles, from@, to@),
            !r ==> *final(self) == *old(self),
            r ==> {
                let i = profile_named(old(self)@.profiles, from@)->Some_0;
                final(self)@ == (Store {
                    profiles: old(self)@.profiles.update(
                        i,
                        Selection { name: to@, ..old(self)@.profiles[i] },
                    ),
                    active: if old(self)@.active == Some(from@) {
                        Some(to@)
                    } else {
                        old(self)@.active
                    },
                })
            },
    {
        let i = match self.find(from) {
            None => {
                return false;
            },
            Some(i) => i,
        };
        match self.find(to) {
            Some(_) => {
                if !same(from, to) {
                    return false;
                }
            },
            None => {},
        }
        let ghost p0 = self.profiles@;
        self.profiles[i].name = to.to_owned();
        assert(selections(self.profiles@) =~= selections(p0).update(
            i as int,
            Selection { name: to@, ..p0[i as int]@ },
        ));
        let was_active = match &self.active_profile {
            Some(n) => same(n.as_str(), from),
            None => false,
        };
        if was_active {
            self.active_profile = Some(to.to_owned());
        }
        true
    }
}

/// A profile can be renamed: it is there, and the new name is free or its own.
pub open spec fn can_rename(v: Seq<Selection>, from: Seq<char>, to: Seq<char>) -> bool {
    name_taken(v, from) && (!name_taken(v, to) || from == to)
}

/// A change to the profiles that is to be saved.
#[derive(Debug)]
pub enum StoreChange {
    Created(String),
    Deleted(String),
    Switched,
    /// A mod, by its name, was added to the profile in use.
    Added(String),
    Removed,
    Reordered,
    Renamed,
    /// A mod that left the library was dropped from the profiles.
    EntryGone,
}

/// What is said when a change was saved, or could not be.
pub open spec fn save_note(c: StoreChange, result: Result<(), String>) -> Option<Note> {
    match (c, result) {
        (StoreChange::Created(n), Ok(_)) => Some(info_note("Created profile '"@ + n@ + "'"@)),
        (StoreChange::Created(_), Err(e)) => Some(
            failure_note("Failed to save profile store"@, e@),
        ),
        (StoreChange::Deleted(n), Ok(_)) => Some(info_note("Deleted profile '"@ + n@ + "'"@)),
        (StoreChange::Deleted(_), Err(e)) => Some(
            warn_note("Profile removed but save failed: "@ + e@),
        ),
        (StoreChange::Switched, Err(e)) => Some(
            warn_note("Switched profile but save failed: "@ + e@),
        ),
        (StoreChange::Added(n), Err(e)) => Some(
            warn_note("Added '"@ + n@ + "' but save failed: "@ + e@),
        ),
        (StoreChange::Removed, Err(e)) => Some(warn_note("Removed but save failed: "@ + e@)),
        (StoreChange::Reordered, Err(e)) => Some(warn_note("Reordered but save failed: "@ + e@)),
        (StoreChange::Renamed, Err(e)) => Some(warn_note("Renamed but save failed: "@ + e@)),
        (StoreChange::EntryGone, Err(e)) => Some(
            warn_note("Library entry removed but profiles save failed: "@ + e@),
        ),
        (_, Ok(_)) => None,
    }
}

/// Says how the saving of a change went.
pub fn store_saved(state: &mut AppState, change: &StoreChange, result: &Result<(), String>)
    ensures
        final(state).toasts@ == match save_note(*change, *result) {
            Some(n) => old(state).toasts@.push(n),
            None => old(state).toasts@,
        },
        *final(state) == (AppState { toasts: final(state).toasts, ..*old(state) }),
{
    match result {
        Ok(_) => match change {
            StoreChange::Created(n) => {
                let m = concat3("Created profile '", n.as_str(), "'");
                state.toasts.info(m.as_str());
            },
            StoreChange::Deleted(n) => {
                let m = concat3("Deleted profile '", n.as_str(), "'");
                state.toasts.info(m.as_str());
            },
            _ => {},
        },
        Err(e) => match change {
            StoreChange::Created(_) => {
                state.toasts.error_with_details("Failed to save profile store", e.as_str());
            },
            StoreChange::Deleted(_) => {
                let m = concat2("Profile removed but save failed: ", e.as_str());
                state.toasts.warn(m.as_str());
            },
            StoreChange::Switched => {
                let m = concat2("Switched profile but save failed: ", e.as_str());
                state.toasts.warn(m.as_str());
            },
            StoreChange::Added(n) => {
                let mut m = "Added '".to_owned();
                m.push_str(n.as_str());
                m.push_str("' but save failed: ");
                m.push_str(e.as_str());
                state.toasts.warn(m.as_str());
            },
            StoreChange::Removed => {
                let m = concat2("Removed but save failed: ", e.as_str());
                state.toasts.warn(m.as_str());
            },
            StoreChange::Reordered => {
                let m = concat2("Reordered but save failed: ", e.as_str());
                state.toasts.warn(m.as_str());
            },
            StoreChange::Renamed => {
                let m = concat2("Renamed but save failed: ", e.as_str());
                state.toasts.warn(m.as_str());
            },
            StoreChange::EntryGone => {
                let m = concat2("Library entry removed but profiles save failed: ", e.as_str());
                state.toasts.warn(m.as_str());
            },
        },
    }
}

/// Only the profiles changed.
pub open spec fn store_only(before: AppState, after: AppState) -> bool {
    after == (AppState { profile_store: after.profile_store, ..before })
}

/// Only the message list changed.
pub open spec fn toasts_only(before: AppState, after: AppState) -> bool {
    after == (AppState { toasts: after.toasts, ..before })
}

/// Makes a new profile and puts it in use.
pub fn new_profile(state: &mut AppState) -> (r: StoreChange)
    requires
        old(state).profile_store.profiles@.len() < usize::MAX - 1,
    ensures
        r matches StoreChange::Created(name) && {
            &&& exists|k: nat| #[trigger]
                is_free_name(old(state).profile_store@.profiles, "New Profile"@, k) && name@
                    == numbered("New Profile"@, k)
            &&& final(state).profile_store@ == (Store {
                profiles: with_profile(old(state).profile_store@.profiles, name@),
                active: Some(name@),
            })
        },
        store_only(*old(state), *final(state)),
{
    let name = state.profile_store.add_unique("New Profile");
    state.profile_store.active_profile = Some(name.clone());
    StoreChange::Created(name)
}

/// Deletes a profile. Where it was in use, the first of the others is.
pub fn delete_profile(state: &mut AppState, name: &str) -> (r: Option<StoreChange>)
    ensures
        match profile_named(old(state).profile_store@.profiles, name@) {
            None => r is None && *final(state) == *old(state),
            Some(i) => {
                let left = old(state).profile_store@.profiles.remove(i);
                let before = old(state).profile_store@.active;
                &&& r matches Some(StoreChange::Deleted(n)) && n@ == name@
                &&& final(state).profile_store@ == (Store {
                    profiles: left,
                    active: if before is None || before == Some(name@) {
                        if left.len() > 0 {
                            Some(left[0].name)
                        } else {
                            None
                        }
                    } else {
                        before
                    },
                })
                &&& store_only(*old(state), *final(state))
            },
        },
{
    if !state.profile_store.remove(name) {
        return None;
    }
    if state.profile_store.active_profile.is_none() && state.profile_store.profiles.len() > 0 {
        let first = state.profile_store.profiles[0].name.clone();
        assert(state.profile_store@.profiles[0] == state.profile_store.profiles@[0]@);
        state.profile_store.active_profile = Some(first);
    }
    assert(state.profile_store@.profiles.len() == state.profile_store.profiles@.len());
    Some(StoreChange::Deleted(name.to_owned()))
}

/// Puts a profile in use, where there is one of that name.
pub fn switch_active(state: &mut AppState, name: &str) -> (r: Option<StoreChange>)
    ensures
        if name_taken(old(state).profile_store@.profiles, name@) {
            &&& r matches Some(StoreChange::Switched)
            &&& final(state).profile_store@ == (Store {
                active: Some(name@),
                ..old(state).profile_store@
            })
            &&& store_only(*old(state), *final(state))
        } else {
            r is None && *final(state) == *old(state)
        },
{
    if !state.profile_store.has(name) {
        return None;
    }
    state.profile_store.active_profile = Some(name.to_owned());
    Some(StoreChange::Switched)
}

/// The store with other mods in one profile.
pub open spec fn with_mods(s: Store, i: int, mods: Seq<Seq<char>>) -> Store {
    Store { profiles: s.profiles.update(i, Selection { mods, ..s.profiles[i] }), ..s }
}

fn holds_text(v: &Vec<String>, t: &str) -> (r: bool)
    ensures
        r == views(v@).contains(t@),
{
    let mut i: usize = 0;
    while i < v.len()
        invariant
            0 <= i <= v.len(),
            forall|j: int| 0 <= j < i ==> views(v@)[j] != t@,
        decreases v.len() - i,
    {
        if same(v[i].as_str(), t) {
            assert(views(v@)[i as int] == t@);
            return true;
        }
        i = i + 1;
    }
    false
}

proof fn lemma_mods_replaced(before: Seq<Profile>, after: Seq<Profile>, i: int)
    requires
        0 <= i < before.len(),
        after == before.update(i, after[i]),
        after[i].name == before[i].name,
    ensures
        selections(after) == selections(before).update(
            i,
            Selection { mods: views(after[i].active_mods@), ..selections(before)[i] },
        ),
{
    assert(selections(after) =~= selections(before).update(
        i,
        Selection { mods: views(after[i].active_mods@), ..selections(before)[i] },
    ));
}

/// Adds a mod of the library to the profile in use. One that is in it already
/// is not added again.
pub fn add_to_active(state: &mut AppState, library_idx: usize) -> (r: Option<StoreChange>)
    ensures
        ({
            let s = old(state).profile_store@;
            if library_idx >= old(state).library@.len() {
                r is None && *final(state) == *old(state)
            } else {
                let m = old(state).library@[library_idx as int];
                match s.in_use() {
                    None => {
                        &&& r is None
                        &&& final(state).toasts@ == old(state).toasts@.push(
                            warn_note("No active profile — create one before adding mods."@),
                        )
                        &&& toasts_only(*old(state), *final(state))
                    },
                    Some(i) => if s.profiles[i].mods.contains(m.path@) {
                        r is None && *final(state) == *old(state)
                    } else {
                        &&& r matches Some(StoreChange::Added(n)) && n@ == m.name@
                        &&& final(state).profile_store@ == with_mods(
                            s,
                            i,
                            s.profiles[i].mods.push(m.path@),
                        )
                        &&& store_only(*old(state), *final(state))
                    },
                }
            }
        }),
{
    if library_idx >= state.library.len() {
        return None;
    }
    let i = match state.profile_store.active_index() {
        None => {
            state.toasts.warn("No active profile — create one before adding mods.");
            return None;
        },
        Some(i) => i,
    };
    assert(state.profile_store@.profiles[i as int] == state.profile_store.profiles@[i as int]@);
    if holds_text(
        &state.profile_store.profiles[i].active_mods,
        state.library[library_idx].path.as_str(),
    ) {
        return None;
    }
    let path = state.library[library_idx].path.clone();
    let name = state.library[library_idx].name.clone();
    let ghost p0 = state.profile_store.profiles@;
    let ghost pt = path@;
    state.profile_store.profiles[i].active_mods.push(path);
    proof {
        let p1 = state.profile_store.profiles@;
        lemma_mods_replaced(p0, p1, i as int);
        assert(views(p1[i as int].active_mods@) =~= views(p0[i as int].active_mods@).push(pt));
    }
    Some(StoreChange::Added(name))
}

/// Takes a mod out of the profile in use.
pub fn remove_from_active(state: &mut AppState, idx: usize) -> (r: Option<StoreChange>)
    ensures
        ({
            let s = old(state).profile_store@;
            match s.in_use() {
                Some(i) if idx < s.profiles[i].mods.len() => {
                    &&& r matches Some(StoreChange::Removed)
                    &&& final(state).profile_store@ == with_mods(
                        s,
                        i,
                        s.profiles[i].mods.remove(idx as int),
                    )
                    &&& store_only(*old(state), *final(state))
                },
                _ => r is None && *final(state) == *old(state),
            }
        }),
{
    let i = match state.profile_store.active_index() {
        None => {
            return None;
        },
        Some(i) => i,
    };
    assert(state.profile_store@.profiles[i as int] == state.profile_store.profiles@[i as int]@);
    if idx >= state.profile_store.profiles[i].active_mods.len() {
        return None;
    }
    let ghost p0 = state.profile_store.profiles@;
    let _gone = state.profile_store.profiles[i].active_mods.remove(idx);
    proof {
        let p1 = state.profile_store.profiles@;
        lemma_mods_replaced(p0, p1, i as int);
        assert(views(p1[i as int].active_mods@) =~= views(p0[i as int].active_mods@).remove(
            idx as int,
        ));
    }
    Some(StoreChange::Removed)
}

/// The list with one item moved to another place.
pub open spec fn moved(v: Seq<Seq<char>>, from: int, to: int) -> Seq<Seq<char>> {
    v.remove(from).insert(to, v[from])
}

/// Where an item goes that is moved by a number of places: no further than the ends.
pub open spec fn move_target(idx: int, delta: int, len: int) -> int {
    if idx + delta < 0 {
        0
    } else if idx + delta > len - 1 {
        len - 1
    } else {
        idx + delta
    }
}

/// Moves a mod of the profile in use by a number of places.
#[verifier::rlimit(30)]
pub fn move_in_active(state: &mut AppState, idx: usize, delta: i32) -> (r: Option<StoreChange>)
    ensures
        ({
            let s = old(state).profile_store@;
            match s.in_use() {
                Some(i) if idx < s.profiles[i].mods.len() && move_target(
                    idx as int,
                    delta as int,
                    s.profiles[i].mods.len() as int,
                ) != idx => {
                    &&& r matches Some(StoreChange::Reordered)
                    &&& final(state).profile_store@ == with_mods(
                        s,
                        i,
                        moved(
                            s.profiles[i].mods,
                            idx as int,
                            move_target(
                                idx as int,
                                delta as int,
                                s.profiles[i].mods.len() as int,
                            ),
                        ),
                    )
                    &&& store_only(*old(state), *final(state))
                },
                _ => r is None && *final(state) == *old(state),
            }
        }),
{
    let i = match state.profile_store.active_index() {
        None => {
            return None;
        },
        Some(i) => i,
    };
    assert(state.profile_store@.profiles[i as int] == state.profile_store.profiles@[i as int]@);
    let len = state.profile_store.profiles[i].active_mods.len();
    if idx >= len {
        return None;
    }
    let wanted: i128 = idx as i128 + delta as i128;
    let target: usize = if wanted < 0 {
        0
    } else if wanted > len as i128 - 1 {
        len - 1
    } else {
        wanted as usize
    };
    if target == idx {
        return None;
    }
    let ghost p0 = state.profile_store.profiles@;
    let item = state.profile_store.profiles[i].active_mods.remove(idx);
    state.profile_store.profiles[i].active_mods.insert(target, item);
    proof {
        let p1 = state.profile_store.profiles@;
        assert(p1 =~= p0.update(i as int, p1[i as int]));
        lemma_mods_replaced(p0, p1, i as int);
        assert(views(p1[i as int].active_mods@) =~= moved(
            views(p0[i as int].active_mods@),
            idx as int,
            target as int,
        ));
    }
    Some(StoreChange::Reordered)
}

/// A mod that is moved and moved back stands where it stood, and so does every other.
pub proof fn law_move_back(v: Seq<Seq<char>>, from: int, to: int)
    requires
        0 <= from < v.len(),
        0 <= to < v.len(),
    ensures
        moved(moved(v, from, to), to, from) == v,
{
    assert(moved(moved(v, from, to), to, from) =~= v);
}

/// Moving drops no mod and adds none.
pub proof fn law_move_permutes(v: Seq<Seq<char>>, from: int, to: int)
    requires
        0 <= from < v.len(),
        0 <= to < v.len(),
    ensures
        moved(v, from, to).len() == v.len(),
        moved(v, from, to).to_multiset() == v.to_multiset(),
{
    vstd::seq_lib::to_multiset_remove(v, from);
    vstd::seq_lib::to_multiset_insert(v.remove(from), to, v[from]);
    v.to_multiset_ensures();
    assert(v.to_multiset().remove(v[from]).insert(v[from]) =~= v.to_multiset());
}

/// Renames the profile in use. A blank name and one that another profile has
/// are refused.
pub fn rename_active(state: &mut AppState, from: &str, to: &str) -> (r: Option<StoreChange>)
    ensures
        ({
            let s = old(state).profile_store@;
            let name = trimmed(to@);
            if name.len() == 0 {
                &&& r is None
                &&& final(state).toasts@ == old(state).toasts@.push(
                    warn_note("Profile name can't be empty."@),
                )
                &&& toasts_only(*old(state), *final(state))
            } else if !can_rename(s.profiles, from@, name) {
                &&& r is None
                &&& final(state).toasts@ == old(state).toasts@.push(
                    warn_note("Couldn't rename to '"@ + name + "': name taken or invalid."@),
                )
                &&& toasts_only(*old(state), *final(state))
            } else {
                let i = profile_named(s.profiles, from@)->Some_0;
                &&& r matches Some(StoreChange::Renamed)
                &&& final(state).profile_store@ == (Store {
                    profiles: s.profiles.update(i, Selection { name, ..s.profiles[i] }),
                    active: if s.active == Some(from@) {
                        Some(name)
                    } else {
                        s.active
                    },
                })
                &&& store_only(*old(state), *final(state))
            }
        }),
{
    let name = trim(to);
    if name.as_str().is_empty() {
        state.toasts.warn("Profile name can't be empty.");
        return None;
    }
    if !state.profile_store.rename(from, name.as_str()) {
        let m = concat3("Couldn't rename to '", name.as_str(), "': name taken or invalid.");
        state.toasts.warn(m.as_str());
        return None;
    }
    Some(StoreChange::Renamed)
}

/// Any path but this one.
pub open spec fn other_path(path: Seq<char>) -> spec_fn(Seq<char>) -> bool {
    |q: Seq<char>| q != path
}

/// The profiles without a mod.
pub open spec fn dropped(v: Seq<Selection>, path: Seq<char>) -> Seq<Selection> {
    v.map_values(
        |p: Selection| Selection { name: p.name, mods: p.mods.filter(other_path(path)) },
    )
}

/// Some profile has a mod.
pub open spec fn mod_in_use(v: Seq<Selection>, path: Seq<char>) -> bool {
    exists|i: int| 0 <= i < v.len() && (#[trigger] v[i]).mods.contains(path)
}

proof fn lemma_filter_none(v: Seq<Seq<char>>, path: Seq<char>)
    ensures
        v.contains(path) <==> v.filter(other_path(path)).len() != v.len(),
        !v.filter(other_path(path)).contains(path),
        !v.contains(path) ==> v.filter(other_path(path)) == v,
    decreases v.len(),
{
    reveal(Seq::filter);
    let f = v.filter(other_path(path));
    if v.len() > 0 {
        let w = v.drop_last();
        lemma_filter_none(w, path);
        w.lemma_filter_len(other_path(path));
        if v.contains(path) && v.last() != path {
            let i = choose|i: int| 0 <= i < v.len() && v[i] == path;
            assert(w[i] == path);
        }
        if w.contains(path) {
            let i = choose|i: int| 0 <= i < w.len() && w[i] == path;
            assert(v[i] == path);
        }
        if v.last() == path {
            assert(v[v.len() - 1] == path);
        }
        assert(w.push(v.last()) =~= v);
        if f.contains(path) {
            let i = choose|i: int| 0 <= i < f.len() && f[i] == path;
            v.lemma_filter_pred(other_path(path), i);
        }
    } else {
        assert(f =~= v);
    }
}

fn without_path(v: &Vec<String>, path: &str) -> (out: Vec<String>)
    ensures
        views(out@) == views(v@).filter(other_path(path@)),
{
    let ghost all = views(v@);
    let mut out: Vec<String> = Vec::new();
    let mut i: usize = 0;
    proof {
        reveal(Seq::filter);
        assert(all.take(0).filter(other_path(path@)) =~= Seq::empty());
        assert(views(out@) =~= Seq::empty());
    }
    while i < v.len()
        invariant
            0 <= i <= v.len(),
            all == views(v@),
            views(out@) == all.take(i as int).filter(other_path(path@)),
        decreases v.len() - i,
    {
        proof {
            reveal(Seq::filter);
            assert(all.take(i + 1).drop_last() =~= all.take(i as int));
        }
        if !same(v[i].as_str(), path) {
            let ghost o0 = out@;
            let s = v[i].clone();
            out.push(s);
            assert(views(out@) =~= views(o0).push(s@));
        }
        i = i + 1;
    }
    assert(all.take(v.len() as int) =~= all);
    out
}

fn drop_everywhere(store: &mut ProfileStore, path: &str) -> (dirty: bool)
    ensures
        final(store)@ == (Store {
            profiles: dropped(old(store)@.profiles, path@),
            ..old(store)@
        }),
        dirty == mod_in_use(old(store)@.profiles, path@),
{
    let ghost s0 = selections(store.profiles@);
    let mut dirty = false;
    let mut i: usize = 0;
    while i < store.profiles.len()
        invariant
            0 <= i <= store.profiles.len(),
            store.profiles@.len() == s0.len(),
            s0 == selections(old(store).profiles@),
            store.active_profile == old(store).active_profile,
            forall|j: int|
                0 <= j < i ==> (#[trigger] selections(store.profiles@)[j]) == dropped(
                    s0,
                    path@,
                )[j],
            forall|j: int|
                i <= j < s0.len() ==> (#[trigger] selections(store.profiles@)[j]) == s0[j],
            dirty == exists|j: int| 0 <= j < i && (#[trigger] s0[j]).mods.contains(path@),
        decreases store.profiles.len() - i,
    {
        let ghost p0 = store.profiles@;
        assert(selections(p0)[i as int] == s0[i as int]);
        let kept = without_path(&store.profiles[i].active_mods, path);
        proof {
            lemma_filter_none(s0[i as int].mods, path@);
            assert(views(kept@).len() == kept@.len());
        }
        if kept.len() != store.profiles[i].active_mods.len() {
            dirty = true;
            assert(s0[i as int].mods.contains(path@));
        }
        store.profiles[i].active_mods = kept;
        proof {
            assert forall|j: int| 0 <= j < i + 1 implies (#[trigger] selections(
                store.profiles@,
            )[j]) == dropped(s0, path@)[j] by {
                if j < i {
                    assert(store.profiles@[j] == p0[j]);
                    assert(selections(p0)[j] == dropped(s0, path@)[j]);
                }
            }
            assert forall|j: int| i + 1 <= j < s0.len() implies (#[trigger] selections(
                store.profiles@,
            )[j]) == s0[j] by {
                assert(store.profiles@[j] == p0[j]);
                assert(selections(p0)[j] == s0[j]);
            }
        }
        i = i + 1;
    }
    assert(selections(store.profiles@) =~= dropped(s0, path@));
    dirty
}

/// The path of a mod of the library that is to be deleted.
pub fn delete_path(state: &AppState, idx: usize) -> (r: Option<String>)
    ensures
        match r {
            Some(p) => idx < state.library@.len() && p == state.library@[idx as int].path,
            None => idx >= state.library@.len(),
        },
{
    if idx < state.library.len() {
        Some(state.library[idx].path.clone())
    } else {
        None
    }
}

/// Takes over that a mod of the library was deleted: it is dropped from every
/// profile. Says whether the profiles are to be saved. Where the delete failed,
/// that is said.
pub fn delete_library_entry(state: &mut AppState, idx: usize, result: &Result<(), String>) -> (r:
    Option<StoreChange>)
    ensures
        if idx >= old(state).library@.len() {
            r is None && *final(state) == *old(state)
        } else {
            let m = old(state).library@[idx as int];
            let s = old(state).profile_store@;
            match *result {
                Ok(_) => {
                    &&& match r {
                        Some(c) => c is EntryGone && mod_in_use(s.profiles, m.path@),
                        None => !mod_in_use(s.profiles, m.path@),
                    }
                    &&& final(state).toasts@ == old(state).toasts@.push(
                        info_note("Removed "@ + m.name@ + " from library"@),
                    )
                    &&& final(state).profile_store@ == (Store {
                        profiles: dropped(s.profiles, m.path@),
                        ..s
                    })
                    &&& *final(state) == (AppState {
                        toasts: final(state).toasts,
                        profile_store: final(state).profile_store,
                        ..*old(state)
                    })
                },
                Err(e) => {
                    &&& r is None
                    &&& final(state).toasts@ == old(state).toasts@.push(
                        failure_note("Delete failed"@, e@),
                    )
                    &&& toasts_only(*old(state), *final(state))
                },
            }
        },
{
    if idx >= state.library.len() {
        return None;
    }
    match result {
        Ok(_) => {
            let m = concat3("Removed ", state.library[idx].name.as_str(), " from library");
            state.toasts.info(m.as_str());
            let path = state.library[idx].path.clone();
            if drop_everywhere(&mut state.profile_store, path.as_str()) {
                Some(StoreChange::EntryGone)
            } else {
                None
            }
        },
        Err(e) => {
            state.toasts.error_with_details("Delete failed", e.as_str());
            None
        },
    }
}

/// A mod that is gone from the library is in no profile.
pub proof fn law_deleted_mod_in_no_profile(v: Seq<Selection>, path: Seq<char>)
    ensures
        !mod_in_use(dropped(v, path), path),
{
    if mod_in_use(dropped(v, path), path) {
        let i = choose|i: int|
            0 <= i < dropped(v, path).len() && (#[trigger] dropped(v, path)[i]).mods.contains(path);
        lemma_filter_none(v[i].mods, path);
    }
}

/// What was read of the library: its mods, and the files that were skipped,
/// each by its name and with the reason.
#[derive(Debug)]
pub struct ScanReport {
    pub mods: Vec<LibraryMod>,
    pub errors: Vec<(String, String)>,
}

/// What is said of the first `n` files that were skipped.
pub open spec fn skip_notes(v: Seq<(String, String)>, n: nat) -> Seq<Note>
    decreases n,
{
    if n == 0 {
        Seq::empty()
    } else {
        skip_notes(v, (n - 1) as nat).push(
            warn_note("Skipped "@ + v[n - 1].0@ + ": "@ + v[n - 1].1@),
        )
    }
}

/// The library was read again.
pub open spec fn library_refreshed(
    before: AppState,
    after: AppState,
    scanned: Result<ScanReport, String>,
) -> bool {
    match scanned {
        Ok(report) => {
            &&& after.toasts@ == before.toasts@ + skip_notes(
                report.errors@,
                report.errors@.len(),
            )
            &&& after == (AppState {
                library: report.mods,
                library_loaded: true,
                toasts: after.toasts,
                ..before
            })
        },
        Err(e) => {
            &&& after.toasts@ == before.toasts@.push(failure_note("Library scan failed"@, e@))
            &&& toasts_only(before, after)
        },
    }
}

/// Takes over what was read of the library.
pub fn refresh_library(state: &mut AppState, scanned: Result<ScanReport, String>)
    ensures
        library_refreshed(*old(state), *final(state), scanned),
{
    match scanned {
        Ok(report) => {
            state.library = report.mods;
            state.library_loaded = true;
            let errors = report.errors;
            let ghost t0 = state.toasts@;
            let mut i: usize = 0;
            assert(state.toasts@ =~= t0 + skip_notes(errors@, 0));
            while i < errors.len()
                invariant
                    0 <= i <= errors.len(),
                    t0 == old(state).toasts@,
                    state.toasts@ == t0 + skip_notes(errors@, i as nat),
                    *state == (AppState {
                        library: report.mods,
                        library_loaded: true,
                        toasts: state.toasts,
                        ..*old(state)
                    }),
                decreases errors.len() - i,
            {
                let mut m = "Skipped ".to_owned();
                m.push_str(errors[i].0.as_str());
                m.push_str(": ");
                m.push_str(errors[i].1.as_str());
                state.toasts.warn(m.as_str());
                i = i + 1;
                assert(state.toasts@ =~= t0 + skip_notes(errors@, i as nat));
            }
        },
        Err(e) => {
            state.toasts.error_with_details("Library scan failed", e.as_str());
        },
    }
}

/// What is said of the first `n` files that were to be imported: each that could not be.
pub open spec fn import_notes(v: Seq<(String, Result<(), String>)>, n: nat) -> Seq<Note>
    decreases n,
{
    if n == 0 {
        Seq::empty()
    } else {
        let before = import_notes(v, (n - 1) as nat);
        match v[n - 1].1 {
            Ok(_) => before,
            Err(e) => before.push(failure_note("Failed to import "@ + v[n - 1].0@, e@)),
        }
    }
}

/// How many of the first `n` files were imported.
pub open spec fn imported(v: Seq<(String, Result<(), String>)>, n: nat) -> nat
    decreases n,
{
    if n == 0 {
        0
    } else {
        imported(v, (n - 1) as nat) + (if v[n - 1].1 is Ok {
            1nat
        } else {
            0
        })
    }
}

/// Reports an import of files, each by its name and with its result. Says
/// whether the library is to be read again.
pub fn import_paths(state: &mut AppState, results: &Vec<(String, Result<(), String>)>) -> (refresh:
    bool)
    ensures
        ({
            let n = imported(results@, results@.len());
            let notes = old(state).toasts@ + import_notes(results@, results@.len());
            &&& refresh == (n > 0)
            &&& final(state).toasts@ == if n > 0 {
                notes.push(info_note("Imported "@ + dec(n) + " mod(s) into the library"@))
            } else {
                notes
            }
            &&& toasts_only(*old(state), *final(state))
        }),
{
    let mut n: usize = 0;
    let mut i: usize = 0;
    let ghost t0 = state.toasts@;
    assert(state.toasts@ =~= t0 + import_notes(results@, 0));
    while i < results.len()
        invariant
            0 <= i <= results.len(),
            n <= i,
            n == imported(results@, i as nat),
            t0 == old(state).toasts@,
            state.toasts@ == t0 + import_notes(results@, i as nat),
            toasts_only(*old(state), *state),
        decreases results.len() - i,
    {
        match &results[i].1 {
            Ok(_) => {
                n = n + 1;
            },
            Err(e) => {
                let m = concat2("Failed to import ", results[i].0.as_str());
                state.toasts.error_with_details(m.as_str(), e.as_str());
            },
        }
        i = i + 1;
        assert(state.toasts@ =~= t0 + import_notes(results@, i as nat));
    }
    if n > 0 {
        let m = concat3("Imported ", dec_usize(n).as_str(), " mod(s) into the library");
        state.toasts.info(m.as_str());
    }
    n > 0
}

/// The game directory and the profile to apply to it. Where one is missing, that is said.
pub fn apply_request(state: &mut AppState) -> (r: Option<(String, usize)>)
    ensures
        match (old(state).game_dir, old(state).profile_store@.in_use()) {
            (None, _) => {
                &&& r is None
                &&& final(state).toasts@ == old(state).toasts@.push(
                    warn_note("Set the game directory in File menu first."@),
                )
                &&& toasts_only(*old(state), *final(state))
            },
            (Some(_), None) => {
                &&& r is None
                &&& final(state).toasts@ == old(state).toasts@.push(warn_note("No active profile."@))
                &&& toasts_only(*old(state), *final(state))
            },
            (Some(d), Some(i)) => {
                &&& r matches Some(p) && p.0 == d && p.1 == i && i < old(
                    state,
                ).profile_store.profiles@.len()
                &&& *final(state) == *old(state)
            },
        },
{
    let dir = match &state.game_dir {
        None => {
            state.toasts.warn("Set the game directory in File menu first.");
            return None;
        },
        Some(d) => d.clone(),
    };
    match state.profile_store.active_index() {
        None => {
            state.toasts.warn("No active profile.");
            None
        },
        Some(i) => Some((dir, i)),
    }
}

/// What came of applying a profile: how many mods were deployed, which were
/// skipped, each by its name and with the reason, and what went wrong when the
/// game was brought back to its shipped state first.
#[derive(Debug)]
pub struct ApplyReport {
    pub deployed: usize,
    pub skipped: Vec<(String, String)>,
    pub restore_failed: Option<String>,
}

/// The lines on the mods that were skipped.
pub open spec fn skipped_lines(v: Seq<(String, String)>) -> Seq<Seq<char>> {
    v.map_values(|p: (String, String)| "• "@ + p.0@ + ": "@ + p.1@)
}

/// What is said when a profile was applied, or could not be.
pub open spec fn apply_notes(name: Seq<char>, result: Result<ApplyReport, String>) -> Seq<Note> {
    match result {
        Err(e) => seq![failure_note("Apply '"@ + name + "' failed"@, e@)],
        Ok(r) => (match r.restore_failed {
            Some(m) => seq![warn_note("Pre-apply restore had issues: "@ + m@)],
            None => Seq::empty(),
        }).push(
            if r.skipped@.len() > 0 {
                failure_note(
                    "Profile '"@ + name + "': deployed "@ + dec(r.deployed as nat)
                        + " / skipped "@ + dec(r.skipped@.len()),
                    joined(skipped_lines(r.skipped@), "\n"@),
                )
            } else if r.deployed == 0 {
                info_note(
                    "Profile '"@ + name + "' applied — vanilla baseline (no mods)."@,
                )
            } else {
                info_note(
                    "Profile '"@ + name + "' applied — "@ + dec(r.deployed as nat)
                        + " mod(s) deployed."@,
                )
            },
        ),
    }
}

fn skipped_detail(v: &Vec<(String, String)>) -> (r: String)
    ensures
        r@ == joined(skipped_lines(v@), "\n"@),
{
    let mut lines: Vec<String> = Vec::new();
    let mut i: usize = 0;
    while i < v.len()
        invariant
            0 <= i <= v.len(),
            views(lines@) == skipped_lines(v@).take(i as int),
        decreases v.len() - i,
    {
        let mut s = "• ".to_owned();
        s.push_str(v[i].0.as_str());
        s.push_str(": ");
        s.push_str(v[i].1.as_str());
        let ghost l0 = lines@;
        let ghost sv = s@;
        lines.push(s);
        i = i + 1;
        assert(views(lines@) =~= views(l0).push(sv));
        assert(views(lines@) =~= skipped_lines(v@).take(i as int));
    }
    assert(skipped_lines(v@).take(v.len() as int) =~= skipped_lines(v@));
    join(&lines, "\n")
}

fn report_applied(toasts: &mut Toasts, name: &str, result: &Result<ApplyReport, String>)
    ensures
        final(toasts)@ == old(toasts)@ + apply_notes(name@, *result),
{
    let ghost t0 = toasts@;
    match result {
        Err(e) => {
            let m = concat3("Apply '", name, "' failed");
            toasts.error_with_details(m.as_str(), e.as_str());
        },
        Ok(r) => {
            match &r.restore_failed {
                Some(m) => {
                    let w = concat2("Pre-apply restore had issues: ", m.as_str());
                    toasts.warn(w.as_str());
                },
                None => {},
            }
            let mut s = "Profile '".to_owned();
            s.push_str(name);
            if r.skipped.len() > 0 {
                s.push_str("': deployed ");
                s.push_str(dec_usize(r.deployed).as_str());
                s.push_str(" / skipped ");
                s.push_str(dec_usize(r.skipped.len()).as_str());
                let d = skipped_detail(&r.skipped);
                toasts.error_with_details(s.as_str(), d.as_str());
            } else if r.deployed == 0 {
                s.push_str("' applied — vanilla baseline (no mods).");
                toasts.info(s.as_str());
            } else {
                s.push_str("' applied — ");
                s.push_str(dec_usize(r.deployed).as_str());
                s.push_str(" mod(s) deployed.");
                toasts.info(s.as_str());
            }
        },
    }
    assert(toasts@ =~= t0 + apply_notes(name@, *result));
}

/// Reports that a profile was applied, and goes back to the tables.
pub fn apply_active(state: &mut AppState, name: &str, result: &Result<ApplyReport, String>)
    ensures
        final(state).toasts@ == old(state).toasts@ + apply_notes(name@, *result),
        *final(state) == (AppState {
            toasts: final(state).toasts,
            main_view: MainView::PabgbTables,
            ..*old(state)
        }),
{
    report_applied(&mut state.toasts, name, result);
    state.main_view = MainView::PabgbTables;
}

/// Whether the profile in use can be applied, and what is said of that.
pub open spec fn apply_state(s: AppState) -> (bool, Seq<char>) {
    if s.game_dir is None {
        (false, "Set the game directory in File menu before applying."@)
    } else if s.profile_store.active_profile is None {
        (false, "Select a profile first."@)
    } else {
        match s.profile_store@.in_use() {
            Some(i) if s.profile_store@.profiles[i].mods.len() > 0 => (
                true,
                "Restore vanilla, then deploy each mod in the active profile as a separate overlay group."@,
            ),
            _ => (false, "Active profile has no mods to apply."@),
        }
    }
}

/// Whether the profile in use can be applied, and what is said of that.
pub fn apply_button(state: &AppState) -> (r: (bool, &'static str))
    ensures
        (r.0, r.1@) == apply_state(*state),
{
    if state.game_dir.is_none() {
        return (false, "Set the game directory in File menu before applying.");
    }
    if state.profile_store.active_profile.is_none() {
        return (false, "Select a profile first.");
    }
    match state.profile_store.active_index() {
        Some(i) => {
            assert(state.profile_store@.profiles[i as int]
                == state.profile_store.profiles@[i as int]@);
            if state.profile_store.profiles[i].active_mods.len() > 0 {
                return (
                    true,
                    "Restore vanilla, then deploy each mod in the active profile as a separate overlay group.",
                );
            }
        },
        None => {},
    }
    (false, "Active profile has no mods to apply.")
}

/// The profile in use has a mod.
pub open spec fn in_active(s: AppState, path: Seq<char>) -> bool {
    s.profile_store@.in_use() matches Some(i) && s.profile_store@.profiles[i].mods.contains(path)
}

/// Whether the profile in use has a mod.
pub fn is_in_active(state: &AppState, path: &str) -> (r: bool)
    ensures
        r == in_active(*state, path@),
{
    match state.profile_store.active_index() {
        Some(i) => {
            assert(state.profile_store@.profiles[i as int]
                == state.profile_store.profiles@[i as int]@);
            holds_text(&state.profile_store.profiles[i].active_mods, path)
        },
        None => false,
    }
}

/// The button that adds a mod to the profile in use: its label, whether it is
/// live, and what is said of it.
#[derive(Clone, Copy, Debug)]
pub struct AddButton {
    pub label: &'static str,
    pub enabled: bool,
    pub tooltip: &'static str,
}

/// The button that adds a mod to the profile in use.
pub fn add_button(state: &AppState, path: &str) -> (r: AddButton)
    ensures
        r.label@ == if in_active(*state, path@) {
            "Added"@
        } else {
            "→ Add"@
        },
        r.enabled == (!in_active(*state, path@) && state.profile_store.active_profile is Some),
        r.tooltip@ == if in_active(*state, path@) {
            "Already in the active profile."@
        } else if state.profile_store.active_profile is None {
            "No active profile — create one first."@
        } else {
            "Append this mod to the active profile."@
        },
{
    let there = is_in_active(state, path);
    let none = state.profile_store.active_profile.is_none();
    AddButton {
        label: if there {
            "Added"
        } else {
            "→ Add"
        },
        enabled: !there && !none,
        tooltip: if there {
            "Already in the active profile."
        } else if none {
            "No active profile — create one first."
        } else {
            "Append this mod to the active profile."
        },
    }
}

/// The position of the first mod of the library with a path.
pub open spec fn mod_at(v: Seq<LibraryMod>, path: Seq<char>) -> Option<int>
    decreases v.len(),
{
    if v.len() == 0 {
        None
    } else if v[0].path@ == path {
        Some(0)
    } else {
        match mod_at(v.drop_first(), path) {
            Some(i) => Some(i + 1),
            None => None,
        }
    }
}

/// The position of the first mod of the library with a path.
pub fn library_match(v: &Vec<LibraryMod>, path: &str) -> (r: Option<usize>)
    ensures
        match r {
            Some(i) => mod_at(v@, path@) == Some(i as int) && i < v.len(),
            None => mod_at(v@, path@) is None,
        },
{
    let mut i: usize = 0;
    assert(v@.skip(0) =~= v@);
    while i < v.len()
        invariant
            0 <= i <= v.len(),
            mod_at(v@, path@) == match mod_at(v@.skip(i as int), path@) {
                Some(k) => Some(k + i),
                None => None,
            },
        decreases v.len() - i,
    {
        assert(v@.skip(i as int).drop_first() =~= v@.skip(i + 1));
        assert(v@.skip(i as int)[0] == v@[i as int]);
        if same(v[i].path.as_str(), path) {
            return Some(i);
        }
        i = i + 1;
    }
    None
}

/// The line on the author and the version of a mod.
pub fn meta_line(m: &LibraryMod) -> (r: String)
    ensures
        r@ == match (m.author, m.version) {
            (Some(a), Some(v)) => "by "@ + a@ + "  ·  v"@ + v@,
            (Some(a), None) => "by "@ + a@,
            (None, Some(v)) => "v"@ + v@,
            (None, None) => "—"@,
        },
{
    match (&m.author, &m.version) {
        (Some(a), Some(v)) => {
            let mut s = "by ".to_owned();
            s.push_str(a.as_str());
            s.push_str("  ·  v");
            s.push_str(v.as_str());
            s
        },
        (Some(a), None) => concat2("by ", a.as_str()),
        (None, Some(v)) => concat2("v", v.as_str()),
        (None, None) => "—".to_owned(),
    }
}

/// The line on the tables that a mod changes.
pub fn tables_line(m: &LibraryMod) -> (r: String)
    ensures
        r@ == "Tables: "@ + (if m.tables_touched@.len() == 0 {
            "(no tables resolved — open the file to inspect)"@
        } else {
            joined(views(m.tables_touched@), ", "@)
        }),
{
    if m.tables_touched.len() == 0 {
        concat2("Tables: ", "(no tables resolved — open the file to inspect)")
    } else {
        concat2("Tables: ", join(&m.tables_touched, ", ").as_str())
    }
}

/// The short line on a mod.
pub fn inline_line(m: &LibraryMod) -> (r: String)
    ensures
        r@ == dec(m.change_count as nat) + " change(s)  ·  "@ + (if m.tables_touched@.len() == 0 {
            "—"@
        } else {
            joined(views(m.tables_touched@), ", "@)
        }),
{
    let mut s = dec_usize(m.change_count);
    s.push_str(" change(s)  ·  ");
    if m.tables_touched.len() == 0 {
        s.push_str("—");
    } else {
        s.push_str(join(&m.tables_touched, ", ").as_str());
    }
    s
}

/// Which of the buttons that move a mod are live: up from the second on, down
/// up to the last but one.
pub fn move_buttons(idx: usize, total: usize) -> (r: (bool, bool))
    ensures
        r.0 == (idx > 0),
        r.1 == (idx + 1 < total),
{
    (idx > 0, total > 0 && idx < total - 1)
}

/// Profiles that are made, renamed and removed keep names that differ.
pub proof fn law_names_stay_different(
    v: Seq<Selection>,
    base: Seq<char>,
    k: nat,
    from: Seq<char>,
    to: Seq<char>,
    i: int,
)
    requires
        names_differ(v),
    ensures
        is_free_name(v, base, k) ==> names_differ(with_profile(v, numbered(base, k))),
        can_rename(v, from, to) ==> names_differ(
            v.update(
                profile_named(v, from)->Some_0,
                Selection { name: to, ..v[profile_named(v, from)->Some_0] },
            ),
        ),
        0 <= i < v.len() ==> names_differ(v.remove(i)),
{
    lemma_profile_named(v, numbered(base, k));
    lemma_profile_named(v, from);
    lemma_profile_named(v, to);
}

/// No profile has a mod twice.
pub open spec fn mods_once(v: Seq<Selection>) -> bool {
    forall|i: int| 0 <= i < v.len() ==> (#[trigger] v[i]).mods.no_duplicates()
}

proof fn lemma_moved_once(m: Seq<Seq<char>>, from: int, to: int)
    requires
        m.no_duplicates(),
        0 <= from < m.len(),
        0 <= to < m.len(),
    ensures
        moved(m, from, to).no_duplicates(),
{
    let r = m.remove(from);
    let n = moved(m, from, to);
    assert forall|a: int, b: int| 0 <= a < n.len() && 0 <= b < n.len() && a != b implies n[a]
        != n[b] by {
        let place = |x: int|
            if x == to {
                from
            } else {
                let y = if x < to {
                    x
                } else {
                    x - 1
                };
                if y < from {
                    y
                } else {
                    y + 1
                }
            };
        assert(n[a] == m[place(a)]);
        assert(n[b] == m[place(b)]);
        assert(place(a) != place(b));
    }
}

proof fn lemma_drop_once(m: Seq<Seq<char>>, path: Seq<char>)
    requires
        m.no_duplicates(),
    ensures
        m.filter(other_path(path)).no_duplicates(),
        forall|x: Seq<char>| #[trigger] m.filter(other_path(path)).contains(x) ==> m.contains(x),
    decreases m.len(),
{
    reveal(Seq::filter);
    if m.len() > 0 {
        let d = m.drop_last();
        let keep = other_path(path);
        lemma_drop_once(d, path);
        assert forall|x: Seq<char>| #[trigger] m.filter(keep).contains(x) implies m.contains(x) by {
            let k = choose|k: int| 0 <= k < m.filter(keep).len() && m.filter(keep)[k] == x;
            if k < d.filter(keep).len() {
                assert(d.filter(keep).contains(x));
                let j = choose|j: int| 0 <= j < d.len() && d[j] == x;
                assert(m[j] == x);
            } else {
                assert(m[m.len() - 1] == x);
            }
        }
        if d.filter(keep).contains(m.last()) {
            let j = choose|j: int| 0 <= j < d.len() && d[j] == m.last();
            assert(m[j] == m[m.len() - 1]);
        }
    }
}

/// Mods that are added, removed, moved and deleted stay in a profile once each.
pub proof fn law_mods_stay_once(s: Store, i: int, path: Seq<char>, from: int, to: int)
    requires
        mods_once(s.profiles),
        0 <= i < s.profiles.len(),
    ensures
        !s.profiles[i].mods.contains(path) ==> mods_once(
            with_mods(s, i, s.profiles[i].mods.push(path)).profiles,
        ),
        0 <= from < s.profiles[i].mods.len() ==> mods_once(
            with_mods(s, i, s.profiles[i].mods.remove(from)).profiles,
        ),
        0 <= from < s.profiles[i].mods.len() && 0 <= to < s.profiles[i].mods.len() ==> mods_once(
            with_mods(s, i, moved(s.profiles[i].mods, from, to)).profiles,
        ),
        mods_once(dropped(s.profiles, path)),
{
    let m = s.profiles[i].mods;
    assert(m.no_duplicates());
    if 0 <= from < m.len() && 0 <= to < m.len() {
        lemma_moved_once(m, from, to);
    }
    let d = dropped(s.profiles, path);
    assert forall|j: int| 0 <= j < d.len() implies (#[trigger] d[j]).mods.no_duplicates() by {
        lemma_drop_once(s.profiles[j].mods, path);
    }
}

} // verus!
