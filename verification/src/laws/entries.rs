//! Laws of the entry table: which rows a search leaves visible, when it is run,
//! and what cells and reports say.

use vstd::prelude::*;
use crate::digits::dec;
use crate::json::{tree_get, Json, Tree};
use crate::laws::documents::part_at;
use crate::laws::lookup::{lemma_section_named, lemma_section_of, lemma_table_named};
use crate::navigation::Opened;
use crate::rows::{law_picked, law_picked_all};
use crate::state::{
    lemma_tab_named, section_named, section_of, ActiveTable, AppState, Catalog, GlobalSearchHit,
    Job, Localization,
};
use crate::text::{byte_len, has_sub, has_suffix, lowercase, occurs_at, trimmed};
use crate::ui::entry_table::{
    advance_match, bug_report, build_bug_report, byte_count, category_of, category_tag,
    classify_error, copy_report, entry_matches, file_between, filter_due, filter_tick, first_bytes,
    format_cell_value, is_report, jump_to_global_hit, kick_global_search, law_next_match_cycles,
    localized_match, names_file, names_none, note_typing, parse_user_number, recompute_filter,
    report_bytes, report_path, row_visible, search_summary_text, set_global_enabled, strings_match,
    text_hit, ErrorCategory, FilterDue, WORKBENCH_VERSION,
};

verus! {

broadcast use vstd::seq_lib::group_seq_properties;

/// A table is in focus.
pub open spec fn in_focus(s: AppState, tab: usize) -> bool {
    s.active_tab_idx == Some(tab) && tab < s.open_tabs@.len()
}

proof fn lemma_part_gives_strings(t: Tree, f: Seq<char>, depth: nat, steps: Seq<int>, s: Seq<char>)
    requires
        part_at(t, steps) == Some(Tree::Str(s)),
        has_sub(lowercase(s), f),
        depth + steps.len() < 5,
    ensures
        strings_match(t, f, depth),
    decreases steps.len(),
{
    if steps.len() > 0 {
        match t {
            Tree::Arr(v) => {
                lemma_part_gives_strings(v[steps[0]], f, depth + 1, steps.drop_first(), s);
            },
            Tree::Obj(e) => {
                lemma_part_gives_strings(e[steps[0]].1, f, depth + 1, steps.drop_first(), s);
            },
            _ => {},
        }
    }
}

/// Some text at the end of so many steps holds the search text.
pub open spec fn text_within(t: Tree, f: Seq<char>, limit: int) -> bool {
    exists|steps: Seq<int>| #[trigger] text_there(t, f, limit, steps)
}

/// The text at the end of the steps holds the search text.
pub open spec fn text_there(t: Tree, f: Seq<char>, limit: int, steps: Seq<int>) -> bool {
    &&& steps.len() < limit
    &&& part_at(t, steps) matches Some(Tree::Str(s)) && has_sub(lowercase(s), f)
}

proof fn lemma_strings_give_part(t: Tree, f: Seq<char>, depth: nat)
    requires
        strings_match(t, f, depth),
    ensures
        text_within(t, f, 5 - depth),
    decreases t,
{
    let limit = 5 - depth;
    match t {
        Tree::Str(s) => {
            assert(text_there(t, f, limit, Seq::empty()));
        },
        Tree::Arr(v) => {
            let i = choose|i: int| 0 <= i < v.len() && strings_match(#[trigger] v[i], f, depth + 1);
            lemma_strings_give_part(v[i], f, depth + 1);
            let rest = choose|rest: Seq<int>| #[trigger] text_there(v[i], f, limit - 1, rest);
            let steps = seq![i] + rest;
            assert(steps.drop_first() =~= rest);
            assert(text_there(t, f, limit, steps));
        },
        Tree::Obj(e) => {
            let i = choose|i: int|
                0 <= i < e.len() && strings_match((#[trigger] e[i]).1, f, depth + 1);
            lemma_strings_give_part(e[i].1, f, depth + 1);
            let rest = choose|rest: Seq<int>| #[trigger] text_there(e[i].1, f, limit - 1, rest);
            let steps = seq![i] + rest;
            assert(steps.drop_first() =~= rest);
            assert(text_there(t, f, limit, steps));
        },
        _ => {},
    }
}

proof fn lemma_part_gives_localized(
    t: Tree,
    f: Seq<char>,
    eng: Option<Map<u64, String>>,
    kor: Option<Map<u64, String>>,
    depth: nat,
    steps: Seq<int>,
    n: u64,
)
    requires
        part_at(t, steps) == Some(Tree::Int(n as int)),
        text_hit(eng, n as int, f) || text_hit(kor, n as int, f),
        depth + steps.len() < 5,
    ensures
        localized_match(t, f, eng, kor, depth),
    decreases steps.len(),
{
    if steps.len() > 0 {
        match t {
            Tree::Arr(v) => {
                lemma_part_gives_localized(
                    v[steps[0]],
                    f,
                    eng,
                    kor,
                    depth + 1,
                    steps.drop_first(),
                    n,
                );
            },
            Tree::Obj(e) => {
                lemma_part_gives_localized(
                    e[steps[0]].1,
                    f,
                    eng,
                    kor,
                    depth + 1,
                    steps.drop_first(),
                    n,
                );
            },
            _ => {},
        }
    }
}

/// A list of texts has a text for the number, and the search text stands in it.
pub open spec fn names_it(texts: Map<u64, String>, n: u64, f: Seq<char>) -> bool {
    texts.contains_key(n) && texts[n]@.len() > 0 && has_sub(lowercase(texts[n]@), f)
}

/// The number at the end of the steps has an English or a Korean text that holds
/// the search text.
pub open spec fn number_there(
    t: Tree,
    f: Seq<char>,
    l: Option<Localization>,
    limit: int,
    steps: Seq<int>,
) -> bool {
    &&& steps.len() < limit
    &&& l is Some
    &&& part_at(t, steps) matches Some(Tree::Int(n)) && 0 <= n <= u64::MAX && (names_it(
        l->Some_0.eng@,
        n as u64,
        f,
    ) || names_it(l->Some_0.kor@, n as u64, f))
}

/// Some number at the end of so many steps has such a text.
pub open spec fn number_within(t: Tree, f: Seq<char>, l: Option<Localization>, limit: int) -> bool {
    exists|steps: Seq<int>| #[trigger] number_there(t, f, l, limit, steps)
}

proof fn lemma_localized_gives_part(t: Tree, f: Seq<char>, l: Localization, depth: nat)
    requires
        localized_match(t, f, Some(l.eng@), Some(l.kor@), depth),
    ensures
        number_within(t, f, Some(l), 5 - depth),
    decreases t,
{
    let limit = 5 - depth;
    let (eng, kor) = (Some(l.eng@), Some(l.kor@));
    match t {
        Tree::Int(n) => {
            assert(number_there(t, f, Some(l), limit, Seq::empty()));
        },
        Tree::Arr(v) => {
            let i = choose|i: int|
                0 <= i < v.len() && localized_match(#[trigger] v[i], f, eng, kor, depth + 1);
            lemma_localized_gives_part(v[i], f, l, depth + 1);
            let rest = choose|rest: Seq<int>| #[trigger]
                number_there(v[i], f, Some(l), limit - 1, rest);
            let steps = seq![i] + rest;
            assert(steps.drop_first() =~= rest);
            assert(number_there(t, f, Some(l), limit, steps));
        },
        Tree::Obj(e) => {
            let i = choose|i: int|
                0 <= i < e.len() && localized_match((#[trigger] e[i]).1, f, eng, kor, depth + 1);
            lemma_localized_gives_part(e[i].1, f, l, depth + 1);
            let rest = choose|rest: Seq<int>| #[trigger]
                number_there(e[i].1, f, Some(l), limit - 1, rest);
            let steps = seq![i] + rest;
            assert(steps.drop_first() =~= rest);
            assert(number_there(t, f, Some(l), limit, steps));
        },
        _ => {},
    }
}

proof fn lemma_no_texts(t: Tree, f: Seq<char>, depth: nat)
    ensures
        !localized_match(t, f, None, None, depth),
    decreases t,
{
    match t {
        Tree::Arr(v) => {
            assert forall|i: int| 0 <= i < v.len() implies !localized_match(
                #[trigger] v[i],
                f,
                None,
                None,
                depth + 1,
            ) by {
                lemma_no_texts(v[i], f, depth + 1);
            }
        },
        Tree::Obj(e) => {
            assert forall|i: int| 0 <= i < e.len() implies !localized_match(
                (#[trigger] e[i]).1,
                f,
                None,
                None,
                depth + 1,
            ) by {
                lemma_no_texts(e[i].1, f, depth + 1);
            }
        },
        _ => {},
    }
}

/// A row of which some number stands for an English text, or for a Korean one,
/// that holds the search text is visible.
pub proof fn law_localized_text_finds_its_row(
    state: &mut AppState,
    tab: usize,
    i: usize,
    steps: Seq<int>,
    n: u64,
    l: Localization,
)
    requires
        call_ensures(recompute_filter, (state,), ()),
        in_focus(*old(state), tab),
        i < old(state).open_tabs@[tab as int].entries@.len(),
        steps.len() < 5,
        part_at(old(state).open_tabs@[tab as int].entries@[i as int]@, steps) == Some(
            Tree::Int(n as int),
        ),
        old(state).localization == Some(l),
        names_it(l.eng@, n, lowercase(old(state).entry_filter@)) || names_it(
            l.kor@,
            n,
            lowercase(old(state).entry_filter@),
        ),
    ensures
        final(state).open_tabs@[tab as int].filtered_indices@.contains(i),
{
    let t = old(state).open_tabs@[tab as int];
    let f = lowercase(old(state).entry_filter@);
    let keep = row_visible(t, old(state).entry_filter@, old(state).catalog, old(state).localization);
    lemma_part_gives_localized(
        t.entries@[i as int]@,
        f,
        Some(l.eng@),
        Some(l.kor@),
        0,
        steps,
        n,
    );
    assert(t.entries@.len() == t.entries.len());
    assert(keep(i as int));
    law_picked(t.entries@.len(), keep);
}

/// A row of which some text holds the search text is visible.
pub proof fn law_text_finds_its_row(
    state: &mut AppState,
    tab: usize,
    i: usize,
    steps: Seq<int>,
    s: Seq<char>,
)
    requires
        call_ensures(recompute_filter, (state,), ()),
        in_focus(*old(state), tab),
        i < old(state).open_tabs@[tab as int].entries@.len(),
        steps.len() < 5,
        part_at(old(state).open_tabs@[tab as int].entries@[i as int]@, steps) == Some(Tree::Str(s)),
        has_sub(lowercase(s), lowercase(old(state).entry_filter@)),
    ensures
        final(state).open_tabs@[tab as int].filtered_indices@.contains(i),
{
    let t = old(state).open_tabs@[tab as int];
    let f = lowercase(old(state).entry_filter@);
    let keep = row_visible(t, old(state).entry_filter@, old(state).catalog, old(state).localization);
    lemma_part_gives_strings(t.entries@[i as int]@, f, 0, steps, s);
    assert(t.entries@.len() == t.entries.len());
    assert(keep(i as int));
    law_picked(t.entries@.len(), keep);
}

/// The row whose key is the number that the search text writes is visible.
pub proof fn law_key_finds_its_row(
    state: &mut AppState,
    tab: usize,
    i: usize,
    text: &str,
    n: u64,
)
    requires
        call_ensures(recompute_filter, (state,), ()),
        in_focus(*old(state), tab),
        i < old(state).open_tabs@[tab as int].entries@.len(),
        text@ == trimmed(lowercase(old(state).entry_filter@)),
        call_ensures(parse_user_number, (text,), Some(n)),
        tree_get(old(state).open_tabs@[tab as int].entries@[i as int]@, "key"@) == Some(
            Tree::Int(n as int),
        ),
    ensures
        final(state).open_tabs@[tab as int].filtered_indices@.contains(i),
{
    let t = old(state).open_tabs@[tab as int];
    let keep = row_visible(t, old(state).entry_filter@, old(state).catalog, old(state).localization);
    assert(t.entries@.len() == t.entries.len());
    assert(keep(i as int));
    law_picked(t.entries@.len(), keep);
}

/// A row whose name in the catalog holds the search text is visible: the name of
/// its key in the section of its table.
pub proof fn law_catalog_name_finds_its_row(
    state: &mut AppState,
    tab: usize,
    i: usize,
    n: u64,
    c: Catalog,
    a: int,
    b: int,
)
    requires
        call_ensures(recompute_filter, (state,), ()),
        in_focus(*old(state), tab),
        i < old(state).open_tabs@[tab as int].entries@.len(),
        tree_get(old(state).open_tabs@[tab as int].entries@[i as int]@, "key"@) == Some(
            Tree::Int(n as int),
        ),
        old(state).catalog == Some(c),
        0 <= a < c.dispatch_to_section@.len(),
        c.dispatch_to_section@[a].0@ == old(state).open_tabs@[tab as int].dispatch_name@,
        forall|j: int|
            0 <= j < a ==> (#[trigger] c.dispatch_to_section@[j]).0@
                != old(state).open_tabs@[tab as int].dispatch_name@,
        0 <= b < c.sections@.len(),
        c.sections@[b].0@ == c.dispatch_to_section@[a].1@,
        forall|j: int|
            0 <= j < b ==> (#[trigger] c.sections@[j]).0@ != c.dispatch_to_section@[a].1@,
        c.sections@[b].1.names@.contains_key(n),
        has_sub(lowercase(c.sections@[b].1.names@[n]@), lowercase(old(state).entry_filter@)),
    ensures
        final(state).open_tabs@[tab as int].filtered_indices@.contains(i),
{
    let t = old(state).open_tabs@[tab as int];
    let keep = row_visible(t, old(state).entry_filter@, old(state).catalog, old(state).localization);
    lemma_section_of(c.dispatch_to_section@, t.dispatch_name@, a);
    lemma_section_named(c.sections@, c.dispatch_to_section@[a].1@, b);
    assert(t.entries@.len() == t.entries.len());
    assert(keep(i as int));
    law_picked(t.entries@.len(), keep);
}

/// The name that a catalog has for the key of an entry holds the search text.
pub open spec fn catalog_names_it(
    t: Tree,
    table: Seq<char>,
    c: Option<Catalog>,
    f: Seq<char>,
) -> bool {
    &&& c is Some
    &&& tree_get(t, "key"@) matches Some(Tree::Int(n)) && section_of(
        c->Some_0.dispatch_to_section@,
        table,
    ) matches Some(s) && section_named(c->Some_0.sections@, s@) matches Some(names)
        && names.names@.contains_key(n as u64) && has_sub(lowercase(names.names@[n as u64]@), f)
}

/// A row that a search leaves visible has a reason to be: a text or a localized
/// text within it, its key, its string key or its name in the catalog. The
/// visible rows are rows of the table, each once and in order.
pub proof fn law_visible_row_has_a_reason(
    state: &mut AppState,
    tab: usize,
    k: int,
    text: &str,
    number: Option<u64>,
)
    requires
        call_ensures(recompute_filter, (state,), ()),
        in_focus(*old(state), tab),
        lowercase(old(state).entry_filter@).len() > 0,
        text@ == trimmed(lowercase(old(state).entry_filter@)),
        call_ensures(parse_user_number, (text,), number),
        0 <= k < final(state).open_tabs@[tab as int].filtered_indices@.len(),
    ensures
        ({
            let t = old(state).open_tabs@[tab as int];
            let f = lowercase(old(state).entry_filter@);
            let i = final(state).open_tabs@[tab as int].filtered_indices@[k];
            let e = t.entries@[i as int]@;
            &&& i < t.entries@.len()
            &&& {
                ||| text_within(e, f, 5)
                ||| number_within(e, f, old(state).localization, 5)
                ||| number is Some && tree_get(e, "key"@) == Some(Tree::Int(number->Some_0 as int))
                ||| tree_get(e, "string_key"@) is Some && tree_get(e, "string_key"@)->Some_0 is Str
                    && has_sub(lowercase(tree_get(e, "string_key"@)->Some_0->Str_0), f)
                ||| catalog_names_it(e, t.dispatch_name@, old(state).catalog, f)
            }
        }),
        forall|p: int, q: int|
            0 <= p < q < final(state).open_tabs@[tab as int].filtered_indices@.len() ==> final(
                state).open_tabs@[tab as int].filtered_indices@[p] < final(
                state).open_tabs@[tab as int].filtered_indices@[q],
{
    let t = old(state).open_tabs@[tab as int];
    let f = lowercase(old(state).entry_filter@);
    let keep = row_visible(t, old(state).entry_filter@, old(state).catalog, old(state).localization);
    assert(t.entries@.len() == t.entries.len());
    law_picked(t.entries@.len(), keep);
    let i = final(state).open_tabs@[tab as int].filtered_indices@[k];
    let e = t.entries@[i as int]@;
    assert(keep(i as int));
    if strings_match(e, f, 0) {
        lemma_strings_give_part(e, f, 0);
    }
    match old(state).localization {
        Some(l) => {
            if localized_match(e, f, Some(l.eng@), Some(l.kor@), 0) {
                lemma_localized_gives_part(e, f, l, 0);
            }
        },
        None => {
            lemma_no_texts(e, f, 0);
        },
    }
}

/// An empty search leaves every row visible, and no search touches another table
/// or the entries.
pub proof fn law_empty_search_shows_all(state: &mut AppState, tab: usize, other: int)
    requires
        call_ensures(recompute_filter, (state,), ()),
        in_focus(*old(state), tab),
        0 <= other < old(state).open_tabs@.len(),
    ensures
        final(state).open_tabs@.len() == old(state).open_tabs@.len(),
        other != tab ==> final(state).open_tabs@[other] == old(state).open_tabs@[other],
        final(state).open_tabs@[tab as int].entries == old(state).open_tabs@[tab as int].entries,
        final(state).open_tabs@[tab as int].changes == old(state).open_tabs@[tab as int].changes,
        final(state).open_tabs@[tab as int].last_filter@ == old(state).entry_filter@,
        lowercase(old(state).entry_filter@).len() == 0 ==> final(
            state).open_tabs@[tab as int].filtered_indices@ == Seq::new(
            old(state).open_tabs@[tab as int].entries@.len(),
            |i: int| i as usize,
        ),
{
    let t = old(state).open_tabs@[tab as int];
    let keep = row_visible(t, old(state).entry_filter@, old(state).catalog, old(state).localization);
    assert(t.entries@.len() == t.entries.len());
    if lowercase(old(state).entry_filter@).len() == 0 {
        assert forall|i: int| 0 <= i < t.entries@.len() implies #[trigger] keep(i) by {}
        law_picked_all(t.entries@.len(), keep);
    }
}

/// An entry matches where some text within it holds the search text, where its
/// key is the number, or where its string key holds the search text; and it
/// matches without a catalog for no other reason.
pub proof fn law_entry_matches(
    entry: &Json,
    f: &str,
    number: Option<u64>,
    r: bool,
    steps: Seq<int>,
)
    requires
        call_ensures(entry_matches, (entry, f, number, None, None), r),
    ensures
        text_there(entry@, f@, 5, steps) ==> r,
        number is Some && tree_get(entry@, "key"@) == Some(Tree::Int(number->Some_0 as int)) ==> r,
        r ==> text_within(entry@, f@, 5) || number is Some && tree_get(entry@, "key"@) == Some(
            Tree::Int(number->Some_0 as int),
        ) || tree_get(entry@, "string_key"@) is Some && tree_get(
            entry@,
            "string_key"@,
        )->Some_0 is Str && has_sub(
            lowercase(tree_get(entry@, "string_key"@)->Some_0->Str_0),
            f@,
        ),
{
    if text_there(entry@, f@, 5, steps) {
        lemma_part_gives_strings(
            entry@,
            f@,
            0,
            steps,
            part_at(entry@, steps)->Some_0->Str_0,
        );
    }
    if strings_match(entry@, f@, 0) {
        lemma_strings_give_part(entry@, f@, 0);
    }
}

/// A search over all tables looks for the search text in lowercase and for the
/// number that it writes, in every table, with a number of its own; without a
/// game directory none is started.
pub proof fn law_search_over_all_tables(
    state: &mut AppState,
    filter: String,
    job: Option<Job>,
    text: &str,
    number: Option<u64>,
)
    requires
        call_ensures(kick_global_search, (state, filter), job),
        text@ == trimmed(lowercase(filter@)),
        call_ensures(parse_user_number, (text,), number),
    ensures
        job is Some <==> old(state).game_dir is Some,
        job is Some ==> {
            let j = job->Some_0;
            &&& j is SearchAllPabgb
            &&& j->SearchAllPabgb_filter@ == lowercase(filter@)
            &&& j->SearchAllPabgb_filter_as_number == number
            &&& j->SearchAllPabgb_tables@ == old(state).tables@
            &&& Some(j->SearchAllPabgb_game_dir) == old(state).game_dir
            &&& j->SearchAllPabgb_request_id == final(state).global_search.request_id
            &&& j->SearchAllPabgb_request_id != old(state).global_search.request_id
            &&& final(state).global_search.in_progress
            &&& final(state).global_search.hits@.len() == 0
            &&& final(state).global_search.total == old(state).tables@.len()
            &&& final(state).global_search.filter_at_kick@ == filter@
        },
        job is None ==> !final(state).global_search.enabled,
{
    assert(old(state).tables@.len() == old(state).tables.len());
}

/// A hit of a search over all tables leads to its table with its entry selected,
/// or to a tab that loads it with the key of the entry noted; then the list of
/// hits is left.
pub proof fn law_hit_of_all_tables_leads_to_its_entry(
    state: &mut AppState,
    hit: &GlobalSearchHit,
    how: Opened,
)
    requires
        call_ensures(jump_to_global_hit, (state, hit), how),
    ensures
        how is Focused ==> {
            &&& final(state).active_tab_idx is Some
            &&& final(state).active_tab_idx->Some_0 < final(state).open_tabs@.len()
            &&& ({
                let t = final(state).open_tabs@[final(state).active_tab_idx->Some_0 as int];
                &&& t.dispatch_name@ == hit.dispatch_name@
                &&& hit.entry_idx < t.entries@.len() ==> t.selected_entry_idx == Some(hit.entry_idx)
            })
        },
        how is Loading ==> {
            &&& how->Loading_0 is LoadTable
            &&& how->Loading_0->LoadTable_dispatch_name@ == hit.dispatch_name@
            &&& final(state).pending_xref_nav is Some
            &&& final(state).pending_xref_nav->Some_0.0@ == hit.dispatch_name@
            &&& final(state).pending_xref_nav->Some_0.1 == hit.entry_key
        },
        how is Refused ==> final(state).open_tabs == old(state).open_tabs
            && final(state).global_search.enabled == old(state).global_search.enabled,
        !(how is Refused) ==> !final(state).global_search.enabled,
        final(state).global_search.hits == old(state).global_search.hits,
{
    assert(old(state).open_tabs@.len() == old(state).open_tabs.len());
    lemma_tab_named(old(state).open_tabs@, hit.dispatch_name@);
    lemma_table_named(old(state).tables@, hit.dispatch_name@);
}

/// The rows are searched again once a new search text has rested for a fifth of
/// a second, and not before; a text that the rows stand for is never searched.
pub proof fn law_search_waits_for_rest(state: &AppState, now: u64, due: FilterDue, tab: usize)
    requires
        call_ensures(filter_due, (state, now), due),
        in_focus(*state, tab),
    ensures
        ({
            let t = state.open_tabs@[tab as int];
            &&& t.last_filter@ == state.entry_filter@ <==> due == FilterDue::Nothing
            &&& due == FilterDue::Now <==> t.last_filter@ != state.entry_filter@ && now
                - t.last_filter_change >= 200
            &&& due matches FilterDue::In(ms) ==> 0 < ms <= 200 && (now >= t.last_filter_change
                ==> now + ms == t.last_filter_change + 200)
        }),
{
}

/// Each time the search text is another than a frame ago the clock starts again;
/// else it goes on.
pub proof fn law_typing_starts_the_clock(state: &mut AppState, now: u64, tab: usize)
    requires
        call_ensures(note_typing, (state, now), ()),
        in_focus(*old(state), tab),
    ensures
        final(state).open_tabs@[tab as int].prev_frame_filter@ == old(state).entry_filter@,
        final(state).open_tabs@[tab as int].last_filter_change == if old(
            state).open_tabs@[tab as int].prev_frame_filter@ == old(state).entry_filter@ {
            old(state).open_tabs@[tab as int].last_filter_change
        } else {
            now
        },
        final(state).open_tabs@[tab as int].filtered_indices == old(
            state).open_tabs@[tab as int].filtered_indices,
        final(state).entry_filter == old(state).entry_filter,
{
}

/// A frame that searches the rows leaves them standing for the search text; one
/// that does not leaves them as they were.
pub proof fn law_frame_searches_where_due(
    state: &mut AppState,
    now: u64,
    r: (FilterDue, Option<Job>),
    tab: usize,
)
    requires
        call_ensures(filter_tick, (state, now), r),
        in_focus(*old(state), tab),
    ensures
        r.0 == FilterDue::Now ==> final(state).open_tabs@[tab as int].last_filter@ == old(
            state).entry_filter@,
        r.0 != FilterDue::Now ==> final(state).open_tabs@[tab as int].filtered_indices == old(
            state).open_tabs@[tab as int].filtered_indices,
        r.1 is Some ==> r.1->Some_0 is SearchAllPabgb && r.1->Some_0->SearchAllPabgb_filter@
            == lowercase(old(state).entry_filter@) && old(state).global_search.enabled && old(
            state).entry_filter@.len() > 0,
        final(state).entry_filter == old(state).entry_filter,
        final(state).open_tabs@[tab as int].entries == old(state).open_tabs@[tab as int].entries,
{
}

/// The selection moves to the next visible row when that is asked for: to the one
/// behind it, from the last to the first, and to the first where no visible row
/// is selected.
pub proof fn law_selection_moves_to_the_next_match(state: &mut AppState, tab: usize, p: int)
    requires
        call_ensures(advance_match, (state,), ()),
        in_focus(*old(state), tab),
        old(state).entry_search_advance_pending,
        old(state).open_tabs@[tab as int].filtered_indices@.len() > 0,
        forall|k: int, l: int|
            0 <= k < l < old(state).open_tabs@[tab as int].filtered_indices@.len() ==> old(
                state).open_tabs@[tab as int].filtered_indices@[k] != old(
                state).open_tabs@[tab as int].filtered_indices@[l],
    ensures
        !final(state).entry_search_advance_pending,
        ({
            let before = old(state).open_tabs@[tab as int];
            let v = before.filtered_indices@;
            let now = final(state).open_tabs@[tab as int].selected_entry_idx;
            &&& before.selected_entry_idx is None ==> now == Some(v[0])
            &&& 0 <= p < v.len() - 1 && before.selected_entry_idx == Some(v[p]) ==> now == Some(
                v[p + 1],
            )
            &&& before.selected_entry_idx == Some(v[v.len() - 1]) ==> now == Some(v[0])
        }),
{
    let v = old(state).open_tabs@[tab as int].filtered_indices@;
    law_next_match_cycles(v, v.len() - 1);
    vstd::arithmetic::div_mod::lemma_mod_self_0(v.len() as int);
    if 0 <= p < v.len() - 1 {
        law_next_match_cycles(v, p);
        vstd::arithmetic::div_mod::lemma_small_mod((p + 1) as nat, v.len());
    }
}

/// A caught panic is told first, then a file that the archive lacks, then an
/// archive index that cannot be read; anything else is the parser's.
pub proof fn law_error_categories(msg: &str, c: ErrorCategory)
    requires
        call_ensures(classify_error, (msg,), c),
    ensures
        c == ErrorCategory::Panic <==> has_sub(msg@, "panic while parsing"@) || has_sub(
            msg@,
            "panic — "@,
        ),
        c == ErrorCategory::PazLookup ==> has_sub(msg@, "not found in gamedata"@),
        has_sub(msg@, "not found in gamedata"@) ==> c == ErrorCategory::Panic || c
            == ErrorCategory::PazLookup,
        c == ErrorCategory::GameDataLookup ==> has_sub(msg@, "Cannot read PAMT"@) || has_sub(
            msg@,
            "not found in 0008"@,
        ),
        has_sub(msg@, "Cannot read PAMT"@) || has_sub(msg@, "not found in 0008"@) ==> c
            != ErrorCategory::Parser,
{
}

/// A cell shows a short text as it is and cuts a long one; it shows a number, a
/// truth value and null as they are written, how much a list or a group holds,
/// and a dash for what an entry lacks.
pub proof fn law_cells(entry: &Json, name: &str, r: String)
    requires
        call_ensures(format_cell_value, (entry, name), r),
    ensures
        match tree_get(entry@, name@) {
            None => r@ == "-"@,
            Some(Tree::Null) => r@ == "null"@,
            Some(Tree::Bool(b)) => r@ == if b {
                "true"@
            } else {
                "false"@
            },
            Some(Tree::Float(s)) => r@ == s,
            Some(Tree::Int(n)) => r@ == if n < 0 {
                "-"@ + dec((-n) as nat)
            } else {
                dec(n as nat)
            },
            Some(Tree::Str(s)) => byte_len(s) <= 40 ==> r@ == s,
            Some(Tree::Arr(v)) => r@ == "["@ + dec(v.len()) + " items]"@,
            Some(Tree::Obj(v)) => r@ == "{"@ + dec(v.len()) + " fields}"@,
        },
{
    reveal_strlit("-");
    match tree_get(entry@, name@) {
        Some(Tree::Int(n)) => {
            if n < 0 {
                assert(r@ =~= "-"@ + dec((-n) as nat));
            }
        },
        _ => {},
    }
}

/// What stands beside the search field counts the visible rows and all rows of
/// the table, or, where all tables are searched, the hits.
pub proof fn law_search_summary(state: &AppState, tab: &ActiveTable, r: String)
    requires
        call_ensures(search_summary_text, (state, tab), r),
    ensures
        !state.global_search.enabled && state.entry_filter@.len() == 0 ==> r@ == dec(
            tab.entries@.len(),
        ) + " entries"@,
        !state.global_search.enabled && state.entry_filter@.len() > 0 ==> r@ == dec(
            tab.filtered_indices@.len(),
        ) + " of "@ + dec(tab.entries@.len()) + " entries"@,
        state.global_search.enabled && !state.global_search.in_progress && state.entry_filter@.len()
            > 0 ==> r@ == dec(state.global_search.hits@.len()) + " hit(s) across all PABGBs"@,
        state.global_search.enabled && state.global_search.in_progress ==> r@ == "scanning "@ + dec(
            state.global_search.scanned as nat,
        ) + " / "@ + dec(state.global_search.total as nat) + ": "@ + dec(
            state.global_search.hits@.len(),
        ) + " hits"@,
{
}

/// Turning the search over all tables off drops its hits and disowns its scan.
pub proof fn law_search_over_all_tables_is_turned_off(state: &mut AppState, on: bool)
    requires
        call_ensures(set_global_enabled, (state, on), ()),
    ensures
        final(state).global_search.enabled == on,
        old(state).global_search.enabled && !on ==> final(state).global_search.hits@.len() == 0
            && !final(state).global_search.in_progress && final(state).global_search.request_id
            != old(state).global_search.request_id,
        on ==> final(state).global_search.hits == old(state).global_search.hits,
{
}

/// What a text holds stays in it where more is put behind it; and what is put
/// behind a text is in it.
pub proof fn lemma_more_behind(s: Seq<char>, t: Seq<char>, b: Seq<char>)
    ensures
        has_sub(s, b) ==> has_sub(s + t, b),
        has_sub(s + t, t),
{
    if has_sub(s, b) {
        let i = choose|i: int| occurs_at(s, b, i);
        assert((s + t).subrange(i, i + b.len()) =~= b);
        assert(occurs_at(s + t, b, i));
    }
    assert((s + t).subrange(s.len() as int, (s.len() + t.len()) as int) =~= t);
    assert(occurs_at(s + t, t, s.len() as int));
}

/// A bug report names the table, the kind of failure and the version, and holds
/// the whole error message.
pub proof fn law_bug_report_holds_its_facts(
    table: &str,
    c: ErrorCategory,
    msg: &str,
    total: usize,
    r: String,
)
    requires
        call_ensures(build_bug_report, (table, c, msg, None, total), r),
    ensures
        has_sub(r@, table@),
        has_sub(r@, msg@),
        has_sub(
            r@,
            match c {
                ErrorCategory::PazLookup => "PAZ lookup"@,
                ErrorCategory::GameDataLookup => "Game data"@,
                ErrorCategory::Panic => "Panic"@,
                ErrorCategory::Parser => "Parser error"@,
            },
        ),
{
    lemma_report(table@, c, msg@, None, total as nat, r@);
}

proof fn lemma_report(
    table: Seq<char>,
    c: ErrorCategory,
    msg: Seq<char>,
    prefix: Option<Seq<u8>>,
    total: nat,
    r: Seq<char>,
)
    requires
        is_report(table, c, msg, prefix, total, r),
    ensures
        has_sub(r, table),
        has_sub(r, msg),
        has_sub(
            r,
            match c {
                ErrorCategory::PazLookup => "PAZ lookup"@,
                ErrorCategory::GameDataLookup => "Game data"@,
                ErrorCategory::Panic => "Panic"@,
                ErrorCategory::Parser => "Parser error"@,
            },
        ),
{
    let file: Option<Seq<char>> = if c != ErrorCategory::PazLookup
        || names_none(msg) {
        None
    } else {
        let (i, j) = choose|i: int, j: int| #[trigger]
            file_between(msg, i, j);
        assert(names_file(msg, msg.subrange(i + 6, j)));
        Some(msg.subrange(i + 6, j))
    };
    assert(r == bug_report(table, c, msg, file, prefix, total));
    let tag = category_tag(c);
    let end = if has_suffix(msg, "\n"@) {
        Seq::empty()
    } else {
        "\n"@
    };
    let s1 = "## Mod Workbench bug report\n\n"@ + "Workbench version: "@ + WORKBENCH_VERSION@
        + "\n\n"@ + "## Table\n\n"@ + "`"@;
    let s2 = s1 + table;
    let s3 = s2 + "`\n\n"@;
    let s4 = s3 + "## Category\n\n"@;
    let s5 = s4 + tag;
    let s6 = s5 + "\n\n"@;
    let s7 = s6 + report_path(file);
    let s8 = s7 + "## Error\n\n"@;
    let s9 = s8 + "```\n"@;
    let s10 = s9 + msg;
    let s11 = s10 + end;
    let s12 = s11 + "```\n\n"@;
    let s13 = s12 + "## Raw bytes\n\n"@;
    assert(r == s13 + report_bytes(prefix, total));
    lemma_more_behind(s1, table, table);
    lemma_table_and_tag(s2, table, tag, "`\n\n"@, "## Category\n\n"@);
    lemma_carried(s5, "\n\n"@, report_path(file), "## Error\n\n"@, "```\n"@, table);
    lemma_carried(s5, "\n\n"@, report_path(file), "## Error\n\n"@, "```\n"@, tag);
    lemma_more_behind(s9, msg, table);
    lemma_more_behind(s9, msg, tag);
    let last = report_bytes(prefix, total);
    lemma_carried(s10, end, "```\n\n"@, "## Raw bytes\n\n"@, last, table);
    lemma_carried(s10, end, "```\n\n"@, "## Raw bytes\n\n"@, last, tag);
    lemma_carried(s10, end, "```\n\n"@, "## Raw bytes\n\n"@, last, msg);
}

proof fn lemma_table_and_tag(
    s: Seq<char>,
    table: Seq<char>,
    tag: Seq<char>,
    x: Seq<char>,
    y: Seq<char>,
)
    requires
        has_sub(s, table),
    ensures
        has_sub(s + x + y + tag, table),
        has_sub(s + x + y + tag, tag),
{
    lemma_more_behind(s, x, table);
    lemma_more_behind(s + x, y, table);
    lemma_more_behind(s + x + y, tag, table);
}

proof fn lemma_carried(
    s: Seq<char>,
    w: Seq<char>,
    x: Seq<char>,
    y: Seq<char>,
    z: Seq<char>,
    b: Seq<char>,
)
    requires
        has_sub(s, b),
    ensures
        has_sub(s + w + x + y + z, b),
{
    lemma_more_behind(s, w, b);
    lemma_more_behind(s + w, x, b);
    lemma_more_behind(s + w + x, y, b);
    lemma_more_behind(s + w + x + y, z, b);
}

/// A report is put together for a table that failed to load, and for no other; it
/// names that table and holds its message.
pub proof fn law_report_on_a_failed_table(state: &mut AppState, tab: usize, r: Option<String>)
    requires
        call_ensures(copy_report, (state,), r),
        in_focus(*old(state), tab),
    ensures
        r is Some <==> old(state).open_tabs@[tab as int].load_state is Error,
        r is Some ==> has_sub(r->Some_0@, old(state).open_tabs@[tab as int].dispatch_name@)
            && has_sub(r->Some_0@, old(state).open_tabs@[tab as int].load_state->Error_0@),
        final(state).open_tabs == old(state).open_tabs,
{
    let t = old(state).open_tabs@[tab as int];
    if t.load_state is Error {
        let msg = t.load_state->Error_0@;
        lemma_report(
            t.dispatch_name@,
            category_of(msg),
            msg,
            first_bytes(t.raw_pabgb),
            byte_count(t.raw_pabgb),
            r->Some_0@,
        );
    }
}

} // verus!
