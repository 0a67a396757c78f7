//! The dialog that asks for what a mod says of itself before it is exported.

use vstd::prelude::*;
use crate::text::{
    all_white, is_white, joined, lemma_split_concat, lemma_split_nonempty, lemma_split_whole,
    lemma_trimmed_behind_white, lemma_trimmed_push, split, split_on, trim, trimmed, views,
};

verus! {

broadcast use vstd::seq_lib::group_seq_properties;

/// The ways to export a mod.
#[derive(Clone, Copy, Debug, PartialEq, Eq, Structural)]
pub enum ExportAction {
    /// A single file of the workbench's own.
    SaveJson,
    /// A zip bundle.
    SaveModpkg,
    /// A single file of intents.
    SaveDmm,
    /// A folder with an archive overlay.
    SaveDmmModFolder,
}

/// The title of an export.
pub open spec fn export_title(a: ExportAction) -> Seq<char> {
    match a {
        ExportAction::SaveJson => "Export as Workbench JSON"@,
        ExportAction::SaveModpkg => "Export as .modpkg"@,
        ExportAction::SaveDmm => "Export as DMM v3 Intent JSON"@,
        ExportAction::SaveDmmModFolder => "Export as DMM Mod Folder"@,
    }
}

impl ExportAction {
    /// The title of the export.
    pub fn label(&self) -> (r: &'static str)
        ensures
            r@ == export_title(*self),
    {
        match self {
            ExportAction::SaveJson => "Export as Workbench JSON",
            ExportAction::SaveModpkg => "Export as .modpkg",
            ExportAction::SaveDmm => "Export as DMM v3 Intent JSON",
            ExportAction::SaveDmmModFolder => "Export as DMM Mod Folder",
        }
    }

    /// The label of the button that starts the export.
    pub fn button_label(&self) -> (r: &'static str)
        ensures
            r@ == match *self {
                ExportAction::SaveJson => "Export JSON..."@,
                ExportAction::SaveModpkg => "Export .modpkg..."@,
                ExportAction::SaveDmm => "Export DMM Intent JSON..."@,
                ExportAction::SaveDmmModFolder => "Export Mod Folder..."@,
            },
    {
        match self {
            ExportAction::SaveJson => "Export JSON...",
            ExportAction::SaveModpkg => "Export .modpkg...",
            ExportAction::SaveDmm => "Export DMM Intent JSON...",
            ExportAction::SaveDmmModFolder => "Export Mod Folder...",
        }
    }
}

/// What a mod says of itself.
#[derive(Debug)]
pub struct ModMetadata {
    pub name: String,
    pub author: String,
    pub version: String,
    pub nexus_url: String,
    pub description: String,
    pub dependencies: Vec<String>,
}

impl Default for ModMetadata {
    fn default() -> (r: Self)
        ensures
            r.name@.len() == 0,
            r.author@.len() == 0,
            r.version@.len() == 0,
            r.nexus_url@.len() == 0,
            r.description@.len() == 0,
            r.dependencies@.len() == 0,
    {
        ModMetadata {
            name: String::new(),
            author: String::new(),
            version: String::new(),
            nexus_url: String::new(),
            description: String::new(),
            dependencies: Vec::new(),
        }
    }
}

/// The dialog. What was typed stays when it is closed.
#[derive(Debug)]
pub struct MetadataDialog {
    pub open: bool,
    pub metadata: ModMetadata,
    /// The export that follows.
    pub action_after: ExportAction,
    /// The dependencies as they are typed, with commas between.
    pub dependencies_input: String,
}

impl Default for MetadataDialog {
    fn default() -> (r: Self)
        ensures
            !r.open,
            r.action_after == ExportAction::SaveJson,
            r.dependencies_input@.len() == 0,
            r.metadata.name@.len() == 0,
            r.metadata.author@.len() == 0,
            r.metadata.version@.len() == 0,
            r.metadata.nexus_url@.len() == 0,
            r.metadata.description@.len() == 0,
            r.metadata.dependencies@.len() == 0,
    {
        MetadataDialog {
            open: false,
            metadata: ModMetadata::default(),
            action_after: ExportAction::SaveJson,
            dependencies_input: String::new(),
        }
    }
}

/// The first `n` pieces without blanks around them, the empty ones left out.
pub open spec fn kept_pieces(pieces: Seq<Seq<char>>, n: nat) -> Seq<Seq<char>>
    decreases n,
{
    if n == 0 {
        Seq::empty()
    } else {
        let before = kept_pieces(pieces, (n - 1) as nat);
        let t = trimmed(pieces[n - 1]);
        if t.len() == 0 {
            before
        } else {
            before.push(t)
        }
    }
}

/// The names between the commas of a text.
pub open spec fn listed_names(input: Seq<char>) -> Seq<Seq<char>> {
    kept_pieces(split_on(input, ','), split_on(input, ',').len())
}

/// The typed dependencies were taken over into the list, and nothing else changed.
pub open spec fn committed(before: MetadataDialog, after: MetadataDialog) -> bool {
    &&& views(after.metadata.dependencies@) == listed_names(before.dependencies_input@)
    &&& after == (MetadataDialog {
        metadata: ModMetadata {
            dependencies: after.metadata.dependencies,
            ..before.metadata
        },
        ..before
    })
}

impl MetadataDialog {
    /// Opens the dialog for an export. What was typed stays.
    pub fn open_for(&mut self, action: ExportAction)
        ensures
            *final(self) == (MetadataDialog { open: true, action_after: action, ..*old(self) }),
    {
        self.open = true;
        self.action_after = action;
    }

    /// Takes the typed dependencies over into the list.
    pub fn commit_dependencies(&mut self)
        ensures
            committed(*old(self), *final(self)),
    {
        let pieces = split(self.dependencies_input.as_str(), ',');
        let ghost p = split_on(self.dependencies_input@, ',');
        let mut out: Vec<String> = Vec::new();
        let mut i: usize = 0;
        assert(views(out@) =~= Seq::empty());
        while i < pieces.len()
            invariant
                0 <= i <= pieces.len(),
                p == views(pieces@),
                views(out@) == kept_pieces(p, i as nat),
            decreases pieces.len() - i,
        {
            assert(pieces@[i as int]@ == p[i as int]);
            let t = trim(pieces[i].as_str());
            if !t.as_str().is_empty() {
                let ghost o0 = out@;
                let ghost tv = t@;
                out.push(t);
                assert(views(out@) =~= views(o0).push(tv));
            }
            i = i + 1;
        }
        self.metadata.dependencies = out;
    }
}

/// No listed name is empty.
pub proof fn law_listed_names_not_empty(pieces: Seq<Seq<char>>, n: nat)
    requires
        n <= pieces.len(),
    ensures
        forall|k: int|
            0 <= k < kept_pieces(pieces, n).len() ==> (#[trigger] kept_pieces(
                pieces,
                n,
            )[k]).len() > 0,
    decreases n,
{
    if n > 0 {
        law_listed_names_not_empty(pieces, (n - 1) as nat);
        let before = kept_pieces(pieces, (n - 1) as nat);
        assert forall|k: int| 0 <= k < kept_pieces(pieces, n).len() implies (
        #[trigger] kept_pieces(pieces, n)[k]).len() > 0 by {
            if k < before.len() {
                assert(kept_pieces(pieces, n)[k] == before[k]);
            }
        }
    }
}

/// A name of a mod that can stand in a list: it holds no comma, is not empty and
/// has no blanks around it.
pub open spec fn listable(name: Seq<char>) -> bool {
    name.len() > 0 && trimmed(name) == name && !name.contains(',')
}

proof fn lemma_kept_concat(p: Seq<Seq<char>>, q: Seq<Seq<char>>, n: nat)
    requires
        n <= q.len(),
    ensures
        kept_pieces(p + q, p.len() + n) == kept_pieces(p, p.len()) + kept_pieces(q, n),
    decreases n,
{
    if n == 0 {
        lemma_kept_prefix(p + q, p, p.len());
        assert(kept_pieces(p, p.len()) + kept_pieces(q, 0) =~= kept_pieces(p, p.len()));
    } else {
        lemma_kept_concat(p, q, (n - 1) as nat);
        assert((p + q)[p.len() + n - 1] == q[n - 1]);
        assert(kept_pieces(p + q, p.len() + n) =~= kept_pieces(p, p.len()) + kept_pieces(q, n));
    }
}

proof fn lemma_kept_prefix(p: Seq<Seq<char>>, q: Seq<Seq<char>>, n: nat)
    requires
        n <= p.len(),
        n <= q.len(),
        forall|i: int| 0 <= i < n ==> trimmed(#[trigger] p[i]) == trimmed(q[i]),
    ensures
        kept_pieces(p, n) == kept_pieces(q, n),
    decreases n,
{
    if n > 0 {
        lemma_kept_prefix(p, q, (n - 1) as nat);
        assert(trimmed(p[n - 1]) == trimmed(q[n - 1]));
    }
}

/// Blanks behind a list change no name.
proof fn lemma_blanks_behind(s: Seq<char>, white: Seq<char>)
    requires
        all_white(white),
    ensures
        listed_names(s + white) == listed_names(s),
    decreases white.len(),
{
    if white.len() == 0 {
        assert(s + white =~= s);
    } else {
        let init = white.drop_last();
        let t = s + init;
        let c = white.last();
        assert(s + white =~= t.push(c));
        assert(t.push(c).drop_last() =~= t);
        assert(is_white(c));
        lemma_blanks_behind(s, init);
        lemma_split_nonempty(t, ',');
        let (p, q) = (split_on(t, ','), split_on(t.push(c), ','));
        let n = p.len();
        assert(q =~= p.drop_last().push(p.last().push(c)));
        lemma_trimmed_push(p.last(), c);
        assert forall|i: int| 0 <= i < n implies trimmed(#[trigger] q[i]) == trimmed(p[i]) by {
            if i < n - 1 {
                assert(q[i] == p[i]);
            }
        }
        lemma_kept_prefix(q, p, n);
    }
}

proof fn lemma_one_name(white: Seq<char>, name: Seq<char>)
    requires
        all_white(white),
        listable(name),
    ensures
        split_on(white + name, ',') == seq![white + name],
        listed_names(white + name) == seq![name],
{
    let s = white + name;
    assert(!s.contains(',')) by {
        if s.contains(',') {
            let i = choose|i: int| 0 <= i < s.len() && s[i] == ',';
            if i < white.len() {
                assert(is_white(white[i]));
            } else {
                assert(name[i - white.len()] == ',');
            }
        }
    }
    lemma_split_whole(s, ',');
    lemma_trimmed_behind_white(white, name);
    reveal_with_fuel(kept_pieces, 2);
    assert(kept_pieces(seq![s], 1) =~= seq![name]);
}

/// Names that are written with a comma between each two, and with any blanks
/// around the commas, are listed as they were, in order.
pub proof fn law_written_names_are_listed(
    names: Seq<Seq<char>>,
    before: Seq<char>,
    after: Seq<char>,
)
    requires
        forall|i: int| 0 <= i < names.len() ==> listable(#[trigger] names[i]),
        all_white(before),
        all_white(after),
    ensures
        listed_names(joined(names, before + seq![','] + after)) == names,
    decreases names.len(),
{
    let sep = before + seq![','] + after;
    let none = Seq::<char>::empty();
    if names.len() == 0 {
        reveal_with_fuel(kept_pieces, 2);
        assert(split_on(none, ',') =~= seq![none]);
        assert(listed_names(none) =~= names);
    } else if names.len() == 1 {
        lemma_one_name(none, names[0]);
        assert(none + names[0] =~= names[0]);
        assert(seq![names[0]] =~= names);
    } else {
        let init = names.drop_last();
        assert forall|i: int| 0 <= i < init.len() implies listable(#[trigger] init[i]) by {
            assert(init[i] == names[i]);
        }
        law_written_names_are_listed(init, before, after);
        let (a, b) = (joined(init, sep) + before, after + names.last());
        assert(joined(names, sep) =~= a + seq![','] + b);
        lemma_split_concat(a, b, ',');
        let (p, q) = (split_on(a, ','), split_on(b, ','));
        lemma_kept_concat(p, q, q.len());
        lemma_blanks_behind(joined(init, sep), before);
        assert(listable(names[names.len() - 1]));
        lemma_one_name(after, names.last());
        assert(init + seq![names.last()] =~= names);
    }
}

/// Names that are written with a comma, or a comma between two blanks, between
/// each two are listed as they were, in order.
pub proof fn law_joined_names_are_listed(names: Seq<Seq<char>>)
    requires
        forall|i: int| 0 <= i < names.len() ==> listable(#[trigger] names[i]),
    ensures
        listed_names(joined(names, ","@)) == names,
        listed_names(joined(names, " , "@)) == names,
{
    let none = Seq::<char>::empty();
    reveal_strlit(",");
    reveal_strlit(" , ");
    law_written_names_are_listed(names, none, none);
    law_written_names_are_listed(names, seq![' '], seq![' ']);
    assert(none + seq![','] + none =~= ","@);
    assert(seq![' '] + seq![','] + seq![' '] =~= " , "@);
}

/// Taking the typed dependencies over a second time changes nothing.
pub proof fn law_commit_again(first: MetadataDialog, second: MetadataDialog, third: MetadataDialog)
    requires
        committed(first, second),
        committed(second, third),
    ensures
        views(third.metadata.dependencies@) == views(second.metadata.dependencies@),
        third == (MetadataDialog {
            metadata: ModMetadata {
                dependencies: third.metadata.dependencies,
                ..second.metadata
            },
            ..second
        }),
{
}

/// How the dialog ended.
#[derive(Clone, Copy, Debug, PartialEq, Eq, Structural)]
pub enum MetadataDialogOutcome {
    /// The export is to run.
    Confirm(ExportAction),
    Cancel,
}

/// What was clicked in a frame of the dialog.
#[derive(Clone, Copy, Debug, PartialEq, Eq, Structural)]
pub enum DialogClick {
    Nothing,
    Cancel,
    Export,
}

/// How a frame of the dialog ends: with the export or a cancel where one was
/// clicked, with a cancel where the window was closed, else not at all.
pub open spec fn frame_outcome(
    click: DialogClick,
    window_open: bool,
    action: ExportAction,
) -> Option<MetadataDialogOutcome> {
    match click {
        DialogClick::Export => Some(MetadataDialogOutcome::Confirm(action)),
        DialogClick::Cancel => Some(MetadataDialogOutcome::Cancel),
        DialogClick::Nothing => if window_open {
            None
        } else {
            Some(MetadataDialogOutcome::Cancel)
        },
    }
}

/// Ends a frame of the dialog. `window_open` says whether the window itself is
/// still open. An open dialog is closed exactly when the frame has an outcome; a
/// closed one has none and stays as it is until it is opened again.
pub fn finish_frame(
    dialog: &mut MetadataDialog,
    click: DialogClick,
    window_open: bool,
) -> (r: Option<MetadataDialogOutcome>)
    ensures
        !old(dialog).open ==> r is None && *final(dialog) == *old(dialog),
        old(dialog).open ==> {
            &&& r == frame_outcome(click, window_open, old(dialog).action_after)
            &&& final(dialog).open == (r is None)
            &&& if click == DialogClick::Export {
                views(final(dialog).metadata.dependencies@) == listed_names(
                    old(dialog).dependencies_input@,
                )
            } else {
                final(dialog).metadata.dependencies == old(dialog).metadata.dependencies
            }
            &&& *final(dialog) == (MetadataDialog {
                open: final(dialog).open,
                metadata: ModMetadata {
                    dependencies: final(dialog).metadata.dependencies,
                    ..old(dialog).metadata
                },
                ..*old(dialog)
            })
        },
{
    if !dialog.open {
        return None;
    }
    let outcome = match click {
        DialogClick::Export => {
            dialog.commit_dependencies();
            Some(MetadataDialogOutcome::Confirm(dialog.action_after))
        },
        DialogClick::Cancel => Some(MetadataDialogOutcome::Cancel),
        DialogClick::Nothing => if window_open {
            None
        } else {
            Some(MetadataDialogOutcome::Cancel)
        },
    };
    dialog.open = outcome.is_none();
    outcome
}

} // verus!
