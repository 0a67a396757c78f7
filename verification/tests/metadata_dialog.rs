use mod_workbench::ui::metadata_dialog::{
    finish_frame, DialogClick, ExportAction, MetadataDialog, MetadataDialogOutcome,
};

#[test]
fn test_commit_dependencies_splits_and_trims() {
    let mut d = MetadataDialog::default();
    d.dependencies_input = " a,  b , ,c ".to_string();
    d.commit_dependencies();
    assert_eq!(d.metadata.dependencies, vec!["a", "b", "c"]);
}

#[test]
fn test_commit_dependencies_empty_input_clears_vec() {
    let mut d = MetadataDialog::default();
    d.metadata.dependencies = vec!["existing".into()];
    d.dependencies_input = "".to_string();
    d.commit_dependencies();
    assert!(d.metadata.dependencies.is_empty());
}

#[test]
fn test_open_for_sets_action_and_open() {
    let mut d = MetadataDialog::default();
    assert!(!d.open);
    d.open_for(ExportAction::SaveModpkg);
    assert!(d.open);
    assert_eq!(d.action_after, ExportAction::SaveModpkg);
}

#[test]
fn test_export_action_label() {
    assert_eq!(ExportAction::SaveJson.label(), "Export as Workbench JSON");
    assert_eq!(ExportAction::SaveModpkg.label(), "Export as .modpkg");
    assert_eq!(ExportAction::SaveDmm.label(), "Export as DMM v3 Intent JSON");
    assert_eq!(
        ExportAction::SaveDmmModFolder.label(),
        "Export as DMM Mod Folder"
    );
}

#[test]
fn a_frame_ends_with_an_export_a_cancel_or_not() {
    let mut d = MetadataDialog::default();
    d.open_for(ExportAction::SaveDmm);
    assert!(finish_frame(&mut d, DialogClick::Nothing, true).is_none());
    assert!(d.open);
    assert!(matches!(
        finish_frame(&mut d, DialogClick::Export, true),
        Some(MetadataDialogOutcome::Confirm(ExportAction::SaveDmm))
    ));
    assert!(!d.open);
    d.open_for(ExportAction::SaveJson);
    assert!(matches!(
        finish_frame(&mut d, DialogClick::Nothing, false),
        Some(MetadataDialogOutcome::Cancel)
    ));
    d.open_for(ExportAction::SaveJson);
    assert!(matches!(
        finish_frame(&mut d, DialogClick::Cancel, true),
        Some(MetadataDialogOutcome::Cancel)
    ));
    assert!(!d.open);
}

#[test]
fn a_closed_dialog_has_no_outcome_and_stays_closed() {
    let mut d = MetadataDialog::default();
    d.open_for(ExportAction::SaveJson);
    d.dependencies_input = "a".to_string();
    assert!(finish_frame(&mut d, DialogClick::Export, true).is_some());
    d.dependencies_input = "b".to_string();
    for click in [DialogClick::Nothing, DialogClick::Cancel, DialogClick::Export] {
        for window_open in [false, true] {
            assert!(finish_frame(&mut d, click, window_open).is_none());
            assert!(!d.open);
        }
    }
    assert_eq!(d.metadata.dependencies, vec!["a"]);
    d.open_for(ExportAction::SaveModpkg);
    assert_eq!(
        finish_frame(&mut d, DialogClick::Export, true),
        Some(MetadataDialogOutcome::Confirm(ExportAction::SaveModpkg))
    );
}

#[test]
fn written_names_are_listed_as_they_were() {
    let names = vec!["Cool Mod", "b", "b", "ü"];
    let mut d = MetadataDialog::default();
    for sep in [",", " , ", ",\t"] {
        d.metadata.dependencies = vec!["existing".to_string()];
        d.dependencies_input = names.join(sep);
        d.commit_dependencies();
        assert_eq!(d.metadata.dependencies, names);
        d.commit_dependencies();
        assert_eq!(d.metadata.dependencies, names);
        assert_eq!(d.dependencies_input, names.join(sep));
    }
}
