//! The panels of the workbench: what each shows, decides and changes.

pub mod archive_panel;
pub mod backup_panel;
pub mod binary_inspector_panel;
pub mod bottom_bar;
pub mod command_palette;
pub mod conflict_panel;
pub mod entry_table;
pub mod field_panel;
pub mod global_search_panel;
pub mod hex_view;
pub mod history_panel;
pub mod library_panel;
pub mod lint_panel;
pub mod metadata_dialog;
pub mod paac_panel;
pub mod paatt_panel;
pub mod paloc_panel;
pub mod pamhc_panel;
pub mod pappt_panel;
pub mod paseq_panel;
pub mod settings_panel;
pub mod tab_bar;
pub mod table_list;
pub mod templates_panel;
pub mod view_tab_bar;
pub mod wizards_panel;
