//! What the operations of the workbench are for: what their results must satisfy,
//! whatever is put in, and how two of them relate.

pub mod charts;
pub mod contents;
pub mod details;
pub mod displays;
pub mod documents;
pub mod editors;
pub mod entries;
pub mod fields;
pub mod formats;
pub mod labels;
pub mod lookup;
pub mod mods;
pub mod records;
pub mod search;
pub mod texts;
pub mod tools;
pub mod values;
pub mod windows;
pub mod workflow;
