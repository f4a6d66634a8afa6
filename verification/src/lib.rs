use vstd::prelude::*;

pub mod dds;
pub mod sort;
pub mod le;
pub mod paths;
pub mod text;
pub mod static_tree;
pub mod tex;
pub mod mtrl;
pub mod ui_enums;
pub mod file_dialog;
pub mod input;
pub mod plugin;
pub mod ui_texture;
pub mod uld;
pub mod uld_enums;
pub mod views;
pub mod convert;
pub mod cli;
pub mod reorder;
pub mod mod_tree;
pub mod meta_edit;
pub mod composite;

verus! {

} // verus!
