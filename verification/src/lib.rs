//! Verified building blocks for PlayStation 2 save archives: PSU archives,
//! ICN icons, icon.sys metadata, title.cfg files, memory-card images and the
//! rules the packer uses to select files and timestamps.

pub mod color;
pub mod text;
pub mod bytes;
pub mod psu;
pub mod io_error;
pub mod bin;
pub mod icn;
pub mod sjis;
pub mod icon_title;
pub mod icon_sys;
pub mod numparse;
pub mod packer;
pub mod packing;
pub mod title_cfg;
pub mod memcard;
pub mod project;
pub mod shortcut;
pub mod mcd;
pub mod timestamp_rules;
pub mod summary;
pub mod viewer;
pub mod builder_state;
pub mod title_cfg_form;
pub mod icon_presets;
