//! Editing logic of a GIF editor: motion edits, layer conversion, project
//! insertion, previews, titles, presets and the decisions behind its toolbars.
//!
//! Every item carries a contract over mathematical views of the project data.
#![allow(unused_imports)]

pub mod authoring;
pub mod cancel;
pub mod content;
pub mod conversion;
pub mod conversion_edit;
pub mod conversion_run;
pub mod export_presets;
pub mod frames;
pub mod geometry;
pub mod identity;
pub mod ids;
pub mod insert_assets;
pub mod insert_checks;
pub mod insert_edit;
pub mod insert_prepare;
pub mod layers;
pub mod layout;
pub mod lru;
pub mod memory;
pub mod motion;
pub mod motion_bake;
pub mod motion_course;
pub mod motion_loop;
pub mod motion_pixels;
pub mod motion_render;
pub mod motion_stage;
pub mod motion_still;
pub mod overlay;
pub mod playback;
pub mod presets;
pub mod preview;
pub mod preview_cache;
pub mod preview_load;
pub mod project;
pub mod shifting;
pub mod spans;
pub mod surface;
pub mod text;
pub mod time;
pub mod title;
pub mod ui_build;
pub mod ui_input;
pub mod ui_labels;
pub mod ui_lists;
pub mod ui_requests;
pub mod ui_results;
pub mod ui_state;
pub mod value;
