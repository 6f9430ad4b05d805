//! Core of an interactive application launcher: query resolution, result
//! ordering, the edit buffer and selection, key-repeat emulation and the
//! software canvas the launcher paints into.

pub mod render_canvas;
pub mod text;
pub mod sprint_config;
pub mod results;
pub mod exec_line;
pub mod entry_box;
pub mod input_box;
pub mod repeat;
pub mod launcher;
