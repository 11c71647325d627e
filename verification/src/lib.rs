//! The editing core of a pixel sprite editor: packed colours, pixel buffers,
//! drawing primitives, flood fill, selections and the editor's state.

pub mod rgb_utils;
pub mod rhandle;
pub mod select_rect;
pub mod sprite;
pub mod draw;
pub mod fill;
pub mod transform;
pub mod ellipse;
pub mod edit_area;
pub mod tools;
pub mod shape_tools;
pub mod select_tool;
pub mod events;
pub mod undo;
pub mod palette;
pub mod sprites_bar;
