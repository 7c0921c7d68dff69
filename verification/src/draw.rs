//! Drawing data that the engine's draw lists refer to.
pub mod brush;
pub mod color;
pub mod style_id;
pub mod component_draw_system;
pub mod svg_renderer;
