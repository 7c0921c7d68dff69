//! Syntax tree of a UI description.
pub mod ui_element;
pub mod ui_property;
