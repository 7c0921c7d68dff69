//! Core of the pixui UI framework: source spans and diagnostics, the type map,
//! the UI description lexer and parser, and the rules that resolve named
//! components into render steps.

pub mod ansi;
pub mod span;
pub mod text;
pub mod diagnostic_level;
pub mod compilation_stage;
pub mod source_annotation;
pub mod source_excerpt;
pub mod source_diagnostic;
pub mod source_file;
pub mod line_bounds;
pub mod line_diagnostic;
pub mod assertion_error;
pub mod error;
pub mod ui_description;
pub mod type_map;
pub mod timestamp;
pub mod draw;
pub mod lines;

pub use ansi::unansi;
pub mod render_source_diagnostics;
pub mod cli;
pub mod component;
pub mod components;
pub mod entity;
pub mod event_dispatch;
pub mod event_handler;
