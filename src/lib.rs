//! A local clipboard history: content-addressed entries, previews and the
//! ordered manifest that records them.

pub mod size;
pub mod text;
pub mod classify;
pub mod store;
pub mod commands;
pub mod laws;
pub mod args_parser;
