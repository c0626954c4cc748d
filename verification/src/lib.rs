pub mod ansi;
pub mod app;
pub mod buffer;
pub mod config;
pub mod event;
pub mod listing;
pub mod llm;
pub mod markdown;
pub mod mcp;
pub mod pump;
pub mod sgr;
pub mod ssh;
pub mod style;
pub mod terminal;
pub mod theme;
pub mod text;
pub mod wrap;
