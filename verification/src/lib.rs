//! Incremental log ingestion and a stable, filterable view over the ingested records.

pub mod app;
pub mod app_block;
pub mod content_line_maker;
pub mod file_finder;
pub mod log_item;
pub mod log_list;
pub mod log_parser;
pub mod matching;
pub mod metadata;
pub mod sorting;
pub mod special_events;
pub mod text;
pub mod theme;
pub mod ui_logger;
pub mod viewer;
