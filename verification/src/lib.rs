//! GPU trace viewer.
pub mod batching;
pub mod body;
pub mod calls_csv;
pub mod category;
pub mod columns;
pub mod db;
pub mod decimal;
pub mod event;
pub mod http;
pub mod importer;
pub mod json;
pub mod listing;
pub mod meaning;
pub mod measure;
pub mod panel;
pub mod query;
pub mod readback;
pub mod record;
pub mod selection;
pub mod source;
pub mod stream;
pub mod summary;
pub mod table;
pub mod text;
pub mod title;
pub mod trace;
pub mod tui;
pub mod view;
pub mod web;
