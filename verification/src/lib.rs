//! Core logic of an interactive terminal client for OpenAPI-described HTTP
//! APIs: an operation catalog with filtering and tagging, a schema navigator
//! with drill-down/back history, a request pipeline that assembles wire
//! requests from editable drafts, a session/history cache, and the focus and
//! action routing that ties the interactive state together.
//!
//! Terminal rendering, document parsing and network execution live outside
//! this crate; the types here hold the plain values that the logic reads.

pub mod action;
pub mod address;
pub mod apis;
pub mod app;
pub mod body_editor;
pub mod footer;
pub mod history;
pub mod home;
pub mod openapi;
pub mod parameter_editor;
pub mod phone;
pub mod request;
pub mod request_pane;
pub mod response;
pub mod response_pane;
pub mod response_viewer;
pub mod schema;
pub mod schema_viewer;
pub mod state;
pub mod table;
pub mod tags;
pub mod text;
