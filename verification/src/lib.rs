use vstd::prelude::*;

pub mod text;
pub mod version_check;
pub mod datetime;
pub mod model;
pub mod notifications;
pub mod keys;
pub mod auth;
pub mod interactive;
pub mod mcp;
pub mod config;
pub mod jql;
pub mod issue_input;
pub mod issue_updates;
pub mod versions;
pub mod manifest;
pub mod summaries;
pub mod activity;
pub mod api;
pub mod board;
pub mod plan;
pub mod columns;
pub mod tui_prefs;
pub mod tui_modal;
pub mod tui_app;
pub mod tui_layout;
pub mod tui_submit;
pub mod sprints;
pub mod version_views;
pub mod custom_fields;
pub mod clone;
pub mod issue_views;
pub mod bulk_ops;
pub mod jql_builder;
pub mod picker;
pub mod profile_views;
pub mod field_list;
pub mod detail_tabs;
pub mod issue_links;
pub mod startup;

verus! {

} // verus!
