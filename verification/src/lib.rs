//! Task bookkeeping for a small family task manager: the task model, the
//! grouping rules behind the task-list views, the in-memory task cache and
//! the OAuth bookkeeping of the MCP endpoint.

pub mod cache;
pub mod flush;
pub mod groups;
pub mod ids;
pub mod laws;
pub mod led;
pub mod mcp;
pub mod oauth;
pub mod present;
pub mod recent;
pub mod relative;
pub mod report;
pub mod search;
pub mod sort;
pub mod task;
pub mod text;
pub mod time;
pub mod upcoming;
pub mod views;
pub mod web;
