//! Verified core of a remote workspace for coding agents.

pub mod agent_jobs;
pub mod chat_request;
pub mod chat_stream;
pub mod continue_thinking;
pub mod fold;
pub mod goal_flow;
pub mod goal_requests;
pub mod goals;
pub mod json;
pub mod memories;
pub mod memory_outputs;
pub mod migrations;
pub mod models;
pub mod protocol;
pub mod redaction;
pub mod search_budget;
pub mod sql;
pub mod sse;
pub mod startup_claims;
pub mod store_error;
pub mod text;
pub mod thread_document;
pub mod thread_id;
pub mod thread_list;
pub mod thread_pages;
pub mod thread_records;
pub mod thread_search;
pub mod thread_store;
pub mod time;
pub mod version;
