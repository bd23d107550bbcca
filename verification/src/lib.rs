use vstd::prelude::*;

pub mod text;
pub mod alias;
pub mod verbose;
pub mod url_parts;
pub mod repo;
pub mod config;
pub mod json;
pub mod run;
pub mod runner;
pub mod api;
pub mod time;
pub mod issue;
pub mod pull;
pub mod notification;
pub mod status;
pub mod auth;
pub mod release;
pub mod label;
pub mod milestone;
pub mod org;
pub mod secret;
pub mod keys;
pub mod repo_cmd;
pub mod search;
pub mod workflow;
pub mod project;
pub mod config_cmd;
pub mod alias_doc;
pub mod paginate;
pub mod body;
pub mod compose;
pub mod run_lines;

verus! {
}
