//! Verified core of a file-operations toolkit for coding agents.
pub mod log_level;
pub mod text;
pub mod edit_context;
pub mod line_edit;
pub mod similarity;
pub mod pattern;
pub mod grep_edit;
pub mod json_edit;
pub mod advisory;
pub mod error;
pub mod response;
pub mod checkbox;
pub mod kind;
pub mod doc;
pub mod section;
pub mod targets;
pub mod undo;
pub mod observe;
pub mod search;
pub mod syslog;
pub mod heuristics;
pub mod execution;
pub mod project_root;
pub mod digest;
pub mod mutate;
pub mod stamp;
pub mod session;
pub mod listing;
pub mod git;
pub mod meta;
pub mod analyze;
pub mod transaction;
pub mod advice;
pub mod policy;
pub mod paths;
pub mod tail;
