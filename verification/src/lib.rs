//! Lifecycle policy editing and bulk re-tiering for bucket-style object stores.
//!
//! The crate holds the decisions only: which rules a bucket ends up with after
//! an edit, which request persists them, and what a bulk archival job asks of
//! the backend next. Talking to the backend is left to the caller, who hands
//! every reply back as a plain value.
//!
//! - `rule`, `rule_set`: lifecycle rules, their validation, and the edits of a
//!   bucket's rules.
//! - `store`, `edit`: the rule document of a bucket and the call that persists
//!   an edit.
//! - `archive`, `replay`: the bulk archival job, step by step, and what holds
//!   of its whole runs.
//! - `storage_class`, `error`, `text`: tiers, rejections, and a helper for
//!   text shown to the operator.

pub mod archive;
pub mod edit;
pub mod error;
pub mod replay;
pub mod rule;
pub mod rule_set;
pub mod storage_class;
pub mod store;
pub mod text;
