//! The ways a request can be turned down before or after it reaches the backend.

use vstd::prelude::*;

verus! {

/// Why an input was rejected. A rejection is always decided locally, before
/// anything is asked of the backend.
#[derive(Clone, Copy, Debug, PartialEq, Eq, Structural)]
pub enum ValidationError {
    /// The rule neither moves objects to another tier nor expires them.
    NoAction,
    /// A transition or the expiration is set to happen after a negative number of days.
    NegativeDays,
    /// A colder tier is reached earlier than a warmer one.
    TransitionOrder,
    /// The tier is not one that objects can be archived to.
    InvalidTargetClass,
    /// The bucket name is empty.
    EmptyBucket,
    /// A rule document without rules was to be written.
    EmptyRuleSet,
}

/// The policy calls of the backend.
#[derive(Clone, Copy, Debug, PartialEq, Eq, Structural)]
pub enum StoreOperation {
    GetLifecycleConfiguration,
    PutLifecycleConfiguration,
    DeleteLifecycleConfiguration,
}

/// A policy call that the backend did not carry out.
#[derive(Clone, Debug, PartialEq, Eq)]
pub enum StoreError {
    /// The network, the credentials or the backend itself failed. `cause` is
    /// the backend's own account of it, unchanged.
    Transport { operation: StoreOperation, bucket: String, cause: String },
}

/// What `StoreError` says, with texts as sequences of characters.
pub enum StoreErrorView {
    Transport { operation: StoreOperation, bucket: Seq<char>, cause: Seq<char> },
}

impl View for StoreError {
    type V = StoreErrorView;

    open spec fn view(&self) -> StoreErrorView {
        match self {
            StoreError::Transport { operation, bucket, cause } => StoreErrorView::Transport {
                operation: *operation,
                bucket: bucket@,
                cause: cause@,
            },
        }
    }
}

} // verus!
