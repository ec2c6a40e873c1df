//! The policy store: the bucket's rule document as the backend keeps it.
//!
//! The backend knows one document per bucket and three calls on it: read it,
//! replace it whole, delete it. This module says which call an intention
//! becomes and what a reply means. The calls themselves are made elsewhere.
//!
//! Reading, editing and writing back is not guarded against a second writer:
//! of two edits made at the same time the later write wins and the earlier one
//! is lost.

use crate::error::{StoreError, StoreErrorView, StoreOperation, ValidationError};
use crate::rule::{LifecycleRule, RuleView};
use crate::rule_set::RuleSet;
use vstd::prelude::*;

verus! {

/// Whether `needle` stands somewhere in `text`, character for character.
pub open spec fn occurs_in(needle: Seq<char>, text: Seq<char>) -> bool {
    exists|at: int|
        0 <= at && at + needle.len() <= text.len() && #[trigger] text.subrange(
            at,
            at + needle.len(),
        ) == needle
}

/// Trusted: `str::contains` of the standard library, called with a string as
/// the pattern. The contract says what its documentation says: the result is
/// true exactly when the pattern matches a part of the text.
#[verifier::external_body]
fn contains_text(text: &str, needle: &str) -> (found: bool)
    ensures
        found == occurs_in(needle@, text@),
{
    text.contains(needle)
}

/// Whether a failure message says that the bucket has no rule document.
pub open spec fn names_missing_document(message: Seq<char>) -> bool {
    occurs_in("NoSuchLifecycleConfiguration"@, message)
}

/// The name of a bucket. It is never empty; nothing else is asked of it.
#[derive(Debug, PartialEq, Eq)]
pub struct BucketId {
    name: String,
}

impl View for BucketId {
    type V = Seq<char>;

    closed spec fn view(&self) -> Seq<char> {
        self.name@
    }
}

impl Clone for BucketId {
    fn clone(&self) -> (copy: BucketId)
        ensures
            copy@ == self@,
    {
        proof {
            use_type_invariant(self);
        }
        BucketId { name: self.name.clone() }
    }
}

impl BucketId {
    #[verifier::type_invariant]
    spec fn named(self) -> bool {
        self.name@.len() > 0
    }

    /// Takes `name` as a bucket name unless it is empty.
    pub fn new(name: String) -> (id: Result<BucketId, ValidationError>)
        ensures
            match id {
                Ok(bucket) => bucket@ == name@ && name@.len() > 0,
                Err(e) => e == ValidationError::EmptyBucket && name@.len() == 0,
            },
    {
        if name.as_str().is_empty() {
            Err(ValidationError::EmptyBucket)
        } else {
            Ok(BucketId { name })
        }
    }

    pub fn as_str(&self) -> (name: &str)
        ensures
            name@ == self@,
            name@.len() > 0,
    {
        proof {
            use_type_invariant(self);
        }
        self.name.as_str()
    }
}

/// A call on the bucket's rule document.
#[derive(Clone, Debug, PartialEq, Eq)]
pub enum StoreRequest {
    /// Read the document.
    Fetch { bucket: String },
    /// Write `rules` as the whole document.
    Replace { bucket: String, rules: Vec<LifecycleRule> },
    /// Delete the document.
    Clear { bucket: String },
}

/// The mathematical content of a `StoreRequest`.
pub enum StoreRequestView {
    Fetch { bucket: Seq<char> },
    Replace { bucket: Seq<char>, rules: Seq<RuleView> },
    Clear { bucket: Seq<char> },
}

impl View for StoreRequest {
    type V = StoreRequestView;

    open spec fn view(&self) -> StoreRequestView {
        match self {
            StoreRequest::Fetch { bucket } => StoreRequestView::Fetch { bucket: bucket@ },
            StoreRequest::Replace { bucket, rules } => StoreRequestView::Replace {
                bucket: bucket@,
                rules: rules.deep_view(),
            },
            StoreRequest::Clear { bucket } => StoreRequestView::Clear { bucket: bucket@ },
        }
    }
}

/// What came back from reading the document.
#[derive(Clone, Debug, PartialEq, Eq)]
pub enum FetchReply {
    /// The backend answered. It may leave the rule list out altogether.
    Document { rules: Option<Vec<LifecycleRule>> },
    /// The call failed; `message` is the failure in the backend's words.
    Failure { message: String },
}

/// The mathematical content of a `FetchReply`.
pub enum FetchReplyView {
    Document { rules: Option<Seq<RuleView>> },
    Failure { message: Seq<char> },
}

impl View for FetchReply {
    type V = FetchReplyView;

    open spec fn view(&self) -> FetchReplyView {
        match self {
            FetchReply::Document { rules } => FetchReplyView::Document {
                rules: match rules {
                    Some(r) => Some(r.deep_view()),
                    None => None,
                },
            },
            FetchReply::Failure { message } => FetchReplyView::Failure { message: message@ },
        }
    }
}

/// The rules that a reply to reading the document of `bucket` stands for.
///
/// A bucket without a document, a document without a rule list and a document
/// with an empty rule list all read as no rules: which of the three it was
/// cannot be told from the result. Any other failure is passed on.
pub open spec fn rules_read(bucket: Seq<char>, reply: FetchReplyView) -> Result<
    Seq<RuleView>,
    StoreErrorView,
> {
    match reply {
        FetchReplyView::Document { rules: Some(rules) } => Ok(rules),
        FetchReplyView::Document { rules: None } => Ok(Seq::empty()),
        FetchReplyView::Failure { message } => if names_missing_document(message) {
            Ok(Seq::empty())
        } else {
            Err(
                StoreErrorView::Transport {
                    operation: StoreOperation::GetLifecycleConfiguration,
                    bucket,
                    cause: message,
                },
            )
        },
    }
}

/// The call that makes `rules` the document of `bucket`. The backend turns
/// down a document without rules, so no rules means deleting the document.
pub open spec fn persisting(bucket: Seq<char>, rules: Seq<RuleView>) -> StoreRequestView {
    if rules.len() == 0 {
        StoreRequestView::Clear { bucket }
    } else {
        StoreRequestView::Replace { bucket, rules }
    }
}

/// The rule document of one bucket, seen from the caller's side.
#[derive(Clone, Debug, PartialEq, Eq)]
pub struct LifecyclePolicyStore {
    bucket: BucketId,
}

impl LifecyclePolicyStore {
    /// The name of the bucket whose document this is.
    pub closed spec fn bucket(&self) -> Seq<char> {
        self.bucket@
    }

    pub fn new(bucket: BucketId) -> (store: LifecyclePolicyStore)
        ensures
            store.bucket() == bucket@,
    {
        LifecyclePolicyStore { bucket }
    }

    pub fn bucket_name(&self) -> (name: &str)
        ensures
            name@ == self.bucket(),
    {
        self.bucket.as_str()
    }

    /// The call that reads the document.
    pub fn fetch(&self) -> (request: StoreRequest)
        ensures
            request@ == (StoreRequestView::Fetch { bucket: self.bucket() }),
    {
        StoreRequest::Fetch { bucket: self.bucket.as_str().to_owned() }
    }

    /// Says what a reply to `fetch` means.
    pub fn fetched(&self, reply: FetchReply) -> (outcome: Result<RuleSet, StoreError>)
        ensures
            match outcome {
                Ok(set) => rules_read(self.bucket(), reply@) == Ok::<
                    Seq<RuleView>,
                    StoreErrorView,
                >(set@),
                Err(e) => rules_read(self.bucket(), reply@) == Err::<
                    Seq<RuleView>,
                    StoreErrorView,
                >(e@),
            },
    {
        match reply {
            FetchReply::Document { rules: Some(rules) } => Ok(RuleSet::from_rules(rules)),
            FetchReply::Document { rules: None } => Ok(RuleSet::new()),
            FetchReply::Failure { message } => {
                if contains_text(message.as_str(), "NoSuchLifecycleConfiguration") {
                    Ok(RuleSet::new())
                } else {
                    Err(
                        StoreError::Transport {
                            operation: StoreOperation::GetLifecycleConfiguration,
                            bucket: self.bucket.as_str().to_owned(),
                            cause: message,
                        },
                    )
                }
            },
        }
    }

    /// The call that writes `rules` as the whole document. A set without rules
    /// cannot be written: that intention goes through `clear`.
    pub fn replace(&self, rules: RuleSet) -> (request: Result<StoreRequest, ValidationError>)
        ensures
            match request {
                Ok(r) => rules@.len() > 0 && r@ == (StoreRequestView::Replace {
                    bucket: self.bucket(),
                    rules: rules@,
                }),
                Err(e) => rules@.len() == 0 && e == ValidationError::EmptyRuleSet,
            },
    {
        if rules.is_empty() {
            Err(ValidationError::EmptyRuleSet)
        } else {
            Ok(
                StoreRequest::Replace {
                    bucket: self.bucket.as_str().to_owned(),
                    rules: rules.into_rules(),
                },
            )
        }
    }

    /// The call that deletes the document.
    pub fn clear(&self) -> (request: StoreRequest)
        ensures
            request@ == (StoreRequestView::Clear { bucket: self.bucket() }),
    {
        StoreRequest::Clear { bucket: self.bucket.as_str().to_owned() }
    }

    /// The call that leaves the bucket with exactly `rules`: `clear` for a set
    /// without rules, `replace` for any other.
    pub fn persist(&self, rules: RuleSet) -> (request: StoreRequest)
        ensures
            request@ == persisting(self.bucket(), rules@),
    {
        if rules.is_empty() {
            self.clear()
        } else {
            StoreRequest::Replace {
                bucket: self.bucket.as_str().to_owned(),
                rules: rules.into_rules(),
            }
        }
    }

    /// Says what the reply to a write (`replace` or `clear`) means: a failure
    /// is passed on with the call and the bucket it belongs to.
    pub fn written(&self, operation: StoreOperation, reply: Result<(), String>) -> (outcome: Result<
        (),
        StoreError,
    >)
        ensures
            match reply {
                Ok(_) => outcome is Ok,
                Err(cause) => outcome is Err && outcome->Err_0@ == (StoreErrorView::Transport {
                    operation,
                    bucket: self.bucket(),
                    cause: cause@,
                }),
            },
    {
        match reply {
            Ok(_) => Ok(()),
            Err(cause) => Err(
                StoreError::Transport {
                    operation,
                    bucket: self.bucket.as_str().to_owned(),
                    cause,
                },
            ),
        }
    }
}

/// A write never carries a document without rules, and the document is
/// deleted exactly when no rules are to be left.
pub proof fn lemma_no_rules_means_clear(bucket: Seq<char>, rules: Seq<RuleView>)
    ensures
        persisting(bucket, rules) is Clear <==> rules.len() == 0,
        persisting(bucket, rules) matches StoreRequestView::Replace { rules: written, .. }
            ==> written.len() > 0,
        !(persisting(bucket, rules) is Fetch),
{
}

} // verus!
