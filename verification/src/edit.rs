//! Policy edits: what to write after a rule was created or deleted.
//!
//! An edit is computed on the rules as they were read and comes out as the one
//! call that persists it. The rule document is always written whole.

use crate::error::ValidationError;
use crate::rule::{validate, LifecycleRule, RuleView};
use crate::rule_set::{has_id, lemma_without_id_leaves_nothing, upserted, without_id, RuleSet};
use crate::store::{persisting, LifecyclePolicyStore, StoreRequest, StoreRequestView};
use vstd::prelude::*;

verus! {

/// What deleting a rule comes to.
#[derive(Clone, Debug, PartialEq, Eq)]
pub enum DeletePlan {
    /// No rule carries the id. Nothing is written; this is an answer, not a
    /// failure.
    NotFound,
    /// The rule was there; `0` leaves the bucket with the remaining rules.
    Write(StoreRequest),
}

/// Creates `rule` in the bucket of `store`, whose rules are `existing`: the call
/// that writes the rules with `rule` put in. A rule that may not be stored is
/// turned down and nothing is to be written.
pub fn create_lifecycle_rule(
    store: &LifecyclePolicyStore,
    existing: RuleSet,
    rule: LifecycleRule,
) -> (request: Result<StoreRequest, ValidationError>)
    ensures
        match request {
            Ok(r) => rule@.validation() is Ok && r@ == (StoreRequestView::Replace {
                bucket: store.bucket(),
                rules: upserted(existing@, rule@),
            }),
            Err(e) => rule@.validation() == Err::<(), ValidationError>(e),
        },
{
    match validate(&rule) {
        Ok(()) => Ok(store.persist(existing.upsert(rule))),
        Err(e) => Err(e),
    }
}

/// Deletes the rule named `id` from the bucket of `store`, whose rules are
/// `existing`. Where no rule is left the document is deleted, never written
/// empty.
pub fn delete_lifecycle_rule(store: &LifecyclePolicyStore, existing: RuleSet, id: &str) -> (plan:
    DeletePlan)
    ensures
        match plan {
            DeletePlan::NotFound => !has_id(existing@, id@),
            DeletePlan::Write(request) => has_id(existing@, id@) && request@ == persisting(
                store.bucket(),
                without_id(existing@, id@),
            ),
        },
{
    let (remaining, found) = existing.remove(id);
    if !found {
        DeletePlan::NotFound
    } else {
        DeletePlan::Write(store.persist(remaining))
    }
}

/// Deleting the rules named `id` deletes the document exactly when every rule
/// carried that id, as the only rule of a bucket does. In every other case the
/// rules that are left are written, and there is at least one.
pub proof fn lemma_delete_to_empty_clears(bucket: Seq<char>, rules: Seq<RuleView>, id: Seq<char>)
    ensures
        persisting(bucket, without_id(rules, id)) is Clear <==> (forall|i: int|
            0 <= i < rules.len() ==> (#[trigger] rules[i]).id == id),
        rules.len() == 1 && rules[0].id == id ==> persisting(bucket, without_id(rules, id))
            == (StoreRequestView::Clear { bucket }),
{
    lemma_without_id_leaves_nothing(rules, id);
}

} // verus!
