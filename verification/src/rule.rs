//! Lifecycle rules: what they hold, how one is put together from the operator's
//! wishes, and which rules are fit to be stored.

use crate::error::ValidationError;
use crate::storage_class::StorageClass;
use vstd::prelude::*;

verus! {

/// A scheduled move to another tier, `days` after an object was created.
#[derive(Clone, Copy, Debug, PartialEq, Eq, Structural)]
pub struct Transition {
    pub days: i32,
    pub storage_class: StorageClass,
}

/// A named policy on a bucket. `id` is its key within the bucket's rule set; an
/// empty `prefix` matches every object.
#[derive(Clone, Debug, PartialEq, Eq)]
pub struct LifecycleRule {
    pub id: String,
    pub enabled: bool,
    pub prefix: String,
    pub transitions: Vec<Transition>,
    pub expiration_days: Option<i32>,
}

/// The mathematical content of a `LifecycleRule`.
pub struct RuleView {
    pub id: Seq<char>,
    pub enabled: bool,
    pub prefix: Seq<char>,
    pub transitions: Seq<Transition>,
    pub expiration_days: Option<i32>,
}

impl View for LifecycleRule {
    type V = RuleView;

    open spec fn view(&self) -> RuleView {
        RuleView {
            id: self.id@,
            enabled: self.enabled,
            prefix: self.prefix@,
            transitions: self.transitions@,
            expiration_days: self.expiration_days,
        }
    }
}

impl DeepView for LifecycleRule {
    type V = RuleView;

    open spec fn deep_view(&self) -> RuleView {
        self@
    }
}

/// Whether some transition in `transitions` is due after a negative number of days.
pub open spec fn some_negative(transitions: Seq<Transition>) -> bool {
    exists|i: int| 0 <= i < transitions.len() && (#[trigger] transitions[i]).days < 0
}

/// Whether the thresholds follow the coldness of the tiers: no transition to a
/// colder tier is due before a transition to a warmer one. Transitions to the
/// same tier are not held against each other.
pub open spec fn follows_coldness(transitions: Seq<Transition>) -> bool {
    forall|i: int, j: int|
        #![trigger transitions[i], transitions[j]]
        0 <= i < transitions.len() && 0 <= j < transitions.len()
            && transitions[i].storage_class.coldness() < transitions[j].storage_class.coldness()
            ==> transitions[i].days <= transitions[j].days
}

impl RuleView {
    /// A rule that does nothing: it has no transition and no expiration.
    pub open spec fn is_noop(self) -> bool {
        self.transitions.len() == 0 && self.expiration_days is None
    }

    /// Some day count in the rule is negative.
    pub open spec fn has_negative_days(self) -> bool {
        some_negative(self.transitions) || (self.expiration_days matches Some(d) && d < 0)
    }

    /// The verdict on the rule. Of several defects the first in this order is
    /// reported: no action, negative days, thresholds against the coldness order.
    pub open spec fn validation(self) -> Result<(), ValidationError> {
        if self.is_noop() {
            Err(ValidationError::NoAction)
        } else if self.has_negative_days() {
            Err(ValidationError::NegativeDays)
        } else if !follows_coldness(self.transitions) {
            Err(ValidationError::TransitionOrder)
        } else {
            Ok(())
        }
    }
}

fn any_negative(transitions: &Vec<Transition>) -> (found: bool)
    ensures
        found == some_negative(transitions@),
{
    let mut i: usize = 0;
    while i < transitions.len()
        invariant
            i <= transitions.len(),
            forall|k: int| 0 <= k < i ==> (#[trigger] transitions@[k]).days >= 0,
        decreases transitions.len() - i,
    {
        if transitions[i].days < 0 {
            return true;
        }
        i += 1;
    }
    false
}

fn thresholds_follow_coldness(transitions: &Vec<Transition>) -> (ok: bool)
    ensures
        ok == follows_coldness(transitions@),
{
    let n: usize = transitions.len();
    let mut i: usize = 0;
    while i < n
        invariant
            n == transitions.len(),
            i <= n,
            forall|a: int, b: int|
                #![trigger transitions@[a], transitions@[b]]
                0 <= a < i && 0 <= b < n
                    && transitions@[a].storage_class.coldness()
                    < transitions@[b].storage_class.coldness()
                    ==> transitions@[a].days <= transitions@[b].days,
        decreases n - i,
    {
        let mut j: usize = 0;
        while j < n
            invariant
                n == transitions.len(),
                i < n,
                j <= n,
                forall|b: int|
                    #![trigger transitions@[b]]
                    0 <= b < j && transitions@[i as int].storage_class.coldness()
                        < transitions@[b].storage_class.coldness()
                        ==> transitions@[i as int].days <= transitions@[b].days,
            decreases n - j,
        {
            let warmer = transitions[i];
            let colder = transitions[j];
            if warmer.storage_class.rank() < colder.storage_class.rank() && warmer.days
                > colder.days {
                return false;
            }
            j += 1;
        }
        i += 1;
    }
    true
}

/// Decides whether `rule` may be stored. It may not when it does nothing, when
/// a day count is negative, or when a colder tier is due before a warmer one.
pub fn validate(rule: &LifecycleRule) -> (verdict: Result<(), ValidationError>)
    ensures
        verdict == rule@.validation(),
{
    if rule.transitions.len() == 0 && rule.expiration_days.is_none() {
        return Err(ValidationError::NoAction);
    }
    let negative_expiration = match rule.expiration_days {
        Some(d) => d < 0,
        None => false,
    };
    if any_negative(&rule.transitions) || negative_expiration {
        return Err(ValidationError::NegativeDays);
    }
    if !thresholds_follow_coldness(&rule.transitions) {
        return Err(ValidationError::TransitionOrder);
    }
    Ok(())
}

/// A rule that does nothing is turned down, whatever its id, its prefix and
/// its status.
pub proof fn lemma_noop_is_rejected(rule: RuleView)
    requires
        rule.is_noop(),
    ensures
        rule.validation() == Err::<(), ValidationError>(ValidationError::NoAction),
{
}

/// What the operator asks for when creating a rule: the thresholds of the three
/// scheduled tiers, each optional, and the expiration.
#[derive(Clone, Debug, PartialEq, Eq)]
pub struct RuleDraft {
    pub id: String,
    pub prefix: Option<String>,
    pub ia_days: Option<i32>,
    pub glacier_days: Option<i32>,
    pub deep_archive_days: Option<i32>,
    pub expiration_days: Option<i32>,
    pub enabled: bool,
}

/// The mathematical content of a `RuleDraft`.
pub struct DraftView {
    pub id: Seq<char>,
    pub prefix: Option<Seq<char>>,
    pub ia_days: Option<i32>,
    pub glacier_days: Option<i32>,
    pub deep_archive_days: Option<i32>,
    pub expiration_days: Option<i32>,
    pub enabled: bool,
}

impl View for RuleDraft {
    type V = DraftView;

    open spec fn view(&self) -> DraftView {
        DraftView {
            id: self.id@,
            prefix: match self.prefix {
                Some(p) => Some(p@),
                None => None,
            },
            ia_days: self.ia_days,
            glacier_days: self.glacier_days,
            deep_archive_days: self.deep_archive_days,
            expiration_days: self.expiration_days,
            enabled: self.enabled,
        }
    }
}

/// The transition to `storage_class` after `days`, where a threshold is given.
pub open spec fn scheduled(days: Option<i32>, storage_class: StorageClass) -> Seq<Transition> {
    match days {
        Some(d) => seq![Transition { days: d, storage_class }],
        None => Seq::empty(),
    }
}

impl DraftView {
    /// The transitions asked for, warmest tier first.
    pub open spec fn transitions(self) -> Seq<Transition> {
        scheduled(self.ia_days, StorageClass::StandardIa) + scheduled(
            self.glacier_days,
            StorageClass::Glacier,
        ) + scheduled(self.deep_archive_days, StorageClass::DeepArchive)
    }

    /// The rule asked for. Without a prefix it matches every object.
    pub open spec fn rule(self) -> RuleView {
        RuleView {
            id: self.id,
            enabled: self.enabled,
            prefix: match self.prefix {
                Some(p) => p,
                None => Seq::empty(),
            },
            transitions: self.transitions(),
            expiration_days: self.expiration_days,
        }
    }
}

impl RuleDraft {
    /// Puts the rule together, without judging it.
    pub fn build(self) -> (rule: LifecycleRule)
        ensures
            rule@ == self@.rule(),
    {
        let ghost draft = self@;
        let mut transitions: Vec<Transition> = Vec::new();
        if let Some(days) = self.ia_days {
            transitions.push(Transition { days, storage_class: StorageClass::StandardIa });
        }
        if let Some(days) = self.glacier_days {
            transitions.push(Transition { days, storage_class: StorageClass::Glacier });
        }
        if let Some(days) = self.deep_archive_days {
            transitions.push(Transition { days, storage_class: StorageClass::DeepArchive });
        }
        assert(transitions@ =~= draft.transitions());
        let prefix = match self.prefix {
            Some(p) => p,
            None => String::new(),
        };
        LifecycleRule {
            id: self.id,
            enabled: self.enabled,
            prefix,
            transitions,
            expiration_days: self.expiration_days,
        }
    }

    /// Puts the rule together and hands it out if it may be stored.
    pub fn into_rule(self) -> (outcome: Result<LifecycleRule, ValidationError>)
        ensures
            match outcome {
                Ok(rule) => rule@ == self@.rule() && self@.rule().validation() is Ok,
                Err(e) => self@.rule().validation() == Err::<(), ValidationError>(e),
            },
    {
        let rule = self.build();
        match validate(&rule) {
            Ok(()) => Ok(rule),
            Err(e) => Err(e),
        }
    }
}

} // verus!
