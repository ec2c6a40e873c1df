//! The rules of one bucket, and the edits that keep their ids apart.
//!
//! The backend stores the rules as one document and replaces it whole, so an
//! edit is always computed on the full collection. Nothing here talks to the
//! backend.

use crate::rule::{LifecycleRule, RuleView};
use vstd::prelude::*;

verus! {

/// The predicate "has another id than `id`".
pub open spec fn other_id(id: Seq<char>) -> spec_fn(RuleView) -> bool {
    |rule: RuleView| rule.id != id
}

/// Whether some rule in `rules` is named `id`.
pub open spec fn has_id(rules: Seq<RuleView>, id: Seq<char>) -> bool {
    exists|i: int| 0 <= i < rules.len() && (#[trigger] rules[i]).id == id
}

/// The rules not named `id`, in the order they had.
pub open spec fn without_id(rules: Seq<RuleView>, id: Seq<char>) -> Seq<RuleView> {
    rules.filter(other_id(id))
}

/// `rules` after `rule` was put in: whatever carried its id is gone, and `rule`
/// stands at the end.
pub open spec fn upserted(rules: Seq<RuleView>, rule: RuleView) -> Seq<RuleView> {
    without_id(rules, rule.id).push(rule)
}

/// `rules` after each of `edits` was put in, one after the other.
pub open spec fn upserted_all(rules: Seq<RuleView>, edits: Seq<RuleView>) -> Seq<RuleView>
    decreases edits.len(),
{
    if edits.len() == 0 {
        rules
    } else {
        upserted(upserted_all(rules, edits.drop_last()), edits.last())
    }
}

/// No two rules share an id.
pub open spec fn ids_unique(rules: Seq<RuleView>) -> bool {
    forall|i: int, j: int|
        #![trigger rules[i], rules[j]]
        0 <= i < j < rules.len() ==> rules[i].id != rules[j].id
}

/// Whether `rules[at]` is the first rule named `id`.
pub open spec fn first_with_id(rules: Seq<RuleView>, id: Seq<char>, at: int) -> bool {
    &&& 0 <= at < rules.len()
    &&& rules[at].id == id
    &&& forall|k: int| 0 <= k < at ==> (#[trigger] rules[k]).id != id
}

/// The ordered rules of one bucket.
///
/// The backend does not keep ids apart, so a set read from it may hold an id
/// twice. No edit made here adds to that: a set with distinct ids keeps them
/// distinct, and `upsert` leaves exactly one rule under the id it was given
/// whatever the set held before.
#[derive(Clone, Debug, PartialEq, Eq)]
pub struct RuleSet {
    rules: Vec<LifecycleRule>,
}

impl View for RuleSet {
    type V = Seq<RuleView>;

    closed spec fn view(&self) -> Seq<RuleView> {
        self.rules.deep_view()
    }
}

impl RuleSet {
    /// The set without rules.
    pub fn new() -> (set: RuleSet)
        ensures
            set@ == Seq::<RuleView>::empty(),
    {
        let set = RuleSet { rules: Vec::new() };
        assert(set@ =~= Seq::<RuleView>::empty());
        set
    }

    /// The set that holds `rules` as they are, in their order.
    pub fn from_rules(rules: Vec<LifecycleRule>) -> (set: RuleSet)
        ensures
            set@ == rules.deep_view(),
    {
        RuleSet { rules }
    }

    pub fn rules(&self) -> (rules: &Vec<LifecycleRule>)
        ensures
            rules.deep_view() == self@,
    {
        &self.rules
    }

    pub fn into_rules(self) -> (rules: Vec<LifecycleRule>)
        ensures
            rules.deep_view() == self@,
    {
        self.rules
    }

    pub fn len(&self) -> (n: usize)
        ensures
            n == self@.len(),
    {
        self.rules.len()
    }

    pub fn is_empty(&self) -> (empty: bool)
        ensures
            empty == (self@.len() == 0),
    {
        self.rules.len() == 0
    }

    /// Puts `rule` into the set. Every rule that carried its id is taken out,
    /// and `rule` is appended: an edited rule moves to the end, the others keep
    /// their order.
    pub fn upsert(self, rule: LifecycleRule) -> (out: RuleSet)
        ensures
            out@ == upserted(self@, rule@),
            ids_unique(self@) ==> ids_unique(out@),
    {
        let ghost before = self@;
        let (mut kept, _) = drop_id(self.rules, &rule.id);
        let ghost rest = kept.deep_view();
        kept.push(rule);
        proof {
            assert(kept.deep_view() =~= rest.push(rule@));
            if ids_unique(before) {
                lemma_upsert_keeps_ids_unique(before, rule@);
            }
        }
        RuleSet { rules: kept }
    }

    /// Takes the rules named `id` out of the set and says whether there was
    /// one. Where there was none the set comes back as it was.
    pub fn remove(self, id: &str) -> (out: (RuleSet, bool))
        ensures
            out.0@ == without_id(self@, id@),
            out.1 == has_id(self@, id@),
            !out.1 ==> out.0@ == self@,
            ids_unique(self@) ==> ids_unique(out.0@),
    {
        let ghost before = self@;
        let wanted = id.to_owned();
        let (kept, found) = drop_id(self.rules, &wanted);
        proof {
            if !found {
                lemma_without_absent_id(before, id@);
            }
            if ids_unique(before) {
                lemma_without_id_keeps_ids_unique(before, id@);
            }
        }
        (RuleSet { rules: kept }, found)
    }

    /// The first rule named `id`, if there is one. Where ids are distinct it is
    /// the only one.
    pub fn find_by_id(&self, id: &str) -> (found: Option<&LifecycleRule>)
        ensures
            match found {
                Some(rule) => exists|at: int|
                    first_with_id(self@, id@, at) && #[trigger] self@[at] == rule@,
                None => !has_id(self@, id@),
            },
    {
        let wanted = id.to_owned();
        let mut i: usize = 0;
        while i < self.rules.len()
            invariant
                i <= self.rules.len(),
                wanted@ == id@,
                forall|k: int| 0 <= k < i ==> (#[trigger] self@[k]).id != id@,
            decreases self.rules.len() - i,
        {
            if self.rules[i].id == wanted {
                assert(first_with_id(self@, id@, i as int));
                return Some(&self.rules[i]);
            }
            i += 1;
        }
        None
    }
}

/// Moves the rules not named `id` into a new vector, in their order, and says
/// whether a rule named `id` was left behind.
fn drop_id(rules: Vec<LifecycleRule>, id: &String) -> (out: (Vec<LifecycleRule>, bool))
    ensures
        out.0.deep_view() == without_id(rules.deep_view(), id@),
        out.1 == has_id(rules.deep_view(), id@),
{
    let ghost all = rules.deep_view();
    let mut kept: Vec<LifecycleRule> = Vec::new();
    let mut found = false;
    assert(kept.deep_view() =~= Seq::<RuleView>::empty());
    for rule in it: rules
        invariant
            it.seq().len() == all.len(),
            forall|k: int| 0 <= k < all.len() ==> (#[trigger] it.seq()[k])@ == all[k],
            kept.deep_view() == without_id(all.take(it.index() as int), id@),
            found == has_id(all.take(it.index() as int), id@),
    {
        let ghost seen = it.index() as int;
        let ghost before = kept.deep_view();
        proof {
            assert(all.take(seen + 1) =~= all.take(seen).push(all[seen]));
            all.take(seen).lemma_filter_push(all[seen], other_id(id@));
            assert(rule@ == all[seen]);
            lemma_has_id_push(all.take(seen), all[seen], id@);
        }
        if rule.id != *id {
            kept.push(rule);
            assert(kept.deep_view() =~= before.push(all[seen]));
        } else {
            found = true;
        }
    }
    assert(all.take(all.len() as int) =~= all);
    (kept, found)
}

/// A rule set with one more rule holds `id` when the set did or the new rule does.
proof fn lemma_has_id_push(rules: Seq<RuleView>, rule: RuleView, id: Seq<char>)
    ensures
        has_id(rules.push(rule), id) == (has_id(rules, id) || rule.id == id),
{
    let longer = rules.push(rule);
    if has_id(rules, id) {
        let i = choose|i: int| 0 <= i < rules.len() && (#[trigger] rules[i]).id == id;
        assert(longer[i].id == id);
    }
    if rule.id == id {
        assert(longer[rules.len() as int].id == id);
    }
    if has_id(longer, id) {
        let i = choose|i: int| 0 <= i < longer.len() && (#[trigger] longer[i]).id == id;
        if i < rules.len() {
            assert(rules[i].id == id);
        }
    }
}

/// Nothing named `id` is left once the rules named `id` were taken out.
pub proof fn lemma_without_id_holds_none(rules: Seq<RuleView>, id: Seq<char>)
    ensures
        !has_id(without_id(rules, id), id),
{
    let rest = without_id(rules, id);
    assert forall|i: int| 0 <= i < rest.len() implies (#[trigger] rest[i]).id != id by {
        rules.lemma_filter_pred(other_id(id), i);
    }
}

/// Taking out an id that no rule carries changes nothing.
pub proof fn lemma_without_absent_id(rules: Seq<RuleView>, id: Seq<char>)
    requires
        !has_id(rules, id),
    ensures
        without_id(rules, id) == rules,
    decreases rules.len(),
{
    if rules.len() == 0 {
        reveal(Seq::filter);
    } else {
        let front = rules.drop_last();
        let last = rules.last();
        assert(rules =~= front.push(last));
        assert(last == rules[rules.len() - 1]);
        assert forall|i: int| 0 <= i < front.len() implies (#[trigger] front[i]).id != id by {
            assert(rules[i].id != id);
        }
        lemma_without_absent_id(front, id);
        front.lemma_filter_push(last, other_id(id));
    }
}

/// Every rule that is left after taking an id out was there before.
proof fn lemma_without_id_is_part(rules: Seq<RuleView>, id: Seq<char>, other: Seq<char>)
    requires
        has_id(without_id(rules, id), other),
    ensures
        has_id(rules, other),
{
    let rest = without_id(rules, id);
    let i = choose|i: int| 0 <= i < rest.len() && (#[trigger] rest[i]).id == other;
    assert(rest.contains(rest[i]));
    rules.lemma_filter_contains_rev(other_id(id), rest[i]);
    let j = choose|j: int| 0 <= j < rules.len() && rules[j] == rest[i];
    assert(rules[j].id == other);
}

/// Taking an id out of a set with distinct ids leaves a set with distinct ids.
pub proof fn lemma_without_id_keeps_ids_unique(rules: Seq<RuleView>, id: Seq<char>)
    requires
        ids_unique(rules),
    ensures
        ids_unique(without_id(rules, id)),
    decreases rules.len(),
{
    if rules.len() == 0 {
        reveal(Seq::filter);
    } else {
        let front = rules.drop_last();
        let last = rules.last();
        assert(rules =~= front.push(last));
        assert forall|i: int, j: int| 0 <= i < j < front.len() implies #[trigger] front[i].id
            != #[trigger] front[j].id by {
            assert(rules[i].id != rules[j].id);
        }
        lemma_without_id_keeps_ids_unique(front, id);
        front.lemma_filter_push(last, other_id(id));
        let rest = without_id(front, id);
        if last.id != id {
            if has_id(rest, last.id) {
                lemma_without_id_is_part(front, id, last.id);
                let k = choose|k: int| 0 <= k < front.len() && (#[trigger] front[k]).id == last.id;
                assert(rules[k].id != rules[rules.len() - 1].id);
            }
            let longer = rest.push(last);
            assert forall|i: int, j: int| 0 <= i < j < longer.len() implies #[trigger] longer[i].id
                != #[trigger] longer[j].id by {
                if j < rest.len() {
                    assert(rest[i].id != rest[j].id);
                } else {
                    assert(rest[i].id != last.id);
                }
            }
        }
    }
}

/// Putting a rule into a set with distinct ids leaves a set with distinct ids.
pub proof fn lemma_upsert_keeps_ids_unique(rules: Seq<RuleView>, rule: RuleView)
    requires
        ids_unique(rules),
    ensures
        ids_unique(upserted(rules, rule)),
{
    let rest = without_id(rules, rule.id);
    lemma_without_id_keeps_ids_unique(rules, rule.id);
    lemma_without_id_holds_none(rules, rule.id);
    let out = rest.push(rule);
    assert forall|i: int, j: int| 0 <= i < j < out.len() implies #[trigger] out[i].id
        != #[trigger] out[j].id by {
        if j < rest.len() {
            assert(rest[i].id != rest[j].id);
        } else {
            assert(rest[i].id != rule.id);
        }
    }
}

/// After a rule was put in, it stands at the end and nothing else carries its id.
pub proof fn lemma_upsert_leaves_one(rules: Seq<RuleView>, rule: RuleView)
    ensures
        upserted(rules, rule).last() == rule,
        first_with_id(upserted(rules, rule), rule.id, upserted(rules, rule).len() - 1),
{
    let rest = without_id(rules, rule.id);
    lemma_without_id_holds_none(rules, rule.id);
    let out = rest.push(rule);
    assert forall|k: int| 0 <= k < out.len() - 1 implies (#[trigger] out[k]).id != rule.id by {
        assert(rest[k].id != rule.id);
    }
}

/// Putting the same rule in twice gives what putting it in once gives.
pub proof fn lemma_upsert_idempotent(rules: Seq<RuleView>, rule: RuleView)
    ensures
        upserted(upserted(rules, rule), rule) == upserted(rules, rule),
{
    let rest = without_id(rules, rule.id);
    rest.lemma_filter_push(rule, other_id(rule.id));
    lemma_without_id_holds_none(rules, rule.id);
    lemma_without_absent_id(rest, rule.id);
}

/// However many rules are put into a set with distinct ids, the ids stay
/// distinct.
pub proof fn lemma_upserts_keep_ids_unique(rules: Seq<RuleView>, edits: Seq<RuleView>)
    requires
        ids_unique(rules),
    ensures
        ids_unique(upserted_all(rules, edits)),
    decreases edits.len(),
{
    if edits.len() > 0 {
        lemma_upserts_keep_ids_unique(rules, edits.drop_last());
        lemma_upsert_keeps_ids_unique(upserted_all(rules, edits.drop_last()), edits.last());
    }
}

/// A set built from nothing by putting rules in never holds an id twice.
pub proof fn lemma_upserts_from_empty_are_unique(edits: Seq<RuleView>)
    ensures
        ids_unique(upserted_all(Seq::<RuleView>::empty(), edits)),
{
    lemma_upserts_keep_ids_unique(Seq::<RuleView>::empty(), edits);
}

/// Taking an id out leaves nothing exactly when every rule carried it.
pub proof fn lemma_without_id_leaves_nothing(rules: Seq<RuleView>, id: Seq<char>)
    ensures
        without_id(rules, id).len() == 0 <==> (forall|i: int|
            0 <= i < rules.len() ==> (#[trigger] rules[i]).id == id),
{
    let rest = without_id(rules, id);
    if rest.len() > 0 {
        rules.lemma_filter_pred(other_id(id), 0);
        assert(rest.contains(rest[0]));
        rules.lemma_filter_contains_rev(other_id(id), rest[0]);
        let j = choose|j: int| 0 <= j < rules.len() && rules[j] == rest[0];
        assert(rules[j].id != id);
    }
    if exists|i: int| 0 <= i < rules.len() && (#[trigger] rules[i]).id != id {
        let i = choose|i: int| 0 <= i < rules.len() && (#[trigger] rules[i]).id != id;
        rules.lemma_filter_contains(other_id(id), i);
    }
}

} // verus!
