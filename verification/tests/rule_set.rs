use s3_lifecycle::rule::{LifecycleRule, Transition};
use s3_lifecycle::rule_set::RuleSet;
use s3_lifecycle::storage_class::StorageClass;

fn glacier_after(id: &str, days: i32) -> LifecycleRule {
    LifecycleRule {
        id: id.to_string(),
        enabled: true,
        prefix: String::new(),
        transitions: vec![Transition { days, storage_class: StorageClass::Glacier }],
        expiration_days: None,
    }
}

fn ids_of(set: &RuleSet) -> Vec<String> {
    set.rules().iter().map(|r| r.id.clone()).collect()
}

#[test]
fn new_set_is_empty() {
    let set = RuleSet::new();
    assert!(set.is_empty());
    assert_eq!(set.len(), 0);
    assert!(set.rules().is_empty());
}

#[test]
fn from_rules_keeps_the_rules_as_they_are() {
    let rules = vec![glacier_after("a", 1), glacier_after("b", 2), glacier_after("a", 3)];
    let set = RuleSet::from_rules(rules.clone());
    assert_eq!(set.len(), 3);
    assert!(!set.is_empty());
    assert_eq!(set.rules(), &rules);
    assert_eq!(set.into_rules(), rules);
}

#[test]
fn upsert_into_empty_set_holds_the_rule() {
    let set = RuleSet::new().upsert(glacier_after("a", 30));
    assert_eq!(set.into_rules(), vec![glacier_after("a", 30)]);
}

#[test]
fn upsert_twice_is_upsert_once() {
    let start = RuleSet::from_rules(vec![
        glacier_after("a", 1),
        glacier_after("b", 2),
        glacier_after("c", 3),
    ]);
    let rule = glacier_after("b", 20);
    let once = start.clone().upsert(rule.clone());
    let twice = start.upsert(rule.clone()).upsert(rule);
    assert_eq!(once, twice);
    assert_eq!(ids_of(&twice), vec!["a", "c", "b"]);
}

#[test]
fn upsert_twice_is_upsert_once_for_a_new_id() {
    let start = RuleSet::from_rules(vec![glacier_after("a", 1)]);
    let rule = glacier_after("z", 9);
    let once = start.clone().upsert(rule.clone());
    let twice = start.upsert(rule.clone()).upsert(rule);
    assert_eq!(once, twice);
    assert_eq!(once.len(), 2);
}

#[test]
fn upsert_moves_the_edited_rule_to_the_end() {
    let a = glacier_after("A", 10);
    let b = glacier_after("B", 20);
    let c = glacier_after("C", 30);
    let mut b2 = glacier_after("B", 99);
    b2.enabled = false;
    b2.prefix = "logs/".to_string();
    let set = RuleSet::from_rules(vec![a.clone(), b, c.clone()]).upsert(b2.clone());
    assert_eq!(set.into_rules(), vec![a, c, b2]);
}

#[test]
fn upsert_of_a_new_id_appends() {
    let a = glacier_after("A", 10);
    let b = glacier_after("B", 20);
    let set = RuleSet::from_rules(vec![a.clone()]).upsert(b.clone());
    assert_eq!(set.into_rules(), vec![a, b]);
}

#[test]
fn upserts_never_leave_an_id_twice() {
    let edits = ["a", "b", "a", "c", "b", "a", "d", "d", "c"];
    let mut set = RuleSet::new();
    let mut days: i32 = 0;
    for id in edits {
        days += 1;
        set = set.upsert(glacier_after(id, days));
        let mut ids = ids_of(&set);
        let n = ids.len();
        ids.sort();
        ids.dedup();
        assert_eq!(ids.len(), n);
    }
    assert_eq!(ids_of(&set), vec!["b", "a", "d", "c"]);
    assert_eq!(
        set.into_rules(),
        vec![
            glacier_after("b", 5),
            glacier_after("a", 6),
            glacier_after("d", 8),
            glacier_after("c", 9),
        ]
    );
}

#[test]
fn upsert_takes_out_every_rule_with_the_id() {
    let set = RuleSet::from_rules(vec![
        glacier_after("dup", 1),
        glacier_after("x", 2),
        glacier_after("dup", 3),
    ])
    .upsert(glacier_after("dup", 4));
    assert_eq!(set.into_rules(), vec![glacier_after("x", 2), glacier_after("dup", 4)]);
}

#[test]
fn upsert_of_another_id_leaves_a_doubled_id_doubled() {
    let set = RuleSet::from_rules(vec![glacier_after("dup", 1), glacier_after("dup", 3)])
        .upsert(glacier_after("x", 4));
    assert_eq!(ids_of(&set), vec!["dup", "dup", "x"]);
}

#[test]
fn remove_the_only_rule_leaves_nothing() {
    let (rest, found) = RuleSet::from_rules(vec![glacier_after("A", 10)]).remove("A");
    assert!(found);
    assert!(rest.is_empty());
    assert_eq!(rest.into_rules(), Vec::<LifecycleRule>::new());
}

#[test]
fn remove_of_an_absent_id_changes_nothing() {
    let start = RuleSet::from_rules(vec![glacier_after("A", 10)]);
    let (rest, found) = start.clone().remove("Z");
    assert!(!found);
    assert_eq!(rest, start);
}

#[test]
fn remove_from_the_empty_set_finds_nothing() {
    let (rest, found) = RuleSet::new().remove("A");
    assert!(!found);
    assert!(rest.is_empty());
}

#[test]
fn remove_keeps_the_order_of_the_others() {
    let (rest, found) = RuleSet::from_rules(vec![
        glacier_after("a", 1),
        glacier_after("b", 2),
        glacier_after("c", 3),
        glacier_after("d", 4),
    ])
    .remove("b");
    assert!(found);
    assert_eq!(ids_of(&rest), vec!["a", "c", "d"]);
}

#[test]
fn remove_tells_ids_apart_by_case_and_length() {
    let start = RuleSet::from_rules(vec![glacier_after("Rule", 1)]);
    assert!(!start.clone().remove("rule").1);
    assert!(!start.clone().remove("Rul").1);
    assert!(!start.clone().remove("Rule ").1);
    assert!(!start.clone().remove("").1);
    assert!(start.remove("Rule").1);
}

#[test]
fn find_by_id_gives_the_first_match() {
    let set = RuleSet::from_rules(vec![
        glacier_after("a", 1),
        glacier_after("b", 2),
        glacier_after("b", 3),
    ]);
    assert_eq!(set.find_by_id("b"), Some(&glacier_after("b", 2)));
    assert_eq!(set.find_by_id("a"), Some(&glacier_after("a", 1)));
}

#[test]
fn find_by_id_of_an_absent_id_gives_nothing() {
    let set = RuleSet::from_rules(vec![glacier_after("a", 1)]);
    assert_eq!(set.find_by_id("z"), None);
    assert_eq!(RuleSet::new().find_by_id("a"), None);
}

#[test]
fn find_by_id_sees_what_upsert_put_in() {
    let set = RuleSet::new().upsert(glacier_after("a", 1)).upsert(glacier_after("a", 2));
    assert_eq!(set.find_by_id("a"), Some(&glacier_after("a", 2)));
    assert_eq!(set.len(), 1);
}
