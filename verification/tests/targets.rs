use soro_fuzz::targets::{InvariantInfo, Target, TargetRegistry, TargetsError};

fn target(id: &str) -> Target {
    Target {
        id: id.to_string(),
        name: id.to_string(),
        contract_name: id.to_string(),
        methods: Vec::new(),
        available_invariants: Vec::new(),
        fuzz_target_name: format!("{id}_fuzz"),
        known_buggy: false,
    }
}

#[test]
fn list_preserves_manifest_order() {
    let registry = TargetRegistry::from_targets(vec![target("b"), target("a")]).unwrap();
    let ids: Vec<_> = registry.list().iter().map(|t| t.id.as_str()).collect();
    assert_eq!(ids, ["b", "a"]);
}

#[test]
fn get_finds_by_id() {
    let registry = TargetRegistry::from_targets(vec![target("counter")]).unwrap();
    assert!(registry.get("counter").is_some());
    assert!(registry.get("nope").is_none());
}

#[test]
fn rejects_empty_id() {
    let mut t = target("counter");
    t.id = String::new();
    assert!(TargetRegistry::from_targets(vec![t]).is_err());
}

#[test]
fn rejects_empty_fuzz_target_name() {
    let mut t = target("counter");
    t.fuzz_target_name = String::new();
    assert!(TargetRegistry::from_targets(vec![t]).is_err());
}

#[test]
fn rejects_duplicate_id() {
    let err = TargetRegistry::from_targets(vec![target("counter"), target("counter")]).unwrap_err();
    assert!(matches!(err, TargetsError::Invalid(_)));
}

#[test]
fn rejects_a_blank_id_of_only_whitespace() {
    let mut t = target("counter");
    t.id = " \t".to_string();
    assert!(TargetRegistry::from_targets(vec![t]).is_err());
}

#[test]
fn get_returns_the_target_with_its_invariants() {
    let mut t = target("token");
    t.available_invariants.push(InvariantInfo {
        id: "no-negative-balance".to_string(),
        name: "No negative balance".to_string(),
        description: "balances stay at or above zero".to_string(),
    });
    let registry = TargetRegistry::from_targets(vec![target("counter"), t]).unwrap();
    let found = registry.get("token").unwrap();
    assert_eq!(found.fuzz_target_name, "token_fuzz");
    assert_eq!(found.available_invariants.len(), 1);
}
