use polycore::contract::{compose, resolve_opaque_return, satisfies, BoundedInstance, Contract, Implementation};
use polycore::CoreError;

fn describe_contract() -> Contract {
    // One required operation (1) and one defaulted operation (2).
    Contract { required: vec![1], defaulted: vec![2] }
}

#[test]
fn construction_succeeds_with_all_required_ops() {
    let imp = Implementation { provided: vec![1] };
    let built = BoundedInstance::new(imp, describe_contract());
    assert!(built.is_ok());
}

#[test]
fn construction_fails_with_capability_missing() {
    // The one required operation was removed from the implementation.
    let imp = Implementation { provided: vec![2] };
    let built = BoundedInstance::new(imp, describe_contract());
    match built {
        Err(e) => assert_eq!(e, CoreError::CapabilityMissing),
        Ok(_) => panic!("construction must fail without the required operation"),
    }
}

#[test]
fn defaults_never_constrain_the_implementer() {
    let imp = Implementation { provided: vec![1] };
    assert!(satisfies(&imp, &describe_contract()));
}

#[test]
fn overriding_one_default_never_requires_another() {
    let contract = Contract { required: vec![1], defaulted: vec![2, 3] };
    // Overrides default 2 but not default 3.
    let imp = Implementation { provided: vec![1, 2] };
    assert!(satisfies(&imp, &contract));
}

#[test]
fn available_ops_are_provided_or_defaulted() {
    let imp = Implementation { provided: vec![1] };
    let built = BoundedInstance::new(imp, describe_contract()).unwrap();
    assert!(built.has_op(1));
    assert!(built.has_op(2));
    assert!(!built.has_op(3));
}

#[test]
fn composed_bound_requires_both_parts() {
    let a = Contract { required: vec![1], defaulted: vec![] };
    let b = Contract { required: vec![4], defaulted: vec![] };
    let both = compose(&a, &b);
    assert!(!satisfies(&Implementation { provided: vec![1] }, &both));
    assert!(!satisfies(&Implementation { provided: vec![4] }, &both));
    assert!(satisfies(&Implementation { provided: vec![1, 4] }, &both));
}

#[test]
fn opaque_return_commits_to_one_type() {
    let branches = vec![7, 7, 7];
    assert_eq!(resolve_opaque_return(&branches), Ok(7));
}

#[test]
fn opaque_return_rejects_differing_branches() {
    let branches = vec![7, 8];
    assert_eq!(resolve_opaque_return(&branches), Err(CoreError::AmbiguousOpaqueReturn));
}
