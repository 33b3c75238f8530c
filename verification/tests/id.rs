use typegraph::MAX_NODE_IDS;
use typegraph::id::Allocator;

#[test]
fn derive_is_stable() {
    let a = Allocator::new();
    let first = a.derive("Account");
    let second = a.derive("Account");
    assert_eq!(first, second);
    let b = Allocator::new();
    assert_eq!(first, b.derive("Account"));
}

#[test]
fn derive_distinguishes_names() {
    let a = Allocator::new();
    assert_ne!(a.derive("Account"), a.derive("deposit"));
}

#[test]
fn derive_in_range() {
    let a = Allocator::new();
    assert!(a.derive("") < MAX_NODE_IDS);
    assert!(a.derive("Account") < MAX_NODE_IDS);
    assert!(a.derive("a_rather_long_entity_name_with_many_characters") < MAX_NODE_IDS);
}

#[test]
fn fresh_in_range() {
    let mut a = Allocator::new();
    let mut i = 0;
    while i < 100 {
        assert!(a.fresh() < MAX_NODE_IDS);
        i += 1;
    }
}
