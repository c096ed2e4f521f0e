//! Behavioural tests for the identifier core: allocation, the two
//! equality relations, hashing, scalar conversion, and the window-handle
//! namespace.

use std::collections::HashMap;

use widget_id::id::{Id, IdCounter, IdEq, Internal};

#[test]
fn unique_generates_different_ids() {
    let mut counter = IdCounter::new();
    let a = Id::unique(&mut counter);
    let b = Id::unique(&mut counter);

    assert_ne!(a, b);
}

#[test]
fn unique_run_is_pairwise_distinct() {
    let mut counter = IdCounter::new();
    let mut ids: Vec<Id> = Vec::new();
    for _ in 0..8 {
        ids.push(Id::unique(&mut counter));
    }
    for i in 0..ids.len() {
        for j in 0..ids.len() {
            if i != j {
                assert_ne!(ids[i], ids[j]);
                assert!(!IdEq::eq(&ids[i].0, &ids[j].0));
            }
        }
    }
}

#[test]
fn reset_restarts_the_general_counter() {
    let mut counter = IdCounter::new();
    let a = Id::unique(&mut counter);
    Id::reset(&mut counter);
    let b = Id::unique(&mut counter);

    // After a reset the same sequence number is handed out again, so the
    // "distinct" guarantee no longer holds across the reset.
    assert_eq!(a, b);
}

#[test]
fn custom_same_name_twice() {
    let mut counter = IdCounter::new();
    let a = Id::new(&mut counter, String::from("save-button"));
    let b = Id::new(&mut counter, String::from("save-button"));

    // The two allocations consumed different sequence numbers ...
    assert_eq!(a.node_id(), 1);
    assert_eq!(b.node_id(), 2);
    // ... yet they are domain-equivalent by name, they compare equal under
    // the container relation (which ignores the sequence number of a named
    // identifier), and they hash alike.
    assert!(IdEq::eq(&a.0, &b.0));
    assert_eq!(a, b);
    assert_eq!(a.hash(), b.hash());
}

#[test]
fn custom_different_names_differ() {
    let mut counter = IdCounter::new();
    let a = Id::new(&mut counter, String::from("save-button"));
    let b = Id::new(&mut counter, String::from("cancel-button"));

    assert_ne!(a, b);
    assert!(!IdEq::eq(&a.0, &b.0));
}

#[test]
fn unique_matches_custom_with_same_number() {
    let unique = Id(Internal::Unique(7));
    let custom = Id(Internal::Custom(7, String::from("anything")));
    let other = Id(Internal::Custom(8, String::from("anything")));

    assert!(IdEq::eq(&unique.0, &custom.0));
    assert!(IdEq::eq(&custom.0, &unique.0));
    assert!(!IdEq::eq(&unique.0, &other.0));
    // Cross-shape matches never extend to structural equality.
    assert_ne!(unique, custom);
}

#[test]
fn domain_equivalence_is_not_transitive() {
    let u1 = Internal::Unique(1);
    let c1 = Internal::Custom(1, String::from("a"));
    let c2 = Internal::Custom(2, String::from("a"));

    assert!(IdEq::eq(&u1, &c1));
    assert!(IdEq::eq(&c1, &c2));
    assert!(!IdEq::eq(&u1, &c2));
}

#[test]
fn set_matches_its_members() {
    let mut counter = IdCounter::new();
    let unique_a = Id::unique(&mut counter);
    let custom_b = Id::new(&mut counter, String::from("b"));
    let third = Id::unique(&mut counter);

    let set = Id(Internal::IdSet(vec![unique_a.0.clone(), custom_b.0.clone()]));

    assert!(IdEq::eq(&set.0, &custom_b.0));
    assert!(IdEq::eq(&set.0, &unique_a.0));
    assert!(IdEq::eq(&custom_b.0, &set.0));
    assert!(!IdEq::eq(&set.0, &third.0));
}

#[test]
fn set_vs_set_is_element_wise_and_order_sensitive() {
    let a = Internal::Unique(1);
    let b = Internal::Custom(2, String::from("b"));

    let set_ab = Internal::IdSet(vec![a.clone(), b.clone()]);
    let set_ab2 = Internal::IdSet(vec![a.clone(), b.clone()]);
    let set_ba = Internal::IdSet(vec![b.clone(), a.clone()]);
    let set_a = Internal::IdSet(vec![a.clone()]);

    assert!(IdEq::eq(&set_ab, &set_ab2));
    assert_eq!(Id(set_ab.clone()), Id(set_ab2));
    assert!(!IdEq::eq(&set_ab, &set_ba));
    assert!(!IdEq::eq(&set_ab, &set_a));
}

#[test]
fn nested_sets_recurse_through_equivalence() {
    let a = Internal::Unique(1);
    let b = Internal::Custom(2, String::from("b"));
    let inner = Internal::IdSet(vec![a.clone(), b.clone()]);
    let outer = Internal::IdSet(vec![Internal::Unique(9), inner.clone()]);

    // One level: the inner set stands in for its members.
    assert!(IdEq::eq(&inner, &b));
    // Two levels: against a non-set value the outer set recurses through
    // its set-shaped member, so `b` is found inside `inner`.
    assert!(IdEq::eq(&outer, &b));
    // A value found in neither level does not match.
    assert!(!IdEq::eq(&outer, &Internal::Unique(42)));
    // Set vs set stays structural: the outer set does not match `inner`
    // element-wise, but it does match an element-wise copy of itself.
    assert!(!IdEq::eq(&outer, &inner));
    let outer_copy = Internal::IdSet(vec![Internal::Unique(9), inner.clone()]);
    assert!(IdEq::eq(&outer, &outer_copy));
}

#[test]
fn hashes_follow_structural_equality() {
    let c1 = Internal::Custom(1, String::from("same-name"));
    let c2 = Internal::Custom(2, String::from("same-name"));
    assert_eq!(c1.hash(), c2.hash());

    let s1 = Internal::IdSet(vec![c1.clone(), Internal::Unique(5)]);
    let s2 = Internal::IdSet(vec![c2.clone(), Internal::Unique(5)]);
    assert_eq!(s1.hash(), s2.hash());
}

#[test]
fn map_lookup_succeeds_with_structurally_equal_copy() {
    let mut counter = IdCounter::new();
    let a = Id::new(&mut counter, String::from("save-button"));
    let b = Id::new(&mut counter, String::from("save-button"));

    // A mapping keyed by the identifier's hash: the structurally equal
    // copy `b` hashes identically, so the lookup finds the entry.
    let mut map: HashMap<u64, &str> = HashMap::new();
    map.insert(a.hash(), "clicked");
    assert_eq!(a, b);
    assert_eq!(map.get(&b.hash()), Some(&"clicked"));
}

#[test]
fn scalar_conversion_round_trips() {
    let mut counter = IdCounter::new();
    let unique = Id::unique(&mut counter);
    let custom = Id::new(&mut counter, String::from("save-button"));

    assert_eq!(unique.node_id(), 1);
    assert_eq!(custom.node_id(), 2);

    let back = Id::from(unique.node_id() as u64);
    assert_eq!(back, unique);

    let back_custom = Id::from(custom.node_id() as u64);
    assert!(IdEq::eq(&back_custom.0, &custom.0));
}

#[test]
fn window_handles_avoid_the_general_namespace() {
    let mut counter = IdCounter::new();
    let mut handles: Vec<u128> = Vec::new();
    let mut ids: Vec<Id> = Vec::new();
    for _ in 0..16 {
        handles.push(widget_id::id::window_node_id(&mut counter));
        ids.push(Id::unique(&mut counter));
    }
    assert_eq!(handles[0], u64::MAX as u128 + 1);
    assert_eq!(handles[15], u64::MAX as u128 + 16);
    for h in &handles {
        assert!(*h > u64::MAX as u128);
        assert_ne!(*h, 0);
        for id in &ids {
            assert_ne!(*h, id.node_id());
        }
    }
}

#[test]
fn labels_render_names_and_placeholders() {
    let unique = Id(Internal::Unique(3));
    let custom = Id(Internal::Custom(4, String::from("save-button")));
    let set = Id(Internal::IdSet(vec![Internal::Unique(3)]));

    assert_eq!(unique.label(), "Undefined");
    assert_eq!(custom.label(), "save-button");
    assert_eq!(set.label(), "Set");
}

#[test]
fn clone_preserves_the_value() {
    let mut counter = IdCounter::new();
    let custom = Id::new(&mut counter, String::from("save-button"));
    let set = Id(Internal::IdSet(vec![
        custom.0.clone(),
        Internal::Unique(9),
    ]));

    assert_eq!(custom.clone(), custom);
    assert_eq!(set.clone(), set);
}
