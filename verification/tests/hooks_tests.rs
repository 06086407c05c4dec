use fool_engine::hooks::{
    ActiveEvents, ActiveHooks, ContactFilter, LuaActiveEvents, LuaActiveHooks, LuaPhysicsHooks,
    LuaRigidBodyHandle,
};

fn h(i: u32) -> LuaRigidBodyHandle {
    LuaRigidBodyHandle { index: i, generation: 0 }
}

#[test]
fn no_groups_filter_nothing() {
    let hooks = LuaPhysicsHooks::new();
    assert_eq!(hooks.filter_contact_pair(Some(h(1)), Some(h(2))), ContactFilter::ComputeImpulses);
    assert!(hooks.filter_intersection_pair(Some(h(1)), Some(h(2))));
}

#[test]
fn contact_group_stops_impulses_between_members() {
    let mut hooks = LuaPhysicsHooks::new();
    hooks.add_contact_filter_group("walls".to_string(), vec![h(1), h(2), h(3)]);
    assert_eq!(hooks.filter_contact_pair(Some(h(1)), Some(h(3))), ContactFilter::NoImpulses);
    assert_eq!(hooks.filter_contact_pair(Some(h(1)), Some(h(4))), ContactFilter::ComputeImpulses);
    assert_eq!(hooks.filter_contact_pair(None, Some(h(1))), ContactFilter::ComputeImpulses);
    // the intersection table is separate
    assert!(hooks.filter_intersection_pair(Some(h(1)), Some(h(3))));
}

#[test]
fn same_index_other_generation_is_another_body() {
    let mut hooks = LuaPhysicsHooks::new();
    hooks.add_ignore_intersection_group("g".to_string(), vec![h(1), h(2)]);
    let other = LuaRigidBodyHandle { index: 2, generation: 1 };
    assert!(!hooks.filter_intersection_pair(Some(h(1)), Some(h(2))));
    assert!(hooks.filter_intersection_pair(Some(h(1)), Some(other)));
}

#[test]
fn groups_are_listed_replaced_and_removed() {
    let mut hooks = LuaPhysicsHooks::new();
    hooks.add_ignore_intersection_group("a".to_string(), vec![h(1), h(2)]);
    hooks.add_ignore_intersection_group("b".to_string(), vec![h(5), h(6)]);
    let mut names = hooks.list_ignore_intersection_group();
    names.sort();
    assert_eq!(names, vec!["a".to_string(), "b".to_string()]);
    // replacing "a" forgets its old members
    hooks.add_ignore_intersection_group("a".to_string(), vec![h(3)]);
    assert_eq!(hooks.list_ignore_intersection_group().len(), 2);
    assert!(hooks.filter_intersection_pair(Some(h(1)), Some(h(2))));
    hooks.remove_ignore_intersection_group("b".to_string());
    assert_eq!(hooks.list_ignore_intersection_group(), vec!["a".to_string()]);
    assert!(hooks.filter_intersection_pair(Some(h(5)), Some(h(6))));
    hooks.remove_ignore_intersection_group("missing".to_string());
    assert_eq!(hooks.list_ignore_intersection_group().len(), 1);
}

#[test]
fn contact_groups_listed_and_removed() {
    let mut hooks = LuaPhysicsHooks::new();
    hooks.add_contact_filter_group("x".to_string(), vec![h(1), h(2)]);
    assert_eq!(hooks.list_contact_filter_groups(), vec!["x".to_string()]);
    hooks.remove_contact_filter_group("x".to_string());
    assert!(hooks.list_contact_filter_groups().is_empty());
    assert_eq!(hooks.filter_contact_pair(Some(h(1)), Some(h(2))), ContactFilter::ComputeImpulses);
}

#[test]
fn hook_names() {
    let f = |s: &str| LuaActiveHooks(s.to_string()).hooks();
    assert_eq!(f("filter_contact_pairs"), ActiveHooks { filter_contact_pairs: true, filter_intersection_pair: false });
    assert_eq!(f("filter_intersection_pair"), ActiveHooks { filter_contact_pairs: false, filter_intersection_pair: true });
    assert_eq!(f("all"), ActiveHooks { filter_contact_pairs: true, filter_intersection_pair: true });
    assert_eq!(f("ALL"), ActiveHooks { filter_contact_pairs: false, filter_intersection_pair: false });
    assert_eq!(f(""), ActiveHooks { filter_contact_pairs: false, filter_intersection_pair: false });
}

#[test]
fn event_names() {
    let f = |s: &str| LuaActiveEvents(s.to_string()).events();
    assert_eq!(f("collision_events"), ActiveEvents { collision_events: true, contact_force_events: false });
    assert_eq!(f("contact_force_events"), ActiveEvents { collision_events: false, contact_force_events: true });
    assert_eq!(f("all"), ActiveEvents { collision_events: true, contact_force_events: true });
    assert_eq!(f("none"), ActiveEvents { collision_events: false, contact_force_events: false });
}

#[test]
fn pair_order_does_not_matter() {
    let mut hooks = LuaPhysicsHooks::new();
    hooks.add_contact_filter_group("g".to_string(), vec![h(1), h(2)]);
    hooks.add_ignore_intersection_group("i".to_string(), vec![h(3), h(4)]);
    for (a, b) in [(1, 2), (1, 3), (3, 4), (2, 5)] {
        assert_eq!(
            hooks.filter_contact_pair(Some(h(a)), Some(h(b))),
            hooks.filter_contact_pair(Some(h(b)), Some(h(a)))
        );
        assert_eq!(
            hooks.filter_intersection_pair(Some(h(a)), Some(h(b))),
            hooks.filter_intersection_pair(Some(h(b)), Some(h(a)))
        );
    }
}
