use deathframe::axis::Axis;
use deathframe::collision::{CategoryTag, CollisionTag};
use deathframe::entity::EntityData;
use deathframe::load_state::{is_eligible, Loadable, Loaded};

#[test]
fn ungated_entity_is_always_eligible() {
    // No Loadable: eligible no matter what the marker says.
    assert!(is_eligible(&None, &None));
    assert!(is_eligible(&None, &Some(Loaded)));
}

#[test]
fn gated_entity_is_eligible_iff_loaded() {
    let gate = Some(Loadable::new());
    assert!(!is_eligible(&gate, &None));
    assert!(is_eligible(&gate, &Some(Loaded)));
}

#[test]
fn entity_gating_lifecycle() {
    let mut e = EntityData::new();
    assert!(e.is_eligible());
    e.declare_gated((Some(8), None));
    assert!(!e.is_eligible());
    e.activate();
    assert!(e.is_eligible());
    e.deactivate();
    assert!(!e.is_eligible());
}

#[test]
fn with_padding_stores_margins() {
    let l = Loadable::new().with_padding((Some(16), Some(32)));
    assert_eq!(l.padding(), (Some(16), Some(32)));
    let l = l.with_padding((None, Some(4)));
    assert_eq!(l.padding(), (None, Some(4)));
}

#[test]
fn default_tag_matches_every_pair() {
    assert!(().collides_with(&()));
}

#[test]
fn category_tag_matches_only_equal_values() {
    let player = CategoryTag { category: 1 };
    let enemy = CategoryTag { category: 2 };
    assert!(player.collides_with(&CategoryTag { category: 1 }));
    assert!(!player.collides_with(&enemy));
    assert!(!enemy.collides_with(&player));
}

#[test]
fn axis_queries() {
    assert!(Axis::X.is_x());
    assert!(!Axis::X.is_y());
    assert!(Axis::Y.is_y());
    assert!(!Axis::Y.is_x());
    assert_eq!(Axis::X.name(), "x");
    assert_eq!(Axis::Y.name(), "y");
}

#[test]
fn axis_for_each_visits_x_then_y() {
    let seen: std::cell::RefCell<Vec<Axis>> = std::cell::RefCell::new(Vec::new());
    Axis::for_each(|a| seen.borrow_mut().push(a));
    assert_eq!(*seen.borrow(), vec![Axis::X, Axis::Y]);
}
