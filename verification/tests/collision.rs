use std::collections::hash_map::DefaultHasher;
use std::hash::{Hash, Hasher};
use petri::simulation::physics::collision_structures::Collision;

#[test]
fn collision_equality_ignores_order() {
    assert!(Collision::new(1, 2) == Collision::new(2, 1));
    assert!(Collision::new(1, 2) == Collision::new(1, 2));
    assert!(Collision::new(1, 2) != Collision::new(1, 3));
    assert!(Collision::new(3, 3) == Collision::new(3, 3));
}

#[test]
fn collision_fields() {
    let c = Collision::new(4, 9);
    assert_eq!((c.a, c.b), (4, 9));
}

#[test]
fn swapped_pairs_hash_differently_though_equal() {
    let h = |c: &Collision| {
        let mut s = DefaultHasher::new();
        c.hash(&mut s);
        s.finish()
    };
    let x = Collision::new(1, 2);
    let y = Collision::new(2, 1);
    assert!(x == y);
    assert_ne!(h(&x), h(&y));
}
