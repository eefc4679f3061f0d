use flip_fluid::collisions::{generate_id, pair};

#[test]
fn pair_follows_cantor() {
    assert_eq!(pair(0, 0), 0);
    assert_eq!(pair(1, 0), 1);
    assert_eq!(pair(0, 1), 2);
    assert_eq!(pair(1, 2), 8);
    assert_eq!(pair(3, 4), 32);
}

#[test]
fn generate_id_ignores_order() {
    assert_eq!(generate_id(3, 4), generate_id(4, 3));
    assert_eq!(generate_id(3, 4), 32);
    assert_eq!(generate_id(7, 7), pair(7, 7));
    assert_ne!(generate_id(1, 2), generate_id(0, 3));
}
