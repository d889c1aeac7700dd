use arena_core::angles::{coterminal, loopize, loopize_about, MICRO, TAU};
use arena_core::vector::Vector2;

fn magnitude(v: &Vector2) -> f32 {
    (v.magnitude_squared() as f32).sqrt()
}

fn is_basically(v: &Vector2, m: f32) -> bool {
    (magnitude(v) - m).abs() < 0.001
}

#[test]
fn check_vector_cutting() {
    let axis = Vector2::new(1, 1);
    let vector = Vector2::new(-1, 1);
    let (para, perp) = vector.cut(&axis);
    assert!(is_basically(&para, 0.0));
    assert!(is_basically(&perp, 2.0_f32.sqrt()));
    let axis2 = Vector2::new(0, 1);
    let vector = Vector2::new(-1, -1);
    let (para, perp) = vector.cut(&axis2);
    println!("Yep {}", magnitude(&para));
    assert!(is_basically(&para, 1.0));
    assert!(is_basically(&perp, 1.0));
}

#[test]
fn check_loopize_basics() {
    assert_eq!(loopize(1 * MICRO, 2 * MICRO), -1 * MICRO);
    assert_eq!(loopize(1 * MICRO, 0), 1 * MICRO);
}

#[test]
fn check_loopize_complex() {
    assert_eq!(loopize(1 * MICRO, -1 * MICRO), 2 * MICRO);
    assert_eq!(loopize(-1 * MICRO, 1 * MICRO), -2 * MICRO);
    assert_eq!(loopize_about(2 * MICRO, 0, 3 * MICRO), -1 * MICRO);
}

#[test]
fn loopize_takes_the_short_way_round() {
    assert_eq!(loopize(TAU - 1000, 1000), -2000);
    assert_eq!(loopize(0, TAU), 0);
    assert_eq!(loopize_about(7, 0, 4), -1);
    assert_eq!(loopize_about(2, 0, 4), 2);
}

#[test]
fn coterminal_wraps_into_one_period() {
    assert_eq!(coterminal(-1, 5000), 4999);
    assert_eq!(coterminal(5000, 5000), 0);
    assert_eq!(coterminal(12345, 5000), 2345);
}

#[test]
fn vector_basics() {
    let a = Vector2::new(3, -4);
    assert_eq!(a.magnitude_squared(), 25);
    assert_eq!(a.dot(&Vector2::new(2, 1)), 2);
    assert_eq!(a.perpendicular(), Vector2::new(4, 3));
    assert_eq!(a.add(&Vector2::new(-3, 4)), Vector2::empty());
    assert!(a.sub(&a).is_zero());
    let (para, perp) = Vector2::new(5, 7).cut(&Vector2::new(2, 0));
    assert_eq!(para, Vector2::new(5, 0));
    assert_eq!(perp, Vector2::new(0, 7));
}
