use arena_core::geometry::{zone_check, BoxShape, UNIT};
use arena_core::kinds::{Kind, ReqZone};
use arena_core::placement::{clear_of_castles, next_rubble_timer, random_rubble_kind, rubble_kind, zone_allows, Surroundings};
use arena_core::vector::Vector2;

fn rotated(x: i64, y: i64, w: i64, h: i64, a: f64) -> BoxShape {
    BoxShape {
        x,
        y,
        w,
        h,
        ux: (a.cos() * UNIT as f64).round() as i64,
        uy: (a.sin() * UNIT as f64).round() as i64,
    }
}

#[test]
fn check_vector_addition() {
    let vec1 = Vector2::new(1, 0);
    let vec2 = Vector2::new(-1, 0);
    assert_eq!(vec1.add(&vec2), Vector2::empty());
    let vec3 = Vector2::new(1, 1);
    assert_eq!(vec1.add(&vec3), Vector2::new(2, 1));
}

#[test]
fn check_box_contains() {
    let mut shape = rotated(0, 0, 10, 10, 0.0);
    assert!(shape.contains(-4, 0));
    assert!(!shape.contains(-5, 0));
    shape = rotated(0, 0, 10, 10, std::f64::consts::PI / 4.0);
    assert!(shape.contains(-7, 0));
    assert!(!shape.contains(-8, 0));
    shape = rotated(0, 0, 10, 10, std::f64::consts::PI / 8.0);
    assert!(shape.contains(-4, 0));
}

#[test]
fn far_apart_boxes_never_hit() {
    let a = rotated(0, 0, 48, 36, 0.3);
    let b = rotated(200, 0, 48, 36, 1.1);
    assert!(!a.worst_overlaps(&b));
    let (hit, mtv) = a.intersects(&b);
    assert!(!hit);
    assert_eq!((mtv.ax, mtv.ay, mtv.amount), (0, 0, 0));
}

#[test]
fn overlapping_boxes_get_the_smallest_push() {
    let a = rotated(0, 0, 10, 10, 0.0);
    let b = rotated(8, 0, 10, 10, 0.0);
    let (hit, mtv) = a.intersects(&b);
    assert!(hit);
    assert_eq!((mtv.ax, mtv.ay), (UNIT, 0));
    assert_eq!(mtv.amount, -2 * 2 * (UNIT as i128) * (UNIT as i128));
    assert!(b.intersects(&a).0);
    let c = rotated(10, 0, 10, 10, 0.0);
    assert!(!a.intersects(&c).0);
    let d = rotated(9, 9, 10, 10, std::f64::consts::PI / 4.0);
    assert!(!a.intersects(&d).0);
    let e = rotated(7, 7, 10, 10, std::f64::consts::PI / 4.0);
    assert!(a.intersects(&e).0);
}

#[test]
fn zones_of_a_shape() {
    let small = rotated(10, 10, 4, 4, 0.0);
    assert_eq!(zone_check(&small, 100, 2), vec![0]);
    let straddling = rotated(100, 100, 10, 10, 0.0);
    assert_eq!(zone_check(&straddling, 100, 2), vec![0, 2, 1, 3]);
    let right = rotated(150, 20, 10, 10, 0.0);
    assert_eq!(zone_check(&right, 100, 2), vec![1]);
}

#[test]
fn carried_pieces_park_in_their_berths() {
    let carrier = rotated(500, 500, 400, 160, 0.0);
    let mut f = rotated(520, 500, 48, 36, 1.0);
    carrier.place_at_berth(&mut f, 0, true);
    assert_eq!((f.x, f.y), (500 - 200 + 35, 500 - 80 + 35));
    assert_eq!((f.ux, f.uy), (UNIT, 0));
    carrier.place_at_berth(&mut f, 9, false);
    assert_eq!((f.x, f.y), (500 - 200 + 4 * 80 + 35, 500 + 80 - 35));
    let turned = rotated(0, 0, 400, 160, std::f64::consts::PI / 2.0);
    let mut g = rotated(0, 0, 48, 36, 0.0);
    turned.place_at_berth(&mut g, 0, true);
    assert_eq!((g.x, g.y), (45, -165));
}

#[test]
fn placement_zones() {
    let none = Surroundings { near_castle: false, near_rtf: false, near_fort: false, clear: false };
    let fort = Surroundings { near_fort: true, ..none };
    let clear = Surroundings { clear: true, ..none };
    assert!(zone_allows(ReqZone::NoZone, Some(1), &none));
    assert!(!zone_allows(ReqZone::WithinCastle, Some(1), &fort));
    assert!(zone_allows(ReqZone::WithinCastleOrFort, Some(1), &fort));
    assert!(zone_allows(ReqZone::AwayFromThings, Some(1), &clear));
    assert!(!zone_allows(ReqZone::AwayFromThings, Some(1), &fort));
    assert!(zone_allows(ReqZone::Both, Some(1), &fort));
    assert!(zone_allows(ReqZone::WithinCastle, None, &none));
    assert!(zone_allows(Kind::Castle.req_zone(), Some(2), &clear));
}

#[test]
fn rubble_choices() {
    assert_eq!(rubble_kind(19), Kind::Chest);
    assert_eq!(rubble_kind(20), Kind::Wall);
    assert_eq!(rubble_kind(119), Kind::Chest);
    for _ in 0..50 {
        let k = random_rubble_kind();
        assert!(k == Kind::Chest || k == Kind::Wall);
        let t = next_rubble_timer();
        assert!((50..250).contains(&t));
    }
    let castles = vec![(1000, 1000), (3000, 3000)];
    assert!(clear_of_castles(1400, 1000, &castles));
    assert!(!clear_of_castles(1399, 1399, &castles));
    assert!(clear_of_castles(2000, 2000, &castles));
}

#[test]
fn the_push_separates_the_boxes() {
    let a = rotated(0, 0, 10, 10, 0.0);
    let b = rotated(8, 0, 10, 10, 0.0);
    let (hit, mtv) = a.intersects(&b);
    assert!(hit);
    let scale = 2 * (UNIT as i128) * (UNIT as i128);
    let dx = (mtv.ax as i128 * mtv.amount / scale / UNIT as i128) as i64;
    let dy = (mtv.ay as i128 * mtv.amount / scale / UNIT as i128) as i64;
    assert_eq!((dx, dy), (-2, 0));
    let moved = BoxShape { x: a.x + dx, y: a.y + dy, ..a };
    assert!(!moved.intersects(&b).0);
}
