use breakout::geometry::{
    clamp, closest_point, collide_with_side, isqrt, push_out, reflect, scaled_direction, Circle,
    Collision, Rect, Vec2,
};

fn rect(x0: i64, y0: i64, x1: i64, y1: i64) -> Rect {
    Rect::new(Vec2::new(x0, y0), Vec2::new(x1, y1))
}

#[test]
fn isqrt_exact_and_rounded() {
    assert_eq!(isqrt(0), 0);
    assert_eq!(isqrt(1), 1);
    assert_eq!(isqrt(15), 3);
    assert_eq!(isqrt(16), 4);
    assert_eq!(isqrt(80_000), 282);
    assert_eq!(isqrt(1u128 << 100), 1u128 << 50);
}

#[test]
fn scaled_direction_diagonal() {
    assert_eq!(scaled_direction(Vec2::new(1, -1), 400), Some(Vec2::new(282, -282)));
}

#[test]
fn scaled_direction_exact_triangle() {
    assert_eq!(scaled_direction(Vec2::new(-3, 4), 10), Some(Vec2::new(-6, 8)));
    assert_eq!(scaled_direction(Vec2::new(0, 5), 7), Some(Vec2::new(0, 7)));
}

#[test]
fn scaled_direction_zero_vector_has_none() {
    assert_eq!(scaled_direction(Vec2::new(0, 0), 400), None);
}

#[test]
fn clamp_and_closest_point() {
    assert_eq!(clamp(5, 0, 3), 3);
    assert_eq!(clamp(-5, 0, 3), 0);
    assert_eq!(clamp(2, 0, 3), 2);
    let r = rect(0, 0, 10, 10);
    assert_eq!(closest_point(&r, Vec2::new(-4, 5)), Vec2::new(0, 5));
    assert_eq!(closest_point(&r, Vec2::new(3, 4)), Vec2::new(3, 4));
    assert_eq!(closest_point(&r, Vec2::new(20, 20)), Vec2::new(10, 10));
}

#[test]
fn collision_sides() {
    let r = rect(0, 0, 100, 100);
    let ball = |x: i64, y: i64| Circle { center: Vec2::new(x, y), radius: 10 };
    assert_eq!(collide_with_side(&ball(-5, 50), &r), Some(Collision::Left));
    assert_eq!(collide_with_side(&ball(105, 50), &r), Some(Collision::Right));
    assert_eq!(collide_with_side(&ball(50, 108), &r), Some(Collision::Top));
    assert_eq!(collide_with_side(&ball(50, -3), &r), Some(Collision::Bottom));
    // Touching at exactly the radius still counts.
    assert_eq!(collide_with_side(&ball(-10, 50), &r), Some(Collision::Left));
    assert_eq!(collide_with_side(&ball(-11, 50), &r), None);
    // Corner: the farther axis decides.
    assert_eq!(collide_with_side(&ball(-6, -5), &r), Some(Collision::Left));
    assert_eq!(collide_with_side(&ball(108, 105), &r), Some(Collision::Right));
    assert_eq!(collide_with_side(&ball(-8, -8), &r), None);
    // Centre inside the rectangle: the edge of least penetration, left first on ties.
    assert_eq!(collide_with_side(&ball(50, 50), &r), Some(Collision::Left));
    assert_eq!(collide_with_side(&ball(90, 50), &r), Some(Collision::Right));
    assert_eq!(collide_with_side(&ball(50, 95), &r), Some(Collision::Top));
    assert_eq!(collide_with_side(&ball(40, 3), &r), Some(Collision::Bottom));
    assert_eq!(collide_with_side(&ball(0, 50), &r), Some(Collision::Left));
}

#[test]
fn reflection_negates_one_component() {
    let v = Vec2::new(3, -4);
    assert_eq!(reflect(v, Collision::Left), Vec2::new(-3, -4));
    assert_eq!(reflect(v, Collision::Right), Vec2::new(-3, -4));
    assert_eq!(reflect(v, Collision::Top), Vec2::new(3, 4));
    assert_eq!(reflect(v, Collision::Bottom), Vec2::new(3, 4));
    let w = reflect(v, Collision::Top);
    assert_eq!(w.x * w.x + w.y * w.y, v.x * v.x + v.y * v.y);
}

#[test]
fn push_out_clears_the_rectangle() {
    let r = rect(0, 0, 100, 100);
    let c = Circle { center: Vec2::new(50, 105), radius: 10 };
    let side = collide_with_side(&c, &r).unwrap();
    assert_eq!(side, Collision::Top);
    let d = push_out(&c, &r, side);
    assert_eq!(d.center, Vec2::new(50, 111));
    assert_eq!(collide_with_side(&d, &r), None);
    let l = push_out(&Circle { center: Vec2::new(-2, 40), radius: 10 }, &r, Collision::Left);
    assert_eq!(l.center, Vec2::new(-11, 40));
}

#[test]
fn rect_from_center_and_contains() {
    let r = Rect::from_center(Vec2::new(0, 10), Vec2::new(5, 2));
    assert_eq!(r, rect(-5, 8, 5, 12));
    assert!(r.contains(Vec2::new(5, 12)));
    assert!(!r.contains(Vec2::new(6, 12)));
}
