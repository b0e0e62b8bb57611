use arena_combat::vec2::{isqrt64, sin_fp, cos_fp, Vec2};

// Coordinates are in milliunits: one world unit is 1000.
const UNIT: i64 = 1000;

#[test]
fn point_is_in_triangle() {
    let point = Vec2::new(1 * UNIT, 1 * UNIT);
    let a = Vec2::new(-4 * UNIT, 2 * UNIT);
    let b = Vec2::new(6 * UNIT, 4 * UNIT);
    let c = Vec2::new(-2 * UNIT, -3 * UNIT);

    assert!(point.is_in_triangle(&a, &b, &c))
}

#[test]
fn point_is_not_in_triangle() {
    let point = Vec2::new(-3 * UNIT, 6 * UNIT);
    let a = Vec2::new(-4 * UNIT, 2 * UNIT);
    let b = Vec2::new(6 * UNIT, 4 * UNIT);
    let c = Vec2::new(-2 * UNIT, -3 * UNIT);

    assert!(!point.is_in_triangle(&a, &b, &c))
}

#[test]
fn triangle_contains_its_own_vertices() {
    let a = Vec2::new(-4 * UNIT, 2 * UNIT);
    let b = Vec2::new(6 * UNIT, 4 * UNIT);
    let c = Vec2::new(-2 * UNIT, -3 * UNIT);

    assert!(a.is_in_triangle(&a, &b, &c));
    assert!(b.is_in_triangle(&a, &b, &c));
    assert!(c.is_in_triangle(&a, &b, &c));
}

#[test]
fn point_far_outside_bounding_box_is_outside() {
    let a = Vec2::new(-4 * UNIT, 2 * UNIT);
    let b = Vec2::new(6 * UNIT, 4 * UNIT);
    let c = Vec2::new(-2 * UNIT, -3 * UNIT);

    assert!(!Vec2::new(1_000_000, 0).is_in_triangle(&a, &b, &c));
    assert!(!Vec2::new(-1_000_000, 0).is_in_triangle(&a, &b, &c));
    assert!(!Vec2::new(0, 1_000_000).is_in_triangle(&a, &b, &c));
    assert!(!Vec2::new(0, -1_000_000).is_in_triangle(&a, &b, &c));
}

#[test]
fn degenerate_triangle_contains_nothing() {
    // Three collinear corners: even a point on the segment is rejected.
    let a = Vec2::new(0, 0);
    let b = Vec2::new(2 * UNIT, 2 * UNIT);
    let c = Vec2::new(4 * UNIT, 4 * UNIT);

    assert!(!Vec2::new(UNIT, UNIT).is_in_triangle(&a, &b, &c));
    assert!(!a.is_in_triangle(&a, &b, &c));
}

#[test]
fn scaled_vector_to_self_is_zero() {
    for &(x, y) in &[(0i64, 0i64), (5 * UNIT, -3 * UNIT), (-999_000_000, 999_000_000)] {
        let p = Vec2::new(x, y);
        for &s in &[0i64, 1, 500_000, 1_000_000_000] {
            let r = p.scaled_vector_to(&p, s);
            assert_eq!((r.x, r.y), (0, 0));
        }
    }
}

#[test]
fn scaled_vector_to_three_four_five() {
    let from = Vec2::new(0, 0);
    let to = Vec2::new(3000, 4000);
    let r = from.scaled_vector_to(&to, 1000);
    assert_eq!((r.x, r.y), (600, 800));

    // The same direction reversed flips both signs.
    let r = to.scaled_vector_to(&from, 1000);
    assert_eq!((r.x, r.y), (-600, -800));
}

#[test]
fn diagonal_speed_matches_single_axis() {
    // One tick of movement at scale s: a single direction moves exactly s,
    // a diagonal moves the same length up to integer truncation.
    let p = Vec2::new(0, 0);
    let s: i64 = 90_000;
    let single = p.scaled_vector_to(&Vec2::new(UNIT, 0), s);
    let diag = p.scaled_vector_to(&Vec2::new(UNIT, UNIT), s);
    let single_sq = single.x * single.x + single.y * single.y;
    let diag_sq = diag.x * diag.x + diag.y * diag.y;
    assert_eq!(single_sq, s * s);
    assert!(3300 * diag_sq <= 3301 * single_sq);
    assert!(diag_sq >= single_sq - 4 * s);
}

#[test]
fn isqrt_brackets_its_input() {
    assert_eq!(isqrt64(0), 0);
    assert_eq!(isqrt64(1), 1);
    assert_eq!(isqrt64(3), 1);
    assert_eq!(isqrt64(4), 2);
    assert_eq!(isqrt64(2_000_000), 1414);
    assert_eq!(isqrt64(u64::MAX), 4_294_967_295);
}

#[test]
fn sine_and_cosine_exact_points() {
    assert_eq!(sin_fp(0), 0);
    assert_eq!(sin_fp(30_000), 500_000);
    assert_eq!(sin_fp(90_000), 1_000_000);
    assert_eq!(sin_fp(150_000), 500_000);
    assert_eq!(sin_fp(180_000), 0);
    assert_eq!(sin_fp(270_000), -1_000_000);
    assert_eq!(cos_fp(0), 1_000_000);
    assert_eq!(cos_fp(90_000), 0);
    assert_eq!(cos_fp(30_000), 864_864);
}

#[test]
fn rotation_by_quarter_turns() {
    let v = Vec2::new(1000, 0);
    let up = v.rotated_by(90_000);
    assert_eq!((up.x, up.y), (0, 1000));
    let down = v.rotated_by(-90_000);
    assert_eq!((down.x, down.y), (0, -1000));
    let back = v.rotated_by(180_000);
    assert_eq!((back.x, back.y), (-1000, 0));
}
