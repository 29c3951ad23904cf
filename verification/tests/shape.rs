use falling_squares::shape::{Color, Shape};

fn circle_shape(x: i64, y: i64, size: i64) -> Shape {
    Shape { size, speed: 200_000, x, y, color: Color::Yellow, collided: false }
}

fn square_shape(x: i64, y: i64, size: i64) -> Shape {
    Shape { size, speed: 100_000, x, y, color: Color::Blue, collided: false }
}

#[test]
fn concentric_shapes_overlap() {
    // The scenario of a player at (400, 300) meeting a square of side 32
    // at the same spot.
    let player = circle_shape(400_000, 300_000, 32_000);
    let square = square_shape(400_000, 300_000, 32_000);
    assert!(player.collides_with(&square));
}

#[test]
fn edge_contact_overlaps() {
    // Bullet of radius 2.5 px at (100, 100), square of side 20 px at
    // (100, 110): the circle's center sits exactly on the square's top edge.
    let bullet = circle_shape(100_000, 100_000, 5_000);
    let square = square_shape(100_000, 110_000, 20_000);
    assert!(bullet.collides_with(&square));
}

#[test]
fn axis_separation_is_exact() {
    // Square of side 20 px centered at the origin, bullet of radius 2.5 px
    // level with its center: apart at dx > 12.5 px, touching at dx == 12.5.
    let square = square_shape(0, 0, 20_000);
    assert!(circle_shape(12_500, 0, 5_000).collides_with(&square));
    assert!(!circle_shape(12_501, 0, 5_000).collides_with(&square));
}

#[test]
fn corner_distance_is_exact() {
    // Near the square's corner the squared distance decides: the corner is
    // (10, 10), the center (11.5, 12) lies exactly 2.5 px away.
    let square = square_shape(0, 0, 20_000);
    assert!(circle_shape(11_500, 12_000, 5_000).collides_with(&square));
    assert!(!circle_shape(11_500, 12_001, 5_000).collides_with(&square));
}

#[test]
fn circle_and_rect_views() {
    let s = circle_shape(100_000, 200_000, 32_000);
    let c = s.circle();
    assert_eq!((c.x2, c.y2, c.r2), (200_000, 400_000, 32_000));
    let r = s.rect();
    assert_eq!((r.x2, r.y2), (168_000, 368_000));
    assert_eq!((r.w2, r.h2), (64_000, 64_000));
}
