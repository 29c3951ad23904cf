use falling_squares::game::{GameState, Input};
use falling_squares::shape::{Color, Shape};

const W: i64 = 800_000;
const H: i64 = 600_000;

fn no_input() -> Input {
    Input { up: false, down: false, left: false, right: false, fire: false }
}

fn square_at(x: i64, y: i64, size: i64) -> Shape {
    Shape { size, speed: 100_000, x, y, color: Color::Green, collided: false }
}

#[test]
fn new_game_is_centered() {
    let g = GameState::new(W, H, 17);
    assert_eq!(g.player.x, 400_000);
    assert_eq!(g.player.y, 300_000);
    assert_eq!(g.player.size, 32_000);
    assert_eq!(g.player.speed, 200_000);
    assert_eq!(g.player.color, Color::Yellow);
    assert!(g.squares.is_empty());
    assert!(g.bullets.is_empty());
    assert_eq!(g.score, 0);
    assert_eq!(g.high_score, 17);
    assert!(!g.game_over);
}

#[test]
fn movement_formula_exact() {
    let mut g = GameState::new(W, H, 0);
    let input = Input { right: true, ..no_input() };
    // 200_000 milli-px/s for 100 ms moves 20_000 milli-px.
    g.apply_input(input, 100, W, H);
    assert_eq!(g.player.x, 420_000);
    assert_eq!(g.player.y, 300_000);
    let input = Input { up: true, left: true, ..no_input() };
    g.apply_input(input, 50, W, H);
    assert_eq!(g.player.x, 410_000);
    assert_eq!(g.player.y, 290_000);
}

#[test]
fn player_clamped_to_playfield() {
    let mut g = GameState::new(W, H, 0);
    let right = Input { right: true, ..no_input() };
    // A huge frame time would carry the player 2_000_000 milli-px: clamped to W.
    g.apply_input(right, 10_000, W, H);
    assert_eq!(g.player.x, W);
    let up = Input { up: true, ..no_input() };
    g.apply_input(up, 10_000, W, H);
    assert_eq!(g.player.y, 0);
    let left = Input { left: true, ..no_input() };
    g.apply_input(left, 10_000, W, H);
    assert_eq!(g.player.x, 0);
    // Even the largest frame time an i64 can count keeps the player inside.
    let down = Input { down: true, ..no_input() };
    g.apply_input(down, i64::MAX, W, H);
    assert_eq!(g.player.y, H);
}

#[test]
fn spawn_decision_is_the_roll() {
    for roll in 0..95 {
        assert_eq!(GameState::spawn_from_draws(roll, 20_000, 60_000, 100_000, Color::Blue, W), None);
    }
    let sq = GameState::spawn_from_draws(95, 20_000, 60_000, 100_000, Color::Blue, W).unwrap();
    assert_eq!(sq.size, 20_000);
    assert_eq!(sq.speed, 60_000);
    assert_eq!(sq.x, 100_000);
    assert_eq!(sq.y, -20_000);
    assert_eq!(sq.color, Color::Blue);
    assert!(!sq.collided);
    assert!(GameState::spawn_from_draws(99, 20_000, 60_000, 100_000, Color::Red, W).is_some());
}

#[test]
fn firing_appends_bullet_at_player() {
    let mut g = GameState::new(W, H, 0);
    let fire = Input { fire: true, ..no_input() };
    g.apply_input(fire, 0, W, H);
    assert_eq!(g.bullets.len(), 1);
    let b = g.bullets[0];
    assert_eq!(b.x, 400_000);
    assert_eq!(b.y, 300_000);
    assert_eq!(b.size, 5_000);
    assert_eq!(b.speed, 400_000);
    assert_eq!(b.color, Color::Red);
    assert!(!b.collided);
}

#[test]
fn game_over_freezes_input() {
    let mut g = GameState::new(W, H, 0);
    g.game_over = true;
    let input = Input { right: true, down: true, fire: true, ..no_input() };
    g.apply_input(input, 1_000, W, H);
    assert_eq!(g.player.x, 400_000);
    assert_eq!(g.player.y, 300_000);
    assert!(g.bullets.is_empty());
}

#[test]
fn advance_formula_exact() {
    let mut g = GameState::new(W, H, 0);
    g.squares.push(square_at(100_000, 50_000, 20_000));
    g.bullets.push(Shape {
        size: 5_000,
        speed: 400_000,
        x: 200_000,
        y: 300_000,
        color: Color::Red,
        collided: false,
    });
    // 100_000 milli-px/s falling and 400_000 rising, for 500 ms.
    g.advance(500);
    assert_eq!(g.squares[0].y, 100_000);
    assert_eq!(g.bullets[0].y, 100_000);
}

#[test]
fn advance_frozen_when_game_over() {
    let mut g = GameState::new(W, H, 0);
    g.squares.push(square_at(100_000, 50_000, 20_000));
    g.game_over = true;
    g.advance(500);
    assert_eq!(g.squares[0].y, 50_000);
}

#[test]
fn prune_boundaries() {
    let mut g = GameState::new(W, H, 0);
    let size: i64 = 32_000;
    // Exactly at H + size: the whole square has left the field, removed.
    g.squares.push(square_at(100_000, H + size, size));
    // One milli-pixel above the line: kept.
    g.squares.push(square_at(200_000, H + size - 1, size));
    // A hundredth of a pixel past the line: removed.
    g.squares.push(square_at(300_000, H + size + 10, size));
    // Bullets leave once the center reaches -size / 2.
    let bullet = |x: i64, y: i64| Shape {
        size: 5_000,
        speed: 400_000,
        x,
        y,
        color: Color::Red,
        collided: false,
    };
    g.bullets.push(bullet(100_000, -2_500));
    g.bullets.push(bullet(200_000, -2_499));
    g.prune(H);
    assert_eq!(g.squares.len(), 1);
    assert_eq!(g.squares[0].x, 200_000);
    assert_eq!(g.bullets.len(), 1);
    assert_eq!(g.bullets[0].x, 200_000);
}

#[test]
fn prune_removes_collided() {
    let mut g = GameState::new(W, H, 0);
    let mut sq = square_at(100_000, 100_000, 20_000);
    sq.collided = true;
    g.squares.push(sq);
    g.squares.push(square_at(200_000, 100_000, 20_000));
    g.prune(H);
    assert_eq!(g.squares.len(), 1);
    assert_eq!(g.squares[0].x, 200_000);
}

#[test]
fn player_square_collision_sets_game_over() {
    let mut g = GameState::new(W, H, 0);
    // Player circle at (400, 300), square at (400, 300) of side 32 pixels.
    g.squares.push(square_at(400_000, 300_000, 32_000));
    let save = g.check_player_collision();
    assert!(g.game_over);
    // Score equals high score (0 == 0), so the high score is handed back.
    assert_eq!(save, Some(0));
    // Already true: stays true.
    g.check_player_collision();
    assert!(g.game_over);
}

#[test]
fn save_only_when_score_equals_high_score() {
    let mut g = GameState::new(W, H, 5);
    g.score = 3;
    g.squares.push(square_at(400_000, 300_000, 32_000));
    let save = g.check_player_collision();
    assert_eq!(save, None);
    assert!(g.game_over);

    let mut g = GameState::new(W, H, 5);
    g.score = 5;
    g.squares.push(square_at(400_000, 300_000, 32_000));
    let save = g.check_player_collision();
    assert_eq!(save, Some(5));
}

#[test]
fn no_collision_no_game_over() {
    let mut g = GameState::new(W, H, 0);
    g.squares.push(square_at(100_000, 100_000, 32_000));
    let save = g.check_player_collision();
    assert_eq!(save, None);
    assert!(!g.game_over);
}

#[test]
fn bullet_downs_square_and_scores() {
    let mut g = GameState::new(W, H, 0);
    // Bullet at (100, 100) of radius 2.5 px, square at (100, 110) of side 20 px:
    // the circle's center is within the square's horizontal band, 10 px from
    // its center, exactly on the square's top edge — overlap.
    g.squares.push(square_at(100_000, 110_000, 20_000));
    g.bullets.push(Shape {
        size: 5_000,
        speed: 400_000,
        x: 100_000,
        y: 100_000,
        color: Color::Red,
        collided: false,
    });
    g.resolve_bullet_collisions();
    assert!(g.squares[0].collided);
    assert!(g.bullets[0].collided);
    assert_eq!(g.score, 20);
    assert_eq!(g.high_score, 20);
}

#[test]
fn square_downed_by_at_most_one_bullet() {
    let mut g = GameState::new(W, H, 0);
    g.squares.push(square_at(100_000, 110_000, 20_000));
    // Two overlapping bullets: only the first is spent on the square.
    for _ in 0..2 {
        g.bullets.push(Shape {
            size: 5_000,
            speed: 400_000,
            x: 100_000,
            y: 100_000,
            color: Color::Red,
            collided: false,
        });
    }
    g.resolve_bullet_collisions();
    assert!(g.squares[0].collided);
    assert!(g.bullets[0].collided);
    assert!(!g.bullets[1].collided);
    assert_eq!(g.score, 20);
}

#[test]
fn score_rounds_halves_up() {
    let mut g = GameState::new(W, H, 0);
    // A side of 20.5 pixels scores 21 points.
    g.squares.push(square_at(100_000, 110_000, 20_500));
    g.bullets.push(Shape {
        size: 5_000,
        speed: 400_000,
        x: 100_000,
        y: 100_000,
        color: Color::Red,
        collided: false,
    });
    g.resolve_bullet_collisions();
    assert_eq!(g.score, 21);
}

#[test]
fn score_saturates_at_u32_max() {
    let mut g = GameState::new(W, H, u32::MAX);
    g.score = u32::MAX - 5;
    g.squares.push(square_at(100_000, 110_000, 20_000));
    g.bullets.push(Shape {
        size: 5_000,
        speed: 400_000,
        x: 100_000,
        y: 100_000,
        color: Color::Red,
        collided: false,
    });
    g.resolve_bullet_collisions();
    assert_eq!(g.score, u32::MAX);
    assert_eq!(g.high_score, u32::MAX);
}

#[test]
fn restart_resets_run_state() {
    let mut g = GameState::new(W, H, 9);
    g.squares.push(square_at(100_000, 100_000, 20_000));
    g.bullets.push(Shape {
        size: 5_000,
        speed: 400_000,
        x: 200_000,
        y: 300_000,
        color: Color::Red,
        collided: false,
    });
    g.score = 7;
    g.player.x = 10_000;
    g.player.y = 20_000;
    g.game_over = true;
    g.try_restart(true, W, H);
    assert!(g.squares.is_empty());
    assert!(g.bullets.is_empty());
    assert_eq!(g.score, 0);
    assert_eq!(g.player.x, 400_000);
    assert_eq!(g.player.y, 300_000);
    assert_eq!(g.high_score, 9);
    assert!(!g.game_over);
}

#[test]
fn restart_is_noop_while_playing() {
    let mut g = GameState::new(W, H, 9);
    g.squares.push(square_at(100_000, 100_000, 20_000));
    g.score = 0;
    g.try_restart(true, W, H);
    assert_eq!(g.squares.len(), 1);
    // And a finished game without a fire press stays as it is.
    g.game_over = true;
    g.score = 0;
    g.try_restart(false, W, H);
    assert!(g.game_over);
    assert_eq!(g.squares.len(), 1);
}

#[test]
fn spawned_squares_in_bounds() {
    macroquad::rand::srand(7);
    let mut g = GameState::new(W, H, 0);
    let mut spawned: usize = 0;
    let mut seen_green = false;
    let mut seen_blue = false;
    let mut seen_red = false;
    for _ in 0..3000 {
        let before = g.squares.len();
        g.maybe_spawn_square(W);
        if g.squares.len() > before {
            spawned += 1;
            let sq = g.squares[g.squares.len() - 1];
            assert!((16_000..64_000).contains(&sq.size));
            assert!((50_000..150_000).contains(&sq.speed));
            // The full square stays within [0, W], to the exact half
            // milli-pixel, and the band is half-open on the right.
            assert!(2 * sq.x - sq.size >= 0);
            assert!(2 * sq.x + sq.size <= 2 * W);
            assert!(sq.x < W - sq.size / 2);
            assert_eq!(sq.y, -sq.size);
            assert!(matches!(sq.color, Color::Green | Color::Blue | Color::Red));
            assert!(!sq.collided);
            match sq.color {
                Color::Green => seen_green = true,
                Color::Blue => seen_blue = true,
                Color::Red => seen_red = true,
                Color::Yellow => {}
            }
        }
    }
    // Around 150 spawns from a fixed seed: every spawn color shows up.
    assert!(spawned > 0);
    assert!(seen_green && seen_blue && seen_red);
}

#[test]
fn spawner_is_seed_deterministic() {
    macroquad::rand::srand(12_345);
    let mut g = GameState::new(W, H, 0);
    for _ in 0..3000 {
        g.maybe_spawn_square(W);
    }
    let first_run: Vec<(i64, i64, i64)> =
        g.squares.iter().map(|s| (s.size, s.speed, s.x)).collect();
    macroquad::rand::srand(12_345);
    let mut g = GameState::new(W, H, 0);
    for _ in 0..3000 {
        g.maybe_spawn_square(W);
    }
    let second_run: Vec<(i64, i64, i64)> =
        g.squares.iter().map(|s| (s.size, s.speed, s.x)).collect();
    assert!(!first_run.is_empty());
    assert_eq!(first_run, second_run);
}

#[test]
fn high_score_never_decreases_across_frames() {
    macroquad::rand::srand(99);
    let mut g = GameState::new(W, H, 3);
    let mut best = g.high_score;
    for i in 0..500 {
        let input = Input {
            right: i % 3 == 0,
            left: i % 5 == 0,
            up: i % 2 == 0,
            down: i % 7 == 0,
            fire: i % 4 == 0,
        };
        g.frame(input, 16, W, H);
        assert!(g.high_score >= best);
        best = g.high_score;
        assert!(g.score <= g.high_score);
        assert!((0..=W).contains(&g.player.x));
        assert!((0..=H).contains(&g.player.y));
    }
}

#[test]
fn frame_scores_and_then_prunes_downed_pair() {
    macroquad::rand::srand(1);
    let mut g = GameState::new(W, H, 0);
    g.squares.push(square_at(100_000, 110_000, 20_000));
    g.bullets.push(Shape {
        size: 5_000,
        speed: 400_000,
        x: 100_000,
        y: 100_000,
        color: Color::Red,
        collided: false,
    });
    // The pair overlaps: this frame marks both and scores the square.
    let save = g.frame(no_input(), 0, W, H);
    assert_eq!(save, None);
    assert_eq!(g.score, 20);
    assert_eq!(g.high_score, 20);
    assert!(g.squares.iter().any(|s| s.collided));
    // The next frame's pruning pass removes everything marked.
    g.frame(no_input(), 0, W, H);
    assert!(g.squares.iter().all(|s| !s.collided));
    assert!(g.bullets.iter().all(|b| !b.collided));
    assert_eq!(g.score, 20);
}
