//! The per-frame rules of the game: player motion and clamping, probabilistic
//! square spawning, bullet firing, kinematics, lifecycle pruning, collision
//! resolution with score and high-score bookkeeping, and the game-over /
//! restart state machine. The caller drives one `frame` per displayed frame
//! and does the rendering, input polling and storage I/O around it.

use vstd::pervasive::VecAdditionalExecFns;
use vstd::prelude::*;

use crate::rng::{choose_color, gen_range_i64};
use crate::shape::{shape_hits, Color, Shape, MAX_COORD, MAX_SPEED};

verus! {

/// Speed of the player circle, in milli-pixels per second.
pub const MOVEMENT_SPEED: i64 = 200_000;

/// Diameter of the player circle, in milli-pixels.
pub const PLAYER_SIZE: i64 = 32_000;

/// Diameter of a bullet, in milli-pixels.
pub const BULLET_SIZE: i64 = 5_000;

/// Bounds of a spawned square's side, in milli-pixels: within [16, 64)
/// pixels.
pub const SQUARE_SIZE_MIN: i64 = 16_000;

pub const SQUARE_SIZE_MAX: i64 = 64_000;

/// Bounds of a spawned square's falling speed: within [50, 150) pixels per
/// second.
pub const SQUARE_SPEED_MIN: i64 = 50_000;

pub const SQUARE_SPEED_MAX: i64 = 150_000;

/// Each frame a roll is drawn from [0, SPAWN_ROLL_MAX] and a square spawns on
/// a roll of at least SPAWN_THRESHOLD.
pub const SPAWN_ROLL_MAX: i64 = 99;

pub const SPAWN_THRESHOLD: i64 = 95;

/// Largest playfield width or height, in milli-pixels (ten thousand pixels).
pub const MAX_DIM: i64 = 10_000_000;

/// The inputs of one frame. The four directions are level-triggered (held
/// keys); `fire` is edge-triggered (one press fires one bullet, or restarts
/// a finished game).
#[derive(Clone, Copy, PartialEq, Eq, Structural, Debug)]
pub struct Input {
    pub up: bool,
    pub down: bool,
    pub left: bool,
    pub right: bool,
    pub fire: bool,
}

/// The whole mutable state of the game.
pub struct GameState {
    /// The player circle. Its `collided` flag is never set.
    pub player: Shape,
    /// Falling squares, in spawn order.
    pub squares: Vec<Shape>,
    /// Live bullets, in firing order.
    pub bullets: Vec<Shape>,
    /// Score of the current run.
    pub score: u32,
    /// Best score seen, never decreasing; persisted by the caller when a run
    /// ends on a new best.
    pub high_score: u32,
    /// Set on a player-square collision; frozen positions until a restart.
    pub game_over: bool,
}

/// `v` bounded into `[lo, hi]`.
pub open spec fn clamp_spec(v: int, lo: int, hi: int) -> int {
    if v < lo {
        lo
    } else if v > hi {
        hi
    } else {
        v
    }
}

/// `v` bounded into `[lo, hi]`, computed wide so that a whole frame's travel
/// — at any nonnegative frame time an `i64` can count — fits the arithmetic.
pub fn clamp_wide(v: i128, lo: i128, hi: i128) -> (r: i128)
    requires
        lo <= hi,
    ensures
        r == clamp_spec(v as int, lo as int, hi as int),
{
    if v < lo {
        lo
    } else if v > hi {
        hi
    } else {
        v
    }
}

/// Distance covered in `dt` milliseconds at `speed` milli-pixels per second.
pub open spec fn step_dist(speed: int, dt: int) -> int {
    speed * dt / 1000
}

/// The mathematical image of a `GameState`, with the entity vectors read as
/// sequences. The frame's contracts speak of this model.
#[verifier::ext_equal]
pub struct GameModel {
    pub player: Shape,
    pub squares: Seq<Shape>,
    pub bullets: Seq<Shape>,
    pub score: u32,
    pub high_score: u32,
    pub game_over: bool,
}

impl View for GameState {
    type V = GameModel;

    open spec fn view(&self) -> GameModel {
        GameModel {
            player: self.player,
            squares: self.squares@,
            bullets: self.bullets@,
            score: self.score,
            high_score: self.high_score,
            game_over: self.game_over,
        }
    }
}

/// The player's x after this frame's input, before clamping: held keys move
/// it by `speed * dt`, independently per direction, and not at all once the
/// game is over.
pub open spec fn moved_x(g: GameModel, input: Input, dt: int) -> int {
    if g.game_over {
        g.player.x as int
    } else {
        g.player.x + (if input.right {
            step_dist(g.player.speed as int, dt)
        } else {
            0
        }) - (if input.left {
            step_dist(g.player.speed as int, dt)
        } else {
            0
        })
    }
}

/// The player's y after this frame's input, before clamping.
pub open spec fn moved_y(g: GameModel, input: Input, dt: int) -> int {
    if g.game_over {
        g.player.y as int
    } else {
        g.player.y + (if input.down {
            step_dist(g.player.speed as int, dt)
        } else {
            0
        }) - (if input.up {
            step_dist(g.player.speed as int, dt)
        } else {
            0
        })
    }
}

/// The bullet a fire press appends: it starts at the player's just-moved (not
/// yet clamped) position, held at the coordinate bound, twice as fast as the
/// player, small and red.
pub open spec fn fired_bullet(g: GameModel, input: Input, dt: int) -> Shape {
    Shape {
        size: BULLET_SIZE,
        speed: (2 * g.player.speed) as i64,
        x: clamp_spec(moved_x(g, input, dt), -(MAX_COORD as int), MAX_COORD as int) as i64,
        y: clamp_spec(moved_y(g, input, dt), -(MAX_COORD as int), MAX_COORD as int) as i64,
        color: Color::Red,
        collided: false,
    }
}

/// Bound on one frame's travel, for any frame time an `i64` can count: the
/// wide arithmetic stays far inside `i128`.
proof fn lemma_step_bound(speed: int, dt: int)
    requires
        0 <= speed <= MAX_SPEED,
        0 <= dt <= 0x7fff_ffff_ffff_ffff,
    ensures
        0 <= step_dist(speed, dt) <= 0x7fff_ffff_ffff_ffff * 0x100000,
{
    assert(0 <= speed * dt <= 1_000_000 * 0x7fff_ffff_ffff_ffff) by (nonlinear_arith)
        requires
            0 <= speed <= 1_000_000,
            0 <= dt <= 0x7fff_ffff_ffff_ffff,
    ;
    assert(0 <= speed * dt / 1000 <= 0x7fff_ffff_ffff_ffff * 0x100000) by (nonlinear_arith)
        requires
            0 <= speed * dt <= 1_000_000 * 0x7fff_ffff_ffff_ffff,
    ;
}

impl GameState {
    /// Every state the game moves through keeps this: a well-formed player
    /// within the largest playfield, whose bullets stay within speed range;
    /// well-formed entities; and a score never above the high score.
    pub open spec fn wf(self) -> bool {
        &&& self.player.valid()
        &&& 0 <= self.player.x <= MAX_DIM
        &&& 0 <= self.player.y <= MAX_DIM
        &&& 2 * self.player.speed <= MAX_SPEED
        &&& forall|i: int| 0 <= i < self.squares@.len() ==> self.squares@[i].valid()
        &&& forall|i: int| 0 <= i < self.bullets@.len() ==> self.bullets@[i].valid()
        &&& self.score <= self.high_score
    }

    /// A fresh game on a `w` by `h` playfield: the yellow player circle at
    /// the center, no entities, score zero, and the loaded high score.
    pub fn new(w: i64, h: i64, high_score: u32) -> (s: GameState)
        requires
            0 <= w <= MAX_DIM,
            0 <= h <= MAX_DIM,
        ensures
            s.wf(),
            s.player == (Shape {
                size: PLAYER_SIZE,
                speed: MOVEMENT_SPEED,
                x: (w as int / 2) as i64,
                y: (h as int / 2) as i64,
                color: Color::Yellow,
                collided: false,
            }),
            s.squares@ == Seq::<Shape>::empty(),
            s.bullets@ == Seq::<Shape>::empty(),
            s.score == 0,
            s.high_score == high_score,
            !s.game_over,
    {
        GameState {
            player: Shape {
                size: PLAYER_SIZE,
                speed: MOVEMENT_SPEED,
                x: w / 2,
                y: h / 2,
                color: Color::Yellow,
                collided: false,
            },
            squares: Vec::new(),
            bullets: Vec::new(),
            score: 0,
            high_score,
            game_over: false,
        }
    }

    /// Apply one frame's input: move the player (only while the game runs),
    /// fire a bullet on a fire press (only while the game runs), and clamp
    /// the player into `[0, w] x [0, h]` in every case — so the player never
    /// leaves the playfield, whatever the frame time `dt >= 0`.
    pub fn apply_input(&mut self, input: Input, dt: i64, w: i64, h: i64)
        requires
            old(self).wf(),
            0 <= dt,
            0 <= w <= MAX_DIM,
            0 <= h <= MAX_DIM,
        ensures
            final(self).wf(),
            final(self).player.x == clamp_spec(moved_x(old(self)@, input, dt as int), 0, w as int),
            final(self).player.y == clamp_spec(moved_y(old(self)@, input, dt as int), 0, h as int),
            0 <= final(self).player.x <= w,
            0 <= final(self).player.y <= h,
            final(self).player.size == old(self).player.size,
            final(self).player.speed == old(self).player.speed,
            final(self).player.color == old(self).player.color,
            final(self).player.collided == old(self).player.collided,
            if !old(self).game_over && input.fire {
                final(self).bullets@ == old(self).bullets@.push(
                    fired_bullet(old(self)@, input, dt as int),
                )
            } else {
                final(self).bullets@ == old(self).bullets@
            },
            final(self).squares@ == old(self).squares@,
            final(self).score == old(self).score,
            final(self).high_score == old(self).high_score,
            final(self).game_over == old(self).game_over,
    {
        proof {
            lemma_step_bound(self.player.speed as int, dt as int);
        }
        let step: i128 = (self.player.speed as i128) * (dt as i128) / 1000;
        let mut px: i128 = self.player.x as i128;
        let mut py: i128 = self.player.y as i128;
        if !self.game_over {
            if input.right {
                px = px + step;
            }
            if input.left {
                px = px - step;
            }
            if input.down {
                py = py + step;
            }
            if input.up {
                py = py - step;
            }
            if input.fire {
                let bullet = Shape {
                    size: BULLET_SIZE,
                    speed: self.player.speed * 2,
                    x: clamp_wide(px, -(MAX_COORD as i128), MAX_COORD as i128) as i64,
                    y: clamp_wide(py, -(MAX_COORD as i128), MAX_COORD as i128) as i64,
                    color: Color::Red,
                    collided: false,
                };
                self.bullets.push(bullet);
            }
        }
        self.player.x = clamp_wide(px, 0, w as i128) as i64;
        self.player.y = clamp_wide(py, 0, h as i128) as i64;
    }
}

/// What every spawned square satisfies on a playfield of width `w`: side
/// within `[SQUARE_SIZE_MIN, SQUARE_SIZE_MAX)`, speed within
/// `[SQUARE_SPEED_MIN, SQUARE_SPEED_MAX)`, horizontally within the half-open
/// band `[size/2, w - size/2)` — so the full square, to the exact half
/// milli-pixel, lies within `[0, w]` — vertically just off screen above, one
/// of the three spawn colors, and not yet collided.
pub open spec fn spawn_ok(sq: Shape, w: int) -> bool {
    &&& SQUARE_SIZE_MIN <= sq.size < SQUARE_SIZE_MAX
    &&& SQUARE_SPEED_MIN <= sq.speed < SQUARE_SPEED_MAX
    &&& (sq.size + 1) / 2 <= sq.x < w - sq.size / 2
    &&& 0 <= 2 * sq.x - sq.size
    &&& 2 * sq.x + sq.size <= 2 * w
    &&& sq.y == -sq.size
    &&& (sq.color == Color::Green || sq.color == Color::Blue || sq.color == Color::Red)
    &&& !sq.collided
}

/// One frame of falling: `y` grows by `speed * dt`, held at the coordinate
/// bound (the playfield ends far before the bound, so a held square is off
/// screen and pruned this same frame).
pub open spec fn fall_step(s: Shape, dt: int) -> Shape {
    Shape {
        y: clamp_spec(
            s.y + step_dist(s.speed as int, dt),
            -(MAX_COORD as int),
            MAX_COORD as int,
        ) as i64,
        ..s
    }
}

/// One frame of rising: `y` shrinks by `speed * dt`, held at the coordinate
/// bound.
pub open spec fn rise_step(s: Shape, dt: int) -> Shape {
    Shape {
        y: clamp_spec(
            s.y - step_dist(s.speed as int, dt),
            -(MAX_COORD as int),
            MAX_COORD as int,
        ) as i64,
        ..s
    }
}

/// A square stays on the field while its center is strictly above
/// `h + size` — that is, until the whole square has left below — and it was
/// not marked collided.
pub open spec fn keep_square(sq: Shape, h: int) -> bool {
    sq.y < h + sq.size && !sq.collided
}

/// A bullet stays on the field while its center is strictly below
/// `-size / 2` — until the whole bullet has left above — and it was not
/// marked collided.
pub open spec fn keep_bullet(b: Shape) -> bool {
    b.y > -(b.size as int / 2) && !b.collided
}

/// The squares that survive a pruning pass, in their old order.
pub open spec fn pruned_squares(s: Seq<Shape>, h: int) -> Seq<Shape> {
    s.filter(|sq: Shape| keep_square(sq, h))
}

/// The bullets that survive a pruning pass, in their old order.
pub open spec fn pruned_bullets(s: Seq<Shape>) -> Seq<Shape> {
    s.filter(|b: Shape| keep_bullet(b))
}

impl GameState {
    /// The spawn decision of one frame, from the frame's random draws: a
    /// square spawns exactly on a roll of at least `SPAWN_THRESHOLD`, built
    /// from the drawn side, speed, position and color, just off screen above.
    pub fn spawn_from_draws(roll: i64, size: i64, speed: i64, x: i64, color: Color, w: i64) -> (r:
        Option<Shape>)
        requires
            0 <= size,
        ensures
            r is Some <==> roll >= SPAWN_THRESHOLD,
            r matches Some(sq) ==> sq == (Shape {
                size,
                speed,
                x,
                y: (0 - size) as i64,
                color,
                collided: false,
            }),
    {
        if roll >= SPAWN_THRESHOLD {
            Some(Shape { size, speed, x, y: -size, color, collided: false })
        } else {
            None
        }
    }

    /// Spawn step of one frame: with a chance of about one in twenty-five —
    /// a roll of at least `SPAWN_THRESHOLD` from `[0, SPAWN_ROLL_MAX]`, judged
    /// by `spawn_from_draws` — one falling square is appended, randomly sized,
    /// placed, hurried and colored, and satisfying `spawn_ok`. Runs whether or
    /// not the game is over. Nothing else changes.
    pub fn maybe_spawn_square(&mut self, w: i64)
        requires
            old(self).wf(),
            SQUARE_SIZE_MAX < w <= MAX_DIM,
        ensures
            final(self).wf(),
            final(self).squares@ == old(self).squares@ || (exists|sq: Shape|
                spawn_ok(sq, w as int) && final(self).squares@ == old(self).squares@.push(sq)),
            final(self).player == old(self).player,
            final(self).bullets@ == old(self).bullets@,
            final(self).score == old(self).score,
            final(self).high_score == old(self).high_score,
            final(self).game_over == old(self).game_over,
    {
        let roll: i64 = gen_range_i64(0, SPAWN_ROLL_MAX);
        let size: i64 = gen_range_i64(SQUARE_SIZE_MIN, SQUARE_SIZE_MAX - 1);
        let speed: i64 = gen_range_i64(SQUARE_SPEED_MIN, SQUARE_SPEED_MAX - 1);
        let lo: i64 = (size + 1) / 2;
        let hi: i64 = w - size / 2 - 1;
        proof {
            assert((size + 1) / 2 + size / 2 == size) by (nonlinear_arith)
                requires
                    0 <= size,
            ;
        }
        let x: i64 = gen_range_i64(lo, hi);
        let mut colors: Vec<Color> = Vec::new();
        colors.push(Color::Green);
        colors.push(Color::Blue);
        colors.push(Color::Red);
        let color: Color = match choose_color(&colors) {
            Some(c) => c,
            None => Color::Green,
        };
        match Self::spawn_from_draws(roll, size, speed, x, color, w) {
            Some(sq) => {
                proof {
                    assert(spawn_ok(sq, w as int));
                }
                self.squares.push(sq);
                proof {
                    assert(self.squares@ == old(self).squares@.push(sq));
                }
            },
            None => {},
        }
    }

    /// Kinematics of one frame: while the game runs, every square falls and
    /// every bullet rises by its own `speed * dt`; a finished game freezes
    /// all motion. Nothing else changes.
    pub fn advance(&mut self, dt: i64)
        requires
            old(self).wf(),
            0 <= dt,
        ensures
            final(self).wf(),
            final(self).squares@.len() == old(self).squares@.len(),
            final(self).bullets@.len() == old(self).bullets@.len(),
            forall|i: int| 0 <= i < old(self).squares@.len() ==> final(self).squares@[i] == (
            if old(self).game_over {
                old(self).squares@[i]
            } else {
                fall_step(old(self).squares@[i], dt as int)
            }),
            forall|i: int| 0 <= i < old(self).bullets@.len() ==> final(self).bullets@[i] == (
            if old(self).game_over {
                old(self).bullets@[i]
            } else {
                rise_step(old(self).bullets@[i], dt as int)
            }),
            final(self).player == old(self).player,
            final(self).score == old(self).score,
            final(self).high_score == old(self).high_score,
            final(self).game_over == old(self).game_over,
    {
        if self.game_over {
            return ;
        }
        let mut i: usize = 0;
        while i < self.squares.len()
            invariant
                0 <= dt,
                i <= self.squares@.len(),
                self.squares@.len() == old(self).squares@.len(),
                forall|k: int| 0 <= k < old(self).squares@.len() ==> old(self).squares@[k].valid(),
                forall|k: int|
                    0 <= k < i ==> self.squares@[k] == fall_step(old(self).squares@[k], dt as int),
                forall|k: int|
                    i <= k < old(self).squares@.len() ==> self.squares@[k] == old(self).squares@[k],
                self.player == old(self).player,
                self.bullets@ == old(self).bullets@,
                self.score == old(self).score,
                self.high_score == old(self).high_score,
                self.game_over == old(self).game_over,
            decreases self.squares@.len() - i,
        {
            let sq = self.squares[i];
            proof {
                lemma_step_bound(sq.speed as int, dt as int);
            }
            let step: i128 = (sq.speed as i128) * (dt as i128) / 1000;
            let ny: i64 = clamp_wide(
                sq.y as i128 + step,
                -(MAX_COORD as i128),
                MAX_COORD as i128,
            ) as i64;
            self.squares.set(i, Shape { y: ny, ..sq });
            i = i + 1;
        }
        let mut j: usize = 0;
        while j < self.bullets.len()
            invariant
                0 <= dt,
                j <= self.bullets@.len(),
                self.bullets@.len() == old(self).bullets@.len(),
                forall|k: int| 0 <= k < old(self).bullets@.len() ==> old(self).bullets@[k].valid(),
                forall|k: int|
                    0 <= k < j ==> self.bullets@[k] == rise_step(old(self).bullets@[k], dt as int),
                forall|k: int|
                    j <= k < old(self).bullets@.len() ==> self.bullets@[k] == old(self).bullets@[k],
                self.squares@.len() == old(self).squares@.len(),
                forall|k: int|
                    0 <= k < old(self).squares@.len() ==> self.squares@[k] == fall_step(
                        old(self).squares@[k],
                        dt as int,
                    ),
                self.player == old(self).player,
                self.score == old(self).score,
                self.high_score == old(self).high_score,
                self.game_over == old(self).game_over,
            decreases self.bullets@.len() - j,
        {
            let b = self.bullets[j];
            proof {
                lemma_step_bound(b.speed as int, dt as int);
            }
            let step: i128 = (b.speed as i128) * (dt as i128) / 1000;
            let ny: i64 = clamp_wide(
                b.y as i128 - step,
                -(MAX_COORD as i128),
                MAX_COORD as i128,
            ) as i64;
            self.bullets.set(j, Shape { y: ny, ..b });
            j = j + 1;
        }
    }

    /// Lifecycle pruning of one frame: squares fully below the field, bullets
    /// fully above it, and anything marked collided on the last collision
    /// pass are removed; the survivors keep their order. Runs whether or not
    /// the game is over, so nothing accumulates while the game-over banner
    /// shows. Nothing else changes.
    pub fn prune(&mut self, h: i64)
        requires
            old(self).wf(),
            0 <= h <= MAX_DIM,
        ensures
            final(self).wf(),
            final(self).squares@ == pruned_squares(old(self).squares@, h as int),
            final(self).bullets@ == pruned_bullets(old(self).bullets@),
            final(self).player == old(self).player,
            final(self).score == old(self).score,
            final(self).high_score == old(self).high_score,
            final(self).game_over == old(self).game_over,
    {
        let mut kept_squares: Vec<Shape> = Vec::new();
        proof {
            reveal(Seq::filter);
            assert(self.squares@.take(0) =~= Seq::<Shape>::empty());
        }
        let mut i: usize = 0;
        while i < self.squares.len()
            invariant
                0 <= h <= MAX_DIM,
                i <= self.squares@.len(),
                *self == *old(self),
                forall|k: int| 0 <= k < self.squares@.len() ==> self.squares@[k].valid(),
                kept_squares@ == pruned_squares(self.squares@.take(i as int), h as int),
                forall|k: int| 0 <= k < kept_squares@.len() ==> kept_squares@[k].valid(),
            decreases self.squares@.len() - i,
        {
            let sq = self.squares[i];
            proof {
                reveal(Seq::filter);
                assert(self.squares@.take(i as int + 1).drop_last() =~= self.squares@.take(
                    i as int,
                ));
                assert(self.squares@.take(i as int + 1).last() == sq);
            }
            if sq.y < h + sq.size && !sq.collided {
                kept_squares.push(sq);
            }
            i = i + 1;
        }
        proof {
            assert(self.squares@.take(self.squares@.len() as int) =~= self.squares@);
        }
        self.squares = kept_squares;
        let mut kept_bullets: Vec<Shape> = Vec::new();
        proof {
            reveal(Seq::filter);
            assert(self.bullets@.take(0) =~= Seq::<Shape>::empty());
        }
        let mut j: usize = 0;
        while j < self.bullets.len()
            invariant
                j <= self.bullets@.len(),
                self.bullets@ == old(self).bullets@,
                self.squares@ == pruned_squares(old(self).squares@, h as int),
                self.player == old(self).player,
                self.score == old(self).score,
                self.high_score == old(self).high_score,
                self.game_over == old(self).game_over,
                forall|k: int| 0 <= k < self.squares@.len() ==> self.squares@[k].valid(),
                forall|k: int| 0 <= k < self.bullets@.len() ==> self.bullets@[k].valid(),
                kept_bullets@ == pruned_bullets(self.bullets@.take(j as int)),
                forall|k: int| 0 <= k < kept_bullets@.len() ==> kept_bullets@[k].valid(),
            decreases self.bullets@.len() - j,
        {
            let b = self.bullets[j];
            proof {
                reveal(Seq::filter);
                assert(self.bullets@.take(j as int + 1).drop_last() =~= self.bullets@.take(
                    j as int,
                ));
                assert(self.bullets@.take(j as int + 1).last() == b);
            }
            if b.y > 0 - b.size / 2 && !b.collided {
                kept_bullets.push(b);
            }
            j = j + 1;
        }
        proof {
            assert(self.bullets@.take(self.bullets@.len() as int) =~= self.bullets@);
        }
        self.bullets = kept_bullets;
    }
}

/// Whether any square of `g` overlaps the player circle.
pub open spec fn player_hit(g: GameModel) -> bool {
    exists|i: int| 0 <= i < g.squares.len() && shape_hits(g.player, g.squares[i])
}

/// A square's worth in points: its side, read in whole pixels, rounded to
/// the nearest (halves up).
pub open spec fn round_px(size: int) -> int {
    (size + 500) / 1000
}

/// The score after one downed square, held at the top of `u32`.
pub open spec fn bumped_score(score: u32, size: int) -> u32 {
    if score + round_px(size) > u32::MAX {
        u32::MAX
    } else {
        (score + round_px(size)) as u32
    }
}

/// The larger of two scores.
pub open spec fn max_u32(a: u32, b: u32) -> u32 {
    if a >= b {
        a
    } else {
        b
    }
}

/// The state a collision pass works on: the two entity sequences and the two
/// counters.
#[verifier::ext_equal]
pub struct ResolveState {
    pub squares: Seq<Shape>,
    pub bullets: Seq<Shape>,
    pub score: u32,
    pub high_score: u32,
}

/// Index of the first bullet at or after `j` that is not yet collided and
/// overlaps the square `sq`.
pub open spec fn first_live_hit_from(bullets: Seq<Shape>, sq: Shape, j: int) -> Option<int>
    decreases bullets.len() - j,
{
    if j < 0 || j >= bullets.len() {
        None
    } else if !bullets[j].collided && shape_hits(bullets[j], sq) {
        Some(j)
    } else {
        first_live_hit_from(bullets, sq, j + 1)
    }
}

/// One square's turn of the collision pass, in square-major, bullet-minor
/// order: an already-collided square is skipped; otherwise the first live
/// overlapping bullet — if any — and the square mark each other, the square's
/// rounded side is added to the score, and the high score is raised to match.
/// So a square is downed by at most one bullet and scores at most once per
/// frame.
pub open spec fn resolve_square_step(st: ResolveState, i: int) -> ResolveState {
    let sq = st.squares[i];
    if sq.collided {
        st
    } else {
        match first_live_hit_from(st.bullets, sq, 0) {
            Option::None => st,
            Option::Some(j) => {
                let ns = bumped_score(st.score, sq.size as int);
                ResolveState {
                    squares: st.squares.update(i, Shape { collided: true, ..sq }),
                    bullets: st.bullets.update(j, Shape { collided: true, ..st.bullets[j] }),
                    score: ns,
                    high_score: max_u32(st.high_score, ns),
                }
            },
        }
    }
}

/// The collision pass from square `i` on: each remaining square takes its
/// turn in order.
pub open spec fn resolve_from(st: ResolveState, i: int) -> ResolveState
    decreases st.squares.len() - i,
{
    if i < 0 || i >= st.squares.len() {
        st
    } else {
        resolve_from(resolve_square_step(st, i), i + 1)
    }
}

/// A found first hit indexes a live bullet that overlaps the square.
proof fn lemma_first_live_hit_bounds(bullets: Seq<Shape>, sq: Shape, j: int)
    ensures
        first_live_hit_from(bullets, sq, j) matches Some(r) ==> j <= r < bullets.len()
            && !bullets[r].collided && shape_hits(bullets[r], sq),
    decreases bullets.len() - j,
{
    if 0 <= j < bullets.len() {
        if !(!bullets[j].collided && shape_hits(bullets[j], sq)) {
            lemma_first_live_hit_bounds(bullets, sq, j + 1);
        }
    }
}

/// A collision pass keeps the entity counts and their validity, never lowers
/// either counter, and keeps the score at or under the high score.
proof fn lemma_resolve_from_props(st: ResolveState, i: int)
    requires
        forall|k: int| 0 <= k < st.squares.len() ==> st.squares[k].valid(),
        forall|k: int| 0 <= k < st.bullets.len() ==> st.bullets[k].valid(),
    ensures
        resolve_from(st, i).squares.len() == st.squares.len(),
        resolve_from(st, i).bullets.len() == st.bullets.len(),
        forall|k: int|
            0 <= k < st.squares.len() ==> resolve_from(st, i).squares[k].valid(),
        forall|k: int|
            0 <= k < st.bullets.len() ==> resolve_from(st, i).bullets[k].valid(),
        resolve_from(st, i).high_score >= st.high_score,
        resolve_from(st, i).score >= st.score,
        st.score <= st.high_score ==> resolve_from(st, i).score <= resolve_from(st, i).high_score,
    decreases st.squares.len() - i,
{
    if 0 <= i < st.squares.len() {
        let next = resolve_square_step(st, i);
        lemma_first_live_hit_bounds(st.bullets, st.squares[i], 0);
        assert(next.squares.len() == st.squares.len());
        assert(next.bullets.len() == st.bullets.len());
        assert forall|k: int| 0 <= k < next.squares.len() implies next.squares[k].valid() by {
            assert(st.squares[k].valid());
        }
        assert forall|k: int| 0 <= k < next.bullets.len() implies next.bullets[k].valid() by {
            assert(st.bullets[k].valid());
        }
        assert(next.score >= st.score);
        lemma_resolve_from_props(next, i + 1);
    }
}

/// Law: in the bullet pass, a live square overlapped by a live bullet is
/// downed — on a state of exactly this pair, both end marked collided (so the
/// next pruning pass drops them both, whatever the playfield height), the
/// square's rounded side is added to the score, and the high score rises to
/// the new score when beaten.
pub proof fn lemma_pair_resolution(sq: Shape, b: Shape, score: u32, high_score: u32)
    requires
        !sq.collided,
        !b.collided,
        shape_hits(b, sq),
    ensures
        ({
            let r = resolve_from(
                ResolveState { squares: seq![sq], bullets: seq![b], score, high_score },
                0,
            );
            &&& r.squares =~= seq![Shape { collided: true, ..sq }]
            &&& r.bullets =~= seq![Shape { collided: true, ..b }]
            &&& r.score == bumped_score(score, sq.size as int)
            &&& r.high_score == max_u32(high_score, r.score)
            &&& forall|h: int| !keep_square(r.squares[0], h)
            &&& !keep_bullet(r.bullets[0])
        }),
{
    let st = ResolveState { squares: seq![sq], bullets: seq![b], score, high_score };
    assert(first_live_hit_from(st.bullets, sq, 0) == Some(0 as int));
    let next = resolve_square_step(st, 0);
    assert(next.squares =~= seq![Shape { collided: true, ..sq }]);
    assert(next.bullets =~= seq![Shape { collided: true, ..b }]);
    assert(resolve_from(next, 1) == next);
    assert(resolve_from(st, 0) == resolve_from(next, 1));
}

/// Input step of one frame on the model: the player moves and is clamped into
/// the playfield; a fire press while the game runs appends the fired bullet.
pub open spec fn input_step(g: GameModel, input: Input, dt: int, w: int, h: int) -> GameModel {
    GameModel {
        player: Shape {
            x: clamp_spec(moved_x(g, input, dt), 0, w) as i64,
            y: clamp_spec(moved_y(g, input, dt), 0, h) as i64,
            ..g.player
        },
        bullets: if !g.game_over && input.fire {
            g.bullets.push(fired_bullet(g, input, dt))
        } else {
            g.bullets
        },
        ..g
    }
}

/// Spawn step of one frame on the model: the frame's spawn outcome — nothing,
/// or one new square — is appended.
pub open spec fn spawn_step(g: GameModel, spawned: Option<Shape>) -> GameModel {
    match spawned {
        Option::None => g,
        Option::Some(sq) => GameModel { squares: g.squares.push(sq), ..g },
    }
}

/// Kinematics step of one frame on the model: every square falls and every
/// bullet rises, unless the game is over.
pub open spec fn advance_step(g: GameModel, dt: int) -> GameModel {
    if g.game_over {
        g
    } else {
        GameModel {
            squares: Seq::new(g.squares.len(), |i: int| fall_step(g.squares[i], dt)),
            bullets: Seq::new(g.bullets.len(), |i: int| rise_step(g.bullets[i], dt)),
            ..g
        }
    }
}

/// Pruning step of one frame on the model.
pub open spec fn prune_step(g: GameModel, h: int) -> GameModel {
    GameModel { squares: pruned_squares(g.squares, h), bullets: pruned_bullets(g.bullets), ..g }
}

/// Player-collision step of one frame on the model: game over on any overlap,
/// never back.
pub open spec fn collision_step(g: GameModel) -> GameModel {
    GameModel { game_over: g.game_over || player_hit(g), ..g }
}

/// What the player-collision step hands out to persist: the high score,
/// exactly when a square overlaps the player while the score equals it.
pub open spec fn collision_save(g: GameModel) -> Option<u32> {
    if player_hit(g) && g.score == g.high_score {
        Some(g.high_score)
    } else {
        None
    }
}

/// Bullet-collision step of one frame on the model: the collision pass over
/// all squares.
pub open spec fn resolve_step(g: GameModel) -> GameModel {
    let r = resolve_from(
        ResolveState {
            squares: g.squares,
            bullets: g.bullets,
            score: g.score,
            high_score: g.high_score,
        },
        0,
    );
    GameModel {
        squares: r.squares,
        bullets: r.bullets,
        score: r.score,
        high_score: r.high_score,
        ..g
    }
}

/// Restart step of one frame on the model: a fire press while the game is
/// over starts a fresh run at the playfield center, keeping the high score.
pub open spec fn restart_step(g: GameModel, fire: bool, w: int, h: int) -> GameModel {
    if g.game_over && fire {
        GameModel {
            player: Shape { x: (w / 2) as i64, y: (h / 2) as i64, ..g.player },
            squares: Seq::empty(),
            bullets: Seq::empty(),
            score: 0,
            game_over: false,
            ..g
        }
    } else {
        g
    }
}

/// One frame pinned down: `post` and `save` are what the seven steps — input,
/// spawn, kinematics, pruning, player collision, bullet collisions, restart —
/// make of `pre`, given the frame's one random spawn outcome `spawned`, which
/// is nothing or a square satisfying `spawn_ok`.
pub open spec fn frame_matches(
    pre: GameModel,
    post: GameModel,
    save: Option<u32>,
    input: Input,
    dt: int,
    w: int,
    h: int,
    spawned: Option<Shape>,
) -> bool {
    let settled = prune_step(
        advance_step(spawn_step(input_step(pre, input, dt, w, h), spawned), dt),
        h,
    );
    &&& (spawned matches Some(sq) ==> spawn_ok(sq, w))
    &&& save == collision_save(settled)
    &&& post == restart_step(resolve_step(collision_step(settled)), input.fire, w, h)
}

impl GameState {
    /// Player-collision step of one frame: if any square overlaps the player
    /// circle the game transitions to (or stays in) game over — never back —
    /// and, exactly when the score equals the high score at that instant, the
    /// high score is handed back for the caller to persist. Nothing else
    /// changes.
    pub fn check_player_collision(&mut self) -> (save: Option<u32>)
        requires
            old(self).wf(),
        ensures
            final(self).wf(),
            final(self).game_over == (old(self).game_over || player_hit(old(self)@)),
            save == (if player_hit(old(self)@) && old(self).score == old(self).high_score {
                Option::Some(old(self).high_score)
            } else {
                Option::<u32>::None
            }),
            final(self).player == old(self).player,
            final(self).squares@ == old(self).squares@,
            final(self).bullets@ == old(self).bullets@,
            final(self).score == old(self).score,
            final(self).high_score == old(self).high_score,
    {
        let mut hit = false;
        let mut i: usize = 0;
        while i < self.squares.len()
            invariant
                old(self).wf(),
                *self == *old(self),
                i <= self.squares@.len(),
                hit == (exists|k: int|
                    0 <= k < i && shape_hits(self.player, self.squares@[k])),
            decreases self.squares@.len() - i,
        {
            let sq = self.squares[i];
            if self.player.collides_with(&sq) {
                hit = true;
            }
            i = i + 1;
        }
        proof {
            if hit {
                let k = choose|k: int| 0 <= k < i && shape_hits(self.player, self.squares@[k]);
                assert(0 <= k < old(self)@.squares.len() && shape_hits(
                    old(self)@.player,
                    old(self)@.squares[k],
                ));
            } else {
                assert forall|k: int|
                    0 <= k < old(self)@.squares.len() implies !shape_hits(
                    old(self)@.player,
                    old(self)@.squares[k],
                ) by {
                    assert(!(0 <= k < i && shape_hits(self.player, self.squares@[k])));
                }
            }
            assert(hit == player_hit(old(self)@));
        }
        if hit {
            let save: Option<u32> = if self.score == self.high_score {
                Some(self.high_score)
            } else {
                None
            };
            self.game_over = true;
            save
        } else {
            None
        }
    }

    /// Index of the first not-yet-collided bullet overlapping `sq`.
    fn find_live_hit(bullets: &Vec<Shape>, sq: &Shape) -> (r: Option<usize>)
        requires
            forall|k: int| 0 <= k < bullets@.len() ==> bullets@[k].valid(),
            sq.valid(),
        ensures
            match r {
                Option::None => first_live_hit_from(bullets@, *sq, 0) is None,
                Option::Some(j) => j < bullets@.len() && first_live_hit_from(bullets@, *sq, 0)
                    == Some(j as int),
            },
    {
        let mut j: usize = 0;
        while j < bullets.len()
            invariant
                forall|k: int| 0 <= k < bullets@.len() ==> bullets@[k].valid(),
                sq.valid(),
                j <= bullets@.len(),
                first_live_hit_from(bullets@, *sq, 0) == first_live_hit_from(
                    bullets@,
                    *sq,
                    j as int,
                ),
            decreases bullets@.len() - j,
        {
            let b = bullets[j];
            if !b.collided && b.collides_with(sq) {
                return Some(j);
            }
            j = j + 1;
        }
        None
    }

    /// Bullet-collision step of one frame: squares take their turns in spawn
    /// order, each downed by at most the first live bullet that overlaps it;
    /// every hit marks both entities for the next pruning pass, scores the
    /// square's rounded side, and raises the high score to the score when
    /// beaten. Player and game-over flag stay untouched.
    pub fn resolve_bullet_collisions(&mut self)
        requires
            old(self).wf(),
        ensures
            final(self).wf(),
            ({
                let r = resolve_from(
                    ResolveState {
                        squares: old(self).squares@,
                        bullets: old(self).bullets@,
                        score: old(self).score,
                        high_score: old(self).high_score,
                    },
                    0,
                );
                &&& final(self).squares@ == r.squares
                &&& final(self).bullets@ == r.bullets
                &&& final(self).score == r.score
                &&& final(self).high_score == r.high_score
            }),
            final(self).player == old(self).player,
            final(self).game_over == old(self).game_over,
            final(self).high_score >= old(self).high_score,
            final(self).score >= old(self).score,
            final(self).squares@.len() == old(self).squares@.len(),
            final(self).bullets@.len() == old(self).bullets@.len(),
    {
        let ghost st0 = ResolveState {
            squares: self.squares@,
            bullets: self.bullets@,
            score: self.score,
            high_score: self.high_score,
        };
        proof {
            lemma_resolve_from_props(st0, 0);
        }
        let mut i: usize = 0;
        while i < self.squares.len()
            invariant
                i <= self.squares@.len(),
                self.squares@.len() == st0.squares.len(),
                forall|k: int| 0 <= k < self.squares@.len() ==> self.squares@[k].valid(),
                forall|k: int| 0 <= k < self.bullets@.len() ==> self.bullets@[k].valid(),
                self.score <= self.high_score,
                self.player == old(self).player,
                self.player.valid(),
                0 <= self.player.x <= MAX_DIM,
                0 <= self.player.y <= MAX_DIM,
                2 * self.player.speed <= MAX_SPEED,
                self.game_over == old(self).game_over,
                resolve_from(
                    ResolveState {
                        squares: self.squares@,
                        bullets: self.bullets@,
                        score: self.score,
                        high_score: self.high_score,
                    },
                    i as int,
                ) == resolve_from(st0, 0),
            decreases self.squares@.len() - i,
        {
            let ghost pre = ResolveState {
                squares: self.squares@,
                bullets: self.bullets@,
                score: self.score,
                high_score: self.high_score,
            };
            let sq = self.squares[i];
            if !sq.collided {
                match Self::find_live_hit(&self.bullets, &sq) {
                    None => {
                        proof {
                            assert(resolve_square_step(pre, i as int) == pre);
                        }
                    },
                    Some(j) => {
                        let b = self.bullets[j];
                        self.bullets.set(j, Shape { collided: true, ..b });
                        self.squares.set(i, Shape { collided: true, ..sq });
                        let inc_i64: i64 = (sq.size + 500) / 1000;
                        proof {
                            assert(0 <= (sq.size + 500) as int / 1000 <= 1000) by (nonlinear_arith)
                                requires
                                    0 < sq.size <= 1_000_000,
                            ;
                        }
                        let inc: u32 = inc_i64 as u32;
                        if self.score <= u32::MAX - inc {
                            self.score = self.score + inc;
                        } else {
                            self.score = u32::MAX;
                        }
                        if self.score > self.high_score {
                            self.high_score = self.score;
                        }
                        proof {
                            assert(ResolveState {
                                squares: self.squares@,
                                bullets: self.bullets@,
                                score: self.score,
                                high_score: self.high_score,
                            } =~= resolve_square_step(pre, i as int));
                        }
                    },
                }
            } else {
                proof {
                    assert(resolve_square_step(pre, i as int) == pre);
                }
            }
            i = i + 1;
        }
    }

    /// Restart step of one frame: a fire press while the game is over clears
    /// all squares and bullets, resets the score to zero, puts the player
    /// back at the playfield center and resumes play; the high score stays.
    /// At any other time this is a no-op.
    pub fn try_restart(&mut self, fire: bool, w: i64, h: i64)
        requires
            old(self).wf(),
            0 <= w <= MAX_DIM,
            0 <= h <= MAX_DIM,
        ensures
            final(self).wf(),
            final(self).high_score == old(self).high_score,
            if old(self).game_over && fire {
                &&& final(self).squares@ == Seq::<Shape>::empty()
                &&& final(self).bullets@ == Seq::<Shape>::empty()
                &&& final(self).score == 0
                &&& final(self).player == (Shape {
                    x: (w as int / 2) as i64,
                    y: (h as int / 2) as i64,
                    ..old(self).player
                })
                &&& !final(self).game_over
            } else {
                &&& final(self).squares@ == old(self).squares@
                &&& final(self).bullets@ == old(self).bullets@
                &&& final(self).score == old(self).score
                &&& final(self).player == old(self).player
                &&& final(self).game_over == old(self).game_over
            },
    {
        if self.game_over && fire {
            self.squares = Vec::new();
            self.bullets = Vec::new();
            self.player.x = w / 2;
            self.player.y = h / 2;
            self.score = 0;
            self.game_over = false;
        }
    }

    /// One whole frame, in the order the game plays it: input and player
    /// motion with clamping, the spawn roll, kinematics, pruning, the player
    /// collision check, the bullet collision pass, and last the restart
    /// check. Returns the high score to persist, exactly when a player
    /// collision lands while the score equals the high score.
    ///
    /// Whatever the frame's random draws:
    /// the player ends inside `[0, w] x [0, h]`; the high score never goes
    /// down; the score only grows unless a restart reset it; a finished game
    /// stays finished unless fire was pressed; and any returned value is the
    /// high score as the frame began.
    pub fn frame(&mut self, input: Input, dt: i64, w: i64, h: i64) -> (save: Option<u32>)
        requires
            old(self).wf(),
            0 <= dt,
            SQUARE_SIZE_MAX < w <= MAX_DIM,
            0 <= h <= MAX_DIM,
        ensures
            final(self).wf(),
            exists|spawned: Option<Shape>|
                #[trigger] frame_matches(
                    old(self)@,
                    final(self)@,
                    save,
                    input,
                    dt as int,
                    w as int,
                    h as int,
                    spawned,
                ),
            final(self).high_score >= old(self).high_score,
            0 <= final(self).player.x <= w,
            0 <= final(self).player.y <= h,
            final(self).score >= old(self).score || final(self).score == 0,
            old(self).game_over && !input.fire ==> final(self).game_over,
            save matches Some(v) ==> v == old(self).high_score,
            save is Some ==> final(self).game_over || input.fire,
    {
        let ghost g0 = self@;
        self.apply_input(input, dt, w, h);
        let ghost g1 = self@;
        proof {
            assert(g1 =~= input_step(g0, input, dt as int, w as int, h as int));
        }
        self.maybe_spawn_square(w);
        let ghost g2 = self@;
        let ghost spawned: Option<Shape> = if g2.squares == g1.squares {
            Option::<Shape>::None
        } else {
            Some(
                choose|sq: Shape| spawn_ok(sq, w as int) && g2.squares == g1.squares.push(sq),
            )
        };
        proof {
            assert(g2 =~= spawn_step(g1, spawned));
        }
        self.advance(dt);
        let ghost g3 = self@;
        proof {
            assert(g3.squares =~= advance_step(g2, dt as int).squares);
            assert(g3.bullets =~= advance_step(g2, dt as int).bullets);
            assert(g3 =~= advance_step(g2, dt as int));
        }
        self.prune(h);
        let ghost g4 = self@;
        proof {
            assert(g4 =~= prune_step(g3, h as int));
        }
        let save = self.check_player_collision();
        let ghost g5 = self@;
        proof {
            assert(g5 =~= collision_step(g4));
            assert(save == collision_save(g4));
        }
        self.resolve_bullet_collisions();
        let ghost g6 = self@;
        proof {
            assert(g6 =~= resolve_step(g5));
        }
        self.try_restart(input.fire, w, h);
        proof {
            assert(self@ =~= restart_step(g6, input.fire, w as int, h as int));
            assert(frame_matches(g0, self@, save, input, dt as int, w as int, h as int, spawned));
        }
        save
    }
}

} // verus!
