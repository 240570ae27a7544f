use vstd::prelude::*;
use rand::rngs::ThreadRng;
use crate::obstacle::{
    direction_of_slot, is_spawned, lays_out_pairs, offsets_ok, is_spawned_field, lemma_spawned_field_in_range, obstacles_in_range, spawn_obstacles, Obstacle,
};
use crate::units::{
    abs, clamp, coord_in_range, window_dimension_ok, Position, BIRD_FLAP_VELOCITY,
    BIRD_ROTATION_LIMIT, BIRD_ROTATION_RATIO, GRAVITY, MAX_COORD, MAX_FRAME_MICROS, MAX_SPEED,
    OBSTACLE_AMOUNT, OBSTACLE_HALF_HEIGHT, OBSTACLE_HALF_WIDTH,
};

verus! {

/// The player's sprite: its vertical velocity, its position and its
/// rotation (derived from the velocity, in rotation units).
#[derive(Clone, Copy, Debug, PartialEq, Eq, Structural)]
pub struct Bird {
    pub velocity: i64,
    pub translation: Position,
    pub rotation: i64,
}

/// Window dimensions the simulation reads every frame, in length units.
#[derive(Clone, Copy, Debug, PartialEq, Eq, Structural)]
pub struct GameManager {
    pub window_width: u64,
    pub window_height: u64,
}

/// Both window dimensions are ones the simulation accepts.
pub open spec fn manager_ok(m: GameManager) -> bool {
    window_dimension_ok(m.window_width as int) && window_dimension_ok(m.window_height as int)
}

/// A bird the simulation can advance.
pub open spec fn bird_in_range(b: Bird) -> bool {
    &&& -MAX_SPEED <= b.velocity <= MAX_SPEED
    &&& coord_in_range(b.translation.x as int)
    &&& coord_in_range(b.translation.y as int)
}

/// Integer division that rounds toward zero.
pub open spec fn div_toward_zero(a: int, d: int) -> int {
    if a >= 0 {
        a / d
    } else {
        -((-a) / d)
    }
}

/// Rotation shown for a bird moving at `velocity`.
pub open spec fn rotation_of(velocity: int) -> int {
    clamp(
        div_toward_zero(velocity, BIRD_ROTATION_RATIO as int),
        -BIRD_ROTATION_LIMIT as int,
        BIRD_ROTATION_LIMIT as int,
    )
}

/// Velocity after one frame: a flap first replaces the velocity, then
/// gravity takes `GRAVITY * delta_micros` from it.
pub open spec fn velocity_after(velocity: int, delta_micros: int, flap: bool) -> int {
    (if flap {
        BIRD_FLAP_VELOCITY as int
    } else {
        velocity
    }) - GRAVITY * delta_micros
}

/// Height after one frame: the new velocity applied for the whole frame.
pub open spec fn height_after(b: Bird, delta_micros: int, flap: bool) -> int {
    b.translation.y + velocity_after(b.velocity as int, delta_micros, flap) * delta_micros
}

/// `new` is `old` after one frame of flight.
pub open spec fn is_advanced(new: Bird, old: Bird, delta_micros: int, flap: bool) -> bool {
    &&& new.velocity == velocity_after(old.velocity as int, delta_micros, flap)
    &&& new.translation.x == old.translation.x
    &&& new.translation.y == height_after(old, delta_micros, flap)
    &&& new.rotation == rotation_of(new.velocity as int)
}

/// A bird at (`bx`, `by`) overlaps an obstacle at `pipe`: their centres are
/// closer than half the obstacle's scaled size on both axes.
pub open spec fn overlaps(bx: int, by: int, pipe: Position) -> bool {
    &&& abs(pipe.y - by) < OBSTACLE_HALF_HEIGHT
    &&& abs(pipe.x - bx) < OBSTACLE_HALF_WIDTH
}

/// A bird at (`bx`, `by`) overlaps some obstacle of `s`.
pub open spec fn hits_any(bx: int, by: int, s: Seq<Obstacle>) -> bool {
    exists|i: int| 0 <= i < s.len() && #[trigger] overlaps(bx, by, s[i].translation)
}

/// A bird at (`bx`, `by`) is dead: on or below the ground line, or inside an
/// obstacle.
pub open spec fn is_dead_at(bx: int, by: int, s: Seq<Obstacle>, window_height: int) -> bool {
    by <= -(window_height / 2) || hits_any(bx, by, s)
}

/// A coordinate that collision tests can take.
pub open spec fn coord_in_reach(c: int) -> bool {
    -4 * MAX_COORD <= c <= 4 * MAX_COORD
}

/// Rotation shown for a bird moving at `velocity`, in rotation units.
pub fn bird_rotation(velocity: i64) -> (r: i64)
    requires
        -2 * MAX_SPEED <= velocity <= 2 * MAX_SPEED,
    ensures
        r == rotation_of(velocity as int),
{
    let ratio: u64 = BIRD_ROTATION_RATIO as u64;
    if velocity >= 0 {
        let q: u64 = (velocity as u64) / ratio;
        if q > BIRD_ROTATION_LIMIT as u64 {
            BIRD_ROTATION_LIMIT
        } else {
            q as i64
        }
    } else {
        let q: u64 = ((-velocity) as u64) / ratio;
        if q > BIRD_ROTATION_LIMIT as u64 {
            -BIRD_ROTATION_LIMIT
        } else {
            -(q as i64)
        }
    }
}

/// The bird after one frame of flight: a flap sets the velocity to
/// `BIRD_FLAP_VELOCITY`, gravity lowers it, the bird moves by it, and the
/// rotation follows it.
pub fn advance_bird(bird: Bird, delta_micros: u64, flap: bool) -> (r: Bird)
    requires
        bird_in_range(bird),
        delta_micros <= MAX_FRAME_MICROS,
    ensures
        is_advanced(r, bird, delta_micros as int, flap),
        coord_in_reach(r.translation.y as int),
{
    let dt = delta_micros as i64;
    let start: i64 = if flap {
        BIRD_FLAP_VELOCITY
    } else {
        bird.velocity
    };
    let velocity = start - GRAVITY * dt;
    assert(-MAX_SPEED - GRAVITY * MAX_FRAME_MICROS <= velocity <= MAX_SPEED);
    assert(-(MAX_SPEED + GRAVITY * MAX_FRAME_MICROS) * MAX_FRAME_MICROS <= velocity * dt
        <= MAX_SPEED * MAX_FRAME_MICROS) by (nonlinear_arith)
        requires
            -MAX_SPEED - GRAVITY * MAX_FRAME_MICROS <= velocity <= MAX_SPEED,
            0 <= dt <= MAX_FRAME_MICROS,
    ;
    let y = bird.translation.y + velocity * dt;
    Bird {
        velocity,
        translation: Position { x: bird.translation.x, y },
        rotation: bird_rotation(velocity),
    }
}

/// Whether a bird at `bird_at` overlaps an obstacle at `pipe_at`.
pub fn collides(bird_at: Position, pipe_at: Position) -> (r: bool)
    requires
        coord_in_reach(bird_at.x as int),
        coord_in_reach(bird_at.y as int),
        coord_in_reach(pipe_at.x as int),
        coord_in_reach(pipe_at.y as int),
    ensures
        r == overlaps(bird_at.x as int, bird_at.y as int, pipe_at),
{
    let dy = pipe_at.y - bird_at.y;
    let dx = pipe_at.x - bird_at.x;
    let ady = if dy < 0 {
        -dy
    } else {
        dy
    };
    let adx = if dx < 0 {
        -dx
    } else {
        dx
    };
    ady < OBSTACLE_HALF_HEIGHT && adx < OBSTACLE_HALF_WIDTH
}

/// Whether a bird at `bird_at` overlaps any of `obstacles`.
pub fn hits_obstacle(bird_at: Position, obstacles: &Vec<Obstacle>) -> (r: bool)
    requires
        coord_in_reach(bird_at.x as int),
        coord_in_reach(bird_at.y as int),
        obstacles_in_range(obstacles@),
    ensures
        r == hits_any(bird_at.x as int, bird_at.y as int, obstacles@),
{
    let mut i: usize = 0;
    while i < obstacles.len()
        invariant
            i <= obstacles@.len(),
            coord_in_reach(bird_at.x as int),
            coord_in_reach(bird_at.y as int),
            obstacles_in_range(obstacles@),
            forall|j: int|
                0 <= j < i ==> !overlaps(
                    bird_at.x as int,
                    bird_at.y as int,
                    #[trigger] obstacles@[j].translation,
                ),
        decreases obstacles@.len() - i,
    {
        if collides(bird_at, obstacles[i].translation) {
            return true;
        }
        i = i + 1;
    }
    false
}

/// Whether a bird at `bird_at` is dead: on or below the ground line, which
/// lies half the window height below the centre, or inside an obstacle.
pub fn is_bird_dead(bird_at: Position, obstacles: &Vec<Obstacle>, window_height: u64) -> (r: bool)
    requires
        coord_in_reach(bird_at.x as int),
        coord_in_reach(bird_at.y as int),
        obstacles_in_range(obstacles@),
        window_dimension_ok(window_height as int),
    ensures
        r == is_dead_at(bird_at.x as int, bird_at.y as int, obstacles@, window_height as int),
{
    let ground: i64 = -((window_height / 2) as i64);
    if bird_at.y <= ground {
        true
    } else {
        hits_obstacle(bird_at, obstacles)
    }
}

/// One frame of the bird. It flies as `advance_bird` says; if it then is
/// dead it goes back to the origin with no velocity, and the obstacles are
/// replaced by a freshly spawned level.
pub fn update_bird(
    bird: &mut Bird,
    obstacles: &mut Vec<Obstacle>,
    manager: &GameManager,
    delta_micros: u64,
    flap: bool,
    rng: &mut ThreadRng,
)
    requires
        bird_in_range(*old(bird)),
        obstacles_in_range(old(obstacles)@),
        manager_ok(*manager),
        delta_micros <= MAX_FRAME_MICROS,
    ensures
        obstacles_in_range(final(obstacles)@),
        ({
            let moved_y = height_after(*old(bird), delta_micros as int, flap);
            let dead = is_dead_at(
                old(bird).translation.x as int,
                moved_y,
                old(obstacles)@,
                manager.window_height as int,
            );
            &&& final(bird).rotation == rotation_of(
                velocity_after(old(bird).velocity as int, delta_micros as int, flap),
            )
            &&& if dead {
                &&& final(bird).velocity == 0
                &&& final(bird).translation == Position { x: 0, y: 0 }
                &&& is_spawned_field(final(obstacles)@, manager.window_width as int)
            } else {
                &&& is_advanced(*final(bird), *old(bird), delta_micros as int, flap)
                &&& final(obstacles)@ == old(obstacles)@
            }
        }),
{
    let moved = advance_bird(*bird, delta_micros, flap);
    *bird = moved;
    if is_bird_dead(moved.translation, obstacles, manager.window_height) {
        bird.translation = Position { x: 0, y: 0 };
        bird.velocity = 0;
        obstacles.clear();
        spawn_obstacles(obstacles, rng, manager.window_width);
        assert(obstacles@.subrange(0, obstacles@.len() as int) =~= obstacles@);
        proof {
            lemma_spawned_field_in_range(obstacles@, manager.window_width as int);
        }
    }
}

/// A flap replaces the velocity outright: the velocity after a frame with a
/// flap is the same whatever the velocity before it was.
pub proof fn lemma_flap_overrides_velocity(before_a: int, before_b: int, delta_micros: int)
    ensures
        velocity_after(before_a, delta_micros, true) == velocity_after(before_b, delta_micros, true),
        velocity_after(before_a, delta_micros, true) == BIRD_FLAP_VELOCITY - GRAVITY * delta_micros,
{
}

/// Collision is symmetric: swapping the centres of the bird and the obstacle
/// does not change whether they overlap.
pub proof fn lemma_collision_symmetric(bird_at: Position, pipe_at: Position)
    ensures
        overlaps(bird_at.x as int, bird_at.y as int, pipe_at) == overlaps(
            pipe_at.x as int,
            pipe_at.y as int,
            bird_at,
        ),
{
}

/// A bird whose centre is at least half the obstacle's scaled width away
/// horizontally never collides with it, whatever the heights.
pub proof fn lemma_no_collision_beyond_half_width(bx: int, by: int, pipe_at: Position)
    requires
        abs(pipe_at.x - bx) >= OBSTACLE_HALF_WIDTH,
    ensures
        !overlaps(bx, by, pipe_at),
{
}

/// After a reset the bird at the origin is clear of every obstacle of the
/// freshly spawned field, as long as the window is at least one scaled
/// obstacle wide.
pub proof fn lemma_reset_clear_of_field(s: Seq<Obstacle>, window_width: int)
    requires
        is_spawned_field(s, window_width),
        window_dimension_ok(window_width),
        window_width / 2 >= OBSTACLE_HALF_WIDTH,
    ensures
        !hits_any(0, 0, s),
{
    let offsets = choose|offsets: Seq<i64>|
        offsets.len() == OBSTACLE_AMOUNT && offsets_ok(offsets) && #[trigger] lays_out_pairs(
            s,
            window_width,
            offsets,
        );
    assert forall|k: int| 0 <= k < s.len() implies !#[trigger] overlaps(0, 0, s[k].translation) by {
        assert(is_spawned(s[k], window_width, k / 2, direction_of_slot(k), offsets[k / 2] as int));
    }
}

} // verus!
