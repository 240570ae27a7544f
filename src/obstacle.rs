use vstd::prelude::*;
use rand::rngs::ThreadRng;
use crate::random::generate_random_pipe_offset;
use crate::units::{
    abs, Position, position_in_range, window_dimension_ok, MAX_FRAME_MICROS, OBSTACLE_AMOUNT,
    OBSTACLE_FIELD_LENGTH, OBSTACLE_GAP_SIZE, OBSTACLE_HALF_WIDTH, OBSTACLE_IMAGE_HEIGHT,
    OBSTACLE_OFFSET_BOUND, OBSTACLE_SPEED, OBSTACLE_STRIDE, PIXEL_RATIO, UNITS,
};

verus! {

/// One pipe sprite. `pipe_direction` is 1 for the member above the gap and
/// -1 for the member below it; the renderer mirrors the sprite by it.
#[derive(Clone, Copy, Debug, PartialEq, Eq, Structural)]
pub struct Obstacle {
    pub pipe_direction: i64,
    pub translation: Position,
}

/// Distance from the middle of a gap to the centre of either pipe.
pub open spec fn centered_position() -> int {
    (OBSTACLE_IMAGE_HEIGHT / 2 + OBSTACLE_GAP_SIZE) * PIXEL_RATIO
}

/// A pair offset that the random draw can produce.
pub open spec fn offset_ok(offset: int) -> bool {
    -OBSTACLE_OFFSET_BOUND <= offset < OBSTACLE_OFFSET_BOUND
}

/// Direction of the obstacle in slot `k` of a spawned field: pairs are laid
/// out as (upper, lower), (upper, lower), ...
pub open spec fn direction_of_slot(k: int) -> int {
    if k % 2 == 0 {
        1
    } else {
        -1
    }
}

/// Horizontal position of pair `i` when a level is laid out.
pub open spec fn spawn_x(window_width: int, i: int) -> int {
    window_width / 2 + OBSTACLE_STRIDE * i
}

/// `o` is the member with `direction` of pair `i`, spawned with `offset`.
pub open spec fn is_spawned(o: Obstacle, window_width: int, i: int, direction: int, offset: int) -> bool {
    &&& o.pipe_direction == direction
    &&& o.translation.x == spawn_x(window_width, i)
    &&& o.translation.y == direction * centered_position() + offset
}

/// `s` holds one pair per entry of `offsets`, in order, each pair upper first.
pub open spec fn lays_out_pairs(s: Seq<Obstacle>, window_width: int, offsets: Seq<i64>) -> bool {
    &&& s.len() == 2 * offsets.len()
    &&& forall|k: int|
        0 <= k < s.len() ==> is_spawned(
            #[trigger] s[k],
            window_width,
            k / 2,
            direction_of_slot(k),
            offsets[k / 2] as int,
        )
}

/// Every offset is one that the random draw can produce.
pub open spec fn offsets_ok(offsets: Seq<i64>) -> bool {
    forall|j: int| 0 <= j < offsets.len() ==> offset_ok(#[trigger] offsets[j] as int)
}

/// `s` is a complete freshly spawned field for a window `window_width` wide.
pub open spec fn is_spawned_field(s: Seq<Obstacle>, window_width: int) -> bool {
    exists|offsets: Seq<i64>|
        offsets.len() == OBSTACLE_AMOUNT && offsets_ok(offsets) && #[trigger] lays_out_pairs(
            s,
            window_width,
            offsets,
        )
}

/// An obstacle the simulation can move: a valid direction and a position in range.
pub open spec fn obstacle_in_range(o: Obstacle) -> bool {
    &&& (o.pipe_direction == 1 || o.pipe_direction == -1)
    &&& position_in_range(o.translation)
}

/// Every obstacle of `s` is one the simulation can move.
pub open spec fn obstacles_in_range(s: Seq<Obstacle>) -> bool {
    forall|i: int| 0 <= i < s.len() ==> obstacle_in_range(#[trigger] s[i])
}

/// Horizontal position of `o` after scrolling for `delta_micros`.
pub open spec fn scrolled_x(o: Obstacle, delta_micros: int) -> int {
    o.translation.x - OBSTACLE_SPEED * delta_micros
}

/// An obstacle at `x` lies wholly beyond the left edge of the window.
pub open spec fn is_past_left_edge(x: int, window_width: int) -> bool {
    x + OBSTACLE_HALF_WIDTH < -(window_width / 2)
}

/// An obstacle at `x` has not wholly left the window on the left.
pub open spec fn is_on_field(x: int, window_width: int) -> bool {
    !is_past_left_edge(x, window_width)
}

/// `new` is `old` after one frame: scrolled left and, if it then lies past
/// the left edge, moved to the back of the field at the height its direction
/// and `offset` give.
pub open spec fn is_stepped(new: Obstacle, old: Obstacle, window_width: int, delta_micros: int, offset: int) -> bool {
    let x = scrolled_x(old, delta_micros);
    &&& new.pipe_direction == old.pipe_direction
    &&& if is_past_left_edge(x, window_width) {
        &&& new.translation.x == x + OBSTACLE_FIELD_LENGTH
        &&& new.translation.y == old.pipe_direction * centered_position() + offset
    } else {
        &&& new.translation.x == x
        &&& new.translation.y == old.translation.y
    }
}

/// Each obstacle of `new` is the one of `old` after one frame with `offset`.
pub open spec fn all_stepped(new: Seq<Obstacle>, old: Seq<Obstacle>, window_width: int, delta_micros: int, offset: int) -> bool {
    &&& new.len() == old.len()
    &&& forall|i: int|
        0 <= i < new.len() ==> is_stepped(#[trigger] new[i], old[i], window_width, delta_micros, offset)
}

/// Distance from the middle of a gap to the centre of either pipe.
pub fn get_pipe_centered_position() -> (r: i64)
    ensures
        r == centered_position(),
{
    348 * UNITS
}

/// Appends an obstacle with the given position and direction.
pub fn spawn_obstacle(translation: Position, pipe_direction: i64, obstacles: &mut Vec<Obstacle>)
    ensures
        final(obstacles)@ == old(obstacles)@.push(Obstacle { pipe_direction, translation }),
{
    obstacles.push(Obstacle { pipe_direction, translation });
}

/// Appends one pair per offset: pair `i` stands at `window_width / 2 + i`
/// strides, its upper member `centered_position()` above the offset and its
/// lower member as far below it.
pub fn spawn_obstacles_with_offsets(obstacles: &mut Vec<Obstacle>, window_width: u64, offsets: &Vec<i64>)
    requires
        window_dimension_ok(window_width as int),
        offsets@.len() <= OBSTACLE_AMOUNT,
        offsets_ok(offsets@),
    ensures
        final(obstacles)@.len() == old(obstacles)@.len() + 2 * offsets@.len(),
        final(obstacles)@.subrange(0, old(obstacles)@.len() as int) == old(obstacles)@,
        lays_out_pairs(
            final(obstacles)@.subrange(old(obstacles)@.len() as int, final(obstacles)@.len() as int),
            window_width as int,
            offsets@,
        ),
{
    let ghost start = obstacles@.len() as int;
    let centered = get_pipe_centered_position();
    let half_width: i64 = (window_width / 2) as i64;
    let mut i: usize = 0;
    while i < offsets.len()
        invariant
            window_dimension_ok(window_width as int),
            half_width == window_width as int / 2,
            centered == centered_position(),
            offsets@.len() <= OBSTACLE_AMOUNT,
            offsets_ok(offsets@),
            i <= offsets@.len(),
            start == old(obstacles)@.len(),
            obstacles@.len() == start + 2 * i,
            obstacles@.subrange(0, start) == old(obstacles)@,
            forall|k: int|
                0 <= k < 2 * i ==> is_spawned(
                    #[trigger] obstacles@[start + k],
                    window_width as int,
                    k / 2,
                    direction_of_slot(k),
                    offsets@[k / 2] as int,
                ),
        decreases offsets@.len() - i,
    {
        let y_offset = offsets[i];
        assert(offset_ok(offsets@[i as int] as int));
        let x_position = half_width + OBSTACLE_STRIDE * (i as i64);
        let ghost before = obstacles@;
        let upper_y = centered + y_offset;
        let lower_y = -centered + y_offset;
        spawn_obstacle(Position { x: x_position, y: upper_y }, 1, obstacles);
        spawn_obstacle(Position { x: x_position, y: lower_y }, -1, obstacles);
        assert forall|k: int| 0 <= k < 2 * (i + 1) implies is_spawned(
            #[trigger] obstacles@[start + k],
            window_width as int,
            k / 2,
            direction_of_slot(k),
            offsets@[k / 2] as int,
        ) by {
            if k < 2 * i {
                assert(obstacles@[start + k] == before[start + k]);
            } else if k == 2 * i {
                assert(k / 2 == i);
            } else {
                assert(k / 2 == i);
            }
        }
        assert(obstacles@.subrange(0, start) =~= before.subrange(0, start));
        i = i + 1;
    }
    let ghost spawned = obstacles@.subrange(start, obstacles@.len() as int);
    assert forall|k: int| 0 <= k < spawned.len() implies is_spawned(
        #[trigger] spawned[k],
        window_width as int,
        k / 2,
        direction_of_slot(k),
        offsets@[k / 2] as int,
    ) by {
        assert(spawned[k] == obstacles@[start + k]);
    }
}

/// Appends a full level of `OBSTACLE_AMOUNT` pairs, each with its own random
/// offset.
pub fn spawn_obstacles(obstacles: &mut Vec<Obstacle>, rng: &mut ThreadRng, window_width: u64)
    requires
        window_dimension_ok(window_width as int),
    ensures
        final(obstacles)@.len() == old(obstacles)@.len() + 2 * OBSTACLE_AMOUNT,
        final(obstacles)@.subrange(0, old(obstacles)@.len() as int) == old(obstacles)@,
        is_spawned_field(
            final(obstacles)@.subrange(old(obstacles)@.len() as int, final(obstacles)@.len() as int),
            window_width as int,
        ),
{
    let mut offsets: Vec<i64> = Vec::new();
    let mut i: i64 = 0;
    while i < OBSTACLE_AMOUNT
        invariant
            0 <= i <= OBSTACLE_AMOUNT,
            offsets@.len() == i,
            offsets_ok(offsets@),
        decreases OBSTACLE_AMOUNT - i,
    {
        let y_offset = generate_random_pipe_offset(rng);
        offsets.push(y_offset);
        assert(offsets@[i as int] == y_offset);
        i = i + 1;
    }
    spawn_obstacles_with_offsets(obstacles, window_width, &offsets);
    let ghost start = old(obstacles)@.len() as int;
    assert(lays_out_pairs(obstacles@.subrange(start, obstacles@.len() as int), window_width as int, offsets@));
}

/// One obstacle after one frame of `delta_micros`: scrolled left, and moved
/// to the back of the field at height `pipe_direction * centered + y_offset`
/// once it has wholly left the window on the left.
pub fn step_obstacle(obstacle: Obstacle, window_width: u64, delta_micros: u64, y_offset: i64) -> (r: Obstacle)
    requires
        obstacle_in_range(obstacle),
        window_dimension_ok(window_width as int),
        delta_micros <= MAX_FRAME_MICROS,
        offset_ok(y_offset as int),
    ensures
        is_stepped(r, obstacle, window_width as int, delta_micros as int, y_offset as int),
        obstacle_in_range(r),
{
    let centered = get_pipe_centered_position();
    let half_window: i64 = (window_width / 2) as i64;
    let x = obstacle.translation.x - OBSTACLE_SPEED * (delta_micros as i64);
    if x + OBSTACLE_HALF_WIDTH < -half_window {
        Obstacle {
            pipe_direction: obstacle.pipe_direction,
            translation: Position {
                x: x + OBSTACLE_FIELD_LENGTH,
                y: obstacle.pipe_direction * centered + y_offset,
            },
        }
    } else {
        Obstacle {
            pipe_direction: obstacle.pipe_direction,
            translation: Position { x, y: obstacle.translation.y },
        }
    }
}

/// Scrolls every obstacle for one frame, recycling with the shared
/// `y_offset` each one that has wholly left the window on the left.
pub fn update_obstacles_with_offset(
    obstacles: &mut Vec<Obstacle>,
    window_width: u64,
    delta_micros: u64,
    y_offset: i64,
)
    requires
        obstacles_in_range(old(obstacles)@),
        window_dimension_ok(window_width as int),
        delta_micros <= MAX_FRAME_MICROS,
        offset_ok(y_offset as int),
    ensures
        all_stepped(final(obstacles)@, old(obstacles)@, window_width as int, delta_micros as int, y_offset as int),
        obstacles_in_range(final(obstacles)@),
{
    let ghost start = obstacles@;
    let mut i: usize = 0;
    while i < obstacles.len()
        invariant
            obstacles@.len() == start.len(),
            i <= obstacles@.len(),
            obstacles_in_range(start),
            window_dimension_ok(window_width as int),
            delta_micros <= MAX_FRAME_MICROS,
            offset_ok(y_offset as int),
            forall|j: int| i <= j < obstacles@.len() ==> #[trigger] obstacles@[j] == start[j],
            forall|j: int|
                0 <= j < i ==> is_stepped(
                    #[trigger] obstacles@[j],
                    start[j],
                    window_width as int,
                    delta_micros as int,
                    y_offset as int,
                ) && obstacle_in_range(obstacles@[j]),
        decreases obstacles@.len() - i,
    {
        let moved = step_obstacle(obstacles[i], window_width, delta_micros, y_offset);
        obstacles.set(i, moved);
        i = i + 1;
    }
}

/// Scrolls every obstacle for one frame; one random offset is drawn for the
/// frame and shared by every obstacle recycled in it.
pub fn update_obstacles(obstacles: &mut Vec<Obstacle>, window_width: u64, delta_micros: u64, rng: &mut ThreadRng)
    requires
        obstacles_in_range(old(obstacles)@),
        window_dimension_ok(window_width as int),
        delta_micros <= MAX_FRAME_MICROS,
    ensures
        exists|y_offset: int|
            offset_ok(y_offset) && #[trigger] all_stepped(
                final(obstacles)@,
                old(obstacles)@,
                window_width as int,
                delta_micros as int,
                y_offset,
            ),
        obstacles_in_range(final(obstacles)@),
{
    let y_offset = generate_random_pipe_offset(rng);
    update_obstacles_with_offset(obstacles, window_width, delta_micros, y_offset);
}

/// Both members of a pair spawned together stand exactly twice the centred
/// distance apart vertically, whatever offset the pair drew.
pub proof fn lemma_spawned_pair_gap(s: Seq<Obstacle>, window_width: int, offsets: Seq<i64>, i: int)
    requires
        lays_out_pairs(s, window_width, offsets),
        0 <= i < offsets.len(),
    ensures
        s[2 * i].translation.x == s[2 * i + 1].translation.x,
        s[2 * i].pipe_direction == 1,
        s[2 * i + 1].pipe_direction == -1,
        abs(s[2 * i].translation.y - s[2 * i + 1].translation.y) == 2 * centered_position(),
{
    assert((2 * i) / 2 == i);
    assert((2 * i + 1) / 2 == i);
    assert(is_spawned(s[2 * i], window_width, i, 1, offsets[i] as int));
    assert(is_spawned(s[2 * i + 1], window_width, i, -1, offsets[i] as int));
}

/// An obstacle that has wholly left the window on the left after scrolling is
/// brought back onto the field, at the height its direction and the frame's
/// offset give. It holds for every obstacle that has scrolled less than the
/// length of the field past the edge, which every obstacle of a level does
/// (see `lemma_field_stays_on_screen`).
pub proof fn lemma_recycled_obstacle_returns(
    new: Obstacle,
    old: Obstacle,
    window_width: int,
    delta_micros: int,
    offset: int,
)
    requires
        is_stepped(new, old, window_width, delta_micros, offset),
        is_past_left_edge(scrolled_x(old, delta_micros), window_width),
        scrolled_x(old, delta_micros) >= -(window_width / 2) - OBSTACLE_FIELD_LENGTH,
    ensures
        new.translation.x >= -(window_width / 2),
        new.translation.x == scrolled_x(old, delta_micros) + OBSTACLE_FIELD_LENGTH,
        new.translation.y == old.pipe_direction * centered_position() + offset,
{
}

/// No obstacle is left behind: if every obstacle has not yet wholly left the
/// window on the left, the same holds after a frame, and each recycled one
/// stands to the right of the window's left edge.
pub proof fn lemma_field_stays_on_screen(
    new: Seq<Obstacle>,
    old: Seq<Obstacle>,
    window_width: int,
    delta_micros: int,
    offset: int,
)
    requires
        all_stepped(new, old, window_width, delta_micros, offset),
        window_dimension_ok(window_width),
        0 <= delta_micros <= MAX_FRAME_MICROS,
        forall|i: int| 0 <= i < old.len() ==> is_on_field(#[trigger] old[i].translation.x as int, window_width),
    ensures
        forall|i: int| 0 <= i < new.len() ==> is_on_field(#[trigger] new[i].translation.x as int, window_width),
        forall|i: int|
            0 <= i < new.len() && is_past_left_edge(scrolled_x(old[i], delta_micros), window_width)
                ==> #[trigger] new[i].translation.x >= -(window_width / 2),
{
    assert forall|i: int| 0 <= i < new.len() implies is_on_field(#[trigger] new[i].translation.x as int, window_width) by {
        assert(is_stepped(new[i], old[i], window_width, delta_micros, offset));
        assert(is_on_field(old[i].translation.x as int, window_width));
        assert(OBSTACLE_SPEED * delta_micros <= OBSTACLE_SPEED * MAX_FRAME_MICROS) by (nonlinear_arith)
            requires 0 <= delta_micros <= MAX_FRAME_MICROS;
    }
    assert forall|i: int|
        0 <= i < new.len() && is_past_left_edge(scrolled_x(old[i], delta_micros), window_width)
            implies #[trigger] new[i].translation.x >= -(window_width / 2) by {
        assert(is_stepped(new[i], old[i], window_width, delta_micros, offset));
        assert(is_on_field(old[i].translation.x as int, window_width));
        assert(OBSTACLE_SPEED * delta_micros <= OBSTACLE_SPEED * MAX_FRAME_MICROS) by (nonlinear_arith)
            requires 0 <= delta_micros <= MAX_FRAME_MICROS;
    }
}

/// Every obstacle of a freshly spawned field is one the simulation can move.
pub proof fn lemma_spawned_field_in_range(s: Seq<Obstacle>, window_width: int)
    requires
        is_spawned_field(s, window_width),
        window_dimension_ok(window_width),
    ensures
        obstacles_in_range(s),
{
    let offsets = choose|offsets: Seq<i64>|
        offsets.len() == OBSTACLE_AMOUNT && offsets_ok(offsets) && #[trigger] lays_out_pairs(
            s,
            window_width,
            offsets,
        );
    assert forall|k: int| 0 <= k < s.len() implies obstacle_in_range(#[trigger] s[k]) by {
        assert(is_spawned(s[k], window_width, k / 2, direction_of_slot(k), offsets[k / 2] as int));
        assert(offset_ok(offsets[k / 2] as int));
    }
}

} // verus!
