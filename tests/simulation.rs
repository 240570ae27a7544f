use flappy_bird::bird::{
    advance_bird, bird_rotation, collides, hits_obstacle, is_bird_dead, update_bird, Bird,
    GameManager,
};
use flappy_bird::level::{setup_level, Level};
use flappy_bird::obstacle::{
    get_pipe_centered_position, spawn_obstacle, spawn_obstacles, spawn_obstacles_with_offsets,
    step_obstacle, update_obstacles, update_obstacles_with_offset, Obstacle,
};
use flappy_bird::random::generate_random_pipe_offset;
use flappy_bird::units::{
    Position, BIRD_FLAP_VELOCITY, BIRD_ROTATION_LIMIT, GRAVITY, OBSTACLE_AMOUNT,
    OBSTACLE_FIELD_LENGTH, OBSTACLE_HALF_HEIGHT, OBSTACLE_HALF_WIDTH, OBSTACLE_OFFSET_BOUND,
    OBSTACLE_SPEED, OBSTACLE_STRIDE, UNITS,
};

const FRAME: u64 = 16_667;
const WINDOW: u64 = 512_000_000_000_000;

fn bird_at_rest() -> Bird {
    Bird { velocity: 0, translation: Position { x: 0, y: 0 }, rotation: 0 }
}

fn pipe(direction: i64, x: i64, y: i64) -> Obstacle {
    Obstacle { pipe_direction: direction, translation: Position { x, y } }
}

#[test]
fn pipe_centered_position_is_half_height_plus_gap_scaled() {
    assert_eq!(get_pipe_centered_position(), (72 + 15) * 4 * UNITS);
}

#[test]
fn random_offsets_stay_in_range_and_vary() {
    let mut rng = rand::thread_rng();
    let mut seen_different = false;
    let first = generate_random_pipe_offset(&mut rng);
    for _ in 0..200 {
        let r = generate_random_pipe_offset(&mut rng);
        assert!(-OBSTACLE_OFFSET_BOUND <= r && r < OBSTACLE_OFFSET_BOUND);
        if r != first {
            seen_different = true;
        }
    }
    assert!(seen_different);
}

#[test]
fn spawn_obstacle_appends() {
    let mut v = vec![pipe(1, 5, 6)];
    spawn_obstacle(Position { x: 1, y: 2 }, -1, &mut v);
    assert_eq!(v, vec![pipe(1, 5, 6), pipe(-1, 1, 2)]);
}

#[test]
fn spawn_with_offsets_lays_out_pairs() {
    let mut v = Vec::new();
    let offsets = vec![0, 7 * UNITS, -OBSTACLE_OFFSET_BOUND];
    spawn_obstacles_with_offsets(&mut v, WINDOW, &offsets);
    let c = get_pipe_centered_position();
    let half = 256 * UNITS;
    assert_eq!(
        v,
        vec![
            pipe(1, half, c),
            pipe(-1, half, -c),
            pipe(1, half + OBSTACLE_STRIDE, c + 7 * UNITS),
            pipe(-1, half + OBSTACLE_STRIDE, -c + 7 * UNITS),
            pipe(1, half + 2 * OBSTACLE_STRIDE, c - OBSTACLE_OFFSET_BOUND),
            pipe(-1, half + 2 * OBSTACLE_STRIDE, -c - OBSTACLE_OFFSET_BOUND),
        ]
    );
}

#[test]
fn spawned_pairs_keep_their_gap() {
    let mut v = vec![pipe(1, 1, 1)];
    let mut rng = rand::thread_rng();
    spawn_obstacles(&mut v, &mut rng, WINDOW);
    assert_eq!(v.len(), 1 + 2 * OBSTACLE_AMOUNT as usize);
    assert_eq!(v[0], pipe(1, 1, 1));
    let c = get_pipe_centered_position();
    for i in 0..OBSTACLE_AMOUNT as usize {
        let up = v[1 + 2 * i];
        let down = v[2 + 2 * i];
        assert_eq!(up.pipe_direction, 1);
        assert_eq!(down.pipe_direction, -1);
        assert_eq!(up.translation.x, 256 * UNITS + OBSTACLE_STRIDE * i as i64);
        assert_eq!(down.translation.x, up.translation.x);
        assert_eq!((up.translation.y - down.translation.y).abs(), 2 * c);
    }
}

#[test]
fn fall_without_flap_follows_gravity() {
    let b = advance_bird(bird_at_rest(), FRAME, false);
    assert_eq!(b.velocity, -33_334_000);
    assert_eq!(b.translation, Position { x: 0, y: -555_577_778_000 });
    assert_eq!(b.rotation, -66_668);
}

#[test]
fn zero_frame_keeps_bird() {
    let start = Bird { velocity: 123_000_000, translation: Position { x: 3, y: 9 }, rotation: 0 };
    let b = advance_bird(start, 0, false);
    assert_eq!(b.velocity, 123_000_000);
    assert_eq!(b.translation, Position { x: 3, y: 9 });
    assert_eq!(b.rotation, 246_000);
}

#[test]
fn flap_overwrites_velocity() {
    let falling = Bird { velocity: -9_999_000_000, translation: Position { x: 0, y: 0 }, rotation: 0 };
    let rising = Bird { velocity: 7_000_000_000, translation: Position { x: 0, y: 0 }, rotation: 0 };
    let a = advance_bird(falling, FRAME, true);
    let b = advance_bird(rising, FRAME, true);
    assert_eq!(a.velocity, BIRD_FLAP_VELOCITY - GRAVITY * FRAME as i64);
    assert_eq!(b.velocity, a.velocity);
    let still = advance_bird(falling, 0, true);
    assert_eq!(still.velocity, BIRD_FLAP_VELOCITY);
}

#[test]
fn rotation_is_clamped_and_rounds_toward_zero() {
    assert_eq!(bird_rotation(1_000_000_000_000), BIRD_ROTATION_LIMIT);
    assert_eq!(bird_rotation(-1_000_000_000_000), -BIRD_ROTATION_LIMIT);
    assert_eq!(bird_rotation(-999), -1);
    assert_eq!(bird_rotation(999), 1);
    assert_eq!(bird_rotation(45_000_000_000), 90_000_000);
    assert_eq!(bird_rotation(0), 0);
}

#[test]
fn collision_is_box_based_and_symmetric() {
    let bird = Position { x: 0, y: 0 };
    assert!(collides(bird, Position { x: OBSTACLE_HALF_WIDTH - 1, y: OBSTACLE_HALF_HEIGHT - 1 }));
    assert!(!collides(bird, Position { x: OBSTACLE_HALF_WIDTH, y: 0 }));
    assert!(!collides(bird, Position { x: -OBSTACLE_HALF_WIDTH, y: 0 }));
    assert!(!collides(bird, Position { x: 0, y: OBSTACLE_HALF_HEIGHT }));
    let a = Position { x: 10 * UNITS, y: -20 * UNITS };
    let b = Position { x: 50 * UNITS, y: 100 * UNITS };
    assert_eq!(collides(a, b), collides(b, a));
    assert!(collides(a, b));
}

#[test]
fn bird_dies_on_ground_or_pipe() {
    let pipes = vec![pipe(1, 300 * UNITS, 0)];
    assert!(is_bird_dead(Position { x: 0, y: -256 * UNITS }, &pipes, WINDOW));
    assert!(!is_bird_dead(Position { x: 0, y: -256 * UNITS + 1 }, &pipes, WINDOW));
    assert!(is_bird_dead(Position { x: 250 * UNITS, y: 0 }, &pipes, WINDOW));
    assert!(hits_obstacle(Position { x: 250 * UNITS, y: 0 }, &pipes));
    assert!(!hits_obstacle(Position { x: 236 * UNITS, y: 0 }, &pipes));
}

#[test]
fn update_bird_resets_on_death() {
    let mut rng = rand::thread_rng();
    let manager = GameManager { window_width: WINDOW, window_height: WINDOW };
    let mut bird = Bird { velocity: 0, translation: Position { x: 0, y: -255_900_000_000_000 }, rotation: 0 };
    let mut pipes = vec![pipe(1, 0, 900 * UNITS)];
    update_bird(&mut bird, &mut pipes, &manager, FRAME, false, &mut rng);
    assert_eq!(bird.translation, Position { x: 0, y: 0 });
    assert_eq!(bird.velocity, 0);
    assert_eq!(pipes.len(), 2 * OBSTACLE_AMOUNT as usize);
    assert_eq!(pipes[0].translation.x, 256 * UNITS);
}

#[test]
fn update_bird_keeps_obstacles_while_alive() {
    let mut rng = rand::thread_rng();
    let manager = GameManager { window_width: WINDOW, window_height: WINDOW };
    let mut bird = bird_at_rest();
    let mut pipes = vec![pipe(1, 200 * UNITS, 0)];
    update_bird(&mut bird, &mut pipes, &manager, FRAME, true, &mut rng);
    assert_eq!(bird.velocity, BIRD_FLAP_VELOCITY - GRAVITY * FRAME as i64);
    assert!(bird.translation.y > 0);
    assert_eq!(pipes, vec![pipe(1, 200 * UNITS, 0)]);
}

#[test]
fn falling_bird_reaches_ground_and_resets() {
    let mut rng = rand::thread_rng();
    let mut level = setup_level(WINDOW, WINDOW, &mut rng);
    let mut reset_frame = None;
    for frame in 1..=60 {
        level.step(FRAME, false, &mut rng);
        if reset_frame.is_none() && level.bird.translation == (Position { x: 0, y: 0 }) {
            assert_eq!(level.bird.velocity, 0);
            reset_frame = Some(frame);
        }
        if frame == 29 {
            assert_eq!(level.bird.velocity, -966_686_000);
        }
    }
    assert_eq!(reset_frame, Some(30));
}

#[test]
fn sixty_frames_of_gravity_in_a_tall_window() {
    let mut rng = rand::thread_rng();
    let mut level = setup_level(WINDOW, 100_000 * UNITS as u64, &mut rng);
    for _ in 0..60 {
        level.step(FRAME, false, &mut rng);
    }
    assert_eq!(level.bird.velocity, -2_000_040_000);
    assert!(level.bird.translation.y < -1000 * UNITS);
}

#[test]
fn offscreen_obstacle_is_recycled() {
    let x_old = -(256 + 64 + 1) * UNITS;
    let mut pipes = vec![pipe(-1, x_old, 5), pipe(1, 0, 7)];
    update_obstacles_with_offset(&mut pipes, WINDOW, FRAME, 3 * UNITS);
    let scrolled = x_old - OBSTACLE_SPEED * FRAME as i64;
    let c = get_pipe_centered_position();
    assert_eq!(pipes[0], pipe(-1, scrolled + OBSTACLE_FIELD_LENGTH, -c + 3 * UNITS));
    assert_eq!(pipes[0].translation.x, 2_076_499_950_000_000);
    assert!(pipes[0].translation.x >= -256 * UNITS);
    assert_eq!(pipes[1], pipe(1, -OBSTACLE_SPEED * FRAME as i64, 7));
}

#[test]
fn step_obstacle_only_scrolls_on_screen_pipes() {
    let p = pipe(1, 100 * UNITS, 11);
    let r = step_obstacle(p, WINDOW, 1_000_000, 0);
    assert_eq!(r, pipe(1, -50 * UNITS, 11));
    let edge = pipe(1, -320 * UNITS, 11);
    assert_eq!(step_obstacle(edge, WINDOW, 0, 0), pipe(1, -320 * UNITS, 11));
}

#[test]
fn update_obstacles_recycles_pairs_with_shared_offset() {
    let mut rng = rand::thread_rng();
    let x_old = -400 * UNITS;
    let mut pipes = vec![pipe(1, x_old, 0), pipe(-1, x_old, 0)];
    update_obstacles(&mut pipes, WINDOW, FRAME, &mut rng);
    let c = get_pipe_centered_position();
    assert_eq!(pipes[0].translation.x, pipes[1].translation.x);
    assert_eq!(pipes[0].translation.y - pipes[1].translation.y, 2 * c);
    let offset = pipes[0].translation.y - c;
    assert!(-OBSTACLE_OFFSET_BOUND <= offset && offset < OBSTACLE_OFFSET_BOUND);
}

#[test]
fn setup_level_places_bird_and_field() {
    let mut rng = rand::thread_rng();
    let level: Level = setup_level(WINDOW, WINDOW, &mut rng);
    assert_eq!(level.bird, bird_at_rest());
    assert_eq!(level.manager, GameManager { window_width: WINDOW, window_height: WINDOW });
    assert_eq!(level.obstacles.len(), 2 * OBSTACLE_AMOUNT as usize);
    assert_eq!(level.obstacles[2].translation.x, 256 * UNITS + OBSTACLE_STRIDE);
}
