use vstd::prelude::*;
use rand::rngs::ThreadRng;
use crate::bird::{
    bird_in_range, height_after, is_advanced, is_dead_at, manager_ok, update_bird, Bird,
    GameManager,
};
use crate::obstacle::{
    all_stepped, is_spawned_field, lemma_spawned_field_in_range, obstacles_in_range, spawn_obstacles, update_obstacles, Obstacle,
};
use crate::units::{window_dimension_ok, Position, MAX_FRAME_MICROS};

verus! {

/// Everything the simulation holds between frames.
pub struct Level {
    pub manager: GameManager,
    pub bird: Bird,
    pub obstacles: Vec<Obstacle>,
}

impl Level {
    /// The level can be advanced by a frame.
    pub open spec fn wf(&self) -> bool {
        &&& manager_ok(self.manager)
        &&& bird_in_range(self.bird)
        &&& obstacles_in_range(self.obstacles@)
    }
}

/// A new level for a window of the given size: the bird at rest at the
/// origin and a freshly spawned field of obstacles.
pub fn setup_level(window_width: u64, window_height: u64, rng: &mut ThreadRng) -> (r: Level)
    requires
        window_dimension_ok(window_width as int),
        window_dimension_ok(window_height as int),
    ensures
        r.manager == (GameManager { window_width, window_height }),
        r.bird == (Bird { velocity: 0, translation: Position { x: 0, y: 0 }, rotation: 0 }),
        is_spawned_field(r.obstacles@, window_width as int),
        r.wf(),
{
    let mut obstacles: Vec<Obstacle> = Vec::new();
    spawn_obstacles(&mut obstacles, rng, window_width);
    assert(obstacles@.subrange(0, obstacles@.len() as int) =~= obstacles@);
    proof {
        lemma_spawned_field_in_range(obstacles@, window_width as int);
    }
    Level {
        manager: GameManager { window_width, window_height },
        bird: Bird { velocity: 0, translation: Position { x: 0, y: 0 }, rotation: 0 },
        obstacles,
    }
}

impl Level {
    /// One frame in the order the game runs it: first the bird (which may
    /// reset the level), then the obstacles.
    pub fn step(&mut self, delta_micros: u64, flap: bool, rng: &mut ThreadRng)
        requires
            old(self).wf(),
            delta_micros <= MAX_FRAME_MICROS,
        ensures
            final(self).manager == old(self).manager,
            obstacles_in_range(final(self).obstacles@),
            ({
                let dead = is_dead_at(
                    old(self).bird.translation.x as int,
                    height_after(old(self).bird, delta_micros as int, flap),
                    old(self).obstacles@,
                    old(self).manager.window_height as int,
                );
                if dead {
                    &&& final(self).bird.velocity == 0
                    &&& final(self).bird.translation == Position { x: 0, y: 0 }
                } else {
                    &&& is_advanced(final(self).bird, old(self).bird, delta_micros as int, flap)
                    &&& exists|y_offset: int|
                        #[trigger] all_stepped(
                            final(self).obstacles@,
                            old(self).obstacles@,
                            old(self).manager.window_width as int,
                            delta_micros as int,
                            y_offset,
                        )
                }
            }),
    {
        update_bird(&mut self.bird, &mut self.obstacles, &self.manager, delta_micros, flap, rng);
        let ghost mid_obstacles = self.obstacles@;
        let window_width = self.manager.window_width;
        update_obstacles(&mut self.obstacles, window_width, delta_micros, rng);
        assert(self.obstacles@.len() == mid_obstacles.len());
    }
}

} // verus!
