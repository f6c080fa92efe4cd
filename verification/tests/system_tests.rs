use torus_flock::ai_system::{
    AISystem, alignment_force, cohesion_force, separation_force, steer_force,
};
use torus_flock::components::{AITag, Entity, PlayerTag, Role, Ship, Velocity, limit_velocity};
use torus_flock::config::SimConfig;
use torus_flock::fixed::{normalize, scale};
use torus_flock::input_system::{InputSystem, PlayerInput};
use torus_flock::move_system::MoveSystem;
use torus_flock::simulation::tick;
use torus_flock::trig::atan2_fp;

fn flock_cfg() -> SimConfig {
    SimConfig {
        width: 100_000,
        height: 100_000,
        max_speed: 100_000,
        turn_rate: 100,
        accel_forward: 2100,
        accel_reverse: 200,
        alignment_range: 15_000,
        cohesion_range: 20_000,
        separation_range: 14_000,
        alignment_weight: 1000,
        cohesion_weight: 0,
        separation_weight: 1000,
        dt: 16,
    }
}

fn ai_entity(id: i32, x: i64, y: i64, dx: i64, dy: i64) -> Entity {
    Entity {
        ship: Ship { id, rotation: 0, x, y },
        vel: Velocity { dx, dy },
        role: Role::Ai(AITag),
    }
}

fn player_entity(id: i32, slot: usize, rotation: i64, dx: i64, dy: i64) -> Entity {
    Entity {
        ship: Ship { id, rotation, x: 10_000, y: 10_000 },
        vel: Velocity { dx, dy },
        role: Role::Player(PlayerTag { slot, is_primary: slot == 0 }),
    }
}

#[test]
fn separation_points_away_from_neighbor() {
    // Two entities two units apart on a 100 x 100 torus, radius 14: the
    // separation force of the first points toward negative x at full
    // magnitude.
    let cfg = flock_cfg();
    let entities = vec![
        ai_entity(1, 10_000, 10_000, 0, 0),
        ai_entity(2, 12_000, 10_000, 0, 0),
    ];
    assert_eq!(separation_force(&entities, 0, &cfg), (-1000, 0));
    assert_eq!(separation_force(&entities, 1, &cfg), (1000, 0));
}

#[test]
fn forces_match_hand_computed_snapshot_values() {
    // Three entities at known positions and velocities; the third is far
    // from the first two. Every force below is computed by hand from the
    // same snapshot.
    let cfg = flock_cfg();
    let entities = vec![
        ai_entity(1, 10_000, 10_000, 1000, 0),
        ai_entity(2, 12_000, 10_000, 0, 1000),
        ai_entity(3, 50_000, 50_000, 500, 500),
    ];
    // First entity: only the second is in range of every radius.
    assert_eq!(alignment_force(&entities, 0, &cfg), (0, 1000));
    assert_eq!(cohesion_force(&entities, 0, &cfg), (1000, 0));
    assert_eq!(separation_force(&entities, 0, &cfg), (-1000, 0));
    // Second entity: only the first is in range.
    assert_eq!(alignment_force(&entities, 1, &cfg), (1000, 0));
    assert_eq!(cohesion_force(&entities, 1, &cfg), (-1000, 0));
    assert_eq!(separation_force(&entities, 1, &cfg), (1000, 0));
    // Third entity: no neighbor; every force degenerates to zero.
    assert_eq!(alignment_force(&entities, 2, &cfg), (0, 0));
    assert_eq!(cohesion_force(&entities, 2, &cfg), (0, 0));
    assert_eq!(separation_force(&entities, 2, &cfg), (0, 0));
}

#[test]
fn steering_commits_against_the_pre_tick_snapshot() {
    // Run the steering pass, then recompute each entity's commit from the
    // snapshot taken before the pass. If the pass committed entity by
    // entity against mutated state, the later entities would differ.
    let cfg = flock_cfg();
    let mut entities = vec![
        ai_entity(1, 10_000, 10_000, 1000, 0),
        ai_entity(2, 12_000, 10_000, 0, 1000),
        ai_entity(3, 50_000, 50_000, 500, 500),
    ];
    let snapshot = entities.clone();
    let system = AISystem;
    system.run(&mut entities, &cfg);
    for i in 0..snapshot.len() {
        let steer = steer_force(&snapshot, i, &cfg);
        let old = &snapshot[i];
        let (nx, ny) = normalize(old.vel.dx + steer.0, old.vel.dy + steer.1);
        let v2x = scale(nx, cfg.max_speed, 1000);
        let v2y = scale(ny, cfg.max_speed, 1000);
        let rot = atan2_fp(v2y, v2x);
        let mut vel = Velocity { dx: v2x, dy: v2y };
        limit_velocity(&mut vel, cfg.max_speed);
        assert_eq!(entities[i].vel, vel);
        assert_eq!(entities[i].ship.rotation, rot);
        assert_eq!(entities[i].ship.x, old.ship.x);
        assert_eq!(entities[i].ship.y, old.ship.y);
    }
}

#[test]
fn players_count_as_flock_neighbors() {
    // A player two units from a flocker contributes to its alignment:
    // the flocker aligns to the player's velocity.
    let cfg = flock_cfg();
    let mut player = player_entity(9, 0, 0, 0, 1000);
    player.ship.x = 12_000;
    player.ship.y = 10_000;
    let entities = vec![ai_entity(1, 10_000, 10_000, 0, 0), player];
    assert_eq!(alignment_force(&entities, 0, &cfg), (0, 1000));
}

#[test]
fn flocking_sees_neighbors_across_the_edge() {
    // Entities at x = 99 and x = 1 are two units apart through the edge;
    // separation pushes the first away from the edge it would cross.
    let cfg = flock_cfg();
    let entities = vec![
        ai_entity(1, 99_000, 50_000, 0, 0),
        ai_entity(2, 1_000, 50_000, 0, 0),
    ];
    assert_eq!(separation_force(&entities, 0, &cfg), (-1000, 0));
    assert_eq!(separation_force(&entities, 1, &cfg), (1000, 0));
}

#[test]
fn steering_leaves_players_untouched() {
    let cfg = flock_cfg();
    let mut entities = vec![
        player_entity(1, 0, 500, 10, 20),
        ai_entity(2, 12_000, 10_000, 0, 0),
    ];
    let before = entities[0];
    let system = AISystem;
    system.run(&mut entities, &cfg);
    assert_eq!(entities[0], before);
}

#[test]
fn turn_axis_shifts_heading_exactly() {
    // Turn axis fully deflected, throttle absent, turn rate 100 angle
    // units: the heading grows by exactly 100 and the velocity is
    // untouched.
    let cfg = flock_cfg();
    let mut entities = vec![player_entity(1, 0, 0, 5, 7)];
    let inputs = vec![PlayerInput { throttle: None, turn: Some(1000) }];
    let system = InputSystem;
    system.run(&mut entities, &inputs, &cfg);
    assert_eq!(entities[0].ship.rotation, 100);
    assert_eq!(entities[0].vel, Velocity { dx: 5, dy: 7 });
}

#[test]
fn turn_axis_wraps_heading_modulo_full_turn() {
    let cfg = flock_cfg();
    let mut entities = vec![player_entity(1, 0, 6238, 0, 0)];
    let inputs = vec![PlayerInput { throttle: None, turn: Some(1000) }];
    let system = InputSystem;
    system.run(&mut entities, &inputs, &cfg);
    assert_eq!(entities[0].ship.rotation, 50);
}

#[test]
fn throttle_accelerates_along_heading() {
    let cfg = flock_cfg();
    // Forward at heading 0: the forward acceleration lands on x alone.
    let mut entities = vec![player_entity(1, 0, 0, 0, 0)];
    let inputs = vec![PlayerInput { throttle: Some(1000), turn: None }];
    let system = InputSystem;
    system.run(&mut entities, &inputs, &cfg);
    assert_eq!(entities[0].vel, Velocity { dx: 2100, dy: 0 });
    assert_eq!(entities[0].ship.rotation, 0);
    // Reverse is weaker than forward by design.
    let mut entities = vec![player_entity(2, 0, 0, 0, 0)];
    let inputs = vec![PlayerInput { throttle: Some(-1000), turn: None }];
    system.run(&mut entities, &inputs, &cfg);
    assert_eq!(entities[0].vel, Velocity { dx: -200, dy: 0 });
}

#[test]
fn zero_throttle_and_absent_slot_are_no_ops() {
    let cfg = flock_cfg();
    let system = InputSystem;
    let mut entities = vec![player_entity(1, 0, 700, 3, 4)];
    let inputs = vec![PlayerInput { throttle: Some(0), turn: None }];
    system.run(&mut entities, &inputs, &cfg);
    assert_eq!(entities[0], player_entity(1, 0, 700, 3, 4));
    // A slot with no input record at all is a no-op too.
    let mut entities = vec![player_entity(1, 5, 700, 3, 4)];
    let inputs = vec![PlayerInput { throttle: Some(1000), turn: Some(1000) }];
    system.run(&mut entities, &inputs, &cfg);
    assert_eq!(entities[0], player_entity(1, 5, 700, 3, 4));
}

#[test]
fn input_clamps_speed_at_ceiling() {
    let cfg = flock_cfg();
    let mut entities = vec![player_entity(1, 0, 0, 100_000, 0)];
    let inputs = vec![PlayerInput { throttle: Some(1000), turn: None }];
    let system = InputSystem;
    system.run(&mut entities, &inputs, &cfg);
    let v = entities[0].vel;
    let max = cfg.max_speed;
    assert!(v.dx * v.dx + v.dy * v.dy <= max * max + 2 * max);
    assert!(v.dx > 0);
}

#[test]
fn input_ignores_ai_entities() {
    let cfg = flock_cfg();
    let mut entities = vec![ai_entity(1, 10_000, 10_000, 42, 43)];
    let inputs = vec![PlayerInput { throttle: Some(1000), turn: Some(1000) }];
    let system = InputSystem;
    system.run(&mut entities, &inputs, &cfg);
    assert_eq!(entities[0], ai_entity(1, 10_000, 10_000, 42, 43));
}

#[test]
fn integration_advances_and_wraps_both_edges() {
    let cfg = flock_cfg();
    let system = MoveSystem;
    // Across the high edge: 99 + 1.6 wraps to 0.6 units.
    let mut entities = vec![ai_entity(1, 99_000, 10_000, 100_000, 0)];
    system.run(&mut entities, false, &cfg);
    assert_eq!(entities[0].ship.x, 600);
    assert_eq!(entities[0].ship.y, 10_000);
    assert_eq!(entities[0].vel, Velocity { dx: 100_000, dy: 0 });
    // Across the low edge: 1 - 1.6 wraps to 99.4 units.
    let mut entities = vec![ai_entity(2, 1_000, 10_000, -100_000, 0)];
    system.run(&mut entities, false, &cfg);
    assert_eq!(entities[0].ship.x, 99_400);
    // Every coordinate ends inside the arena.
    assert!(0 <= entities[0].ship.x && entities[0].ship.x < cfg.width);
    assert!(0 <= entities[0].ship.y && entities[0].ship.y < cfg.height);
}

#[test]
fn slow_motion_scales_the_step() {
    let cfg = flock_cfg();
    let system = MoveSystem;
    let mut entities = vec![ai_entity(1, 50_000, 50_000, 100_000, 0)];
    system.run(&mut entities, true, &cfg);
    // Step 1.6 units scaled by 0.3 is 0.48 units.
    assert_eq!(entities[0].ship.x, 50_480);
}

#[test]
fn integration_keeps_heading_and_velocity() {
    let cfg = flock_cfg();
    let system = MoveSystem;
    let mut entities = vec![Entity {
        ship: Ship { id: 1, rotation: 4321, x: 10_000, y: 20_000 },
        vel: Velocity { dx: 1000, dy: -2000 },
        role: Role::Ai(AITag),
    }];
    system.run(&mut entities, false, &cfg);
    assert_eq!(entities[0].ship.rotation, 4321);
    assert_eq!(entities[0].vel, Velocity { dx: 1000, dy: -2000 });
    assert_eq!(entities[0].ship.x, 10_016);
    assert_eq!(entities[0].ship.y, 19_968);
}

#[test]
fn one_tick_of_a_lone_flocker() {
    // A single steering-driven entity has no neighbor: every force is
    // zero, so it is rescaled to top speed along its own direction and
    // advances by max_speed * dt.
    let cfg = flock_cfg();
    let mut entities = vec![ai_entity(1, 10_000, 10_000, 1000, 0)];
    let inputs: Vec<PlayerInput> = Vec::new();
    tick(&mut entities, &inputs, false, &cfg);
    assert_eq!(entities[0].vel, Velocity { dx: 100_000, dy: 0 });
    assert_eq!(entities[0].ship.rotation, 0);
    assert_eq!(entities[0].ship.x, 11_600);
    assert_eq!(entities[0].ship.y, 10_000);
}
