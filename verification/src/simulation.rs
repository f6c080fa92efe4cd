//! One simulation tick: the three passes in their fixed dependency order —
//! input mapping, then steering, then integration — over the shared
//! population. Steering reads the input pass's state; integration reads
//! the steering pass's state.

use vstd::prelude::*;

use crate::ai_system::{AISystem, spec_ai_pass};
use crate::components::Entity;
use crate::config::{MAX_POPULATION, SimConfig};
use crate::fixed::UNIT;
use crate::input_system::{InputSystem, PlayerInput, spec_input_pass};
use crate::move_system::{MoveSystem, SLOW_MOTION_MODIFIER, spec_move_pass};

verus! {

/// Advance the population by one tick. The result is exactly the three
/// passes composed, and every entity ends the tick inside the store
/// invariant: position on the arena, heading within one turn, speed
/// clamped.
pub fn tick(
    entities: &mut Vec<Entity>,
    inputs: &Vec<PlayerInput>,
    slow_motion: bool,
    cfg: &SimConfig,
)
    requires
        cfg.wf(),
        old(entities)@.len() <= MAX_POPULATION,
        forall|i: int|
            0 <= i < old(entities)@.len() ==> (#[trigger] old(entities)@[i]).wf(*cfg),
        forall|i: int| 0 <= i < inputs@.len() ==> (#[trigger] inputs@[i]).wf(),
    ensures
        final(entities)@ == spec_move_pass(
            spec_ai_pass(spec_input_pass(old(entities)@, inputs@, *cfg), *cfg),
            if slow_motion { SLOW_MOTION_MODIFIER as int } else { UNIT as int },
            *cfg,
        ),
        final(entities)@.len() == old(entities)@.len(),
        forall|i: int|
            0 <= i < final(entities)@.len() ==> (#[trigger] final(entities)@[i]).wf(*cfg),
{
    let input_system = InputSystem;
    let ai_system = AISystem;
    let move_system = MoveSystem;
    input_system.run(entities, inputs, cfg);
    ai_system.run(entities, cfg);
    move_system.run(entities, slow_motion, cfg);
}

} // verus!
