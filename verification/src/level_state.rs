//! The level loading lifecycle: levels are loaded asynchronously, and the
//! physics core must not start integrating bodies before the level's
//! objects all exist. The decisions live here as a pure state machine;
//! the host's loader and spawner feed it events and perform the actual
//! asset work.

use vstd::prelude::*;

verus! {

/// Where a level stands in its loading lifecycle.
#[derive(Clone, Copy, Debug, PartialEq, Eq, Structural)]
pub enum LevelState {
    /// The level asset has been requested and is not here yet.
    Requested,
    /// The asset is parsed; it describes this many objects.
    AssetReady { objects: usize },
    /// Object spawning is under way: so many of the described objects
    /// are attached so far.
    Spawned { objects: usize, attached: usize },
    /// Every object is attached; the simulator may start.
    ObjectsAttached { objects: usize },
}

/// What the loader and the spawner report back.
#[derive(Clone, Copy, Debug, PartialEq, Eq, Structural)]
pub enum LevelEvent {
    /// The asset finished loading and parsing with this many objects.
    AssetLoaded { objects: usize },
    /// One more spawned object is attached to the scene.
    ObjectAttached,
}

/// A consistent state: never more objects attached than described.
pub open spec fn level_state_ok(s: LevelState) -> bool {
    s matches LevelState::Spawned { objects, attached } ==> attached < objects
}

/// Whether the physics core may integrate this level's bodies.
pub open spec fn may_simulate(s: LevelState) -> bool {
    s is ObjectsAttached
}

/// The next state after an event. Loading moves forward only:
/// `Requested` waits for its asset (an asset of zero objects is attached
/// at once), spawning counts attachments until every described object is
/// there, and events that make no sense in the current state change
/// nothing.
pub open spec fn level_step_spec(s: LevelState, e: LevelEvent) -> LevelState {
    match (s, e) {
        (LevelState::Requested, LevelEvent::AssetLoaded { objects }) => if objects == 0 {
            LevelState::ObjectsAttached { objects: 0 }
        } else {
            LevelState::Spawned { objects, attached: 0 }
        },
        (LevelState::Spawned { objects, attached }, LevelEvent::ObjectAttached) => if attached
            + 1 == objects {
            LevelState::ObjectsAttached { objects }
        } else {
            LevelState::Spawned { objects, attached: (attached + 1) as usize }
        },
        _ => s,
    }
}

/// Advances a level through its loading lifecycle. Consistency is kept,
/// a finished level never regresses, and simulation starts exactly when
/// the last described object is attached.
pub fn level_step(s: LevelState, e: LevelEvent) -> (r: LevelState)
    requires
        level_state_ok(s),
    ensures
        r == level_step_spec(s, e),
        level_state_ok(r),
        may_simulate(s) ==> r == s,
{
    match (s, e) {
        (LevelState::Requested, LevelEvent::AssetLoaded { objects }) => {
            if objects == 0 {
                LevelState::ObjectsAttached { objects: 0 }
            } else {
                LevelState::Spawned { objects, attached: 0 }
            }
        },
        (LevelState::Spawned { objects, attached }, LevelEvent::ObjectAttached) => {
            if attached + 1 == objects {
                LevelState::ObjectsAttached { objects }
            } else {
                LevelState::Spawned { objects, attached: attached + 1 }
            }
        },
        (other, _) => other,
    }
}

} // verus!
