//! The calls that the bridge makes into the Bevy `World` on the host thread.
//!
//! The world is opaque to the verifier: nothing is claimed of what these calls do to
//! it. What the bridge promises is stated over its own state and over what these calls
//! hand back. Commands, systems, hooks and observers are the host's own code: a call
//! that runs them panics when they do.
use vstd::prelude::*;

use bevy_ecs::entity::Entity;
use bevy_ecs::world::CommandQueue;
use bevy_ecs::world::World;

verus! {

#[verifier::external_type_specification]
#[verifier::external_body]
pub struct ExWorld(World);

#[verifier::external_type_specification]
#[verifier::external_body]
pub struct ExEntity(Entity);

#[verifier::external_type_specification]
#[verifier::external_body]
pub struct ExCommandQueue(CommandQueue);

/// `World::spawn_empty`: a new entity without components; its id is returned.
#[verifier::external_body]
pub(crate) fn spawn_empty(world: &mut World) -> (id: Entity)
{
    world.spawn_empty().id()
}

/// `World::spawn` with a `Name` component made by `Name::new`; the id of the new
/// entity is returned.
#[verifier::external_body]
pub(crate) fn spawn_named(world: &mut World, name: String) -> (id: Entity)
{
    world.spawn(bevy_ecs::name::Name::new(name)).id()
}

/// `World::despawn`: removes the entity and, through its relationships, its
/// descendants. `false` when the entity did not exist.
#[verifier::external_body]
pub(crate) fn despawn(world: &mut World, id: Entity) -> (existed: bool)
{
    world.despawn(id)
}

/// `CommandQueue::apply`: runs every queued command against the world, in the order
/// in which they were pushed, and leaves the queue empty.
#[verifier::external_body]
pub(crate) fn apply_queue(queue: &mut CommandQueue, world: &mut World)
{
    queue.apply(world)
}

/// `World::flush`: applies the structural changes that commands and hooks have
/// deferred.
#[verifier::external_body]
pub(crate) fn flush(world: &mut World)
{
    world.flush()
}

/// `CommandQueue::default`: a queue without commands.
#[verifier::external_body]
pub(crate) fn new_queue() -> (queue: CommandQueue)
{
    CommandQueue::default()
}

/// `World::run_system` on the system whose state lives on `system`
/// (`SystemId::from_entity`). `false` when the system did not run: the world does not
/// hold it, or refused or failed to run it.
#[verifier::external_body]
pub(crate) fn run_system(world: &mut World, system: Entity) -> (ran: bool)
{
    world.run_system(bevy_ecs::system::SystemId::<(), ()>::from_entity(system)).is_ok()
}

/// `World::unregister_system` on the system whose state lives on `system`. `false`
/// when nothing was removed: the world does not hold such a system, or the system is
/// running.
#[verifier::external_body]
pub(crate) fn unregister_system(world: &mut World, system: Entity) -> (removed: bool)
{
    world.unregister_system(bevy_ecs::system::SystemId::<(), ()>::from_entity(system)).is_ok()
}

} // verus!
