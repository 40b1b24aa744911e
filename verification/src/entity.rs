//! Operations on entities, and the handle that tasks hold on one.
use vstd::prelude::*;

use async_channel::Receiver;
use async_channel::Sender;
use bevy_ecs::entity::Entity;
use bevy_ecs::world::World;

use crate::channel::try_recv;
use crate::channel::deliver;
use crate::channel::InvariantBroken;
use crate::channel::Received;
use crate::command::BoxedCommand;
use crate::command::CommandQueueSender;
use crate::host::despawn;
use crate::host::spawn_empty;
use crate::host::spawn_named;
use crate::operation::AsyncOperation;
use crate::wait_for::StartWaitingFor;
use crate::world::AsyncWorld;

verus! {

/// An entity-related operation that can be applied to the world.
#[derive(Debug)]
pub enum EntityOperation {
    /// Spawn an empty entity. The spawned entity's id is sent into the sender.
    SpawnEmpty(Sender<Entity>),
    /// Spawn an entity with the given name. The spawned entity's id is sent into the
    /// sender.
    SpawnNamed(String, Sender<Entity>),
    /// Despawn the given entity, and with it its descendants.
    Despawn(Entity),
}

impl EntityOperation {
    /// Whether applying the operation ends with a delivery that can fail: the spawn
    /// operations hand the new id to a result channel.
    pub open spec fn delivers(self) -> bool {
        !(self is Despawn)
    }

    /// Applies the operation to the world. A despawn always succeeds, whether or not
    /// the entity still exists. A spawn succeeds unless the result channel refuses the
    /// new id, which breaks an invariant: the requester must still be listening, and
    /// nothing else may have been delivered.
    pub fn apply(self, world: &mut World) -> (result: Result<(), InvariantBroken>)
        ensures
            !self.delivers() ==> result is Ok,
            result matches Err(broken) ==> broken is ChannelFull || broken is ChannelClosed,
    {
        match self {
            EntityOperation::SpawnEmpty(sender) => {
                let id = spawn_empty(world);
                deliver(&sender, id)
            },
            EntityOperation::SpawnNamed(name, sender) => {
                let id = spawn_named(world, name);
                deliver(&sender, id)
            },
            EntityOperation::Despawn(id) => {
                let _ = despawn(world, id);
                Ok(())
            },
        }
    }
}

/// An entity that can be manipulated from a task.
///
/// Dropping the handle does not despawn the entity; [`AsyncEntity::despawn`] does.
#[derive(Debug)]
pub struct AsyncEntity {
    pub(crate) id: Entity,
    pub(crate) world: AsyncWorld,
}

impl AsyncEntity {
    /// The entity that the handle stands for.
    pub closed spec fn entity(self) -> Entity {
        self.id
    }

    /// The world that the handle sends its requests to.
    pub closed spec fn world(self) -> AsyncWorld {
        self.world
    }

    /// A handle on the given entity. Nothing is known of whether the entity exists.
    pub fn new(id: Entity, world: AsyncWorld) -> (entity: Self)
        ensures
            entity.entity() == id,
            entity.world() == world,
    {
        Self { id, world }
    }

    /// The entity that the handle stands for.
    pub fn id(&self) -> (id: Entity)
        ensures
            id == self.entity(),
    {
        self.id
    }

    /// A copy of the sender that the handle uses.
    pub fn sender(&self) -> (sender: CommandQueueSender)
        ensures
            sender == self.world().commands(),
    {
        self.world.sender()
    }

    /// Asks the world to despawn the entity, and with it its descendants. The handle
    /// is used up. A refused request comes back.
    pub fn despawn(self) -> (result: Result<(), AsyncOperation>)
        ensures
            result matches Err(refused) ==> refused == AsyncOperation::Entity(
                EntityOperation::Despawn(self.entity()),
            ),
    {
        self.world.send(AsyncOperation::Entity(EntityOperation::Despawn(self.id)))
    }

    /// Asks the world to run the boxed commands, which are expected to act on this
    /// entity. Refused commands come back.
    pub fn apply(&self, command: BoxedCommand) -> (result: Result<(), BoxedCommand>)
        ensures
            result matches Err(refused) ==> refused == command,
    {
        self.world.apply(command)
    }

    /// Prepares a wait for the component with the given type key on this entity:
    /// the request, which is to be applied on the host thread, and the handle on
    /// which the component will arrive.
    pub fn start_waiting_for<T>(&self, type_key: u64) -> (wait: (StartWaitingFor<T>, AsyncComponent<T>))
        ensures
            wait.0.kind() == crate::registry::WaitKind::Component,
            wait.0.target() == Some(self.entity()),
            wait.0.type_key() == type_key,
    {
        let (request, receiver) = StartWaitingFor::component(self.id, type_key);
        (request, AsyncComponent(receiver))
    }
}

/// A component that is being retrieved.
#[verifier::reject_recursive_types(T)]
pub struct AsyncComponent<T>(pub(crate) Receiver<T>);

impl<T> AsyncComponent<T> {
    /// The receiving side of the channel on which the component arrives.
    pub closed spec fn channel(self) -> Receiver<T> {
        self.0
    }

    /// Looks for the component without blocking.
    pub fn poll(&self) -> (received: Received<T>)
    {
        try_recv(&self.0)
    }

    /// The receiving side of the channel on which the component arrives, for a task
    /// that wants to await it.
    pub fn into_receiver(self) -> (receiver: Receiver<T>)
        ensures
            receiver == self.channel(),
    {
        self.0
    }
}

/// An entity that is being spawned: its id arrives once the world has applied the
/// spawn operation.
pub struct SpawnedEntity {
    pub(crate) receiver: Receiver<Entity>,
    pub(crate) world: AsyncWorld,
}

impl SpawnedEntity {
    /// Looks for the id of the new entity without blocking: a handle on the entity
    /// once the id is there, nothing before that.
    pub fn poll(&self) -> (entity: Option<AsyncEntity>)
        ensures
            entity matches Some(handle) ==> handle.world() == self.world(),
    {
        self.entity_of(try_recv(&self.receiver))
    }

    /// Reads what the channel answered: an id gives a handle on that entity in the
    /// world that it was spawned in; anything else gives nothing yet.
    pub fn entity_of(&self, received: Received<Entity>) -> (entity: Option<AsyncEntity>)
        ensures
            match received {
                Received::Value(id) => entity matches Some(handle) && handle.entity() == id
                    && handle.world() == self.world(),
                Received::Empty => entity is None,
                Received::Closed => entity is None,
            },
    {
        match received {
            Received::Value(id) => Some(AsyncEntity::new(id, self.world.clone())),
            Received::Empty => None,
            Received::Closed => None,
        }
    }

    /// The handle on an entity whose id will arrive on `receiver`, in `world`.
    pub fn new(receiver: Receiver<Entity>, world: AsyncWorld) -> (spawned: Self)
        ensures
            spawned.channel() == receiver,
            spawned.world() == world,
    {
        Self { receiver, world }
    }

    /// The receiving side of the channel on which the id arrives.
    pub closed spec fn channel(self) -> Receiver<Entity> {
        self.receiver
    }

    /// The world that the entity is spawned in.
    pub closed spec fn world(self) -> AsyncWorld {
        self.world
    }

    /// The receiving side of the channel on which the id arrives, and the world that
    /// the entity belongs to, for a task that wants to await the id.
    pub fn into_parts(self) -> (parts: (Receiver<Entity>, AsyncWorld))
        ensures
            parts.0 == self.channel(),
            parts.1 == self.world(),
    {
        (self.receiver, self.world)
    }
}

} // verus!
