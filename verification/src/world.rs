//! The handle that tasks hold on the world.
use vstd::prelude::*;

use async_channel::Receiver;
use bevy_ecs::entity::Entity;
use bevy_ecs::world::World;

use crate::channel::bounded;
use crate::channel::try_recv;
use crate::channel::unbounded;
use crate::channel::Received;
use crate::command::BoxedCommand;
use crate::command::CommandQueueBuilder;
use crate::command::CommandQueueSender;
use crate::entity::AsyncEntity;
use crate::entity::EntityOperation;
use crate::entity::SpawnedEntity;
use crate::host::spawn_named;
use crate::operation::AsyncOperation;
use crate::operation::OperationReceiver;
use crate::operation::OperationReceivers;
use crate::operation::OperationSender;
use crate::registry::WaitKind;
use crate::system::AsyncSystem;
use crate::wait_for::StartWaitingFor;

verus! {

/// Exposes access to the world to tasks that run outside the host's update loop.
///
/// Every method hands its request to the channel and returns at once; the world
/// applies the request in its next apply phase.
#[derive(Debug)]
pub struct AsyncWorld(pub(crate) CommandQueueSender);

impl AsyncWorld {
    /// Creates the channel pair of a bridge: spawns the marker entity of the
    /// receiving side, adds the receiving side to the roster that the drain phase
    /// visits, and returns the handle that holds the sending side.
    pub fn from_world(world: &mut World, receivers: &mut OperationReceivers) -> (handle: Self)
        ensures
            final(receivers)@.len() == old(receivers)@.len() + 1,
            final(receivers)@.drop_last() == old(receivers)@,
    {
        let (sender, receiver) = unbounded();
        let marker = spawn_named(world, "CommandQueueReceiver".to_owned());
        receivers.push(OperationReceiver::new(marker, receiver));
        proof {
            assert(receivers@.drop_last() == old(receivers)@);
        }
        Self(CommandQueueSender::new(OperationSender::from_sender(sender)))
    }

    /// The sender that the handle sends through.
    pub closed spec fn commands(self) -> CommandQueueSender {
        self.0
    }

    /// A handle that sends through the given sender.
    pub fn from_sender(sender: CommandQueueSender) -> (handle: Self)
        ensures
            handle.commands() == sender,
    {
        Self(sender)
    }

    /// A copy of the underlying sender.
    pub fn sender(&self) -> (sender: CommandQueueSender)
        ensures
            sender == self.commands(),
    {
        self.0.clone()
    }

    /// Hands any operation to the channel. A refused operation comes back untouched.
    pub fn send(&self, operation: AsyncOperation) -> (result: Result<(), AsyncOperation>)
        ensures
            result matches Err(refused) ==> refused == operation,
    {
        self.0.send_operation(operation)
    }

    /// Asks the world to run the boxed commands. Refused commands come back
    /// untouched.
    pub fn apply(&self, command: BoxedCommand) -> (result: Result<(), BoxedCommand>)
        ensures
            result matches Err(refused) ==> refused == command,
    {
        self.0.send_single(command)
    }

    /// Starts building a queue of commands for this world.
    pub fn start_queue(&self) -> (builder: CommandQueueBuilder)
        ensures
            builder.sender() == self.commands(),
    {
        CommandQueueBuilder::new(self.sender())
    }

    /// A handle on the given entity. If the entity does not exist, operations on it
    /// have no effect.
    pub fn entity(&self, id: Entity) -> (entity: AsyncEntity)
        ensures
            entity.entity() == id,
            entity.world() == *self,
    {
        AsyncEntity::new(id, self.clone())
    }

    /// A handle on the system that is registered under `id`.
    pub fn system(&self, id: Entity) -> (system: AsyncSystem)
        ensures
            system.entity() == id,
            system.world() == *self,
    {
        AsyncSystem::new(id, self.clone())
    }

    /// Asks the world to spawn an empty entity. The result is the handle on which the
    /// id of the new entity arrives; a refused request comes back instead.
    pub fn spawn_empty(&self) -> (result: Result<SpawnedEntity, AsyncOperation>)
        ensures
            result matches Err(refused) ==> refused matches AsyncOperation::Entity(
                EntityOperation::SpawnEmpty(_),
            ),
            result matches Ok(spawned) ==> spawned.world() == *self,
    {
        let (sender, receiver) = bounded(1);
        match self.send(AsyncOperation::Entity(EntityOperation::SpawnEmpty(sender))) {
            Ok(()) => Ok(SpawnedEntity::new(receiver, self.clone())),
            Err(refused) => Err(refused),
        }
    }

    /// Asks the world to spawn an entity with the given name. The result is the
    /// handle on which the id of the new entity arrives; a refused request comes back
    /// instead.
    pub fn spawn_named(&self, name: String) -> (result: Result<SpawnedEntity, AsyncOperation>)
        ensures
            result matches Err(refused) ==> (refused matches AsyncOperation::Entity(
                EntityOperation::SpawnNamed(given, _),
            ) && given == name),
            result matches Ok(spawned) ==> spawned.world() == *self,
    {
        let (sender, receiver) = bounded(1);
        match self.send(AsyncOperation::Entity(EntityOperation::SpawnNamed(name, sender))) {
            Ok(()) => Ok(SpawnedEntity::new(receiver, self.clone())),
            Err(refused) => Err(refused),
        }
    }

    /// Prepares a wait for the resource with the given type key: the request, which
    /// is to be applied on the host thread, and the handle on which the resource will
    /// arrive.
    pub fn start_waiting_for_resource<T>(&self, type_key: u64) -> (wait: (
        StartWaitingFor<T>,
        AsyncResource<T>,
    ))
        ensures
            wait.0.kind() == WaitKind::Resource,
            wait.0.target() == None::<Entity>,
            wait.0.type_key() == type_key,
    {
        let (request, receiver) = StartWaitingFor::resource(type_key);
        (request, AsyncResource(receiver))
    }

    /// Prepares a wait for the messages with the given type key: the request, which
    /// is to be applied on the host thread, and the handle on which the messages will
    /// arrive.
    pub fn start_waiting_for_messages<T>(&self, type_key: u64) -> (wait: (
        StartWaitingFor<T>,
        AsyncMessages<T>,
    ))
        ensures
            wait.0.kind() == WaitKind::Message,
            wait.0.target() == None::<Entity>,
            wait.0.type_key() == type_key,
    {
        let (request, receiver) = StartWaitingFor::messages(type_key);
        (request, AsyncMessages(receiver))
    }
}

impl Clone for AsyncWorld {
    fn clone(&self) -> (copy: Self)
        ensures
            copy == *self,
    {
        Self(self.0.clone())
    }
}

/// A resource that is being retrieved.
#[verifier::reject_recursive_types(T)]
pub struct AsyncResource<T>(pub(crate) Receiver<T>);

impl<T> AsyncResource<T> {
    /// The receiving side of the channel on which the resource arrives.
    pub closed spec fn channel(self) -> Receiver<T> {
        self.0
    }

    /// Looks for the resource without blocking.
    pub fn poll(&self) -> (received: Received<T>)
    {
        try_recv(&self.0)
    }

    /// The receiving side of the channel on which the resource arrives, for a task
    /// that wants to await it.
    pub fn into_receiver(self) -> (receiver: Receiver<T>)
        ensures
            receiver == self.channel(),
    {
        self.0
    }
}

/// The messages of one type, as they arrive from the world.
#[verifier::reject_recursive_types(T)]
pub struct AsyncMessages<T>(pub(crate) Receiver<T>);

impl<T> AsyncMessages<T> {
    /// The receiving side of the channel on which the messages arrive.
    pub closed spec fn channel(self) -> Receiver<T> {
        self.0
    }

    /// Looks for the next message without blocking. Can be called again and again.
    pub fn poll(&self) -> (received: Received<T>)
    {
        try_recv(&self.0)
    }

    /// The receiving side of the channel on which the messages arrive, for a task
    /// that wants to await the next one and keep the handle.
    pub fn receiver(&self) -> (receiver: &Receiver<T>)
        ensures
            *receiver == self.channel(),
    {
        &self.0
    }

    /// The receiving side of the channel on which the messages arrive, for a task
    /// that wants to await them.
    pub fn into_receiver(self) -> (receiver: Receiver<T>)
        ensures
            receiver == self.channel(),
    {
        self.0
    }
}

} // verus!
