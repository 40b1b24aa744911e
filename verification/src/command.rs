//! Opaque, single-use mutations of the world, and the handle that sends them.
use vstd::prelude::*;

use bevy_ecs::system::Command;
use bevy_ecs::world::CommandQueue;
use bevy_ecs::world::World;

use crate::host::apply_queue;
use crate::host::new_queue;
use crate::operation::AsyncOperation;
use crate::operation::OperationSender;

verus! {

/// A boxed mutation of the world: any number of Bevy commands, type-erased, that are
/// run once and in order when the operation that carries them is applied.
#[derive(Debug)]
pub struct BoxedCommand(pub(crate) CommandQueue);

impl BoxedCommand {
    /// The queue of commands inside the box.
    pub closed spec fn commands(self) -> CommandQueue {
        self.0
    }

    /// Boxes one Bevy command. This is `CommandQueue::default` followed by
    /// `CommandQueue::push`; nothing is proved of it.
    #[verifier::external_body]
    pub fn new<C: Command>(inner: C) -> (boxed: Self)
    {
        let mut queue = CommandQueue::default();
        queue.push(inner);
        Self(queue)
    }

    /// Boxes a queue of commands that was built elsewhere.
    pub fn from_queue(queue: CommandQueue) -> (boxed: Self)
        ensures
            boxed.commands() == queue,
    {
        Self(queue)
    }

    /// Unboxes the queue of commands.
    pub fn into_queue(self) -> (queue: CommandQueue)
        ensures
            queue == self.commands(),
    {
        self.0
    }

    /// Runs the boxed commands against the world.
    pub fn apply(self, world: &mut World)
    {
        let mut queue = self.0;
        apply_queue(&mut queue, world);
    }

    /// How boxed commands show in diagnostics: by their type alone, since what is in
    /// the box cannot be read.
    pub fn describe(&self) -> (text: String)
        ensures
            text@ == "BoxedCommand"@,
    {
        "BoxedCommand".to_owned()
    }
}

/// Use this to send commands, stored in command queues, to the world, where they are
/// run during the next apply phase. Single commands go through [`BoxedCommand`].
#[derive(Debug)]
pub struct CommandQueueSender(pub(crate) OperationSender);

impl CommandQueueSender {
    /// The sender of operations inside.
    pub closed spec fn operations(self) -> OperationSender {
        self.0
    }

    /// Wraps a sender of operations.
    pub fn new(inner: OperationSender) -> (sender: Self)
        ensures
            sender.operations() == inner,
    {
        Self(inner)
    }

    /// Hands any operation to the channel, without blocking. A refused operation
    /// comes back untouched.
    pub fn send_operation(&self, operation: AsyncOperation) -> (result: Result<(), AsyncOperation>)
        ensures
            result matches Err(refused) ==> refused == operation,
    {
        self.0.send(operation)
    }

    /// Hands a queue of commands to the channel, without blocking. When the channel
    /// refuses it, because the world's side is gone, the queue comes back untouched.
    pub fn send_queue(&self, queue: CommandQueue) -> (result: Result<(), CommandQueue>)
        ensures
            result matches Err(refused) ==> refused == queue,
    {
        match self.0.send(AsyncOperation::Command(BoxedCommand(queue))) {
            Ok(()) => Ok(()),
            Err(AsyncOperation::Command(boxed)) => Err(boxed.0),
            Err(_) => vstd::pervasive::unreached(),
        }
    }

    /// Hands boxed commands to the channel, without blocking. When the channel
    /// refuses them, they come back untouched.
    pub fn send_single(&self, single: BoxedCommand) -> (result: Result<(), BoxedCommand>)
        ensures
            result matches Err(refused) ==> refused == single,
    {
        match self.send_queue(single.0) {
            Ok(()) => Ok(()),
            Err(queue) => Err(BoxedCommand(queue)),
        }
    }

    /// The number of live senders of the channel.
    pub fn sender_count(&self) -> (count: usize)
    {
        self.0.sender_count()
    }

    /// Whether the two senders feed one channel, and so one world.
    pub fn same_channel(&self, other: &CommandQueueSender) -> (same: bool)
        ensures
            same == (*self == *other),
    {
        self.0.same_channel(&other.0)
    }
}

impl Clone for CommandQueueSender {
    fn clone(&self) -> (copy: Self)
        ensures
            copy == *self,
    {
        Self(self.0.duplicate())
    }
}

/// Builds a queue of commands that can be sent to the world that the builder was
/// made for.
pub struct CommandQueueBuilder {
    pub(crate) inner: CommandQueue,
    pub(crate) sender: CommandQueueSender,
}

impl CommandQueueBuilder {
    /// A builder with an empty queue.
    pub fn new(sender: CommandQueueSender) -> (builder: Self)
        ensures
            builder.sender() == sender,
    {
        Self { inner: new_queue(), sender }
    }

    /// The sender through which the queue will go.
    pub closed spec fn sender(self) -> CommandQueueSender {
        self.sender
    }

    /// The queue that was built so far.
    pub closed spec fn commands(self) -> CommandQueue {
        self.inner
    }

    /// Pushes a Bevy command into the queue; meant to be chained. This is
    /// `CommandQueue::push`; the sender of the builder stays as it is, and nothing is
    /// claimed of the queue.
    #[verifier::external_body]
    pub fn push<C: Command>(self, command: C) -> (builder: Self)
        ensures
            builder.sender() == self.sender(),
    {
        let mut builder = self;
        builder.inner.push(command);
        builder
    }

    /// Sends the queue to the world; the end of the chain. When the channel refuses
    /// it, the queue comes back untouched.
    pub fn apply(self) -> (result: Result<(), CommandQueue>)
        ensures
            result matches Err(refused) ==> refused == self.commands(),
    {
        self.sender.send_queue(self.inner)
    }

    /// How a builder shows in diagnostics: the commands in it cannot be read.
    pub fn describe(&self) -> (text: String)
        ensures
            text@ == "CommandQueueBuilder { inner: \"[..]\", sender: CommandQueueSender(..) }"@,
    {
        "CommandQueueBuilder { inner: \"[..]\", sender: CommandQueueSender(..) }".to_owned()
    }

    /// Hands out the queue without sending it; the end of the chain.
    pub fn build(self) -> (queue: CommandQueue)
        ensures
            queue == self.commands(),
    {
        self.inner
    }
}

} // verus!
