//! Operations on registered systems, and the handle that tasks hold on one.
use std::sync::Arc;

use vstd::prelude::*;

use bevy_ecs::entity::Entity;
use bevy_ecs::world::World;

use async_channel::Receiver;
use async_channel::Sender;

use crate::channel::deliver;
use crate::channel::try_recv;
use crate::channel::InvariantBroken;
use crate::channel::Received;
use crate::host::run_system;
use crate::host::unregister_system;
use crate::operation::AsyncOperation;
use crate::world::AsyncWorld;

verus! {

/// A system-related operation that can be applied to the world. A registered system
/// is named by the entity that holds its state.
#[derive(Debug)]
pub enum SystemOperation {
    /// Run the registered system once.
    Run(Entity),
    /// Remove the registered system from the world.
    Unregister(Entity),
}

impl SystemOperation {
    /// Applies the operation to the world. Unregistering always succeeds, whether or
    /// not the system was still registered. A system that did not run breaks an
    /// invariant.
    pub fn apply(self, world: &mut World) -> (result: Result<(), InvariantBroken>)
        ensures
            self is Unregister ==> result is Ok,
            result matches Err(broken) ==> broken is SystemDidNotRun,
    {
        match self {
            SystemOperation::Run(system) => Self::verdict(run_system(world, system)),
            SystemOperation::Unregister(system) => {
                let _ = unregister_system(world, system);
                Ok(())
            },
        }
    }

    /// Reads what the world answered to a request to run a system: a system that ran
    /// is fine, a system that did not run breaks an invariant.
    pub fn verdict(ran: bool) -> (result: Result<(), InvariantBroken>)
        ensures
            result == (if ran {
                Ok::<(), InvariantBroken>(())
            } else {
                Err::<(), InvariantBroken>(InvariantBroken::SystemDidNotRun)
            }),
    {
        if ran {
            Ok(())
        } else {
            Err(InvariantBroken::SystemDidNotRun)
        }
    }
}

/// Runs a system that takes an input and returns an output, on the host thread. The
/// input waits on its own one-shot channel and the output leaves on another; `run`
/// runs the system on the input and returns its output, or nothing when the system
/// did not run.
///
/// The input must be there when the operation is applied, the system must run, and
/// the output channel must take the output: anything else breaks an invariant. What
/// follows from what the input channel answered is stated by [`run_received`].
pub fn run_with_io<I, O, F: FnOnce(I) -> Option<O>>(
    input: &Receiver<I>,
    output: &Sender<O>,
    run: F,
) -> (result: Result<(), InvariantBroken>)
    requires
        forall|value: I| run.requires((value,)),
    ensures
        result matches Err(broken) ==> broken is InputMissing || broken is SystemDidNotRun
            || broken is ChannelFull || broken is ChannelClosed,
        result is Ok ==> exists|value: I, returned: O| #[trigger]
                run.ensures((value,), Some(returned)),
        result == Err::<(), InvariantBroken>(InvariantBroken::SystemDidNotRun) ==> exists|
            value: I,
        | #[trigger] run.ensures((value,), None::<O>),
{
    run_received(try_recv(input), output, run)
}

/// Runs a system on what its input channel answered. Without an input the system is
/// not run and the input is reported missing. With an input, the system is run on
/// exactly that input; its output is then delivered on the output channel, and a
/// system that did not run, or an output that the channel refused, breaks an
/// invariant.
pub fn run_received<I, O, F: FnOnce(I) -> Option<O>>(
    received: Received<I>,
    output: &Sender<O>,
    run: F,
) -> (result: Result<(), InvariantBroken>)
    requires
        forall|value: I| run.requires((value,)),
    ensures
        !(received is Value) ==> result == Err::<(), InvariantBroken>(
            InvariantBroken::InputMissing,
        ),
        received matches Received::Value(value) ==> {
            &&& (result is Ok ==> exists|returned: O| #[trigger] run.ensures((value,), Some(returned)))
            &&& (result == Err::<(), InvariantBroken>(InvariantBroken::SystemDidNotRun)
                ==> run.ensures((value,), None::<O>))
            &&& (result matches Err(broken) ==> broken is SystemDidNotRun || broken is ChannelFull
                || broken is ChannelClosed)
        },
{
    match received {
        Received::Value(value) => {
            match run(value) {
                Some(returned) => deliver(output, returned),
                None => Err(InvariantBroken::SystemDidNotRun),
            }
        },
        Received::Empty => Err(InvariantBroken::InputMissing),
        Received::Closed => Err(InvariantBroken::InputMissing),
    }
}

/// What became of a request to unregister a system.
#[derive(Debug)]
pub enum Unregistered {
    /// The handle was the last one: the request to remove the system was sent.
    Sent,
    /// Other handles are still alive: only the count of handles went down.
    StillShared,
    /// The handle was the last one, but the channel refused the request, which comes
    /// back.
    Refused(AsyncOperation),
}

/// A registered system that can be run from a task.
///
/// Dropping the handle does not unregister the system; [`AsyncSystem::unregister`]
/// does, once the last copy of the handle is given up.
#[derive(Debug)]
pub struct AsyncSystem {
    pub(crate) id: Arc<Entity>,
    pub(crate) world: AsyncWorld,
}

impl AsyncSystem {
    /// The entity that holds the state of the system.
    pub closed spec fn entity(self) -> Entity {
        *self.id
    }

    /// The world that the handle sends its requests to.
    pub closed spec fn world(self) -> AsyncWorld {
        self.world
    }

    /// A handle on the system that is registered under `id`.
    pub fn new(id: Entity, world: AsyncWorld) -> (system: Self)
        ensures
            system.entity() == id,
            system.world() == world,
    {
        Self { id: Arc::new(id), world }
    }

    /// The entity that holds the state of the system.
    pub fn id(&self) -> (id: Entity)
        ensures
            id == self.entity(),
    {
        *self.id
    }

    /// Asks the world to run the system once, in its next apply phase. A refused
    /// request comes back.
    pub fn run(&self) -> (result: Result<(), AsyncOperation>)
        ensures
            result matches Err(refused) ==> refused == AsyncOperation::System(
                SystemOperation::Run(self.entity()),
            ),
    {
        self.world.send(AsyncOperation::System(SystemOperation::Run(*self.id)))
    }

    /// Gives the handle up. The system is unregistered when the last copy of the
    /// handle is given up; before that, only the count of copies goes down.
    pub fn unregister(self) -> (outcome: Unregistered)
        ensures
            outcome matches Unregistered::Refused(refused) ==> refused == AsyncOperation::System(
                SystemOperation::Unregister(self.entity()),
            ),
    {
        Self::unregister_last(&self.world, last_owner(self.id))
    }

    /// Acts on what giving up the handle showed: while other handles are alive,
    /// nothing is sent; the last handle sends the request to unregister the system
    /// that it held, which is then on its way or comes back refused.
    pub fn unregister_last(world: &AsyncWorld, last: Option<Entity>) -> (outcome: Unregistered)
        ensures
            last is None ==> outcome is StillShared,
            last matches Some(id) ==> outcome is Sent || outcome == Unregistered::Refused(
                AsyncOperation::System(SystemOperation::Unregister(id)),
            ),
    {
        match last {
            Some(id) => Unregistered::after(
                world.send(AsyncOperation::System(SystemOperation::Unregister(id))),
            ),
            None => Unregistered::StillShared,
        }
    }
}

impl Unregistered {
    /// Reads what became of the request that the last handle sent: it is on its way,
    /// or the channel refused it and it comes back.
    pub fn after(sent: Result<(), AsyncOperation>) -> (outcome: Self)
        ensures
            outcome == (match sent {
                Ok(()) => Unregistered::Sent,
                Err(refused) => Unregistered::Refused(refused),
            }),
    {
        match sent {
            Ok(()) => Unregistered::Sent,
            Err(refused) => Unregistered::Refused(refused),
        }
    }
}

impl Clone for AsyncSystem {
    fn clone(&self) -> (copy: Self)
        ensures
            copy.entity() == self.entity(),
            copy.world() == self.world(),
    {
        Self { id: share(&self.id), world: self.world.clone() }
    }
}

/// `Arc::into_inner`: the value, if this was the last handle on it. Whether it was
/// depends on what other owners did; when it was, the value is the shared one.
#[verifier::external_body]
pub(crate) fn last_owner<T>(shared: Arc<T>) -> (value: Option<T>)
    ensures
        value matches Some(inner) ==> inner == *shared,
{
    Arc::into_inner(shared)
}

/// `Arc::clone`: another handle on the same value.
#[verifier::external_body]
pub(crate) fn share<T>(shared: &Arc<T>) -> (copy: Arc<T>)
    ensures
        *copy == **shared,
{
    Arc::clone(shared)
}

} // verus!
