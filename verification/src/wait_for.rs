//! The wait-for engine: tasks register for a component, a resource or the messages of
//! one type, and a poll delivers what they wait for as soon as it is there.
//!
//! A poll never looks into the world itself. Whoever runs it on the host thread looks
//! up what each waiter waits for and hands the poll what it found; the poll decides
//! who gets what, and who is retired.
use vstd::prelude::*;

use async_channel::Receiver;
use async_channel::Sender;
use bevy_ecs::entity::Entity;
use bevy_ecs::world::World;

use crate::channel::bounded;
use crate::channel::try_send;
use crate::channel::unbounded;
use crate::channel::Delivery;
use crate::channel::InvariantBroken;
use crate::host::despawn;
use crate::host::spawn_named;
use crate::registry::enrolled;
use crate::registry::registered;
use crate::registry::wait_state;
use crate::registry::ActiveWaiters;
use crate::registry::WaitState;
use crate::registry::WaitKind;
use crate::registry::WaiterCache;
use crate::retire::is_retired;
use crate::retire::lemma_survivors_agree;
use crate::retire::lemma_survivors_all;
use crate::retire::lemma_survivors_exact;
use crate::retire::lemma_survivors_unvisited;
use crate::retire::retire;
use crate::retire::retired_count;
use crate::retire::reversed;
use crate::retire::survivor_index;
use crate::retire::survivors;

verus! {

/// One registered wait: the marker entity that stands for it in the world, the entity
/// whose component is awaited (if a component is awaited), and the channel on which
/// the value is delivered.
#[verifier::reject_recursive_types(T)]
pub struct WaitingFor<T> {
    pub(crate) marker: Entity,
    pub(crate) target: Option<Entity>,
    pub(crate) sender: Sender<T>,
}

impl<T> WaitingFor<T> {
    /// The marker entity of the waiter.
    pub closed spec fn marker(self) -> Entity {
        self.marker
    }

    /// The entity whose component the waiter waits for, if it waits for a component.
    pub closed spec fn target(self) -> Option<Entity> {
        self.target
    }

    /// The channel on which the waiter's value is delivered.
    pub closed spec fn channel(self) -> Sender<T> {
        self.sender
    }
}

/// The waiters of one kind of wait on one type, in the order in which they registered.
#[verifier::reject_recursive_types(T)]
pub struct Waiters<T>(pub(crate) Vec<WaitingFor<T>>);

impl<T> View for Waiters<T> {
    type V = Seq<WaitingFor<T>>;

    closed spec fn view(&self) -> Seq<WaitingFor<T>> {
        self.0@
    }
}

impl<T> Waiters<T> {
    /// No waiters.
    pub fn new() -> (waiters: Self)
        ensures
            waiters@ == Seq::<WaitingFor<T>>::empty(),
    {
        Self(Vec::new())
    }

    /// The number of waiters.
    pub fn len(&self) -> (length: usize)
        ensures
            length == self@.len(),
    {
        self.0.len()
    }

    /// What each waiter waits on, in roster order: the entities to look at before a
    /// poll for components.
    pub fn targets(&self) -> (targets: Vec<Option<Entity>>)
        ensures
            targets@.len() == self@.len(),
            forall|i: int| 0 <= i < self@.len() ==> targets@[i] == self@[i].target(),
    {
        let mut targets: Vec<Option<Entity>> = Vec::new();
        let mut index: usize = 0;
        while index < self.0.len()
            invariant
                index <= self.0@.len(),
                targets@.len() == index,
                forall|i: int| 0 <= i < index ==> targets@[i] == self.0@[i].target,
            decreases self.0@.len() - index,
        {
            targets.push(self.0[index].target);
            index = index + 1;
        }
        targets
    }

    /// Drops the waiters whose marker entity is gone from the world: `gone` says of
    /// each waiter, in roster order, whether it is. A waiter that is dropped gives up
    /// its channel, so that the task behind it learns that nothing will come.
    pub fn forget(&mut self, gone: &Vec<bool>)
        ensures
            final(self)@ == survivors(old(self)@, gone@),
    {
        let mut members: Vec<WaitingFor<T>> = Vec::new();
        core::mem::swap(&mut self.0, &mut members);
        self.0 = retire(members, gone);
    }

    /// The marker entity of each waiter, in roster order.
    pub fn markers(&self) -> (markers: Vec<Entity>)
        ensures
            markers@.len() == self@.len(),
            forall|i: int| 0 <= i < self@.len() ==> markers@[i] == self@[i].marker(),
    {
        let mut markers: Vec<Entity> = Vec::new();
        let mut index: usize = 0;
        while index < self.0.len()
            invariant
                index <= self.0@.len(),
                markers@.len() == index,
                forall|i: int| 0 <= i < index ==> markers@[i] == self.0@[i].marker,
            decreases self.0@.len() - index,
        {
            markers.push(self.0[index].marker);
            index = index + 1;
        }
        markers
    }
}

/// What a poll did with one waiter.
#[derive(Clone, Copy, Debug, PartialEq, Eq, Structural)]
pub enum Attempt {
    /// What the waiter waits for is not there yet; nothing was sent, the waiter stays.
    NotReady,
    /// The value was sent, once; the waiter is retired.
    Delivered,
    /// The awaiting task is gone; the waiter is retired.
    Abandoned,
}

/// What one poll of one-shot waiters did.
#[derive(Debug)]
pub struct PollReport {
    /// There was no waiter to poll: the polling system can be deactivated.
    pub idle: bool,
    /// What was done with each waiter that was visited, in roster order.
    pub attempts: Vec<Attempt>,
    /// The invariant that stopped the poll, if one did.
    pub failure: Option<InvariantBroken>,
}

/// The waiters that a poll retires: all but those that are not ready.
pub open spec fn retirements(attempts: Seq<Attempt>) -> Seq<bool> {
    attempts.map_values(|attempt: Attempt| !(attempt is NotReady))
}

/// What was found for the waiter at `index`: nothing, where the observations run out.
pub open spec fn observed<T>(found: Seq<Option<T>>, index: int) -> Option<T> {
    if 0 <= index < found.len() {
        found[index]
    } else {
        None
    }
}

/// What a poll of one-shot waiters owes, given for each waiter whether what it waits
/// for was there:
/// - it is idle exactly when there was no waiter;
/// - it visits the waiters in roster order and makes one attempt for each ready one,
///   none for the others;
/// - it visits all of them, unless a channel is full, which is fatal: then the first
///   waiter that was not visited is a ready one;
/// - the waiters that stay are those that were not ready and those that were not
///   visited, in their old order.
pub open spec fn polled<T>(
    before: Seq<WaitingFor<T>>,
    after: Seq<WaitingFor<T>>,
    report: PollReport,
    ready: spec_fn(int) -> bool,
) -> bool {
    &&& report.idle == (before.len() == 0)
    &&& report.attempts@.len() <= before.len()
    &&& forall|i: int|
        0 <= i < report.attempts@.len() ==> ((#[trigger] report.attempts@[i]) is NotReady <==> !ready(
            i,
        ))
    &&& report.failure is None ==> report.attempts@.len() == before.len()
    &&& report.failure is Some ==> {
        &&& report.failure == Some(InvariantBroken::ChannelFull)
        &&& report.attempts@.len() < before.len()
        &&& ready(report.attempts@.len() as int)
    }
    &&& after == survivors(before, retirements(report.attempts@))
}

/// The attempt that corresponds to what a delivery achieved.
pub fn attempt_of(delivery: Delivery) -> (attempt: Attempt)
    ensures
        attempt == (match delivery {
            Delivery::Delivered => Attempt::Delivered,
            Delivery::Abandoned => Attempt::Abandoned,
        }),
{
    match delivery {
        Delivery::Delivered => Attempt::Delivered,
        Delivery::Abandoned => Attempt::Abandoned,
    }
}

/// Polls the waiters of one component type. `found` holds, for each waiter in roster
/// order, the component that its target entity has now, if it has one (see
/// [`Waiters::targets`]); a waiter without an entry counts as not ready.
///
/// A waiter whose component is there gets it sent, exactly once, and is retired: it
/// leaves the roster and its marker entity is despawned. The same happens, silently,
/// when its channel turns out to be closed. A waiter whose component is not there is
/// left alone. A full channel stops the poll: it means that a one-shot channel was
/// used twice.
pub fn process_waiting_components<T>(
    world: &mut World,
    waiters: &mut Waiters<T>,
    found: Vec<Option<T>>,
) -> (report: PollReport)
    ensures
        polled(
            old(waiters)@,
            final(waiters)@,
            report,
            |i: int| observed(found@, i) is Some,
        ),
{
    let ghost ready = |i: int| observed(found@, i) is Some;
    let mut visited: Vec<WaitingFor<T>> = Vec::new();
    core::mem::swap(&mut waiters.0, &mut visited);
    let ghost all = visited@;
    let idle = visited.len() == 0;
    let mut observations = reversed(found);
    let mut attempts: Vec<Attempt> = Vec::new();
    let mut failure: Option<InvariantBroken> = None;
    proof {
        assert(all.take(0) == Seq::<WaitingFor<T>>::empty());
    }
    for waiter in iter: visited
        invariant
            iter.seq() == all,
            attempts@.len() <= iter.index(),
            failure is None ==> attempts@.len() == iter.index(),
            failure is None ==> observations@.len() == (if found@.len() >= iter.index() {
                found@.len() - iter.index()
            } else {
                0
            }),
            failure is None ==> forall|j: int|
                0 <= j < observations@.len() ==> observations@[j] == found@[found@.len() - 1 - j],
            failure is Some ==> {
                &&& failure == Some(InvariantBroken::ChannelFull)
                &&& attempts@.len() < iter.index()
                &&& ready(attempts@.len() as int)
            },
            forall|i: int|
                0 <= i < attempts@.len() ==> ((#[trigger] attempts@[i]) is NotReady <==> !ready(i)),
            waiters.0@ == survivors(all.take(attempts@.len() as int), retirements(attempts@))
                + all.subrange(attempts@.len() as int, iter.index() as int),
            ready == (|i: int| observed(found@, i) is Some),
    {
        let ghost index = iter.index() as int;
        let ghost marks = retirements(attempts@);
        let ghost count = attempts@.len() as int;
        if failure.is_some() {
            proof {
                assert(all.subrange(count, index).push(waiter) == all.subrange(count, index + 1));
            }
            waiters.0.push(waiter);
        } else {
            let observation = match observations.pop() {
                Some(observation) => observation,
                None => None,
            };
            assert(observation == observed(found@, index));
            proof {
                assert(all.subrange(index, index) == Seq::<WaitingFor<T>>::empty());
                assert(waiters.0@ == survivors(all.take(index), marks));
                assert(all.take(index + 1).drop_last() == all.take(index));
                assert(all.take(index + 1).last() == waiter);
            }
            match observation {
                None => {
                    attempts.push(Attempt::NotReady);
                    waiters.0.push(waiter);
                    proof {
                        lemma_survivors_agree(all.take(index), marks, retirements(attempts@));
                        assert(all.subrange(index + 1, index + 1) == Seq::<WaitingFor<T>>::empty());
                    }
                },
                Some(value) => {
                    match try_send(&waiter.sender, value).into_delivery() {
                        Ok(delivery) => {
                            attempts.push(attempt_of(delivery));
                            let _ = despawn(world, waiter.marker);
                            proof {
                                lemma_survivors_agree(
                                    all.take(index),
                                    marks,
                                    retirements(attempts@),
                                );
                                assert(all.subrange(index + 1, index + 1) == Seq::<
                                    WaitingFor<T>,
                                >::empty());
                            }
                        },
                        Err(broken) => {
                            failure = Some(broken);
                            waiters.0.push(waiter);
                            proof {
                                assert(all.subrange(index, index + 1) == seq![waiter]);
                            }
                        },
                    }
                },
            }
        }
    }
    proof {
        let count = attempts@.len() as int;
        assert(all.subrange(count, all.len() as int) == all.skip(count));
        assert(all.take(count) + all.skip(count) == all);
        lemma_survivors_unvisited(all.take(count), all.skip(count), retirements(attempts@));
    }
    PollReport { idle, attempts, failure }
}

/// Polls the waiters of one resource type. `resource` is the resource as it is now, if
/// the world holds it.
///
/// While the resource is missing, every waiter is left alone. Once it is there, each
/// waiter gets a copy of it sent, exactly once, and is retired, as in
/// [`process_waiting_components`].
pub fn process_waiting_resources<T: Clone>(
    world: &mut World,
    waiters: &mut Waiters<T>,
    resource: Option<&T>,
) -> (report: PollReport)
    ensures
        polled(old(waiters)@, final(waiters)@, report, |i: int| resource is Some),
{
    let mut found: Vec<Option<T>> = Vec::new();
    let count: usize = waiters.0.len();
    let mut index: usize = 0;
    while index < count
        invariant
            index <= count,
            found@.len() == index,
            forall|i: int| 0 <= i < index ==> ((#[trigger] found@[i]) is Some <==> resource is Some),
        decreases count - index,
    {
        match resource {
            Some(value) => {
                found.push(Some(value.clone()));
            },
            None => {
                found.push(None);
            },
        }
        index = index + 1;
    }
    let report = process_waiting_components(world, waiters, found);
    proof {
        assert forall|i: int| 0 <= i < report.attempts@.len() implies ((
        #[trigger] report.attempts@[i]) is NotReady <==> !(resource is Some)) by {
            assert(observed(found@, i) == found@[i]);
        }
        if report.failure is Some {
            assert(observed(found@, report.attempts@.len() as int) == found@[report.attempts@.len() as int]);
        }
    }
    report
}

/// What one poll of message waiters did.
#[derive(Debug)]
pub struct MessageReport {
    /// There was no waiter to poll: the polling system can be deactivated.
    pub idle: bool,
    /// For each waiter that was visited, in roster order, the number of messages
    /// that were sent to it.
    pub sent: Vec<usize>,
    /// For each waiter that was visited, in roster order, whether its channel was
    /// found closed, and the waiter retired.
    pub closed: Vec<bool>,
    /// The invariant that stopped the poll, if one did.
    pub failure: Option<InvariantBroken>,
}

/// What a poll of message waiters owes, given the number of new messages:
/// - it is idle exactly when there was no waiter;
/// - it visits the waiters in roster order; a waiter that stays was sent every
///   message, a waiter that is retired was sent fewer, because its channel closed;
/// - it visits all of them, unless a channel is full, which is fatal;
/// - the waiters that stay are those whose channel was not found closed, in their old
///   order.
pub open spec fn fanned_out<T>(
    before: Seq<WaitingFor<T>>,
    after: Seq<WaitingFor<T>>,
    report: MessageReport,
    messages: nat,
) -> bool {
    &&& report.idle == (before.len() == 0)
    &&& report.sent@.len() == report.closed@.len()
    &&& report.closed@.len() <= before.len()
    &&& forall|i: int|
        0 <= i < report.closed@.len() ==> (if #[trigger] report.closed@[i] {
            report.sent@[i] < messages
        } else {
            report.sent@[i] == messages
        })
    &&& report.failure is None ==> report.closed@.len() == before.len()
    &&& report.failure is Some ==> {
        &&& report.failure == Some(InvariantBroken::ChannelFull)
        &&& report.closed@.len() < before.len()
        &&& messages > 0
    }
    &&& after == survivors(before, report.closed@)
}

/// Polls the waiters of one message type. `messages` holds the messages that arrived
/// since the last poll, oldest first.
///
/// Every waiter gets a copy of every message, in order: a message waiter is not
/// retired by a delivery. It is retired, silently, when its channel is found closed;
/// the messages that are left are then not sent to it. A full channel stops the poll.
pub fn process_waiting_messages<T: Clone>(
    world: &mut World,
    waiters: &mut Waiters<T>,
    messages: &Vec<T>,
) -> (report: MessageReport)
    ensures
        fanned_out(old(waiters)@, final(waiters)@, report, messages@.len()),
{
    let mut visited: Vec<WaitingFor<T>> = Vec::new();
    core::mem::swap(&mut waiters.0, &mut visited);
    let ghost all = visited@;
    let idle = visited.len() == 0;
    let mut sent: Vec<usize> = Vec::new();
    let mut closed: Vec<bool> = Vec::new();
    let mut failure: Option<InvariantBroken> = None;
    proof {
        assert(all.take(0) == Seq::<WaitingFor<T>>::empty());
    }
    for waiter in iter: visited
        invariant
            iter.seq() == all,
            sent@.len() == closed@.len(),
            closed@.len() <= iter.index(),
            failure is None ==> closed@.len() == iter.index(),
            failure is Some ==> {
                &&& failure == Some(InvariantBroken::ChannelFull)
                &&& closed@.len() < iter.index()
                &&& messages@.len() > 0
            },
            forall|i: int|
                0 <= i < closed@.len() ==> (if #[trigger] closed@[i] {
                    sent@[i] < messages@.len()
                } else {
                    sent@[i] == messages@.len()
                }),
            waiters.0@ == survivors(all.take(closed@.len() as int), closed@) + all.subrange(
                closed@.len() as int,
                iter.index() as int,
            ),
    {
        let ghost index = iter.index() as int;
        let ghost marks = closed@;
        let ghost count = closed@.len() as int;
        if failure.is_some() {
            proof {
                assert(all.subrange(count, index).push(waiter) == all.subrange(count, index + 1));
            }
            waiters.0.push(waiter);
        } else {
            let mut delivered: usize = 0;
            let mut gone = false;
            while delivered < messages.len() && !gone && failure.is_none()
                invariant
                    delivered <= messages@.len(),
                    gone ==> delivered < messages@.len(),
                    failure is Some ==> failure == Some(InvariantBroken::ChannelFull)
                        && messages@.len() > 0 && !gone,
                decreases messages@.len() - delivered + (if gone || failure is Some { 0int } else { 1int }),
            {
                match try_send(&waiter.sender, messages[delivered].clone()).into_delivery() {
                    Ok(Delivery::Delivered) => {
                        delivered = delivered + 1;
                    },
                    Ok(Delivery::Abandoned) => {
                        gone = true;
                    },
                    Err(broken) => {
                        failure = Some(broken);
                    },
                }
            }
            proof {
                assert(all.subrange(index, index) == Seq::<WaitingFor<T>>::empty());
                assert(waiters.0@ == survivors(all.take(index), marks));
                assert(all.take(index + 1).drop_last() == all.take(index));
                assert(all.take(index + 1).last() == waiter);
            }
            if failure.is_some() {
                waiters.0.push(waiter);
                proof {
                    assert(all.subrange(index, index + 1) == seq![waiter]);
                }
            } else {
                sent.push(delivered);
                closed.push(gone);
                if gone {
                    let _ = despawn(world, waiter.marker);
                } else {
                    waiters.0.push(waiter);
                }
                proof {
                    lemma_survivors_agree(all.take(index), marks, closed@);
                    assert(all.subrange(index + 1, index + 1) == Seq::<WaitingFor<T>>::empty());
                }
            }
        }
    }
    proof {
        let count = closed@.len() as int;
        assert(all.subrange(count, all.len() as int) == all.skip(count));
        assert(all.take(count) + all.skip(count) == all);
        lemma_survivors_unvisited(all.take(count), all.skip(count), closed@);
    }
    MessageReport { idle, sent, closed, failure }
}

/// The request to start waiting: what is awaited, and the sending side of the channel
/// on which it is to be delivered.
#[verifier::reject_recursive_types(T)]
pub struct StartWaitingFor<T> {
    pub(crate) sender: Sender<T>,
    pub(crate) target: Option<Entity>,
    pub(crate) kind: WaitKind,
    pub(crate) type_key: u64,
}

/// The name of the marker entity of a waiter of the given kind.
pub open spec fn marker_label(kind: WaitKind) -> Seq<char> {
    match kind {
        WaitKind::Component => "WaitingFor(Component)"@,
        WaitKind::Resource => "WaitingFor(Resource)"@,
        WaitKind::Message => "WaitingFor(Messages)"@,
    }
}

/// The name of the marker entity of a waiter of the given kind.
pub fn marker_name(kind: WaitKind) -> (name: String)
    ensures
        name@ == marker_label(kind),
{
    match kind {
        WaitKind::Component => "WaitingFor(Component)".to_owned(),
        WaitKind::Resource => "WaitingFor(Resource)".to_owned(),
        WaitKind::Message => "WaitingFor(Messages)".to_owned(),
    }
}

impl<T> StartWaitingFor<T> {
    /// The kind of wait.
    pub closed spec fn kind(self) -> WaitKind {
        self.kind
    }

    /// The key of the awaited type.
    pub closed spec fn type_key(self) -> u64 {
        self.type_key
    }

    /// The entity whose component is awaited, if a component is awaited.
    pub closed spec fn target(self) -> Option<Entity> {
        self.target
    }

    /// The channel on which the value is to be delivered.
    pub closed spec fn channel(self) -> Sender<T> {
        self.sender
    }

    /// The entity whose component is awaited, if a component is awaited: what to look
    /// at for the poll that goes with the registration.
    pub fn awaited(&self) -> (target: Option<Entity>)
        ensures
            target == self.target(),
    {
        self.target
    }

    /// A wait whose value is to arrive on a channel that the requester made. For a
    /// component or a resource the channel must have room for the one value that will
    /// be sent.
    pub fn new(kind: WaitKind, target: Option<Entity>, type_key: u64, sender: Sender<T>) -> (request:
        Self)
        ensures
            request.kind() == kind,
            request.target() == target,
            request.type_key() == type_key,
            request.channel() == sender,
    {
        Self { sender, target, kind, type_key }
    }

    /// A wait for the component with the given type key on `target`, and the
    /// receiving side of its one-shot channel.
    pub fn component(target: Entity, type_key: u64) -> (request: (Self, Receiver<T>))
        ensures
            request.0.kind() == WaitKind::Component,
            request.0.target() == Some(target),
            request.0.type_key() == type_key,
    {
        let (sender, receiver) = bounded(1);
        (Self { sender, target: Some(target), kind: WaitKind::Component, type_key }, receiver)
    }

    /// A wait for the resource with the given type key, and the receiving side of its
    /// one-shot channel.
    pub fn resource(type_key: u64) -> (request: (Self, Receiver<T>))
        ensures
            request.0.kind() == WaitKind::Resource,
            request.0.target() == None::<Entity>,
            request.0.type_key() == type_key,
    {
        let (sender, receiver) = bounded(1);
        (Self { sender, target: None, kind: WaitKind::Resource, type_key }, receiver)
    }

    /// A wait for the messages with the given type key, and the receiving side of
    /// its unbounded channel.
    pub fn messages(type_key: u64) -> (request: (Self, Receiver<T>))
        ensures
            request.0.kind() == WaitKind::Message,
            request.0.target() == None::<Entity>,
            request.0.type_key() == type_key,
    {
        let (sender, receiver) = unbounded();
        (Self { sender, target: None, kind: WaitKind::Message, type_key }, receiver)
    }

    /// The polling system that serves this wait: the one that the cache holds for
    /// its kind and type, or a new one, made by `register` and remembered.
    pub fn ensure<F: FnOnce(&mut World) -> u64>(
        &self,
        cache: &mut WaiterCache,
        world: &mut World,
        register: F,
    ) -> (system: u64)
        requires
            forall|host: &mut World| register.requires((host,)),
        ensures
            final(cache)@ == old(cache)@.insert(
                WaiterCache::key(self.kind(), self.type_key()),
                system,
            ),
            old(cache)@.contains_key(WaiterCache::key(self.kind(), self.type_key())) ==> system
                == old(cache)@[WaiterCache::key(self.kind(), self.type_key())] && final(cache)@
                == old(cache)@,
            !old(cache)@.contains_key(WaiterCache::key(self.kind(), self.type_key()))
                ==> exists|host: &mut World| #[trigger] register.ensures((host,), system),
    {
        cache.ensure(world, self.kind, self.type_key, register)
    }

    /// Spawns the marker entity of the waiter and puts the waiter at the end of the
    /// roster.
    pub fn spawn_waiter(self, world: &mut World, waiters: &mut Waiters<T>)
        ensures
            joined(old(waiters)@, final(waiters)@, self),
    {
        let marker = spawn_named(world, marker_name(self.kind));
        waiters.0.push(WaitingFor { marker, target: self.target, sender: self.sender });
        proof {
            assert(waiters.0@.drop_last() == old(waiters).0@);
        }
    }

    /// The registration itself: makes sure that a polling system serves the kind and
    /// type of the wait, marks that system as active, and adds the waiter to the
    /// roster.
    fn enroll<F: FnOnce(&mut World) -> u64>(
        self,
        world: &mut World,
        cache: &mut WaiterCache,
        active: &mut ActiveWaiters,
        waiters: &mut Waiters<T>,
        register: F,
    ) -> (system: u64)
        requires
            forall|host: &mut World| register.requires((host,)),
        ensures
            enrolled(
                old(cache)@,
                final(cache)@,
                old(active)@,
                final(active)@,
                self.kind(),
                self.type_key(),
                system,
            ),
            !old(cache)@.contains_key(WaiterCache::key(self.kind(), self.type_key()))
                ==> exists|host: &mut World| #[trigger] register.ensures((host,), system),
            joined(old(waiters)@, final(waiters)@, self),
    {
        let ghost key = WaiterCache::key(self.kind, self.type_key);
        let system = self.ensure(cache, world, register);
        let _ = active.activate(system);
        self.spawn_waiter(world, waiters);
        proof {
            assert(cache@[key] == system);
            if registered(old(cache)@, old(active)@) {
                assert forall|other: u64| active@.contains(other) implies exists|k: (u8, u64)|
                    cache@.contains_key(k) && #[trigger] cache@[k] == other by {
                    if other == system {
                        assert(cache@.contains_key(key) && cache@[key] == other);
                    } else {
                        let k = choose|k: (u8, u64)|
                            old(cache)@.contains_key(k) && #[trigger] old(cache)@[k] == other;
                        assert(cache@.contains_key(k) && cache@[k] == other);
                    }
                }
            }
        }
        system
    }

    /// Starts a wait for a component, or for any value that is awaited once: registers
    /// the wait and polls at once, before it returns.
    ///
    /// The registration makes sure that a polling system serves the kind and type of
    /// the wait, marks that system as active, and adds the waiter at the end of the
    /// roster. The poll is that of [`process_waiting_components`] over the roster with
    /// the new waiter: `found` holds what each waiter of the old roster waits for, as
    /// it is now, and, last, what the new waiter waits for.
    ///
    /// So a wait that is issued while its value is there is served by this call: the
    /// value is sent and the new waiter is not carried into the next frame.
    pub fn apply<F: FnOnce(&mut World) -> u64>(
        self,
        world: &mut World,
        cache: &mut WaiterCache,
        active: &mut ActiveWaiters,
        waiters: &mut Waiters<T>,
        register: F,
        found: Vec<Option<T>>,
    ) -> (done: (u64, PollReport))
        requires
            forall|host: &mut World| register.requires((host,)),
        ensures
            enrolled(
                old(cache)@,
                final(cache)@,
                old(active)@,
                final(active)@,
                self.kind(),
                self.type_key(),
                done.0,
            ),
            !old(cache)@.contains_key(WaiterCache::key(self.kind(), self.type_key()))
                ==> exists|host: &mut World| #[trigger] register.ensures((host,), done.0),
            exists|registered: Seq<WaitingFor<T>>| #[trigger]
                joined(old(waiters)@, registered, self) && polled(
                    registered,
                    final(waiters)@,
                    done.1,
                    |i: int| observed(found@, i) is Some,
                ),
            served_at_once(
                old(waiters)@,
                final(waiters)@,
                done.1,
                observed(found@, old(waiters)@.len() as int) is Some,
            ),
    {
        let ghost before = waiters@;
        let system = self.enroll(world, cache, active, waiters, register);
        let ghost registered = waiters@;
        let report = process_waiting_components(world, waiters, found);
        proof {
            if !old(cache)@.contains_key(WaiterCache::key(self.kind(), self.type_key())) {
                assert(exists|host: &mut World| #[trigger] register.ensures((host,), system));
            }
            let ready = |i: int| observed(found@, i) is Some;
            assert(joined(before, registered, self));
            if ready(before.len() as int) && report.failure is None {
                lemma_immediate_match(before, registered, waiters@, report, ready);
            }
        }
        (system, report)
    }
}

impl<T: Clone> StartWaitingFor<T> {
    /// Starts a wait for a resource: registers the wait and polls at once, before it
    /// returns. The poll is that of [`process_waiting_resources`] over the roster with
    /// the new waiter; `resource` is the resource as it is now, if the world holds it.
    ///
    /// So a wait that is issued while the resource is there is served by this call.
    pub fn apply_resource<F: FnOnce(&mut World) -> u64>(
        self,
        world: &mut World,
        cache: &mut WaiterCache,
        active: &mut ActiveWaiters,
        waiters: &mut Waiters<T>,
        register: F,
        resource: Option<&T>,
    ) -> (done: (u64, PollReport))
        requires
            forall|host: &mut World| register.requires((host,)),
        ensures
            enrolled(
                old(cache)@,
                final(cache)@,
                old(active)@,
                final(active)@,
                self.kind(),
                self.type_key(),
                done.0,
            ),
            !old(cache)@.contains_key(WaiterCache::key(self.kind(), self.type_key()))
                ==> exists|host: &mut World| #[trigger] register.ensures((host,), done.0),
            exists|registered: Seq<WaitingFor<T>>| #[trigger]
                joined(old(waiters)@, registered, self) && polled(
                    registered,
                    final(waiters)@,
                    done.1,
                    |i: int| resource is Some,
                ),
            served_at_once(old(waiters)@, final(waiters)@, done.1, resource is Some),
    {
        let ghost before = waiters@;
        let system = self.enroll(world, cache, active, waiters, register);
        let ghost registered = waiters@;
        let report = process_waiting_resources(world, waiters, resource);
        proof {
            if !old(cache)@.contains_key(WaiterCache::key(self.kind(), self.type_key())) {
                assert(exists|host: &mut World| #[trigger] register.ensures((host,), system));
            }
            let ready = |i: int| resource is Some;
            assert(joined(before, registered, self));
            if ready(before.len() as int) && report.failure is None {
                lemma_immediate_match(before, registered, waiters@, report, ready);
            }
        }
        (system, report)
    }

    /// Starts a wait for messages: registers the wait and polls at once, before it
    /// returns. The poll is that of [`process_waiting_messages`] over the roster with
    /// the new waiter; `messages` holds the messages that arrived since the last
    /// poll, oldest first. A message waiter stays on the roster after a delivery.
    pub fn apply_messages<F: FnOnce(&mut World) -> u64>(
        self,
        world: &mut World,
        cache: &mut WaiterCache,
        active: &mut ActiveWaiters,
        waiters: &mut Waiters<T>,
        register: F,
        messages: &Vec<T>,
    ) -> (done: (u64, MessageReport))
        requires
            forall|host: &mut World| register.requires((host,)),
        ensures
            enrolled(
                old(cache)@,
                final(cache)@,
                old(active)@,
                final(active)@,
                self.kind(),
                self.type_key(),
                done.0,
            ),
            !old(cache)@.contains_key(WaiterCache::key(self.kind(), self.type_key()))
                ==> exists|host: &mut World| #[trigger] register.ensures((host,), done.0),
            exists|registered: Seq<WaitingFor<T>>| #[trigger]
                joined(old(waiters)@, registered, self) && fanned_out(
                    registered,
                    final(waiters)@,
                    done.1,
                    messages@.len(),
                ),
    {
        let ghost before = waiters@;
        let system = self.enroll(world, cache, active, waiters, register);
        let ghost registered = waiters@;
        let report = process_waiting_messages(world, waiters, messages);
        proof {
            assert(joined(before, registered, self));
            if !old(cache)@.contains_key(WaiterCache::key(self.kind(), self.type_key())) {
                assert(exists|host: &mut World| #[trigger] register.ensures((host,), system));
            }
        }
        (system, report)
    }
}

/// The roster `registered` is the roster `before` with the waiter of `request` added
/// at its end.
pub open spec fn joined<T>(
    before: Seq<WaitingFor<T>>,
    registered: Seq<WaitingFor<T>>,
    request: StartWaitingFor<T>,
) -> bool {
    &&& registered.len() == before.len() + 1
    &&& registered.drop_last() == before
    &&& registered.last().target() == request.target()
    &&& registered.last().channel() == request.channel()
}

/// The immediate-match fast path of a registration with a poll that ran to its end:
/// where what the new waiter waits for was there, the poll attempted the delivery
/// to it, the last of its attempts, and retired it, so that what is left of the roster
/// is what is left of the old one.
pub open spec fn served_at_once<T>(
    before: Seq<WaitingFor<T>>,
    after: Seq<WaitingFor<T>>,
    report: PollReport,
    ready: bool,
) -> bool {
    ready && report.failure is None ==> {
        &&& report.attempts@.len() == before.len() + 1
        &&& !(report.attempts@[before.len() as int] is NotReady)
        &&& after == survivors(before, retirements(report.attempts@))
        &&& after.len() <= before.len()
    }
}

/// The request to stop polling for one kind of wait on one type: issued by a poll
/// that found no waiter, and applied after the poll.
#[derive(Clone, Copy, Debug, PartialEq, Eq, Structural)]
pub struct StopWaitingFor {
    pub kind: WaitKind,
    pub type_key: u64,
}

impl StopWaitingFor {
    /// Marks the polling system of the kind and type as idle. The system stays in the
    /// cache, for the next wait. Where no polling system was ever registered for the
    /// kind and type, nothing changes.
    pub fn apply(self, cache: &WaiterCache, active: &mut ActiveWaiters)
        ensures
            final(active)@ == (if cache@.contains_key(WaiterCache::key(self.kind, self.type_key)) {
                old(active)@.remove(cache@[WaiterCache::key(self.kind, self.type_key)])
            } else {
                old(active)@
            }),
            wait_state(cache@, final(active)@, self.kind, self.type_key) == (if wait_state(
                cache@,
                old(active)@,
                self.kind,
                self.type_key,
            ) is Uninitialized {
                WaitState::Uninitialized
            } else {
                WaitState::Idle
            }),
            registered(cache@, old(active)@) ==> registered(cache@, final(active)@),
    {
        match cache.get(self.kind, self.type_key) {
            Some(system) => {
                let _ = active.deactivate(system);
            },
            None => {},
        }
    }
}

/// At most one delivery. In a poll that ran to its end, a waiter whose value is not
/// there is sent nothing and keeps its place among those that stay, however often it
/// is polled; a waiter whose value is there gets exactly one attempt and is retired
/// in that same poll, so that no later poll can reach it. A poll in which nothing is
/// ready changes nothing.
pub proof fn lemma_at_most_one_delivery<T>(
    before: Seq<WaitingFor<T>>,
    after: Seq<WaitingFor<T>>,
    report: PollReport,
    ready: spec_fn(int) -> bool,
)
    requires
        polled(before, after, report, ready),
        report.failure is None,
    ensures
        report.attempts@.len() == before.len(),
        after.len() + retired_count(before, retirements(report.attempts@)) == before.len(),
        forall|i: int|
            0 <= i < before.len() && !ready(i) ==> {
                &&& (#[trigger] report.attempts@[i]) is NotReady
                &&& 0 <= survivor_index(retirements(report.attempts@), i) < after.len()
                &&& after[survivor_index(retirements(report.attempts@), i)] == before[i]
            },
        forall|i: int|
            0 <= i < before.len() && ready(i) ==> {
                &&& !((#[trigger] report.attempts@[i]) is NotReady)
                &&& is_retired(retirements(report.attempts@), i)
            },
        (forall|i: int| 0 <= i < before.len() ==> !(#[trigger] ready(i))) ==> after == before,
{
    let marks = retirements(report.attempts@);
    lemma_survivors_exact(before, marks);
    assert forall|i: int| 0 <= i < before.len() && !ready(i) implies {
        &&& (#[trigger] report.attempts@[i]) is NotReady
        &&& 0 <= survivor_index(marks, i) < after.len()
        &&& after[survivor_index(marks, i)] == before[i]
    } by {
        assert(!is_retired(marks, i));
        assert(survivors(before, marks)[survivor_index(marks, i)] == before[i]);
    }
    if forall|i: int| 0 <= i < before.len() ==> !(#[trigger] ready(i)) {
        assert forall|i: int| 0 <= i < before.len() implies !is_retired(marks, i) by {
            assert(!ready(i));
            assert(report.attempts@[i] is NotReady);
        }
        lemma_survivors_all(before, marks);
    }
}

/// The immediate-match fast path. When a wait is registered while its value is
/// there, the poll that goes with the registration attempts the delivery and retires
/// the new waiter: it is not carried into the next frame.
pub proof fn lemma_immediate_match<T>(
    before: Seq<WaitingFor<T>>,
    registered: Seq<WaitingFor<T>>,
    after: Seq<WaitingFor<T>>,
    report: PollReport,
    ready: spec_fn(int) -> bool,
)
    requires
        registered.len() == before.len() + 1,
        registered.drop_last() == before,
        polled(registered, after, report, ready),
        report.failure is None,
        ready(before.len() as int),
    ensures
        !(report.attempts@[before.len() as int] is NotReady),
        after == survivors(before, retirements(report.attempts@)),
        after.len() <= before.len(),
{
    let marks = retirements(report.attempts@);
    assert(is_retired(marks, before.len() as int));
    lemma_survivors_exact(before, marks);
}

} // verus!
