//! Operations, the queues that hold them, and the two phases that move them from the
//! channels into the world: drain, then apply.
use vstd::prelude::*;

use async_channel::Receiver;
use async_channel::Sender;
use bevy_ecs::entity::Entity;
use bevy_ecs::world::World;

use crate::channel::clone_sender;
use crate::channel::pending;
use crate::channel::same_channel;
use crate::channel::sender_count;
use crate::channel::try_recv;
use crate::channel::try_send;
use crate::channel::InvariantBroken;
use crate::channel::Received;
use crate::command::BoxedCommand;
use crate::entity::EntityOperation;
use crate::host::despawn;
use crate::host::flush;
use crate::retire::is_retired;
use crate::retire::lemma_survivors_agree;
use crate::retire::lemma_survivors_all;
use crate::retire::lemma_survivors_exact;
use crate::retire::retire;
use crate::retire::retired_count;
use crate::retire::survivor_index;
use crate::retire::survivors;
use crate::system::SystemOperation;

verus! {

/// An operation that can be applied to the world.
#[derive(Debug)]
pub enum AsyncOperation {
    /// Bevy commands in a box.
    Command(BoxedCommand),
    /// An operation on a registered system.
    System(SystemOperation),
    /// An operation on an entity.
    Entity(EntityOperation),
    /// A FIFO queue of operations, applied as one unit.
    Queue(OperationQueue),
}

/// A queue of operations that is applied to the world atomically and in FIFO order.
#[derive(Debug)]
pub struct OperationQueue(pub(crate) Vec<AsyncOperation>);

/// What a primitive operation does, without what it carries.
#[derive(Clone, Copy, Debug, PartialEq, Eq, Structural)]
pub enum OperationKind {
    /// Boxed commands were run.
    Command,
    /// A registered system was run.
    RunSystem,
    /// A registered system was removed.
    UnregisterSystem,
    /// An empty entity was spawned and its id delivered.
    SpawnEmpty,
    /// A named entity was spawned and its id delivered.
    SpawnNamed,
    /// An entity was despawned.
    Despawn,
}

/// What one apply phase did: the primitive operations that were applied, in the order
/// in which they were applied, and the invariant that stopped the phase, if one did.
#[derive(Debug)]
pub struct ApplyReport {
    pub applied: Vec<OperationKind>,
    pub failure: Option<InvariantBroken>,
}

impl View for OperationQueue {
    type V = Seq<AsyncOperation>;

    closed spec fn view(&self) -> Seq<AsyncOperation> {
        self.0@
    }
}

impl AsyncOperation {
    /// The primitive operations that applying `self` performs, in order. A queue
    /// contributes the schedules of its items, one after the other, nested queues
    /// included; every other operation is primitive and contributes itself.
    pub open spec fn schedule(self) -> Seq<AsyncOperation>
        decreases self,
    {
        match self {
            AsyncOperation::Queue(queue) => schedule_of(queue@),
            _ => seq![self],
        }
    }

    /// The kind of a primitive operation.
    pub open spec fn kind(self) -> OperationKind
        recommends
            !(self is Queue),
    {
        match self {
            AsyncOperation::Command(_) => OperationKind::Command,
            AsyncOperation::System(SystemOperation::Run(_)) => OperationKind::RunSystem,
            AsyncOperation::System(SystemOperation::Unregister(_)) => OperationKind::UnregisterSystem,
            AsyncOperation::Entity(EntityOperation::SpawnEmpty(_)) => OperationKind::SpawnEmpty,
            AsyncOperation::Entity(EntityOperation::SpawnNamed(_, _)) => OperationKind::SpawnNamed,
            AsyncOperation::Entity(EntityOperation::Despawn(_)) => OperationKind::Despawn,
            AsyncOperation::Queue(_) => OperationKind::Command,
        }
    }

    /// Whether applying a primitive operation can break the given invariant: an
    /// operation with a result to deliver fails when its result channel is full or
    /// closed, an operation that runs a system fails when the system is not
    /// registered, and no other operation fails.
    pub open spec fn can_break(self, broken: InvariantBroken) -> bool {
        match self {
            AsyncOperation::Entity(operation) => operation.delivers() && (broken is ChannelFull
                || broken is ChannelClosed),
            AsyncOperation::System(operation) => operation is Run && broken is SystemDidNotRun,
            _ => false,
        }
    }
}

/// The primitive operations that applying `operations` from first to last performs.
pub open spec fn schedule_of(operations: Seq<AsyncOperation>) -> Seq<AsyncOperation>
    decreases operations,
{
    if operations.len() == 0 {
        Seq::empty()
    } else {
        schedule_of(operations.drop_last()) + operations.last().schedule()
    }
}

/// The kinds of the operations of a schedule, position by position.
pub open spec fn kinds(schedule: Seq<AsyncOperation>) -> Seq<OperationKind> {
    schedule.map_values(|operation: AsyncOperation| operation.kind())
}

/// Relates a log of applied kinds to the schedule that was being applied: the log grew
/// by the kinds of a prefix of the schedule, in schedule order; without a failure the
/// prefix is the whole schedule; with one, the first operation that was not applied is
/// one that can break the invariant that is reported.
pub open spec fn applied_prefix(
    before: Seq<OperationKind>,
    after: Seq<OperationKind>,
    schedule: Seq<AsyncOperation>,
    failure: Option<InvariantBroken>,
) -> bool {
    let count = after.len() - before.len();
    &&& 0 <= count <= schedule.len()
    &&& after == before + kinds(schedule.take(count))
    &&& failure is None ==> count == schedule.len()
    &&& failure matches Some(broken) ==> count < schedule.len() && schedule[count].can_break(
        broken,
    )
}

impl ApplyReport {
    /// The report is that of applying `schedule` from its start.
    pub open spec fn follows(self, schedule: Seq<AsyncOperation>) -> bool {
        applied_prefix(Seq::empty(), self.applied@, schedule, self.failure)
    }
}

/// The schedule of a concatenation is the concatenation of the schedules.
pub proof fn lemma_schedule_of_concat(first: Seq<AsyncOperation>, second: Seq<AsyncOperation>)
    ensures
        schedule_of(first + second) == schedule_of(first) + schedule_of(second),
    decreases second.len(),
{
    if second.len() == 0 {
        assert(first + second == first);
    } else {
        lemma_schedule_of_concat(first, second.drop_last());
        assert((first + second).drop_last() == first + second.drop_last());
        assert((first + second).last() == second.last());
    }
}

/// Two stretches of applied operations, one after the other, read as one stretch over
/// the joined schedule.
proof fn lemma_applied_prefix_chain(
    start: Seq<OperationKind>,
    middle: Seq<OperationKind>,
    end: Seq<OperationKind>,
    done: Seq<AsyncOperation>,
    next: Seq<AsyncOperation>,
    rest: Seq<AsyncOperation>,
    failure: Option<InvariantBroken>,
)
    requires
        applied_prefix(start, middle, done, None),
        applied_prefix(middle, end, next, failure),
        failure is None ==> rest.len() == 0,
    ensures
        applied_prefix(start, end, done + next + rest, failure),
{
    let count = end.len() - middle.len();
    let whole = done + next + rest;
    assert(done.take(done.len() as int) == done);
    assert(middle == start + kinds(done));
    assert(end == middle + kinds(next.take(count)));
    assert(whole.take(done.len() + count) == done + next.take(count));
    assert(kinds(done + next.take(count)) == kinds(done) + kinds(next.take(count)));
    assert(end == start + kinds(whole.take(done.len() + count)));
    assert(end.len() - start.len() == done.len() + count);
    if failure is Some {
        assert(whole[done.len() + count] == next[count]);
    }
}

impl AsyncOperation {
    /// Applies the operation to the world and appends the kind of each primitive
    /// operation that went through to `log`. Stops at the first broken invariant.
    fn apply_into(self, world: &mut World, log: &mut Vec<OperationKind>) -> (failure: Option<
        InvariantBroken,
    >)
        ensures
            applied_prefix(old(log)@, final(log)@, self.schedule(), failure),
        decreases self,
    {
        proof {
            assert(seq![self].take(1) == seq![self]);
            assert(seq![self].take(0) == Seq::<AsyncOperation>::empty());
            assert(kinds(seq![self]) == seq![self.kind()]);
            assert(kinds(Seq::<AsyncOperation>::empty()) == Seq::<OperationKind>::empty());
            assert(old(log)@ + Seq::<OperationKind>::empty() == old(log)@);
            assert(old(log)@ + seq![self.kind()] == old(log)@.push(self.kind()));
        }
        match self {
            AsyncOperation::Command(command) => {
                command.apply(world);
                log.push(OperationKind::Command);
                None
            },
            AsyncOperation::System(operation) => {
                let kind = match operation {
                    SystemOperation::Run(_) => OperationKind::RunSystem,
                    SystemOperation::Unregister(_) => OperationKind::UnregisterSystem,
                };
                match operation.apply(world) {
                    Ok(()) => {
                        log.push(kind);
                        None
                    },
                    Err(broken) => Some(broken),
                }
            },
            AsyncOperation::Entity(operation) => {
                let kind = match operation {
                    EntityOperation::SpawnEmpty(_) => OperationKind::SpawnEmpty,
                    EntityOperation::SpawnNamed(_, _) => OperationKind::SpawnNamed,
                    EntityOperation::Despawn(_) => OperationKind::Despawn,
                };
                match operation.apply(world) {
                    Ok(()) => {
                        log.push(kind);
                        None
                    },
                    Err(broken) => Some(broken),
                }
            },
            AsyncOperation::Queue(queue) => {
                let operations = queue.0;
                let ghost all = operations@;
                for operation in iter: operations
                    invariant
                        iter.seq() == all,
                        self.schedule() == schedule_of(all),
                        forall|i: int| 0 <= i < all.len() ==> decreases_to!(self => #[trigger] all[i]),
                        applied_prefix(
                            old(log)@,
                            log@,
                            schedule_of(all.take(iter.index() as int)),
                            None,
                        ),
                {
                    let ghost index = iter.index() as int;
                    let ghost middle = log@;
                    let failure = operation.apply_into(world, log);
                    proof {
                        assert(all.take(index + 1).drop_last() == all.take(index));
                        assert(all == all.take(index + 1) + all.skip(index + 1));
                        lemma_schedule_of_concat(all.take(index + 1), all.skip(index + 1));
                        let rest = if failure is Some {
                            schedule_of(all.skip(index + 1))
                        } else {
                            Seq::empty()
                        };
                        lemma_applied_prefix_chain(
                            old(log)@,
                            middle,
                            log@,
                            schedule_of(all.take(index)),
                            operation.schedule(),
                            rest,
                            failure,
                        );
                        assert(schedule_of(all.take(index + 1)) + Seq::<AsyncOperation>::empty()
                            == schedule_of(all.take(index + 1)));
                    }
                    if failure.is_some() {
                        return failure;
                    }
                }
                proof {
                    assert(all.take(all.len() as int) == all);
                }
                None
            },
        }
    }

    /// Applies the operation to the world: its primitive operations one by one, in
    /// schedule order, until all are applied or one breaks an invariant.
    pub fn apply(self, world: &mut World) -> (report: ApplyReport)
        ensures
            report.follows(self.schedule()),
    {
        let mut applied: Vec<OperationKind> = Vec::new();
        let failure = self.apply_into(world, &mut applied);
        ApplyReport { applied, failure }
    }
}

impl From<BoxedCommand> for AsyncOperation {
    fn from(command: BoxedCommand) -> (operation: Self)
    {
        AsyncOperation::Command(command)
    }
}

impl vstd::std_specs::convert::FromSpecImpl<BoxedCommand> for AsyncOperation {
    open spec fn obeys_from_spec() -> bool {
        true
    }

    open spec fn from_spec(command: BoxedCommand) -> Self {
        AsyncOperation::Command(command)
    }
}

impl From<SystemOperation> for AsyncOperation {
    fn from(system: SystemOperation) -> (operation: Self)
    {
        AsyncOperation::System(system)
    }
}

impl vstd::std_specs::convert::FromSpecImpl<SystemOperation> for AsyncOperation {
    open spec fn obeys_from_spec() -> bool {
        true
    }

    open spec fn from_spec(system: SystemOperation) -> Self {
        AsyncOperation::System(system)
    }
}

impl From<EntityOperation> for AsyncOperation {
    fn from(entity: EntityOperation) -> (operation: Self)
    {
        AsyncOperation::Entity(entity)
    }
}

impl vstd::std_specs::convert::FromSpecImpl<EntityOperation> for AsyncOperation {
    open spec fn obeys_from_spec() -> bool {
        true
    }

    open spec fn from_spec(entity: EntityOperation) -> Self {
        AsyncOperation::Entity(entity)
    }
}

impl From<OperationQueue> for AsyncOperation {
    fn from(queue: OperationQueue) -> (operation: Self)
    {
        AsyncOperation::Queue(queue)
    }
}

impl vstd::std_specs::convert::FromSpecImpl<OperationQueue> for AsyncOperation {
    open spec fn obeys_from_spec() -> bool {
        true
    }

    open spec fn from_spec(queue: OperationQueue) -> Self {
        AsyncOperation::Queue(queue)
    }
}

impl OperationQueue {
    /// Constructs a new, empty queue.
    pub fn new() -> (queue: Self)
        ensures
            queue@ == Seq::<AsyncOperation>::empty(),
    {
        Self(Vec::with_capacity(4))
    }

    /// Constructs a queue that holds the given operations, first to last.
    pub fn from_vec(operations: Vec<AsyncOperation>) -> (queue: Self)
        ensures
            queue@ == operations@,
    {
        Self(operations)
    }

    /// Appends an operation to the queue.
    pub fn push(&mut self, operation: AsyncOperation)
        ensures
            final(self)@ == old(self)@.push(operation),
    {
        self.0.push(operation);
    }

    /// The number of operations in the queue; a nested queue counts as one.
    pub fn len(&self) -> (length: usize)
        ensures
            length == self@.len(),
    {
        self.0.len()
    }

    /// Applies the operations of the queue to the world, first to last.
    pub fn apply(self, world: &mut World) -> (report: ApplyReport)
        ensures
            report.follows(schedule_of(self@)),
    {
        AsyncOperation::Queue(self).apply(world)
    }
}

impl Default for OperationQueue {
    fn default() -> (queue: Self)
        ensures
            queue@ == Seq::<AsyncOperation>::empty(),
    {
        Self::new()
    }
}

/// One step of a drain: what to do with what the channel answered.
#[derive(Clone, Copy, Debug, PartialEq, Eq, Structural)]
pub enum DrainStep {
    /// An operation was buffered; the channel may hold more.
    Continue,
    /// Nothing is pending; the channel stays.
    Empty,
    /// Nothing is pending and nothing will come; the channel pair is to be retired.
    Closed,
}

/// The per-frame buffer of the world: the operations that the drain phase pulled from
/// the channels, in arrival order, until the apply phase empties it.
pub struct WorldOperationQueue(pub(crate) Vec<AsyncOperation>);

impl View for WorldOperationQueue {
    type V = Seq<AsyncOperation>;

    closed spec fn view(&self) -> Seq<AsyncOperation> {
        self.0@
    }
}

impl Default for WorldOperationQueue {
    fn default() -> (queue: Self)
        ensures
            queue@ == Seq::<AsyncOperation>::empty(),
    {
        Self(Vec::with_capacity(16))
    }
}

impl WorldOperationQueue {
    /// The number of buffered operations.
    pub fn len(&self) -> (length: usize)
        ensures
            length == self@.len(),
    {
        self.0.len()
    }

    /// Takes one answer of a channel into the buffer: an operation goes to the end of
    /// the buffer, anything else leaves the buffer as it is and ends the drain of that
    /// channel.
    pub fn absorb(&mut self, received: Received<AsyncOperation>) -> (step: DrainStep)
        ensures
            (final(self)@, step) == absorbed(old(self)@, received),
            match received {
                Received::Value(operation) => step == DrainStep::Continue && final(self)@ == old(
                    self,
                )@.push(operation),
                Received::Empty => step == DrainStep::Empty && final(self)@ == old(self)@,
                Received::Closed => step == DrainStep::Closed && final(self)@ == old(self)@,
            },
    {
        match received {
            Received::Value(operation) => {
                self.0.push(operation);
                DrainStep::Continue
            },
            Received::Empty => DrainStep::Empty,
            Received::Closed => DrainStep::Closed,
        }
    }
}

/// What taking one answer of a channel into the buffer comes to: the buffer
/// afterwards, and the step that the answer stands for.
pub open spec fn absorbed(buffer: Seq<AsyncOperation>, received: Received<AsyncOperation>) -> (
    Seq<AsyncOperation>,
    DrainStep,
) {
    match received {
        Received::Value(operation) => (buffer.push(operation), DrainStep::Continue),
        Received::Empty => (buffer, DrainStep::Empty),
        Received::Closed => (buffer, DrainStep::Closed),
    }
}

/// How the drain of one channel ends after a step, if it ends there: with `Err` when
/// the channel is closed, with `Ok` when the channel is empty, and with `Ok` too when
/// an operation was pulled and the budget of the drain is used up.
pub open spec fn ended(step: DrainStep, budget: int) -> Option<Result<(), ()>> {
    match step {
        DrainStep::Closed => Some(Err(())),
        DrainStep::Empty => Some(Ok(())),
        DrainStep::Continue => if budget == 0 {
            Some(Ok(()))
        } else {
            None
        },
    }
}

/// What the drain of one channel comes to, given what the channel answers to one
/// receive after the other: the buffer, the budget that is left, and the result of the
/// drain once it has ended. The drain starts with a budget, takes every answer into
/// the buffer, and uses up one of its budget for every operation that it pulls.
/// Answers behind the one that ends the drain are never asked for.
pub open spec fn drained(
    buffer: Seq<AsyncOperation>,
    budget: int,
    answers: Seq<Received<AsyncOperation>>,
) -> (Seq<AsyncOperation>, int, Option<Result<(), ()>>)
    decreases answers.len(),
{
    if answers.len() == 0 {
        (buffer, budget, None)
    } else {
        let before = drained(buffer, budget, answers.drop_last());
        if before.2 is Some {
            before
        } else {
            let taken = absorbed(before.0, answers.last());
            let left = if taken.1 is Continue && before.1 > 0 {
                before.1 - 1
            } else {
                before.1
            };
            (taken.0, left, ended(taken.1, before.1))
        }
    }
}

/// The drain of one channel went as `drained` says, for some budget and for what the
/// channel answered, and ended with `result`.
pub open spec fn drain_of(
    before: Seq<AsyncOperation>,
    after: Seq<AsyncOperation>,
    result: Result<(), ()>,
    budget: int,
    answers: Seq<Received<AsyncOperation>>,
) -> bool {
    &&& budget >= 0
    &&& drained(before, budget, answers).0 == after
    &&& drained(before, budget, answers).2 == Some(result)
}

/// What the drain phase comes to, given for each channel pair, in roster order, the
/// budget of its drain and what its channel answered: the buffer, for each pair
/// whether its drain ended with `Err`, and whether every drain has ended.
pub open spec fn drained_all(
    buffer: Seq<AsyncOperation>,
    drains: Seq<(int, Seq<Received<AsyncOperation>>)>,
) -> (Seq<AsyncOperation>, Seq<bool>, bool)
    decreases drains.len(),
{
    if drains.len() == 0 {
        (buffer, Seq::empty(), true)
    } else {
        let before = drained_all(buffer, drains.drop_last());
        let last = drained(before.0, drains.last().0, drains.last().1);
        (
            last.0,
            before.1.push(last.2 matches Some(end) && end is Err),
            before.2 && last.2 is Some && drains.last().0 >= 0,
        )
    }
}

/// What a channel answers that holds `pending`, oldest first, and is then found empty
/// or, if every sender is gone, closed.
pub open spec fn answers_of(pending: Seq<AsyncOperation>, closed: bool) -> Seq<
    Received<AsyncOperation>,
> {
    Seq::new(pending.len(), |i: int| Received::Value(pending[i])).push(
        if closed {
            Received::Closed
        } else {
            Received::Empty
        },
    )
}

/// While the budget lasts, a drain pulls every operation that the channel hands out,
/// puts it at the end of the buffer, and goes on.
proof fn lemma_drain_pulls(buffer: Seq<AsyncOperation>, pending: Seq<AsyncOperation>, budget: int)
    requires
        pending.len() <= budget,
    ensures
        drained(buffer, budget, Seq::new(pending.len(), |i: int| Received::Value(pending[i]))) == (
            buffer + pending,
            budget - pending.len(),
            None::<Result<(), ()>>,
        ),
    decreases pending.len(),
{
    let answers = Seq::new(pending.len(), |i: int| Received::Value(pending[i]));
    if pending.len() == 0 {
        assert(buffer + pending == buffer);
    } else {
        let fewer = pending.drop_last();
        lemma_drain_pulls(buffer, fewer, budget);
        assert(answers.drop_last() == Seq::new(fewer.len(), |i: int| Received::Value(fewer[i])));
        assert(answers.last() == Received::Value(pending.last()));
        assert((buffer + fewer).push(pending.last()) == buffer + pending);
    }
}

/// Nothing is lost in a drain, and it ends with `Err` exactly when the channel is
/// closed. A channel that holds `pending`, at most as many operations as the budget
/// allows, hands all of them to the buffer, behind what the buffer held and in the
/// order in which they were sent. If a sender is still alive, the channel is then
/// found empty and the drain ends with `Ok`; if every sender is gone, the channel is
/// found closed and the drain ends with `Err`, after the last operation is safe. A
/// channel without pending operations leaves the buffer as it is.
pub proof fn lemma_drain_loses_nothing(
    buffer: Seq<AsyncOperation>,
    pending: Seq<AsyncOperation>,
    budget: int,
    closed: bool,
)
    requires
        pending.len() <= budget,
    ensures
        drain_of(
            buffer,
            buffer + pending,
            if closed {
                Err::<(), ()>(())
            } else {
                Ok::<(), ()>(())
            },
            budget,
            answers_of(pending, closed),
        ),
        pending.len() == 0 ==> buffer + pending == buffer,
{
    lemma_drain_pulls(buffer, pending, budget);
    let answers = answers_of(pending, closed);
    assert(answers.drop_last() == Seq::new(pending.len(), |i: int| Received::Value(pending[i])));
    if pending.len() == 0 {
        assert(buffer + pending == buffer);
    }
}

/// A drain never ends with `Err` unless the channel answered that it is closed.
pub proof fn lemma_drain_err_means_closed(
    buffer: Seq<AsyncOperation>,
    budget: int,
    answers: Seq<Received<AsyncOperation>>,
)
    requires
        drained(buffer, budget, answers).2 matches Some(end) && end is Err,
    ensures
        exists|i: int| 0 <= i < answers.len() && #[trigger] answers[i] is Closed,
    decreases answers.len(),
{
    if answers.len() > 0 {
        let before = drained(buffer, budget, answers.drop_last());
        if before.2 is Some {
            lemma_drain_err_means_closed(buffer, budget, answers.drop_last());
            let i = choose|i: int|
                0 <= i < answers.drop_last().len() && #[trigger] answers.drop_last()[i] is Closed;
            assert(answers[i] is Closed);
        } else {
            assert(answers[answers.len() - 1] is Closed);
        }
    }
}

/// A quiet drain phase changes nothing. Where every channel of the roster is open and
/// has nothing pending, so that each answers `Empty` to the first receive, the buffer
/// stays as it is and no channel pair is retired: running the drain phase again
/// leaves the same state.
pub proof fn lemma_quiet_drain_changes_nothing(
    buffer: Seq<AsyncOperation>,
    roster: Seq<OperationReceiver>,
    drains: Seq<(int, Seq<Received<AsyncOperation>>)>,
)
    requires
        roster.len() == drains.len(),
        forall|i: int|
            0 <= i < drains.len() ==> (#[trigger] drains[i]).0 >= 0 && drains[i].1 == seq![
                Received::<AsyncOperation>::Empty,
            ],
    ensures
        drained_all(buffer, drains).0 == buffer,
        drained_all(buffer, drains).1.len() == drains.len(),
        forall|i: int| 0 <= i < drains.len() ==> !(#[trigger] drained_all(buffer, drains).1[i]),
        drained_all(buffer, drains).2,
        survivors(roster, drained_all(buffer, drains).1) == roster,
    decreases drains.len(),
{
    if drains.len() > 0 {
        lemma_quiet_drain_changes_nothing(buffer, roster.drop_last(), drains.drop_last());
        let quiet = seq![Received::<AsyncOperation>::Empty];
        let before = drained_all(buffer, drains.drop_last());
        let budget = drains.last().0;
        assert(drains.last().1 == quiet);
        assert(quiet.drop_last() == Seq::<Received<AsyncOperation>>::empty());
        assert(quiet.last() == Received::<AsyncOperation>::Empty);
        assert(drained(before.0, budget, quiet.drop_last()) == (
            before.0,
            budget,
            None::<Result<(), ()>>,
        ));
        assert(drained(before.0, budget, quiet) == (
            before.0,
            budget,
            Some(Ok::<(), ()>(())),
        ));
        assert forall|i: int| 0 <= i < drains.len() implies !(#[trigger] drained_all(
            buffer,
            drains,
        ).1[i]) by {
            if i < drains.len() - 1 {
                assert(drains.drop_last()[i] == drains[i]);
                assert(!drained_all(buffer, drains.drop_last()).1[i]);
            }
        }
    }
    lemma_survivors_all(roster, drained_all(buffer, drains).1);
}

/// `longer` is `shorter` with operations added at its end.
pub open spec fn extends(longer: Seq<AsyncOperation>, shorter: Seq<AsyncOperation>) -> bool {
    shorter.len() <= longer.len() && longer.take(shorter.len() as int) == shorter
}

/// Use this to send operations to the world, where they are applied during the next
/// apply phase.
#[derive(Debug)]
pub struct OperationSender(pub(crate) Sender<AsyncOperation>);

impl OperationSender {
    /// The sending side of the channel.
    pub closed spec fn channel(self) -> Sender<AsyncOperation> {
        self.0
    }

    /// Wraps the sending side of a channel of operations.
    pub fn from_sender(sender: Sender<AsyncOperation>) -> (wrapped: Self)
        ensures
            wrapped.channel() == sender,
    {
        Self(sender)
    }

    /// Hands an operation to the channel without blocking. When the channel refuses
    /// it, because the receiving side is gone or a bounded channel is full, the
    /// operation comes back untouched.
    pub fn send(&self, operation: AsyncOperation) -> (result: Result<(), AsyncOperation>)
        ensures
            result matches Err(refused) ==> refused == operation,
    {
        try_send(&self.0, operation).into_refusal()
    }

    /// Another sender on the same channel.
    pub fn duplicate(&self) -> (copy: Self)
        ensures
            copy == *self,
    {
        Self(clone_sender(&self.0))
    }

    /// The number of live senders of the channel.
    pub fn sender_count(&self) -> (count: usize)
    {
        sender_count(&self.0)
    }

    /// Whether the two senders feed one channel, and so one world.
    pub fn same_channel(&self, other: &OperationSender) -> (same: bool)
        ensures
            same == (*self == *other),
    {
        same_channel(&self.0, &other.0)
    }
}

impl Clone for OperationSender {
    fn clone(&self) -> (copy: Self)
        ensures
            copy == *self,
    {
        self.duplicate()
    }
}

/// The receiving side of a channel pair, together with the marker entity that stands
/// for it in the world.
pub struct OperationReceiver {
    pub(crate) marker: Entity,
    pub(crate) receiver: Receiver<AsyncOperation>,
}

impl OperationReceiver {
    /// Binds the receiving side of a channel to its marker entity.
    pub fn new(marker: Entity, receiver: Receiver<AsyncOperation>) -> (bound: Self)
        ensures
            bound.marker() == marker,
            bound.channel() == receiver,
    {
        Self { marker, receiver }
    }

    /// The receiving side of the channel.
    pub closed spec fn channel(self) -> Receiver<AsyncOperation> {
        self.receiver
    }

    /// The marker entity of the channel pair.
    pub closed spec fn marker(self) -> Entity {
        self.marker
    }

    /// The marker entity of the channel pair.
    pub fn marker_entity(&self) -> (marker: Entity)
        ensures
            marker == self.marker(),
    {
        self.marker
    }

    /// Pulls the operations that are pending on the channel into the buffer, without
    /// blocking: as many as were pending when the drain began, and at most one that
    /// arrived meanwhile. `Err` when the channel answered that it is closed, `Ok`
    /// when it answered that it is empty or when the budget is used up. The buffer
    /// only grows, at its end: each operation that the channel hands out goes there,
    /// in the order in which it is handed out.
    pub fn enqueue_into(&self, queue: &mut WorldOperationQueue) -> (result: Result<(), ()>)
        ensures
            extends(final(queue)@, old(queue)@),
            exists|budget: int, answers: Seq<Received<AsyncOperation>>| #[trigger]
                drain_of(old(queue)@, final(queue)@, result, budget, answers),
    {
        let mut budget: usize = pending(&self.receiver);
        let ghost start = budget as int;
        let ghost answers = Seq::<Received<AsyncOperation>>::empty();
        proof {
            assert(queue@.take(queue@.len() as int) == queue@);
        }
        loop
            invariant
                extends(queue@, old(queue)@),
                start >= 0,
                drained(old(queue)@, start, answers) == (
                    queue@,
                    budget as int,
                    None::<Result<(), ()>>,
                ),
            decreases budget,
        {
            let ghost before = queue@;
            let ghost asked = answers;
            let received = try_recv(&self.receiver);
            proof {
                answers = answers.push(received);
                assert(answers.drop_last() == asked);
            }
            let step = queue.absorb(received);
            proof {
                if step == DrainStep::Continue {
                    assert(queue@.take(old(queue)@.len() as int) == before.take(
                        old(queue)@.len() as int,
                    ));
                }
            }
            match Self::after_step(step, budget) {
                Some(result) => {
                    proof {
                        assert(drain_of(old(queue)@, queue@, result, start, answers));
                    }
                    return result;
                },
                None => {
                    budget = budget - 1;
                },
            }
        }
    }

    /// Decides after each step of a drain whether the drain ends there, and how: a
    /// closed channel ends it with `Err`, an empty channel with `Ok`, and an operation
    /// that was pulled ends it with `Ok` when the budget is used up, and not at all
    /// otherwise.
    pub fn after_step(step: DrainStep, budget: usize) -> (next: Option<Result<(), ()>>)
        ensures
            next == ended(step, budget as int),
            next is None ==> budget > 0,
    {
        match step {
            DrainStep::Closed => Some(Err(())),
            DrainStep::Empty => Some(Ok(())),
            DrainStep::Continue => {
                if budget == 0 {
                    Some(Ok(()))
                } else {
                    None
                }
            },
        }
    }
}

/// The live channel pairs of a world, in the order in which the drain phase visits
/// them.
pub struct OperationReceivers(pub(crate) Vec<OperationReceiver>);

impl View for OperationReceivers {
    type V = Seq<OperationReceiver>;

    closed spec fn view(&self) -> Seq<OperationReceiver> {
        self.0@
    }
}

impl Default for OperationReceivers {
    fn default() -> (receivers: Self)
        ensures
            receivers@ == Seq::<OperationReceiver>::empty(),
    {
        Self(Vec::new())
    }
}

impl OperationReceivers {
    /// The number of live channel pairs.
    pub fn len(&self) -> (length: usize)
        ensures
            length == self@.len(),
    {
        self.0.len()
    }

    /// Adds a channel pair; it is visited after those that are already there.
    pub fn push(&mut self, receiver: OperationReceiver)
        ensures
            final(self)@ == old(self)@.push(receiver),
    {
        self.0.push(receiver);
    }

    /// Drops the channel pairs whose marker entity is gone from the world: `gone` says
    /// of each pair, in roster order, whether it is. A pair that is dropped gives up
    /// the receiving side of its channel, so that its senders learn that the world no
    /// longer listens.
    pub fn forget(&mut self, gone: &Vec<bool>)
        ensures
            final(self)@ == survivors(old(self)@, gone@),
    {
        let mut members: Vec<OperationReceiver> = Vec::new();
        core::mem::swap(&mut self.0, &mut members);
        self.0 = retire(members, gone);
    }

    /// The marker entity of each live channel pair, in roster order.
    pub fn markers(&self) -> (markers: Vec<Entity>)
        ensures
            markers@.len() == self@.len(),
            forall|i: int| 0 <= i < self@.len() ==> markers@[i] == self@[i].marker(),
    {
        let mut markers: Vec<Entity> = Vec::new();
        let mut index: usize = 0;
        while index < self.0.len()
            invariant
                index <= self.0@.len(),
                markers@.len() == index,
                forall|i: int| 0 <= i < index ==> markers@[i] == self.0@[i].marker,
            decreases self.0@.len() - index,
        {
            markers.push(self.0[index].marker);
            index = index + 1;
        }
        markers
    }
}

/// The drain phase. Visits every live channel pair once, in order, and pulls its
/// pending operations into the buffer. A pair whose channel reports that it is closed
/// is retired on the spot: it leaves the roster and its marker entity is despawned.
///
/// The result says of each visited pair whether it was retired. The buffer only grows,
/// at its end, and without channel pairs it does not change at all.
pub fn receive_operations(
    world: &mut World,
    receivers: &mut OperationReceivers,
    queue: &mut WorldOperationQueue,
) -> (closed: Vec<bool>)
    ensures
        closed@.len() == old(receivers)@.len(),
        final(receivers)@ == survivors(old(receivers)@, closed@),
        extends(final(queue)@, old(queue)@),
        old(receivers)@.len() == 0 ==> final(queue)@ == old(queue)@,
        exists|drains: Seq<(int, Seq<Received<AsyncOperation>>)>|
            drains.len() == old(receivers)@.len() && #[trigger] drained_all(old(queue)@, drains) == (
                final(queue)@,
                closed@,
                true,
            ),
{
    let mut visited: Vec<OperationReceiver> = Vec::new();
    core::mem::swap(&mut receivers.0, &mut visited);
    let ghost all = visited@;
    let mut closed: Vec<bool> = Vec::new();
    let ghost drains = Seq::<(int, Seq<Received<AsyncOperation>>)>::empty();
    proof {
        assert(queue@.take(queue@.len() as int) == queue@);
        assert(all.take(0) == Seq::<OperationReceiver>::empty());
    }
    for receiver in iter: visited
        invariant
            iter.seq() == all,
            all == old(receivers)@,
            closed@.len() == iter.index(),
            receivers@ == survivors(all.take(iter.index() as int), closed@),
            extends(queue@, old(queue)@),
            iter.index() == 0 ==> queue@ == old(queue)@,
            drains.len() == iter.index(),
            drained_all(old(queue)@, drains) == (queue@, closed@, true),
    {
        let ghost index = iter.index() as int;
        let ghost kept = receivers@;
        let ghost marks = closed@;
        let ghost buffered = queue@;
        let ghost visited_drains = drains;
        let result = receiver.enqueue_into(queue);
        proof {
            assert(queue@.take(old(queue)@.len() as int) == buffered.take(
                old(queue)@.len() as int,
            )) by {
                assert(buffered == queue@.take(buffered.len() as int));
            }
            let (budget, answers) = choose|budget: int, answers: Seq<Received<AsyncOperation>>| #[trigger]
                drain_of(buffered, queue@, result, budget, answers);
            drains = drains.push((budget, answers));
            assert(drains.drop_last() == visited_drains);
            assert(drains.last() == (budget, answers));
            assert(drained_all(old(queue)@, drains) == (queue@, marks.push(result is Err), true));
        }
        match result {
            Ok(()) => {
                closed.push(false);
                receivers.0.push(receiver);
            },
            Err(()) => {
                closed.push(true);
                let _ = despawn(world, receiver.marker);
            },
        }
        proof {
            assert(all.take(index + 1).drop_last() == all.take(index));
            assert(all.take(index + 1).last() == receiver);
            lemma_survivors_agree(all.take(index), marks, closed@);
            assert(closed@ == marks.push(result is Err));
        }
    }
    proof {
        assert(all.take(all.len() as int) == all);
    }
    closed
}

/// The apply phase. Empties the buffer and applies what it held in FIFO order: the
/// primitive operations of the schedule one by one, until all are applied or one
/// breaks an invariant; then flushes what the world has deferred. Whatever happens,
/// nothing is left in the buffer for the next frame.
pub fn apply_operations(queue: &mut WorldOperationQueue, world: &mut World) -> (report: ApplyReport)
    ensures
        final(queue)@ == Seq::<AsyncOperation>::empty(),
        report.follows(schedule_of(old(queue)@)),
{
    let mut operations: Vec<AsyncOperation> = Vec::with_capacity(16);
    core::mem::swap(&mut queue.0, &mut operations);
    let report = OperationQueue(operations).apply(world);
    flush(world);
    report
}

/// Where in the schedule of `operations` the schedule of the operation at `index`
/// begins: behind the schedules of all operations before it.
pub open spec fn schedule_offset(operations: Seq<AsyncOperation>, index: int) -> nat {
    schedule_of(operations.take(index)).len()
}

/// The operation at `index` owns one stretch of the schedule: it begins at the
/// operation's offset, holds the operation's own schedule, and ends where the stretch
/// of the next operation begins.
pub proof fn lemma_schedule_block(operations: Seq<AsyncOperation>, index: int)
    requires
        0 <= index < operations.len(),
    ensures
        schedule_offset(operations, index + 1) == schedule_offset(operations, index)
            + operations[index].schedule().len(),
        schedule_offset(operations, index + 1) <= schedule_of(operations).len(),
        schedule_of(operations).subrange(
            schedule_offset(operations, index) as int,
            schedule_offset(operations, index + 1) as int,
        ) == operations[index].schedule(),
{
    let head = operations.take(index + 1);
    let rest = operations.skip(index + 1);
    assert(operations == head + rest);
    lemma_schedule_of_concat(head, rest);
    assert(head.drop_last() == operations.take(index));
    assert(head.last() == operations[index]);
    let before = schedule_of(operations.take(index));
    let own = operations[index].schedule();
    assert(schedule_of(operations) == before + own + schedule_of(rest));
    assert((before + own + schedule_of(rest)).subrange(
        before.len() as int,
        (before.len() + own.len()) as int,
    ) == own);
}

/// Offsets grow with the position in the buffer.
pub proof fn lemma_schedule_offset_grows(operations: Seq<AsyncOperation>, first: int, second: int)
    requires
        0 <= first <= second <= operations.len(),
    ensures
        schedule_offset(operations, first) <= schedule_offset(operations, second),
    decreases second - first,
{
    if first < second {
        lemma_schedule_block(operations, second - 1);
        lemma_schedule_offset_grows(operations, first, second - 1);
    }
}

/// First in, first out. Of two operations in the buffer, the one that arrived first is
/// applied first, and wholly: its stretch of the schedule ends before the stretch of
/// the later one begins, and each stretch holds the operation's own schedule, in
/// order. The drain only ever adds to the end of the buffer ([`extends`]), so what a
/// channel handed out earlier is applied earlier.
pub proof fn lemma_first_in_first_out(operations: Seq<AsyncOperation>, first: int, second: int)
    requires
        0 <= first < second < operations.len(),
    ensures
        schedule_offset(operations, first) + operations[first].schedule().len() <= schedule_offset(
            operations,
            second,
        ),
        schedule_offset(operations, second) + operations[second].schedule().len() <= schedule_of(
            operations,
        ).len(),
        schedule_of(operations).subrange(
            schedule_offset(operations, first) as int,
            (schedule_offset(operations, first) + operations[first].schedule().len()) as int,
        ) == operations[first].schedule(),
        schedule_of(operations).subrange(
            schedule_offset(operations, second) as int,
            (schedule_offset(operations, second) + operations[second].schedule().len()) as int,
        ) == operations[second].schedule(),
{
    lemma_schedule_block(operations, first);
    lemma_schedule_block(operations, second);
    lemma_schedule_offset_grows(operations, first + 1, second);
}

/// What the drain appended is applied behind everything that was buffered before, and
/// in the order in which it was appended.
pub proof fn lemma_appended_is_applied_last(
    buffered: Seq<AsyncOperation>,
    appended: Seq<AsyncOperation>,
)
    ensures
        extends(buffered + appended, buffered),
        schedule_of(buffered + appended) == schedule_of(buffered) + schedule_of(appended),
{
    lemma_schedule_of_concat(buffered, appended);
    assert((buffered + appended).take(buffered.len() as int) == buffered);
}

/// A schedule holds primitive operations only: applying it never meets a queue.
pub proof fn lemma_schedule_is_primitive(operation: AsyncOperation)
    ensures
        forall|i: int|
            0 <= i < operation.schedule().len() ==> !((#[trigger] operation.schedule()[i]) is Queue),
    decreases operation,
{
    match operation {
        AsyncOperation::Queue(queue) => {
            lemma_schedule_of_is_primitive(queue@);
        },
        _ => {},
    }
}

/// A schedule holds primitive operations only: applying it never meets a queue.
pub proof fn lemma_schedule_of_is_primitive(operations: Seq<AsyncOperation>)
    ensures
        forall|i: int|
            0 <= i < schedule_of(operations).len() ==> !((#[trigger] schedule_of(operations)[i]) is Queue),
    decreases operations,
{
    if operations.len() > 0 {
        lemma_schedule_of_is_primitive(operations.drop_last());
        lemma_schedule_is_primitive(operations.last());
    }
}

/// Queue atomicity. The items of a queue are applied as one unit: their schedule is
/// one unbroken stretch of the frame's schedule, in list order, so that no operation
/// from elsewhere is applied between the first and the last of them.
pub proof fn lemma_queue_is_atomic(
    operations: Seq<AsyncOperation>,
    index: int,
    queue: OperationQueue,
)
    requires
        0 <= index < operations.len(),
        operations[index] == AsyncOperation::Queue(queue),
    ensures
        schedule_offset(operations, index) + schedule_of(queue@).len() <= schedule_of(
            operations,
        ).len(),
        schedule_of(operations).subrange(
            schedule_offset(operations, index) as int,
            (schedule_offset(operations, index) + schedule_of(queue@).len()) as int,
        ) == schedule_of(queue@),
{
    lemma_schedule_block(operations, index);
}

/// Orphan channels are collected within one drain phase: the channel pairs that the
/// drain found closed are gone from the roster when it returns, and the others are
/// still there, in their old order.
pub proof fn lemma_orphans_are_collected(
    before: Seq<OperationReceiver>,
    after: Seq<OperationReceiver>,
    closed: Seq<bool>,
)
    requires
        closed.len() == before.len(),
        after == survivors(before, closed),
    ensures
        after.len() + retired_count(before, closed) == before.len(),
        forall|i: int|
            0 <= i < before.len() && !closed[i] ==> 0 <= #[trigger] survivor_index(closed, i)
                < after.len(),
        forall|i: int|
            0 <= i < before.len() && !closed[i] ==> after[survivor_index(closed, i)]
                == #[trigger] before[i],
        (forall|i: int| 0 <= i < before.len() ==> #[trigger] closed[i]) ==> after.len() == 0,
{
    lemma_survivors_exact(before, closed);
    if forall|i: int| 0 <= i < before.len() ==> #[trigger] closed[i] {
        lemma_all_retired(before, closed);
    }
}

/// Where every member is marked, every member counts as retired.
proof fn lemma_all_retired<T>(members: Seq<T>, retired: Seq<bool>)
    requires
        forall|i: int| 0 <= i < members.len() ==> is_retired(retired, i),
    ensures
        survivors(members, retired).len() == 0,
    decreases members.len(),
{
    if members.len() > 0 {
        lemma_all_retired(members.drop_last(), retired);
    }
}

} // verus!
