use bevy_async_ecs::drive_waiting_for;
use bevy_async_ecs::process_waiting_components;
use bevy_async_ecs::process_waiting_messages;
use bevy_async_ecs::process_waiting_resources;
use bevy_async_ecs::registry::state_of;
use bevy_async_ecs::registry::WaitState;
use bevy_async_ecs::ActiveWaiters;
use bevy_async_ecs::Attempt;
use bevy_async_ecs::InvariantBroken;
use bevy_async_ecs::PollReport;
use bevy_async_ecs::StartWaitingFor;
use bevy_async_ecs::StopWaitingFor;
use bevy_async_ecs::WaitKind;
use bevy_async_ecs::WaiterCache;
use bevy_async_ecs::Waiters;
use bevy_ecs::entity::Entity;
use bevy_ecs::message::Message;
use bevy_ecs::message::MessageCursor;
use bevy_ecs::message::Messages;
use bevy_ecs::name::Name;
use bevy_ecs::resource::Resource;
use bevy_ecs::system::SystemId;
use bevy_ecs::world::Mut;
use bevy_ecs::world::World;

const NAME: u64 = 1;
const FRAME_COUNT: u64 = 2;
const MY_MESSAGE: u64 = 3;

struct Engine {
	cache: WaiterCache,
	active: ActiveWaiters,
}

impl Resource for Engine {}

struct WaitersOf<T: Send + Sync + 'static>(Waiters<T>);

impl<T: Send + Sync + 'static> Resource for WaitersOf<T> {}

struct Unread(MessageCursor<MyMessage>);

impl Resource for Unread {}

#[derive(Clone)]
struct FrameCount(u32);

impl Resource for FrameCount {}

#[derive(Clone)]
struct MyMessage;

impl Message for MyMessage {}

fn stop(world: &mut World, kind: WaitKind, type_key: u64) {
	let mut engine = world.resource_mut::<Engine>();
	let engine = &mut *engine;
	StopWaitingFor { kind, type_key }.apply(&engine.cache, &mut engine.active);
}

fn poll_names(world: &mut World) {
	let report = world.resource_scope(|world, mut waiters: Mut<WaitersOf<Name>>| {
		let found: Vec<Option<Name>> = waiters
			.0
			.targets()
			.into_iter()
			.map(|target| target.and_then(|id| world.get::<Name>(id).cloned()))
			.collect();
		process_waiting_components(world, &mut waiters.0, found)
	});
	assert_eq!(None, report.failure);
	if report.idle {
		stop(world, WaitKind::Component, NAME);
	}
}

fn poll_frame_count(world: &mut World) {
	let report = world.resource_scope(|world, mut waiters: Mut<WaitersOf<FrameCount>>| {
		let resource = world.get_resource::<FrameCount>().cloned();
		process_waiting_resources(world, &mut waiters.0, resource.as_ref())
	});
	assert_eq!(None, report.failure);
	if report.idle {
		stop(world, WaitKind::Resource, FRAME_COUNT);
	}
}

fn poll_my_messages(world: &mut World) {
	let report = world.resource_scope(|world, mut waiters: Mut<WaitersOf<MyMessage>>| {
		let messages: Vec<MyMessage> = world.resource_scope(|world, mut unread: Mut<Unread>| {
			unread
				.0
				.read(world.resource::<Messages<MyMessage>>())
				.cloned()
				.collect()
		});
		process_waiting_messages(world, &mut waiters.0, &messages)
	});
	assert_eq!(None, report.failure);
	if report.idle {
		stop(world, WaitKind::Message, MY_MESSAGE);
	}
}

fn registered(poll: fn(&mut World)) -> impl FnOnce(&mut World) -> u64 {
	move |world: &mut World| world.register_system(poll).entity().to_bits()
}

fn start_name(world: &mut World, request: StartWaitingFor<Name>) {
	let report = world.resource_scope(|world, mut engine: Mut<Engine>| {
		world.resource_scope(|world, mut waiters: Mut<WaitersOf<Name>>| {
			let engine = &mut *engine;
			let mut targets = waiters.0.targets();
			targets.push(request.awaited());
			let found: Vec<Option<Name>> = targets
				.into_iter()
				.map(|target| target.and_then(|id| world.get::<Name>(id).cloned()))
				.collect();
			request
				.apply(
					world,
					&mut engine.cache,
					&mut engine.active,
					&mut waiters.0,
					registered(poll_names),
					found,
				)
				.1
		})
	});
	assert_eq!(None, report.failure);
}

fn start_frame_count(world: &mut World, request: StartWaitingFor<FrameCount>) {
	let report = world.resource_scope(|world, mut engine: Mut<Engine>| {
		world.resource_scope(|world, mut waiters: Mut<WaitersOf<FrameCount>>| {
			let engine = &mut *engine;
			let resource = world.get_resource::<FrameCount>().cloned();
			request
				.apply_resource(
					world,
					&mut engine.cache,
					&mut engine.active,
					&mut waiters.0,
					registered(poll_frame_count),
					resource.as_ref(),
				)
				.1
		})
	});
	assert_eq!(None, report.failure);
}

fn start_my_messages(world: &mut World, request: StartWaitingFor<MyMessage>) {
	let report = world.resource_scope(|world, mut engine: Mut<Engine>| {
		world.resource_scope(|world, mut waiters: Mut<WaitersOf<MyMessage>>| {
			let engine = &mut *engine;
			let messages: Vec<MyMessage> = world.resource_scope(|world, mut unread: Mut<Unread>| {
				unread
					.0
					.read(world.resource::<Messages<MyMessage>>())
					.cloned()
					.collect()
			});
			request
				.apply_messages(
					world,
					&mut engine.cache,
					&mut engine.active,
					&mut waiters.0,
					registered(poll_my_messages),
					&messages,
				)
				.1
		})
	});
	assert_eq!(None, report.failure);
}

fn run(world: &mut World, system: u64) {
	let id = SystemId::<(), ()>::from_entity(Entity::from_bits(system));
	world.run_system(id).unwrap();
}

fn update(world: &mut World) {
	let systems = drive_waiting_for(&world.resource::<Engine>().active);
	for system in systems {
		run(world, system);
	}
	world.resource_mut::<FrameCount>().0 += 1;
}

fn new_world() -> World {
	let mut world = World::new();
	world.insert_resource(Engine {
		cache: WaiterCache::default(),
		active: ActiveWaiters::default(),
	});
	world.insert_resource(WaitersOf::<Name>(Waiters::new()));
	world.insert_resource(WaitersOf::<FrameCount>(Waiters::new()));
	world.insert_resource(WaitersOf::<MyMessage>(Waiters::new()));
	world.insert_resource(FrameCount(0));
	world.init_resource::<Messages<MyMessage>>();
	let cursor = world.resource::<Messages<MyMessage>>().get_cursor();
	world.insert_resource(Unread(cursor));
	world
}

#[test]
fn wait_for_smoke() {
	let mut world = new_world();

	let id = world.spawn_empty().id();
	let (start_waiting_for, name_rx) = StartWaitingFor::<Name>::component(id, NAME);
	start_name(&mut world, start_waiting_for);
	assert!(name_rx.try_recv().is_err());

	update(&mut world);
	assert!(name_rx.try_recv().is_err());

	world.entity_mut(id).insert(Name::new("Frank"));
	update(&mut world);
	assert_eq!(name_rx.try_recv().unwrap(), Name::new("Frank"));

	let id = world.spawn(Name::new("Tim")).id();
	let (start_waiting_for, name_rx) = StartWaitingFor::<Name>::component(id, NAME);
	start_name(&mut world, start_waiting_for);
	assert_eq!(name_rx.try_recv().unwrap(), Name::new("Tim"));

	update(&mut world);

	let (start_waiting_for, time_rx) = StartWaitingFor::<FrameCount>::resource(FRAME_COUNT);
	start_frame_count(&mut world, start_waiting_for);
	assert_eq!(time_rx.try_recv().unwrap().0, 3);

	update(&mut world);

	let (start_waiting_for, messages_rx) = StartWaitingFor::<MyMessage>::messages(MY_MESSAGE);
	start_my_messages(&mut world, start_waiting_for);
	assert!(messages_rx.try_recv().is_err());

	world.write_message(MyMessage);
	world.write_message(MyMessage);
	update(&mut world);
	assert!(messages_rx.try_recv().is_ok());
	assert!(messages_rx.try_recv().is_ok());
	assert!(messages_rx.try_recv().is_err());

	assert_eq!(world.get_resource::<Engine>().unwrap().active.len(), 1);
	assert_eq!(world.get_resource::<Engine>().unwrap().cache.len(), 3);
}

// The polls, fed by hand.

struct Bench {
	world: World,
	cache: WaiterCache,
	active: ActiveWaiters,
	waiters: Waiters<u32>,
}

impl Bench {
	fn new() -> Self {
		Self {
			world: World::new(),
			cache: WaiterCache::new(),
			active: ActiveWaiters::new(),
			waiters: Waiters::new(),
		}
	}

	fn register(&mut self, request: StartWaitingFor<u32>, system: u64) -> u64 {
		self.start(request, system, Vec::new()).0
	}

	fn start(
		&mut self,
		request: StartWaitingFor<u32>,
		system: u64,
		found: Vec<Option<u32>>,
	) -> (u64, PollReport) {
		request.apply(
			&mut self.world,
			&mut self.cache,
			&mut self.active,
			&mut self.waiters,
			move |_: &mut World| system,
			found,
		)
	}
}

#[test]
fn a_poll_without_waiters_is_idle() {
	let mut bench = Bench::new();

	let report = process_waiting_components(&mut bench.world, &mut bench.waiters, vec![Some(1)]);

	assert!(report.idle);
	assert!(report.attempts.is_empty());
	assert_eq!(None, report.failure);
	assert_eq!(0, bench.waiters.len());
}

#[test]
fn a_waiter_is_served_once_and_only_when_ready() {
	let mut bench = Bench::new();
	let target = bench.world.spawn_empty().id();
	let (request, receiver) = StartWaitingFor::<u32>::component(target, 7);
	assert_eq!(100, bench.register(request, 100));
	let marker = bench.waiters.markers()[0];
	assert_eq!(vec![Some(target)], bench.waiters.targets());
	assert_eq!(Name::new("WaitingFor(Component)"), *bench.world.get::<Name>(marker).unwrap());

	for _ in 0..3 {
		let report = process_waiting_components(&mut bench.world, &mut bench.waiters, vec![None]);
		assert!(!report.idle);
		assert_eq!(vec![Attempt::NotReady], report.attempts);
		assert_eq!(1, bench.waiters.len());
		assert!(receiver.try_recv().is_err());
	}

	let report = process_waiting_components(&mut bench.world, &mut bench.waiters, vec![Some(5)]);
	assert_eq!(vec![Attempt::Delivered], report.attempts);
	assert_eq!(None, report.failure);
	assert_eq!(0, bench.waiters.len());
	assert!(bench.world.get_entity(marker).is_err());

	let report = process_waiting_components(&mut bench.world, &mut bench.waiters, vec![Some(6)]);
	assert!(report.idle);
	assert_eq!(Ok(5), receiver.try_recv());
	assert!(receiver.try_recv().is_err());
}

#[test]
fn only_the_ready_waiters_leave_and_the_others_keep_their_order() {
	let mut bench = Bench::new();
	let mut receivers = Vec::new();
	let mut targets = Vec::new();
	for _ in 0..4 {
		let target = bench.world.spawn_empty().id();
		let (request, receiver) = StartWaitingFor::<u32>::component(target, 7);
		bench.register(request, 100);
		receivers.push(receiver);
		targets.push(Some(target));
	}
	assert_eq!(targets, bench.waiters.targets());

	let found = vec![None, Some(11), None, Some(13)];
	let report = process_waiting_components(&mut bench.world, &mut bench.waiters, found);

	assert_eq!(
		vec![
			Attempt::NotReady,
			Attempt::Delivered,
			Attempt::NotReady,
			Attempt::Delivered
		],
		report.attempts
	);
	assert_eq!(vec![targets[0], targets[2]], bench.waiters.targets());
	assert!(receivers[0].try_recv().is_err());
	assert_eq!(Ok(11), receivers[1].try_recv());
	assert!(receivers[2].try_recv().is_err());
	assert_eq!(Ok(13), receivers[3].try_recv());
}

#[test]
fn missing_observations_count_as_not_ready() {
	let mut bench = Bench::new();
	let target = bench.world.spawn_empty().id();
	let (first, first_rx) = StartWaitingFor::<u32>::component(target, 7);
	let (second, second_rx) = StartWaitingFor::<u32>::component(target, 7);
	bench.register(first, 100);
	bench.register(second, 100);

	let report = process_waiting_components(&mut bench.world, &mut bench.waiters, vec![Some(1)]);

	assert_eq!(vec![Attempt::Delivered, Attempt::NotReady], report.attempts);
	assert_eq!(1, bench.waiters.len());
	assert_eq!(Ok(1), first_rx.try_recv());
	assert!(second_rx.try_recv().is_err());
}

#[test]
fn an_abandoned_waiter_is_retired_silently() {
	let mut bench = Bench::new();
	let target = bench.world.spawn_empty().id();
	let (request, receiver) = StartWaitingFor::<u32>::component(target, 7);
	bench.register(request, 100);
	let marker = bench.waiters.markers()[0];
	drop(receiver);

	let report = process_waiting_components(&mut bench.world, &mut bench.waiters, vec![Some(5)]);

	assert_eq!(vec![Attempt::Abandoned], report.attempts);
	assert_eq!(None, report.failure);
	assert_eq!(0, bench.waiters.len());
	assert!(bench.world.get_entity(marker).is_err());
}

#[test]
fn a_resource_is_copied_to_every_waiter() {
	let mut bench = Bench::new();
	let (first, first_rx) = StartWaitingFor::<u32>::resource(8);
	let (second, second_rx) = StartWaitingFor::<u32>::resource(8);
	assert_eq!(200, bench.register(first, 200));
	assert_eq!(200, bench.register(second, 201));
	assert_eq!(vec![None, None], bench.waiters.targets());
	let marker = bench.waiters.markers()[0];
	assert_eq!(Name::new("WaitingFor(Resource)"), *bench.world.get::<Name>(marker).unwrap());

	let report = process_waiting_resources(&mut bench.world, &mut bench.waiters, None);
	assert_eq!(vec![Attempt::NotReady, Attempt::NotReady], report.attempts);
	assert_eq!(2, bench.waiters.len());

	let report = process_waiting_resources(&mut bench.world, &mut bench.waiters, Some(&9));
	assert_eq!(vec![Attempt::Delivered, Attempt::Delivered], report.attempts);
	assert_eq!(0, bench.waiters.len());
	assert_eq!(Ok(9), first_rx.try_recv());
	assert_eq!(Ok(9), second_rx.try_recv());

	let report = process_waiting_resources(&mut bench.world, &mut bench.waiters, Some(&9));
	assert!(report.idle);
}

#[test]
fn messages_fan_out_to_every_waiter_in_order() {
	let mut bench = Bench::new();
	let (first, first_rx) = StartWaitingFor::<u32>::messages(9);
	let (second, second_rx) = StartWaitingFor::<u32>::messages(9);
	let (third, third_rx) = StartWaitingFor::<u32>::messages(9);
	bench.register(first, 300);
	bench.register(second, 300);
	bench.register(third, 300);
	let markers = bench.waiters.markers();
	assert_eq!(Name::new("WaitingFor(Messages)"), *bench.world.get::<Name>(markers[0]).unwrap());
	drop(second_rx);

	let report = process_waiting_messages(&mut bench.world, &mut bench.waiters, &vec![]);
	assert!(!report.idle);
	assert_eq!(vec![0, 0, 0], report.sent);
	assert_eq!(vec![false, false, false], report.closed);
	assert_eq!(3, bench.waiters.len());

	let report = process_waiting_messages(&mut bench.world, &mut bench.waiters, &vec![1, 2, 3]);
	assert_eq!(vec![3, 0, 3], report.sent);
	assert_eq!(vec![false, true, false], report.closed);
	assert_eq!(None, report.failure);
	assert_eq!(vec![markers[0], markers[2]], bench.waiters.markers());
	assert!(bench.world.get_entity(markers[1]).is_err());

	let report = process_waiting_messages(&mut bench.world, &mut bench.waiters, &vec![4]);
	assert_eq!(vec![1, 1], report.sent);
	for receiver in [&first_rx, &third_rx] {
		assert_eq!(Ok(1), receiver.try_recv());
		assert_eq!(Ok(2), receiver.try_recv());
		assert_eq!(Ok(3), receiver.try_recv());
		assert_eq!(Ok(4), receiver.try_recv());
		assert!(receiver.try_recv().is_err());
	}

	let mut empty = Bench::new();
	let report = process_waiting_messages(&mut empty.world, &mut empty.waiters, &vec![1]);
	assert!(report.idle);
	assert!(report.sent.is_empty());
}

#[test]
fn two_waits_on_one_type_share_one_polling_system() {
	let mut bench = Bench::new();
	let target = bench.world.spawn_empty().id();
	let (first, _first_rx) = StartWaitingFor::<u32>::component(target, 7);
	let (second, _second_rx) = StartWaitingFor::<u32>::component(target, 7);
	let (other_type, _other_rx) = StartWaitingFor::<u32>::component(target, 8);
	let (other_kind, _kind_rx) = StartWaitingFor::<u32>::resource(7);

	assert_eq!(100, bench.register(first, 100));
	assert_eq!(100, bench.register(second, 101));
	assert_eq!(102, bench.register(other_type, 102));
	assert_eq!(103, bench.register(other_kind, 103));

	assert_eq!(3, bench.cache.len());
	assert_eq!(Some(100), bench.cache.get(WaitKind::Component, 7));
	assert_eq!(Some(102), bench.cache.get(WaitKind::Component, 8));
	assert_eq!(Some(103), bench.cache.get(WaitKind::Resource, 7));
	assert_eq!(None, bench.cache.get(WaitKind::Message, 7));
	assert_eq!(3, bench.active.len());
	assert_eq!(4, bench.waiters.len());
}

#[test]
fn stopping_keeps_the_polling_system_registered() {
	let mut bench = Bench::new();
	let target = bench.world.spawn_empty().id();
	let (request, _receiver) = StartWaitingFor::<u32>::component(target, 7);
	bench.register(request, 100);
	assert!(bench.active.contains(100));

	let unknown = StopWaitingFor {
		kind: WaitKind::Resource,
		type_key: 7,
	};
	unknown.apply(&bench.cache, &mut bench.active);
	assert!(bench.active.contains(100));

	let stop = StopWaitingFor {
		kind: WaitKind::Component,
		type_key: 7,
	};
	stop.apply(&bench.cache, &mut bench.active);
	assert!(!bench.active.contains(100));
	assert_eq!(0, bench.active.len());
	assert_eq!(Some(100), bench.cache.get(WaitKind::Component, 7));
	stop.apply(&bench.cache, &mut bench.active);
	assert_eq!(0, bench.active.len());
}

#[test]
fn a_full_one_shot_channel_is_fatal() {
	let mut bench = Bench::new();
	let target = bench.world.spawn_empty().id();
	let (first, first_rx) = StartWaitingFor::<u32>::component(target, 7);
	let (sender, used) = async_channel::bounded(1);
	sender.try_send(0).unwrap();
	let second = StartWaitingFor::new(WaitKind::Component, Some(target), 7, sender);
	let (third, third_rx) = StartWaitingFor::<u32>::component(target, 7);
	bench.register(first, 100);
	bench.register(second, 100);
	bench.register(third, 100);
	let markers = bench.waiters.markers();

	let found = vec![Some(1), Some(2), Some(3)];
	let report = process_waiting_components(&mut bench.world, &mut bench.waiters, found);

	assert_eq!(Some(InvariantBroken::ChannelFull), report.failure);
	assert_eq!(vec![Attempt::Delivered], report.attempts);
	assert_eq!(vec![markers[1], markers[2]], bench.waiters.markers());
	assert_eq!(Ok(1), first_rx.try_recv());
	assert_eq!(Ok(0), used.try_recv());
	assert!(used.try_recv().is_err());
	assert!(third_rx.try_recv().is_err());
}

#[test]
fn a_full_message_channel_is_fatal() {
	let mut bench = Bench::new();
	let (sender, receiver) = async_channel::bounded(2);
	let narrow = StartWaitingFor::new(WaitKind::Message, None, 9, sender);
	let (wide, wide_rx) = StartWaitingFor::<u32>::messages(9);
	bench.register(narrow, 300);
	bench.register(wide, 300);

	let report = process_waiting_messages(&mut bench.world, &mut bench.waiters, &vec![1, 2, 3]);

	assert_eq!(Some(InvariantBroken::ChannelFull), report.failure);
	assert!(report.sent.is_empty());
	assert!(report.closed.is_empty());
	assert_eq!(2, bench.waiters.len());
	assert_eq!(Ok(1), receiver.try_recv());
	assert_eq!(Ok(2), receiver.try_recv());
	assert!(wide_rx.try_recv().is_err());
}

#[test]
fn the_wait_goes_from_uninitialized_to_active_to_idle() {
	let mut bench = Bench::new();
	let state = |bench: &Bench| state_of(&bench.cache, &bench.active, WaitKind::Component, 7);
	assert_eq!(WaitState::Uninitialized, state(&bench));

	let target = bench.world.spawn_empty().id();
	let (request, _receiver) = StartWaitingFor::<u32>::component(target, 7);
	bench.register(request, 100);
	assert_eq!(WaitState::Active, state(&bench));

	let report = process_waiting_components(&mut bench.world, &mut bench.waiters, vec![Some(1)]);
	assert!(!report.idle);
	let report = process_waiting_components(&mut bench.world, &mut bench.waiters, vec![]);
	assert!(report.idle);
	StopWaitingFor {
		kind: WaitKind::Component,
		type_key: 7,
	}
	.apply(&bench.cache, &mut bench.active);
	assert_eq!(WaitState::Idle, state(&bench));

	let (request, _receiver) = StartWaitingFor::<u32>::component(target, 7);
	assert_eq!(100, bench.register(request, 555));
	assert_eq!(WaitState::Active, state(&bench));
}

#[test]
fn a_wait_for_what_is_there_is_served_by_the_registration() {
	let mut bench = Bench::new();
	let target = bench.world.spawn_empty().id();
	let (early, early_rx) = StartWaitingFor::<u32>::component(target, 7);
	let (request, receiver) = StartWaitingFor::<u32>::component(target, 7);
	assert_eq!(Some(target), request.awaited());

	let (system, report) = bench.start(early, 100, vec![None]);
	assert_eq!(100, system);
	assert!(!report.idle);
	assert_eq!(vec![Attempt::NotReady], report.attempts);
	let early_marker = bench.waiters.markers()[0];

	let (system, report) = bench.start(request, 101, vec![None, Some(5)]);

	assert_eq!(100, system);
	assert_eq!(vec![Attempt::NotReady, Attempt::Delivered], report.attempts);
	assert_eq!(None, report.failure);
	assert_eq!(Ok(5), receiver.try_recv());
	assert!(receiver.try_recv().is_err());
	assert!(early_rx.try_recv().is_err());
	assert_eq!(vec![early_marker], bench.waiters.markers());
}

#[test]
fn a_wait_for_a_resource_that_is_there_is_served_by_the_registration() {
	let mut bench = Bench::new();
	let (request, receiver) = StartWaitingFor::<u32>::resource(8);
	assert_eq!(None, request.awaited());

	let (system, report) = request.apply_resource(
		&mut bench.world,
		&mut bench.cache,
		&mut bench.active,
		&mut bench.waiters,
		|_: &mut World| 200,
		Some(&3),
	);

	assert_eq!(200, system);
	assert_eq!(vec![Attempt::Delivered], report.attempts);
	assert_eq!(Ok(3), receiver.try_recv());
	assert_eq!(0, bench.waiters.len());
	assert_eq!(WaitState::Active, state_of(&bench.cache, &bench.active, WaitKind::Resource, 8));
}

#[test]
fn messages_that_are_there_are_sent_by_the_registration() {
	let mut bench = Bench::new();
	let (request, receiver) = StartWaitingFor::<u32>::messages(9);

	let (system, report) = request.apply_messages(
		&mut bench.world,
		&mut bench.cache,
		&mut bench.active,
		&mut bench.waiters,
		|_: &mut World| 300,
		&vec![1, 2],
	);

	assert_eq!(300, system);
	assert_eq!(vec![2], report.sent);
	assert_eq!(vec![false], report.closed);
	assert_eq!(Ok(1), receiver.try_recv());
	assert_eq!(Ok(2), receiver.try_recv());
	assert_eq!(1, bench.waiters.len());
}

#[test]
fn a_waiter_whose_marker_is_despawned_is_forgotten() {
	let mut bench = Bench::new();
	let target = bench.world.spawn_empty().id();
	let (first, first_rx) = StartWaitingFor::<u32>::component(target, 7);
	let (second, second_rx) = StartWaitingFor::<u32>::component(target, 7);
	bench.register(first, 100);
	bench.register(second, 100);
	let markers = bench.waiters.markers();
	bench.world.despawn(markers[0]);

	let gone: Vec<bool> = bench
		.waiters
		.markers()
		.into_iter()
		.map(|marker| bench.world.get_entity(marker).is_err())
		.collect();
	assert_eq!(vec![true, false], gone);
	bench.waiters.forget(&gone);

	assert_eq!(vec![markers[1]], bench.waiters.markers());
	assert_eq!(Err(async_channel::TryRecvError::Closed), first_rx.try_recv());
	let report = process_waiting_components(&mut bench.world, &mut bench.waiters, vec![Some(4)]);
	assert_eq!(vec![Attempt::Delivered], report.attempts);
	assert_eq!(Ok(4), second_rx.try_recv());
}
