use bevy_async_ecs::channel::SendOutcome;
use bevy_async_ecs::drive_waiting_for;
use bevy_async_ecs::retire::retire;
use bevy_async_ecs::retire::reversed;
use bevy_async_ecs::system::AsyncSystem;
use bevy_async_ecs::ActiveWaiters;
use bevy_async_ecs::AsyncOperation;
use bevy_async_ecs::AsyncWorld;
use bevy_async_ecs::CommandQueueSender;
use bevy_async_ecs::Delivery;
use bevy_async_ecs::DrainStep;
use bevy_async_ecs::InvariantBroken;
use bevy_async_ecs::OperationReceiver;
use bevy_async_ecs::OperationSender;
use bevy_async_ecs::channel::deliver;
use bevy_async_ecs::channel::recv;
use bevy_async_ecs::Received;
use bevy_async_ecs::Reception;
use bevy_async_ecs::SystemOperation;
use bevy_async_ecs::Unregistered;
use bevy_async_ecs::WaitKind;
use bevy_async_ecs::WaiterCache;
use bevy_async_ecs::WorldOperationQueue;
use bevy_ecs::entity::Entity;
use bevy_ecs::world::World;

#[test]
fn the_cache_registers_lazily_and_once() {
	let mut world = World::new();
	let mut cache = WaiterCache::new();
	assert_eq!(0, cache.len());
	assert_eq!(None, cache.get(WaitKind::Component, 5));

	let mut calls = 0;
	let first = cache.ensure(&mut world, WaitKind::Component, 5, |world: &mut World| {
		calls += 1;
		world.spawn_empty().id().to_bits()
	});
	let second = cache.ensure(&mut world, WaitKind::Component, 5, |_: &mut World| {
		calls += 1;
		41
	});

	assert!(world.get_entity(Entity::from_bits(first)).is_ok());
	assert_eq!(first, second);
	assert_eq!(1, calls);
	assert_eq!(1, cache.len());
	assert_eq!(Some(first), cache.get(WaitKind::Component, 5));
}

#[test]
fn the_kind_is_part_of_the_key() {
	let mut world = World::new();
	let mut cache = WaiterCache::default();

	assert_eq!(1, cache.ensure(&mut world, WaitKind::Component, 5, |_: &mut World| 1));
	assert_eq!(2, cache.ensure(&mut world, WaitKind::Resource, 5, |_: &mut World| 2));
	assert_eq!(3, cache.ensure(&mut world, WaitKind::Message, 5, |_: &mut World| 3));
	assert_eq!(4, cache.ensure(&mut world, WaitKind::Message, 6, |_: &mut World| 4));

	assert_eq!(4, cache.len());
	assert_eq!(0, WaitKind::Component.discriminant());
	assert_eq!(1, WaitKind::Resource.discriminant());
	assert_eq!(2, WaitKind::Message.discriminant());
	assert_eq!(Some(2), cache.get(WaitKind::Resource, 5));
	assert_eq!(None, cache.get(WaitKind::Resource, 6));
}

#[test]
fn the_active_set_holds_each_system_once() {
	let mut active = ActiveWaiters::default();
	assert_eq!(0, active.len());
	assert!(drive_waiting_for(&active).is_empty());

	assert!(active.activate(7));
	assert!(!active.activate(7));
	assert!(active.activate(9));
	assert!(active.contains(7));
	assert!(!active.contains(8));
	assert_eq!(2, active.len());

	let mut systems = drive_waiting_for(&active);
	systems.sort();
	assert_eq!(vec![7, 9], systems);

	assert!(active.deactivate(7));
	assert!(!active.deactivate(7));
	assert!(!active.contains(7));
	assert_eq!(vec![9], drive_waiting_for(&active));
}

#[test]
fn a_result_must_be_delivered() {
	assert_eq!(Ok(()), SendOutcome::<u8>::Delivered.into_result());
	assert_eq!(
		Err(InvariantBroken::ChannelFull),
		SendOutcome::Full(1u8).into_result()
	);
	assert_eq!(
		Err(InvariantBroken::ChannelClosed),
		SendOutcome::Closed(1u8).into_result()
	);
}

#[test]
fn a_waiter_may_be_gone_but_its_channel_may_not_be_full() {
	assert_eq!(
		Ok(Delivery::Delivered),
		SendOutcome::<u8>::Delivered.into_delivery()
	);
	assert_eq!(
		Ok(Delivery::Abandoned),
		SendOutcome::Closed(1u8).into_delivery()
	);
	assert_eq!(
		Err(InvariantBroken::ChannelFull),
		SendOutcome::Full(1u8).into_delivery()
	);
}

#[test]
fn the_buffer_absorbs_operations_at_its_end() {
	let mut queue = WorldOperationQueue::default();
	let first = Entity::from_bits(1);

	let run = AsyncOperation::System(SystemOperation::Run(first));
	assert_eq!(DrainStep::Continue, queue.absorb(Received::Value(run)));
	assert_eq!(1, queue.len());
	assert_eq!(DrainStep::Empty, queue.absorb(Received::Empty));
	assert_eq!(DrainStep::Closed, queue.absorb(Received::Closed));
	assert_eq!(1, queue.len());
}

#[test]
fn the_last_handle_unregisters_the_system() {
	let (sender, receiver) = async_channel::unbounded();
	let world = AsyncWorld::from_sender(CommandQueueSender::new(OperationSender::from_sender(sender)));
	let id = Entity::from_bits(77);

	let system = world.system(id);
	let copy = system.clone();
	assert_eq!(id, system.id());
	assert_eq!(id, copy.id());

	assert!(matches!(system.unregister(), Unregistered::StillShared));
	assert!(receiver.try_recv().is_err());

	assert!(matches!(copy.unregister(), Unregistered::Sent));
	match receiver.try_recv() {
		Ok(AsyncOperation::System(SystemOperation::Unregister(sent))) => assert_eq!(id, sent),
		_ => panic!("no request to unregister was sent"),
	}
	assert!(receiver.try_recv().is_err());
}

#[test]
fn a_refused_unregistration_comes_back() {
	let (sender, receiver) = async_channel::unbounded();
	let world = AsyncWorld::from_sender(CommandQueueSender::new(OperationSender::from_sender(sender)));
	let id = Entity::from_bits(78);
	let system = world.system(id);
	drop(receiver);

	match system.run() {
		Err(AsyncOperation::System(SystemOperation::Run(back))) => assert_eq!(id, back),
		_ => panic!("the request was not handed back"),
	}
	match system.unregister() {
		Unregistered::Refused(AsyncOperation::System(SystemOperation::Unregister(back))) => {
			assert_eq!(id, back)
		}
		_ => panic!("the request was not handed back"),
	}
}

#[test]
fn reversing_turns_the_order_around() {
	assert_eq!(vec![3, 2, 1], reversed(vec![1, 2, 3]));
	assert_eq!(Vec::<u8>::new(), reversed(Vec::<u8>::new()));
	assert_eq!(vec![1], reversed(vec![1]));
}

#[test]
fn no_die() {
	let (tx, rx) = async_channel::bounded::<u8>(1);
	tx.try_send(3).unwrap();
	assert!(matches!(recv(&rx), Reception::Ready(3)));
}

#[test]
fn a_waiting_task_yields_until_the_result_is_there() {
	let (tx, rx) = async_channel::bounded::<u8>(1);

	assert!(matches!(recv(&rx), Reception::Yield));
	assert!(matches!(recv(&rx), Reception::Yield));
	tx.try_send(3).unwrap();
	assert!(matches!(recv(&rx), Reception::Ready(3)));
	assert!(matches!(recv(&rx), Reception::Yield));
}

#[test]
fn a_result_that_can_no_longer_arrive_breaks_an_invariant() {
	let (tx, rx) = async_channel::bounded::<()>(1);
	tx.close();

	assert!(matches!(
		recv(&rx),
		Reception::Broken(InvariantBroken::ChannelClosed)
	));
	assert!(matches!(
		Received::<u8>::Closed.into_reception(),
		Reception::Broken(InvariantBroken::ChannelClosed)
	));
	assert!(matches!(Received::<u8>::Empty.into_reception(), Reception::Yield));
	assert!(matches!(Received::Value(4u8).into_reception(), Reception::Ready(4)));
}

#[test]
fn a_result_is_delivered_once() {
	let (sender, receiver) = async_channel::bounded(1);

	assert_eq!(Ok(()), deliver(&sender, 1u8));
	assert_eq!(Err(InvariantBroken::ChannelFull), deliver(&sender, 2u8));
	assert_eq!(Ok(1), receiver.try_recv());
	drop(receiver);
	assert_eq!(Err(InvariantBroken::ChannelClosed), deliver(&sender, 3u8));
}

#[test]
fn a_request_that_was_not_taken_goes_back() {
	assert_eq!(Ok(()), SendOutcome::<u8>::Delivered.into_refusal());
	assert_eq!(Err(7), SendOutcome::Full(7u8).into_refusal());
	assert_eq!(Err(8), SendOutcome::Closed(8u8).into_refusal());
}

#[test]
fn a_system_that_did_not_run_breaks_an_invariant() {
	assert_eq!(Ok(()), SystemOperation::verdict(true));
	assert_eq!(
		Err(InvariantBroken::SystemDidNotRun),
		SystemOperation::verdict(false)
	);
}

#[test]
fn the_last_handle_reports_what_became_of_its_request() {
	let id = Entity::from_bits(5);

	assert!(matches!(Unregistered::after(Ok(())), Unregistered::Sent));
	let refused = AsyncOperation::System(SystemOperation::Unregister(id));
	match Unregistered::after(Err(refused)) {
		Unregistered::Refused(AsyncOperation::System(SystemOperation::Unregister(back))) => {
			assert_eq!(id, back)
		}
		_ => panic!("the request was not handed back"),
	}
}

#[test]
fn copies_of_a_sender_feed_the_same_channel() {
	let (sender, _receiver) = async_channel::unbounded();
	let (other, _other_receiver) = async_channel::unbounded();
	let first = OperationSender::from_sender(sender);
	let elsewhere = OperationSender::from_sender(other);

	let copy = first.duplicate();
	let clone = first.clone();
	assert!(first.same_channel(&copy));
	assert!(copy.same_channel(&clone));
	assert!(!first.same_channel(&elsewhere));
	assert_eq!(3, first.sender_count());
	assert_eq!(1, elsewhere.sender_count());

	let world = AsyncWorld::from_sender(CommandQueueSender::new(first));
	let commands = world.sender();
	assert!(commands.same_channel(&world.clone().sender()));
	assert!(commands.same_channel(&world.entity(Entity::from_bits(1)).sender()));
	assert!(!commands.same_channel(&CommandQueueSender::new(elsewhere)));
}

#[test]
fn a_spawned_entity_resolves_in_its_world() {
	let (sender, receiver) = async_channel::unbounded();
	let world = AsyncWorld::from_sender(CommandQueueSender::new(OperationSender::from_sender(sender)));
	let commands = world.sender();
	let spawned = world.spawn_empty().ok().unwrap();
	let id = Entity::from_bits(9);

	assert!(spawned.entity_of(Received::Empty).is_none());
	assert!(spawned.entity_of(Received::Closed).is_none());
	assert!(spawned.poll().is_none());
	let entity = spawned.entity_of(Received::Value(id)).unwrap();
	assert_eq!(id, entity.id());
	assert!(entity.sender().same_channel(&commands));

	match receiver.try_recv() {
		Ok(AsyncOperation::Entity(bevy_async_ecs::EntityOperation::SpawnEmpty(reply))) => {
			reply.try_send(id).unwrap()
		}
		_ => panic!("no request to spawn was sent"),
	}
	let entity = spawned.poll().unwrap();
	assert_eq!(id, entity.id());
	assert!(entity.sender().same_channel(&commands));
}

#[test]
fn a_drain_ends_on_a_closed_channel_an_empty_one_or_a_spent_budget() {
	assert_eq!(Some(Err(())), OperationReceiver::after_step(DrainStep::Closed, 3));
	assert_eq!(Some(Err(())), OperationReceiver::after_step(DrainStep::Closed, 0));
	assert_eq!(Some(Ok(())), OperationReceiver::after_step(DrainStep::Empty, 3));
	assert_eq!(Some(Ok(())), OperationReceiver::after_step(DrainStep::Empty, 0));
	assert_eq!(Some(Ok(())), OperationReceiver::after_step(DrainStep::Continue, 0));
	assert_eq!(None, OperationReceiver::after_step(DrainStep::Continue, 1));
}

#[test]
fn a_drain_loses_nothing_and_reports_closure() {
	let (sender, receiver) = async_channel::unbounded();
	let bound = OperationReceiver::new(Entity::from_bits(1), receiver);
	let mut queue = WorldOperationQueue::default();
	let earlier = AsyncOperation::System(SystemOperation::Run(Entity::from_bits(9)));
	assert_eq!(DrainStep::Continue, queue.absorb(Received::Value(earlier)));

	assert_eq!(Ok(()), bound.enqueue_into(&mut queue));
	assert_eq!(1, queue.len());

	for bits in 10..15u64 {
		let run = AsyncOperation::System(SystemOperation::Run(Entity::from_bits(bits)));
		sender.try_send(run).unwrap();
	}
	assert_eq!(Ok(()), bound.enqueue_into(&mut queue));
	assert_eq!(6, queue.len());
	assert_eq!(Ok(()), bound.enqueue_into(&mut queue));
	assert_eq!(6, queue.len());

	for bits in 15..17u64 {
		let run = AsyncOperation::System(SystemOperation::Run(Entity::from_bits(bits)));
		sender.try_send(run).unwrap();
	}
	drop(sender);
	assert_eq!(Err(()), bound.enqueue_into(&mut queue));
	assert_eq!(8, queue.len());
	assert_eq!(Err(()), bound.enqueue_into(&mut queue));
	assert_eq!(8, queue.len());
}

#[test]
fn the_input_of_an_io_system_is_the_one_received() {
	let (output, results) = async_channel::bounded::<u8>(1);
	let mut seen = Vec::new();

	let missing = bevy_async_ecs::run_received(Received::<u8>::Empty, &output, |input| {
		seen.push(input);
		Some(input)
	});
	assert_eq!(Err(InvariantBroken::InputMissing), missing);
	let closed = bevy_async_ecs::run_received(Received::<u8>::Closed, &output, |input| {
		seen.push(input);
		Some(input)
	});
	assert_eq!(Err(InvariantBroken::InputMissing), closed);
	assert!(seen.is_empty());

	let ran = bevy_async_ecs::run_received(Received::Value(4u8), &output, |input| {
		seen.push(input);
		Some(input + 1)
	});
	assert_eq!(Ok(()), ran);
	assert_eq!(vec![4], seen);
	assert_eq!(Ok(5), results.try_recv());

	let idle = bevy_async_ecs::run_received(Received::Value(4u8), &output, |_| None::<u8>);
	assert_eq!(Err(InvariantBroken::SystemDidNotRun), idle);
	assert!(results.try_recv().is_err());
}

#[test]
fn only_the_last_handle_sends_the_request_to_unregister() {
	let (sender, receiver) = async_channel::unbounded();
	let world = AsyncWorld::from_sender(CommandQueueSender::new(OperationSender::from_sender(sender)));
	let id = Entity::from_bits(31);

	assert!(matches!(
		AsyncSystem::unregister_last(&world, None),
		Unregistered::StillShared
	));
	assert!(receiver.try_recv().is_err());

	assert!(matches!(
		AsyncSystem::unregister_last(&world, Some(id)),
		Unregistered::Sent
	));
	match receiver.try_recv() {
		Ok(AsyncOperation::System(SystemOperation::Unregister(sent))) => assert_eq!(id, sent),
		_ => panic!("no request to unregister was sent"),
	}

	drop(receiver);
	match AsyncSystem::unregister_last(&world, Some(id)) {
		Unregistered::Refused(AsyncOperation::System(SystemOperation::Unregister(back))) => {
			assert_eq!(id, back)
		}
		_ => panic!("the request was not handed back"),
	}
}

#[test]
fn retiring_keeps_the_unmarked_in_order() {
	assert_eq!(vec![1, 3, 5], retire(vec![1, 2, 3, 4, 5], &vec![false, true, false, true]));
	assert_eq!(vec![1, 2], retire(vec![1, 2], &vec![]));
	assert_eq!(Vec::<u8>::new(), retire(vec![1, 2], &vec![true, true, true]));
	assert_eq!(Vec::<u8>::new(), retire(Vec::<u8>::new(), &vec![true]));
}
