use bevy_async_ecs::AsyncOperation;
use bevy_async_ecs::BoxedCommand;
use bevy_async_ecs::EntityOperation;
use bevy_async_ecs::OperationKind;
use bevy_async_ecs::OperationQueue;
use bevy_async_ecs::SystemOperation;
use bevy_ecs::entity::Entity;
use bevy_ecs::resource::Resource;
use bevy_ecs::world::World;

struct Trace(Vec<u8>);

impl Resource for Trace {}

fn tagged(tag: u8) -> AsyncOperation {
	BoxedCommand::new(move |world: &mut World| {
		world.resource_mut::<Trace>().0.push(tag);
	})
	.into()
}

#[test]
fn coverage() {
	let id = Entity::PLACEHOLDER;

	let queue1 = {
		let mut queue = OperationQueue::default();
		queue.push(EntityOperation::Despawn(id).into());
		queue
	};

	let queue2 = OperationQueue::from_vec(vec![EntityOperation::Despawn(id).into()]);

	assert_eq!(queue1.len(), queue2.len());
}

#[test]
fn conversions_pick_the_matching_variant() {
	let id = Entity::from_bits(3);

	assert!(matches!(
		AsyncOperation::from(EntityOperation::Despawn(id)),
		AsyncOperation::Entity(EntityOperation::Despawn(back)) if back == id
	));
	assert!(matches!(
		AsyncOperation::from(SystemOperation::Run(id)),
		AsyncOperation::System(SystemOperation::Run(back)) if back == id
	));
	assert!(matches!(
		AsyncOperation::from(OperationQueue::new()),
		AsyncOperation::Queue(_)
	));
	assert!(matches!(tagged(1), AsyncOperation::Command(_)));
}

#[test]
fn nested_queues_are_applied_depth_first() {
	let mut world = World::new();
	world.insert_resource(Trace(Vec::new()));

	let inner = OperationQueue::from_vec(vec![tagged(2), tagged(3)]);
	let mut outer = OperationQueue::new();
	outer.push(tagged(1));
	outer.push(inner.into());
	outer.push(OperationQueue::new().into());
	outer.push(tagged(4));
	assert_eq!(4, outer.len());

	let report = outer.apply(&mut world);

	assert_eq!(vec![1, 2, 3, 4], world.resource::<Trace>().0);
	assert_eq!(vec![OperationKind::Command; 4], report.applied);
	assert_eq!(None, report.failure);
}

#[test]
fn the_report_names_what_was_applied() {
	let mut world = World::new();
	world.insert_resource(Trace(Vec::new()));
	let victim = world.spawn_empty().id();
	let (sender, receiver) = async_channel::bounded(1);
	let (named_sender, named_receiver) = async_channel::bounded(1);

	let queue = OperationQueue::from_vec(vec![
		EntityOperation::SpawnEmpty(sender).into(),
		tagged(9),
		EntityOperation::SpawnNamed("lol".to_string(), named_sender).into(),
		EntityOperation::Despawn(victim).into(),
		SystemOperation::Unregister(victim).into(),
	]);
	let report = AsyncOperation::from(queue).apply(&mut world);

	assert_eq!(
		vec![
			OperationKind::SpawnEmpty,
			OperationKind::Command,
			OperationKind::SpawnNamed,
			OperationKind::Despawn,
			OperationKind::UnregisterSystem,
		],
		report.applied
	);
	assert_eq!(None, report.failure);
	let spawned = receiver.try_recv().unwrap();
	let named = named_receiver.try_recv().unwrap();
	assert!(world.get_entity(spawned).is_ok());
	assert!(world.get_entity(named).is_ok());
	assert!(spawned != named);
	assert!(world.get_entity(victim).is_err());
}

#[test]
fn a_broken_invariant_stops_the_queue() {
	let mut world = World::new();
	world.insert_resource(Trace(Vec::new()));
	let (sender, receiver) = async_channel::bounded(1);
	sender.try_send(Entity::PLACEHOLDER).unwrap();

	let queue = OperationQueue::from_vec(vec![
		tagged(1),
		OperationQueue::from_vec(vec![tagged(2), EntityOperation::SpawnEmpty(sender).into(), tagged(3)]).into(),
		tagged(4),
	]);
	let report = queue.apply(&mut world);

	assert_eq!(
		vec![OperationKind::Command, OperationKind::Command],
		report.applied
	);
	assert_eq!(Some(bevy_async_ecs::InvariantBroken::ChannelFull), report.failure);
	assert_eq!(vec![1, 2], world.resource::<Trace>().0);
	assert_eq!(Ok(Entity::PLACEHOLDER), receiver.try_recv());
	assert!(receiver.try_recv().is_err());
}
