//! A bridge between asynchronous tasks and the single-threaded update loop of a
//! Bevy `World`.
//!
//! Producers on any thread hand [`AsyncOperation`]s to an [`OperationSender`]. Once per
//! frame the host thread drains every live channel into the [`WorldOperationQueue`]
//! ([`receive_operations`]) and then applies the buffered operations in arrival order
//! ([`apply_operations`]). Tasks that want to observe the world register a waiter with
//! the wait-for engine ([`StartWaitingFor`]), which delivers the awaited value through a
//! dedicated channel as soon as a poll finds it.
//!
//! Everything in this crate is non-blocking: the host thread never waits on a channel.
pub mod channel;
pub mod command;
pub mod entity;
pub mod host;
pub mod operation;
pub mod registry;
pub mod retire;
pub mod system;
pub mod wait_for;
pub mod world;

pub use crate::channel::Delivery;
pub use crate::channel::InvariantBroken;
pub use crate::channel::Received;
pub use crate::channel::Reception;
pub use crate::channel::SendOutcome;
pub use crate::command::BoxedCommand;
pub use crate::command::CommandQueueBuilder;
pub use crate::command::CommandQueueSender;
pub use crate::entity::AsyncComponent;
pub use crate::entity::AsyncEntity;
pub use crate::entity::EntityOperation;
pub use crate::entity::SpawnedEntity;
pub use crate::operation::apply_operations;
pub use crate::operation::receive_operations;
pub use crate::operation::ApplyReport;
pub use crate::operation::AsyncOperation;
pub use crate::operation::DrainStep;
pub use crate::operation::OperationKind;
pub use crate::operation::OperationQueue;
pub use crate::operation::OperationReceiver;
pub use crate::operation::OperationReceivers;
pub use crate::operation::OperationSender;
pub use crate::operation::WorldOperationQueue;
pub use crate::registry::drive_waiting_for;
pub use crate::registry::ActiveWaiters;
pub use crate::registry::WaitKind;
pub use crate::registry::WaiterCache;
pub use crate::system::run_received;
pub use crate::system::run_with_io;
pub use crate::system::AsyncSystem;
pub use crate::system::SystemOperation;
pub use crate::system::Unregistered;
pub use crate::wait_for::process_waiting_components;
pub use crate::wait_for::process_waiting_messages;
pub use crate::wait_for::process_waiting_resources;
pub use crate::wait_for::Attempt;
pub use crate::wait_for::MessageReport;
pub use crate::wait_for::PollReport;
pub use crate::wait_for::StartWaitingFor;
pub use crate::wait_for::StopWaitingFor;
pub use crate::wait_for::WaitingFor;
pub use crate::wait_for::Waiters;
pub use crate::world::AsyncMessages;
pub use crate::world::AsyncResource;
pub use crate::world::AsyncWorld;
