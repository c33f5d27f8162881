//! A small command bus: commands are queued in order and executed together,
//! each producing one line of text.

pub mod bus;
pub mod command;

pub use bus::CommandBus;
pub use command::AddItem;
pub use command::Command;
pub use command::RemoveItem;
