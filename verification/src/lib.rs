//! A handoff core for completion-port style asynchronous I/O: an anchor object
//! embeds a fixed-layout completion record, temporarily owns a polymorphic
//! handler while an operation is in flight, and a linear guard forces the
//! caller to declare the operation's synchronous outcome exactly once.

pub mod container_of;
pub mod handlers;
pub mod iocp;
