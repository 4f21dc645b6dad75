//! The session runtime: lifecycle control, retry classification and the
//! product event protocol.

pub mod control;
pub mod retry;
pub mod tools;
pub mod recovery;
pub mod events;
pub mod content;
pub mod host;
pub mod interactions;
pub mod delivery;
pub mod approval_flow;
pub mod turn;
pub mod tool_call;
