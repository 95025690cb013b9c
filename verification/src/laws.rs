//! What the operations promise: relations between what goes into them and what
//! comes out, stated on the values themselves.

pub mod commands;
pub mod endings;
pub mod forwarding;
pub mod keeping;
pub mod launching;
pub mod leases;
pub mod numbers;
pub mod parts;
pub mod places;
pub mod restart;
pub mod settling;
pub mod showing;
pub mod summaries;
pub mod texts;
pub mod tools;
pub mod watch;
