//! Orchestration core of an agent runtime: the registry that merges the tools
//! and resources of several connected systems, the reply loop that drives a
//! conversation turn by turn, and the rules by which a named credential is
//! looked up.

pub mod agent;
pub mod capabilities;
pub mod catalog;
pub mod dispatch;
pub mod key_manager;
pub mod message;
pub mod reply;
pub mod system;
