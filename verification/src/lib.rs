//! Command-routing core of a terminal-session capture/playback/upload tool.
//!
//! Raw process arguments are resolved against a fixed argument grammar into
//! exactly one [`invocation::Invocation`] plus [`invocation::GlobalOptions`],
//! the resolved invocation is mapped by the router onto a single collaborator
//! action, and a candidate server endpoint is validated before it may be
//! persisted as the active server.

pub mod invocation;
pub mod resolver;
pub mod router;
pub mod server;
