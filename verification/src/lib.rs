//! Synchronization core of a desktop dock widget that shows a single shared,
//! ordered task list and keeps it in step with a remote server over a
//! persistent bidirectional connection.
//!
//! The library holds the parts worth specifying: the operation-log model and
//! the function that applies one operation to a state snapshot ([`tasks`]),
//! the wire codec for operations ([`wire`], [`codec`]), the session state
//! machine and reconciliation core ([`session`]), the text command
//! interpreter ([`command`]), the single-flight send queue ([`sendq`]),
//! the endpoint construction over the `url` crate ([`urls`]), and the
//! window-manager vocabulary ([`wm`]). Window creation, rendering, file
//! and network I/O live outside the library and drive it through plain
//! values.

pub mod codec;
pub mod command;
pub mod sendq;
pub mod session;
pub mod tasks;
pub mod urls;
pub mod wire;
pub mod wm;
