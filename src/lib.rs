use vstd::prelude::*;

pub mod device;
pub mod dispatch;
pub mod home;
pub mod json;
pub mod provider;
pub mod queue;
pub mod rpc;
pub mod server;
pub mod transport;

verus! {

/// Where the server listens by default.
pub const DEFAULT_TCP_SOCKET: &'static str = "127.0.0.1:54321";

pub const DEFAULT_UDP_SOCKET: &'static str = "127.0.0.1:55555";

} // verus!
