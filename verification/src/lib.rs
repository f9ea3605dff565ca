//! Policy layer of a TCP connection pool: address filtering, load-balancing
//! selection, and the recycle decision that retires worn-out or dead
//! connections. All I/O (name resolution, connecting, probing, sleeping) is
//! left to the surrounding application; this crate makes the decisions.

pub mod addr;
pub mod balance;
pub mod manager;
pub mod validate;

pub use addr::AddressFamily;
pub use addr::ResolutionError;
pub use addr::SockAddr;
pub use balance::LoadBalancing;
pub use manager::TcpConnectionManager;
pub use validate::COOLDOWN_MILLIS;
pub use validate::ProbeClass;
pub use validate::ProbeErrorKind;
pub use validate::ProbeOutcome;
pub use validate::RecycleError;
