//! ICMP echo probing engine: wire codec, protocol selection, kernel filter
//! programs, in-flight session tracking and the send/receive decisions of a
//! probing socket.
pub mod engine;
pub mod error;
pub mod filter;
pub mod icmp;
pub mod proto;
pub mod session;
pub mod timer;
pub mod wire;
pub use error::PingError;
pub use icmp::IcmpPacket;
pub use proto::{Probe, Proto, SelectionPolicy};
pub use session::{Session, SessionTracker};
pub use timer::Timer;
