//! Telemetry packet distribution and lifecycle: the packet envelope, the fan-out
//! bus, the point-to-point uplink queue, the stamping sender, the shutdown flag
//! and the supervised-loop rules.

pub mod bus;
pub mod framer;
pub mod packet;
pub mod producers;
pub mod sender;
pub mod signal;
pub mod supervise;
pub mod uplink;
