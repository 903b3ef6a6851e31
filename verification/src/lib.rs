//! A remote-monitoring station agent's core: command classification, the
//! station's check-in state and telemetry snapshot assembly, the binary wire
//! codec for snapshots, the bounded-retry send protocol, and the
//! configuration rules. The process around it owns the sockets, the clock
//! and the log; every rule here is stated in a contract and verified.

pub mod codec;
pub mod commands;
pub mod filecontrol;
pub mod provider;
pub mod station;
pub mod tcpserver;
