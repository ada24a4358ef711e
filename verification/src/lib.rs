//! Core of a port-conflict and runaway-duplicate-process diagnostic utility.
//!
//! The library enumerates live processes, walks their descriptor tables as
//! decoded socket metadata, recovers bound local ports, applies a guarded
//! termination policy, and detects program names that appear as suspiciously
//! many running instances.

pub mod instances;
pub mod ports;
pub mod process;
pub mod response;
pub mod shell_commands;
pub mod sockets;
pub mod strutil;
pub mod terminate;
