//! Heimwatch: per-application system metrics — parsing of kernel-provided
//! text, per-interval delta computation, aggregation by application, and the
//! decisions of the collectors — with their contracts proved by Verus.

pub mod text;
pub mod metrics;
pub mod error;
pub mod util;
pub mod process;
pub mod gpu;
pub mod focus;
pub mod probe;
pub mod apps;
pub mod network;
pub mod disk;
pub mod cpu;
pub mod memory;
pub mod power;
pub mod logging;
pub mod snapshot;
pub mod table;
pub mod service;
pub mod daemon;
