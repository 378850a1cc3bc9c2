//! Engine of a live network-connection monitor: flow identity, the flow
//! table with its merge and update rules, packet classification and the
//! correlation of flows with the processes that own them.

pub mod capture;
pub mod connection;
pub mod device;
pub mod display;
pub mod endpoint;
pub mod flow_table;
pub mod laws;
pub mod process;
pub mod report;
pub mod sampler;
pub mod slicing;
pub mod timestamp;
