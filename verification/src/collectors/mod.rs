//! Parsers and decision logic behind the metric collectors.
pub mod broker;
pub mod containers;
pub mod cpu_times;
pub mod database;
pub mod disk;
pub mod http;
pub mod network;
pub mod node_runtime;
pub mod ports;
pub mod process_net;
pub mod proxy;
pub mod psi;
pub mod swarm;
pub mod system;
pub mod tcp_stats;
