pub mod container;
pub mod cpu;
pub mod gpu;
pub mod network;
pub mod process;
pub mod swarm;

pub use container::{ContainerSortColumn, ContainerStatus};
pub use cpu::CoreType;
pub use gpu::{GpuData, GpuProcessData};
pub use network::NetworkInterface;
pub use process::{
    DatabaseType, HttpProxyType, MessageBrokerType, NodeRuntimeType, ProcessSortColumn,
    ProcessStatus,
};
pub use swarm::{SwarmData, SwarmNodeData, SwarmServiceData};
