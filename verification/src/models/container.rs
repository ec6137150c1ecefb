//! Container sort columns and lifecycle states.
use vstd::prelude::*;

verus! {

/// Column by which the container table is ordered.
#[derive(Debug, Clone, Copy, PartialEq, Eq, Structural, Default)]
pub enum ContainerSortColumn {
    #[default]
    Name,
    Cpu,
    Memory,
    NetRecv,
    NetSent,
    DiskRead,
    DiskWrite,
}

/// Lifecycle state of a container.
#[derive(Clone, Copy, Debug, PartialEq, Eq, Structural, Default)]
pub enum ContainerStatus {
    Running,
    Paused,
    Restarting,
    Exited,
    Dead,
    #[default]
    Unknown,
}

/// The label shown for each container state.
pub open spec fn container_status_label(s: ContainerStatus) -> Seq<char> {
    match s {
        ContainerStatus::Running => "activo"@,
        ContainerStatus::Paused => "pausado"@,
        ContainerStatus::Restarting => "reiniciando"@,
        ContainerStatus::Exited => "salido"@,
        ContainerStatus::Dead => "muerto"@,
        ContainerStatus::Unknown => "desconocido"@,
    }
}

impl ContainerStatus {
    pub fn as_str(&self) -> (r: &'static str)
        ensures
            r@ == container_status_label(*self),
    {
        match self {
            ContainerStatus::Running => "activo",
            ContainerStatus::Paused => "pausado",
            ContainerStatus::Restarting => "reiniciando",
            ContainerStatus::Exited => "salido",
            ContainerStatus::Dead => "muerto",
            ContainerStatus::Unknown => "desconocido",
        }
    }
}

} // verus!
