//! GPU devices and the processes using them.
use vstd::prelude::*;

verus! {

/// A process holding memory on a GPU.
#[derive(Debug, Clone)]
pub struct GpuProcessData {
    pub pid: u32,
    pub used_vram_bytes: u64,
}

/// One GPU device.
#[derive(Debug, Clone)]
pub struct GpuData {
    pub index: u32,
    pub name: String,
    pub utilization_pct: u32,
    pub memory_used_bytes: u64,
    pub memory_total_bytes: u64,
    pub temperature_c: u32,
    pub processes: Vec<GpuProcessData>,
}

} // verus!
