//! GPU metrics, each of which the backend may fail to supply.

use vstd::prelude::*;

verus! {

/// What one GPU device reported; a field that could not be read is `None`.
#[derive(Debug, Clone, PartialEq, Eq)]
pub struct GpuMetrics {
    pub name: Option<String>,
    pub temp_c: Option<u32>,
    pub usage_percent: Option<u32>,
    pub vram_used_mb: Option<u64>,
    pub vram_total_mb: Option<u64>,
    pub fan_percent: Option<u32>,
}

/// Mathematical content of a [`GpuMetrics`].
pub struct GpuModel {
    pub name: Option<Seq<char>>,
    pub temp_c: Option<u32>,
    pub usage_percent: Option<u32>,
    pub vram_used_mb: Option<u64>,
    pub vram_total_mb: Option<u64>,
    pub fan_percent: Option<u32>,
}

impl View for GpuMetrics {
    type V = GpuModel;

    open spec fn view(&self) -> GpuModel {
        GpuModel {
            name: match self.name {
                Some(n) => Some(n@),
                None => None,
            },
            temp_c: self.temp_c,
            usage_percent: self.usage_percent,
            vram_used_mb: self.vram_used_mb,
            vram_total_mb: self.vram_total_mb,
            fan_percent: self.fan_percent,
        }
    }
}

/// The entry that stands for a GPU of which nothing is known.
pub open spec fn absent_gpu() -> GpuModel {
    GpuModel {
        name: None,
        temp_c: None,
        usage_percent: None,
        vram_used_mb: None,
        vram_total_mb: None,
        fan_percent: None,
    }
}

/// The devices of a vector, each taken by its view.
pub open spec fn gpu_models(devices: Seq<GpuMetrics>) -> Seq<GpuModel> {
    devices.map_values(|d: GpuMetrics| d@)
}

/// The content of what a probe of the GPU backend gave.
pub open spec fn probe_models(probe: Option<Vec<GpuMetrics>>) -> Option<Seq<GpuModel>> {
    match probe {
        Some(devices) => Some(gpu_models(devices@)),
        None => None,
    }
}

/// The GPU list for a probe: the devices found, or one absent entry where the
/// backend was not available at all.
pub open spec fn observed_gpus(probe: Option<Seq<GpuModel>>) -> Seq<GpuModel> {
    match probe {
        Some(devices) => devices,
        None => seq![absent_gpu()],
    }
}

impl GpuMetrics {
    /// The entry with every field absent.
    pub fn absent() -> (metrics: GpuMetrics)
        ensures
            metrics@ == absent_gpu(),
    {
        GpuMetrics {
            name: None,
            temp_c: None,
            usage_percent: None,
            vram_used_mb: None,
            vram_total_mb: None,
            fan_percent: None,
        }
    }
}

/// The GPU list of a snapshot. `probe` is `None` where the GPU backend could
/// not be reached; the list then holds a single entry with every field
/// absent, so that it is never empty for want of a backend.
pub fn gpu_metrics(probe: Option<Vec<GpuMetrics>>) -> (devices: Vec<GpuMetrics>)
    ensures
        gpu_models(devices@) == observed_gpus(probe_models(probe)),
{
    match probe {
        Some(devices) => devices,
        None => {
            let mut devices: Vec<GpuMetrics> = Vec::new();
            devices.push(GpuMetrics::absent());
            devices
        },
    }
}

} // verus!
