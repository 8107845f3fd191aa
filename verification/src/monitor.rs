//! The sampler: a telemetry source that is refreshed on demand and read
//! through accessors.
//!
//! The source is `sysinfo::System`. Proofs cannot look inside it, so what it
//! holds between two refreshes is given names here, and each accessor is
//! stated as a read of what is held.

use crate::cpu::{core_frequencies, core_model_name, core_models, core_usages};
use crate::cpu::{frequencies, model_name, usages, CoreModel, CoreSample};
use crate::gpu::{gpu_metrics, observed_gpus, probe_models, GpuMetrics};
use crate::process::{group_by_name, group_models, grouped, is_grouping_of, sample_models};
use crate::process::{ProcessGroup, ProcessSample, SampleModel};
use crate::report::Snapshot;
use crate::text::{identity_line, identity_text};
use sysinfo::System;
use vstd::multiset::Multiset;
use vstd::prelude::*;

verus! {

/// `sysinfo::System`, the telemetry source. Its inside is not visible to proofs.
#[verifier::external_type_specification]
#[verifier::external_body]
pub struct ExSystem(sysinfo::System);

/// The CPU cores that a `System` holds since it was last refreshed, in the
/// order of its list: brand, usage and frequency of each.
pub uninterp spec fn system_cores(sys: System) -> Seq<CoreModel>;

/// The processes that a `System` holds since it was last refreshed: name, CPU
/// share and resident memory of each. They have no order.
pub uninterp spec fn system_processes(sys: System) -> Multiset<SampleModel>;

/// The total memory in bytes that a `System` holds since it was last refreshed.
pub uninterp spec fn system_total_memory(sys: System) -> u64;

/// The available memory in bytes that a `System` holds since it was last
/// refreshed.
pub uninterp spec fn system_available_memory(sys: System) -> u64;

/// The used memory in bytes that a `System` gives from what it holds.
pub uninterp spec fn system_used_memory(sys: System) -> u64;

/// `System::new_all`: a source that has loaded everything once. Nothing is
/// claimed of what it holds.
pub assume_specification[ System::new_all ]() -> (sys: System)
;

/// `System::refresh_all`: reads memory, CPUs and processes anew. Nothing is
/// claimed of what the source holds afterwards.
pub assume_specification[ System::refresh_all ](sys: &mut System)
;

/// `System::total_memory`: returns the stored figure; the host is not read.
pub assume_specification[ System::total_memory ](sys: &System) -> (bytes: u64)
    ensures
        bytes == system_total_memory(*sys),
;

/// `System::available_memory`: returns the stored figure; the host is not read.
pub assume_specification[ System::available_memory ](sys: &System) -> (bytes: u64)
    ensures
        bytes == system_available_memory(*sys),
;

/// `System::used_memory`: computed from stored figures alone. On Linux and on
/// Windows it is the total minus the available memory, a plain subtraction,
/// so the call is only made where that cannot go below zero.
pub assume_specification[ System::used_memory ](sys: &System) -> (bytes: u64)
    requires
        system_available_memory(*sys) <= system_total_memory(*sys),
    ensures
        bytes == system_used_memory(*sys),
;

/// `System::uptime`: seconds since boot, read from the host at each call.
/// Nothing is claimed of the figure.
pub assume_specification[ System::uptime ]() -> (seconds: u64)
;

/// `System::kernel_version`: read from the host at each call; `None` where it
/// cannot be had.
pub assume_specification[ System::kernel_version ]() -> (version: Option<String>)
;

/// `System::long_os_version`: read from the host at each call; `None` where it
/// cannot be had.
pub assume_specification[ System::long_os_version ]() -> (version: Option<String>)
;

/// `System::distribution_id`: read from the host at each call.
pub assume_specification[ System::distribution_id ]() -> (id: String)
;

/// `System::cpus`, with each core reduced to `Cpu::brand`, the bits of
/// `Cpu::cpu_usage` and `Cpu::frequency`. All four return stored values, and
/// the list keeps its order.
#[verifier::external_body]
fn system_core_samples(sys: &System) -> (cores: Vec<CoreSample>)
    ensures
        core_models(cores@) == system_cores(*sys),
{
    sys.cpus().iter().map(
        |cpu|
            CoreSample {
                brand: cpu.brand().to_string(),
                usage_bits: cpu.cpu_usage().to_bits(),
                frequency: cpu.frequency(),
            },
    ).collect()
}

/// `System::processes`, with each process reduced to `Process::name` (decoded
/// lossily), the bits of `Process::cpu_usage` and `Process::memory`. All four
/// return stored values; the order in which the table is walked is left open.
#[verifier::external_body]
fn system_process_samples(sys: &System) -> (samples: Vec<ProcessSample>)
    ensures
        sample_models(samples@).to_multiset() == system_processes(*sys),
{
    sys.processes().values().map(
        |process|
            ProcessSample {
                name: process.name().to_string_lossy().to_string(),
                cpu_usage_bits: process.cpu_usage().to_bits(),
                memory: process.memory(),
            },
    ).collect()
}

/// What a [`Monitor`] holds between two refreshes.
pub struct SystemModel {
    pub cores: Seq<CoreModel>,
    pub total_memory: u64,
    pub used_memory: u64,
    pub available_memory: u64,
    pub processes: Multiset<SampleModel>,
}

/// Samples the host and keeps what the last refresh found.
pub struct Monitor {
    sys: System,
}

impl View for Monitor {
    type V = SystemModel;

    closed spec fn view(&self) -> SystemModel {
        SystemModel {
            cores: system_cores(self.sys),
            total_memory: system_total_memory(self.sys),
            used_memory: system_used_memory(self.sys),
            available_memory: system_available_memory(self.sys),
            processes: system_processes(self.sys),
        }
    }
}

impl Monitor {
    /// A monitor that has sampled the host once.
    pub fn new() -> (monitor: Monitor) {
        Monitor { sys: System::new_all() }
    }

    /// Samples the host again. What the monitor held before is gone, and
    /// nothing is known of what it holds now.
    pub fn refresh(&mut self) {
        self.sys.refresh_all();
    }

    /// The processes held, in no particular order.
    pub fn processes(&self) -> (samples: Vec<ProcessSample>)
        ensures
            sample_models(samples@).to_multiset() == self@.processes,
    {
        system_process_samples(&self.sys)
    }

    /// The processes held, one group per name: what [`group_by_name`] makes
    /// of them in one of the orders in which they can be listed. Which order
    /// that is decides only which process of a name is the last.
    pub fn processes_grouped(&self) -> (groups: Vec<ProcessGroup>)
        ensures
            exists|samples: Seq<SampleModel>|
                {
                    &&& samples.to_multiset() == self@.processes
                    &&& group_models(groups@) == #[trigger] grouped(samples)
                    &&& is_grouping_of(group_models(groups@), samples)
                },
    {
        let samples = self.processes();
        group_by_name(&samples)
    }

    /// Total memory of the host in bytes.
    pub fn total_memory(&self) -> (bytes: u64)
        ensures
            bytes == self@.total_memory,
    {
        self.sys.total_memory()
    }

    /// Memory in bytes that is in use. The monitor must not hold more
    /// available than total memory; [`Monitor::used_memory_checked`] tests it.
    pub fn used_memory(&self) -> (bytes: u64)
        requires
            self@.available_memory <= self@.total_memory,
        ensures
            bytes == self@.used_memory,
    {
        self.sys.used_memory()
    }

    /// Memory in bytes that is in use, or `None` where the monitor holds more
    /// available than total memory.
    pub fn used_memory_checked(&self) -> (bytes: Option<u64>)
        ensures
            bytes == if self@.available_memory <= self@.total_memory {
                Some(self@.used_memory)
            } else {
                None
            },
    {
        if self.sys.available_memory() <= self.sys.total_memory() {
            Some(self.used_memory())
        } else {
            None
        }
    }

    /// Memory in bytes that is available for use.
    pub fn available_memory(&self) -> (bytes: u64)
        ensures
            bytes == self@.available_memory,
    {
        self.sys.available_memory()
    }

    /// The usage of each core, in the order of the cores.
    pub fn cpu_usage(&self) -> (list: Vec<u32>)
        ensures
            list@ == usages(self@.cores),
    {
        let cores = system_core_samples(&self.sys);
        core_usages(&cores)
    }

    /// The CPU model: the brand of the first core, or `<unknown>` where no
    /// core is visible.
    pub fn cpu_model(&self) -> (name: String)
        ensures
            name@ == model_name(self@.cores),
    {
        let cores = system_core_samples(&self.sys);
        core_model_name(&cores)
    }

    /// The frequency of each core in MHz, in the order of the cores.
    pub fn cpu_frequencies(&self) -> (list: Vec<u64>)
        ensures
            list@ == frequencies(self@.cores),
    {
        let cores = system_core_samples(&self.sys);
        core_frequencies(&cores)
    }

    /// Seconds since the host booted, as the host gives them at this moment.
    pub fn uptime_seconds(&self) -> (seconds: u64) {
        System::uptime()
    }

    /// The identity line of the host for the architecture `arch`. The other
    /// parts are read from the host at this moment; whatever they are, the
    /// line is built from them as [`identity_text`] says.
    pub fn system_info(&self, arch: &str) -> (line: String)
        ensures
            exists|distro: Seq<char>, kernel: Option<Seq<char>>, os_version: Option<Seq<char>>|
                line@ == #[trigger] identity_text(distro, kernel, arch@, os_version),
    {
        let kernel = System::kernel_version();
        let os_version = System::long_os_version();
        let distro = System::distribution_id();
        identity_line(distro.as_str(), &kernel, arch, &os_version)
    }

    /// Everything a report is shaped from, as plain values. `gpu_probe` is what
    /// the GPU backend gave, `None` where it could not be reached.
    pub fn snapshot(&self, arch: &str, gpu_probe: Option<Vec<GpuMetrics>>) -> (snapshot: Snapshot)
        ensures
            snapshot@.cores == self@.cores,
            snapshot@.total_memory == self@.total_memory,
            snapshot@.available_memory == self@.available_memory,
            snapshot@.processes.to_multiset() == self@.processes,
            snapshot@.gpus == observed_gpus(probe_models(gpu_probe)),
            exists|distro: Seq<char>, kernel: Option<Seq<char>>, os_version: Option<Seq<char>>|
                snapshot@.identity == #[trigger] identity_text(distro, kernel, arch@, os_version),
    {
        Snapshot {
            identity: self.system_info(arch),
            uptime_seconds: self.uptime_seconds(),
            cores: system_core_samples(&self.sys),
            total_memory: self.total_memory(),
            available_memory: self.available_memory(),
            gpus: gpu_metrics(gpu_probe),
            processes: self.processes(),
        }
    }
}

} // verus!
