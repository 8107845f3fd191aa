//! The presenter: shapes one snapshot into the rows of a report.
//!
//! Everything here is a function of the snapshot it is given. Turning the rows
//! into text is left to the caller.

use crate::cpu::{core_model_name, core_models, model_name, CoreModel, CoreSample};
use crate::gpu::{gpu_models, GpuMetrics, GpuModel};
use crate::process::{group_by_name, group_models, grouped, sample_models};
use crate::process::{GroupModel, ProcessGroup, ProcessSample, SampleModel};
use crate::ranking::{is_ranking_of, lemma_ranking_unique, rank_by_memory};
use crate::units::{bytes_to_megabytes, megabytes};
use vstd::prelude::*;

verus! {

/// How many process groups a report shows at most.
pub const TOP_PROCESS_LIMIT: usize = 15;

/// One line of the per-core table. Cores are numbered from one.
#[derive(Debug, Clone, Copy, PartialEq, Eq)]
pub struct CoreRow {
    pub index: usize,
    pub frequency: u64,
    pub usage_bits: u32,
}

/// The memory section, in whole megabytes.
#[derive(Debug, Clone, Copy, PartialEq, Eq)]
pub struct MemorySummary {
    pub total_mb: u64,
    pub used_mb: u64,
    pub available_mb: u64,
}

/// One line of the GPU table, with every absent field replaced.
#[derive(Debug, Clone, PartialEq, Eq)]
pub struct GpuRow {
    pub name: String,
    pub temp_c: u32,
    pub usage_percent: u32,
    pub vram_used_mb: u64,
    pub vram_total_mb: u64,
    pub fan_percent: u32,
}

/// Mathematical content of a [`GpuRow`].
pub struct GpuRowModel {
    pub name: Seq<char>,
    pub temp_c: u32,
    pub usage_percent: u32,
    pub vram_used_mb: u64,
    pub vram_total_mb: u64,
    pub fan_percent: u32,
}

impl View for GpuRow {
    type V = GpuRowModel;

    open spec fn view(&self) -> GpuRowModel {
        GpuRowModel {
            name: self.name@,
            temp_c: self.temp_c,
            usage_percent: self.usage_percent,
            vram_used_mb: self.vram_used_mb,
            vram_total_mb: self.vram_total_mb,
            fan_percent: self.fan_percent,
        }
    }
}

/// One line of the process table. Ranks are numbered from one.
#[derive(Debug, Clone, PartialEq, Eq)]
pub struct ProcessRow {
    pub rank: usize,
    pub name: String,
    pub count: usize,
    pub cpu_usage_bits: u32,
    pub memory_mb: u64,
}

/// Mathematical content of a [`ProcessRow`].
pub struct ProcessRowModel {
    pub rank: nat,
    pub name: Seq<char>,
    pub count: nat,
    pub cpu_usage_bits: u32,
    pub memory_mb: u64,
}

impl View for ProcessRow {
    type V = ProcessRowModel;

    open spec fn view(&self) -> ProcessRowModel {
        ProcessRowModel {
            rank: self.rank as nat,
            name: self.name@,
            count: self.count as nat,
            cpu_usage_bits: self.cpu_usage_bits,
            memory_mb: self.memory_mb,
        }
    }
}

/// The rows of a vector, each taken by its view.
pub open spec fn gpu_row_models(rows: Seq<GpuRow>) -> Seq<GpuRowModel> {
    rows.map_values(|r: GpuRow| r@)
}

/// The rows of a vector, each taken by its view.
pub open spec fn process_row_models(rows: Seq<ProcessRow>) -> Seq<ProcessRowModel> {
    rows.map_values(|r: ProcessRow| r@)
}

/// The name shown for a GPU that did not report one.
pub open spec fn unknown_gpu_name() -> Seq<char> {
    "Unknown GPU"@
}

/// The row of the core at position `i`.
pub open spec fn core_row_of(core: CoreModel, i: int) -> CoreRow {
    CoreRow { index: (i + 1) as usize, frequency: core.frequency, usage_bits: core.usage_bits }
}

/// The per-core table: one row per core, in order.
pub open spec fn core_rows_of(cores: Seq<CoreModel>) -> Seq<CoreRow> {
    Seq::new(cores.len(), |i: int| core_row_of(cores[i], i))
}

/// The memory section for a total and an available amount in bytes: each is
/// cut down to whole megabytes, and what is used is their difference.
pub open spec fn summary_of(total_bytes: u64, available_bytes: u64) -> MemorySummary {
    MemorySummary {
        total_mb: megabytes(total_bytes),
        used_mb: (megabytes(total_bytes) - megabytes(available_bytes)) as u64,
        available_mb: megabytes(available_bytes),
    }
}

/// The row of one GPU: the name or "Unknown GPU", and each figure or zero.
pub open spec fn gpu_row_of(gpu: GpuModel) -> GpuRowModel {
    GpuRowModel {
        name: match gpu.name {
            Some(n) => n,
            None => unknown_gpu_name(),
        },
        temp_c: match gpu.temp_c {
            Some(v) => v,
            None => 0,
        },
        usage_percent: match gpu.usage_percent {
            Some(v) => v,
            None => 0,
        },
        vram_used_mb: match gpu.vram_used_mb {
            Some(v) => v,
            None => 0,
        },
        vram_total_mb: match gpu.vram_total_mb {
            Some(v) => v,
            None => 0,
        },
        fan_percent: match gpu.fan_percent {
            Some(v) => v,
            None => 0,
        },
    }
}

/// The GPU table: one row per entry, in order.
pub open spec fn gpu_rows_of(gpus: Seq<GpuModel>) -> Seq<GpuRowModel> {
    gpus.map_values(|g: GpuModel| gpu_row_of(g))
}

/// The row of the group at position `i` of a ranking.
pub open spec fn process_row_of(group: GroupModel, i: int) -> ProcessRowModel {
    ProcessRowModel {
        rank: (i + 1) as nat,
        name: group.name,
        count: group.count,
        cpu_usage_bits: group.cpu_usage_bits,
        memory_mb: megabytes(group.memory),
    }
}

/// How many rows the process table has for `groups` groups.
pub open spec fn shown(groups: nat) -> nat {
    if groups <= TOP_PROCESS_LIMIT {
        groups
    } else {
        TOP_PROCESS_LIMIT as nat
    }
}

/// The rows of the first groups of a ranking, as many as a report shows.
pub open spec fn top_rows_of(ranked: Seq<GroupModel>) -> Seq<ProcessRowModel> {
    Seq::new(shown(ranked.len()), |i: int| process_row_of(ranked[i], i))
}

/// `rows` is the process table of `groups`: the groups ranked by descending
/// memory, cut after the first fifteen.
pub open spec fn is_process_table_of(rows: Seq<ProcessRowModel>, groups: Seq<GroupModel>) -> bool {
    exists|ranked: Seq<GroupModel>|
        is_ranking_of(ranked, groups) && rows == #[trigger] top_rows_of(ranked)
}

/// The per-core table of a snapshot.
pub fn core_rows(cores: &Vec<CoreSample>) -> (rows: Vec<CoreRow>)
    ensures
        rows@ == core_rows_of(core_models(cores@)),
{
    let mut rows: Vec<CoreRow> = Vec::new();
    let mut i: usize = 0;
    while i < cores.len()
        invariant
            i <= cores.len(),
            rows@ == core_rows_of(core_models(cores@)).take(i as int),
        decreases cores.len() - i,
    {
        let core = &cores[i];
        rows.push(CoreRow { index: i + 1, frequency: core.frequency, usage_bits: core.usage_bits });
        i += 1;
    }
    rows
}

/// The memory section for a total and an available amount in bytes.
///
/// The amounts must not give a negative difference once cut down to
/// megabytes; any pair with `available_bytes <= total_bytes` qualifies.
pub fn memory_summary(total_bytes: u64, available_bytes: u64) -> (summary: MemorySummary)
    requires
        megabytes(available_bytes) <= megabytes(total_bytes),
    ensures
        summary == summary_of(total_bytes, available_bytes),
        summary.used_mb == summary.total_mb - summary.available_mb,
{
    let total_mb = bytes_to_megabytes(total_bytes);
    let available_mb = bytes_to_megabytes(available_bytes);
    MemorySummary { total_mb, used_mb: total_mb - available_mb, available_mb }
}

/// Whenever no more memory is available than there is in total, the memory
/// section can be formed, and what it shows as used is exactly the total
/// minus the available amount, both in megabytes.
pub proof fn lemma_used_is_total_minus_available(total_bytes: u64, available_bytes: u64)
    requires
        available_bytes <= total_bytes,
    ensures
        megabytes(available_bytes) <= megabytes(total_bytes),
        summary_of(total_bytes, available_bytes).used_mb == summary_of(
            total_bytes,
            available_bytes,
        ).total_mb - summary_of(total_bytes, available_bytes).available_mb,
{
}

/// The row of one GPU, with "Unknown GPU" for a missing name and zero for
/// each missing figure.
pub fn gpu_row(gpu: &GpuMetrics) -> (row: GpuRow)
    ensures
        row@ == gpu_row_of(gpu@),
{
    GpuRow {
        name: match &gpu.name {
            Some(n) => n.clone(),
            None => "Unknown GPU".to_owned(),
        },
        temp_c: match gpu.temp_c {
            Some(v) => v,
            None => 0,
        },
        usage_percent: match gpu.usage_percent {
            Some(v) => v,
            None => 0,
        },
        vram_used_mb: match gpu.vram_used_mb {
            Some(v) => v,
            None => 0,
        },
        vram_total_mb: match gpu.vram_total_mb {
            Some(v) => v,
            None => 0,
        },
        fan_percent: match gpu.fan_percent {
            Some(v) => v,
            None => 0,
        },
    }
}

/// The GPU table of a snapshot.
pub fn gpu_rows(gpus: &Vec<GpuMetrics>) -> (rows: Vec<GpuRow>)
    ensures
        gpu_row_models(rows@) == gpu_rows_of(gpu_models(gpus@)),
{
    let mut rows: Vec<GpuRow> = Vec::new();
    let mut i: usize = 0;
    while i < gpus.len()
        invariant
            i <= gpus.len(),
            gpu_row_models(rows@) == gpu_rows_of(gpu_models(gpus@)).take(i as int),
        decreases gpus.len() - i,
    {
        let row = gpu_row(&gpus[i]);
        let ghost before = rows@;
        rows.push(row);
        i += 1;
        proof {
            assert(gpu_row_models(before.push(row)) =~= gpu_row_models(before).push(row@));
        }
    }
    rows
}

/// The process table of a list of groups: the groups by descending memory,
/// groups of equal memory in the order given, cut after the first fifteen,
/// each with its rank and its memory in whole megabytes.
pub fn process_rows(groups: &Vec<ProcessGroup>) -> (rows: Vec<ProcessRow>)
    ensures
        is_process_table_of(process_row_models(rows@), group_models(groups@)),
        rows.len() == shown(groups.len() as nat),
        rows.len() <= TOP_PROCESS_LIMIT,
{
    let ranked = rank_by_memory(groups);
    let end = if ranked.len() <= TOP_PROCESS_LIMIT {
        ranked.len()
    } else {
        TOP_PROCESS_LIMIT
    };
    let mut rows: Vec<ProcessRow> = Vec::new();
    let mut i: usize = 0;
    while i < end
        invariant
            i <= end <= ranked.len(),
            end == shown(ranked.len() as nat),
            process_row_models(rows@) == top_rows_of(group_models(ranked@)).take(i as int),
        decreases end - i,
    {
        let group = &ranked[i];
        let row = ProcessRow {
            rank: i + 1,
            name: group.name.clone(),
            count: group.count,
            cpu_usage_bits: group.cpu_usage_bits,
            memory_mb: bytes_to_megabytes(group.memory),
        };
        let ghost before = rows@;
        rows.push(row);
        i += 1;
        proof {
            assert(process_row_models(before.push(row)) =~= process_row_models(before).push(row@));
        }
    }
    assert(process_row_models(rows@) =~= top_rows_of(group_models(ranked@)));
    rows
}

/// The plain values that one refresh of the host leaves to be shown.
#[derive(Debug, Clone, PartialEq, Eq)]
pub struct Snapshot {
    pub identity: String,
    pub uptime_seconds: u64,
    pub cores: Vec<CoreSample>,
    pub total_memory: u64,
    pub available_memory: u64,
    pub gpus: Vec<GpuMetrics>,
    pub processes: Vec<ProcessSample>,
}

/// Mathematical content of a [`Snapshot`].
pub struct SnapshotModel {
    pub identity: Seq<char>,
    pub uptime_seconds: u64,
    pub cores: Seq<CoreModel>,
    pub total_memory: u64,
    pub available_memory: u64,
    pub gpus: Seq<GpuModel>,
    pub processes: Seq<SampleModel>,
}

impl View for Snapshot {
    type V = SnapshotModel;

    open spec fn view(&self) -> SnapshotModel {
        SnapshotModel {
            identity: self.identity@,
            uptime_seconds: self.uptime_seconds,
            cores: core_models(self.cores@),
            total_memory: self.total_memory,
            available_memory: self.available_memory,
            gpus: gpu_models(self.gpus@),
            processes: sample_models(self.processes@),
        }
    }
}

/// One report: the sections of the dashboard in the order in which they are
/// shown.
#[derive(Debug, Clone, PartialEq, Eq)]
pub struct Report {
    pub identity: String,
    pub uptime_seconds: u64,
    pub cpu_model: String,
    pub cores: Vec<CoreRow>,
    pub memory: MemorySummary,
    pub gpus: Vec<GpuRow>,
    pub processes: Vec<ProcessRow>,
}

/// Mathematical content of a [`Report`].
pub struct ReportModel {
    pub identity: Seq<char>,
    pub uptime_seconds: u64,
    pub cpu_model: Seq<char>,
    pub cores: Seq<CoreRow>,
    pub memory: MemorySummary,
    pub gpus: Seq<GpuRowModel>,
    pub processes: Seq<ProcessRowModel>,
}

impl View for Report {
    type V = ReportModel;

    open spec fn view(&self) -> ReportModel {
        ReportModel {
            identity: self.identity@,
            uptime_seconds: self.uptime_seconds,
            cpu_model: self.cpu_model@,
            cores: self.cores@,
            memory: self.memory,
            gpus: gpu_row_models(self.gpus@),
            processes: process_row_models(self.processes@),
        }
    }
}

/// `report` shows `snapshot`: identity and uptime as they are, the CPU model
/// and one row per core, the memory section, one row per GPU entry, and the
/// process table of the snapshot's processes grouped by name.
pub open spec fn is_report_of(report: ReportModel, snapshot: SnapshotModel) -> bool {
    &&& report.identity == snapshot.identity
    &&& report.uptime_seconds == snapshot.uptime_seconds
    &&& report.cpu_model == model_name(snapshot.cores)
    &&& report.cores == core_rows_of(snapshot.cores)
    &&& report.memory == summary_of(snapshot.total_memory, snapshot.available_memory)
    &&& report.gpus == gpu_rows_of(snapshot.gpus)
    &&& is_process_table_of(report.processes, grouped(snapshot.processes))
}

/// Shapes a snapshot into a report.
///
/// The snapshot's memory figures must allow a memory section, as
/// [`memory_summary`] asks.
pub fn build_report(snapshot: &Snapshot) -> (report: Report)
    requires
        megabytes(snapshot.available_memory) <= megabytes(snapshot.total_memory),
    ensures
        is_report_of(report@, snapshot@),
{
    let groups = group_by_name(&snapshot.processes);
    Report {
        identity: snapshot.identity.clone(),
        uptime_seconds: snapshot.uptime_seconds,
        cpu_model: core_model_name(&snapshot.cores),
        cores: core_rows(&snapshot.cores),
        memory: memory_summary(snapshot.total_memory, snapshot.available_memory),
        gpus: gpu_rows(&snapshot.gpus),
        processes: process_rows(&groups),
    }
}

/// A snapshot has only one report: shaping the same snapshot again gives the
/// same report, row for row.
pub proof fn lemma_report_is_determined(
    snapshot: SnapshotModel,
    first: ReportModel,
    second: ReportModel,
)
    requires
        is_report_of(first, snapshot),
        is_report_of(second, snapshot),
    ensures
        first == second,
{
    let groups = grouped(snapshot.processes);
    let p = choose|ranked: Seq<GroupModel>|
        is_ranking_of(ranked, groups) && first.processes == #[trigger] top_rows_of(ranked);
    let q = choose|ranked: Seq<GroupModel>|
        is_ranking_of(ranked, groups) && second.processes == #[trigger] top_rows_of(ranked);
    lemma_ranking_unique(groups, p, q);
}

} // verus!
