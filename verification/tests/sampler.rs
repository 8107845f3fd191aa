use host_monitor::monitor::Monitor;
use host_monitor::process::group_by_name;

#[test]
fn memory_reads_do_not_change_without_a_refresh() {
    let monitor = Monitor::new();
    assert_eq!(monitor.total_memory(), monitor.total_memory());
    assert_eq!(monitor.available_memory(), monitor.available_memory());
    assert_eq!(monitor.used_memory_checked(), monitor.used_memory_checked());
}

#[test]
fn used_memory_is_given_exactly_when_the_figures_are_consistent() {
    let monitor = Monitor::new();
    let total = monitor.total_memory();
    let available = monitor.available_memory();
    match monitor.used_memory_checked() {
        Some(used) => {
            assert!(available <= total);
            assert!(used <= total);
        }
        None => assert!(available > total),
    }
}

#[test]
fn every_core_has_a_usage_and_a_frequency() {
    let mut monitor = Monitor::new();
    monitor.refresh();
    let usage = monitor.cpu_usage();
    let frequencies = monitor.cpu_frequencies();
    assert_eq!(usage.len(), frequencies.len());
    if usage.is_empty() {
        assert_eq!(monitor.cpu_model(), "<unknown>");
    }
    assert_eq!(monitor.cpu_model(), monitor.cpu_model());
}

#[test]
fn grouped_processes_account_for_every_process() {
    let monitor = Monitor::new();
    let samples = monitor.processes();
    let groups = monitor.processes_grouped();
    let counted: usize = groups.iter().map(|g| g.count).sum();
    assert_eq!(counted, samples.len());
    for g in &groups {
        assert_eq!(g.count, samples.iter().filter(|s| s.name == g.name).count());
    }
    let mut regrouped = group_by_name(&samples);
    let mut names: Vec<String> = groups.iter().map(|g| g.name.clone()).collect();
    let mut expected: Vec<String> = regrouped.drain(..).map(|g| g.name).collect();
    names.sort();
    expected.sort();
    assert_eq!(names, expected);
}

#[test]
fn system_info_has_the_shape_of_the_identity_line() {
    let monitor = Monitor::new();
    let line = monitor.system_info("test-arch");
    assert!(line.contains(" kernel "));
    assert!(line.contains(" \u{2022} test-arch \u{2022} "));
}

#[test]
fn snapshot_holds_what_the_accessors_give() {
    let mut monitor = Monitor::new();
    monitor.refresh();
    let snapshot = monitor.snapshot("test-arch", None);
    assert_eq!(snapshot.total_memory, monitor.total_memory());
    assert_eq!(snapshot.available_memory, monitor.available_memory());
    assert_eq!(snapshot.cores.len(), monitor.cpu_frequencies().len());
    let frequencies: Vec<u64> = snapshot.cores.iter().map(|c| c.frequency).collect();
    assert_eq!(frequencies, monitor.cpu_frequencies());
    assert_eq!(snapshot.processes.len(), monitor.processes().len());
    assert_eq!(snapshot.gpus.len(), 1);
    assert_eq!(snapshot.gpus[0].name, None);
    assert!(snapshot.identity.contains(" \u{2022} test-arch \u{2022} "));
}

#[test]
fn uptime_can_be_read() {
    let monitor = Monitor::new();
    let first = monitor.uptime_seconds();
    let second = monitor.uptime_seconds();
    assert!(second >= first);
}
