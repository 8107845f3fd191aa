use host_monitor::process::ProcessGroup;
use host_monitor::ranking::{rank_by_memory, rank_order};
use host_monitor::report::{process_rows, ProcessRow, TOP_PROCESS_LIMIT};

fn group(name: &str, memory: u64) -> ProcessGroup {
    ProcessGroup { name: name.to_string(), cpu_usage_bits: 0, memory, count: 1 }
}

#[test]
fn rank_order_of_nothing_is_empty() {
    assert_eq!(rank_order(&Vec::new()), Vec::<usize>::new());
}

#[test]
fn rank_order_puts_larger_first_and_keeps_ties_in_place() {
    assert_eq!(rank_order(&vec![500, 1500, 100, 1500]), vec![1, 3, 0, 2]);
}

#[test]
fn rank_order_of_equal_figures_is_the_identity() {
    assert_eq!(rank_order(&vec![7, 7, 7, 7]), vec![0, 1, 2, 3]);
}

#[test]
fn rank_order_reverses_an_ascending_list() {
    assert_eq!(rank_order(&vec![1, 2, 3, u64::MAX]), vec![3, 2, 1, 0]);
}

#[test]
fn both_largest_come_before_the_middle_before_the_smallest() {
    let groups = vec![group("a", 500), group("b", 1500), group("c", 100), group("d", 1500)];
    let ranked = rank_by_memory(&groups);
    let memory: Vec<u64> = ranked.iter().map(|g| g.memory).collect();
    assert_eq!(memory, vec![1500, 1500, 500, 100]);
    let names: Vec<&str> = ranked.iter().map(|g| g.name.as_str()).collect();
    assert_eq!(names, vec!["b", "d", "a", "c"]);
}

#[test]
fn ranking_agrees_with_a_stable_descending_sort() {
    let groups: Vec<ProcessGroup> = [3u64, 9, 3, 1, 9, 0, 3, 12, 1]
        .iter()
        .enumerate()
        .map(|(i, m)| group(&format!("p{}", i), *m))
        .collect();
    let mut expected = groups.clone();
    expected.sort_by(|a, b| b.memory.cmp(&a.memory));
    assert_eq!(rank_by_memory(&groups), expected);
}

#[test]
fn ranking_keeps_every_group() {
    let groups = vec![group("a", 2), group("b", 1), group("c", 3)];
    let ranked = rank_by_memory(&groups);
    assert_eq!(ranked.len(), groups.len());
    for g in &groups {
        assert!(ranked.contains(g));
    }
}

#[test]
fn only_the_first_fifteen_are_shown() {
    let groups: Vec<ProcessGroup> =
        (0..40u64).map(|i| group(&format!("p{}", i), i * 1_048_576)).collect();
    let rows = process_rows(&groups);
    assert_eq!(TOP_PROCESS_LIMIT, 15);
    assert_eq!(rows.len(), 15);
    for (i, row) in rows.iter().enumerate() {
        assert_eq!(row.rank, i + 1);
        assert_eq!(row.memory_mb, 39 - i as u64);
        assert_eq!(row.name, format!("p{}", 39 - i));
    }
}

#[test]
fn fewer_than_fifteen_are_all_shown() {
    let groups = vec![group("a", 500), group("b", 1500), group("c", 100), group("d", 1500)];
    let rows = process_rows(&groups);
    let names: Vec<&str> = rows.iter().map(|r| r.name.as_str()).collect();
    assert_eq!(names, vec!["b", "d", "a", "c"]);
    assert_eq!(process_rows(&Vec::new()), Vec::<ProcessRow>::new());
}

#[test]
fn exactly_fifteen_and_sixteen_groups() {
    let fifteen: Vec<ProcessGroup> = (0..15u64).map(|i| group("g", i)).collect();
    let sixteen: Vec<ProcessGroup> = (0..16u64).map(|i| group("g", i)).collect();
    assert_eq!(process_rows(&fifteen).len(), 15);
    let rows = process_rows(&sixteen);
    assert_eq!(rows.len(), 15);
    assert!(rows.iter().all(|r| r.memory_mb == 0));
}

#[test]
fn a_row_carries_rank_count_share_and_whole_megabytes() {
    let groups = vec![
        ProcessGroup {
            name: "small".to_string(),
            cpu_usage_bits: 1.5f32.to_bits(),
            memory: 1_048_575,
            count: 2,
        },
        ProcessGroup {
            name: "large".to_string(),
            cpu_usage_bits: 99.9f32.to_bits(),
            memory: 5 * 1_048_576 + 17,
            count: 7,
        },
    ];
    assert_eq!(
        process_rows(&groups),
        vec![
            ProcessRow {
                rank: 1,
                name: "large".to_string(),
                count: 7,
                cpu_usage_bits: 99.9f32.to_bits(),
                memory_mb: 5,
            },
            ProcessRow {
                rank: 2,
                name: "small".to_string(),
                count: 2,
                cpu_usage_bits: 1.5f32.to_bits(),
                memory_mb: 0,
            },
        ]
    );
}
