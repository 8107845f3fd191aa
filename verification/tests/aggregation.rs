use host_monitor::process::{group_by_name, ProcessGroup, ProcessSample};

fn sample(name: &str, cpu: f32, memory: u64) -> ProcessSample {
    ProcessSample { name: name.to_string(), cpu_usage_bits: cpu.to_bits(), memory }
}

fn group(name: &str, cpu: f32, memory: u64, count: usize) -> ProcessGroup {
    ProcessGroup { name: name.to_string(), cpu_usage_bits: cpu.to_bits(), memory, count }
}

#[test]
fn no_samples_give_no_groups() {
    assert_eq!(group_by_name(&Vec::new()), Vec::new());
}

#[test]
fn one_sample_gives_a_group_of_one() {
    let groups = group_by_name(&vec![sample("init", 0.5, 4096)]);
    assert_eq!(groups, vec![group("init", 0.5, 4096, 1)]);
}

#[test]
fn one_group_per_distinct_name() {
    let samples = vec![
        sample("bash", 1.0, 10),
        sample("sshd", 2.0, 20),
        sample("bash", 3.0, 30),
        sample("cron", 4.0, 40),
        sample("sshd", 5.0, 50),
        sample("bash", 6.0, 60),
    ];
    let groups = group_by_name(&samples);
    let mut names: Vec<&str> = groups.iter().map(|g| g.name.as_str()).collect();
    assert_eq!(names, vec!["bash", "sshd", "cron"]);
    names.sort();
    names.dedup();
    assert_eq!(names.len(), 3);
}

#[test]
fn count_is_the_number_of_samples_of_that_name() {
    let samples = vec![
        sample("bash", 1.0, 10),
        sample("sshd", 2.0, 20),
        sample("bash", 3.0, 30),
        sample("cron", 4.0, 40),
        sample("sshd", 5.0, 50),
        sample("bash", 6.0, 60),
    ];
    let groups = group_by_name(&samples);
    for g in &groups {
        let expected = samples.iter().filter(|s| s.name == g.name).count();
        assert_eq!(g.count, expected);
        assert!(g.count >= 1);
    }
    let total: usize = groups.iter().map(|g| g.count).sum();
    assert_eq!(total, samples.len());
}

#[test]
fn last_sample_of_a_name_wins() {
    let samples = vec![sample("worker", 10.0, 1000), sample("worker", 2.5, 250)];
    let groups = group_by_name(&samples);
    assert_eq!(groups, vec![group("worker", 2.5, 250, 2)]);
}

#[test]
fn figures_are_overwritten_not_summed() {
    let samples = vec![
        sample("a", 1.0, 100),
        sample("b", 7.0, 700),
        sample("a", 2.0, 200),
        sample("a", 3.0, 300),
    ];
    let groups = group_by_name(&samples);
    assert_eq!(groups, vec![group("a", 3.0, 300, 3), group("b", 7.0, 700, 1)]);
}

#[test]
fn input_order_decides_which_sample_wins() {
    let forward = group_by_name(&vec![sample("x", 1.0, 1), sample("x", 9.0, 9)]);
    let backward = group_by_name(&vec![sample("x", 9.0, 9), sample("x", 1.0, 1)]);
    assert_eq!(forward, vec![group("x", 9.0, 9, 2)]);
    assert_eq!(backward, vec![group("x", 1.0, 1, 2)]);
}

#[test]
fn names_are_matched_exactly() {
    let samples = vec![
        sample("Bash", 1.0, 1),
        sample("bash", 2.0, 2),
        sample("bash ", 3.0, 3),
        sample("", 4.0, 4),
        sample("", 5.0, 5),
    ];
    let groups = group_by_name(&samples);
    assert_eq!(
        groups,
        vec![
            group("Bash", 1.0, 1, 1),
            group("bash", 2.0, 2, 1),
            group("bash ", 3.0, 3, 1),
            group("", 5.0, 5, 2),
        ]
    );
}

#[test]
fn groups_stand_in_order_of_first_appearance() {
    let samples = vec![
        sample("zeta", 0.0, 1),
        sample("alpha", 0.0, 2),
        sample("zeta", 0.0, 3),
        sample("mid", 0.0, 4),
    ];
    let names: Vec<String> = group_by_name(&samples).into_iter().map(|g| g.name).collect();
    assert_eq!(names, vec!["zeta", "alpha", "mid"]);
}

#[test]
fn cpu_share_is_carried_bit_for_bit() {
    let odd = f32::from_bits(0x7fc0_0001);
    let groups = group_by_name(&vec![sample("n", 1.0, 1), sample("n", odd, 2)]);
    assert_eq!(groups[0].cpu_usage_bits, 0x7fc0_0001);
    assert_eq!(f32::from_bits(group_by_name(&vec![sample("m", 12.5, 1)])[0].cpu_usage_bits), 12.5);
}

#[test]
fn grouping_twice_gives_the_same_groups() {
    let samples = vec![sample("a", 1.0, 1), sample("b", 2.0, 2), sample("a", 3.0, 3)];
    assert_eq!(group_by_name(&samples), group_by_name(&samples));
}

#[test]
fn copy_of_a_group_equals_it() {
    let g = group("copy", 1.5, 77, 3);
    assert_eq!(g.duplicate(), g);
}
