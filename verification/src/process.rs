//! Process samples and their aggregation into one group per executable name.

use vstd::prelude::*;

verus! {

/// One live process as it was seen when the host was last sampled.
///
/// The CPU share is carried as the bit pattern of an IEEE 754 single-precision
/// percentage: aggregation only ever copies it, so it is never interpreted here.
#[derive(Debug, Clone, PartialEq, Eq)]
pub struct ProcessSample {
    pub name: String,
    pub cpu_usage_bits: u32,
    pub memory: u64,
}

/// Mathematical content of a [`ProcessSample`].
pub struct SampleModel {
    pub name: Seq<char>,
    pub cpu_usage_bits: u32,
    pub memory: u64,
}

impl View for ProcessSample {
    type V = SampleModel;

    open spec fn view(&self) -> SampleModel {
        SampleModel { name: self.name@, cpu_usage_bits: self.cpu_usage_bits, memory: self.memory }
    }
}

/// All samples that share one name, reduced to the figures of the sample seen
/// last and the number of samples seen.
#[derive(Debug, Clone, PartialEq, Eq)]
pub struct ProcessGroup {
    pub name: String,
    pub cpu_usage_bits: u32,
    pub memory: u64,
    pub count: usize,
}

/// Mathematical content of a [`ProcessGroup`].
pub struct GroupModel {
    pub name: Seq<char>,
    pub cpu_usage_bits: u32,
    pub memory: u64,
    pub count: nat,
}

impl View for ProcessGroup {
    type V = GroupModel;

    open spec fn view(&self) -> GroupModel {
        GroupModel {
            name: self.name@,
            cpu_usage_bits: self.cpu_usage_bits,
            memory: self.memory,
            count: self.count as nat,
        }
    }
}

impl ProcessGroup {
    /// A copy of this group that proofs know to equal it.
    pub fn duplicate(&self) -> (copy: ProcessGroup)
        ensures
            copy == *self,
    {
        ProcessGroup {
            name: self.name.clone(),
            cpu_usage_bits: self.cpu_usage_bits,
            memory: self.memory,
            count: self.count,
        }
    }
}

/// The samples of a vector, each taken by its view.
pub open spec fn sample_models(samples: Seq<ProcessSample>) -> Seq<SampleModel> {
    samples.map_values(|s: ProcessSample| s@)
}

/// The groups of a vector, each taken by its view.
pub open spec fn group_models(groups: Seq<ProcessGroup>) -> Seq<GroupModel> {
    groups.map_values(|g: ProcessGroup| g@)
}

/// The views of a vector that has grown by one group are the views it had,
/// followed by the view of that group.
pub proof fn lemma_group_models_push(groups: Seq<ProcessGroup>, group: ProcessGroup)
    ensures
        group_models(groups.push(group)) == group_models(groups).push(group@),
{
}

/// How many of `samples` carry exactly the name `name`.
pub open spec fn occurrences(samples: Seq<SampleModel>, name: Seq<char>) -> nat
    decreases samples.len(),
{
    if samples.len() == 0 {
        0
    } else {
        occurrences(samples.drop_last(), name) + if samples.last().name == name {
            1nat
        } else {
            0nat
        }
    }
}

/// `k` is the position of the last sample that carries the name of `samples[k]`.
pub open spec fn is_last_of_its_name(samples: Seq<SampleModel>, k: int) -> bool {
    &&& 0 <= k < samples.len()
    &&& forall|j: int| k < j < samples.len() ==> (#[trigger] samples[j]).name != samples[k].name
}

/// `i` is the position of the first group named `name`.
pub open spec fn is_first_named(groups: Seq<GroupModel>, name: Seq<char>, i: int) -> bool {
    &&& 0 <= i < groups.len()
    &&& groups[i].name == name
    &&& forall|j: int| 0 <= j < i ==> (#[trigger] groups[j]).name != name
}

/// Position of the group named `name`, if there is one.
pub open spec fn find_group(groups: Seq<GroupModel>, name: Seq<char>) -> Option<int> {
    if exists|i: int| is_first_named(groups, name, i) {
        Some(choose|i: int| is_first_named(groups, name, i))
    } else {
        None
    }
}

/// The sample's figures, as the group that reports them with a count of `count`.
pub open spec fn group_from(sample: SampleModel, count: nat) -> GroupModel {
    GroupModel {
        name: sample.name,
        cpu_usage_bits: sample.cpu_usage_bits,
        memory: sample.memory,
        count,
    }
}

/// The groups after one more sample has been seen: the group of that name takes
/// the sample's figures and counts one more, or a new group of one is appended.
pub open spec fn absorb(groups: Seq<GroupModel>, sample: SampleModel) -> Seq<GroupModel> {
    match find_group(groups, sample.name) {
        Some(i) => groups.update(i, group_from(sample, groups[i].count + 1)),
        None => groups.push(group_from(sample, 1)),
    }
}

/// The groups of `samples`: the samples absorbed one by one, front to back.
/// Groups therefore stand in the order in which their names first appear.
pub open spec fn grouped(samples: Seq<SampleModel>) -> Seq<GroupModel>
    decreases samples.len(),
{
    if samples.len() == 0 {
        Seq::empty()
    } else {
        absorb(grouped(samples.drop_last()), samples.last())
    }
}

/// `group` reports the samples named like it: how many there are, and the
/// figures of the last of them.
pub open spec fn summarizes(group: GroupModel, samples: Seq<SampleModel>) -> bool {
    &&& group.count >= 1
    &&& group.count == occurrences(samples, group.name)
    &&& exists|k: int|
        {
            &&& is_last_of_its_name(samples, k)
            &&& (#[trigger] samples[k]).name == group.name
            &&& samples[k].cpu_usage_bits == group.cpu_usage_bits
            &&& samples[k].memory == group.memory
        }
}

/// Some group in `groups` is named `name`.
pub open spec fn has_group_named(groups: Seq<GroupModel>, name: Seq<char>) -> bool {
    exists|i: int| 0 <= i < groups.len() && (#[trigger] groups[i]).name == name
}

/// `groups` holds exactly one group for each distinct name in `samples`, and
/// each group summarizes the samples of its name.
pub open spec fn is_grouping_of(groups: Seq<GroupModel>, samples: Seq<SampleModel>) -> bool {
    &&& forall|i: int, j: int|
        0 <= i < j < groups.len() ==> (#[trigger] groups[i]).name != (#[trigger] groups[j]).name
    &&& forall|k: int|
        0 <= k < samples.len() ==> has_group_named(groups, (#[trigger] samples[k]).name)
    &&& forall|i: int| 0 <= i < groups.len() ==> summarizes(#[trigger] groups[i], samples)
}

/// No name occurs more often than there are samples.
pub proof fn lemma_occurrences_bounded(samples: Seq<SampleModel>, name: Seq<char>)
    ensures
        occurrences(samples, name) <= samples.len(),
    decreases samples.len(),
{
    if samples.len() > 0 {
        lemma_occurrences_bounded(samples.drop_last(), name);
    }
}

/// A name occurs at least once exactly when some sample carries it.
pub proof fn lemma_occurrences_positive(samples: Seq<SampleModel>, name: Seq<char>)
    ensures
        occurrences(samples, name) >= 1 <==> exists|k: int|
            0 <= k < samples.len() && (#[trigger] samples[k]).name == name,
    decreases samples.len(),
{
    if samples.len() > 0 {
        let front = samples.drop_last();
        lemma_occurrences_positive(front, name);
        if exists|k: int| 0 <= k < samples.len() && (#[trigger] samples[k]).name == name {
            let k = choose|k: int| 0 <= k < samples.len() && (#[trigger] samples[k]).name == name;
            if k < samples.len() - 1 {
                assert(front[k].name == name);
            }
        }
    }
}

/// A group of another name still summarizes its samples after one more sample.
proof fn lemma_summarizes_other(group: GroupModel, front: Seq<SampleModel>, sample: SampleModel)
    requires
        summarizes(group, front),
        group.name != sample.name,
    ensures
        summarizes(group, front.push(sample)),
{
    let samples = front.push(sample);
    assert(samples.drop_last() =~= front);
    let k = choose|k: int|
        {
            &&& is_last_of_its_name(front, k)
            &&& (#[trigger] front[k]).name == group.name
            &&& front[k].cpu_usage_bits == group.cpu_usage_bits
            &&& front[k].memory == group.memory
        };
    assert forall|j: int| k < j < samples.len() implies (#[trigger] samples[j]).name
        != samples[k].name by {}
}

/// The group that takes a sample of its own name summarizes the longer list.
proof fn lemma_summarizes_same(group: GroupModel, front: Seq<SampleModel>, sample: SampleModel)
    requires
        summarizes(group, front),
        group.name == sample.name,
    ensures
        summarizes(group_from(sample, group.count + 1), front.push(sample)),
{
    let samples = front.push(sample);
    assert(samples.drop_last() =~= front);
    let last = samples.len() - 1;
    assert(samples[last] == sample);
}

/// A new group of one summarizes a list whose only sample of that name is the last.
proof fn lemma_summarizes_new(front: Seq<SampleModel>, sample: SampleModel)
    requires
        forall|k: int| 0 <= k < front.len() ==> (#[trigger] front[k]).name != sample.name,
    ensures
        summarizes(group_from(sample, 1), front.push(sample)),
{
    let samples = front.push(sample);
    assert(samples.drop_last() =~= front);
    lemma_occurrences_positive(front, sample.name);
}

/// A grouping stays one when the group at `p` takes a sample of its own name.
proof fn lemma_absorb_existing(
    before: Seq<GroupModel>,
    front: Seq<SampleModel>,
    sample: SampleModel,
    p: int,
)
    requires
        is_grouping_of(before, front),
        0 <= p < before.len(),
        before[p].name == sample.name,
    ensures
        is_grouping_of(
            before.update(p, group_from(sample, before[p].count + 1)),
            front.push(sample),
        ),
{
    let samples = front.push(sample);
    let after = before.update(p, group_from(sample, before[p].count + 1));
    assert forall|i: int| 0 <= i < after.len() implies (#[trigger] after[i]).name
        == before[i].name by {}
    assert forall|i: int, j: int| 0 <= i < j < after.len() implies (#[trigger] after[i]).name != (
    #[trigger] after[j]).name by {}
    assert forall|i: int| 0 <= i < after.len() implies summarizes(#[trigger] after[i], samples) by {
        if i == p {
            lemma_summarizes_same(before[p], front, sample);
        } else {
            lemma_summarizes_other(before[i], front, sample);
        }
    }
    assert forall|k: int| 0 <= k < samples.len() implies has_group_named(
        after,
        (#[trigger] samples[k]).name,
    ) by {
        if k < front.len() {
            let i = choose|i: int|
                0 <= i < before.len() && (#[trigger] before[i]).name == front[k].name;
            assert(after[i].name == samples[k].name);
        } else {
            assert(after[p].name == samples[k].name);
        }
    }
}

/// A grouping stays one when a sample of a new name opens a group of its own.
proof fn lemma_absorb_new(before: Seq<GroupModel>, front: Seq<SampleModel>, sample: SampleModel)
    requires
        is_grouping_of(before, front),
        !has_group_named(before, sample.name),
    ensures
        is_grouping_of(before.push(group_from(sample, 1)), front.push(sample)),
{
    let samples = front.push(sample);
    let after = before.push(group_from(sample, 1));
    assert forall|i: int| 0 <= i < before.len() implies (#[trigger] before[i]).name
        != sample.name by {}
    assert forall|k: int| 0 <= k < front.len() implies (#[trigger] front[k]).name
        != sample.name by {}
    assert forall|i: int, j: int| 0 <= i < j < after.len() implies (#[trigger] after[i]).name != (
    #[trigger] after[j]).name by {}
    assert forall|i: int| 0 <= i < after.len() implies summarizes(#[trigger] after[i], samples) by {
        if i == before.len() {
            lemma_summarizes_new(front, sample);
        } else {
            lemma_summarizes_other(before[i], front, sample);
        }
    }
    assert forall|k: int| 0 <= k < samples.len() implies has_group_named(
        after,
        (#[trigger] samples[k]).name,
    ) by {
        if k < front.len() {
            let i = choose|i: int|
                0 <= i < before.len() && (#[trigger] before[i]).name == front[k].name;
            assert(after[i] == before[i]);
        } else {
            assert(after[before.len() as int].name == samples[k].name);
        }
    }
}

/// Where some group carries a name, there is a first one that does.
proof fn lemma_first_named_exists(groups: Seq<GroupModel>, name: Seq<char>, i: int)
    requires
        0 <= i < groups.len(),
        groups[i].name == name,
    ensures
        exists|p: int| is_first_named(groups, name, p),
    decreases i,
{
    if exists|j: int| 0 <= j < i && (#[trigger] groups[j]).name == name {
        let j = choose|j: int| 0 <= j < i && (#[trigger] groups[j]).name == name;
        lemma_first_named_exists(groups, name, j);
    } else {
        assert(is_first_named(groups, name, i));
    }
}

/// Absorbing one more sample keeps a grouping a grouping.
pub proof fn lemma_absorb_keeps_grouping(
    before: Seq<GroupModel>,
    front: Seq<SampleModel>,
    sample: SampleModel,
)
    requires
        is_grouping_of(before, front),
    ensures
        is_grouping_of(absorb(before, sample), front.push(sample)),
{
    match find_group(before, sample.name) {
        Some(p) => {
            lemma_absorb_existing(before, front, sample, p);
        },
        None => {
            if has_group_named(before, sample.name) {
                let i = choose|i: int|
                    0 <= i < before.len() && (#[trigger] before[i]).name == sample.name;
                lemma_first_named_exists(before, sample.name, i);
            }
            lemma_absorb_new(before, front, sample);
        },
    }
}

/// Grouping yields one group per distinct name; each group counts the samples
/// of its name and carries the figures of the last of them.
pub proof fn lemma_grouped_is_grouping(samples: Seq<SampleModel>)
    ensures
        is_grouping_of(grouped(samples), samples),
    decreases samples.len(),
{
    if samples.len() > 0 {
        let front = samples.drop_last();
        lemma_grouped_is_grouping(front);
        lemma_absorb_keeps_grouping(grouped(front), front, samples.last());
        assert(front.push(samples.last()) =~= samples);
    }
}

/// Position of the first group named `name`, if any group is.
fn find_by_name(groups: &Vec<ProcessGroup>, name: &String) -> (found: Option<usize>)
    ensures
        match found {
            Some(i) => find_group(group_models(groups@), name@) == Some(i as int),
            None => find_group(group_models(groups@), name@).is_none(),
        },
{
    let ghost models = group_models(groups@);
    let mut i: usize = 0;
    while i < groups.len()
        invariant
            i <= groups.len(),
            models == group_models(groups@),
            forall|j: int| 0 <= j < i ==> (#[trigger] models[j]).name != name@,
        decreases groups.len() - i,
    {
        if groups[i].name == *name {
            assert(is_first_named(models, name@, i as int));
            return Some(i);
        }
        i += 1;
    }
    assert forall|p: int| !is_first_named(models, name@, p) by {}
    None
}

/// Collapses `samples` into one group per distinct name.
///
/// Each group counts the samples of its name and carries the CPU share and the
/// memory of the last such sample; nothing is summed. Groups stand in the
/// order in which their names first appear in `samples`.
pub fn group_by_name(samples: &Vec<ProcessSample>) -> (groups: Vec<ProcessGroup>)
    ensures
        group_models(groups@) == grouped(sample_models(samples@)),
        is_grouping_of(group_models(groups@), sample_models(samples@)),
{
    let ghost all = sample_models(samples@);
    let mut groups: Vec<ProcessGroup> = Vec::new();
    let mut i: usize = 0;
    while i < samples.len()
        invariant
            i <= samples.len(),
            all == sample_models(samples@),
            group_models(groups@) == grouped(all.take(i as int)),
        decreases samples.len() - i,
    {
        let sample = &samples[i];
        let ghost seen = all.take(i as int);
        let ghost before = group_models(groups@);
        proof {
            assert(all.take(i + 1).drop_last() =~= seen);
            lemma_grouped_is_grouping(seen);
        }
        match find_by_name(&groups, &sample.name) {
            Some(p) => {
                proof {
                    lemma_occurrences_bounded(seen, before[p as int].name);
                }
                let count = groups[p].count + 1;
                groups.set(
                    p,
                    ProcessGroup {
                        name: sample.name.clone(),
                        cpu_usage_bits: sample.cpu_usage_bits,
                        memory: sample.memory,
                        count,
                    },
                );
            },
            None => {
                groups.push(
                    ProcessGroup {
                        name: sample.name.clone(),
                        cpu_usage_bits: sample.cpu_usage_bits,
                        memory: sample.memory,
                        count: 1,
                    },
                );
            },
        }
        i += 1;
    }
    proof {
        assert(all.take(i as int) =~= all);
        lemma_grouped_is_grouping(all);
    }
    groups
}

} // verus!
