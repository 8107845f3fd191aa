//! Ranking of process groups by memory, largest first.

use crate::process::{group_models, lemma_group_models_push, GroupModel, ProcessGroup};
use vstd::prelude::*;

verus! {

/// Position `a` ranks before position `b`: it holds more memory, or as much
/// and it comes earlier.
pub open spec fn ranks_before(memory: Seq<u64>, a: int, b: int) -> bool {
    memory[a] > memory[b] || (memory[a] == memory[b] && a < b)
}

/// `order` lists every position of `memory` exactly once, each before all the
/// positions that it ranks before.
pub open spec fn is_rank_order(memory: Seq<u64>, order: Seq<int>) -> bool {
    &&& order.len() == memory.len()
    &&& forall|a: int| 0 <= a < order.len() ==> 0 <= #[trigger] order[a] < memory.len()
    &&& forall|v: int| 0 <= v < memory.len() ==> #[trigger] order.contains(v)
    &&& forall|a: int, b: int|
        0 <= a < b < order.len() ==> ranks_before(memory, #[trigger] order[a], #[trigger] order[b])
}

/// The memory figure of each group.
pub open spec fn memories(groups: Seq<GroupModel>) -> Seq<u64> {
    groups.map_values(|g: GroupModel| g.memory)
}

/// The groups at the positions that `order` lists, in that order.
pub open spec fn arranged(groups: Seq<GroupModel>, order: Seq<int>) -> Seq<GroupModel> {
    Seq::new(order.len(), |a: int| groups[order[a]])
}

/// `ranked` holds the groups of `groups` by descending memory; groups with
/// equal memory keep the order that they have in `groups`.
pub open spec fn is_ranking_of(ranked: Seq<GroupModel>, groups: Seq<GroupModel>) -> bool {
    exists|order: Seq<int>|
        is_rank_order(memories(groups), order) && ranked == #[trigger] arranged(groups, order)
}

/// Positions as mathematical integers.
pub open spec fn positions(order: Seq<usize>) -> Seq<int> {
    order.map_values(|i: usize| i as int)
}

/// Two rank orders of the same figures agree at every position.
proof fn lemma_rank_orders_agree(memory: Seq<u64>, p: Seq<int>, q: Seq<int>, a: int)
    requires
        is_rank_order(memory, p),
        is_rank_order(memory, q),
        0 <= a < memory.len(),
    ensures
        p[a] == q[a],
    decreases a,
{
    assert forall|k: int| 0 <= k < a implies p[k] == q[k] by {
        lemma_rank_orders_agree(memory, p, q, k);
    }
    if p[a] != q[a] {
        let v = p[a];
        let w = q[a];
        assert(q.contains(v));
        let b = choose|b: int| 0 <= b < q.len() && q[b] == v;
        if b < a {
            assert(ranks_before(memory, p[b], p[a]));
        }
        assert(ranks_before(memory, q[a], q[b]));
        assert(p.contains(w));
        let c = choose|c: int| 0 <= c < p.len() && p[c] == w;
        if c < a {
            assert(ranks_before(memory, q[c], q[a]));
        }
        assert(ranks_before(memory, p[a], p[c]));
    }
}

/// A sequence of memory figures has only one rank order.
pub proof fn lemma_rank_order_unique(memory: Seq<u64>, p: Seq<int>, q: Seq<int>)
    requires
        is_rank_order(memory, p),
        is_rank_order(memory, q),
    ensures
        p == q,
{
    assert forall|a: int| 0 <= a < p.len() implies p[a] == q[a] by {
        lemma_rank_orders_agree(memory, p, q, a);
    }
    assert(p =~= q);
}

/// A sequence of groups has only one ranking.
pub proof fn lemma_ranking_unique(
    groups: Seq<GroupModel>,
    first: Seq<GroupModel>,
    second: Seq<GroupModel>,
)
    requires
        is_ranking_of(first, groups),
        is_ranking_of(second, groups),
    ensures
        first == second,
{
    let p = choose|order: Seq<int>|
        is_rank_order(memories(groups), order) && first == #[trigger] arranged(groups, order);
    let q = choose|order: Seq<int>|
        is_rank_order(memories(groups), order) && second == #[trigger] arranged(groups, order);
    lemma_rank_order_unique(memories(groups), p, q);
}

/// A ranking has the length of what it ranks, never puts a group before one
/// with more memory, and holds each group of the input.
pub proof fn lemma_ranking_descends(groups: Seq<GroupModel>, ranked: Seq<GroupModel>)
    requires
        is_ranking_of(ranked, groups),
    ensures
        ranked.len() == groups.len(),
        forall|a: int, b: int|
            0 <= a < b < ranked.len() ==> (#[trigger] ranked[a]).memory >= (
            #[trigger] ranked[b]).memory,
        forall|v: int| 0 <= v < groups.len() ==> ranked.contains(#[trigger] groups[v]),
        forall|a: int| 0 <= a < ranked.len() ==> groups.contains(#[trigger] ranked[a]),
{
    let order = choose|order: Seq<int>|
        is_rank_order(memories(groups), order) && ranked == #[trigger] arranged(groups, order);
    let memory = memories(groups);
    assert forall|a: int, b: int| 0 <= a < b < ranked.len() implies (#[trigger] ranked[a]).memory
        >= (#[trigger] ranked[b]).memory by {
        assert(ranks_before(memory, order[a], order[b]));
    }
    assert forall|v: int| 0 <= v < groups.len() implies ranked.contains(#[trigger] groups[v]) by {
        assert(order.contains(v));
        let a = choose|a: int| 0 <= a < order.len() && order[a] == v;
        assert(ranked[a] == groups[v]);
    }
    assert forall|a: int| 0 <= a < ranked.len() implies groups.contains(#[trigger] ranked[a]) by {
        assert(groups[order[a]] == ranked[a]);
    }
}

/// The positions of `memory` by descending figure; positions with equal
/// figures stay in ascending order.
pub fn rank_order(memory: &Vec<u64>) -> (order: Vec<usize>)
    ensures
        is_rank_order(memory@, positions(order@)),
{
    let mut order: Vec<usize> = Vec::new();
    let mut i: usize = 0;
    while i < memory.len()
        invariant
            i <= memory.len(),
            order.len() == i,
            forall|a: int| 0 <= a < order.len() ==> #[trigger] order[a] < i,
            forall|v: int| 0 <= v < i ==> #[trigger] positions(order@).contains(v),
            forall|a: int, b: int|
                0 <= a < b < order.len() ==> ranks_before(
                    memory@,
                    #[trigger] order[a] as int,
                    #[trigger] order[b] as int,
                ),
        decreases memory.len() - i,
    {
        let mut at: usize = 0;
        while at < order.len() && memory[order[at]] >= memory[i]
            invariant
                at <= order.len(),
                i < memory.len(),
                forall|a: int| 0 <= a < order.len() ==> #[trigger] order[a] < i,
                forall|a: int|
                    0 <= a < at ==> memory[#[trigger] order[a] as int] >= memory[i as int],
            decreases order.len() - at,
        {
            at += 1;
        }
        let ghost old_order = order@;
        order.insert(at, i);
        proof {
            let new_order = order@;
            assert(new_order.len() == old_order.len() + 1);
            assert forall|a: int| 0 <= a < new_order.len() implies #[trigger] new_order[a] == (if a
                < at {
                old_order[a]
            } else if a == at {
                i
            } else {
                old_order[a - 1]
            }) by {}
            assert forall|v: int| 0 <= v < i + 1 implies #[trigger] positions(new_order).contains(
                v,
            ) by {
                if v < i {
                    assert(positions(old_order).contains(v));
                    let a = choose|a: int|
                        0 <= a < positions(old_order).len() && positions(old_order)[a] == v;
                    let moved = if a < at {
                        a
                    } else {
                        a + 1
                    };
                    assert(positions(new_order)[moved] == v);
                } else {
                    assert(positions(new_order)[at as int] == v);
                }
            }
            assert forall|a: int, b: int| 0 <= a < b < new_order.len() implies ranks_before(
                memory@,
                #[trigger] new_order[a] as int,
                #[trigger] new_order[b] as int,
            ) by {
                if b < at {
                    assert(ranks_before(memory@, old_order[a] as int, old_order[b] as int));
                } else if b == at {
                    assert(memory[old_order[a] as int] >= memory[i as int]);
                } else if a < at {
                    assert(ranks_before(memory@, old_order[a] as int, old_order[b - 1] as int));
                } else if a == at {
                    assert(memory[old_order[at as int] as int] < memory[i as int]);
                    if at < b - 1 {
                        assert(ranks_before(
                            memory@,
                            old_order[at as int] as int,
                            old_order[b - 1] as int,
                        ));
                    }
                } else {
                    assert(ranks_before(memory@, old_order[a - 1] as int, old_order[b - 1] as int));
                }
            }
        }
        i += 1;
    }
    proof {
        assert forall|a: int| 0 <= a < positions(order@).len() implies 0 <= #[trigger] positions(
            order@,
        )[a] < memory@.len() by {
            assert(order[a] < i);
        }
        assert forall|a: int, b: int| 0 <= a < b < positions(order@).len() implies ranks_before(
            memory@,
            #[trigger] positions(order@)[a],
            #[trigger] positions(order@)[b],
        ) by {
            assert(ranks_before(memory@, order[a] as int, order[b] as int));
        }
    }
    order
}

/// The groups by descending memory. Groups with equal memory keep the order
/// in which they were given.
pub fn rank_by_memory(groups: &Vec<ProcessGroup>) -> (ranked: Vec<ProcessGroup>)
    ensures
        is_ranking_of(group_models(ranked@), group_models(groups@)),
        ranked.len() == groups.len(),
        forall|a: int, b: int|
            0 <= a < b < ranked.len() ==> (#[trigger] ranked[a]).memory >= (
            #[trigger] ranked[b]).memory,
{
    let mut memory: Vec<u64> = Vec::new();
    let mut i: usize = 0;
    while i < groups.len()
        invariant
            i <= groups.len(),
            memory@ == memories(group_models(groups@)).take(i as int),
        decreases groups.len() - i,
    {
        memory.push(groups[i].memory);
        i += 1;
        assert(memory@ =~= memories(group_models(groups@)).take(i as int));
    }
    assert(memory@ =~= memories(group_models(groups@)));
    let order = rank_order(&memory);
    let mut ranked: Vec<ProcessGroup> = Vec::new();
    let mut a: usize = 0;
    while a < order.len()
        invariant
            a <= order.len(),
            order.len() == groups.len(),
            is_rank_order(memories(group_models(groups@)), positions(order@)),
            group_models(ranked@) == arranged(group_models(groups@), positions(order@)).take(
                a as int,
            ),
        decreases order.len() - a,
    {
        assert(0 <= positions(order@)[a as int] < groups.len());
        let group = groups[order[a]].duplicate();
        proof {
            lemma_group_models_push(ranked@, group);
        }
        ranked.push(group);
        a += 1;
        assert(group_models(ranked@) =~= arranged(group_models(groups@), positions(order@)).take(
            a as int,
        ));
    }
    proof {
        assert(group_models(ranked@) =~= arranged(group_models(groups@), positions(order@)));
        lemma_ranking_descends(group_models(groups@), group_models(ranked@));
        assert forall|a: int, b: int| 0 <= a < b < ranked.len() implies (
        #[trigger] ranked[a]).memory >= (#[trigger] ranked[b]).memory by {
            assert(group_models(ranked@)[a].memory >= group_models(ranked@)[b].memory);
        }
    }
    ranked
}

} // verus!
