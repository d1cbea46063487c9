//! Placement policies: in which order the servers are offered a request.

use crate::random::shuffle;
use crate::server::{views, ServerState, ServerStateView};
use rand::rngs::StdRng;
use vstd::prelude::*;
use vstd::string::StringExecFns;

verus! {

/// How many servers the cluster has.
pub const SERVER_COUNT: usize = 3;

/// An order of preference over the servers names each server index once.
pub open spec fn is_server_order(order: Seq<usize>) -> bool {
    &&& order.len() == SERVER_COUNT
    &&& forall|i: int| 0 <= i < order.len() ==> #[trigger] order[i] < SERVER_COUNT
    &&& order.no_duplicates()
}

/// The order that starts at server `start` and goes round once.
pub open spec fn round_robin_order(start: usize) -> Seq<usize> {
    seq![start, ((start + 1) % 3) as usize, ((start + 2) % 3) as usize]
}

/// The cursor that follows `cursor` in the round.
pub open spec fn round_robin_next(cursor: usize) -> usize {
    ((cursor + 1) % 3) as usize
}

/// The cursor after `calls` steps from `cursor`.
pub open spec fn round_robin_cursor_after(cursor: usize, calls: nat) -> usize
    decreases calls,
{
    if calls == 0 {
        cursor
    } else {
        round_robin_next(round_robin_cursor_after(cursor, (calls - 1) as nat))
    }
}

/// The workloads of the given servers, in server order.
pub open spec fn workloads(servers: Seq<ServerStateView>) -> Seq<nat> {
    Seq::new(servers.len(), |i: int| servers[i].total_workload)
}

/// Whether server `a` comes before server `b` when servers are ordered by
/// ascending workload and, among equal workloads, by ascending index.
pub open spec fn lighter(loads: Seq<nat>, a: usize, b: usize) -> bool {
    loads[a as int] < loads[b as int] || (loads[a as int] == loads[b as int] && a < b)
}

/// `order` lists the servers by ascending workload, servers of equal
/// workload in index order.
pub open spec fn is_workload_order(order: Seq<usize>, loads: Seq<nat>) -> bool {
    &&& is_server_order(order)
    &&& forall|i: int, j: int|
        0 <= i < j < order.len() ==> lighter(loads, #[trigger] order[i], #[trigger] order[j])
}

/// The strategy by which the allocator ranks the servers for a request.
#[derive(Debug, Clone, Copy, PartialEq, Eq, Structural)]
pub enum ServerChoiceMode {
    /// A fresh random order each time.
    Random,
    /// Start at server `server_num`, which moves on by one each time.
    RoundRobin { server_num: usize },
    /// Least loaded server first.
    SmallerQueue,
}

impl ServerChoiceMode {
    /// A round-robin cursor must name a server.
    pub open spec fn wf(&self) -> bool {
        match self {
            ServerChoiceMode::RoundRobin { server_num } => *server_num < SERVER_COUNT,
            _ => true,
        }
    }

    /// The policy's display name.
    pub open spec fn spec_name(&self) -> Seq<char> {
        match self {
            ServerChoiceMode::Random => "Random"@,
            ServerChoiceMode::RoundRobin { .. } => "Round Robin"@,
            ServerChoiceMode::SmallerQueue => "Smaller Queue"@,
        }
    }

    pub fn name(&self) -> (name: String)
        ensures
            name@ == self.spec_name(),
    {
        match self {
            ServerChoiceMode::Random => String::from_str("Random"),
            ServerChoiceMode::RoundRobin { .. } => String::from_str("Round Robin"),
            ServerChoiceMode::SmallerQueue => String::from_str("Smaller Queue"),
        }
    }

    /// The policy as it is when freshly selected: a round-robin cursor
    /// starts at server 0.
    pub open spec fn spec_fresh(&self) -> ServerChoiceMode {
        match self {
            ServerChoiceMode::RoundRobin { .. } => ServerChoiceMode::RoundRobin { server_num: 0 },
            other => *other,
        }
    }

    #[verifier::when_used_as_spec(spec_fresh)]
    pub fn fresh(&self) -> (mode: ServerChoiceMode)
        ensures
            mode == self.spec_fresh(),
            mode.wf(),
    {
        match self {
            ServerChoiceMode::RoundRobin { .. } => ServerChoiceMode::RoundRobin { server_num: 0 },
            ServerChoiceMode::Random => ServerChoiceMode::Random,
            ServerChoiceMode::SmallerQueue => ServerChoiceMode::SmallerQueue,
        }
    }

    /// Whether this policy may answer `order` when the servers carry the
    /// workloads `loads`. Random may give any order of all servers;
    /// round-robin gives the round that starts at its cursor; smaller-queue
    /// gives the servers by ascending workload, equal workloads in index
    /// order.
    pub open spec fn may_choose(&self, loads: Seq<nat>, order: Seq<usize>) -> bool {
        match self {
            ServerChoiceMode::Random => is_server_order(order),
            ServerChoiceMode::RoundRobin { server_num } => order == round_robin_order(*server_num),
            ServerChoiceMode::SmallerQueue => is_workload_order(order, loads),
        }
    }

    /// The policy after it has answered once: a round-robin cursor has
    /// moved on by one, the other policies carry no state.
    pub open spec fn advanced(&self) -> ServerChoiceMode {
        match self {
            ServerChoiceMode::RoundRobin { server_num } => ServerChoiceMode::RoundRobin {
                server_num: round_robin_next(*server_num),
            },
            other => *other,
        }
    }

    /// Ranks the servers for the next request and advances the policy.
    pub fn choose_order(&mut self, server_states: &[ServerState; 3], rng: &mut StdRng) -> (order:
        Vec<usize>)
        requires
            old(self).wf(),
        ensures
            old(self).may_choose(workloads(views(server_states@)), order@),
            is_server_order(order@),
            *final(self) == old(self).advanced(),
            final(self).wf(),
    {
        match *self {
            ServerChoiceMode::Random => {
                let mut indices: Vec<usize> = vec![0, 1, 2];
                let ghost before = indices@;
                shuffle(&mut indices, rng);
                proof {
                    lemma_permutation_is_server_order(before, indices@);
                }
                indices
            },
            ServerChoiceMode::RoundRobin { server_num } => {
                let start = server_num;
                *self = ServerChoiceMode::RoundRobin { server_num: (start + 1) % 3 };
                let order = vec![start, (start + 1) % 3, (start + 2) % 3];
                assert(order@ =~= round_robin_order(start));
                order
            },
            ServerChoiceMode::SmallerQueue => order_by_workload(server_states),
        }
    }
}

/// A rearrangement of the servers in index order is an order of preference.
proof fn lemma_permutation_is_server_order(before: Seq<usize>, after: Seq<usize>)
    requires
        before =~= seq![0usize, 1usize, 2usize],
        after.to_multiset() == before.to_multiset(),
    ensures
        is_server_order(after),
{
    before.to_multiset_ensures();
    after.to_multiset_ensures();
    assert(before.no_duplicates());
    before.lemma_multiset_has_no_duplicates();
    after.lemma_multiset_has_no_duplicates_conv();
    assert forall|i: int| 0 <= i < after.len() implies #[trigger] after[i] < SERVER_COUNT by {
        assert(after.contains(after[i]));
        assert(after.to_multiset().count(after[i]) > 0);
        assert(before.to_multiset().count(after[i]) > 0);
        assert(before.contains(after[i]));
    }
}

/// The servers by ascending workload, equal workloads in index order.
pub fn order_by_workload(server_states: &[ServerState; 3]) -> (order: Vec<usize>)
    ensures
        is_workload_order(order@, workloads(views(server_states@))),
{
    let ghost loads = workloads(views(server_states@));
    let mut order: Vec<usize> = Vec::new();
    let mut idx: usize = 0;
    while idx < 3
        invariant
            idx <= 3,
            loads == workloads(views(server_states@)),
            order@.len() == idx,
            forall|i: int| 0 <= i < order@.len() ==> #[trigger] order@[i] < idx,
            order@.no_duplicates(),
            forall|i: int, j: int|
                0 <= i < j < order@.len() ==> lighter(loads, #[trigger] order@[i], #[trigger] order@[j]),
        decreases 3 - idx,
    {
        let load = server_states[idx].total_workload;
        let mut pos: usize = order.len();
        while pos > 0 && server_states[order[pos - 1]].total_workload > load
            invariant
                idx < 3,
                pos <= order@.len(),
                order@.len() == idx,
                loads == workloads(views(server_states@)),
                load == loads[idx as int],
                forall|i: int| 0 <= i < order@.len() ==> #[trigger] order@[i] < idx,
                forall|k: int| pos <= k < order@.len() ==> loads[#[trigger] order@[k] as int] > load,
            decreases pos,
        {
            pos -= 1;
        }
        let ghost before = order@;
        order.insert(pos, idx);
        proof {
            let after = order@;
            assert forall|i: int| 0 <= i < after.len() implies #[trigger] after[i] < idx + 1 by {
                if i < pos {
                    assert(after[i] == before[i]);
                } else if i > pos {
                    assert(after[i] == before[i - 1]);
                }
            }
            assert forall|i: int, j: int| 0 <= i < j < after.len() implies lighter(
                loads,
                #[trigger] after[i],
                #[trigger] after[j],
            ) by {
                if j < pos {
                    assert(after[i] == before[i] && after[j] == before[j]);
                } else if j == pos {
                    assert(after[i] == before[i]);
                    assert(before[i] < idx);
                    if pos > 0 {
                        assert(loads[before[pos - 1] as int] <= load);
                        if i < pos - 1 {
                            assert(lighter(loads, before[i], before[pos - 1]));
                        }
                    }
                } else if i < pos {
                    assert(after[i] == before[i] && after[j] == before[j - 1]);
                } else if i == pos {
                    assert(after[j] == before[j - 1]);
                } else {
                    assert(after[i] == before[i - 1] && after[j] == before[j - 1]);
                }
            }
            assert forall|i: int, j: int|
                0 <= i < after.len() && 0 <= j < after.len() && i != j implies after[i]
                != after[j] by {
                let bi = if i < pos { i } else { i - 1 };
                let bj = if j < pos { j } else { j - 1 };
                if i != pos && j != pos {
                    assert(after[i] == before[bi] && after[j] == before[bj]);
                } else if i == pos {
                    assert(after[j] == before[bj]);
                    assert(before[bj] < idx);
                } else {
                    assert(after[i] == before[bi]);
                    assert(before[bi] < idx);
                }
            }
        }
        idx += 1;
    }
    order
}

/// Only one order lists the servers by ascending workload with equal
/// workloads in index order.
pub proof fn lemma_workload_order_unique(a: Seq<usize>, b: Seq<usize>, loads: Seq<nat>)
    requires
        is_workload_order(a, loads),
        is_workload_order(b, loads),
    ensures
        a == b,
{
    assert(lighter(loads, a[0], a[1]) && lighter(loads, a[1], a[2]) && lighter(loads, a[0], a[2]));
    assert(lighter(loads, b[0], b[1]) && lighter(loads, b[1], b[2]) && lighter(loads, b[0], b[2]));
    assert(a[0] != a[1] && a[0] != a[2] && a[1] != a[2]);
    assert(b[0] != b[1] && b[0] != b[2] && b[1] != b[2]);
    assert(a[0] < 3 && a[1] < 3 && a[2] < 3 && b[0] < 3 && b[1] < 3 && b[2] < 3);
    assert(a =~= b);
}

/// The servers that round-robin offers first in `calls` successive calls,
/// starting with the cursor at `cursor`.
pub open spec fn round_robin_heads(cursor: usize, calls: nat) -> Seq<usize> {
    Seq::new(calls, |k: int| round_robin_order(round_robin_cursor_after(cursor, k as nat))[0])
}

/// Round-robin offers every server first exactly once in any three
/// successive calls, and after them the cursor is back where it was.
pub proof fn lemma_round_robin_cycle(cursor: usize)
    requires
        cursor < SERVER_COUNT,
    ensures
        is_server_order(round_robin_heads(cursor, 3)),
        forall|server: usize|
            server < SERVER_COUNT ==> #[trigger] round_robin_heads(cursor, 3).contains(server),
        round_robin_cursor_after(cursor, 3) == cursor,
{
    reveal_with_fuel(round_robin_cursor_after, 4);
    let heads = round_robin_heads(cursor, 3);
    assert(heads[0] == cursor);
    assert(heads[1] == (cursor + 1) % 3);
    assert(heads[2] == (cursor + 2) % 3);
    assert forall|server: usize| server < SERVER_COUNT implies #[trigger] heads.contains(
        server,
    ) by {
        assert(server == heads[0] || server == heads[1] || server == heads[2]);
    }
}

} // verus!
