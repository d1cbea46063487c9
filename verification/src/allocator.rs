//! The allocator: places pending requests on servers under the active
//! policy, respects each server's capacity and reports congestion.

use crate::event::{server_index, spec_server_index, SystemEvent};
use crate::policy::{
    is_server_order, round_robin_next, round_robin_order, workloads, ServerChoiceMode, SERVER_COUNT,
};
use crate::request::Request;
use crate::server::{views, ServerState, ServerStateView, SERVER_CAPACITY};
use rand::rngs::StdRng;
use std::collections::VecDeque;
use vstd::prelude::*;
use vstd::string::StringExecFns;

verus! {

/// The text of the congestion notice.
pub open spec fn all_servers_full_message() -> Seq<char> {
    "All servers are full"@
}

/// Whether the `failures`-th failed attempt in a row is reported: the
/// first of every ten is.
pub open spec fn notice_due(failures: nat) -> bool {
    failures % 10 == 1
}

/// How long to wait, in milliseconds, after the `failures`-th failed
/// attempt in a row: nothing for the first five, then 50 ms per failure,
/// at most one second.
pub open spec fn backoff_millis(failures: nat) -> nat {
    if failures > 5 {
        if failures < 20 {
            50 * failures
        } else {
            1000
        }
    } else {
        0
    }
}

/// The count of failed attempts in a row after one more failure. The
/// counter holds 64 bits. At the end of its range it goes on from 26,
/// which the rules cannot tell from the true count: both are at least 20
/// and leave the remainder 6 when divided by ten.
pub open spec fn next_failures(failures: nat) -> nat {
    if failures < u64::MAX {
        failures + 1
    } else {
        26
    }
}

/// The count after `more` further failures in a row.
pub open spec fn failures_after(failures: nat, more: nat) -> nat
    decreases more,
{
    if more == 0 {
        failures
    } else {
        next_failures(failures_after(failures, (more - 1) as nat))
    }
}

/// How many of the next `count` failed attempts in a row are reported,
/// when `failures` attempts have failed so far.
pub open spec fn notices_in(failures: nat, count: nat) -> nat
    decreases count,
{
    if count == 0 {
        0
    } else {
        notices_in(failures, (count - 1) as nat) + if notice_due(failures_after(failures, count)) {
            1nat
        } else {
            0nat
        }
    }
}

/// The counter stays in its range, and notices and waits follow it as
/// they would follow the true count.
pub proof fn lemma_next_failures(failures: nat)
    requires
        failures <= u64::MAX,
    ensures
        next_failures(failures) <= u64::MAX,
        next_failures(failures) >= 1,
        notice_due(next_failures(failures)) == notice_due(failures + 1),
        backoff_millis(next_failures(failures)) == backoff_millis(failures + 1),
        notice_due(failures) ==> !notice_due(next_failures(failures)),
{
}

/// After `more` further failures the counter is in its range and leaves
/// the remainder by ten that the true count leaves.
pub proof fn lemma_failures_after(failures: nat, more: nat)
    requires
        failures <= u64::MAX,
    ensures
        failures_after(failures, more) <= u64::MAX,
        failures_after(failures, more) % 10 == (failures + more) % 10,
    decreases more,
{
    if more > 0 {
        lemma_failures_after(failures, (more - 1) as nat);
        lemma_next_failures(failures_after(failures, (more - 1) as nat));
    }
}

/// The number of notices in a run, counted directly: of the attempts
/// number `failures + 1` to `failures + count` those are reported whose
/// number leaves the remainder 1 when divided by ten.
pub proof fn lemma_notices_counted(failures: nat, count: nat)
    requires
        failures <= u64::MAX,
    ensures
        notices_in(failures, count) == (failures + count + 9) / 10 - (failures + 9) / 10,
    decreases count,
{
    if count > 0 {
        lemma_notices_counted(failures, (count - 1) as nat);
        lemma_failures_after(failures, count);
    }
}

/// Of any ten failed attempts in a row exactly one is reported.
pub proof fn lemma_one_notice_in_ten(failures: nat, before: nat)
    requires
        failures <= u64::MAX,
    ensures
        notices_in(failures, before + 10) == notices_in(failures, before) + 1,
{
    lemma_notices_counted(failures, before);
    lemma_notices_counted(failures, before + 10);
}

/// A run of failed attempts is reported once per ten: `count` failures in
/// a row give `count / 10` notices, or one more if `count` is no multiple
/// of ten.
pub proof fn lemma_notices_in_run(failures: nat, count: nat)
    requires
        failures <= u64::MAX,
    ensures
        count / 10 <= notices_in(failures, count) <= (count + 9) / 10,
        count % 10 == 0 ==> notices_in(failures, count) == count / 10,
{
    lemma_notices_counted(failures, count);
}

/// The first server in `order`, from position `from` on, whose queue has
/// room.
pub open spec fn first_with_room_from(
    servers: Seq<ServerStateView>,
    order: Seq<usize>,
    from: int,
) -> Option<usize>
    decreases order.len() - from,
{
    if from < 0 || from >= order.len() {
        None
    } else if servers[order[from] as int].has_room() {
        Some(order[from])
    } else {
        first_with_room_from(servers, order, from + 1)
    }
}

/// The first server in `order` whose queue has room.
pub open spec fn first_with_room(servers: Seq<ServerStateView>, order: Seq<usize>) -> Option<
    usize,
> {
    first_with_room_from(servers, order, 0)
}

/// The server that `first_with_room_from` finds has room and stands in
/// `order` behind full servers only; it finds none only if every server
/// listed is full.
pub proof fn lemma_first_with_room_from(
    servers: Seq<ServerStateView>,
    order: Seq<usize>,
    from: int,
)
    requires
        0 <= from <= order.len(),
    ensures
        match first_with_room_from(servers, order, from) {
            Some(server) => exists|k: int|
                {
                    &&& from <= k < order.len()
                    &&& #[trigger] order[k] == server
                    &&& servers[server as int].has_room()
                    &&& forall|j: int| from <= j < k ==> !servers[#[trigger] order[j] as int].has_room()
                },
            None => forall|j: int|
                from <= j < order.len() ==> !servers[#[trigger] order[j] as int].has_room(),
        },
    decreases order.len() - from,
{
    if from < order.len() {
        if servers[order[from] as int].has_room() {
            assert(order[from] == order[from]);
        } else {
            lemma_first_with_room_from(servers, order, from + 1);
        }
    }
}

/// Under an order that names every server, a request finds no place
/// exactly when all servers are full.
pub proof fn lemma_rejected_iff_all_full(servers: Seq<ServerStateView>, order: Seq<usize>)
    requires
        servers.len() == SERVER_COUNT,
        is_server_order(order),
    ensures
        first_with_room(servers, order) is None <==> forall|i: int|
            0 <= i < SERVER_COUNT ==> !(#[trigger] servers[i]).has_room(),
        first_with_room(servers, order) matches Some(server) ==> server < SERVER_COUNT
            && servers[server as int].has_room(),
{
    lemma_first_with_room_from(servers, order, 0);
    assert(order[0] != order[1] && order[0] != order[2] && order[1] != order[2]);
    assert(order[0] < 3 && order[1] < 3 && order[2] < 3);
    if first_with_room(servers, order) is None {
        assert forall|i: int| 0 <= i < SERVER_COUNT implies !(#[trigger] servers[i]).has_room() by {
            assert(i == order[0] || i == order[1] || i == order[2]);
        }
    }
}

/// What the allocator asks its driver to do after an attempt.
#[derive(Debug, Clone, PartialEq, Eq)]
pub struct AllocatorAction {
    /// The event to publish, if any.
    pub event: Option<SystemEvent>,
    /// How long to wait before the next attempt, in milliseconds.
    pub backoff_ms: u64,
}

/// The mathematical content of an [`Allocator`].
pub struct AllocatorView {
    pub servers: Seq<ServerStateView>,
    pub requests: Seq<Request>,
    pub choice_mode: ServerChoiceMode,
    pub consecutive_full_errors: nat,
}

impl AllocatorView {
    /// The allocator mirrors three well-formed servers, numbered from 1,
    /// and its policy is well formed.
    pub open spec fn wf(self) -> bool {
        &&& self.servers.len() == SERVER_COUNT
        &&& forall|i: int|
            0 <= i < SERVER_COUNT ==> (#[trigger] self.servers[i]).wf() && self.servers[i].id == i
                + 1
        &&& self.choice_mode.wf()
    }

    /// The allocator after it has learnt of `event`: a new request joins
    /// the pending queue; a completion takes the head off the mirrored
    /// queue of the server it names and marks that server idle; a new
    /// policy replaces the old one and starts afresh. Other events, and
    /// completions that name no server, change nothing.
    pub open spec fn observe(self, event: SystemEvent) -> AllocatorView {
        match event {
            SystemEvent::RequestCreated(request) => AllocatorView {
                requests: self.requests.push(request),
                ..self
            },
            SystemEvent::RequestProcessed { server_id, .. } => match spec_server_index(server_id) {
                Some(index) => AllocatorView {
                    servers: self.servers.update(
                        index as int,
                        self.servers[index as int].remove().with_processing(false),
                    ),
                    ..self
                },
                None => self,
            },
            SystemEvent::ConfigChanged { choice_mode: Some(mode), .. } => AllocatorView {
                choice_mode: mode.spec_fresh(),
                ..self
            },
            _ => self,
        }
    }

    /// The allocator after its policy has answered once.
    pub open spec fn policy_advanced(self) -> AllocatorView {
        AllocatorView { choice_mode: self.choice_mode.advanced(), ..self }
    }

    /// The allocator after one attempt to place the head of the pending
    /// queue under the preference `order`. The request goes to the first
    /// server in `order` that has room, and the count of failures starts
    /// over; if no server has room the request stays and the count goes up.
    pub open spec fn place(self, order: Seq<usize>) -> AllocatorView {
        match first_with_room(self.servers, order) {
            Some(server) => AllocatorView {
                servers: self.servers.update(
                    server as int,
                    self.servers[server as int].add(self.requests[0]),
                ),
                requests: self.requests.drop_first(),
                consecutive_full_errors: 0,
                ..self
            },
            None => AllocatorView {
                consecutive_full_errors: next_failures(self.consecutive_full_errors),
                ..self
            },
        }
    }

    /// Whether `action` is what an attempt under `order` asks for: on
    /// success the assignment and no wait; on failure the congestion
    /// notice if one is due, and the wait that the failure count calls for.
    pub open spec fn asks_for(self, order: Seq<usize>, action: AllocatorAction) -> bool {
        match first_with_room(self.servers, order) {
            Some(server) => {
                &&& action.event == Some(
                    SystemEvent::RequestAssigned {
                        server_id: self.servers[server as int].id,
                        request: self.requests[0],
                    },
                )
                &&& action.backoff_ms == 0
            },
            None => {
                let failures = next_failures(self.consecutive_full_errors);
                &&& action.backoff_ms == backoff_millis(failures)
                &&& if notice_due(failures) {
                    action.event matches Some(SystemEvent::ErrorEncountered(message))
                        && message@ == all_servers_full_message()
                } else {
                    action.event is None
                }
            },
        }
    }
}

/// An attempt keeps the allocator well formed: no mirrored queue grows
/// beyond its capacity.
pub proof fn lemma_place_keeps_wf(allocator: AllocatorView, order: Seq<usize>)
    requires
        allocator.wf(),
        allocator.requests.len() > 0,
        is_server_order(order),
    ensures
        allocator.place(order).wf(),
        allocator.policy_advanced().wf(),
{
    lemma_rejected_iff_all_full(allocator.servers, order);
    if let Some(server) = first_with_room(allocator.servers, order) {
        allocator.servers[server as int].lemma_wf_preserved(allocator.requests[0]);
    }
}

/// A successful attempt: while some server has room, the head of the
/// pending queue is assigned to a server whose mirrored queue was not
/// full, that queue takes it in, and nothing is reported.
pub proof fn lemma_successful_attempt(
    allocator: AllocatorView,
    order: Seq<usize>,
    action: AllocatorAction,
)
    requires
        allocator.wf(),
        allocator.requests.len() > 0,
        is_server_order(order),
        exists|i: int| 0 <= i < SERVER_COUNT && (#[trigger] allocator.servers[i]).has_room(),
        allocator.asks_for(order, action),
    ensures
        action.backoff_ms == 0,
        action.event matches Some(SystemEvent::RequestAssigned { server_id, request }) && {
            &&& request == allocator.requests[0]
            &&& spec_server_index(server_id) matches Some(index)
            &&& allocator.servers[index as int].has_room()
            &&& allocator.place(order).servers[index as int] == allocator.servers[index as int].add(
                request,
            )
            &&& allocator.place(order).servers[index as int].queue.len() <= SERVER_CAPACITY
        },
        allocator.place(order).requests == allocator.requests.drop_first(),
        allocator.place(order).consecutive_full_errors == 0,
{
    lemma_rejected_iff_all_full(allocator.servers, order);
}

/// A failed attempt: while every server is full, nothing is assigned, the
/// mirrors and the pending queue stay as they are, the count of failures
/// goes up by one, and the failure is reported exactly when it is the
/// first of ten.
pub proof fn lemma_failed_attempt(
    allocator: AllocatorView,
    order: Seq<usize>,
    action: AllocatorAction,
)
    requires
        allocator.wf(),
        allocator.requests.len() > 0,
        is_server_order(order),
        forall|i: int| 0 <= i < SERVER_COUNT ==> !(#[trigger] allocator.servers[i]).has_room(),
        allocator.asks_for(order, action),
    ensures
        allocator.place(order) == (AllocatorView {
            consecutive_full_errors: next_failures(allocator.consecutive_full_errors),
            ..allocator
        }),
        action.event is Some <==> notice_due(next_failures(allocator.consecutive_full_errors)),
        action.event matches Some(event) ==> event is ErrorEncountered,
        action.backoff_ms == backoff_millis(next_failures(allocator.consecutive_full_errors)),
{
    lemma_rejected_iff_all_full(allocator.servers, order);
}

/// Under round-robin a request goes to the server at the cursor whenever
/// that server has room, and the cursor moves on.
pub proof fn lemma_round_robin_places_at_cursor(allocator: AllocatorView, cursor: usize)
    requires
        allocator.wf(),
        allocator.choice_mode == (ServerChoiceMode::RoundRobin { server_num: cursor }),
        allocator.requests.len() > 0,
        allocator.servers[cursor as int].has_room(),
    ensures
        allocator.choice_mode.may_choose(workloads(allocator.servers), round_robin_order(cursor)),
        first_with_room(allocator.servers, round_robin_order(cursor)) == Some(cursor),
        allocator.policy_advanced().place(round_robin_order(cursor)).servers[cursor as int]
            == allocator.servers[cursor as int].add(allocator.requests[0]),
        allocator.policy_advanced().place(round_robin_order(cursor)).choice_mode == (
        ServerChoiceMode::RoundRobin { server_num: round_robin_next(cursor) }),
{
}

/// The allocator's state: its mirror of the servers, the requests that
/// await a place, the active policy and the run of failed attempts.
pub struct Allocator {
    pub server_states: [ServerState; 3],
    pub requests: VecDeque<Request>,
    pub choice_mode: ServerChoiceMode,
    pub consecutive_full_errors: u64,
}

impl View for Allocator {
    type V = AllocatorView;

    open spec fn view(&self) -> AllocatorView {
        AllocatorView {
            servers: views(self.server_states@),
            requests: self.requests@,
            choice_mode: self.choice_mode,
            consecutive_full_errors: self.consecutive_full_errors as nat,
        }
    }
}

impl Allocator {
    /// Whether the allocator is well formed; see [`AllocatorView::wf`].
    pub open spec fn wf(&self) -> bool {
        self@.wf()
    }

    /// An allocator with nothing pending, three empty servers numbered 1
    /// to 3, and the random policy.
    pub fn new() -> (allocator: Self)
        ensures
            allocator.wf(),
            allocator@.requests == Seq::<Request>::empty(),
            allocator@.choice_mode == ServerChoiceMode::Random,
            allocator@.consecutive_full_errors == 0,
            forall|i: int|
                0 <= i < SERVER_COUNT ==> (#[trigger] allocator@.servers[i]) == ServerStateView::idle(
                    (i + 1) as u64,
                ),
    {
        Self {
            server_states: [ServerState::new(1), ServerState::new(2), ServerState::new(3)],
            requests: VecDeque::new(),
            choice_mode: ServerChoiceMode::Random,
            consecutive_full_errors: 0,
        }
    }

    /// Takes note of an event; see [`AllocatorView::observe`].
    pub fn handle_event(&mut self, event: &SystemEvent)
        ensures
            final(self)@ == old(self)@.observe(*event),
            old(self).wf() ==> final(self).wf(),
    {
        match event {
            SystemEvent::RequestCreated(request) => {
                self.requests.push_back(*request);
            },
            SystemEvent::RequestProcessed { server_id, .. } => {
                if let Some(index) = server_index(*server_id) {
                    let ghost before = self.server_states[index as int]@;
                    self.server_states[index].remove_request();
                    self.server_states[index].is_processing = false;
                    assert(self@.servers =~= old(self)@.servers.update(
                        index as int,
                        before.remove().with_processing(false),
                    ));
                }
            },
            SystemEvent::ConfigChanged { choice_mode: Some(mode), .. } => {
                self.choice_mode = mode.fresh();
            },
            _ => {},
        }
    }

    /// Tries once to place the head of the pending queue, offering it to
    /// the servers in the given order; see [`AllocatorView::place`] and
    /// [`AllocatorView::asks_for`].
    pub fn place(&mut self, order: &Vec<usize>) -> (action: AllocatorAction)
        requires
            old(self).wf(),
            old(self).requests@.len() > 0,
            is_server_order(order@),
        ensures
            final(self)@ == old(self)@.place(order@),
            old(self)@.asks_for(order@, action),
            final(self).wf(),
    {
        let ghost pre = self@;
        let mut k: usize = 0;
        while k < order.len()
            invariant
                k <= order@.len(),
                self@ == pre,
                *self == *old(self),
                pre.wf(),
                pre.requests.len() > 0,
                is_server_order(order@),
                first_with_room(pre.servers, order@) == first_with_room_from(
                    pre.servers,
                    order@,
                    k as int,
                ),
            decreases order@.len() - k,
        {
            let index = order[k];
            if self.server_states[index].has_room() {
                let request = self.requests.pop_front().unwrap();
                proof {
                    assert(pre.servers[index as int].wf());
                    pre.servers[index as int].lemma_wf_preserved(request);
                }
                self.server_states[index].add_request(request);
                self.consecutive_full_errors = 0;
                assert(self@.servers =~= pre.servers.update(
                    index as int,
                    pre.servers[index as int].add(request),
                ));
                return AllocatorAction {
                    event: Some(
                        SystemEvent::RequestAssigned {
                            server_id: self.server_states[index].id,
                            request,
                        },
                    ),
                    backoff_ms: 0,
                };
            }
            k += 1;
        }
        let failures: u64 = if self.consecutive_full_errors < u64::MAX {
            self.consecutive_full_errors + 1
        } else {
            26
        };
        self.consecutive_full_errors = failures;
        let event = if failures % 10 == 1 {
            Some(SystemEvent::ErrorEncountered(String::from_str("All servers are full")))
        } else {
            None
        };
        let backoff_ms: u64 = if failures > 5 {
            if failures < 20 {
                50 * failures
            } else {
                1000
            }
        } else {
            0
        };
        AllocatorAction { event, backoff_ms }
    }

    /// One allocation round. With nothing pending, nothing happens.
    /// Otherwise the policy ranks the servers and the head of the pending
    /// queue is offered to them in that order.
    pub fn tick(&mut self, rng: &mut StdRng) -> (action: AllocatorAction)
        requires
            old(self).wf(),
        ensures
            final(self).wf(),
            old(self)@.requests.len() == 0 ==> {
                &&& final(self)@ == old(self)@
                &&& action.event is None
                &&& action.backoff_ms == 0
            },
            old(self)@.requests.len() > 0 ==> exists|order: Seq<usize>|
                {
                    &&& #[trigger] old(self)@.choice_mode.may_choose(
                        workloads(old(self)@.servers),
                        order,
                    )
                    &&& is_server_order(order)
                    &&& final(self)@ == old(self)@.policy_advanced().place(order)
                    &&& old(self)@.asks_for(order, action)
                },
    {
        if self.requests.len() == 0 {
            return AllocatorAction { event: None, backoff_ms: 0 };
        }
        let order = self.choice_mode.choose_order(&self.server_states, rng);
        let action = self.place(&order);
        proof {
            assert(old(self)@.choice_mode.may_choose(workloads(old(self)@.servers), order@));
        }
        action
    }
}

} // verus!
