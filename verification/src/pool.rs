//! The server pool: owns the servers, starts at most one job per server
//! at a time, and frees a server when its job is reported done.

use crate::event::{server_index, spec_server_index, SystemEvent};
use crate::policy::SERVER_COUNT;
use crate::request::Request;
use crate::server::{views, ServerState, ServerStateView};
use vstd::prelude::*;

verus! {

/// One request in service on one server.
#[derive(Debug, Clone, Copy, PartialEq, Eq, Structural)]
pub struct ProcessingJob {
    pub request: Request,
    pub server_id: u64,
}

impl ProcessingJob {
    /// The event that announces the start of the job.
    pub fn started_event(&self) -> (event: SystemEvent)
        ensures
            event == (SystemEvent::RequestProcessStarted {
                request_id: self.request.id,
                server_id: self.server_id,
            }),
    {
        SystemEvent::RequestProcessStarted {
            request_id: self.request.id,
            server_id: self.server_id,
        }
    }

    /// How long the job runs, in milliseconds: the request's service time.
    pub fn duration_ms(&self) -> (millis: u64)
        ensures
            millis == self.request.spec_get_time(),
    {
        self.request.get_time()
    }

    /// The event that announces the end of the job.
    pub fn processed_event(&self) -> (event: SystemEvent)
        ensures
            event == (SystemEvent::RequestProcessed {
                request_id: self.request.id,
                server_id: self.server_id,
                created_at: self.request.created_at,
            }),
    {
        SystemEvent::RequestProcessed {
            request_id: self.request.id,
            server_id: self.server_id,
            created_at: self.request.created_at,
        }
    }
}

/// The jobs that one round starts on the first `count` of `servers`, in
/// server order: one for each server that is ready, serving the head of
/// its queue.
pub open spec fn jobs_among(servers: Seq<ServerStateView>, count: nat) -> Seq<ProcessingJob>
    decreases count,
{
    if count == 0 {
        Seq::empty()
    } else {
        let before = jobs_among(servers, (count - 1) as nat);
        let server = servers[count - 1];
        if server.ready() {
            before.push(ProcessingJob { request: server.queue[0], server_id: server.id })
        } else {
            before
        }
    }
}

/// What can happen to a pool: it learns of an event, or its timer fires.
pub enum PoolInput {
    Event(SystemEvent),
    Tick,
}

impl PoolInput {
    /// Whether this input reports that the job on server `server_id` is
    /// done.
    pub open spec fn reports_done(self, server_id: u64) -> bool {
        self matches PoolInput::Event(SystemEvent::RequestProcessed { server_id: id, .. }) && id
            == server_id
    }
}

/// The mathematical content of a [`ServerPool`].
pub struct ServerPoolView {
    pub servers: Seq<ServerStateView>,
}

impl ServerPoolView {
    /// The pool holds three well-formed servers, numbered from 1.
    pub open spec fn wf(self) -> bool {
        &&& self.servers.len() == SERVER_COUNT
        &&& forall|i: int|
            0 <= i < SERVER_COUNT ==> (#[trigger] self.servers[i]).wf() && self.servers[i].id == i
                + 1
    }

    /// The pool after it has learnt of `event`: an assigned request joins
    /// the queue of the server it names, if that queue has room; a
    /// completion frees the server it names. Other events, and events that
    /// name no server, change nothing.
    pub open spec fn observe(self, event: SystemEvent) -> ServerPoolView {
        match event {
            SystemEvent::RequestAssigned { server_id, request } => match spec_server_index(
                server_id,
            ) {
                Some(index) if self.servers[index as int].has_room() => ServerPoolView {
                    servers: self.servers.update(
                        index as int,
                        self.servers[index as int].add(request),
                    ),
                },
                _ => self,
            },
            SystemEvent::RequestProcessed { server_id, .. } => match spec_server_index(server_id) {
                Some(index) => ServerPoolView {
                    servers: self.servers.update(
                        index as int,
                        self.servers[index as int].with_processing(false),
                    ),
                },
                None => self,
            },
            _ => self,
        }
    }

    /// The pool after one round: every server that was ready has started
    /// on the head of its queue.
    pub open spec fn tick(self) -> ServerPoolView {
        ServerPoolView {
            servers: Seq::new(self.servers.len(), |i: int| self.servers[i].started()),
        }
    }

    /// The jobs that one round starts.
    pub open spec fn jobs(self) -> Seq<ProcessingJob> {
        jobs_among(self.servers, self.servers.len())
    }

    /// The pool after one input.
    pub open spec fn step(self, input: PoolInput) -> ServerPoolView {
        match input {
            PoolInput::Event(event) => self.observe(event),
            PoolInput::Tick => self.tick(),
        }
    }

    /// The jobs that one input starts.
    pub open spec fn step_jobs(self, input: PoolInput) -> Seq<ProcessingJob> {
        match input {
            PoolInput::Event(_) => Seq::empty(),
            PoolInput::Tick => self.jobs(),
        }
    }

    /// The pool after a run of inputs.
    pub open spec fn run(self, inputs: Seq<PoolInput>) -> ServerPoolView
        decreases inputs.len(),
    {
        if inputs.len() == 0 {
            self
        } else {
            self.run(inputs.drop_last()).step(inputs.last())
        }
    }

    /// All jobs started during a run of inputs, in the order of their
    /// start.
    pub open spec fn run_jobs(self, inputs: Seq<PoolInput>) -> Seq<ProcessingJob>
        decreases inputs.len(),
    {
        if inputs.len() == 0 {
            Seq::empty()
        } else {
            self.run_jobs(inputs.drop_last()) + self.run(inputs.drop_last()).step_jobs(
                inputs.last(),
            )
        }
    }

    /// Every input keeps the pool well formed.
    pub proof fn lemma_step_preserves_wf(self, input: PoolInput)
        requires
            self.wf(),
        ensures
            self.step(input).wf(),
    {
        match input {
            PoolInput::Event(SystemEvent::RequestAssigned { server_id, request }) => {
                if let Some(index) = spec_server_index(server_id) {
                    self.servers[index as int].lemma_wf_preserved(request);
                }
            },
            PoolInput::Event(_) => {},
            PoolInput::Tick => {
                assert forall|i: int| 0 <= i < SERVER_COUNT implies (#[trigger] self.tick().servers[i]).wf()
                    && self.tick().servers[i].id == i + 1 by {
                    self.servers[i].lemma_wf_preserved(arbitrary());
                    self.servers[i].remove().lemma_wf_preserved(arbitrary());
                }
            },
        }
    }

    /// Each job that a round starts belongs to a server that was ready: it
    /// serves the head of that server's queue, and the server is busy
    /// afterwards. No server gets two jobs in one round.
    pub proof fn lemma_jobs_of_round(self)
        requires
            self.wf(),
        ensures
            forall|j: int|
                0 <= j < self.jobs().len() ==> {
                    let job = #[trigger] self.jobs()[j];
                    &&& spec_server_index(job.server_id) matches Some(index)
                    &&& self.servers[index as int].ready()
                    &&& job.request == self.servers[index as int].queue[0]
                    &&& self.tick().servers[index as int].is_processing
                },
            forall|a: int, b: int|
                0 <= a < b < self.jobs().len() ==> (#[trigger] self.jobs()[a]).server_id != (
                #[trigger] self.jobs()[b]).server_id,
    {
        reveal_with_fuel(jobs_among, 4);
    }

    /// A busy server is given no job.
    pub proof fn lemma_busy_server_gets_no_job(self, index: int)
        requires
            self.wf(),
            0 <= index < SERVER_COUNT,
            self.servers[index].is_processing,
        ensures
            self.tick().servers[index] == self.servers[index],
            forall|j: int|
                0 <= j < self.jobs().len() ==> (#[trigger] self.jobs()[j]).server_id != index + 1,
    {
        reveal_with_fuel(jobs_among, 4);
    }

    /// While a server is busy and no input reports its job done, the
    /// server stays busy and no further job is started on it: at most one
    /// job per server is in flight at any time.
    pub proof fn lemma_one_job_in_flight(self, inputs: Seq<PoolInput>, index: int)
        requires
            self.wf(),
            0 <= index < SERVER_COUNT,
            self.servers[index].is_processing,
            forall|k: int| 0 <= k < inputs.len() ==> !(#[trigger] inputs[k]).reports_done((index + 1) as u64),
        ensures
            self.run(inputs).wf(),
            self.run(inputs).servers[index].is_processing,
            forall|j: int|
                0 <= j < self.run_jobs(inputs).len() ==> (#[trigger] self.run_jobs(inputs)[j]).server_id
                    != index + 1,
        decreases inputs.len(),
    {
        if inputs.len() > 0 {
            let earlier = inputs.drop_last();
            self.lemma_one_job_in_flight(earlier, index);
            let before = self.run(earlier);
            before.lemma_step_preserves_wf(inputs.last());
            assert(!inputs[inputs.len() - 1].reports_done((index + 1) as u64));
            before.lemma_busy_server_gets_no_job(index);
        }
    }
}

/// The pool's state: the three servers.
pub struct ServerPool {
    pub servers: [ServerState; 3],
}

impl View for ServerPool {
    type V = ServerPoolView;

    open spec fn view(&self) -> ServerPoolView {
        ServerPoolView { servers: views(self.servers@) }
    }
}

impl ServerPool {
    /// Whether the pool is well formed; see [`ServerPoolView::wf`].
    pub open spec fn wf(&self) -> bool {
        self@.wf()
    }

    /// A pool of three idle servers with empty queues, numbered 1 to 3.
    pub fn new() -> (pool: Self)
        ensures
            pool.wf(),
            forall|i: int|
                0 <= i < SERVER_COUNT ==> (#[trigger] pool@.servers[i]) == ServerStateView::idle(
                    (i + 1) as u64,
                ),
    {
        Self { servers: [ServerState::new(1), ServerState::new(2), ServerState::new(3)] }
    }

    /// Takes note of an event; see [`ServerPoolView::observe`].
    pub fn handle_event(&mut self, event: &SystemEvent)
        requires
            old(self).wf(),
        ensures
            final(self)@ == old(self)@.observe(*event),
            final(self).wf(),
    {
        proof {
            self@.lemma_step_preserves_wf(PoolInput::Event(*event));
        }
        match event {
            SystemEvent::RequestAssigned { server_id, request } => {
                if let Some(index) = server_index(*server_id) {
                    if self.servers[index].has_room() {
                        let ghost before = self.servers[index as int]@;
                        proof {
                            assert(before == old(self)@.servers[index as int]);
                            assert(before.wf());
                        }
                        self.servers[index].add_request(*request);
                        assert(self@.servers =~= old(self)@.servers.update(
                            index as int,
                            before.add(*request),
                        ));
                    }
                }
            },
            SystemEvent::RequestProcessed { server_id, .. } => {
                if let Some(index) = server_index(*server_id) {
                    let ghost before = self.servers[index as int]@;
                    self.servers[index].is_processing = false;
                    assert(self@.servers =~= old(self)@.servers.update(
                        index as int,
                        before.with_processing(false),
                    ));
                }
            },
            _ => {},
        }
    }

    /// One round: on every server that has work queued and no job in
    /// flight, takes the head of the queue, marks the server busy and
    /// hands out the job. The jobs come in server order.
    pub fn tick(&mut self) -> (jobs: Vec<ProcessingJob>)
        ensures
            final(self)@ == old(self)@.tick(),
            jobs@ == old(self)@.jobs(),
            old(self).wf() ==> final(self).wf(),
    {
        let ghost pre = self@;
        let mut jobs: Vec<ProcessingJob> = Vec::new();
        let mut index: usize = 0;
        while index < 3
            invariant
                index <= 3,
                pre == old(self)@,
                self@.servers.len() == 3,
                forall|i: int| 0 <= i < index ==> #[trigger] self@.servers[i] == pre.servers[i].started(),
                forall|i: int| index <= i < 3 ==> #[trigger] self@.servers[i] == pre.servers[i],
                jobs@ == jobs_among(pre.servers, index as nat),
            decreases 3 - index,
        {
            let ghost entry = self@;
            assert(entry.servers[index as int] == pre.servers[index as int]);
            if self.servers[index].queue.len() > 0 && !self.servers[index].is_processing {
                if let Some(request) = self.servers[index].remove_request() {
                    self.servers[index].is_processing = true;
                    jobs.push(ProcessingJob { request, server_id: self.servers[index].id });
                }
            }
            proof {
                assert(self@.servers[index as int] == pre.servers[index as int].started());
                assert forall|i: int| 0 <= i < 3 && i != index implies #[trigger] self@.servers[i]
                    == entry.servers[i] by {}
            }
            index += 1;
        }
        proof {
            assert(self@.servers =~= pre.tick().servers);
            if old(self).wf() {
                pre.lemma_step_preserves_wf(PoolInput::Tick);
            }
        }
        jobs
    }
}

} // verus!
