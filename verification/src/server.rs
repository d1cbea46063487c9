//! Server slots: a bounded first-in, first-out queue of requests together
//! with a running account of the work it holds.

use crate::pool::ProcessingJob;
use crate::request::{lemma_service_time_bounds, service_time, Request, MAX_SERVICE_TIME};
use std::collections::VecDeque;
use vstd::prelude::*;

verus! {

/// How many requests a server's queue may hold.
pub const SERVER_CAPACITY: usize = 10;

/// The sum of the service times of the requests in `queue`.
pub open spec fn queue_workload(queue: Seq<Request>) -> nat
    decreases queue.len(),
{
    if queue.len() == 0 {
        0
    } else {
        queue_workload(queue.drop_last()) + service_time(queue.last().kind, queue.last().size)
    }
}

/// Taking the first request out of a queue lowers its workload by that
/// request's service time.
pub proof fn lemma_queue_workload_drop_first(queue: Seq<Request>)
    requires
        queue.len() > 0,
    ensures
        queue_workload(queue) == service_time(queue[0].kind, queue[0].size) + queue_workload(
            queue.drop_first(),
        ),
    decreases queue.len(),
{
    if queue.len() == 1 {
        assert(queue.drop_last() =~= Seq::<Request>::empty());
        assert(queue.drop_first() =~= Seq::<Request>::empty());
    } else {
        lemma_queue_workload_drop_first(queue.drop_last());
        assert(queue.drop_last().drop_first() =~= queue.drop_first().drop_last());
        assert(queue.drop_first().last() == queue.last());
        assert(queue.drop_last()[0] == queue[0]);
    }
}

/// A queue's workload is at most the largest service time, times its length.
pub proof fn lemma_queue_workload_bound(queue: Seq<Request>)
    ensures
        queue_workload(queue) <= MAX_SERVICE_TIME * queue.len(),
    decreases queue.len(),
{
    if queue.len() > 0 {
        lemma_queue_workload_bound(queue.drop_last());
        lemma_service_time_bounds(queue.last().kind, queue.last().size);
    }
}

/// The mathematical content of a [`ServerState`].
pub struct ServerStateView {
    pub id: u64,
    pub queue: Seq<Request>,
    pub total_workload: nat,
    pub is_processing: bool,
}

impl ServerStateView {
    /// An idle server with an empty queue.
    pub open spec fn idle(id: u64) -> ServerStateView {
        ServerStateView { id, queue: Seq::empty(), total_workload: 0, is_processing: false }
    }

    /// A slot is well formed when its queue respects the capacity and its
    /// workload account equals the work that is queued.
    pub open spec fn wf(self) -> bool {
        &&& self.queue.len() <= SERVER_CAPACITY
        &&& self.total_workload == queue_workload(self.queue)
    }

    /// Whether one more request fits into the queue.
    pub open spec fn has_room(self) -> bool {
        self.queue.len() < SERVER_CAPACITY
    }

    /// The request at the head of the queue, if there is one.
    pub open spec fn head(self) -> Option<Request> {
        if self.queue.len() > 0 {
            Some(self.queue[0])
        } else {
            None
        }
    }

    /// The slot after `request` joined the back of the queue. Only a slot
    /// that has room takes a request in.
    pub open spec fn add(self, request: Request) -> ServerStateView
        recommends
            self.has_room(),
    {
        ServerStateView {
            queue: self.queue.push(request),
            total_workload: self.total_workload + service_time(request.kind, request.size),
            ..self
        }
    }

    /// The slot after the head of the queue left it. The workload account
    /// never drops below zero.
    pub open spec fn remove(self) -> ServerStateView {
        if self.queue.len() > 0 {
            let served = service_time(self.queue[0].kind, self.queue[0].size);
            ServerStateView {
                queue: self.queue.drop_first(),
                total_workload: if self.total_workload >= served {
                    (self.total_workload - served) as nat
                } else {
                    0
                },
                ..self
            }
        } else {
            self
        }
    }

    /// The slot with its busy flag set to `busy`.
    pub open spec fn with_processing(self, busy: bool) -> ServerStateView {
        ServerStateView { is_processing: busy, ..self }
    }

    /// Whether a job can start on this server: work is queued and no job
    /// is in flight.
    pub open spec fn ready(self) -> bool {
        self.queue.len() > 0 && !self.is_processing
    }

    /// The slot after a job was started on it if it was ready: the head of
    /// the queue has left and the server is busy.
    pub open spec fn started(self) -> ServerStateView {
        if self.ready() {
            self.remove().with_processing(true)
        } else {
            self
        }
    }

    /// A new slot is well formed, and stays so when a request joins a queue
    /// that has room and when the head of the queue leaves.
    pub proof fn lemma_wf_preserved(self, request: Request)
        requires
            self.wf(),
        ensures
            self.has_room() ==> self.add(request).wf(),
            self.remove().wf(),
            self.with_processing(true).wf(),
            self.with_processing(false).wf(),
    {
        assert(self.queue.push(request).drop_last() =~= self.queue);
        if self.queue.len() > 0 {
            lemma_queue_workload_drop_first(self.queue);
        }
    }

    /// In a well-formed slot the head's service time is part of the
    /// workload account, so taking the head out subtracts exactly that.
    pub proof fn lemma_remove_exact(self)
        requires
            self.wf(),
            self.queue.len() > 0,
        ensures
            self.remove().total_workload + service_time(self.queue[0].kind, self.queue[0].size)
                == self.total_workload,
    {
        lemma_queue_workload_drop_first(self.queue);
    }

    /// A request that joins a well-formed slot with room and is then served leaves
    /// the queue as long as it was. The workload account returns to its
    /// old value exactly when the request that left costs as much as the
    /// one that joined; on an empty queue that request is the one that
    /// joined, and the slot is as it was.
    pub proof fn lemma_add_then_remove(self, request: Request)
        requires
            self.wf(),
            self.has_room(),
        ensures
            self.add(request).remove().queue.len() == self.queue.len(),
            self.add(request).remove().id == self.id,
            self.add(request).remove().is_processing == self.is_processing,
            self.add(request).head() is Some,
            (self.add(request).remove().total_workload == self.total_workload) <==> (service_time(
                self.add(request).head().unwrap().kind,
                self.add(request).head().unwrap().size,
            ) == service_time(request.kind, request.size)),
            self.queue.len() == 0 ==> self.add(request).head() == Some(request)
                && self.add(request).remove() == self,
    {
        let added = self.add(request);
        assert(added.queue.drop_last() =~= self.queue);
        lemma_queue_workload_drop_first(added.queue);
        if self.queue.len() == 0 {
            assert(added.queue.drop_first() =~= self.queue);
        } else {
            lemma_queue_workload_drop_first(self.queue);
        }
    }
}

/// The contents of the given servers, in server order.
pub open spec fn views(servers: Seq<ServerState>) -> Seq<ServerStateView> {
    Seq::new(servers.len(), |i: int| servers[i]@)
}

/// One server of the cluster.
pub struct ServerState {
    pub id: u64,
    pub queue: VecDeque<Request>,
    pub total_workload: u64,
    pub is_processing: bool,
}

impl View for ServerState {
    type V = ServerStateView;

    open spec fn view(&self) -> ServerStateView {
        ServerStateView {
            id: self.id,
            queue: self.queue@,
            total_workload: self.total_workload as nat,
            is_processing: self.is_processing,
        }
    }
}

impl ServerState {
    /// Whether this slot is well formed; see [`ServerStateView::wf`].
    pub open spec fn wf(&self) -> bool {
        self@.wf()
    }

    /// An idle server with an empty queue.
    pub fn new(id: u64) -> (server: Self)
        ensures
            server@ == ServerStateView::idle(id),
            server.wf(),
    {
        Self {
            id,
            queue: VecDeque::with_capacity(SERVER_CAPACITY),
            total_workload: 0,
            is_processing: false,
        }
    }

    /// Whether one more request fits into the queue.
    pub fn has_room(&self) -> (room: bool)
        ensures
            room == self@.has_room(),
    {
        self.queue.len() < SERVER_CAPACITY
    }

    /// Puts `request` at the back of the queue and adds its service time
    /// to the workload account, if the queue has room. A full queue takes
    /// nothing in: the slot stays as it is.
    pub fn add_request(&mut self, request: Request)
        requires
            old(self).wf() || !old(self)@.has_room() || old(self).total_workload + service_time(
                request.kind,
                request.size,
            ) <= u64::MAX,
        ensures
            old(self)@.has_room() ==> final(self)@ == old(self)@.add(request),
            !old(self)@.has_room() ==> final(self)@ == old(self)@,
            old(self).wf() ==> final(self).wf(),
    {
        proof {
            if self.wf() {
                self@.lemma_wf_preserved(request);
                lemma_queue_workload_bound(self@.queue);
                lemma_service_time_bounds(request.kind, request.size);
            }
        }
        if self.has_room() {
            self.total_workload += request.get_time();
            self.queue.push_back(request);
        }
    }

    /// Takes the request at the head of the queue, if there is one, and
    /// subtracts its service time from the workload account.
    pub fn remove_request(&mut self) -> (removed: Option<Request>)
        ensures
            removed == old(self)@.head(),
            final(self)@ == old(self)@.remove(),
            old(self).wf() ==> final(self).wf(),
    {
        proof {
            if self.wf() {
                self@.lemma_wf_preserved(arbitrary());
            }
        }
        if let Some(request) = self.queue.pop_front() {
            self.total_workload = self.total_workload.saturating_sub(request.get_time());
            Some(request)
        } else {
            None
        }
    }
}

/// A server in its barest form: a number and a queue of requests.
pub struct Server {
    pub id: u64,
    pub queue: VecDeque<Request>,
}

impl Server {
    /// Takes the request at the head of the queue into service. The job
    /// that comes back says how long the service lasts; with an empty
    /// queue there is nothing to do.
    pub fn process_request(&mut self) -> (job: Option<ProcessingJob>)
        ensures
            final(self).id == old(self).id,
            match job {
                Some(job) => {
                    &&& old(self).queue@.len() > 0
                    &&& job == (ProcessingJob { request: old(self).queue@[0], server_id: old(self).id })
                    &&& final(self).queue@ == old(self).queue@.drop_first()
                },
                None => old(self).queue@.len() == 0 && final(self).queue@ == old(self).queue@,
            },
    {
        match self.queue.pop_front() {
            Some(request) => Some(ProcessingJob { request, server_id: self.id }),
            None => None,
        }
    }
}

} // verus!
