//! The generator: makes new requests at a random rate, but never keeps
//! more of them waiting for a server than its admission limit allows, and
//! never gives an identifier out twice.

use crate::event::SystemEvent;
use crate::random::random_in_range;
use crate::request::{ids_exhausted, is_request_id, Request};
use rand::rngs::StdRng;
use vstd::prelude::*;

verus! {

/// The arrival rate at start-up, in requests per second.
pub const INITIAL_AVG_RATE: u32 = 3;

/// How many requests may wait for a server before the generator pauses.
pub const PENDING_REQUESTS_LIMIT: i32 = 20;

/// An arrival rate counts thousandths of a request per second.
pub const RATE_SCALE: u32 = 1000;

/// A trial draws a number below this bound and succeeds if the number is
/// below the arrival rate: the generator ticks ten times a second, so a
/// rate of one request per second succeeds once in ten trials.
pub const TRIAL_RANGE: usize = 10_000;

/// The mathematical content of a [`Generator`].
pub struct GeneratorView {
    pub arrival_rate: u32,
    pub pending_requests: i32,
    pub limit: i32,
    pub issued: Seq<usize>,
}

impl GeneratorView {
    /// No identifier was given out twice.
    pub open spec fn wf(self) -> bool {
        self.issued.no_duplicates()
    }

    /// Whether the admission limit leaves room for one more request.
    pub open spec fn admits(self) -> bool {
        self.pending_requests < self.limit
    }

    /// Whether a trial that drew `draw` makes a request: the admission
    /// limit leaves room and the draw is below the arrival rate.
    pub open spec fn trial(self, draw: usize) -> bool {
        self.admits() && draw < self.arrival_rate
    }

    /// The generator after it made a request with identifier `id`: one
    /// more request is pending, and the identifier is on record.
    pub open spec fn registered(self, id: usize) -> GeneratorView {
        GeneratorView {
            pending_requests: (self.pending_requests + 1) as i32,
            issued: self.issued.push(id),
            ..self
        }
    }

    /// The generator after it has learnt of `event`: an assignment takes
    /// one request off the pending count, a new arrival rate replaces the
    /// old one, and nothing else matters.
    pub open spec fn observe(self, event: SystemEvent) -> GeneratorView {
        match event {
            SystemEvent::RequestAssigned { .. } => GeneratorView {
                pending_requests: (self.pending_requests - 1) as i32,
                ..self
            },
            SystemEvent::ConfigChanged { arrival_rate: Some(rate), .. } => GeneratorView {
                arrival_rate: rate,
                ..self
            },
            _ => self,
        }
    }

    /// Recording an identifier that was not given out before keeps the
    /// record free of repetitions.
    pub proof fn lemma_fresh_id_keeps_wf(self, id: usize)
        requires
            self.wf(),
            !self.issued.contains(id),
        ensures
            self.registered(id).wf(),
    {
        let after = self.issued.push(id);
        assert forall|i: int, j: int|
            0 <= i < after.len() && 0 <= j < after.len() && i != j implies after[i] != after[j] by {
            if i < self.issued.len() && j < self.issued.len() {
                assert(after[i] == self.issued[i] && after[j] == self.issued[j]);
            } else if i < self.issued.len() {
                assert(self.issued.contains(self.issued[i]));
            } else {
                assert(self.issued.contains(self.issued[j]));
            }
        }
    }
}

/// The generator's state.
#[derive(Debug, Clone, PartialEq, Eq)]
pub struct Generator {
    /// Arrivals per second, in thousandths.
    pub arrival_rate: u32,
    /// Requests made and not yet assigned to a server.
    pub pending_requests: i32,
    /// The admission limit.
    pub limit: i32,
    /// The identifiers of all requests made so far, in the order of their
    /// making.
    pub issued: Vec<usize>,
}

impl View for Generator {
    type V = GeneratorView;

    open spec fn view(&self) -> GeneratorView {
        GeneratorView {
            arrival_rate: self.arrival_rate,
            pending_requests: self.pending_requests,
            limit: self.limit,
            issued: self.issued@,
        }
    }
}

impl Generator {
    /// Whether the generator is well formed; see [`GeneratorView::wf`].
    pub open spec fn wf(&self) -> bool {
        self@.wf()
    }

    /// Whether the admission limit leaves room for one more request.
    pub open spec fn spec_admits(&self) -> bool {
        self@.admits()
    }

    /// Whether a trial that drew `draw` makes a request; see
    /// [`GeneratorView::trial`].
    pub open spec fn spec_trial(&self, draw: usize) -> bool {
        self@.trial(draw)
    }

    /// A generator that has made nothing yet, with the start-up arrival
    /// rate and the default admission limit.
    pub fn new() -> (generator: Self)
        ensures
            generator@ == (GeneratorView {
                arrival_rate: (INITIAL_AVG_RATE * RATE_SCALE) as u32,
                pending_requests: 0,
                limit: PENDING_REQUESTS_LIMIT,
                issued: Seq::empty(),
            }),
            generator.wf(),
    {
        Self {
            arrival_rate: INITIAL_AVG_RATE * RATE_SCALE,
            pending_requests: 0,
            limit: PENDING_REQUESTS_LIMIT,
            issued: Vec::new(),
        }
    }

    /// A generator that has made nothing yet, with the given rate and
    /// limit.
    pub fn with_limit(arrival_rate: u32, limit: i32) -> (generator: Self)
        ensures
            generator@ == (GeneratorView {
                arrival_rate,
                pending_requests: 0,
                limit,
                issued: Seq::empty(),
            }),
            generator.wf(),
    {
        Self { arrival_rate, pending_requests: 0, limit, issued: Vec::new() }
    }

    #[verifier::when_used_as_spec(spec_admits)]
    pub fn admits(&self) -> (room: bool)
        ensures
            room == self@.admits(),
    {
        self.pending_requests < self.limit
    }

    #[verifier::when_used_as_spec(spec_trial)]
    pub fn trial(&self, draw: usize) -> (success: bool)
        ensures
            success == self@.trial(draw),
    {
        self.admits() && draw < self.arrival_rate as usize
    }

    /// Counts `request` as pending, puts its identifier on record and
    /// announces it.
    pub fn register(&mut self, request: Request) -> (event: SystemEvent)
        requires
            old(self)@.admits(),
        ensures
            final(self)@ == old(self)@.registered(request.id),
            event == SystemEvent::RequestCreated(request),
            old(self).wf() && !old(self)@.issued.contains(request.id) ==> final(self).wf(),
    {
        proof {
            if self.wf() && !self@.issued.contains(request.id) {
                self@.lemma_fresh_id_keeps_wf(request.id);
            }
        }
        self.pending_requests += 1;
        self.issued.push(request.id);
        SystemEvent::RequestCreated(request)
    }

    /// What a round does once its trial has drawn `draw`. A request is
    /// made exactly when the trial succeeds and an identifier is left: it
    /// is random, stamped `now`, carries an identifier that no earlier
    /// request had, and is counted as pending and announced. Otherwise
    /// nothing changes.
    pub fn step(&mut self, draw: usize, rng: &mut StdRng, now: u64) -> (created: Option<
        SystemEvent,
    >)
        ensures
            created is Some <==> old(self)@.trial(draw) && !ids_exhausted(old(self)@.issued),
            match created {
                Some(event) => {
                    &&& event matches SystemEvent::RequestCreated(request)
                    &&& request.created_at == now
                    &&& is_request_id(request.id)
                    &&& !old(self)@.issued.contains(request.id)
                    &&& final(self)@ == old(self)@.registered(request.id)
                },
                None => final(self)@ == old(self)@,
            },
            old(self).wf() ==> final(self).wf(),
    {
        if !self.trial(draw) {
            return None;
        }
        match Request::create_random(rng, now, &self.issued) {
            Some(request) => Some(self.register(request)),
            None => None,
        }
    }

    /// One round. While the admission limit is reached nothing is drawn
    /// and nothing is made. Otherwise one trial is made against the
    /// arrival rate, and [`Generator::step`] does the rest.
    pub fn tick(&mut self, rng: &mut StdRng, now: u64) -> (created: Option<SystemEvent>)
        ensures
            match created {
                Some(event) => {
                    &&& old(self)@.admits()
                    &&& old(self).arrival_rate > 0
                    &&& event matches SystemEvent::RequestCreated(request)
                    &&& request.created_at == now
                    &&& is_request_id(request.id)
                    &&& !old(self)@.issued.contains(request.id)
                    &&& final(self)@ == old(self)@.registered(request.id)
                },
                None => {
                    &&& final(self)@ == old(self)@
                    &&& old(self)@.admits() ==> old(self).arrival_rate < TRIAL_RANGE
                        || ids_exhausted(old(self)@.issued)
                },
            },
            old(self).wf() ==> final(self).wf(),
    {
        if !self.admits() {
            return None;
        }
        let draw = random_in_range(rng, 0, TRIAL_RANGE);
        self.step(draw, rng, now)
    }

    /// Takes note of an event; see [`GeneratorView::observe`].
    pub fn handle_event(&mut self, event: &SystemEvent)
        requires
            *event is RequestAssigned ==> old(self).pending_requests > i32::MIN,
        ensures
            final(self)@ == old(self)@.observe(*event),
            old(self).wf() ==> final(self).wf(),
    {
        match event {
            SystemEvent::RequestAssigned { .. } => {
                self.pending_requests -= 1;
            },
            SystemEvent::ConfigChanged { arrival_rate: Some(rate), .. } => {
                self.arrival_rate = *rate;
            },
            _ => {},
        }
    }
}

/// A generator that is within its admission limit stays within it through
/// every round, whatever is drawn, and through every event.
pub proof fn lemma_admission_limit_kept(
    generator: GeneratorView,
    draw: usize,
    id: usize,
    event: SystemEvent,
)
    requires
        generator.pending_requests <= generator.limit,
        generator.pending_requests > i32::MIN,
    ensures
        generator.trial(draw) ==> generator.registered(id).pending_requests <= generator.limit,
        !generator.admits() ==> !generator.trial(draw),
        generator.observe(event).pending_requests <= generator.observe(event).limit,
{
}

} // verus!
