//! The observer's picture of the cluster: which requests wait, what each
//! server holds, the latest log lines, the settings and the statistics.
//! It is built from the routed events alone.

use crate::event::{server_index, spec_server_index, SystemEvent};
use crate::generator::{INITIAL_AVG_RATE, RATE_SCALE, TRIAL_RANGE};
use crate::policy::{ServerChoiceMode, SERVER_COUNT};
use crate::request::Request;
use crate::server::{views, ServerState, ServerStateView};
use crate::stats::{wait_time, SystemStats, SystemStatsView};
use crate::text::{decimal, decimal_text};
use std::collections::VecDeque;
use vstd::prelude::*;
use vstd::string::StringExecFns;

verus! {

/// How many lines the event log keeps.
pub const LOG_CAPACITY: usize = 100;

/// The settings that a user can change while the simulation runs.
#[derive(Debug, Clone, Copy, PartialEq, Eq, Structural)]
pub struct SystemConfig {
    /// Arrivals per second, in thousandths.
    pub arrival_rate: u32,
    pub choice_mode: ServerChoiceMode,
}

impl SystemConfig {
    /// The arrival rate one request per second above or below the current
    /// one, kept between zero and the rate at which every trial succeeds.
    pub open spec fn spec_stepped_rate(&self, faster: bool) -> u32 {
        if faster {
            if self.arrival_rate + RATE_SCALE <= TRIAL_RANGE {
                (self.arrival_rate + RATE_SCALE) as u32
            } else {
                TRIAL_RANGE as u32
            }
        } else {
            if self.arrival_rate >= RATE_SCALE {
                (self.arrival_rate - RATE_SCALE) as u32
            } else {
                0
            }
        }
    }

    /// The arrival rate to ask for when the user wants more or fewer
    /// arrivals.
    #[verifier::when_used_as_spec(spec_stepped_rate)]
    pub fn stepped_rate(&self, faster: bool) -> (rate: u32)
        ensures
            rate == self.spec_stepped_rate(faster),
    {
        if faster {
            if self.arrival_rate <= TRIAL_RANGE as u32 - RATE_SCALE {
                self.arrival_rate + RATE_SCALE
            } else {
                TRIAL_RANGE as u32
            }
        } else {
            self.arrival_rate.saturating_sub(RATE_SCALE)
        }
    }

    /// The settings after a change that names a new value for some of
    /// them.
    pub open spec fn changed(
        self,
        arrival_rate: Option<u32>,
        choice_mode: Option<ServerChoiceMode>,
    ) -> SystemConfig {
        SystemConfig {
            arrival_rate: match arrival_rate {
                Some(rate) => rate,
                None => self.arrival_rate,
            },
            choice_mode: match choice_mode {
                Some(mode) => mode,
                None => self.choice_mode,
            },
        }
    }
}

/// The log line that reports a new request.
pub open spec fn created_text(request_id: usize) -> Seq<char> {
    "Request #"@ + decimal_text(request_id as nat) + " created"@
}

/// The log line that reports an assignment.
pub open spec fn assigned_text(request_id: usize, server_id: u64) -> Seq<char> {
    "Request #"@ + decimal_text(request_id as nat) + " assigned to Server "@ + decimal_text(
        server_id as nat,
    )
}

/// The log line that reports the start of a job.
pub open spec fn started_text(request_id: usize, server_id: u64) -> Seq<char> {
    "Server "@ + decimal_text(server_id as nat) + " started processing Request #"@ + decimal_text(
        request_id as nat,
    )
}

/// The log line that reports the end of a job.
pub open spec fn processed_text(request_id: usize, server_id: u64) -> Seq<char> {
    "Server "@ + decimal_text(server_id as nat) + " processed request #"@ + decimal_text(
        request_id as nat,
    )
}

/// The log line that reports an error.
pub open spec fn error_text(message: Seq<char>) -> Seq<char> {
    "Error: "@ + message
}

/// What the log says about `event`. A change of settings is not logged.
pub open spec fn spec_describe(event: SystemEvent) -> Option<Seq<char>> {
    match event {
        SystemEvent::RequestCreated(request) => Some(created_text(request.id)),
        SystemEvent::RequestAssigned { server_id, request } => Some(
            assigned_text(request.id, server_id),
        ),
        SystemEvent::RequestProcessStarted { request_id, server_id } => Some(
            started_text(request_id, server_id),
        ),
        SystemEvent::RequestProcessed { request_id, server_id, .. } => Some(
            processed_text(request_id, server_id),
        ),
        SystemEvent::ErrorEncountered(message) => Some(error_text(message@)),
        SystemEvent::ConfigChanged { .. } => None,
    }
}

/// Words `event` for the log.
pub fn describe(event: &SystemEvent) -> (message: Option<String>)
    ensures
        match spec_describe(*event) {
            Some(text) => message matches Some(written) && written@ == text,
            None => message is None,
        },
{
    match event {
        SystemEvent::RequestCreated(request) => {
            let mut message = String::from_str("Request #");
            message.append(decimal(request.id as u64).as_str());
            message.append(" created");
            Some(message)
        },
        SystemEvent::RequestAssigned { server_id, request } => {
            let mut message = String::from_str("Request #");
            message.append(decimal(request.id as u64).as_str());
            message.append(" assigned to Server ");
            message.append(decimal(*server_id).as_str());
            Some(message)
        },
        SystemEvent::RequestProcessStarted { request_id, server_id } => {
            let mut message = String::from_str("Server ");
            message.append(decimal(*server_id).as_str());
            message.append(" started processing Request #");
            message.append(decimal(*request_id as u64).as_str());
            Some(message)
        },
        SystemEvent::RequestProcessed { request_id, server_id, .. } => {
            let mut message = String::from_str("Server ");
            message.append(decimal(*server_id).as_str());
            message.append(" processed request #");
            message.append(decimal(*request_id as u64).as_str());
            Some(message)
        },
        SystemEvent::ErrorEncountered(error) => {
            let mut message = String::from_str("Error: ");
            message.append(error.as_str());
            Some(message)
        },
        SystemEvent::ConfigChanged { .. } => None,
    }
}

/// A log line: the time of day in brackets, a space, the message.
pub open spec fn log_line(clock: Seq<char>, message: Seq<char>) -> Seq<char> {
    "["@ + clock + "] "@ + message
}

/// The log after `line` was added: once the log is full, its oldest line
/// makes room.
pub open spec fn appended(logs: Seq<Seq<char>>, line: Seq<char>) -> Seq<Seq<char>> {
    if logs.len() >= LOG_CAPACITY {
        logs.drop_first().push(line)
    } else {
        logs.push(line)
    }
}

/// The texts of the given lines.
pub open spec fn texts(logs: Seq<String>) -> Seq<Seq<char>> {
    Seq::new(logs.len(), |i: int| logs[i]@)
}

/// Adds a line to the log, made of the time of day `clock` and `message`.
pub fn add_log(logs: &mut Vec<String>, clock: &str, message: String)
    ensures
        texts(final(logs)@) == appended(texts(old(logs)@), log_line(clock@, message@)),
{
    if logs.len() >= LOG_CAPACITY {
        logs.remove(0);
    }
    let mut line = String::from_str("[");
    line.append(clock);
    line.append("] ");
    line.append(message.as_str());
    logs.push(line);
    assert(texts(logs@) =~= appended(texts(old(logs)@), log_line(clock@, message@)));
}

/// The test that keeps every request but the one with identifier `id`.
pub open spec fn other_than(id: usize) -> spec_fn(Request) -> bool {
    |request: Request| request.id != id
}

/// The mathematical content of a [`SystemState`].
pub struct SystemStateView {
    pub pending_requests: Seq<Request>,
    pub servers: Seq<ServerStateView>,
    pub logs: Seq<Seq<char>>,
    pub configs: SystemConfig,
    pub stats: SystemStatsView,
}

impl SystemStateView {
    /// The picture shows three well-formed servers.
    pub open spec fn wf(self) -> bool {
        &&& self.servers.len() == SERVER_COUNT
        &&& forall|i: int| 0 <= i < SERVER_COUNT ==> (#[trigger] self.servers[i]).wf()
    }

    /// Whether the counters have room to take `event` in at time `now`.
    pub open spec fn has_room_for(self, event: SystemEvent, now: u64) -> bool {
        match event {
            SystemEvent::RequestCreated(_) => self.stats.total_requests < usize::MAX,
            SystemEvent::RequestProcessed { server_id, created_at, .. } => spec_server_index(
                server_id,
            ) is Some ==> self.stats.processed_requests < usize::MAX && self.stats.total_wait_time
                + wait_time(created_at, now) <= u64::MAX,
            _ => true,
        }
    }

    /// The picture with one more line in the log.
    pub open spec fn logged(self, clock: Seq<char>, message: Seq<char>) -> SystemStateView {
        SystemStateView { logs: appended(self.logs, log_line(clock, message)), ..self }
    }

    /// The picture after `event` was seen at time `now`, with `clock` as
    /// the time of day for the log.
    ///
    /// A new request joins the waiting requests and is counted. An
    /// assigned request leaves the waiting requests and joins the queue of
    /// the server it names, if that queue has room. A completion takes the
    /// head off the queue of the server it names and enters the
    /// statistics. A change of settings replaces the settings it names.
    /// Every event but a change of settings is logged, an assignment or a
    /// completion only if it took effect on a server.
    pub open spec fn apply(self, event: SystemEvent, now: u64, clock: Seq<char>) -> SystemStateView {
        match event {
            SystemEvent::RequestCreated(request) => (SystemStateView {
                pending_requests: self.pending_requests.push(request),
                stats: self.stats.created(),
                ..self
            }).logged(clock, created_text(request.id)),
            SystemEvent::RequestAssigned { server_id, request } => {
                let cleared = SystemStateView {
                    pending_requests: self.pending_requests.filter(other_than(request.id)),
                    ..self
                };
                match spec_server_index(server_id) {
                    Some(index) if self.servers[index as int].has_room() => (SystemStateView {
                        servers: self.servers.update(
                            index as int,
                            self.servers[index as int].add(request),
                        ),
                        ..cleared
                    }).logged(clock, assigned_text(request.id, server_id)),
                    _ => cleared,
                }
            },
            SystemEvent::RequestProcessStarted { request_id, server_id } => self.logged(
                clock,
                started_text(request_id, server_id),
            ),
            SystemEvent::RequestProcessed { request_id, server_id, created_at } => {
                match spec_server_index(server_id) {
                    Some(index) => (SystemStateView {
                        servers: self.servers.update(
                            index as int,
                            self.servers[index as int].remove(),
                        ),
                        stats: self.stats.processed(created_at, now),
                        ..self
                    }).logged(clock, processed_text(request_id, server_id)),
                    None => self,
                }
            },
            SystemEvent::ErrorEncountered(message) => self.logged(clock, error_text(message@)),
            SystemEvent::ConfigChanged { arrival_rate, choice_mode } => SystemStateView {
                configs: self.configs.changed(arrival_rate, choice_mode),
                ..self
            },
        }
    }
}

/// The observer's picture of the cluster.
pub struct SystemState {
    pub pending_requests: VecDeque<Request>,
    pub servers: [ServerState; 3],
    pub logs: Vec<String>,
    pub configs: SystemConfig,
    pub stats: SystemStats,
}

impl View for SystemState {
    type V = SystemStateView;

    open spec fn view(&self) -> SystemStateView {
        SystemStateView {
            pending_requests: self.pending_requests@,
            servers: views(self.servers@),
            logs: texts(self.logs@),
            configs: self.configs,
            stats: self.stats@,
        }
    }
}

impl SystemState {
    /// Whether the picture is well formed; see [`SystemStateView::wf`].
    pub open spec fn wf(&self) -> bool {
        self@.wf()
    }

    /// The picture of a cluster in which nothing has happened yet: idle,
    /// empty servers numbered 1 to 3, the start-up arrival rate and the
    /// random policy.
    pub fn new() -> (state: Self)
        ensures
            state.wf(),
            state@.pending_requests == Seq::<Request>::empty(),
            state@.logs == Seq::<Seq<char>>::empty(),
            state@.configs == (SystemConfig {
                arrival_rate: (INITIAL_AVG_RATE * RATE_SCALE) as u32,
                choice_mode: ServerChoiceMode::Random,
            }),
            state@.stats == SystemStatsView::empty(),
            forall|i: int|
                0 <= i < SERVER_COUNT ==> (#[trigger] state@.servers[i]) == ServerStateView::idle(
                    (i + 1) as u64,
                ),
    {
        let state = Self {
            pending_requests: VecDeque::new(),
            servers: [ServerState::new(1), ServerState::new(2), ServerState::new(3)],
            logs: Vec::with_capacity(LOG_CAPACITY),
            configs: SystemConfig {
                arrival_rate: INITIAL_AVG_RATE * RATE_SCALE,
                choice_mode: ServerChoiceMode::Random,
            },
            stats: SystemStats::new(),
        };
        assert(texts(state.logs@) =~= Seq::<Seq<char>>::empty());
        state
    }
}

/// The waiting requests without the one that has the identifier `id`.
fn without_request(pending: &VecDeque<Request>, id: usize) -> (kept: VecDeque<Request>)
    ensures
        kept@ == pending@.filter(other_than(id)),
{
    let mut kept: VecDeque<Request> = VecDeque::new();
    let mut index: usize = 0;
    while index < pending.len()
        invariant
            index <= pending@.len(),
            kept@ == pending@.take(index as int).filter(other_than(id)),
        decreases pending@.len() - index,
    {
        let request = pending[index];
        proof {
            assert(pending@.take(index + 1) =~= pending@.take(index as int).push(request));
            pending@.take(index as int).lemma_filter_push(request, other_than(id));
        }
        if request.id != id {
            kept.push_back(request);
        }
        index += 1;
    }
    proof {
        assert(pending@.take(pending@.len() as int) =~= pending@);
    }
    kept
}

/// Brings the picture up to date with `event`, seen at time `now`;
/// `clock` is the time of day for the log. See [`SystemStateView::apply`].
pub fn update_system_state(state: &mut SystemState, event: SystemEvent, now: u64, clock: &str)
    requires
        old(state).wf(),
        old(state)@.has_room_for(event, now),
    ensures
        final(state)@ == old(state)@.apply(event, now, clock@),
        final(state).wf(),
{
    let message = describe(&event);
    match event {
        SystemEvent::RequestCreated(request) => {
            state.pending_requests.push_back(request);
            state.stats.record_created();
            add_log(&mut state.logs, clock, message.unwrap());
        },
        SystemEvent::RequestAssigned { server_id, request } => {
            state.pending_requests = without_request(&state.pending_requests, request.id);
            if let Some(index) = server_index(server_id) {
                if state.servers[index].has_room() {
                    let ghost before = state.servers[index as int]@;
                    proof {
                        assert(before == old(state)@.servers[index as int]);
                        before.lemma_wf_preserved(request);
                    }
                    state.servers[index].add_request(request);
                    assert(state@.servers =~= old(state)@.servers.update(
                        index as int,
                        before.add(request),
                    ));
                    add_log(&mut state.logs, clock, message.unwrap());
                }
            }
        },
        SystemEvent::RequestProcessStarted { .. } => {
            add_log(&mut state.logs, clock, message.unwrap());
        },
        SystemEvent::RequestProcessed { server_id, created_at, .. } => {
            if let Some(index) = server_index(server_id) {
                let ghost before = state.servers[index as int]@;
                proof {
                    assert(before == old(state)@.servers[index as int]);
                    before.lemma_wf_preserved(arbitrary());
                }
                state.servers[index].remove_request();
                assert(state@.servers =~= old(state)@.servers.update(
                    index as int,
                    before.remove(),
                ));
                state.stats.record_processed(created_at, now);
                add_log(&mut state.logs, clock, message.unwrap());
            }
        },
        SystemEvent::ErrorEncountered(_) => {
            add_log(&mut state.logs, clock, message.unwrap());
        },
        SystemEvent::ConfigChanged { arrival_rate, choice_mode } => {
            if let Some(rate) = arrival_rate {
                state.configs.arrival_rate = rate;
            }
            if let Some(mode) = choice_mode {
                state.configs.choice_mode = mode;
            }
        },
    }
}

} // verus!
