//! The events that the components exchange, and where each of them goes.

use crate::policy::ServerChoiceMode;
use crate::request::Request;
use vstd::prelude::*;

verus! {

/// Everything that can happen in the cluster. Times are milliseconds of
/// the simulation clock; an arrival rate is in thousandths of a request
/// per second.
#[derive(Debug, Clone, PartialEq, Eq)]
pub enum SystemEvent {
    RequestCreated(Request),
    RequestAssigned { server_id: u64, request: Request },
    RequestProcessStarted { request_id: usize, server_id: u64 },
    RequestProcessed { request_id: usize, server_id: u64, created_at: u64 },
    ErrorEncountered(String),
    ConfigChanged { arrival_rate: Option<u32>, choice_mode: Option<ServerChoiceMode> },
}

/// The components to which the router hands an event.
#[derive(Debug, Clone, Copy, PartialEq, Eq, Structural)]
pub struct Destinations {
    pub generator: bool,
    pub allocator: bool,
    pub servers: bool,
    pub ui: bool,
}

/// The routing table, read by destination: the generator hears of
/// assignments and configuration changes; the allocator of new requests,
/// completions and configuration changes; the servers of assignments and
/// completions; the user interface of everything.
pub open spec fn spec_route(event: SystemEvent) -> Destinations {
    Destinations {
        generator: event is RequestAssigned || event is ConfigChanged,
        allocator: event is RequestCreated || event is RequestProcessed || event is ConfigChanged,
        servers: event is RequestAssigned || event is RequestProcessed,
        ui: true,
    }
}

/// Decides where the router forwards `event`. The event itself is handed
/// on unchanged.
pub fn route(event: &SystemEvent) -> (to: Destinations)
    ensures
        to == spec_route(*event),
{
    match event {
        SystemEvent::RequestCreated(_) => Destinations {
            generator: false,
            allocator: true,
            servers: false,
            ui: true,
        },
        SystemEvent::RequestAssigned { .. } => Destinations {
            generator: true,
            allocator: false,
            servers: true,
            ui: true,
        },
        SystemEvent::RequestProcessStarted { .. } => Destinations {
            generator: false,
            allocator: false,
            servers: false,
            ui: true,
        },
        SystemEvent::RequestProcessed { .. } => Destinations {
            generator: false,
            allocator: true,
            servers: true,
            ui: true,
        },
        SystemEvent::ErrorEncountered(_) => Destinations {
            generator: false,
            allocator: false,
            servers: false,
            ui: true,
        },
        SystemEvent::ConfigChanged { .. } => Destinations {
            generator: true,
            allocator: true,
            servers: false,
            ui: true,
        },
    }
}

/// The index of the server with identifier `server_id`, if it names one:
/// server identifiers count from 1.
pub open spec fn spec_server_index(server_id: u64) -> Option<usize> {
    if 1 <= server_id <= 3 {
        Some((server_id - 1) as usize)
    } else {
        None
    }
}

/// Finds the server that `server_id` names. An identifier that names no
/// server gives `None`.
pub fn server_index(server_id: u64) -> (index: Option<usize>)
    ensures
        index == spec_server_index(server_id),
        index matches Some(i) ==> i < 3,
{
    if 1 <= server_id && server_id <= 3 {
        Some((server_id - 1) as usize)
    } else {
        None
    }
}

} // verus!
