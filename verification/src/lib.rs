//! A simulated cluster of three servers that serve synthetic requests.
//!
//! A generator makes requests at a random rate, an allocator places them
//! on servers under a placement policy and within each server's capacity,
//! and a server pool serves them one at a time per server. The components
//! share no state: each learns of the others through routed events and
//! keeps its own picture. Every component is a state machine that a driver
//! steps with events and timer ticks; waiting and sending are the driver's
//! business.
//!
//! Times are milliseconds on a clock that the driver supplies. Arrival
//! rates count thousandths of a request per second.

pub mod allocator;
pub mod event;
pub mod generator;
pub mod policy;
pub mod pool;
pub mod random;
pub mod request;
pub mod server;
pub mod state;
pub mod stats;
pub mod text;
pub mod viewport;
