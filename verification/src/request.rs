//! Requests: immutable units of work with a synthetic, deterministic cost.

use crate::random::random_in_range;
use rand::rngs::StdRng;
use vstd::prelude::*;
use vstd::string::StringExecFns;

verus! {

/// Smallest service time any request can have, in milliseconds.
pub const MIN_SERVICE_TIME: u64 = 500;

/// Largest service time any request can have, in milliseconds.
pub const MAX_SERVICE_TIME: u64 = 5000;

/// Lower bound (inclusive) of the identifiers given to new requests.
pub const REQUEST_ID_MIN: usize = 1_000_000;

/// Upper bound (exclusive) of the identifiers given to new requests.
pub const REQUEST_ID_END: usize = 10_000_000;

/// How many identifiers there are to give out.
pub const REQUEST_ID_COUNT: usize = 9_000_000;

/// Whether `id` is an identifier that a request can have.
pub open spec fn is_request_id(id: usize) -> bool {
    REQUEST_ID_MIN <= id < REQUEST_ID_END
}

/// Whether every identifier has been given out: each is among `issued`.
pub open spec fn ids_exhausted(issued: Seq<usize>) -> bool {
    forall|id: usize| is_request_id(id) ==> #[trigger] issued.contains(id)
}

/// The identifier `steps` places after `start`; after the last
/// identifier comes the first.
pub open spec fn id_after(start: usize, steps: int) -> usize {
    (REQUEST_ID_MIN + (start - REQUEST_ID_MIN + steps) % (REQUEST_ID_COUNT as int)) as usize
}

/// Whether `id` is the first identifier at or after `start`, going round,
/// that is not among `issued`.
pub open spec fn is_first_fresh(issued: Seq<usize>, start: usize, id: usize) -> bool {
    exists|steps: int|
        {
            &&& 0 <= steps < REQUEST_ID_COUNT
            &&& id == #[trigger] id_after(start, steps)
            &&& !issued.contains(id)
            &&& forall|earlier: int|
                0 <= earlier < steps ==> issued.contains(#[trigger] id_after(start, earlier))
        }
}

/// A list that holds each of the first `count` identifiers is at least
/// `count` long.
pub proof fn lemma_covering_list_is_long(issued: Seq<usize>, count: nat)
    requires
        count <= REQUEST_ID_COUNT,
        forall|id: usize|
            REQUEST_ID_MIN <= id < REQUEST_ID_MIN + count ==> #[trigger] issued.contains(id),
    ensures
        issued.len() >= count,
    decreases count,
{
    if count > 0 {
        let last = (REQUEST_ID_MIN + count - 1) as usize;
        assert(issued.contains(last));
        let at = choose|at: int| 0 <= at < issued.len() && issued[at] == last;
        let rest = issued.remove(at);
        assert forall|id: usize| REQUEST_ID_MIN <= id < REQUEST_ID_MIN + count - 1 implies #[trigger] rest.contains(
            id,
        ) by {
            assert(issued.contains(id));
            let found = choose|found: int| 0 <= found < issued.len() && issued[found] == id;
            if found < at {
                assert(rest[found] == id);
            } else {
                assert(rest[found - 1] == id);
            }
        }
        lemma_covering_list_is_long(rest, (count - 1) as nat);
    }
}

/// While fewer identifiers were given out than there are, one is left.
pub proof fn lemma_ids_left(issued: Seq<usize>)
    requires
        issued.len() < REQUEST_ID_COUNT,
    ensures
        !ids_exhausted(issued),
{
    if ids_exhausted(issued) {
        assert forall|id: usize|
            REQUEST_ID_MIN <= id < REQUEST_ID_MIN + REQUEST_ID_COUNT implies #[trigger] issued.contains(
            id,
        ) by {
            assert(is_request_id(id));
        }
        lemma_covering_list_is_long(issued, REQUEST_ID_COUNT as nat);
    }
}

/// Whether `id` is among the identifiers in `issued`.
pub fn is_issued(issued: &Vec<usize>, id: usize) -> (found: bool)
    ensures
        found == issued@.contains(id),
{
    let mut index: usize = 0;
    while index < issued.len()
        invariant
            index <= issued@.len(),
            forall|i: int| 0 <= i < index ==> issued@[i] != id,
        decreases issued@.len() - index,
    {
        if issued[index] == id {
            return true;
        }
        index += 1;
    }
    false
}

/// Finds the first identifier at or after `start`, going round, that is
/// not among `issued`. There is none only when every identifier has been
/// given out.
pub fn fresh_id(start: usize, issued: &Vec<usize>) -> (fresh: Option<usize>)
    requires
        is_request_id(start),
    ensures
        match fresh {
            Some(id) => {
                &&& is_request_id(id)
                &&& !issued@.contains(id)
                &&& is_first_fresh(issued@, start, id)
            },
            None => ids_exhausted(issued@),
        },
{
    let mut candidate: usize = start;
    let mut steps: usize = 0;
    while steps < REQUEST_ID_COUNT
        invariant
            steps <= REQUEST_ID_COUNT,
            is_request_id(start),
            is_request_id(candidate),
            steps < REQUEST_ID_COUNT ==> candidate == id_after(start, steps as int),
            forall|earlier: int|
                0 <= earlier < steps ==> issued@.contains(#[trigger] id_after(start, earlier)),
        decreases REQUEST_ID_COUNT - steps,
    {
        if !is_issued(issued, candidate) {
            return Some(candidate);
        }
        candidate = if candidate + 1 == REQUEST_ID_END {
            REQUEST_ID_MIN
        } else {
            candidate + 1
        };
        steps += 1;
    }
    proof {
        assert forall|id: usize| is_request_id(id) implies #[trigger] issued@.contains(id) by {
            let steps_to = if id >= start {
                id - start
            } else {
                id - start + REQUEST_ID_COUNT
            };
            assert(id_after(start, steps_to) == id);
        }
    }
    None
}

/// How large a request is; scales its service time.
#[derive(Debug, Clone, Copy, PartialEq, Eq, Structural)]
pub enum RequestSize {
    Small,
    Mid,
    Large,
}

impl RequestSize {
    /// The factor by which this size multiplies a request's base cost.
    pub open spec fn spec_mult_factor(&self) -> u64 {
        match self {
            RequestSize::Small => 5,
            RequestSize::Mid => 10,
            RequestSize::Large => 50,
        }
    }

    #[verifier::when_used_as_spec(spec_mult_factor)]
    pub fn mult_factor(&self) -> (factor: u64)
        ensures
            factor == self.spec_mult_factor(),
    {
        match self {
            RequestSize::Small => 5,
            RequestSize::Mid => 10,
            RequestSize::Large => 50,
        }
    }

    /// The size at position `index` of the list Small, Mid, Large.
    pub open spec fn spec_from_index(index: usize) -> RequestSize {
        if index == 0 {
            RequestSize::Small
        } else if index == 1 {
            RequestSize::Mid
        } else {
            RequestSize::Large
        }
    }

    /// Picks a size by its position in the list Small, Mid, Large.
    pub fn from_index(index: usize) -> (size: RequestSize)
        requires
            index < 3,
        ensures
            size == Self::spec_from_index(index),
    {
        if index == 0 {
            RequestSize::Small
        } else if index == 1 {
            RequestSize::Mid
        } else {
            RequestSize::Large
        }
    }

    /// The size's display name.
    pub open spec fn spec_name(&self) -> Seq<char> {
        match self {
            RequestSize::Small => "Small"@,
            RequestSize::Mid => "Mid"@,
            RequestSize::Large => "Large"@,
        }
    }

    pub fn name(&self) -> (name: &'static str)
        ensures
            name@ == self.spec_name(),
    {
        match self {
            RequestSize::Small => "Small",
            RequestSize::Mid => "Mid",
            RequestSize::Large => "Large",
        }
    }
}

/// What kind of work a request does; fixes its base cost.
#[derive(Debug, Clone, Copy, PartialEq, Eq, Structural)]
pub enum RequestType {
    CPUsBound,
    IOBound,
    Mixed,
}

impl RequestType {
    /// The CPU share of the base cost, in milliseconds.
    pub open spec fn spec_cpu_time(&self) -> u64 {
        match self {
            RequestType::CPUsBound => 95,
            RequestType::IOBound => 30,
            RequestType::Mixed => 55,
        }
    }

    #[verifier::when_used_as_spec(spec_cpu_time)]
    pub fn cpu_time(&self) -> (millis: u64)
        ensures
            millis == self.spec_cpu_time(),
    {
        match self {
            RequestType::CPUsBound => 95,
            RequestType::IOBound => 30,
            RequestType::Mixed => 55,
        }
    }

    /// The I/O share of the base cost, in milliseconds.
    pub open spec fn spec_io_time(&self) -> u64 {
        match self {
            RequestType::CPUsBound => 5,
            RequestType::IOBound => 70,
            RequestType::Mixed => 45,
        }
    }

    #[verifier::when_used_as_spec(spec_io_time)]
    pub fn io_time(&self) -> (millis: u64)
        ensures
            millis == self.spec_io_time(),
    {
        match self {
            RequestType::CPUsBound => 5,
            RequestType::IOBound => 70,
            RequestType::Mixed => 45,
        }
    }

    /// The kind at position `index` of the list CPUsBound, IOBound, Mixed.
    pub open spec fn spec_from_index(index: usize) -> RequestType {
        if index == 0 {
            RequestType::CPUsBound
        } else if index == 1 {
            RequestType::IOBound
        } else {
            RequestType::Mixed
        }
    }

    /// Picks a kind by its position in the list CPUsBound, IOBound, Mixed.
    pub fn from_index(index: usize) -> (kind: RequestType)
        requires
            index < 3,
        ensures
            kind == Self::spec_from_index(index),
    {
        if index == 0 {
            RequestType::CPUsBound
        } else if index == 1 {
            RequestType::IOBound
        } else {
            RequestType::Mixed
        }
    }

    /// The kind's display name.
    pub open spec fn spec_name(&self) -> Seq<char> {
        match self {
            RequestType::CPUsBound => "CPUsBound"@,
            RequestType::IOBound => "IOBound"@,
            RequestType::Mixed => "Mixed"@,
        }
    }

    pub fn name(&self) -> (name: &'static str)
        ensures
            name@ == self.spec_name(),
    {
        match self {
            RequestType::CPUsBound => "CPUsBound",
            RequestType::IOBound => "IOBound",
            RequestType::Mixed => "Mixed",
        }
    }
}

/// The service time, in milliseconds, of a request of the given kind and
/// size: the sum of the kind's base costs, times the size's factor.
pub open spec fn service_time(kind: RequestType, size: RequestSize) -> nat {
    ((kind.spec_cpu_time() + kind.spec_io_time()) * size.spec_mult_factor()) as nat
}

/// A unit of work. Never changed after it was made, only handed on.
#[derive(Debug, Clone, Copy, PartialEq, Eq, Structural)]
pub struct Request {
    pub id: usize,
    pub kind: RequestType,
    pub size: RequestSize,
    /// When the request was made, in milliseconds of the simulation clock.
    pub created_at: u64,
}

impl Request {
    /// The request's service time in milliseconds.
    pub open spec fn spec_get_time(&self) -> u64 {
        service_time(self.kind, self.size) as u64
    }

    /// How long serving this request takes, in milliseconds.
    #[verifier::when_used_as_spec(spec_get_time)]
    pub fn get_time(&self) -> (millis: u64)
        ensures
            millis == service_time(self.kind, self.size),
            millis == self.spec_get_time(),
            MIN_SERVICE_TIME <= millis <= MAX_SERVICE_TIME,
    {
        let total_time: u64 = self.kind.cpu_time() + self.kind.io_time();
        assert(total_time == 100);
        total_time * self.size.mult_factor()
    }

    /// The request's display name: its size, a space, its kind.
    pub open spec fn spec_get_name(&self) -> Seq<char> {
        self.size.spec_name() + " "@ + self.kind.spec_name()
    }

    pub fn get_name(&self) -> (name: String)
        ensures
            name@ == self.spec_get_name(),
    {
        let mut name = String::from_str(self.size.name());
        name.append(" ");
        name.append(self.kind.name());
        name
    }

    /// Builds the request that the given draws stand for.
    pub fn from_draws(id: usize, kind_index: usize, size_index: usize, created_at: u64) -> (request:
        Request)
        requires
            kind_index < 3,
            size_index < 3,
        ensures
            request == (Request {
                id,
                kind: RequestType::spec_from_index(kind_index),
                size: RequestSize::spec_from_index(size_index),
                created_at,
            }),
    {
        Request {
            id,
            kind: RequestType::from_index(kind_index),
            size: RequestSize::from_index(size_index),
            created_at,
        }
    }

    /// Makes a request with a random kind and size and a random identifier
    /// that is none of those in `issued`, stamped with the time `now`. The
    /// identifier is the drawn one, or the next free one after it. No
    /// request can be made only when every identifier has been given out.
    pub fn create_random(rng: &mut StdRng, now: u64, issued: &Vec<usize>) -> (created: Option<
        Request,
    >)
        ensures
            match created {
                Some(request) => {
                    &&& is_request_id(request.id)
                    &&& !issued@.contains(request.id)
                    &&& request.created_at == now
                },
                None => ids_exhausted(issued@),
            },
    {
        let drawn = random_in_range(rng, REQUEST_ID_MIN, REQUEST_ID_END);
        let kind_index = random_in_range(rng, 0, 3);
        let size_index = random_in_range(rng, 0, 3);
        match fresh_id(drawn, issued) {
            Some(id) => Some(Request::from_draws(id, kind_index, size_index, now)),
            None => None,
        }
    }
}

/// A request's service time depends on nothing but its kind and size.
pub proof fn lemma_service_time_by_kind_and_size(a: Request, b: Request)
    requires
        a.kind == b.kind,
        a.size == b.size,
    ensures
        a.spec_get_time() == b.spec_get_time(),
{
}

/// Every service time lies between that of a small and that of a large
/// CPU-bound request: 500 ms and 5000 ms.
pub proof fn lemma_service_time_bounds(kind: RequestType, size: RequestSize)
    ensures
        MIN_SERVICE_TIME <= service_time(kind, size) <= MAX_SERVICE_TIME,
        service_time(RequestType::CPUsBound, RequestSize::Small) == MIN_SERVICE_TIME,
        service_time(RequestType::CPUsBound, RequestSize::Large) == MAX_SERVICE_TIME,
{
    assert(kind.spec_cpu_time() + kind.spec_io_time() == 100);
    assert(RequestType::CPUsBound.spec_cpu_time() + RequestType::CPUsBound.spec_io_time() == 100);
    assert(RequestSize::Small.spec_mult_factor() == 5);
    assert(RequestSize::Large.spec_mult_factor() == 50);
}

} // verus!
