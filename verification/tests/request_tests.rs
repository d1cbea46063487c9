use cluster_sim::request::{
    fresh_id, is_issued, Request, RequestSize, RequestType, MAX_SERVICE_TIME, MIN_SERVICE_TIME,
    REQUEST_ID_COUNT, REQUEST_ID_END, REQUEST_ID_MIN,
};
use rand::rngs::StdRng;
use rand::SeedableRng;

const KINDS: [RequestType; 3] = [RequestType::CPUsBound, RequestType::IOBound, RequestType::Mixed];
const SIZES: [RequestSize; 3] = [RequestSize::Small, RequestSize::Mid, RequestSize::Large];

fn request_of(kind: RequestType, size: RequestSize) -> Request {
    Request { id: 1_000_000, kind, size, created_at: 0 }
}

#[test]
fn size_factors_are_5_10_50() {
    assert_eq!(RequestSize::Small.mult_factor(), 5);
    assert_eq!(RequestSize::Mid.mult_factor(), 10);
    assert_eq!(RequestSize::Large.mult_factor(), 50);
}

#[test]
fn base_costs_per_kind() {
    assert_eq!(RequestType::CPUsBound.cpu_time(), 95);
    assert_eq!(RequestType::CPUsBound.io_time(), 5);
    assert_eq!(RequestType::IOBound.cpu_time(), 30);
    assert_eq!(RequestType::IOBound.io_time(), 70);
    assert_eq!(RequestType::Mixed.cpu_time(), 55);
    assert_eq!(RequestType::Mixed.io_time(), 45);
}

#[test]
fn service_time_of_every_kind_and_size() {
    let expected = [500u64, 1000, 5000];
    for kind in KINDS {
        for (size, want) in SIZES.iter().zip(expected) {
            assert_eq!(request_of(kind, *size).get_time(), want);
        }
    }
}

#[test]
fn service_time_is_cost_sum_times_factor() {
    for kind in KINDS {
        for size in SIZES {
            let request = request_of(kind, size);
            assert_eq!(
                request.get_time(),
                (kind.cpu_time() + kind.io_time()) * size.mult_factor()
            );
        }
    }
}

#[test]
fn service_time_stays_within_bounds() {
    assert_eq!(MIN_SERVICE_TIME, 500);
    assert_eq!(MAX_SERVICE_TIME, 5000);
    for kind in KINDS {
        for size in SIZES {
            let millis = request_of(kind, size).get_time();
            assert!(MIN_SERVICE_TIME <= millis && millis <= MAX_SERVICE_TIME);
        }
    }
    assert_eq!(request_of(RequestType::CPUsBound, RequestSize::Small).get_time(), 500);
    assert_eq!(request_of(RequestType::CPUsBound, RequestSize::Large).get_time(), 5000);
}

#[test]
fn service_time_ignores_id_and_arrival() {
    let a = Request { id: 1, kind: RequestType::Mixed, size: RequestSize::Mid, created_at: 0 };
    let b = Request { id: 99, kind: RequestType::Mixed, size: RequestSize::Mid, created_at: 777 };
    assert_eq!(a.get_time(), b.get_time());
    assert_eq!(a.get_time(), a.get_time());
}

#[test]
fn names_join_size_and_kind() {
    assert_eq!(
        request_of(RequestType::CPUsBound, RequestSize::Small).get_name(),
        "Small CPUsBound"
    );
    assert_eq!(request_of(RequestType::IOBound, RequestSize::Mid).get_name(), "Mid IOBound");
    assert_eq!(request_of(RequestType::Mixed, RequestSize::Large).get_name(), "Large Mixed");
}

#[test]
fn names_of_sizes_and_kinds() {
    assert_eq!(RequestSize::Small.name(), "Small");
    assert_eq!(RequestSize::Mid.name(), "Mid");
    assert_eq!(RequestSize::Large.name(), "Large");
    assert_eq!(RequestType::CPUsBound.name(), "CPUsBound");
    assert_eq!(RequestType::IOBound.name(), "IOBound");
    assert_eq!(RequestType::Mixed.name(), "Mixed");
}

#[test]
fn kinds_and_sizes_by_index() {
    for index in 0..3 {
        assert_eq!(RequestType::from_index(index), KINDS[index]);
        assert_eq!(RequestSize::from_index(index), SIZES[index]);
    }
}

#[test]
fn from_draws_builds_the_request() {
    let request = Request::from_draws(4_242_424, 1, 2, 17);
    assert_eq!(
        request,
        Request {
            id: 4_242_424,
            kind: RequestType::IOBound,
            size: RequestSize::Large,
            created_at: 17,
        }
    );
}

#[test]
fn random_requests_have_seven_digit_ids_and_the_given_time() {
    let mut rng = StdRng::seed_from_u64(7);
    let issued = Vec::new();
    for now in 0..500u64 {
        let request = Request::create_random(&mut rng, now, &issued).unwrap();
        assert!(REQUEST_ID_MIN <= request.id && request.id < REQUEST_ID_END);
        assert_eq!(request.created_at, now);
    }
}

#[test]
fn random_requests_vary() {
    let mut rng = StdRng::seed_from_u64(11);
    let issued = Vec::new();
    let mut ids = Vec::new();
    let mut kinds = [false; 3];
    let mut sizes = [false; 3];
    for _ in 0..300 {
        let request = Request::create_random(&mut rng, 0, &issued).unwrap();
        ids.push(request.id);
        for index in 0..3 {
            kinds[index] |= request.kind == KINDS[index];
            sizes[index] |= request.size == SIZES[index];
        }
    }
    assert!(ids.iter().any(|id| *id != REQUEST_ID_MIN));
    assert!(ids.iter().any(|id| *id != ids[0]));
    assert_eq!(kinds, [true; 3]);
    assert_eq!(sizes, [true; 3]);
}

#[test]
fn random_requests_never_repeat_an_issued_id() {
    let mut rng = StdRng::seed_from_u64(13);
    let mut issued = Vec::new();
    for now in 0..3000u64 {
        let request = Request::create_random(&mut rng, now, &issued).unwrap();
        assert!(!issued.contains(&request.id));
        assert!(REQUEST_ID_MIN <= request.id && request.id < REQUEST_ID_END);
        issued.push(request.id);
    }
}

#[test]
fn random_request_avoids_a_crowded_range() {
    let issued: Vec<usize> = (REQUEST_ID_MIN..REQUEST_ID_MIN + 4_000).collect();
    let mut rng = StdRng::seed_from_u64(17);
    for _ in 0..2000 {
        let request = Request::create_random(&mut rng, 1, &issued).unwrap();
        assert!(request.id >= REQUEST_ID_MIN + 4_000 && request.id < REQUEST_ID_END);
    }
}

#[test]
fn there_are_nine_million_ids() {
    assert_eq!(REQUEST_ID_MIN, 1_000_000);
    assert_eq!(REQUEST_ID_END, 10_000_000);
    assert_eq!(REQUEST_ID_COUNT, REQUEST_ID_END - REQUEST_ID_MIN);
}

#[test]
fn is_issued_finds_what_is_there() {
    let issued = vec![1_000_005, 2_000_000, 9_999_999];
    assert!(is_issued(&issued, 1_000_005));
    assert!(is_issued(&issued, 9_999_999));
    assert!(!is_issued(&issued, 1_000_006));
    assert!(!is_issued(&Vec::new(), 1_000_005));
}

#[test]
fn fresh_id_is_the_start_or_the_next_free_one() {
    assert_eq!(fresh_id(1_234_567, &Vec::new()), Some(1_234_567));
    let issued = vec![1_000_002, 1_000_000, 1_000_001, 1_000_004];
    assert_eq!(fresh_id(1_000_000, &issued), Some(1_000_003));
    assert_eq!(fresh_id(1_000_003, &issued), Some(1_000_003));
    assert_eq!(fresh_id(1_000_004, &issued), Some(1_000_005));
    assert_eq!(fresh_id(5_000_000, &issued), Some(5_000_000));
}

#[test]
fn fresh_id_goes_round_at_the_end_of_the_range() {
    let issued = vec![9_999_999, 1_000_000, 9_999_998];
    assert_eq!(fresh_id(9_999_998, &issued), Some(1_000_001));
    assert_eq!(fresh_id(9_999_999, &issued), Some(1_000_001));
    assert_eq!(fresh_id(9_999_997, &issued), Some(9_999_997));
}
