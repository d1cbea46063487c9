use cluster_sim::allocator::{Allocator, AllocatorAction};
use cluster_sim::event::SystemEvent;
use cluster_sim::policy::ServerChoiceMode;
use cluster_sim::request::{Request, RequestSize, RequestType};
use cluster_sim::server::SERVER_CAPACITY;
use rand::rngs::StdRng;
use rand::SeedableRng;

fn waiting(id: usize) -> Request {
    Request { id, kind: RequestType::Mixed, size: RequestSize::Small, created_at: 0 }
}

fn with_policy(mode: ServerChoiceMode) -> Allocator {
    let mut allocator = Allocator::new();
    allocator.handle_event(&SystemEvent::ConfigChanged {
        arrival_rate: None,
        choice_mode: Some(mode),
    });
    allocator
}

fn saturated() -> Allocator {
    let mut allocator = with_policy(ServerChoiceMode::RoundRobin { server_num: 0 });
    let mut rng = StdRng::seed_from_u64(0);
    for id in 0..30 {
        allocator.handle_event(&SystemEvent::RequestCreated(waiting(id)));
        let action = allocator.tick(&mut rng);
        assert!(matches!(action.event, Some(SystemEvent::RequestAssigned { .. })));
    }
    for server in &allocator.server_states {
        assert_eq!(server.queue.len(), SERVER_CAPACITY);
    }
    allocator
}

fn idle_action() -> AllocatorAction {
    AllocatorAction { event: None, backoff_ms: 0 }
}

#[test]
fn new_allocator_is_empty_and_random() {
    let allocator = Allocator::new();
    assert!(allocator.requests.is_empty());
    assert_eq!(allocator.choice_mode, ServerChoiceMode::Random);
    assert_eq!(allocator.consecutive_full_errors, 0);
    for (index, server) in allocator.server_states.iter().enumerate() {
        assert_eq!(server.id, index as u64 + 1);
        assert!(server.queue.is_empty());
        assert_eq!(server.total_workload, 0);
        assert!(!server.is_processing);
    }
}

#[test]
fn tick_with_nothing_pending_does_nothing() {
    let mut allocator = with_policy(ServerChoiceMode::RoundRobin { server_num: 0 });
    let mut rng = StdRng::seed_from_u64(0);
    assert_eq!(allocator.tick(&mut rng), idle_action());
    assert_eq!(allocator.choice_mode, ServerChoiceMode::RoundRobin { server_num: 0 });
    assert_eq!(allocator.consecutive_full_errors, 0);
}

#[test]
fn created_requests_queue_in_arrival_order() {
    let mut allocator = Allocator::new();
    for id in 0..4 {
        allocator.handle_event(&SystemEvent::RequestCreated(waiting(id)));
    }
    let ids: Vec<usize> = allocator.requests.iter().map(|request| request.id).collect();
    assert_eq!(ids, vec![0, 1, 2, 3]);
}

#[test]
fn round_robin_visits_every_server_once_per_cycle() {
    let mut allocator = with_policy(ServerChoiceMode::RoundRobin { server_num: 0 });
    let mut rng = StdRng::seed_from_u64(0);
    let mut visited = Vec::new();
    for id in 0..6 {
        allocator.handle_event(&SystemEvent::RequestCreated(waiting(id)));
        let action = allocator.tick(&mut rng);
        assert_eq!(action.backoff_ms, 0);
        match action.event {
            Some(SystemEvent::RequestAssigned { server_id, request }) => {
                assert_eq!(request, waiting(id));
                visited.push(server_id);
            }
            other => panic!("expected an assignment, got {:?}", other),
        }
    }
    assert_eq!(visited, vec![1, 2, 3, 1, 2, 3]);
    for server in &allocator.server_states {
        assert_eq!(server.queue.len(), 2);
        assert_eq!(server.total_workload, 1000);
    }
    assert!(allocator.requests.is_empty());
}

#[test]
fn assignment_takes_the_head_of_the_pending_queue() {
    let mut allocator = with_policy(ServerChoiceMode::SmallerQueue);
    let mut rng = StdRng::seed_from_u64(0);
    for id in 0..3 {
        allocator.handle_event(&SystemEvent::RequestCreated(waiting(id)));
    }
    let action = allocator.tick(&mut rng);
    assert_eq!(
        action,
        AllocatorAction {
            event: Some(SystemEvent::RequestAssigned { server_id: 1, request: waiting(0) }),
            backoff_ms: 0,
        }
    );
    let ids: Vec<usize> = allocator.requests.iter().map(|request| request.id).collect();
    assert_eq!(ids, vec![1, 2]);
    assert_eq!(allocator.server_states[0].queue.len(), 1);
    assert_eq!(allocator.server_states[0].total_workload, 500);
}

#[test]
fn smaller_queue_fills_the_least_loaded_server() {
    let mut allocator = with_policy(ServerChoiceMode::SmallerQueue);
    let mut rng = StdRng::seed_from_u64(0);
    let mut visited = Vec::new();
    for id in 0..4 {
        allocator.handle_event(&SystemEvent::RequestCreated(waiting(id)));
        if let Some(SystemEvent::RequestAssigned { server_id, .. }) = allocator.tick(&mut rng).event {
            visited.push(server_id);
        }
    }
    assert_eq!(visited, vec![1, 2, 3, 1]);
}

#[test]
fn place_skips_full_servers() {
    let mut allocator = saturated();
    allocator.handle_event(&SystemEvent::RequestProcessed {
        request_id: 2,
        server_id: 3,
        created_at: 0,
    });
    allocator.handle_event(&SystemEvent::RequestCreated(waiting(100)));
    let action = allocator.place(&vec![0, 1, 2]);
    assert_eq!(
        action,
        AllocatorAction {
            event: Some(SystemEvent::RequestAssigned { server_id: 3, request: waiting(100) }),
            backoff_ms: 0,
        }
    );
    assert_eq!(allocator.server_states[2].queue.len(), SERVER_CAPACITY);
    assert_eq!(allocator.server_states[2].queue.back(), Some(&waiting(100)));
}

#[test]
fn saturated_cluster_reports_once_per_ten_failures() {
    let mut allocator = saturated();
    allocator.handle_event(&SystemEvent::RequestCreated(waiting(100)));
    let mut rng = StdRng::seed_from_u64(0);
    let mut reported_at = Vec::new();
    for attempt in 1..=30u64 {
        let action = allocator.tick(&mut rng);
        match action.event {
            Some(SystemEvent::ErrorEncountered(message)) => {
                assert_eq!(message, "All servers are full");
                reported_at.push(attempt);
            }
            None => {}
            other => panic!("unexpected event {:?}", other),
        }
        assert_eq!(allocator.consecutive_full_errors, attempt);
        assert_eq!(allocator.requests.front(), Some(&waiting(100)));
        for server in &allocator.server_states {
            assert_eq!(server.queue.len(), SERVER_CAPACITY);
        }
    }
    assert_eq!(reported_at, vec![1, 11, 21]);
}

#[test]
fn ten_failed_attempts_give_exactly_one_error() {
    for mode in [
        ServerChoiceMode::Random,
        ServerChoiceMode::RoundRobin { server_num: 0 },
        ServerChoiceMode::SmallerQueue,
    ] {
        let mut allocator = saturated();
        allocator.handle_event(&SystemEvent::ConfigChanged {
            arrival_rate: None,
            choice_mode: Some(mode),
        });
        allocator.handle_event(&SystemEvent::RequestCreated(waiting(100)));
        let mut rng = StdRng::seed_from_u64(5);
        let mut errors = 0;
        for _ in 0..10 {
            if let Some(SystemEvent::ErrorEncountered(_)) = allocator.tick(&mut rng).event {
                errors += 1;
            }
        }
        assert_eq!(errors, 1);
    }
}

#[test]
fn backoff_grows_with_the_failure_count_up_to_a_second() {
    let mut allocator = saturated();
    allocator.handle_event(&SystemEvent::RequestCreated(waiting(100)));
    let mut rng = StdRng::seed_from_u64(0);
    let mut waits = Vec::new();
    for _ in 0..25 {
        waits.push(allocator.tick(&mut rng).backoff_ms);
    }
    let expected: Vec<u64> = vec![
        0, 0, 0, 0, 0, 300, 350, 400, 450, 500, 550, 600, 650, 700, 750, 800, 850, 900, 950, 1000,
        1000, 1000, 1000, 1000, 1000,
    ];
    assert_eq!(waits, expected);
}

#[test]
fn a_success_ends_the_run_of_failures() {
    let mut allocator = saturated();
    allocator.handle_event(&SystemEvent::RequestCreated(waiting(100)));
    allocator.handle_event(&SystemEvent::RequestCreated(waiting(101)));
    let mut rng = StdRng::seed_from_u64(0);
    for _ in 0..7 {
        allocator.tick(&mut rng);
    }
    assert_eq!(allocator.consecutive_full_errors, 7);
    allocator.handle_event(&SystemEvent::RequestProcessed {
        request_id: 1,
        server_id: 2,
        created_at: 0,
    });
    let action = allocator.tick(&mut rng);
    assert_eq!(
        action,
        AllocatorAction {
            event: Some(SystemEvent::RequestAssigned { server_id: 2, request: waiting(100) }),
            backoff_ms: 0,
        }
    );
    assert_eq!(allocator.consecutive_full_errors, 0);
    let action = allocator.tick(&mut rng);
    assert_eq!(
        action,
        AllocatorAction {
            event: Some(SystemEvent::ErrorEncountered(String::from("All servers are full"))),
            backoff_ms: 0,
        }
    );
    assert_eq!(allocator.consecutive_full_errors, 1);
}

#[test]
fn processed_event_frees_the_mirrored_slot() {
    let mut allocator = with_policy(ServerChoiceMode::RoundRobin { server_num: 0 });
    let mut rng = StdRng::seed_from_u64(0);
    allocator.handle_event(&SystemEvent::RequestCreated(waiting(1)));
    allocator.tick(&mut rng);
    allocator.server_states[0].is_processing = true;
    assert_eq!(allocator.server_states[0].queue.len(), 1);
    allocator.handle_event(&SystemEvent::RequestProcessed {
        request_id: 1,
        server_id: 1,
        created_at: 0,
    });
    assert!(allocator.server_states[0].queue.is_empty());
    assert_eq!(allocator.server_states[0].total_workload, 0);
    assert!(!allocator.server_states[0].is_processing);
}

#[test]
fn processed_event_for_an_unknown_server_is_ignored() {
    let mut allocator = saturated();
    for server_id in [0u64, 4, 17, u64::MAX] {
        allocator.handle_event(&SystemEvent::RequestProcessed {
            request_id: 1,
            server_id,
            created_at: 0,
        });
    }
    for server in &allocator.server_states {
        assert_eq!(server.queue.len(), SERVER_CAPACITY);
        assert_eq!(server.total_workload, 5000);
    }
}

#[test]
fn a_new_policy_starts_afresh() {
    let mut allocator = Allocator::new();
    allocator.handle_event(&SystemEvent::ConfigChanged {
        arrival_rate: Some(5000),
        choice_mode: Some(ServerChoiceMode::RoundRobin { server_num: 2 }),
    });
    assert_eq!(allocator.choice_mode, ServerChoiceMode::RoundRobin { server_num: 0 });
    allocator.handle_event(&SystemEvent::ConfigChanged { arrival_rate: Some(1), choice_mode: None });
    assert_eq!(allocator.choice_mode, ServerChoiceMode::RoundRobin { server_num: 0 });
    allocator.handle_event(&SystemEvent::ConfigChanged {
        arrival_rate: None,
        choice_mode: Some(ServerChoiceMode::SmallerQueue),
    });
    assert_eq!(allocator.choice_mode, ServerChoiceMode::SmallerQueue);
}

#[test]
fn other_events_leave_the_allocator_alone() {
    let mut allocator = saturated();
    allocator.handle_event(&SystemEvent::RequestAssigned { server_id: 1, request: waiting(7) });
    allocator.handle_event(&SystemEvent::RequestProcessStarted { request_id: 7, server_id: 1 });
    allocator.handle_event(&SystemEvent::ErrorEncountered(String::from("x")));
    assert!(allocator.requests.is_empty());
    assert_eq!(allocator.choice_mode, ServerChoiceMode::RoundRobin { server_num: 0 });
    for server in &allocator.server_states {
        assert_eq!(server.queue.len(), SERVER_CAPACITY);
    }
}

#[test]
fn queues_never_exceed_capacity_under_random_placement() {
    let mut allocator = Allocator::new();
    let mut rng = StdRng::seed_from_u64(99);
    let mut assigned = 0;
    for id in 0..200 {
        allocator.handle_event(&SystemEvent::RequestCreated(waiting(id)));
        if id % 5 == 4 {
            allocator.handle_event(&SystemEvent::RequestProcessed {
                request_id: 0,
                server_id: (id % 3) as u64 + 1,
                created_at: 0,
            });
        }
        if let Some(SystemEvent::RequestAssigned { .. }) = allocator.tick(&mut rng).event {
            assigned += 1;
        }
        for server in &allocator.server_states {
            assert!(server.queue.len() <= SERVER_CAPACITY);
            let sum: u64 = server.queue.iter().map(|request| request.get_time()).sum();
            assert_eq!(server.total_workload, sum);
        }
    }
    assert!(assigned >= 30);
    assert_eq!(assigned + allocator.requests.len(), 200);
}

#[test]
fn the_failure_count_outlives_its_counter() {
    let mut allocator = saturated();
    allocator.handle_event(&SystemEvent::RequestCreated(waiting(100)));
    allocator.consecutive_full_errors = u64::MAX - 5;
    let mut rng = StdRng::seed_from_u64(0);
    let mut counts = Vec::new();
    let mut reported = Vec::new();
    for _ in 0..12 {
        let action = allocator.tick(&mut rng);
        assert_eq!(action.backoff_ms, 1000);
        counts.push(allocator.consecutive_full_errors);
        reported.push(action.event.is_some());
    }
    assert_eq!(
        counts,
        vec![
            u64::MAX - 4,
            u64::MAX - 3,
            u64::MAX - 2,
            u64::MAX - 1,
            u64::MAX,
            26,
            27,
            28,
            29,
            30,
            31,
            32,
        ]
    );
    assert_eq!(
        reported,
        vec![true, false, false, false, false, false, false, false, false, false, true, false]
    );
}

#[test]
fn no_assignment_names_a_full_server() {
    let mut allocator = Allocator::new();
    let mut rng = StdRng::seed_from_u64(21);
    for id in 0..300 {
        allocator.handle_event(&SystemEvent::RequestCreated(waiting(id)));
        if id % 4 == 3 {
            allocator.handle_event(&SystemEvent::RequestProcessed {
                request_id: 0,
                server_id: (id % 3) as u64 + 1,
                created_at: 0,
            });
        }
        let before: Vec<usize> =
            allocator.server_states.iter().map(|server| server.queue.len()).collect();
        if let Some(SystemEvent::RequestAssigned { server_id, .. }) = allocator.tick(&mut rng).event {
            assert!(1 <= server_id && server_id <= 3);
            assert!(before[server_id as usize - 1] < SERVER_CAPACITY);
        } else {
            assert_eq!(before, vec![SERVER_CAPACITY; 3]);
        }
        for server in &allocator.server_states {
            assert!(server.queue.len() <= SERVER_CAPACITY);
        }
    }
}
