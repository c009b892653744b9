use sim_navigation::dna::Dna;
use sim_navigation::grid::GridPos;
use sim_navigation::requests::calculate_paths;
use sim_navigation::requests::in_dispatch_order;
use sim_navigation::requests::schedule_new_path_finding;
use sim_navigation::requests::PathFindingRequest;
use sim_navigation::requests::PathFindingRequests;
use sim_navigation::requests::BATCH_BUDGET_NANOS;
use sim_navigation::state::Destination;
use sim_navigation::steering::WorldPoint;

fn to(x: u32, y: u32) -> PathFindingRequest {
    PathFindingRequest { from: GridPos { x: 0, y: 0 }, to: GridPos { x, y }, seed: Some(1) }
}

#[test]
fn second_drain_is_empty() {
    let mut queue = PathFindingRequests::new();
    queue.request(1, to(3, 3));
    queue.request(2, to(4, 4));
    let first = queue.take();
    assert_eq!(first.len(), 2);
    assert_eq!(queue.len(), 0);
    let second = queue.take();
    assert!(second.is_empty());
    assert_eq!(queue.len(), 0);
}

#[test]
fn latest_request_wins() {
    let mut queue = PathFindingRequests::new();
    queue.request(7, to(1, 1));
    queue.request(7, to(2, 2));
    assert_eq!(queue.len(), 1);
    assert_eq!(queue.pending(7), Some(to(2, 2)));
    let taken = queue.take();
    assert_eq!(taken.len(), 1);
    assert_eq!(taken.get(&7), Some(&to(2, 2)));
}

#[test]
fn requests_of_different_agents_stay_apart() {
    let mut queue = PathFindingRequests::new();
    queue.request(1, to(1, 1));
    queue.request(2, to(2, 2));
    queue.request(1, to(5, 5));
    assert_eq!(queue.len(), 2);
    assert_eq!(queue.pending(1), Some(to(5, 5)));
    assert_eq!(queue.pending(2), Some(to(2, 2)));
    assert_eq!(queue.pending(3), None);
}

#[test]
fn new_destination_is_queued_from_the_tile_under_the_agent() {
    let mut queue = PathFindingRequests::new();
    let position = WorldPoint { x: 40, y: 17 };
    let destination = Destination(GridPos { x: 9, y: 9 });
    schedule_new_path_finding(&mut queue, 11, &position, &destination, &Dna::new(77));
    assert_eq!(
        queue.pending(11),
        Some(PathFindingRequest {
            from: GridPos { x: 2, y: 1 },
            to: GridPos { x: 9, y: 9 },
            seed: Some(77),
        })
    );
}

#[test]
fn dispatch_order_holds_every_request_once() {
    let mut queue = PathFindingRequests::new();
    for entity in 0..20u64 {
        queue.request(entity, to(entity as u32, 1));
    }
    let taken = queue.take();
    let mut waiting = in_dispatch_order(&taken);
    assert_eq!(waiting.len(), 20);
    waiting.sort_by_key(|entry| entry.0);
    for (i, entry) in waiting.iter().enumerate() {
        assert_eq!(entry.0, i as u64);
        assert_eq!(entry.1, to(i as u32, 1));
    }
}

#[test]
fn batch_within_budget_starts_everything() {
    let mut queue = PathFindingRequests::new();
    queue.request(1, to(1, 1));
    queue.request(2, to(2, 2));
    queue.request(3, to(3, 3));
    let mut batch = calculate_paths(&mut queue);
    assert_eq!(queue.len(), 0);
    assert_eq!(batch.remaining(), 3);
    let mut started = Vec::new();
    while let Some((entity, request)) = batch.next_request(BATCH_BUDGET_NANOS) {
        assert_eq!(request, to(entity as u32, entity as u32));
        started.push(entity);
    }
    started.sort();
    assert_eq!(started, vec![1, 2, 3]);
    assert_eq!(batch.remaining(), 0);
    batch.defer_rest(&mut queue);
    assert_eq!(queue.len(), 0);
}

#[test]
fn batch_over_budget_starts_one_and_defers_the_rest() {
    let mut queue = PathFindingRequests::new();
    queue.request(1, to(1, 1));
    queue.request(2, to(2, 2));
    queue.request(3, to(3, 3));
    let mut batch = calculate_paths(&mut queue);
    // the first search starts however late it is
    let (first, _) = batch.next_request(5 * BATCH_BUDGET_NANOS).unwrap();
    assert_eq!(batch.next_request(BATCH_BUDGET_NANOS + 1), None);
    // and once the time was up, nothing more is started in this cycle
    assert_eq!(batch.next_request(0), None);
    assert_eq!(batch.remaining(), 2);
    batch.defer_rest(&mut queue);
    assert_eq!(queue.len(), 2);
    assert_eq!(queue.pending(first), None);
    for entity in 1..=3u64 {
        if entity != first {
            assert_eq!(queue.pending(entity), Some(to(entity as u32, entity as u32)));
        }
    }
}

#[test]
fn deferred_request_yields_to_a_newer_one() {
    let mut queue = PathFindingRequests::new();
    queue.request(1, to(1, 1));
    queue.request(2, to(2, 2));
    let mut batch = calculate_paths(&mut queue);
    let (first, _) = batch.next_request(0).unwrap();
    let other = if first == 1 { 2 } else { 1 };
    assert_eq!(batch.next_request(2 * BATCH_BUDGET_NANOS), None);
    queue.request(other, to(8, 8));
    batch.defer_rest(&mut queue);
    assert_eq!(queue.len(), 1);
    assert_eq!(queue.pending(other), Some(to(8, 8)));
}

#[test]
fn empty_batch_hands_out_nothing() {
    let mut queue = PathFindingRequests::new();
    let mut batch = calculate_paths(&mut queue);
    assert_eq!(batch.next_request(0), None);
    assert_eq!(batch.remaining(), 0);
    batch.defer_rest(&mut queue);
    assert_eq!(queue.len(), 0);
}
