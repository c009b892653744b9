use sim_navigation::dna::Dna;
use sim_navigation::find::FoundPath;
use sim_navigation::grid::GridPos;
use sim_navigation::state::handle_completed_path;
use sim_navigation::state::random_destination;
use sim_navigation::state::Destination;
use sim_navigation::state::NavigationState;

fn pos(x: u32, y: u32) -> GridPos {
    GridPos { x, y }
}

fn some_path() -> FoundPath {
    FoundPath(vec![pos(0, 0), pos(1, 1)])
}

#[test]
fn request_search_path_and_back_to_idle() {
    let state = NavigationState::Idle.assign(Destination(pos(1, 1)));
    assert!(matches!(state, NavigationState::Requested { to } if to == pos(1, 1)));
    let state = state.launch();
    assert!(matches!(
        state,
        NavigationState::Searching { to, superseded_by: None } if to == pos(1, 1)
    ));
    let state = handle_completed_path(state, None);
    assert!(matches!(state, NavigationState::Searching { .. }));
    let state = handle_completed_path(state, Some(Some(some_path())));
    assert!(matches!(&state, NavigationState::HasPath { path } if path.0 == some_path().0));
    let (state, path) = state.take_path();
    assert!(matches!(state, NavigationState::Idle));
    assert_eq!(path.unwrap().0, some_path().0);
}

#[test]
fn search_without_a_path_ends_unreachable() {
    let state = NavigationState::Requested { to: pos(4, 4) }.launch();
    let state = handle_completed_path(state, Some(None));
    assert!(matches!(state, NavigationState::Unreachable { to } if to == pos(4, 4)));
    // and stays so until a new destination comes
    let state = handle_completed_path(state, Some(Some(some_path())));
    assert!(matches!(state, NavigationState::Unreachable { .. }));
    let state = state.launch();
    assert!(matches!(state, NavigationState::Unreachable { .. }));
    let state = state.assign(Destination(pos(2, 2)));
    assert!(matches!(state, NavigationState::Requested { to } if to == pos(2, 2)));
}

#[test]
fn stale_path_is_dropped() {
    let state = NavigationState::Requested { to: pos(1, 1) }.launch();
    let state = state.assign(Destination(pos(6, 6)));
    assert!(matches!(
        state,
        NavigationState::Searching { to, superseded_by: Some(next) }
            if to == pos(1, 1) && next == pos(6, 6)
    ));
    let state = handle_completed_path(state, Some(Some(some_path())));
    assert!(matches!(state, NavigationState::Requested { to } if to == pos(6, 6)));
}

#[test]
fn newer_search_replaces_the_one_in_flight() {
    let state = NavigationState::Searching { to: pos(1, 1), superseded_by: Some(pos(6, 6)) };
    let state = state.launch();
    assert!(matches!(
        state,
        NavigationState::Searching { to, superseded_by: None } if to == pos(6, 6)
    ));
}

#[test]
fn take_path_leaves_other_states_alone() {
    let (state, path) = NavigationState::Requested { to: pos(3, 3) }.take_path();
    assert!(path.is_none());
    assert!(matches!(state, NavigationState::Requested { to } if to == pos(3, 3)));
}

#[test]
fn completion_without_a_search_changes_nothing() {
    let state = handle_completed_path(NavigationState::Idle, Some(Some(some_path())));
    assert!(matches!(state, NavigationState::Idle));
}

#[test]
fn random_destination_lies_on_the_map() {
    for _ in 0..200 {
        let Destination(tile) = random_destination();
        assert!(tile.x < 255 && tile.y < 255);
    }
}

#[test]
fn dna_keeps_its_number() {
    assert_eq!(Dna::new(12345).seed(), 12345);
    let born = Dna::random();
    assert_eq!(born.seed(), born.seed());
}
