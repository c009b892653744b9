use sim_navigation::find::FoundPath;
use sim_navigation::grid::GridPos;
use sim_navigation::steering::follow_path;
use sim_navigation::steering::grid_to_world2d;
use sim_navigation::steering::on_path;
use sim_navigation::steering::transform_path;
use sim_navigation::steering::world2d_to_grid;
use sim_navigation::steering::ClosestPoint;
use sim_navigation::steering::FollowPath;
use sim_navigation::steering::Seek;
use sim_navigation::steering::WorldPoint;
use sim_navigation::steering::FARTHEST;

#[test]
fn tile_centre_is_half_a_tile_in() {
    assert_eq!(grid_to_world2d(&GridPos { x: 0, y: 0 }), WorldPoint { x: 8, y: 8 });
    assert_eq!(grid_to_world2d(&GridPos { x: 3, y: 10 }), WorldPoint { x: 56, y: 168 });
    assert_eq!(
        grid_to_world2d(&GridPos { x: u32::MAX, y: 1 }),
        WorldPoint { x: 16 * (u32::MAX as i64) + 8, y: 24 }
    );
}

#[test]
fn world_point_falls_into_its_tile() {
    assert_eq!(world2d_to_grid(&WorldPoint { x: 0, y: 15 }), GridPos { x: 0, y: 0 });
    assert_eq!(world2d_to_grid(&WorldPoint { x: 16, y: 31 }), GridPos { x: 1, y: 1 });
    assert_eq!(world2d_to_grid(&WorldPoint { x: 4072, y: 4079 }), GridPos { x: 254, y: 254 });
}

#[test]
fn world_point_off_the_grid_is_clamped() {
    assert_eq!(world2d_to_grid(&WorldPoint { x: -1, y: -1000 }), GridPos { x: 0, y: 0 });
    assert_eq!(
        world2d_to_grid(&WorldPoint { x: i64::MAX, y: 16 * (u32::MAX as i64) }),
        GridPos { x: u32::MAX, y: u32::MAX }
    );
    assert_eq!(
        world2d_to_grid(&WorldPoint { x: 16 * (u32::MAX as i64) - 1, y: i64::MIN }),
        GridPos { x: u32::MAX - 1, y: 0 }
    );
}

#[test]
fn centre_of_a_tile_lies_in_that_tile() {
    for x in [0u32, 1, 17, 254, 70_000, u32::MAX] {
        let tile = GridPos { x, y: x / 2 };
        assert_eq!(world2d_to_grid(&grid_to_world2d(&tile)), tile);
    }
}

#[test]
fn found_path_becomes_a_polyline_through_tile_centres() {
    let found = FoundPath(vec![
        GridPos { x: 0, y: 0 },
        GridPos { x: 1, y: 1 },
        GridPos { x: 2, y: 1 },
    ]);
    let follow = transform_path(&found);
    assert_eq!(
        follow.path(),
        &vec![
            WorldPoint { x: 8, y: 8 },
            WorldPoint { x: 24, y: 24 },
            WorldPoint { x: 40, y: 24 },
        ]
    );
    assert_eq!(follow.path_width(), 0);
    assert_eq!(follow.lookahead(), 10);
    assert_eq!(follow.segments(), 2);
}

#[test]
fn follow_path_keeps_what_it_was_built_from() {
    let points = vec![
        WorldPoint { x: 0, y: 0 },
        WorldPoint { x: 10, y: 0 },
        WorldPoint { x: 10, y: 10 },
    ];
    let follow = FollowPath::new(points.clone(), 2, 5);
    assert_eq!(follow.path(), &points);
    assert_eq!(follow.path_width(), 2);
    assert_eq!(follow.lookahead(), 5);
    assert_eq!(follow.segments(), 2);
}


/// The closest point to `from` on the line through `a` and `b`, moved to
/// `b` where it falls beyond that end, with its distance from `from`.
fn closest_on_segment(a: (f32, f32), b: (f32, f32), from: (f32, f32)) -> ((f32, f32), f32) {
    let ap = (from.0 - a.0, from.1 - a.1);
    let ab = (b.0 - a.0, b.1 - a.1);
    let length = (ab.0 * ab.0 + ab.1 * ab.1).sqrt();
    let unit = (ab.0 / length, ab.1 / length);
    let along = ap.0 * unit.0 + ap.1 * unit.1;
    let mut closest = (a.0 + unit.0 * along, a.1 + unit.1 * along);
    let reach = ((closest.0 - a.0).powi(2) + (closest.1 - a.1).powi(2)).sqrt();
    if length < reach {
        closest = b;
    }
    let distance = ((closest.0 - from.0).powi(2) + (closest.1 - from.1).powi(2)).sqrt();
    (closest, distance)
}

fn walk_along(path: &[(f32, f32)], from: (f32, f32)) -> ClosestPoint<(f32, f32)> {
    let mut walk = ClosestPoint::new();
    for pair in path.windows(2) {
        let (closest, distance) = closest_on_segment(pair[0], pair[1], from);
        if !walk.consider(closest, distance.to_bits()) {
            break;
        }
    }
    walk
}

#[test]
fn agent_beside_the_second_segment_is_on_the_path() {
    let path = [(0.0f32, 0.0f32), (10.0, 0.0), (10.0, 10.0)];
    let from = (10.0f32, 1.0f32);
    let closest = walk_along(&path, from).into_point().unwrap();
    assert_eq!(closest, (10.0, 1.0));
    let distance = ((closest.0 - from.0).powi(2) + (closest.1 - from.1).powi(2)).sqrt();
    assert_eq!(distance, 0.0);
    assert!(on_path(2.0f32.to_bits(), distance.to_bits()));
    assert_eq!(follow_path(2.0f32.to_bits(), closest, distance.to_bits()), None);
}

#[test]
fn agent_off_the_path_seeks_the_closest_point() {
    let path = [(0.0f32, 0.0f32), (10.0, 0.0), (10.0, 10.0)];
    let from = (4.0f32, 5.0f32);
    let closest = walk_along(&path, from).into_point().unwrap();
    assert_eq!(closest, (4.0, 0.0));
    assert!(!on_path(2.0f32.to_bits(), 5.0f32.to_bits()));
    assert_eq!(
        follow_path(2.0f32.to_bits(), closest, 5.0f32.to_bits()),
        Some(Seek { target: (4.0, 0.0) })
    );
}

#[test]
fn walk_ends_where_the_distance_grows() {
    let mut walk: ClosestPoint<u8> = ClosestPoint::new();
    assert!(walk.consider(b'a', 9));
    assert!(walk.consider(b'b', 4));
    assert!(walk.consider(b'c', 4));
    assert!(!walk.consider(b'd', 6));
    assert_eq!(walk.into_point(), Some(b'b'));
}

#[test]
fn walk_keeps_the_closest_point_past_a_detour() {
    // the walk is given on after the distance grew: the nearer point wins
    let mut walk: ClosestPoint<u8> = ClosestPoint::new();
    assert!(walk.consider(b'a', 5));
    assert!(!walk.consider(b'b', 7));
    assert!(walk.consider(b'c', 2));
    assert_eq!(walk.into_point(), Some(b'c'));
}

#[test]
fn walk_without_a_near_segment_finds_nothing() {
    let mut walk: ClosestPoint<u8> = ClosestPoint::new();
    assert_eq!(ClosestPoint::<u8>::new().into_point(), None);
    assert!(walk.consider(b'a', FARTHEST));
    assert!(!walk.consider(b'b', f32::INFINITY.to_bits()));
    assert_eq!(walk.into_point(), None);
}

#[test]
fn corridor_edge_counts_as_on_the_path() {
    assert!(on_path(2.0f32.to_bits(), 2.0f32.to_bits()));
    assert!(!on_path(0.0f32.to_bits(), f32::MIN_POSITIVE.to_bits()));
    assert!(on_path(0, 0));
}
