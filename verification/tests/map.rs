use sim_navigation::grid::GridPos;
use sim_navigation::grid::WalkGrid;
use sim_navigation::map::char_to_texture_index;
use sim_navigation::map::create_map;
use sim_navigation::map::create_tile_entities;
use sim_navigation::map::Tile;
use sim_navigation::map::drawing;
use sim_navigation::nav_mesh::calculate_new_nav_mesh;
use sim_navigation::nav_mesh::Move;
use sim_navigation::nav_mesh::NavMesh;
use sim_navigation::nav_mesh::NavMeshCalculationQueue;
use sim_navigation::navigation::handle_new_nav_mesh;
use sim_navigation::navigation::Navigation;

fn pos(x: u32, y: u32) -> GridPos {
    GridPos { x, y }
}

#[test]
fn textures_of_the_known_characters() {
    assert_eq!(char_to_texture_index('W'), 4);
    assert_eq!(char_to_texture_index('.'), 5);
    assert_eq!(char_to_texture_index('U'), 2);
    assert_eq!(char_to_texture_index('D'), 3);
    assert_eq!(char_to_texture_index('x'), 0);
    assert_eq!(char_to_texture_index(' '), 0);
}

#[test]
fn map_text_marks_the_dots_walkable() {
    let grid = create_map(b"W.W\n..U\r\n\nD.").unwrap();
    assert_eq!(grid.width(), 255);
    assert_eq!(grid.height(), 255);
    let walkable = [pos(1, 0), pos(0, 1), pos(1, 1), pos(1, 3)];
    for x in 0..5 {
        for y in 0..5 {
            assert_eq!(grid.is_walkable(pos(x, y)), walkable.contains(&pos(x, y)));
        }
    }
}

#[test]
fn map_text_gives_a_tile_for_each_character() {
    let tiles = create_tile_entities(b"W.\r\nUD\n\nx").unwrap();
    assert_eq!(
        tiles,
        vec![
            Tile { position: pos(0, 0), texture: 4, walkable: false },
            Tile { position: pos(1, 0), texture: 5, walkable: true },
            Tile { position: pos(0, 1), texture: 2, walkable: false },
            Tile { position: pos(1, 1), texture: 3, walkable: false },
            Tile { position: pos(0, 3), texture: 0, walkable: false },
        ]
    );
    assert_eq!(create_tile_entities(b"").unwrap(), vec![]);
}

#[test]
fn character_of_several_bytes_is_one_tile() {
    let text = "\u{e9}.\n\u{4e16}\u{1f600}.".as_bytes();
    let tiles = create_tile_entities(text).unwrap();
    assert_eq!(
        tiles,
        vec![
            Tile { position: pos(0, 0), texture: 0, walkable: false },
            Tile { position: pos(1, 0), texture: 5, walkable: true },
            Tile { position: pos(0, 1), texture: 0, walkable: false },
            Tile { position: pos(1, 1), texture: 0, walkable: false },
            Tile { position: pos(2, 1), texture: 5, walkable: true },
        ]
    );
    let grid = create_map(text).unwrap();
    assert!(grid.is_walkable(pos(1, 0)));
    assert!(grid.is_walkable(pos(2, 1)));
    assert!(!grid.is_walkable(pos(3, 1)));
}

#[test]
fn tiles_beyond_the_map_are_refused() {
    assert!(create_tile_entities(&vec![b'W'; 255]).is_some());
    assert!(create_tile_entities(&vec![b'W'; 256]).is_none());
}

#[test]
fn walkable_tiles_are_the_walkable_cells() {
    let text = b"..W.\n\nW...\r\n.";
    let grid = create_map(text).unwrap();
    let tiles = create_tile_entities(text).unwrap();
    for x in 0..6 {
        for y in 0..6 {
            let listed = tiles.iter().any(|tile| tile.position == pos(x, y) && tile.walkable);
            assert_eq!(grid.is_walkable(pos(x, y)), listed);
        }
    }
}

#[test]
fn lone_carriage_return_is_a_tile() {
    let grid = create_map(b"\r.\n.\r").unwrap();
    assert!(!grid.is_walkable(pos(0, 0)));
    assert!(grid.is_walkable(pos(1, 0)));
    assert!(grid.is_walkable(pos(0, 1)));
}

#[test]
fn map_text_beyond_the_map_is_refused() {
    let wide = vec![b'.'; 256];
    assert!(create_map(&wide).is_none());
    let fits = vec![b'.'; 255];
    let grid = create_map(&fits).unwrap();
    assert!(grid.is_walkable(pos(254, 0)));
    let mut tall = Vec::new();
    for _ in 0..255 {
        tall.extend_from_slice(b"W\n");
    }
    assert!(create_map(&tall).is_some());
    tall.push(b'W');
    assert!(create_map(&tall).is_none());
    // empty lines beyond the map hold no tile
    let blank = vec![b'\n'; 1000];
    assert!(create_map(&blank).is_some());
}

#[test]
fn empty_text_is_a_map_without_walkable_tiles() {
    let grid = create_map(b"").unwrap();
    assert!(!grid.is_walkable(pos(0, 0)));
}

#[test]
fn drawing_flips_a_tile() {
    let mut grid = create_map(b"..\n..").unwrap();
    assert_eq!(drawing(&mut grid, pos(1, 1)), Some(5));
    assert!(!grid.is_walkable(pos(1, 1)));
    assert!(grid.is_walkable(pos(0, 1)));
    assert_eq!(drawing(&mut grid, pos(1, 1)), Some(4));
    assert!(grid.is_walkable(pos(1, 1)));
    assert_eq!(drawing(&mut grid, pos(7, 7)), Some(4));
    assert!(grid.is_walkable(pos(7, 7)));
    assert_eq!(drawing(&mut grid, pos(255, 0)), None);
}

#[test]
fn grid_refuses_sides_beyond_the_map() {
    assert!(WalkGrid::new(255, 255).is_some());
    assert!(WalkGrid::new(256, 1).is_none());
    assert!(WalkGrid::new(1, 256).is_none());
    let mut grid = WalkGrid::new(2, 3).unwrap();
    assert!(grid.contains(pos(1, 2)));
    assert!(!grid.contains(pos(2, 0)));
    assert!(!grid.set_walkable(pos(2, 0), true));
    assert!(!grid.is_walkable(pos(2, 0)));
}

#[test]
fn neighbor_positions_end_at_the_edges() {
    let grid = WalkGrid::new(3, 3).unwrap();
    assert_eq!(
        grid.neighbor_positions(pos(1, 1)),
        [
            Some(pos(1, 2)),
            Some(pos(1, 0)),
            Some(pos(0, 1)),
            Some(pos(2, 1)),
            Some(pos(0, 2)),
            Some(pos(2, 2)),
            Some(pos(0, 0)),
            Some(pos(2, 0)),
        ]
    );
    assert_eq!(
        grid.neighbor_positions(pos(0, 2)),
        [None, Some(pos(0, 1)), None, Some(pos(1, 2)), None, None, None, Some(pos(1, 1))]
    );
}

#[test]
fn whole_mesh_agrees_with_the_lazy_one() {
    let grid = create_map(b"..W\n.W.\n...").unwrap();
    let whole = calculate_new_nav_mesh(&grid);
    let mut lazy = NavMesh::new();
    for x in 0..4 {
        for y in 0..4 {
            let found = lazy.neighbours(&grid, pos(x, y));
            if found.is_empty() {
                assert_eq!(whole.stored(pos(x, y)), None);
            } else {
                assert_eq!(whole.stored(pos(x, y)), Some(found));
            }
        }
    }
    assert_eq!(
        whole.stored(pos(0, 0)),
        Some(vec![
            Move { destination: pos(0, 1), cost: 100 },
            Move { destination: pos(1, 0), cost: 100 },
        ])
    );
}

#[test]
fn blocked_tile_has_no_moves_and_no_entry() {
    let grid = create_map(b".W.").unwrap();
    let mut mesh = NavMesh::new();
    assert!(mesh.neighbours(&grid, pos(1, 0)).is_empty());
    assert_eq!(mesh.stored(pos(1, 0)), None);
    // walkable, but walled in
    assert!(mesh.neighbours(&grid, pos(0, 0)).is_empty());
    assert_eq!(mesh.stored(pos(0, 0)), None);
    assert!(mesh.neighbours(&grid, pos(300, 300)).is_empty());
}

#[test]
fn calculation_queue_keeps_two_at_most() {
    let mut queue: NavMeshCalculationQueue<u32> = NavMeshCalculationQueue::new();
    assert_eq!(*queue.peek(), None);
    queue.add(1);
    assert_eq!(*queue.peek(), Some(1));
    queue.add(2);
    queue.add(3);
    assert_eq!(*queue.peek(), Some(1));
    queue.pop();
    assert_eq!(*queue.peek(), Some(3));
    queue.pop();
    assert_eq!(*queue.peek(), None);
    *queue.peek() = Some(9);
    assert_eq!(*queue.peek(), Some(9));
}

#[test]
fn finished_mesh_replaces_the_cached_one() {
    let grid = create_map(b"...\n...").unwrap();
    let whole = calculate_new_nav_mesh(&grid);
    let expected = whole.stored(pos(1, 1));
    let nav = Navigation::new(grid);
    let mut queue: NavMeshCalculationQueue<u8> = NavMeshCalculationQueue::new();
    queue.add(1);
    queue.add(2);
    handle_new_nav_mesh(&nav, &mut queue, None);
    assert_eq!(*queue.peek(), Some(1));
    assert_eq!(nav.cached(pos(1, 1)), None);
    handle_new_nav_mesh(&nav, &mut queue, Some(whole));
    assert_eq!(*queue.peek(), Some(2));
    assert!(expected.is_some());
    assert_eq!(nav.cached(pos(1, 1)), expected);
}
