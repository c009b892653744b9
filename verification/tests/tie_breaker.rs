use sim_navigation::grid::GridPos;
use sim_navigation::nav_mesh::Move;
use sim_navigation::tie_breaker::add_entity_tie_breaker;
use sim_navigation::tie_breaker::stable_hash;
use sim_navigation::tie_breaker::tie_breaker;
use sim_navigation::tie_breaker::tie_breaker_from_hash;
use std::collections::hash_map::DefaultHasher;
use std::hash::Hasher;

#[test]
fn remap_covers_zero_to_ten() {
    assert_eq!(tie_breaker_from_hash(0), 0);
    assert_eq!(tie_breaker_from_hash(0xffff_ffff), 10);
    assert_eq!(tie_breaker_from_hash(0xffff_fffe), 9);
    assert_eq!(tie_breaker_from_hash(0x8000_0000), 5);
    assert_eq!(tie_breaker_from_hash(429_496_729), 0);
    assert_eq!(tie_breaker_from_hash(429_496_730), 1);
}

#[test]
fn remap_reads_the_low_half_only() {
    assert_eq!(tie_breaker_from_hash(0xdead_beef_0000_0000), 0);
    assert_eq!(tie_breaker_from_hash(0x1234_5678_ffff_ffff), 10);
    assert_eq!(tie_breaker_from_hash(u64::MAX), 10);
}

#[test]
fn hash_is_that_of_the_default_hasher() {
    let mut hasher = DefaultHasher::new();
    hasher.write_u32(17u32.to_le());
    hasher.write_u32(4u32.to_le());
    hasher.write_u64(99u64.to_le());
    assert_eq!(stable_hash(GridPos { x: 17, y: 4 }, 99), hasher.finish());
}

#[test]
fn tie_breaker_is_stable_and_bounded() {
    for seed in 0..50u64 {
        for x in 0..6u32 {
            let cell = GridPos { x, y: 2 * x + 1 };
            let t = tie_breaker(cell, seed);
            assert!(t <= 10);
            assert_eq!(t, tie_breaker(cell, seed));
            assert_eq!(t, tie_breaker_from_hash(stable_hash(cell, seed)));
        }
    }
}

#[test]
fn tie_breaker_is_added_to_each_cost() {
    let moves = vec![
        Move { destination: GridPos { x: 1, y: 0 }, cost: 100 },
        Move { destination: GridPos { x: 1, y: 1 }, cost: 140 },
    ];
    let weighted = add_entity_tie_breaker(5, moves.clone());
    assert_eq!(weighted.len(), 2);
    for (bare, heavy) in moves.iter().zip(weighted.iter()) {
        assert_eq!(bare.destination, heavy.destination);
        assert_eq!(heavy.cost, bare.cost + tie_breaker(bare.destination, 5));
    }
}
