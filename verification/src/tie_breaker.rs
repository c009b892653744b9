//! The per-agent perturbation of edge weights: a stable hash of the tile
//! that a move leads to and of the agent's seed, scaled into a few cost
//! units. Equal seeds give equal perturbations; different seeds spread
//! agents over routes of about the same length.

use std::collections::hash_map::DefaultHasher;
use std::hash::Hasher;
use vstd::bytes::spec_u32_to_le_bytes;
use vstd::bytes::spec_u64_to_le_bytes;
use vstd::bytes::u32_to_le_bytes;
use vstd::bytes::u64_to_le_bytes;
use vstd::prelude::*;
use vstd::std_specs::hash::DefaultHasherAdditionalSpecFns;

use crate::grid::GridPos;
use crate::nav_mesh::Move;

verus! {

/// Largest perturbation of one edge weight.
pub const MAX_TIE_BREAKER: u32 = 10;

/// The hash of a tile and a seed: the default hasher fed with the column,
/// the row and the seed, each in little-endian bytes.
pub open spec fn stable_hash_of(cell: GridPos, seed: u64) -> u64 {
    DefaultHasher::spec_finish(
        seq![
            spec_u32_to_le_bytes(cell.x),
            spec_u32_to_le_bytes(cell.y),
            spec_u64_to_le_bytes(seed),
        ],
    )
}

/// The hash of a tile and a seed.
pub fn stable_hash(cell: GridPos, seed: u64) -> (h: u64)
    ensures
        h == stable_hash_of(cell, seed),
{
    let mut hasher = DefaultHasher::new();
    let x = u32_to_le_bytes(cell.x);
    hasher.write(x.as_slice());
    let y = u32_to_le_bytes(cell.y);
    hasher.write(y.as_slice());
    let s = u64_to_le_bytes(seed);
    hasher.write(s.as_slice());
    assert(hasher@ == seq![
        spec_u32_to_le_bytes(cell.x),
        spec_u32_to_le_bytes(cell.y),
        spec_u64_to_le_bytes(seed),
    ]);
    hasher.finish()
}

/// The low 32 bits of `hash`, mapped linearly from `0..=u32::MAX` onto
/// `0..=MAX_TIE_BREAKER` and rounded down.
pub open spec fn remap_hash(hash: u64) -> u32 {
    (((hash % 0x1_0000_0000) * MAX_TIE_BREAKER) / 0xffff_ffff) as u32
}

/// The perturbation that `hash` stands for.
pub fn tie_breaker_from_hash(hash: u64) -> (t: u32)
    ensures
        t == remap_hash(hash),
        t <= MAX_TIE_BREAKER,
{
    let low: u64 = hash % 0x1_0000_0000;
    let scaled: u64 = low * 10 / 0xffff_ffff;
    scaled as u32
}

/// The perturbation of a move to `cell` for an agent with `seed`.
pub open spec fn tie_breaker_of(cell: GridPos, seed: u64) -> u32 {
    remap_hash(stable_hash_of(cell, seed))
}

/// The perturbation of a move to `cell` for an agent with `seed`.
pub fn tie_breaker(cell: GridPos, seed: u64) -> (t: u32)
    ensures
        t == tie_breaker_of(cell, seed),
        t <= MAX_TIE_BREAKER,
{
    tie_breaker_from_hash(stable_hash(cell, seed))
}

/// What a search adds to the weight of a move to `cell`: the tie-breaker of
/// its seed, or nothing when it has no seed.
pub open spec fn perturbation_of(seed: Option<u64>, cell: GridPos) -> u32 {
    match seed {
        Some(s) => tie_breaker_of(cell, s),
        None => 0,
    }
}

/// No perturbation exceeds `MAX_TIE_BREAKER`.
pub proof fn lemma_perturbation_bound(seed: Option<u64>, cell: GridPos)
    ensures
        0 <= perturbation_of(seed, cell) <= MAX_TIE_BREAKER,
{
}

/// `moves` with each cost raised by the perturbation of its destination.
pub open spec fn perturbed(seed: Option<u64>, moves: Seq<Move>) -> Seq<Move> {
    Seq::new(
        moves.len(),
        |i: int|
            Move {
                destination: moves[i].destination,
                cost: (moves[i].cost + perturbation_of(seed, moves[i].destination)) as u32,
            },
    )
}

/// Adds to the cost of each move the perturbation that `seed` gives its
/// destination. Order and destinations stay as they are.
pub fn add_entity_tie_breaker(seed: u64, moves: Vec<Move>) -> (r: Vec<Move>)
    requires
        forall|i: int| 0 <= i < moves@.len() ==> moves@[i].cost + MAX_TIE_BREAKER <= u32::MAX,
    ensures
        r@ == perturbed(Some(seed), moves@),
{
    let mut r: Vec<Move> = Vec::with_capacity(moves.len());
    let mut i: usize = 0;
    while i < moves.len()
        invariant
            i <= moves@.len(),
            forall|k: int| 0 <= k < moves@.len() ==> moves@[k].cost + MAX_TIE_BREAKER <= u32::MAX,
            r@ == perturbed(Some(seed), moves@).subrange(0, i as int),
        decreases moves@.len() - i,
    {
        let m = moves[i];
        let t: u32 = tie_breaker(m.destination, seed);
        r.push(Move { destination: m.destination, cost: m.cost + t });
        i = i + 1;
    }
    r
}

} // verus!
