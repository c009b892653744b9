//! What tells one agent from another in its choices.

use vstd::prelude::*;

verus! {

/// The number that an agent is born with. It seeds the tie-breaker of the
/// agent's searches.
#[derive(Clone, Copy, Debug, PartialEq, Eq, Structural)]
pub struct Dna {
    dna: u64,
}

/// `rand::random::<u64>`: a number from the thread's generator. Nothing is
/// known of it but its type.
#[verifier::external_body]
fn random_u64() -> u64 {
    rand::random()
}

impl Dna {
    /// The number itself.
    pub closed spec fn value(&self) -> u64 {
        self.dna
    }

    /// The dna of a new agent, drawn at random.
    pub fn random() -> Dna {
        Dna { dna: random_u64() }
    }

    /// The dna with the number `dna`.
    pub fn new(dna: u64) -> (r: Dna)
        ensures
            r.value() == dna,
    {
        Dna { dna }
    }

    /// The seed for the agent's searches.
    pub fn seed(&self) -> (s: u64)
        ensures
            s == self.value(),
    {
        self.dna
    }
}

} // verus!
