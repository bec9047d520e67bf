use vstd::prelude::*;

verus! {

/// The quantity semiring {0, 1, ω} used to count uses of variables.
#[derive(Debug, Clone, Copy, PartialEq, Eq, Hash, Structural)]
pub enum Quantity {
    Zero,
    One,
    Omega,
}

impl Quantity {
    pub fn zero() -> (q: Quantity)
        ensures
            q == Quantity::Zero,
    {
        Quantity::Zero
    }

    pub fn one() -> (q: Quantity)
        ensures
            q == Quantity::One,
    {
        Quantity::One
    }

    pub fn omega() -> (q: Quantity)
        ensures
            q == Quantity::Omega,
    {
        Quantity::Omega
    }
}

/// Addition in the quantity semiring: 0 is neutral, any other sum is ω.
pub open spec fn spec_quantity_add(q1: Quantity, q2: Quantity) -> Quantity {
    match (q1, q2) {
        (Quantity::Zero, q) => q,
        (q, Quantity::Zero) => q,
        _ => Quantity::Omega,
    }
}

/// Multiplication in the quantity semiring: 0 absorbs, 1 is neutral, ω·ω = ω.
pub open spec fn spec_quantity_mul(q1: Quantity, q2: Quantity) -> Quantity {
    match (q1, q2) {
        (Quantity::Zero, _) => Quantity::Zero,
        (_, Quantity::Zero) => Quantity::Zero,
        (Quantity::One, q) => q,
        (q, Quantity::One) => q,
        (Quantity::Omega, Quantity::Omega) => Quantity::Omega,
    }
}

pub fn quantity_add(q1: Quantity, q2: Quantity) -> (r: Quantity)
    ensures
        r == spec_quantity_add(q1, q2),
{
    match (q1, q2) {
        (Quantity::Zero, q) => q,
        (q, Quantity::Zero) => q,
        _ => Quantity::Omega,
    }
}

pub fn quantity_mul(q1: Quantity, q2: Quantity) -> (r: Quantity)
    ensures
        r == spec_quantity_mul(q1, q2),
{
    match (q1, q2) {
        (Quantity::Zero, _) | (_, Quantity::Zero) => Quantity::Zero,
        (Quantity::One, q) | (q, Quantity::One) => q,
        (Quantity::Omega, Quantity::Omega) => Quantity::Omega,
    }
}

/// The quantities form a commutative semiring: addition is associative and
/// commutative with neutral element 0, multiplication is associative and
/// commutative with neutral element 1, 0 annihilates, and multiplication
/// distributes over addition.
pub proof fn lemma_quantity_semiring(a: Quantity, b: Quantity, c: Quantity)
    ensures
        spec_quantity_add(a, b) == spec_quantity_add(b, a),
        spec_quantity_add(spec_quantity_add(a, b), c) == spec_quantity_add(a, spec_quantity_add(b, c)),
        spec_quantity_add(Quantity::Zero, a) == a,
        spec_quantity_mul(a, b) == spec_quantity_mul(b, a),
        spec_quantity_mul(spec_quantity_mul(a, b), c) == spec_quantity_mul(a, spec_quantity_mul(b, c)),
        spec_quantity_mul(Quantity::One, a) == a,
        spec_quantity_mul(Quantity::Zero, a) == Quantity::Zero,
        spec_quantity_mul(a, spec_quantity_add(b, c)) == spec_quantity_add(
            spec_quantity_mul(a, b),
            spec_quantity_mul(a, c),
        ),
{
}

} // verus!
