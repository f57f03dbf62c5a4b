//! A detected collision between two entities, as an unordered pair.
use vstd::prelude::*;

verus! {

/// A collision between the entities with ids `a` and `b`; which of the two is
/// named first does not matter for equality.
#[derive(Eq, Hash, Clone, Copy, Debug)]
pub struct Collision {
    pub a: u64,
    pub b: u64,
}

/// Two collisions involve the same two entities.
pub open spec fn same_pair(x: Collision, y: Collision) -> bool {
    (x.a == y.a && x.b == y.b) || (x.a == y.b && x.b == y.a)
}

impl Collision {
    /// The collision between `a` and `b`.
    pub fn new(a: u64, b: u64) -> (c: Self)
        ensures
            c.a == a,
            c.b == b,
    {
        Self { a, b }
    }
}

impl PartialEq for Collision {
    fn eq(&self, other: &Self) -> (r: bool) {
        ((self.a == other.a) && (self.b == other.b)) || ((self.a == other.b) && (self.b == other.a))
    }
}

impl vstd::std_specs::cmp::PartialEqSpecImpl for Collision {
    open spec fn obeys_eq_spec() -> bool {
        true
    }

    open spec fn eq_spec(&self, other: &Self) -> bool {
        same_pair(*self, *other)
    }
}

/// Collision equality is an equivalence: reflexive, symmetric and
/// transitive.
pub proof fn lemma_same_pair_equivalence(x: Collision, y: Collision, z: Collision)
    ensures
        same_pair(x, x),
        same_pair(x, y) ==> same_pair(y, x),
        same_pair(x, y) && same_pair(y, z) ==> same_pair(x, z),
{
}

/// The collision `c` involves the entity `e`.
pub open spec fn involves(c: Collision, e: u64) -> bool {
    e == c.a || e == c.b
}

/// Two collisions are equal exactly when they involve the same entities:
/// every entity of one is an entity of the other.
pub proof fn lemma_equal_means_same_entities(x: Collision, y: Collision)
    ensures
        same_pair(x, y) <==> (forall|e: u64| #[trigger] involves(x, e) <==> involves(y, e)),
{
    if forall|e: u64| #[trigger] involves(x, e) <==> involves(y, e) {
        assert(involves(x, x.a) && involves(x, x.b));
        assert(involves(x, y.a) == involves(y, y.a));
        assert(involves(x, y.b) == involves(y, y.b));
    }
}

/// Naming the two entities in the other order gives an equal collision.
pub proof fn lemma_order_irrelevant(a: u64, b: u64)
    ensures
        same_pair(Collision { a, b }, Collision { a: b, b: a }),
{
}

} // verus!
