//! One cell of a spatial grid: the entries that were inserted at positions
//! inside it, in insertion order.
use vstd::prelude::*;

verus! {

/// The entries of `cell` whose entity is not `ignore`, in order.
pub open spec fn others<P>(cell: Seq<(P, u64)>, ignore: u64) -> Seq<(P, u64)> {
    cell.filter(not_of::<P>(ignore))
}

/// Holds of the entries whose entity is not `ignore`.
pub open spec fn not_of<P>(ignore: u64) -> spec_fn((P, u64)) -> bool {
    |e: (P, u64)| e.1 != ignore
}

/// The entries of one grid cell.
pub struct Cell<T> {
    ents: Vec<T>,
}

impl<T> View for Cell<T> {
    type V = Seq<T>;

    closed spec fn view(&self) -> Seq<T> {
        self.ents@
    }
}

impl<T> Default for Cell<T> {
    fn default() -> (c: Self)
        ensures
            c@ == Seq::<T>::empty(),
    {
        Cell { ents: Vec::new() }
    }
}

impl<T> Cell<T> {
    /// Appends an entry.
    pub fn insert(&mut self, entry: T)
        ensures
            final(self)@ == old(self)@.push(entry),
    {
        self.ents.push(entry);
    }

    /// Removes every entry.
    pub fn clear(&mut self)
        ensures
            final(self)@ == Seq::<T>::empty(),
    {
        self.ents.clear();
    }

    /// The entries, in insertion order.
    pub fn unlock_unsafe(&self) -> (v: &Vec<T>)
        ensures
            v@ == self@,
    {
        &self.ents
    }
}

} // verus!
