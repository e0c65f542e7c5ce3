//! In-memory table storage: rows in insertion order, record ids from 1.

use vstd::prelude::*;
use crate::tuple::{Tuple, ValueV};

verus! {

/// The rows of one table.  The row at index `i` carries record id `i + 1`:
/// ids are allocated from 1, monotonically, on insert.
#[derive(Debug)]
pub struct MemoryTable {
    pub rows: Vec<Tuple>,
}

impl View for MemoryTable {
    type V = Seq<Seq<ValueV>>;

    open spec fn view(&self) -> Seq<Seq<ValueV>> {
        self.rows.deep_view()
    }
}

impl MemoryTable {
    /// An empty table.
    pub fn new() -> (r: MemoryTable)
        ensures
            r@ =~= Seq::<Seq<ValueV>>::empty(),
    {
        MemoryTable { rows: Vec::new() }
    }

    /// The number of stored rows.
    pub fn len(&self) -> (n: usize)
        ensures
            n == self@.len(),
    {
        self.rows.len()
    }

    /// Appends a row; it takes the next record id.
    pub fn insert(&mut self, row: Tuple)
        ensures
            final(self)@ == old(self)@.push(row@),
    {
        self.rows.push(row);
        assert(self@ =~= old(self)@.push(row@));
    }
}

} // verus!
