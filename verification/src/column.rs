//! Columns of the circuit grid and the cells that queries pick from them.

use vstd::prelude::*;

verus! {

/// What a column holds.
#[derive(Clone, Copy, Debug, PartialEq, Eq, Structural)]
pub enum ColumnKind {
    /// Private witness values.
    Advice,
    /// Public values, visible to the verifier.
    Instance,
    /// Flags that switch a gate or a lookup on, row by row.
    Selector,
    /// One column of a lookup table.
    LookupTable,
}

/// A column: its kind and its number among the columns of that kind. The two
/// together are its identity.
#[derive(Clone, Copy, Debug, PartialEq, Eq, Structural)]
pub struct Column {
    pub kind: ColumnKind,
    pub index: usize,
}

/// The cell of `column` that lies `rotation` rows below the row at which a
/// gate or a lookup is evaluated.
#[derive(Clone, Copy, Debug, PartialEq, Eq, Structural)]
pub struct Query {
    pub column: Column,
    pub rotation: i32,
}

impl Column {
    /// The column of the given kind and number.
    pub fn new(kind: ColumnKind, index: usize) -> (column: Column)
        ensures
            column == (Column { kind, index }),
    {
        Column { kind, index }
    }

    /// The cell of this column in the row at which a gate is evaluated.
    pub fn cur(&self) -> (query: Query)
        ensures
            query == (Query { column: *self, rotation: 0 }),
    {
        Query { column: *self, rotation: 0 }
    }
}

} // verus!
