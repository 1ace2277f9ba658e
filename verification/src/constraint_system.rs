//! The static shape of a circuit: its columns, the gates that constrain them
//! and the lookups into a table. A shape is registered once, before any
//! witness is laid out, and only read afterwards.

use crate::column::{Column, Query};
use crate::error::ConfigurationError;
use crate::field::{modulus, FieldElement};
use vstd::arithmetic::div_mod::{lemma_add_mod_noop, lemma_small_mod};
use vstd::prelude::*;

verus! {

/// `a² + b²` in the field.
pub open spec fn square_sum(a: nat, b: nat) -> nat {
    (a * a + b * b) % modulus()
}

/// What the square-sum polynomial `x² + y² − out` evaluates to in the field.
pub open spec fn square_sum_residue(x: nat, y: nat, out: nat) -> nat {
    ((square_sum(x, y) + modulus() - out) % (modulus() as int)) as nat
}

/// The polynomial vanishes exactly where `out` is the square sum of `x` and
/// `y`.
pub proof fn lemma_residue_vanishes(x: nat, y: nat, out: nat)
    requires
        out < modulus(),
    ensures
        square_sum_residue(x, y, out) == 0 <==> out == square_sum(x, y),
{
    let p = modulus() as int;
    let s = square_sum(x, y) as int;
    if s >= out {
        if s > out {
            lemma_small_mod((s - out) as nat, p as nat);
        }
        assert((s + p - out) % p == (s - out) % p) by {
            vstd::arithmetic::div_mod::lemma_mod_add_multiples_vanish(s - out, p);
        }
    } else {
        lemma_small_mod((s + p - out) as nat, p as nat);
    }
}

/// A polynomial constraint between three cells, in force in every row in
/// which `selector` is switched on: there `out` must hold the sum of the
/// squares of `lhs` and `rhs`.
#[derive(Clone, Copy, Debug, PartialEq, Eq, Structural)]
pub struct Gate {
    pub selector: Column,
    pub lhs: Query,
    pub rhs: Query,
    pub out: Query,
}

/// One part of a lookup argument: the queried cell, and the table column in
/// which its value must be found.
#[derive(Clone, Copy, Debug, PartialEq, Eq, Structural)]
pub struct LookupPair {
    pub input: Query,
    pub table: Column,
}

/// A lookup argument: in every row in which `selector` is switched on, the
/// three queried cells, taken together, must be a row of the table held by
/// the three table columns.
#[derive(Clone, Copy, Debug, PartialEq, Eq, Structural)]
pub struct Lookup {
    pub selector: Column,
    pub lhs: LookupPair,
    pub rhs: LookupPair,
    pub out: LookupPair,
}

impl Gate {
    /// Evaluates this gate's polynomial on the values of its three queried
    /// cells. The result is zero exactly where the constraint holds.
    pub fn evaluate(&self, lhs: &FieldElement, rhs: &FieldElement, out: &FieldElement) -> (residue:
        FieldElement)
        ensures
            residue@ == square_sum_residue(lhs@, rhs@, out@),
            residue@ == 0 <==> out@ == square_sum(lhs@, rhs@),
    {
        let x_sq = lhs.square();
        let y_sq = rhs.square();
        let sum = x_sq.add(&y_sq);
        proof {
            lemma_add_mod_noop((lhs@ * lhs@) as int, (rhs@ * rhs@) as int, modulus() as int);
        }
        let residue = sum.sub(out);
        proof {
            use_type_invariant(out);
            lemma_residue_vanishes(lhs@, rhs@, out@);
        }
        residue
    }
}

/// What a constraint system holds, as plain sequences in the order of
/// registration.
pub struct Shape {
    pub columns: Seq<Column>,
    pub equality: Seq<Column>,
    pub gates: Seq<Gate>,
    pub lookups: Seq<Lookup>,
}

impl Shape {
    /// The shape that holds nothing.
    pub open spec fn empty() -> Shape {
        Shape {
            columns: Seq::empty(),
            equality: Seq::empty(),
            gates: Seq::empty(),
            lookups: Seq::empty(),
        }
    }

    /// Whether a registered gate or lookup is guarded by `selector`.
    pub open spec fn guards(self, selector: Column) -> bool {
        ||| exists|i: int| 0 <= i < self.gates.len() && (#[trigger] self.gates[i]).selector == selector
        ||| exists|i: int|
            0 <= i < self.lookups.len() && (#[trigger] self.lookups[i]).selector == selector
    }

    /// The shape with `column` allowed in copy constraints.
    pub open spec fn with_equality(self, column: Column) -> Shape {
        Shape {
            equality: if self.equality.contains(column) {
                self.equality
            } else {
                self.equality.push(column)
            },
            ..self
        }
    }

    /// No column is registered twice, and no selector guards two
    /// constraints.
    pub open spec fn well_formed(self) -> bool {
        &&& self.columns.no_duplicates()
        &&& self.equality.no_duplicates()
        &&& forall|i: int, j: int|
            0 <= i < j < self.gates.len() ==> (#[trigger] self.gates[i]).selector != (
            #[trigger] self.gates[j]).selector
        &&& forall|i: int, j: int|
            0 <= i < j < self.lookups.len() ==> (#[trigger] self.lookups[i]).selector != (
            #[trigger] self.lookups[j]).selector
        &&& forall|i: int, j: int|
            0 <= i < self.gates.len() && 0 <= j < self.lookups.len() ==> (
            #[trigger] self.gates[i]).selector != (#[trigger] self.lookups[j]).selector
    }
}

/// The registry of a circuit's columns, gates and lookups.
pub struct ConstraintSystem {
    columns: Vec<Column>,
    equality: Vec<Column>,
    gates: Vec<Gate>,
    lookups: Vec<Lookup>,
}

impl View for ConstraintSystem {
    type V = Shape;

    closed spec fn view(&self) -> Shape {
        Shape {
            columns: self.columns@,
            equality: self.equality@,
            gates: self.gates@,
            lookups: self.lookups@,
        }
    }
}

/// Whether `column` occurs in `columns`.
fn holds_column(columns: &Vec<Column>, column: Column) -> (found: bool)
    ensures
        found == columns@.contains(column),
{
    let mut i: usize = 0;
    while i < columns.len()
        invariant
            i <= columns.len(),
            forall|k: int| 0 <= k < i ==> columns@[k] != column,
        decreases columns.len() - i,
    {
        if columns[i] == column {
            return true;
        }
        i += 1;
    }
    false
}

impl ConstraintSystem {
    /// A registry that holds nothing yet.
    pub fn new() -> (system: ConstraintSystem)
        ensures
            system@ == Shape::empty(),
            system@.well_formed(),
    {
        let system = ConstraintSystem {
            columns: Vec::new(),
            equality: Vec::new(),
            gates: Vec::new(),
            lookups: Vec::new(),
        };
        proof {
            assert(system@.columns =~= Seq::empty());
            assert(system@.equality =~= Seq::empty());
            assert(system@.gates =~= Seq::empty());
            assert(system@.lookups =~= Seq::empty());
        }
        system
    }

    /// Whether `column` is registered.
    pub fn has_column(&self, column: Column) -> (found: bool)
        ensures
            found == self@.columns.contains(column),
    {
        holds_column(&self.columns, column)
    }

    /// Whether a registered gate or lookup is guarded by `selector`.
    pub fn guards(&self, selector: Column) -> (found: bool)
        ensures
            found == self@.guards(selector),
    {
        let mut i: usize = 0;
        while i < self.gates.len()
            invariant
                i <= self.gates.len(),
                forall|k: int| 0 <= k < i ==> self.gates@[k].selector != selector,
            decreases self.gates.len() - i,
        {
            if self.gates[i].selector == selector {
                return true;
            }
            i += 1;
        }
        let mut j: usize = 0;
        while j < self.lookups.len()
            invariant
                j <= self.lookups.len(),
                forall|k: int| 0 <= k < self.gates.len() ==> self.gates@[k].selector != selector,
                forall|k: int| 0 <= k < j ==> self.lookups@[k].selector != selector,
            decreases self.lookups.len() - j,
        {
            if self.lookups[j].selector == selector {
                return true;
            }
            j += 1;
        }
        false
    }

    /// Registers a column. A column that is registered already is refused,
    /// and the registry stays as it was.
    pub fn register_column(&mut self, column: Column) -> (registered: Result<
        (),
        ConfigurationError,
    >)
        ensures
            registered is Ok <==> !old(self)@.columns.contains(column),
            registered is Ok ==> final(self)@ == (Shape {
                columns: old(self)@.columns.push(column),
                ..old(self)@
            }),
            registered matches Err(e) ==> e == ConfigurationError::DuplicateColumn(column)
                && final(self)@ == old(self)@,
            final(self)@.columns.contains(column),
            old(self)@.well_formed() ==> final(self)@.well_formed(),
    {
        if holds_column(&self.columns, column) {
            return Err(ConfigurationError::DuplicateColumn(column));
        }
        self.columns.push(column);
        proof {
            let before = old(self)@.columns;
            let after = self@.columns;
            assert(after[before.len() as int] == column);
            if before.no_duplicates() {
                assert forall|i: int, j: int| 0 <= i < after.len() && 0 <= j < after.len() && i != j implies after[i] != after[j] by {
                    if i < before.len() {
                        assert(before[i] == after[i]);
                    }
                    if j < before.len() {
                        assert(before[j] == after[j]);
                    }
                }
            }
        }
        Ok(())
    }

    /// Allows the cells of `column` to take part in copy constraints.
    /// Allowing it a second time changes nothing.
    pub fn enable_equality(&mut self, column: Column)
        ensures
            final(self)@ == old(self)@.with_equality(column),
            final(self)@.equality.contains(column),
            old(self)@.well_formed() ==> final(self)@.well_formed(),
    {
        if !holds_column(&self.equality, column) {
            self.equality.push(column);
            proof {
                let before = old(self)@.equality;
                let after = self@.equality;
                assert(after[before.len() as int] == column);
                if before.no_duplicates() {
                    assert forall|i: int, j: int| 0 <= i < after.len() && 0 <= j < after.len() && i != j implies after[i] != after[j] by {
                        if i < before.len() {
                            assert(before[i] == after[i]);
                        }
                        if j < before.len() {
                            assert(before[j] == after[j]);
                        }
                    }
                }
            }
        }
    }

    /// Registers a gate. One whose selector guards a registered gate or
    /// lookup already is refused, and the registry stays as it was.
    pub fn create_gate(&mut self, gate: Gate) -> (registered: Result<(), ConfigurationError>)
        ensures
            registered is Ok <==> !old(self)@.guards(gate.selector),
            registered is Ok ==> final(self)@ == (Shape {
                gates: old(self)@.gates.push(gate),
                ..old(self)@
            }),
            registered matches Err(e) ==> e == ConfigurationError::DuplicateGate(gate.selector)
                && final(self)@ == old(self)@,
            final(self)@.guards(gate.selector),
            old(self)@.well_formed() ==> final(self)@.well_formed(),
    {
        if self.guards(gate.selector) {
            return Err(ConfigurationError::DuplicateGate(gate.selector));
        }
        self.gates.push(gate);
        proof {
            let before = old(self)@.gates;
            let after = self@.gates;
            assert(after[before.len() as int].selector == gate.selector);
            assert forall|i: int| 0 <= i < before.len() implies before[i] == after[i] by {}
            assert(forall|i: int| 0 <= i < before.len() ==> (#[trigger] before[i]).selector != gate.selector);
            assert(forall|i: int|
                0 <= i < self@.lookups.len() ==> (#[trigger] old(self)@.lookups[i]).selector != gate.selector);
        }
        Ok(())
    }

    /// Registers a lookup. One whose selector guards a registered gate or
    /// lookup already is refused, and the registry stays as it was.
    pub fn lookup(&mut self, lookup: Lookup) -> (registered: Result<(), ConfigurationError>)
        ensures
            registered is Ok <==> !old(self)@.guards(lookup.selector),
            registered is Ok ==> final(self)@ == (Shape {
                lookups: old(self)@.lookups.push(lookup),
                ..old(self)@
            }),
            registered matches Err(e) ==> e == ConfigurationError::DuplicateGate(lookup.selector)
                && final(self)@ == old(self)@,
            final(self)@.guards(lookup.selector),
            old(self)@.well_formed() ==> final(self)@.well_formed(),
    {
        if self.guards(lookup.selector) {
            return Err(ConfigurationError::DuplicateGate(lookup.selector));
        }
        self.lookups.push(lookup);
        proof {
            let before = old(self)@.lookups;
            let after = self@.lookups;
            assert(after[before.len() as int].selector == lookup.selector);
            assert forall|i: int| 0 <= i < before.len() implies before[i] == after[i] by {}
            assert(forall|i: int| 0 <= i < before.len() ==> (#[trigger] before[i]).selector != lookup.selector);
            assert(forall|i: int|
                0 <= i < self@.gates.len() ==> (#[trigger] old(self)@.gates[i]).selector != lookup.selector);
        }
        Ok(())
    }

    /// The registered columns, in the order of registration.
    pub fn columns(&self) -> (columns: &Vec<Column>)
        ensures
            columns@ == self@.columns,
    {
        &self.columns
    }

    /// The columns whose cells may take part in copy constraints.
    pub fn equality_columns(&self) -> (columns: &Vec<Column>)
        ensures
            columns@ == self@.equality,
    {
        &self.equality
    }

    /// The registered gates, in the order of registration.
    pub fn gates(&self) -> (gates: &Vec<Gate>)
        ensures
            gates@ == self@.gates,
    {
        &self.gates
    }

    /// The registered lookups, in the order of registration.
    pub fn lookups(&self) -> (lookups: &Vec<Lookup>)
        ensures
            lookups@ == self@.lookups,
    {
        &self.lookups
    }
}

} // verus!
