//! What it means for a recorded session to satisfy its circuit, and the
//! proof that a synthesized session does so up to the lookup and the public
//! result, which the values alone decide.

use crate::column::{Column, Query};
use crate::constraint_system::{square_sum, Gate, Lookup, LookupPair, Shape};
use crate::fib_squared::{
    lemma_witness_matches_reference,
    reference_value,
    xor_squares,
    FibSquaredConfig,
};
use crate::region::{Activation, Assignment, CellRef, CopyConstraint};
use crate::synthesis::Session;
use crate::xor_chip::{lemma_table_holds, table_holds, xor_of};
use vstd::prelude::*;

verus! {

/// Whether an assigned cell at `column` and `row` holds `value`.
pub open spec fn holds(record: Assignment, column: Column, row: int, value: nat) -> bool {
    exists|i: int|
        0 <= i < record.cells.len() && (#[trigger] record.cells[i]).column == column
            && record.cells[i].row == row && record.cells[i].value@ == value
}

/// Whether the cell that `query` picks at `row` holds `value`.
pub open spec fn query_holds(record: Assignment, query: Query, row: int, value: nat) -> bool {
    holds(record, query.column, row + query.rotation, value)
}

/// Whether `gate` is satisfied at `row`: its three cells are assigned and
/// its polynomial vanishes on them.
pub open spec fn gate_holds(record: Assignment, gate: Gate, row: int) -> bool {
    exists|x: nat, y: nat, out: nat|
        #![trigger
            query_holds(record, gate.lhs, row, x),
            query_holds(record, gate.rhs, row, y),
            query_holds(record, gate.out, row, out),
        ]
        query_holds(record, gate.lhs, row, x) && query_holds(record, gate.rhs, row, y)
            && query_holds(record, gate.out, row, out) && out == square_sum(x, y)
}

/// Whether `lookup` is satisfied at `row`: its three cells are assigned and
/// their values, taken together, are a row of the table.
pub open spec fn lookup_holds(record: Assignment, lookup: Lookup, row: int) -> bool {
    exists|x: nat, y: nat, out: nat|
        #![trigger
            query_holds(record, lookup.lhs.input, row, x),
            query_holds(record, lookup.rhs.input, row, y),
            query_holds(record, lookup.out.input, row, out),
        ]
        query_holds(record, lookup.lhs.input, row, x) && query_holds(
            record,
            lookup.rhs.input,
            row,
            y,
        ) && query_holds(record, lookup.out.input, row, out) && table_holds(
            record.table,
            x,
            y,
            out,
        )
}

/// Whether the two cells of every copy constraint hold equal values.
pub open spec fn copies_hold(record: Assignment) -> bool {
    forall|k: int|
        0 <= k < record.copies.len() ==> record.cells[(
        #[trigger] record.copies[k]).left.index as int].value@
            == record.cells[record.copies[k].right.index as int].value@
}

/// Whether every bound cell holds the public value that it is bound to.
pub open spec fn bindings_hold(record: Assignment) -> bool {
    forall|k: int|
        0 <= k < record.bindings.len() ==> record.cells[(
        #[trigger] record.bindings[k]).cell.index as int].value@
            == record.instance[record.bindings[k].index as int]@
}

/// Whether `record` satisfies the circuit `shape`: every gate vanishes and
/// every lookup finds its row wherever the guarding selector is switched on,
/// every copy constraint holds, and every bound cell holds its public value.
/// This is what the proving backend decides.
pub open spec fn satisfied(record: Assignment, shape: Shape) -> bool {
    &&& forall|i: int, row: usize|
        #![trigger record.enabled(shape.gates[i].selector, row)]
        0 <= i < shape.gates.len() && record.enabled(shape.gates[i].selector, row) ==> gate_holds(
            record,
            shape.gates[i],
            row as int,
        )
    &&& forall|i: int, row: usize|
        #![trigger record.enabled(shape.lookups[i].selector, row)]
        0 <= i < shape.lookups.len() && record.enabled(shape.lookups[i].selector, row)
            ==> lookup_holds(record, shape.lookups[i], row as int)
    &&& copies_hold(record)
    &&& bindings_hold(record)
}

/// A copy constraint is symmetric: declared either way round, it holds of
/// the same records.
pub proof fn lemma_copy_symmetric(record: Assignment, left: CellRef, right: CellRef)
    ensures
        copies_hold(
            Assignment { copies: record.copies.push(CopyConstraint { left, right }), ..record },
        ) <==> copies_hold(
            Assignment {
                copies: record.copies.push(CopyConstraint { left: right, right: left }),
                ..record
            },
        ),
{
    let there = Assignment { copies: record.copies.push(CopyConstraint { left, right }), ..record };
    let back = Assignment {
        copies: record.copies.push(CopyConstraint { left: right, right: left }),
        ..record
    };
    let last = record.copies.len() as int;
    if copies_hold(there) {
        assert forall|k: int| 0 <= k < back.copies.len() implies back.cells[(
        #[trigger] back.copies[k]).left.index as int].value@
            == back.cells[back.copies[k].right.index as int].value@ by {
            if k < last {
                assert(there.copies[k] == back.copies[k]);
            } else {
                assert(there.copies[last].left == left);
            }
        }
    }
    if copies_hold(back) {
        assert forall|k: int| 0 <= k < there.copies.len() implies there.cells[(
        #[trigger] there.copies[k]).left.index as int].value@
            == there.cells[there.copies[k].right.index as int].value@ by {
            if k < last {
                assert(there.copies[k] == back.copies[k]);
            } else {
                assert(back.copies[last].left == right);
            }
        }
    }
}

impl Session {
    /// The square-sum gate over the session's columns.
    pub open spec fn gate(self) -> Gate {
        Gate {
            selector: self.config.selector,
            lhs: Query { column: self.config.a, rotation: 0 },
            rhs: Query { column: self.config.b, rotation: 0 },
            out: Query { column: self.config.c, rotation: 0 },
        }
    }

    /// The lookup into the exclusive-or table over the session's columns.
    pub open spec fn lookup(self) -> Lookup {
        Lookup {
            selector: self.config.xor_table.selector,
            lhs: LookupPair {
                input: Query { column: self.config.a, rotation: 0 },
                table: self.config.xor_table.table[0],
            },
            rhs: LookupPair {
                input: Query { column: self.config.b, rotation: 0 },
                table: self.config.xor_table.table[1],
            },
            out: LookupPair {
                input: Query { column: self.config.c, rotation: 0 },
                table: self.config.xor_table.table[2],
            },
        }
    }

    /// Whether the three values of row `r` are a row of the session's lookup
    /// table: both operands lie below its bound, and the result is the
    /// exclusive or of the operands themselves.
    pub open spec fn row_in_table(self, r: int) -> bool {
        &&& self.value(r as nat) < self.config.xor_table.bound
        &&& self.value((r + 1) as nat) < self.config.xor_table.bound
        &&& self.value((r + 2) as nat) == xor_of(self.value(r as nat), self.value((r + 1) as nat))
    }

    /// The value that direct iteration of the session's recurrence reaches.
    pub open spec fn reference(self) -> nat {
        reference_value(self.instance[0]@, self.instance[1]@, self.m1, self.m2)
    }

    /// A laid-out row holds three values of the recurrence that follow one
    /// another, and no other cell lies at the row's three places.
    pub proof fn lemma_row(self, record: Assignment, rows: nat, bound: bool, r: int, i: int)
        requires
            self.laid_out(record, rows, bound),
            self.columns_distinct(),
            0 <= r < rows,
            0 <= i < 3,
        ensures
            holds(record, self.column(i), r, self.value((r + i) as nat)),
            forall|v: nat| holds(record, self.column(i), r, v) ==> v == self.value((r + i) as nat),
    {
        assert(self.is_cell(record.cells[3 * r + i], 3 * r + i));
        assert forall|v: nat| holds(record, self.column(i), r, v) implies v == self.value(
            (r + i) as nat,
        ) by {
            let k = choose|k: int|
                0 <= k < record.cells.len() && (#[trigger] record.cells[k]).column == self.column(i)
                    && record.cells[k].row == r && record.cells[k].value@ == v;
            assert(self.is_cell(record.cells[k], k));
        }
    }

    /// Every copy constraint of a laid-out session holds.
    pub proof fn lemma_copies_hold(self, record: Assignment, rows: nat, bound: bool)
        requires
            self.laid_out(record, rows, bound),
        ensures
            copies_hold(record),
    {
        assert forall|k: int| 0 <= k < record.copies.len() implies record.cells[(
        #[trigger] record.copies[k]).left.index as int].value@
            == record.cells[record.copies[k].right.index as int].value@ by {
            assert(self.is_copy(record.copies[k], k));
            let left = 3 * (k / 2) + 1 + k % 2;
            let right = 3 * (k / 2) + 3 + k % 2;
            assert(self.is_cell(record.cells[left], left));
            assert(self.is_cell(record.cells[right], right));
        }
    }

    /// The square-sum gate holds in every row of a laid-out session in which
    /// its selector is switched on.
    pub proof fn lemma_gates_hold(self, record: Assignment, rows: nat, bound: bool)
        requires
            self.laid_out(record, rows, bound),
            self.columns_distinct(),
            self.config.selector != self.config.xor_table.selector,
        ensures
            forall|row: usize| #[trigger]
                record.enabled(self.config.selector, row) ==> gate_holds(
                    record,
                    self.gate(),
                    row as int,
                ),
    {
        assert forall|row: usize| #[trigger]
            record.enabled(self.config.selector, row) implies gate_holds(
            record,
            self.gate(),
            row as int,
        ) by {
            let j = choose|j: int|
                0 <= j < record.activations.len() && #[trigger] record.activations[j] == (
                Activation { selector: self.config.selector, row });
            assert(record.activations[j].selector == self.selector(j));
            let r = row as int;
            assert(r == j && r < self.m1);
            self.lemma_row(record, rows, bound, r, 0);
            self.lemma_row(record, rows, bound, r, 1);
            self.lemma_row(record, rows, bound, r, 2);
            let x = self.value(r as nat);
            let y = self.value((r + 1) as nat);
            let out = self.value((r + 2) as nat);
            assert(out == square_sum(x, y));
            assert(query_holds(record, self.gate().lhs, r, x));
            assert(query_holds(record, self.gate().rhs, r, y));
            assert(query_holds(record, self.gate().out, r, out));
        }
    }

    /// The lookup holds in an exclusive-or row of a laid-out session exactly
    /// if both operands lie below the table's bound and the row's result is
    /// the exclusive or of the operands themselves. That a row was assigned
    /// says nothing of it: an operand outside `[0, N)` is accepted by the
    /// assigner and fails the lookup.
    pub proof fn lemma_lookup_holds(self, record: Assignment, rows: nat, bound: bool, r: int)
        requires
            self.laid_out(record, rows, bound),
            self.columns_distinct(),
            self.m1 <= r < rows,
        ensures
            lookup_holds(record, self.lookup(), r) <==> {
                &&& self.value(r as nat) < self.config.xor_table.bound
                &&& self.value((r + 1) as nat) < self.config.xor_table.bound
                &&& self.value((r + 2) as nat) == xor_of(
                    self.value(r as nat),
                    self.value((r + 1) as nat),
                )
            },
            self.value((r + 2) as nat) == xor_squares(
                self.value(r as nat),
                self.value((r + 1) as nat),
            ),
    {
        self.lemma_row(record, rows, bound, r, 0);
        self.lemma_row(record, rows, bound, r, 1);
        self.lemma_row(record, rows, bound, r, 2);
        let x = self.value(r as nat);
        let y = self.value((r + 1) as nat);
        let out = self.value((r + 2) as nat);
        let lookup = self.lookup();
        lemma_table_holds(record.table, self.config.xor_table.bound as nat, x, y, out);
        if table_holds(record.table, x, y, out) {
            assert(query_holds(record, lookup.lhs.input, r, x));
            assert(query_holds(record, lookup.rhs.input, r, y));
            assert(query_holds(record, lookup.out.input, r, out));
        }
        if lookup_holds(record, lookup, r) {
            let (x2, y2, out2) = choose|x2: nat, y2: nat, out2: nat|
                #![trigger
                    query_holds(record, lookup.lhs.input, r, x2),
                    query_holds(record, lookup.rhs.input, r, y2),
                    query_holds(record, lookup.out.input, r, out2),
                ]
                query_holds(record, lookup.lhs.input, r, x2) && query_holds(
                    record,
                    lookup.rhs.input,
                    r,
                    y2,
                ) && query_holds(record, lookup.out.input, r, out2) && table_holds(
                    record.table,
                    x2,
                    y2,
                    out2,
                );
            assert(x2 == x && y2 == y && out2 == out);
        }
    }

    /// The last cell of a session laid out in full holds the value that
    /// direct iteration reaches: the circuit and the reference computation
    /// agree.
    pub proof fn lemma_output_is_reference(self, record: Assignment, bound: bool)
        requires
            self.laid_out(record, self.m1 + self.m2, bound),
            self.m1 + self.m2 >= 1,
        ensures
            record.cells.len() == 3 * (self.m1 + self.m2),
            record.cells.last().value@ == self.reference(),
    {
        let k = 3 * (self.m1 + self.m2) - 1;
        assert(self.is_cell(record.cells[k], k));
        lemma_witness_matches_reference(self.instance[0]@, self.instance[1]@, self.m1, self.m2);
    }

    /// The bindings of a session laid out in full hold exactly if the third
    /// public value is the value that direct iteration reaches.
    pub proof fn lemma_bindings_hold(self, record: Assignment)
        requires
            self.laid_out(record, self.m1 + self.m2, true),
            self.m1 + self.m2 >= 1,
            self.instance.len() >= 3,
        ensures
            bindings_hold(record) <==> self.instance[2]@ == self.reference(),
    {
        self.lemma_output_is_reference(record, true);
        assert(self.is_cell(record.cells[0], 0));
        assert(self.is_cell(record.cells[1], 1));
        let last = record.bindings[2];
        assert(last.index == 2 && last.cell.index == 3 * (self.m1 + self.m2) - 1);
        if self.instance[2]@ == self.reference() {
            assert forall|k: int| 0 <= k < record.bindings.len() implies record.cells[(
            #[trigger] record.bindings[k]).cell.index as int].value@
                == record.instance[record.bindings[k].index as int]@ by {}
        }
    }

    /// When the backend accepts: a session of the circuit as `configure`
    /// registers it, laid out in full, satisfies the circuit exactly if the
    /// third public value is the value that direct iteration reaches and
    /// every exclusive-or row is a row of the lookup table. A session that
    /// was synthesized without error may still fail to satisfy its circuit.
    pub proof fn lemma_acceptance(self, record: Assignment, n: usize)
        requires
            self.config.standard(n),
            self.laid_out(record, self.m1 + self.m2, true),
            self.m1 >= 1,
            self.instance.len() >= 3,
        ensures
            satisfied(record, FibSquaredConfig::configured(Shape::empty())) <==> {
                &&& self.instance[2]@ == self.reference()
                &&& forall|r: int| self.m1 <= r < self.m1 + self.m2 ==> #[trigger] self.row_in_table(r)
            },
    {
        let rows = self.m1 + self.m2;
        let shape = FibSquaredConfig::configured(Shape::empty());
        assert(shape.gates.len() == 1 && shape.gates[0] == self.gate());
        assert(shape.lookups.len() == 1 && shape.lookups[0] == self.lookup());
        self.lemma_copies_hold(record, rows, true);
        self.lemma_gates_hold(record, rows, true);
        self.lemma_bindings_hold(record);
        let guard = self.config.xor_table.selector;
        if satisfied(record, shape) {
            assert forall|r: int| self.m1 <= r < rows implies #[trigger] self.row_in_table(r) by {
                assert(record.activations[r].selector == self.selector(r));
                assert(record.activations[r] == (Activation { selector: guard, row: r as usize }));
                assert(record.enabled(shape.lookups[0].selector, r as usize));
                self.lemma_lookup_holds(record, rows, true, r);
            }
        }
        if self.instance[2]@ == self.reference() && (forall|r: int|
            self.m1 <= r < rows ==> #[trigger] self.row_in_table(r)) {
            assert forall|i: int, row: usize|
                #![trigger record.enabled(shape.lookups[i].selector, row)]
                0 <= i < shape.lookups.len() && record.enabled(
                    shape.lookups[i].selector,
                    row,
                ) implies lookup_holds(record, shape.lookups[i], row as int) by {
                let j = choose|j: int|
                    0 <= j < record.activations.len() && #[trigger] record.activations[j] == (
                    Activation { selector: guard, row });
                assert(record.activations[j].selector == self.selector(j));
                let r = row as int;
                assert(r == j && self.m1 <= r < rows);
                assert(self.row_in_table(r));
                self.lemma_lookup_holds(record, rows, true, r);
            }
        }
    }
}

} // verus!
