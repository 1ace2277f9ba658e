//! The lookup table of bitwise exclusive or over the range `[0, N)`, and the
//! lookup argument that holds guarded rows to it.

use crate::column::{Column, ColumnKind, Query};
use crate::constraint_system::{ConstraintSystem, Lookup, LookupPair, Shape};
use crate::error::ConfigurationError;
use crate::field::FieldElement;
use crate::region::{Assignment, RegionAssigner, TableRow};
use vstd::arithmetic::div_mod::{
    lemma_fundamental_div_mod,
    lemma_fundamental_div_mod_converse,
    lemma_mod_bound,
};
use vstd::arithmetic::mul::lemma_mul_is_commutative;
use vstd::prelude::*;

verus! {

/// The bitwise exclusive or of two table operands.
pub open spec fn xor_of(i: nat, j: nat) -> nat {
    ((i as u128) ^ (j as u128)) as nat
}

/// Whether `row` is the table's row for the operands `i` and `j`.
pub open spec fn is_xor_row(row: TableRow, i: nat, j: nat) -> bool {
    row.lhs@ == i && row.rhs@ == j && row.out@ == xor_of(i, j)
}

/// Whether `table` is the exclusive-or table of bound `n`: one row for each
/// pair of operands below `n`, the left operand varying slowest.
pub open spec fn is_xor_table(table: Seq<TableRow>, n: nat) -> bool {
    &&& table.len() == n * n
    &&& forall|k: int|
        0 <= k < table.len() ==> is_xor_row(
            #[trigger] table[k],
            (k / n as int) as nat,
            (k % n as int) as nat,
        )
}

/// Whether some row of `table` holds the three values.
pub open spec fn table_holds(table: Seq<TableRow>, lhs: nat, rhs: nat, out: nat) -> bool {
    exists|k: int|
        0 <= k < table.len() && (#[trigger] table[k]).lhs@ == lhs && table[k].rhs@ == rhs
            && table[k].out@ == out
}

/// The row for the operands `i` and `j` stands at `i * n + j` and holds
/// `i`, `j` and their bitwise exclusive or.
pub proof fn lemma_xor_table_row(table: Seq<TableRow>, n: nat, i: nat, j: nat)
    requires
        is_xor_table(table, n),
        i < n,
        j < n,
    ensures
        0 <= i * n + j < table.len(),
        is_xor_row(table[(i * n + j) as int], i, j),
{
    let k = (i * n + j) as int;
    assert(i * n + j < n * n) by (nonlinear_arith)
        requires
            i < n,
            j < n,
    ;
    lemma_mul_is_commutative(i as int, n as int);
    lemma_fundamental_div_mod_converse(k, n as int, i as int, j as int);
}

/// A table of bound `n` holds a triple exactly if both operands are below
/// `n` and the third value is their bitwise exclusive or. So a guarded row
/// with an operand outside `[0, n)` matches no row of the table, whatever
/// was assigned to it.
pub proof fn lemma_table_holds(table: Seq<TableRow>, n: nat, lhs: nat, rhs: nat, out: nat)
    requires
        is_xor_table(table, n),
    ensures
        table_holds(table, lhs, rhs, out) <==> lhs < n && rhs < n && out == xor_of(lhs, rhs),
{
    if lhs < n && rhs < n && out == xor_of(lhs, rhs) {
        lemma_xor_table_row(table, n, lhs, rhs);
        assert(table[(lhs * n + rhs) as int].lhs@ == lhs);
    }
    if table_holds(table, lhs, rhs, out) {
        let k = choose|k: int|
            0 <= k < table.len() && (#[trigger] table[k]).lhs@ == lhs && table[k].rhs@ == rhs
                && table[k].out@ == out;
        let m = n as int;
        assert(is_xor_row(table[k], (k / m) as nat, (k % m) as nat));
        assert(m > 0) by (nonlinear_arith)
            requires
                0 <= k < m * m,
                m >= 0,
        ;
        lemma_mod_bound(k, m);
        lemma_fundamental_div_mod(k, m);
        let q = k / m;
        let r = k % m;
        assert(0 <= q < m) by (nonlinear_arith)
            requires
                0 <= k < m * m,
                m > 0,
                k == m * q + r,
                0 <= r < m,
        ;
    }
}

/// There is one exclusive-or table of each bound: two of them agree in every
/// byte.
pub proof fn lemma_xor_table_unique(first: Seq<TableRow>, second: Seq<TableRow>, n: nat)
    requires
        is_xor_table(first, n),
        is_xor_table(second, n),
    ensures
        first == second,
{
    assert forall|k: int| 0 <= k < first.len() implies first[k] == second[k] by {
        let i = (k / n as int) as nat;
        let j = (k % n as int) as nat;
        assert(is_xor_row(first[k], i, j));
        assert(is_xor_row(second[k], i, j));
        FieldElement::lemma_view_injective(first[k].lhs, second[k].lhs);
        FieldElement::lemma_view_injective(first[k].rhs, second[k].rhs);
        FieldElement::lemma_view_injective(first[k].out, second[k].out);
    }
    assert(first =~= second);
}

/// Loading is idempotent: a second load of the table of the same bound
/// leaves the record exactly as the first load left it.
pub proof fn lemma_load_idempotent(before: Assignment, once: Assignment, twice: Assignment, n: nat)
    requires
        is_xor_table(once.table, n),
        once == (Assignment { table: once.table, ..before }),
        is_xor_table(twice.table, n),
        twice == (Assignment { table: twice.table, ..once }),
    ensures
        twice == once,
{
    lemma_xor_table_unique(once.table, twice.table, n);
}

/// The shape that the chip is made of: three table columns, the selector
/// that guards the lookup, and the bound of the table.
#[derive(Clone, Copy, Debug, PartialEq, Eq)]
pub struct XorChipConfig {
    pub table: [Column; 3],
    pub selector: Column,
    pub bound: usize,
}

impl XorChipConfig {
    /// The three columns of the chip's table.
    pub open spec fn table_columns() -> Seq<Column> {
        seq![
            Column { kind: ColumnKind::LookupTable, index: 0 },
            Column { kind: ColumnKind::LookupTable, index: 1 },
            Column { kind: ColumnKind::LookupTable, index: 2 },
        ]
    }

    /// The selector that guards the chip's lookup.
    pub open spec fn lookup_selector() -> Column {
        Column { kind: ColumnKind::Selector, index: 1 }
    }

    /// The columns that the chip registers, in the order of registration.
    pub open spec fn own_columns() -> Seq<Column> {
        Self::table_columns().push(Self::lookup_selector())
    }

    /// The lookup argument that ties the cells of `cola`, `colb` and `colc`
    /// in a guarded row to the table.
    pub open spec fn lookup_of(cola: Column, colb: Column, colc: Column) -> Lookup {
        Lookup {
            selector: Self::lookup_selector(),
            lhs: LookupPair {
                input: Query { column: cola, rotation: 0 },
                table: Self::table_columns()[0],
            },
            rhs: LookupPair {
                input: Query { column: colb, rotation: 0 },
                table: Self::table_columns()[1],
            },
            out: LookupPair {
                input: Query { column: colc, rotation: 0 },
                table: Self::table_columns()[2],
            },
        }
    }

    /// Why the chip cannot be configured over `shape` with bound `n`, if it
    /// cannot: the table is too large, one of the chip's columns is taken,
    /// or its selector guards something already. The first of these that
    /// holds is the one reported.
    pub open spec fn refusal(shape: Shape, n: usize) -> Option<ConfigurationError> {
        if n * n > usize::MAX {
            Some(ConfigurationError::TableTooLarge(n))
        } else if shape.columns.contains(Self::own_columns()[0]) {
            Some(ConfigurationError::DuplicateColumn(Self::own_columns()[0]))
        } else if shape.columns.contains(Self::own_columns()[1]) {
            Some(ConfigurationError::DuplicateColumn(Self::own_columns()[1]))
        } else if shape.columns.contains(Self::own_columns()[2]) {
            Some(ConfigurationError::DuplicateColumn(Self::own_columns()[2]))
        } else if shape.columns.contains(Self::own_columns()[3]) {
            Some(ConfigurationError::DuplicateColumn(Self::own_columns()[3]))
        } else if shape.guards(Self::lookup_selector()) {
            Some(ConfigurationError::DuplicateGate(Self::lookup_selector()))
        } else {
            None
        }
    }

    /// The shape after the chip was configured over `shape`.
    pub open spec fn configured(shape: Shape, cola: Column, colb: Column, colc: Column) -> Shape {
        Shape {
            columns: shape.columns + Self::own_columns(),
            lookups: shape.lookups.push(Self::lookup_of(cola, colb, colc)),
            ..shape
        }
    }

    /// Why the chip cannot be configured over `meta` with bound `n`, if it
    /// cannot.
    pub fn probe(meta: &ConstraintSystem, n: usize) -> (refusal: Option<ConfigurationError>)
        ensures
            refusal == Self::refusal(meta@, n),
    {
        if n.checked_mul(n).is_none() {
            return Some(ConfigurationError::TableTooLarge(n));
        }
        let t0 = Column::new(ColumnKind::LookupTable, 0);
        let t1 = Column::new(ColumnKind::LookupTable, 1);
        let t2 = Column::new(ColumnKind::LookupTable, 2);
        let selector = Column::new(ColumnKind::Selector, 1);
        if meta.has_column(t0) {
            return Some(ConfigurationError::DuplicateColumn(t0));
        }
        if meta.has_column(t1) {
            return Some(ConfigurationError::DuplicateColumn(t1));
        }
        if meta.has_column(t2) {
            return Some(ConfigurationError::DuplicateColumn(t2));
        }
        if meta.has_column(selector) {
            return Some(ConfigurationError::DuplicateColumn(selector));
        }
        if meta.guards(selector) {
            return Some(ConfigurationError::DuplicateGate(selector));
        }
        None
    }

    /// Registers the chip: its three table columns, its selector, and the
    /// lookup that holds the cells of `cola`, `colb` and `colc` in every
    /// guarded row to the table of bound `n`. Where the chip is refused the
    /// registry stays as it was.
    pub fn configure(
        meta: &mut ConstraintSystem,
        cola: Column,
        colb: Column,
        colc: Column,
        n: usize,
    ) -> (config: Result<XorChipConfig, ConfigurationError>)
        ensures
            match config {
                Ok(chip) => {
                    &&& Self::refusal(old(meta)@, n) is None
                    &&& final(meta)@ == Self::configured(old(meta)@, cola, colb, colc)
                    &&& chip.table@ == Self::table_columns()
                    &&& chip.selector == Self::lookup_selector()
                    &&& chip.bound == n
                    &&& Self::refusal(final(meta)@, n) == Some(
                        ConfigurationError::DuplicateColumn(Self::own_columns()[0]),
                    )
                },
                Err(e) => Self::refusal(old(meta)@, n) == Some(e) && final(meta)@ == old(meta)@,
            },
            old(meta)@.well_formed() ==> final(meta)@.well_formed(),
    {
        match Self::probe(meta, n) {
            Some(e) => {
                return Err(e);
            },
            None => {},
        }
        let t0 = Column::new(ColumnKind::LookupTable, 0);
        let t1 = Column::new(ColumnKind::LookupTable, 1);
        let t2 = Column::new(ColumnKind::LookupTable, 2);
        let selector = Column::new(ColumnKind::Selector, 1);
        let lookup = Lookup {
            selector,
            lhs: LookupPair { input: cola.cur(), table: t0 },
            rhs: LookupPair { input: colb.cur(), table: t1 },
            out: LookupPair { input: colc.cur(), table: t2 },
        };
        let ghost start = meta@;
        match meta.register_column(t0) {
            Ok(()) => {},
            Err(e) => {
                return Err(e);
            },
        }
        proof {
            lemma_push_contains(start.columns, t0, t1);
            lemma_push_contains(start.columns, t0, t2);
            lemma_push_contains(start.columns, t0, selector);
        }
        let ghost one = meta@;
        match meta.register_column(t1) {
            Ok(()) => {},
            Err(e) => {
                return Err(e);
            },
        }
        proof {
            lemma_push_contains(one.columns, t1, t2);
            lemma_push_contains(one.columns, t1, selector);
        }
        let ghost two = meta@;
        match meta.register_column(t2) {
            Ok(()) => {},
            Err(e) => {
                return Err(e);
            },
        }
        proof {
            lemma_push_contains(two.columns, t2, selector);
        }
        match meta.register_column(selector) {
            Ok(()) => {},
            Err(e) => {
                return Err(e);
            },
        }
        match meta.lookup(lookup) {
            Ok(()) => {},
            Err(e) => {
                return Err(e);
            },
        }
        proof {
            assert(meta@.columns =~= start.columns + Self::own_columns());
            assert(meta@.columns[start.columns.len() as int] == t0);
        }
        Ok(XorChipConfig { table: [t0, t1, t2], selector, bound: n })
    }

    /// Builds the table row by row, the left operand in the outer loop and
    /// the right one in the inner, and loads it into the session in place of
    /// any table loaded before. Only a bound whose square this machine cannot
    /// hold is refused; the session then stays as it was.
    pub fn load(&self, layouter: &mut RegionAssigner) -> (loaded: Result<(), ConfigurationError>)
        ensures
            loaded is Ok <==> self.bound * self.bound <= usize::MAX,
            loaded is Ok ==> is_xor_table(final(layouter)@.table, self.bound as nat),
            loaded is Ok ==> final(layouter)@ == (Assignment {
                table: final(layouter)@.table,
                ..old(layouter)@
            }),
            loaded matches Err(e) ==> e == ConfigurationError::TableTooLarge(self.bound),
            loaded is Err ==> final(layouter)@ == old(layouter)@,
            old(layouter)@.well_formed() ==> final(layouter)@.well_formed(),
    {
        let n = self.bound;
        if n.checked_mul(n).is_none() {
            return Err(ConfigurationError::TableTooLarge(n));
        }
        let mut rows: Vec<TableRow> = Vec::new();
        let mut lhs: usize = 0;
        while lhs < n
            invariant
                lhs <= n,
                n * n <= usize::MAX,
                rows@.len() == lhs * n,
                forall|k: int|
                    0 <= k < rows@.len() ==> is_xor_row(
                        #[trigger] rows@[k],
                        (k / n as int) as nat,
                        (k % n as int) as nat,
                    ),
            decreases n - lhs,
        {
            let mut rhs: usize = 0;
            while rhs < n
                invariant
                    lhs < n,
                    rhs <= n,
                    n * n <= usize::MAX,
                    rows@.len() == lhs * n + rhs,
                    forall|k: int|
                        0 <= k < rows@.len() ==> is_xor_row(
                            #[trigger] rows@[k],
                            (k / n as int) as nat,
                            (k % n as int) as nat,
                        ),
                decreases n - rhs,
            {
                let row = TableRow {
                    lhs: FieldElement::from_u128(lhs as u128),
                    rhs: FieldElement::from_u128(rhs as u128),
                    out: FieldElement::from_u128((lhs as u128) ^ (rhs as u128)),
                };
                proof {
                    let k = (lhs * n + rhs) as int;
                    lemma_mul_is_commutative(lhs as int, n as int);
                    lemma_fundamental_div_mod_converse(k, n as int, lhs as int, rhs as int);
                    assert(is_xor_row(row, lhs as nat, rhs as nat));
                }
                let ghost before = rows@;
                rows.push(row);
                proof {
                    assert forall|k: int| 0 <= k < rows@.len() implies is_xor_row(
                        #[trigger] rows@[k],
                        (k / n as int) as nat,
                        (k % n as int) as nat,
                    ) by {
                        if k < before.len() {
                            assert(rows@[k] == before[k]);
                        }
                    }
                }
                rhs += 1;
            }
            proof {
                assert((lhs + 1) * n == lhs * n + n) by (nonlinear_arith);
            }
            lhs += 1;
        }
        layouter.assign_table(rows);
        Ok(())
    }
}

/// Pushing one value onto a sequence does not bring in another.
pub proof fn lemma_push_contains(s: Seq<Column>, pushed: Column, other: Column)
    requires
        !s.contains(other),
        pushed != other,
    ensures
        !s.push(pushed).contains(other),
{
    assert forall|i: int| 0 <= i < s.push(pushed).len() implies s.push(pushed)[i] != other by {
        if i < s.len() {
            assert(s[i] == s.push(pushed)[i]);
            assert(s.contains(s[i]));
        }
    }
}

} // verus!
