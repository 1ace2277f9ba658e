//! The circuit of an iterated recurrence: a run of square-sum steps,
//! `out = a² + b²`, held by a polynomial gate, and then a run of steps
//! `out = a² ⊕ b²`, held by a lookup into the exclusive-or table.

use crate::column::{Column, ColumnKind, Query};
use crate::constraint_system::{square_sum, ConstraintSystem, Gate, Shape};
use crate::error::ConfigurationError;
use crate::field::{modulus, xor_value, FieldElement};
use crate::xor_chip::{lemma_push_contains, XorChipConfig};
use vstd::arithmetic::div_mod::lemma_add_mod_noop;
use vstd::prelude::*;

verus! {

/// `a² ⊕ b²`: both operands squared in the field, and the squares combined
/// by bitwise exclusive or.
pub open spec fn xor_squares(a: nat, b: nat) -> nat {
    xor_value((a * a) % modulus(), (b * b) % modulus())
}

/// The `k`-th value of the recurrence that starts with `a0` and `b0`: each
/// further value comes from the two before it, the first `m1` of them by a
/// square-sum step and the rest by an exclusive-or step.
pub open spec fn witness_value(a0: nat, b0: nat, m1: nat, k: nat) -> nat
    decreases k,
{
    if k == 0 {
        a0
    } else if k == 1 {
        b0
    } else {
        let x = witness_value(a0, b0, m1, (k - 2) as nat);
        let y = witness_value(a0, b0, m1, (k - 1) as nat);
        if k - 2 < m1 {
            square_sum(x, y)
        } else {
            xor_squares(x, y)
        }
    }
}

/// The pair `(a, b)` after `count` square-sum steps `(a, b) ← (b, a² + b²)`.
pub open spec fn square_steps(start: (nat, nat), count: nat) -> (nat, nat)
    decreases count,
{
    if count == 0 {
        start
    } else {
        let before = square_steps(start, (count - 1) as nat);
        (before.1, square_sum(before.0, before.1))
    }
}

/// The pair `(a, b)` after `count` exclusive-or steps `(a, b) ← (b, a² ⊕ b²)`.
pub open spec fn xor_steps(start: (nat, nat), count: nat) -> (nat, nat)
    decreases count,
{
    if count == 0 {
        start
    } else {
        let before = xor_steps(start, (count - 1) as nat);
        (before.1, xor_squares(before.0, before.1))
    }
}

/// The value reached by iterating directly: `m1` square-sum steps from
/// `(a0, b0)`, then `m2` exclusive-or steps.
pub open spec fn reference_value(a0: nat, b0: nat, m1: nat, m2: nat) -> nat {
    xor_steps(square_steps((a0, b0), m1), m2).1
}

/// During the square-sum steps the directly iterated pair is the pair of
/// recurrence values at the same place.
pub proof fn lemma_square_steps(a0: nat, b0: nat, m1: nat, k: nat)
    requires
        k <= m1,
    ensures
        square_steps((a0, b0), k) == (
            witness_value(a0, b0, m1, k),
            witness_value(a0, b0, m1, k + 1),
        ),
    decreases k,
{
    if k > 0 {
        lemma_square_steps(a0, b0, m1, (k - 1) as nat);
    }
}

/// During the exclusive-or steps the directly iterated pair is the pair of
/// recurrence values at the same place.
pub proof fn lemma_xor_steps(a0: nat, b0: nat, m1: nat, j: nat)
    ensures
        xor_steps(square_steps((a0, b0), m1), j) == (
            witness_value(a0, b0, m1, m1 + j),
            witness_value(a0, b0, m1, m1 + j + 1),
        ),
    decreases j,
{
    if j == 0 {
        lemma_square_steps(a0, b0, m1, m1);
    } else {
        lemma_xor_steps(a0, b0, m1, (j - 1) as nat);
    }
}

/// The last value that the circuit lays out, after `m1 + m2` rows, is the
/// value that direct iteration reaches.
pub proof fn lemma_witness_matches_reference(a0: nat, b0: nat, m1: nat, m2: nat)
    ensures
        witness_value(a0, b0, m1, m1 + m2 + 1) == reference_value(a0, b0, m1, m2),
{
    lemma_xor_steps(a0, b0, m1, m2);
}

/// One square-sum step: `a² + b²` in the field.
pub fn square_sum_step(a: &FieldElement, b: &FieldElement) -> (out: FieldElement)
    ensures
        out@ == square_sum(a@, b@),
{
    let x_sq = a.square();
    let y_sq = b.square();
    proof {
        lemma_add_mod_noop((a@ * a@) as int, (b@ * b@) as int, modulus() as int);
    }
    x_sq.add(&y_sq)
}

/// One exclusive-or step: `a² ⊕ b²`.
pub fn xor_step(a: &FieldElement, b: &FieldElement) -> (out: FieldElement)
    ensures
        out@ == xor_squares(a@, b@),
{
    let x_sq = a.square();
    let y_sq = b.square();
    x_sq.xor(&y_sq)
}

/// Iterates the recurrence directly, outside any circuit: `m1` square-sum
/// steps from `(a0, b0)`, then `m2` exclusive-or steps.
pub fn fib_squared(a0: FieldElement, b0: FieldElement, m1: usize, m2: usize) -> (last: FieldElement)
    ensures
        last@ == reference_value(a0@, b0@, m1 as nat, m2 as nat),
{
    let mut a = a0;
    let mut b = b0;
    let mut i: usize = 0;
    while i < m1
        invariant
            i <= m1,
            (a@, b@) == square_steps((a0@, b0@), i as nat),
        decreases m1 - i,
    {
        let c = square_sum_step(&a, &b);
        a = b;
        b = c;
        i += 1;
    }
    let mut j: usize = 0;
    while j < m2
        invariant
            j <= m2,
            (a@, b@) == xor_steps(square_steps((a0@, b0@), m1 as nat), j as nat),
        decreases m2 - j,
    {
        let c = xor_step(&a, &b);
        a = b;
        b = c;
        j += 1;
    }
    b
}

/// The shape of the circuit: three advice columns for the two operands and
/// the result of a step, the selector of the square-sum gate, the instance
/// column, and the exclusive-or chip.
#[derive(Clone, Copy, Debug, PartialEq, Eq)]
pub struct FibSquaredConfig {
    pub a: Column,
    pub b: Column,
    pub c: Column,
    pub selector: Column,
    pub instance: Column,
    pub xor_table: XorChipConfig,
}

impl FibSquaredConfig {
    /// The advice column with the given number.
    pub open spec fn advice(index: usize) -> Column {
        Column { kind: ColumnKind::Advice, index }
    }

    /// The selector of the square-sum gate.
    pub open spec fn gate_selector() -> Column {
        Column { kind: ColumnKind::Selector, index: 0 }
    }

    /// The instance column.
    pub open spec fn instance_column() -> Column {
        Column { kind: ColumnKind::Instance, index: 0 }
    }

    /// The columns that the circuit registers before the chip's own, in the
    /// order of registration.
    pub open spec fn own_columns() -> Seq<Column> {
        seq![
            Self::advice(0),
            Self::advice(1),
            Self::advice(2),
            Self::gate_selector(),
            Self::instance_column(),
        ]
    }

    /// The square-sum gate over the three advice columns.
    pub open spec fn gate() -> Gate {
        Gate {
            selector: Self::gate_selector(),
            lhs: Query { column: Self::advice(0), rotation: 0 },
            rhs: Query { column: Self::advice(1), rotation: 0 },
            out: Query { column: Self::advice(2), rotation: 0 },
        }
    }

    /// The configuration that `configure` hands out for the bound `n`.
    pub open spec fn standard(self, n: usize) -> bool {
        &&& self.a == Self::advice(0)
        &&& self.b == Self::advice(1)
        &&& self.c == Self::advice(2)
        &&& self.selector == Self::gate_selector()
        &&& self.instance == Self::instance_column()
        &&& self.xor_table.table@ == XorChipConfig::table_columns()
        &&& self.xor_table.selector == XorChipConfig::lookup_selector()
        &&& self.xor_table.bound == n
    }

    /// Why the circuit cannot be configured over `shape` with bound `n`, if
    /// it cannot: one of its columns is taken, the selector of its gate guards
    /// something already, or the chip is refused. The first of these that
    /// holds is the one reported.
    pub open spec fn refusal(shape: Shape, n: usize) -> Option<ConfigurationError> {
        if shape.columns.contains(Self::own_columns()[0]) {
            Some(ConfigurationError::DuplicateColumn(Self::own_columns()[0]))
        } else if shape.columns.contains(Self::own_columns()[1]) {
            Some(ConfigurationError::DuplicateColumn(Self::own_columns()[1]))
        } else if shape.columns.contains(Self::own_columns()[2]) {
            Some(ConfigurationError::DuplicateColumn(Self::own_columns()[2]))
        } else if shape.columns.contains(Self::own_columns()[3]) {
            Some(ConfigurationError::DuplicateColumn(Self::own_columns()[3]))
        } else if shape.columns.contains(Self::own_columns()[4]) {
            Some(ConfigurationError::DuplicateColumn(Self::own_columns()[4]))
        } else if shape.guards(Self::gate_selector()) {
            Some(ConfigurationError::DuplicateGate(Self::gate_selector()))
        } else {
            XorChipConfig::refusal(shape, n)
        }
    }

    /// The shape after the circuit was configured over `shape`.
    pub open spec fn configured(shape: Shape) -> Shape {
        let with_chip = XorChipConfig::configured(
            Shape { columns: shape.columns + Self::own_columns(), ..shape },
            Self::advice(0),
            Self::advice(1),
            Self::advice(2),
        );
        let with_equality = with_chip.with_equality(Self::advice(0)).with_equality(
            Self::advice(1),
        ).with_equality(Self::advice(2)).with_equality(Self::instance_column());
        Shape { gates: with_equality.gates.push(Self::gate()), ..with_equality }
    }

    /// Configures the circuit over a registry of its own. Only a bound whose
    /// square this machine cannot hold is refused.
    pub fn configure_alone(n: usize) -> (configured: Result<
        (ConstraintSystem, FibSquaredConfig),
        ConfigurationError,
    >)
        ensures
            configured is Ok <==> n * n <= usize::MAX,
            configured matches Ok((meta, circuit)) ==> meta@ == Self::configured(Shape::empty())
                && meta@.well_formed() && circuit.standard(n),
            configured matches Err(e) ==> e == ConfigurationError::TableTooLarge(n),
    {
        let mut meta = ConstraintSystem::new();
        match Self::configure(&mut meta, n) {
            Ok(circuit) => Ok((meta, circuit)),
            Err(e) => Err(e),
        }
    }

    /// Registers the circuit: the three advice columns, the selector of its gate
    /// and the instance column, then the exclusive-or chip of bound `n` over
    /// the advice columns, then equality on the advice and instance columns,
    /// and last the square-sum gate. Where the circuit is refused the
    /// registry stays as it was.
    pub fn configure(meta: &mut ConstraintSystem, n: usize) -> (config: Result<
        FibSquaredConfig,
        ConfigurationError,
    >)
        ensures
            match config {
                Ok(circuit) => {
                    &&& Self::refusal(old(meta)@, n) is None
                    &&& final(meta)@ == Self::configured(old(meta)@)
                    &&& circuit.standard(n)
                    &&& Self::refusal(final(meta)@, n) == Some(
                        ConfigurationError::DuplicateColumn(Self::advice(0)),
                    )
                },
                Err(e) => Self::refusal(old(meta)@, n) == Some(e) && final(meta)@ == old(meta)@,
            },
            old(meta)@.well_formed() ==> final(meta)@.well_formed(),
    {
        let a = Column::new(ColumnKind::Advice, 0);
        let b = Column::new(ColumnKind::Advice, 1);
        let c = Column::new(ColumnKind::Advice, 2);
        let selector = Column::new(ColumnKind::Selector, 0);
        let instance = Column::new(ColumnKind::Instance, 0);
        if meta.has_column(a) {
            return Err(ConfigurationError::DuplicateColumn(a));
        }
        if meta.has_column(b) {
            return Err(ConfigurationError::DuplicateColumn(b));
        }
        if meta.has_column(c) {
            return Err(ConfigurationError::DuplicateColumn(c));
        }
        if meta.has_column(selector) {
            return Err(ConfigurationError::DuplicateColumn(selector));
        }
        if meta.has_column(instance) {
            return Err(ConfigurationError::DuplicateColumn(instance));
        }
        if meta.guards(selector) {
            return Err(ConfigurationError::DuplicateGate(selector));
        }
        match XorChipConfig::probe(meta, n) {
            Some(e) => {
                return Err(e);
            },
            None => {},
        }
        let ghost start = meta@;
        let ghost chip = XorChipConfig::own_columns();
        match meta.register_column(a) {
            Ok(()) => {},
            Err(e) => {
                return Err(e);
            },
        }
        proof {
            lemma_push_contains(start.columns, a, b);
            lemma_push_contains(start.columns, a, c);
            lemma_push_contains(start.columns, a, selector);
            lemma_push_contains(start.columns, a, instance);
            lemma_push_contains(start.columns, a, chip[0]);
            lemma_push_contains(start.columns, a, chip[1]);
            lemma_push_contains(start.columns, a, chip[2]);
            lemma_push_contains(start.columns, a, chip[3]);
        }
        let ghost one = meta@;
        match meta.register_column(b) {
            Ok(()) => {},
            Err(e) => {
                return Err(e);
            },
        }
        proof {
            lemma_push_contains(one.columns, b, c);
            lemma_push_contains(one.columns, b, selector);
            lemma_push_contains(one.columns, b, instance);
            lemma_push_contains(one.columns, b, chip[0]);
            lemma_push_contains(one.columns, b, chip[1]);
            lemma_push_contains(one.columns, b, chip[2]);
            lemma_push_contains(one.columns, b, chip[3]);
        }
        let ghost two = meta@;
        match meta.register_column(c) {
            Ok(()) => {},
            Err(e) => {
                return Err(e);
            },
        }
        proof {
            lemma_push_contains(two.columns, c, selector);
            lemma_push_contains(two.columns, c, instance);
            lemma_push_contains(two.columns, c, chip[0]);
            lemma_push_contains(two.columns, c, chip[1]);
            lemma_push_contains(two.columns, c, chip[2]);
            lemma_push_contains(two.columns, c, chip[3]);
        }
        let ghost three = meta@;
        match meta.register_column(selector) {
            Ok(()) => {},
            Err(e) => {
                return Err(e);
            },
        }
        proof {
            lemma_push_contains(three.columns, selector, instance);
            lemma_push_contains(three.columns, selector, chip[0]);
            lemma_push_contains(three.columns, selector, chip[1]);
            lemma_push_contains(three.columns, selector, chip[2]);
            lemma_push_contains(three.columns, selector, chip[3]);
        }
        let ghost four = meta@;
        match meta.register_column(instance) {
            Ok(()) => {},
            Err(e) => {
                return Err(e);
            },
        }
        proof {
            lemma_push_contains(four.columns, instance, chip[0]);
            lemma_push_contains(four.columns, instance, chip[1]);
            lemma_push_contains(four.columns, instance, chip[2]);
            lemma_push_contains(four.columns, instance, chip[3]);
            assert(meta@.columns =~= start.columns + Self::own_columns());
            assert(meta@ == (Shape { columns: start.columns + Self::own_columns(), ..start }));
        }
        let xor_table = match XorChipConfig::configure(meta, a, b, c, n) {
            Ok(chip) => chip,
            Err(e) => {
                return Err(e);
            },
        };
        meta.enable_equality(a);
        meta.enable_equality(b);
        meta.enable_equality(c);
        meta.enable_equality(instance);
        let gate = Gate { selector, lhs: a.cur(), rhs: b.cur(), out: c.cur() };
        proof {
            let lookups = meta@.lookups;
            assert forall|i: int| 0 <= i < lookups.len() implies (#[trigger] lookups[i]).selector
                != selector by {
                if i < start.lookups.len() {
                    assert(lookups[i] == start.lookups[i]);
                }
            }
        }
        match meta.create_gate(gate) {
            Ok(()) => {},
            Err(e) => {
                return Err(e);
            },
        }
        proof {
            assert(meta@.columns[start.columns.len() as int] == a);
        }
        Ok(FibSquaredConfig { a, b, c, selector, instance, xor_table })
    }
}

} // verus!
