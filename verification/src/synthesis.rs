//! Witness synthesis: the orchestrator that lays the recurrence out, one
//! region to a row, from the two public starting values to the cell that is
//! bound to the public result.

use crate::column::Column;
use crate::constraint_system::square_sum;
use crate::error::{AssignmentError, ConfigurationError, Error, ParseError};
use crate::fib_squared::{reference_value, witness_value, xor_squares, FibSquaredConfig};
use crate::field::{decimal_value, is_decimal, modulus, FieldElement};
use crate::region::{Assignment, Cell, CellRef, CopyConstraint, Region, RegionAssigner};
use crate::xor_chip::is_xor_table;
use vstd::arithmetic::div_mod::lemma_add_mod_noop;
use vstd::prelude::*;

verus! {

/// What a session lays out: the circuit, the public instance, and the
/// counts of square-sum and exclusive-or steps.
pub struct Session {
    pub config: FibSquaredConfig,
    pub instance: Seq<FieldElement>,
    pub m1: nat,
    pub m2: nat,
}

impl Session {
    /// The `k`-th value of the session's recurrence.
    pub open spec fn value(self, k: nat) -> nat {
        witness_value(self.instance[0]@, self.instance[1]@, self.m1, k)
    }

    /// The advice column that holds the `i`-th cell of every row.
    pub open spec fn column(self, i: int) -> Column {
        if i == 0 {
            self.config.a
        } else if i == 1 {
            self.config.b
        } else {
            self.config.c
        }
    }

    /// The name of the region that holds row `r`.
    pub open spec fn region_name(self, r: int) -> Seq<char> {
        if r == 0 {
            "first row"@
        } else if r < self.m1 {
            "region"@
        } else {
            "xor_region"@
        }
    }

    /// The selector that is switched on in row `r`.
    pub open spec fn selector(self, r: int) -> Column {
        if r < self.m1 {
            self.config.selector
        } else {
            self.config.xor_table.selector
        }
    }

    /// Cell `k` of the arena lies in row `k / 3`, in the column that its
    /// place in the row gives it, and holds the recurrence's value for that
    /// place: a row holds three values that follow one another.
    pub open spec fn is_cell(self, cell: Cell, k: int) -> bool {
        &&& cell.column == self.column(k % 3)
        &&& cell.row == k / 3
        &&& cell.value@ == self.value((k / 3 + k % 3) as nat)
    }

    /// Region `r` holds row `r`: three cells, one selector, and, but for
    /// the first row, two copy constraints.
    pub open spec fn is_region(self, region: Region, r: int) -> bool {
        &&& region.name@ == self.region_name(r)
        &&& region.first_cell == 3 * r
        &&& region.first_activation == r
        &&& region.first_copy == if r == 0 {
            0
        } else {
            2 * (r - 1)
        }
    }

    /// Copy constraint `k` ties a cell of one row to the cell one column to
    /// its left in the next row: the second cell to the first, and the third
    /// to the second.
    pub open spec fn is_copy(self, copy: CopyConstraint, k: int) -> bool {
        &&& copy.left.index == 3 * (k / 2) + 1 + k % 2
        &&& copy.right.index == 3 * (k / 2) + 3 + k % 2
    }

    /// Whether `record` holds exactly the first `rows` rows of the session,
    /// and, where `bound`, the binding of the last cell to the third public
    /// value.
    pub open spec fn laid_out(self, record: Assignment, rows: nat, bound: bool) -> bool {
        &&& record.instance == self.instance
        &&& is_xor_table(record.table, self.config.xor_table.bound as nat)
        &&& record.regions.len() == rows
        &&& forall|r: int|
            0 <= r < record.regions.len() ==> self.is_region(#[trigger] record.regions[r], r)
        &&& record.cells.len() == 3 * rows
        &&& forall|k: int| 0 <= k < record.cells.len() ==> self.is_cell(#[trigger] record.cells[k], k)
        &&& record.activations.len() == rows
        &&& forall|r: int|
            0 <= r < record.activations.len() ==> #[trigger] record.activations[r].selector
                == self.selector(r) && record.activations[r].row == r
        &&& record.copies.len() == if rows == 0 {
            0
        } else {
            2 * (rows - 1)
        }
        &&& forall|k: int|
            0 <= k < record.copies.len() ==> self.is_copy(#[trigger] record.copies[k], k)
        &&& record.bindings.len() == if rows == 0 {
            0nat
        } else if bound {
            3nat
        } else {
            2nat
        }
        &&& forall|k: int|
            0 <= k < record.bindings.len() ==> (#[trigger] record.bindings[k]).index == k
                && record.bindings[k].cell.index == if k < 2 {
                k
            } else {
                3 * rows - 1
            }
    }

    /// The three advice columns differ from one another.
    pub open spec fn columns_distinct(self) -> bool {
        self.config.a != self.config.b && self.config.a != self.config.c && self.config.b
            != self.config.c
    }
}

/// The last two cells of the row laid out last, which the next row copies.
#[derive(Clone, Copy, Debug)]
struct Tail {
    b: CellRef,
    b_value: FieldElement,
    c: CellRef,
    c_value: FieldElement,
}

impl Tail {
    /// Whether the tail names the second and third cells of row `row` of
    /// `record`, with their values.
    spec fn of_row(self, record: Assignment, row: int) -> bool {
        &&& self.b.index == 3 * row + 1
        &&& self.c.index == 3 * row + 2
        &&& self.b_value == record.cells[3 * row + 1].value
        &&& self.c_value == record.cells[3 * row + 2].value
    }
}

/// The witness of a square-sum row: `a * a + b * b` in the field.
fn square_sum_witness(a: &FieldElement, b: &FieldElement) -> (out: FieldElement)
    ensures
        out@ == square_sum(a@, b@),
{
    let x_sq = a.mul(a);
    let y_sq = b.mul(b);
    proof {
        lemma_add_mod_noop((a@ * a@) as int, (b@ * b@) as int, modulus() as int);
    }
    x_sq.add(&y_sq)
}

/// The witness of an exclusive-or row: `a * a ⊕ b * b`.
fn xor_witness(a: &FieldElement, b: &FieldElement) -> (out: FieldElement)
    ensures
        out@ == xor_squares(a@, b@),
{
    let x_sq = a.mul(a);
    let y_sq = b.mul(b);
    x_sq.xor(&y_sq)
}

/// Lays out the first row: the two public starting values and the square
/// sum of the two, under the square-sum gate.
fn lay_first_row(
    layouter: &mut RegionAssigner,
    config: &FibSquaredConfig,
    Ghost(session): Ghost<Session>,
) -> (last: Result<Tail, AssignmentError>)
    requires
        session.config == *config,
        session.columns_distinct(),
        session.m1 >= 1,
        session.instance.len() >= 3,
        session.laid_out(old(layouter)@, 0, false),
        old(layouter)@.well_formed(),
    ensures
        last is Ok,
        session.laid_out(final(layouter)@, 1, false),
        final(layouter)@.well_formed(),
        last matches Ok(tail) ==> tail.of_row(final(layouter)@, 0),
{
    layouter.begin_region("first row");
    let a = match layouter.assign_from_instance(config.a, 0, 0) {
        Ok(cell) => cell,
        Err(e) => {
            return Err(e);
        },
    };
    let ghost after_a = layouter@;
    proof {
        assert(!after_a.assigned(config.b, 0)) by {
            assert(after_a.cells.len() == 1);
        }
    }
    let b = match layouter.assign_from_instance(config.b, 1, 0) {
        Ok(cell) => cell,
        Err(e) => {
            return Err(e);
        },
    };
    let a_value = layouter.instance()[0];
    let b_value = layouter.instance()[1];
    let out_value = square_sum_witness(&a_value, &b_value);
    proof {
        assert(layouter@.cells.len() == 2);
        assert(!layouter@.assigned(config.c, 0));
    }
    let out = match layouter.assign(config.c, 0, out_value) {
        Ok(cell) => cell,
        Err(e) => {
            return Err(e);
        },
    };
    layouter.enable_selector(config.selector, 0);
    proof {
        assert(session.value(2) == square_sum(session.value(0), session.value(1)));
    }
    Ok(Tail { b, b_value, c: out, c_value: out_value })
}

/// Lays out one further row: the last row's second and third cells copied
/// into this row's first and second, and the step's result beside them,
/// under the constraint that holds for the row.
fn lay_step(
    layouter: &mut RegionAssigner,
    config: &FibSquaredConfig,
    row: usize,
    square: bool,
    tail: Tail,
    Ghost(session): Ghost<Session>,
) -> (last: Result<Tail, AssignmentError>)
    requires
        session.config == *config,
        session.columns_distinct(),
        row >= 1,
        square == (row < session.m1),
        session.laid_out(old(layouter)@, row as nat, false),
        old(layouter)@.well_formed(),
        tail.of_row(old(layouter)@, row - 1),
    ensures
        last is Ok,
        session.laid_out(final(layouter)@, (row + 1) as nat, false),
        final(layouter)@.well_formed(),
        last matches Ok(next) ==> next.of_row(final(layouter)@, row as int),
{
    let b = tail.b;
    let c = tail.c;
    let b_value = tail.b_value;
    let c_value = tail.c_value;
    let ghost start = layouter@;
    proof {
        assert forall|k: int| 0 <= k < start.cells.len() implies (#[trigger] start.cells[k]).row
            < row by {
            assert(session.is_cell(start.cells[k], k));
        }
        assert(session.is_cell(start.cells[3 * row - 2], 3 * row - 2));
        assert(session.is_cell(start.cells[3 * row - 1], 3 * row - 1));
    }
    if square {
        layouter.begin_region("region");
        layouter.enable_selector(config.selector, row);
    } else {
        layouter.begin_region("xor_region");
        layouter.enable_selector(config.xor_table.selector, row);
    }
    let first = match layouter.assign(config.a, row, b_value) {
        Ok(cell) => cell,
        Err(e) => {
            return Err(e);
        },
    };
    match layouter.copy(b, first) {
        Ok(()) => {},
        Err(e) => {
            return Err(e);
        },
    }
    proof {
        let cells = layouter@.cells;
        assert forall|k: int| 0 <= k < cells.len() implies !((#[trigger] cells[k]).column
            == config.b && cells[k].row == row) by {
            if k < start.cells.len() {
                assert(cells[k] == start.cells[k]);
            }
        }
    }
    let second = match layouter.assign(config.b, row, c_value) {
        Ok(cell) => cell,
        Err(e) => {
            return Err(e);
        },
    };
    match layouter.copy(c, second) {
        Ok(()) => {},
        Err(e) => {
            return Err(e);
        },
    }
    let out_value = if square {
        square_sum_witness(&b_value, &c_value)
    } else {
        xor_witness(&b_value, &c_value)
    };
    proof {
        let cells = layouter@.cells;
        assert forall|k: int| 0 <= k < cells.len() implies !((#[trigger] cells[k]).column
            == config.c && cells[k].row == row) by {
            if k < start.cells.len() {
                assert(cells[k] == start.cells[k]);
            }
        }
    }
    let out = match layouter.assign(config.c, row, out_value) {
        Ok(cell) => cell,
        Err(e) => {
            return Err(e);
        },
    };
    proof {
        let end = layouter@;
        let x = session.value(row as nat);
        let y = session.value((row + 1) as nat);
        assert(session.value((row + 2) as nat) == if row < session.m1 {
            square_sum(x, y)
        } else {
            xor_squares(x, y)
        });
        assert forall|k: int| 0 <= k < end.cells.len() implies session.is_cell(
            #[trigger] end.cells[k],
            k,
        ) by {
            if k < start.cells.len() {
                assert(end.cells[k] == start.cells[k]);
            }
        }
        assert forall|r: int| 0 <= r < end.regions.len() implies session.is_region(
            #[trigger] end.regions[r],
            r,
        ) by {
            if r < start.regions.len() {
                assert(end.regions[r] == end.regions.drop_last()[r]);
            }
        }
        assert forall|r: int| 0 <= r < end.activations.len() implies #[trigger] end.activations[r].selector
            == session.selector(r) && end.activations[r].row == r by {
            if r < start.activations.len() {
                assert(end.activations[r] == start.activations[r]);
            }
        }
        assert forall|k: int| 0 <= k < end.copies.len() implies session.is_copy(
            #[trigger] end.copies[k],
            k,
        ) by {
            if k < start.copies.len() {
                assert(end.copies[k] == start.copies[k]);
            }
        }
    }
    Ok(Tail { b: second, b_value: c_value, c: out, c_value: out_value })
}

/// Where a session stands. A session moves through the phases in this order
/// and stays in the last.
#[derive(Clone, Copy, Debug, PartialEq, Eq, Structural)]
pub enum Phase {
    /// Nothing is laid out yet.
    Init,
    /// The first row is laid out.
    FirstRow,
    /// All square-sum rows are laid out.
    SquarePhase,
    /// All exclusive-or rows are laid out.
    XorPhase,
    /// The last cell is bound to the public result.
    Finalize,
    /// The session is over: no further region is opened.
    Done,
}

impl Phase {
    /// The phase that follows this one.
    pub open spec fn spec_next(self) -> Phase {
        match self {
            Phase::Init => Phase::FirstRow,
            Phase::FirstRow => Phase::SquarePhase,
            Phase::SquarePhase => Phase::XorPhase,
            Phase::XorPhase => Phase::Finalize,
            Phase::Finalize => Phase::Done,
            Phase::Done => Phase::Done,
        }
    }

    /// The phase that follows this one.
    #[verifier::when_used_as_spec(spec_next)]
    pub fn next(self) -> (following: Phase)
        ensures
            following == self.spec_next(),
    {
        match self {
            Phase::Init => Phase::FirstRow,
            Phase::FirstRow => Phase::SquarePhase,
            Phase::SquarePhase => Phase::XorPhase,
            Phase::XorPhase => Phase::Finalize,
            Phase::Finalize => Phase::Done,
            Phase::Done => Phase::Done,
        }
    }

    /// The number of rows that are laid out once this phase is reached.
    pub open spec fn rows(self, m1: nat, m2: nat) -> nat {
        match self {
            Phase::Init => 0,
            Phase::FirstRow => 1,
            Phase::SquarePhase => m1,
            _ => m1 + m2,
        }
    }

    /// Whether the last cell is bound to the public result once this phase
    /// is reached.
    pub open spec fn bound(self) -> bool {
        self == Phase::Finalize || self == Phase::Done
    }
}

/// Why no session can be opened, if none can: the step counts describe no
/// circuit, two of the advice columns are one, the instance holds fewer than
/// its three values, or the lookup table is too large. The first of these
/// that holds is the one reported.
pub open spec fn refusal(config: FibSquaredConfig, instance_len: nat, m1: usize, m2: usize) -> Option<
    Error,
> {
    if m1 == 0 || m1 + m2 > usize::MAX {
        Some(Error::Configuration(ConfigurationError::InvalidStepCounts(m1, m2)))
    } else if config.a == config.b {
        Some(Error::Configuration(ConfigurationError::DuplicateColumn(config.b)))
    } else if config.c == config.a || config.c == config.b {
        Some(Error::Configuration(ConfigurationError::DuplicateColumn(config.c)))
    } else if instance_len < 3 {
        Some(Error::Assignment(AssignmentError::UnassignedInstance(instance_len as usize)))
    } else if config.xor_table.bound * config.xor_table.bound > usize::MAX {
        Some(Error::Configuration(ConfigurationError::TableTooLarge(config.xor_table.bound)))
    } else {
        None
    }
}

/// The orchestrator of one session: it drives the region assigner through
/// the phases, one transition at a time.
pub struct Orchestrator {
    config: FibSquaredConfig,
    layouter: RegionAssigner,
    phase: Phase,
    m1: usize,
    m2: usize,
    tail: Tail,
}

impl Orchestrator {
    /// What the session lays out.
    pub closed spec fn session(&self) -> Session {
        Session {
            config: self.config,
            instance: self.layouter@.instance,
            m1: self.m1 as nat,
            m2: self.m2 as nat,
        }
    }

    /// The phase that the session has reached.
    pub closed spec fn spec_phase(&self) -> Phase {
        self.phase
    }

    /// What the session has recorded so far.
    pub closed spec fn record(&self) -> Assignment {
        self.layouter@
    }

    /// The record holds exactly the rows of the phase that was reached, and
    /// no cell in it was written twice.
    pub open spec fn in_order(&self) -> bool {
        &&& self.session().laid_out(
            self.record(),
            self.spec_phase().rows(self.session().m1, self.session().m2),
            self.spec_phase().bound(),
        )
        &&& self.record().well_formed()
    }

    /// What holds of an orchestrator between any two transitions.
    pub closed spec fn well_formed(&self) -> bool {
        &&& self.m1 >= 1
        &&& self.m1 + self.m2 <= usize::MAX
        &&& self.session().columns_distinct()
        &&& self.layouter@.instance.len() >= 3
        &&& self.in_order()
        &&& self.phase != Phase::Init ==> self.tail.of_row(
            self.layouter@,
            self.phase.rows(self.m1 as nat, self.m2 as nat) - 1,
        )
    }

    /// Opens a session: checks the step counts, the circuit's columns and
    /// the instance, and loads the lookup table. No region is opened yet.
    pub fn new(config: FibSquaredConfig, instance: Vec<FieldElement>, m1: usize, m2: usize) -> (opened:
        Result<Orchestrator, Error>)
        ensures
            match opened {
                Ok(orchestrator) => {
                    &&& refusal(config, instance@.len(), m1, m2) is None
                    &&& orchestrator.well_formed()
                    &&& orchestrator.in_order()
                    &&& orchestrator.spec_phase() == Phase::Init
                    &&& orchestrator.session() == (Session {
                        config,
                        instance: instance@,
                        m1: m1 as nat,
                        m2: m2 as nat,
                    })
                },
                Err(e) => refusal(config, instance@.len(), m1, m2) == Some(e),
            },
    {
        if m1 == 0 || m1.checked_add(m2).is_none() {
            return Err(Error::Configuration(ConfigurationError::InvalidStepCounts(m1, m2)));
        }
        if config.a == config.b {
            return Err(Error::Configuration(ConfigurationError::DuplicateColumn(config.b)));
        }
        if config.c == config.a || config.c == config.b {
            return Err(Error::Configuration(ConfigurationError::DuplicateColumn(config.c)));
        }
        if instance.len() < 3 {
            return Err(Error::Assignment(AssignmentError::UnassignedInstance(instance.len())));
        }
        let first = instance[0];
        let second = instance[1];
        let mut layouter = RegionAssigner::new(instance);
        match config.xor_table.load(&mut layouter) {
            Ok(()) => {},
            Err(e) => {
                return Err(Error::Configuration(e));
            },
        }
        let tail = Tail {
            b: CellRef { index: 0 },
            b_value: first,
            c: CellRef { index: 0 },
            c_value: second,
        };
        Ok(Orchestrator { config, layouter, phase: Phase::Init, m1, m2, tail })
    }

    /// The phase that the session has reached.
    #[verifier::when_used_as_spec(spec_phase)]
    pub fn phase(&self) -> (phase: Phase)
        ensures
            phase == self.spec_phase(),
    {
        self.phase
    }

    /// Makes the next transition: lays out the first row, the remaining
    /// square-sum rows or the exclusive-or rows, binds the last cell to the
    /// third public value, or closes the session. A session that is over
    /// stays as it is. No transition writes a cell twice, so none fails.
    pub fn advance(&mut self) -> (advanced: Result<(), AssignmentError>)
        requires
            old(self).well_formed(),
        ensures
            advanced is Ok,
            final(self).well_formed(),
            final(self).in_order(),
            final(self).session() == old(self).session(),
            final(self).spec_phase() == old(self).spec_phase().spec_next(),
            old(self).spec_phase().bound() ==> final(self).record() == old(self).record(),
    {
        let ghost session = self.session();
        match self.phase {
            Phase::Init => {
                let tail = match lay_first_row(&mut self.layouter, &self.config, Ghost(session)) {
                    Ok(tail) => tail,
                    Err(e) => {
                        return Err(e);
                    },
                };
                self.tail = tail;
                self.phase = Phase::FirstRow;
            },
            Phase::FirstRow => {
                let mut row: usize = 1;
                let mut tail = self.tail;
                while row < self.m1
                    invariant
                        1 <= row <= self.m1,
                        self.m1 + self.m2 <= usize::MAX,
                        self.session() == session,
                        session.columns_distinct(),
                        session.laid_out(self.layouter@, row as nat, false),
                        self.layouter@.well_formed(),
                        tail.of_row(self.layouter@, row - 1),
                        self.phase == Phase::FirstRow,
                        self.layouter@.instance.len() >= 3,
                    decreases self.m1 - row,
                {
                    tail =
                    match lay_step(&mut self.layouter, &self.config, row, true, tail, Ghost(session)) {
                        Ok(next) => next,
                        Err(e) => {
                            return Err(e);
                        },
                    };
                    row += 1;
                }
                self.tail = tail;
                self.phase = Phase::SquarePhase;
            },
            Phase::SquarePhase => {
                let rows = self.m1 + self.m2;
                let mut row: usize = self.m1;
                let mut tail = self.tail;
                while row < rows
                    invariant
                        1 <= self.m1 <= row <= rows,
                        rows == self.m1 + self.m2,
                        self.session() == session,
                        session.columns_distinct(),
                        session.laid_out(self.layouter@, row as nat, false),
                        self.layouter@.well_formed(),
                        tail.of_row(self.layouter@, row - 1),
                        self.phase == Phase::SquarePhase,
                        self.layouter@.instance.len() >= 3,
                    decreases rows - row,
                {
                    tail =
                    match lay_step(&mut self.layouter, &self.config, row, false, tail, Ghost(session)) {
                        Ok(next) => next,
                        Err(e) => {
                            return Err(e);
                        },
                    };
                    row += 1;
                }
                self.tail = tail;
                self.phase = Phase::XorPhase;
            },
            Phase::XorPhase => {
                match self.layouter.constrain_instance(self.tail.c, 2) {
                    Ok(()) => {},
                    Err(e) => {
                        return Err(e);
                    },
                }
                self.phase = Phase::Finalize;
            },
            Phase::Finalize => {
                self.phase = Phase::Done;
            },
            Phase::Done => {},
        }
        Ok(())
    }

    /// Ends the session and hands out what it has recorded.
    pub fn finish(self) -> (record: RegionAssigner)
        ensures
            record@ == self.record(),
    {
        self.layouter
    }
}

/// Synthesizes the whole witness: opens a session over the public instance
/// `[a0, b0, expected result]` and drives it through every phase. The
/// record that comes back holds `m1 + m2` rows, the first `m1` of them
/// square-sum rows, and the binding of the last cell to the third public
/// value.
pub fn synthesize(config: FibSquaredConfig, instance: Vec<FieldElement>, m1: usize, m2: usize) -> (
    synthesized: Result<RegionAssigner, Error>)
    ensures
        match synthesized {
            Ok(record) => {
                &&& refusal(config, instance@.len(), m1, m2) is None
                &&& (Session { config, instance: instance@, m1: m1 as nat, m2: m2 as nat }).laid_out(
                    record@,
                    (m1 + m2) as nat,
                    true,
                )
                &&& record@.well_formed()
                &&& record@.cells.last().value@ == reference_value(
                    instance@[0]@,
                    instance@[1]@,
                    m1 as nat,
                    m2 as nat,
                )
            },
            Err(e) => refusal(config, instance@.len(), m1, m2) == Some(e),
        },
{
    let mut orchestrator = match Orchestrator::new(config, instance, m1, m2) {
        Ok(orchestrator) => orchestrator,
        Err(e) => {
            return Err(e);
        },
    };
    let mut steps: usize = 0;
    while steps < 5
        invariant
            steps <= 5,
            orchestrator.well_formed(),
            orchestrator.session() == (Session {
                config,
                instance: instance@,
                m1: m1 as nat,
                m2: m2 as nat,
            }),
            refusal(config, instance@.len(), m1, m2) is None,
            orchestrator.spec_phase() == match steps {
                0 => Phase::Init,
                1 => Phase::FirstRow,
                2 => Phase::SquarePhase,
                3 => Phase::XorPhase,
                4 => Phase::Finalize,
                _ => Phase::Done,
            },
        decreases 5 - steps,
    {
        match orchestrator.advance() {
            Ok(()) => {},
            Err(e) => {
                return Err(Error::Assignment(e));
            },
        }
        steps += 1;
    }
    proof {
        orchestrator.session().lemma_output_is_reference(orchestrator.record(), true);
    }
    Ok(orchestrator.finish())
}

/// Synthesizes the whole witness from the public instance as it is written:
/// three numbers in canonical decimal form, the two starting values and the
/// expected result. A string that is no such number ends the session before
/// anything is laid out.
pub fn synthesize_from_strings(
    config: FibSquaredConfig,
    a0: &str,
    b0: &str,
    expected: &str,
    m1: usize,
    m2: usize,
) -> (synthesized: Result<RegionAssigner, Error>)
    ensures
        !(is_decimal(a0@) && is_decimal(b0@) && is_decimal(expected@)) ==> synthesized == Err::<
            RegionAssigner,
            Error,
        >(Error::Parse(ParseError {  })),
        is_decimal(a0@) && is_decimal(b0@) && is_decimal(expected@) ==> match synthesized {
            Ok(record) => {
                &&& refusal(config, 3, m1, m2) is None
                &&& record@.instance.len() == 3
                &&& record@.instance[0]@ == decimal_value(a0@) % modulus()
                &&& record@.instance[1]@ == decimal_value(b0@) % modulus()
                &&& record@.instance[2]@ == decimal_value(expected@) % modulus()
                &&& (Session {
                    config,
                    instance: record@.instance,
                    m1: m1 as nat,
                    m2: m2 as nat,
                }).laid_out(record@, (m1 + m2) as nat, true)
                &&& record@.well_formed()
                &&& record@.cells.last().value@ == reference_value(
                    decimal_value(a0@) % modulus(),
                    decimal_value(b0@) % modulus(),
                    m1 as nat,
                    m2 as nat,
                )
            },
            Err(e) => refusal(config, 3, m1, m2) == Some(e),
        },
{
    let first = match FieldElement::from_canonical_string(a0) {
        Ok(element) => element,
        Err(e) => {
            return Err(Error::Parse(e));
        },
    };
    let second = match FieldElement::from_canonical_string(b0) {
        Ok(element) => element,
        Err(e) => {
            return Err(Error::Parse(e));
        },
    };
    let third = match FieldElement::from_canonical_string(expected) {
        Ok(element) => element,
        Err(e) => {
            return Err(Error::Parse(e));
        },
    };
    let mut instance: Vec<FieldElement> = Vec::new();
    instance.push(first);
    instance.push(second);
    instance.push(third);
    synthesize(config, instance, m1, m2)
}

} // verus!
