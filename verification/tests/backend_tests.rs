use halo2_proofs::circuit::{Cell, Layouter, SimpleFloorPlanner, Value};
use halo2_proofs::dev::{FailureLocation, MockProver, VerifyFailure};
use halo2_proofs::pasta::group::ff::PrimeField;
use halo2_proofs::pasta::Fp;
use halo2_proofs::plonk;
use halo2_proofs::poly::Rotation;
use plonkish::column::{Column, ColumnKind};
use plonkish::constraint_system::ConstraintSystem;
use plonkish::error::{Location, Verdict, VerificationFailure};
use plonkish::fib_squared::{fib_squared, FibSquaredConfig};
use plonkish::field::FieldElement;
use plonkish::synthesis::synthesize;

fn fe(v: u128) -> FieldElement {
    FieldElement::from_u128(v)
}

fn fp(element: &FieldElement) -> Fp {
    Fp::from_repr(element.to_bytes()).unwrap()
}

/// The columns of the backend that stand for the columns of a shape.
#[derive(Clone, Debug)]
struct Grid {
    circuit: FibSquaredConfig,
    advice: Vec<(Column, plonk::Column<plonk::Advice>)>,
    instance: Vec<(Column, plonk::Column<plonk::Instance>)>,
    selectors: Vec<(Column, plonk::Selector)>,
    tables: Vec<(Column, plonk::TableColumn)>,
}

fn find<T: Copy>(pairs: &[(Column, T)], column: Column) -> T {
    pairs.iter().find(|(c, _)| *c == column).map(|(_, t)| *t).unwrap()
}

/// A session of the circuit with lookup bound `N`, handed to the backend.
struct Session<const N: usize> {
    instance: Vec<FieldElement>,
    m1: usize,
    m2: usize,
}

impl<const N: usize> plonk::Circuit<Fp> for Session<N> {
    type Config = Grid;
    type FloorPlanner = SimpleFloorPlanner;

    fn without_witnesses(&self) -> Self {
        Session { instance: self.instance.clone(), m1: self.m1, m2: self.m2 }
    }

    fn configure(meta: &mut plonk::ConstraintSystem<Fp>) -> Grid {
        let mut shape = ConstraintSystem::new();
        let circuit = FibSquaredConfig::configure(&mut shape, N).unwrap();
        let mut grid = Grid {
            circuit,
            advice: Vec::new(),
            instance: Vec::new(),
            selectors: Vec::new(),
            tables: Vec::new(),
        };
        for column in shape.columns() {
            match column.kind {
                ColumnKind::Advice => grid.advice.push((*column, meta.advice_column())),
                ColumnKind::Instance => grid.instance.push((*column, meta.instance_column())),
                ColumnKind::LookupTable => grid.tables.push((*column, meta.lookup_table_column())),
                ColumnKind::Selector => {
                    let guards_lookup = shape.lookups().iter().any(|l| l.selector == *column);
                    let selector =
                        if guards_lookup { meta.complex_selector() } else { meta.selector() };
                    grid.selectors.push((*column, selector));
                }
            }
        }
        for column in shape.equality_columns() {
            match column.kind {
                ColumnKind::Instance => meta.enable_equality(find(&grid.instance, *column)),
                _ => meta.enable_equality(find(&grid.advice, *column)),
            }
        }
        for gate in shape.gates() {
            let selector = find(&grid.selectors, gate.selector);
            let cells = [gate.lhs, gate.rhs, gate.out]
                .map(|q| (find(&grid.advice, q.column), Rotation(q.rotation)));
            meta.create_gate("square sum", |meta| {
                let [x, y, out] = cells.map(|(column, at)| meta.query_advice(column, at));
                let s = meta.query_selector(selector);
                vec![s * (x.square() + y.square() - out)]
            });
        }
        for lookup in shape.lookups() {
            let selector = find(&grid.selectors, lookup.selector);
            let pairs = [lookup.lhs, lookup.rhs, lookup.out].map(|p| {
                (find(&grid.advice, p.input.column), Rotation(p.input.rotation), find(&grid.tables, p.table))
            });
            meta.lookup(|meta| {
                let s = meta.query_selector(selector);
                pairs
                    .iter()
                    .map(|(column, at, table)| (s.clone() * meta.query_advice(*column, *at), *table))
                    .collect()
            });
        }
        grid
    }

    fn synthesize(&self, grid: Grid, mut layouter: impl Layouter<Fp>) -> Result<(), plonk::Error> {
        let record = synthesize(grid.circuit, self.instance.clone(), self.m1, self.m2)
            .map_err(|_| plonk::Error::Synthesis)?;
        let tables = grid.circuit.xor_table.table.map(|column| find(&grid.tables, column));
        layouter.assign_table(
            || "xor table",
            |mut table| {
                for (offset, row) in record.table().iter().enumerate() {
                    for (column, value) in tables.iter().zip([row.lhs, row.rhs, row.out]) {
                        table.assign_cell(|| "entry", *column, offset, || Value::known(fp(&value)))?;
                    }
                }
                Ok(())
            },
        )?;
        let regions = record.regions();
        let mut placed: Vec<Cell> = Vec::new();
        for (index, region) in regions.iter().enumerate() {
            let next = regions.get(index + 1);
            let cells = &record.cells()[region.first_cell..next.map_or(record.cells().len(), |n| n.first_cell)];
            let activations = &record.activations()
                [region.first_activation..next.map_or(record.activations().len(), |n| n.first_activation)];
            let copies =
                &record.copies()[region.first_copy..next.map_or(record.copies().len(), |n| n.first_copy)];
            let base = cells.first().map_or(0, |c| c.row);
            let added = layouter.assign_region(
                || region.name.clone(),
                |mut area| {
                    let mut added: Vec<Cell> = Vec::new();
                    for activation in activations {
                        find(&grid.selectors, activation.selector)
                            .enable(&mut area, activation.row - base)?;
                    }
                    for cell in cells {
                        let value = fp(&cell.value);
                        let assigned = area.assign_advice(
                            || "cell",
                            find(&grid.advice, cell.column),
                            cell.row - base,
                            || Value::known(value),
                        )?;
                        added.push(assigned.cell());
                    }
                    for copy in copies {
                        let at = |index: usize| {
                            if index < placed.len() {
                                placed[index]
                            } else {
                                added[index - placed.len()]
                            }
                        };
                        area.constrain_equal(at(copy.left.index), at(copy.right.index))?;
                    }
                    Ok(added)
                },
            )?;
            placed.extend(added);
        }
        for binding in record.bindings() {
            layouter.constrain_instance(
                placed[binding.cell.index],
                find(&grid.instance, grid.circuit.instance),
                binding.index,
            )?;
        }
        Ok(())
    }
}

fn place(location: &FailureLocation) -> Location {
    match location {
        FailureLocation::InRegion { offset, .. } => Location::Offset(*offset),
        FailureLocation::OutsideRegion { row } => Location::Row(*row),
    }
}

/// Asks the backend for its verdict on a session.
fn verdict<const N: usize>(instance: Vec<FieldElement>, m1: usize, m2: usize) -> Verdict {
    let public: Vec<Fp> = instance.iter().map(fp).collect();
    let session = Session::<N> { instance, m1, m2 };
    let prover = MockProver::run(10, &session, vec![public]).unwrap();
    match prover.verify() {
        Ok(()) => Verdict::Accept,
        Err(failures) => Verdict::Reject(match &failures[0] {
            VerifyFailure::Lookup { location, .. } => {
                VerificationFailure::LookupViolation(place(location))
            }
            VerifyFailure::ConstraintNotSatisfied { location, .. } => {
                VerificationFailure::ConstraintViolation(place(location))
            }
            VerifyFailure::Permutation { location, .. } => {
                VerificationFailure::ConstraintViolation(place(location))
            }
            _ => VerificationFailure::ConstraintViolation(Location::Unknown),
        }),
    }
}

#[test]
fn the_backend_accepts_the_square_sum_phase() {
    let expected = fib_squared(fe(0), fe(1), 9, 0);
    assert_eq!(verdict::<16>(vec![fe(0), fe(1), expected], 9, 0), Verdict::Accept);
}

#[test]
fn the_backend_rejects_another_public_result() {
    let off = fib_squared(fe(0), fe(1), 9, 0).add(&FieldElement::one());
    let answer = verdict::<16>(vec![fe(0), fe(1), off], 9, 0);
    assert!(matches!(answer, Verdict::Reject(VerificationFailure::ConstraintViolation(_))), "{:?}", answer);
    assert!(answer.into_result().is_err());
}

#[test]
fn the_backend_accepts_operands_inside_the_table() {
    // From 0 and 1 one square-sum step gives 1, and the exclusive-or steps
    // after it stay among 0 and 1, where a value is its own square.
    let expected = fib_squared(fe(0), fe(1), 1, 6);
    assert_eq!(verdict::<2>(vec![fe(0), fe(1), expected], 1, 6), Verdict::Accept);
    assert_eq!(verdict::<16>(vec![fe(0), fe(1), expected], 1, 6), Verdict::Accept);
}

#[test]
fn the_backend_rejects_an_operand_outside_the_table() {
    // 2, 3, 13, then 3² ⊕ 13²: laid out without complaint, and no row of
    // the table.
    let expected = fib_squared(fe(2), fe(3), 1, 1);
    assert_eq!(expected, fe(160));
    let answer = verdict::<16>(vec![fe(2), fe(3), expected], 1, 1);
    assert!(matches!(answer, Verdict::Reject(VerificationFailure::LookupViolation(_))), "{:?}", answer);
}

#[test]
fn the_backend_rejects_the_demonstrated_counts_at_the_lookup() {
    // After nine square-sum steps the operands have long left [0, 16).
    let expected = fib_squared(fe(0), fe(1), 9, 9);
    let answer = verdict::<16>(vec![fe(0), fe(1), expected], 9, 9);
    assert!(matches!(answer, Verdict::Reject(_)), "{:?}", answer);
    let off = expected.add(&FieldElement::one());
    assert!(matches!(verdict::<16>(vec![fe(0), fe(1), off], 9, 9), Verdict::Reject(_)));
}

#[test]
fn test_works() {
    let k = 16;
    let res = fib_squared(fe(0), fe(1), 9, 9);

    let circuit = Session::<10> { instance: vec![fe(0), fe(1), res], m1: 9, m2: 9 };
    let prover = MockProver::run(k, &circuit, vec![vec![fp(&fe(0)), fp(&fe(1)), fp(&res)]]).unwrap();
    // Every gate, every copy constraint and the public result are satisfied.
    // The operands of the exclusive-or rows lie far outside the table of
    // bound 10, so these rows, and no others, fail their lookup.
    let failures = prover.verify().unwrap_err();
    assert_eq!(failures.len(), 9);
    assert!(failures.iter().all(|f| matches!(f, VerifyFailure::Lookup { .. })), "{:?}", failures);
}
