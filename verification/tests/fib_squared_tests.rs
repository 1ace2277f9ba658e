use plonkish::column::{Column, ColumnKind};
use plonkish::constraint_system::{ConstraintSystem, Gate};
use plonkish::error::ConfigurationError;
use plonkish::fib_squared::{fib_squared, square_sum_step, xor_step, FibSquaredConfig};
use plonkish::field::FieldElement;

fn fe(v: u128) -> FieldElement {
    FieldElement::from_u128(v)
}

fn parse(s: &str) -> FieldElement {
    FieldElement::from_canonical_string(s).unwrap()
}

fn column(kind: ColumnKind, index: usize) -> Column {
    Column::new(kind, index)
}

#[test]
fn the_circuit_registers_its_whole_shape() {
    let mut meta = ConstraintSystem::new();
    let config = FibSquaredConfig::configure(&mut meta, 16).unwrap();
    let a = column(ColumnKind::Advice, 0);
    let b = column(ColumnKind::Advice, 1);
    let c = column(ColumnKind::Advice, 2);
    let selector = column(ColumnKind::Selector, 0);
    let instance = column(ColumnKind::Instance, 0);
    assert_eq!((config.a, config.b, config.c), (a, b, c));
    assert_eq!(config.selector, selector);
    assert_eq!(config.instance, instance);
    assert_eq!(config.xor_table.selector, column(ColumnKind::Selector, 1));
    assert_eq!(config.xor_table.bound, 16);
    assert_eq!(
        meta.columns(),
        &vec![
            a,
            b,
            c,
            selector,
            instance,
            column(ColumnKind::LookupTable, 0),
            column(ColumnKind::LookupTable, 1),
            column(ColumnKind::LookupTable, 2),
            column(ColumnKind::Selector, 1),
        ]
    );
    assert_eq!(meta.equality_columns(), &vec![a, b, c, instance]);
    assert_eq!(
        meta.gates(),
        &vec![Gate { selector, lhs: a.cur(), rhs: b.cur(), out: c.cur() }]
    );
    assert_eq!(meta.lookups().len(), 1);
    assert_eq!(meta.lookups()[0].selector, config.xor_table.selector);
    assert_eq!(meta.lookups()[0].lhs.input, a.cur());
    assert_eq!(meta.lookups()[0].rhs.input, b.cur());
    assert_eq!(meta.lookups()[0].out.input, c.cur());
}

#[test]
fn the_circuit_is_registered_once() {
    let mut meta = ConstraintSystem::new();
    FibSquaredConfig::configure(&mut meta, 16).unwrap();
    assert_eq!(
        FibSquaredConfig::configure(&mut meta, 16),
        Err(ConfigurationError::DuplicateColumn(column(ColumnKind::Advice, 0)))
    );
    assert_eq!(meta.columns().len(), 9);
    assert_eq!(meta.gates().len(), 1);
    assert_eq!(meta.lookups().len(), 1);
}

#[test]
fn a_refused_circuit_leaves_the_registry_alone() {
    let mut meta = ConstraintSystem::new();
    let taken = column(ColumnKind::LookupTable, 2);
    meta.register_column(taken).unwrap();
    assert_eq!(
        FibSquaredConfig::configure(&mut meta, 16),
        Err(ConfigurationError::DuplicateColumn(taken))
    );
    assert_eq!(meta.columns(), &vec![taken]);
    assert!(meta.equality_columns().is_empty());
    assert!(meta.gates().is_empty());

    let mut other = ConstraintSystem::new();
    assert_eq!(
        FibSquaredConfig::configure(&mut other, usize::MAX),
        Err(ConfigurationError::TableTooLarge(usize::MAX))
    );
    assert!(other.columns().is_empty());

    let mut guarded = ConstraintSystem::new();
    let selector = column(ColumnKind::Selector, 0);
    let a = column(ColumnKind::Advice, 7);
    guarded.create_gate(Gate { selector, lhs: a.cur(), rhs: a.cur(), out: a.cur() }).unwrap();
    assert_eq!(
        FibSquaredConfig::configure(&mut guarded, 16),
        Err(ConfigurationError::DuplicateGate(selector))
    );
    assert!(guarded.columns().is_empty());
}

#[test]
fn one_step_of_each_kind() {
    assert_eq!(square_sum_step(&fe(2), &fe(5)), fe(29));
    assert_eq!(square_sum_step(&fe(0), &fe(0)), fe(0));
    // 2² ⊕ 5² = 4 ⊕ 25 = 29, 3² ⊕ 13² = 9 ⊕ 169 = 160
    assert_eq!(xor_step(&fe(2), &fe(5)), fe(29));
    assert_eq!(xor_step(&fe(3), &fe(13)), fe(160));
    assert_eq!(xor_step(&fe(6), &fe(6)), fe(0));
}

#[test]
fn the_square_sum_phase_is_the_squared_fibonacci_recurrence() {
    let expected: [u128; 8] = [1, 1, 2, 5, 29, 866, 750797, 563696885165];
    for (steps, value) in expected.iter().enumerate() {
        assert_eq!(fib_squared(fe(0), fe(1), steps, 0), fe(*value), "after {} steps", steps);
    }
    assert_eq!(fib_squared(fe(0), fe(1), 8, 0), parse("317754178345286893212434"));
    assert_eq!(
        fib_squared(fe(0), fe(1), 9, 0),
        parse("100967717855888389973004846476977145423449281581")
    );
}

#[test]
fn the_exclusive_or_phase_continues_from_the_square_sums() {
    assert_eq!(fib_squared(fe(2), fe(3), 1, 1), fe(160));
    assert_eq!(fib_squared(fe(1), fe(1), 1, 2), fe(29));
    assert_eq!(fib_squared(fe(0), fe(1), 1, 1), fe(0));
    assert_eq!(
        fib_squared(fe(0), fe(1), 9, 1),
        parse("140402644517168966510152142269756128056")
    );
    assert_eq!(
        fib_squared(fe(0), fe(1), 9, 9),
        parse("88883007004721361553032625073148281919")
    );
}

#[test]
fn no_steps_leave_the_second_value() {
    assert_eq!(fib_squared(fe(4), fe(9), 0, 0), fe(9));
    assert_eq!(fib_squared(fe(4), fe(9), 0, 1), fe(16 ^ 81));
}

#[test]
fn a_circuit_alone_is_refused_only_for_its_table() {
    let (meta, config) = FibSquaredConfig::configure_alone(0).unwrap();
    assert_eq!(config.xor_table.bound, 0);
    assert_eq!(meta.columns().len(), 9);
    let mut by_hand = ConstraintSystem::new();
    assert_eq!(FibSquaredConfig::configure(&mut by_hand, 0), Ok(config));
    assert_eq!(by_hand.columns(), meta.columns());
    assert_eq!(by_hand.gates(), meta.gates());
    assert_eq!(by_hand.lookups(), meta.lookups());
    assert_eq!(by_hand.equality_columns(), meta.equality_columns());
    let largest = (usize::MAX as f64).sqrt() as usize;
    assert!(FibSquaredConfig::configure_alone(largest / 2).is_ok());
    assert_eq!(
        FibSquaredConfig::configure_alone(usize::MAX / 2).err(),
        Some(ConfigurationError::TableTooLarge(usize::MAX / 2))
    );
}
