use plonkish::column::{Column, ColumnKind, Query};
use plonkish::constraint_system::{ConstraintSystem, Gate, Lookup, LookupPair};
use plonkish::error::ConfigurationError;
use plonkish::field::FieldElement;

fn advice(index: usize) -> Column {
    Column::new(ColumnKind::Advice, index)
}

fn selector(index: usize) -> Column {
    Column::new(ColumnKind::Selector, index)
}

fn gate(guard: Column) -> Gate {
    Gate { selector: guard, lhs: advice(0).cur(), rhs: advice(1).cur(), out: advice(2).cur() }
}

fn lookup(guard: Column) -> Lookup {
    let table = |i| Column::new(ColumnKind::LookupTable, i);
    Lookup {
        selector: guard,
        lhs: LookupPair { input: advice(0).cur(), table: table(0) },
        rhs: LookupPair { input: advice(1).cur(), table: table(1) },
        out: LookupPair { input: advice(2).cur(), table: table(2) },
    }
}

#[test]
fn a_column_is_its_kind_and_number() {
    let column = Column::new(ColumnKind::Instance, 3);
    assert_eq!(column, Column { kind: ColumnKind::Instance, index: 3 });
    assert_ne!(column, Column::new(ColumnKind::Advice, 3));
    assert_ne!(column, Column::new(ColumnKind::Instance, 2));
    assert_eq!(column.cur(), Query { column, rotation: 0 });
}

#[test]
fn a_new_registry_is_empty() {
    let meta = ConstraintSystem::new();
    assert!(meta.columns().is_empty());
    assert!(meta.equality_columns().is_empty());
    assert!(meta.gates().is_empty());
    assert!(meta.lookups().is_empty());
    assert!(!meta.has_column(advice(0)));
    assert!(!meta.guards(selector(0)));
}

#[test]
fn columns_are_kept_in_the_order_of_registration() {
    let mut meta = ConstraintSystem::new();
    assert_eq!(meta.register_column(advice(1)), Ok(()));
    assert_eq!(meta.register_column(advice(0)), Ok(()));
    assert_eq!(meta.register_column(selector(0)), Ok(()));
    assert_eq!(meta.columns(), &vec![advice(1), advice(0), selector(0)]);
    assert!(meta.has_column(advice(0)));
    assert!(!meta.has_column(advice(2)));
}

#[test]
fn a_duplicate_column_is_refused() {
    let mut meta = ConstraintSystem::new();
    assert_eq!(meta.register_column(advice(0)), Ok(()));
    assert_eq!(
        meta.register_column(advice(0)),
        Err(ConfigurationError::DuplicateColumn(advice(0)))
    );
    assert_eq!(meta.columns(), &vec![advice(0)]);
    // The same number in another kind is another column.
    assert_eq!(meta.register_column(Column::new(ColumnKind::Instance, 0)), Ok(()));
}

#[test]
fn enabling_equality_twice_changes_nothing() {
    let mut meta = ConstraintSystem::new();
    meta.enable_equality(advice(0));
    meta.enable_equality(advice(1));
    meta.enable_equality(advice(0));
    assert_eq!(meta.equality_columns(), &vec![advice(0), advice(1)]);
}

#[test]
fn a_selector_guards_one_constraint() {
    let mut meta = ConstraintSystem::new();
    assert_eq!(meta.create_gate(gate(selector(0))), Ok(()));
    assert!(meta.guards(selector(0)));
    assert!(!meta.guards(selector(1)));
    assert_eq!(
        meta.create_gate(gate(selector(0))),
        Err(ConfigurationError::DuplicateGate(selector(0)))
    );
    assert_eq!(
        meta.lookup(lookup(selector(0))),
        Err(ConfigurationError::DuplicateGate(selector(0)))
    );
    assert_eq!(meta.lookup(lookup(selector(1))), Ok(()));
    assert!(meta.guards(selector(1)));
    assert_eq!(
        meta.create_gate(gate(selector(1))),
        Err(ConfigurationError::DuplicateGate(selector(1)))
    );
    assert_eq!(meta.gates(), &vec![gate(selector(0))]);
    assert_eq!(meta.lookups(), &vec![lookup(selector(1))]);
}

#[test]
fn the_gate_vanishes_on_a_square_sum() {
    let g = gate(selector(0));
    let x = FieldElement::from_u128(2);
    let y = FieldElement::from_u128(5);
    assert_eq!(g.evaluate(&x, &y, &FieldElement::from_u128(29)), FieldElement::zero());
    assert_eq!(g.evaluate(&x, &y, &FieldElement::from_u128(28)), FieldElement::one());
    assert_eq!(g.evaluate(&x, &y, &FieldElement::zero()), FieldElement::from_u128(29));
    let below = g.evaluate(&x, &y, &FieldElement::from_u128(30));
    assert_eq!(below.add(&FieldElement::one()), FieldElement::zero());
}
