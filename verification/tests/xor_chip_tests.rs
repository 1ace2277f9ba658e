use plonkish::column::{Column, ColumnKind};
use plonkish::constraint_system::{ConstraintSystem, Lookup, LookupPair};
use plonkish::error::ConfigurationError;
use plonkish::field::FieldElement;
use plonkish::region::{RegionAssigner, TableRow};
use plonkish::xor_chip::XorChipConfig;

fn advice(index: usize) -> Column {
    Column::new(ColumnKind::Advice, index)
}

fn table(index: usize) -> Column {
    Column::new(ColumnKind::LookupTable, index)
}

fn chip(n: usize) -> XorChipConfig {
    let mut meta = ConstraintSystem::new();
    XorChipConfig::configure(&mut meta, advice(0), advice(1), advice(2), n).unwrap()
}

fn row(lhs: u128, rhs: u128, out: u128) -> TableRow {
    TableRow {
        lhs: FieldElement::from_u128(lhs),
        rhs: FieldElement::from_u128(rhs),
        out: FieldElement::from_u128(out),
    }
}

#[test]
fn the_chip_registers_its_columns_and_its_lookup() {
    let mut meta = ConstraintSystem::new();
    let config = XorChipConfig::configure(&mut meta, advice(0), advice(1), advice(2), 16).unwrap();
    let guard = Column::new(ColumnKind::Selector, 1);
    assert_eq!(config.table, [table(0), table(1), table(2)]);
    assert_eq!(config.selector, guard);
    assert_eq!(config.bound, 16);
    assert_eq!(meta.columns(), &vec![table(0), table(1), table(2), guard]);
    assert_eq!(
        meta.lookups(),
        &vec![Lookup {
            selector: guard,
            lhs: LookupPair { input: advice(0).cur(), table: table(0) },
            rhs: LookupPair { input: advice(1).cur(), table: table(1) },
            out: LookupPair { input: advice(2).cur(), table: table(2) },
        }]
    );
    assert!(meta.gates().is_empty());
    assert_eq!(XorChipConfig::probe(&meta, 16), Some(ConfigurationError::DuplicateColumn(table(0))));
}

#[test]
fn the_chip_is_refused_where_a_column_is_taken() {
    let mut meta = ConstraintSystem::new();
    meta.register_column(table(1)).unwrap();
    assert_eq!(
        XorChipConfig::configure(&mut meta, advice(0), advice(1), advice(2), 4),
        Err(ConfigurationError::DuplicateColumn(table(1)))
    );
    assert_eq!(meta.columns(), &vec![table(1)]);
    assert!(meta.lookups().is_empty());
}

#[test]
fn the_chip_is_refused_where_its_table_is_too_large() {
    let mut meta = ConstraintSystem::new();
    assert_eq!(
        XorChipConfig::configure(&mut meta, advice(0), advice(1), advice(2), usize::MAX),
        Err(ConfigurationError::TableTooLarge(usize::MAX))
    );
    assert!(meta.columns().is_empty());
    assert_eq!(XorChipConfig::probe(&meta, 16), None);
}

#[test]
fn the_table_of_bound_three_is_written_out() {
    let mut layouter = RegionAssigner::new(Vec::new());
    assert_eq!(chip(3).load(&mut layouter), Ok(()));
    let expected = vec![
        row(0, 0, 0),
        row(0, 1, 1),
        row(0, 2, 2),
        row(1, 0, 1),
        row(1, 1, 0),
        row(1, 2, 3),
        row(2, 0, 2),
        row(2, 1, 3),
        row(2, 2, 0),
    ];
    assert_eq!(layouter.table(), &expected);
}

#[test]
fn every_row_holds_the_exclusive_or_of_its_operands() {
    let n: usize = 16;
    let mut layouter = RegionAssigner::new(Vec::new());
    chip(n).load(&mut layouter).unwrap();
    let rows = layouter.table();
    assert_eq!(rows.len(), n * n);
    for i in 0..n {
        for j in 0..n {
            assert_eq!(rows[i * n + j], row(i as u128, j as u128, (i ^ j) as u128));
        }
    }
}

#[test]
fn loading_twice_leaves_the_same_table() {
    let config = chip(10);
    let mut layouter = RegionAssigner::new(vec![FieldElement::one()]);
    config.load(&mut layouter).unwrap();
    let once = layouter.table().clone();
    config.load(&mut layouter).unwrap();
    assert_eq!(layouter.table(), &once);
    assert_eq!(once.len(), 100);
    let bytes = |rows: &Vec<TableRow>| -> Vec<[u8; 32]> {
        rows.iter().flat_map(|r| [r.lhs.to_bytes(), r.rhs.to_bytes(), r.out.to_bytes()]).collect()
    };
    assert_eq!(bytes(layouter.table()), bytes(&once));
    assert_eq!(layouter.instance(), &vec![FieldElement::one()]);
    assert!(layouter.cells().is_empty());
}

#[test]
fn a_bound_of_zero_gives_an_empty_table() {
    let mut layouter = RegionAssigner::new(Vec::new());
    assert_eq!(chip(0).load(&mut layouter), Ok(()));
    assert!(layouter.table().is_empty());
}

#[test]
fn a_table_too_large_is_not_loaded() {
    let config = XorChipConfig {
        table: [table(0), table(1), table(2)],
        selector: Column::new(ColumnKind::Selector, 1),
        bound: usize::MAX,
    };
    let mut layouter = RegionAssigner::new(Vec::new());
    assert_eq!(config.load(&mut layouter), Err(ConfigurationError::TableTooLarge(usize::MAX)));
    assert!(layouter.table().is_empty());
}
