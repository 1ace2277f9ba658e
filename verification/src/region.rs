//! The region assigner: the append-only record of one proving session. Cells
//! are written once into an arena and named by their position in it; regions,
//! selector activations, copy constraints and bindings to the public
//! instance are kept in the order in which they were declared.

use crate::column::Column;
use crate::error::AssignmentError;
use crate::field::FieldElement;
use vstd::prelude::*;

verus! {

/// The name of an assigned cell: its position in the arena of cells.
#[derive(Clone, Copy, Debug, PartialEq, Eq, Structural)]
pub struct CellRef {
    pub index: usize,
}

/// The name of a region: its position in the order of creation.
#[derive(Clone, Copy, Debug, PartialEq, Eq, Structural)]
pub struct RegionHandle {
    pub index: usize,
}

/// An assigned cell.
#[derive(Clone, Copy, Debug, PartialEq, Eq)]
pub struct Cell {
    pub column: Column,
    pub row: usize,
    pub value: FieldElement,
}

/// A region: its name, and where its cells, selector activations and copy
/// constraints begin in the session's record. It ends where the next region
/// begins.
#[derive(Debug, PartialEq, Eq)]
pub struct Region {
    pub name: String,
    pub first_cell: usize,
    pub first_activation: usize,
    pub first_copy: usize,
}

/// A selector switched on in one row.
#[derive(Clone, Copy, Debug, PartialEq, Eq, Structural)]
pub struct Activation {
    pub selector: Column,
    pub row: usize,
}

/// The demand that two cells hold equal values.
#[derive(Clone, Copy, Debug, PartialEq, Eq, Structural)]
pub struct CopyConstraint {
    pub left: CellRef,
    pub right: CellRef,
}

/// The demand that a cell holds the public value at `index`.
#[derive(Clone, Copy, Debug, PartialEq, Eq, Structural)]
pub struct InstanceBinding {
    pub cell: CellRef,
    pub index: usize,
}

/// One row of a lookup table.
#[derive(Clone, Copy, Debug, PartialEq, Eq)]
pub struct TableRow {
    pub lhs: FieldElement,
    pub rhs: FieldElement,
    pub out: FieldElement,
}

/// What a session has recorded, as plain sequences in the order of
/// declaration.
pub struct Assignment {
    pub instance: Seq<FieldElement>,
    pub regions: Seq<Region>,
    pub cells: Seq<Cell>,
    pub activations: Seq<Activation>,
    pub copies: Seq<CopyConstraint>,
    pub bindings: Seq<InstanceBinding>,
    pub table: Seq<TableRow>,
}

impl Assignment {
    /// Whether the cell at `column` and `row` holds a value.
    pub open spec fn assigned(self, column: Column, row: usize) -> bool {
        exists|i: int|
            0 <= i < self.cells.len() && (#[trigger] self.cells[i]).column == column
                && self.cells[i].row == row
    }

    /// Whether `selector` is switched on in `row`.
    pub open spec fn enabled(self, selector: Column, row: usize) -> bool {
        exists|i: int|
            0 <= i < self.activations.len() && #[trigger] self.activations[i] == (Activation {
                selector,
                row,
            })
    }

    /// No cell was written twice.
    pub open spec fn cells_distinct(self) -> bool {
        forall|i: int, j: int|
            0 <= i < j < self.cells.len() ==> !((#[trigger] self.cells[i]).column == (
            #[trigger] self.cells[j]).column && self.cells[i].row == self.cells[j].row)
    }

    /// Every copy constraint and every binding names assigned cells and
    /// instance values that exist.
    pub open spec fn references_assigned(self) -> bool {
        &&& forall|k: int|
            0 <= k < self.copies.len() ==> (#[trigger] self.copies[k]).left.index
                < self.cells.len() && self.copies[k].right.index < self.cells.len()
        &&& forall|k: int|
            0 <= k < self.bindings.len() ==> (#[trigger] self.bindings[k]).cell.index
                < self.cells.len() && self.bindings[k].index < self.instance.len()
    }

    /// The regions lie in the record in the order of their creation.
    pub open spec fn regions_ordered(self) -> bool {
        &&& forall|i: int|
            0 <= i < self.regions.len() ==> (#[trigger] self.regions[i]).first_cell
                <= self.cells.len() && self.regions[i].first_activation <= self.activations.len()
                && self.regions[i].first_copy <= self.copies.len()
        &&& forall|i: int, j: int|
            0 <= i < j < self.regions.len() ==> (#[trigger] self.regions[i]).first_cell <= (
            #[trigger] self.regions[j]).first_cell && self.regions[i].first_activation
                <= self.regions[j].first_activation && self.regions[i].first_copy
                <= self.regions[j].first_copy
    }

    /// What holds of every session's record.
    pub open spec fn well_formed(self) -> bool {
        &&& self.cells_distinct()
        &&& self.references_assigned()
        &&& self.regions_ordered()
    }

    /// A record that holds the public instance and nothing else.
    pub open spec fn fresh(instance: Seq<FieldElement>) -> Assignment {
        Assignment {
            instance,
            regions: Seq::empty(),
            cells: Seq::empty(),
            activations: Seq::empty(),
            copies: Seq::empty(),
            bindings: Seq::empty(),
            table: Seq::empty(),
        }
    }
}

/// The engine that lays a witness out, one region after another.
pub struct RegionAssigner {
    instance: Vec<FieldElement>,
    regions: Vec<Region>,
    cells: Vec<Cell>,
    activations: Vec<Activation>,
    copies: Vec<CopyConstraint>,
    bindings: Vec<InstanceBinding>,
    table: Vec<TableRow>,
}

impl View for RegionAssigner {
    type V = Assignment;

    closed spec fn view(&self) -> Assignment {
        Assignment {
            instance: self.instance@,
            regions: self.regions@,
            cells: self.cells@,
            activations: self.activations@,
            copies: self.copies@,
            bindings: self.bindings@,
            table: self.table@,
        }
    }
}

impl RegionAssigner {
    /// Opens a session over the public instance, which stays fixed from here
    /// on.
    pub fn new(instance: Vec<FieldElement>) -> (assigner: RegionAssigner)
        ensures
            assigner@ == Assignment::fresh(instance@),
            assigner@.well_formed(),
    {
        RegionAssigner {
            instance,
            regions: Vec::new(),
            cells: Vec::new(),
            activations: Vec::new(),
            copies: Vec::new(),
            bindings: Vec::new(),
            table: Vec::new(),
        }
    }

    /// Whether the cell at `column` and `row` holds a value.
    pub fn is_assigned(&self, column: Column, row: usize) -> (found: bool)
        ensures
            found == self@.assigned(column, row),
    {
        let mut i: usize = 0;
        while i < self.cells.len()
            invariant
                i <= self.cells.len(),
                forall|k: int|
                    0 <= k < i ==> !((#[trigger] self.cells@[k]).column == column
                        && self.cells@[k].row == row),
            decreases self.cells.len() - i,
        {
            if self.cells[i].column == column && self.cells[i].row == row {
                return true;
            }
            i += 1;
        }
        false
    }

    /// Opens a new region, which closes the one before it. What is assigned
    /// from here on belongs to the new region.
    pub fn begin_region(&mut self, name: &str) -> (handle: RegionHandle)
        ensures
            handle.index == old(self)@.regions.len(),
            final(self)@.regions.len() == old(self)@.regions.len() + 1,
            final(self)@.regions.drop_last() == old(self)@.regions,
            final(self)@.regions.last().name@ == name@,
            final(self)@.regions.last().first_cell == old(self)@.cells.len(),
            final(self)@.regions.last().first_activation == old(self)@.activations.len(),
            final(self)@.regions.last().first_copy == old(self)@.copies.len(),
            final(self)@ == (Assignment { regions: final(self)@.regions, ..old(self)@ }),
            old(self)@.well_formed() ==> final(self)@.well_formed(),
    {
        let index = self.regions.len();
        let region = Region {
            name: name.to_owned(),
            first_cell: self.cells.len(),
            first_activation: self.activations.len(),
            first_copy: self.copies.len(),
        };
        self.regions.push(region);
        proof {
            assert(self@.regions.drop_last() =~= old(self)@.regions);
            let before = old(self)@.regions;
            let after = self@.regions;
            assert forall|i: int| 0 <= i < before.len() implies before[i] == after[i] by {}
        }
        RegionHandle { index }
    }

    /// Writes `value` into the cell at `column` and `row`. A cell that was
    /// written before, in this region or an earlier one, is refused, and the
    /// record stays as it was.
    pub fn assign(&mut self, column: Column, row: usize, value: FieldElement) -> (assigned: Result<
        CellRef,
        AssignmentError,
    >)
        ensures
            assigned is Ok <==> !old(self)@.assigned(column, row),
            assigned matches Ok(cell) ==> cell.index == old(self)@.cells.len() && final(self)@ == (
            Assignment { cells: old(self)@.cells.push(Cell { column, row, value }), ..old(self)@ }),
            assigned matches Err(e) ==> e == AssignmentError::AlreadyAssigned(column, row)
                && final(self)@ == old(self)@,
            final(self)@.assigned(column, row),
            old(self)@.well_formed() ==> final(self)@.well_formed(),
    {
        if self.is_assigned(column, row) {
            return Err(AssignmentError::AlreadyAssigned(column, row));
        }
        let index = self.cells.len();
        self.cells.push(Cell { column, row, value });
        proof {
            let before = old(self)@.cells;
            let after = self@.cells;
            assert(after[before.len() as int].column == column);
            assert forall|i: int| 0 <= i < before.len() implies before[i] == after[i] by {}
        }
        Ok(CellRef { index })
    }

    /// Switches `selector` on in `row`.
    pub fn enable_selector(&mut self, selector: Column, row: usize)
        ensures
            final(self)@ == (Assignment {
                activations: old(self)@.activations.push(Activation { selector, row }),
                ..old(self)@
            }),
            old(self)@.well_formed() ==> final(self)@.well_formed(),
    {
        self.activations.push(Activation { selector, row });
    }

    /// Declares that two assigned cells must hold equal values, whichever
    /// regions they lie in. A reference to a cell that was never assigned is
    /// refused, and the record stays as it was.
    pub fn copy(&mut self, left: CellRef, right: CellRef) -> (declared: Result<
        (),
        AssignmentError,
    >)
        ensures
            declared is Ok <==> left.index < old(self)@.cells.len() && right.index < old(
                self,
            )@.cells.len(),
            declared is Ok ==> final(self)@ == (Assignment {
                copies: old(self)@.copies.push(CopyConstraint { left, right }),
                ..old(self)@
            }),
            declared matches Err(e) ==> final(self)@ == old(self)@ && e
                == AssignmentError::UnassignedCell(
                if left.index >= old(self)@.cells.len() {
                    left
                } else {
                    right
                },
            ),
            old(self)@.well_formed() ==> final(self)@.well_formed(),
    {
        if left.index >= self.cells.len() {
            return Err(AssignmentError::UnassignedCell(left));
        }
        if right.index >= self.cells.len() {
            return Err(AssignmentError::UnassignedCell(right));
        }
        self.copies.push(CopyConstraint { left, right });
        proof {
            let before = old(self)@.copies;
            let after = self@.copies;
            assert forall|i: int| 0 <= i < before.len() implies before[i] == after[i] by {}
        }
        Ok(())
    }

    /// Writes the public value at `instance_index` into the cell at `column`
    /// and `row`, and binds the cell to that value. An index beyond the
    /// instance is refused first, then a cell that was written before; either
    /// way the record stays as it was.
    pub fn assign_from_instance(&mut self, column: Column, instance_index: usize, row: usize) -> (assigned:
        Result<CellRef, AssignmentError>)
        ensures
            assigned is Ok <==> instance_index < old(self)@.instance.len() && !old(
                self,
            )@.assigned(column, row),
            assigned matches Ok(cell) ==> cell.index == old(self)@.cells.len() && final(self)@ == (
            Assignment {
                cells: old(self)@.cells.push(
                    Cell { column, row, value: old(self)@.instance[instance_index as int] },
                ),
                bindings: old(self)@.bindings.push(InstanceBinding { cell, index: instance_index }),
                ..old(self)@
            }),
            assigned matches Err(e) ==> final(self)@ == old(self)@ && e == (if instance_index
                >= old(self)@.instance.len() {
                AssignmentError::UnassignedInstance(instance_index)
            } else {
                AssignmentError::AlreadyAssigned(column, row)
            }),
            old(self)@.well_formed() ==> final(self)@.well_formed(),
    {
        if instance_index >= self.instance.len() {
            return Err(AssignmentError::UnassignedInstance(instance_index));
        }
        if self.is_assigned(column, row) {
            return Err(AssignmentError::AlreadyAssigned(column, row));
        }
        let index = self.cells.len();
        let value = self.instance[instance_index];
        self.cells.push(Cell { column, row, value });
        self.bindings.push(InstanceBinding { cell: CellRef { index }, index: instance_index });
        proof {
            let before = old(self)@.cells;
            let after = self@.cells;
            assert forall|i: int| 0 <= i < before.len() implies before[i] == after[i] by {}
            let bound = old(self)@.bindings;
            let bound_after = self@.bindings;
            assert forall|i: int| 0 <= i < bound.len() implies bound[i] == bound_after[i] by {}
        }
        Ok(CellRef { index })
    }

    /// Declares that an assigned cell must hold the public value at
    /// `instance_index`. A reference to a cell that was never assigned is
    /// refused first, then an index beyond the instance; either way the
    /// record stays as it was.
    pub fn constrain_instance(&mut self, cell: CellRef, instance_index: usize) -> (declared:
        Result<(), AssignmentError>)
        ensures
            declared is Ok <==> cell.index < old(self)@.cells.len() && instance_index < old(
                self,
            )@.instance.len(),
            declared is Ok ==> final(self)@ == (Assignment {
                bindings: old(self)@.bindings.push(InstanceBinding { cell, index: instance_index }),
                ..old(self)@
            }),
            declared matches Err(e) ==> final(self)@ == old(self)@ && e == (if cell.index >= old(
                self,
            )@.cells.len() {
                AssignmentError::UnassignedCell(cell)
            } else {
                AssignmentError::UnassignedInstance(instance_index)
            }),
            old(self)@.well_formed() ==> final(self)@.well_formed(),
    {
        if cell.index >= self.cells.len() {
            return Err(AssignmentError::UnassignedCell(cell));
        }
        if instance_index >= self.instance.len() {
            return Err(AssignmentError::UnassignedInstance(instance_index));
        }
        self.bindings.push(InstanceBinding { cell, index: instance_index });
        proof {
            let bound = old(self)@.bindings;
            let bound_after = self@.bindings;
            assert forall|i: int| 0 <= i < bound.len() implies bound[i] == bound_after[i] by {}
        }
        Ok(())
    }

    /// Loads `rows` as the lookup table, in place of any table loaded
    /// before.
    pub fn assign_table(&mut self, rows: Vec<TableRow>)
        ensures
            final(self)@ == (Assignment { table: rows@, ..old(self)@ }),
            old(self)@.well_formed() ==> final(self)@.well_formed(),
    {
        self.table = rows;
    }

    /// The cell that `cell` names, if it was assigned.
    pub fn cell(&self, cell: CellRef) -> (found: Option<Cell>)
        ensures
            found == if cell.index < self@.cells.len() {
                Some(self@.cells[cell.index as int])
            } else {
                None
            },
    {
        if cell.index < self.cells.len() {
            Some(self.cells[cell.index])
        } else {
            None
        }
    }

    /// The public instance.
    pub fn instance(&self) -> (instance: &Vec<FieldElement>)
        ensures
            instance@ == self@.instance,
    {
        &self.instance
    }

    /// The regions, in the order of their creation.
    pub fn regions(&self) -> (regions: &Vec<Region>)
        ensures
            regions@ == self@.regions,
    {
        &self.regions
    }

    /// The assigned cells, in the order of assignment.
    pub fn cells(&self) -> (cells: &Vec<Cell>)
        ensures
            cells@ == self@.cells,
    {
        &self.cells
    }

    /// The selector activations, in the order of declaration.
    pub fn activations(&self) -> (activations: &Vec<Activation>)
        ensures
            activations@ == self@.activations,
    {
        &self.activations
    }

    /// The copy constraints, in the order of declaration.
    pub fn copies(&self) -> (copies: &Vec<CopyConstraint>)
        ensures
            copies@ == self@.copies,
    {
        &self.copies
    }

    /// The bindings of cells to public values, in the order of declaration.
    pub fn bindings(&self) -> (bindings: &Vec<InstanceBinding>)
        ensures
            bindings@ == self@.bindings,
    {
        &self.bindings
    }

    /// The rows of the lookup table that was loaded.
    pub fn table(&self) -> (table: &Vec<TableRow>)
        ensures
            table@ == self@.table,
    {
        &self.table
    }
}

} // verus!
