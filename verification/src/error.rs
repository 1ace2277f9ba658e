//! The ways in which configuration, parsing, synthesis and verification fail.

use crate::column::Column;
use crate::region::CellRef;
use vstd::prelude::*;

verus! {

/// A circuit shape that cannot be registered. Raised while configuring, and
/// fatal.
#[derive(Clone, Copy, Debug, PartialEq, Eq, Structural)]
pub enum ConfigurationError {
    /// The column is registered already.
    DuplicateColumn(Column),
    /// The selector guards a registered gate or lookup already.
    DuplicateGate(Column),
    /// The square of the lookup bound is not a table size this machine can
    /// hold.
    TableTooLarge(usize),
    /// The step counts describe no circuit: no square-sum step at all, or
    /// more rows than can be counted.
    InvalidStepCounts(usize, usize),
}

/// A step of witness assignment that cannot be carried out. It ends the
/// session.
#[derive(Clone, Copy, Debug, PartialEq, Eq, Structural)]
pub enum AssignmentError {
    /// The cell at this column and row holds a value already.
    AlreadyAssigned(Column, usize),
    /// The reference names no cell that was assigned.
    UnassignedCell(CellRef),
    /// The instance holds no value at this index.
    UnassignedInstance(usize),
}

/// A string that is not the canonical decimal form of a number.
#[derive(Clone, Copy, Debug, PartialEq, Eq, Structural)]
pub struct ParseError {}

/// Where the proving backend found a failure.
#[derive(Clone, Copy, Debug, PartialEq, Eq)]
pub enum Location {
    /// The backend names no place.
    Unknown,
    /// A row of the grid, counted from its top.
    Row(usize),
    /// A row counted from the first row of the region that it lies in.
    Offset(usize),
}

/// What the proving backend found wrong with a finished session.
#[derive(Clone, Copy, Debug, PartialEq, Eq)]
pub enum VerificationFailure {
    /// A guarded row holds values that are no row of the lookup table.
    LookupViolation(Location),
    /// An enabled gate's polynomial does not vanish, or two cells tied by a
    /// copy constraint differ.
    ConstraintViolation(Location),
}

/// Any failure of a session, from configuration to verification.
#[derive(Clone, Copy, Debug, PartialEq, Eq)]
pub enum Error {
    Configuration(ConfigurationError),
    Parse(ParseError),
    Assignment(AssignmentError),
    Verification(VerificationFailure),
}

/// The proving backend's answer to a finished session.
#[derive(Clone, Copy, Debug, PartialEq, Eq)]
pub enum Verdict {
    Accept,
    Reject(VerificationFailure),
}

impl Verdict {
    /// Hands the backend's answer on: success where it accepted, and its
    /// own reason, unchanged, where it rejected.
    pub fn into_result(self) -> (outcome: Result<(), Error>)
        ensures
            outcome == match self {
                Verdict::Accept => Ok::<(), Error>(()),
                Verdict::Reject(failure) => Err(Error::Verification(failure)),
            },
    {
        match self {
            Verdict::Accept => Ok(()),
            Verdict::Reject(failure) => Err(Error::Verification(failure)),
        }
    }
}

} // verus!
