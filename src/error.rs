use vstd::prelude::*;

verus! {

/// The ways in which running a program fails. None is recovered from.
#[derive(Clone, Copy, PartialEq, Eq, Debug)]
pub enum RunError {
    UndefinedIdentifier,
    NotCallable,
    TypeMismatch,
    DivisionOrModuloByZero,
    InvalidAssignmentTarget,
    NonBooleanCondition,
    EmptyTargets,
    NonIdentifierTarget,
    MultipleSpreadTargets,
    NotDestructurable,
    EmptySource,
    UnderscoreInSource,
    SpreadOnNonList,
    NonExhaustiveCoverage,
    /// The step budget that the run was given is used up.
    StepBudgetExhausted,
}

} // verus!
