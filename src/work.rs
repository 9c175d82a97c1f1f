//! The data that describes what to execute.
use vstd::prelude::*;

verus! {

#[verifier::external_type_specification]
#[verifier::external_body]
pub struct ExButton(enigo::Button);

#[verifier::external_type_specification]
#[verifier::external_body]
pub struct ExKey(enigo::Key);

/// One atomic controllable action: a pointer button or a key, held down
/// while the step is active.
#[derive(Clone, Copy, Debug, PartialEq, Eq)]
pub enum WorkStep {
    Mouse(enigo::Button),
    Key(enigo::Key),
}

/// A side effect for the injection device: press (`Begin`) or release
/// (`End`) the input of a step.
#[derive(Clone, Copy, Debug, PartialEq, Eq)]
pub enum Action {
    Begin(WorkStep),
    End(WorkStep),
}

/// The externally supplied description of the work, with durations in
/// whole seconds.
#[derive(Debug, PartialEq, Eq)]
pub struct Work {
    pub permanent_work: Vec<WorkStep>,
    pub cyclic_work: Vec<(WorkStep, u64)>,
}

} // verus!
