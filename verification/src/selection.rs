//! Validation of a caller's label selection.
//!
//! A caller may restrict a calculation to a subset of samples or
//! properties, either with one selection shared by every key or with a
//! predefined per-key selection. Supplying both at once is an inconsistent
//! configuration, refused eagerly with `InvalidParameter` before any
//! computation starts.

use vstd::prelude::*;

use crate::errors::Error;

verus! {

/// Which labels a calculation runs over.
#[derive(Debug, Clone, Copy, PartialEq, Eq, Structural)]
pub enum LabelsSelection {
    /// Run over all possible labels.
    All,
    /// Run over one subset of labels, shared by every key.
    Subset,
    /// Run over a predefined per-key subset of labels.
    Predefined,
}

/// Decide which selection a caller asked for, from whether each of the two
/// selection fields was supplied.
///
/// Exactly one of the two may be present; both at once is an inconsistent
/// configuration and fails with `InvalidParameter`, and neither means the
/// whole label set.
pub fn convert_labels_selection(subset_present: bool, predefined_present: bool) -> (r: Result<
    LabelsSelection,
    Error,
>)
    ensures
        r is Ok <==> !(subset_present && predefined_present),
        !subset_present && !predefined_present ==> r == Result::<LabelsSelection, Error>::Ok(
            LabelsSelection::All,
        ),
        subset_present && !predefined_present ==> r == Result::<LabelsSelection, Error>::Ok(
            LabelsSelection::Subset,
        ),
        !subset_present && predefined_present ==> r == Result::<LabelsSelection, Error>::Ok(
            LabelsSelection::Predefined,
        ),
        r matches Result::Err(e) ==> e is InvalidParameter,
{
    match (subset_present, predefined_present) {
        (false, false) => Result::Ok(LabelsSelection::All),
        (true, false) => Result::Ok(LabelsSelection::Subset),
        (false, true) => Result::Ok(LabelsSelection::Predefined),
        (true, true) => Result::Err(
            Error::InvalidParameter(
                "can not have both a global and a predefined labels selection".to_owned(),
            ),
        ),
    }
}

} // verus!
