//! The failures that generation, evaluation and rendering report.

use vstd::prelude::*;
use vstd::string::StringExecFns;

verus! {

/// Why a call failed. Every failure belongs to the one call that returned it.
#[derive(Clone, Copy, Debug, PartialEq, Eq, Structural)]
pub enum PlotError {
    /// A numeric parameter lies outside its domain.
    InvalidParameter,
    /// Two sequences that must pair up index by index differ in length.
    LengthMismatch,
    /// The renderer did not accept the model it was handed.
    RenderRejected,
}

/// The sentence that describes a failure.
pub open spec fn message_of(error: PlotError) -> Seq<char> {
    match error {
        PlotError::InvalidParameter => "parameter outside its domain"@,
        PlotError::LengthMismatch => "x_values and y_values must have the same length"@,
        PlotError::RenderRejected => "the renderer rejected the plot"@,
    }
}

impl PlotError {
    /// Describes the failure in words.
    pub fn message(&self) -> (text: String)
        ensures
            text@ == message_of(*self),
    {
        match self {
            PlotError::InvalidParameter => String::from_str("parameter outside its domain"),
            PlotError::LengthMismatch => String::from_str(
                "x_values and y_values must have the same length",
            ),
            PlotError::RenderRejected => String::from_str("the renderer rejected the plot"),
        }
    }
}

/// The common length of two sequences that pair up index by index.
///
/// Succeeds exactly when the lengths agree; otherwise the pairing is refused
/// and no length is produced.
pub fn paired_len<C>(x_values: &[C], y_values: &[C]) -> (paired: Result<usize, PlotError>)
    ensures
        x_values@.len() == y_values@.len() ==> paired == Ok::<usize, PlotError>(x_values.len()),
        x_values@.len() != y_values@.len() ==> paired == Err::<usize, PlotError>(
            PlotError::LengthMismatch,
        ),
{
    if x_values.len() == y_values.len() {
        Ok(x_values.len())
    } else {
        Err(PlotError::LengthMismatch)
    }
}

} // verus!
