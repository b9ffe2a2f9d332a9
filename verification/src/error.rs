use vstd::prelude::*;

verus! {

/// Marker value: an operation was abandoned because its token was canceled.
///
/// Usually met as the error of a `Result<T, OperationCanceled>`.
#[derive(Clone, Copy, Debug, PartialEq, Eq, Structural)]
pub struct OperationCanceled;

impl OperationCanceled {
    /// The text of the one message this error has.
    pub open spec fn spec_description() -> Seq<char> {
        "The operation was canceled."@
    }

    /// A short human-readable description of the error.
    pub fn description(&self) -> (text: &'static str)
        ensures
            text@ == Self::spec_description(),
    {
        "The operation was canceled."
    }
}

} // verus!
