use vstd::prelude::*;

verus! {

/// The state of a token.
///
/// A token that can be canceled moves `NotCanceled` → `Canceling` →
/// `Canceled` and never back. `CannotBeCanceled` is permanent.
#[derive(Clone, Copy, Debug, PartialEq, Eq, Structural)]
pub enum Status {
    /// The token of an operation that takes no cancellation; it never changes.
    CannotBeCanceled,
    /// Cancellation is possible and has not been requested.
    NotCanceled,
    /// A cancel sweep is under way: callbacks are being invoked.
    Canceling,
    /// The sweep is over; the token stays canceled.
    Canceled,
}

impl Status {
    /// The position of the state in the order in which states are passed.
    pub open spec fn rank(self) -> int {
        match self {
            Status::CannotBeCanceled => 0,
            Status::NotCanceled => 1,
            Status::Canceling => 2,
            Status::Canceled => 3,
        }
    }

    /// Cancellation has been requested: the state is `Canceling` or `Canceled`.
    pub open spec fn canceled(self) -> bool {
        self.rank() >= 2
    }

    /// Whether cancellation has been requested.
    pub fn is_canceled(self) -> (b: bool)
        ensures
            b == self.canceled(),
    {
        match self {
            Status::Canceling | Status::Canceled => true,
            _ => false,
        }
    }

    /// The number under which the state is stored in a machine word.
    pub fn code(self) -> (code: usize)
        ensures
            code == self.rank(),
    {
        match self {
            Status::CannotBeCanceled => 0,
            Status::NotCanceled => 1,
            Status::Canceling => 2,
            Status::Canceled => 3,
        }
    }

    /// The state that is stored under `code`; `None` for a number that
    /// stands for no state.
    pub fn from_code(code: usize) -> (status: Option<Status>)
        ensures
            match status {
                Some(s) => s.rank() == code,
                None => code > 3,
            },
    {
        if code == 0 {
            Some(Status::CannotBeCanceled)
        } else if code == 1 {
            Some(Status::NotCanceled)
        } else if code == 2 {
            Some(Status::Canceling)
        } else if code == 3 {
            Some(Status::Canceled)
        } else {
            None
        }
    }

    /// The words that name the state.
    pub open spec fn spec_name(self) -> Seq<char> {
        match self {
            Status::CannotBeCanceled => "cannot be canceled"@,
            Status::NotCanceled => "not canceled"@,
            Status::Canceling => "canceling"@,
            Status::Canceled => "canceled"@,
        }
    }

    /// The words that name the state, for diagnostics.
    pub fn name(self) -> (text: &'static str)
        ensures
            text@ == self.spec_name(),
    {
        match self {
            Status::CannotBeCanceled => "cannot be canceled",
            Status::NotCanceled => "not canceled",
            Status::Canceling => "canceling",
            Status::Canceled => "canceled",
        }
    }

    /// The words for a stored number: the name of its state, and
    /// `"invalid"` for a number that stands for none.
    pub fn code_name(code: usize) -> (text: &'static str)
        ensures
            text@ == (if code == 0 {
                Status::CannotBeCanceled.spec_name()
            } else if code == 1 {
                Status::NotCanceled.spec_name()
            } else if code == 2 {
                Status::Canceling.spec_name()
            } else if code == 3 {
                Status::Canceled.spec_name()
            } else {
                "invalid"@
            }),
    {
        match Status::from_code(code) {
            Some(status) => status.name(),
            None => "invalid",
        }
    }
}

} // verus!
