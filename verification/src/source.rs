use vstd::prelude::*;
use crate::error::OperationCanceled;
use crate::registry::Registration;
use crate::token::{CancellationToken, RunPlan, TokenView};

verus! {

/// The owner of one token, and the only holder of the right to cancel it.
///
/// A source offers everything its token offers, and cancellation besides.
pub struct CancellationTokenSource {
    token: CancellationToken,
}

impl View for CancellationTokenSource {
    type V = TokenView;

    closed spec fn view(&self) -> TokenView {
        self.token@
    }
}

impl CancellationTokenSource {
    /// The token of a source is one that can be canceled.
    #[verifier::type_invariant]
    spec fn wf(self) -> bool {
        !(self.token@.status is CannotBeCanceled)
    }

    /// A source whose token is not canceled and has no registrations.
    pub fn new() -> (source: CancellationTokenSource)
        ensures
            source@ == TokenView::fresh(),
    {
        CancellationTokenSource { token: CancellationToken::new() }
    }

    /// The token that this source manages.
    pub fn token(&self) -> (token: &CancellationToken)
        ensures
            token@ == self@,
            !(token@.status is CannotBeCanceled),
    {
        proof {
            use_type_invariant(self);
        }
        &self.token
    }

    /// Whether cancellation has been requested.
    pub fn is_canceled(&self) -> (canceled: bool)
        ensures
            canceled == self@.is_canceled(),
    {
        self.token.is_canceled()
    }

    /// `Ok(())` while the token is not canceled, `Err(OperationCanceled)`
    /// once it is.
    pub fn result(&self) -> (outcome: Result<(), OperationCanceled>)
        ensures
            outcome == (if self@.is_canceled() {
                Err::<(), OperationCanceled>(OperationCanceled)
            } else {
                Ok::<(), OperationCanceled>(())
            }),
    {
        self.token.result()
    }

    /// Begins a scoped run on the token; see [`CancellationToken::begin_run`].
    pub fn begin_run(&mut self) -> (plan: RunPlan)
        ensures
            old(self)@.begins_run(plan, final(self)@),
            !(plan is BodyOnly),
            final(self)@.inv(),
    {
        let mut taken = CancellationTokenSource::new();
        std::mem::swap(self, &mut taken);
        proof {
            use_type_invariant(&taken);
        }
        let CancellationTokenSource { mut token } = taken;
        let out = token.begin_run();
        *self = CancellationTokenSource { token };
        out
    }

    /// Ends the run that held `r`; see [`CancellationToken::end_run`].
    pub fn end_run(&mut self, r: Registration)
        ensures
            final(self)@ == old(self)@.end_run(r),
            final(self)@.inv(),
    {
        let mut taken = CancellationTokenSource::new();
        std::mem::swap(self, &mut taken);
        proof {
            use_type_invariant(&taken);
        }
        let CancellationTokenSource { mut token } = taken;
        let () = token.end_run(r);
        *self = CancellationTokenSource { token };
    }

    /// Marks the token as canceled and returns the registrations of the
    /// runs that were under way, in the order in which their callbacks are
    /// due: newest first. Every one of them is unlinked, so none is due a
    /// second time.
    ///
    /// Has no effect, and returns nothing, if cancellation was requested
    /// before.
    pub fn cancel(&mut self) -> (swept: Vec<Registration>)
        ensures
            swept@ == old(self)@.swept_by_cancel(),
            final(self)@ == old(self)@.cancel(),
            final(self)@.is_canceled(),
            final(self)@.inv(),
    {
        let mut taken = CancellationTokenSource::new();
        std::mem::swap(self, &mut taken);
        proof {
            use_type_invariant(&taken);
        }
        let CancellationTokenSource { mut token } = taken;
        let out = token.cancel();
        *self = CancellationTokenSource { token };
        out
    }

    /// Starts a cancellation that is carried out step by step, and reports
    /// whether this call started it. `false` means that cancellation was
    /// requested before; the caller then has nothing to sweep. This is what
    /// makes a request from inside a callback of the sweep return at once.
    pub fn begin_cancel(&mut self) -> (started: bool)
        ensures
            started == (old(self)@.status is NotCanceled),
            final(self)@ == old(self)@.begin_cancel(),
            final(self)@.is_canceled(),
            final(self)@.inv(),
    {
        let mut taken = CancellationTokenSource::new();
        std::mem::swap(self, &mut taken);
        proof {
            use_type_invariant(&taken);
        }
        let CancellationTokenSource { mut token } = taken;
        let out = token.begin_cancel();
        *self = CancellationTokenSource { token };
        out
    }

    /// One step of a cancellation that `begin_cancel` started: unlinks the
    /// newest registration and returns it, for its callback to be invoked
    /// before the next step. `None` ends the sweep: the token is then
    /// canceled for good.
    pub fn sweep_next(&mut self) -> (next: Option<Registration>)
        ensures
            next == old(self)@.next_swept(),
            final(self)@ == old(self)@.sweep_next(),
            final(self)@.inv(),
    {
        let mut taken = CancellationTokenSource::new();
        std::mem::swap(self, &mut taken);
        proof {
            use_type_invariant(&taken);
        }
        let CancellationTokenSource { mut token } = taken;
        let out = token.sweep_next();
        *self = CancellationTokenSource { token };
        out
    }
}

} // verus!
