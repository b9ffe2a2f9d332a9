use vstd::prelude::*;
use crate::error::OperationCanceled;
use crate::registry::{Registration, Registry, RegistryView};
use crate::status::Status;

verus! {

/// What a scoped run does with its cancel callback and its body, as decided
/// when the run begins.
#[derive(Clone, Copy, Debug, PartialEq, Eq, Structural)]
pub enum RunPlan {
    /// The token can never be canceled: run the body; the callback is never
    /// invoked.
    BodyOnly,
    /// Cancellation has already been requested: invoke the callback to its
    /// end on the calling thread, and only then run the body. Nothing is
    /// registered.
    CallbackThenBody,
    /// The callback is subscribed under this registration for as long as
    /// the body runs; the run ends by handing the registration back.
    Registered(Registration),
}

impl RunPlan {
    /// The plan that a status read without the lock already settles, if it
    /// settles one.
    pub open spec fn spec_settled_by(observed: Status) -> Option<RunPlan> {
        match observed {
            Status::CannotBeCanceled => Some(RunPlan::BodyOnly),
            Status::NotCanceled => None,
            Status::Canceling | Status::Canceled => Some(RunPlan::CallbackThenBody),
        }
    }

    /// Decides a run from a status that was read without holding the lock.
    ///
    /// A token that cannot be canceled, or one whose cancellation has been
    /// requested, settles the plan at once, and the caller must then not
    /// take the lock: it may be running inside a callback of the sweep that
    /// holds it. `None` means that the caller has to take the lock and
    /// begin the run on the token itself.
    #[verifier::when_used_as_spec(spec_settled_by)]
    pub fn settled_by(observed: Status) -> (plan: Option<RunPlan>)
        ensures
            plan == RunPlan::spec_settled_by(observed),
    {
        match observed {
            Status::CannotBeCanceled => Some(RunPlan::BodyOnly),
            Status::NotCanceled => None,
            Status::Canceling | Status::Canceled => Some(RunPlan::CallbackThenBody),
        }
    }
}

/// The state of a token, as contracts see it.
pub struct TokenView {
    pub status: Status,
    pub registrations: RegistryView,
}

impl TokenView {
    /// The token that can never be canceled.
    pub open spec fn never() -> TokenView {
        TokenView { status: Status::CannotBeCanceled, registrations: RegistryView::empty() }
    }

    /// The token of a new source.
    pub open spec fn fresh() -> TokenView {
        TokenView { status: Status::NotCanceled, registrations: RegistryView::empty() }
    }

    /// What holds of every token: only a token that can be canceled has
    /// registrations, a sweep is the only thing that detaches one, and a
    /// canceled token has none linked.
    pub open spec fn inv(self) -> bool {
        &&& self.registrations.inv()
        &&& self.status is CannotBeCanceled ==> self.registrations.active.len() == 0
        &&& !self.status.canceled() ==> forall|r: Registration|
            !self.registrations.detached.contains(r)
        &&& self.status is Canceled ==> self.registrations.active.len() == 0
    }

    /// Cancellation has been requested.
    pub open spec fn is_canceled(self) -> bool {
        self.status.canceled()
    }

    /// The state after a run has begun and was given the registration `r`.
    pub open spec fn register(self, r: Registration) -> TokenView {
        TokenView { status: self.status, registrations: self.registrations.insert(r) }
    }

    /// A run that begins in this state is given `plan` and leaves the state
    /// `after`.
    ///
    /// Which plan it is given follows from the status alone. Only the
    /// handle of a new registration is open: it is any handle that no live
    /// registration has.
    pub open spec fn begins_run(self, plan: RunPlan, after: TokenView) -> bool {
        match plan {
            RunPlan::BodyOnly => self.status is CannotBeCanceled && after == self,
            RunPlan::CallbackThenBody => self.is_canceled() && after == self,
            RunPlan::Registered(r) => self.status is NotCanceled && !self.registrations.live(r)
                && after == self.register(r),
        }
    }

    /// The state after the run that held `r` has ended.
    pub open spec fn end_run(self, r: Registration) -> TokenView {
        if self.status is CannotBeCanceled {
            self
        } else {
            TokenView { status: self.status, registrations: self.registrations.release(r) }
        }
    }

    /// The state after a request to start a sweep: only a token that is not
    /// canceled starts one.
    pub open spec fn begin_cancel(self) -> TokenView {
        if self.status is NotCanceled {
            TokenView { status: Status::Canceling, registrations: self.registrations }
        } else {
            self
        }
    }

    /// The registration that the next step of a sweep takes, if the token is
    /// being swept and one is left.
    pub open spec fn next_swept(self) -> Option<Registration> {
        if self.status is Canceling && self.registrations.active.len() > 0 {
            Some(self.registrations.active[0])
        } else {
            None
        }
    }

    /// The state after one step of a sweep: the newest registration is
    /// unlinked, or, where none is left, the token is canceled for good.
    pub open spec fn sweep_next(self) -> TokenView {
        if self.status is Canceling {
            if self.registrations.active.len() > 0 {
                TokenView {
                    status: Status::Canceling,
                    registrations: self.registrations.unlink(self.registrations.active[0]),
                }
            } else {
                TokenView { status: Status::Canceled, registrations: self.registrations }
            }
        } else {
            self
        }
    }

    /// The state after `n` steps of a sweep.
    pub open spec fn sweep_steps(self, n: nat) -> TokenView
        decreases n,
    {
        if n == 0 {
            self
        } else {
            self.sweep_next().sweep_steps((n - 1) as nat)
        }
    }

    /// The registrations that a whole cancellation sweeps, in the order in
    /// which it takes them: all that are linked, newest first, and none
    /// where cancellation was requested before.
    pub open spec fn swept_by_cancel(self) -> Seq<Registration> {
        if self.status is NotCanceled {
            self.registrations.active
        } else {
            Seq::empty()
        }
    }

    /// The state after a whole cancellation.
    pub open spec fn cancel(self) -> TokenView {
        if self.status is NotCanceled {
            TokenView {
                status: Status::Canceled,
                registrations: RegistryView {
                    active: Seq::empty(),
                    detached: self.registrations.detached.union(
                        self.registrations.active.to_set(),
                    ),
                },
            }
        } else {
            self
        }
    }
}

/// The observable cancellation state that operations poll or subscribe to.
///
/// The value is the sequential core of a token: its status and, for a token
/// that can be canceled, the registry of the runs that are under way.
pub struct CancellationToken {
    status: Status,
    /// Absent exactly for the token that cannot be canceled.
    registrations: Option<Registry>,
}

impl View for CancellationToken {
    type V = TokenView;

    closed spec fn view(&self) -> TokenView {
        TokenView {
            status: self.status,
            registrations: match self.registrations {
                Some(registry) => registry@,
                None => RegistryView::empty(),
            },
        }
    }
}

impl CancellationToken {
    #[verifier::type_invariant]
    spec fn wf(self) -> bool {
        &&& self.status is CannotBeCanceled <==> self.registrations is None
        &&& self@.inv()
    }

    /// A token that is never canceled, for operations that are called
    /// without cancellation.
    pub fn none() -> (token: CancellationToken)
        ensures
            token@ == TokenView::never(),
    {
        CancellationToken { status: Status::CannotBeCanceled, registrations: None }
    }

    /// The token of a new source: not canceled, nothing registered.
    pub(crate) fn new() -> (token: CancellationToken)
        ensures
            token@ == TokenView::fresh(),
    {
        CancellationToken { status: Status::NotCanceled, registrations: Some(Registry::new()) }
    }

    /// The state of the token.
    pub fn status(&self) -> (status: Status)
        ensures
            status == self@.status,
    {
        self.status
    }

    /// The words that name the state of the token, for diagnostics.
    pub fn status_string(&self) -> (text: &'static str)
        ensures
            text@ == self@.status.spec_name(),
    {
        self.status.name()
    }

    /// Whether cancellation of this token has been requested.
    ///
    /// Once this is `true` it stays `true`: a token is never reset.
    pub fn is_canceled(&self) -> (canceled: bool)
        ensures
            canceled == self@.is_canceled(),
    {
        self.status.is_canceled()
    }

    /// `Ok(())` while the token is not canceled, `Err(OperationCanceled)`
    /// once it is: `is_canceled` in the form that `?` takes.
    pub fn result(&self) -> (outcome: Result<(), OperationCanceled>)
        ensures
            outcome == (if self@.is_canceled() {
                Err::<(), OperationCanceled>(OperationCanceled)
            } else {
                Ok::<(), OperationCanceled>(())
            }),
    {
        if self.is_canceled() {
            Err(OperationCanceled)
        } else {
            Ok(())
        }
    }

    /// Begins a scoped run and says what the run does with its callback.
    ///
    /// A token that cannot be canceled registers nothing, and the callback
    /// is never due. A token whose cancellation has been requested, whether
    /// the sweep is still under way or over, registers nothing either: the
    /// callback is due at once, before the body. Otherwise the callback is
    /// subscribed at the head of the list, in constant time, and the run
    /// holds the registration until it ends.
    pub fn begin_run(&mut self) -> (plan: RunPlan)
        ensures
            old(self)@.begins_run(plan, final(self)@),
            final(self)@.inv(),
    {
        proof {
            use_type_invariant(&*self);
        }
        match self.status {
            Status::CannotBeCanceled => RunPlan::BodyOnly,
            Status::Canceling | Status::Canceled => RunPlan::CallbackThenBody,
            Status::NotCanceled => {
                let mut taken = CancellationToken::none();
                std::mem::swap(self, &mut taken);
                proof {
                    use_type_invariant(&taken);
                }
                let CancellationToken { status, registrations } = taken;
                let mut registry = registrations.unwrap();
                let r = registry.insert();
                *self = CancellationToken { status, registrations: Some(registry) };
                RunPlan::Registered(r)
            },
        }
    }

    /// Ends the run that held the registration `r`.
    ///
    /// The registration is unlinked if it is still linked; a sweep may have
    /// unlinked it before, and then only its slot is given back. Afterwards
    /// `r` is no longer live, so no later sweep takes it. A handle that
    /// names no live registration changes nothing.
    pub fn end_run(&mut self, r: Registration)
        ensures
            final(self)@ == old(self)@.end_run(r),
            final(self)@.inv(),
    {
        proof {
            use_type_invariant(&*self);
        }
        if let Status::CannotBeCanceled = self.status {
            return ;
        }
        let mut taken = CancellationToken::none();
        std::mem::swap(self, &mut taken);
        proof {
            use_type_invariant(&taken);
        }
        let CancellationToken { status, registrations } = taken;
        let mut registry = registrations.unwrap();
        registry.release(r);
        *self = CancellationToken { status, registrations: Some(registry) };
    }

    /// Starts a sweep if the token is not canceled, and reports whether it
    /// did. On a token whose cancellation has been requested before, and on
    /// one that cannot be canceled, nothing changes: a second request, also
    /// one made from inside a callback of the sweep, returns at once.
    pub(crate) fn begin_cancel(&mut self) -> (started: bool)
        ensures
            started == (old(self)@.status is NotCanceled),
            final(self)@ == old(self)@.begin_cancel(),
            final(self)@.inv(),
    {
        proof {
            use_type_invariant(&*self);
        }
        match self.status {
            Status::NotCanceled => {
                let mut taken = CancellationToken::none();
                std::mem::swap(self, &mut taken);
                proof {
                    use_type_invariant(&taken);
                }
                let CancellationToken { status: _, registrations } = taken;
                *self = CancellationToken { status: Status::Canceling, registrations };
                true
            },
            _ => false,
        }
    }

    /// One step of a sweep: unlinks the newest registration and returns it,
    /// so that its callback can be invoked. Where none is left the token
    /// becomes canceled for good and `None` is returned. A token that is not
    /// being swept is left as it is.
    pub(crate) fn sweep_next(&mut self) -> (next: Option<Registration>)
        ensures
            next == old(self)@.next_swept(),
            final(self)@ == old(self)@.sweep_next(),
            final(self)@.inv(),
    {
        proof {
            use_type_invariant(&*self);
        }
        match self.status {
            Status::Canceling => {
                let mut taken = CancellationToken::none();
                std::mem::swap(self, &mut taken);
                proof {
                    use_type_invariant(&taken);
                }
                let CancellationToken { status: _, registrations } = taken;
                let mut registry = registrations.unwrap();
                let next = registry.pop();
                let status = match next {
                    Some(_) => Status::Canceling,
                    None => Status::Canceled,
                };
                *self = CancellationToken { status, registrations: Some(registry) };
                next
            },
            _ => None,
        }
    }

    /// Cancels the token: unlinks every registration, newest first, and
    /// leaves the token canceled. Returns the registrations in the order in
    /// which they were taken, which is the order in which their callbacks
    /// are due. A token whose cancellation has been requested before is left
    /// as it is, and nothing is returned for it.
    pub(crate) fn cancel(&mut self) -> (swept: Vec<Registration>)
        ensures
            swept@ == old(self)@.swept_by_cancel(),
            final(self)@ == old(self)@.cancel(),
            final(self)@.inv(),
    {
        proof {
            use_type_invariant(&*self);
        }
        let ghost before = self@;
        let mut swept: Vec<Registration> = Vec::new();
        if !self.begin_cancel() {
            return swept;
        }
        loop
            invariant
                before.status is NotCanceled,
                before.inv(),
                self@.inv(),
                self@.status is Canceling || (self@.status is Canceled
                    && self@.registrations.active.len() == 0),
                swept@ + self@.registrations.active == before.registrations.active,
                self@.registrations.detached == before.registrations.detached.union(
                    swept@.to_set(),
                ),
            ensures
                self@.status is Canceled,
                self@.registrations.active.len() == 0,
                swept@ + self@.registrations.active == before.registrations.active,
                self@.registrations.detached == before.registrations.detached.union(
                    swept@.to_set(),
                ),
                self@.inv(),
            decreases
                    self@.registrations.active.len() + (if self@.status is Canceling {
                        1nat
                    } else {
                        0nat
                    }),
        {
            let ghost at_step = self@;
            let ghost taken = swept@;
            match self.sweep_next() {
                Some(r) => {
                    swept.push(r);
                    proof {
                        let active = at_step.registrations.active;
                        assert(active[0] == r);
                        assert(active.index_of(r) == 0);
                        assert(self@.registrations.active =~= active.subrange(
                            1,
                            active.len() as int,
                        ));
                        assert(swept@ + self@.registrations.active =~= taken + active);
                        assert(swept@.to_set() =~= taken.to_set().insert(r)) by {
                            assert forall|x: Registration|
                                swept@.contains(x) <==> taken.contains(x) || x == r by {
                                if taken.contains(x) {
                                    let i = taken.index_of(x);
                                    assert(swept@[i] == x);
                                }
                                if x == r {
                                    assert(swept@[taken.len() as int] == r);
                                }
                            }
                        }
                        assert(self@.registrations.detached
                            =~= before.registrations.detached.union(swept@.to_set()));
                    }
                },
                None => {
                    break ;
                },
            }
        }
        proof {
            assert(swept@ =~= before.registrations.active);
            assert(self@.registrations.active =~= Seq::empty());
        }
        swept
    }
}

} // verus!
