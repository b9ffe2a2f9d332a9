use cancellation::{
    CancellationToken, CancellationTokenSource, OperationCanceled, Registration, RunPlan, Status,
};

#[test]
fn none_not_canceled() {
    assert_eq!(false, CancellationToken::none().is_canceled());
}

#[test]
fn cancel() {
    let mut cts = CancellationTokenSource::new();
    assert_eq!(false, cts.is_canceled());
    assert_eq!(Ok(()), cts.result());
    cts.cancel();
    assert_eq!(true, cts.is_canceled());
    assert_eq!(Err(OperationCanceled), cts.result());
}

#[test]
fn none_token_is_inert() {
    let mut token = CancellationToken::none();
    assert_eq!(Status::CannotBeCanceled, token.status());
    assert_eq!(Ok(()), token.result());
    assert_eq!(RunPlan::BodyOnly, token.begin_run());
    assert_eq!(RunPlan::BodyOnly, token.begin_run());
    assert_eq!(false, token.is_canceled());
    assert_eq!(Status::CannotBeCanceled, token.status());
    assert_eq!("cannot be canceled", token.status_string());
}

#[test]
fn none_token_ignores_end_of_run() {
    let mut source = CancellationTokenSource::new();
    let r = registered(source.begin_run());
    let mut token = CancellationToken::none();
    token.end_run(r);
    assert_eq!(Status::CannotBeCanceled, token.status());
    assert_eq!(RunPlan::BodyOnly, token.begin_run());
}

#[test]
fn fresh_source_is_not_canceled() {
    let cts = CancellationTokenSource::new();
    assert_eq!(Status::NotCanceled, cts.token().status());
    assert_eq!(false, cts.token().is_canceled());
    assert_eq!(Ok(()), cts.token().result());
    assert_eq!("not canceled", cts.token().status_string());
}

#[test]
fn cancel_stays_and_is_idempotent() {
    let mut cts = CancellationTokenSource::new();
    assert_eq!(Vec::<Registration>::new(), cts.cancel());
    assert_eq!(Status::Canceled, cts.token().status());
    assert_eq!("canceled", cts.token().status_string());
    assert_eq!(Vec::<Registration>::new(), cts.cancel());
    assert_eq!(false, cts.begin_cancel());
    assert_eq!(None, cts.sweep_next());
    assert_eq!(RunPlan::CallbackThenBody, cts.begin_run());
    assert_eq!(true, cts.is_canceled());
    assert_eq!(Err(OperationCanceled), cts.result());
    assert_eq!(Err(OperationCanceled), cts.token().result());
    assert_eq!(Status::Canceled, cts.token().status());
}

fn registered(plan: RunPlan) -> Registration {
    match plan {
        RunPlan::Registered(r) => r,
        other => panic!("expected a registration, got {:?}", other),
    }
}

#[test]
fn cancel_sweeps_newest_first() {
    let mut cts = CancellationTokenSource::new();
    let a = registered(cts.begin_run());
    let b = registered(cts.begin_run());
    let c = registered(cts.begin_run());
    assert_ne!(a, b);
    assert_ne!(b, c);
    assert_ne!(a, c);
    assert_eq!(vec![c, b, a], cts.cancel());
    assert_eq!(true, cts.is_canceled());
    assert_eq!(Vec::<Registration>::new(), cts.cancel());
}

#[test]
fn ended_run_is_not_swept() {
    let mut cts = CancellationTokenSource::new();
    let a = registered(cts.begin_run());
    let b = registered(cts.begin_run());
    let c = registered(cts.begin_run());
    cts.end_run(b);
    assert_eq!(vec![c, a], cts.cancel());
}

#[test]
fn ended_newest_and_oldest_runs_are_not_swept() {
    let mut cts = CancellationTokenSource::new();
    let a = registered(cts.begin_run());
    let b = registered(cts.begin_run());
    let c = registered(cts.begin_run());
    let d = registered(cts.begin_run());
    cts.end_run(d);
    cts.end_run(a);
    assert_eq!(vec![c, b], cts.cancel());
}

#[test]
fn run_that_ended_before_cancel_leaves_nothing() {
    let mut cts = CancellationTokenSource::new();
    let r = registered(cts.begin_run());
    cts.end_run(r);
    assert_eq!(false, cts.is_canceled());
    assert_eq!(Vec::<Registration>::new(), cts.cancel());
    assert_eq!(true, cts.is_canceled());
}

#[test]
fn end_of_run_twice_changes_nothing() {
    let mut cts = CancellationTokenSource::new();
    let a = registered(cts.begin_run());
    let b = registered(cts.begin_run());
    cts.end_run(a);
    cts.end_run(a);
    assert_eq!(vec![b], cts.cancel());
    cts.end_run(b);
    cts.end_run(b);
    assert_eq!(Status::Canceled, cts.token().status());
}

#[test]
fn live_registrations_are_distinct_after_reuse() {
    let mut cts = CancellationTokenSource::new();
    let a = registered(cts.begin_run());
    let b = registered(cts.begin_run());
    cts.end_run(a);
    let c = registered(cts.begin_run());
    let d = registered(cts.begin_run());
    assert_ne!(c, b);
    assert_ne!(d, b);
    assert_ne!(c, d);
    assert_eq!(vec![d, c, b], cts.cancel());
}

#[test]
fn stepwise_sweep_passes_through_canceling() {
    let mut cts = CancellationTokenSource::new();
    let a = registered(cts.begin_run());
    let b = registered(cts.begin_run());
    assert_eq!(None, cts.sweep_next());
    assert_eq!(Status::NotCanceled, cts.token().status());
    assert_eq!(true, cts.begin_cancel());
    assert_eq!(Status::Canceling, cts.token().status());
    assert_eq!("canceling", cts.token().status_string());
    assert_eq!(true, cts.is_canceled());
    assert_eq!(Err(OperationCanceled), cts.result());
    assert_eq!(Some(b), cts.sweep_next());
    assert_eq!(Status::Canceling, cts.token().status());
    assert_eq!(Some(a), cts.sweep_next());
    assert_eq!(Status::Canceling, cts.token().status());
    assert_eq!(None, cts.sweep_next());
    assert_eq!(Status::Canceled, cts.token().status());
    assert_eq!(None, cts.sweep_next());
    assert_eq!(Status::Canceled, cts.token().status());
}

#[test]
fn requests_during_a_sweep_return_at_once() {
    let mut cts = CancellationTokenSource::new();
    let a = registered(cts.begin_run());
    let b = registered(cts.begin_run());
    assert_eq!(true, cts.begin_cancel());
    assert_eq!(Some(b), cts.sweep_next());
    assert_eq!(false, cts.begin_cancel());
    assert_eq!(Vec::<Registration>::new(), cts.cancel());
    assert_eq!(Status::Canceling, cts.token().status());
    assert_eq!(RunPlan::CallbackThenBody, cts.begin_run());
    assert_eq!(Some(a), cts.sweep_next());
    assert_eq!(None, cts.sweep_next());
    assert_eq!(Status::Canceled, cts.token().status());
}

#[test]
fn run_ending_during_a_sweep_is_not_swept() {
    let mut cts = CancellationTokenSource::new();
    let a = registered(cts.begin_run());
    let b = registered(cts.begin_run());
    let c = registered(cts.begin_run());
    assert_eq!(true, cts.begin_cancel());
    assert_eq!(Some(c), cts.sweep_next());
    cts.end_run(a);
    cts.end_run(c);
    assert_eq!(Some(b), cts.sweep_next());
    assert_eq!(None, cts.sweep_next());
    assert_eq!(Status::Canceled, cts.token().status());
}

#[test]
fn unlocked_status_settles_a_run() {
    assert_eq!(Some(RunPlan::BodyOnly), RunPlan::settled_by(Status::CannotBeCanceled));
    assert_eq!(None, RunPlan::settled_by(Status::NotCanceled));
    assert_eq!(Some(RunPlan::CallbackThenBody), RunPlan::settled_by(Status::Canceling));
    assert_eq!(Some(RunPlan::CallbackThenBody), RunPlan::settled_by(Status::Canceled));
}

#[test]
fn status_codes_and_names() {
    assert_eq!(0, Status::CannotBeCanceled.code());
    assert_eq!(1, Status::NotCanceled.code());
    assert_eq!(2, Status::Canceling.code());
    assert_eq!(3, Status::Canceled.code());
    assert_eq!(Some(Status::CannotBeCanceled), Status::from_code(0));
    assert_eq!(Some(Status::NotCanceled), Status::from_code(1));
    assert_eq!(Some(Status::Canceling), Status::from_code(2));
    assert_eq!(Some(Status::Canceled), Status::from_code(3));
    assert_eq!(None, Status::from_code(4));
    assert_eq!(None, Status::from_code(usize::MAX));
    assert_eq!("cannot be canceled", Status::CannotBeCanceled.name());
    assert_eq!("not canceled", Status::NotCanceled.name());
    assert_eq!("canceling", Status::Canceling.name());
    assert_eq!("canceled", Status::Canceled.name());
    assert_eq!("cannot be canceled", Status::code_name(0));
    assert_eq!("not canceled", Status::code_name(1));
    assert_eq!("canceling", Status::code_name(2));
    assert_eq!("canceled", Status::code_name(3));
    assert_eq!("invalid", Status::code_name(4));
}

#[test]
fn status_is_canceled_from_canceling_on() {
    assert_eq!(false, Status::CannotBeCanceled.is_canceled());
    assert_eq!(false, Status::NotCanceled.is_canceled());
    assert_eq!(true, Status::Canceling.is_canceled());
    assert_eq!(true, Status::Canceled.is_canceled());
}

#[test]
fn operation_canceled_describes_itself() {
    assert_eq!("The operation was canceled.", OperationCanceled.description());
    assert_eq!(OperationCanceled, OperationCanceled);
}
