use cancellation::{CancellationToken, CancellationTokenSource, Registration, RunPlan, Status};
use std::cell::RefCell;
use std::sync::atomic::{AtomicBool, AtomicUsize, Ordering};

type Callback<'a> = Box<dyn FnOnce(&Scoped<'a>) + 'a>;

enum Core {
    Never(CancellationToken),
    Owned(CancellationTokenSource),
}

/// A single-threaded driver of the library: it keeps the callbacks of the
/// runs under way beside the token, invokes them when the library says they
/// are due, and runs the bodies.
struct Scoped<'a> {
    core: RefCell<Core>,
    callbacks: RefCell<Vec<Option<Callback<'a>>>>,
}

impl<'a> Scoped<'a> {
    fn new() -> Scoped<'a> {
        Scoped {
            core: RefCell::new(Core::Owned(CancellationTokenSource::new())),
            callbacks: RefCell::new(Vec::new()),
        }
    }

    fn none() -> Scoped<'a> {
        Scoped {
            core: RefCell::new(Core::Never(CancellationToken::none())),
            callbacks: RefCell::new(Vec::new()),
        }
    }

    fn status(&self) -> Status {
        match &*self.core.borrow() {
            Core::Never(token) => token.status(),
            Core::Owned(source) => source.token().status(),
        }
    }

    fn is_canceled(&self) -> bool {
        match &*self.core.borrow() {
            Core::Never(token) => token.is_canceled(),
            Core::Owned(source) => source.is_canceled(),
        }
    }

    fn begin_run(&self) -> RunPlan {
        match &mut *self.core.borrow_mut() {
            Core::Never(token) => token.begin_run(),
            Core::Owned(source) => source.begin_run(),
        }
    }

    fn end_run(&self, r: Registration) {
        match &mut *self.core.borrow_mut() {
            Core::Never(token) => token.end_run(r),
            Core::Owned(source) => source.end_run(r),
        }
    }

    fn begin_cancel(&self) -> bool {
        match &mut *self.core.borrow_mut() {
            Core::Never(_) => false,
            Core::Owned(source) => source.begin_cancel(),
        }
    }

    fn sweep_next(&self) -> Option<Registration> {
        match &mut *self.core.borrow_mut() {
            Core::Never(_) => None,
            Core::Owned(source) => source.sweep_next(),
        }
    }

    fn cancel(&self) {
        if self.is_canceled() {
            return;
        }
        if !self.begin_cancel() {
            return;
        }
        loop {
            let next = self.sweep_next();
            match next {
                Some(r) => {
                    let callback = self.callbacks.borrow_mut()[r.index()].take();
                    if let Some(callback) = callback {
                        callback(self);
                    }
                }
                None => break,
            }
        }
    }

    fn run<C, F, R>(&self, on_cancel: C, body: F) -> R
    where
        C: FnOnce(&Scoped<'a>) + 'a,
        F: FnOnce(&Scoped<'a>) -> R,
    {
        let plan = match RunPlan::settled_by(self.status()) {
            Some(plan) => plan,
            None => self.begin_run(),
        };
        match plan {
            RunPlan::BodyOnly => body(self),
            RunPlan::CallbackThenBody => {
                on_cancel(self);
                body(self)
            }
            RunPlan::Registered(r) => {
                {
                    let mut table = self.callbacks.borrow_mut();
                    while table.len() <= r.index() {
                        table.push(None);
                    }
                    table[r.index()] = Some(Box::new(on_cancel));
                }
                let out = body(self);
                self.end_run(r);
                self.callbacks.borrow_mut()[r.index()] = None;
                out
            }
        }
    }
}

fn expect(state: &AtomicUsize, expected_state: usize) {
    assert_eq!(state.load(Ordering::Acquire), expected_state);
    state.store(expected_state + 1, Ordering::Release);
}

#[test]
fn none_run() {
    let b = AtomicBool::new(false);
    let token = Scoped::none();
    assert_eq!(42, token.run(|_| b.store(true, Ordering::Relaxed), |_| 42));
    assert_eq!(false, b.load(Ordering::Relaxed));
}

#[test]
fn run_already_canceled() {
    let state = AtomicUsize::new(0);
    let cts = Scoped::new();
    cts.cancel();
    expect(&state, 0);
    cts.run(
        |cts| {
            assert!(cts.is_canceled());
            expect(&state, 1);
        },
        |_| expect(&state, 2),
    );
    expect(&state, 3);
}

#[test]
fn recursive_run_already_canceled() {
    let state = AtomicUsize::new(0);
    let cts = Scoped::new();
    cts.cancel();
    cts.run(
        |cts| cts.run(|_| expect(&state, 0), |_| expect(&state, 1)),
        |cts| cts.run(|_| expect(&state, 2), |_| expect(&state, 3)),
    );
    expect(&state, 4);
}

#[test]
fn cancel_in_recursive_run() {
    let state = AtomicUsize::new(0);
    let cts = Scoped::new();
    cts.run(
        |_| expect(&state, 3),
        |cts| {
            expect(&state, 0);
            cts.run(
                |_| expect(&state, 2),
                |cts| {
                    expect(&state, 1);
                    cts.cancel();
                    expect(&state, 4);
                },
            );
            expect(&state, 5);
        },
    );
    expect(&state, 6);
}

#[test]
fn on_cancel_is_not_called_after_end_of_run() {
    let state = AtomicUsize::new(0);
    let cts = Scoped::new();
    cts.run(
        |_| expect(&state, 2),
        |cts| {
            cts.run(|_| panic!("bad!"), |_| expect(&state, 0));
            expect(&state, 1);
            cts.cancel();
            expect(&state, 3);
        },
    );
}

#[test]
fn cancel_from_a_callback_returns_at_once() {
    let state = AtomicUsize::new(0);
    let cts = Scoped::new();
    cts.run(
        |cts| {
            expect(&state, 1);
            assert_eq!(Status::Canceling, cts.status());
            cts.cancel();
            assert_eq!(Status::Canceling, cts.status());
            expect(&state, 2);
        },
        |cts| {
            expect(&state, 0);
            cts.cancel();
            assert_eq!(Status::Canceled, cts.status());
            expect(&state, 3);
        },
    );
    expect(&state, 4);
}

#[test]
fn run_from_a_callback_fires_inline() {
    let state = AtomicUsize::new(0);
    let cts = Scoped::new();
    cts.run(
        |cts| {
            expect(&state, 1);
            cts.run(|_| expect(&state, 2), |_| expect(&state, 3));
            expect(&state, 4);
        },
        |cts| {
            expect(&state, 0);
            cts.cancel();
            expect(&state, 5);
        },
    );
    expect(&state, 6);
}

#[test]
fn run_without_cancel_never_calls_back() {
    let called = AtomicBool::new(false);
    let cts = Scoped::new();
    assert_eq!(7, cts.run(|_| called.store(true, Ordering::Relaxed), |_| 7));
    assert_eq!(false, called.load(Ordering::Relaxed));
    assert_eq!(false, cts.is_canceled());
    cts.cancel();
    assert_eq!(false, called.load(Ordering::Relaxed));
    assert_eq!(true, cts.is_canceled());
}

#[test]
fn sibling_runs_are_each_called_back_once() {
    let calls = AtomicUsize::new(0);
    let cts = Scoped::new();
    cts.run(
        |_| {
            calls.fetch_add(1, Ordering::Relaxed);
        },
        |cts| {
            cts.run(
                |_| {
                    calls.fetch_add(10, Ordering::Relaxed);
                },
                |cts| {
                    cts.cancel();
                    cts.cancel();
                },
            );
            cts.cancel();
        },
    );
    cts.cancel();
    assert_eq!(11, calls.load(Ordering::Relaxed));
}
