//! Tests for the loadable-value cell: the load lifecycle, waiters, progress,
//! reset, and cancellation.

use zutil::app_error::AppError;
use zutil::loadable::{LoadableCell, TryLoadDecision};

/// A successful load is memoized and returned to every reader.
#[test]
fn load_ok() {
    let mut cell: LoadableCell<(), ()> = LoadableCell::new();
    assert_eq!(cell.try_load(), TryLoadDecision::Started);
    cell.complete(Ok(()));
    let got = cell.get().cloned().expect("Should be successful");
    assert_eq!(got, Ok(()));
}

/// A failed load is memoized verbatim and returned to every reader.
#[test]
fn load_err() {
    let mut cell: LoadableCell<(), ()> = LoadableCell::new();
    let err = AppError::msg("Error".to_owned()).context("More error".to_owned());
    assert_eq!(cell.try_load(), TryLoadDecision::Started);
    cell.complete(Err(err.clone()));
    let got = cell.get().cloned().expect("Should be error");
    assert!(got.is_err(), "Should be error");
    assert_eq!(got, Err(err));
}

/// While a producer runs, the cell reports loading and holds no result; once
/// it completes, the result is there and the run is over.
#[test]
fn load_loading() {
    let mut cell: LoadableCell<(), ()> = LoadableCell::new();
    let decision = cell.try_load();
    assert_eq!(decision, TryLoadDecision::Started, "Should not be loading");
    assert!(cell.get().is_none());
    assert!(cell.is_loading());
    cell.complete(Ok(()));
    assert_eq!(cell.get().cloned(), Some(Ok(())));
    assert!(!cell.is_loading());
}

/// All waiters registered before a completion are woken by it, and every one
/// of them then reads the same outcome.
#[test]
fn wakes_every_registered_waiter() {
    let mut cell: LoadableCell<u64, ()> = LoadableCell::new();
    assert_eq!(cell.try_load(), TryLoadDecision::Started);
    for _ in 0..3 {
        assert!(cell.register_waiter());
    }
    let woken = cell.complete(Ok(7));
    assert_eq!(woken, 3);
    // Each woken waiter, and any later one, sees the same outcome and no
    // longer suspends.
    for _ in 0..4 {
        assert!(!cell.register_waiter());
        assert_eq!(cell.get().cloned(), Some(Ok(7)));
    }
}

/// Of several load attempts, at most one starts a fresh computation.
#[test]
fn at_most_one_concurrent_run() {
    let mut cell: LoadableCell<u64, ()> = LoadableCell::new();
    let decisions = [cell.try_load(), cell.try_load(), cell.try_load()];
    let started = decisions
        .iter()
        .filter(|d| **d == TryLoadDecision::Started)
        .count();
    assert_eq!(started, 1);
    assert_eq!(decisions[1], TryLoadDecision::AlreadyRunning);
    assert_eq!(decisions[2], TryLoadDecision::AlreadyRunning);
}

/// A load attempt after a completion finds the memoized outcome and starts
/// nothing.
#[test]
fn idempotent_after_completion() {
    let mut cell: LoadableCell<u64, ()> = LoadableCell::new();
    assert_eq!(cell.try_load(), TryLoadDecision::Started);
    cell.complete(Ok(42));
    assert_eq!(cell.try_load(), TryLoadDecision::AlreadyLoaded);
    assert_eq!(cell.get().cloned(), Some(Ok(42)));
    assert_eq!(cell.try_load(), TryLoadDecision::AlreadyLoaded);
}

/// A reset returns the prior outcome exactly once; a second reset returns
/// nothing.
#[test]
fn reset_clears_exactly_once() {
    let mut cell: LoadableCell<u64, ()> = LoadableCell::new();
    assert_eq!(cell.try_load(), TryLoadDecision::Started);
    cell.complete(Ok(9));
    assert_eq!(cell.reset(), Some(Ok(9)));
    assert_eq!(cell.reset(), None);
    assert!(cell.get().is_none());
}

/// The concrete lifecycle: progress visible during the run, the result and
/// cleared progress after it.
#[test]
fn progress_then_success() {
    let mut cell: LoadableCell<i64, i32> = LoadableCell::new();
    assert_eq!(cell.try_load(), TryLoadDecision::Started);
    cell.update_progress(1);
    assert_eq!(cell.get(), None);
    assert!(cell.is_loading());
    assert_eq!(cell.progress(), Some(&1));
    cell.complete(Ok(42));
    assert_eq!(cell.get().cloned(), Some(Ok(42)));
    assert!(!cell.is_loading());
    assert_eq!(cell.progress(), None);
}

/// Read-modify-write progress starts from the default when none was
/// reported.
#[test]
fn progress_update_with() {
    let mut cell: LoadableCell<i64, i32> = LoadableCell::new();
    assert_eq!(cell.try_load(), TryLoadDecision::Started);
    cell.update_progress_with(|p| p + 5);
    assert_eq!(cell.progress(), Some(&5));
    cell.update_progress_with(|p| p * 2);
    assert_eq!(cell.progress(), Some(&10));
}

/// Stopping a run: the abort is requested only while one is in flight, and a
/// cancelled run leaves a failure marked cancelled for every waiter.
#[test]
fn cancellation() {
    let mut cell: LoadableCell<u64, ()> = LoadableCell::new();
    assert!(!cell.stop_loading());
    assert_eq!(cell.try_load(), TryLoadDecision::Started);
    cell.update_progress(());
    assert!(cell.stop_loading());
    let woken = cell.complete_cancelled();
    assert_eq!(woken, 0);
    let got = cell.get().cloned().expect("cancelled run must leave an outcome");
    assert_eq!(got, Err(AppError::msg("Loader was cancelled".to_owned())));
    assert_eq!(cell.progress(), None);
    assert!(!cell.is_loading());
}

/// A run that panicked leaves a failure carrying the payload.
#[test]
fn panicked_run_is_memoized() {
    let mut cell: LoadableCell<u64, ()> = LoadableCell::new();
    assert_eq!(cell.try_load(), TryLoadDecision::Started);
    cell.complete_panicked("boom".to_owned());
    let got = cell.get().cloned().expect("panicked run must leave an outcome");
    assert_eq!(got, Err(AppError::msg("Loader panicked: boom".to_owned())));
}

/// The diagnostics snapshot reports the three fields under one lock.
#[test]
fn debug_snapshot_reports_fields() {
    let mut cell: LoadableCell<u64, i32> = LoadableCell::new();
    assert_eq!(cell.debug_snapshot(), (false, false, false));
    cell.try_load();
    cell.update_progress(3);
    assert_eq!(cell.debug_snapshot(), (false, true, true));
    cell.complete(Ok(1));
    assert_eq!(cell.debug_snapshot(), (true, false, false));
}
