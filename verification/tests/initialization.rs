//! The exactly-once initialization guard and data-path discovery.

use espeak_py::errors::EspeakError;
use espeak_py::init::{choose_data_path, data_path_candidates, InitGuard, InitStep};

#[test]
fn candidates_are_the_known_install_locations() {
    let c = data_path_candidates();
    assert_eq!(c.len(), 4);
    assert_eq!(c[0], "/usr/lib/x86_64-linux-gnu/espeak-ng-data");
    assert_eq!(c[3], "/usr/share/espeak-ng-data");
}

#[test]
fn first_existing_candidate_wins() {
    assert_eq!(choose_data_path(&vec![false, true, true, false]), Some(1));
    assert_eq!(choose_data_path(&vec![true, false, false, false]), Some(0));
}

#[test]
fn no_existing_candidate_means_none() {
    assert_eq!(choose_data_path(&vec![false, false, false, false]), None);
    assert_eq!(choose_data_path(&vec![]), None);
}

#[test]
fn missing_data_fails_closed_without_a_native_call() {
    let mut g = InitGuard::new();
    assert!(!g.is_ready());
    assert_eq!(g.begin(None), Err(EspeakError::DataPathNotFound));
    assert!(!g.is_ready());
    // Identical failure on a second attempt; still no native call asked for.
    assert_eq!(g.begin(None), Err(EspeakError::DataPathNotFound));
    assert!(!g.is_ready());
}

#[test]
fn failed_native_init_allows_retry() {
    let mut g = InitGuard::new();
    assert_eq!(g.begin(Some(0)), Ok(InitStep::CallNative));
    assert_eq!(g.complete(-1), Err(EspeakError::InitializationFailed));
    assert!(!g.is_ready());
    // The flag stayed unset, so a later caller retries.
    assert_eq!(g.begin(Some(0)), Ok(InitStep::CallNative));
    assert_eq!(g.complete(22050), Ok(()));
    assert!(g.is_ready());
}

#[test]
fn only_the_first_successful_attempt_calls_native() {
    let mut g = InitGuard::new();
    let mut native_calls = 0;
    for _ in 0..5 {
        match g.begin(Some(0)).unwrap() {
            InitStep::CallNative => {
                native_calls += 1;
                g.complete(22050).unwrap();
            }
            InitStep::AlreadyReady => {}
        }
    }
    assert_eq!(native_calls, 1);
    assert!(g.is_ready());
}
