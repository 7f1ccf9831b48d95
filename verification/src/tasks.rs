use vstd::prelude::*;

verus! {

/// Handle to a spawned task of the surrounding asynchronous runtime.
/// Held opaquely; the surrounding program awaits it.
#[verifier::external_type_specification]
#[verifier::external_body]
#[verifier::reject_recursive_types(T)]
pub struct ExJoinHandle<T>(tokio::task::JoinHandle<T>);

/// The error with which awaiting a task can fail in the surrounding runtime;
/// it reaches this library only as the payload of a task handle's future.
#[verifier::external_type_specification]
#[verifier::external_body]
pub struct ExJoinError(tokio::task::JoinError);

/// Sending half of a bounded single-consumer channel; carried in the
/// per-module runtime record as the companion's shutdown signal, and in the
/// per-run state as the outbound messaging bridge.
#[verifier::external_type_specification]
#[verifier::external_body]
#[verifier::reject_recursive_types(T)]
pub struct ExSender<T>(tokio::sync::mpsc::Sender<T>);

/// Handle to the asynchronous runtime itself, used to dispatch blocking
/// execution tasks to its worker pool.
#[verifier::external_type_specification]
#[verifier::external_body]
pub struct ExHandle(tokio::runtime::Handle);

/// Relies on tokio's JoinHandle::is_finished: true when the task has run to
/// completion. The answer depends on scheduling, so nothing is promised of it.
pub assume_specification<T>[ tokio::task::JoinHandle::<T>::is_finished ](
    handle: &tokio::task::JoinHandle<T>,
) -> bool;

} // verus!
