//! The run of the program, on whichever backend the system has.
use vstd::prelude::*;

use crate::backend::{Backend, RunOptions};
use crate::plan::Playback;

verus! {

/// Runs the backend, where there is one; else the error of its start comes back.
pub fn run<B: Backend>(
    backend: Result<B, B::Error>,
    playback: Playback,
    options: RunOptions,
) -> (r: Result<(), B::Error>)
    ensures
        backend is Ok ==> call_ensures(B::run, (backend->Ok_0, playback, options), r),
        backend is Err ==> r == Err::<(), B::Error>(backend->Err_0),
{
    match backend {
        Ok(backend) => backend.run(playback, options),
        Err(e) => Err(e),
    }
}

} // verus!
