//! Session bookkeeping for a desktop volume controller.
//!
//! The library keeps the list of audio sessions (application streams and
//! input/output devices) that a sound server reports, names them, answers
//! queries by name and records the volume and mute state acknowledged by the
//! server.  Talking to the sound server itself is left to the caller.

pub mod controller;
pub mod listing;
pub mod naming;
pub mod session;
pub mod text;
pub mod wasapi;

use vstd::prelude::*;

verus! {

/// How the COM runtime is initialised on platforms that use it.
#[derive(Debug, Clone, Copy, PartialEq, Eq, Structural)]
pub enum CoinitMode {
    MultiThreaded,
    ApartmentThreaded,
}

/// The mode COM is initialised in: the one asked for, multithreaded when
/// none is asked for.
pub fn effective_coinit_mode(mode: Option<CoinitMode>) -> (r: CoinitMode)
    ensures
        r == (match mode {
            Some(m) => m,
            None => CoinitMode::MultiThreaded,
        }),
{
    match mode {
        Some(m) => m,
        None => CoinitMode::MultiThreaded,
    }
}

} // verus!
