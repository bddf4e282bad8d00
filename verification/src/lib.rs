//! Verified core of a market-data ingestion engine.
//!
//! The library holds the logic of the engine: the authentication signer,
//! the frame classifier, the Level-3 order-book applier, the trade applier,
//! the identifier resolver, and the subscription session state machine.
//! All input/output (websockets, HTTP, cache and store connections) lives
//! outside the library; the library consumes plain values and returns the
//! effects to perform.

pub mod auth;
pub mod book;
pub mod classifier;
pub mod config;
pub mod decimal;
pub mod frames;
pub mod json;
pub mod resolver;
pub mod session;
pub mod signer;
pub mod strutil;
pub mod supervisor;
pub mod trades;

use vstd::prelude::*;

verus! {

/// The largest number of fractional digits a decimal value may carry.
pub const MAX_SCALE: u32 = 18;

} // verus!
