//! Runtime flavours. A host embeds the scheduler in one of three runtimes;
//! these markers name them, and the host picks one when it assembles its
//! execution environment.

use vstd::prelude::*;

verus! {

/// Marker for the development-network runtime flavour.
pub struct NeumannExecutor;

/// Marker for the Kusama-parachain runtime flavour.
pub struct TuringExecutor;

/// Marker for the Polkadot-parachain runtime flavour.
pub struct OakExecutor;

} // verus!
