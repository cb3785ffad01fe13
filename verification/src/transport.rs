//! A secured stream over either transport.
use vstd::prelude::*;

verus! {

/// A stream after its handshake. Browser clients are leaves: they route no
/// traffic.
pub struct PrimusTransportStream<S> {
    pub noise: S,
    pub is_leaf: bool,
}

impl<S> PrimusTransportStream<S> {
    /// The stream of a finished handshake, with a browser client or not.
    pub fn new(noise: S, is_wasm: bool) -> (out: Self)
        ensures
            out.noise == noise,
            out.is_leaf == is_wasm,
    {
        PrimusTransportStream { noise, is_leaf: is_wasm }
    }
}

} // verus!
