//! Payloads for the remote-registry emitters. The momentary payload carries a
//! fresh identifier minted by the caller that performs the emission; the
//! bridge itself only decides when a momentary must fire.

use vstd::prelude::*;

verus! {

/// One momentary emission: a fresh identifier and an optional tag.
pub struct Momentary {
    pub id: String,
    pub tag: Option<String>,
}

} // verus!
