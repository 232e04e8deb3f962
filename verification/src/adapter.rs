//! What the adapter behind a device reports about itself.

use vstd::prelude::*;

verus! {

/// The adapter's name, backend and device type, as the adapter reports them.
#[derive(Clone, Debug, PartialEq, Eq)]
pub struct WebGpuAdapterSummary {
    pub name: String,
    pub backend: String,
    pub device_type: String,
}

} // verus!
