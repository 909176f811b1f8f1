use vstd::prelude::*;

verus! {

/// Whether a scan is running.
#[derive(Debug, Clone, Copy, PartialEq, Eq)]
pub struct ScanStatusResponse {
    pub is_scanning: bool,
}

} // verus!
