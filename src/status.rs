//! Firmware status codes as the boot stub reports them.
use vstd::prelude::*;

verus! {

/// A firmware status code: zero for success, the high bit set for errors.
#[derive(Clone, Copy, Debug, PartialEq, Eq, Structural)]
pub struct Status {
    pub code: u64,
}

pub const SUCCESS: u64 = 0;

pub const LOAD_ERROR: u64 = 0x8000000000000001;

pub const INVALID_PARAMETER: u64 = 0x8000000000000002;

pub const UNSUPPORTED: u64 = 0x8000000000000003;

pub const BUFFER_TOO_SMALL: u64 = 0x8000000000000005;

pub const OUT_OF_RESOURCES: u64 = 0x8000000000000009;

pub const NOT_FOUND: u64 = 0x800000000000000e;

impl Status {
    pub fn new(code: u64) -> (r: Status)
        ensures
            r.code == code,
    {
        Status { code }
    }
}

} // verus!
