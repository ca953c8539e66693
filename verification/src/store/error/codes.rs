//! Numeric error codes of the catalogue.

use vstd::prelude::*;

verus! {

pub const INVALID_INPUT: u32 = 1000;
pub const NOT_FOUND: u32 = 1001;
pub const PERMISSION_DENIED: u32 = 1002;
pub const INTERNAL: u32 = 1003;
pub const OUT_OF_SCOPE: u32 = 1004;
pub const INVALID_DATA: u32 = 1005;
pub const TIMEOUT: u32 = 1006;
pub const FILE_NOT_FOUND: u32 = 4000;
pub const FILE_PERMISSION: u32 = 4001;
pub const FILE_CORRUPT: u32 = 4002;
pub const NETWORK_TIMEOUT: u32 = 5000;
pub const NETWORK_UNREACHABLE: u32 = 5001;

} // verus!
