//! Client-side core of a remote FPGA control protocol: handle-based resource
//! lifecycle, width- and sign-exact memory/register access, and the chunked
//! firmware upload stream, verified against an in-memory model of the server.
use vstd::prelude::*;

pub mod bytes;
pub mod chunk;
pub mod client;
pub mod laws;
pub mod server;
pub mod width;

verus! {

/// Widths (in bytes) at which the typed accessors operate.
pub open spec fn valid_width(size: u64) -> bool {
    size == 1 || size == 2 || size == 4 || size == 8
}

/// Exec check that a width argument is one of the supported access widths.
pub fn is_valid_width(size: u64) -> (r: bool)
    ensures
        r == valid_width(size),
{
    size == 1 || size == 2 || size == 4 || size == 8
}

} // verus!
