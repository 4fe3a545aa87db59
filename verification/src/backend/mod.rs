pub mod client;
pub mod frame;
pub mod libs;
pub mod server;

use vstd::prelude::*;

verus! {

/// Size in bytes of one frame on the wire: every message travels as its
/// JSON text padded with zero bytes to exactly this length.
pub const MEG_SIZE: usize = 1024;

} // verus!
