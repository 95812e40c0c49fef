//! IP addresses.

use vstd::prelude::*;

verus! {

/// An IP address, by its octets in network order.
pub enum Address {
    V4([u8; 4]),
    V6([u8; 16]),
}

} // verus!
