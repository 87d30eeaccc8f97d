//! Files fetched from a game server's container.

use vstd::prelude::*;

verus! {

/// Whether the bytes start like a gzip stream: with the bytes `1f 8b`.
pub fn is_gzipped(bytes: &[u8]) -> (yes: bool)
    ensures
        yes == (bytes@.len() >= 2 && bytes@[0] == 0x1f && bytes@[1] == 0x8b),
{
    bytes.len() >= 2 && bytes[0] == 0x1f && bytes[1] == 0x8b
}

} // verus!
