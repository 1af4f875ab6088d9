use vstd::prelude::*;

verus! {

/// Relies on getrandom::getrandom: on success it has filled the whole buffer
/// of `n` bytes from the operating system's secure random source.
#[verifier::external_body]
pub(crate) fn random_bytes(n: usize) -> (r: Option<Vec<u8>>)
    ensures
        r matches Some(v) ==> v@.len() == n,
{
    let mut buf = vec![0u8; n];
    match getrandom::getrandom(&mut buf) {
        Ok(()) => Some(buf),
        Err(_) => None,
    }
}

/// Length of a random identifier, in bytes.
pub const ID_BYTES: usize = 16;

/// A fresh random 128-bit identifier, or `None` when the random source fails.
pub(crate) fn fresh_id() -> (r: Option<u128>) {
    let bytes = match random_bytes(ID_BYTES) {
        Some(b) => b,
        None => return None,
    };
    let mut id: u128 = 0;
    let mut i: usize = 0;
    while i < bytes.len()
        decreases bytes@.len() - i,
    {
        id = (id << 8u32) | (bytes[i] as u128);
        i = i + 1;
    }
    Some(id)
}

} // verus!
