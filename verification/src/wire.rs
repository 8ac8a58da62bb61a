//! Bytes on the wire.

use vstd::prelude::*;

verus! {

/// The four little-endian bytes of `n`.
pub open spec fn le_bytes(n: int) -> Seq<u8> {
    seq![
        (n % 256) as u8,
        (n / 256 % 256) as u8,
        (n / 65536 % 256) as u8,
        (n / 16777216 % 256) as u8,
    ]
}

/// Appends `bytes`.
pub(crate) fn push_all(out: &mut Vec<u8>, bytes: &[u8])
    ensures
        final(out)@ == old(out)@ + bytes@,
{
    let mut i: usize = 0;
    while i < bytes.len()
        invariant
            i <= bytes@.len(),
            out@ == old(out)@ + bytes@.take(i as int),
        decreases bytes@.len() - i,
    {
        out.push(bytes[i]);
        i = i + 1;
        assert(out@ =~= old(out)@ + bytes@.take(i as int));
    }
    assert(bytes@.take(i as int) =~= bytes@);
}

/// Four little-endian bytes denote their number, the lowest byte first.
pub proof fn law_le_bytes_denote_their_number(n: int)
    requires
        0 <= n < 0x1_0000_0000,
    ensures
        le_bytes(n).len() == 4,
        le_bytes(n)[0] + 0x100 * le_bytes(n)[1] + 0x1_0000 * le_bytes(n)[2] + 0x100_0000
            * le_bytes(n)[3] == n,
{
    assert(n / 65536 == n / 256 / 256);
    assert(n / 16777216 == n / 256 / 256 / 256);
}

} // verus!
