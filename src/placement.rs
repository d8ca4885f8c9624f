//! Placement tables: the bundled blobs of little-endian 16-bit atlas cells.
use vstd::prelude::*;

verus! {

/// The little-endian 16-bit value at bytes `2 * k` and `2 * k + 1`.
pub open spec fn le_u16_at(bytes: Seq<u8>, k: int) -> u16 {
    (bytes[2 * k] as int + bytes[2 * k + 1] as int * 256) as u16
}

/// The values of a blob read as consecutive little-endian 16-bit integers.
pub open spec fn le_u16s(bytes: Seq<u8>) -> Seq<u16> {
    Seq::new(bytes.len() / 2, |k: int| le_u16_at(bytes, k))
}

/// Reads a placement table blob; `None` when its length is odd.
pub fn decode_placement_table(bytes: &[u8]) -> (r: Option<Vec<u16>>)
    ensures
        r is Some <==> bytes@.len() % 2 == 0,
        r matches Some(t) ==> t@ == le_u16s(bytes@),
{
    if bytes.len() % 2 != 0 {
        return None;
    }
    let len = bytes.len();
    let n = len / 2;
    let mut table: Vec<u16> = Vec::with_capacity(n);
    let mut k: usize = 0;
    while k < n
        invariant
            k <= n,
            len == bytes@.len(),
            n == len / 2,
            table@.len() == k,
            forall|m: int| 0 <= m < k ==> table@[m] == #[trigger] le_u16_at(bytes@, m),
        decreases n - k,
    {
        let lo = bytes[2 * k] as u16;
        let hi = bytes[2 * k + 1] as u16;
        table.push(lo + hi * 256);
        k += 1;
    }
    assert(table@ =~= le_u16s(bytes@));
    Some(table)
}

} // verus!
