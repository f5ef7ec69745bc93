use vstd::prelude::*;

verus! {

/// Number of bytes in one padded symbol.
pub const BYTES_PER_SYMBOL: usize = 32;

/// Number of payload bytes carried by one symbol.
pub const BYTES_PER_CHUNK: usize = 31;

/// Length of the padded form of `n` raw bytes.
pub open spec fn padded_len(n: nat) -> nat {
    32 * (n / 31) + if n % 31 != 0 { (n % 31) + 1 } else { 0 }
}

/// Padded form of `d`: each symbol starts with a zero byte and carries the next
/// 31 bytes of `d`; the last symbol is cut short after the last byte of `d`.
pub open spec fn pad(d: Seq<u8>) -> Seq<u8> {
    Seq::new(
        padded_len(d.len()),
        |k: int| if k % 32 == 0 { 0u8 } else { d[31 * (k / 32) + k % 32 - 1] },
    )
}

/// Length of the raw form of `m` padded bytes.
pub open spec fn unpadded_len(m: nat) -> nat {
    31 * (m / 32) + if m % 32 > 1 { ((m % 32) - 1) as nat } else { 0 }
}

/// Raw form of `p`: the first byte of every 32-byte symbol is dropped and the
/// rest is kept in order.
pub open spec fn unpad(p: Seq<u8>) -> Seq<u8> {
    Seq::new(unpadded_len(p.len()), |j: int| p[32 * (j / 31) + j % 31 + 1])
}

/// Inserts a zero byte in front of every 31 bytes of `data`.
pub fn convert_by_padding_empty_byte(data: &[u8]) -> (r: Vec<u8>)
    ensures
        r@ == pad(data@),
        r@.len() == padded_len(data@.len()),
        forall|k: int| 0 <= k < r@.len() && k % 32 == 0 ==> r@[k] == 0u8,
{
    let n = data.len();
    let mut out: Vec<u8> = Vec::new();
    let mut j: usize = 0;
    while j < n
        invariant
            j <= n,
            n == data@.len(),
            out@.len() == padded_len(j as nat),
            forall|k: int|
                0 <= k < out@.len() ==> out@[k] == (if k % 32 == 0 {
                    0u8
                } else {
                    data@[31 * (k / 32) + k % 32 - 1]
                }),
        decreases n - j,
    {
        if j % BYTES_PER_CHUNK == 0 {
            out.push(0u8);
        }
        out.push(data[j]);
        j = j + 1;
    }
    assert(out@ =~= pad(data@));
    out
}

/// Drops the first byte of every 32-byte symbol of `data`; a short last symbol
/// gives up its first byte too.
pub fn remove_empty_byte_from_padded_bytes(data: &[u8]) -> (r: Vec<u8>)
    ensures
        r@ == unpad(data@),
        r@.len() == unpadded_len(data@.len()),
{
    let m = data.len();
    let mut out: Vec<u8> = Vec::new();
    let mut k: usize = 0;
    while k < m
        invariant
            k <= m,
            m == data@.len(),
            out@.len() == unpadded_len(k as nat),
            forall|j: int| 0 <= j < out@.len() ==> out@[j] == data@[32 * (j / 31) + j % 31 + 1],
        decreases m - k,
    {
        if k % BYTES_PER_SYMBOL != 0 {
            out.push(data[k]);
        }
        k = k + 1;
    }
    assert(out@ =~= unpad(data@));
    out
}

/// Unpadding the padded form of any byte sequence gives the sequence back.
pub proof fn lemma_unpad_pad(d: Seq<u8>)
    ensures
        unpad(pad(d)) == d,
{
    let p = pad(d);
    assert(unpadded_len(padded_len(d.len())) == d.len());
    assert forall|j: int| 0 <= j < d.len() implies #[trigger] unpad(p)[j] == d[j] by {
        let k = 32 * (j / 31) + j % 31 + 1;
        assert(k / 32 == j / 31 && k % 32 == j % 31 + 1);
        assert(k < p.len());
    }
    assert(unpad(p) =~= d);
}

/// Padding what the round trip gives back yields the same padded form again.
pub proof fn lemma_pad_unpad_pad(d: Seq<u8>)
    ensures
        pad(unpad(pad(d))) == pad(d),
{
    lemma_unpad_pad(d);
}

} // verus!
