//! Conversions between stored bytes and channel samples: one byte per sample
//! at 8 bits, a big-endian byte pair per sample at 16 bits.

use vstd::prelude::*;
use crate::composite::samples_of;

verus! {

/// The bytes of `b`, as integers.
pub open spec fn bytes_of(b: Seq<u8>) -> Seq<int> {
    b.map_values(|x: u8| x as int)
}

/// The 16-bit samples that consecutive big-endian byte pairs of `b` encode.
pub open spec fn unpacked(b: Seq<u8>) -> Seq<int> {
    Seq::new((b.len() / 2) as nat, |i: int| b[2 * i] * 256 + b[2 * i + 1])
}

/// The big-endian byte pairs of the 16-bit samples `v`.
pub open spec fn packed(v: Seq<int>) -> Seq<u8> {
    Seq::new(
        2 * v.len(),
        |i: int|
            if i % 2 == 0 {
                (v[i / 2] / 256) as u8
            } else {
                (v[i / 2] % 256) as u8
            },
    )
}

/// Splitting a 16-bit sample into its big-endian byte pair and joining the
/// pair again gives back the sample.
pub proof fn lemma_split_join(v: int)
    requires
        0 <= v <= 65535,
    ensures
        ((v / 256) as u8) * 256 + ((v % 256) as u8) == v,
{
}

/// Packing 16-bit samples into big-endian byte pairs and unpacking the bytes
/// gives back the samples.
pub proof fn lemma_unpack_packed(v: Seq<int>)
    requires
        forall|i: int| 0 <= i < v.len() ==> 0 <= #[trigger] v[i] <= 65535,
    ensures
        unpacked(packed(v)) == v,
{
    assert forall|i: int| 0 <= i < v.len() implies #[trigger] unpacked(packed(v))[i] == v[i] by {
        assert(packed(v)[2 * i] == (v[i] / 256) as u8);
        assert(packed(v)[2 * i + 1] == (v[i] % 256) as u8);
        lemma_split_join(v[i]);
    }
    assert(unpacked(packed(v)) =~= v);
}

/// Widens 8-bit samples to `u16` without changing their values.
pub fn widen_samples(data: &[u8]) -> (r: Vec<u16>)
    ensures
        samples_of(r@) == bytes_of(data@),
        r@.len() == data@.len(),
{
    let mut r: Vec<u16> = Vec::new();
    let mut i: usize = 0;
    while i < data.len()
        invariant
            i <= data@.len(),
            r@.len() == i,
            forall|j: int| 0 <= j < i ==> #[trigger] r@[j] as int == data@[j] as int,
        decreases data@.len() - i,
    {
        r.push(data[i] as u16);
        i = i + 1;
    }
    assert(samples_of(r@) =~= bytes_of(data@));
    r
}

/// Narrows samples of at most 255 to bytes without changing their values.
pub fn narrow_samples(data: &[u16]) -> (r: Vec<u8>)
    requires
        forall|i: int| 0 <= i < data@.len() ==> #[trigger] data@[i] <= 255,
    ensures
        bytes_of(r@) == samples_of(data@),
        r@.len() == data@.len(),
{
    let mut r: Vec<u8> = Vec::new();
    let mut i: usize = 0;
    while i < data.len()
        invariant
            i <= data@.len(),
            r@.len() == i,
            forall|j: int| 0 <= j < data@.len() ==> #[trigger] data@[j] <= 255,
            forall|j: int| 0 <= j < i ==> #[trigger] r@[j] as int == data@[j] as int,
        decreases data@.len() - i,
    {
        r.push(data[i] as u8);
        i = i + 1;
    }
    assert(bytes_of(r@) =~= samples_of(data@));
    r
}

/// Joins consecutive big-endian byte pairs into 16-bit samples.
pub fn unpack_u16_be(bytes: &[u8]) -> (r: Vec<u16>)
    requires
        bytes@.len() % 2 == 0,
    ensures
        samples_of(r@) == unpacked(bytes@),
        r@.len() == bytes@.len() / 2,
{
    let mut r: Vec<u16> = Vec::new();
    let mut i: usize = 0;
    while i < bytes.len()
        invariant
            bytes@.len() % 2 == 0,
            i % 2 == 0,
            i <= bytes@.len(),
            r@.len() == i / 2,
            forall|j: int|
                0 <= j < r@.len() ==> #[trigger] r@[j] as int == bytes@[2 * j] * 256 + bytes@[2 * j
                    + 1],
        decreases bytes@.len() - i,
    {
        let high = bytes[i] as u16;
        let low = bytes[i + 1] as u16;
        r.push(high * 256 + low);
        i = i + 2;
    }
    assert(samples_of(r@) =~= unpacked(bytes@));
    r
}

/// Splits each 16-bit sample into its big-endian byte pair.
pub fn pack_u16_be(values: &[u16]) -> (r: Vec<u8>)
    requires
        values@.len() * 2 <= usize::MAX,
    ensures
        r@ == packed(samples_of(values@)),
        r@.len() == 2 * values@.len(),
{
    let mut r: Vec<u8> = Vec::new();
    let mut i: usize = 0;
    while i < values.len()
        invariant
            values@.len() * 2 <= usize::MAX,
            i <= values@.len(),
            r@.len() == 2 * i,
            forall|j: int|
                0 <= j < r@.len() ==> #[trigger] r@[j] == packed(samples_of(values@))[j],
        decreases values@.len() - i,
    {
        let v = values[i];
        r.push((v / 256) as u8);
        r.push((v % 256) as u8);
        i = i + 1;
    }
    assert(r@ =~= packed(samples_of(values@)));
    r
}

} // verus!
