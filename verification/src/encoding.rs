//! Byte-level encodings used by the assembler: lowercase hexadecimal (a
//! transaction header carries its dependencies as raw bytes, while the
//! committed-transaction caches are keyed by hex identifiers) and the
//! SHA-256 digest that commits to a candidate's final batch-identifier
//! sequence.

use vstd::prelude::*;
use crate::ids::ids_view;

verus! {

/// The lowercase hex digit for a nibble.
pub open spec fn hex_digit(n: u8) -> u8 {
    if n < 10 {
        (48 + n) as u8
    } else {
        (87 + n) as u8
    }
}

/// Lowercase hex encoding of a byte string: two digits per byte, high
/// nibble first.
pub open spec fn hex_of(b: Seq<u8>) -> Seq<u8> {
    Seq::new(
        b.len() * 2,
        |i: int|
            if i % 2 == 0 {
                hex_digit(b[i / 2] / 16)
            } else {
                hex_digit(b[i / 2] % 16)
            },
    )
}

/// Lowercase hex encoding, computed digit by digit.
pub fn hex_encode(b: &Vec<u8>) -> (r: Vec<u8>)
    ensures
        r@ == hex_of(b@),
{
    let mut r: Vec<u8> = Vec::new();
    let mut i: usize = 0;
    while i < b.len()
        invariant
            0 <= i <= b.len(),
            r@.len() == 2 * i,
            forall|j: int| 0 <= j < 2 * i ==> r@[j] == hex_of(b@)[j],
        decreases b.len() - i,
    {
        let byte = b[i];
        let hi = byte / 16;
        let lo = byte % 16;
        proof {
            assert((2 * i as int) / 2 == i as int);
            assert((2 * i as int + 1) / 2 == i as int);
            assert((2 * i as int) % 2 == 0);
            assert((2 * i as int + 1) % 2 == 1);
        }
        if hi < 10 {
            r.push(48 + hi);
        } else {
            r.push(87 + hi);
        }
        if lo < 10 {
            r.push(48 + lo);
        } else {
            r.push(87 + lo);
        }
        i += 1;
    }
    proof {
        assert(r@ =~= hex_of(b@));
    }
    r
}

/// The concatenation of a list of identifiers into one byte string.
pub open spec fn concat_ids(ids: Seq<Seq<u8>>) -> Seq<u8>
    decreases ids.len(),
{
    if ids.len() == 0 {
        Seq::empty()
    } else {
        concat_ids(ids.drop_last()) + ids.last()
    }
}

/// Flattens a list of identifiers into one byte string.
pub fn concat_id_bytes(ids: &Vec<Vec<u8>>) -> (r: Vec<u8>)
    ensures
        r@ == concat_ids(ids_view(ids@)),
{
    let mut r: Vec<u8> = Vec::new();
    let mut i: usize = 0;
    while i < ids.len()
        invariant
            0 <= i <= ids.len(),
            r@ == concat_ids(ids_view(ids@).take(i as int)),
        decreases ids.len() - i,
    {
        let id = &ids[i];
        let mut k: usize = 0;
        while k < id.len()
            invariant
                0 <= k <= id@.len(),
                r@ == concat_ids(ids_view(ids@).take(i as int)) + id@.take(k as int),
            decreases id@.len() - k,
        {
            r.push(id[k]);
            proof {
                assert(concat_ids(ids_view(ids@).take(i as int)) + id@.take(k + 1)
                    =~= (concat_ids(ids_view(ids@).take(i as int)) + id@.take(k as int)).push(
                    id@[k as int],
                ));
            }
            k += 1;
        }
        proof {
            let pre = ids_view(ids@).take(i + 1);
            assert(pre.drop_last() =~= ids_view(ids@).take(i as int));
            assert(pre.last() == ids@[i as int]@);
            assert(id@.take(id@.len() as int) =~= id@);
            assert(concat_ids(pre) == concat_ids(ids_view(ids@).take(i as int)) + id@);
        }
        i += 1;
    }
    proof {
        assert(ids_view(ids@).take(ids@.len() as int) =~= ids_view(ids@));
    }
    r
}

/// The SHA-256 digest of a byte string; what it is on given bytes is known
/// only to the hash implementation.
pub uninterp spec fn sha256_of(data: Seq<u8>) -> Seq<u8>;

/// Relies on sha2's `Sha256` through the `Digest::digest` interface: a
/// 32-byte digest that depends on the input bytes alone.
#[verifier::external_body]
pub(crate) fn sha256_digest(data: &Vec<u8>) -> (r: Vec<u8>)
    ensures
        r@ == sha256_of(data@),
        r@.len() == 32,
{
    let out = <sha2::Sha256 as sha2::Digest>::digest(data.as_slice());
    out.as_slice().to_vec()
}

} // verus!
