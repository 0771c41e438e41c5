//! Identifiers: content-derived signatures of batches and transactions,
//! carried as byte strings, together with the membership predicates the
//! rest of the crate states its contracts over.

use vstd::prelude::*;

verus! {

/// The mathematical view of a list of identifiers: each element viewed as
/// its byte sequence.
pub open spec fn ids_view(v: Seq<Vec<u8>>) -> Seq<Seq<u8>> {
    v.map(|i: int, d: Vec<u8>| d@)
}

/// Whether the identifier `x` occurs in `ids`.
pub open spec fn id_in(ids: Seq<Seq<u8>>, x: Seq<u8>) -> bool {
    exists|k: int| 0 <= k < ids.len() && ids[k] == x
}

/// Byte-for-byte equality of two identifiers.
pub fn id_eq(a: &Vec<u8>, b: &Vec<u8>) -> (r: bool)
    ensures
        r == (a@ == b@),
{
    if a.len() != b.len() {
        return false;
    }
    let mut i: usize = 0;
    while i < a.len()
        invariant
            0 <= i <= a.len(),
            a@.len() == b@.len(),
            forall|j: int| 0 <= j < i ==> a@[j] == b@[j],
        decreases a.len() - i,
    {
        if a[i] != b[i] {
            return false;
        }
        i += 1;
    }
    proof {
        assert(a@ =~= b@);
    }
    true
}

/// Linear search for the identifier `x` in `v`.
pub fn contains_id(v: &Vec<Vec<u8>>, x: &Vec<u8>) -> (r: bool)
    ensures
        r == id_in(ids_view(v@), x@),
{
    let mut i: usize = 0;
    while i < v.len()
        invariant
            0 <= i <= v.len(),
            forall|k: int| 0 <= k < i ==> ids_view(v@)[k] != x@,
        decreases v.len() - i,
    {
        if id_eq(&v[i], x) {
            assert(ids_view(v@)[i as int] == x@);
            return true;
        }
        assert(ids_view(v@)[i as int] == v@[i as int]@);
        i += 1;
    }
    false
}

/// A fresh copy of an identifier.
pub fn copy_id(a: &Vec<u8>) -> (r: Vec<u8>)
    ensures
        r@ == a@,
{
    let mut r: Vec<u8> = Vec::new();
    let mut i: usize = 0;
    while i < a.len()
        invariant
            0 <= i <= a.len(),
            r@.len() == i,
            forall|j: int| 0 <= j < i ==> r@[j] == a@[j],
        decreases a.len() - i,
    {
        r.push(a[i]);
        i += 1;
    }
    proof {
        assert(r@ =~= a@);
    }
    r
}

/// A fresh copy of a list of identifiers, element for element.
pub fn copy_ids(v: &Vec<Vec<u8>>) -> (r: Vec<Vec<u8>>)
    ensures
        ids_view(r@) == ids_view(v@),
{
    let mut r: Vec<Vec<u8>> = Vec::new();
    let mut i: usize = 0;
    while i < v.len()
        invariant
            0 <= i <= v.len(),
            r@.len() == i,
            forall|j: int| 0 <= j < i ==> r@[j]@ == v@[j]@,
        decreases v.len() - i,
    {
        r.push(copy_id(&v[i]));
        i += 1;
    }
    proof {
        assert(ids_view(r@) =~= ids_view(v@));
    }
    r
}

} // verus!
