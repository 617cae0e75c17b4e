//! The Reed–Solomon erasure code over GF(2^8) of the `reed-solomon-erasure`
//! crate, from plain shards to plain shards.
use reed_solomon_erasure::galois_8::ReedSolomon;
use vstd::prelude::*;

verus! {

/// The parity shards that the code with `k` data and `r` parity shards
/// computes for `data`.
pub uninterp spec fn parity_of(k: nat, r: nat, data: Seq<Seq<u8>>) -> Seq<Seq<u8>>;

/// All shards of a block after the code with `k` data and `r` parity shards
/// has filled in the missing ones.
pub uninterp spec fn rebuilt(k: nat, r: nat, shards: Seq<Option<Seq<u8>>>) -> Seq<Seq<u8>>;

/// The block geometries that the code exists for.
pub open spec fn geometry_ok(k: nat, r: nat) -> bool {
    k >= 1 && r >= 1 && k + r <= 256
}

/// The contents of a list of shards.
pub open spec fn rows(v: Seq<Vec<u8>>) -> Seq<Seq<u8>> {
    Seq::new(v.len(), |i: int| v[i]@)
}

/// The contents of a list of shards of which some are missing.
pub open spec fn slots(v: Seq<Option<Vec<u8>>>) -> Seq<Option<Seq<u8>>> {
    Seq::new(
        v.len(),
        |i: int|
            match v[i] {
                Some(b) => Some(b@),
                None => None,
            },
    )
}

/// How many shards of a list are present.
pub open spec fn present_count(s: Seq<Option<Seq<u8>>>) -> nat
    decreases s.len(),
{
    if s.len() == 0 {
        0
    } else {
        present_count(s.drop_last()) + if s.last() is Some {
            1nat
        } else {
            0nat
        }
    }
}

/// A full block that can be encoded: `k + r` shards of one non-zero length.
pub open spec fn encodable(k: nat, r: nat, s: Seq<Seq<u8>>) -> bool {
    &&& geometry_ok(k, r)
    &&& s.len() == k + r
    &&& s[0].len() > 0
    &&& forall|i: int| 0 <= i < s.len() ==> (#[trigger] s[i]).len() == s[0].len()
}

/// A block that can be completed: `k + r` slots, at least `k` of them
/// filled, the filled ones of one non-zero length.
pub open spec fn reconstructible(k: nat, r: nat, s: Seq<Option<Seq<u8>>>) -> bool {
    &&& geometry_ok(k, r)
    &&& s.len() == k + r
    &&& present_count(s) >= k
    &&& forall|i: int| 0 <= i < s.len() && (#[trigger] s[i]) is Some ==> s[i].unwrap().len() > 0
    &&& forall|i: int, j: int|
        0 <= i < s.len() && 0 <= j < s.len() && (#[trigger] s[i]) is Some && (#[trigger] s[j]) is Some
            ==> s[i].unwrap().len() == s[j].unwrap().len()
}

/// `s` is what is left of the encoded block of `data` after some shards
/// were lost: every shard that is present is the one that was sent.
pub open spec fn erasure_of(k: nat, r: nat, data: Seq<Seq<u8>>, s: Seq<Option<Seq<u8>>>) -> bool {
    &&& data.len() == k
    &&& encodable(k, r, data + parity_of(k, r, data))
    &&& reconstructible(k, r, s)
    &&& forall|i: int|
        0 <= i < s.len() && (#[trigger] s[i]) is Some ==> s[i].unwrap() == (data + parity_of(
            k,
            r,
            data,
        ))[i]
}

/// `ReedSolomon::new`: whether the outside crate builds a code for this
/// geometry. It refuses zero data shards, zero parity shards and more than
/// 256 shards in all.
#[verifier::external_body]
pub(crate) fn codec_accepts(k: usize, r: usize) -> (ok: bool)
    requires
        k + r <= usize::MAX,
    ensures
        ok == geometry_ok(k as nat, r as nat),
{
    ReedSolomon::new(k, r).is_ok()
}

/// `ReedSolomon::encode` on a code made for `(k, r)`: overwrites the last
/// `r` shards with the parity of the first `k`. The outside method reports
/// an error, here `None`, unless it is given exactly `k + r` shards of one
/// non-zero length; it keeps every shard's length and leaves the data
/// shards as they are. What the slots for the parity held before does not
/// enter the result.
#[verifier::external_body]
pub(crate) fn codec_encode(k: usize, r: usize, shards: Vec<Vec<u8>>) -> (out: Option<Vec<Vec<u8>>>)
    requires
        k + r <= usize::MAX,
    ensures
        out is Some <==> encodable(k as nat, r as nat, rows(shards@)),
        out is Some ==> rows(out.unwrap()@) == rows(shards@).subrange(0, k as int) + parity_of(
            k as nat,
            r as nat,
            rows(shards@).subrange(0, k as int),
        ),
        out is Some ==> out.unwrap()@.len() == shards@.len(),
        out is Some ==> forall|i: int|
            0 <= i < shards@.len() ==> (#[trigger] out.unwrap()@[i]).len() == shards@[i].len(),
{
    let mut shards = shards;
    let rs = ReedSolomon::new(k, r).ok()?;
    rs.encode(&mut shards).ok()?;
    Some(shards)
}

/// `ReedSolomon::reconstruct` on a code made for `(k, r)`: fills every
/// missing shard. The outside method reports an error, here `None`, unless
/// it is given exactly `k + r` slots with at least `k` of them filled and
/// all filled ones of one non-zero length; shards that were present come
/// back unchanged and every shard that comes back has that length. The last
/// clause is the erasure-code property that the outside crate exists for:
/// from any `k` shards of an encoded block it restores the whole block.
#[verifier::external_body]
pub(crate) fn codec_reconstruct(k: usize, r: usize, shards: Vec<Option<Vec<u8>>>) -> (out: Option<
    Vec<Vec<u8>>,
>)
    requires
        k + r <= usize::MAX,
    ensures
        out is Some <==> reconstructible(k as nat, r as nat, slots(shards@)),
        out is Some ==> rows(out.unwrap()@) == rebuilt(k as nat, r as nat, slots(shards@)),
        out is Some ==> out.unwrap()@.len() == shards@.len(),
        out is Some ==> forall|i: int|
            0 <= i < shards@.len() && (#[trigger] shards@[i]) is Some ==> out.unwrap()@[i]@
                == shards@[i].unwrap()@,
        forall|data: Seq<Seq<u8>>| #[trigger]
            erasure_of(k as nat, r as nat, data, slots(shards@)) ==> out is Some && rows(
                out.unwrap()@,
            ) == data + parity_of(k as nat, r as nat, data),
{
    let mut shards = shards;
    let rs = ReedSolomon::new(k, r).ok()?;
    rs.reconstruct(&mut shards).ok()?;
    shards.into_iter().collect()
}

} // verus!
