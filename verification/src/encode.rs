//! Verified encodings of parameter values into the byte forms the image
//! holds: four-byte little-endian words and NUL-terminated ASCII decimal
//! text with a bounded byte budget.

use vstd::prelude::*;

verus! {

use crate::engine::PatchError;

/// The four bytes of `v` in little-endian order.
pub open spec fn le32(v: u32) -> Seq<u8> {
    seq![
        (v & 0xff) as u8,
        ((v >> 8) & 0xff) as u8,
        ((v >> 16) & 0xff) as u8,
        ((v >> 24) & 0xff) as u8,
    ]
}

/// The four-byte little-endian representation of `v`.
pub fn le32_bytes(v: u32) -> (r: Vec<u8>)
    ensures
        r@ == le32(v),
{
    proof {
        assert((v & 0xff) < 256 && ((v >> 8) & 0xff) < 256 && ((v >> 16) & 0xff) < 256 && ((v
            >> 24) & 0xff) < 256) by (bit_vector);
    }
    let mut r: Vec<u8> = Vec::new();
    r.push((v & 0xff) as u8);
    r.push(((v >> 8) & 0xff) as u8);
    r.push(((v >> 16) & 0xff) as u8);
    r.push(((v >> 24) & 0xff) as u8);
    proof {
        assert(r@ =~= le32(v));
    }
    r
}

/// The ASCII decimal digits of `n`, most significant first.
pub open spec fn dec_digits(n: nat) -> Seq<u8>
    decreases n,
{
    if n < 10 {
        seq![(48 + n) as u8]
    } else {
        dec_digits(n / 10).push((48 + n % 10) as u8)
    }
}

/// A value below 1000 encodes to at most three decimal digits.
pub proof fn lemma_dec_digits_len_below_1000(n: nat)
    requires
        n < 1000,
    ensures
        dec_digits(n).len() <= 3,
        n < 100 ==> dec_digits(n).len() <= 2,
        n < 10 ==> dec_digits(n).len() == 1,
    decreases n,
{
    if n >= 10 {
        lemma_dec_digits_len_below_1000(n / 10);
    }
}

/// The elements of `v`, last to first.
fn reversed(v: &Vec<u8>) -> (r: Vec<u8>)
    ensures
        r@ == v@.reverse(),
{
    let n: usize = v.len();
    let mut r: Vec<u8> = Vec::new();
    let mut i: usize = 0;
    while i < n
        invariant
            n == v@.len(),
            i <= n,
            r@.len() == i,
            forall|k: int| 0 <= k < i ==> r@[k] == v@[n - 1 - k],
        decreases n - i,
    {
        let b: u8 = v[n - 1 - i];
        r.push(b);
        i = i + 1;
    }
    proof {
        assert(r@ =~= v@.reverse());
    }
    r
}

/// The ASCII decimal text of `v`, most significant digit first.
pub fn encode_decimal(v: u32) -> (r: Vec<u8>)
    ensures
        r@ == dec_digits(v as nat),
{
    let mut rev: Vec<u8> = Vec::new();
    let mut x: u32 = v;
    while x >= 10
        invariant
            dec_digits(v as nat) == dec_digits(x as nat) + rev@.reverse(),
        decreases x,
    {
        let ghost rev0 = rev@;
        let ghost x0 = x as nat;
        let d: u8 = 48 + (x % 10) as u8;
        rev.push(d);
        x = x / 10;
        proof {
            assert(dec_digits(x0) == dec_digits(x0 / 10).push(d));
            assert(rev@.reverse() =~= seq![d] + rev0.reverse());
            assert(dec_digits(x0 / 10) + rev@.reverse() =~= dec_digits(x0) + rev0.reverse());
        }
    }
    let d: u8 = 48 + x as u8;
    rev.push(d);
    proof {
        assert(dec_digits(x as nat) == seq![d]);
        assert(rev@.reverse() =~= seq![d] + rev@.drop_last().reverse());
    }
    let r = reversed(&rev);
    proof {
        assert(r@ =~= dec_digits(v as nat));
    }
    r
}

/// NUL-terminated ASCII decimal encoding of `v`, bounded to `budget` bytes
/// including the terminator. Fails with `TooLong` exactly when the encoded
/// text, terminator included, exceeds the budget.
pub fn encode_bounded_decimal(v: u32, budget: usize) -> (r: Result<Vec<u8>, PatchError>)
    ensures
        r is Ok <==> dec_digits(v as nat).len() + 1 <= budget,
        r matches Ok(b) ==> b@ == dec_digits(v as nat).push(0),
        r is Err ==> r == Err::<Vec<u8>, PatchError>(PatchError::TooLong),
{
    let mut b = encode_decimal(v);
    if b.len() >= budget {
        return Err(PatchError::TooLong);
    }
    b.push(0);
    Ok(b)
}

} // verus!
