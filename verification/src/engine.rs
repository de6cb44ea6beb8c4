//! Byte-level patch primitives on an in-memory image.
//!
//! All primitives mutate the image in place and never change its length.
//! Each one either applies completely or leaves the image untouched and
//! reports why it could not apply.

use vstd::prelude::*;

verus! {

/// Why a single patch application failed.
#[derive(Clone, Copy, Debug, PartialEq, Eq, Structural)]
pub enum PatchError {
    /// The targeted byte range falls outside the image.
    OutOfRange,
    /// A find-and-replace pattern does not occur in the image.
    NotFound,
    /// An encoded parameter value exceeds its byte budget.
    TooLong,
}

/// The image with `bytes` written over the positions starting at `at`;
/// every other position keeps its old value, and the length is unchanged.
pub open spec fn overwrite(img: Seq<u8>, at: int, bytes: Seq<u8>) -> Seq<u8> {
    Seq::new(img.len(), |i: int| if at <= i < at + bytes.len() { bytes[i - at] } else { img[i] })
}

/// Offset-write primitive: overwrite `bytes.len()` bytes of `image` in place,
/// starting at `offset`. Fails with `OutOfRange`, leaving the image
/// untouched, exactly when the target range does not fit in the image.
pub fn write_at(image: &mut Vec<u8>, offset: usize, bytes: &[u8]) -> (r: Result<(), PatchError>)
    ensures
        r is Ok <==> offset + bytes@.len() <= old(image)@.len(),
        r is Ok ==> final(image)@ == overwrite(old(image)@, offset as int, bytes@),
        r is Err ==> final(image)@ == old(image)@ && r == Err::<(), PatchError>(
            PatchError::OutOfRange,
        ),
{
    let n: usize = image.len();
    if offset > n || bytes.len() > n - offset {
        return Err(PatchError::OutOfRange);
    }
    let mut j: usize = 0;
    while j < bytes.len()
        invariant
            offset + bytes@.len() <= old(image)@.len(),
            old(image)@.len() <= usize::MAX,
            j <= bytes@.len(),
            image@.len() == old(image)@.len(),
            forall|k: int|
                0 <= k < old(image)@.len() && !(offset <= k < offset + j) ==> image@[k] == old(
                    image,
                )@[k],
            forall|k: int| offset <= k < offset + j ==> image@[k] == bytes@[k - offset],
        decreases bytes@.len() - j,
    {
        let b: u8 = bytes[j];
        image.set(offset + j, b);
        j = j + 1;
    }
    proof {
        assert(image@ =~= overwrite(old(image)@, offset as int, bytes@));
    }
    Ok(())
}

/// The low byte of a 16-bit mask, as it lands in a little-endian field.
pub open spec fn mask_lo(m: u16) -> u8 {
    (m & 0xff) as u8
}

/// The high byte of a 16-bit mask, as it lands in a little-endian field.
pub open spec fn mask_hi(m: u16) -> u8 {
    (m >> 8) as u8
}

/// The value of a two-byte little-endian field with bytes `lo` and `hi`.
pub open spec fn le16(lo: u8, hi: u8) -> u16 {
    (lo as u16) | ((hi as u16) << 8)
}

/// OR-ing the mask's bytes into the two bytes of a little-endian field is
/// the same as OR-ing the mask into the field's 16-bit value, so the
/// byte-wise read-modify-write below preserves every bit outside the mask.
pub proof fn lemma_le16_or(lo: u8, hi: u8, m: u16)
    ensures
        le16(lo | mask_lo(m), hi | mask_hi(m)) == le16(lo, hi) | m,
{
    assert(((lo | ((m & 0xff) as u8)) as u16) | (((hi | ((m >> 8) as u8)) as u16) << 8) == ((
    lo as u16) | ((hi as u16) << 8)) | m) by (bit_vector);
}

/// Read-modify-write primitive: OR a 16-bit mask into the two-byte
/// little-endian field at `offset`, in place, preserving all other bits of
/// the field and every byte outside it. Fails with `OutOfRange`, leaving
/// the image untouched, exactly when the field does not fit in the image.
pub fn or16_at(image: &mut Vec<u8>, offset: usize, mask: u16) -> (r: Result<(), PatchError>)
    ensures
        r is Ok <==> offset + 2 <= old(image)@.len(),
        r is Ok ==> final(image)@ == overwrite(
            old(image)@,
            offset as int,
            seq![
                old(image)@[offset as int] | mask_lo(mask),
                old(image)@[offset as int + 1] | mask_hi(mask),
            ],
        ),
        r is Err ==> final(image)@ == old(image)@ && r == Err::<(), PatchError>(
            PatchError::OutOfRange,
        ),
{
    let n: usize = image.len();
    if n < 2 || offset > n - 2 {
        return Err(PatchError::OutOfRange);
    }
    proof {
        assert((mask & 0xff) < 256 && (mask >> 8) < 256) by (bit_vector);
    }
    let lo: u8 = image[offset] | ((mask & 0xff) as u8);
    let hi: u8 = image[offset + 1] | ((mask >> 8) as u8);
    image.set(offset, lo);
    image.set(offset + 1, hi);
    proof {
        assert(image@ =~= overwrite(
            old(image)@,
            offset as int,
            seq![
                old(image)@[offset as int] | mask_lo(mask),
                old(image)@[offset as int + 1] | mask_hi(mask),
            ],
        ));
    }
    Ok(())
}

/// A planned offset-write `w` targets a range that lies inside `img`.
pub open spec fn write_in_bounds(img: Seq<u8>, w: (int, Seq<u8>)) -> bool {
    0 <= w.0 && w.0 + w.1.len() <= img.len()
}

/// Every planned offset-write in `ws` targets a range inside `img`.
pub open spec fn writes_in_bounds(img: Seq<u8>, ws: Seq<(int, Seq<u8>)>) -> bool {
    forall|i: int| 0 <= i < ws.len() ==> write_in_bounds(img, ws[i])
}

/// The image after the writes in `ws` are applied in order.
pub open spec fn apply_writes(img: Seq<u8>, ws: Seq<(int, Seq<u8>)>) -> Seq<u8>
    decreases ws.len(),
{
    if ws.len() == 0 {
        img
    } else {
        overwrite(apply_writes(img, ws.drop_last()), ws.last().0, ws.last().1)
    }
}

/// The mathematical write list that a concrete write list stands for.
pub open spec fn writes_view(ws: Seq<(usize, Vec<u8>)>) -> Seq<(int, Seq<u8>)> {
    Seq::new(ws.len(), |i: int| (ws[i].0 as int, ws[i].1@))
}

/// Applying writes never changes the image's length.
pub proof fn lemma_apply_writes_len(img: Seq<u8>, ws: Seq<(int, Seq<u8>)>)
    ensures
        apply_writes(img, ws).len() == img.len(),
    decreases ws.len(),
{
    if ws.len() > 0 {
        lemma_apply_writes_len(img, ws.drop_last());
    }
}

/// Round trip of a single offset-write: writing back the bytes the write
/// overwrote restores the image exactly.
pub proof fn lemma_overwrite_roundtrip(img: Seq<u8>, at: int, bytes: Seq<u8>)
    requires
        0 <= at,
        at + bytes.len() <= img.len(),
    ensures
        overwrite(overwrite(img, at, bytes), at, img.subrange(at, at + bytes.len())) == img,
{
    assert(overwrite(overwrite(img, at, bytes), at, img.subrange(at, at + bytes.len())) =~= img);
}

/// Applying a write list that starts with `w` is applying `w` first and the
/// rest afterwards.
pub proof fn lemma_apply_writes_cons(img: Seq<u8>, w: (int, Seq<u8>), rest: Seq<(int, Seq<u8>)>)
    ensures
        apply_writes(img, seq![w] + rest) == apply_writes(overwrite(img, w.0, w.1), rest),
    decreases rest.len(),
{
    let s = seq![w] + rest;
    if rest.len() == 0 {
        assert(s.drop_last() =~= Seq::<(int, Seq<u8>)>::empty());
        assert(s.last() == w);
        assert(apply_writes(img, s) == overwrite(apply_writes(img, s.drop_last()), w.0, w.1));
        assert(apply_writes(img, s.drop_last()) == img);
        assert(apply_writes(overwrite(img, w.0, w.1), rest) == overwrite(img, w.0, w.1));
    } else {
        assert(s.drop_last() =~= seq![w] + rest.drop_last());
        assert(s.last() == rest.last());
        lemma_apply_writes_cons(img, w, rest.drop_last());
        let h2 = overwrite(img, w.0, w.1);
        assert(apply_writes(img, s) == overwrite(
            apply_writes(img, s.drop_last()),
            s.last().0,
            s.last().1,
        ));
        assert(apply_writes(h2, rest) == overwrite(
            apply_writes(h2, rest.drop_last()),
            rest.last().0,
            rest.last().1,
        ));
    }
}

/// The inverse write list of `ws` against `img`: for each write, the bytes
/// it overwrote, captured from the image state just before that write, in
/// reverse application order.
pub open spec fn inverse_writes(img: Seq<u8>, ws: Seq<(int, Seq<u8>)>) -> Seq<(int, Seq<u8>)>
    decreases ws.len(),
{
    if ws.len() == 0 {
        Seq::empty()
    } else {
        seq![
            (
                ws.last().0,
                apply_writes(img, ws.drop_last()).subrange(
                    ws.last().0,
                    ws.last().0 + ws.last().1.len(),
                ),
            ),
        ] + inverse_writes(img, ws.drop_last())
    }
}

/// Round trip of a write list: applying the writes in `ws` to `img` and
/// then their exact inverse set restores `img` byte for byte.
pub proof fn lemma_writes_roundtrip(img: Seq<u8>, ws: Seq<(int, Seq<u8>)>)
    requires
        writes_in_bounds(img, ws),
    ensures
        apply_writes(apply_writes(img, ws), inverse_writes(img, ws)) == img,
    decreases ws.len(),
{
    if ws.len() == 0 {
    } else {
        let w = ws.last();
        let prev = apply_writes(img, ws.drop_last());
        let cap = prev.subrange(w.0, w.0 + w.1.len());
        lemma_apply_writes_len(img, ws.drop_last());
        assert(write_in_bounds(img, ws[ws.len() - 1]));
        lemma_apply_writes_cons(apply_writes(img, ws), (w.0, cap), inverse_writes(
            img,
            ws.drop_last(),
        ));
        lemma_overwrite_roundtrip(prev, w.0, w.1);
        assert(writes_in_bounds(img, ws.drop_last())) by {
            assert(forall|i: int|
                0 <= i < ws.drop_last().len() ==> ws.drop_last()[i] == ws[i] && write_in_bounds(
                    img,
                    ws[i],
                ));
        }
        lemma_writes_roundtrip(img, ws.drop_last());
    }
}

/// Multi-range atomic unit: validate every target range up front, then
/// apply all the writes in order. A single out-of-range member fails the
/// whole unit with `OutOfRange` before any byte is written, so the unit is
/// all-or-nothing.
pub fn apply_batch(image: &mut Vec<u8>, writes: &Vec<(usize, Vec<u8>)>) -> (r: Result<
    (),
    PatchError,
>)
    ensures
        r is Ok <==> writes_in_bounds(old(image)@, writes_view(writes@)),
        r is Ok ==> final(image)@ == apply_writes(old(image)@, writes_view(writes@)),
        r is Err ==> final(image)@ == old(image)@ && r == Err::<(), PatchError>(
            PatchError::OutOfRange,
        ),
{
    let ghost ws = writes_view(writes@);
    let n: usize = image.len();
    let mut i: usize = 0;
    while i < writes.len()
        invariant
            n == old(image)@.len(),
            image@ == old(image)@,
            ws == writes_view(writes@),
            i <= writes@.len(),
            forall|k: int| 0 <= k < i ==> write_in_bounds(old(image)@, ws[k]),
        decreases writes@.len() - i,
    {
        let w = &writes[i];
        if w.0 > n || w.1.len() > n - w.0 {
            proof {
                assert(ws[i as int] == (writes@[i as int].0 as int, writes@[i as int].1@));
                assert(!write_in_bounds(old(image)@, ws[i as int]));
            }
            return Err(PatchError::OutOfRange);
        }
        i = i + 1;
    }
    assert(writes_in_bounds(old(image)@, ws));
    let mut i: usize = 0;
    while i < writes.len()
        invariant
            writes_in_bounds(old(image)@, ws),
            ws == writes_view(writes@),
            i <= writes@.len(),
            image@.len() == old(image)@.len(),
            image@ == apply_writes(old(image)@, ws.take(i as int)),
        decreases writes@.len() - i,
    {
        let w = &writes[i];
        let res = write_at(image, w.0, w.1.as_slice());
        proof {
            assert(write_in_bounds(old(image)@, ws[i as int]));
            assert(res is Ok);
            assert(ws.take(i + 1).drop_last() =~= ws.take(i as int));
            assert(ws.take(i + 1).last() == ws[i as int]);
        }
        i = i + 1;
    }
    proof {
        assert(ws.take(writes@.len() as int) =~= ws);
    }
    Ok(())
}

/// `pat` occurs in `img` as a contiguous run starting at position `i`.
pub open spec fn match_at(img: Seq<u8>, pat: Seq<u8>, i: int) -> bool {
    0 <= i && i + pat.len() <= img.len() && img.subrange(i, i + pat.len()) == pat
}

/// `pat` occurs somewhere in `img`.
pub open spec fn has_match(img: Seq<u8>, pat: Seq<u8>) -> bool {
    exists|i: int| match_at(img, pat, i)
}

/// `i` is the highest position at which `pat` occurs in `img`.
pub open spec fn is_last_match(img: Seq<u8>, pat: Seq<u8>, i: int) -> bool {
    match_at(img, pat, i) && (forall|j: int| match_at(img, pat, j) ==> j <= i)
}

/// A pattern that occurs exactly once, at `p`, has `p` as its last match.
pub proof fn lemma_unique_match_is_last(img: Seq<u8>, pat: Seq<u8>, p: int)
    requires
        match_at(img, pat, p),
        forall|j: int| match_at(img, pat, j) ==> j == p,
    ensures
        is_last_match(img, pat, p),
{
}

/// The occurrence a last match designates is the one at the highest
/// starting offset: no other occurrence lies beyond it.
pub proof fn lemma_last_match_is_highest(img: Seq<u8>, pat: Seq<u8>, p: int, j: int)
    requires
        is_last_match(img, pat, p),
        match_at(img, pat, j),
    ensures
        j <= p,
{
}

/// Whether `pat` occurs in `haystack` starting exactly at position `i`.
fn matches_at(haystack: &Vec<u8>, pat: &Vec<u8>, i: usize) -> (r: bool)
    requires
        i + pat@.len() <= haystack@.len(),
    ensures
        r == match_at(haystack@, pat@, i as int),
{
    let n: usize = haystack.len();
    let mut j: usize = 0;
    while j < pat.len()
        invariant
            n == haystack@.len(),
            i + pat@.len() <= n,
            j <= pat@.len(),
            forall|k: int| 0 <= k < j ==> haystack@[i + k] == pat@[k],
        decreases pat@.len() - j,
    {
        if haystack[i + j] != pat[j] {
            proof {
                assert(haystack@.subrange(i as int, i + pat@.len())[j as int] == haystack@[i + j]);
            }
            return false;
        }
        j = j + 1;
    }
    proof {
        assert(haystack@.subrange(i as int, i + pat@.len()) =~= pat@);
    }
    true
}

/// The position of the last occurrence of `pat` in `haystack`, scanning the
/// whole buffer and retaining the highest starting index found.
pub(crate) fn find_last(haystack: &Vec<u8>, pat: &Vec<u8>) -> (r: Option<usize>)
    requires
        pat@.len() <= haystack@.len(),
    ensures
        match r {
            Some(i) => is_last_match(haystack@, pat@, i as int),
            None => !has_match(haystack@, pat@),
        },
{
    if pat.len() == 0 {
        let n: usize = haystack.len();
        proof {
            assert(haystack@.subrange(n as int, n as int) =~= pat@);
        }
        return Some(n);
    }
    let limit: usize = haystack.len() - pat.len();
    let mut best: Option<usize> = None;
    let mut i: usize = 0;
    while i <= limit
        invariant
            1 <= pat@.len() <= haystack@.len() <= usize::MAX,
            limit == haystack@.len() - pat@.len(),
            i <= limit + 1,
            match best {
                Some(b) => match_at(haystack@, pat@, b as int) && (forall|j: int|
                    b < j < i ==> !match_at(haystack@, pat@, j)) && b < i,
                None => forall|j: int| j < i ==> !match_at(haystack@, pat@, j),
            },
        decreases limit + 1 - i,
    {
        if matches_at(haystack, pat, i) {
            best = Some(i);
        }
        i = i + 1;
    }
    proof {
        assert(forall|j: int| match_at(haystack@, pat@, j) ==> j <= limit);
    }
    best
}

/// Find-and-replace primitive, exactly as the engine's substitution policy
/// has it: locate the last occurrence of `find` in `haystack` and overwrite
/// `repl.len()` bytes in place starting at that occurrence. Returns `true`
/// if a replacement occurred; returns `false`, leaving the buffer
/// byte-for-byte unchanged, when the buffer is shorter than `find`, shorter
/// than `repl`, or contains no occurrence of `find`.
///
/// When `repl` is longer than `find`, the caller must know that the
/// replacement still fits inside the buffer at the position of the last
/// occurrence; the precondition states exactly that.
pub fn replace(haystack: &mut Vec<u8>, find: &Vec<u8>, repl: &Vec<u8>) -> (r: bool)
    requires
        (old(haystack)@.len() >= find@.len() && old(haystack)@.len() >= repl@.len())
            ==> (forall|i: int|
            is_last_match(old(haystack)@, find@, i) ==> i + repl@.len() <= old(haystack)@.len()),
    ensures
        r == (find@.len() <= old(haystack)@.len() && repl@.len() <= old(haystack)@.len()
            && has_match(old(haystack)@, find@)),
        !r ==> final(haystack)@ == old(haystack)@,
        r ==> exists|p: int|
            is_last_match(old(haystack)@, find@, p) && final(haystack)@ == overwrite(
                old(haystack)@,
                p,
                repl@,
            ),
{
    if haystack.len() < find.len() {
        return false;
    }
    if haystack.len() < repl.len() {
        return false;
    }
    match find_last(haystack, find) {
        None => false,
        Some(idx) => {
            let res = write_at(haystack, idx, repl.as_slice());
            proof {
                assert(res is Ok);
                assert(is_last_match(old(haystack)@, find@, idx as int));
            }
            true
        },
    }
}

} // verus!
