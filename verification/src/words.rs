use vstd::prelude::*;
use vstd::bytes::*;
use vstd::slice::slice_subrange;
use crate::buffer::append;

verus! {

/// The bytes of a row of 32-bit numbers, each little-endian.
pub open spec fn u32s_bytes(ws: Seq<u32>) -> Seq<u8>
    decreases ws.len(),
{
    if ws.len() == 0 {
        Seq::empty()
    } else {
        u32s_bytes(ws.drop_last()) + spec_u32_to_le_bytes(ws.last())
    }
}

/// The bytes of a row of 64-bit numbers, each little-endian.
pub open spec fn u64s_bytes(ws: Seq<u64>) -> Seq<u8>
    decreases ws.len(),
{
    if ws.len() == 0 {
        Seq::empty()
    } else {
        u64s_bytes(ws.drop_last()) + spec_u64_to_le_bytes(ws.last())
    }
}

/// The 32-bit number that `b` holds at `at`.
pub open spec fn u32_at(b: Seq<u8>, at: int) -> u32 {
    spec_u32_from_le_bytes(b.subrange(at, at + 4))
}

/// The 64-bit number that `b` holds at `at`.
pub open spec fn u64_at(b: Seq<u8>, at: int) -> u64 {
    spec_u64_from_le_bytes(b.subrange(at, at + 8))
}

/// The 16-bit number that `b` holds at `at`.
pub open spec fn u16_at(b: Seq<u8>, at: int) -> u16 {
    spec_u16_from_le_bytes(b.subrange(at, at + 2))
}

/// The row of `n` 32-bit numbers that `b` holds from `at` on.
pub open spec fn u32s_at(b: Seq<u8>, at: int, n: nat) -> Seq<u32> {
    Seq::new(n, |k: int| u32_at(b, at + 4 * k))
}

/// The row of `n` 64-bit numbers that `b` holds from `at` on.
pub open spec fn u64s_at(b: Seq<u8>, at: int, n: nat) -> Seq<u64> {
    Seq::new(n, |k: int| u64_at(b, at + 8 * k))
}

/// A row of 32-bit numbers takes four bytes for each, and each number is
/// read back from its place, whatever stands before and behind the row.
pub proof fn lemma_u32s(before: Seq<u8>, ws: Seq<u32>, behind: Seq<u8>)
    ensures
        u32s_bytes(ws).len() == 4 * ws.len(),
        u32s_at(before + u32s_bytes(ws) + behind, before.len() as int, ws.len()) == ws,
    decreases ws.len(),
{
    lemma_auto_spec_u32_to_from_le_bytes();
    let b = before + u32s_bytes(ws) + behind;
    let at = before.len() as int;
    if ws.len() > 0 {
        let front = ws.drop_last();
        let tail = spec_u32_to_le_bytes(ws.last()) + behind;
        lemma_u32s(before, front, tail);
        assert(before + u32s_bytes(front) + tail =~= b);
        assert forall|k: int| 0 <= k < ws.len() implies u32_at(b, at + 4 * k) == ws[k] by {
            if k < front.len() {
                assert(u32s_at(b, at, front.len())[k] == front[k]);
            } else {
                assert(b.subrange(at + 4 * k, at + 4 * k + 4) =~= spec_u32_to_le_bytes(ws.last()));
            }
        }
    }
    assert(u32s_at(b, at, ws.len()) =~= ws);
}

/// A row of 64-bit numbers takes eight bytes for each, and each number is
/// read back from its place, whatever stands before and behind the row.
pub proof fn lemma_u64s(before: Seq<u8>, ws: Seq<u64>, behind: Seq<u8>)
    ensures
        u64s_bytes(ws).len() == 8 * ws.len(),
        u64s_at(before + u64s_bytes(ws) + behind, before.len() as int, ws.len()) == ws,
    decreases ws.len(),
{
    lemma_auto_spec_u64_to_from_le_bytes();
    let b = before + u64s_bytes(ws) + behind;
    let at = before.len() as int;
    if ws.len() > 0 {
        let front = ws.drop_last();
        let tail = spec_u64_to_le_bytes(ws.last()) + behind;
        lemma_u64s(before, front, tail);
        assert(before + u64s_bytes(front) + tail =~= b);
        assert forall|k: int| 0 <= k < ws.len() implies u64_at(b, at + 8 * k) == ws[k] by {
            if k < front.len() {
                assert(u64s_at(b, at, front.len())[k] == front[k]);
            } else {
                assert(b.subrange(at + 8 * k, at + 8 * k + 8) =~= spec_u64_to_le_bytes(ws.last()));
            }
        }
    }
    assert(u64s_at(b, at, ws.len()) =~= ws);
}

/// Appends a row of 32-bit numbers to `out`.
pub fn put_u32s(out: &mut Vec<u8>, ws: &[u32])
    ensures
        final(out)@ == old(out)@ + u32s_bytes(ws@),
{
    let mut i: usize = 0;
    assert(u32s_bytes(ws@.take(0)) =~= Seq::<u8>::empty());
    assert(out@ =~= old(out)@ + u32s_bytes(ws@.take(0)));
    while i < ws.len()
        invariant
            i <= ws@.len(),
            out@ == old(out)@ + u32s_bytes(ws@.take(i as int)),
        decreases ws.len() - i,
    {
        let ghost before = out@;
        append(out, u32_to_le_bytes(ws[i]).as_slice());
        proof {
            assert(ws@.take(i + 1).drop_last() =~= ws@.take(i as int));
            assert(ws@.take(i + 1).last() == ws@[i as int]);
            assert(out@ =~= old(out)@ + u32s_bytes(ws@.take(i + 1)));
        }
        i += 1;
    }
    assert(ws@.take(i as int) =~= ws@);
}

/// Appends a row of 64-bit numbers to `out`.
pub fn put_u64s(out: &mut Vec<u8>, ws: &[u64])
    ensures
        final(out)@ == old(out)@ + u64s_bytes(ws@),
{
    let mut i: usize = 0;
    assert(u64s_bytes(ws@.take(0)) =~= Seq::<u8>::empty());
    assert(out@ =~= old(out)@ + u64s_bytes(ws@.take(0)));
    while i < ws.len()
        invariant
            i <= ws@.len(),
            out@ == old(out)@ + u64s_bytes(ws@.take(i as int)),
        decreases ws.len() - i,
    {
        append(out, u64_to_le_bytes(ws[i]).as_slice());
        proof {
            assert(ws@.take(i + 1).drop_last() =~= ws@.take(i as int));
            assert(ws@.take(i + 1).last() == ws@[i as int]);
            assert(out@ =~= old(out)@ + u64s_bytes(ws@.take(i + 1)));
        }
        i += 1;
    }
    assert(ws@.take(i as int) =~= ws@);
}

/// The 16-bit number that `bytes` holds at `at`.
pub fn get_u16(bytes: &[u8], at: usize) -> (r: u16)
    requires
        at + 2 <= bytes.len(),
    ensures
        r == u16_at(bytes@, at as int),
{
    u16_from_le_bytes(slice_subrange(bytes, at, at + 2))
}

/// The 32-bit number that `bytes` holds at `at`.
pub fn get_u32(bytes: &[u8], at: usize) -> (r: u32)
    requires
        at + 4 <= bytes.len(),
    ensures
        r == u32_at(bytes@, at as int),
{
    u32_from_le_bytes(slice_subrange(bytes, at, at + 4))
}

/// The 64-bit number that `bytes` holds at `at`.
pub fn get_u64(bytes: &[u8], at: usize) -> (r: u64)
    requires
        at + 8 <= bytes.len(),
    ensures
        r == u64_at(bytes@, at as int),
{
    u64_from_le_bytes(slice_subrange(bytes, at, at + 8))
}

} // verus!
