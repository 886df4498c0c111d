use vstd::prelude::*;
use crate::iso9660::binary_writer::{write_at, BinaryWriter, SECTOR_SIZE, next_sector_start};

verus! {

/// The part of a layout that is written; a gap (`None`) keeps what lies
/// there, or zeros where nothing was written yet.
pub open spec fn somes(bytes: Seq<u8>) -> Seq<Option<u8>> {
    Seq::new(bytes.len(), |i: int| Some(bytes[i]))
}

/// `n` bytes that are skipped.
pub open spec fn gap(n: nat) -> Seq<Option<u8>> {
    Seq::new(n, |i: int| None::<u8>)
}

/// The length of a layout up to and including its last written byte.
pub open spec fn written_len(layout: Seq<Option<u8>>) -> nat
    decreases layout.len(),
{
    if layout.len() == 0 {
        0
    } else if layout.last() is Some {
        layout.len()
    } else {
        written_len(layout.drop_last())
    }
}

/// The bytes of `data` after laying `layout` down at offset `pos`: written
/// bytes replace what was there, gaps keep it, and a gap past the end that a
/// later byte closes reads as zeros.
#[verifier::opaque]
pub open spec fn overlay(data: Seq<u8>, pos: int, layout: Seq<Option<u8>>) -> Seq<u8> {
    let end = pos + written_len(layout);
    let len = if written_len(layout) > 0 && end > data.len() { end } else { data.len() as int };
    Seq::new(
        len as nat,
        |i: int|
            if pos <= i < pos + layout.len() && layout[i - pos] is Some {
                layout[i - pos]->0
            } else if i < data.len() {
                data[i]
            } else {
                0u8
            },
    )
}

pub proof fn lemma_written_len_bounds(layout: Seq<Option<u8>>)
    ensures
        written_len(layout) <= layout.len(),
        written_len(layout) > 0 ==> layout[written_len(layout) - 1] is Some,
        forall|i: int| written_len(layout) <= i < layout.len() ==> layout[i] is None,
    decreases layout.len(),
{
    if layout.len() > 0 && layout.last() is None {
        lemma_written_len_bounds(layout.drop_last());
        assert forall|i: int| written_len(layout) <= i < layout.len() implies layout[i] is None by {
            if i < layout.len() - 1 {
                assert(layout.drop_last()[i] == layout[i]);
            }
        }
    }
}

pub proof fn lemma_written_len_somes(bytes: Seq<u8>)
    ensures
        written_len(somes(bytes)) == bytes.len(),
{
    if bytes.len() > 0 {
        assert(somes(bytes).last() is Some);
    }
}

pub proof fn lemma_written_len_gap(n: nat)
    ensures
        written_len(gap(n)) == 0,
    decreases n,
{
    if n > 0 {
        assert(gap(n).drop_last() =~= gap((n - 1) as nat));
        lemma_written_len_gap((n - 1) as nat);
    }
}

pub proof fn lemma_written_len_concat(a: Seq<Option<u8>>, b: Seq<Option<u8>>)
    ensures
        written_len(a + b) == (if written_len(b) > 0 { a.len() + written_len(b) } else { written_len(a) }),
    decreases b.len(),
{
    if b.len() == 0 {
        assert(a + b =~= a);
    } else if b.last() is Some {
        assert((a + b).last() is Some);
    } else {
        assert((a + b).drop_last() =~= a + b.drop_last());
        lemma_written_len_concat(a, b.drop_last());
    }
}

/// A plain write is a layout without gaps.
pub proof fn lemma_write_at_is_overlay(data: Seq<u8>, pos: int, bytes: Seq<u8>)
    requires
        0 <= pos,
    ensures
        write_at(data, pos, bytes) == overlay(data, pos, somes(bytes)),
{
    reveal(overlay);
    reveal(write_at);
    lemma_written_len_somes(bytes);
    assert(write_at(data, pos, bytes) =~= overlay(data, pos, somes(bytes)));
}

/// Laying down nothing but a gap changes nothing.
pub proof fn lemma_overlay_gap(data: Seq<u8>, pos: int, n: nat)
    requires
        0 <= pos,
    ensures
        overlay(data, pos, gap(n)) == data,
{
    reveal(overlay);
    reveal(write_at);
    lemma_written_len_gap(n);
    assert(overlay(data, pos, gap(n)) =~= data);
}

/// Laying down `a` and then `b` right behind it lays down `a + b`.
pub proof fn lemma_overlay_concat(data: Seq<u8>, pos: int, a: Seq<Option<u8>>, b: Seq<Option<u8>>)
    requires
        0 <= pos,
    ensures
        overlay(overlay(data, pos, a), pos + a.len(), b) == overlay(data, pos, a + b),
{
    reveal(overlay);
    reveal(write_at);
    lemma_written_len_concat(a, b);
    lemma_written_len_bounds(a);
    lemma_written_len_bounds(b);
    lemma_written_len_bounds(a + b);
    let lhs = overlay(overlay(data, pos, a), pos + a.len(), b);
    let rhs = overlay(data, pos, a + b);
    assert(lhs.len() == rhs.len());
    assert forall|i: int| 0 <= i < lhs.len() implies lhs[i] == rhs[i] by {
        if pos <= i < pos + a.len() {
            assert((a + b)[i - pos] == a[i - pos]);
        } else if pos + a.len() <= i < pos + a.len() + b.len() {
            assert((a + b)[i - pos] == b[i - pos - a.len()]);
        }
    }
    assert(lhs =~= rhs);
}

/// The layout of `pad_to_sector_end` from `pos`: a gap up to the last byte
/// of the sector, and a zero byte there.
pub open spec fn pad_layout(pos: int) -> Seq<Option<u8>> {
    gap((next_sector_start(pos) - pos - 1) as nat) + somes(seq![0u8])
}

pub proof fn lemma_pad_layout(pos: int)
    requires
        0 <= pos,
    ensures
        pad_layout(pos).len() == next_sector_start(pos) - pos,
        1 <= pad_layout(pos).len() <= SECTOR_SIZE,
        next_sector_start(pos) % (SECTOR_SIZE as int) == 0,
{
    assert(0 <= pos % 2048 < 2048);
    assert((pos + (2048 - pos % 2048)) % 2048 == 0) by (nonlinear_arith)
        requires 0 <= pos;
}

/// After a write of `bytes` behind the layout laid so far, the layout grows
/// by those bytes.
pub proof fn lemma_step_write(data: Seq<u8>, pos: int, laid: Seq<Option<u8>>, bytes: Seq<u8>)
    requires
        0 <= pos,
    ensures
        write_at(overlay(data, pos, laid), pos + laid.len(), bytes) == overlay(data, pos, laid + somes(bytes)),
{
    lemma_write_at_is_overlay(overlay(data, pos, laid), pos + laid.len(), bytes);
    lemma_overlay_concat(data, pos, laid, somes(bytes));
}

/// After a skip of `n` bytes behind the layout laid so far, the layout grows
/// by a gap.
pub proof fn lemma_step_gap(data: Seq<u8>, pos: int, laid: Seq<Option<u8>>, n: nat)
    requires
        0 <= pos,
    ensures
        overlay(data, pos, laid) == overlay(data, pos, laid + gap(n)),
{
    lemma_overlay_gap(overlay(data, pos, laid), pos + laid.len(), n);
    lemma_overlay_concat(data, pos, laid, gap(n));
}

/// Laying down nothing changes nothing.
pub proof fn lemma_overlay_empty(data: Seq<u8>, pos: int)
    requires
        0 <= pos,
    ensures
        overlay(data, pos, Seq::<Option<u8>>::empty()) == data,
{
    reveal(overlay);
    reveal(write_at);
    assert(overlay(data, pos, Seq::<Option<u8>>::empty()) =~= data);
}

/// The outcome of laying `lay` down from the position of `old` to `new`: it
/// succeeds exactly when the end stays addressable, and then the bytes are
/// those of the layout laid over the old ones and the position is behind it.
pub open spec fn laid_down(old: &BinaryWriter, new: &BinaryWriter, lay: Seq<Option<u8>>, ok: bool) -> bool {
    &&& ok == (old.position() + lay.len() <= usize::MAX)
    &&& ok ==> {
        &&& new.bytes() == overlay(old.bytes(), old.position() as int, lay)
        &&& new.position() == old.position() + lay.len()
    }
}

} // verus!
