//! Properties of the sponge that relate several calls.
use vstd::prelude::*;

use crate::keccakf::{keccak_f, lemma_keccak_f_injective, lemma_keccak_f_len};
use crate::sponge::{
    absorb, advanced, after_squeeze, begin_squeeze, fresh, pad_lanes, squeezed, updated,
    xor_byte, zero_lanes, Sponge, FINAL_BIT,
};

verus! {

proof fn lemma_absorb_keeps_mode(s: Sponge, input: Seq<u8>)
    ensures
        absorb(s, input).squeezing == s.squeezing,
        absorb(s, input).rate == s.rate,
        absorb(s, input).delim == s.delim,
    decreases input.len(),
{
    if input.len() > 0 {
        lemma_absorb_keeps_mode(s, input.drop_last());
    }
}

/// Absorbing `a` and then `b` gives the state that absorbing `a + b` gives.
pub proof fn lemma_absorb_concat(s: Sponge, a: Seq<u8>, b: Seq<u8>)
    ensures
        absorb(absorb(s, a), b) == absorb(s, a + b),
    decreases b.len(),
{
    if b.len() == 0 {
        assert(a + b =~= a);
    } else {
        lemma_absorb_concat(s, a, b.drop_last());
        assert((a + b).drop_last() =~= a + b.drop_last());
        assert((a + b).last() == b.last());
    }
}

/// Input split over two calls of `update` leaves the sponge as one call with
/// the concatenated input does, empty parts included.
pub proof fn lemma_update_concat(s: Sponge, a: Seq<u8>, b: Seq<u8>)
    ensures
        updated(updated(s, a), b) == updated(s, a + b),
{
    let t = crate::sponge::begin_absorb(s);
    lemma_absorb_keeps_mode(t, a);
    lemma_absorb_concat(t, a, b);
}

/// Squeezing `l` bytes gives the first `l` of the bytes that squeezing
/// `l + k` bytes gives.
pub proof fn lemma_squeeze_prefix(s: Sponge, l: nat, k: nat)
    ensures
        squeezed(s, l + k).subrange(0, l as int) == squeezed(s, l),
{
    assert(squeezed(s, l + k).subrange(0, l as int) =~= squeezed(s, l));
}

proof fn lemma_advanced_keeps_mode(s: Sponge, k: nat)
    ensures
        advanced(s, k).squeezing == s.squeezing,
    decreases k,
{
    if k > 0 {
        lemma_advanced_keeps_mode(s, (k - 1) as nat);
    }
}

proof fn lemma_advanced_add(s: Sponge, m: nat, k: nat)
    ensures
        advanced(advanced(s, m), k) == advanced(s, m + k),
    decreases k,
{
    if k > 0 {
        lemma_advanced_add(s, m, (k - 1) as nat);
        assert((m + k - 1) as nat == m + (k - 1) as nat);
    }
}

/// Two calls of `squeeze`, of `m` and then `k` bytes, hand out the bytes that
/// one call of `m + k` bytes hands out, and leave the sponge in the same state.
pub proof fn lemma_squeeze_concat(s: Sponge, m: nat, k: nat)
    ensures
        squeezed(s, m) + squeezed(after_squeeze(s, m), k) == squeezed(s, m + k),
        after_squeeze(after_squeeze(s, m), k) == after_squeeze(s, m + k),
{
    let t = begin_squeeze(s);
    lemma_advanced_keeps_mode(t, m);
    lemma_advanced_add(t, m, k);
    assert forall|j: int| 0 <= j < k implies #[trigger] advanced(advanced(t, m), j as nat) == advanced(
        t,
        (m + j) as nat,
    ) by {
        lemma_advanced_add(t, m, j as nat);
    }
    assert(squeezed(s, m) + squeezed(after_squeeze(s, m), k) =~= squeezed(s, m + k));
}

/// When the offset is at the last byte of the rate window, the delimiter and
/// the final bit land in the same byte.
pub proof fn lemma_pad_at_last_byte(s: Sponge)
    requires
        s.wf(),
        s.offset == s.rate - 1,
    ensures
        pad_lanes(s) == xor_byte(s.lanes, s.offset as int, s.delim ^ FINAL_BIT),
{
    let i = s.offset as int / 8;
    let sh = (8 * (s.offset % 8)) as u64;
    let x = s.lanes[i];
    let d = s.delim;
    assert(sh < 64);
    assert((x ^ ((d as u64) << sh)) ^ ((0x80u8 as u64) << sh) == x ^ (((d ^ 0x80u8) as u64) << sh))
        by (bit_vector)
        requires
            sh < 64,
    ;
    assert(pad_lanes(s) =~= xor_byte(s.lanes, s.offset as int, s.delim ^ FINAL_BIT));
}

proof fn lemma_absorb_wf(s: Sponge, input: Seq<u8>)
    requires
        s.wf(),
    ensures
        absorb(s, input).wf(),
    decreases input.len(),
{
    if input.len() > 0 {
        let t = absorb(s, input.drop_last());
        lemma_absorb_wf(s, input.drop_last());
        lemma_keccak_f_len(xor_byte(t.lanes, t.offset as int, input.last()));
    }
}

/// Absorbing does not read the delimiter.
proof fn lemma_absorb_ignores_delim(s1: Sponge, s2: Sponge, input: Seq<u8>)
    requires
        s1.lanes == s2.lanes,
        s1.offset == s2.offset,
        s1.rate == s2.rate,
        s1.squeezing == s2.squeezing,
    ensures
        absorb(s1, input).lanes == absorb(s2, input).lanes,
        absorb(s1, input).offset == absorb(s2, input).offset,
        absorb(s1, input).rate == absorb(s2, input).rate,
        absorb(s1, input).squeezing == absorb(s2, input).squeezing,
    decreases input.len(),
{
    if input.len() > 0 {
        lemma_absorb_ignores_delim(s1, s2, input.drop_last());
    }
}

proof fn lemma_pad_separates(s1: Sponge, s2: Sponge)
    requires
        s1.wf(),
        s1.lanes == s2.lanes,
        s1.offset == s2.offset,
        s1.rate == s2.rate,
        s1.delim != s2.delim,
    ensures
        pad_lanes(s1) != pad_lanes(s2),
        pad_lanes(s1).len() == 25,
        pad_lanes(s2).len() == 25,
{
    let i = s1.offset as int / 8;
    let j = (s1.rate - 1) / 8;
    let sh = (8 * (s1.offset % 8)) as u64;
    let sh2 = (8 * ((s1.rate - 1) % 8)) as u64;
    let x = s1.lanes[i];
    let d1 = s1.delim;
    let d2 = s2.delim;
    let c = (FINAL_BIT as u64) << sh2;
    assert(sh <= 56);
    assert((x ^ ((d1 as u64) << sh)) != (x ^ ((d2 as u64) << sh))) by (bit_vector)
        requires
            d1 != d2,
            sh <= 56,
    ;
    assert((x ^ ((d1 as u64) << sh)) ^ c != (x ^ ((d2 as u64) << sh)) ^ c) by (bit_vector)
        requires
            (x ^ ((d1 as u64) << sh)) != (x ^ ((d2 as u64) << sh)),
    ;
    if j == i {
        assert(pad_lanes(s1)[i] == (x ^ ((d1 as u64) << sh)) ^ c);
        assert(pad_lanes(s2)[i] == (x ^ ((d2 as u64) << sh)) ^ c);
    } else {
        assert(pad_lanes(s1)[i] == x ^ ((d1 as u64) << sh));
        assert(pad_lanes(s2)[i] == x ^ ((d2 as u64) << sh));
    }
}

/// With the same rate and the same input, two different delimiter bytes
/// leave the sponge in different states once the final block has been padded
/// and permuted.
pub proof fn lemma_delimiters_separate_states(rate: nat, d1: u8, d2: u8, input: Seq<u8>)
    requires
        0 < rate <= 200,
        d1 != d2,
    ensures
        begin_squeeze(updated(fresh(rate, d1), input)).lanes != begin_squeeze(
            updated(fresh(rate, d2), input),
        ).lanes,
{
    let f1 = fresh(rate, d1);
    let f2 = fresh(rate, d2);
    assert(zero_lanes().len() == 25);
    let s1 = absorb(f1, input);
    let s2 = absorb(f2, input);
    lemma_absorb_wf(f1, input);
    lemma_absorb_ignores_delim(f1, f2, input);
    lemma_absorb_keeps_mode(f1, input);
    lemma_absorb_keeps_mode(f2, input);
    lemma_pad_separates(s1, s2);
    lemma_keccak_f_injective(pad_lanes(s1), pad_lanes(s2));
}

} // verus!
