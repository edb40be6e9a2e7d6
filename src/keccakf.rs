//! The Keccak-f[1600] permutation on a state of 25 lanes of 64 bits.
//!
//! Lane `x + 5 * y` holds the lane at column `x` and row `y` of the 5x5 grid.
use vstd::prelude::*;

verus! {

/// Number of rounds of Keccak-f[1600].
pub const ROUNDS: usize = 24;

/// Number of 64-bit lanes in the state.
pub const LANES: usize = 25;

/// Left rotation of a 64-bit word by `n` bits, `n < 64`.
pub open spec fn rotl(x: u64, n: u64) -> u64 {
    if n == 0 {
        x
    } else {
        (x << n) | (x >> (64 - n) as u64)
    }
}

/// The rotation offset that rho applies to lane `i`.
#[verifier::opaque]
pub open spec fn rho_offset(i: int) -> u64 {
    if i == 0 { 0 }
    else if i == 1 { 1 }
    else if i == 2 { 62 }
    else if i == 3 { 28 }
    else if i == 4 { 27 }
    else if i == 5 { 36 }
    else if i == 6 { 44 }
    else if i == 7 { 6 }
    else if i == 8 { 55 }
    else if i == 9 { 20 }
    else if i == 10 { 3 }
    else if i == 11 { 10 }
    else if i == 12 { 43 }
    else if i == 13 { 25 }
    else if i == 14 { 39 }
    else if i == 15 { 41 }
    else if i == 16 { 45 }
    else if i == 17 { 15 }
    else if i == 18 { 21 }
    else if i == 19 { 8 }
    else if i == 20 { 18 }
    else if i == 21 { 2 }
    else if i == 22 { 61 }
    else if i == 23 { 56 }
    else { 14 }
}

/// The constant that iota adds in round `r`.
#[verifier::opaque]
pub open spec fn round_constant(r: int) -> u64 {
    if r == 0 { 0x0000000000000001 }
    else if r == 1 { 0x0000000000008082 }
    else if r == 2 { 0x800000000000808A }
    else if r == 3 { 0x8000000080008000 }
    else if r == 4 { 0x000000000000808B }
    else if r == 5 { 0x0000000080000001 }
    else if r == 6 { 0x8000000080008081 }
    else if r == 7 { 0x8000000000008009 }
    else if r == 8 { 0x000000000000008A }
    else if r == 9 { 0x0000000000000088 }
    else if r == 10 { 0x0000000080008009 }
    else if r == 11 { 0x000000008000000A }
    else if r == 12 { 0x000000008000808B }
    else if r == 13 { 0x800000000000008B }
    else if r == 14 { 0x8000000000008089 }
    else if r == 15 { 0x8000000000008003 }
    else if r == 16 { 0x8000000000008002 }
    else if r == 17 { 0x8000000000000080 }
    else if r == 18 { 0x000000000000800A }
    else if r == 19 { 0x800000008000000A }
    else if r == 20 { 0x8000000080008081 }
    else if r == 21 { 0x8000000000008080 }
    else if r == 22 { 0x0000000080000001 }
    else { 0x8000000080008008 }
}

/// XOR of the five lanes of column `x`.
pub open spec fn column_parity(a: Seq<u64>, x: int) -> u64 {
    a[x] ^ a[x + 5] ^ a[x + 10] ^ a[x + 15] ^ a[x + 20]
}

/// What theta adds to every lane of column `x`: the parity of the column to
/// the left and the parity of the column to the right rotated by one bit.
pub open spec fn theta_effect(a: Seq<u64>, x: int) -> u64 {
    column_parity(a, (x + 4) % 5) ^ rotl(column_parity(a, (x + 1) % 5), 1)
}

#[verifier::opaque]
pub open spec fn theta(a: Seq<u64>) -> Seq<u64> {
    Seq::new(25, |i: int| a[i] ^ theta_effect(a, i % 5))
}

/// The lane that pi moves to position `j`: pi sends column `x`, row `y` to
/// column `y`, row `2x + 3y`.
pub open spec fn pi_source(j: int) -> int {
    (j % 5 + 3 * (j / 5)) % 5 + 5 * (j % 5)
}

/// Rho (per-lane rotation) followed by pi (lane transposition).
#[verifier::opaque]
pub open spec fn rho_pi(a: Seq<u64>) -> Seq<u64> {
    Seq::new(25, |j: int| rotl(a[pi_source(j)], rho_offset(pi_source(j))))
}

/// The lane `k` columns to the right of lane `i`, in the same row.
pub open spec fn row_neighbour(i: int, k: int) -> int {
    5 * (i / 5) + (i % 5 + k) % 5
}

#[verifier::opaque]
pub open spec fn chi(a: Seq<u64>) -> Seq<u64> {
    Seq::new(25, |i: int| a[i] ^ (!a[row_neighbour(i, 1)] & a[row_neighbour(i, 2)]))
}

pub open spec fn iota(a: Seq<u64>, rc: u64) -> Seq<u64> {
    a.update(0, a[0] ^ rc)
}

/// Round `r` of the permutation.
pub open spec fn round(a: Seq<u64>, r: int) -> Seq<u64> {
    iota(chi(rho_pi(theta(a))), round_constant(r))
}

/// The first `n` rounds of the permutation.
pub open spec fn rounds(a: Seq<u64>, n: nat) -> Seq<u64>
    decreases n,
{
    if n == 0 {
        a
    } else {
        round(rounds(a, (n - 1) as nat), n - 1)
    }
}

/// Keccak-f[1600]: all 24 rounds.
pub open spec fn keccak_f(a: Seq<u64>) -> Seq<u64> {
    rounds(a, ROUNDS as nat)
}

fn rotate_left(x: u64, n: u64) -> (r: u64)
    requires
        n < 64,
    ensures
        r == rotl(x, n),
{
    if n == 0 {
        x
    } else {
        (x << n) | (x >> (64 - n))
    }
}

fn rho_offset_of(i: usize) -> (r: u64)
    ensures
        r == rho_offset(i as int),
        r < 64,
{
    reveal(rho_offset);
    if i == 0 { 0 }
    else if i == 1 { 1 }
    else if i == 2 { 62 }
    else if i == 3 { 28 }
    else if i == 4 { 27 }
    else if i == 5 { 36 }
    else if i == 6 { 44 }
    else if i == 7 { 6 }
    else if i == 8 { 55 }
    else if i == 9 { 20 }
    else if i == 10 { 3 }
    else if i == 11 { 10 }
    else if i == 12 { 43 }
    else if i == 13 { 25 }
    else if i == 14 { 39 }
    else if i == 15 { 41 }
    else if i == 16 { 45 }
    else if i == 17 { 15 }
    else if i == 18 { 21 }
    else if i == 19 { 8 }
    else if i == 20 { 18 }
    else if i == 21 { 2 }
    else if i == 22 { 61 }
    else if i == 23 { 56 }
    else { 14 }
}

fn round_constant_of(r: usize) -> (c: u64)
    ensures
        c == round_constant(r as int),
{
    reveal(round_constant);
    if r == 0 { 0x0000000000000001 }
    else if r == 1 { 0x0000000000008082 }
    else if r == 2 { 0x800000000000808A }
    else if r == 3 { 0x8000000080008000 }
    else if r == 4 { 0x000000000000808B }
    else if r == 5 { 0x0000000080000001 }
    else if r == 6 { 0x8000000080008081 }
    else if r == 7 { 0x8000000000008009 }
    else if r == 8 { 0x000000000000008A }
    else if r == 9 { 0x0000000000000088 }
    else if r == 10 { 0x0000000080008009 }
    else if r == 11 { 0x000000008000000A }
    else if r == 12 { 0x000000008000808B }
    else if r == 13 { 0x800000000000008B }
    else if r == 14 { 0x8000000000008089 }
    else if r == 15 { 0x8000000000008003 }
    else if r == 16 { 0x8000000000008002 }
    else if r == 17 { 0x8000000000000080 }
    else if r == 18 { 0x000000000000800A }
    else if r == 19 { 0x800000008000000A }
    else if r == 20 { 0x8000000080008081 }
    else if r == 21 { 0x8000000000008080 }
    else if r == 22 { 0x0000000080000001 }
    else { 0x8000000080008008 }
}

fn theta_step(a: &mut [u64; 25])
    ensures
        final(a)@ == theta(old(a)@),
{
    let ghost a0 = a@;
    let mut c = [0u64; 5];
    let mut x: usize = 0;
    while x < 5
        invariant
            x <= 5,
            a@ == a0,
            forall|k: int| 0 <= k < x ==> c[k] == column_parity(a0, k),
        decreases 5 - x,
    {
        c[x] = a[x] ^ a[x + 5] ^ a[x + 10] ^ a[x + 15] ^ a[x + 20];
        x = x + 1;
    }
    let mut d = [0u64; 5];
    let mut x: usize = 0;
    while x < 5
        invariant
            x <= 5,
            a@ == a0,
            forall|k: int| 0 <= k < 5 ==> c[k] == column_parity(a0, k),
            forall|k: int| 0 <= k < x ==> d[k] == theta_effect(a0, k),
        decreases 5 - x,
    {
        d[x] = c[(x + 4) % 5] ^ rotate_left(c[(x + 1) % 5], 1);
        x = x + 1;
    }
    let mut i: usize = 0;
    while i < 25
        invariant
            i <= 25,
            forall|k: int| 0 <= k < 5 ==> d[k] == theta_effect(a0, k),
            forall|k: int| 0 <= k < i ==> a[k] == a0[k] ^ theta_effect(a0, k % 5),
            forall|k: int| i <= k < 25 ==> a[k] == a0[k],
        decreases 25 - i,
    {
        a[i] = a[i] ^ d[i % 5];
        i = i + 1;
    }
    reveal(theta);
    assert(a@ =~= theta(a0));
}

fn rho_pi_step(a: &mut [u64; 25])
    ensures
        final(a)@ == rho_pi(old(a)@),
{
    let ghost a0 = a@;
    let mut b = [0u64; 25];
    let mut j: usize = 0;
    while j < 25
        invariant
            j <= 25,
            a@ == a0,
            forall|k: int| 0 <= k < j ==> b[k] == rotl(a0[pi_source(k)], rho_offset(pi_source(k))),
        decreases 25 - j,
    {
        let s = (j % 5 + 3 * (j / 5)) % 5 + 5 * (j % 5);
        b[j] = rotate_left(a[s], rho_offset_of(s));
        j = j + 1;
    }
    *a = b;
    reveal(rho_pi);
    assert(a@ =~= rho_pi(a0));
}

fn chi_step(a: &mut [u64; 25])
    ensures
        final(a)@ == chi(old(a)@),
{
    let ghost a0 = a@;
    let mut b = [0u64; 25];
    let mut i: usize = 0;
    while i < 25
        invariant
            i <= 25,
            a@ == a0,
            forall|k: int|
                0 <= k < i ==> b[k] == a0[k] ^ (!a0[row_neighbour(k, 1)] & a0[row_neighbour(k, 2)]),
        decreases 25 - i,
    {
        let row = 5 * (i / 5);
        b[i] = a[i] ^ (!a[row + (i % 5 + 1) % 5] & a[row + (i % 5 + 2) % 5]);
        i = i + 1;
    }
    *a = b;
    reveal(chi);
    assert(a@ =~= chi(a0));
}

fn iota_step(a: &mut [u64; 25], rc: u64)
    ensures
        final(a)@ == iota(old(a)@, rc),
{
    a[0] = a[0] ^ rc;
}

/// Applies Keccak-f[1600] to the 25 lanes in place.
pub fn keccakf(a: &mut [u64; 25])
    ensures
        final(a)@ == keccak_f(old(a)@),
{
    let ghost a0 = a@;
    let mut r: usize = 0;
    while r < ROUNDS
        invariant
            r <= ROUNDS,
            a@ == rounds(a0, r as nat),
        decreases ROUNDS - r,
    {
        theta_step(a);
        rho_pi_step(a);
        chi_step(a);
        iota_step(a, round_constant_of(r));
        r = r + 1;
    }
}

/// Theta restricted to the column parities, `p[x] ^ p[x - 1] ^ rotl(p[x + 1], 1)`,
/// sends only the zero plane to zero.
proof fn lemma_parity_plane_invertible(d0: u64, d1: u64, d2: u64, d3: u64, d4: u64)
    requires
        d0 ^ d4 ^ ((d1 << 1u64) | (d1 >> 63u64)) == 0,
        d1 ^ d0 ^ ((d2 << 1u64) | (d2 >> 63u64)) == 0,
        d2 ^ d1 ^ ((d3 << 1u64) | (d3 >> 63u64)) == 0,
        d3 ^ d2 ^ ((d4 << 1u64) | (d4 >> 63u64)) == 0,
        d4 ^ d3 ^ ((d0 << 1u64) | (d0 >> 63u64)) == 0,
    ensures
        d0 == 0 && d1 == 0 && d2 == 0 && d3 == 0 && d4 == 0,
{
    assert(d0 == 0 && d1 == 0 && d2 == 0 && d3 == 0 && d4 == 0) by (bit_vector)
        requires
            d0 ^ d4 ^ ((d1 << 1u64) | (d1 >> 63u64)) == 0,
            d1 ^ d0 ^ ((d2 << 1u64) | (d2 >> 63u64)) == 0,
            d2 ^ d1 ^ ((d3 << 1u64) | (d3 >> 63u64)) == 0,
            d3 ^ d2 ^ ((d4 << 1u64) | (d4 >> 63u64)) == 0,
            d4 ^ d3 ^ ((d0 << 1u64) | (d0 >> 63u64)) == 0,
    ;
}

/// Chi is injective on one row of five lanes.
proof fn lemma_chi_row_injective(
    a0: u64, a1: u64, a2: u64, a3: u64, a4: u64,
    b0: u64, b1: u64, b2: u64, b3: u64, b4: u64,
)
    requires
        a0 ^ (!a1 & a2) == b0 ^ (!b1 & b2),
        a1 ^ (!a2 & a3) == b1 ^ (!b2 & b3),
        a2 ^ (!a3 & a4) == b2 ^ (!b3 & b4),
        a3 ^ (!a4 & a0) == b3 ^ (!b4 & b0),
        a4 ^ (!a0 & a1) == b4 ^ (!b0 & b1),
    ensures
        a0 == b0 && a1 == b1 && a2 == b2 && a3 == b3 && a4 == b4,
{
    assert(a0 == b0 && a1 == b1 && a2 == b2 && a3 == b3 && a4 == b4) by (bit_vector)
        requires
            a0 ^ (!a1 & a2) == b0 ^ (!b1 & b2),
            a1 ^ (!a2 & a3) == b1 ^ (!b2 & b3),
            a2 ^ (!a3 & a4) == b2 ^ (!b3 & b4),
            a3 ^ (!a4 & a0) == b3 ^ (!b4 & b0),
            a4 ^ (!a0 & a1) == b4 ^ (!b0 & b1),
    ;
}

proof fn lemma_xor_cancel(x: u64, y: u64, c: u64)
    requires
        x ^ c == y ^ c,
    ensures
        x == y,
{
    assert(x == y) by (bit_vector)
        requires
            x ^ c == y ^ c,
    ;
}

proof fn lemma_rotl_injective(x: u64, y: u64, n: u64)
    requires
        n < 64,
        rotl(x, n) == rotl(y, n),
    ensures
        x == y,
{
    if n != 0 {
        let m = (64 - n) as u64;
        assert(x == y) by (bit_vector)
            requires
                0 < n < 64,
                m == 64 - n,
                (x << n) | (x >> m) == (y << n) | (y >> m),
        ;
    }
}

proof fn lemma_rho_offset_bound(i: int)
    ensures
        rho_offset(i) < 64,
{
    reveal(rho_offset);
}

proof fn lemma_xor_column(a0: u64, a1: u64, a2: u64, a3: u64, a4: u64, e: u64)
    ensures
        (a0 ^ e) ^ (a1 ^ e) ^ (a2 ^ e) ^ (a3 ^ e) ^ (a4 ^ e) == (a0 ^ a1 ^ a2 ^ a3 ^ a4) ^ e,
{
    assert((a0 ^ e) ^ (a1 ^ e) ^ (a2 ^ e) ^ (a3 ^ e) ^ (a4 ^ e) == (a0 ^ a1 ^ a2 ^ a3 ^ a4) ^ e)
        by (bit_vector);
}

proof fn lemma_parity_difference(p: u64, q: u64, r: u64, p2: u64, q2: u64, r2: u64)
    requires
        p ^ (q ^ rotl(r, 1)) == p2 ^ (q2 ^ rotl(r2, 1)),
    ensures
        (p ^ p2) ^ (q ^ q2) ^ (((r ^ r2) << 1u64) | ((r ^ r2) >> 63u64)) == 0,
{
    assert(rotl(r, 1) == (r << 1u64) | (r >> 63u64));
    assert(rotl(r2, 1) == (r2 << 1u64) | (r2 >> 63u64));
    assert((p ^ p2) ^ (q ^ q2) ^ (((r ^ r2) << 1u64) | ((r ^ r2) >> 63u64)) == 0) by (bit_vector)
        requires
            p ^ (q ^ ((r << 1u64) | (r >> 63u64))) == p2 ^ (q2 ^ ((r2 << 1u64) | (r2 >> 63u64))),
    ;
}

proof fn lemma_xor_zero(p: u64, q: u64)
    requires
        p ^ q == 0,
    ensures
        p == q,
{
    assert(p == q) by (bit_vector)
        requires
            p ^ q == 0,
    ;
}

proof fn lemma_theta_lane(a: Seq<u64>, i: int)
    requires
        a.len() == 25,
        0 <= i < 25,
    ensures
        theta(a)[i] == a[i] ^ theta_effect(a, i % 5),
{
    reveal(theta);
}

proof fn lemma_rho_pi_lane(a: Seq<u64>, j: int)
    requires
        a.len() == 25,
        0 <= j < 25,
    ensures
        rho_pi(a)[j] == rotl(a[pi_source(j)], rho_offset(pi_source(j))),
{
    reveal(rho_pi);
}

proof fn lemma_chi_lane(a: Seq<u64>, i: int)
    requires
        a.len() == 25,
        0 <= i < 25,
    ensures
        chi(a)[i] == a[i] ^ (!a[row_neighbour(i, 1)] & a[row_neighbour(i, 2)]),
{
    reveal(chi);
}

proof fn lemma_theta_column(a: Seq<u64>, b: Seq<u64>, x: int)
    requires
        a.len() == 25,
        b.len() == 25,
        0 <= x < 5,
        theta(a) == theta(b),
    ensures
        column_parity(a, x) ^ theta_effect(a, x) == column_parity(b, x) ^ theta_effect(b, x),
{
    let ea = theta_effect(a, x);
    let eb = theta_effect(b, x);
    lemma_theta_lane(a, x);
    lemma_theta_lane(b, x);
    assert((x + 5) % 5 == x);
    lemma_theta_lane(a, x + 5);
    lemma_theta_lane(b, x + 5);
    assert((x + 10) % 5 == x);
    lemma_theta_lane(a, x + 10);
    lemma_theta_lane(b, x + 10);
    assert((x + 15) % 5 == x);
    lemma_theta_lane(a, x + 15);
    lemma_theta_lane(b, x + 15);
    assert((x + 20) % 5 == x);
    lemma_theta_lane(a, x + 20);
    lemma_theta_lane(b, x + 20);
    lemma_xor_column(a[x], a[x + 5], a[x + 10], a[x + 15], a[x + 20], ea);
    lemma_xor_column(b[x], b[x + 5], b[x + 10], b[x + 15], b[x + 20], eb);
    assert(a[x] ^ ea == b[x] ^ eb);
    assert(a[x + 5] ^ ea == b[x + 5] ^ eb);
    assert(a[x + 10] ^ ea == b[x + 10] ^ eb);
    assert(a[x + 15] ^ ea == b[x + 15] ^ eb);
    assert(a[x + 20] ^ ea == b[x + 20] ^ eb);
}

proof fn lemma_theta_injective(a: Seq<u64>, b: Seq<u64>)
    requires
        a.len() == 25,
        b.len() == 25,
        theta(a) == theta(b),
    ensures
        a == b,
{
    let pa0 = column_parity(a, 0);
    let pa1 = column_parity(a, 1);
    let pa2 = column_parity(a, 2);
    let pa3 = column_parity(a, 3);
    let pa4 = column_parity(a, 4);
    let pb0 = column_parity(b, 0);
    let pb1 = column_parity(b, 1);
    let pb2 = column_parity(b, 2);
    let pb3 = column_parity(b, 3);
    let pb4 = column_parity(b, 4);
    lemma_theta_column(a, b, 0);
    lemma_theta_column(a, b, 1);
    lemma_theta_column(a, b, 2);
    lemma_theta_column(a, b, 3);
    lemma_theta_column(a, b, 4);
    lemma_parity_difference(pa0, pa4, pa1, pb0, pb4, pb1);
    lemma_parity_difference(pa1, pa0, pa2, pb1, pb0, pb2);
    lemma_parity_difference(pa2, pa1, pa3, pb2, pb1, pb3);
    lemma_parity_difference(pa3, pa2, pa4, pb3, pb2, pb4);
    lemma_parity_difference(pa4, pa3, pa0, pb4, pb3, pb0);
    lemma_parity_plane_invertible(pa0 ^ pb0, pa1 ^ pb1, pa2 ^ pb2, pa3 ^ pb3, pa4 ^ pb4);
    lemma_xor_zero(pa0, pb0);
    lemma_xor_zero(pa1, pb1);
    lemma_xor_zero(pa2, pb2);
    lemma_xor_zero(pa3, pb3);
    lemma_xor_zero(pa4, pb4);
    assert forall|i: int| 0 <= i < 25 implies a[i] == b[i] by {
        let x = i % 5;
        assert(theta_effect(a, x) == theta_effect(b, x));
        lemma_theta_lane(a, i);
        lemma_theta_lane(b, i);
        lemma_xor_cancel(a[i], b[i], theta_effect(a, x));
    }
    assert(a =~= b);
}

/// Where pi moves lane `i`.
spec fn pi_target(i: int) -> int {
    i / 5 + 5 * ((2 * (i % 5) + 3 * (i / 5)) % 5)
}

proof fn lemma_rho_pi_injective(a: Seq<u64>, b: Seq<u64>)
    requires
        a.len() == 25,
        b.len() == 25,
        rho_pi(a) == rho_pi(b),
    ensures
        a == b,
{
    assert forall|i: int| 0 <= i < 25 implies a[i] == b[i] by {
        let j = pi_target(i);
        assert(0 <= j < 25);
        assert(pi_source(j) == i);
        lemma_rho_pi_lane(a, j);
        lemma_rho_pi_lane(b, j);
        lemma_rho_offset_bound(i);
        lemma_rotl_injective(a[i], b[i], rho_offset(i));
    }
    assert(a =~= b);
}

proof fn lemma_chi_lane_pair(a: Seq<u64>, b: Seq<u64>, r: int, k: int)
    requires
        a.len() == 25,
        b.len() == 25,
        0 <= r <= 20,
        r % 5 == 0,
        0 <= k < 5,
        chi(a) == chi(b),
    ensures
        a[r + k] ^ (!a[r + (k + 1) % 5] & a[r + (k + 2) % 5]) == b[r + k] ^ (!b[r + (k + 1) % 5] & b[r + (k + 2) % 5]),
{
    assert(row_neighbour(r + k, 1) == r + (k + 1) % 5);
    assert(row_neighbour(r + k, 2) == r + (k + 2) % 5);
    lemma_chi_lane(a, r + k);
    lemma_chi_lane(b, r + k);
}

proof fn lemma_chi_row(a: Seq<u64>, b: Seq<u64>, r: int)
    requires
        a.len() == 25,
        b.len() == 25,
        0 <= r <= 20,
        r % 5 == 0,
        chi(a) == chi(b),
    ensures
        a[r] == b[r],
        a[r + 1] == b[r + 1],
        a[r + 2] == b[r + 2],
        a[r + 3] == b[r + 3],
        a[r + 4] == b[r + 4],
{
    lemma_chi_lane_pair(a, b, r, 0);
    lemma_chi_lane_pair(a, b, r, 1);
    lemma_chi_lane_pair(a, b, r, 2);
    lemma_chi_lane_pair(a, b, r, 3);
    lemma_chi_lane_pair(a, b, r, 4);
    assert(r + 0 == r);
    lemma_chi_row_injective(
        a[r], a[r + 1], a[r + 2], a[r + 3], a[r + 4],
        b[r], b[r + 1], b[r + 2], b[r + 3], b[r + 4],
    );
}

proof fn lemma_chi_injective(a: Seq<u64>, b: Seq<u64>)
    requires
        a.len() == 25,
        b.len() == 25,
        chi(a) == chi(b),
    ensures
        a == b,
{
    lemma_chi_row(a, b, 0);
    lemma_chi_row(a, b, 5);
    lemma_chi_row(a, b, 10);
    lemma_chi_row(a, b, 15);
    lemma_chi_row(a, b, 20);
    assert(a =~= b);
}

proof fn lemma_round_injective(a: Seq<u64>, b: Seq<u64>, r: int)
    requires
        a.len() == 25,
        b.len() == 25,
        round(a, r) == round(b, r),
    ensures
        a == b,
        round(a, r).len() == 25,
{
    reveal(theta);
    reveal(rho_pi);
    reveal(chi);
    let ca = chi(rho_pi(theta(a)));
    let cb = chi(rho_pi(theta(b)));
    let rc = round_constant(r);
    assert(iota(ca, rc)[0] == iota(cb, rc)[0]);
    lemma_xor_cancel(ca[0], cb[0], rc);
    assert forall|i: int| 0 <= i < 25 implies ca[i] == cb[i] by {
        if i != 0 {
            assert(iota(ca, rc)[i] == iota(cb, rc)[i]);
        }
    }
    assert(ca =~= cb);
    lemma_chi_injective(rho_pi(theta(a)), rho_pi(theta(b)));
    lemma_rho_pi_injective(theta(a), theta(b));
    lemma_theta_injective(a, b);
}

proof fn lemma_rounds_len(a: Seq<u64>, n: nat)
    requires
        a.len() == 25,
    ensures
        rounds(a, n).len() == 25,
    decreases n,
{
    if n > 0 {
        lemma_rounds_len(a, (n - 1) as nat);
        reveal(chi);
    }
}

proof fn lemma_rounds_injective(a: Seq<u64>, b: Seq<u64>, n: nat)
    requires
        a.len() == 25,
        b.len() == 25,
        rounds(a, n) == rounds(b, n),
    ensures
        a == b,
    decreases n,
{
    if n > 0 {
        lemma_rounds_len(a, (n - 1) as nat);
        lemma_rounds_len(b, (n - 1) as nat);
        lemma_round_injective(rounds(a, (n - 1) as nat), rounds(b, (n - 1) as nat), n - 1);
        lemma_rounds_injective(a, b, (n - 1) as nat);
    }
}

/// Keccak-f[1600] maps 25 lanes to 25 lanes.
pub proof fn lemma_keccak_f_len(a: Seq<u64>)
    requires
        a.len() == 25,
    ensures
        keccak_f(a).len() == 25,
{
    lemma_rounds_len(a, ROUNDS as nat);
}

/// Keccak-f[1600] is a bijection: two distinct states never permute to the
/// same state.
pub proof fn lemma_keccak_f_injective(a: Seq<u64>, b: Seq<u64>)
    requires
        a.len() == 25,
        b.len() == 25,
        a != b,
    ensures
        keccak_f(a) != keccak_f(b),
{
    if keccak_f(a) == keccak_f(b) {
        lemma_rounds_injective(a, b, ROUNDS as nat);
    }
}

} // verus!
