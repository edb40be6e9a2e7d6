//! The sponge state machine: absorbing input into the state and squeezing
//! output out of it, with the permutation applied after every full block.
use vstd::prelude::*;

use crate::keccakf::{keccak_f, keccakf};

verus! {

/// Size of the state in bytes.
pub const STATE_BYTES: usize = 200;

/// Bit that marks the last byte of the rate window in the final block.
pub const FINAL_BIT: u8 = 0x80;

/// The 1600-bit state, as 25 lanes. Byte `i` of the state is byte `i % 8`
/// (little-endian) of lane `i / 8`.
#[derive(Clone, Copy, Debug)]
pub struct Buffer(pub [u64; 25]);

/// Whether the sponge is taking input or handing out output.
#[derive(Clone, Copy, Debug, PartialEq, Eq)]
pub enum Mode {
    Absorbing,
    Squeezing,
}

/// The mathematical model of a sponge: the lanes of the state, the position
/// within the rate window, the rate in bytes, the domain-separation byte, and
/// whether padding has been applied.
pub struct Sponge {
    pub lanes: Seq<u64>,
    pub offset: nat,
    pub rate: nat,
    pub delim: u8,
    pub squeezing: bool,
}

impl Sponge {
    pub open spec fn wf(self) -> bool {
        &&& self.lanes.len() == 25
        &&& 0 < self.rate <= STATE_BYTES
        &&& self.offset < self.rate
    }

    /// The same sponge with other lanes and another offset.
    pub open spec fn with(self, lanes: Seq<u64>, offset: nat) -> Sponge {
        Sponge { lanes, offset, rate: self.rate, delim: self.delim, squeezing: self.squeezing }
    }
}

/// The all-zero state.
pub open spec fn zero_lanes() -> Seq<u64> {
    Seq::new(25, |i: int| 0u64)
}

/// A fresh sponge: zero state, offset zero, absorbing.
pub open spec fn fresh(rate: nat, delim: u8) -> Sponge {
    Sponge { lanes: zero_lanes(), offset: 0, rate, delim, squeezing: false }
}

/// The lanes with byte `b` XORed into state byte `pos`.
pub open spec fn xor_byte(lanes: Seq<u64>, pos: int, b: u8) -> Seq<u64> {
    lanes.update(pos / 8, lanes[pos / 8] ^ ((b as u64) << (8 * (pos % 8)) as u64))
}

/// State byte `pos` of the lanes.
pub open spec fn byte_at(lanes: Seq<u64>, pos: int) -> u8 {
    (lanes[pos / 8] >> (8 * (pos % 8)) as u64) as u8
}

/// Moves one byte forward in the rate window; at the end of the window the
/// permutation runs and the window starts over.
pub open spec fn step(s: Sponge, lanes: Seq<u64>) -> Sponge {
    if s.offset + 1 == s.rate {
        s.with(keccak_f(lanes), 0)
    } else {
        s.with(lanes, s.offset + 1)
    }
}

/// Absorbs one byte.
pub open spec fn absorb_byte(s: Sponge, b: u8) -> Sponge {
    step(s, xor_byte(s.lanes, s.offset as int, b))
}

/// Absorbs the bytes of `input` one after the other.
pub open spec fn absorb(s: Sponge, input: Seq<u8>) -> Sponge
    decreases input.len(),
{
    if input.len() == 0 {
        s
    } else {
        absorb_byte(absorb(s, input.drop_last()), input.last())
    }
}

/// A sponge that was squeezing goes back to absorbing from a freshly
/// permuted state.
pub open spec fn begin_absorb(s: Sponge) -> Sponge {
    if s.squeezing {
        Sponge { lanes: keccak_f(s.lanes), offset: 0, rate: s.rate, delim: s.delim, squeezing: false }
    } else {
        s
    }
}

/// The sponge after `update` with `input`.
pub open spec fn updated(s: Sponge, input: Seq<u8>) -> Sponge {
    absorb(begin_absorb(s), input)
}

/// The padded final block: the delimiter XORed in at the offset and the final
/// bit at the last byte of the rate window.
pub open spec fn pad_lanes(s: Sponge) -> Seq<u64> {
    xor_byte(xor_byte(s.lanes, s.offset as int, s.delim), s.rate - 1, FINAL_BIT)
}

/// A sponge that was absorbing is padded, permuted, and starts squeezing at
/// offset zero; one that was squeezing goes on where it was.
pub open spec fn begin_squeeze(s: Sponge) -> Sponge {
    if s.squeezing {
        s
    } else {
        Sponge { lanes: keccak_f(pad_lanes(s)), offset: 0, rate: s.rate, delim: s.delim, squeezing: true }
    }
}

/// The sponge after handing out `k` bytes.
pub open spec fn advanced(s: Sponge, k: nat) -> Sponge
    decreases k,
{
    if k == 0 {
        s
    } else {
        let t = advanced(s, (k - 1) as nat);
        step(t, t.lanes)
    }
}

/// The first `n` bytes that squeezing hands out from `s`, with no padding.
pub open spec fn output_stream(s: Sponge, n: nat) -> Seq<u8> {
    Seq::new(n, |k: int| byte_at(advanced(s, k as nat).lanes, advanced(s, k as nat).offset as int))
}

/// The `n` bytes that `squeeze` writes.
pub open spec fn squeezed(s: Sponge, n: nat) -> Seq<u8> {
    output_stream(begin_squeeze(s), n)
}

/// The sponge after `squeeze` of `n` bytes.
pub open spec fn after_squeeze(s: Sponge, n: nat) -> Sponge {
    advanced(begin_squeeze(s), n)
}

impl Buffer {
    /// XORs `b` into state byte `pos`.
    fn xor_in(&mut self, pos: usize, b: u8)
        requires
            pos < STATE_BYTES,
        ensures
            final(self).0@ == xor_byte(old(self).0@, pos as int, b),
    {
        let i = pos / 8;
        self.0[i] = self.0[i] ^ ((b as u64) << ((8 * (pos % 8)) as u64));
        assert(self.0@ =~= xor_byte(old(self).0@, pos as int, b));
    }

    /// State byte `pos`.
    fn byte(&self, pos: usize) -> (r: u8)
        requires
            pos < STATE_BYTES,
        ensures
            r == byte_at(self.0@, pos as int),
    {
        (self.0[pos / 8] >> ((8 * (pos % 8)) as u64)) as u8
    }
}

/// The sponge state of one hash computation.
#[derive(Clone, Debug)]
pub struct KeccakState {
    buffer: Buffer,
    offset: usize,
    rate: usize,
    delim: u8,
    mode: Mode,
}

impl View for KeccakState {
    type V = Sponge;

    closed spec fn view(&self) -> Sponge {
        Sponge {
            lanes: self.buffer.0@,
            offset: self.offset as nat,
            rate: self.rate as nat,
            delim: self.delim,
            squeezing: self.mode is Squeezing,
        }
    }
}

impl KeccakState {
    pub open spec fn wf(&self) -> bool {
        self@.wf()
    }

    /// A fresh sponge with the given rate in bytes and delimiter byte.
    pub fn new(rate: usize, delim: u8) -> (r: KeccakState)
        requires
            0 < rate <= STATE_BYTES,
        ensures
            r.wf(),
            r@ == fresh(rate as nat, delim),
    {
        let r = KeccakState { buffer: Buffer([0u64; 25]), offset: 0, rate, delim, mode: Mode::Absorbing };
        assert(r@.lanes =~= zero_lanes());
        r
    }

    /// A sponge with the given state, offset, rate, delimiter and mode.
    pub fn new_with(buffer: Buffer, offset: u8, rate: u8, delim: u8, mode: Mode) -> (r: KeccakState)
        requires
            offset < rate,
            rate as usize <= STATE_BYTES,
        ensures
            r.wf(),
            r@ == (Sponge {
                lanes: buffer.0@,
                offset: offset as nat,
                rate: rate as nat,
                delim,
                squeezing: mode == Mode::Squeezing,
            }),
    {
        KeccakState { buffer, offset: offset as usize, rate: rate as usize, delim, mode }
    }

    /// The state's lanes.
    pub fn buffer(&self) -> (r: Buffer)
        ensures
            r.0@ == self@.lanes,
    {
        self.buffer
    }

    /// The position within the rate window.
    pub fn offset(&self) -> (r: usize)
        ensures
            r == self@.offset,
    {
        self.offset
    }

    /// The rate in bytes.
    pub fn rate(&self) -> (r: usize)
        ensures
            r == self@.rate,
    {
        self.rate
    }

    /// The delimiter byte.
    pub fn delim(&self) -> (r: u8)
        ensures
            r == self@.delim,
    {
        self.delim
    }

    /// Whether the sponge is absorbing or squeezing.
    pub fn mode(&self) -> (r: Mode)
        ensures
            r == Mode::Squeezing <==> self@.squeezing,
    {
        self.mode
    }

    fn keccak(&mut self)
        ensures
            final(self)@ == old(self)@.with(keccak_f(old(self)@.lanes), old(self)@.offset),
    {
        keccakf(&mut self.buffer.0);
    }

    /// Moves one byte forward, permuting at the end of the rate window.
    fn advance(&mut self)
        requires
            old(self).wf(),
        ensures
            final(self).wf(),
            final(self)@ == step(old(self)@, old(self)@.lanes),
    {
        self.offset = self.offset + 1;
        if self.offset == self.rate {
            self.keccak();
            self.offset = 0;
        }
    }

    /// Absorbs `input`. Can be called any number of times; a sponge that was
    /// squeezing is permuted and starts absorbing again.
    pub fn update(&mut self, input: &[u8])
        requires
            old(self).wf(),
        ensures
            final(self).wf(),
            final(self)@ == updated(old(self)@, input@),
    {
        if let Mode::Squeezing = self.mode {
            self.mode = Mode::Absorbing;
            self.keccak();
            self.offset = 0;
        }
        let ghost s0 = self@;
        let mut i: usize = 0;
        while i < input.len()
            invariant
                self.wf(),
                i <= input@.len(),
                self@ == absorb(s0, input@.subrange(0, i as int)),
            decreases input@.len() - i,
        {
            self.buffer.xor_in(self.offset, input[i]);
            self.advance();
            assert(input@.subrange(0, i + 1).drop_last() =~= input@.subrange(0, i as int));
            i = i + 1;
        }
        assert(input@.subrange(0, input@.len() as int) =~= input@);
    }

    /// Pads the final block, permutes, and switches to squeezing.
    fn pad(&mut self)
        requires
            old(self).wf(),
            !old(self)@.squeezing,
        ensures
            final(self).wf(),
            final(self)@ == begin_squeeze(old(self)@),
    {
        self.buffer.xor_in(self.offset, self.delim);
        self.buffer.xor_in(self.rate - 1, FINAL_BIT);
        self.keccak();
        self.offset = 0;
        self.mode = Mode::Squeezing;
    }

    /// Fills `output` with the next bytes of the output stream, padding first
    /// if the sponge was absorbing.
    pub fn squeeze(&mut self, output: &mut [u8])
        requires
            old(self).wf(),
        ensures
            final(self).wf(),
            final(output)@ == squeezed(old(self)@, old(output)@.len()),
            final(self)@ == after_squeeze(old(self)@, old(output)@.len()),
    {
        if let Mode::Absorbing = self.mode {
            self.pad();
        }
        let ghost s0 = self@;
        let n = output.len();
        let mut j: usize = 0;
        while j < n
            invariant
                self.wf(),
                j <= n,
                n == output@.len(),
                n == old(output)@.len(),
                self@ == advanced(s0, j as nat),
                forall|k: int| 0 <= k < j ==> output@[k] == byte_at(advanced(s0, k as nat).lanes, advanced(s0, k as nat).offset as int),
            decreases n - j,
        {
            output[j] = self.buffer.byte(self.offset);
            self.advance();
            j = j + 1;
        }
        assert(output@ =~= output_stream(s0, n as nat));
    }

    /// Pads and squeezes `output.len()` bytes, consuming the sponge.
    pub fn finalize(self, output: &mut [u8])
        requires
            self.wf(),
        ensures
            final(output)@ == squeezed(self@, old(output)@.len()),
    {
        let mut state = self;
        state.squeeze(output);
    }
}

} // verus!
