//! The `Keccak` hash functions of the Keccak SHA-3 submission, with
//! delimiter byte `0x01`.
use vstd::prelude::*;

use crate::sponge::{fresh, squeezed, updated, Buffer, KeccakState, Mode, Sponge, STATE_BYTES};

verus! {

/// The rate in bytes for a security level of `bits` bits: the capacity is
/// twice the security level.
pub open spec fn rate_of(bits: nat) -> nat {
    ((1600 - 2 * bits) / 8) as nat
}

/// Rate in bytes for a security level of `bits` bits.
pub fn bits_to_rate(bits: u16) -> (r: usize)
    requires
        2 * bits + 8 <= 1600,
    ensures
        r == rate_of(bits as nat),
        0 < r <= STATE_BYTES,
{
    ((1600 - 2 * bits) / 8) as usize
}

/// A Keccak hasher.
#[derive(Clone, Debug)]
pub struct Keccak {
    state: KeccakState,
}

/// Delimiter byte of the Keccak functions.
pub const KECCAK_DELIM: u8 = 0x01;

impl View for Keccak {
    type V = Sponge;

    closed spec fn view(&self) -> Sponge {
        self.state@
    }
}

impl Keccak {
    pub open spec fn wf(&self) -> bool {
        self@.wf()
    }

    /// Creates a new Keccak hasher with a security level of 224 bits.
    pub fn v224() -> (r: Keccak)
        ensures
            r.wf(),
            r@ == fresh(144, KECCAK_DELIM),
    {
        Keccak::new(224)
    }

    /// Creates a new Keccak hasher with a security level of 256 bits.
    pub fn v256() -> (r: Keccak)
        ensures
            r.wf(),
            r@ == fresh(136, KECCAK_DELIM),
    {
        Keccak::new(256)
    }

    /// Creates a new Keccak hasher with the given state, offset, rate and mode.
    pub fn new_with(buffer: Buffer, offset: u8, rate: u8, mode: Mode) -> (r: Keccak)
        requires
            offset < rate,
            rate as usize <= STATE_BYTES,
        ensures
            r.wf(),
            r@ == (Sponge {
                lanes: buffer.0@,
                offset: offset as nat,
                rate: rate as nat,
                delim: KECCAK_DELIM,
                squeezing: mode == Mode::Squeezing,
            }),
    {
        Keccak { state: KeccakState::new_with(buffer, offset, rate, KECCAK_DELIM, mode) }
    }

    /// Creates a new Keccak hasher with a security level of 384 bits.
    pub fn v384() -> (r: Keccak)
        ensures
            r.wf(),
            r@ == fresh(104, KECCAK_DELIM),
    {
        Keccak::new(384)
    }

    /// Creates a new Keccak hasher with a security level of 512 bits.
    pub fn v512() -> (r: Keccak)
        ensures
            r.wf(),
            r@ == fresh(72, KECCAK_DELIM),
    {
        Keccak::new(512)
    }

    /// Creates a new Keccak hasher with a security level of `bits` bits.
    pub fn new(bits: u16) -> (r: Keccak)
        requires
            2 * bits + 8 <= 1600,
        ensures
            r.wf(),
            r@ == fresh(rate_of(bits as nat), KECCAK_DELIM),
    {
        Keccak { state: KeccakState::new(bits_to_rate(bits), KECCAK_DELIM) }
    }

    /// The sponge state.
    pub fn state(&self) -> (r: &KeccakState)
        ensures
            r@ == self@,
    {
        &self.state
    }

    /// Absorbs additional input. Can be called multiple times.
    pub fn update(&mut self, input: &[u8])
        requires
            old(self).wf(),
        ensures
            final(self).wf(),
            final(self)@ == updated(old(self)@, input@),
    {
        self.state.update(input);
    }

    /// Pads and squeezes the state into `output`, consuming the hasher.
    pub fn finalize(self, output: &mut [u8])
        requires
            self.wf(),
        ensures
            final(output)@ == squeezed(self@, old(output)@.len()),
    {
        self.state.finalize(output);
    }
}

} // verus!
