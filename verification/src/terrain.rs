//! The integer core of the terrain's value noise: a deterministic hash of an
//! integer lattice point.
//!
//! The noise gives each lattice point `(ix, iz)` a pseudorandom value: the
//! point's coordinates are mixed with wrapping 32-bit multiplications and
//! xor-shifts, and the low 24 bits of the mix are kept. Those 24 bits, scaled
//! from `0..=0xFF_FFFF` onto `[-1, 1]`, are the lattice value; because they
//! never exceed `0xFF_FFFF` the value never leaves `[-1, 1]`.

use vstd::prelude::*;

verus! {

/// Largest value the lattice hash takes (24 bits).
pub const LATTICE_HASH_MAX: u32 = 0x00FF_FFFF;

/// First mixing step: both coordinates, reinterpreted as unsigned 32-bit
/// words, times their odd constants, summed modulo `2³²`.
pub open spec fn lattice_seed(ix: i32, iz: i32) -> u32 {
    (((ix as u32) as int * 374_761_393 + (iz as u32) as int * 668_265_263) % 0x1_0000_0000) as u32
}

/// The 24-bit lattice hash of `(ix, iz)`: fold the seed's high bits down
/// (`h ^ h >> 13`), multiply modulo `2³²`, fold again (`h ^ h >> 16`) and keep
/// the low 24 bits.
pub open spec fn lattice_hash(ix: i32, iz: i32) -> u32 {
    let h0 = lattice_seed(ix, iz);
    let h1 = (((h0 ^ (h0 >> 13u32)) as int * 1_274_126_177) % 0x1_0000_0000) as u32;
    (h1 ^ (h1 >> 16u32)) & 0x00FF_FFFFu32
}

/// The 24-bit lattice hash of the integer point `(ix, iz)`; at most
/// [`LATTICE_HASH_MAX`].
pub fn lattice_hash_bits(ix: i32, iz: i32) -> (bits: u32)
    ensures
        bits == lattice_hash(ix, iz),
        bits <= LATTICE_HASH_MAX,
{
    let a = (ix as u32).wrapping_mul(374_761_393);
    let b = (iz as u32).wrapping_mul(668_265_263);
    let mut h = a.wrapping_add(b);
    proof {
        vstd::arithmetic::div_mod::lemma_add_mod_noop(
            (ix as u32) as int * 374_761_393,
            (iz as u32) as int * 668_265_263,
            0x1_0000_0000,
        );
        assert(h == lattice_seed(ix, iz));
    }
    h = (h ^ (h >> 13)).wrapping_mul(1_274_126_177);
    h = h ^ (h >> 16);
    let bits = h & 0x00FF_FFFF;
    assert(bits <= 0x00FF_FFFFu32) by (bit_vector)
        requires
            bits == h & 0x00FF_FFFFu32,
    ;
    bits
}

} // verus!
