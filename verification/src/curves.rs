//! Space-filling curves that map the coordinates of a voxel inside a chunk to a
//! single index and back: a plain row-major layout, a Morton (Z-order) curve,
//! a Hilbert curve over the x/z plane with y stored linearly, and a 2D Hilbert
//! curve over a full `u8` x `u8` square.

use vstd::prelude::*;

verus! {

// ---------------------------------------------------------------------------
// Flat (row-major) layout
// ---------------------------------------------------------------------------

/// The flat index of `(x, y, z)`: x varies fastest, then y, then z.
pub open spec fn flat_encode_spec(x: u8, y: u8, z: u8) -> int {
    x + y * 32 + z * 1024
}

/// The coordinates held by a flat index: three 5-bit fields.
pub open spec fn flat_decode_spec(i: u16) -> (u8, u8, u8) {
    ((i % 32) as u8, ((i / 32) % 32) as u8, ((i / 1024) % 32) as u8)
}

/// A row-major index of a voxel inside a chunk.
#[derive(Debug, Clone, Copy, PartialEq, Eq, Structural, PartialOrd, Ord, Hash)]
pub struct FlatIdx(u16);

impl FlatIdx {
    /// The index as a number.
    pub closed spec fn value(self) -> u16 {
        self.0
    }

    /// Two indices are equal exactly when their numbers are.
    pub broadcast proof fn lemma_value_eq(a: Self, b: Self)
        ensures
            #![trigger a.value(), b.value()]
            a.value() == b.value() <==> a == b,
    {
    }

    /// Returns the index as a number.
    pub fn idx(&self) -> (r: u16)
        ensures
            r == self.value(),
    {
        self.0
    }

    /// Packs the coordinates into one index.
    pub fn encode(x: u8, y: u8, z: u8) -> (r: Self)
        requires
            flat_encode_spec(x, y, z) <= u16::MAX,
        ensures
            r.value() == flat_encode_spec(x, y, z),
    {
        Self(x as u16 + y as u16 * 32 + z as u16 * 1024)
    }

    /// Unpacks the coordinates held by the index.
    pub fn decode(&self) -> (r: (u8, u8, u8))
        ensures
            r == flat_decode_spec(self.value()),
    {
        let i = self.0;
        assert(i & 0x1F == i % 32) by (bit_vector);
        assert((i >> 5u16) & 0x1F == (i / 32) % 32) by (bit_vector);
        assert((i >> 10u16) & 0x1F == (i / 1024) % 32) by (bit_vector);
        ((i & 0x1F) as u8, ((i >> 5) & 0x1F) as u8, ((i >> 10) & 0x1F) as u8)
    }
}

/// Decoding a flat index gives back the coordinates it was made from, for
/// every voxel of a chunk (coordinates below 32).
pub proof fn lemma_flat_roundtrip(x: u8, y: u8, z: u8)
    requires
        x < 32,
        y < 32,
        z < 32,
    ensures
        flat_encode_spec(x, y, z) <= u16::MAX,
        flat_decode_spec(flat_encode_spec(x, y, z) as u16) == (x, y, z),
{
    let i = flat_encode_spec(x, y, z);
    assert(i % 32 == x && (i / 32) % 32 == y && (i / 1024) % 32 == z) by (nonlinear_arith)
        requires
            i == x + y * 32 + z * 1024,
            0 <= x < 32,
            0 <= y < 32,
            0 <= z < 32,
    ;
}

/// Every index below 32768 is the flat index of the coordinates it decodes to.
pub proof fn lemma_flat_decode_encode(i: u16)
    requires
        i < 32768,
    ensures
        flat_encode_spec(flat_decode_spec(i).0, flat_decode_spec(i).1, flat_decode_spec(i).2) == i,
{
    assert(i % 32 + ((i / 32) % 32) * 32 + ((i / 1024) % 32) * 1024 == i) by (nonlinear_arith)
        requires
            0 <= i < 32768,
    ;
}

} // verus!

verus! {

// ---------------------------------------------------------------------------
// Morton (Z-order) curve
// ---------------------------------------------------------------------------

/// Bit `k` of `v`, as 0 or 1.
pub open spec fn bit8(v: u8, k: u16) -> u16 {
    ((v as u16) >> k) & 1
}

/// The Morton index of `(x, y, z)`: bit `k` of x, y and z goes to bit `3k`,
/// `3k + 1` and `3k + 2` of the index, for the five low bits of each.
pub open spec fn morton_encode_spec(x: u8, y: u8, z: u8) -> u16 {
    (bit8(x, 0) << 0u16) | (bit8(y, 0) << 1u16) | (bit8(z, 0) << 2u16)
    | (bit8(x, 1) << 3u16) | (bit8(y, 1) << 4u16) | (bit8(z, 1) << 5u16)
    | (bit8(x, 2) << 6u16) | (bit8(y, 2) << 7u16) | (bit8(z, 2) << 8u16)
    | (bit8(x, 3) << 9u16) | (bit8(y, 3) << 10u16) | (bit8(z, 3) << 11u16)
    | (bit8(x, 4) << 12u16) | (bit8(y, 4) << 13u16) | (bit8(z, 4) << 14u16)
}

/// Bit `k` of `v`, as 0 or 1.
pub open spec fn bit16(v: u16, k: u16) -> u16 {
    (v >> k) & 1
}

/// The coordinate on axis `a` (0 = x, 1 = y, 2 = z) held by a Morton index:
/// bit `k` of it is bit `3k + a` of the index.
pub open spec fn morton_axis_spec(i: u16, a: u16) -> u8 {
    ((bit16(i, a) << 0u16) | (bit16(i, (3 + a) as u16) << 1u16) | (bit16(i, (6 + a) as u16) << 2u16)
    | (bit16(i, (9 + a) as u16) << 3u16) | (bit16(i, (12 + a) as u16) << 4u16)) as u8
}

/// The coordinates held by a Morton index.
pub open spec fn morton_decode_spec(i: u16) -> (u8, u8, u8) {
    (morton_axis_spec(i, 0), morton_axis_spec(i, 1), morton_axis_spec(i, 2))
}

/// A Morton (Z-order) index of a voxel inside a chunk.
#[derive(Debug, Clone, Copy, PartialEq, Eq, Structural, PartialOrd, Ord, Hash)]
pub struct MortonIdx(u16);

impl MortonIdx {
    /// The index as a number.
    pub closed spec fn value(self) -> u16 {
        self.0
    }

    /// Two indices are equal exactly when their numbers are.
    pub broadcast proof fn lemma_value_eq(a: Self, b: Self)
        ensures
            #![trigger a.value(), b.value()]
            a.value() == b.value() <==> a == b,
    {
    }

    /// Returns the index as a number.
    pub fn idx(&self) -> (r: u16)
        ensures
            r == self.value(),
    {
        self.0
    }

    /// Spreads the five low bits of `bits` so that bit `k` lands on bit `3k`.
    fn spread(bits: u32) -> (r: u32)
        ensures
            r == (bits & 1) | (((bits >> 1u32) & 1) << 3u32) | (((bits >> 2u32) & 1) << 6u32)
                | (((bits >> 3u32) & 1) << 9u32) | (((bits >> 4u32) & 1) << 12u32),
    {
        let mut bits = bits;
        let ghost b0 = bits;
        bits &= 0x1F;
        let ghost b1 = bits;
        bits = (bits | (bits << 8)) & 0x100F;
        let ghost b2 = bits;
        bits = (bits | (bits << 4)) & 0x10C3;
        let ghost b3 = bits;
        let r = (bits | (bits << 2)) & 0x1249;
        assert(r == (b0 & 1) | (((b0 >> 1u32) & 1) << 3u32) | (((b0 >> 2u32) & 1) << 6u32)
            | (((b0 >> 3u32) & 1) << 9u32) | (((b0 >> 4u32) & 1) << 12u32)) by (bit_vector)
            requires
                b1 == b0 & 0x1F,
                b2 == (b1 | (b1 << 8u32)) & 0x100F,
                b3 == (b2 | (b2 << 4u32)) & 0x10C3,
                r == (b3 | (b3 << 2u32)) & 0x1249,
        ;
        r
    }

    /// Interleaves the five low bits of each coordinate into one index.
    pub fn encode(x: u8, y: u8, z: u8) -> (r: Self)
        ensures
            r.value() == morton_encode_spec(x, y, z),
    {
        let mx = Self::spread(x as u32);
        let my = Self::spread(y as u32);
        let mz = Self::spread(z as u32);
        let r = (mx | (my << 1) | (mz << 2)) as u16;
        let ghost (xx, yy, zz) = (x as u32, y as u32, z as u32);
        assert(r == morton_encode_spec(x, y, z)) by (bit_vector)
            requires
                xx == x as u32,
                yy == y as u32,
                zz == z as u32,
                mx == (xx & 1) | (((xx >> 1u32) & 1) << 3u32) | (((xx >> 2u32) & 1) << 6u32)
                    | (((xx >> 3u32) & 1) << 9u32) | (((xx >> 4u32) & 1) << 12u32),
                my == (yy & 1) | (((yy >> 1u32) & 1) << 3u32) | (((yy >> 2u32) & 1) << 6u32)
                    | (((yy >> 3u32) & 1) << 9u32) | (((yy >> 4u32) & 1) << 12u32),
                mz == (zz & 1) | (((zz >> 1u32) & 1) << 3u32) | (((zz >> 2u32) & 1) << 6u32)
                    | (((zz >> 3u32) & 1) << 9u32) | (((zz >> 4u32) & 1) << 12u32),
                r == (mx | (my << 1u32) | (mz << 2u32)) as u16,
        ;
        Self(r)
    }

    /// Gathers every third bit of `bits`, starting at bit 0, into the five low bits.
    fn compact(bits: u32) -> (r: u32)
        ensures
            r == (bits & 1) | (((bits >> 3u32) & 1) << 1u32) | (((bits >> 6u32) & 1) << 2u32)
                | (((bits >> 9u32) & 1) << 3u32) | (((bits >> 12u32) & 1) << 4u32),
    {
        let mut bits = bits;
        let ghost b0 = bits;
        bits &= 0x1249;
        let ghost b1 = bits;
        bits = (bits | (bits >> 2)) & 0x10C3;
        let ghost b2 = bits;
        bits = (bits | (bits >> 4)) & 0x100F;
        let ghost b3 = bits;
        let r = (bits | (bits >> 8)) & 0x001F;
        assert(r == (b0 & 1) | (((b0 >> 3u32) & 1) << 1u32) | (((b0 >> 6u32) & 1) << 2u32)
            | (((b0 >> 9u32) & 1) << 3u32) | (((b0 >> 12u32) & 1) << 4u32)) by (bit_vector)
            requires
                b1 == b0 & 0x1249,
                b2 == (b1 | (b1 >> 2u32)) & 0x10C3,
                b3 == (b2 | (b2 >> 4u32)) & 0x100F,
                r == (b3 | (b3 >> 8u32)) & 0x001F,
        ;
        r
    }

    /// Splits the index back into its three coordinates.
    pub fn decode(&self) -> (r: (u8, u8, u8))
        ensures
            r == morton_decode_spec(self.value()),
    {
        let morton = self.0 as u32;
        let cx = Self::compact(morton);
        let cy = Self::compact(morton >> 1);
        let cz = Self::compact(morton >> 2);
        let i = self.0;
        assert(cx as u8 == morton_axis_spec(i, 0) && cy as u8 == morton_axis_spec(i, 1)
            && cz as u8 == morton_axis_spec(i, 2)) by (bit_vector)
            requires
                morton == i as u32,
                cx == (morton & 1) | (((morton >> 3u32) & 1) << 1u32) | (((morton >> 6u32) & 1) << 2u32)
                    | (((morton >> 9u32) & 1) << 3u32) | (((morton >> 12u32) & 1) << 4u32),
                cy == ((morton >> 1u32) & 1) | ((((morton >> 1u32) >> 3u32) & 1) << 1u32)
                    | ((((morton >> 1u32) >> 6u32) & 1) << 2u32)
                    | ((((morton >> 1u32) >> 9u32) & 1) << 3u32)
                    | ((((morton >> 1u32) >> 12u32) & 1) << 4u32),
                cz == ((morton >> 2u32) & 1) | ((((morton >> 2u32) >> 3u32) & 1) << 1u32)
                    | ((((morton >> 2u32) >> 6u32) & 1) << 2u32)
                    | ((((morton >> 2u32) >> 9u32) & 1) << 3u32)
                    | ((((morton >> 2u32) >> 12u32) & 1) << 4u32),
        ;
        (cx as u8, cy as u8, cz as u8)
    }
}

/// Decoding a Morton index gives back the coordinates it was made from, for
/// every voxel of a chunk (coordinates below 32).
pub proof fn lemma_morton_roundtrip(x: u8, y: u8, z: u8)
    requires
        x < 32,
        y < 32,
        z < 32,
    ensures
        morton_decode_spec(morton_encode_spec(x, y, z)) == (x, y, z),
{
    let i = morton_encode_spec(x, y, z);
    assert(morton_axis_spec(i, 0) == x && morton_axis_spec(i, 1) == y && morton_axis_spec(i, 2) == z)
        by (bit_vector)
        requires
            x < 32,
            y < 32,
            z < 32,
            i == morton_encode_spec(x, y, z),
    ;
}

/// Every index below 32768 is the Morton index of the coordinates it decodes to.
pub proof fn lemma_morton_decode_encode(i: u16)
    requires
        i < 32768,
    ensures
        ({
            let (x, y, z) = morton_decode_spec(i);
            morton_encode_spec(x, y, z) == i
        }),
{
    let x = morton_axis_spec(i, 0);
    let y = morton_axis_spec(i, 1);
    let z = morton_axis_spec(i, 2);
    assert(morton_encode_spec(x, y, z) == i) by (bit_vector)
        requires
            i < 32768,
            x == morton_axis_spec(i, 0),
            y == morton_axis_spec(i, 1),
            z == morton_axis_spec(i, 2),
    ;
}

} // verus!

verus! {

// ---------------------------------------------------------------------------
// 2D Hilbert curve over a 256 x 256 square
// ---------------------------------------------------------------------------

/// Bit `bit` of `v`, as 0 or 1.
pub open spec fn hil_bit(v: u8, bit: u8) -> u8 {
    (v >> bit) & 1
}

/// The quadrant digit that one encoding step appends for the bits of `ux` and `uz` at `bit`.
pub open spec fn hil_digit(ux: u8, uz: u8, bit: u8) -> u16 {
    ((3 * (hil_bit(ux, bit) as u16)) as u16) ^ (hil_bit(uz, bit) as u16)
}

/// The x register after one encoding step at `bit`, for a curve whose
/// coordinates are flipped with `full` (all coordinate bits set).
pub open spec fn hil_enc_ux(ux: u8, uz: u8, bit: u8, full: u8) -> u8 {
    if hil_bit(uz, bit) == 0 {
        if hil_bit(ux, bit) == 1 {
            uz ^ full
        } else {
            uz
        }
    } else {
        ux
    }
}

/// The z register after one encoding step at `bit`.
pub open spec fn hil_enc_uz(ux: u8, uz: u8, bit: u8, full: u8) -> u8 {
    if hil_bit(uz, bit) == 0 {
        if hil_bit(ux, bit) == 1 {
            ux ^ full
        } else {
            ux
        }
    } else {
        uz
    }
}

/// The index accumulated by encoding steps at bits `n - 1` down to 0, starting
/// from the registers `ux`, `uz` and the partial index `idx`.
pub open spec fn hil_enc_rec(ux: u8, uz: u8, idx: u16, n: nat, full: u8) -> u16
    decreases n,
{
    if n == 0 {
        idx
    } else {
        let b = (n - 1) as u8;
        hil_enc_rec(
            hil_enc_ux(ux, uz, b, full),
            hil_enc_uz(ux, uz, b, full),
            ((idx << 2u16) | hil_digit(ux, uz, b)) as u16,
            (n - 1) as nat,
            full,
        )
    }
}

/// The Hilbert index of `(x, z)` on the 256 x 256 square.
pub open spec fn hilbert_encode_spec(x: u8, z: u8) -> u16 {
    hil_enc_rec(x, z, 0, 8, 0xFF)
}

/// The x bit read back from the two low digit bits of `idx`.
pub open spec fn hil_dec_rx(idx: u16) -> u8 {
    ((idx >> 1u16) & 1) as u8
}

/// The z bit read back from the two low digit bits of `idx`.
pub open spec fn hil_dec_rz(idx: u16) -> u8 {
    ((idx ^ ((idx >> 1u16) & 1)) & 1) as u8
}

/// The mask of the bits below `bit`.
pub open spec fn low_mask8(bit: u8) -> u8 {
    ((1u8 << bit) - 1) as u8
}

/// The x register after one decoding step at `bit`.
pub open spec fn hil_dec_ux(idx: u16, ux: u8, uz: u8, bit: u8) -> u8 {
    let rx = hil_dec_rx(idx);
    let rz = hil_dec_rz(idx);
    let m: u8 = if rx == 1 {
        low_mask8(bit)
    } else {
        0
    };
    let a: u8 = if rz == 0 {
        uz ^ m
    } else {
        ux
    };
    a | (rx << bit)
}

/// The z register after one decoding step at `bit`.
pub open spec fn hil_dec_uz(idx: u16, ux: u8, uz: u8, bit: u8) -> u8 {
    let rx = hil_dec_rx(idx);
    let rz = hil_dec_rz(idx);
    let m: u8 = if rx == 1 {
        low_mask8(bit)
    } else {
        0
    };
    let b: u8 = if rz == 0 {
        ux ^ m
    } else {
        uz
    };
    b | (rz << bit)
}

/// The registers after `n` decoding steps at bits `bit`, `bit + 1`, ...
pub open spec fn hil_dec_rec(idx: u16, ux: u8, uz: u8, bit: nat, n: nat) -> (u8, u8)
    decreases n,
{
    if n == 0 {
        (ux, uz)
    } else {
        hil_dec_rec(
            idx >> 2u16,
            hil_dec_ux(idx, ux, uz, bit as u8),
            hil_dec_uz(idx, ux, uz, bit as u8),
            bit + 1,
            (n - 1) as nat,
        )
    }
}

/// The point `(x, z)` of the 256 x 256 square at Hilbert index `i`.
pub open spec fn hilbert_decode_spec(i: u16) -> (u8, u8) {
    hil_dec_rec(i, 0, 0, 0, 8)
}

proof fn lemma_dec_digit_bits(idx: u16, rx: u8, rz: u8)
    by (bit_vector)
    requires
        rx == (1 & (idx >> 1u16)) as u8,
        rz == (1 & (idx ^ (rx as u16))) as u8,
    ensures
        rx == hil_dec_rx(idx),
        rz == hil_dec_rz(idx),
{
}

proof fn lemma_shl_one_positive(bit: u8)
    by (bit_vector)
    requires
        bit < 8,
    ensures
        1u8 << bit >= 1,
{
}

proof fn lemma_xor_zero(a: u8)
    by (bit_vector)
    ensures
        a ^ 0 == a,
{
}

/// A 2D Hilbert index over a 256 x 256 square.
#[derive(Debug, Clone, Copy, PartialEq, Eq, Structural, PartialOrd, Ord, Hash)]
pub struct HilbertIdx(u16);

impl HilbertIdx {
    /// The index as a number.
    pub closed spec fn value(self) -> u16 {
        self.0
    }

    /// Two indices are equal exactly when their numbers are.
    pub broadcast proof fn lemma_value_eq(a: Self, b: Self)
        ensures
            #![trigger a.value(), b.value()]
            a.value() == b.value() <==> a == b,
    {
    }

    /// Returns the index as a number.
    pub fn idx(&self) -> (r: u16)
        ensures
            r == self.value(),
    {
        self.0
    }

    /// The Hilbert index of the point `(x, z)`.
    pub fn encode(x: u8, z: u8) -> (r: Self)
        ensures
            r.value() == hilbert_encode_spec(x, z),
    {
        let mut ux = x;
        let mut uz = z;
        let mut idx: u16 = 0;
        let mut bit: u8 = 8;
        while bit > 0
            invariant
                bit <= 8,
                hil_enc_rec(ux, uz, idx, bit as nat, 0xFF) == hilbert_encode_spec(x, z),
            decreases bit,
        {
            bit -= 1;
            let ghost (ux0, uz0, idx0) = (ux, uz, idx);
            let rx = ((ux >> bit) & 1) as u16;
            let rz = ((uz >> bit) & 1) as u16;
            assert(rx <= 1 && rz <= 1 && rx == hil_bit(ux, bit) && rz == hil_bit(uz, bit)) by (bit_vector)
                requires
                    rx == ((ux >> bit) & 1) as u16,
                    rz == ((uz >> bit) & 1) as u16,
            ;
            idx = (idx << 2) | ((3 * rx) ^ rz);
            if rz == 0 {
                if rx == 1 {
                    ux = !ux;
                    uz = !uz;
                    assert(ux == ux0 ^ 0xFF && uz == uz0 ^ 0xFF) by (bit_vector)
                        requires
                            ux == !ux0,
                            uz == !uz0,
                    ;
                }
                let t = ux;
                ux = uz;
                uz = t;
            }
            assert(idx == ((idx0 << 2u16) | hil_digit(ux0, uz0, bit)) as u16);
        }
        Self(idx)
    }

    /// The point `(x, z)` at this Hilbert index.
    pub fn decode(&self) -> (r: (u8, u8))
        ensures
            r == hilbert_decode_spec(self.value()),
    {
        let mut idx = self.0;
        let mut ux: u8 = 0;
        let mut uz: u8 = 0;
        let mut bit: u8 = 0;
        while bit < 8
            invariant
                bit <= 8,
                hil_dec_rec(idx, ux, uz, bit as nat, (8 - bit) as nat) == hilbert_decode_spec(self.value()),
            decreases 8 - bit,
        {
            let ghost (idx0, ux0, uz0) = (idx, ux, uz);
            let rx = (1 & (idx >> 1)) as u8;
            let rz = (1 & (idx ^ (rx as u16))) as u8;
            proof {
                lemma_dec_digit_bits(idx, rx, rz);
            }
            if rz == 0 {
                if rx == 1 {
                    proof {
                        lemma_shl_one_positive(bit);
                    }
                    let mask: u8 = (1u8 << bit) - 1;
                    assert(mask == low_mask8(bit));
                    ux ^= mask;
                    uz ^= mask;
                } else {
                    proof {
                        lemma_xor_zero(ux0);
                        lemma_xor_zero(uz0);
                    }
                }
                let t = ux;
                ux = uz;
                uz = t;
            }
            ux |= rx << bit;
            uz |= rz << bit;
            assert(ux == hil_dec_ux(idx0, ux0, uz0, bit) && uz == hil_dec_uz(idx0, ux0, uz0, bit));
            idx >>= 2;
            bit += 1;
        }
        (ux, uz)
    }
}

} // verus!

verus! {

/// `hil_enc_rec` from the start of the curve, written out step by step for 8 bits.
pub open spec fn hil_enc_flat8(x: u8, z: u8, full: u8) -> u16 {
    let a8 = x;
    let b8 = z;
    let i8 = 0u16;
    let a7 = hil_enc_ux(a8, b8, 7u8, full);
    let b7 = hil_enc_uz(a8, b8, 7u8, full);
    let i7 = ((i8 << 2u16) | hil_digit(a8, b8, 7u8)) as u16;
    let a6 = hil_enc_ux(a7, b7, 6u8, full);
    let b6 = hil_enc_uz(a7, b7, 6u8, full);
    let i6 = ((i7 << 2u16) | hil_digit(a7, b7, 6u8)) as u16;
    let a5 = hil_enc_ux(a6, b6, 5u8, full);
    let b5 = hil_enc_uz(a6, b6, 5u8, full);
    let i5 = ((i6 << 2u16) | hil_digit(a6, b6, 5u8)) as u16;
    let a4 = hil_enc_ux(a5, b5, 4u8, full);
    let b4 = hil_enc_uz(a5, b5, 4u8, full);
    let i4 = ((i5 << 2u16) | hil_digit(a5, b5, 4u8)) as u16;
    let a3 = hil_enc_ux(a4, b4, 3u8, full);
    let b3 = hil_enc_uz(a4, b4, 3u8, full);
    let i3 = ((i4 << 2u16) | hil_digit(a4, b4, 3u8)) as u16;
    let a2 = hil_enc_ux(a3, b3, 2u8, full);
    let b2 = hil_enc_uz(a3, b3, 2u8, full);
    let i2 = ((i3 << 2u16) | hil_digit(a3, b3, 2u8)) as u16;
    let a1 = hil_enc_ux(a2, b2, 1u8, full);
    let b1 = hil_enc_uz(a2, b2, 1u8, full);
    let i1 = ((i2 << 2u16) | hil_digit(a2, b2, 1u8)) as u16;
    let a0 = hil_enc_ux(a1, b1, 0u8, full);
    let b0 = hil_enc_uz(a1, b1, 0u8, full);
    let i0 = ((i1 << 2u16) | hil_digit(a1, b1, 0u8)) as u16;
    i0
}

/// The x coordinate of `hil_dec_rec` from the start of the curve, written out step by step for 8 bits.
pub open spec fn hil_dec_flat8_x(i: u16) -> u8 {
    let a0 = 0u8;
    let b0 = 0u8;
    let j0 = i;
    let a1 = hil_dec_ux(j0, a0, b0, 0u8);
    let b1 = hil_dec_uz(j0, a0, b0, 0u8);
    let j1 = j0 >> 2u16;
    let a2 = hil_dec_ux(j1, a1, b1, 1u8);
    let b2 = hil_dec_uz(j1, a1, b1, 1u8);
    let j2 = j1 >> 2u16;
    let a3 = hil_dec_ux(j2, a2, b2, 2u8);
    let b3 = hil_dec_uz(j2, a2, b2, 2u8);
    let j3 = j2 >> 2u16;
    let a4 = hil_dec_ux(j3, a3, b3, 3u8);
    let b4 = hil_dec_uz(j3, a3, b3, 3u8);
    let j4 = j3 >> 2u16;
    let a5 = hil_dec_ux(j4, a4, b4, 4u8);
    let b5 = hil_dec_uz(j4, a4, b4, 4u8);
    let j5 = j4 >> 2u16;
    let a6 = hil_dec_ux(j5, a5, b5, 5u8);
    let b6 = hil_dec_uz(j5, a5, b5, 5u8);
    let j6 = j5 >> 2u16;
    let a7 = hil_dec_ux(j6, a6, b6, 6u8);
    let b7 = hil_dec_uz(j6, a6, b6, 6u8);
    let j7 = j6 >> 2u16;
    let a8 = hil_dec_ux(j7, a7, b7, 7u8);
    let b8 = hil_dec_uz(j7, a7, b7, 7u8);
    let j8 = j7 >> 2u16;
    a8
}

/// The z coordinate of `hil_dec_rec` from the start of the curve, written out step by step for 8 bits.
pub open spec fn hil_dec_flat8_z(i: u16) -> u8 {
    let a0 = 0u8;
    let b0 = 0u8;
    let j0 = i;
    let a1 = hil_dec_ux(j0, a0, b0, 0u8);
    let b1 = hil_dec_uz(j0, a0, b0, 0u8);
    let j1 = j0 >> 2u16;
    let a2 = hil_dec_ux(j1, a1, b1, 1u8);
    let b2 = hil_dec_uz(j1, a1, b1, 1u8);
    let j2 = j1 >> 2u16;
    let a3 = hil_dec_ux(j2, a2, b2, 2u8);
    let b3 = hil_dec_uz(j2, a2, b2, 2u8);
    let j3 = j2 >> 2u16;
    let a4 = hil_dec_ux(j3, a3, b3, 3u8);
    let b4 = hil_dec_uz(j3, a3, b3, 3u8);
    let j4 = j3 >> 2u16;
    let a5 = hil_dec_ux(j4, a4, b4, 4u8);
    let b5 = hil_dec_uz(j4, a4, b4, 4u8);
    let j5 = j4 >> 2u16;
    let a6 = hil_dec_ux(j5, a5, b5, 5u8);
    let b6 = hil_dec_uz(j5, a5, b5, 5u8);
    let j6 = j5 >> 2u16;
    let a7 = hil_dec_ux(j6, a6, b6, 6u8);
    let b7 = hil_dec_uz(j6, a6, b6, 6u8);
    let j7 = j6 >> 2u16;
    let a8 = hil_dec_ux(j7, a7, b7, 7u8);
    let b8 = hil_dec_uz(j7, a7, b7, 7u8);
    let j8 = j7 >> 2u16;
    b8
}

proof fn lemma_hilbert_flat(x: u8, z: u8, i: u16)
    ensures
        hilbert_encode_spec(x, z) == hil_enc_flat8(x, z, 0xFF),
        hilbert_decode_spec(i) == (hil_dec_flat8_x(i), hil_dec_flat8_z(i)),
{
    reveal_with_fuel(hil_enc_rec, 9);
    reveal_with_fuel(hil_dec_rec, 9);
}

/// Decoding a Hilbert index gives back the point it was made from, for every
/// point of the 256 x 256 square.
pub proof fn lemma_hilbert_roundtrip(x: u8, z: u8)
    ensures
        hilbert_decode_spec(hilbert_encode_spec(x, z)) == (x, z),
{
    let i = hil_enc_flat8(x, z, 0xFF);
    lemma_hilbert_flat(x, z, i);
    assert(hil_dec_flat8_x(i) == x && hil_dec_flat8_z(i) == z) by (bit_vector)
        requires
            i == hil_enc_flat8(x, z, 0xFF),
    ;
}

/// Whether two points of a plane are neighbours: equal in one coordinate and
/// one apart in the other.
pub open spec fn adjacent(a: (u8, u8), b: (u8, u8)) -> bool {
    ||| a.0 == b.0 && (a.1 + 1 == b.1 || b.1 + 1 == a.1)
    ||| a.1 == b.1 && (a.0 + 1 == b.0 || b.0 + 1 == a.0)
}

proof fn lemma_dec_flat8_adjacent(i: u16, x1: u8, z1: u8, x2: u8, z2: u8)
    by (bit_vector)
    requires
        i < 65535,
        x1 == hil_dec_flat8_x(i),
        z1 == hil_dec_flat8_z(i),
        x2 == hil_dec_flat8_x((i + 1) as u16),
        z2 == hil_dec_flat8_z((i + 1) as u16),
    ensures
        (x1 == x2 && (z1 + 1 == z2 || z2 + 1 == z1)) || (z1 == z2 && (x1 + 1 == x2 || x2 + 1 == x1)),
{
}

/// Consecutive Hilbert indices name neighbouring points: the curve never
/// jumps.
pub proof fn lemma_hilbert_adjacent(i: u16)
    requires
        i < 65535,
    ensures
        adjacent(hilbert_decode_spec(i), hilbert_decode_spec((i + 1) as u16)),
{
    lemma_hilbert_flat(0, 0, i);
    lemma_hilbert_flat(0, 0, (i + 1) as u16);
    lemma_dec_flat8_adjacent(
        i,
        hil_dec_flat8_x(i),
        hil_dec_flat8_z(i),
        hil_dec_flat8_x((i + 1) as u16),
        hil_dec_flat8_z((i + 1) as u16),
    );
}

/// Every index is the Hilbert index of the point it decodes to: the curve is a
/// bijection between indices and points.
pub proof fn lemma_hilbert_decode_encode(i: u16)
    ensures
        hilbert_encode_spec(hilbert_decode_spec(i).0, hilbert_decode_spec(i).1) == i,
{
    let x = hil_dec_flat8_x(i);
    let z = hil_dec_flat8_z(i);
    lemma_hilbert_flat(x, z, i);
    assert(hil_enc_flat8(x, z, 0xFF) == i) by (bit_vector)
        requires
            x == hil_dec_flat8_x(i),
            z == hil_dec_flat8_z(i),
    ;
}

} // verus!

verus! {

// ---------------------------------------------------------------------------
// Hilbert curve over the x/z plane of a chunk, y stored linearly
// ---------------------------------------------------------------------------

/// The index of `(x, y, z)`: y in the five low bits, the Hilbert index of
/// `(x, z)` on the 32 x 32 square above them.
pub open spec fn hilbert_linear_encode_spec(x: u8, y: u8, z: u8) -> int {
    y + 32 * hil_enc_rec(x, z, 0, 5, 31)
}

/// The coordinates `(x, y, z)` held by a linear Hilbert index.
pub open spec fn hilbert_linear_decode_spec(i: u16) -> (u8, u8, u8) {
    let (x, z) = hil_dec_rec(i >> 5u16, 0, 0, 0, 5);
    (x, (i & 31) as u8, z)
}

/// A bound on the index accumulated by the encoding loop of the linear Hilbert
/// curve once the bits above `bit` have been processed.
spec fn lin_bound(bit: u8) -> u32 {
    if bit >= 5 {
        1
    } else if bit == 4 {
        4
    } else if bit == 3 {
        16
    } else if bit == 2 {
        64
    } else if bit == 1 {
        256
    } else {
        1024
    }
}

/// A Hilbert index over the x/z plane of a chunk, with y stored linearly.
#[derive(Debug, Clone, Copy, PartialEq, Eq, Structural, PartialOrd, Ord, Hash)]
pub struct HilbertLinearIdx(u16);

impl HilbertLinearIdx {
    /// The index as a number.
    pub closed spec fn value(self) -> u16 {
        self.0
    }

    /// Two indices are equal exactly when their numbers are.
    pub broadcast proof fn lemma_value_eq(a: Self, b: Self)
        ensures
            #![trigger a.value(), b.value()]
            a.value() == b.value() <==> a == b,
    {
    }

    /// Returns the index as a number.
    pub fn idx(&self) -> (r: u16)
        ensures
            r == self.value(),
    {
        self.0
    }

    /// The index of `(x, y, z)`; only the five low bits of x and z are read.
    pub fn encode(x: u8, y: u8, z: u8) -> (r: Self)
        ensures
            hil_enc_rec(x, z, 0, 5, 31) < 1024,
            r.value() == hilbert_linear_encode_spec(x, y, z),
    {
        let mut ux = x;
        let mut uz = z;
        let mut idx: u32 = 0;
        let ghost mut gidx: u16 = 0;
        let mut bit: u8 = 5;
        while bit > 0
            invariant
                bit <= 5,
                idx == gidx as u32,
                idx < lin_bound(bit),
                hil_enc_rec(ux, uz, gidx, bit as nat, 31) == hil_enc_rec(x, z, 0, 5, 31),
            decreases bit,
        {
            bit -= 1;
            let ghost (ux0, uz0, idx0) = (ux, uz, idx);
            let rx = ((ux >> bit) & 1) as u32;
            let rz = ((uz >> bit) & 1) as u32;
            assert(rx <= 1 && rz <= 1 && rx == hil_bit(ux, bit) && rz == hil_bit(uz, bit)) by (bit_vector)
                requires
                    rx == ((ux >> bit) & 1) as u32,
                    rz == ((uz >> bit) & 1) as u32,
            ;
            idx = (idx << 2) | ((3 * rx) ^ rz);
            let ghost d = hil_digit(ux0, uz0, bit);
            let ghost g0 = gidx;
            proof {
                gidx = ((gidx << 2u16) | d) as u16;
            }
            let ghost bnd = lin_bound((bit + 1) as u8);
            let ghost nbnd = lin_bound(bit);
            assert(nbnd == 4 * bnd);
            assert(idx == gidx as u32 && idx < nbnd) by (bit_vector)
                requires
                    idx0 == g0 as u32,
                    idx0 < bnd,
                    bnd <= 256,
                    nbnd == 4 * bnd,
                    rx <= 1,
                    rz <= 1,
                    d == ((3 * (rx as u16)) as u16) ^ (rz as u16),
                    idx == (idx0 << 2u32) | (((3 * rx) as u32) ^ rz),
                    gidx == ((g0 << 2u16) | d) as u16,
            ;
            if rz == 0 {
                if rx == 1 {
                    ux ^= 31;
                    uz ^= 31;
                }
                let t = ux;
                ux = uz;
                uz = t;
            }
        }
        assert(gidx == hil_enc_rec(x, z, 0, 5, 31));
        let sh = idx << 5;
        assert(sh == idx * 32 && sh < 32768) by (bit_vector)
            requires
                idx < 1024,
                sh == idx << 5u32,
        ;
        Self((y as u32 + sh) as u16)
    }

    /// The coordinates `(x, y, z)` held by the index.
    pub fn decode(&self) -> (r: (u8, u8, u8))
        ensures
            r == hilbert_linear_decode_spec(self.value()),
    {
        let y = (self.0 & 31) as u8;
        let mut idx = self.0 >> 5;
        let mut ux: u8 = 0;
        let mut uz: u8 = 0;
        let mut bit: u8 = 0;
        while bit < 5
            invariant
                bit <= 5,
                hil_dec_rec(idx, ux, uz, bit as nat, (5 - bit) as nat) == hil_dec_rec(
                    self.value() >> 5u16,
                    0,
                    0,
                    0,
                    5,
                ),
            decreases 5 - bit,
        {
            let ghost (idx0, ux0, uz0) = (idx, ux, uz);
            let rx = (1 & (idx >> 1)) as u8;
            let rz = (1 & (idx ^ (rx as u16))) as u8;
            proof {
                lemma_dec_digit_bits(idx, rx, rz);
            }
            if rz == 0 {
                if rx == 1 {
                    proof {
                        lemma_shl_one_positive(bit);
                    }
                    let mask: u8 = (1u8 << bit) - 1;
                    assert(mask == low_mask8(bit));
                    ux ^= mask;
                    uz ^= mask;
                } else {
                    proof {
                        lemma_xor_zero(ux0);
                        lemma_xor_zero(uz0);
                    }
                }
                let t = ux;
                ux = uz;
                uz = t;
            }
            ux |= rx << bit;
            uz |= rz << bit;
            assert(ux == hil_dec_ux(idx0, ux0, uz0, bit) && uz == hil_dec_uz(idx0, ux0, uz0, bit));
            idx >>= 2;
            bit += 1;
        }
        (ux, y, uz)
    }
}

/// `hil_enc_rec` from the start of the curve, written out step by step for 5 bits.
pub open spec fn hil_enc_flat5(x: u8, z: u8, full: u8) -> u16 {
    let a5 = x;
    let b5 = z;
    let i5 = 0u16;
    let a4 = hil_enc_ux(a5, b5, 4u8, full);
    let b4 = hil_enc_uz(a5, b5, 4u8, full);
    let i4 = ((i5 << 2u16) | hil_digit(a5, b5, 4u8)) as u16;
    let a3 = hil_enc_ux(a4, b4, 3u8, full);
    let b3 = hil_enc_uz(a4, b4, 3u8, full);
    let i3 = ((i4 << 2u16) | hil_digit(a4, b4, 3u8)) as u16;
    let a2 = hil_enc_ux(a3, b3, 2u8, full);
    let b2 = hil_enc_uz(a3, b3, 2u8, full);
    let i2 = ((i3 << 2u16) | hil_digit(a3, b3, 2u8)) as u16;
    let a1 = hil_enc_ux(a2, b2, 1u8, full);
    let b1 = hil_enc_uz(a2, b2, 1u8, full);
    let i1 = ((i2 << 2u16) | hil_digit(a2, b2, 1u8)) as u16;
    let a0 = hil_enc_ux(a1, b1, 0u8, full);
    let b0 = hil_enc_uz(a1, b1, 0u8, full);
    let i0 = ((i1 << 2u16) | hil_digit(a1, b1, 0u8)) as u16;
    i0
}

/// The x coordinate of `hil_dec_rec` from the start of the curve, written out step by step for 5 bits.
pub open spec fn hil_dec_flat5_x(i: u16) -> u8 {
    let a0 = 0u8;
    let b0 = 0u8;
    let j0 = i;
    let a1 = hil_dec_ux(j0, a0, b0, 0u8);
    let b1 = hil_dec_uz(j0, a0, b0, 0u8);
    let j1 = j0 >> 2u16;
    let a2 = hil_dec_ux(j1, a1, b1, 1u8);
    let b2 = hil_dec_uz(j1, a1, b1, 1u8);
    let j2 = j1 >> 2u16;
    let a3 = hil_dec_ux(j2, a2, b2, 2u8);
    let b3 = hil_dec_uz(j2, a2, b2, 2u8);
    let j3 = j2 >> 2u16;
    let a4 = hil_dec_ux(j3, a3, b3, 3u8);
    let b4 = hil_dec_uz(j3, a3, b3, 3u8);
    let j4 = j3 >> 2u16;
    let a5 = hil_dec_ux(j4, a4, b4, 4u8);
    let b5 = hil_dec_uz(j4, a4, b4, 4u8);
    let j5 = j4 >> 2u16;
    a5
}

/// The z coordinate of `hil_dec_rec` from the start of the curve, written out step by step for 5 bits.
pub open spec fn hil_dec_flat5_z(i: u16) -> u8 {
    let a0 = 0u8;
    let b0 = 0u8;
    let j0 = i;
    let a1 = hil_dec_ux(j0, a0, b0, 0u8);
    let b1 = hil_dec_uz(j0, a0, b0, 0u8);
    let j1 = j0 >> 2u16;
    let a2 = hil_dec_ux(j1, a1, b1, 1u8);
    let b2 = hil_dec_uz(j1, a1, b1, 1u8);
    let j2 = j1 >> 2u16;
    let a3 = hil_dec_ux(j2, a2, b2, 2u8);
    let b3 = hil_dec_uz(j2, a2, b2, 2u8);
    let j3 = j2 >> 2u16;
    let a4 = hil_dec_ux(j3, a3, b3, 3u8);
    let b4 = hil_dec_uz(j3, a3, b3, 3u8);
    let j4 = j3 >> 2u16;
    let a5 = hil_dec_ux(j4, a4, b4, 4u8);
    let b5 = hil_dec_uz(j4, a4, b4, 4u8);
    let j5 = j4 >> 2u16;
    b5
}

proof fn lemma_hilbert_linear_flat(x: u8, z: u8, i: u16)
    ensures
        hil_enc_rec(x, z, 0, 5, 31) == hil_enc_flat5(x, z, 31),
        hil_dec_rec(i, 0, 0, 0, 5) == (hil_dec_flat5_x(i), hil_dec_flat5_z(i)),
{
    reveal_with_fuel(hil_enc_rec, 6);
    reveal_with_fuel(hil_dec_rec, 6);
}

proof fn lemma_dec_flat5_adjacent(h: u16, x1: u8, z1: u8, x2: u8, z2: u8)
    by (bit_vector)
    requires
        h < 1023,
        x1 == hil_dec_flat5_x(h),
        z1 == hil_dec_flat5_z(h),
        x2 == hil_dec_flat5_x((h + 1) as u16),
        z2 == hil_dec_flat5_z((h + 1) as u16),
    ensures
        (x1 == x2 && (z1 + 1 == z2 || z2 + 1 == z1)) || (z1 == z2 && (x1 + 1 == x2 || x2 + 1 == x1)),
{
}

/// Stepping the Hilbert part of a linear Hilbert index by one (the index by
/// 32) keeps y and moves to a neighbouring column of the chunk.
pub proof fn lemma_hilbert_linear_adjacent(i: u16)
    requires
        i < 32736,
    ensures
        hilbert_linear_decode_spec(i).1 == hilbert_linear_decode_spec((i + 32) as u16).1,
        adjacent(
            (hilbert_linear_decode_spec(i).0, hilbert_linear_decode_spec(i).2),
            (hilbert_linear_decode_spec((i + 32) as u16).0, hilbert_linear_decode_spec((i + 32) as u16).2),
        ),
{
    let j = (i + 32) as u16;
    let h = i >> 5u16;
    assert(h < 1023 && j >> 5u16 == (h + 1) as u16 && j & 31 == i & 31) by (bit_vector)
        requires
            i < 32736,
            h == i >> 5u16,
            j == (i + 32) as u16,
    ;
    lemma_hilbert_linear_flat(0, 0, h);
    lemma_hilbert_linear_flat(0, 0, (h + 1) as u16);
    lemma_dec_flat5_adjacent(
        h,
        hil_dec_flat5_x(h),
        hil_dec_flat5_z(h),
        hil_dec_flat5_x((h + 1) as u16),
        hil_dec_flat5_z((h + 1) as u16),
    );
}

/// Decoding a linear Hilbert index gives back the coordinates it was made
/// from, for every voxel of a chunk (coordinates below 32).
pub proof fn lemma_hilbert_linear_roundtrip(x: u8, y: u8, z: u8)
    requires
        x < 32,
        y < 32,
        z < 32,
    ensures
        hil_enc_rec(x, z, 0, 5, 31) < 1024,
        hilbert_linear_decode_spec(hilbert_linear_encode_spec(x, y, z) as u16) == (x, y, z),
{
    let h = hil_enc_flat5(x, z, 31);
    let i = (y + 32 * h) as u16;
    let j = i >> 5u16;
    lemma_hilbert_linear_flat(x, z, j);
    assert(h < 1024 && i == y + 32 * h && j == h && (i & 31) as u8 == y) by (bit_vector)
        requires
            x < 32,
            y < 32,
            z < 32,
            h == hil_enc_flat5(x, z, 31),
            i == (y + 32 * h) as u16,
            j == i >> 5u16,
    ;
    assert(hil_dec_flat5_x(h) == x && hil_dec_flat5_z(h) == z) by (bit_vector)
        requires
            x < 32,
            z < 32,
            h == hil_enc_flat5(x, z, 31),
    ;
}

/// Every index below 32768 is the linear Hilbert index of the coordinates it
/// decodes to.
pub proof fn lemma_hilbert_linear_decode_encode(i: u16)
    requires
        i < 32768,
    ensures
        ({
            let (x, y, z) = hilbert_linear_decode_spec(i);
            hilbert_linear_encode_spec(x, y, z) == i
        }),
{
    let j = i >> 5u16;
    let x = hil_dec_flat5_x(j);
    let z = hil_dec_flat5_z(j);
    lemma_hilbert_linear_flat(x, z, j);
    let y = (i & 31) as u8;
    let h = hil_enc_flat5(x, z, 31);
    assert(j < 1024) by (bit_vector)
        requires
            i < 32768,
            j == i >> 5u16,
    ;
    assert(h == j) by (bit_vector)
        requires
            j < 1024,
            x == hil_dec_flat5_x(j),
            z == hil_dec_flat5_z(j),
            h == hil_enc_flat5(x, z, 31),
    ;
    assert(y + 32 * j == i) by (bit_vector)
        requires
            i < 32768,
            j == i >> 5u16,
            y == (i & 31) as u8,
    ;
}

} // verus!
