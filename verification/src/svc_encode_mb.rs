//! Macroblock-level transforms of the encoder: the inverse DC Hadamard
//! transforms and the DC dequantisation that local reconstruction uses.
use vstd::prelude::*;
use crate::mb::MB_TYPE_INTRA;

verus! {

/// Any of the intra macroblock types.
pub fn IS_INTRA(mb_type: u32) -> (r: bool)
    ensures
        r == ((mb_type & MB_TYPE_INTRA) != 0),
{
    (mb_type & MB_TYPE_INTRA) != 0
}

/// Row `a` of a row-major 4x4 block transformed by the Hadamard matrix:
/// entry `c` of `H x_a`.
pub open spec fn hadamard_row(x: Seq<i16>, a: int, c: int) -> int {
    let (x0, x1, x2, x3) = (x[4 * a] as int, x[4 * a + 1] as int, x[4 * a + 2] as int, x[4 * a
        + 3] as int);
    if c == 0 {
        x0 + x1 + x2 + x3
    } else if c == 1 {
        x0 + x1 - x2 - x3
    } else if c == 2 {
        x0 - x1 - x2 + x3
    } else {
        x0 - x1 + x2 - x3
    }
}

/// Entry `(r, c)` of `H X H^T` for the row-major 4x4 block `x`, with the rows
/// of `H` being `++++`, `++--`, `+--+`, `+-+-`.
pub open spec fn hadamard4x4(x: Seq<i16>, r: int, c: int) -> int {
    let (y0, y1, y2, y3) = (hadamard_row(x, 0, c), hadamard_row(x, 1, c), hadamard_row(x, 2, c),
    hadamard_row(x, 3, c));
    if r == 0 {
        y0 + y1 + y2 + y3
    } else if r == 1 {
        y0 + y1 - y2 - y3
    } else if r == 2 {
        y0 - y1 - y2 + y3
    } else {
        y0 - y1 + y2 - y3
    }
}

/// 4x4 inverse Hadamard transform of the Intra 16x16 luma DC levels, in place.
/// The levels must stay within `+-2047`, so that no sum leaves `i16`.
pub fn WelsIHadamard4x4Dc(pRes: &mut [i16; 16])
    requires
        forall|i: int| 0 <= i < 16 ==> -2047 <= #[trigger] old(pRes)[i] <= 2047,
    ensures
        forall|r: int, c: int|
            0 <= r < 4 && 0 <= c < 4 ==> #[trigger] final(pRes)[4 * r + c] == hadamard4x4(
                old(pRes)@,
                r,
                c,
            ),
{
    let ghost x = pRes@;
    let mut p = [0i16; 16];
    let mut i: usize = 0;
    while i < 4
        invariant
            0 <= i <= 4,
            x == old(pRes)@,
            pRes@ == x,
            forall|k: int| 0 <= k < 16 ==> -2047 <= #[trigger] x[k] <= 2047,
            forall|a: int, c: int|
                0 <= a < i && 0 <= c < 4 ==> #[trigger] p[4 * a + c] == hadamard_row(x, a, c),
            forall|a: int| 0 <= a < 16 ==> -8188 <= #[trigger] p[a] <= 8188,
        decreases 4 - i,
    {
        let idx = i * 4;
        let s0 = pRes[idx] + pRes[idx + 2];
        let s1 = pRes[idx] - pRes[idx + 2];
        let s2 = pRes[idx + 1] - pRes[idx + 3];
        let s3 = pRes[idx + 1] + pRes[idx + 3];
        p[idx] = s0 + s3;
        p[idx + 3] = s0 - s3;
        p[idx + 1] = s1 + s2;
        p[idx + 2] = s1 - s2;
        proof {
            let a = i as int;
            assert(4 * a == idx);
            assert(p[4 * a] == hadamard_row(x, a, 0));
            assert(p[4 * a + 1] == hadamard_row(x, a, 1));
            assert(p[4 * a + 2] == hadamard_row(x, a, 2));
            assert(p[4 * a + 3] == hadamard_row(x, a, 3));
        }
        i = i + 1;
    }
    let mut j: usize = 0;
    while j < 4
        invariant
            0 <= j <= 4,
            forall|k: int| 0 <= k < 16 ==> -2047 <= #[trigger] x[k] <= 2047,
            forall|a: int, c: int|
                0 <= a < 4 && 0 <= c < 4 ==> #[trigger] p[4 * a + c] == hadamard_row(x, a, c),
            forall|a: int| 0 <= a < 16 ==> -8188 <= #[trigger] p[a] <= 8188,
            forall|r: int, c: int|
                0 <= r < 4 && 0 <= c < j ==> #[trigger] pRes[4 * r + c] == hadamard4x4(x, r, c),
        decreases 4 - j,
    {
        let s0 = p[j] + p[j + 8];
        let s1 = p[j] - p[j + 8];
        let s2 = p[j + 4] - p[j + 12];
        let s3 = p[j + 4] + p[j + 12];
        pRes[j] = s0 + s3;
        pRes[j + 12] = s0 - s3;
        pRes[j + 4] = s1 + s2;
        pRes[j + 8] = s1 - s2;
        proof {
            let c = j as int;
            assert(0 <= 4 * 0 + c < 16);
            assert(p[4 * 0 + c] == hadamard_row(x, 0, c));
            assert(p[4 * 1 + c] == hadamard_row(x, 1, c));
            assert(p[4 * 2 + c] == hadamard_row(x, 2, c));
            assert(p[4 * 3 + c] == hadamard_row(x, 3, c));
            assert(p[c] == hadamard_row(x, 0, c));
            assert(p[4 + c] == hadamard_row(x, 1, c));
            assert(p[8 + c] == hadamard_row(x, 2, c));
            assert(p[12 + c] == hadamard_row(x, 3, c));
        }
        j = j + 1;
    }
}

/// The DC dequantisation scale for `qp % 6`.
pub const g_kuiDequantDcCoeff: [u16; 6] = [10, 11, 13, 14, 16, 18];

/// The dequantised value of one luma DC level for `qp < 12`:
/// `(x * scale + 2^(1 - qp/6)) >> (2 - qp/6)`.
pub open spec fn dequant_luma_dc(x: int, qp: int) -> int {
    let scale = g_kuiDequantDcCoeff[qp % 6] as int;
    if qp / 6 == 0 {
        (x * scale + 2) / 4
    } else {
        (x * scale + 1) / 2
    }
}

/// Luma DC dequantisation below QP 12 is one rounded division: the level
/// times the scale of `qp % 6`, doubled for `qp >= 6`, plus 2, divided by 4
/// (rounding down).
pub proof fn law_luma_dc_dequant_is_a_rounded_quarter(x: int, qp: int)
    requires
        0 <= qp < 12,
    ensures
        dequant_luma_dc(x, qp) == (x * (g_kuiDequantDcCoeff[qp % 6] as int) * (if qp >= 6 {
            2int
        } else {
            1int
        }) + 2) / 4,
{
    let t = x * (g_kuiDequantDcCoeff[qp % 6] as int);
    assert(x * (g_kuiDequantDcCoeff[qp % 6] as int) * 2 == 2 * t) by (nonlinear_arith)
        requires
            t == x * (g_kuiDequantDcCoeff[qp % 6] as int),
    ;
    assert(x * (g_kuiDequantDcCoeff[qp % 6] as int) * 1 == t);
}

/// Dequantises the 16 luma DC levels for `kiQp < 12`, each result stored in
/// 16 bits (its low 16 bits, as a signed value).
pub fn WelsDequantLumaDc4x4(pRes: &mut [i16; 16], kiQp: i32)
    requires
        0 <= kiQp < 12,
    ensures
        forall|i: int|
            0 <= i < 16 ==> #[trigger] final(pRes)[i] == dequant_luma_dc(old(pRes)[i] as int, kiQp as int) as i16,
{
    let scale = g_kuiDequantDcCoeff[(kiQp % 6) as usize] as i32;
    let qf0 = kiQp / 6;
    let shift: u32 = (2 - qf0) as u32;
    let round: i32 = if qf0 == 0 {
        2
    } else {
        1
    };
    let mut i: usize = 0;
    while i < 16
        invariant
            0 <= i <= 16,
            0 <= kiQp < 12,
            scale == g_kuiDequantDcCoeff[(kiQp % 6) as int] as int,
            10 <= scale <= 18,
            qf0 == kiQp / 6,
            shift == 2 - qf0,
            round == (if qf0 == 0 { 2int } else { 1int }),
            forall|k: int|
                i <= k < 16 ==> #[trigger] pRes[k] == old(pRes)[k],
            forall|k: int|
                0 <= k < i ==> #[trigger] pRes[k] == dequant_luma_dc(old(pRes)[k] as int, kiQp as int) as i16,
        decreases 16 - i,
    {
        let v = pRes[i] as i32;
        assert(-32768 <= v <= 32767 && 10 <= scale <= 18 ==> -589824 <= v * scale <= 589806)
            by (nonlinear_arith);
        let t = v * scale + round;
        proof {
            crate::bits::lemma_i32_shifts();
            if shift == 2 {
                assert(t >> 2u32 == t / 4);
            } else {
                assert(t >> 1u32 == t / 2);
            }
        }
        let d = t >> shift;
        assert(d == dequant_luma_dc(old(pRes)[i as int] as int, kiQp as int));
        pRes[i] = #[verifier::truncate] (d as i16);
        i = i + 1;
    }
}

/// The 2x2 inverse Hadamard transform of the chroma DC levels, each output
/// scaled by `mf` and halved: `(sum * mf) >> 1`.
pub open spec fn ihadamard2x2(x: Seq<i16>, k: int, mf: int) -> int {
    let su = x[0] + x[2];
    let du = x[0] - x[2];
    let sd = x[1] + x[3];
    let dd = x[1] - x[3];
    let s = if k == 0 {
        su + sd
    } else if k == 1 {
        su - sd
    } else if k == 2 {
        du + dd
    } else {
        du - dd
    };
    (s * mf) / 2
}

/// The unscaled 2x2 inverse Hadamard transform of four levels.
pub open spec fn hadamard2x2_of(x: Seq<i16>) -> Seq<i16> {
    seq![
        ihadamard2x2(x, 0, 2) as i16,
        ihadamard2x2(x, 1, 2) as i16,
        ihadamard2x2(x, 2, 2) as i16,
        ihadamard2x2(x, 3, 2) as i16,
    ]
}

/// The chroma DC transform is the 2x2 Hadamard transform, scaled: each
/// output is the unscaled output (the transform at scale 2) times `mf`,
/// halved; the first output is the sum of the four levels; and applying
/// the unscaled transform twice gives four times the levels back.
pub proof fn law_chroma_dc_transform_is_a_hadamard(x: Seq<i16>, mf: int)
    requires
        x.len() == 4,
        forall|i: int| 0 <= i < 4 ==> -8192 <= #[trigger] x[i] <= 8191,
    ensures
        forall|k: int| 0 <= k < 4 ==> #[trigger] ihadamard2x2(x, k, mf) == (ihadamard2x2(x, k, 2) * mf) / 2,
        ihadamard2x2(x, 0, 2) == x[0] + x[1] + x[2] + x[3],
        forall|k: int| 0 <= k < 4 ==> #[trigger] ihadamard2x2(hadamard2x2_of(x), k, 2) == 4 * x[k],
{
    let y = hadamard2x2_of(x);
    assert(forall|k: int| 0 <= k < 4 ==> -32768 <= #[trigger] ihadamard2x2(x, k, 2) <= 32767);
    assert(y[0] == ihadamard2x2(x, 0, 2));
    assert(y[1] == ihadamard2x2(x, 1, 2));
    assert(y[2] == ihadamard2x2(x, 2, 2));
    assert(y[3] == ihadamard2x2(x, 3, 2));
}

/// 2x2 inverse Hadamard and dequantisation of the chroma DC levels. Sums and
/// results must fit `i16`, as the kernel computes in it.
pub fn WelsDequantIHadamard2x2Dc(pDct: &mut [i16; 4], kuiMF: u16)
    requires
        forall|i: int| 0 <= i < 4 ==> -8192 <= #[trigger] old(pDct)[i] <= 8191,
        forall|k: int|
            0 <= k < 4 ==> i16::MIN <= #[trigger] ihadamard2x2(old(pDct)@, k, kuiMF as int) <= i16::MAX,
    ensures
        forall|k: int| 0 <= k < 4 ==> #[trigger] final(pDct)[k] == ihadamard2x2(old(pDct)@, k, kuiMF as int),
{
    let ghost x = pDct@;
    let su = pDct[0] as i32 + pDct[2] as i32;
    let du = pDct[0] as i32 - pDct[2] as i32;
    let sd = pDct[1] as i32 + pDct[3] as i32;
    let dd = pDct[1] as i32 - pDct[3] as i32;
    let mf = kuiMF as i32;
    let a = su + sd;
    let b = su - sd;
    let c = du + dd;
    let d = du - dd;
    proof {
        assert(-32768 <= a <= 32767 && 0 <= mf <= 65535 ==> -2147483648 <= a * mf <= 2147418112)
            by (nonlinear_arith);
        assert(-32768 <= b <= 32767 && 0 <= mf <= 65535 ==> -2147483648 <= b * mf <= 2147418112)
            by (nonlinear_arith);
        assert(-32768 <= c <= 32767 && 0 <= mf <= 65535 ==> -2147483648 <= c * mf <= 2147418112)
            by (nonlinear_arith);
        assert(-32768 <= d <= 32767 && 0 <= mf <= 65535 ==> -2147483648 <= d * mf <= 2147418112)
            by (nonlinear_arith);
    }
    let (pa, pb, pc, pd) = (a * mf, b * mf, c * mf, d * mf);
    proof {
        crate::bits::lemma_i32_shifts();
        assert(pa >> 1u32 == pa / 2);
        assert(pb >> 1u32 == pb / 2);
        assert(pc >> 1u32 == pc / 2);
        assert(pd >> 1u32 == pd / 2);
        assert((pa >> 1u32) == ihadamard2x2(x, 0, kuiMF as int));
        assert((pb >> 1u32) == ihadamard2x2(x, 1, kuiMF as int));
        assert((pc >> 1u32) == ihadamard2x2(x, 2, kuiMF as int));
        assert((pd >> 1u32) == ihadamard2x2(x, 3, kuiMF as int));
    }
    pDct[0] = (pa >> 1u32) as i16;
    pDct[1] = (pb >> 1u32) as i16;
    pDct[2] = (pc >> 1u32) as i16;
    pDct[3] = (pd >> 1u32) as i16;
}


/// The inverse DC Hadamard transform undoes itself up to a factor 16:
/// transforming the transform of a block gives the block times 16.
pub proof fn law_ihadamard_twice_scales_by_16(x: Seq<i16>, y: Seq<i16>)
    requires
        x.len() == 16,
        y.len() == 16,
        forall|r: int, c: int| 0 <= r < 4 && 0 <= c < 4 ==> #[trigger] y[4 * r + c] == hadamard4x4(x, r, c),
    ensures
        forall|r: int, c: int| 0 <= r < 4 && 0 <= c < 4 ==> #[trigger] hadamard4x4(y, r, c) == 16 * x[4 * r + c],
{
    assert forall|r: int, c: int| 0 <= r < 4 && 0 <= c < 4 implies #[trigger] hadamard4x4(y, r, c) == 16 * x[4
        * r + c] by {
        assert forall|i: int, j: int| 0 <= i < 4 && 0 <= j < 4 implies y[4 * i + j] == hadamard4x4(x, i, j) by {}
        assert(y[0] == hadamard4x4(x, 0, 0) && y[1] == hadamard4x4(x, 0, 1) && y[2] == hadamard4x4(x, 0, 2)
            && y[3] == hadamard4x4(x, 0, 3));
        assert(y[4] == hadamard4x4(x, 1, 0) && y[5] == hadamard4x4(x, 1, 1) && y[6] == hadamard4x4(x, 1, 2)
            && y[7] == hadamard4x4(x, 1, 3));
        assert(y[8] == hadamard4x4(x, 2, 0) && y[9] == hadamard4x4(x, 2, 1) && y[10] == hadamard4x4(x, 2, 2)
            && y[11] == hadamard4x4(x, 2, 3));
        assert(y[12] == hadamard4x4(x, 3, 0) && y[13] == hadamard4x4(x, 3, 1) && y[14] == hadamard4x4(x, 3, 2)
            && y[15] == hadamard4x4(x, 3, 3));
    }
}

} // verus!
