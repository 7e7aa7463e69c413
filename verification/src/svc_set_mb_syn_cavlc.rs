//! CAVLC macroblock syntax: the coefficient statistics, the residual block
//! writer and the macroblock-level writers built on them.
use vstd::prelude::*;
use crate::bits::{BsWriter, val_bits, zero_bits, ue_bits, se_bits, te_bits, fits};
use crate::vlc_encoder::{
    code_bits, g_kuiEncNcMapTable, g_kuiVlcCoeffToken, g_kuiVlcTotalZeros,
    g_kuiVlcTotalZerosChromaDc, g_kuiVlcRunBefore, g_kuiZeroLeftMap,
};
pub use crate::mb::TagMVComponentUnit;
use crate::svc_encode_slice::{SDynamicSlicingStack, SSlice, EWelsSliceType};
use crate::svc_set_mb_syn_cabac::{SCabacCtx, GetBsPosCabac};
use crate::cavlc_mb_pred::{
    WelsSpatialWriteMbPred, WelsSpatialWriteSubMbPred, mb_pred_bits, sub_mb_pred_bits, mb_pred_codable,
    ref_codable, mvd_ok,
};
use crate::cavlc_mb_residual::{WelsWriteMbResidual, residual_jobs, jobs_bits, jobs_room};
use crate::mb::SUB_MB_TYPE_8x8;
use crate::mb::{
    SMB, SMbCache, SMVUnitXY, MB_TYPE_SKIP, MB_TYPE_INTRA4x4, MB_TYPE_INTRA16x16, MB_TYPE_8x8,
};

verus! {

pub const LUMA_DC: i32 = 0;
pub const LUMA_AC: i32 = 1;
pub const LUMA_4x4: i32 = 2;
pub const CHROMA_DC: i32 = 3;
pub const CHROMA_AC: i32 = 4;

pub const CHROMA_DC_NC_OFFSET: i8 = 17;

pub const MAX_MACROBLOCK_SIZE_IN_BYTE: usize = 400;
pub const MAX_MACROBLOCK_SIZE_IN_BYTE_x2: usize = 800;

pub const ENC_RETURN_SUCCESS: i32 = 0;
pub const ENC_RETURN_VLCOVERFLOWFOUND: i32 = 0x40;

pub fn IS_SKIP(mb_type: u32) -> (r: bool)
    ensures
        r == ((mb_type & MB_TYPE_SKIP) != 0),
{
    (mb_type & MB_TYPE_SKIP) != 0
}

pub fn IS_INTRA4x4(mb_type: u32) -> (r: bool)
    ensures
        r == (mb_type == MB_TYPE_INTRA4x4),
{
    mb_type == MB_TYPE_INTRA4x4
}

pub fn IS_INTRA16x16(mb_type: u32) -> (r: bool)
    ensures
        r == (mb_type == MB_TYPE_INTRA16x16),
{
    mb_type == MB_TYPE_INTRA16x16
}

pub fn IS_Inter_8x8(mb_type: u32) -> (r: bool)
    ensures
        r == ((mb_type & MB_TYPE_8x8) != 0),
{
    (mb_type & MB_TYPE_8x8) != 0
}

pub open spec fn clip_qp(x: int) -> int {
    if x < 0 {
        0
    } else if x > 51 {
        51
    } else {
        x
    }
}

/// Clamps a QP into `0..=51`.
pub fn CLIP3_QP_0_51(x: i32) -> (r: i32)
    ensures
        r == clip_qp(x as int),
{
    if x < 0 {
        0
    } else if x > 51 {
        51
    } else {
        x
    }
}

/// The predicted non-zero count `nC` from the left (`nA`) and top (`nB`)
/// neighbours, where `-1` marks an unavailable neighbour: the rounded mean of
/// both when both exist, the one that exists otherwise, and 0 when neither does.
pub open spec fn nc_average(nA: int, nB: int) -> int {
    if nA != -1 && nB != -1 {
        (nA + nB + 1) / 2
    } else if nA == -1 && nB == -1 {
        0
    } else {
        nA + nB + 1
    }
}

pub fn wels_non_zero_count_average(nA: i8, nB: i8) -> (r: i8)
    ensures
        r == nc_average(nA as int, nB as int),
{
    let mut nC = (nA as i32) + (nB as i32) + 1;
    let shift: u32 = if nA != -1 && nB != -1 {
        1
    } else {
        0
    };
    proof {
        crate::bits::lemma_i32_shifts();
    }
    if shift == 1 {
        assert((nC >> 1u32) == nC / 2);
    } else {
        assert((nC >> 0u32) == nC);
    }
    nC = nC >> shift;
    let add: i32 = if nA == -1 && nB == -1 {
        1
    } else {
        0
    };
    nC = nC + add;
    nC as i8
}

pub const g_kuiIntra4x4CbpMap: [u32; 48] = [
    3, 29, 30, 17, 31, 18, 37, 8, 32, 38, 19, 9, 20, 10, 11, 2,
    16, 33, 34, 21, 35, 22, 39, 4, 36, 40, 23, 5, 24, 6, 7, 1,
    41, 42, 43, 25, 44, 26, 46, 12, 45, 47, 27, 13, 28, 14, 15, 0,
];

pub const g_kuiInterCbpMap: [u32; 48] = [
    0, 2, 3, 7, 4, 8, 17, 13, 5, 18, 9, 14, 10, 15, 16, 11,
    1, 32, 33, 36, 34, 37, 44, 40, 35, 45, 38, 41, 39, 42, 43, 19,
    6, 24, 25, 20, 26, 21, 46, 28, 27, 47, 22, 29, 23, 30, 31, 12,
];

pub const g_kiMapModeI16x16: [i8; 7] = [0, 1, 2, 3, 2, 2, 2];

pub const g_kiMapModeIntraChroma: [i8; 7] = [0, 1, 2, 3, 0, 0, 0];

pub const g_kuiMbCountScan4Idx: [u8; 24] = [
    0, 1, 4, 5, 2, 3, 6, 7, 8, 9, 12, 13, 10, 11, 14, 15, 16, 17, 20, 21, 18, 19, 22, 23,
];

pub const g_kuiCache48CountScan4Idx: [u8; 24] = [
    9, 10, 17, 18, 11, 12, 19, 20, 25, 26, 33, 34, 27, 28, 35, 36, 14, 15, 22, 23, 38, 39, 46,
    47,
];

pub const g_kuiChromaQpTable: [u8; 52] = [
    0, 1, 2, 3, 4, 5, 6, 7, 8, 9, 10, 11, 12, 13, 14, 15, 16, 17, 18, 19, 20, 21, 22, 23, 24, 25,
    26, 27, 28, 29, 29, 30, 31, 32, 32, 33, 34, 34, 35, 35, 36, 36, 37, 37, 37, 38, 38, 38, 39,
    39, 39, 39,
];

// ---------------------------------------------------------------------------
// Coefficient statistics
// ---------------------------------------------------------------------------

/// The positions of the non-zero coefficients below `hi`, highest first.
pub open spec fn nz_desc(c: Seq<i16>, hi: int) -> Seq<int>
    decreases hi,
{
    if hi <= 0 {
        Seq::empty()
    } else if c[hi - 1] != 0 {
        seq![hi - 1] + nz_desc(c, hi - 1)
    } else {
        nz_desc(c, hi - 1)
    }
}

/// How many coefficients a scan ending at `end_idx` looks at.
pub open spec fn scan_len(c: Seq<i16>, end_idx: int) -> int {
    if end_idx < c.len() - 1 {
        if end_idx < -1 {
            0
        } else {
            end_idx + 1
        }
    } else {
        c.len() as int
    }
}

/// The non-zero positions a CAVLC scan of `c` up to `end_idx` visits, highest
/// first.
pub open spec fn cavlc_nz(c: Seq<i16>, end_idx: int) -> Seq<int> {
    nz_desc(c, scan_len(c, end_idx))
}

/// The zero run below the `k`-th non-zero coefficient (down to the next one,
/// or to the start of the block for the last).
pub open spec fn run_of(nz: Seq<int>, k: int) -> int {
    if k + 1 < nz.len() {
        nz[k] - nz[k + 1] - 1
    } else {
        nz[k]
    }
}

/// Zeros below the highest non-zero coefficient.
pub open spec fn total_zeros_of(nz: Seq<int>) -> int {
    if nz.len() == 0 {
        0
    } else {
        nz[0] + 1 - nz.len()
    }
}

proof fn lemma_nz_desc_len(c: Seq<i16>, hi: int)
    ensures
        hi >= 0 ==> nz_desc(c, hi).len() <= hi,
        hi <= 0 ==> nz_desc(c, hi).len() == 0,
    decreases hi,
{
    if hi > 0 {
        lemma_nz_desc_len(c, hi - 1);
    }
}

/// Collects, from the highest scanned position down, each non-zero level and
/// the zero run below it. Answers the number of zeros below the highest
/// non-zero level; `pTotalCoeff` receives the number of non-zero levels.
pub fn CavlcParamCal_c(
    pCoffLevel: &[i16],
    pRun: &mut [u8; 16],
    pLevel: &mut [i16; 16],
    pTotalCoeff: &mut i32,
    iEndIdx: i32,
) -> (r: i32)
    requires
        iEndIdx <= 15,
    ensures
        *final(pTotalCoeff) == cavlc_nz(pCoffLevel@, iEndIdx as int).len(),
        forall|k: int|
            0 <= k < cavlc_nz(pCoffLevel@, iEndIdx as int).len() ==> #[trigger] final(pLevel)[k]
                == pCoffLevel@[cavlc_nz(pCoffLevel@, iEndIdx as int)[k]],
        forall|k: int|
            0 <= k < cavlc_nz(pCoffLevel@, iEndIdx as int).len() ==> #[trigger] final(pRun)[k]
                == run_of(cavlc_nz(pCoffLevel@, iEndIdx as int), k),
        forall|k: int|
            cavlc_nz(pCoffLevel@, iEndIdx as int).len() <= k < 16 ==> #[trigger] final(pLevel)[k]
                == old(pLevel)[k] && final(pRun)[k] == old(pRun)[k],
        r == total_zeros_of(cavlc_nz(pCoffLevel@, iEndIdx as int)),
        r >= 0,
{
    let ghost c = pCoffLevel@;
    let ghost nz = cavlc_nz(c, iEndIdx as int);
    let mut iTotalZeros: i32 = 0;
    let mut iTotalCoeffs: i32 = 0;
    let len = pCoffLevel.len();
    let mut iLastIndex: i32 = iEndIdx;
    if iLastIndex < -1 {
        iLastIndex = -1;
    }
    if iLastIndex >= 0 && (iLastIndex as usize) >= len {
        iLastIndex = len as i32 - 1;
    }
    proof {
        assert(iLastIndex + 1 == scan_len(c, iEndIdx as int));
        lemma_nz_desc_len(c, iLastIndex + 1);
        assert(nz.skip(0) =~= nz);
    }
    while iLastIndex >= 0 && pCoffLevel[iLastIndex as usize] == 0
        invariant
            -1 <= iLastIndex < c.len(),
            c == pCoffLevel@,
            iLastIndex < 16,
            nz == nz_desc(c, iLastIndex + 1),
        decreases iLastIndex + 1,
    {
        iLastIndex = iLastIndex - 1;
    }
    proof {
        assert(nz.skip(0) =~= nz);
    }
    while iLastIndex >= 0
        invariant
            -1 <= iLastIndex < c.len(),
            c == pCoffLevel@,
            iLastIndex < 16,
            0 <= iTotalCoeffs <= nz.len(),
            nz.len() <= 16,
            iLastIndex >= 0 ==> c[iLastIndex as int] != 0,
            nz.skip(iTotalCoeffs as int) == nz_desc(c, iLastIndex + 1),
            iTotalCoeffs > 0 ==> iTotalZeros == nz[0] - nz[iTotalCoeffs - 1] - (iTotalCoeffs - 1)
                + run_of(nz, iTotalCoeffs - 1),
            iTotalCoeffs == 0 ==> iTotalZeros == 0,
            0 <= iTotalZeros <= 16 * iTotalCoeffs,
            forall|k: int| 0 <= k < iTotalCoeffs ==> #[trigger] pLevel[k] == c[nz[k]],
            forall|k: int| 0 <= k < iTotalCoeffs ==> #[trigger] pRun[k] == run_of(nz, k),
            forall|k: int| iTotalCoeffs <= k < 16 ==> #[trigger] pLevel[k] == old(pLevel)[k],
            forall|k: int| iTotalCoeffs <= k < 16 ==> #[trigger] pRun[k] == old(pRun)[k],
        decreases iLastIndex + 1,
    {
        let ghost k = iTotalCoeffs as int;
        let mut iCountZero: u8 = 0;
        let ghost top = iLastIndex;
        proof {
            assert(nz_desc(c, top + 1) =~= seq![top as int] + nz_desc(c, top as int));
            assert(nz.skip(k).len() > 0);
            assert(nz.skip(k)[0] == nz[k]);
            assert(nz[k] == top);
        }
        pLevel[iTotalCoeffs as usize] = pCoffLevel[iLastIndex as usize];
        iLastIndex = iLastIndex - 1;
        while iLastIndex >= 0 && pCoffLevel[iLastIndex as usize] == 0
            invariant
                -1 <= iLastIndex < top,
                top < c.len(),
                c == pCoffLevel@,
                top < 16,
                iCountZero == top - 1 - iLastIndex,
                nz_desc(c, top as int) == nz_desc(c, iLastIndex + 1),
            decreases iLastIndex + 1,
        {
            iCountZero = iCountZero + 1;
            iLastIndex = iLastIndex - 1;
        }
        proof {
            assert(nz.skip(k + 1) =~= nz.skip(k).skip(1));
            assert(nz.skip(k + 1) =~= nz_desc(c, iLastIndex + 1));
            if iLastIndex >= 0 {
                assert(nz_desc(c, iLastIndex + 1)[0] == iLastIndex);
                assert(nz.skip(k + 1)[0] == nz[k + 1]);
                assert(nz[k + 1] == iLastIndex);
            } else {
                assert(nz_desc(c, 0).len() == 0);
                assert(nz.len() == k + 1);
            }
            assert(run_of(nz, k) == iCountZero);
        }
        iTotalZeros = iTotalZeros + iCountZero as i32;
        pRun[iTotalCoeffs as usize] = iCountZero;
        iTotalCoeffs = iTotalCoeffs + 1;
    }
    proof {
        assert(nz_desc(c, 0).len() == 0);
        assert(iTotalCoeffs == nz.len());
    }
    *pTotalCoeff = iTotalCoeffs;
    iTotalZeros
}


// ---------------------------------------------------------------------------
// Residual block syntax
// ---------------------------------------------------------------------------

/// The non-zero levels of a scan, in scan order (highest position first).
pub open spec fn cavlc_levels(c: Seq<i16>, end_idx: int) -> Seq<i16> {
    let nz = cavlc_nz(c, end_idx);
    Seq::new(nz.len(), |k: int| c[nz[k]])
}

pub open spec fn cavlc_runs(c: Seq<i16>, end_idx: int) -> Seq<int> {
    let nz = cavlc_nz(c, end_idx);
    Seq::new(nz.len(), |k: int| run_of(nz, k))
}

/// Trailing ones: how many of the levels from `i` on, below `cap`, are `+-1`
/// without interruption.
pub open spec fn t1_from(levels: Seq<i16>, i: int, cap: int) -> int
    decreases cap - i,
{
    if i >= cap || i < 0 || (levels[i] != 1 && levels[i] != -1) {
        0
    } else {
        1 + t1_from(levels, i + 1, cap)
    }
}

pub open spec fn min_int(a: int, b: int) -> int {
    if a < b {
        a
    } else {
        b
    }
}

pub open spec fn clamp_nc(nc: int) -> int {
    if nc < 0 {
        0
    } else if nc > 17 {
        17
    } else {
        nc
    }
}

/// The `levelCode` of a level: `2v - 2` for positive levels, `-2v - 1` for
/// negative ones, lowered by 2 for the first level after fewer than three
/// trailing ones.
pub open spec fn level_code(v: int, adjust: bool) -> int {
    let lc = if v > 0 {
        2 * v - 2
    } else {
        -2 * v - 1
    };
    if adjust {
        lc - 2
    } else {
        lc
    }
}

/// `(level_prefix, level_suffix, suffix size)` of a level code under suffix
/// length `sl`, or `None` when the escape suffix does not fit its 11 bits.
pub open spec fn level_enc(lc: int, sl: int) -> Option<(int, int, int)> {
    let p = lc / crate::bits::pow2_int(sl);
    if p >= 14 && p < 30 && sl == 0 {
        Some((14, lc - 14, 4))
    } else if p >= 15 {
        let suf = lc - 15 * crate::bits::pow2_int(sl);
        if suf >= 2048 {
            None
        } else {
            Some((15, if sl == 0 {
                suf - 15
            } else {
                suf
            }, 12))
        }
    } else {
        Some((p, lc % crate::bits::pow2_int(sl), sl))
    }
}

pub open spec fn abs_int(v: int) -> int {
    if v < 0 {
        -v
    } else {
        v
    }
}

/// The suffix length after coding a level of value `v`.
pub open spec fn next_sl(sl: int, v: int) -> int {
    let s1 = if sl == 0 {
        1
    } else {
        sl
    };
    if abs_int(v) > 3 * crate::bits::pow2_int(s1 - 1) && s1 < 6 {
        s1 + 1
    } else {
        s1
    }
}

/// The level codes of `levels[i..total]`, or `None` if one of them escapes its
/// suffix range.
pub open spec fn levels_bits(levels: Seq<i16>, i: int, total: int, t1: int, sl: int) -> Option<
    Seq<bool>,
>
    decreases total - i,
{
    if i >= total {
        Some(Seq::empty())
    } else {
        match level_enc(level_code(levels[i] as int, i == t1 && t1 < 3), sl) {
            None => None,
            Some((p, suf, size)) => match levels_bits(
                levels,
                i + 1,
                total,
                t1,
                next_sl(sl, levels[i] as int),
            ) {
                None => None,
                Some(rest) => Some(zero_bits(p as nat) + seq![true] + val_bits(
                    suf as u32,
                    size as nat,
                ) + rest),
            },
        }
    }
}

/// The run_before codes: one per level but the last, while zeros remain.
pub open spec fn runs_bits(runs: Seq<int>, i: int, total: int, zl: int) -> Seq<bool>
    decreases total - i,
{
    if i + 1 < total && zl > 0 {
        code_bits(
            g_kuiVlcRunBefore[g_kuiZeroLeftMap[min_int(zl, 15)] as int][min_int(runs[i], 14)],
        ) + runs_bits(runs, i + 1, total, zl - runs[i])
    } else {
        Seq::empty()
    }
}

pub open spec fn total_zeros_bits(total: int, tz: int, end_idx: int, prop: int) -> Seq<bool> {
    if total < end_idx + 1 {
        if prop != CHROMA_DC {
            code_bits(g_kuiVlcTotalZeros[min_int(total, 15)][min_int(tz, 15)])
        } else {
            code_bits(g_kuiVlcTotalZerosChromaDc[min_int(total, 3)][min_int(tz, 3)])
        }
    } else {
        Seq::empty()
    }
}

pub open spec fn token_bits(nc: int, total: int, t1: int) -> Seq<bool> {
    code_bits(
        g_kuiVlcCoeffToken[g_kuiEncNcMapTable[clamp_nc(nc)] as int][min_int(total, 16)][min_int(
            t1,
            3,
        )],
    )
}

/// The CAVLC syntax of a block from its scan statistics: the non-zero levels
/// (highest position first), the zero run below each and the total number of
/// zeros below the highest level. `None` when a level escapes.
pub open spec fn block_bits(
    levels: Seq<i16>,
    runs: Seq<int>,
    tz: int,
    end_idx: int,
    prop: int,
    nc: int,
) -> Option<Seq<bool>> {
    let total = levels.len() as int;
    let t1 = t1_from(levels, 0, min_int(total, 3));
    if total == 0 {
        Some(token_bits(nc, 0, 0))
    } else {
        let sl0 = if total > 10 && t1 < 3 {
            1int
        } else {
            0int
        };
        match levels_bits(levels, t1, total, t1, sl0) {
            None => None,
            Some(lb) => Some(token_bits(nc, total, t1) + Seq::new(
                t1 as nat,
                |i: int| levels[i] < 0,
            ) + lb + total_zeros_bits(total, tz, end_idx, prop) + runs_bits(runs, 0, total, tz)),
        }
    }
}

/// The complete CAVLC syntax of one residual block (coeff_token, trailing-one
/// signs, levels, total_zeros, run_before), or `None` when a level escapes.
/// Without run/level analysis only the empty-block token is written.
pub open spec fn residual_block_bits(c: Seq<i16>, end_idx: int, cal: bool, prop: int, nc: int) -> Option<
    Seq<bool>,
> {
    if !cal {
        Some(token_bits(nc, 0, 0))
    } else {
        block_bits(
            cavlc_levels(c, end_idx),
            cavlc_runs(c, end_idx),
            total_zeros_of(cavlc_nz(c, end_idx)),
            end_idx,
            prop,
            nc,
        )
    }
}

/// The number of bits a level takes under suffix length `sl`; none when it
/// escapes, since then nothing is written.
pub open spec fn level_room(v: int, adjust: bool, sl: int) -> nat {
    match level_enc(level_code(v, adjust), sl) {
        None => 0,
        Some((p, suf, size)) => (p as nat) + 1 + (size as nat),
    }
}

/// The number of bits written for `levels[i..total]`: every level up to the
/// first one that escapes.
pub open spec fn levels_room(levels: Seq<i16>, i: int, total: int, t1: int, sl: int) -> nat
    decreases total - i,
{
    if i >= total {
        0
    } else {
        match level_enc(level_code(levels[i] as int, i == t1 && t1 < 3), sl) {
            None => 0,
            Some((p, suf, size)) => (p as nat) + 1 + (size as nat) + levels_room(
                levels,
                i + 1,
                total,
                t1,
                next_sl(sl, levels[i] as int),
            ),
        }
    }
}

/// The number of bits the block writer puts down for a block from its scan
/// statistics: the whole syntax when no level escapes, and otherwise the
/// coeff_token, the trailing-one signs and the levels before the escaping one.
pub open spec fn block_room(
    levels: Seq<i16>,
    runs: Seq<int>,
    tz: int,
    end_idx: int,
    prop: int,
    nc: int,
) -> nat {
    let total = levels.len() as int;
    let t1 = t1_from(levels, 0, min_int(total, 3));
    if total == 0 {
        token_bits(nc, 0, 0).len()
    } else {
        let sl0 = if total > 10 && t1 < 3 {
            1int
        } else {
            0int
        };
        token_bits(nc, total, t1).len() + (t1 as nat) + levels_room(levels, t1, total, t1, sl0)
            + match levels_bits(levels, t1, total, t1, sl0) {
            None => 0,
            Some(_) => total_zeros_bits(total, tz, end_idx, prop).len() + runs_bits(
                runs,
                0,
                total,
                tz,
            ).len(),
        }
    }
}

/// The number of bits [`WriteBlockResidualCavlc`] puts down for a block.
pub open spec fn residual_block_room(c: Seq<i16>, end_idx: int, cal: bool, prop: int, nc: int) -> nat {
    if !cal {
        token_bits(nc, 0, 0).len()
    } else {
        block_room(
            cavlc_levels(c, end_idx),
            cavlc_runs(c, end_idx),
            total_zeros_of(cavlc_nz(c, end_idx)),
            end_idx,
            prop,
            nc,
        )
    }
}

proof fn lemma_levels_room(levels: Seq<i16>, i: int, total: int, t1: int, sl: int)
    ensures
        levels_bits(levels, i, total, t1, sl) matches Some(lb) ==> levels_room(levels, i, total, t1, sl)
            == lb.len(),
    decreases total - i,
{
    if i < total {
        lemma_levels_room(levels, i + 1, total, t1, next_sl(sl, levels[i] as int));
    }
}

/// When a block has a code, the number of bits its writer puts down is the
/// length of that code.
pub proof fn law_block_room_is_its_code_length(c: Seq<i16>, end_idx: int, cal: bool, prop: int, nc: int)
    ensures
        residual_block_bits(c, end_idx, cal, prop, nc) matches Some(b) ==> residual_block_room(
            c,
            end_idx,
            cal,
            prop,
            nc,
        ) == b.len(),
{
    if cal {
        let levels = cavlc_levels(c, end_idx);
        let total = levels.len() as int;
        let t1 = t1_from(levels, 0, min_int(total, 3));
        let sl0 = if total > 10 && t1 < 3 {
            1int
        } else {
            0int
        };
        lemma_levels_room(levels, t1, total, t1, sl0);
    }
}


proof fn lemma_shift_div(x: u32, s: u32)
    requires
        s <= 6,
    ensures
        (x >> s) as int == x as int / crate::bits::pow2_int(s as int),
        (x - ((x >> s) << s)) as int == x as int % crate::bits::pow2_int(s as int),
        ((x >> s) << s) <= x,
        (15u32 << s) as int == 15 * crate::bits::pow2_int(s as int),
{
    crate::bits::lemma_pow2_u32(s as int);
    assert(s <= 6 ==> (x >> s) == x / (1u32 << s)) by (bit_vector);
    assert(s <= 6 ==> ((x >> s) << s) <= x) by (bit_vector);
    assert(s <= 6 ==> (x - ((x >> s) << s)) as u32 == x % (1u32 << s)) by (bit_vector);
    assert(s <= 6 ==> (15u32 << s) == 15 * (1u32 << s)) by (bit_vector);
}

proof fn lemma_fits_one(k: int)
    requires
        1 <= k < 32,
    ensures
        fits(1u32, k),
{
    let kk = k as u32;
    crate::bits::lemma_u32_shifts();
    assert(1 <= kk && kk < 32 ==> (1u32 >> kk) == 0u32);
    crate::bits::lemma_shr_fits(1u32, k);
}

/// The suffix length after a level (H.264, 9.2.2.1): a level coded with
/// suffix length 0 leaves suffix length 1 behind, and the suffix length
/// then grows by one, up to 6, exactly when the level's magnitude exceeds
/// 3, 6, 12, 24 or 48 under suffix length 1 to 5 (three times half the
/// suffix length's power of two).
pub proof fn law_suffix_length_grows_past_its_threshold(sl: int, v: int)
    requires
        0 <= sl <= 6,
    ensures
        ({
            let s1 = if sl == 0 {
                1int
            } else {
                sl
            };
            let thr = if s1 == 1 {
                3int
            } else if s1 == 2 {
                6int
            } else if s1 == 3 {
                12int
            } else if s1 == 4 {
                24int
            } else {
                48int
            };
            next_sl(sl, v) == if s1 < 6 && (v > thr || v < -thr) {
                s1 + 1
            } else {
                s1
            }
        }),
{
    reveal_with_fuel(crate::bits::pow2_int, 6);
}

/// The standard CAVLC level parser reads back what the level writer writes.
/// For a level with a code, the written prefix is at most 15; the suffix
/// takes the parser's size for that prefix (4 bits after prefix 14 under
/// suffix length 0, 12 bits after prefix 15, the suffix length otherwise)
/// and fits it; the parser's level code, `min(prefix, 15)` shifted by the
/// suffix length plus the suffix (plus 15 after prefix 15 under suffix
/// length 0, plus 2 for the first level after fewer than three trailing
/// ones), decodes to the level: `(code + 2) / 2` when even, `-(code + 1) / 2`
/// when odd.
pub proof fn law_level_reads_back(v: int, adjust: bool, sl: int)
    requires
        v != 0,
        adjust ==> v != 1 && v != -1,
        0 <= sl <= 6,
    ensures
        level_enc(level_code(v, adjust), sl) matches Some((p, suf, size)) ==> {
            let code = p * crate::bits::pow2_int(sl) + suf + (if p == 15 && sl == 0 {
                15int
            } else {
                0int
            }) + (if adjust {
                2int
            } else {
                0int
            });
            &&& 0 <= p <= 15
            &&& size == if p == 14 && sl == 0 {
                4
            } else if p == 15 {
                12
            } else {
                sl
            }
            &&& 0 <= suf < crate::bits::pow2_int(size)
            &&& v == if code % 2 == 0 {
                (code + 2) / 2
            } else {
                -((code + 1) / 2)
            }
        },
{
    reveal_with_fuel(crate::bits::pow2_int, 13);
    let lc = level_code(v, adjust);
    assert(lc >= 0);
    let d = crate::bits::pow2_int(sl);
    assert(1 <= d <= 64);
    vstd::arithmetic::div_mod::lemma_fundamental_div_mod(lc, d);
    let q = lc / d;
    let r = lc % d;
    assert(0 <= r < d);
    assert(lc == d * q + r);
    assert(q >= 0) by (nonlinear_arith)
        requires
            lc == d * q + r,
            0 <= r < d,
            lc >= 0,
            d >= 1,
    ;
    if q >= 15 {
        assert(d * q >= 15 * d) by (nonlinear_arith)
            requires
                q >= 15,
                d >= 1,
        ;
    }
    if q < 15 {
        assert(q * d == d * q) by (nonlinear_arith);
    }
}

/// The suffix length after coding a level.
pub fn next_suffix_length(sl: u32, v: i16) -> (r: u32)
    requires
        sl <= 6,
    ensures
        r == next_sl(sl as int, v as int),
        1 <= r <= 6,
{
    let s1: u32 = if sl == 0 {
        1
    } else {
        sl
    };
    proof {
        crate::bits::lemma_pow2_u32((s1 - 1) as int);
        let e = (s1 - 1) as u32;
        assert(e <= 5 ==> (3i32 << e) == 3 * (1u32 << e)) by (bit_vector);
    }
    let thr: i32 = 3i32 << (s1 - 1);
    let iVal = v as i32;
    if (iVal > thr || iVal < -thr) && s1 < 6 {
        s1 + 1
    } else {
        s1
    }
}

/// Writes one level (level_prefix and level_suffix) under suffix length `sl`.
/// Answers `false`, writing nothing, when the escape suffix would not fit.
#[verifier::spinoff_prover]
#[verifier::rlimit(40)]
pub fn write_level(buf: &mut [u8], pBs: &mut BsWriter, v: i16, adjust: bool, sl: u32) -> (ok: bool)
    requires
        old(pBs).wf(),
        sl <= 6,
        v != 0,
        adjust ==> v != 1 && v != -1,
        old(pBs).has_room(old(buf)@.len() as int, level_room(v as int, adjust, sl as int) as int),
    ensures
        final(pBs).wf(),
        final(buf)@.len() == old(buf)@.len(),
        forall|i: int| 0 <= i < old(pBs).pos ==> final(buf)@[i] == old(buf)@[i],
        final(pBs).bit_len() == old(pBs).bit_len() + level_room(v as int, adjust, sl as int),
        final(pBs).pos >= old(pBs).pos,
        match level_enc(level_code(v as int, adjust), sl as int) {
            None => !ok && *final(pBs) == *old(pBs),
            Some((p, suf, size)) => ok && final(pBs).bits(final(buf)@) == old(pBs).bits(old(buf)@)
                + zero_bits(p as nat) + seq![true] + val_bits(suf as u32, size as nat),
        },
{
    let iVal = v as i32;
    let lc0: i32 = if iVal > 0 {
        2 * iVal - 2
    } else {
        -2 * iVal - 1
    };
    let lc: i32 = if adjust {
        lc0 - 2
    } else {
        lc0
    };
    assert(lc == level_code(v as int, adjust));
    assert(lc >= 0);
    let lcu = lc as u32;
    proof {
        lemma_shift_div(lcu, sl);
        crate::bits::lemma_pow2_pos(sl as int);
    }
    let p = lcu >> sl;
    let prefix: u32;
    let suffix: u32;
    let size: u32;
    if p >= 14 && p < 30 && sl == 0 {
        prefix = 14;
        suffix = lcu - 14;
        size = 4;
    } else if p >= 15 {
        proof {
            let q = crate::bits::pow2_int(sl as int);
            let x = lcu as int;
            assert(x / q >= 15 && q > 0 ==> x >= 15 * q) by (nonlinear_arith);
        }
        let suf = lcu - (15u32 << sl);
        if suf >= 2048 {
            assert((suf >> 11u32) != 0 <==> suf >= 2048) by (bit_vector);
            return false;
        }
        prefix = 15;
        suffix = if sl == 0 {
            suf - 15
        } else {
            suf
        };
        size = 12;
    } else {
        prefix = p;
        suffix = lcu - (p << sl);
        size = sl;
    }
    proof {
        crate::bits::lemma_pow2_u32(4);
        crate::bits::lemma_pow2_u32(12);
        crate::bits::lemma_pow2_u32(size as int);
        crate::bits::lemma_u32_shifts();
        assert(fits(suffix, size as int));
        crate::bits::lemma_unary(prefix as int);
        lemma_fits_one((prefix + 1) as int);
        crate::bits::lemma_append_acc(1u32, (prefix + 1) as int, suffix, size as int);
        assert(size < 32 ==> (1u32 << size) >= 1u32);
    }
    let n = (prefix + 1 + size) as i32;
    let value = (1u32 << size) | suffix;
    proof {
    }
    pBs.write_bits(buf, n, value);
    true
}


proof fn lemma_nz_nonzero(c: Seq<i16>, hi: int)
    ensures
        forall|k: int|
            0 <= k < nz_desc(c, hi).len() ==> 0 <= #[trigger] nz_desc(c, hi)[k] < hi && c[nz_desc(
                c,
                hi,
            )[k]] != 0,
    decreases hi,
{
    if hi > 0 {
        lemma_nz_desc_len(c, hi - 1);
        lemma_nz_nonzero(c, hi - 1);
        if c[hi - 1] != 0 {
            let t = nz_desc(c, hi - 1);
            assert forall|k: int| 0 <= k < nz_desc(c, hi).len() implies 0 <= #[trigger] nz_desc(
                c,
                hi,
            )[k] < hi && c[nz_desc(c, hi)[k]] != 0 by {
                if k > 0 {
                    assert(nz_desc(c, hi)[k] == t[k - 1]);
                }
            }
        }
    }
}

proof fn lemma_t1_step(levels: Seq<i16>, i: int, cap: int)
    requires
        0 <= i < cap,
        levels[i] == 1 || levels[i] == -1,
    ensures
        t1_from(levels, i, cap) == 1 + t1_from(levels, i + 1, cap),
{
}

proof fn lemma_t1_bound(levels: Seq<i16>, i: int, cap: int)
    requires
        0 <= i,
    ensures
        0 <= t1_from(levels, i, cap),
        i + t1_from(levels, i, cap) <= if cap > i { cap } else { i },
    decreases cap - i,
{
    if i < cap && (levels[i] == 1 || levels[i] == -1) {
        lemma_t1_bound(levels, i + 1, cap);
    }
}

proof fn lemma_t1_stops(levels: Seq<i16>, i: int, cap: int, t: int)
    requires
        0 <= i <= t < cap,
        t1_from(levels, i, cap) == t - i,
    ensures
        levels[t] != 1 && levels[t] != -1,
    decreases t - i,
{
    if i < t {
        lemma_t1_stops(levels, i + 1, cap, t);
    } else {
        lemma_t1_bound(levels, i + 1, cap);
    }
}

proof fn lemma_t1_prefix(levels: Seq<i16>, cap: int, t: int)
    requires
        0 <= t < cap,
        t1_from(levels, 0, cap) == t,
    ensures
        levels[t] != 1 && levels[t] != -1,
{
    lemma_t1_stops(levels, 0, cap, t);
}

/// Prepends `a` to an optional bit string.
pub open spec fn opt_prepend(a: Seq<bool>, o: Option<Seq<bool>>) -> Option<Seq<bool>> {
    match o {
        None => None,
        Some(r) => Some(a + r),
    }
}

/// The bits of one level under suffix length `sl`, when it has a code.
pub open spec fn level_bits(v: int, adjust: bool, sl: int) -> Option<Seq<bool>> {
    match level_enc(level_code(v, adjust), sl) {
        None => None,
        Some((p, suf, size)) => Some(zero_bits(p as nat) + seq![true] + val_bits(
            suf as u32,
            size as nat,
        )),
    }
}

proof fn lemma_levels_bits_step(levels: Seq<i16>, i: int, total: int, t1: int, sl: int)
    requires
        i < total,
    ensures
        levels_bits(levels, i, total, t1, sl) == match level_bits(
            levels[i] as int,
            i == t1 && t1 < 3,
            sl,
        ) {
            None => None,
            Some(lb) => opt_prepend(
                lb,
                levels_bits(levels, i + 1, total, t1, next_sl(sl, levels[i] as int)),
            ),
        },
{
}

proof fn lemma_opt_prepend_assoc(a: Seq<bool>, b: Seq<bool>, o: Option<Seq<bool>>)
    ensures
        opt_prepend(a, opt_prepend(b, o)) == opt_prepend(a + b, o),
{
    match o {
        None => {},
        Some(r) => {
            assert(a + (b + r) =~= (a + b) + r);
        },
    }
}

/// Collects the trailing ones among the first three levels: their count and
/// their signs (1 for negative), first level in the most significant bit.
#[verifier::spinoff_prover]
fn trailing_ones_signs(iLevel: &[i16; 16], total: i32, Ghost(levels): Ghost<Seq<i16>>) -> (res: (
    i32,
    u32,
))
    requires
        0 <= total <= 16,
        levels.len() == total,
        forall|k: int| 0 <= k < total ==> #[trigger] iLevel[k] == levels[k],
    ensures
        res.0 == t1_from(levels, 0, min_int(total as int, 3)),
        0 <= res.0 <= min_int(total as int, 3),
        fits(res.1, res.0 as int),
        val_bits(res.1, res.0 as nat) == Seq::new(res.0 as nat, |j: int| levels[j] < 0),
{
    let iCount: i32 = if total > 3 {
        3
    } else {
        total
    };
    let mut i: i32 = 0;
    let mut uiSign: u32 = 0;
    let mut stop = false;
    proof {
        assert(val_bits(0u32, 0) =~= Seq::<bool>::empty());
        assert(Seq::new(0, |j: int| levels[j] < 0) =~= Seq::<bool>::empty());
    }
    while i < iCount && !stop
        invariant
            0 <= i <= iCount <= 3,
            iCount == min_int(total as int, 3),
            total == levels.len(),
            forall|k: int| 0 <= k < total ==> #[trigger] iLevel[k] == levels[k],
            !stop ==> t1_from(levels, 0, iCount as int) == i + t1_from(levels, i as int, iCount as int),
            stop ==> t1_from(levels, 0, iCount as int) == i,
            val_bits(uiSign, i as nat) == Seq::new(i as nat, |j: int| levels[j] < 0),
            fits(uiSign, i as int),
        decreases iCount - i + (if stop {
            0int
        } else {
            1int
        }),
    {
        let lv = iLevel[i as usize];
        if lv == 1 || lv == -1 {
            proof {
                lemma_t1_step(levels, i as int, iCount as int);
            }
            let bit: u32 = if lv < 0 {
                1
            } else {
                0
            };
            proof {
                crate::bits::lemma_one_bit(bit);
                crate::bits::lemma_append_acc(uiSign, i as int, bit, 1);
                assert(Seq::new((i + 1) as nat, |j: int| levels[j] < 0) =~= Seq::new(
                    i as nat,
                    |j: int| levels[j] < 0,
                ) + seq![bit == 1]);
            }
            uiSign = (uiSign << 1u32) | bit;
            i = i + 1;
        } else {
            stop = true;
        }
    }
    proof {
        if !stop {
            assert(t1_from(levels, i as int, iCount as int) == 0);
        }
    }
    (i, uiSign)
}

/// Writes the levels after the trailing ones, each with its prefix and suffix,
/// adapting the suffix length as it goes. Answers `false` at the first level
/// that escapes its suffix range.
#[verifier::spinoff_prover]
fn write_levels(
    buf: &mut [u8],
    pBs: &mut BsWriter,
    iLevel: &[i16; 16],
    t1: i32,
    total: i32,
    Ghost(levels): Ghost<Seq<i16>>,
) -> (ok: bool)
    requires
        old(pBs).wf(),
        0 <= t1 <= 3,
        t1 <= total <= 16,
        levels.len() == total,
        forall|k: int| 0 <= k < total ==> #[trigger] iLevel[k] == levels[k],
        forall|k: int| 0 <= k < total ==> #[trigger] levels[k] != 0,
        t1 < 3 && t1 < total ==> levels[t1 as int] != 1 && levels[t1 as int] != -1,
        old(pBs).has_room(
            old(buf)@.len() as int,
            levels_room(levels, t1 as int, total as int, t1 as int, if total > 10 && t1 < 3 {
                1int
            } else {
                0int
            }) as int,
        ),
    ensures
        final(pBs).wf(),
        final(buf)@.len() == old(buf)@.len(),
        forall|j: int| 0 <= j < old(pBs).pos ==> final(buf)@[j] == old(buf)@[j],
        final(pBs).pos >= old(pBs).pos,
        final(pBs).bit_len() == old(pBs).bit_len() + levels_room(
            levels,
            t1 as int,
            total as int,
            t1 as int,
            if total > 10 && t1 < 3 {
                1int
            } else {
                0int
            },
        ),
        match levels_bits(
            levels,
            t1 as int,
            total as int,
            t1 as int,
            if total > 10 && t1 < 3 {
                1int
            } else {
                0int
            },
        ) {
            None => !ok,
            Some(lb) => ok && final(pBs).bits(final(buf)@) == old(pBs).bits(old(buf)@) + lb,
        },
{
    let ghost b0 = pBs.bits(buf@);
    let ghost len0 = pBs.bit_len();
    let ghost pos0 = pBs.pos;
    let ghost buf0 = buf@;
    let mut sl: u32 = if total > 10 && t1 < 3 {
        1
    } else {
        0
    };
    let ghost whole = levels_bits(levels, t1 as int, total as int, t1 as int, sl as int);
    let ghost mut acc: Seq<bool> = Seq::empty();
    let mut li: i32 = t1;
    proof {
        match whole {
            None => {},
            Some(x) => {
                assert(acc + x =~= x);
            },
        }
    }
    while li < total
        invariant
            buf0 == old(buf)@,
            pos0 == old(pBs).pos,
            b0 == old(pBs).bits(old(buf)@),
            len0 == old(pBs).bit_len(),
            pBs.wf(),
            buf@.len() == buf0.len(),
            forall|j: int| 0 <= j < pos0 ==> buf@[j] == buf0[j],
            pBs.pos >= pos0,
            t1 <= li <= total,
            total == levels.len(),
            total <= 16,
            0 <= t1 <= 3,
            sl <= 6,
            forall|k: int| 0 <= k < total ==> #[trigger] iLevel[k] == levels[k],
            forall|k: int| 0 <= k < total ==> #[trigger] levels[k] != 0,
            t1 < 3 && t1 < total ==> levels[t1 as int] != 1 && levels[t1 as int] != -1,
            pBs.bits(buf@) == b0 + acc,
            pBs.bit_len() + levels_room(levels, li as int, total as int, t1 as int, sl as int)
                == len0 + levels_room(levels, t1 as int, total as int, t1 as int, if total > 10
                && t1 < 3 {
                1int
            } else {
                0int
            }),
            len0 + levels_room(levels, t1 as int, total as int, t1 as int, if total > 10 && t1 < 3 {
                1int
            } else {
                0int
            }) <= 8 * buf@.len(),
            8 * buf@.len() + 64 <= i32::MAX,
            whole == opt_prepend(acc, levels_bits(levels, li as int, total as int, t1 as int, sl as int)),
            whole == levels_bits(levels, t1 as int, total as int, t1 as int, if total > 10 && t1 < 3 {
                1int
            } else {
                0int
            }),
        decreases total - li,
    {
        let lv = iLevel[li as usize];
        let adjust = li == t1 && t1 < 3;
        proof {
            lemma_levels_bits_step(levels, li as int, total as int, t1 as int, sl as int);
        }
        let ok = write_level(buf, pBs, lv, adjust, sl);
        if !ok {
            proof {
                assert(level_bits(lv as int, adjust, sl as int) is None);
                assert(whole is None);
            }
            return false;
        }
        let ghost lb = level_bits(lv as int, adjust, sl as int).unwrap();
        proof {
            assert(pBs.bits(buf@) =~= b0 + (acc + lb));
            lemma_opt_prepend_assoc(
                acc,
                lb,
                levels_bits(levels, li + 1, total as int, t1 as int, next_sl(sl as int, lv as int)),
            );
            acc = acc + lb;
        }
        sl = next_suffix_length(sl, lv);
        li = li + 1;
    }
    proof {
        assert(levels_bits(levels, li as int, total as int, t1 as int, sl as int) == Some(
            Seq::<bool>::empty(),
        ));
        assert(acc + Seq::<bool>::empty() =~= acc);
        assert(whole == Some(acc));
    }
    true
}

/// Writes the run_before codes: one per level but the last, while zeros
/// remain to be placed.
#[verifier::spinoff_prover]
fn write_runs(
    buf: &mut [u8],
    pBs: &mut BsWriter,
    uiRun: &[u8; 16],
    total: i32,
    tz: i32,
    Ghost(runs): Ghost<Seq<int>>,
)
    requires
        old(pBs).wf(),
        0 <= total <= 16,
        0 <= tz <= 16,
        runs.len() == total,
        forall|k: int| 0 <= k < total ==> #[trigger] uiRun[k] == runs[k],
        forall|k: int| 0 <= k < total ==> #[trigger] runs[k] <= 15,
        old(pBs).has_room(old(buf)@.len() as int, runs_bits(runs, 0, total as int, tz as int).len() as int),
    ensures
        final(pBs).wf(),
        final(buf)@.len() == old(buf)@.len(),
        forall|j: int| 0 <= j < old(pBs).pos ==> final(buf)@[j] == old(buf)@[j],
        final(pBs).pos >= old(pBs).pos,
        final(pBs).bit_len() == old(pBs).bit_len() + runs_bits(runs, 0, total as int, tz as int).len(),
        final(pBs).bits(final(buf)@) == old(pBs).bits(old(buf)@) + runs_bits(
            runs,
            0,
            total as int,
            tz as int,
        ),
{
    let ghost b0 = pBs.bits(buf@);
    let ghost len0 = pBs.bit_len();
    let ghost pos0 = pBs.pos;
    let ghost buf0 = buf@;
    let mut iZerosLeft: i32 = tz;
    let mut ri: i32 = 0;
    let ghost mut racc: Seq<bool> = Seq::empty();
    proof {
        assert(racc + runs_bits(runs, 0, total as int, tz as int) =~= runs_bits(
            runs,
            0,
            total as int,
            tz as int,
        ));
    }
    while ri + 1 < total && iZerosLeft > 0
        invariant
            buf0 == old(buf)@,
            pos0 == old(pBs).pos,
            b0 == old(pBs).bits(old(buf)@),
            len0 == old(pBs).bit_len(),
            forall|k: int| 0 <= k < total ==> #[trigger] runs[k] <= 15,
            pBs.wf(),
            buf@.len() == buf0.len(),
            forall|j: int| 0 <= j < pos0 ==> buf@[j] == buf0[j],
            pBs.pos >= pos0,
            0 <= ri <= total,
            total == runs.len(),
            total <= 16,
            forall|k: int| 0 <= k < total ==> #[trigger] uiRun[k] == runs[k],
            pBs.bits(buf@) == b0 + racc,
            pBs.bit_len() == len0 + racc.len(),
            len0 + runs_bits(runs, 0, total as int, tz as int).len() <= 8 * buf@.len(),
            8 * buf@.len() + 64 <= i32::MAX,
            -16 <= iZerosLeft <= 16,
            racc + runs_bits(runs, ri as int, total as int, iZerosLeft as int) == runs_bits(
                runs,
                0,
                total as int,
                tz as int,
            ),
        decreases total - ri,
    {
        let uirun = uiRun[ri as usize];
        let zl_idx: usize = if iZerosLeft > 15 {
            15
        } else {
            iZerosLeft as usize
        };
        let iZeroLeft = g_kuiZeroLeftMap[zl_idx] as usize;
        let run_idx: usize = if uirun > 14 {
            14
        } else {
            uirun as usize
        };
        let rb = g_kuiVlcRunBefore[iZeroLeft][run_idx];
        pBs.write_low_bits(buf, rb[1] as i32, rb[0] as u32);
        let ghost cb = code_bits(rb);
        proof {
            assert(racc + runs_bits(runs, ri as int, total as int, iZerosLeft as int) =~= (racc
                + cb) + runs_bits(runs, ri + 1, total as int, iZerosLeft - uirun));
            assert(pBs.bits(buf@) =~= b0 + (racc + cb));
            racc = racc + cb;
        }
        iZerosLeft = iZerosLeft - uirun as i32;
        ri = ri + 1;
    }
    proof {
        assert(runs_bits(runs, ri as int, total as int, iZerosLeft as int) =~= Seq::<bool>::empty());
        assert(racc + Seq::<bool>::empty() =~= racc);
    }
}

/// The coeff_token code for the clamped `nC`, the number of levels and the
/// number of trailing ones.
fn coeff_token(nc: usize, total: usize, t1: usize) -> (tok: [u8; 2])
    requires
        nc < 18,
        total <= 16,
        t1 <= 3,
    ensures
        tok == g_kuiVlcCoeffToken[g_kuiEncNcMapTable[nc as int] as int][total as int][t1 as int],
        tok[1] <= 16,
{
    let nc_idx = g_kuiEncNcMapTable[nc] as usize;
    g_kuiVlcCoeffToken[nc_idx][total][t1]
}

/// Writes the coeff_token for `total` levels with `t1` trailing ones,
/// followed by the `t1` sign bits in `sign`.
#[verifier::spinoff_prover]
fn write_token_signs(buf: &mut [u8], pBs: &mut BsWriter, iNC: i8, total: i32, t1: i32, sign: u32)
    requires
        old(pBs).wf(),
        0 <= total <= 16,
        0 <= t1 <= 3,
        fits(sign, t1 as int),
        old(pBs).has_room(old(buf)@.len() as int, token_bits(iNC as int, total as int, t1 as int).len() + t1),
    ensures
        final(pBs).wf(),
        final(buf)@.len() == old(buf)@.len(),
        forall|j: int| 0 <= j < old(pBs).pos ==> final(buf)@[j] == old(buf)@[j],
        final(pBs).pos >= old(pBs).pos,
        final(pBs).bit_len() == old(pBs).bit_len() + token_bits(iNC as int, total as int, t1 as int).len() + t1,
        final(pBs).bits(final(buf)@) == old(pBs).bits(old(buf)@) + token_bits(
            iNC as int,
            total as int,
            t1 as int,
        ) + val_bits(sign, t1 as nat),
{
    let kNc: usize = if iNC < 0 {
        0
    } else if iNC > 17 {
        17
    } else {
        iNC as usize
    };
    let tok = coeff_token(kNc, total as usize, t1 as usize);
    let iValue0 = tok[0] as u32;
    let n0 = tok[1] as i32;
    proof {
        crate::bits::lemma_append_low(iValue0, n0 as int, sign, t1 as int);
    }
    let iValue = (iValue0 << (t1 as u32)) | sign;
    pBs.write_low_bits(buf, n0 + t1, iValue);
    proof {
        assert(code_bits(tok) == val_bits(iValue0, n0 as nat));
    }
}

/// Writes total_zeros when fewer levels than scanned positions were found.
#[verifier::spinoff_prover]
fn write_total_zeros(
    buf: &mut [u8],
    pBs: &mut BsWriter,
    total: i32,
    tz: i32,
    iEndIdx: i32,
    iResidualProperty: i32,
)
    requires
        old(pBs).wf(),
        0 <= total <= 16,
        0 <= tz <= 16,
        iEndIdx <= 15,
        old(pBs).has_room(
            old(buf)@.len() as int,
            total_zeros_bits(total as int, tz as int, iEndIdx as int, iResidualProperty as int).len() as int,
        ),
    ensures
        final(pBs).wf(),
        final(buf)@.len() == old(buf)@.len(),
        forall|j: int| 0 <= j < old(pBs).pos ==> final(buf)@[j] == old(buf)@[j],
        final(pBs).pos >= old(pBs).pos,
        final(pBs).bit_len() == old(pBs).bit_len() + total_zeros_bits(
            total as int,
            tz as int,
            iEndIdx as int,
            iResidualProperty as int,
        ).len(),
        final(pBs).bits(final(buf)@) == old(pBs).bits(old(buf)@) + total_zeros_bits(
            total as int,
            tz as int,
            iEndIdx as int,
            iResidualProperty as int,
        ),
{
    if total < iEndIdx + 1 {
        if CHROMA_DC != iResidualProperty {
            let tci: usize = if total > 15 {
                15
            } else {
                total as usize
            };
            let tzi: usize = if tz > 15 {
                15
            } else {
                tz as usize
            };
            let t = g_kuiVlcTotalZeros[tci][tzi];
            pBs.write_low_bits(buf, t[1] as i32, t[0] as u32);
        } else {
            let tci3: usize = if total > 3 {
                3
            } else {
                total as usize
            };
            let tzi3: usize = if tz > 3 {
                3
            } else {
                tz as usize
            };
            let t = g_kuiVlcTotalZerosChromaDc[tci3][tzi3];
            pBs.write_low_bits(buf, t[1] as i32, t[0] as u32);
        }
    } else {
        proof {
            assert(pBs.bits(buf@) =~= pBs.bits(buf@) + Seq::<bool>::empty());
        }
    }
}

/// Writes a block from its scan statistics: `iLevel` and `uiRun` hold the
/// `total` non-zero levels and their runs, `tz` the zeros below the highest.
#[verifier::spinoff_prover]
#[verifier::rlimit(40)]
fn write_block_body(
    buf: &mut [u8],
    pBs: &mut BsWriter,
    iLevel: &[i16; 16],
    uiRun: &[u8; 16],
    total: i32,
    tz: i32,
    iEndIdx: i32,
    iResidualProperty: i32,
    iNC: i8,
    Ghost(levels): Ghost<Seq<i16>>,
    Ghost(runs): Ghost<Seq<int>>,
) -> (r: i32)
    requires
        old(pBs).wf(),
        0 <= total <= 16,
        0 <= tz <= 16,
        iEndIdx <= 15,
        levels.len() == total,
        runs.len() == total,
        forall|k: int| 0 <= k < total ==> #[trigger] iLevel[k] == levels[k],
        forall|k: int| 0 <= k < total ==> #[trigger] levels[k] != 0,
        forall|k: int| 0 <= k < total ==> #[trigger] uiRun[k] == runs[k],
        forall|k: int| 0 <= k < total ==> #[trigger] runs[k] <= 15,
        old(pBs).has_room(
            old(buf)@.len() as int,
            block_room(levels, runs, tz as int, iEndIdx as int, iResidualProperty as int, iNC as int) as int,
        ),
    ensures
        final(pBs).wf(),
        final(buf)@.len() == old(buf)@.len(),
        forall|j: int| 0 <= j < old(pBs).pos ==> final(buf)@[j] == old(buf)@[j],
        final(pBs).pos >= old(pBs).pos,
        final(pBs).bit_len() == old(pBs).bit_len() + block_room(
            levels,
            runs,
            tz as int,
            iEndIdx as int,
            iResidualProperty as int,
            iNC as int,
        ),
        match block_bits(
            levels,
            runs,
            tz as int,
            iEndIdx as int,
            iResidualProperty as int,
            iNC as int,
        ) {
            None => r == ENC_RETURN_VLCOVERFLOWFOUND,
            Some(b) => r == ENC_RETURN_SUCCESS && final(pBs).bits(final(buf)@) == old(pBs).bits(
                old(buf)@,
            ) + b,
        },
{
    let ghost b0 = pBs.bits(buf@);
    let (t1, sign) = trailing_ones_signs(iLevel, total, Ghost(levels));
    if total == 0 {
        write_token_signs(buf, pBs, iNC, 0, 0, 0);
        proof {
            assert(val_bits(0u32, 0) =~= Seq::<bool>::empty());
            assert(pBs.bits(buf@) =~= b0 + token_bits(iNC as int, 0, 0));
        }
        return ENC_RETURN_SUCCESS;
    }
    write_token_signs(buf, pBs, iNC, total, t1, sign);
    let ghost head = token_bits(iNC as int, total as int, t1 as int) + Seq::new(
        t1 as nat,
        |j: int| levels[j] < 0,
    );
    proof {
        assert(pBs.bits(buf@) =~= b0 + head);
        if t1 < 3 && t1 < total {
            lemma_t1_prefix(levels, min_int(total as int, 3), t1 as int);
        }
    }
    let ok = write_levels(buf, pBs, iLevel, t1, total, Ghost(levels));
    if !ok {
        return ENC_RETURN_VLCOVERFLOWFOUND;
    }
    let ghost lbits = levels_bits(levels, t1 as int, total as int, t1 as int, if total > 10 && t1
        < 3 {
        1int
    } else {
        0int
    }).unwrap();
    write_total_zeros(buf, pBs, total, tz, iEndIdx, iResidualProperty);
    let ghost tzb = total_zeros_bits(total as int, tz as int, iEndIdx as int, iResidualProperty as int);
    write_runs(buf, pBs, uiRun, total, tz, Ghost(runs));
    proof {
        let rb = runs_bits(runs, 0, total as int, tz as int);
        assert(pBs.bits(buf@) =~= b0 + (head + lbits + tzb + rb));
    }
    ENC_RETURN_SUCCESS
}

/// Writes one residual block in CAVLC syntax. Answers
/// `ENC_RETURN_VLCOVERFLOWFOUND` when a level does not fit the escape code
/// (what was written by then is for the caller to roll back), and
/// `ENC_RETURN_SUCCESS` with exactly [`residual_block_bits`] appended otherwise.
/// The buffer needs room for the [`residual_block_room`] bits it writes.
#[verifier::spinoff_prover]
pub fn WriteBlockResidualCavlc(
    pCoffLevel: &[i16],
    iEndIdx: i32,
    iCalRunLevelFlag: i32,
    iResidualProperty: i32,
    iNC: i8,
    buf: &mut [u8],
    pBs: &mut BsWriter,
) -> (r: i32)
    requires
        old(pBs).wf(),
        iEndIdx <= 15,
        old(pBs).has_room(
            old(buf)@.len() as int,
            residual_block_room(
                pCoffLevel@,
                iEndIdx as int,
                iCalRunLevelFlag != 0,
                iResidualProperty as int,
                iNC as int,
            ) as int,
        ),
    ensures
        final(pBs).wf(),
        final(buf)@.len() == old(buf)@.len(),
        forall|i: int| 0 <= i < old(pBs).pos ==> final(buf)@[i] == old(buf)@[i],
        final(pBs).pos >= old(pBs).pos,
        final(pBs).bit_len() == old(pBs).bit_len() + residual_block_room(
            pCoffLevel@,
            iEndIdx as int,
            iCalRunLevelFlag != 0,
            iResidualProperty as int,
            iNC as int,
        ),
        match residual_block_bits(
            pCoffLevel@,
            iEndIdx as int,
            iCalRunLevelFlag != 0,
            iResidualProperty as int,
            iNC as int,
        ) {
            None => r == ENC_RETURN_VLCOVERFLOWFOUND,
            Some(b) => r == ENC_RETURN_SUCCESS && final(pBs).bits(final(buf)@) == old(pBs).bits(
                old(buf)@,
            ) + b,
        },
{
    let ghost c = pCoffLevel@;
    let ghost b0 = pBs.bits(buf@);
    if iCalRunLevelFlag == 0 {
        write_token_signs(buf, pBs, iNC, 0, 0, 0);
        proof {
            assert(val_bits(0u32, 0) =~= Seq::<bool>::empty());
            assert(pBs.bits(buf@) =~= b0 + token_bits(iNC as int, 0, 0));
        }
        return ENC_RETURN_SUCCESS;
    }
    let mut iLevel = [0i16; 16];
    let mut uiRun = [0u8; 16];
    let mut iTotalCoeffs: i32 = 0;
    let iTotalZeros = CavlcParamCal_c(
        pCoffLevel,
        &mut uiRun,
        &mut iLevel,
        &mut iTotalCoeffs,
        iEndIdx,
    );
    let ghost nz = cavlc_nz(c, iEndIdx as int);
    let ghost levels = cavlc_levels(c, iEndIdx as int);
    let ghost runs = cavlc_runs(c, iEndIdx as int);
    proof {
        let hi = scan_len(c, iEndIdx as int);
        lemma_nz_desc_len(c, hi);
        lemma_nz_nonzero(c, hi);
        assert(hi <= 16);
        assert forall|k: int| 0 <= k < iTotalCoeffs implies #[trigger] levels[k] != 0 && runs[k]
            <= 15 by {
            assert(0 <= nz[k] < hi);
            if k + 1 < nz.len() {
                assert(0 <= nz[k + 1] < hi);
            }
        }
        if nz.len() > 0 {
            assert(0 <= nz[0] < hi);
        }
        assert(iTotalZeros <= 16);
    }
    write_block_body(
        buf,
        pBs,
        &iLevel,
        &uiRun,
        iTotalCoeffs,
        iTotalZeros,
        iEndIdx,
        iResidualProperty,
        iNC,
        Ghost(levels),
        Ghost(runs),
    )
}

// ---------------------------------------------------------------------------
// Dynamic slicing support
// ---------------------------------------------------------------------------

/// Answers `ENC_RETURN_VLCOVERFLOWFOUND` when the buffer has fewer than two
/// worst-case macroblocks of room left after the writer's position.
pub fn CheckBitstreamBuffer(_kuiSliceIdx: u32, buf: &[u8], pBs: &BsWriter) -> (r: i32)
    requires
        pBs.wf(),
    ensures
        r == if buf@.len() < pBs.pos + 1 + MAX_MACROBLOCK_SIZE_IN_BYTE_x2 {
            ENC_RETURN_VLCOVERFLOWFOUND
        } else {
            ENC_RETURN_SUCCESS
        },
{
    let pos = pBs.pos();
    if buf.len() < pos + 1 + MAX_MACROBLOCK_SIZE_IN_BYTE_x2 {
        return ENC_RETURN_VLCOVERFLOWFOUND;
    }
    ENC_RETURN_SUCCESS
}

/// Remembers the CAVLC state before a macroblock.
pub fn StashMBStatusCavlc(
    pBs: &mut BsWriter,
    pDss: &mut SDynamicSlicingStack,
    kuiLastMbQp: u8,
    iMbSkipRun: i32,
)
    ensures
        *final(pBs) == *old(pBs),
        final(pDss).sBsStack == *old(pBs),
        final(pDss).uiLastMbQp == kuiLastMbQp,
        final(pDss).iMbSkipRunStack == iMbSkipRun,
        final(pDss).iStartPos == old(pDss).iStartPos,
        final(pDss).iCurrentPos == old(pDss).iCurrentPos,
        final(pDss).sStoredCabac == old(pDss).sStoredCabac,
        final(pDss).pRestoreBuffer == old(pDss).pRestoreBuffer,
{
    pDss.sBsStack = *pBs;
    pDss.uiLastMbQp = kuiLastMbQp;
    pDss.iMbSkipRunStack = iMbSkipRun;
}

/// Takes the CAVLC state back to the last stash: the writer returns to the
/// stashed one and the stashed skip run is answered.
pub fn StashPopMBStatusCavlc(pBs: &mut BsWriter, pDss: &mut SDynamicSlicingStack) -> (r: i32)
    ensures
        *final(pBs) == old(pDss).sBsStack,
        r == old(pDss).iMbSkipRunStack,
        *final(pDss) == *old(pDss),
{
    *pBs = pDss.sBsStack;
    pDss.iMbSkipRunStack
}

/// The bit position of the CAVLC writer.
pub fn GetBsPosCavlc(pBs: &BsWriter) -> (r: i32)
    requires
        pBs.wf(),
    ensures
        r == pBs.bit_len(),
{
    crate::vlc_encoder::BsGetBitsPos(pBs)
}

/// What a writer has written depends only on the buffer bytes below its
/// position: rewriting anything at or after it (as a macroblock coded after a
/// stash does) leaves the stashed writer's bits as they were, so popping the
/// stash takes the stream back exactly to the stashed point.
pub proof fn lemma_stash_pop_restores(w: BsWriter, before: Seq<u8>, after: Seq<u8>)
    requires
        w.pos <= before.len(),
        w.pos <= after.len(),
        forall|i: int| 0 <= i < w.pos ==> #[trigger] after[i] == before[i],
    ensures
        w.bits(after) == w.bits(before),
{
    assert(after.take(w.pos as int) =~= before.take(w.pos as int));
}


// ---------------------------------------------------------------------------
// Macroblock syntax
// ---------------------------------------------------------------------------

/// The chroma QP of luma QP `qp` under the PPS chroma offset.
pub open spec fn chroma_qp_of(qp: int, offset: u8) -> u8 {
    g_kuiChromaQpTable[clip_qp(qp + offset)]
}

/// `coded_block_pattern` of a macroblock: mapped for intra 4x4 and inter
/// macroblocks, absent (carried by `mb_type`) for intra 16x16.
pub open spec fn mb_cbp_bits(mb: SMB) -> Seq<bool> {
    if mb.uiMbType == MB_TYPE_INTRA4x4 {
        ue_bits(g_kuiIntra4x4CbpMap[mb.uiCbp as int])
    } else if mb.uiMbType != MB_TYPE_INTRA16x16 {
        ue_bits(g_kuiInterCbpMap[mb.uiCbp as int])
    } else {
        Seq::empty()
    }
}

/// A P_8x8 macroblock: its prediction is written per 8x8 partition.
pub open spec fn is_inter_8x8(t: u32) -> bool {
    (t & MB_TYPE_8x8) != 0
}

/// What a coded macroblock writes before its QP: the pending skip run
/// outside I slices, `mb_type` with the prediction, and the coded block
/// pattern.
pub open spec fn mb_head_bits(t: EWelsSliceType, nref: u8, run: i32, c: SMbCache, mb: SMB) -> Seq<bool> {
    (if t != EWelsSliceType::I_SLICE {
        ue_bits(run as u32)
    } else {
        Seq::empty()
    }) + (if is_inter_8x8(mb.uiMbType) {
        sub_mb_pred_bits(nref, c, mb)
    } else {
        mb_pred_bits(t, nref, c, mb)
    }) + mb_cbp_bits(mb)
}

/// The macroblock carries a QP and a residual: it has coded blocks, or is
/// intra 16x16.
pub open spec fn mb_coded(mb: SMB) -> bool {
    mb.uiCbp > 0 || mb.uiMbType == MB_TYPE_INTRA16x16
}

/// What `mb_head_bits` writes can be coded: the skip run, the prediction
/// fields, the coded block pattern.
pub open spec fn mb_head_codable(t: EWelsSliceType, nref: u8, run: i32, c: SMbCache, mb: SMB) -> bool {
    &&& t != EWelsSliceType::I_SLICE ==> (run as u32) < u32::MAX
    &&& if is_inter_8x8(mb.uiMbType) {
        &&& forall|i: int| 0 <= i < 4 ==> #[trigger] mb.uiSubMbType[i] == SUB_MB_TYPE_8x8
        &&& forall|i: int| 0 <= i < 4 ==> #[trigger] ref_codable(nref - 1, mb.iRefIndex[i])
        &&& forall|i: int|
            0 <= i < 4 ==> mvd_ok(
                mb.sMv[g_kuiMbCountScan4Idx[4 * i] as int],
                #[trigger] c.sMbMvp[g_kuiMbCountScan4Idx[4 * i] as int],
            )
    } else {
        mb_pred_codable(t, nref, c, mb)
    }
    &&& mb.uiMbType != MB_TYPE_INTRA16x16 ==> mb.uiCbp < 48
}

/// Writes the skip run, the prediction and the coded block pattern.
#[verifier::spinoff_prover]
#[verifier::rlimit(40)]
fn write_mb_head(
    eSliceType: EWelsSliceType,
    nref: u8,
    run: i32,
    c: &SMbCache,
    mb: &SMB,
    buf: &mut [u8],
    pBs: &mut BsWriter,
)
    requires
        old(pBs).wf(),
        mb_head_codable(eSliceType, nref, run, *c, *mb),
        old(pBs).has_room(old(buf)@.len() as int, mb_head_bits(eSliceType, nref, run, *c, *mb).len() as int),
    ensures
        final(pBs).wf(),
        final(buf)@.len() == old(buf)@.len(),
        final(pBs).bits(final(buf)@) == old(pBs).bits(old(buf)@) + mb_head_bits(eSliceType, nref, run, *c, *mb),
        final(pBs).bit_len() == old(pBs).bit_len() + mb_head_bits(eSliceType, nref, run, *c, *mb).len(),
{
    let ghost b0 = pBs.bits(buf@);
    let ghost h1 = if eSliceType != EWelsSliceType::I_SLICE {
        ue_bits(run as u32)
    } else {
        Seq::<bool>::empty()
    };
    let ghost h2 = if is_inter_8x8(mb.uiMbType) {
        sub_mb_pred_bits(nref, *c, *mb)
    } else {
        mb_pred_bits(eSliceType, nref, *c, *mb)
    };
    let ghost h3 = mb_cbp_bits(*mb);
    assert(mb_head_bits(eSliceType, nref, run, *c, *mb) == h1 + h2 + h3);
    if eSliceType != EWelsSliceType::I_SLICE {
        crate::vlc_encoder::BsWriteUE(buf, pBs, run as u32);
    }
    proof {
        assert(pBs.bits(buf@) =~= b0 + h1);
    }
    if IS_Inter_8x8(mb.uiMbType) {
        WelsSpatialWriteSubMbPred(nref, c, mb, buf, pBs);
    } else {
        WelsSpatialWriteMbPred(eSliceType, nref, c, mb, buf, pBs);
    }
    proof {
        assert(pBs.bits(buf@) =~= b0 + (h1 + h2));
    }
    if IS_INTRA4x4(mb.uiMbType) {
        crate::vlc_encoder::BsWriteUE(buf, pBs, g_kuiIntra4x4CbpMap[mb.uiCbp as usize]);
    } else if !IS_INTRA16x16(mb.uiMbType) {
        crate::vlc_encoder::BsWriteUE(buf, pBs, g_kuiInterCbpMap[mb.uiCbp as usize]);
    }
    proof {
        assert(pBs.bits(buf@) =~= b0 + (h1 + h2 + h3));
    }
}

/// The room left after a macroblock: two worst-case macroblocks.
pub open spec fn room_check(len: int, pos: int) -> i32 {
    if len < pos + 1 + MAX_MACROBLOCK_SIZE_IN_BYTE_x2 {
        ENC_RETURN_VLCOVERFLOWFOUND
    } else {
        ENC_RETURN_SUCCESS
    }
}

/// Writes one macroblock in CAVLC syntax. A skipped macroblock only takes the
/// last QP and counts in the skip run. Any other writes the pending skip run
/// (outside I slices, which resets it), `mb_type` with its prediction, the
/// coded block pattern and, when it has coded blocks or is intra 16x16, its
/// QP difference and residual (answering `ENC_RETURN_VLCOVERFLOWFOUND` when a
/// level escapes); without those it takes the last QP. The answer is then the
/// room check of the buffer.
#[verifier::spinoff_prover]
#[verifier::rlimit(60)]
pub fn WelsSpatialWriteMbSyn(
    eSliceType: EWelsSliceType,
    kuiChromaQpIndexOffset: u8,
    pSlice: &mut SSlice,
    pMbCache: &SMbCache,
    pCurMb: &mut SMB,
    buf: &mut [u8],
    pBs: &mut BsWriter,
) -> (r: i32)
    requires
        old(pBs).wf(),
        (old(pCurMb).uiMbType & MB_TYPE_SKIP) != 0 ==> old(pSlice).iMbSkipRun < i32::MAX,
        (old(pCurMb).uiMbType & MB_TYPE_SKIP) == 0 ==> {
            let nref = old(pSlice).sSliceHeaderExt.sSliceHeader.uiNumRefIdxL0Active;
            let run = old(pSlice).iMbSkipRun;
            let mb = *old(pCurMb);
            &&& mb_head_codable(eSliceType, nref, run, *pMbCache, mb)
            &&& old(pBs).has_room(
                old(buf)@.len() as int,
                (mb_head_bits(eSliceType, nref, run, *pMbCache, mb).len() + if mb_coded(mb) {
                    se_bits((mb.uiLumaQp - old(pSlice).uiLastMbQp) as i32).len() + jobs_room(residual_jobs(*pMbCache, mb.uiMbType, mb.uiCbp))
                } else {
                    0
                }) as int,
            )
        },
    ensures
        final(buf)@.len() == old(buf)@.len(),
        final(pBs).wf(),
        (old(pCurMb).uiMbType & MB_TYPE_SKIP) != 0 ==> {
            &&& r == ENC_RETURN_SUCCESS
            &&& *final(pBs) == *old(pBs) && final(buf)@ == old(buf)@
            &&& *final(pCurMb) == (SMB {
                uiLumaQp: old(pSlice).uiLastMbQp,
                uiChromaQp: chroma_qp_of(old(pSlice).uiLastMbQp as int, kuiChromaQpIndexOffset),
                ..*old(pCurMb)
            })
            &&& *final(pSlice) == (SSlice { iMbSkipRun: (old(pSlice).iMbSkipRun + 1) as i32, ..*old(pSlice) })
        },
        (old(pCurMb).uiMbType & MB_TYPE_SKIP) == 0 ==> {
            let nref = old(pSlice).sSliceHeaderExt.sSliceHeader.uiNumRefIdxL0Active;
            let mb = *old(pCurMb);
            let last = old(pSlice).uiLastMbQp;
            let head = mb_head_bits(eSliceType, nref, old(pSlice).iMbSkipRun, *pMbCache, mb);
            &&& *final(pSlice) == (SSlice {
                iMbSkipRun: if eSliceType != EWelsSliceType::I_SLICE { 0 } else { old(pSlice).iMbSkipRun },
                uiLastMbQp: if mb_coded(mb) { mb.uiLumaQp } else { last },
                ..*old(pSlice)
            })
            &&& if mb_coded(mb) {
                &&& *final(pCurMb) == mb
                &&& match jobs_bits(residual_jobs(*pMbCache, mb.uiMbType, mb.uiCbp)) {
                    None => r == ENC_RETURN_VLCOVERFLOWFOUND,
                    Some(b) => final(pBs).bits(final(buf)@) == old(pBs).bits(old(buf)@) + head + se_bits(
                        (mb.uiLumaQp - last) as i32,
                    ) + b && r == room_check(final(buf)@.len() as int, final(pBs).pos as int),
                }
            } else {
                &&& *final(pCurMb) == (SMB {
                    uiLumaQp: last,
                    uiChromaQp: chroma_qp_of(last as int, kuiChromaQpIndexOffset),
                    ..mb
                })
                &&& final(pBs).bits(final(buf)@) == old(pBs).bits(old(buf)@) + head
                &&& r == room_check(final(buf)@.len() as int, final(pBs).pos as int)
            }
        },
{
    if IS_SKIP(pCurMb.uiMbType) {
        pCurMb.uiLumaQp = pSlice.uiLastMbQp;
        let idx = CLIP3_QP_0_51((pCurMb.uiLumaQp as i32) + (kuiChromaQpIndexOffset as i32));
        pCurMb.uiChromaQp = g_kuiChromaQpTable[idx as usize];
        pSlice.iMbSkipRun = pSlice.iMbSkipRun + 1;
        return ENC_RETURN_SUCCESS;
    }
    let ghost b0 = pBs.bits(buf@);
    let nref = pSlice.sSliceHeaderExt.sSliceHeader.uiNumRefIdxL0Active;
    let run = pSlice.iMbSkipRun;
    let ghost head = mb_head_bits(eSliceType, nref, run, *pMbCache, *pCurMb);
    write_mb_head(eSliceType, nref, run, pMbCache, pCurMb, buf, pBs);
    if eSliceType != EWelsSliceType::I_SLICE {
        pSlice.iMbSkipRun = 0;
    }
    if pCurMb.uiCbp > 0 || IS_INTRA16x16(pCurMb.uiMbType) {
        let kiDeltaQp: i32 = (pCurMb.uiLumaQp as i32) - (pSlice.uiLastMbQp as i32);
        pSlice.uiLastMbQp = pCurMb.uiLumaQp;
        crate::vlc_encoder::BsWriteSE(buf, pBs, kiDeltaQp);
        let ghost b1 = pBs.bits(buf@);
        if WelsWriteMbResidual(pMbCache, pCurMb, buf, pBs) != 0 {
            return ENC_RETURN_VLCOVERFLOWFOUND;
        }
        proof {
            match jobs_bits(residual_jobs(*pMbCache, pCurMb.uiMbType, pCurMb.uiCbp)) {
                None => {},
                Some(b) => {
                    assert(pBs.bits(buf@) =~= b0 + head + se_bits(kiDeltaQp) + b);
                },
            }
        }
    } else {
        pCurMb.uiLumaQp = pSlice.uiLastMbQp;
        let idx = CLIP3_QP_0_51((pCurMb.uiLumaQp as i32) + (kuiChromaQpIndexOffset as i32));
        pCurMb.uiChromaQp = g_kuiChromaQpTable[idx as usize];
    }
    CheckBitstreamBuffer(pSlice.iSliceIdx as u32, buf, pBs)
}


/// The bit position of the arithmetic coder.
pub open spec fn cabac_pos(c: SCabacCtx) -> int {
    (c.m_iBufCur - c.m_iBufStart) * 8 + (c.m_iLowBitCnt - 9)
}

/// The coder's position can be taken in `i32`, and so can its distance from
/// the stack's start.
pub open spec fn cabac_pos_ok(c: SCabacCtx, start_pos: i32) -> bool {
    &&& c.m_iBufStart <= c.m_iBufCur
    &&& (c.m_iBufCur - c.m_iBufStart) * 8 + c.m_iLowBitCnt - 9 <= i32::MAX
    &&& c.m_iLowBitCnt >= i32::MIN + 9
    &&& (c.m_iBufCur - c.m_iBufStart) * 8 <= i32::MAX
    &&& i32::MIN <= cabac_pos(c) - start_pos <= i32::MAX
}

/// The bytes a CABAC stash keeps: those from the stack's start to the coder's
/// position, a partial byte counted whole.
pub open spec fn restore_len(c: SCabacCtx, start_pos: i32) -> int {
    let off = cabac_pos(c) - start_pos;
    off / 8 + if off % 8 != 0 { 1int } else { 0int }
}

/// `dst` with its `len` bytes from `d` replaced by those of `src` from `s`.
pub open spec fn copied(dst: Seq<u8>, d: int, src: Seq<u8>, s: int, len: int) -> Seq<u8> {
    Seq::new(dst.len(), |i: int| if d <= i < d + len { src[s + i - d] } else { dst[i] })
}

/// The stash can keep its bytes: a restore buffer, if any, holds them and
/// they lie in the output buffer.
pub open spec fn cabac_stash_ok(c: SCabacCtx, d: SDynamicSlicingStack, buf_len: int) -> bool {
    &&& cabac_pos_ok(c, d.iStartPos)
    &&& d.pRestoreBuffer matches Some(v) ==> {
        &&& 0 <= restore_len(c, d.iStartPos)
        &&& c.m_iBufStart + restore_len(c, d.iStartPos) <= buf_len
        &&& restore_len(c, d.iStartPos) <= v@.len()
    }
}

/// The stash's byte count from the coder's position.
fn restore_len_of(pCtx: &SCabacCtx, iStartPos: i32) -> (r: usize)
    requires
        cabac_pos_ok(*pCtx, iStartPos),
        0 <= restore_len(*pCtx, iStartPos),
    ensures
        r == restore_len(*pCtx, iStartPos),
{
    let iPosBitOffset: i32 = GetBsPosCabac(pCtx) - iStartPos;
    proof {
        crate::bits::lemma_i32_shifts();
        crate::svc_encode_slice::lemma_i32_byte_split();
    }
    let extra: i32 = if (iPosBitOffset & 0x07) != 0 { 1 } else { 0 };
    assert((iPosBitOffset >> 3u32) == iPosBitOffset / 8);
    let iLen: i32 = (iPosBitOffset >> 3u32) + extra;
    iLen as usize
}

/// Remembers the CABAC state before a macroblock: the coder, the last QP, the
/// skip run and, with a restore buffer, the bytes the coder may still rewrite
/// (from the slice start up to its position).
#[verifier::spinoff_prover]
pub fn StashMBStatusCabac(
    buf: &mut [u8],
    pDss: &mut SDynamicSlicingStack,
    pCabacCtx: &mut SCabacCtx,
    kuiLastMbQp: u8,
    iMbSkipRun: i32,
)
    requires
        cabac_stash_ok(*old(pCabacCtx), *old(pDss), old(buf)@.len() as int),
    ensures
        final(buf)@ == old(buf)@,
        *final(pCabacCtx) == *old(pCabacCtx),
        final(pDss).sStoredCabac == *old(pCabacCtx),
        final(pDss).uiLastMbQp == kuiLastMbQp,
        final(pDss).iMbSkipRunStack == iMbSkipRun,
        final(pDss).iStartPos == old(pDss).iStartPos,
        final(pDss).iCurrentPos == old(pDss).iCurrentPos,
        final(pDss).sBsStack == old(pDss).sBsStack,
        match old(pDss).pRestoreBuffer {
            None => final(pDss).pRestoreBuffer is None,
            Some(v) => final(pDss).pRestoreBuffer matches Some(w) && w@ == copied(
                v@,
                0,
                old(buf)@,
                old(pCabacCtx).m_iBufStart as int,
                restore_len(*old(pCabacCtx), old(pDss).iStartPos),
            ),
        },
{
    pDss.sStoredCabac = *pCabacCtx;
    let iStartPos = pDss.iStartPos;
    match &mut pDss.pRestoreBuffer {
        None => {},
        Some(v) => {
            let len = restore_len_of(pCabacCtx, iStartPos);
            let start = pCabacCtx.m_iBufStart;
            let ghost v0 = v@;
            let blen = buf.len();
            let mut i: usize = 0;
            while i < len
                invariant
                    blen == buf@.len(),
                    0 <= i <= len,
                    start + len <= buf@.len(),
                    len <= v0.len(),
                    v@.len() == v0.len(),
                    forall|k: int| 0 <= k < v0.len() ==> #[trigger] v@[k] == if k < i {
                        buf@[start + k]
                    } else {
                        v0[k]
                    },
                decreases len - i,
            {
                v.set(i, buf[start + i]);
                i = i + 1;
            }
            assert(v@ =~= copied(v0, 0, buf@, start as int, len as int));
        },
    }
    pDss.uiLastMbQp = kuiLastMbQp;
    pDss.iMbSkipRunStack = iMbSkipRun;
}

/// Takes the CABAC state back to the last stash: the coder returns to the
/// stashed one, a restore buffer puts its bytes back in place, and the
/// stashed skip run is answered.
#[verifier::spinoff_prover]
pub fn StashPopMBStatusCabac(buf: &mut [u8], pDss: &mut SDynamicSlicingStack, pCabacCtx: &mut SCabacCtx) -> (r: i32)
    requires
        cabac_stash_ok(old(pDss).sStoredCabac, *old(pDss), old(buf)@.len() as int),
    ensures
        *final(pCabacCtx) == old(pDss).sStoredCabac,
        r == old(pDss).iMbSkipRunStack,
        *final(pDss) == *old(pDss),
        final(buf)@ == match old(pDss).pRestoreBuffer {
            None => old(buf)@,
            Some(v) => copied(
                old(buf)@,
                old(pDss).sStoredCabac.m_iBufStart as int,
                v@,
                0,
                restore_len(old(pDss).sStoredCabac, old(pDss).iStartPos),
            ),
        },
{
    *pCabacCtx = pDss.sStoredCabac;
    match &pDss.pRestoreBuffer {
        None => {},
        Some(v) => {
            let len = restore_len_of(pCabacCtx, pDss.iStartPos);
            let start = pCabacCtx.m_iBufStart;
            let ghost b0 = buf@;
            let blen = buf.len();
            let mut i: usize = 0;
            while i < len
                invariant
                    blen == b0.len(),
                    0 <= i <= len,
                    start + len <= b0.len(),
                    len <= v@.len(),
                    buf@.len() == b0.len(),
                    forall|k: int| 0 <= k < b0.len() ==> #[trigger] buf@[k] == if start <= k < start + i {
                        v@[k - start]
                    } else {
                        b0[k]
                    },
                decreases len - i,
            {
                buf[start + i] = v[i];
                i = i + 1;
            }
            assert(buf@ =~= copied(b0, start as int, v@, 0, len as int));
        },
    }
    pDss.iMbSkipRunStack
}

/// A CABAC stash and its pop give back the bytes the coder may have
/// rewritten in between: whatever the macroblock coded after the stash did to
/// the buffer, popping restores the stashed range byte for byte.
#[verifier::spinoff_prover]
pub proof fn law_cabac_stash_pop_restores(
    before: Seq<u8>,
    after: Seq<u8>,
    store: Seq<u8>,
    start: int,
    len: int,
)
    requires
        0 <= start,
        0 <= len <= store.len(),
        start + len <= before.len(),
        after.len() == before.len(),
    ensures
        ({
            let kept = copied(store, 0, before, start, len);
            let back = copied(after, start, kept, 0, len);
            forall|i: int| start <= i < start + len ==> #[trigger] back[i] == before[i]
        }),
{
    let kept = copied(store, 0, before, start, len);
    let back = copied(after, start, kept, 0, len);
    assert forall|i: int| start <= i < start + len implies #[trigger] back[i] == before[i] by {
        assert(back[i] == kept[i - start]);
        assert(kept[i - start] == before[start + (i - start)]);
    }
}

} // verus!
