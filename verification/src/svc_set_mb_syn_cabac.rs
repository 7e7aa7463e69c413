//! CABAC macroblock syntax: the macroblock-type predicates, the QP clamp and
//! the per-context probability state the arithmetic coder keeps.
use vstd::prelude::*;
use crate::mb::{MB_TYPE_INTRA, MB_TYPE_INTRA4x4, MB_TYPE_SKIP, MB_TYPE_INTRA16x16, SMB, SMbCache};
use crate::svc_set_mb_syn_cavlc::{clip_qp, g_kuiCache48CountScan4Idx, g_kuiChromaQpTable};
use crate::vlc_encoder::ECtxBlockCat;

verus! {

/// Any of the intra macroblock types.
pub fn IS_INTRA(mb_type: u32) -> (r: bool)
    ensures
        r == ((mb_type & MB_TYPE_INTRA) != 0),
{
    (mb_type & MB_TYPE_INTRA) != 0
}

pub fn IS_INTRA4x4(mb_type: u32) -> (r: bool)
    ensures
        r == (mb_type == MB_TYPE_INTRA4x4),
{
    mb_type == MB_TYPE_INTRA4x4
}

pub fn IS_SKIP(mb_type: u32) -> (r: bool)
    ensures
        r == ((mb_type & MB_TYPE_SKIP) != 0),
{
    (mb_type & MB_TYPE_SKIP) != 0
}

/// Clamps a QP into `0..=51`, as a table index.
pub fn CLIP3_QP_0_51(qp: i32) -> (r: usize)
    ensures
        r == crate::svc_set_mb_syn_cavlc::clip_qp(qp as int),
{
    if qp < 0 {
        0
    } else if qp > 51 {
        51
    } else {
        qp as usize
    }
}

/// How many of the four levels of a 2x2 block are non-zero.
pub open spec fn nonzero_count(b: Seq<i16>) -> int {
    (if b[0] != 0 { 1int } else { 0int }) + (if b[1] != 0 { 1int } else { 0int }) + (if b[2] != 0 {
        1int
    } else {
        0int
    }) + (if b[3] != 0 { 1int } else { 0int })
}

pub fn WelsCalNonZeroCount2x2Block(pBlock: &[i16; 4]) -> (r: i32)
    ensures
        r == nonzero_count(pBlock@),
        0 <= r <= 4,
{
    let a: i32 = if pBlock[0] != 0 { 1 } else { 0 };
    let b: i32 = if pBlock[1] != 0 { 1 } else { 0 };
    let c: i32 = if pBlock[2] != 0 { 1 } else { 0 };
    let d: i32 = if pBlock[3] != 0 { 1 } else { 0 };
    a + b + c + d
}

/// The probability state of one CABAC context: a state index below 64 and
/// the value of the most probable symbol.
#[derive(Clone, Copy, Debug, Default)]
pub struct SStateCtx {
    pub m_uiState: u8,
    pub m_uiValMps: u8,
}

impl SStateCtx {
    pub fn SetState(&mut self, uiState: u8, uiValMps: u8)
        ensures
            final(self).m_uiState == uiState,
            final(self).m_uiValMps == uiValMps,
    {
        self.m_uiState = uiState;
        self.m_uiValMps = uiValMps;
    }

    pub fn State(&self) -> (r: u8)
        ensures
            r == self.m_uiState,
    {
        self.m_uiState
    }

    pub fn Mps(&self) -> (r: u8)
        ensures
            r == self.m_uiValMps,
    {
        self.m_uiValMps
    }
}

/// The state of the binary arithmetic coder: the low register with its
/// pending bit count, the range, and its byte cursors in the output buffer.
#[derive(Clone, Copy, Debug, Default)]
pub struct SCabacCtx {
    pub m_uiLow: u64,
    pub m_iLowBitCnt: i32,
    pub m_iRenormCnt: i32,
    pub m_uiRange: u32,
    pub m_iBufStart: usize,
    pub m_iBufEnd: usize,
    pub m_iBufCur: usize,
}

/// Starts the arithmetic coder on the buffer bytes `[start, end)`: low 0 with
/// nine pending bits, full range 510.
pub fn WelsCabacEncodeInit(pCbCtx: &mut SCabacCtx, start: usize, end: usize)
    ensures
        *final(pCbCtx) == (SCabacCtx {
            m_uiLow: 0,
            m_iLowBitCnt: 9,
            m_iRenormCnt: 0,
            m_uiRange: 510,
            m_iBufStart: start,
            m_iBufEnd: end,
            m_iBufCur: start,
        }),
{
    pCbCtx.m_uiLow = 0;
    pCbCtx.m_iLowBitCnt = 9;
    pCbCtx.m_iRenormCnt = 0;
    pCbCtx.m_uiRange = 510;
    pCbCtx.m_iBufStart = start;
    pCbCtx.m_iBufEnd = end;
    pCbCtx.m_iBufCur = start;
}

/// The bit position of the arithmetic coder: the bytes it has stored, in
/// bits, plus its pending low bits beyond the nine it starts with.
pub fn GetBsPosCabac(pCabacCtx: &SCabacCtx) -> (r: i32)
    requires
        pCabacCtx.m_iBufStart <= pCabacCtx.m_iBufCur,
        (pCabacCtx.m_iBufCur - pCabacCtx.m_iBufStart) * 8 + pCabacCtx.m_iLowBitCnt - 9 <= i32::MAX,
        pCabacCtx.m_iLowBitCnt >= i32::MIN + 9,
        (pCabacCtx.m_iBufCur - pCabacCtx.m_iBufStart) * 8 <= i32::MAX,
    ensures
        r == (pCabacCtx.m_iBufCur - pCabacCtx.m_iBufStart) * 8 + (pCabacCtx.m_iLowBitCnt - 9),
{
    let d = ((pCabacCtx.m_iBufCur - pCabacCtx.m_iBufStart) * 8) as i32;
    d + (pCabacCtx.m_iLowBitCnt - 9)
}


// ---------------------------------------------------------------------------
// The residual of a macroblock in CABAC syntax
// ---------------------------------------------------------------------------

/// Where the coefficients of a residual block lie in the macroblock cache.
#[derive(Clone, Copy, Debug, PartialEq, Eq, Structural)]
pub enum ECabacCoeffSource {
    LumaDc,
    Luma(usize),
    ChromaDc(usize),
    Chroma(usize),
}

/// One residual block for the CABAC block writer: its context category, its
/// position in the non-zero count cache, its non-zero count, its
/// coefficients and its last scanned index.
#[derive(Clone, Copy, Debug, PartialEq, Eq, Structural)]
pub struct SCabacBlockJob {
    pub eCat: ECtxBlockCat,
    pub iIdx: i16,
    pub iNonZeroCount: i16,
    pub eSource: ECabacCoeffSource,
    pub iEndIdx: i32,
}

/// How many of the first `n` levels are non-zero.
pub open spec fn nonzero_prefix(b: Seq<i16>, n: int) -> int
    decreases n,
{
    if n <= 0 {
        0
    } else {
        nonzero_prefix(b, n - 1) + if b[n - 1] != 0 {
            1int
        } else {
            0int
        }
    }
}

/// Luma block `i` of category `cat` with its count from the cache.
pub open spec fn cabac_luma_job(c: SMbCache, i: int, cat: ECtxBlockCat, end: i32) -> SCabacBlockJob {
    let idx = g_kuiCache48CountScan4Idx[i] as int;
    SCabacBlockJob {
        eCat: cat,
        iIdx: idx as i16,
        iNonZeroCount: c.iNonZeroCoeffCount[idx] as i16,
        eSource: ECabacCoeffSource::Luma(i as usize),
        iEndIdx: end,
    }
}

/// Chroma AC block `k` (Cb for `k < 4`, Cr after) with its count.
pub open spec fn cabac_chroma_ac_job(c: SMbCache, k: int) -> SCabacBlockJob {
    let idx = if k < 4 {
        g_kuiCache48CountScan4Idx[16 + k] as int
    } else {
        24 + g_kuiCache48CountScan4Idx[16 + k - 4] as int
    };
    SCabacBlockJob {
        eCat: ECtxBlockCat::CHROMA_AC,
        iIdx: idx as i16,
        iNonZeroCount: c.iNonZeroCoeffCount[idx] as i16,
        eSource: ECabacCoeffSource::Chroma(k as usize),
        iEndIdx: 14,
    }
}

/// The luma 4x4 blocks of the coded 8x8 groups from `g` on.
pub open spec fn cabac_luma_groups(c: SMbCache, cbp_luma: int, g: int) -> Seq<SCabacBlockJob>
    decreases 4 - g,
{
    if g >= 4 || g < 0 {
        Seq::empty()
    } else {
        (if (cbp_luma as u32) & (1u32 << (g as u32)) != 0 {
            Seq::new(4, |t: int| cabac_luma_job(c, 4 * g + t, ECtxBlockCat::LUMA_4x4, 15))
        } else {
            Seq::empty()
        }) + cabac_luma_groups(c, cbp_luma, g + 1)
    }
}

/// A macroblock has residual to code: coded blocks, or the DC of a 16x16
/// intra macroblock.
pub open spec fn cabac_mb_coded(mb: SMB) -> bool {
    mb.uiCbp > 0 || mb.uiMbType == MB_TYPE_INTRA16x16
}

/// The residual blocks of a macroblock in CABAC coding order: the luma DC
/// and (with luma coefficients) the 16 AC blocks of a 16x16 intra
/// macroblock, or the 4x4 blocks of the coded 8x8 groups; then, with chroma
/// coefficients, the Cb and Cr DC blocks and, when chroma AC is coded, the
/// 4 Cb and the 4 Cr AC blocks.
pub open spec fn cabac_residual_jobs(c: SMbCache, mb: SMB) -> Seq<SCabacBlockJob> {
    if !cabac_mb_coded(mb) {
        Seq::empty()
    } else {
        let luma_cbp = (mb.uiCbp & 15) as int;
        let chroma_cbp = mb.uiCbp >> 4u8;
        let luma = if mb.uiMbType == MB_TYPE_INTRA16x16 {
            seq![SCabacBlockJob {
                eCat: ECtxBlockCat::LUMA_DC,
                iIdx: 0,
                iNonZeroCount: nonzero_prefix(c.sDct.iLumaI16x16Dc@, 16) as i16,
                eSource: ECabacCoeffSource::LumaDc,
                iEndIdx: 15,
            }] + if luma_cbp != 0 {
                Seq::new(16, |i: int| cabac_luma_job(c, i, ECtxBlockCat::LUMA_AC, 14))
            } else {
                Seq::empty()
            }
        } else {
            cabac_luma_groups(c, luma_cbp, 0)
        };
        let chroma = if chroma_cbp != 0 {
            seq![
                SCabacBlockJob {
                    eCat: ECtxBlockCat::CHROMA_DC,
                    iIdx: 1,
                    iNonZeroCount: nonzero_count(c.sDct.iChromaDc[0]@) as i16,
                    eSource: ECabacCoeffSource::ChromaDc(0),
                    iEndIdx: 3,
                },
                SCabacBlockJob {
                    eCat: ECtxBlockCat::CHROMA_DC,
                    iIdx: 2,
                    iNonZeroCount: nonzero_count(c.sDct.iChromaDc[1]@) as i16,
                    eSource: ECabacCoeffSource::ChromaDc(1),
                    iEndIdx: 3,
                },
            ] + if chroma_cbp & 2u8 != 0 {
                Seq::new(8, |k: int| cabac_chroma_ac_job(c, k))
            } else {
                Seq::empty()
            }
        } else {
            Seq::empty()
        };
        luma + chroma
    }
}

/// The DC flags of a coded macroblock: bit 0 for a non-zero luma DC of a
/// 16x16 intra macroblock, bits 1 and 2 for non-zero Cb and Cr DC blocks.
pub open spec fn cabac_cbp_dc(c: SMbCache, mb: SMB) -> u16 {
    let chroma_cbp = mb.uiCbp >> 4u8;
    ((if mb.uiMbType == MB_TYPE_INTRA16x16 && nonzero_prefix(c.sDct.iLumaI16x16Dc@, 16) != 0 {
        1u16
    } else {
        0u16
    }) | (if chroma_cbp != 0 && nonzero_count(c.sDct.iChromaDc[0]@) != 0 {
        2u16
    } else {
        0u16
    }) | (if chroma_cbp != 0 && nonzero_count(c.sDct.iChromaDc[1]@) != 0 {
        4u16
    } else {
        0u16
    })) as u16
}

fn count_nonzero_16(b: &[i16; 16]) -> (r: i32)
    ensures
        r == nonzero_prefix(b@, 16),
        0 <= r <= 16,
{
    let mut n: i32 = 0;
    let mut i: usize = 0;
    while i < 16
        invariant
            0 <= i <= 16,
            n == nonzero_prefix(b@, i as int),
            0 <= n <= i,
        decreases 16 - i,
    {
        if b[i] != 0 {
            n = n + 1;
        }
        i = i + 1;
    }
    n
}

fn push_luma_run(
    v: &mut Vec<SCabacBlockJob>,
    c: &SMbCache,
    first: usize,
    count: usize,
    cat: ECtxBlockCat,
    end: i32,
)
    requires
        first + count <= 16,
    ensures
        final(v)@ == old(v)@ + Seq::new(count as nat, |t: int| cabac_luma_job(*c, first + t, cat, end)),
{
    let ghost v0 = v@;
    let mut t: usize = 0;
    while t < count
        invariant
            first + count <= 16,
            0 <= t <= count,
            v@ == v0 + Seq::new(t as nat, |u: int| cabac_luma_job(*c, first + u, cat, end)),
        decreases count - t,
    {
        let i = first + t;
        let idx = g_kuiCache48CountScan4Idx[i] as usize;
        v.push(SCabacBlockJob {
            eCat: cat,
            iIdx: idx as i16,
            iNonZeroCount: c.iNonZeroCoeffCount[idx] as i16,
            eSource: ECabacCoeffSource::Luma(i),
            iEndIdx: end,
        });
        proof {
            assert(v@ =~= v0 + Seq::new((t + 1) as nat, |u: int| cabac_luma_job(*c, first + u, cat, end)));
        }
        t = t + 1;
    }
}

/// Decides the residual of a macroblock in CABAC syntax: for a macroblock
/// with residual, its QP change from `*pLastMbQp` (which the delta QP codes,
/// and which becomes the slice's last QP), its DC flags, and the blocks the
/// block writer codes, in order (see [`cabac_residual_jobs`]); for one
/// without, the slice's last QP and its chroma QP. The arithmetic coding of
/// the delta QP and of each block is the caller's.
pub fn WelsWriteMbResidualCabac(
    pCurMb: &mut SMB,
    pMbCache: &SMbCache,
    pLastMbQp: &mut u8,
    uiChromaQpIndexOffset: u32,
) -> (r: Vec<SCabacBlockJob>)
    requires
        i32::MIN <= *old(pLastMbQp) + (uiChromaQpIndexOffset as i32) <= i32::MAX,
    ensures
        r@ == cabac_residual_jobs(*pMbCache, *old(pCurMb)),
        cabac_mb_coded(*old(pCurMb)) ==> {
            &&& *final(pCurMb) == (SMB {
                iCbpDc: cabac_cbp_dc(*pMbCache, *old(pCurMb)),
                iLumaDQp: (old(pCurMb).uiLumaQp - *old(pLastMbQp)) as i32,
                ..*old(pCurMb)
            })
            &&& *final(pLastMbQp) == old(pCurMb).uiLumaQp
        },
        !cabac_mb_coded(*old(pCurMb)) ==> {
            &&& *final(pCurMb) == (SMB {
                iCbpDc: 0,
                iLumaDQp: 0,
                uiLumaQp: *old(pLastMbQp),
                uiChromaQp: g_kuiChromaQpTable[clip_qp(*old(pLastMbQp) + (uiChromaQpIndexOffset as i32))],
                ..*old(pCurMb)
            })
            &&& *final(pLastMbQp) == *old(pLastMbQp)
        },
{
    let c = pMbCache;
    let mut v: Vec<SCabacBlockJob> = Vec::new();
    pCurMb.iCbpDc = 0;
    pCurMb.iLumaDQp = 0;
    if pCurMb.uiCbp > 0 || pCurMb.uiMbType == MB_TYPE_INTRA16x16 {
        let iCbpChroma: u8 = pCurMb.uiCbp >> 4u8;
        let iCbpLuma: u8 = pCurMb.uiCbp & 15;
        pCurMb.iLumaDQp = (pCurMb.uiLumaQp as i32) - (*pLastMbQp as i32);
        *pLastMbQp = pCurMb.uiLumaQp;
        let mut dc_luma = false;
        let mut dc_cb = false;
        let mut dc_cr = false;
        if pCurMb.uiMbType == MB_TYPE_INTRA16x16 {
            let iNonZeroCount = count_nonzero_16(&c.sDct.iLumaI16x16Dc);
            v.push(SCabacBlockJob {
                eCat: ECtxBlockCat::LUMA_DC,
                iIdx: 0,
                iNonZeroCount: iNonZeroCount as i16,
                eSource: ECabacCoeffSource::LumaDc,
                iEndIdx: 15,
            });
            if iNonZeroCount != 0 {
                dc_luma = true;
            }
            if iCbpLuma != 0 {
                push_luma_run(&mut v, c, 0, 16, ECtxBlockCat::LUMA_AC, 14);
            }
        } else {
            let mut g: usize = 0;
            let ghost l = iCbpLuma as int;
            proof {
                assert(v@ + cabac_luma_groups(*c, l, 0) =~= cabac_luma_groups(*c, l, 0));
            }
            while g < 4
                invariant
                    0 <= g <= 4,
                    l == iCbpLuma,
                    v@ + cabac_luma_groups(*c, l, g as int) == cabac_luma_groups(*c, l, 0),
                decreases 4 - g,
            {
                let bit: u32 = 1u32 << (g as u32);
                let ghost rest = cabac_luma_groups(*c, l, g + 1);
                if (iCbpLuma as u32) & bit != 0 {
                    let ghost before = v@;
                    push_luma_run(&mut v, c, 4 * g, 4, ECtxBlockCat::LUMA_4x4, 15);
                    proof {
                        assert(Seq::new(4, |t: int| cabac_luma_job(*c, (4 * g) as int + t, ECtxBlockCat::LUMA_4x4, 15))
                            =~= Seq::new(4, |t: int| cabac_luma_job(*c, 4 * g + t, ECtxBlockCat::LUMA_4x4, 15)));
                        assert(v@ + rest =~= before + (Seq::new(4, |t: int| cabac_luma_job(*c, 4 * g + t, ECtxBlockCat::LUMA_4x4, 15)) + rest));
                    }
                } else {
                    proof {
                        assert(cabac_luma_groups(*c, l, g as int) =~= Seq::<SCabacBlockJob>::empty() + rest);
                    }
                }
                g = g + 1;
            }
            proof {
                assert(v@ + Seq::<SCabacBlockJob>::empty() =~= v@);
            }
        }
        let ghost luma = v@;
        if iCbpChroma != 0 {
            let nz0 = WelsCalNonZeroCount2x2Block(&c.sDct.iChromaDc[0]);
            if nz0 != 0 {
                dc_cb = true;
            }
            v.push(SCabacBlockJob {
                eCat: ECtxBlockCat::CHROMA_DC,
                iIdx: 1,
                iNonZeroCount: nz0 as i16,
                eSource: ECabacCoeffSource::ChromaDc(0),
                iEndIdx: 3,
            });
            let nz1 = WelsCalNonZeroCount2x2Block(&c.sDct.iChromaDc[1]);
            if nz1 != 0 {
                dc_cr = true;
            }
            v.push(SCabacBlockJob {
                eCat: ECtxBlockCat::CHROMA_DC,
                iIdx: 2,
                iNonZeroCount: nz1 as i16,
                eSource: ECabacCoeffSource::ChromaDc(1),
                iEndIdx: 3,
            });
            let ghost dcs = v@;
            if (iCbpChroma & 2u8) != 0 {
                let mut k: usize = 0;
                while k < 8
                    invariant
                        0 <= k <= 8,
                        v@ == dcs + Seq::new(k as nat, |u: int| cabac_chroma_ac_job(*c, u)),
                    decreases 8 - k,
                {
                    let idx: usize = if k < 4 {
                        g_kuiCache48CountScan4Idx[16 + k] as usize
                    } else {
                        24 + g_kuiCache48CountScan4Idx[16 + k - 4] as usize
                    };
                    v.push(SCabacBlockJob {
                        eCat: ECtxBlockCat::CHROMA_AC,
                        iIdx: idx as i16,
                        iNonZeroCount: c.iNonZeroCoeffCount[idx] as i16,
                        eSource: ECabacCoeffSource::Chroma(k),
                        iEndIdx: 14,
                    });
                    proof {
                        assert(v@ =~= dcs + Seq::new((k + 1) as nat, |u: int| cabac_chroma_ac_job(*c, u)));
                    }
                    k = k + 1;
                }
            }
        }
        proof {
            assert(v@ =~= cabac_residual_jobs(*c, *old(pCurMb)));
        }
        pCurMb.iCbpDc = (if dc_luma { 1u16 } else { 0u16 }) | (if dc_cb { 2u16 } else { 0u16 }) | (if dc_cr {
            4u16
        } else {
            0u16
        });
    } else {
        pCurMb.uiLumaQp = *pLastMbQp;
        let qp_idx = CLIP3_QP_0_51((pCurMb.uiLumaQp as i32) + (uiChromaQpIndexOffset as i32));
        pCurMb.uiChromaQp = g_kuiChromaQpTable[qp_idx];
    }
    v
}

} // verus!
