//! The prediction part of a macroblock in CAVLC syntax: `mb_type`, the intra
//! prediction modes, the reference indices and the motion-vector
//! differences.
use vstd::prelude::*;
use crate::bits::{BsWriter, ue_bits, se_bits, te_bits, val_bits};
use crate::vlc_encoder::{BsWriteUE, BsWriteSE, BsWriteTE, BsWriteOneBit, BsWriteBits};
use crate::mb::{
    SMB, SMbCache, SMVUnitXY, MB_TYPE_INTRA4x4, MB_TYPE_INTRA16x16, MB_TYPE_16x16, MB_TYPE_16x8,
    MB_TYPE_8x16, SUB_MB_TYPE_8x8,
};
use crate::svc_encode_slice::EWelsSliceType;
use crate::svc_set_mb_syn_cavlc::{g_kiMapModeI16x16, g_kiMapModeIntraChroma, g_kuiMbCountScan4Idx};

verus! {

/// The prediction-mode flags of the 4x4 blocks from `i` on: the flag, and
/// the remaining mode in 3 bits when the predicted mode is not taken.
pub open spec fn intra4x4_modes_bits(c: SMbCache, i: int) -> Seq<bool>
    decreases 16 - i,
{
    if i < 0 || i >= 16 {
        Seq::empty()
    } else {
        let f = c.bPrevIntra4x4PredModeFlag[i];
        seq![f] + (if !f {
            val_bits(c.iRemIntra4x4PredModeFlag[i] as u32, 3)
        } else {
            Seq::empty()
        }) + intra4x4_modes_bits(c, i + 1)
    }
}

/// The motion-vector difference of `mv` against its predictor.
pub open spec fn mvd_bits(mv: SMVUnitXY, mvp: SMVUnitXY) -> Seq<bool> {
    se_bits((mv.iMvX - mvp.iMvX) as i32) + se_bits((mv.iMvY - mvp.iMvY) as i32)
}

/// A reference index in `te(v)` when more than one reference is active.
pub open spec fn ref_bits(nref_minus1: int, r: i8) -> Seq<bool> {
    if nref_minus1 > 0 {
        te_bits(nref_minus1 as i32, r as u32)
    } else {
        Seq::empty()
    }
}

/// The `mb_type` offset of the slice type: 0 in I slices, 5 in P slices.
pub open spec fn mb_type_offset(t: EWelsSliceType) -> int {
    if t == EWelsSliceType::I_SLICE {
        0
    } else {
        5
    }
}

/// The prediction syntax of a macroblock other than P_8x8 in an I or P slice
/// (nothing in other slice types or for other macroblock types).
pub open spec fn mb_pred_bits(t: EWelsSliceType, nref: u8, c: SMbCache, mb: SMB) -> Seq<bool> {
    let off = mb_type_offset(t);
    let m1 = nref as int - 1;
    let cbp_chroma = (mb.uiCbp >> 4u8) as int;
    let cbp_luma = (mb.uiCbp & 15u8) as int;
    if t != EWelsSliceType::I_SLICE && t != EWelsSliceType::P_SLICE {
        Seq::empty()
    } else if mb.uiMbType == MB_TYPE_INTRA4x4 {
        ue_bits(off as u32) + intra4x4_modes_bits(c, 0) + ue_bits(
            g_kiMapModeIntraChroma[c.uiChmaI8x8Mode as int] as u32,
        )
    } else if mb.uiMbType == MB_TYPE_INTRA16x16 {
        ue_bits((1 + off + g_kiMapModeI16x16[c.uiLumaI16x16Mode as int] + 4 * cbp_chroma + if cbp_luma
            == 0 {
            0int
        } else {
            12int
        }) as u32) + ue_bits(g_kiMapModeIntraChroma[c.uiChmaI8x8Mode as int] as u32)
    } else if mb.uiMbType == MB_TYPE_16x16 {
        ue_bits(0) + ref_bits(m1, mb.iRefIndex[0]) + mvd_bits(mb.sMv[0], c.sMbMvp[0])
    } else if mb.uiMbType == MB_TYPE_16x8 {
        ue_bits(1) + ref_bits(m1, mb.iRefIndex[0]) + ref_bits(m1, mb.iRefIndex[2]) + mvd_bits(
            mb.sMv[0],
            c.sMbMvp[0],
        ) + mvd_bits(mb.sMv[8], c.sMbMvp[1])
    } else if mb.uiMbType == MB_TYPE_8x16 {
        ue_bits(2) + ref_bits(m1, mb.iRefIndex[0]) + ref_bits(m1, mb.iRefIndex[1]) + mvd_bits(
            mb.sMv[0],
            c.sMbMvp[0],
        ) + mvd_bits(mb.sMv[2], c.sMbMvp[1])
    } else {
        Seq::empty()
    }
}

/// The differences can be taken in `i16` and written.
pub open spec fn mvd_ok(mv: SMVUnitXY, mvp: SMVUnitXY) -> bool {
    &&& i16::MIN <= mv.iMvX - mvp.iMvX <= i16::MAX
    &&& i16::MIN <= mv.iMvY - mvp.iMvY <= i16::MAX
}

/// A reference index that `ref_bits` writes can be coded: with more than
/// two references active it is written as `ue(v)`.
pub open spec fn ref_codable(nref_minus1: int, r: i8) -> bool {
    nref_minus1 > 1 ==> (r as u32) < u32::MAX
}

/// The fields that the prediction syntax of the macroblock writes can be
/// coded: the chroma mode (and the 16x16 luma mode) of an intra macroblock,
/// the remaining 4x4 modes that are written, and the references and vector
/// differences of the partitions of an inter macroblock.
pub open spec fn mb_pred_codable(t: EWelsSliceType, nref: u8, c: SMbCache, mb: SMB) -> bool {
    let m1 = nref as int - 1;
    (t == EWelsSliceType::I_SLICE || t == EWelsSliceType::P_SLICE) ==> if mb.uiMbType == MB_TYPE_INTRA4x4 {
        &&& c.uiChmaI8x8Mode < 7
        &&& forall|i: int|
            0 <= i < 16 && !c.bPrevIntra4x4PredModeFlag[i] ==> 0 <= #[trigger] c.iRemIntra4x4PredModeFlag[i] < 8
    } else if mb.uiMbType == MB_TYPE_INTRA16x16 {
        c.uiChmaI8x8Mode < 7 && c.uiLumaI16x16Mode < 7
    } else if mb.uiMbType == MB_TYPE_16x16 {
        ref_codable(m1, mb.iRefIndex[0]) && mvd_ok(mb.sMv[0], c.sMbMvp[0])
    } else if mb.uiMbType == MB_TYPE_16x8 {
        &&& ref_codable(m1, mb.iRefIndex[0]) && ref_codable(m1, mb.iRefIndex[2])
        &&& mvd_ok(mb.sMv[0], c.sMbMvp[0]) && mvd_ok(mb.sMv[8], c.sMbMvp[1])
    } else if mb.uiMbType == MB_TYPE_8x16 {
        &&& ref_codable(m1, mb.iRefIndex[0]) && ref_codable(m1, mb.iRefIndex[1])
        &&& mvd_ok(mb.sMv[0], c.sMbMvp[0]) && mvd_ok(mb.sMv[2], c.sMbMvp[1])
    } else {
        true
    }
}

#[verifier::spinoff_prover]
fn write_intra4x4_modes(buf: &mut [u8], pBs: &mut BsWriter, c: &SMbCache)
    requires
        old(pBs).wf(),
        forall|i: int|
            0 <= i < 16 && !c.bPrevIntra4x4PredModeFlag[i] ==> 0 <= #[trigger] c.iRemIntra4x4PredModeFlag[i] < 8,
        old(pBs).has_room(old(buf)@.len() as int, intra4x4_modes_bits(*c, 0).len() as int),
    ensures
        final(pBs).wf(),
        final(buf)@.len() == old(buf)@.len(),
        final(pBs).bits(final(buf)@) == old(pBs).bits(old(buf)@) + intra4x4_modes_bits(*c, 0),
        final(pBs).bit_len() == old(pBs).bit_len() + intra4x4_modes_bits(*c, 0).len(),
{
    let ghost b0 = pBs.bits(buf@);
    let ghost len0 = pBs.bit_len();
    let ghost total = intra4x4_modes_bits(*c, 0);
    let ghost mut acc = Seq::<bool>::empty();
    let mut i: usize = 0;
    proof {
        assert(acc + total =~= total);
        assert(b0 + acc =~= b0);
    }
    while i < 16
        invariant
            0 <= i <= 16,
            b0 == old(pBs).bits(old(buf)@),
            len0 == old(pBs).bit_len(),
            total == intra4x4_modes_bits(*c, 0),
            forall|k: int|
                0 <= k < 16 && !c.bPrevIntra4x4PredModeFlag[k] ==> 0 <= #[trigger] c.iRemIntra4x4PredModeFlag[k] < 8,
            pBs.wf(),
            buf@.len() == old(buf)@.len(),
            acc + intra4x4_modes_bits(*c, i as int) == total,
            pBs.bits(buf@) == b0 + acc,
            pBs.bit_len() == len0 + acc.len(),
            len0 + total.len() <= 8 * buf@.len(),
            8 * buf@.len() + 64 <= i32::MAX,
        decreases 16 - i,
    {
        let f = c.bPrevIntra4x4PredModeFlag[i];
        let ghost piece = seq![f] + (if !f {
            val_bits(c.iRemIntra4x4PredModeFlag[i as int] as u32, 3)
        } else {
            Seq::<bool>::empty()
        });
        proof {
            assert(intra4x4_modes_bits(*c, i as int) == piece + intra4x4_modes_bits(*c, i + 1));
            assert(acc + piece + intra4x4_modes_bits(*c, i + 1) =~= total);
        }
        BsWriteOneBit(buf, pBs, if f { 1 } else { 0 });
        if !f {
            let r = c.iRemIntra4x4PredModeFlag[i];
            assert(0 <= r < 8);
            proof {
                crate::bits::lemma_pow2_u32(3);
                crate::bits::lemma_u32_shifts();
            }
            BsWriteBits(buf, pBs, 3, r as u32);
        }
        proof {
            assert(pBs.bits(buf@) =~= b0 + (acc + piece));
            acc = acc + piece;
        }
        i = i + 1;
    }
    proof {
        assert(acc + Seq::<bool>::empty() =~= acc);
    }
}

#[verifier::spinoff_prover]
#[verifier::rlimit(40)]
fn write_ref_mvd(
    buf: &mut [u8],
    pBs: &mut BsWriter,
    m1: i32,
    r0: i8,
    r1: i8,
    two: bool,
    mv0: SMVUnitXY,
    mvp0: SMVUnitXY,
    mv1: SMVUnitXY,
    mvp1: SMVUnitXY,
)
    requires
        old(pBs).wf(),
        ref_codable(m1 as int, r0),
        two ==> ref_codable(m1 as int, r1),
        mvd_ok(mv0, mvp0),
        two ==> mvd_ok(mv1, mvp1),
        old(pBs).has_room(
            old(buf)@.len() as int,
            (ref_bits(m1 as int, r0) + (if two { ref_bits(m1 as int, r1) } else { Seq::empty() }) + mvd_bits(
                mv0,
                mvp0,
            ) + (if two { mvd_bits(mv1, mvp1) } else { Seq::empty() })).len() as int,
        ),
    ensures
        final(pBs).wf(),
        final(buf)@.len() == old(buf)@.len(),
        final(pBs).bits(final(buf)@) == old(pBs).bits(old(buf)@) + (ref_bits(m1 as int, r0) + (if two {
            ref_bits(m1 as int, r1)
        } else {
            Seq::empty()
        }) + mvd_bits(mv0, mvp0) + (if two { mvd_bits(mv1, mvp1) } else { Seq::empty() })),
        final(pBs).bit_len() == old(pBs).bit_len() + (ref_bits(m1 as int, r0) + (if two {
            ref_bits(m1 as int, r1)
        } else {
            Seq::empty()
        }) + mvd_bits(mv0, mvp0) + (if two { mvd_bits(mv1, mvp1) } else { Seq::empty() })).len(),
{
    let ghost b0 = pBs.bits(buf@);
    let ghost p1 = ref_bits(m1 as int, r0);
    let ghost p2 = if two { ref_bits(m1 as int, r1) } else { Seq::<bool>::empty() };
    let ghost p3 = mvd_bits(mv0, mvp0);
    let ghost p4 = if two { mvd_bits(mv1, mvp1) } else { Seq::<bool>::empty() };
    if m1 > 0 {
        assert(m1 == 1 || (r0 as u32) < u32::MAX);
        BsWriteTE(buf, pBs, m1, r0 as u32);
        if two {
            assert(m1 == 1 || (r1 as u32) < u32::MAX);
            BsWriteTE(buf, pBs, m1, r1 as u32);
        }
    }
    proof {
        assert(pBs.bits(buf@) =~= b0 + (p1 + p2));
    }
    let dx0 = mv0.iMvX - mvp0.iMvX;
    let dy0 = mv0.iMvY - mvp0.iMvY;
    BsWriteSE(buf, pBs, dx0 as i32);
    BsWriteSE(buf, pBs, dy0 as i32);
    proof {
        assert(pBs.bits(buf@) =~= b0 + (p1 + p2 + p3));
    }
    if two {
        let dx1 = mv1.iMvX - mvp1.iMvX;
        let dy1 = mv1.iMvY - mvp1.iMvY;
        BsWriteSE(buf, pBs, dx1 as i32);
        BsWriteSE(buf, pBs, dy1 as i32);
    }
    proof {
        assert(pBs.bits(buf@) =~= b0 + (p1 + p2 + p3 + p4));
    }
}

/// Writes `mb_type` and the prediction of a macroblock that is not P_8x8:
/// the intra modes, or the reference indices and motion-vector differences
/// of its partitions. Writes nothing outside I and P slices.
#[verifier::spinoff_prover]
#[verifier::rlimit(40)]
pub fn WelsSpatialWriteMbPred(
    eSliceType: EWelsSliceType,
    uiNumRefIdxL0Active: u8,
    pMbCache: &SMbCache,
    pCurMb: &SMB,
    buf: &mut [u8],
    pBs: &mut BsWriter,
)
    requires
        old(pBs).wf(),
        mb_pred_codable(eSliceType, uiNumRefIdxL0Active, *pMbCache, *pCurMb),
        old(pBs).has_room(
            old(buf)@.len() as int,
            mb_pred_bits(eSliceType, uiNumRefIdxL0Active, *pMbCache, *pCurMb).len() as int,
        ),
    ensures
        final(pBs).wf(),
        final(buf)@.len() == old(buf)@.len(),
        final(pBs).bits(final(buf)@) == old(pBs).bits(old(buf)@) + mb_pred_bits(
            eSliceType,
            uiNumRefIdxL0Active,
            *pMbCache,
            *pCurMb,
        ),
        final(pBs).bit_len() == old(pBs).bit_len() + mb_pred_bits(
            eSliceType,
            uiNumRefIdxL0Active,
            *pMbCache,
            *pCurMb,
        ).len(),
{
    let ghost b0 = pBs.bits(buf@);
    let ghost total = mb_pred_bits(eSliceType, uiNumRefIdxL0Active, *pMbCache, *pCurMb);
    let c = pMbCache;
    let mb = pCurMb;
    let m1 = uiNumRefIdxL0Active as i32 - 1;
    let off: u32 = match eSliceType {
        EWelsSliceType::I_SLICE => 0,
        EWelsSliceType::P_SLICE => 5,
        _ => {
            proof {
                assert(b0 + total =~= b0);
            }
            return ;
        },
    };
    let cbp = mb.uiCbp;
    let cbp_chroma = (cbp >> 4u8) as u32;
    let cbp_luma = (cbp & 15u8) as u32;
    let t = mb.uiMbType;
    if t == MB_TYPE_INTRA4x4 {
        BsWriteUE(buf, pBs, off);
        write_intra4x4_modes(buf, pBs, c);
        BsWriteUE(buf, pBs, g_kiMapModeIntraChroma[c.uiChmaI8x8Mode as usize] as u32);
        proof {
            assert(pBs.bits(buf@) =~= b0 + total);
        }
    } else if t == MB_TYPE_INTRA16x16 {
        proof {
            assert(cbp_chroma <= 15 ==> (cbp_chroma << 2u32) == 4 * cbp_chroma) by (bit_vector);
            assert(cbp >> 4u8 <= 15) by (bit_vector);
            assert(cbp & 15u8 <= 15) by (bit_vector);
        }
        let v = 1 + off + g_kiMapModeI16x16[c.uiLumaI16x16Mode as usize] as u32 + (cbp_chroma << 2u32) + if cbp_luma
            == 0 {
            0
        } else {
            12
        };
        BsWriteUE(buf, pBs, v);
        BsWriteUE(buf, pBs, g_kiMapModeIntraChroma[c.uiChmaI8x8Mode as usize] as u32);
        proof {
            assert(pBs.bits(buf@) =~= b0 + total);
        }
    } else if t == MB_TYPE_16x16 {
        BsWriteUE(buf, pBs, 0);
        write_ref_mvd(buf, pBs, m1, mb.iRefIndex[0], 0, false, mb.sMv[0], c.sMbMvp[0], mb.sMv[0], c.sMbMvp[0]);
        proof {
            assert(pBs.bits(buf@) =~= b0 + total);
        }
    } else if t == MB_TYPE_16x8 {
        BsWriteUE(buf, pBs, 1);
        write_ref_mvd(buf, pBs, m1, mb.iRefIndex[0], mb.iRefIndex[2], true, mb.sMv[0], c.sMbMvp[0], mb.sMv[8], c.sMbMvp[1]);
        proof {
            assert(pBs.bits(buf@) =~= b0 + total);
        }
    } else if t == MB_TYPE_8x16 {
        BsWriteUE(buf, pBs, 2);
        write_ref_mvd(buf, pBs, m1, mb.iRefIndex[0], mb.iRefIndex[1], true, mb.sMv[0], c.sMbMvp[0], mb.sMv[2], c.sMbMvp[1]);
        proof {
            assert(pBs.bits(buf@) =~= b0 + total);
        }
    } else {
        proof {
            assert(b0 + total =~= b0);
        }
    }
}

/// The motion-vector difference of each 8x8 partition from `i` on, taken at
/// its first 4x4 block.
pub open spec fn sub_mvd_bits(c: SMbCache, mb: SMB, i: int) -> Seq<bool>
    decreases 4 - i,
{
    if i < 0 || i >= 4 {
        Seq::empty()
    } else {
        let s0 = g_kuiMbCountScan4Idx[4 * i] as int;
        mvd_bits(mb.sMv[s0], c.sMbMvp[s0]) + sub_mvd_bits(c, mb, i + 1)
    }
}

/// The prediction syntax of a P_8x8 macroblock: `mb_type` 3, or 4 when all
/// four references are 0; four `sub_mb_type` 0; the references unless they
/// are all 0 or only one is active; the four motion-vector differences.
pub open spec fn sub_mb_pred_bits(nref: u8, c: SMbCache, mb: SMB) -> Seq<bool> {
    sub_mb_head_bits(nref, mb) + sub_mvd_bits(c, mb, 0)
}

/// `mb_type`, the `sub_mb_type`s and the references of a P_8x8 macroblock.
pub open spec fn sub_mb_head_bits(nref: u8, mb: SMB) -> Seq<bool> {
    let all0 = mb.iRefIndex[0] == 0 && mb.iRefIndex[1] == 0 && mb.iRefIndex[2] == 0 && mb.iRefIndex[3] == 0;
    let m1 = nref as int - 1;
    ue_bits(if all0 { 4u32 } else { 3u32 }) + ue_bits(0) + ue_bits(0) + ue_bits(0) + ue_bits(0) + (if m1
        > 0 && !all0 {
        te_bits(m1 as i32, mb.iRefIndex[0] as u32) + te_bits(m1 as i32, mb.iRefIndex[1] as u32) + te_bits(
            m1 as i32,
            mb.iRefIndex[2] as u32,
        ) + te_bits(m1 as i32, mb.iRefIndex[3] as u32)
    } else {
        Seq::empty()
    })
}

/// `mb_type` and the four `sub_mb_type`s of a P_8x8 macroblock.
pub open spec fn sub_types_bits(all0: bool) -> Seq<bool> {
    ue_bits(if all0 { 4u32 } else { 3u32 }) + ue_bits(0) + ue_bits(0) + ue_bits(0) + ue_bits(0)
}

/// The four references of a P_8x8 macroblock.
pub open spec fn sub_refs_bits(m1: int, mb: SMB) -> Seq<bool> {
    te_bits(m1 as i32, mb.iRefIndex[0] as u32) + te_bits(m1 as i32, mb.iRefIndex[1] as u32) + te_bits(
        m1 as i32,
        mb.iRefIndex[2] as u32,
    ) + te_bits(m1 as i32, mb.iRefIndex[3] as u32)
}

#[verifier::spinoff_prover]
fn write_sub_types(buf: &mut [u8], pBs: &mut BsWriter, all0: bool)
    requires
        old(pBs).wf(),
        old(pBs).has_room(old(buf)@.len() as int, sub_types_bits(all0).len() as int),
    ensures
        final(pBs).wf(),
        final(buf)@.len() == old(buf)@.len(),
        final(pBs).bits(final(buf)@) == old(pBs).bits(old(buf)@) + sub_types_bits(all0),
        final(pBs).bit_len() == old(pBs).bit_len() + sub_types_bits(all0).len(),
{
    let ghost b0 = pBs.bits(buf@);
    BsWriteUE(buf, pBs, if all0 { 4 } else { 3 });
    BsWriteUE(buf, pBs, 0);
    BsWriteUE(buf, pBs, 0);
    BsWriteUE(buf, pBs, 0);
    BsWriteUE(buf, pBs, 0);
    proof {
        assert(pBs.bits(buf@) =~= b0 + sub_types_bits(all0));
    }
}

#[verifier::spinoff_prover]
fn write_sub_refs(buf: &mut [u8], pBs: &mut BsWriter, m1: i32, mb: &SMB)
    requires
        old(pBs).wf(),
        m1 > 0,
        forall|i: int| 0 <= i < 4 ==> #[trigger] ref_codable(m1 as int, mb.iRefIndex[i]),
        old(pBs).has_room(old(buf)@.len() as int, sub_refs_bits(m1 as int, *mb).len() as int),
    ensures
        final(pBs).wf(),
        final(buf)@.len() == old(buf)@.len(),
        final(pBs).bits(final(buf)@) == old(pBs).bits(old(buf)@) + sub_refs_bits(m1 as int, *mb),
        final(pBs).bit_len() == old(pBs).bit_len() + sub_refs_bits(m1 as int, *mb).len(),
{
    let ghost b0 = pBs.bits(buf@);
    assert(ref_codable(m1 as int, mb.iRefIndex[0]) && ref_codable(m1 as int, mb.iRefIndex[1])
        && ref_codable(m1 as int, mb.iRefIndex[2]) && ref_codable(m1 as int, mb.iRefIndex[3]));
    BsWriteTE(buf, pBs, m1, mb.iRefIndex[0] as u32);
    BsWriteTE(buf, pBs, m1, mb.iRefIndex[1] as u32);
    BsWriteTE(buf, pBs, m1, mb.iRefIndex[2] as u32);
    BsWriteTE(buf, pBs, m1, mb.iRefIndex[3] as u32);
    proof {
        assert(pBs.bits(buf@) =~= b0 + sub_refs_bits(m1 as int, *mb));
    }
}

#[verifier::spinoff_prover]
fn write_sub_mb_head(buf: &mut [u8], pBs: &mut BsWriter, uiNumRefIdxL0Active: u8, mb: &SMB)
    requires
        old(pBs).wf(),
        forall|i: int| 0 <= i < 4 ==> #[trigger] ref_codable(uiNumRefIdxL0Active - 1, mb.iRefIndex[i]),
        old(pBs).has_room(old(buf)@.len() as int, sub_mb_head_bits(uiNumRefIdxL0Active, *mb).len() as int),
    ensures
        final(pBs).wf(),
        final(buf)@.len() == old(buf)@.len(),
        final(pBs).bits(final(buf)@) == old(pBs).bits(old(buf)@) + sub_mb_head_bits(uiNumRefIdxL0Active, *mb),
        final(pBs).bit_len() == old(pBs).bit_len() + sub_mb_head_bits(uiNumRefIdxL0Active, *mb).len(),
{
    let ghost b0 = pBs.bits(buf@);
    let m1 = uiNumRefIdxL0Active as i32 - 1;
    let all0 = mb.iRefIndex[0] == 0 && mb.iRefIndex[1] == 0 && mb.iRefIndex[2] == 0 && mb.iRefIndex[3] == 0;
    let ghost refs = if m1 > 0 && !all0 { sub_refs_bits(m1 as int, *mb) } else { Seq::<bool>::empty() };
    assert(sub_mb_head_bits(uiNumRefIdxL0Active, *mb) == sub_types_bits(all0) + refs);
    write_sub_types(buf, pBs, all0);
    if m1 > 0 && !all0 {
        write_sub_refs(buf, pBs, m1, mb);
    }
    proof {
        assert(pBs.bits(buf@) =~= b0 + (sub_types_bits(all0) + refs));
    }
}

#[verifier::spinoff_prover]
#[verifier::rlimit(40)]
pub fn WelsSpatialWriteSubMbPred(
    uiNumRefIdxL0Active: u8,
    pMbCache: &SMbCache,
    pCurMb: &SMB,
    buf: &mut [u8],
    pBs: &mut BsWriter,
)
    requires
        old(pBs).wf(),
        forall|i: int| 0 <= i < 4 ==> #[trigger] pCurMb.uiSubMbType[i] == SUB_MB_TYPE_8x8,
        forall|i: int| 0 <= i < 4 ==> #[trigger] ref_codable(uiNumRefIdxL0Active - 1, pCurMb.iRefIndex[i]),
        forall|i: int|
            0 <= i < 4 ==> mvd_ok(
                pCurMb.sMv[g_kuiMbCountScan4Idx[4 * i] as int],
                #[trigger] pMbCache.sMbMvp[g_kuiMbCountScan4Idx[4 * i] as int],
            ),
        old(pBs).has_room(old(buf)@.len() as int, sub_mb_pred_bits(uiNumRefIdxL0Active, *pMbCache, *pCurMb).len() as int),
    ensures
        final(pBs).wf(),
        final(buf)@.len() == old(buf)@.len(),
        final(pBs).bits(final(buf)@) == old(pBs).bits(old(buf)@) + sub_mb_pred_bits(
            uiNumRefIdxL0Active,
            *pMbCache,
            *pCurMb,
        ),
        final(pBs).bit_len() == old(pBs).bit_len() + sub_mb_pred_bits(
            uiNumRefIdxL0Active,
            *pMbCache,
            *pCurMb,
        ).len(),
{
    let ghost b0 = pBs.bits(buf@);
    let ghost total = sub_mb_pred_bits(uiNumRefIdxL0Active, *pMbCache, *pCurMb);
    let c = pMbCache;
    let mb = pCurMb;
    write_sub_mb_head(buf, pBs, uiNumRefIdxL0Active, mb);
    let ghost mut acc = sub_mb_head_bits(uiNumRefIdxL0Active, *mb);
    let mut i: usize = 0;
    while i < 4
        invariant
            0 <= i <= 4,
            b0 == old(pBs).bits(old(buf)@),
            total == sub_mb_pred_bits(uiNumRefIdxL0Active, *c, *mb),
            forall|k: int|
                0 <= k < 4 ==> mvd_ok(
                    mb.sMv[g_kuiMbCountScan4Idx[4 * k] as int],
                    #[trigger] c.sMbMvp[g_kuiMbCountScan4Idx[4 * k] as int],
                ),
            pBs.wf(),
            buf@.len() == old(buf)@.len(),
            acc + sub_mvd_bits(*c, *mb, i as int) == total,
            pBs.bits(buf@) == b0 + acc,
            pBs.bit_len() == old(pBs).bit_len() + acc.len(),
            old(pBs).bit_len() + total.len() <= 8 * buf@.len(),
            8 * buf@.len() + 64 <= i32::MAX,
        decreases 4 - i,
    {
        let s0 = g_kuiMbCountScan4Idx[4 * i] as usize;
        let ghost piece = mvd_bits(mb.sMv[s0 as int], c.sMbMvp[s0 as int]);
        proof {
            assert(mvd_ok(mb.sMv[g_kuiMbCountScan4Idx[4 * i as int] as int], c.sMbMvp[g_kuiMbCountScan4Idx[4 * i as int] as int]));
            assert(acc + piece + sub_mvd_bits(*c, *mb, i + 1) =~= total);
        }
        let dx = mb.sMv[s0].iMvX - c.sMbMvp[s0].iMvX;
        let dy = mb.sMv[s0].iMvY - c.sMbMvp[s0].iMvY;
        BsWriteSE(buf, pBs, dx as i32);
        BsWriteSE(buf, pBs, dy as i32);
        proof {
            assert(pBs.bits(buf@) =~= b0 + (acc + piece));
            acc = acc + piece;
        }
        i = i + 1;
    }
    proof {
        assert(acc + Seq::<bool>::empty() =~= acc);
    }
}

} // verus!
