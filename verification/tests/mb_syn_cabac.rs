use lib::bits::BsWriter;
use lib::svc_encode_slice::SDynamicSlicingStack;
use lib::svc_set_mb_syn_cavlc::{StashMBStatusCabac, StashPopMBStatusCabac};
use lib::svc_set_mb_syn_cabac::{
    GetBsPosCabac, SCabacCtx, SStateCtx, WelsCabacEncodeInit, WelsCalNonZeroCount2x2Block,
    CLIP3_QP_0_51, IS_INTRA, IS_INTRA4x4, IS_SKIP,
};
use lib::mb::{MB_TYPE_SKIP, MB_TYPE_INTRA4x4, MB_TYPE_INTRA16x16, MB_TYPE_16x16};
use lib::mb::{SDCTCoeff, SMVUnitXY, SMbCache, TagMVComponentUnit, SMB};
use lib::svc_set_mb_syn_cabac::{ECabacCoeffSource, WelsWriteMbResidualCabac};
use lib::vlc_encoder::ECtxBlockCat;

#[test]
fn test_cal_nonzero_count_2x2() {
    let block_zero = [0i16, 0, 0, 0];
    assert_eq!(WelsCalNonZeroCount2x2Block(&block_zero), 0);

    let block_mixed = [1i16, 0, -3, 0];
    assert_eq!(WelsCalNonZeroCount2x2Block(&block_mixed), 2);

    let block_full = [4i16, -2, 5, 1];
    assert_eq!(WelsCalNonZeroCount2x2Block(&block_full), 4);
}

#[test]
fn test_cabac_state_ctx() {
    let mut state_ctx = SStateCtx::default();
    state_ctx.SetState(30, 1);
    assert_eq!(state_ctx.State(), 30);
    assert_eq!(state_ctx.Mps(), 1);

    state_ctx.SetState(63, 0);
    assert_eq!(state_ctx.State(), 63);
    assert_eq!(state_ctx.Mps(), 0);
}

#[test]
fn cabac_encode_init_sets_full_range_and_nine_low_bits() {
    let buffer = vec![0u8; 128];
    let mut cabac_ctx = SCabacCtx::default();
    let end = buffer.len();
    WelsCabacEncodeInit(&mut cabac_ctx, 0, end);
    assert_eq!(cabac_ctx.m_uiRange, 510);
    assert_eq!(cabac_ctx.m_iLowBitCnt, 9);
}

#[test]
fn cabac_position_starts_at_zero_and_counts_stored_bytes() {
    let mut cabac_ctx = SCabacCtx::default();
    WelsCabacEncodeInit(&mut cabac_ctx, 16, 128);
    assert_eq!(GetBsPosCabac(&cabac_ctx), 0);
    cabac_ctx.m_iBufCur = 20;
    cabac_ctx.m_iLowBitCnt = 12;
    assert_eq!(GetBsPosCabac(&cabac_ctx), 4 * 8 + 3);
}

#[test]
fn cabac_mb_type_predicates_and_qp_clip() {
    assert!(IS_SKIP(MB_TYPE_SKIP));
    assert!(!IS_SKIP(MB_TYPE_16x16));
    assert!(IS_INTRA(MB_TYPE_INTRA16x16));
    assert!(IS_INTRA4x4(MB_TYPE_INTRA4x4));
    assert!(!IS_INTRA(MB_TYPE_16x16));
    assert_eq!(CLIP3_QP_0_51(-1), 0);
    assert_eq!(CLIP3_QP_0_51(52), 51);
    assert_eq!(CLIP3_QP_0_51(30), 30);
}

#[test]
fn cabac_stash_and_pop_restore_the_coder_and_its_bytes() {

    let mut buf: Vec<u8> = (1..=32).collect();
    let mut ctx = SCabacCtx::default();
    WelsCabacEncodeInit(&mut ctx, 0, 32);
    ctx.m_iBufCur = 4;
    ctx.m_iLowBitCnt = 12;
    let mut dss = SDynamicSlicingStack {
        iStartPos: 0,
        iCurrentPos: 0,
        sBsStack: BsWriter::new(),
        sStoredCabac: SCabacCtx::default(),
        iMbSkipRunStack: 0,
        uiLastMbQp: 0,
        pRestoreBuffer: Some(vec![0u8; 16]),
    };
    // 35 bits from the start: five bytes are kept.
    StashMBStatusCabac(&mut buf, &mut dss, &mut ctx, 31, 3);
    assert_eq!(&dss.pRestoreBuffer.as_ref().unwrap()[..6], &[1, 2, 3, 4, 5, 0]);
    assert_eq!(dss.uiLastMbQp, 31);
    // The next macroblock moves the coder on and rewrites bytes.
    ctx.m_iBufCur = 9;
    ctx.m_uiRange = 300;
    for b in buf.iter_mut().take(8) {
        *b = 0xff;
    }
    assert_eq!(StashPopMBStatusCabac(&mut buf, &mut dss, &mut ctx), 3);
    assert_eq!(ctx.m_iBufCur, 4);
    assert_eq!(ctx.m_uiRange, 510);
    assert_eq!(&buf[..8], &[1, 2, 3, 4, 5, 0xff, 0xff, 0xff]);

    // Without a restore buffer only the coder comes back.
    dss.pRestoreBuffer = None;
    buf[0] = 0;
    ctx.m_iBufCur = 7;
    assert_eq!(StashPopMBStatusCabac(&mut buf, &mut dss, &mut ctx), 3);
    assert_eq!(ctx.m_iBufCur, 4);
    assert_eq!(buf[0], 0);
}

fn cabac_cache() -> SMbCache {
    let z = SMVUnitXY { iMvX: 0, iMvY: 0 };
    SMbCache {
        iNonZeroCoeffCount: [0; 48],
        sDct: SDCTCoeff::new(),
        sCoeffLevel: vec![0; 384],
        bPrevIntra4x4PredModeFlag: [false; 16],
        iRemIntra4x4PredModeFlag: [0; 16],
        uiChmaI8x8Mode: 0,
        uiLumaI16x16Mode: 0,
        sMbMvp: [z; 16],
        sMvComponents: TagMVComponentUnit { sMotionVectorCache: [z; 29], iRefIndexCache: [0; 30] },
        bCollocatedPredFlag: false,
    }
}

#[test]
fn cabac_residual_plan_of_an_intra16x16_macroblock() {
    let mut c = cabac_cache();
    c.sDct.iLumaI16x16Dc[0] = 5;
    c.sDct.iLumaI16x16Dc[7] = -1;
    c.sDct.iChromaDc[0] = [1, 0, 0, 2];
    let mut mb = SMB::new();
    mb.uiMbType = MB_TYPE_INTRA16x16;
    mb.uiCbp = 0x10; // chroma DC only
    mb.uiLumaQp = 30;
    let mut last = 26u8;
    let jobs = WelsWriteMbResidualCabac(&mut mb, &c, &mut last, 0);
    assert_eq!(jobs.len(), 3);
    assert_eq!(jobs[0].eCat, ECtxBlockCat::LUMA_DC);
    assert_eq!(jobs[0].iNonZeroCount, 2);
    assert_eq!(jobs[0].eSource, ECabacCoeffSource::LumaDc);
    assert_eq!((jobs[1].eCat, jobs[1].iIdx, jobs[1].iNonZeroCount), (ECtxBlockCat::CHROMA_DC, 1, 2));
    assert_eq!((jobs[2].eCat, jobs[2].iIdx, jobs[2].iNonZeroCount), (ECtxBlockCat::CHROMA_DC, 2, 0));
    assert_eq!(mb.iCbpDc, 3);
    assert_eq!(mb.iLumaDQp, 4);
    assert_eq!(last, 30);
}

#[test]
fn cabac_residual_plan_of_inter_groups_and_of_an_empty_macroblock() {
    let mut c = cabac_cache();
    c.iNonZeroCoeffCount[9] = 3;
    let mut mb = SMB::new();
    mb.uiMbType = MB_TYPE_16x16;
    mb.uiCbp = 0x22; // luma group 1, chroma AC
    mb.uiLumaQp = 20;
    let mut last = 20u8;
    let jobs = WelsWriteMbResidualCabac(&mut mb, &c, &mut last, 0);
    assert_eq!(jobs.len(), 4 + 2 + 8);
    assert!(jobs[..4].iter().all(|j| j.eCat == ECtxBlockCat::LUMA_4x4 && j.iEndIdx == 15));
    assert_eq!(jobs[0].eSource, ECabacCoeffSource::Luma(4));
    assert_eq!(jobs[13].eSource, ECabacCoeffSource::Chroma(7));
    assert_eq!(jobs[13].iEndIdx, 14);
    assert_eq!(mb.iCbpDc, 0);
    assert_eq!(mb.iLumaDQp, 0);

    let mut mb = SMB::new();
    mb.uiMbType = MB_TYPE_16x16;
    mb.uiLumaQp = 40;
    let mut last = 30u8;
    let jobs = WelsWriteMbResidualCabac(&mut mb, &c, &mut last, 0);
    assert!(jobs.is_empty());
    assert_eq!(mb.uiLumaQp, 30);
    assert_eq!(mb.uiChromaQp, 29);
    assert_eq!(last, 30);
}
