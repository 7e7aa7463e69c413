use lib::mb::{SMVUnitXY, TagMVComponentUnit, SMB, SMbCache, SDCTCoeff, MB_TYPE_16x16, MB_TYPE_SKIP, MB_TYPE_INTRA4x4, MB_TYPE_INTRA_BL};
use lib::svc_mode_decision::{
    g_kuiCache30ScanIdx, CheckBorder, IsMbCollocatedStatic, IsMbScrolledStatic, IsSameMv,
    PredInter16x8Mv, PredInter8x16Mv, PredMv, PredSkipMv, SScrollDetectionParam,
    SVAAFrameInfoExt, SWelsMD, SetBlockStaticIdcToMd, SetScrollingMvToMd,
    SetScrollingMvToMdNull, UpdateP16x16MotionInfo, WelsMdInterJudgeBGDPskipFalse,
    WelsMdInterJudgeSCDPskipFalse, IS_INTRA, IS_I_BL, IS_SKIP, IS_SVC_INTRA, WELS_CLIP3,
};

use lib::svc_mode_decision::{CalUVSadCost, GetChromaCost, GetRefMb, SetMvBaseEnhancelayer};
use lib::svc_mode_decision::{
    UpdateP16x8Motion2Cache, UpdateP16x8MotionInfo, UpdateP8x16Motion2Cache, UpdateP8x8Motion2Cache,
    UpdateP8x8MotionInfo, update_P8x16_motion_info,
};
use lib::svc_mode_decision::{JudgeScrollSkip, JudgeStaticSkip, SChromaPicture, WelsMdInterUpdatePskip, WelsMdUpdateBGDInfo, MB_TYPE_BACKGROUND};
use lib::svc_motion_estimate::SPlaneLayout;
use lib::svc_mode_decision::{ESkipModes, SvcMdSCDMbEnc, WelsMdBackgroundMbEnc};
use lib::svc_motion_estimate::{PSampleSadSatdCostFunc, SSampleDealingFunc, BLOCK_8x8};

fn mv(x: i16, y: i16) -> SMVUnitXY {
    SMVUnitXY { iMvX: x, iMvY: y }
}

fn empty_mv_components() -> TagMVComponentUnit {
    TagMVComponentUnit { sMotionVectorCache: [mv(0, 0); 29], iRefIndexCache: [0; 30] }
}

fn empty_mb_cache() -> SMbCache {
    SMbCache {
        iNonZeroCoeffCount: [0; 48],
        sDct: SDCTCoeff::new(),
        sCoeffLevel: vec![0; 384],
        bPrevIntra4x4PredModeFlag: [false; 16],
        iRemIntra4x4PredModeFlag: [0; 16],
        uiChmaI8x8Mode: 0,
        uiLumaI16x16Mode: 0,
        sMbMvp: [mv(0, 0); 16],
        sMvComponents: empty_mv_components(),
        bCollocatedPredFlag: false,
    }
}

fn vaa(scroll_x: i32, scroll_y: i32) -> SVAAFrameInfoExt {
    SVAAFrameInfoExt {
        sScrollDetectInfo: SScrollDetectionParam { bScrollDetectFlag: true, iScrollMvX: scroll_x, iScrollMvY: scroll_y },
        pVaaBlockStaticIdc: Vec::new(),
        iStride: 0,
        pVaaBestBlockStaticIdc: None,
    }
}

/// `SetBlockStaticIdcToMd` reads the right four bytes of the right row.
///
/// The store is given three rows with different contents and the second is
/// selected. A reader that used row 0, or dropped the stride, fails here.
#[test]
fn set_block_static_idc_reads_the_selected_row_at_the_cpp_indices() {
    // 5x3 macroblocks -> a 10x6 grid of 8x8 blocks, 60 of them. The stride is
    // wider than the grid on purpose.
    const MB_W: i16 = 5;
    const MB_H: i16 = 3;
    const STRIDE: usize = 64;
    const ROWS: usize = 3;
    const SELECTED: usize = 1;

    let mut ext = vaa(0, 0);
    ext.iStride = STRIDE;
    ext.pVaaBlockStaticIdc = vec![0u8; ROWS * STRIDE];
    for r in 0..ROWS {
        for i in 0..STRIDE {
            // Distinct per row and per index.
            ext.pVaaBlockStaticIdc[r * STRIDE + i] = (r * 100 + i) as u8;
        }
    }
    ext.pVaaBestBlockStaticIdc = Some(SELECTED);

    let mut mb = SMB::new();
    mb.iMbX = 2;
    mb.iMbY = 1;

    let mut md = SWelsMD::default();
    SetBlockStaticIdcToMd(&ext, &mut md, &mb, MB_W, MB_H);

    //   kiWidth         = iMbWidth * 2                         = 10
    //   kiBlockIndexUp  = (iMbY * 2)     * kiWidth + iMbX * 2  = 24
    //   kiBlockIndexLow = (iMbY * 2 + 1) * kiWidth + iMbX * 2  = 34
    let up = 24usize;
    let low = 34usize;
    let byte = |i: usize| (SELECTED * 100 + i) as u8 as i32;
    assert_eq!(md.iBlock8x8StaticIdc[0], byte(up));
    assert_eq!(md.iBlock8x8StaticIdc[1], byte(up + 1));
    assert_eq!(md.iBlock8x8StaticIdc[2], byte(low));
    assert_eq!(md.iBlock8x8StaticIdc[3], byte(low + 1));

    // And the refusals: nothing selected, a row past the end, and a row too
    // short for the layer's grid all leave the indices as they were.
    let mut md = SWelsMD::default();
    md.iBlock8x8StaticIdc = [7, 7, 7, 7];
    ext.pVaaBestBlockStaticIdc = None;
    SetBlockStaticIdcToMd(&ext, &mut md, &mb, MB_W, MB_H);
    assert_eq!(md.iBlock8x8StaticIdc, [7, 7, 7, 7]);
    ext.pVaaBestBlockStaticIdc = Some(ROWS);
    SetBlockStaticIdcToMd(&ext, &mut md, &mb, MB_W, MB_H);
    assert_eq!(md.iBlock8x8StaticIdc, [7, 7, 7, 7]);
    ext.pVaaBestBlockStaticIdc = Some(SELECTED);
    ext.iStride = 59;
    SetBlockStaticIdcToMd(&ext, &mut md, &mb, MB_W, MB_H);
    assert_eq!(md.iBlock8x8StaticIdc, [7, 7, 7, 7]);
}

#[test]
fn test_pred_mv_basic_median() {
    let mut mv_comp = empty_mv_components();
    // Cache index 6 is Left, 1 is Top, 5 is RightTop.
    mv_comp.iRefIndexCache[6] = 0;
    mv_comp.iRefIndexCache[1] = 0;
    mv_comp.iRefIndexCache[5] = 0;

    mv_comp.sMotionVectorCache[6] = mv(10, 20);
    mv_comp.sMotionVectorCache[1] = mv(30, 40);
    mv_comp.sMotionVectorCache[5] = mv(20, 30);

    let mut sMvp = mv(0, 0);
    PredMv(&mv_comp, 0, 4, 0, &mut sMvp);

    // Median of (10, 30, 20) is 20; Median of (20, 40, 30) is 30
    assert_eq!(sMvp.iMvX, 20);
    assert_eq!(sMvp.iMvY, 30);
}

#[test]
fn test_pred_skip_mv_zero_ref() {
    let mut mb_cache = empty_mb_cache();

    // When left & top ref MVs are (0,0) and ref=0, PredSkipMv returns (0,0)
    mb_cache.sMvComponents.iRefIndexCache[6] = 0;
    mb_cache.sMvComponents.iRefIndexCache[1] = 0;
    mb_cache.sMvComponents.sMotionVectorCache[6] = mv(0, 0);
    mb_cache.sMvComponents.sMotionVectorCache[1] = mv(0, 0);

    let mut sMvp = mv(99, 99);
    PredSkipMv(&mb_cache.sMvComponents, &mut sMvp);

    assert_eq!(sMvp.iMvX, 0);
    assert_eq!(sMvp.iMvY, 0);
}

#[test]
fn test_pred_inter_16x8_8x16_mv() {
    let mut mb_cache = empty_mb_cache();

    mb_cache.sMvComponents.iRefIndexCache[1] = 0; // Top ref for 16x8 part 0
    mb_cache.sMvComponents.sMotionVectorCache[1] = mv(12, 34);

    let mut sMvp = mv(0, 0);
    PredInter16x8Mv(&mb_cache.sMvComponents, 0, 0, &mut sMvp);
    assert_eq!(sMvp.iMvX, 12);
    assert_eq!(sMvp.iMvY, 34);

    mb_cache.sMvComponents.iRefIndexCache[6] = 0; // Left ref for 8x16 part 0
    mb_cache.sMvComponents.sMotionVectorCache[6] = mv(56, 78);

    let mut sMvp8x16 = mv(0, 0);
    PredInter8x16Mv(&mb_cache.sMvComponents, 0, 0, &mut sMvp8x16);
    assert_eq!(sMvp8x16.iMvX, 56);
    assert_eq!(sMvp8x16.iMvY, 78);
}

#[test]
fn test_update_p16x16_motion_info() {
    let mut mb_cache = empty_mb_cache();

    let mut cur_mb = SMB::new();
    cur_mb.uiMbType = MB_TYPE_16x16;
    cur_mb.uiLumaQp = 26;
    cur_mb.uiChromaQp = 26;

    let mut target_mv = mv(42, -15);
    UpdateP16x16MotionInfo(&mut mb_cache.sMvComponents, &mut cur_mb, 0, &mut target_mv);

    assert_eq!(cur_mb.sMv[0], target_mv);
    assert_eq!(cur_mb.iRefIndex[0], 0);
    assert_eq!(
        mb_cache.sMvComponents.sMotionVectorCache[g_kuiCache30ScanIdx[0] as usize],
        target_mv
    );
}

#[test]
fn test_svc_mode_decision_noop_callback() {
    // This callback is the no-op arm of the scrolling stamp and reads neither.
    let sVaaExt = vaa(0, 0);
    let mut sMd = SWelsMD::default();
    SetScrollingMvToMdNull(Some(&sVaaExt), &mut sMd);
    SetScrollingMvToMdNull(None, &mut sMd);
}

/// The frame's scroll vector reaches all five directional MVs, and only those.
#[test]
fn set_scrolling_mv_to_md_stamps_all_five_blocks() {
    let sVaaExt = vaa(0, -8);

    let mut sMd = SWelsMD::default();
    SetScrollingMvToMd(Some(&sVaaExt), &mut sMd);

    let want = mv(0, -8);
    assert_eq!(sMd.sMe.sMe16x16.sDirectionalMv, want);
    for i in 0..4 {
        assert_eq!(sMd.sMe.sMe8x8[i].sDirectionalMv, want, "sMe8x8[{i}]");
    }
    // the two 16x8 / 8x16 families are not among the five written
    assert_eq!(sMd.sMe.sMe16x8[0].sDirectionalMv, SMVUnitXY::default());
    assert_eq!(sMd.sMe.sMe8x16[0].sDirectionalMv, SMVUnitXY::default());

    // `None`: the zero vector.
    let mut sMd = SWelsMD::default();
    sMd.sMe.sMe16x16.sDirectionalMv = want;
    SetScrollingMvToMd(None, &mut sMd);
    assert_eq!(sMd.sMe.sMe16x16.sDirectionalMv, SMVUnitXY::default());
    for i in 0..4 {
        assert_eq!(sMd.sMe.sMe8x8[i].sDirectionalMv, SMVUnitXY::default());
    }
}

#[test]
fn clip3_is_exact() {
    assert_eq!(WELS_CLIP3(100, -8, 8), 8);
    assert_eq!(WELS_CLIP3(-100, -8, 8), -8);
    assert_eq!(WELS_CLIP3(3, -8, 8), 3);
}

#[test]
fn pred_mv_falls_back_to_the_single_matching_neighbour() {
    // Only the top neighbour uses reference 1: its vector is the prediction.
    let mut mv_comp = empty_mv_components();
    mv_comp.iRefIndexCache[6] = 0;
    mv_comp.iRefIndexCache[1] = 1;
    mv_comp.iRefIndexCache[5] = 0;
    mv_comp.sMotionVectorCache[6] = mv(10, 20);
    mv_comp.sMotionVectorCache[1] = mv(-30, 40);
    mv_comp.sMotionVectorCache[5] = mv(20, 30);
    let mut sMvp = mv(0, 0);
    PredMv(&mv_comp, 0, 4, 1, &mut sMvp);
    assert_eq!(sMvp, mv(-30, 40));
}

#[test]
fn pred_skip_mv_is_zero_when_a_neighbour_is_missing() {
    let mut mv_comp = empty_mv_components();
    mv_comp.iRefIndexCache[6] = -2; // left not available
    mv_comp.iRefIndexCache[1] = 0;
    mv_comp.sMotionVectorCache[1] = mv(8, 8);
    let mut sMvp = mv(99, 99);
    PredSkipMv(&mv_comp, &mut sMvp);
    assert_eq!(sMvp, mv(0, 0));
}

#[test]
fn mb_type_predicates_of_mode_decision() {
    assert!(IS_SKIP(MB_TYPE_SKIP));
    assert!(IS_INTRA(MB_TYPE_INTRA4x4));
    assert!(!IS_INTRA(MB_TYPE_16x16));
    assert!(IS_I_BL(MB_TYPE_INTRA_BL));
    assert!(IS_SVC_INTRA(MB_TYPE_INTRA_BL));
    assert!(IS_SVC_INTRA(MB_TYPE_INTRA4x4));
}

#[test]
fn static_block_types_and_same_mv() {
    assert!(IsMbCollocatedStatic(&[1, 1, 1, 1]));
    assert!(!IsMbCollocatedStatic(&[1, 1, 0, 1]));
    assert!(IsMbScrolledStatic(&[2, 2, 2, 2]));
    assert!(!IsMbScrolledStatic(&[1, 1, 1, 1]));
    // The scrolled block of a macroblock at the picture edge leaves it.
    assert!(CheckBorder(0, 0, -1, 0, 4, 3));
    assert!(!CheckBorder(1, 1, 16, 16, 4, 3));
    assert!(CheckBorder(3, 2, 1, 0, 4, 3));
    assert!(IsSameMv(&mv(3, 4), &mv(3, 4)));
    assert!(!IsSameMv(&mv(3, 4), &mv(4, 3)));
}

#[test]
fn skip_judges_for_camera_content_never_skip() {
    let mut md = SWelsMD::default();
    let mut mb = SMB::new();
    let mut keep = true;
    assert!(!WelsMdInterJudgeSCDPskipFalse(&mut md, &mut mb));
    assert!(!WelsMdInterJudgeBGDPskipFalse(&mut md, &mut mb, &mut keep));
}

#[test]
fn chroma_costs_run_the_8x8_kernel() {
    let src = vec![9u8; 100];
    let mut refp = vec![9u8; 100];
    refp[11] = 0;
    refp[99] = 0;
    // The 8x8 block at offset 0 with stride 10 holds sample 11, not 99.
    assert_eq!(GetChromaCost(Some(PSampleSadSatdCostFunc::Sad8x8), &src, 0, 10, &refp, 0, 10), 9);
    assert_eq!(GetChromaCost(None, &src, 0, 10, &refp, 0, 10), 0);
    let mut sdf = SSampleDealingFunc { pfSampleSad: [None; 7], pfSample4Sad: [None; 7] };
    assert_eq!(CalUVSadCost(&sdf, &src, 0, 10, &refp, 0, 10), 0);
    sdf.pfSampleSad[BLOCK_8x8] = Some(PSampleSadSatdCostFunc::Sad8x8);
    assert_eq!(CalUVSadCost(&sdf, &src, 0, 10, &refp, 0, 10), 9);
}

#[test]
fn the_base_macroblock_lies_at_half_the_coordinates() {
    let mut base = Vec::new();
    for i in 0..6 {
        let mut mb = SMB::new();
        mb.iMbXY = i;
        base.push(mb);
    }
    let mut cur = SMB::new();
    cur.iMbX = 3;
    cur.iMbY = 2;
    // A base layer 3 macroblocks wide: (1, 1) is macroblock 4.
    assert_eq!(GetRefMb(3, &base, &cur).iMbXY, 4);
    // Past the base layer the last macroblock answers.
    cur.iMbY = 6;
    assert_eq!(GetRefMb(3, &base, &cur).iMbXY, 5);
    cur.iMbX = 0;
    cur.iMbY = 0;
    assert_eq!(GetRefMb(3, &base, &cur).iMbXY, 0);
}

#[test]
fn the_base_vector_is_the_quarter_s_vector_doubled() {
    let mut base = SMB::new();
    base.uiMbType = MB_TYPE_16x16;
    for i in 0..16 {
        base.sMv[i] = SMVUnitXY::new(i as i16, -(i as i16));
    }
    let mut cur = SMB::new();
    cur.iMbX = 5;
    cur.iMbY = 2;
    let mut md = SWelsMD::default();
    SetMvBaseEnhancelayer(&mut md, &mut cur, &base);
    // Odd column, even row: the top-right quarter, whose first 4x4 block is 2.
    let b = SMVUnitXY::new(4, -4);
    assert_eq!(md.sMe.sMe16x16.sMvBase, b);
    for i in 0..4 {
        assert_eq!(md.sMe.sMe8x8[i].sMvBase, b);
    }
    for i in 0..2 {
        assert_eq!(md.sMe.sMe16x8[i].sMvBase, b);
        assert_eq!(md.sMe.sMe8x16[i].sMvBase, b);
    }
    // Over an intra base macroblock nothing is seeded.
    base.uiMbType = MB_TYPE_INTRA4x4;
    let mut md = SWelsMD::default();
    cur.iMbY = 3;
    SetMvBaseEnhancelayer(&mut md, &mut cur, &base);
    assert_eq!(md.sMe.sMe16x16.sMvBase, SMVUnitXY::new(0, 0));
}

fn filled_cache() -> TagMVComponentUnit {
    TagMVComponentUnit { sMotionVectorCache: [SMVUnitXY::new(9, 9); 29], iRefIndexCache: [9; 30] }
}

#[test]
fn a_16x8_decision_fills_its_half() {
    let mut cache = filled_cache();
    let mut mb = SMB::new();
    let mut mv = SMVUnitXY::new(3, -1);
    UpdateP16x8MotionInfo(&mut cache, &mut mb, 8, 2, &mut mv);
    // The bottom half: 4x4 blocks 8..16, references 2 and 3, cache rows 3 and 4.
    for i in 0..16 {
        assert_eq!(mb.sMv[i], if i >= 8 { mv } else { SMVUnitXY::new(0, 0) });
    }
    assert_eq!(mb.iRefIndex, [0, 0, 2, 2]);
    for i in [19, 20, 21, 22, 25, 26, 27, 28] {
        assert_eq!(cache.iRefIndexCache[i], 2);
        assert_eq!(cache.sMotionVectorCache[i], mv);
    }
    assert_eq!(cache.iRefIndexCache[13], 9);
    assert_eq!(cache.sMotionVectorCache[23], SMVUnitXY::new(9, 9));
    // A negative reference reaches the paired entries as its word's two bytes.
    let mut cache = filled_cache();
    UpdateP16x8MotionInfo(&mut cache, &mut mb, 0, -3, &mut mv);
    assert_eq!(cache.iRefIndexCache[7], -3);
    let pair = (cache.iRefIndexCache[8], cache.iRefIndexCache[9]);
    assert!(pair == (-3, -1) || pair == (-1, -3));
    assert_eq!(cache.iRefIndexCache[10], -3);
    assert_eq!((mb.iRefIndex[0], mb.iRefIndex[1]), pair);
}

#[test]
fn an_8x16_decision_fills_its_half() {
    let mut cache = filled_cache();
    let mut mb = SMB::new();
    let mut mv = SMVUnitXY::new(-2, 5);
    update_P8x16_motion_info(&mut cache, &mut mb, 4, 1, &mut mv);
    assert_eq!(mb.iRefIndex, [0, 1, 0, 1]);
    for i in [2, 3, 6, 7, 10, 11, 14, 15] {
        assert_eq!(mb.sMv[i], mv);
    }
    assert_eq!(mb.sMv[0], SMVUnitXY::new(0, 0));
    // The cache entries are the four from the half's first entry and the
    // four twelve entries on.
    for i in [9, 10, 11, 12, 21, 22, 23, 24] {
        assert_eq!(cache.iRefIndexCache[i], 1);
        assert_eq!(cache.sMotionVectorCache[i], mv);
    }
    assert_eq!(cache.iRefIndexCache[8], 9);
    assert_eq!(cache.iRefIndexCache[15], 9);
}

#[test]
fn an_8x8_decision_fills_its_quarter() {
    let mut cache = filled_cache();
    let mut mb = SMB::new();
    let mut mv = SMVUnitXY::new(4, 4);
    UpdateP8x8MotionInfo(&mut cache, &mut mb, 12, 0, &mut mv);
    for i in 0..16 {
        assert_eq!(mb.sMv[i], if [10, 11, 14, 15].contains(&i) { mv } else { SMVUnitXY::new(0, 0) });
    }
    for i in [21, 22, 27, 28] {
        assert_eq!(cache.iRefIndexCache[i], 0);
        assert_eq!(cache.sMotionVectorCache[i], mv);
    }
    assert_eq!(cache.iRefIndexCache[20], 9);
}

#[test]
fn cache_only_updates_touch_only_the_cache_entries() {
    let mut cache = filled_cache();
    let mut mv = SMVUnitXY::new(1, 2);
    UpdateP8x8Motion2Cache(&mut cache, 4, 3, &mut mv);
    for i in [9, 10, 15, 16] {
        assert_eq!(cache.iRefIndexCache[i], 3);
    }
    assert_eq!(cache.iRefIndexCache[7], 9);
    let mut cache = filled_cache();
    UpdateP16x8Motion2Cache(&mut cache, 0, 1, &mut mv);
    for i in [7, 8, 13, 14, 9, 10, 15, 16] {
        assert_eq!(cache.iRefIndexCache[i], 1);
        assert_eq!(cache.sMotionVectorCache[i], mv);
    }
    assert_eq!(cache.iRefIndexCache[19], 9);
    let mut cache = filled_cache();
    UpdateP8x16Motion2Cache(&mut cache, 0, 1, &mut mv);
    for i in [7, 8, 13, 14, 19, 20, 25, 26] {
        assert_eq!(cache.iRefIndexCache[i], 1);
    }
    assert_eq!(cache.iRefIndexCache[9], 9);
}

/// An 80x80 buffer holding a plane whose sample `(x, y)` (for `x, y` in
/// `-24..56`) is `f(x, y)`.
fn chroma_plane(f: impl Fn(i32, i32) -> i32) -> (Vec<u8>, SPlaneLayout) {
    let mut v = vec![0u8; 80 * 80];
    for by in 0..80 {
        for bx in 0..80 {
            v[by * 80 + bx] = (f(bx as i32 - 24, by as i32 - 24) & 0xff) as u8;
        }
    }
    (v, SPlaneLayout { iOrigin: 24 * 80 + 24, iStride: 80 })
}

fn chroma_picture(dx: i32, dy: i32) -> SChromaPicture {
    let (pCb, sCb) = chroma_plane(|x, y| (x - dx) * 7 + (y - dy) * 3);
    let (pCr, sCr) = chroma_plane(|x, y| (x - dx) * 5 + (y - dy) * 11);
    SChromaPicture { pCb, sCb, pCr, sCr }
}

fn sdf_8x8() -> SSampleDealingFunc {
    let mut f = SSampleDealingFunc { pfSampleSad: [None; 7], pfSample4Sad: [None; 7] };
    f.pfSampleSad[BLOCK_8x8] = Some(PSampleSadSatdCostFunc::Sad8x8);
    f
}

fn mb_at_xy(x: i16, y: i16) -> SMB {
    let mut mb = SMB::new();
    mb.iMbX = x;
    mb.iMbY = y;
    mb
}

#[test]
fn a_static_macroblock_needs_static_blocks_and_equal_chroma() {
    let enc = chroma_picture(0, 0);
    let same = chroma_picture(0, 0);
    let mut md = SWelsMD::default();
    md.iBlock8x8StaticIdc = [1; 4];
    let mb = mb_at_xy(1, 2);
    assert!(JudgeStaticSkip(&sdf_8x8(), &mb, &md, &enc, Some(&same)));
    assert!(!JudgeStaticSkip(&sdf_8x8(), &mb, &md, &enc, None));
    let mut other = chroma_picture(0, 0);
    other.pCr[(24 + 16 + 3) * 80 + 24 + 8 + 5] ^= 1;
    assert!(!JudgeStaticSkip(&sdf_8x8(), &mb, &md, &enc, Some(&other)));
    md.iBlock8x8StaticIdc = [1, 1, 0, 1];
    assert!(!JudgeStaticSkip(&sdf_8x8(), &mb, &md, &enc, Some(&same)));
}

#[test]
fn a_scrolled_macroblock_compares_half_the_scroll_away() {
    let enc = chroma_picture(0, 0);
    // The reference is the picture moved by (2, 1) chroma samples, a luma
    // scroll of (4, 2).
    let moved = chroma_picture(2, 1);
    let mut md = SWelsMD::default();
    md.iBlock8x8StaticIdc = [2; 4];
    let mb = mb_at_xy(1, 1);
    let ext = vaa(4, 2);
    assert!(JudgeScrollSkip(&sdf_8x8(), &mb, &md, 4, 4, Some(&ext), &enc, Some(&moved)));
    // Unmoved, the chroma differs.
    assert!(!JudgeScrollSkip(&sdf_8x8(), &mb, &md, 4, 4, Some(&ext), &enc, Some(&enc)));
    // A scroll that leaves the picture is refused.
    let far = vaa(-40, 0);
    assert!(!JudgeScrollSkip(&sdf_8x8(), &mb, &md, 4, 4, Some(&far), &enc, Some(&moved)));
    // Without detected scrolling, or without the analysis, nothing is tried.
    let mut off = vaa(4, 2);
    off.sScrollDetectInfo.bScrollDetectFlag = false;
    assert!(!JudgeScrollSkip(&sdf_8x8(), &mb, &md, 4, 4, Some(&off), &enc, Some(&moved)));
    assert!(!JudgeScrollSkip(&sdf_8x8(), &mb, &md, 4, 4, None, &enc, Some(&moved)));
    md.iBlock8x8StaticIdc = [2, 2, 2, 1];
    assert!(!JudgeScrollSkip(&sdf_8x8(), &mb, &md, 4, 4, Some(&ext), &enc, Some(&moved)));
}

#[test]
fn a_skipped_macroblock_takes_the_slice_qp() {
    let mut cache = empty_mb_cache();
    let mut mb = SMB::new();
    mb.uiCbp = 0x2f;
    WelsMdInterUpdatePskip(30, 2, &mut cache, &mut mb);
    assert_eq!(mb.uiCbp, 0);
    assert_eq!(mb.uiLumaQp, 30);
    // Chroma QP of 32 is 31 in the chroma table.
    assert_eq!(mb.uiChromaQp, 31);
    assert!(cache.bCollocatedPredFlag);
    mb.sMv[0] = SMVUnitXY::new(0, 1);
    WelsMdInterUpdatePskip(60, 0, &mut cache, &mut mb);
    assert_eq!(mb.uiLumaQp, 60);
    assert_eq!(mb.uiChromaQp, 39);
    assert!(!cache.bCollocatedPredFlag);
}

#[test]
fn background_info_keeps_the_reference_qp_for_collocated_skips() {
    let mut mb = SMB::new();
    mb.iMbXY = 2;
    mb.uiLumaQp = 28;
    mb.uiMbType = MB_TYPE_BACKGROUND;
    let refqp = [10u8, 11, 12, 13];
    let mut rec = [0u8; 4];
    WelsMdUpdateBGDInfo(&mut mb, true, 0, &refqp, &mut rec);
    assert_eq!(rec, [0, 0, 12, 0]);
    assert_eq!(mb.uiMbType, MB_TYPE_SKIP);
    // Coded blocks, an intra reference or no collocated prediction keep its own QP.
    mb.uiCbp = 1;
    WelsMdUpdateBGDInfo(&mut mb, true, 0, &refqp, &mut rec);
    assert_eq!(rec[2], 28);
    mb.uiCbp = 0;
    rec[2] = 0;
    WelsMdUpdateBGDInfo(&mut mb, true, 2, &refqp, &mut rec);
    assert_eq!(rec[2], 28);
    rec[2] = 0;
    WelsMdUpdateBGDInfo(&mut mb, false, 0, &refqp, &mut rec);
    assert_eq!(rec[2], 28);
}

#[test]
fn background_macroblock_as_skip_or_as_16x16() {
    // Skipped in the background: zero vectors, reference 0, the slice's QP.
    let mut md = SWelsMD::default();
    md.iCostLuma = 99;
    let mut mb = SMB::new();
    mb.uiMbType = MB_TYPE_16x16;
    mb.uiCbp = 0x2f;
    mb.sMv = [mv(3, -2); 16];
    mb.iRefIndex = [1; 4];
    let mut cache = empty_mb_cache();
    let (enc, le) = chroma_plane(|_, _| 10);
    let (rf, lr) = chroma_plane(|_, _| 7);
    WelsMdBackgroundMbEnc(&mut md, &mut mb, &mut cache, 30, 0, 0, true, true, &enc, le, &rf, lr, 900);
    assert_eq!(mb.uiMbType, MB_TYPE_BACKGROUND);
    assert_eq!(mb.uiCbp, 0);
    assert_eq!(mb.iSadCost, 16 * 16 * 3);
    assert_eq!(mb.sMv, [mv(0, 0); 16]);
    assert_eq!(mb.iRefIndex, [0; 4]);
    assert_eq!(mb.uiLumaQp, 30);
    assert_eq!(mb.uiChromaQp, 29);
    assert_eq!(md.iCostLuma, 0);
    assert!(cache.bCollocatedPredFlag);

    // Coded: a 16x16 macroblock on the zero vector, its cost the SATD when
    // the decision does not run on SAD.
    let mut md = SWelsMD::default();
    let mut mb = SMB::new();
    mb.sMv = [mv(3, -2); 16];
    let mut cache = empty_mb_cache();
    cache.sMvComponents.sMotionVectorCache[1] = mv(8, 4);
    WelsMdBackgroundMbEnc(&mut md, &mut mb, &mut cache, 30, 0, 0, false, false, &enc, le, &rf, lr, 900);
    assert_eq!(mb.uiMbType, MB_TYPE_16x16);
    assert_eq!(mb.sMv, [mv(0, 0); 16]);
    assert_eq!(md.iCostLuma, 900);
    assert_eq!(md.sMe.sMe16x16.sMv, mv(0, 0));
    assert_eq!(cache.sMbMvp[0], md.sMe.sMe16x16.sMvp);
    assert_eq!(cache.sMvComponents.sMotionVectorCache[7], mv(0, 0));
    assert_eq!(cache.sMvComponents.iRefIndexCache[7], 0);
}

#[test]
fn screen_content_skip_takes_the_candidate_of_its_mode() {
    let cands = [mv(0, 0), mv(0, -16)];
    // A scrolled skip: the scroll vector, skipped at the slice's QP.
    let mut md = SWelsMD::default();
    let mut mb = SMB::new();
    let mut cache = empty_mb_cache();
    // The reference is the picture scrolled up by 4 rows.
    let (enc, le) = chroma_plane(|_, y| y);
    let (rf, lr) = chroma_plane(|_, y| y + 4);
    SvcMdSCDMbEnc(&mut md, &mut mb, &mut cache, 26, 0, true, true, &cands, ESkipModes::SCROLLED, true, &enc, le, &rf, lr);
    assert!(IS_SKIP(mb.uiMbType));
    assert_eq!(mb.sMv, [mv(0, -16); 16]);
    assert_eq!(mb.sP16x16Mv, mv(0, -16));
    assert_eq!(mb.uiLumaQp, 26);
    assert_eq!(mb.iSadCost, 0);
    assert_eq!(md.iCostSkipMb, 0);
    assert_eq!(md.iCostLuma, 0);
    assert!(!cache.bCollocatedPredFlag);

    // A QP too far off: a 16x16 macroblock on the static candidate.
    let mut md = SWelsMD::default();
    let mut mb = SMB::new();
    let mut cache = empty_mb_cache();
    SvcMdSCDMbEnc(&mut md, &mut mb, &mut cache, 26, 0, false, true, &cands, ESkipModes::STATIC, false, &enc, le, &rf, lr);
    assert_eq!(mb.uiMbType, MB_TYPE_16x16);
    assert_eq!(mb.sMv, [mv(0, 0); 16]);
    assert_eq!(mb.iSadCost, 16 * 16 * 4);
    assert_eq!(md.iCostLuma, 16 * 16 * 4);
    assert_eq!(md.sMe.sMe16x16.sMv, mv(0, 0));
}
