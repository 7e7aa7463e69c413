use lib::feature_search::{
    CalculateFeatureOfBlock, FeatureSearchOne, FillQpelLocationByFeatureValue_c, FmeKernels,
    MotionEstimateFeatureFullSearch, PCalculateBlockFeatureOfFrame, PFillQpelLocationByFeatureValueFunc,
    PInitializeHashforFeatureFunc, PUpdateFMESwitch, PerformFMEPreprocess, SFeatureSearchIn, SPicture,
    SScreenBlockFeatureStorage, SWelsFuncPtrList, SetFeatureSearchIn, WelsDiamondCrossFeatureSearch, WelsInitMeFunc,
};
use lib::mb::SMVUnitXY;
use lib::svc_motion_estimate::{
    MvdCostCursor, PCalculateSingleBlockFeature, PCheckDirectionalMv, PLineFullSearchFunc, PSampleSadSatdCostFunc,
    SFeatureSearchOut, SPlaneLayout, SSampleDealingFunc, SWelsME, WelsDiamondCrossSearch, BLOCK_8x8,
    LIST_SIZE_SUM_16x16, LIST_SIZE_SUM_8x8,
};

/// A `w x h` luma plane whose rows are `w` apart.
fn picture(w: i32, h: i32, f: impl Fn(i32, i32) -> u8) -> SPicture {
    let mut data = Vec::new();
    for y in 0..h {
        for x in 0..w {
            data.push(f(x, y));
        }
    }
    SPicture { pData: data, iLineSize: w, iWidthInPixel: w, iHeightInPixel: h, iFrameAverageQp: 0 }
}

#[test]
fn feature_storage_arena_invariants_hold_over_a_synthetic_frame() {
    const W: i32 = 48;
    const H: i32 = 32;
    const MARGIN: i32 = 8;

    let mut func_list = SWelsFuncPtrList::default();
    WelsInitMeFunc(&mut func_list, 0, true);

    let pic = picture(W, H, |x, y| (((x * 7) ^ (y * 13)) & 0xFF) as u8);

    let bw = (W - MARGIN) as usize;
    let bh = (H - MARGIN) as usize;
    let mut storage = SScreenBlockFeatureStorage::for_frame(W, H, true, 0);
    let mut feature_of_block = vec![0u16; bw * bh];

    assert!(CalculateFeatureOfBlock(&FmeKernels::of(&func_list), &pic, &mut feature_of_block, &mut storage));

    let list_size = storage.iActualListSize as usize;
    assert_eq!(storage.pTimesOfFeatureValue.len(), list_size);
    assert_eq!(storage.pLocationOfFeature.len(), list_size);
    assert_eq!(storage.pLocationPointer.len(), 2 * bw * bh);

    let counted: u64 = storage.pTimesOfFeatureValue.iter().map(|&n| n as u64).sum();
    assert_eq!(counted, (bw * bh) as u64, "histogram must sum to the block count");

    let populated = storage.pTimesOfFeatureValue.iter().filter(|&&n| n > 0).count();
    assert!(populated > 1, "synthetic frame collapsed to {populated} bucket(s)");

    let mut expect_base = 0usize;
    for v in 0..list_size {
        let base = storage.pLocationOfFeature[v];
        let times = storage.pTimesOfFeatureValue[v] as usize;
        assert_eq!(base, expect_base, "group {v} does not start where {} ended", v.wrapping_sub(1));
        assert_eq!(
            storage.pFeatureValuePointerList[v],
            base + 2 * times,
            "group {v}'s cursor did not end 2*{times} past its base",
        );
        expect_base = base + 2 * times;
    }
    assert_eq!(expect_base, 2 * bw * bh, "the groups must fill the arena exactly");

    for v in 0..list_size {
        let base = storage.pLocationOfFeature[v];
        let times = storage.pTimesOfFeatureValue[v] as usize;
        for k in 0..times {
            let qx = storage.pLocationPointer[base + 2 * k] as i32;
            let qy = storage.pLocationPointer[base + 2 * k + 1] as i32;
            assert_eq!(qx & 3, 0, "x qpel {qx} is not a whole pixel (x << 2)");
            assert_eq!(qy & 3, 0, "y qpel {qy} is not a whole pixel");
            assert!(qx >> 2 < bw as i32, "x {} outside {bw} block columns", qx >> 2);
            assert!(qy >> 2 < bh as i32, "y {} outside {bh} block rows", qy >> 2);
        }
    }

    for y in 0..bh {
        for x in 0..bw {
            let v = feature_of_block[y * bw + x] as usize;
            assert!(v < list_size, "feature {v} outside a list of {list_size}");
        }
    }
}

#[test]
fn each_position_is_filed_at_its_rank_in_its_group() {
    // A 3x2 grid whose features are 2, 0, 2 / 1, 2, 0.
    let feat = [2u16, 0, 2, 1, 2, 0];
    // Histogram: value 0 twice, 1 once, 2 three times; bases 0, 4, 6.
    let mut ptr = vec![0usize, 4, 6];
    let mut loc = vec![0u16; 12];
    FillQpelLocationByFeatureValue_c(&feat, 3, 2, &mut loc, &mut ptr);
    assert_eq!(ptr, vec![4, 6, 12]);
    assert_eq!(loc, vec![4, 0, 8, 4, 0, 4, 0, 0, 8, 0, 4, 4]);
}

#[test]
fn an_empty_grid_files_nothing() {
    let feat = [1u16, 1];
    let mut ptr = vec![0usize, 0];
    let mut loc = vec![7u16; 4];
    FillQpelLocationByFeatureValue_c(&feat, 0, 5, &mut loc, &mut ptr);
    FillQpelLocationByFeatureValue_c(&feat, 2, -1, &mut loc, &mut ptr);
    assert_eq!(ptr, vec![0, 0]);
    assert_eq!(loc, vec![7, 7, 7, 7]);
}

#[test]
fn init_me_func_fills_the_screen_and_camera_tables() {
    let mut screen = SWelsFuncPtrList::default();
    WelsInitMeFunc(&mut screen, 0, true);
    assert_eq!(screen.pfUpdateFMESwitch, Some(PUpdateFMESwitch::UpdateFMESwitchNull));
    assert_eq!(screen.sMeFuncs.pfCheckDirectionalMv, Some(PCheckDirectionalMv::CheckDirectionalMv));
    assert_eq!(screen.sMeFuncs.pfVerticalFullSearch, Some(PLineFullSearchFunc::LineFullSearch_c));
    assert_eq!(screen.sMeFuncs.pfHorizontalFullSearch, Some(PLineFullSearchFunc::LineFullSearch_c));
    assert_eq!(
        screen.sMeFuncs.pfCalculateSingleBlockFeature,
        [
            Some(PCalculateSingleBlockFeature::sum_of_8x8_single_block),
            Some(PCalculateSingleBlockFeature::sum_of_16x16_single_block)
        ]
    );
    assert_eq!(
        screen.pfCalculateBlockFeatureOfFrame,
        [
            Some(PCalculateBlockFeatureOfFrame::SumOf8x8BlockOfFrame_c),
            Some(PCalculateBlockFeatureOfFrame::SumOf16x16BlockOfFrame_c)
        ]
    );
    assert_eq!(screen.pfInitializeHashforFeature, Some(PInitializeHashforFeatureFunc::InitializeHashforFeature_c));
    assert_eq!(
        screen.pfFillQpelLocationByFeatureValue,
        Some(PFillQpelLocationByFeatureValueFunc::FillQpelLocationByFeatureValue_c)
    );

    let mut camera = SWelsFuncPtrList::default();
    WelsInitMeFunc(&mut camera, 0, false);
    assert_eq!(camera.pfUpdateFMESwitch, Some(PUpdateFMESwitch::UpdateFMESwitchNull));
    assert_eq!(camera.sMeFuncs.pfCheckDirectionalMv, Some(PCheckDirectionalMv::CheckDirectionalMvFalse));
    assert_eq!(camera.sMeFuncs.pfVerticalFullSearch, None);
    assert_eq!(camera.pfCalculateBlockFeatureOfFrame, [None, None]);
    assert_eq!(camera.sMeFuncs.pfCalculateSingleBlockFeature, [None, None]);
    assert_eq!(camera.pfFillQpelLocationByFeatureValue, None);
}

#[test]
fn storage_for_a_frame_sizes_its_lists_and_arena() {
    let s8 = SScreenBlockFeatureStorage::for_frame(48, 32, true, 0);
    assert_eq!(s8.iActualListSize as usize, LIST_SIZE_SUM_8x8);
    assert_eq!(s8.pTimesOfFeatureValue.len(), LIST_SIZE_SUM_8x8);
    assert_eq!(s8.pLocationPointer.len(), 2 * 40 * 24);
    assert!(!s8.iIs16x16);
    assert!(!s8.bRefBlockFeatureCalculated);
    assert_eq!(s8.uiSadCostThreshold, [u32::MAX; 7]);
    let s16 = SScreenBlockFeatureStorage::for_frame(48, 32, false, 0);
    assert_eq!(s16.iActualListSize as usize, LIST_SIZE_SUM_16x16);
    assert_eq!(s16.pLocationPointer.len(), 2 * 32 * 16);
    assert!(s16.iIs16x16);
    let other = SScreenBlockFeatureStorage::for_frame(10, 4, true, 1);
    assert_eq!(other.iActualListSize, 256);
    assert_eq!(other.pLocationPointer.len(), 0);
}

#[test]
fn feature_pass_refuses_empty_buffers() {
    let mut func_list = SWelsFuncPtrList::default();
    WelsInitMeFunc(&mut func_list, 0, true);
    let pic = picture(16, 16, |x, y| (x + y) as u8);
    let mut storage = SScreenBlockFeatureStorage::for_frame(16, 16, true, 0);
    let mut empty: Vec<u16> = Vec::new();
    assert!(!CalculateFeatureOfBlock(&FmeKernels::of(&func_list), &pic, &mut empty, &mut storage));
    // An 8x8 grid fits no 16x16 margin: the arena is empty.
    let mut small = SScreenBlockFeatureStorage::for_frame(16, 16, false, 0);
    let mut feat = vec![0u16; 4];
    assert!(!CalculateFeatureOfBlock(&FmeKernels::of(&func_list), &pic, &mut feat, &mut small));
    assert!(!small.bRefBlockFeatureCalculated);
}

#[test]
fn preprocess_sets_the_thresholds_from_the_average_qp() {
    let mut func_list = SWelsFuncPtrList::default();
    WelsInitMeFunc(&mut func_list, 0, true);
    let mut pic = picture(24, 24, |x, y| (x * 3 + y) as u8);
    pic.iFrameAverageQp = 26;
    let mut storage = SScreenBlockFeatureStorage::for_frame(24, 24, true, 0);
    let mut feat = vec![0u16; 16 * 16];
    PerformFMEPreprocess(&FmeKernels::of(&func_list), &pic, &mut feat, &mut storage);
    assert!(storage.bRefBlockFeatureCalculated);
    // QP 26 has a step of 208/16: (30 * (208 + 160)) >> 3 = 1380.
    assert_eq!(storage.uiSadCostThreshold[0], 1380);
    assert_eq!(storage.uiSadCostThreshold[3], 345);
    assert_eq!(storage.uiSadCostThreshold[1], u32::MAX);
    assert_eq!(storage.uiSadCostThreshold[2], u32::MAX);
    assert_eq!(storage.uiSadCostThreshold[4], u32::MAX);
    // The first block: rows 0..8 of x * 3 + y over columns 0..8.
    let mut sum = 0u32;
    for y in 0..8 {
        for x in 0..8 {
            sum += x * 3 + y;
        }
    }
    assert_eq!(feat[0] as u32, sum);
    // A QP above the range uses the last step: (30 * (3584 + 160)) >> 3 = 14040.
    pic.iFrameAverageQp = 70;
    let mut storage = SScreenBlockFeatureStorage::for_frame(24, 24, true, 0);
    PerformFMEPreprocess(&FmeKernels::of(&func_list), &pic, &mut feat, &mut storage);
    assert_eq!(storage.uiSadCostThreshold[0], 14040);
    assert_eq!(storage.uiSadCostThreshold[3], 3510);
}

/// An 80x80 buffer holding a plane whose sample `(x, y)` (for `x, y` in
/// `-24..56`) is `f(x, y)`.
fn padded_plane(f: impl Fn(i32, i32) -> i32) -> (Vec<u8>, SPlaneLayout) {
    let mut v = vec![0u8; 80 * 80];
    for by in 0..80 {
        for bx in 0..80 {
            v[by * 80 + bx] = f(bx as i32 - 24, by as i32 - 24).clamp(0, 255) as u8;
        }
    }
    (v, SPlaneLayout { iOrigin: 24 * 80 + 24, iStride: 80 })
}

fn texture(x: i32, y: i32) -> i32 {
    (x * 7 + y * 13) & 0xff
}

fn noise(x: i32, y: i32) -> i32 {
    (x * x * 31 + y * y * 17 + x * y * 7 + 3 * x) & 0xff
}

fn sdf8() -> SSampleDealingFunc {
    let mut f = SSampleDealingFunc { pfSampleSad: [None; 7], pfSample4Sad: [None; 7] };
    f.pfSampleSad[BLOCK_8x8] = Some(PSampleSadSatdCostFunc::Sad8x8);
    f.pfSample4Sad[BLOCK_8x8] = Some(PSampleSadSatdCostFunc::Sad8x8);
    f
}

/// A storage whose feature value 3 has the given quarter-sample positions.
fn storage_with_group(positions: &[(u16, u16)]) -> SScreenBlockFeatureStorage {
    let mut st = SScreenBlockFeatureStorage::for_frame(0, 0, true, 1);
    st.pTimesOfFeatureValue[3] = positions.len() as u32;
    st.pLocationOfFeature[3] = 0;
    for &(qx, qy) in positions {
        st.pLocationPointer.push(qx);
        st.pLocationPointer.push(qy);
    }
    st
}

fn search_in(thresh: u16) -> SFeatureSearchIn {
    SFeatureSearchIn {
        pSad: Some(PSampleSadSatdCostFunc::Sad8x8),
        iMvdOffsetX: -32,
        iMvdOffsetY: -32,
        uiSadCostThresh: thresh,
        iFeatureOfCurrent: 3,
        iCurPixX: 8,
        iCurPixY: 8,
        iCurPixXQpel: 32,
        iCurPixYQpel: 32,
        iMinQpelX: 0,
        iMinQpelY: 0,
        iMaxQpelX: 64,
        iMaxQpelY: 64,
    }
}

#[test]
fn feature_search_takes_the_cheapest_position_of_the_group() {
    let (enc, le) = padded_plane(texture);
    let (refp, lr) = padded_plane(|x, y| texture(x - 3, y - 2));
    let table = vec![0u16; 512];
    let tab = MvdCostCursor::new(&table, 256);
    // (5, 6) is a poor match, (11, 10) the exact one; (8, 12) shares the
    // block's column and (100, 8) lies outside the window: both are skipped.
    let st = storage_with_group(&[(20, 24), (32, 48), (400, 40), (44, 40)]);
    let mut out = SFeatureSearchOut { sBestMv: SMVUnitXY::new(0, 0), uiBestSadCost: 100000 };
    let stopped = FeatureSearchOne(&search_in(0), &st, &tab, &enc, le, &refp, lr, 0, u32::MAX, &mut out);
    assert!(!stopped);
    assert_eq!(out.sBestMv, SMVUnitXY::new(3, 2));
    assert_eq!(out.uiBestSadCost, 0);
    // Under a threshold of one the exact match ends the pass.
    let st = storage_with_group(&[(44, 40), (20, 24)]);
    let mut out = SFeatureSearchOut { sBestMv: SMVUnitXY::new(0, 0), uiBestSadCost: 100000 };
    assert!(FeatureSearchOne(&search_in(1), &st, &tab, &enc, le, &refp, lr, 0, u32::MAX, &mut out));
    assert_eq!(out.sBestMv, SMVUnitXY::new(3, 2));
    // A pass limited to the first position never sees the exact match.
    let st = storage_with_group(&[(20, 24), (44, 40)]);
    let mut out = SFeatureSearchOut { sBestMv: SMVUnitXY::new(0, 0), uiBestSadCost: 100000 };
    assert!(!FeatureSearchOne(&search_in(0), &st, &tab, &enc, le, &refp, lr, 0, 1, &mut out));
    assert_eq!(out.sBestMv, SMVUnitXY::new(-3, -2));
    assert!(out.uiBestSadCost > 0 && out.uiBestSadCost < 100000);
    // A cost already below every candidate stays.
    let mut out = SFeatureSearchOut { sBestMv: SMVUnitXY::new(1, 1), uiBestSadCost: 0 };
    assert!(!FeatureSearchOne(&search_in(0), &st, &tab, &enc, le, &refp, lr, 0, u32::MAX, &mut out));
    assert_eq!(out.sBestMv, SMVUnitXY::new(1, 1));
    assert_eq!(out.uiBestSadCost, 0);
    // A value outside the feature range is not searched.
    let mut fin = search_in(0);
    fin.iFeatureOfCurrent = -1;
    let mut out = SFeatureSearchOut { sBestMv: SMVUnitXY::new(0, 0), uiBestSadCost: 7 };
    assert!(FeatureSearchOne(&fin, &st, &tab, &enc, le, &refp, lr, 0, u32::MAX, &mut out));
    assert_eq!(out.uiBestSadCost, 7);
}

#[test]
fn the_rate_filter_skips_positions_that_cost_too_much_to_code() {
    let (enc, le) = padded_plane(texture);
    let (refp, lr) = padded_plane(|x, y| texture(x - 3, y - 2));
    // Every difference costs 60, so a rate of 120 is not below a best of 100.
    let table = vec![60u16; 512];
    let tab = MvdCostCursor::new(&table, 256);
    let st = storage_with_group(&[(44, 40)]);
    let mut out = SFeatureSearchOut { sBestMv: SMVUnitXY::new(0, 0), uiBestSadCost: 100 };
    FeatureSearchOne(&search_in(0), &st, &tab, &enc, le, &refp, lr, 0, u32::MAX, &mut out);
    assert_eq!(out.uiBestSadCost, 100);
    let mut out = SFeatureSearchOut { sBestMv: SMVUnitXY::new(0, 0), uiBestSadCost: 121 };
    FeatureSearchOne(&search_in(0), &st, &tab, &enc, le, &refp, lr, 0, u32::MAX, &mut out);
    assert_eq!(out.uiBestSadCost, 120);
    assert_eq!(out.sBestMv, SMVUnitXY::new(3, 2));
}

#[test]
fn full_feature_search_replaces_only_a_worse_result() {
    let (enc, le) = padded_plane(texture);
    let (refp, lr) = padded_plane(|x, y| texture(x - 3, y - 2));
    let table = vec![0u16; 512];
    let tab = MvdCostCursor::new(&table, 256);
    let st = storage_with_group(&[(20, 24), (44, 40)]);
    let mut me = SWelsME::default();
    me.uiBlockSize = BLOCK_8x8 as u8;
    me.iCurMeBlockPixX = 8;
    me.iCurMeBlockPixY = 8;
    me.uiSadCost = 5000;
    MotionEstimateFeatureFullSearch(search_in(0), &st, &tab, &enc, le, &refp, lr, u32::MAX, &mut me);
    assert_eq!(me.sMv, SMVUnitXY::new(3, 2));
    assert_eq!(me.uiSadCost, 0);
    let before = me;
    MotionEstimateFeatureFullSearch(search_in(0), &st, &tab, &enc, le, &refp, lr, u32::MAX, &mut me);
    assert_eq!(me.sMv, before.sMv);
    assert_eq!(me.uiSadCost, before.uiSadCost);
}

#[test]
fn set_feature_search_in_places_the_window_and_the_offsets() {
    let (enc, le) = padded_plane(texture);
    let mut funcs = SWelsFuncPtrList::default();
    WelsInitMeFunc(&mut funcs, 0, true);
    let mut me = SWelsME::default();
    me.uiBlockSize = BLOCK_8x8 as u8;
    me.iCurMeBlockPixX = 8;
    me.iCurMeBlockPixY = 8;
    me.uiSadCostThreshold = 500;
    me.sMvp = SMVUnitXY::new(4, -4);
    let st = SScreenBlockFeatureStorage::for_frame(32, 32, true, 0);
    let mut fin = SFeatureSearchIn::default();
    let ok = SetFeatureSearchIn(
        &funcs.sMeFuncs,
        &sdf8(),
        &me,
        SMVUnitXY::new(-8, -8),
        SMVUnitXY::new(8, 8),
        Some(&st),
        &enc,
        le,
        &mut fin,
    );
    assert!(ok);
    let mut sum = 0;
    for y in 8..16 {
        for x in 8..16 {
            sum += texture(x, y);
        }
    }
    assert_eq!(fin.iFeatureOfCurrent, sum);
    assert_eq!(fin.pSad, Some(PSampleSadSatdCostFunc::Sad8x8));
    assert_eq!(fin.uiSadCostThresh, 500);
    assert_eq!((fin.iCurPixX, fin.iCurPixY, fin.iCurPixXQpel, fin.iCurPixYQpel), (8, 8, 32, 32));
    assert_eq!((fin.iMvdOffsetX, fin.iMvdOffsetY), (-36, -28));
    assert_eq!((fin.iMinQpelX, fin.iMinQpelY, fin.iMaxQpelX, fin.iMaxQpelY), (0, 0, 64, 64));
    // Without a feature hash the window stays unset and the search cannot run.
    let mut fin = SFeatureSearchIn::default();
    let ok = SetFeatureSearchIn(
        &funcs.sMeFuncs,
        &sdf8(),
        &me,
        SMVUnitXY::new(-8, -8),
        SMVUnitXY::new(8, 8),
        None,
        &enc,
        le,
        &mut fin,
    );
    assert!(!ok);
    assert_eq!(fin.iFeatureOfCurrent, sum);
    assert_eq!((fin.iMinQpelX, fin.iMaxQpelX, fin.iMvdOffsetX), (0, 0, 0));
}

#[test]
fn diamond_cross_feature_search_finds_what_the_walks_miss() {
    let (enc, le) = padded_plane(noise);
    let (refp, lr) = padded_plane(|x, y| noise(x - 5, y - 6));
    let table = vec![0u16; 512];
    let tab = MvdCostCursor::new(&table, 256);
    let mut funcs = SWelsFuncPtrList::default();
    WelsInitMeFunc(&mut funcs, 0, true);
    let min = SMVUnitXY::new(-8, -8);
    let max = SMVUnitXY::new(8, 8);
    // The block's feature is the sum of its samples: file (13, 14) under it.
    let mut feature = 0usize;
    for y in 8..16 {
        for x in 8..16 {
            feature += noise(x, y).clamp(0, 255) as usize;
        }
    }
    let mut st = SScreenBlockFeatureStorage::for_frame(32, 32, true, 0);
    st.pTimesOfFeatureValue[feature] = 1;
    st.pLocationOfFeature[feature] = 0;
    st.pLocationPointer[0] = 52;
    st.pLocationPointer[1] = 56;
    st.uiSadCostThreshold[BLOCK_8x8] = 0;
    let mut me = SWelsME::default();
    me.uiBlockSize = BLOCK_8x8 as u8;
    me.iCurMeBlockPixX = 8;
    me.iCurMeBlockPixY = 8;
    me.uiSadCost = 100000;
    let mut walked = me;
    WelsDiamondCrossSearch(&funcs.sMeFuncs, &sdf8(), &mut walked, min, max, &tab, &enc, le, &refp, lr, Some(&st.uiSadCostThreshold));
    assert!(walked.uiSadCost > 0);
    let mut cost_down = 10u32;
    WelsDiamondCrossFeatureSearch(
        &funcs.sMeFuncs,
        &sdf8(),
        &mut me,
        min,
        max,
        &tab,
        &enc,
        le,
        &refp,
        lr,
        Some(&st),
        &mut cost_down,
    );
    assert_eq!(me.sMv, SMVUnitXY::new(5, 6));
    assert_eq!(me.uiSadCost, 0);
    assert_eq!(cost_down, 10u32.wrapping_add(walked.uiSadCost));
}
