use lib::mb::SMVUnitXY;
use lib::svc_motion_estimate::{
    sample_sad, CheckDirectionalMv, LineFullSearch_c, PSampleSadSatdCostFunc, SPlaneLayout,
    SSampleDealingFunc, WelsDiamondSearch, BLOCK_16x16, BLOCK_8x8, PLineFullSearchFunc, SMeFuncs,
    WelsDiamondCrossSearch, WelsMotionCrossSearch, WelsMotionEstimateInitialPoint, PCheckDirectionalMv,
};
use lib::svc_motion_estimate::{
    CalcFMESwitchFlag, CheckInRangeCloseOpen, CheckMvInRange, CountFMECostDown,
    InitializeHashforFeature_c, MvdCostCursor, PSearchMethodFunc, SFeatureSearchOut,
    SFeatureSearchPreparation, SWelsME, SaveFeatureSearchOut, SetMeMethod,
    SetMvWithinIntegerMvRange, SumOf16x16BlockOfFrame_c, SumOf16x16SingleBlock_c,
    SumOf8x8BlockOfFrame_c, SumOf8x8SingleBlock_c, UpdateFMEGoodFrameCount, UpdateFMESwitch,
    UpdateFMESwitchNull, UpdateMeResults, MeEndIntepelSearch, WelsMeSadCostSelect, BASE_MV_MB_NMB, CAMERA_MVD_RANGE,
    CAMERA_MV_RANGE, CAMERA_STARTMV_RANGE, COST_MVD, EXPANDED_MVD_RANGE, EXPANDED_MV_RANGE,
    FMESWITCH_DEFAULT_GOODFRAME_NUM, FMESWITCH_GOODFRAMECOUNT_MAX,
    FMESWITCH_MBAVERCOSTSAVING_THRESHOLD, ITERATIVE_TIMES, ME_CROSS, ME_DIA, ME_DIA_CROSS,
    ME_DIA_CROSS_FME, ME_FME, ME_FULL, QStepx16ByQp,
};

#[test]
fn test_constants_and_tables() {
    assert_eq!(CAMERA_STARTMV_RANGE, 64);
    assert_eq!(ITERATIVE_TIMES, 16);
    assert_eq!(CAMERA_MV_RANGE, 80);
    assert_eq!(CAMERA_MVD_RANGE, 162);
    assert_eq!(BASE_MV_MB_NMB, 9);
    assert_eq!(EXPANDED_MV_RANGE, 504);
    assert_eq!(EXPANDED_MVD_RANGE, 1010);
    assert_eq!(QStepx16ByQp[0], 10);
    assert_eq!(QStepx16ByQp[51], 3584);
}

#[test]
fn test_mv_range_checks() {
    let mv_min = SMVUnitXY::new(-80, -80);
    let mv_max = SMVUnitXY::new(80, 80);

    assert!(CheckMvInRange(SMVUnitXY::new(0, 0), mv_min, mv_max));
    assert!(CheckMvInRange(SMVUnitXY::new(-80, 79), mv_min, mv_max));
    assert!(!CheckMvInRange(SMVUnitXY::new(80, 0), mv_min, mv_max));
    assert!(!CheckMvInRange(SMVUnitXY::new(-81, 0), mv_min, mv_max));
}

#[test]
fn test_cost_mvd_computation() {
    let table_data = [10u16, 20, 30, 40, 50, 60, 70, 80];
    let cost = COST_MVD(&MvdCostCursor::new(&table_data, 0), 2, 5);
    assert_eq!(cost, 30 + 60);
}

#[test]
fn test_single_block_sums() {
    let buf8 = [1u8; 64];
    assert_eq!(SumOf8x8SingleBlock_c(&buf8, 8), 64);

    let buf16 = [2u8; 256];
    assert_eq!(SumOf16x16SingleBlock_c(&buf16, 16), 512);
}

#[test]
fn test_me_sad_cost_select() {
    let sad_costs = [100i32, 50, 120, 80];
    let mvd_cost_table = vec![0u16; 512];
    let mut best_cost = 200i32;
    let mut ix = 0i32;
    let mut iy = 0i32;

    let stop = WelsMeSadCostSelect(
        &sad_costs,
        &MvdCostCursor::new(&mvd_cost_table, 256),
        &mut best_cost,
        0,
        0,
        &mut ix,
        &mut iy,
    );
    assert!(!stop);
    assert_eq!(best_cost, 50);
    assert_eq!(ix, 0);
    assert_eq!(iy, -1);
}

#[test]
fn feature_search_preparation_sizes_and_flags_match_the_cpp() {
    let prep = SFeatureSearchPreparation::new(320, 192, 0x0307);
    assert_eq!(prep.pFeatureOfBlock.len(), 312 * 184);
    assert_eq!(prep.uiFeatureStrategyIndex, 0);
    assert!(prep.bFMESwitchFlag);
    assert_eq!(prep.uiFMEGoodFrameCount, FMESWITCH_DEFAULT_GOODFRAME_NUM);
    assert_eq!(prep.uiFMEGoodFrameCount, 2);
    assert_eq!(prep.iHighFreMbCount, 0);
    // 16x16 FME instead: margin 16.
    let prep16 = SFeatureSearchPreparation::new(320, 192, 0x0703);
    assert_eq!(prep16.pFeatureOfBlock.len(), 304 * 176);
}

#[test]
fn test_fme_switch_flag() {
    assert!(CalcFMESwitchFlag(2, 0, 40, false));
    assert!(!CalcFMESwitchFlag(0, 0, 40, false));
    assert!(CalcFMESwitchFlag(0, 0, 10, true));
}

#[test]
fn set_me_method_aims_the_slot_at_the_named_family() {
    let mut slot: Option<PSearchMethodFunc> = None;

    assert!(SetMeMethod(ME_DIA, &mut slot));
    assert_eq!(slot, Some(PSearchMethodFunc::WelsDiamondSearch));
    assert!(SetMeMethod(ME_CROSS, &mut slot));
    assert_eq!(slot, Some(PSearchMethodFunc::WelsMotionCrossSearch));
    assert!(SetMeMethod(ME_DIA_CROSS, &mut slot));
    assert_eq!(slot, Some(PSearchMethodFunc::WelsDiamondCrossSearch));
    assert!(SetMeMethod(ME_DIA_CROSS_FME, &mut slot));
    assert_eq!(slot, Some(PSearchMethodFunc::WelsDiamondCrossFeatureSearch));

    // The two `false` cases: `ME_FULL`, and anything else. Both still fill
    // the slot with the diamond search.
    slot = None;
    assert!(!SetMeMethod(ME_FULL, &mut slot));
    assert_eq!(slot, Some(PSearchMethodFunc::WelsDiamondSearch));
    slot = None;
    assert!(!SetMeMethod(ME_FME, &mut slot));
    assert_eq!(slot, Some(PSearchMethodFunc::WelsDiamondSearch));
}

#[test]
fn test_fme_noop_callback() {
    let mut prep = Some(SFeatureSearchPreparation::new(64, 48, 0x0307));
    UpdateFMESwitchNull(&mut prep);
    assert_eq!(prep.unwrap().uiFMEGoodFrameCount, 2);
}

#[test]
fn update_fme_good_frame_count_saturates_at_both_ends() {
    let step = |cost: u32, from: u8| {
        let mut n = from;
        UpdateFMEGoodFrameCount(cost, &mut n);
        n
    };
    // strictly above the threshold: up, and stuck at the maximum
    assert_eq!(step(3, 2), 3);
    assert_eq!(step(3, FMESWITCH_GOODFRAMECOUNT_MAX), FMESWITCH_GOODFRAMECOUNT_MAX);
    assert_eq!(step(u32::MAX, 4), 5);
    // at or below it: down, and stuck at zero
    assert_eq!(step(FMESWITCH_MBAVERCOSTSAVING_THRESHOLD, 2), 1);
    assert_eq!(step(0, 1), 0);
    assert_eq!(step(0, 0), 0);
}

fn prep_with_count(n: u8) -> Option<SFeatureSearchPreparation> {
    let mut prep = SFeatureSearchPreparation::new(64, 48, 0x0307);
    prep.uiFMEGoodFrameCount = n;
    Some(prep)
}

#[test]
fn update_fme_switch_sums_the_slices_and_steps_the_count() {
    // 12 macroblocks; 20 + 25 = 45; 45 / 12 = 3 > 2, so the count goes up.
    let mut prep = prep_with_count(2);
    UpdateFMESwitch(&[20, 25], 2, 4, 3, &mut prep);
    assert_eq!(prep.as_ref().unwrap().uiFMEGoodFrameCount, 3);

    // 12 + 12 = 24; 24 / 12 = 2, which is *not* `> 2` — the count goes down.
    let mut prep = prep_with_count(2);
    UpdateFMESwitch(&[12, 12], 2, 4, 3, &mut prep);
    assert_eq!(prep.as_ref().unwrap().uiFMEGoodFrameCount, 1);

    // The slice count is the bound, not the list's length: a third slice the
    // frame has not coded is not summed. 20 + 25 = 45 again.
    let mut prep = prep_with_count(2);
    UpdateFMESwitch(&[20, 25, 1000], 2, 4, 3, &mut prep);
    assert_eq!(prep.as_ref().unwrap().uiFMEGoodFrameCount, 3);
}

#[test]
fn count_fme_cost_down_wraps_and_stops_at_the_slice_count() {
    assert_eq!(CountFMECostDown(&[u32::MAX, 2], 2), 1);
    assert_eq!(CountFMECostDown(&[5, 6, 7], 2), 11);
    assert_eq!(CountFMECostDown(&[5, 6], 9), 11);
    assert_eq!(CountFMECostDown(&[5, 6], -1), 0);
}

#[test]
fn in_range_checks_are_close_open() {
    assert!(CheckInRangeCloseOpen(0, 0, 3));
    assert!(!CheckInRangeCloseOpen(3, 0, 3));
    assert!(!CheckInRangeCloseOpen(-1, 0, 3));
}

#[test]
fn me_sad_cost_select_keeps_the_best_when_nothing_beats_it() {
    let sad_costs = [100i32, 50, 120, 80];
    let table = vec![0u16; 512];
    let mut best_cost = 40i32;
    let mut ix = 7i32;
    let mut iy = 7i32;
    let stop = WelsMeSadCostSelect(&sad_costs, &MvdCostCursor::new(&table, 256), &mut best_cost, 0, 0, &mut ix, &mut iy);
    assert!(stop);
    assert_eq!(best_cost, 40);
    assert_eq!((ix, iy), (7, 7));
}

#[test]
fn me_results_and_feature_search_out_store_what_they_get() {
    let mut me = SWelsME::default();
    UpdateMeResults(SMVUnitXY::new(3, -2), 77, &mut me);
    assert_eq!(me.sMv, SMVUnitXY::new(3, -2));
    assert_eq!(me.uiSadCost, 77);
    let mut out = SFeatureSearchOut::default();
    SaveFeatureSearchOut(SMVUnitXY::new(1, 1), 9, &mut out);
    assert_eq!(out.sBestMv, SMVUnitXY::new(1, 1));
    assert_eq!(out.uiBestSadCost, 9);
}

#[test]
fn block_sums_of_a_frame_fill_features_and_histogram() {
    // A 9x9 reference with stride 9: sample (x, y) = x + y.
    let mut pic = vec![0u8; 81];
    for y in 0..9 {
        for x in 0..9 {
            pic[y * 9 + x] = (x + y) as u8;
        }
    }
    let mut features = vec![0u16; 4];
    let mut times = vec![0u32; 1 << 16];
    SumOf8x8BlockOfFrame_c(&pic, 2, 2, 9, &mut features, &mut times);
    // The 8x8 sum at (0, 0) is 8 * 28 + 8 * 28 = 448, one more row or
    // column adds 64.
    assert_eq!(features, vec![448, 512, 512, 576]);
    assert_eq!(times[448], 1);
    assert_eq!(times[512], 2);
    assert_eq!(times[576], 1);

    let flat = vec![1u8; 17 * 17];
    let mut f16 = vec![0u16; 4];
    let mut t16 = vec![0u32; 1 << 16];
    SumOf16x16BlockOfFrame_c(&flat, 2, 2, 17, &mut f16, &mut t16);
    assert_eq!(f16, vec![256, 256, 256, 256]);
    assert_eq!(t16[256], 4);
}

#[test]
fn hash_layout_gives_each_value_two_slots_per_block() {
    let times = [2u32, 0, 3];
    let mut loc = [0usize; 3];
    let mut cursor = [0usize; 3];
    InitializeHashforFeature_c(&times, 3, &mut loc, &mut cursor);
    assert_eq!(loc, [0, 4, 4]);
    assert_eq!(cursor, [0, 4, 4]);
}

#[test]
fn mv_range_within_integer_range_clips_to_the_picture() {
    // Block at MB (0, 0) of a 4x3 MB picture, range 16: left and top are
    // bounded by the picture edge plus the margin.
    let mut mv_min = SMVUnitXY::new(0, 0);
    let mut mv_max = SMVUnitXY::new(0, 0);
    SetMvWithinIntegerMvRange(4, 3, 0, 0, 16, &mut mv_min, &mut mv_max);
    assert_eq!(mv_min, SMVUnitXY::new(-13, -13));
    assert_eq!(mv_max, SMVUnitXY::new(16, 16));
    // In the middle of a large picture the range itself bounds both sides.
    SetMvWithinIntegerMvRange(40, 30, 20, 15, 16, &mut mv_min, &mut mv_max);
    assert_eq!(mv_min, SMVUnitXY::new(-16, -16));
    assert_eq!(mv_max, SMVUnitXY::new(16, 16));
}

#[test]
fn ending_the_integer_search_moves_to_quarter_samples() {
    let mut me = SWelsME::default();
    me.sMv = SMVUnitXY::new(-3, 5);
    me.uiSadCost = 123;
    MeEndIntepelSearch(&mut me);
    assert_eq!(me.sMv, SMVUnitXY::new(-12, 20));
    assert_eq!(me.uiSatdCost, 123);
}

/// An 80x80 buffer whose picture origin is (24, 24), filled by `f(x, y)`
/// in picture coordinates.
fn plane(f: impl Fn(i32, i32) -> i32) -> (Vec<u8>, SPlaneLayout) {
    let mut v = vec![0u8; 80 * 80];
    for by in 0..80 {
        for bx in 0..80 {
            v[by * 80 + bx] = f(bx as i32 - 24, by as i32 - 24).clamp(0, 255) as u8;
        }
    }
    (v, SPlaneLayout { iOrigin: 24 * 80 + 24, iStride: 80 })
}

fn sdf8() -> SSampleDealingFunc {
    let mut f = SSampleDealingFunc { pfSampleSad: [None; 7], pfSample4Sad: [None; 7] };
    f.pfSampleSad[BLOCK_8x8] = Some(PSampleSadSatdCostFunc::Sad8x8);
    f
}

fn me_at(x: i32, y: i32, cost: u32) -> SWelsME {
    let mut me = SWelsME::default();
    me.uiBlockSize = BLOCK_8x8 as u8;
    me.iCurMeBlockPixX = x;
    me.iCurMeBlockPixY = y;
    me.uiSadCost = cost;
    me
}

#[test]
fn sad_kernels_sum_absolute_differences() {
    let a = [10u8; 64];
    let b = [7u8; 64];
    assert_eq!(sample_sad(PSampleSadSatdCostFunc::Sad4x4, &a, 0, 8, &b, 0, 8), 48);
    assert_eq!(sample_sad(PSampleSadSatdCostFunc::Sad8x8, &b, 0, 8, &a, 0, 8), 192);
    let mut c = [0u8; 64];
    c[9] = 255;
    assert_eq!(sample_sad(PSampleSadSatdCostFunc::Sad4x4, &c, 0, 8, &[0u8; 64], 0, 8), 255);
    // The 4x4 block at offset 2 misses the sample.
    assert_eq!(sample_sad(PSampleSadSatdCostFunc::Sad4x4, &c, 2, 8, &[0u8; 64], 0, 8), 0);
}

#[test]
fn the_directional_vector_is_taken_when_it_is_cheaper() {
    let (enc, le) = plane(|x, y| (x * 7 + y * 13) & 0xff);
    let (refp, lr) = plane(|x, y| ((x - 2) * 7 + y * 13) & 0xff);
    let table = vec![0u16; 512];
    let cursor = MvdCostCursor::new(&table, 256);
    let mut me = me_at(8, 8, 1000);
    me.sDirectionalMv = SMVUnitXY::new(2, 0);
    let mut best = -1;
    let min = SMVUnitXY::new(-16, -16);
    let max = SMVUnitXY::new(16, 16);
    let sad = Some(PSampleSadSatdCostFunc::Sad8x8);
    assert!(CheckDirectionalMv(sad, &mut me, min, max, &cursor, &enc, le, &refp, lr, &mut best));
    assert_eq!(best, 0);
    // 16x16 blocks, zero vectors and vectors outside the window are not tried.
    let mut best = -1;
    me.uiBlockSize = BLOCK_16x16 as u8;
    assert!(!CheckDirectionalMv(sad, &mut me, min, max, &cursor, &enc, le, &refp, lr, &mut best));
    me.uiBlockSize = BLOCK_8x8 as u8;
    me.sDirectionalMv = SMVUnitXY::new(0, 0);
    assert!(!CheckDirectionalMv(sad, &mut me, min, max, &cursor, &enc, le, &refp, lr, &mut best));
    me.sDirectionalMv = SMVUnitXY::new(16, 0);
    assert!(!CheckDirectionalMv(sad, &mut me, min, max, &cursor, &enc, le, &refp, lr, &mut best));
    assert_eq!(best, -1);
}

#[test]
fn line_search_finds_the_displaced_row() {
    let (enc, le) = plane(|x, y| (x * 7 + y * 13) & 0xff);
    let (refp, lr) = plane(|x, y| (x * 7 + (y - 3) * 13) & 0xff);
    let table = vec![0u16; 512];
    let cursor = MvdCostCursor::new(&table, 256);
    let mut me = me_at(8, 8, 1000);
    LineFullSearch_c(&sdf8(), &mut me, &cursor, &enc, le, &refp, lr, -4, 5, true);
    assert_eq!(me.sMv, SMVUnitXY::new(0, 3));
    assert_eq!(me.uiSadCost, 0);
    // Nothing undercuts a zero cost: the result stays.
    let mut me = me_at(8, 8, 0);
    me.sMv = SMVUnitXY::new(9, 9);
    LineFullSearch_c(&sdf8(), &mut me, &cursor, &enc, le, &refp, lr, -4, 5, false);
    assert_eq!(me.sMv, SMVUnitXY::new(9, 9));
}

#[test]
fn diamond_search_walks_downhill() {
    // The reference is the picture moved by (2, 1): a displaced 8x8 block
    // differs from the source by 3(dx - 2) + 5(dy - 1) in every sample.
    let (enc, le) = plane(|x, y| 3 * x + 5 * y);
    let (refp, lr) = plane(|x, y| 3 * (x - 2) + 5 * (y - 1));
    let table = vec![0u16; 512];
    let cursor = MvdCostCursor::new(&table, 256);
    let mut me = me_at(8, 8, 704);
    let min = SMVUnitXY::new(-16, -16);
    let max = SMVUnitXY::new(16, 16);
    WelsDiamondSearch(&sdf8(), &mut me, min, max, &cursor, &enc, le, &refp, lr);
    // (0, 0) costs 704; the walk goes down twice (384, then 64) and stops.
    assert_eq!(me.sMv, SMVUnitXY::new(0, 2));
    assert_eq!(me.uiSadCost, 64);
    assert_eq!(me.uiSatdCost, 64);
    // A start outside the window spends every step in place.
    let mut me = me_at(8, 8, 704);
    me.sMv = SMVUnitXY::new(20, 0);
    WelsDiamondSearch(&sdf8(), &mut me, min, max, &cursor, &enc, le, &refp, lr);
    assert_eq!(me.sMv, SMVUnitXY::new(20, 0));
    assert_eq!(me.uiSadCost, 704);
}

fn me_funcs() -> SMeFuncs {
    SMeFuncs {
        pfCheckDirectionalMv: None,
        pfVerticalFullSearch: Some(PLineFullSearchFunc::LineFullSearch_c),
        pfHorizontalFullSearch: Some(PLineFullSearchFunc::LineFullSearch_c),
        pfCalculateSingleBlockFeature: [None, None],
    }
}

#[test]
fn cross_search_tries_the_row_when_the_column_is_not_enough() {
    let (enc, le) = plane(|x, y| (x * 7 + y * 13) & 0xff);
    let (refp, lr) = plane(|x, y| ((x - 3) * 7 + y * 13) & 0xff);
    let table = vec![0u16; 512];
    let cursor = MvdCostCursor::new(&table, 256);
    let min = SMVUnitXY::new(-8, -8);
    let max = SMVUnitXY::new(8, 8);
    let mut me = me_at(8, 8, 100000);
    me.uiSadCostThreshold = 0;
    WelsMotionCrossSearch(&me_funcs(), &sdf8(), &mut me, min, max, &cursor, &enc, le, &refp, lr);
    assert_eq!(me.sMv, SMVUnitXY::new(3, 0));
    assert_eq!(me.uiSadCost, 0);
    // A search already below its threshold after the column stops there.
    let mut me = me_at(8, 8, 100000);
    me.uiSadCostThreshold = u32::MAX;
    WelsMotionCrossSearch(&me_funcs(), &sdf8(), &mut me, min, max, &cursor, &enc, le, &refp, lr);
    assert_eq!(me.sMv.iMvX, 0);
    assert!(me.uiSadCost > 0);
    // Without line searches nothing changes.
    let none = SMeFuncs {
        pfCheckDirectionalMv: None,
        pfVerticalFullSearch: None,
        pfHorizontalFullSearch: None,
        pfCalculateSingleBlockFeature: [None, None],
    };
    let mut me = me_at(8, 8, 100000);
    WelsMotionCrossSearch(&none, &sdf8(), &mut me, min, max, &cursor, &enc, le, &refp, lr);
    assert_eq!(me.uiSadCost, 100000);
}

#[test]
fn diamond_cross_search_takes_the_reference_threshold() {
    let (enc, le) = plane(|x, y| 3 * x + 5 * y);
    let (refp, lr) = plane(|x, y| 3 * (x - 2) + 5 * (y - 1));
    let table = vec![0u16; 512];
    let cursor = MvdCostCursor::new(&table, 256);
    let min = SMVUnitXY::new(-16, -16);
    let max = SMVUnitXY::new(16, 16);
    let thresholds = [1000u32; 7];
    let mut me = me_at(8, 8, 704);
    WelsDiamondCrossSearch(&me_funcs(), &sdf8(), &mut me, min, max, &cursor, &enc, le, &refp, lr, Some(&thresholds));
    assert_eq!(me.sMv, SMVUnitXY::new(0, 2));
    assert_eq!(me.uiSadCost, 64);
    assert_eq!(me.uiSadCostThreshold, 1000);
    // With a zero threshold the cross search runs too, and finds nothing
    // cheaper on the lines through the block.
    let mut me = me_at(8, 8, 704);
    WelsDiamondCrossSearch(&me_funcs(), &sdf8(), &mut me, min, max, &cursor, &enc, le, &refp, lr, None);
    assert_eq!(me.sMv, SMVUnitXY::new(0, 2));
    assert_eq!(me.uiSadCost, 64);
}

#[test]
fn initial_point_takes_the_cheapest_start() {
    let (enc, le) = plane(|x, y| (x * 7 + y * 13) & 0xff);
    let (refp, lr) = plane(|x, y| ((x - 3) * 7 + (y - 2) * 13) & 0xff);
    let table = vec![0u16; 512];
    let cursor = MvdCostCursor::new(&table, 256);
    let min = SMVUnitXY::new(-8, -8);
    let max = SMVUnitXY::new(8, 8);
    // The candidate (12, 8) in quarter samples starts at (3, 2), an exact match.
    let mvcs = [SMVUnitXY::new(12, 8), SMVUnitXY::new(0, 0)];
    let mut me = me_at(8, 8, 100000);
    me.uSadPredISatd.uiValue = 1;
    let done = WelsMotionEstimateInitialPoint(&me_funcs(), &sdf8(), &mut me, &mvcs, 2, min, max, &cursor, &enc, le, &refp, lr);
    assert!(done);
    assert_eq!(me.sMv, SMVUnitXY::new(12, 8));
    assert_eq!(me.uiSadCost, 0);
    assert_eq!(me.uiSatdCost, 0);
    // Without room under the prediction the whole-sample search goes on.
    let mut me = me_at(8, 8, 100000);
    me.uSadPredISatd.uiValue = 0;
    let done = WelsMotionEstimateInitialPoint(&me_funcs(), &sdf8(), &mut me, &mvcs, 2, min, max, &cursor, &enc, le, &refp, lr);
    assert!(!done);
    assert_eq!(me.sMv, SMVUnitXY::new(3, 2));
    assert_eq!(me.uiSadCost, 0);
    // Only the first candidates count; the predictor start stays.
    let mut me = me_at(8, 8, 100000);
    let done = WelsMotionEstimateInitialPoint(&me_funcs(), &sdf8(), &mut me, &mvcs, 0, min, max, &cursor, &enc, le, &refp, lr);
    assert!(!done);
    assert_eq!(me.sMv, SMVUnitXY::new(0, 0));
    assert!(me.uiSadCost > 0);
}

#[test]
fn initial_point_clamps_the_starts_to_the_window() {
    let (enc, le) = plane(|x, y| (x * 7 + y * 13) & 0xff);
    let (refp, lr) = plane(|x, y| (x * 7 + y * 13) & 0xff);
    let table = vec![0u16; 512];
    let cursor = MvdCostCursor::new(&table, 256);
    let min = SMVUnitXY::new(-8, -8);
    let max = SMVUnitXY::new(8, 8);
    // A predictor far outside the window starts at its corner: (2 + 100) >> 2 = 25
    // clamps to 8, (2 - 100) >> 2 = -25 clamps to -8.
    let mut me = me_at(8, 8, 100000);
    me.sMvp = SMVUnitXY::new(100, -100);
    WelsMotionEstimateInitialPoint(&me_funcs(), &sdf8(), &mut me, &[], 0, min, max, &cursor, &enc, le, &refp, lr);
    assert_eq!(me.sMv, SMVUnitXY::new(8, -8));
    // A quarter-sample predictor of 6 rounds to 2, one of -6 to -1.
    let mut me = me_at(8, 8, 100000);
    me.sMvp = SMVUnitXY::new(6, -6);
    WelsMotionEstimateInitialPoint(&me_funcs(), &sdf8(), &mut me, &[], 0, min, max, &cursor, &enc, le, &refp, lr);
    assert_eq!(me.sMv, SMVUnitXY::new(2, -1));
}

#[test]
fn initial_point_takes_a_cheaper_directional_vector() {
    let (enc, le) = plane(|x, y| (x * 7 + y * 13) & 0xff);
    let (refp, lr) = plane(|x, y| ((x - 3) * 7 + (y - 2) * 13) & 0xff);
    let table = vec![0u16; 512];
    let cursor = MvdCostCursor::new(&table, 256);
    let min = SMVUnitXY::new(-8, -8);
    let max = SMVUnitXY::new(8, 8);
    let mut funcs = me_funcs();
    funcs.pfCheckDirectionalMv = Some(PCheckDirectionalMv::CheckDirectionalMv);
    let mut me = me_at(8, 8, 100000);
    me.sDirectionalMv = SMVUnitXY::new(3, 2);
    let done = WelsMotionEstimateInitialPoint(&funcs, &sdf8(), &mut me, &[], 0, min, max, &cursor, &enc, le, &refp, lr);
    assert!(!done);
    assert_eq!(me.sMv, SMVUnitXY::new(3, 2));
    assert_eq!(me.uiSadCost, 0);
    // The check that never takes it leaves the predictor start.
    funcs.pfCheckDirectionalMv = Some(PCheckDirectionalMv::CheckDirectionalMvFalse);
    let mut me = me_at(8, 8, 100000);
    me.sDirectionalMv = SMVUnitXY::new(3, 2);
    WelsMotionEstimateInitialPoint(&funcs, &sdf8(), &mut me, &[], 0, min, max, &cursor, &enc, le, &refp, lr);
    assert_eq!(me.sMv, SMVUnitXY::new(0, 0));
}
