use lib::wels_encoder_ext::{
    CheckLevelSetting, CheckProfileSetting, CheckReferenceNumSetting, ForceCodingIDR,
    SEncCtxIdrState, SEncoderStatistics, SSpatialLayerInternal, SWelsSvcCodingParam,
    AUTO_REF_PIC_COUNT, CAMERA_VIDEO_REAL_TIME, LEVEL_UNKNOWN, PRO_BASELINE, PRO_HIGH,
    PRO_SCALABLE_BASELINE, PRO_SCALABLE_HIGH, PRO_UNKNOWN, PRO_EXTENDED, SCREEN_CONTENT_REAL_TIME,
    WELS_CLIP3, WELS_LOG2, WELS_MAX, WELS_MIN, WELS_POWER2_IF, WelsEncoderApplyLTR, SLTRConfig,
};
use lib::wels_encoder_ext::{EVideoFrameType, UpdateLayerStatistics, UpdateStatistics, WelsEncoderParamAdjust, VIDEO_CODING_LAYER};
use lib::svc_encode_slice::{SFrameBSInfo, SLayerBSInfo};
use lib::svc_encode_slice::{SliceMode, ENC_RETURN_UNSUPPORTED_PARA};

#[test]
fn integer_helpers() {
    assert_eq!(WELS_LOG2(0), 0);
    assert_eq!(WELS_LOG2(1), 0);
    assert_eq!(WELS_LOG2(1024), 10);
    assert_eq!(WELS_LOG2(1023), 9);
    assert_eq!(WELS_CLIP3(70, 0, 51), 51);
    assert_eq!(WELS_MAX(-3, 2), 2);
    assert_eq!(WELS_MIN(-3, 2), -3);
    assert!(WELS_POWER2_IF(1));
    assert!(WELS_POWER2_IF(1 << 31));
    assert!(!WELS_POWER2_IF(0));
    assert!(!WELS_POWER2_IF(6));
}

#[test]
fn profile_check_keeps_what_the_layer_kind_allows() {
    let mut p = SWelsSvcCodingParam::default();
    CheckProfileSetting(&mut p, 0, PRO_HIGH);
    assert_eq!(p.sSpatialLayers[0].uiProfileIdc, PRO_HIGH);
    CheckProfileSetting(&mut p, 0, PRO_EXTENDED);
    assert_eq!(p.sSpatialLayers[0].uiProfileIdc, PRO_UNKNOWN);
    // An SVC enhancement layer takes the scalable profiles only.
    CheckProfileSetting(&mut p, 1, PRO_SCALABLE_HIGH);
    assert_eq!(p.sSpatialLayers[1].uiProfileIdc, PRO_SCALABLE_HIGH);
    CheckProfileSetting(&mut p, 1, PRO_BASELINE);
    assert_eq!(p.sSpatialLayers[1].uiProfileIdc, PRO_SCALABLE_BASELINE);
    // A simulcast layer is AVC.
    p.bSimulcastAVC = true;
    CheckProfileSetting(&mut p, 1, PRO_BASELINE);
    assert_eq!(p.sSpatialLayers[1].uiProfileIdc, PRO_BASELINE);
}

#[test]
fn level_check_accepts_known_levels_only() {
    let mut p = SWelsSvcCodingParam::default();
    CheckLevelSetting(&mut p, 2, 31);
    assert_eq!(p.sSpatialLayers[2].uiLevelIdc, 31);
    CheckLevelSetting(&mut p, 2, 33);
    assert_eq!(p.sSpatialLayers[2].uiLevelIdc, LEVEL_UNKNOWN);
    CheckLevelSetting(&mut p, 2, 9);
    assert_eq!(p.sSpatialLayers[2].uiLevelIdc, 9);
}

#[test]
fn reference_count_check_depends_on_usage() {
    let mut p = SWelsSvcCodingParam::default();
    p.iUsageType = CAMERA_VIDEO_REAL_TIME;
    CheckReferenceNumSetting(&mut p, 6);
    assert_eq!(p.iNumRefFrame, 6);
    CheckReferenceNumSetting(&mut p, 7);
    assert_eq!(p.iNumRefFrame, AUTO_REF_PIC_COUNT);
    CheckReferenceNumSetting(&mut p, 0);
    assert_eq!(p.iNumRefFrame, AUTO_REF_PIC_COUNT);
    p.iUsageType = SCREEN_CONTENT_REAL_TIME;
    CheckReferenceNumSetting(&mut p, 8);
    assert_eq!(p.iNumRefFrame, 8);
}

fn idr_state() -> SEncCtxIdrState {
    let mut l = SSpatialLayerInternal::default();
    l.iCodingIndex = 5;
    l.iFrameIndex = 5;
    l.iFrameNum = 3;
    l.iPOC = 10;
    SEncCtxIdrState {
        sDependencyLayers: [l; 4],
        sEncoderStatistics: [SEncoderStatistics::default(); 4],
        bCheckWindowStatusRefreshFlag: true,
    }
}

#[test]
fn forcing_an_idr_restarts_every_layer() {
    let mut p = SWelsSvcCodingParam::default();
    p.iSpatialLayerNum = 2;
    let mut ctx = idr_state();
    assert_eq!(ForceCodingIDR(Some(&p), &mut ctx, 1), 0);
    for d in 0..2 {
        let l = ctx.sDependencyLayers[d];
        assert_eq!((l.iCodingIndex, l.iFrameIndex, l.iFrameNum, l.iPOC), (0, 0, 0, 0));
        assert!(l.bEncCurFrmAsIdrFlag);
    }
    assert_eq!(ctx.sDependencyLayers[2].iPOC, 10);
    assert_eq!(ctx.sEncoderStatistics[0].uiIDRReqNum, 2);
    assert!(!ctx.bCheckWindowStatusRefreshFlag);
}

#[test]
fn forcing_an_idr_in_simulcast_restarts_one_layer() {
    let mut p = SWelsSvcCodingParam::default();
    p.iSpatialLayerNum = 3;
    p.bSimulcastAVC = true;
    let mut ctx = idr_state();
    assert_eq!(ForceCodingIDR(Some(&p), &mut ctx, 2), 0);
    assert_eq!(ctx.sDependencyLayers[2].iPOC, 0);
    assert_eq!(ctx.sDependencyLayers[1].iPOC, 10);
    assert_eq!(ctx.sEncoderStatistics[2].uiIDRReqNum, 1);
    assert_eq!(ctx.sEncoderStatistics[0].uiIDRReqNum, 0);
    // Without parameters nothing happens.
    let mut ctx = idr_state();
    assert_eq!(ForceCodingIDR(None, &mut ctx, 0), 1);
    assert!(ctx.bCheckWindowStatusRefreshFlag);
}

#[test]
fn ltr_request_sets_the_counts_and_raises_the_reference_frames() {
    let mut p = SWelsSvcCodingParam::default();
    p.iUsageType = CAMERA_VIDEO_REAL_TIME;
    p.iTemporalLayerNum = 4;
    p.iMaxNumRefFrame = 1;
    p.iNumRefFrame = 1;
    // Camera, GOP of 8: two long-term references plus half the GOP, 6.
    let r = WelsEncoderApplyLTR(&p, &SLTRConfig { bEnableLongTermReference: true, iLTRRefNum: 7 });
    assert!(r.bEnableLongTermReference);
    assert_eq!(r.iLTRRefNum, 2);
    assert_eq!((r.iMaxNumRefFrame, r.iNumRefFrame), (6, 6));
    // A single temporal layer needs one frame: larger counts stay.
    p.iTemporalLayerNum = 1;
    p.iMaxNumRefFrame = 3;
    p.iNumRefFrame = 3;
    let r = WelsEncoderApplyLTR(&p, &SLTRConfig { bEnableLongTermReference: false, iLTRRefNum: 5 });
    assert_eq!(r.iLTRRefNum, 0);
    assert_eq!((r.iMaxNumRefFrame, r.iNumRefFrame), (3, 3));
    // Screen content, GOP of 4: four long-term references plus log2(4).
    p.iUsageType = SCREEN_CONTENT_REAL_TIME;
    p.iTemporalLayerNum = 3;
    p.iMaxNumRefFrame = 1;
    p.iNumRefFrame = 1;
    let r = WelsEncoderApplyLTR(&p, &SLTRConfig { bEnableLongTermReference: true, iLTRRefNum: 0 });
    assert_eq!(r.iLTRRefNum, 4);
    assert_eq!((r.iMaxNumRefFrame, r.iNumRefFrame), (6, 6));
    let r = WelsEncoderApplyLTR(&p, &SLTRConfig { bEnableLongTermReference: false, iLTRRefNum: 0 });
    assert_eq!(r.iLTRRefNum, 0);
    assert_eq!((r.iMaxNumRefFrame, r.iNumRefFrame), (2, 2));
    assert_eq!(r.iTemporalLayerNum, 3);
}


fn running_param() -> SWelsSvcCodingParam {
    let mut p = SWelsSvcCodingParam::default();
    p.iUsageType = CAMERA_VIDEO_REAL_TIME;
    p.iSpatialLayerNum = 1;
    p.iTemporalLayerNum = 1;
    p.iMaxNumRefFrame = 4;
    p.iNumRefFrame = 1;
    p.iPicWidth = 320;
    p.iPicHeight = 192;
    p.sSpatialLayers[0].iVideoWidth = 320;
    p.sSpatialLayers[0].iVideoHeight = 192;
    p.sSpatialLayers[0].uiLevelIdc = 30;
    p.sSpatialLayers[0].iSpatialBitrate = 500_000;
    p.sDependencyLayers[0].iActualWidth = 320;
    p.sDependencyLayers[0].iActualHeight = 192;
    p.sDependencyLayers[0].iCodingIndex = 7;
    p
}

#[test]
fn param_adjust_refuses_another_usage_type() {
    let mut old = running_param();
    let mut new = running_param();
    new.iUsageType = SCREEN_CONTENT_REAL_TIME;
    let r = WelsEncoderParamAdjust(&mut old, &mut new, &[false; 4]);
    assert_eq!(r, (ENC_RETURN_UNSUPPORTED_PARA, false));
    assert_eq!(old.iUsageType, CAMERA_VIDEO_REAL_TIME);
}

#[test]
fn param_adjust_rebuilds_for_a_new_picture_size() {
    let mut old = running_param();
    let mut new = running_param();
    new.sSpatialLayers[0].iVideoWidth = 640;
    new.iNumRefFrame = 20;
    assert_eq!(WelsEncoderParamAdjust(&mut old, &mut new, &[false; 4]), (0, true));
    // A rebuild leaves both configurations as they were.
    assert_eq!(new.iNumRefFrame, 20);
    assert_eq!(old.sSpatialLayers[0].iVideoWidth, 320);
}

#[test]
fn param_adjust_rebuilds_for_new_frame_rates_slices_or_a_higher_level() {
    let mut old = running_param();
    let mut new = running_param();
    assert_eq!(WelsEncoderParamAdjust(&mut old, &mut new, &[true, false, false, false]), (0, true));
    let mut old = running_param();
    let mut new = running_param();
    new.sSpatialLayers[0].sSliceArgument.uiSliceMode = SliceMode::SM_FIXEDSLCNUM_SLICE;
    assert_eq!(WelsEncoderParamAdjust(&mut old, &mut new, &[false; 4]), (0, true));
    let mut old = running_param();
    let mut new = running_param();
    new.sSpatialLayers[0].uiLevelIdc = 31;
    assert_eq!(WelsEncoderParamAdjust(&mut old, &mut new, &[false; 4]), (0, true));
    let mut old = running_param();
    let mut new = running_param();
    new.iMaxNumRefFrame = 5;
    assert_eq!(WelsEncoderParamAdjust(&mut old, &mut new, &[false; 4]), (0, true));
}

#[test]
fn param_adjust_takes_up_small_changes_in_place() {
    let mut old = running_param();
    let mut new = running_param();
    new.sSpatialLayers[0].uiLevelIdc = 20; // a lower level is no reason to rebuild
    new.iNumRefFrame = 20;
    new.iLoopFilterDisableIdc = 9;
    new.iLoopFilterAlphaC0Offset = -9;
    new.iLoopFilterBetaOffset = 3;
    new.iTargetBitrate = 800_000;
    new.iTemporalLayerNum = 3;
    new.sSpatialLayers[0].iSpatialBitrate = 800_000;
    new.sDependencyLayers[0].iTemporalResolution = 2;
    new.sDependencyLayers[0].uiCodingIdx2TemporalId[1] = 2;
    // A layer the encoder does not use is left alone.
    new.sSpatialLayers[1].iSpatialBitrate = 1;
    assert_eq!(WelsEncoderParamAdjust(&mut old, &mut new, &[false; 4]), (0, false));
    assert_eq!(new.iNumRefFrame, 6);
    assert_eq!(new.iLoopFilterDisableIdc, 6);
    assert_eq!(new.iLoopFilterAlphaC0Offset, -6);
    assert_eq!(new.iLoopFilterBetaOffset, 3);
    assert_eq!(old.iNumRefFrame, 6);
    assert_eq!(old.iLoopFilterDisableIdc, 6);
    assert_eq!(old.iTargetBitrate, 800_000);
    assert_eq!(old.iTemporalLayerNum, 3);
    assert_eq!(old.sDependencyLayers[0].iCodingIndex, 0);
    assert_eq!(old.sDependencyLayers[0].iTemporalResolution, 2);
    assert_eq!(old.sDependencyLayers[0].uiCodingIdx2TemporalId[1], 2);
    assert_eq!(old.sSpatialLayers[0].iSpatialBitrate, 800_000);
    assert_eq!(old.sSpatialLayers[0].uiLevelIdc, 30);
    assert_eq!(old.sSpatialLayers[1].iSpatialBitrate, 0);
}

#[test]
fn statistics_count_frames_types_sizes_and_bytes() {
    let mut st = SEncoderStatistics::default();
    let n = UpdateLayerStatistics(&mut st, 320, 192, EVideoFrameType::videoFrameTypeIDR, 1500, false, 30);
    assert_eq!(n, 1);
    assert_eq!((st.uiWidth, st.uiHeight), (320, 192));
    assert_eq!(st.uiResolutionChangeTimes, 0);
    assert_eq!(st.uiInputFrameCount, 1);
    assert_eq!(st.uiIDRSentNum, 1);
    assert_eq!(st.uiAverageFrameQP, 30);
    assert_eq!(st.iTotalEncodedBytes, 1500);

    let n = UpdateLayerStatistics(&mut st, 320, 192, EVideoFrameType::videoFrameTypeSkip, 0, false, 31);
    assert_eq!(n, 1);
    assert_eq!(st.uiSkippedFrameCount, 1);
    assert_eq!(st.uiInputFrameCount, 2);

    let n = UpdateLayerStatistics(&mut st, 640, 384, EVideoFrameType::videoFrameTypeP, 700, true, 28);
    assert_eq!(n, 2);
    assert_eq!(st.uiResolutionChangeTimes, 1);
    assert_eq!((st.uiWidth, st.uiHeight), (640, 384));
    assert_eq!(st.uiLTRSentNum, 1);
    assert_eq!(st.uiIDRSentNum, 1);
    assert_eq!(st.iTotalEncodedBytes, 2200);
}

#[test]
fn param_adjust_to_the_running_parameters_needs_no_rebuild() {
    let mut old = running_param();
    let mut new = running_param();
    assert_eq!(WelsEncoderParamAdjust(&mut old, &mut new, &[false; 4]), (0, false));
    assert_eq!(old.iNumRefFrame, 1);
    assert_eq!(old.sDependencyLayers[0].iCodingIndex, 7);
}

#[test]
fn frame_statistics_take_each_layers_type_and_bytes_from_the_bitstream() {
    let mut p = running_param();
    p.iSpatialLayerNum = 2;
    p.sDependencyLayers[1].iActualWidth = 640;
    p.sDependencyLayers[1].iActualHeight = 384;
    let rec = SLayerBSInfo { uiTemporalId: 0, uiSpatialId: 0, uiQualityId: 0, uiLayerType: 0, iNalCount: 0 };
    let mut fbi = SFrameBSInfo {
        iLayerNum: 2,
        sLayerInfo: [rec; 128],
        eFrameType: EVideoFrameType::videoFrameTypeIDR,
        uiTimeStamp: 1234,
    };
    // A parameter-set record, then the coded data of spatial layer 0.
    fbi.sLayerInfo[0].iNalCount = 2;
    fbi.sLayerInfo[1].uiLayerType = VIDEO_CODING_LAYER;
    fbi.sLayerInfo[1].iNalCount = 2;
    let nal = vec![10, 20, 300, 400];
    let mut stats = [SEncoderStatistics::default(); 4];
    let mut last_ts = 0i64;
    let r = UpdateStatistics(&mut stats, &mut last_ts, &p, &fbi, &nal, false, &[30, 31, 0, 0]);
    assert_eq!(last_ts, 1234);
    assert_eq!(stats[0].iTotalEncodedBytes, 700);
    assert_eq!(stats[0].uiIDRSentNum, 1);
    assert_eq!(stats[0].uiSkippedFrameCount, 0);
    assert_eq!(stats[0].uiAverageFrameQP, 30);
    assert_eq!((stats[0].uiWidth, stats[0].uiHeight), (320, 192));
    // Layer 1 has no coded data in this frame: a skipped frame of no bytes.
    assert_eq!(stats[1].uiInputFrameCount, 1);
    assert_eq!(stats[1].uiSkippedFrameCount, 1);
    assert_eq!(stats[1].uiIDRSentNum, 0);
    assert_eq!(stats[1].iTotalEncodedBytes, 0);
    assert_eq!((stats[1].uiWidth, stats[1].uiHeight), (640, 384));
    assert_eq!(r[0], 1);
    assert_eq!(r[1], 0);
    assert_eq!(stats[2].uiInputFrameCount, 0);
}
