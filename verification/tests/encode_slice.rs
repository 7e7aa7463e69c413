use lib::bits::BsWriter;
use lib::mb::{SMB, MB_TYPE_16x16, MB_TYPE_SKIP, MB_TYPE_INTRA_BL, MB_TYPE_INTRA4x4, LEFT_MB_POS, TOP_MB_POS, TOPLEFT_MB_POS, TOPRIGHT_MB_POS};
use lib::svc_encode_slice::{
    AddSliceBoundary, CalculateNewSliceNum, DynSlcJudgeSliceBoundaryStepBack, EWelsSliceType,
    SDynamicSlicingStack, GetCurrentSliceNum, GetTotalCodedNalCount, InitSliceRC,
    LayerIdx, SDqLayer, SFrameBSInfo, SLayerBSInfo, SLayerInfo, SNalUnitHeader, SNalUnitHeaderExt,
    SSlice, SSliceCtx, SWelsPPS, SWelsSPS, SetSliceBoundaryInfo, SliceMode, UpdateMbNeighbor,
    UpdateMbNeighbourInfoForNextSlice, UpdateQpForOverflow, WelsGetNextMbOfSlice,
    WelsMbToSliceIdc, WelsSliceHeaderExtInit, WelsSliceHeaderWrite, StampLayerIdrFlagForSliceType,
    InitSliceBoundaryInfo, SSliceArgument, WelsInitInterMDStruc, SSliceBufferInfo, SliceIdx,
    ENC_RETURN_INVALIDINPUT, ENC_RETURN_SUCCESS, ENC_RETURN_UNEXPECTED, IS_INTER, IS_I_BL, IS_SKIP,
    JUMPPACKETSIZE_CONSTRAINT, JUMPPACKETSIZE_JUDGE, WELS_CEILLOG2,
};
use lib::vlc_encoder::{BsFlush, BsGetBitsPos};
use lib::svc_mode_decision::SWelsMD;
use lib::wels_encoder_ext::EVideoFrameType;
use lib::svc_encode_slice::{EMbLoopAction, SMbLoopState, WelsMdInterMbLoopStep, ENC_RETURN_VLCOVERFLOWFOUND};

fn slice_ctx(mode: SliceMode, w: i16, h: i16, map: Vec<u16>) -> SSliceCtx {
    SSliceCtx {
        uiSliceMode: mode,
        iMbWidth: w,
        iMbHeight: h,
        iSliceNumInFrame: 1,
        iMbNumInFrame: (w as i32) * (h as i32),
        uiSliceSizeConstraint: 1500,
        pOverallMbMap: map,
    }
}

fn bank(n: usize) -> SSliceBufferInfo {
    let mut v = Vec::new();
    for _ in 0..n {
        v.push(SSlice::new());
    }
    SSliceBufferInfo { pSliceBuffer: v, iMaxSliceNum: n as i32, iCodedSliceNum: 0 }
}

fn layer(ctx: SSliceCtx) -> SDqLayer {
    SDqLayer {
        iDqIdx: LayerIdx(0),
        sLayerInfo: SLayerInfo {
            sNalHeaderExt: SNalUnitHeaderExt::default(),
            eSps: None,
            iPps: None,
        },
        iMbWidth: ctx.iMbWidth,
        iMbHeight: ctx.iMbHeight,
        sSliceEncCtx: ctx,
        iLoopFilterDisableIdc: 0,
        iLoopFilterAlphaC0Offset: 0,
        iLoopFilterBetaOffset: 0,
        uiDisableInterLayerDeblockingFilterIdc: 0,
        iMaxSliceNum: 1,
        LastCodedMbIdxOfPartition: [0; 4],
        FirstMbIdxOfPartition: [0; 4],
        EndMbIdxOfPartition: [0; 4],
        pFirstMbIdxOfSlice: Vec::new(),
        pCountMbNumInSlice: Vec::new(),
        sSliceBufferInfo: [bank(0), bank(0), bank(0), bank(0)],
        ppSliceInLayer: Vec::new(),
        NumSliceCodedOfPartition: [0; 4],
    }
}

fn mb_at(xy: i32, w: i32) -> SMB {
    let mut mb = SMB::new();
    mb.iMbXY = xy;
    mb.iMbX = (xy % w) as i16;
    mb.iMbY = (xy / w) as i16;
    mb
}

#[test]
fn slice_idc_lookup_answers_max_outside_the_map() {
    let ctx = slice_ctx(SliceMode::SM_RASTER_SLICE, 2, 2, vec![0, 0, 1, 1]);
    assert_eq!(WelsMbToSliceIdc(Some(&ctx), 2), 1);
    assert_eq!(WelsMbToSliceIdc(Some(&ctx), 4), u16::MAX);
    assert_eq!(WelsMbToSliceIdc(Some(&ctx), -1), u16::MAX);
    assert_eq!(WelsMbToSliceIdc(None, 0), u16::MAX);
}

#[test]
fn neighbour_availability_follows_the_slice_map() {
    // 3x2 macroblocks; the second row starts slice 1 at its middle macroblock.
    let ctx = slice_ctx(SliceMode::SM_RASTER_SLICE, 3, 2, vec![0, 0, 0, 0, 1, 1]);
    let mut mb = mb_at(4, 3);
    UpdateMbNeighbor(Some(&ctx), &mut mb, 3, 1);
    // left (3) is slice 0, top (1) and both top corners are slice 0: nothing.
    assert_eq!(mb.uiSliceIdc, 1);
    assert_eq!(mb.uiNeighborAvail, 0);
    let mut mb = mb_at(5, 3);
    UpdateMbNeighbor(Some(&ctx), &mut mb, 3, 1);
    assert_eq!(mb.uiNeighborAvail, LEFT_MB_POS);
    let mut mb = mb_at(4, 3);
    UpdateMbNeighbor(Some(&ctx), &mut mb, 3, 0);
    assert_eq!(mb.uiNeighborAvail, LEFT_MB_POS | TOP_MB_POS | TOPLEFT_MB_POS | TOPRIGHT_MB_POS);
}

#[test]
fn next_slice_refresh_covers_the_first_row_and_one_more() {
    // 4x3 macroblocks, slice 1 from macroblock 5 (mid-row): 4 + 1 records,
    // 5..=9, are refreshed; record 10 keeps its stale state.
    let map = vec![0, 0, 0, 0, 0, 1, 1, 1, 1, 1, 1, 1];
    let ctx = slice_ctx(SliceMode::SM_RASTER_SLICE, 4, 3, map);
    let mut mbs: Vec<SMB> = (0..12).map(|i| mb_at(i, 4)).collect();
    for mb in mbs.iter_mut() {
        mb.uiSliceIdc = 9;
        mb.uiNeighborAvail = 0xff;
    }
    UpdateMbNeighbourInfoForNextSlice(&ctx, &mut mbs, 5, 11);
    for i in 5..10 {
        assert_eq!(mbs[i].uiSliceIdc, 1, "record {i}");
    }
    assert_eq!(mbs[5].uiNeighborAvail, 0);
    assert_eq!(mbs[6].uiNeighborAvail, LEFT_MB_POS);
    assert_eq!(mbs[9].uiNeighborAvail, LEFT_MB_POS | TOP_MB_POS | TOPRIGHT_MB_POS);
    assert_eq!(mbs[10].uiSliceIdc, 9);
    assert_eq!(mbs[4].uiSliceIdc, 9);
}

#[test]
fn next_slice_refresh_stops_at_the_partition_but_always_takes_the_first() {
    let map = vec![0, 0, 0, 0, 0, 1, 1, 1, 1, 1, 1, 1];
    let ctx = slice_ctx(SliceMode::SM_RASTER_SLICE, 4, 3, map);
    let mut mbs: Vec<SMB> = (0..12).map(|i| mb_at(i, 4)).collect();
    for mb in mbs.iter_mut() {
        mb.uiSliceIdc = 9;
    }
    UpdateMbNeighbourInfoForNextSlice(&ctx, &mut mbs, 5, 6);
    assert_eq!(mbs[5].uiSliceIdc, 1);
    assert_eq!(mbs[6].uiSliceIdc, 1);
    assert_eq!(mbs[7].uiSliceIdc, 9);
    // The boundary lands past the partition's end: the first one still.
    UpdateMbNeighbourInfoForNextSlice(&ctx, &mut mbs, 8, 3);
    assert_eq!(mbs[8].uiSliceIdc, 1);
    assert_eq!(mbs[9].uiSliceIdc, 9);
}

#[test]
fn next_mb_of_slice_walks_raster_order_within_the_slice() {
    let ctx = slice_ctx(SliceMode::SM_SINGLE_SLICE, 2, 2, vec![0; 4]);
    assert_eq!(WelsGetNextMbOfSlice(&ctx, 0), 1);
    assert_eq!(WelsGetNextMbOfSlice(&ctx, 3), -1);
    assert_eq!(WelsGetNextMbOfSlice(&ctx, 7), -1);
    let ctx = slice_ctx(SliceMode::SM_RASTER_SLICE, 3, 1, vec![0, 0, 1]);
    assert_eq!(WelsGetNextMbOfSlice(&ctx, 0), 1);
    assert_eq!(WelsGetNextMbOfSlice(&ctx, 1), -1);
    assert_eq!(WelsGetNextMbOfSlice(&ctx, 2), -1);
}

#[test]
fn qp_overflow_steps_luma_by_two_and_rederives_chroma() {
    let mut mb = SMB::new();
    mb.uiLumaQp = 30;
    UpdateQpForOverflow(&mut mb, 0);
    assert_eq!(mb.uiLumaQp, 32);
    assert_eq!(mb.uiChromaQp, 31);
    mb.uiLumaQp = 50;
    UpdateQpForOverflow(&mut mb, 2);
    assert_eq!(mb.uiLumaQp, 52);
    assert_eq!(mb.uiChromaQp, 39);
}

#[test]
fn ceil_log2_and_packet_size_rules() {
    assert_eq!(WELS_CEILLOG2(0), 0);
    assert_eq!(WELS_CEILLOG2(1), 0);
    assert_eq!(WELS_CEILLOG2(2), 1);
    assert_eq!(WELS_CEILLOG2(5), 3);
    assert_eq!(WELS_CEILLOG2(u32::MAX), 32);
    assert_eq!(JUMPPACKETSIZE_CONSTRAINT(1500), 1400);
    assert_eq!(JUMPPACKETSIZE_CONSTRAINT(50), 0);
    assert!(JUMPPACKETSIZE_JUDGE(1401, 0, 1500));
    assert!(!JUMPPACKETSIZE_JUDGE(1400, 0, 1500));
}

#[test]
fn slice_mb_type_predicates() {
    assert!(IS_INTER(MB_TYPE_16x16));
    assert!(IS_INTER(MB_TYPE_SKIP));
    assert!(!IS_INTER(MB_TYPE_INTRA4x4));
    assert!(IS_SKIP(MB_TYPE_SKIP));
    assert!(IS_I_BL(MB_TYPE_INTRA_BL));
}

#[test]
fn total_coded_nal_count_sums_every_layer_record() {
    let rec = SLayerBSInfo { uiTemporalId: 0, uiSpatialId: 0, uiQualityId: 0, uiLayerType: 0, iNalCount: 0 };
    let mut fbi = SFrameBSInfo { iLayerNum: 3, sLayerInfo: [rec; 128], eFrameType: EVideoFrameType::videoFrameTypeP, uiTimeStamp: 0 };
    fbi.sLayerInfo[0].iNalCount = 2;
    fbi.sLayerInfo[1].iNalCount = 5;
    // Records past iLayerNum are summed too.
    fbi.sLayerInfo[127].iNalCount = 1;
    assert_eq!(GetTotalCodedNalCount(&mut fbi), 8);
    assert_eq!(fbi.iLayerNum, 3);
}

#[test]
fn slice_rc_and_boundaries() {
    let mut slice = SSlice::new();
    assert_eq!(InitSliceRC(&mut slice, -1), ENC_RETURN_INVALIDINPUT);
    assert_eq!(InitSliceRC(&mut slice, 28), ENC_RETURN_SUCCESS);
    assert_eq!(slice.sSlicingOverRc.iCalculatedQpSlice, 28);

    let ctx = slice_ctx(SliceMode::SM_SINGLE_SLICE, 2, 2, vec![0; 4]);
    let mut l = layer(ctx);
    assert_eq!(SetSliceBoundaryInfo(None, &mut slice, 0), ENC_RETURN_UNEXPECTED);
    assert_eq!(SetSliceBoundaryInfo(Some(&l), &mut slice, 0), ENC_RETURN_UNEXPECTED);
    l.pFirstMbIdxOfSlice = vec![0, 7];
    l.pCountMbNumInSlice = vec![7, 5];
    assert_eq!(SetSliceBoundaryInfo(Some(&l), &mut slice, 1), ENC_RETURN_SUCCESS);
    assert_eq!(slice.sSliceHeaderExt.sSliceHeader.iFirstMbInSlice, 7);
    assert_eq!(slice.iCountMbNumInSlice, 5);
    assert_eq!(GetCurrentSliceNum(&l), 1);
}

#[test]
fn idr_flag_is_stamped_for_i_slices_only() {
    let ctx = slice_ctx(SliceMode::SM_SINGLE_SLICE, 2, 2, vec![0; 4]);
    let mut l = layer(ctx);
    StampLayerIdrFlagForSliceType(EWelsSliceType::P_SLICE, &mut l);
    assert!(!l.sLayerInfo.sNalHeaderExt.bIdrFlag);
    StampLayerIdrFlagForSliceType(EWelsSliceType::I_SLICE, &mut l);
    assert!(l.sLayerInfo.sNalHeaderExt.bIdrFlag);
}

#[test]
fn new_slice_budget_doubles_for_one_worker() {
    let ctx = slice_ctx(SliceMode::SM_SIZELIMITED_SLICE, 2, 2, vec![0; 4]);
    let l = layer(ctx);
    let mut n = 0i32;
    assert_eq!(CalculateNewSliceNum(1, &l, 0, 8, &mut n), ENC_RETURN_SUCCESS);
    assert_eq!(n, 16);
    let mut n = 5i32;
    assert_eq!(CalculateNewSliceNum(1, &l, 0, 0, &mut n), ENC_RETURN_INVALIDINPUT);
    assert_eq!(n, 5);
}

#[test]
fn new_slice_budget_grows_from_a_large_bank() {
    let ctx = slice_ctx(SliceMode::SM_SIZELIMITED_SLICE, 2, 2, vec![0; 4]);
    let l = layer(ctx);
    let mut n = 0i32;
    assert_eq!(CalculateNewSliceNum(1, &l, 0, 100_000, &mut n), ENC_RETURN_SUCCESS);
    assert_eq!(n, 200_000);
}

fn sps() -> SWelsSPS {
    SWelsSPS { uiLog2MaxFrameNum: 4, uiPocType: 0, iLog2MaxPocLsb: 6, iNumRefFrames: 2 }
}

fn pps() -> SWelsPPS {
    SWelsPPS { iPpsId: 0, iPicInitQp: 26, bEntropyCodingModeFlag: false, bDeblockingFilterControlPresentFlag: true }
}

#[test]
fn idr_i_slice_header_bits() {
    let mut slice = SSlice::new();
    slice.sSliceHeaderExt.sSliceHeader.eSliceType = EWelsSliceType::I_SLICE;
    let nal = SNalUnitHeaderExt {
        sNalUnitHeader: SNalUnitHeader { uiNalRefIdc: 3, uiNalUnitType: 5 },
        bIdrFlag: true,
        uiDependencyId: 0,
        uiTemporalId: 0,
        uiQualityId: 0,
    };
    let mut buf = vec![0u8; 32];
    let mut bs = BsWriter::new();
    WelsSliceHeaderWrite(&mut buf, &mut bs, Some(sps()), Some(pps()), 0, &nal, &slice.sSliceHeaderExt.sSliceHeader, 0);
    // first_mb 1 | I 011 | pps 1 | frame_num 0000 | idr_id 1 | poc 000000 |
    // marking 00 | qp_delta 1 | deblock idc 1 | alpha 1 | beta 1
    assert_eq!(BsGetBitsPos(&bs), 22);
    BsFlush(&mut buf, &mut bs);
    assert_eq!(&buf[..3], &[0xB8, 0x40, 0x3C]);
}

#[test]
fn p_slice_header_writes_the_reference_override() {
    let mut slice = SSlice::new();
    let h = &mut slice.sSliceHeaderExt.sSliceHeader;
    h.iFirstMbInSlice = 2;
    h.iFrameNum = 1;
    h.iPicOrderCntLsb = 2;
    h.bNumRefIdxActiveOverrideFlag = true;
    h.uiNumRefIdxL0Active = 2;
    h.sRefReordering.SReorderingSyntax[0].uiReorderingOfPicNumsIdc = 3;
    h.iSliceQpDelta = -1;
    h.uiDisableDeblockingFilterIdc = 1;
    let nal = SNalUnitHeaderExt {
        sNalUnitHeader: SNalUnitHeader { uiNalRefIdc: 0, uiNalUnitType: 1 },
        bIdrFlag: false,
        uiDependencyId: 0,
        uiTemporalId: 0,
        uiQualityId: 0,
    };
    let mut buf = vec![0u8; 32];
    let mut bs = BsWriter::new();
    WelsSliceHeaderWrite(&mut buf, &mut bs, Some(sps()), Some(pps()), 0, &nal, &slice.sSliceHeaderExt.sSliceHeader, 0);
    // first_mb 011 | P 1 | pps 1 | frame_num 0001 | poc 000010 | override 1
    // active-1 010 | reorder flag 1, idc 3 00100 | qp_delta 011 | deblock 010
    assert_eq!(BsGetBitsPos(&bs), 31);
    BsFlush(&mut buf, &mut bs);
    assert_eq!(&buf[..4], &[0x78, 0x85, 0x52, 0x34]);
}

#[test]
fn slice_header_init_stamps_the_frame_values() {
    let ctx = slice_ctx(SliceMode::SM_SINGLE_SLICE, 2, 2, vec![0; 4]);
    let mut l = layer(ctx);
    l.iLoopFilterDisableIdc = 1;
    l.iLoopFilterAlphaC0Offset = 2;
    let mut slice = SSlice::new();
    slice.sSliceHeaderExt.sSliceHeader.uiRefCount = 2;
    slice.sSliceHeaderExt.bAdaptiveBaseModeFlag = true;
    WelsSliceHeaderExtInit(EWelsSliceType::P_SLICE, 3, 1, Some(6), Some(&sps()), Some(&pps()), 30, Some(&l), &mut slice);
    let h = &slice.sSliceHeaderExt.sSliceHeader;
    assert_eq!(h.eSliceType, EWelsSliceType::P_SLICE);
    assert_eq!(h.iFrameNum, 3);
    assert_eq!(h.uiIdrPicId, 1);
    assert_eq!(h.iPicOrderCntLsb, 6);
    assert!(h.bNumRefIdxActiveOverrideFlag);
    assert_eq!(h.uiNumRefIdxL0Active, 2);
    assert_eq!(h.iSliceQpDelta, 4);
    assert_eq!(h.uiDisableDeblockingFilterIdc, 1);
    assert_eq!(h.iSliceAlphaC0Offset, 2);
    assert!(!slice.sSliceHeaderExt.bAdaptiveBaseModeFlag);

    // More references than the SPS allows: no override, one active.
    slice.sSliceHeaderExt.sSliceHeader.uiRefCount = 3;
    WelsSliceHeaderExtInit(EWelsSliceType::P_SLICE, 3, 1, None, Some(&sps()), None, 20, Some(&l), &mut slice);
    let h = &slice.sSliceHeaderExt.sSliceHeader;
    assert!(!h.bNumRefIdxActiveOverrideFlag);
    assert_eq!(h.uiNumRefIdxL0Active, 1);
    assert_eq!(h.iPicOrderCntLsb, 6);
    assert_eq!(h.iSliceQpDelta, -6);

    // Without a layer nothing changes.
    let before = slice.sSliceHeaderExt.sSliceHeader.iFrameNum;
    WelsSliceHeaderExtInit(EWelsSliceType::I_SLICE, 9, 9, None, None, None, 0, None, &mut slice);
    assert_eq!(slice.sSliceHeaderExt.sSliceHeader.iFrameNum, before);
}

fn stack(start: i32, current: i32) -> SDynamicSlicingStack {
    SDynamicSlicingStack {
        iStartPos: start,
        iCurrentPos: current,
        sBsStack: BsWriter::new(),
        sStoredCabac: lib::svc_set_mb_syn_cabac::SCabacCtx::default(),
        iMbSkipRunStack: 0,
        uiLastMbQp: 0,
        pRestoreBuffer: None,
    }
}

#[test]
fn a_slice_boundary_moves_the_rest_of_the_partition() {
    let ctx = slice_ctx(SliceMode::SM_SIZELIMITED_SLICE, 4, 3, vec![0; 12]);
    let mut l = layer(ctx);
    let mut cur = SSlice::new();
    cur.sSliceHeaderExt.sSliceHeader.iFrameNum = 7;
    let mut next = SSlice::new();
    let mut mbs: Vec<SMB> = (0..12).map(|i| mb_at(i, 4)).collect();
    AddSliceBoundary(2, &mut l, &mut cur, 5, 5, 11, &mut mbs, Some(&mut next));
    assert_eq!(cur.sSliceHeaderExt.uiNumMbsInSlice, 6);
    assert_eq!(l.sSliceEncCtx.pOverallMbMap, vec![0, 0, 0, 0, 0, 2, 2, 2, 2, 2, 2, 2]);
    assert_eq!(next.sSliceHeaderExt.sSliceHeader.iFirstMbInSlice, 5);
    assert_eq!(next.sSliceHeaderExt.sSliceHeader.iFrameNum, 7);
    assert_eq!(next.sSliceHeaderExt.uiNumMbsInSlice, 6);
    assert!(!next.bSliceHeaderExtFlag);
    for i in 5..10 {
        assert_eq!(mbs[i].uiSliceIdc, 2);
    }
    assert_eq!(mbs[10].uiSliceIdc, 0);
    assert_eq!(mbs[9].uiNeighborAvail, LEFT_MB_POS | TOP_MB_POS | TOPRIGHT_MB_POS);

    // Past the bank's end only the current slice is closed.
    let ctx = slice_ctx(SliceMode::SM_SIZELIMITED_SLICE, 4, 3, vec![0; 12]);
    let mut l = layer(ctx);
    let mut cur = SSlice::new();
    AddSliceBoundary(1, &mut l, &mut cur, 3, 4, 11, &mut mbs, None);
    assert_eq!(cur.sSliceHeaderExt.uiNumMbsInSlice, 4);
    assert_eq!(l.sSliceEncCtx.pOverallMbMap, vec![0; 12]);
}

#[test]
fn dynamic_slicing_closes_a_slice_past_its_size() {
    let ctx = slice_ctx(SliceMode::SM_SIZELIMITED_SLICE, 4, 3, vec![0; 12]);
    let mut l = layer(ctx);
    l.EndMbIdxOfPartition = [11, 11, 11, 11];
    let mut cur = SSlice::new();
    let mut next = SSlice::new();
    let mut mbs: Vec<SMB> = (0..12).map(|i| mb_at(i, 4)).collect();
    // 1400 bytes do not exceed 1500 less the margin of 100.
    assert!(!DynSlcJudgeSliceBoundaryStepBack(1, &mut l, &mut cur, 5, &stack(0, 8 * 1400), &mut mbs, Some(&mut next)));
    assert_eq!(GetCurrentSliceNum(&l), 1);
    // One bit more is a byte more.
    assert!(DynSlcJudgeSliceBoundaryStepBack(1, &mut l, &mut cur, 5, &stack(0, 8 * 1400 + 1), &mut mbs, Some(&mut next)));
    assert_eq!(GetCurrentSliceNum(&l), 2);
    assert_eq!(next.sSliceHeaderExt.sSliceHeader.iFirstMbInSlice, 5);
    assert_eq!(l.sSliceEncCtx.pOverallMbMap[5], 1);
    // The first macroblock of a slice, the partition's last one and a slice
    // with its own size control never close it.
    let mut l2 = layer(slice_ctx(SliceMode::SM_SIZELIMITED_SLICE, 4, 3, vec![0, 0, 0, 0, 0, 1, 1, 1, 1, 1, 1, 1]));
    l2.EndMbIdxOfPartition = [11, 11, 11, 11];
    assert!(!DynSlcJudgeSliceBoundaryStepBack(1, &mut l2, &mut cur, 5, &stack(0, 90000), &mut mbs, None));
    assert!(!DynSlcJudgeSliceBoundaryStepBack(1, &mut l2, &mut cur, 11, &stack(0, 90000), &mut mbs, None));
    cur.bDynamicSlicingSliceSizeCtrlFlag = true;
    assert!(!DynSlcJudgeSliceBoundaryStepBack(1, &mut l2, &mut cur, 7, &stack(0, 90000), &mut mbs, None));
}

fn slice_arg(mode: SliceMode, counts: &[u32]) -> SSliceArgument {
    let mut a = SSliceArgument { uiSliceMode: mode, uiSliceNum: counts.len() as u32, uiSliceMbNum: [0; 35], uiSliceSizeConstraint: 0 };
    for (i, &c) in counts.iter().enumerate() {
        a.uiSliceMbNum[i] = c;
    }
    a
}

#[test]
fn slice_boundaries_follow_the_counts_or_the_rows() {
    let mut l = layer(slice_ctx(SliceMode::SM_FIXEDSLCNUM_SLICE, 4, 3, vec![0; 12]));
    l.pFirstMbIdxOfSlice = vec![-1; 4];
    l.pCountMbNumInSlice = vec![-1; 4];
    // Counted slices of 5, 4 and 3 macroblocks.
    let r = InitSliceBoundaryInfo(&mut l, &slice_arg(SliceMode::SM_FIXEDSLCNUM_SLICE, &[5, 4, 3]), 3);
    assert_eq!(r, ENC_RETURN_SUCCESS);
    assert_eq!(l.pFirstMbIdxOfSlice, vec![0, 5, 9, -1]);
    assert_eq!(l.pCountMbNumInSlice, vec![5, 4, 3, -1]);
    // Raster slices without counts: one row each.
    let r = InitSliceBoundaryInfo(&mut l, &slice_arg(SliceMode::SM_RASTER_SLICE, &[]), 3);
    assert_eq!(r, ENC_RETURN_SUCCESS);
    assert_eq!(l.pFirstMbIdxOfSlice, vec![0, 4, 8, -1]);
    assert_eq!(l.pCountMbNumInSlice, vec![4, 4, 4, -1]);
    // A single slice, and a size-limited one, cover the picture.
    let r = InitSliceBoundaryInfo(&mut l, &slice_arg(SliceMode::SM_SINGLE_SLICE, &[]), 1);
    assert_eq!(r, ENC_RETURN_SUCCESS);
    assert_eq!((l.pFirstMbIdxOfSlice[0], l.pCountMbNumInSlice[0]), (0, 12));
    let r = InitSliceBoundaryInfo(&mut l, &slice_arg(SliceMode::SM_SIZELIMITED_SLICE, &[]), 2);
    assert_eq!(r, ENC_RETURN_SUCCESS);
    assert_eq!((l.pFirstMbIdxOfSlice[1], l.pCountMbNumInSlice[1]), (0, 12));
}

#[test]
fn a_counted_slice_beyond_the_picture_is_refused() {
    let mut l = layer(slice_ctx(SliceMode::SM_RASTER_SLICE, 4, 3, vec![0; 12]));
    l.pFirstMbIdxOfSlice = vec![-1; 4];
    l.pCountMbNumInSlice = vec![-1; 4];
    // The third slice would start at macroblock 12 of a 12-macroblock picture.
    let r = InitSliceBoundaryInfo(&mut l, &slice_arg(SliceMode::SM_RASTER_SLICE, &[8, 4, 2]), 3);
    assert_eq!(r, ENC_RETURN_UNEXPECTED);
    assert_eq!(l.pFirstMbIdxOfSlice, vec![0, 8, -1, -1]);
    assert_eq!(l.pCountMbNumInSlice, vec![8, 4, -1, -1]);
}

#[test]
fn inter_md_starts_from_the_qp_row_and_the_pixel_position() {
    let mut mb = SMB::new();
    mb.uiLumaQp = 26;
    mb.iMbX = 3;
    mb.iMbY = 2;
    let mut md = SWelsMD::default();
    md.iBlock8x8StaticIdc = [1, 2, 3, 4];
    md.iCostLuma = 77;
    WelsInitInterMDStruc(&mb, Some(100), 8, &mut md);
    assert_eq!(md.iLambda, 5);
    assert_eq!(md.pMvdCost, Some(100 + 26 * 8));
    assert_eq!((md.iMbPixX, md.iMbPixY), (48, 32));
    assert_eq!(md.iBlock8x8StaticIdc, [0; 4]);
    assert_eq!(md.iCostLuma, 77);
    // Without a table the cursor stays.
    md.pMvdCost = Some(9);
    WelsInitInterMDStruc(&mb, None, 8, &mut md);
    assert_eq!(md.pMvdCost, Some(9));
}

#[test]
fn mb_loop_step_retries_fails_and_moves_on() {
    let ctx = slice_ctx(SliceMode::SM_SINGLE_SLICE, 2, 2, vec![0; 4]);
    let mut st = SMbLoopState { iCurMbIdx: 0, iNumMbCoded: 0, kiTotalNumMb: 4 };
    // An escaping level under QP 50 is written again (CAVLC).
    let a = WelsMdInterMbLoopStep(&mut st, &ctx, false, false, ENC_RETURN_VLCOVERFLOWFOUND, 30, false);
    assert_eq!(a, EMbLoopAction::RetryWithHigherQp);
    assert_eq!((st.iCurMbIdx, st.iNumMbCoded), (0, 0));
    // With CABAC, outside dynamic slicing, it stops the slice.
    let a = WelsMdInterMbLoopStep(&mut st, &ctx, true, false, ENC_RETURN_VLCOVERFLOWFOUND, 30, false);
    assert_eq!(a, EMbLoopAction::Fail(ENC_RETURN_VLCOVERFLOWFOUND));
    // At QP 50 and above there is no retry.
    let a = WelsMdInterMbLoopStep(&mut st, &ctx, false, false, ENC_RETURN_VLCOVERFLOWFOUND, 50, false);
    assert_eq!(a, EMbLoopAction::Fail(ENC_RETURN_VLCOVERFLOWFOUND));
    // Success moves to the next macroblock.
    let a = WelsMdInterMbLoopStep(&mut st, &ctx, false, false, ENC_RETURN_SUCCESS, 30, false);
    assert_eq!(a, EMbLoopAction::NextMb(1));
    assert_eq!((st.iCurMbIdx, st.iNumMbCoded), (1, 1));
    // A step back only counts with dynamic slices.
    let a = WelsMdInterMbLoopStep(&mut st, &ctx, true, true, ENC_RETURN_SUCCESS, 30, true);
    assert_eq!(a, EMbLoopAction::StepBack);
    assert_eq!((st.iCurMbIdx, st.iNumMbCoded), (1, 1));
    let a = WelsMdInterMbLoopStep(&mut st, &ctx, true, false, ENC_RETURN_SUCCESS, 30, true);
    assert_eq!(a, EMbLoopAction::NextMb(2));
    let a = WelsMdInterMbLoopStep(&mut st, &ctx, true, false, ENC_RETURN_SUCCESS, 30, false);
    assert_eq!(a, EMbLoopAction::NextMb(3));
    // The last macroblock ends the slice.
    let a = WelsMdInterMbLoopStep(&mut st, &ctx, true, false, ENC_RETURN_SUCCESS, 30, false);
    assert_eq!(a, EMbLoopAction::Finish);
    assert_eq!((st.iCurMbIdx, st.iNumMbCoded), (3, 4));
}
