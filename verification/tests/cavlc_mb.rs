use lib::bits::BsWriter;
use lib::cavlc_mb_pred::{WelsSpatialWriteMbPred, WelsSpatialWriteSubMbPred};
use lib::cavlc_mb_residual::WelsWriteMbResidual;
use lib::mb::{
    SDCTCoeff, SMVUnitXY, SMbCache, TagMVComponentUnit, MB_TYPE_16x16, MB_TYPE_8x8,
    MB_TYPE_INTRA16x16, SMB, SUB_MB_TYPE_8x8,
};
use lib::svc_encode_slice::{EWelsSliceType, SSlice};
use lib::svc_set_mb_syn_cavlc::WelsSpatialWriteMbSyn;
use lib::mb::MB_TYPE_SKIP;
use lib::svc_set_mb_syn_cavlc::{
    WriteBlockResidualCavlc, ENC_RETURN_SUCCESS, ENC_RETURN_VLCOVERFLOWFOUND, LUMA_AC,
};
use lib::vlc_encoder::{BsFlush, BsGetBitsPos};

fn mv(x: i16, y: i16) -> SMVUnitXY {
    SMVUnitXY { iMvX: x, iMvY: y }
}

fn cache() -> SMbCache {
    SMbCache {
        iNonZeroCoeffCount: [0; 48],
        sDct: SDCTCoeff::new(),
        sCoeffLevel: vec![0; 384],
        bPrevIntra4x4PredModeFlag: [true; 16],
        iRemIntra4x4PredModeFlag: [0; 16],
        uiChmaI8x8Mode: 0,
        uiLumaI16x16Mode: 0,
        sMbMvp: [mv(0, 0); 16],
        sMvComponents: TagMVComponentUnit { sMotionVectorCache: [mv(0, 0); 29], iRefIndexCache: [0; 30] },
        bCollocatedPredFlag: false,
    }
}

fn residual(c: &SMbCache, mb: &SMB) -> (i32, i32, Vec<u8>) {
    let mut buf = vec![0u8; 1024];
    let mut bs = BsWriter::new();
    let r = WelsWriteMbResidual(c, mb, &mut buf, &mut bs);
    let n = BsGetBitsPos(&bs);
    BsFlush(&mut buf, &mut bs);
    (r, n, buf)
}

#[test]
fn inter_macroblock_without_coded_blocks_writes_no_residual() {
    let mut mb = SMB::new();
    mb.uiMbType = MB_TYPE_16x16;
    let (r, n, _) = residual(&cache(), &mb);
    assert_eq!(r, ENC_RETURN_SUCCESS);
    assert_eq!(n, 0);
}

#[test]
fn intra16x16_always_writes_its_dc_block() {
    let mut mb = SMB::new();
    mb.uiMbType = MB_TYPE_INTRA16x16;
    let (r, n, buf) = residual(&cache(), &mb);
    assert_eq!(r, ENC_RETURN_SUCCESS);
    assert_eq!(n, 1);
    assert_eq!(buf[0], 0x80);
}

#[test]
fn chroma_dc_blocks_follow_the_chroma_cbp() {
    let mut mb = SMB::new();
    mb.uiMbType = MB_TYPE_16x16;
    mb.uiCbp = 0x10;
    let (r, n, buf) = residual(&cache(), &mb);
    assert_eq!(r, ENC_RETURN_SUCCESS);
    // Two empty chroma DC blocks: "01" each.
    assert_eq!(n, 4);
    assert_eq!(buf[0], 0b0101_0000);
}

#[test]
fn luma_group_with_coefficients() {
    let mut c = cache();
    // Group 0 coded, its first 4x4 block holds a single +1 at position 0
    // and the cache counts it.
    c.sDct.iLumaBlock[0][0] = 1;
    c.iNonZeroCoeffCount[9] = 1;
    let mut mb = SMB::new();
    mb.uiMbType = MB_TYPE_16x16;
    mb.uiCbp = 0x01;
    let (r, n, buf) = residual(&c, &mb);
    assert_eq!(r, ENC_RETURN_SUCCESS);
    // Block 0: coeff_token (1, 1) "01", sign "0", total_zeros 0 with one
    // coefficient "1"; blocks 1..3 empty: "1" each (nC 1, 1 and 0).
    assert_eq!(n, 7);
    assert_eq!(buf[0], 0b0101_1110);
}

#[test]
fn an_escaping_level_is_refused() {
    let mut coeffs = [0i16; 16];
    coeffs[0] = 30000;
    let mut buf = vec![0u8; 256];
    let mut bs = BsWriter::new();
    assert_eq!(
        WriteBlockResidualCavlc(&coeffs, 14, 1, LUMA_AC, 0, &mut buf, &mut bs),
        ENC_RETURN_VLCOVERFLOWFOUND
    );
    let mut c = cache();
    c.sDct.iLumaBlock[0][0] = 30000;
    c.iNonZeroCoeffCount[9] = 1;
    let mut mb = SMB::new();
    mb.uiMbType = MB_TYPE_16x16;
    mb.uiCbp = 0x01;
    let (r, _, _) = residual(&c, &mb);
    assert_eq!(r, ENC_RETURN_VLCOVERFLOWFOUND);
}

fn pred(t: EWelsSliceType, nref: u8, c: &SMbCache, mb: &SMB) -> (i32, Vec<u8>) {
    let mut buf = vec![0u8; 256];
    let mut bs = BsWriter::new();
    WelsSpatialWriteMbPred(t, nref, c, mb, &mut buf, &mut bs);
    let n = BsGetBitsPos(&bs);
    BsFlush(&mut buf, &mut bs);
    (n, buf)
}

#[test]
fn intra16x16_mb_type_in_an_i_slice() {
    let mut mb = SMB::new();
    mb.uiMbType = MB_TYPE_INTRA16x16;
    // mb_type 1 + mode 0 -> ue(1) "010", chroma mode 0 -> "1".
    let (n, buf) = pred(EWelsSliceType::I_SLICE, 1, &cache(), &mb);
    assert_eq!(n, 4);
    assert_eq!(buf[0], 0b0101_0000);
    // In a P slice the mb_type is offset by 5: ue(6) "00111".
    let (n, _) = pred(EWelsSliceType::P_SLICE, 1, &cache(), &mb);
    assert_eq!(n, 6);
}

#[test]
fn p16x16_writes_its_vector_difference() {
    let mut mb = SMB::new();
    mb.uiMbType = MB_TYPE_16x16;
    mb.sMv[0] = mv(4, -2);
    let mut c = cache();
    c.sMbMvp[0] = mv(0, 0);
    // mb_type ue(0) "1", se(4) "0001000", se(-2) "00101".
    let (n, buf) = pred(EWelsSliceType::P_SLICE, 1, &c, &mb);
    assert_eq!(n, 13);
    assert_eq!(&buf[..2], &[0b1000_1000, 0b0010_1000]);
    // With two references the index 1 is written as te(1, 1) = "0".
    mb.iRefIndex = [1, 1, 1, 1];
    let (n, _) = pred(EWelsSliceType::P_SLICE, 2, &c, &mb);
    assert_eq!(n, 14);
}

#[test]
fn nothing_is_written_outside_i_and_p_slices() {
    let mut mb = SMB::new();
    mb.uiMbType = MB_TYPE_16x16;
    let (n, _) = pred(EWelsSliceType::B_SLICE, 1, &cache(), &mb);
    assert_eq!(n, 0);
}

#[test]
fn p8x8_with_all_references_zero_is_type_four() {
    let mut mb = SMB::new();
    mb.uiMbType = MB_TYPE_8x8;
    mb.uiSubMbType = [SUB_MB_TYPE_8x8; 4];
    let c = cache();
    let mut buf = vec![0u8; 256];
    let mut bs = BsWriter::new();
    WelsSpatialWriteSubMbPred(2, &c, &mb, &mut buf, &mut bs);
    // ue(4) "00101", four ue(0), no references, four zero mvds "11" each.
    assert_eq!(BsGetBitsPos(&bs), 5 + 4 + 8);
    BsFlush(&mut buf, &mut bs);
    assert_eq!(&buf[..3], &[0b0010_1111, 0b1111_1111, 0b1000_0000]);
}

#[test]
fn blocks_the_cache_counts_as_empty_are_written_empty() {
    // The coefficient is there but the cache counts no coefficient: the
    // block is coded as empty.
    let mut c = cache();
    c.sDct.iLumaBlock[0][0] = 1;
    let mut mb = SMB::new();
    mb.uiMbType = MB_TYPE_16x16;
    mb.uiCbp = 0x01;
    let (r, n, buf) = residual(&c, &mb);
    assert_eq!(r, ENC_RETURN_SUCCESS);
    assert_eq!(n, 4);
    assert_eq!(buf[0], 0b1111_0000);
}

fn mb_syn(t: EWelsSliceType, slice: &mut SSlice, c: &SMbCache, mb: &mut SMB, len: usize) -> (i32, i32, Vec<u8>) {
    let mut buf = vec![0u8; len];
    let mut bs = BsWriter::new();
    let r = WelsSpatialWriteMbSyn(t, 0, slice, c, mb, &mut buf, &mut bs);
    let n = BsGetBitsPos(&bs);
    BsFlush(&mut buf, &mut bs);
    (r, n, buf)
}

#[test]
fn a_skipped_macroblock_only_counts_in_the_run() {
    let mut slice = SSlice::new();
    slice.uiLastMbQp = 30;
    slice.iMbSkipRun = 4;
    let mut mb = SMB::new();
    mb.uiMbType = MB_TYPE_SKIP;
    let (r, n, _) = mb_syn(EWelsSliceType::P_SLICE, &mut slice, &cache(), &mut mb, 2048);
    assert_eq!(r, ENC_RETURN_SUCCESS);
    assert_eq!(n, 0);
    assert_eq!(slice.iMbSkipRun, 5);
    assert_eq!(mb.uiLumaQp, 30);
    assert_eq!(mb.uiChromaQp, 29);
}

#[test]
fn an_inter_macroblock_without_residual_writes_run_pred_and_cbp() {
    let mut slice = SSlice::new();
    slice.uiLastMbQp = 26;
    slice.iMbSkipRun = 2;
    slice.sSliceHeaderExt.sSliceHeader.uiNumRefIdxL0Active = 1;
    let mut mb = SMB::new();
    mb.uiMbType = MB_TYPE_16x16;
    mb.uiLumaQp = 40;
    // skip run ue(2) "011", mb_type "1", mvd "1" "1", cbp ue(0) "1".
    let (r, n, buf) = mb_syn(EWelsSliceType::P_SLICE, &mut slice, &cache(), &mut mb, 2048);
    assert_eq!(r, ENC_RETURN_SUCCESS);
    assert_eq!(n, 7);
    assert_eq!(buf[0], 0b0111_1110);
    assert_eq!(slice.iMbSkipRun, 0);
    // Without residual the macroblock takes the last QP.
    assert_eq!(mb.uiLumaQp, 26);
    assert_eq!(slice.uiLastMbQp, 26);
}

#[test]
fn an_intra16x16_macroblock_writes_its_qp_difference_and_dc() {
    let mut slice = SSlice::new();
    slice.uiLastMbQp = 26;
    let mut mb = SMB::new();
    mb.uiMbType = MB_TYPE_INTRA16x16;
    mb.uiLumaQp = 28;
    // mb_type ue(1) "010", chroma mode "1", dqp se(2) "00100", DC block "1".
    let (r, n, buf) = mb_syn(EWelsSliceType::I_SLICE, &mut slice, &cache(), &mut mb, 2048);
    assert_eq!(r, ENC_RETURN_SUCCESS);
    assert_eq!(n, 10);
    assert_eq!(&buf[..2], &[0b0101_0010, 0b0100_0000]);
    assert_eq!(slice.uiLastMbQp, 28);
    assert_eq!(mb.uiLumaQp, 28);
}

#[test]
fn a_macroblock_that_leaves_too_little_room_is_refused() {
    let mut slice = SSlice::new();
    let mut mb = SMB::new();
    mb.uiMbType = MB_TYPE_INTRA16x16;
    let (r, n, _) = mb_syn(EWelsSliceType::I_SLICE, &mut slice, &cache(), &mut mb, 700);
    assert_eq!(r, ENC_RETURN_VLCOVERFLOWFOUND);
    assert!(n > 0);
}
