use lib::bits::BsWriter;
use lib::svc_set_mb_syn_cavlc::{
    g_kuiInterCbpMap, g_kuiIntra4x4CbpMap, wels_non_zero_count_average, CavlcParamCal_c,
    GetBsPosCavlc, StashMBStatusCavlc, StashPopMBStatusCavlc, WriteBlockResidualCavlc,
    CLIP3_QP_0_51, LUMA_AC, LUMA_DC, CHROMA_DC, ENC_RETURN_SUCCESS,
};
use lib::svc_encode_slice::SDynamicSlicingStack;
use lib::svc_set_mb_syn_cabac::SCabacCtx;
use lib::vlc_encoder::{BsFlush, BsWriteBits};

#[test]
fn test_cbp_lookup_tables() {
    assert_eq!(g_kuiIntra4x4CbpMap[0], 3);
    assert_eq!(g_kuiIntra4x4CbpMap[47], 0);
    assert_eq!(g_kuiInterCbpMap[0], 0);
    assert_eq!(g_kuiInterCbpMap[47], 12);
}

#[test]
fn test_non_zero_count_average() {
    assert_eq!(wels_non_zero_count_average(2, 4), 3);
    assert_eq!(wels_non_zero_count_average(2, -1), 2);
    assert_eq!(wels_non_zero_count_average(-1, 4), 4);
    assert_eq!(wels_non_zero_count_average(-1, -1), 0);
}

#[test]
fn test_clip3_qp() {
    assert_eq!(CLIP3_QP_0_51(-5), 0);
    assert_eq!(CLIP3_QP_0_51(26), 26);
    assert_eq!(CLIP3_QP_0_51(60), 51);
}

#[test]
fn test_cavlc_param_cal() {
    let mut coeffs = [0i16; 16];
    coeffs[0] = 5;
    coeffs[2] = -1;
    coeffs[3] = 1;

    let mut run = [0u8; 16];
    let mut level = [0i16; 16];
    let mut total_coeffs = 0i32;

    let total_zeros = CavlcParamCal_c(&coeffs[..], &mut run, &mut level, &mut total_coeffs, 15);
    assert_eq!(total_coeffs, 3);
    assert_eq!(total_zeros, 1);
}

#[test]
fn cavlc_param_cal_lists_levels_from_the_highest_frequency() {
    let mut coeffs = [0i16; 16];
    coeffs[0] = 5;
    coeffs[2] = -1;
    coeffs[3] = 1;
    let mut run = [0u8; 16];
    let mut level = [0i16; 16];
    let mut total_coeffs = 0i32;
    CavlcParamCal_c(&coeffs[..], &mut run, &mut level, &mut total_coeffs, 15);
    assert_eq!(&level[..3], &[1, -1, 5]);
    assert_eq!(&run[..3], &[0, 1, 0]);
}

#[test]
fn cavlc_param_cal_of_an_empty_block() {
    let coeffs = [0i16; 16];
    let mut run = [0u8; 16];
    let mut level = [0i16; 16];
    let mut total_coeffs = 7i32;
    let total_zeros = CavlcParamCal_c(&coeffs[..], &mut run, &mut level, &mut total_coeffs, 15);
    assert_eq!(total_coeffs, 0);
    assert_eq!(total_zeros, 0);
}

#[test]
fn non_zero_count_average_rounds_up() {
    assert_eq!(wels_non_zero_count_average(1, 2), 2);
    assert_eq!(wels_non_zero_count_average(16, 16), 16);
}

#[test]
fn residual_block_of_zeros_is_one_coeff_token() {
    // nC = 0, no coefficients: coeff_token "1".
    let coeffs = [0i16; 16];
    let mut buf = vec![0u8; 64];
    let mut bs = BsWriter::new();
    let r = WriteBlockResidualCavlc(&coeffs, 14, 1, LUMA_AC, 0, &mut buf, &mut bs);
    assert_eq!(r, ENC_RETURN_SUCCESS);
    assert_eq!(GetBsPosCavlc(&bs), 1);
    BsFlush(&mut buf, &mut bs);
    assert_eq!(buf[0], 0x80);
}

#[test]
fn residual_block_of_the_standard_example() {
    // The 4x4 block 0 3 -1 0 / 0 -1 1 0 / 1 0 0 0 / 0 0 0 0 in zig-zag order:
    // 0, 3, 0, 1, -1, -1, 0, 1, 0, ... with nC = 0 codes as
    // 000010001110010111101101 (24 bits).
    let mut coeffs = [0i16; 16];
    coeffs[1] = 3;
    coeffs[3] = 1;
    coeffs[4] = -1;
    coeffs[5] = -1;
    coeffs[7] = 1;
    let mut buf = vec![0u8; 64];
    let mut bs = BsWriter::new();
    let r = WriteBlockResidualCavlc(&coeffs, 15, 1, LUMA_DC, 0, &mut buf, &mut bs);
    assert_eq!(r, ENC_RETURN_SUCCESS);
    assert_eq!(GetBsPosCavlc(&bs), 24);
    BsFlush(&mut buf, &mut bs);
    assert_eq!(&buf[..3], &[0b0000_1000, 0b1110_0101, 0b1110_1101]);
}

#[test]
fn residual_chroma_dc_uses_its_own_tables() {
    // Chroma DC with no coefficients: coeff_token "01".
    let coeffs = [0i16; 4];
    let mut buf = vec![0u8; 64];
    let mut bs = BsWriter::new();
    let r = WriteBlockResidualCavlc(&coeffs, 3, 1, CHROMA_DC, 17, &mut buf, &mut bs);
    assert_eq!(r, ENC_RETURN_SUCCESS);
    assert_eq!(GetBsPosCavlc(&bs), 2);
}

#[test]
fn stash_and_pop_restore_the_writer() {
    let mut buf = vec![0u8; 64];
    let mut bs = BsWriter::new();
    BsWriteBits(&mut buf, &mut bs, 5, 0b10110);
    let mut dss = SDynamicSlicingStack {
        iStartPos: 0,
        iCurrentPos: 0,
        sBsStack: BsWriter::new(),
        sStoredCabac: SCabacCtx::default(),
        iMbSkipRunStack: 0,
        uiLastMbQp: 0,
        pRestoreBuffer: None,
    };
    StashMBStatusCavlc(&mut bs, &mut dss, 30, 4);
    BsWriteBits(&mut buf, &mut bs, 13, 0x1abc);
    assert_eq!(GetBsPosCavlc(&bs), 18);
    let run = StashPopMBStatusCavlc(&mut bs, &mut dss);
    assert_eq!(run, 4);
    assert_eq!(GetBsPosCavlc(&bs), 5);
    assert_eq!(dss.uiLastMbQp, 30);
}

#[test]
fn residual_block_fits_a_small_buffer() {
    // Chroma DC [1, 0, 1, 0]: coeff_token and signs "00100", total_zeros
    // "01", run_before "0" -- one byte in a 16-byte buffer.
    let coeffs = [1i16, 0, 1, 0];
    let mut buf = vec![0u8; 16];
    let mut bs = BsWriter::new();
    let r = WriteBlockResidualCavlc(&coeffs, 3, 1, CHROMA_DC, 17, &mut buf, &mut bs);
    assert_eq!(r, ENC_RETURN_SUCCESS);
    assert_eq!(GetBsPosCavlc(&bs), 8);
    BsFlush(&mut buf, &mut bs);
    assert_eq!(buf[0], 0x22);
}
