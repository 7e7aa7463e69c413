use lib::svc_encode_mb::{WelsDequantIHadamard2x2Dc, WelsDequantLumaDc4x4, WelsIHadamard4x4Dc};
use lib::svc_set_mb_syn_cavlc::g_kuiChromaQpTable;

#[test]
fn test_hadamard_4x4_dc_identity() {
    let mut dc_buf = [0i16; 16];
    dc_buf[0] = 16;
    WelsIHadamard4x4Dc(&mut dc_buf);
    // A DC impulse spreads evenly across all 16 cells.
    for val in dc_buf.iter() {
        assert_eq!(*val, 16);
    }
}

#[test]
fn test_dequant_ihadamard_2x2_dc() {
    let mut dct2x2 = [2i16, 0, 0, 0];
    let mf: u16 = 10;
    WelsDequantIHadamard2x2Dc(&mut dct2x2, mf);
    // ((2 +- 0) * 10) >> 1 = 10 in every cell.
    assert_eq!(dct2x2, [10, 10, 10, 10]);
}

#[test]
fn test_chroma_qp_table_bounds() {
    assert_eq!(g_kuiChromaQpTable[0], 0);
    assert_eq!(g_kuiChromaQpTable[29], 29);
    assert_eq!(g_kuiChromaQpTable[30], 29);
    assert_eq!(g_kuiChromaQpTable[51], 39);
}

#[test]
fn hadamard_4x4_dc_of_a_row_pattern() {
    // Coefficient (0, 1) alone: a horizontal half-wave, + + - - in each row
    // after the inverse transform along the rows.
    let mut dc_buf = [0i16; 16];
    dc_buf[1] = 4;
    WelsIHadamard4x4Dc(&mut dc_buf);
    for row in 0..4 {
        assert_eq!(&dc_buf[row * 4..row * 4 + 4], &[4, 4, -4, -4]);
    }
}

#[test]
fn dequant_luma_dc_scales_by_the_qp_table() {
    // qp 0: (x * 10 + 2) >> 2.
    let mut res = [0i16; 16];
    res[0] = 4;
    res[15] = -8;
    WelsDequantLumaDc4x4(&mut res, 0);
    assert_eq!(res[0], 10);
    assert_eq!(res[15], -20);
    assert_eq!(res[1], 0);
}

#[test]
fn dequant_ihadamard_2x2_separates_the_four_bases() {
    let mut dct2x2 = [4i16, 2, 0, 0];
    WelsDequantIHadamard2x2Dc(&mut dct2x2, 2);
    // s = [4+2, 4-2, 4+2, 4-2] ... times 2, halved.
    assert_eq!(dct2x2, [6, 2, 6, 2]);
}

#[test]
fn dequant_luma_dc_keeps_the_low_16_bits_of_a_large_result() {
    // qp 11: (20000 * 18 + 1) >> 1 == 180000, stored in 16 bits.
    let mut res = [0i16; 16];
    res[2] = 20000;
    WelsDequantLumaDc4x4(&mut res, 11);
    assert_eq!(res[2], -16608);
}
