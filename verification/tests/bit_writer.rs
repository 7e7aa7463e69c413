use lib::bits::BsWriter;
use lib::vlc_encoder::{
    BsAlign, BsFlush, BsGetBitsPos, BsRbspTrailingBits, BsSizeSE, BsSizeUE, BsWriteBits,
    BsWriteOneBit, BsWriteSE, BsWriteTE, BsWriteUE, WriteLevelPrefix, WriteRunBefore,
    WriteTotalCoeffTrailingones, WriteTotalZeros, WriteTotalZerosChromaDc,
    WriteTotalcoeffTrailingonesChroma,
};

fn written(f: impl FnOnce(&mut Vec<u8>, &mut BsWriter)) -> (i32, Vec<u8>) {
    let mut buf = vec![0u8; 64];
    let mut bs = BsWriter::new();
    f(&mut buf, &mut bs);
    let n = BsGetBitsPos(&bs);
    BsFlush(&mut buf, &mut bs);
    (n, buf)
}

#[test]
fn bits_are_written_most_significant_first() {
    let (n, buf) = written(|b, bs| {
        BsWriteBits(b, bs, 3, 0b101);
        BsWriteOneBit(b, bs, 1);
        BsWriteBits(b, bs, 12, 0xabc);
    });
    assert_eq!(n, 16);
    assert_eq!(&buf[..2], &[0b1011_1010, 0b1011_1100]);
}

#[test]
fn words_cross_the_accumulator_boundary() {
    let (n, buf) = written(|b, bs| {
        BsWriteBits(b, bs, 20, 0xfffff);
        BsWriteBits(b, bs, 20, 0x00001);
        BsWriteBits(b, bs, 32, 0x1234_5678);
    });
    assert_eq!(n, 72);
    assert_eq!(&buf[..9], &[0xff, 0xff, 0xf0, 0x00, 0x01, 0x12, 0x34, 0x56, 0x78]);
}

#[test]
fn exp_golomb_codes() {
    let (n, buf) = written(|b, bs| {
        BsWriteUE(b, bs, 0); // 1
        BsWriteUE(b, bs, 3); // 00100
        BsWriteSE(b, bs, -2); // 00101
        BsWriteSE(b, bs, 1); // 010
    });
    assert_eq!(n, 14);
    assert_eq!(&buf[..2], &[0b1001_0000, 0b1010_1000]);
    assert_eq!(BsSizeUE(0), 1);
    assert_eq!(BsSizeUE(3), 5);
    assert_eq!(BsSizeUE(u32::MAX - 1), 63);
    assert_eq!(BsSizeSE(0), 1);
    assert_eq!(BsSizeSE(-2), 5);
    assert_eq!(BsSizeSE(i32::MAX), 63);
}

#[test]
fn truncated_exp_golomb_is_one_inverted_bit_for_range_one() {
    let (n, buf) = written(|b, bs| {
        BsWriteTE(b, bs, 1, 0); // 1
        BsWriteTE(b, bs, 1, 1); // 0
        BsWriteTE(b, bs, 2, 1); // 010
    });
    assert_eq!(n, 5);
    assert_eq!(buf[0], 0b1001_0000);
}

#[test]
fn trailing_bits_and_align() {
    let mut buf = vec![0u8; 16];
    let mut bs = BsWriter::new();
    BsWriteBits(&mut buf, &mut bs, 3, 0b011);
    BsRbspTrailingBits(&mut buf, &mut bs);
    assert_eq!(BsGetBitsPos(&bs), 8);
    assert_eq!(buf[0], 0b0111_0000);

    let mut buf = vec![0u8; 16];
    let mut bs = BsWriter::new();
    BsWriteBits(&mut buf, &mut bs, 2, 0b00);
    BsAlign(&mut buf, &mut bs);
    assert_eq!(BsGetBitsPos(&bs), 8);
    assert_eq!(buf[0], 0b0011_1111);
}

#[test]
fn cavlc_table_writers() {
    // nC 0, no coefficients: "1"; chroma DC with 1 trailing one: "1".
    let (n, _) = written(|b, bs| {
        WriteTotalCoeffTrailingones(b, bs, 0, 0, 0);
    });
    assert_eq!(n, 1);
    let (n, _) = written(|b, bs| {
        WriteTotalcoeffTrailingonesChroma(b, bs, 1, 1);
    });
    assert_eq!(n, 1);
    // level_prefix 3: 0001.
    let (n, buf) = written(|b, bs| {
        WriteLevelPrefix(b, bs, 3);
    });
    assert_eq!(n, 4);
    assert_eq!(buf[0], 0b0001_0000);
    // total_zeros 3 with 5 coefficients: 111; chroma DC total_zeros 0 with 1: 1.
    let (n, buf) = written(|b, bs| {
        WriteTotalZeros(b, bs, 5, 3);
        WriteTotalZerosChromaDc(b, bs, 1, 0);
    });
    assert_eq!(n, 4);
    assert_eq!(buf[0], 0b1111_0000);
    // run_before 1 with 3 zeros left: 10.
    let (n, buf) = written(|b, bs| {
        WriteRunBefore(b, bs, 3, 1);
    });
    assert_eq!(n, 2);
    assert_eq!(buf[0], 0b1000_0000);
}
