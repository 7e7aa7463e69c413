//! Exp-Golomb and CAVLC codeword writers over the bit writer.
use vstd::prelude::*;
use crate::bits::{BsWriter, val_bits, ue_bits, se_bits, te_bits, zero_bits, one_bits, pad_len, ue_len};

verus! {

/// CAVLC residual block categories.
#[derive(Clone, Copy, Debug, PartialEq, Eq, Structural)]
pub enum ECtxBlockCat {
    LUMA_DC,
    LUMA_AC,
    LUMA_4x4,
    CHROMA_DC,
    CHROMA_AC,
}

/// A CAVLC codeword table entry.
#[derive(Clone, Copy, Debug, Default, PartialEq, Eq, Structural)]
pub struct TagCavlcTableItem {
    pub uiBits: u16,
    pub uiLen: u8,
    pub uiSuffixLength: u8,
}

/// Maps the neighbour non-zero count `nC` (0..=17) to a coeff_token table index.
pub const g_kuiEncNcMapTable: [u8; 18] = [
    0, 0, 1, 1, 2, 2, 2, 2, 3, 3, 3, 3, 3, 3, 3, 3, 3, 4,
];

/// Clamps `zerosLeft` to the run_before table row (rows above 6 share one).
pub const g_kuiZeroLeftMap: [u8; 16] = [
    0, 1, 2, 3, 4, 5, 6, 7, 7, 7, 7, 7, 7, 7, 7, 7,
];

/// coeff_token codewords: `[nC class][TotalCoeff][TrailingOnes] = [value, length]`;
/// class 4 is the chroma DC table.
pub const g_kuiVlcCoeffToken: [[[[u8; 2]; 4]; 17]; 5] = [

    [
        [[1, 1], [0, 0], [0, 0], [0, 0]],
        [[5, 6], [1, 2], [0, 0], [0, 0]],
        [[7, 8], [4, 6], [1, 3], [0, 0]],
        [[7, 9], [6, 8], [5, 7], [3, 5]],
        [[7, 10], [6, 9], [5, 8], [3, 6]],
        [[7, 11], [6, 10], [5, 9], [4, 7]],
        [[15, 13], [6, 11], [5, 10], [4, 8]],
        [[11, 13], [14, 13], [5, 11], [4, 9]],
        [[8, 13], [10, 13], [13, 13], [4, 10]],
        [[15, 14], [14, 14], [9, 13], [4, 11]],
        [[11, 14], [10, 14], [13, 14], [12, 13]],
        [[15, 15], [14, 15], [9, 14], [12, 14]],
        [[11, 15], [10, 15], [13, 15], [8, 14]],
        [[15, 16], [1, 15], [9, 15], [12, 15]],
        [[11, 16], [14, 16], [13, 16], [8, 15]],
        [[7, 16], [10, 16], [9, 16], [12, 16]],
        [[4, 16], [6, 16], [5, 16], [8, 16]],
    ],

    [
        [[3, 2], [0, 0], [0, 0], [0, 0]],
        [[11, 6], [2, 2], [0, 0], [0, 0]],
        [[7, 6], [7, 5], [3, 3], [0, 0]],
        [[7, 7], [10, 6], [9, 6], [5, 4]],
        [[7, 8], [6, 6], [5, 6], [4, 4]],
        [[4, 8], [6, 7], [5, 7], [6, 5]],
        [[7, 9], [6, 8], [5, 8], [8, 6]],
        [[15, 11], [6, 9], [5, 9], [4, 6]],
        [[11, 11], [14, 11], [13, 11], [4, 7]],
        [[15, 12], [10, 11], [9, 11], [4, 9]],
        [[11, 12], [14, 12], [13, 12], [12, 11]],
        [[8, 12], [10, 12], [9, 12], [8, 11]],
        [[15, 13], [14, 13], [13, 13], [12, 12]],
        [[11, 13], [10, 13], [9, 13], [12, 13]],
        [[7, 13], [11, 14], [6, 13], [8, 13]],
        [[9, 14], [8, 14], [10, 14], [1, 13]],
        [[7, 14], [6, 14], [5, 14], [4, 14]],
    ],

    [
        [[15, 4], [0, 0], [0, 0], [0, 0]],
        [[15, 6], [14, 4], [0, 0], [0, 0]],
        [[11, 6], [15, 5], [13, 4], [0, 0]],
        [[8, 6], [12, 5], [14, 5], [12, 4]],
        [[15, 7], [10, 5], [11, 5], [11, 4]],
        [[11, 7], [8, 5], [9, 5], [10, 4]],
        [[9, 7], [14, 6], [13, 6], [9, 4]],
        [[8, 7], [10, 6], [9, 6], [8, 4]],
        [[15, 8], [14, 7], [13, 7], [13, 5]],
        [[11, 8], [14, 8], [10, 7], [12, 6]],
        [[15, 9], [10, 8], [13, 8], [12, 7]],
        [[11, 9], [14, 9], [9, 8], [12, 8]],
        [[8, 9], [10, 9], [13, 9], [8, 8]],
        [[13, 10], [7, 9], [9, 9], [12, 9]],
        [[9, 10], [12, 10], [11, 10], [10, 10]],
        [[5, 10], [8, 10], [7, 10], [6, 10]],
        [[1, 10], [4, 10], [3, 10], [2, 10]],
    ],

    [
        [[3, 6], [0, 0], [0, 0], [0, 0]],
        [[0, 6], [1, 6], [0, 0], [0, 0]],
        [[4, 6], [5, 6], [6, 6], [0, 0]],
        [[8, 6], [9, 6], [10, 6], [11, 6]],
        [[12, 6], [13, 6], [14, 6], [15, 6]],
        [[16, 6], [17, 6], [18, 6], [19, 6]],
        [[20, 6], [21, 6], [22, 6], [23, 6]],
        [[24, 6], [25, 6], [26, 6], [27, 6]],
        [[28, 6], [29, 6], [30, 6], [31, 6]],
        [[32, 6], [33, 6], [34, 6], [35, 6]],
        [[36, 6], [37, 6], [38, 6], [39, 6]],
        [[40, 6], [41, 6], [42, 6], [43, 6]],
        [[44, 6], [45, 6], [46, 6], [47, 6]],
        [[48, 6], [49, 6], [50, 6], [51, 6]],
        [[52, 6], [53, 6], [54, 6], [55, 6]],
        [[56, 6], [57, 6], [58, 6], [59, 6]],
        [[60, 6], [61, 6], [62, 6], [63, 6]],
    ],

    [
        [[1, 2], [0, 0], [0, 0], [0, 0]],
        [[7, 6], [1, 1], [0, 0], [0, 0]],
        [[4, 6], [6, 6], [1, 3], [0, 0]],
        [[3, 6], [3, 7], [2, 7], [5, 6]],
        [[2, 6], [3, 8], [2, 8], [0, 7]],
        [[0, 0], [0, 0], [0, 0], [0, 0]],
        [[0, 0], [0, 0], [0, 0], [0, 0]],
        [[0, 0], [0, 0], [0, 0], [0, 0]],
        [[0, 0], [0, 0], [0, 0], [0, 0]],
        [[0, 0], [0, 0], [0, 0], [0, 0]],
        [[0, 0], [0, 0], [0, 0], [0, 0]],
        [[0, 0], [0, 0], [0, 0], [0, 0]],
        [[0, 0], [0, 0], [0, 0], [0, 0]],
        [[0, 0], [0, 0], [0, 0], [0, 0]],
        [[0, 0], [0, 0], [0, 0], [0, 0]],
        [[0, 0], [0, 0], [0, 0], [0, 0]],
        [[0, 0], [0, 0], [0, 0], [0, 0]],
    ],
];

/// level_prefix codewords: `[prefix] = [value, length]`.
pub const g_kuiVlcLevelPrefix: [[u8; 2]; 15] = [
    [1, 1], [1, 2], [1, 3], [1, 4], [1, 5], [1, 6], [1, 7], [1, 8],
    [1, 9], [1, 10], [1, 11], [1, 12], [1, 13], [1, 14], [1, 15],
];

/// total_zeros codewords for 4x4 blocks: `[TotalCoeff][total_zeros] = [value, length]`.
pub const g_kuiVlcTotalZeros: [[[u8; 2]; 16]; 16] = [

    [
        [0, 0], [0, 0], [0, 0], [0, 0], [0, 0], [0, 0], [0, 0], [0, 0],
        [0, 0], [0, 0], [0, 0], [0, 0], [0, 0], [0, 0], [0, 0], [0, 0],
    ],

    [
        [1, 1], [3, 3], [2, 3], [3, 4], [2, 4], [3, 5], [2, 5], [3, 6],
        [2, 6], [3, 7], [2, 7], [3, 8], [2, 8], [3, 9], [2, 9], [1, 9],
    ],

    [
        [7, 3], [6, 3], [5, 3], [4, 3], [3, 3], [5, 4], [4, 4], [3, 4],
        [2, 4], [3, 5], [2, 5], [3, 6], [2, 6], [1, 6], [0, 6], [0, 0],
    ],

    [
        [5, 4], [7, 3], [6, 3], [5, 3], [4, 4], [3, 4], [4, 3], [3, 3],
        [2, 4], [3, 5], [2, 5], [1, 6], [1, 5], [0, 6], [0, 0], [0, 0],
    ],

    [
        [3, 5], [7, 3], [5, 4], [4, 4], [6, 3], [5, 3], [4, 3], [3, 4],
        [3, 3], [2, 4], [2, 5], [1, 5], [0, 5], [0, 0], [0, 0], [0, 0],
    ],

    [
        [5, 4], [4, 4], [3, 4], [7, 3], [6, 3], [5, 3], [4, 3], [3, 3],
        [2, 4], [1, 5], [1, 4], [0, 5], [0, 0], [0, 0], [0, 0], [0, 0],
    ],

    [
        [1, 6], [1, 5], [7, 3], [6, 3], [5, 3], [4, 3], [3, 3], [2, 3],
        [1, 4], [1, 3], [0, 6], [0, 0], [0, 0], [0, 0], [0, 0], [0, 0],
    ],

    [
        [1, 6], [1, 5], [5, 3], [4, 3], [3, 3], [3, 2], [2, 3], [1, 4],
        [1, 3], [0, 6], [0, 0], [0, 0], [0, 0], [0, 0], [0, 0], [0, 0],
    ],

    [
        [1, 6], [1, 4], [1, 5], [3, 3], [3, 2], [2, 2], [2, 3], [1, 3],
        [0, 6], [0, 0], [0, 0], [0, 0], [0, 0], [0, 0], [0, 0], [0, 0],
    ],

    [
        [1, 6], [0, 6], [1, 4], [3, 2], [2, 2], [1, 3], [1, 2], [1, 5],
        [0, 0], [0, 0], [0, 0], [0, 0], [0, 0], [0, 0], [0, 0], [0, 0],
    ],

    [
        [1, 5], [0, 5], [1, 3], [3, 2], [2, 2], [1, 2], [1, 4], [0, 0],
        [0, 0], [0, 0], [0, 0], [0, 0], [0, 0], [0, 0], [0, 0], [0, 0],
    ],

    [
        [0, 4], [1, 4], [1, 3], [2, 3], [1, 1], [3, 3], [0, 0], [0, 0],
        [0, 0], [0, 0], [0, 0], [0, 0], [0, 0], [0, 0], [0, 0], [0, 0],
    ],

    [
        [0, 4], [1, 4], [1, 2], [1, 1], [1, 3], [0, 0], [0, 0], [0, 0],
        [0, 0], [0, 0], [0, 0], [0, 0], [0, 0], [0, 0], [0, 0], [0, 0],
    ],

    [
        [0, 3], [1, 3], [1, 1], [1, 2], [0, 0], [0, 0], [0, 0], [0, 0],
        [0, 0], [0, 0], [0, 0], [0, 0], [0, 0], [0, 0], [0, 0], [0, 0],
    ],

    [
        [0, 2], [1, 2], [1, 1], [0, 0], [0, 0], [0, 0], [0, 0], [0, 0],
        [0, 0], [0, 0], [0, 0], [0, 0], [0, 0], [0, 0], [0, 0], [0, 0],
    ],

    [
        [0, 1], [1, 1], [0, 0], [0, 0], [0, 0], [0, 0], [0, 0], [0, 0],
        [0, 0], [0, 0], [0, 0], [0, 0], [0, 0], [0, 0], [0, 0], [0, 0],
    ],
];

/// total_zeros codewords for 2x2 chroma DC blocks.
pub const g_kuiVlcTotalZerosChromaDc: [[[u8; 2]; 4]; 4] = [
    [[0, 0], [0, 0], [0, 0], [0, 0]],
    [[1, 1], [1, 2], [1, 3], [0, 3]],
    [[1, 1], [1, 2], [0, 2], [0, 0]],
    [[1, 1], [0, 1], [0, 0], [0, 0]],
];

/// total_zeros codewords for 4:2:2 chroma DC blocks.
pub const g_kuiVlcTotalZerosChromaDc422: [[[u8; 2]; 8]; 8] = [
    [[0, 0], [0, 0], [0, 0], [0, 0], [0, 0], [0, 0], [0, 0], [0, 0]],
    [[1, 1], [1, 2], [1, 3], [1, 4], [1, 5], [1, 6], [1, 7], [0, 7]],
    [[7, 3], [6, 3], [5, 3], [4, 3], [3, 3], [2, 3], [1, 3], [0, 3]],
    [[5, 4], [7, 3], [6, 3], [5, 3], [4, 4], [3, 4], [0, 4], [0, 0]],
    [[3, 5], [7, 3], [5, 4], [4, 4], [6, 3], [0, 0], [0, 0], [0, 0]],
    [[5, 4], [4, 4], [3, 4], [7, 3], [0, 0], [0, 0], [0, 0], [0, 0]],
    [[1, 6], [1, 5], [7, 3], [0, 0], [0, 0], [0, 0], [0, 0], [0, 0]],
    [[1, 1], [0, 1], [0, 0], [0, 0], [0, 0], [0, 0], [0, 0], [0, 0]],
];

/// run_before codewords: `[zerosLeft row][run_before] = [value, length]`.
pub const g_kuiVlcRunBefore: [[[u8; 2]; 15]; 8] = [

    [
        [0, 0], [0, 0], [0, 0], [0, 0], [0, 0], [0, 0], [0, 0], [0, 0],
        [0, 0], [0, 0], [0, 0], [0, 0], [0, 0], [0, 0], [0, 0],
    ],

    [
        [1, 1], [0, 1], [0, 0], [0, 0], [0, 0], [0, 0], [0, 0], [0, 0],
        [0, 0], [0, 0], [0, 0], [0, 0], [0, 0], [0, 0], [0, 0],
    ],

    [
        [1, 1], [1, 2], [0, 2], [0, 0], [0, 0], [0, 0], [0, 0], [0, 0],
        [0, 0], [0, 0], [0, 0], [0, 0], [0, 0], [0, 0], [0, 0],
    ],

    [
        [3, 2], [2, 2], [1, 2], [0, 2], [0, 0], [0, 0], [0, 0], [0, 0],
        [0, 0], [0, 0], [0, 0], [0, 0], [0, 0], [0, 0], [0, 0],
    ],

    [
        [3, 2], [2, 2], [1, 2], [1, 3], [0, 3], [0, 0], [0, 0], [0, 0],
        [0, 0], [0, 0], [0, 0], [0, 0], [0, 0], [0, 0], [0, 0],
    ],

    [
        [3, 2], [2, 2], [3, 3], [2, 3], [1, 3], [0, 3], [0, 0], [0, 0],
        [0, 0], [0, 0], [0, 0], [0, 0], [0, 0], [0, 0], [0, 0],
    ],

    [
        [3, 2], [0, 3], [1, 3], [3, 3], [2, 3], [5, 3], [4, 3], [0, 0],
        [0, 0], [0, 0], [0, 0], [0, 0], [0, 0], [0, 0], [0, 0],
    ],

    [
        [7, 3], [6, 3], [5, 3], [4, 3], [3, 3], [2, 3], [1, 3], [1, 4],
        [1, 5], [1, 6], [1, 7], [1, 8], [1, 9], [1, 10], [1, 11],
    ],
];



/// The codeword `[value, length]` as written bits.
pub open spec fn code_bits(c: [u8; 2]) -> Seq<bool> {
    val_bits(c[0] as u32, c[1] as nat)
}

/// coeff_token for luma and chroma AC blocks.
pub open spec fn coeff_token_bits(nc: int, total_coeff: int, trailing_ones: int) -> Seq<bool> {
    code_bits(g_kuiVlcCoeffToken[g_kuiEncNcMapTable[nc] as int][total_coeff][trailing_ones])
}

/// Writes the `iLen` low bits of `kuiValue`. Always answers 0.
pub fn BsWriteBits(buf: &mut [u8], pBs: &mut BsWriter, iLen: i32, kuiValue: u32) -> (r: i32)
    requires
        old(pBs).wf(),
        0 <= iLen <= 32,
        crate::bits::fits(kuiValue, iLen as int),
        old(pBs).has_room(old(buf)@.len() as int, iLen as int),
    ensures
        r == 0,
        final(pBs).wf(),
        final(buf)@.len() == old(buf)@.len(),
        final(pBs).bits(final(buf)@) == old(pBs).bits(old(buf)@) + val_bits(kuiValue, iLen as nat),
        final(pBs).bit_len() == old(pBs).bit_len() + iLen,
{
    pBs.write_bits(buf, iLen, kuiValue);
    0
}

/// Writes one bit. Always answers 0.
pub fn BsWriteOneBit(buf: &mut [u8], pBs: &mut BsWriter, kuiValue: u32) -> (r: i32)
    requires
        old(pBs).wf(),
        kuiValue <= 1,
        old(pBs).has_room(old(buf)@.len() as int, 1),
    ensures
        r == 0,
        final(pBs).wf(),
        final(buf)@.len() == old(buf)@.len(),
        final(pBs).bits(final(buf)@) == old(pBs).bits(old(buf)@) + seq![kuiValue == 1],
        final(pBs).bit_len() == old(pBs).bit_len() + 1,
{
    proof {
        crate::bits::lemma_one_bit(kuiValue);
    }
    pBs.write_bits(buf, 1, kuiValue);
    0
}

/// Stores the pending bits, zero padded to a byte boundary. Always answers 0.
pub fn BsFlush(buf: &mut [u8], pBs: &mut BsWriter) -> (r: i32)
    requires
        old(pBs).wf(),
        old(pBs).left_bits == 32 || old(pBs).pos + 4 <= old(buf)@.len(),
        8 * old(buf)@.len() + 64 <= i32::MAX,
    ensures
        r == 0,
        final(pBs).wf(),
        final(pBs).left_bits == 32,
        final(buf)@.len() == old(buf)@.len(),
        final(pBs).bits(final(buf)@) == old(pBs).bits(old(buf)@) + zero_bits(
            pad_len(old(pBs).bit_len()),
        ),
{
    pBs.flush(buf);
    0
}

/// Length in bits of the unsigned Exp-Golomb code of `kiValue`.
pub fn BsSizeUE(kiValue: u32) -> (r: u32)
    requires
        kiValue < u32::MAX,
    ensures
        r == ue_bits(kiValue).len(),
{
    ue_len(kiValue)
}

/// Length in bits of the signed Exp-Golomb code of `kiValue`.
pub fn BsSizeSE(kiValue: i32) -> (r: u32)
    requires
        kiValue != i32::MIN,
    ensures
        r == se_bits(kiValue).len(),
{
    if kiValue == 0 {
        proof {
            assert(crate::bits::floor_log2(1) == 0);
        }
        1
    } else if kiValue > 0 {
        let t = ((kiValue as u32) * 2 - 1) as u32;
        BsSizeUE(t)
    } else {
        let t = ((-kiValue) as u32) * 2;
        BsSizeUE(t)
    }
}

/// Writes `ue(v)`. Always answers 0.
pub fn BsWriteUE(buf: &mut [u8], pBs: &mut BsWriter, kuiValue: u32) -> (r: i32)
    requires
        old(pBs).wf(),
        kuiValue < u32::MAX,
        old(pBs).has_room(old(buf)@.len() as int, ue_bits(kuiValue).len() as int),
    ensures
        r == 0,
        final(pBs).wf(),
        final(buf)@.len() == old(buf)@.len(),
        final(pBs).bits(final(buf)@) == old(pBs).bits(old(buf)@) + ue_bits(kuiValue),
        final(pBs).bit_len() == old(pBs).bit_len() + ue_bits(kuiValue).len(),
{
    pBs.write_ue(buf, kuiValue);
    0
}

/// Writes `se(v)`. Always answers 0.
pub fn BsWriteSE(buf: &mut [u8], pBs: &mut BsWriter, kiValue: i32) -> (r: i32)
    requires
        old(pBs).wf(),
        kiValue != i32::MIN,
        old(pBs).has_room(old(buf)@.len() as int, se_bits(kiValue).len() as int),
    ensures
        r == 0,
        final(pBs).wf(),
        final(buf)@.len() == old(buf)@.len(),
        final(pBs).bits(final(buf)@) == old(pBs).bits(old(buf)@) + se_bits(kiValue),
        final(pBs).bit_len() == old(pBs).bit_len() + se_bits(kiValue).len(),
{
    pBs.write_se(buf, kiValue);
    0
}

/// Writes `te(v)` for the range bound `kiX`.
pub fn BsWriteTE(buf: &mut [u8], pBs: &mut BsWriter, kiX: i32, kuiValue: u32)
    requires
        old(pBs).wf(),
        kiX == 1 || kuiValue < u32::MAX,
        old(pBs).has_room(old(buf)@.len() as int, te_bits(kiX, kuiValue).len() as int),
    ensures
        final(pBs).wf(),
        final(buf)@.len() == old(buf)@.len(),
        final(pBs).bits(final(buf)@) == old(pBs).bits(old(buf)@) + te_bits(kiX, kuiValue),
        final(pBs).bit_len() == old(pBs).bit_len() + te_bits(kiX, kuiValue).len(),
{
    pBs.write_te(buf, kiX, kuiValue);
}

/// The number of bits written so far.
pub fn BsGetBitsPos(pBs: &BsWriter) -> (r: i32)
    requires
        pBs.wf(),
    ensures
        r == pBs.bit_len(),
{
    pBs.bits_pos()
}

/// Writes the RBSP stop bit and zero pads to a byte boundary. Always answers 0.
pub fn BsRbspTrailingBits(buf: &mut [u8], pBs: &mut BsWriter) -> (r: i32)
    requires
        old(pBs).wf(),
        old(pBs).pos + 8 <= old(buf)@.len(),
        8 * old(buf)@.len() + 64 <= i32::MAX,
    ensures
        r == 0,
        final(pBs).wf(),
        final(pBs).left_bits == 32,
        final(buf)@.len() == old(buf)@.len(),
        final(pBs).bits(final(buf)@) == old(pBs).bits(old(buf)@) + seq![true] + zero_bits(
            pad_len(old(pBs).bit_len() + 1),
        ),
{
    BsWriteOneBit(buf, pBs, 1);
    BsFlush(buf, pBs);
    0
}

/// Pads to a byte boundary with one bits and flushes.
pub fn BsAlign(buf: &mut [u8], pBs: &mut BsWriter)
    requires
        old(pBs).wf(),
        old(pBs).pos + 8 <= old(buf)@.len(),
        8 * old(buf)@.len() + 64 <= i32::MAX,
    ensures
        final(pBs).wf(),
        final(pBs).left_bits == 32,
        final(buf)@.len() == old(buf)@.len(),
        final(pBs).bits(final(buf)@) == old(pBs).bits(old(buf)@) + one_bits(
            pad_len(old(pBs).bit_len()),
        ),
{
    pBs.align(buf);
}

/// Writes coeff_token for luma and chroma AC blocks. Always answers 0.
pub fn WriteTotalCoeffTrailingones(
    buf: &mut [u8],
    pBs: &mut BsWriter,
    uiNc: u8,
    uiTotalCoeff: u8,
    uiTrailingOnes: u8,
) -> (r: i32)
    requires
        old(pBs).wf(),
        uiNc < 18,
        uiTotalCoeff <= 16,
        uiTrailingOnes <= 3,
        old(pBs).has_room(old(buf)@.len() as int, 16),
    ensures
        r == 0,
        final(pBs).wf(),
        final(buf)@.len() == old(buf)@.len(),
        final(pBs).bits(final(buf)@) == old(pBs).bits(old(buf)@) + coeff_token_bits(
            uiNc as int,
            uiTotalCoeff as int,
            uiTrailingOnes as int,
        ),
{
    let kuiNcIdx = g_kuiEncNcMapTable[uiNc as usize] as usize;
    let kpCoeffToken = g_kuiVlcCoeffToken[kuiNcIdx][uiTotalCoeff as usize][uiTrailingOnes as usize];
    pBs.write_low_bits(buf, kpCoeffToken[1] as i32, kpCoeffToken[0] as u32);
    0
}

/// Writes coeff_token for 2x2 chroma DC blocks. Always answers 0.
pub fn WriteTotalcoeffTrailingonesChroma(
    buf: &mut [u8],
    pBs: &mut BsWriter,
    uiTotalCoeff: u8,
    uiTrailingOnes: u8,
) -> (r: i32)
    requires
        old(pBs).wf(),
        uiTotalCoeff <= 16,
        uiTrailingOnes <= 3,
        old(pBs).has_room(old(buf)@.len() as int, 8),
    ensures
        r == 0,
        final(pBs).wf(),
        final(buf)@.len() == old(buf)@.len(),
        final(pBs).bits(final(buf)@) == old(pBs).bits(old(buf)@) + code_bits(
            g_kuiVlcCoeffToken[4][uiTotalCoeff as int][uiTrailingOnes as int],
        ),
{
    let kpCoeffToken = g_kuiVlcCoeffToken[4][uiTotalCoeff as usize][uiTrailingOnes as usize];
    pBs.write_low_bits(buf, kpCoeffToken[1] as i32, kpCoeffToken[0] as u32);
    0
}

/// Writes level_prefix: `kuiZeroCount` zeros and a one. Always answers 0.
pub fn WriteLevelPrefix(buf: &mut [u8], pBs: &mut BsWriter, kuiZeroCount: u32) -> (r: i32)
    requires
        old(pBs).wf(),
        kuiZeroCount <= 31,
        old(pBs).has_room(old(buf)@.len() as int, kuiZeroCount + 1),
    ensures
        r == 0,
        final(pBs).wf(),
        final(buf)@.len() == old(buf)@.len(),
        final(pBs).bits(final(buf)@) == old(pBs).bits(old(buf)@) + zero_bits(kuiZeroCount as nat)
            + seq![true],
{
    proof {
        crate::bits::lemma_unary(kuiZeroCount as int);
    }
    pBs.write_low_bits(buf, (kuiZeroCount + 1) as i32, 1);
    0
}

/// Writes total_zeros for 4x4 blocks. Always answers 0.
pub fn WriteTotalZeros(
    buf: &mut [u8],
    pBs: &mut BsWriter,
    uiTotalCoeff: u32,
    uiTotalZeros: u32,
) -> (r: i32)
    requires
        old(pBs).wf(),
        uiTotalCoeff < 16,
        uiTotalZeros < 16,
        old(pBs).has_room(old(buf)@.len() as int, 9),
    ensures
        r == 0,
        final(pBs).wf(),
        final(buf)@.len() == old(buf)@.len(),
        final(pBs).bits(final(buf)@) == old(pBs).bits(old(buf)@) + code_bits(
            g_kuiVlcTotalZeros[uiTotalCoeff as int][uiTotalZeros as int],
        ),
{
    let kpTotalZeros = g_kuiVlcTotalZeros[uiTotalCoeff as usize][uiTotalZeros as usize];
    pBs.write_low_bits(buf, kpTotalZeros[1] as i32, kpTotalZeros[0] as u32);
    0
}

/// Writes total_zeros for 2x2 chroma DC blocks. Always answers 0.
pub fn WriteTotalZerosChromaDc(
    buf: &mut [u8],
    pBs: &mut BsWriter,
    uiTotalCoeff: u32,
    uiTotalZeros: u32,
) -> (r: i32)
    requires
        old(pBs).wf(),
        uiTotalCoeff < 4,
        uiTotalZeros < 4,
        old(pBs).has_room(old(buf)@.len() as int, 3),
    ensures
        r == 0,
        final(pBs).wf(),
        final(buf)@.len() == old(buf)@.len(),
        final(pBs).bits(final(buf)@) == old(pBs).bits(old(buf)@) + code_bits(
            g_kuiVlcTotalZerosChromaDc[uiTotalCoeff as int][uiTotalZeros as int],
        ),
{
    let kpTotalZerosChromaDc = g_kuiVlcTotalZerosChromaDc[uiTotalCoeff as usize][uiTotalZeros as usize];
    pBs.write_low_bits(buf, kpTotalZerosChromaDc[1] as i32, kpTotalZerosChromaDc[0] as u32);
    0
}

/// Writes run_before. Always answers 0.
pub fn WriteRunBefore(buf: &mut [u8], pBs: &mut BsWriter, uiZeroLeft: u8, uiRunBefore: u8) -> (r: i32)
    requires
        old(pBs).wf(),
        uiZeroLeft < 8,
        uiRunBefore < 15,
        old(pBs).has_room(old(buf)@.len() as int, 11),
    ensures
        r == 0,
        final(pBs).wf(),
        final(buf)@.len() == old(buf)@.len(),
        final(pBs).bits(final(buf)@) == old(pBs).bits(old(buf)@) + code_bits(
            g_kuiVlcRunBefore[uiZeroLeft as int][uiRunBefore as int],
        ),
{
    let kpRunBefore = g_kuiVlcRunBefore[uiZeroLeft as usize][uiRunBefore as usize];
    pBs.write_low_bits(buf, kpRunBefore[1] as i32, kpRunBefore[0] as u32);
    0
}

} // verus!
