//! Slice-level coding: the macroblock-to-slice map and the neighbour
//! availability it decides, the traversal order of a slice, the QP step on
//! overflow, the reference-list syntax of the slice header and the slice
//! bookkeeping of a layer.
use vstd::prelude::*;
use crate::mb::{
    SMB, SMbCache, MB_TYPE_16x16, MB_TYPE_16x8, MB_TYPE_8x16, MB_TYPE_8x8, MB_TYPE_SKIP,
    MB_TYPE_INTRA_BL, LEFT_MB_POS, TOP_MB_POS, TOPRIGHT_MB_POS, TOPLEFT_MB_POS,
};
use crate::svc_set_mb_syn_cavlc::{clip_qp, g_kuiChromaQpTable};
use crate::bits::{BsWriter, ue_bits, se_bits, val_bits, fits};
use crate::vlc_encoder::{BsWriteUE, BsWriteOneBit, BsWriteSE, BsWriteBits};

verus! {

pub const P_SLICE: i32 = 0;
pub const B_SLICE: i32 = 1;
pub const I_SLICE: i32 = 2;
pub const SP_SLICE: i32 = 3;
pub const SI_SLICE: i32 = 4;

pub const DELTA_QP: i32 = 2;
pub const MB_COEFF_LIST_SIZE: usize = 384;
pub const MB_BLOCK4x4_NUM: usize = 16;
pub const MB_LUMA_CHROMA_BLOCK4x4_NUM: usize = 24;
pub const MAX_THREADS_NUM: usize = 4;
pub const MAX_REF_PIC_COUNT: u32 = 16;
pub const INT_MULTIPLY: i32 = 100;
pub const SLICE_NUM_EXPAND_COEF: i32 = 2;
pub const AVER_MARGIN_BYTES: u32 = 100;

pub const ENC_RETURN_SUCCESS: i32 = 0;
pub const ENC_RETURN_MEMALLOCERR: i32 = 0x01;
pub const ENC_RETURN_UNSUPPORTED_PARA: i32 = 0x02;
pub const ENC_RETURN_UNEXPECTED: i32 = 0x04;
pub const ENC_RETURN_CORRECTED: i32 = 0x08;
pub const ENC_RETURN_INVALIDINPUT: i32 = 0x10;
pub const ENC_RETURN_MEMOVERFLOWFOUND: i32 = 0x20;
pub const ENC_RETURN_VLCOVERFLOWFOUND: i32 = 0x40;
pub const ENC_RETURN_KNOWN_ISSUE: i32 = 0x80;

/// The cost weight of each QP in rate control.
pub const g_kiQpCostTable: [i32; 52] = [
    1, 1, 1, 1, 1, 1, 1, 1, 1, 1, 1, 1, 1, 1, 1, 1, 2, 2, 2, 2, 3, 3, 3, 4, 4, 4, 5, 6, 6, 7, 8, 9, 10,
    11, 13, 14, 16, 18, 20, 23, 25, 29, 32, 36, 40, 45, 51, 57, 64, 72, 81, 91,
];

/// Clamps a QP into `0..=51`, as a table index.
pub fn CLIP3_QP_0_51(x: i32) -> (r: usize)
    ensures
        r == clip_qp(x as int),
{
    if x < 0 {
        0
    } else if x > 51 {
        51
    } else {
        x as usize
    }
}

pub fn WELS_CLIP3(x: i32, min_val: i32, max_val: i32) -> (r: i32)
    ensures
        r == (if x < min_val {
            min_val
        } else if x > max_val {
            max_val
        } else {
            x
        }),
{
    if x < min_val {
        min_val
    } else if x > max_val {
        max_val
    } else {
        x
    }
}

/// The packet size a dynamic slice aims for: the limit less a safety margin.
pub fn JUMPPACKETSIZE_CONSTRAINT(max_byte: u32) -> (r: u32)
    ensures
        r == (if max_byte >= AVER_MARGIN_BYTES {
            max_byte - AVER_MARGIN_BYTES
        } else {
            0
        }),
{
    if max_byte >= AVER_MARGIN_BYTES {
        max_byte - AVER_MARGIN_BYTES
    } else {
        0
    }
}

/// A slice of `len` bytes has passed the aim for the limit `max_byte`.
pub fn JUMPPACKETSIZE_JUDGE(len: u32, _mb_idx: i32, max_byte: u32) -> (r: bool)
    ensures
        r == (len > (if max_byte >= AVER_MARGIN_BYTES {
            max_byte - AVER_MARGIN_BYTES
        } else {
            0
        })),
{
    len > JUMPPACKETSIZE_CONSTRAINT(max_byte)
}

/// Any of the inter macroblock types.
pub fn IS_INTER(mb_type: u32) -> (r: bool)
    ensures
        r == ((mb_type & (MB_TYPE_16x16 | MB_TYPE_16x8 | MB_TYPE_8x16 | MB_TYPE_8x8 | MB_TYPE_SKIP))
            != 0),
{
    (mb_type & (MB_TYPE_16x16 | MB_TYPE_16x8 | MB_TYPE_8x16 | MB_TYPE_8x8 | MB_TYPE_SKIP)) != 0
}

pub fn IS_SKIP(mb_type: u32) -> (r: bool)
    ensures
        r == ((mb_type & MB_TYPE_SKIP) != 0),
{
    (mb_type & MB_TYPE_SKIP) != 0
}

pub fn IS_I_BL(mb_type: u32) -> (r: bool)
    ensures
        r == ((mb_type & MB_TYPE_INTRA_BL) != 0),
{
    (mb_type & MB_TYPE_INTRA_BL) != 0
}

/// `ceil(log2(v))`: the exponent of the smallest power of two not below
/// `v`, and 0 for `v <= 1`.
pub fn WELS_CEILLOG2(v: u32) -> (r: i32)
    ensures
        v <= 1 ==> r == 0,
        v > 1 ==> 1 <= r <= 32 && crate::bits::pow2_int(r - 1) < v <= crate::bits::pow2_int(r as int),
{
    if v <= 1 {
        return 0;
    }
    let mut r: i32 = 0;
    let mut p: u64 = 1;
    while p < v as u64
        invariant
            v > 1,
            0 <= r <= 32,
            p == crate::bits::pow2_int(r as int),
            r > 0 ==> crate::bits::pow2_int(r - 1) < v,
            p <= 2 * (v as int),
        decreases 2 * (v as int) - p,
    {
        proof {
            crate::bits::lemma_pow2_pos(r as int);
            if r >= 32 {
                crate::bits::lemma_pow2_u32(31);
                crate::bits::lemma_u32_shifts();
                assert(crate::bits::pow2_int(32) == 2 * crate::bits::pow2_int(31));
                assert(false);
            }
        }
        p = p * 2;
        r = r + 1;
    }
    r
}

// ---------------------------------------------------------------------------
// Slices of a frame
// ---------------------------------------------------------------------------

/// How a picture is cut into slices.
#[derive(Clone, Copy, Debug, PartialEq, Eq, Structural, Default)]
pub enum SliceMode {
    #[default]
    SM_SINGLE_SLICE,
    SM_FIXEDSLCNUM_SLICE,
    SM_RASTER_SLICE,
    SM_SIZELIMITED_SLICE,
    SM_RESERVED,
}

/// The slice layout of a picture: the slice index of every macroblock.
#[derive(Debug)]
pub struct SSliceCtx {
    pub uiSliceMode: SliceMode,
    pub iMbWidth: i16,
    pub iMbHeight: i16,
    pub iSliceNumInFrame: i32,
    pub iMbNumInFrame: i32,
    pub uiSliceSizeConstraint: u32,
    pub pOverallMbMap: Vec<u16>,
}

/// The slice of macroblock `xy`, or `u16::MAX` outside the picture or the map.
pub open spec fn slice_idc(ctx: SSliceCtx, xy: int) -> u16 {
    if 0 <= xy < ctx.iMbNumInFrame && xy < ctx.pOverallMbMap@.len() {
        ctx.pOverallMbMap@[xy]
    } else {
        u16::MAX
    }
}

/// The slice index of macroblock `kiMbXY`; `u16::MAX` without a layout or
/// outside the picture.
pub fn WelsMbToSliceIdc(pSliceCtx: Option<&SSliceCtx>, kiMbXY: i32) -> (r: u16)
    ensures
        r == match pSliceCtx {
            None => u16::MAX,
            Some(c) => slice_idc(*c, kiMbXY as int),
        },
{
    match pSliceCtx {
        None => u16::MAX,
        Some(c) => {
            if kiMbXY >= 0 && kiMbXY < c.iMbNumInFrame && (kiMbXY as usize) < c.pOverallMbMap.len() {
                c.pOverallMbMap[kiMbXY as usize]
            } else {
                u16::MAX
            }
        },
    }
}

/// The neighbour availability of the macroblock at `(x, y)`, number `xy`, in
/// slice `idc` of a picture `w` macroblocks wide: a neighbour counts when it
/// exists and lies in the same slice.
pub open spec fn neighbor_avail(ctx: SSliceCtx, xy: int, x: int, y: int, w: int, idc: u16) -> int {
    let left = x > 0 && idc == slice_idc(ctx, xy - 1);
    let top = y > 0 && idc == slice_idc(ctx, xy - w);
    let top_left = x > 0 && y > 0 && idc == slice_idc(ctx, xy - w - 1);
    let top_right = x < w - 1 && y > 0 && idc == slice_idc(ctx, xy - w + 1);
    (if left { LEFT_MB_POS as int } else { 0 }) + (if top { TOP_MB_POS as int } else { 0 }) + (
    if top_left { TOPLEFT_MB_POS as int } else { 0 }) + (if top_right { TOPRIGHT_MB_POS as int } else {
        0
    })
}

/// Assigns the macroblock to slice `uiSliceIdc` and records which of its
/// neighbours share that slice. Without a layout nothing changes.
pub fn UpdateMbNeighbor(pSliceCtx: Option<&SSliceCtx>, pMb: &mut SMB, kiMbWidth: i32, uiSliceIdc: u16)
    requires
        -0x10000000 <= old(pMb).iMbXY <= 0x10000000,
        -0x10000000 <= kiMbWidth <= 0x10000000,
    ensures
        match pSliceCtx {
            None => *final(pMb) == *old(pMb),
            Some(c) => *final(pMb) == (SMB {
                uiSliceIdc,
                uiNeighborAvail: neighbor_avail(
                    *c,
                    old(pMb).iMbXY as int,
                    old(pMb).iMbX as int,
                    old(pMb).iMbY as int,
                    kiMbWidth as int,
                    uiSliceIdc,
                ) as u8,
                ..*old(pMb)
            }),
        },
{
    let c = match pSliceCtx {
        None => {
            return ;
        },
        Some(c) => c,
    };
    let kiMbXY = pMb.iMbXY;
    let kiMbX = pMb.iMbX as i32;
    let kiMbY = pMb.iMbY as i32;
    pMb.uiSliceIdc = uiSliceIdc;
    let iLeftXY = kiMbXY - 1;
    let iTopXY = kiMbXY - kiMbWidth;
    let iLeftTopXY = iTopXY - 1;
    let iRightTopXY = iTopXY + 1;
    let bLeft = kiMbX > 0 && uiSliceIdc == WelsMbToSliceIdc(Some(c), iLeftXY);
    let bTop = kiMbY > 0 && uiSliceIdc == WelsMbToSliceIdc(Some(c), iTopXY);
    let bLeftTop = kiMbX > 0 && kiMbY > 0 && uiSliceIdc == WelsMbToSliceIdc(Some(c), iLeftTopXY);
    let bRightTop = kiMbX < kiMbWidth - 1 && kiMbY > 0 && uiSliceIdc == WelsMbToSliceIdc(
        Some(c),
        iRightTopXY,
    );
    let mut flag: u8 = 0;
    if bLeft {
        flag = flag + LEFT_MB_POS;
    }
    if bTop {
        flag = flag + TOP_MB_POS;
    }
    if bLeftTop {
        flag = flag + TOPLEFT_MB_POS;
    }
    if bRightTop {
        flag = flag + TOPRIGHT_MB_POS;
    }
    pMb.uiNeighborAvail = flag;
}

/// A macroblock after `UpdateMbNeighbor` with the slice that the map gives it.
pub open spec fn mb_with_map_neighbors(ctx: SSliceCtx, mb: SMB, w: int) -> SMB {
    let idc = slice_idc(ctx, mb.iMbXY as int);
    SMB {
        uiSliceIdc: idc,
        uiNeighborAvail: neighbor_avail(ctx, mb.iMbXY as int, mb.iMbX as int, mb.iMbY as int, w, idc)
            as u8,
        ..mb
    }
}

/// One past the last record that a slice boundary at `first` refreshes: the
/// first row of the new slice (one more when it starts mid-row), but never
/// past the partition's last macroblock, and always at least `first` itself.
pub open spec fn next_slice_refresh_end(w: int, first: int, last: int) -> int {
    let count = w + if first % w != 0 { 1int } else { 0int };
    let end = first + count;
    if end <= last + 1 {
        end
    } else if first + 1 <= last + 1 {
        last + 1
    } else {
        first + 1
    }
}

/// Refreshes slice and neighbour availability of the macroblocks that a new
/// slice starting at `kiFirstMbIdxOfNextSlice` touches: its first row (and
/// one more when it starts mid-row), within the partition, and always the
/// first one.
pub fn UpdateMbNeighbourInfoForNextSlice(
    pSliceCtx: &SSliceCtx,
    pMbs: &mut Vec<SMB>,
    kiFirstMbIdxOfNextSlice: i32,
    kiLastMbIdxInPartition: i32,
)
    requires
        0 < pSliceCtx.iMbWidth,
        0 <= kiFirstMbIdxOfNextSlice,
        next_slice_refresh_end(
            pSliceCtx.iMbWidth as int,
            kiFirstMbIdxOfNextSlice as int,
            kiLastMbIdxInPartition as int,
        ) <= old(pMbs)@.len(),
        forall|i: int|
            0 <= i < old(pMbs)@.len() ==> -0x10000000 <= #[trigger] old(pMbs)@[i].iMbXY <= 0x10000000,
    ensures
        final(pMbs)@.len() == old(pMbs)@.len(),
        forall|i: int|
            0 <= i < old(pMbs)@.len() ==> #[trigger] final(pMbs)@[i] == if kiFirstMbIdxOfNextSlice <= i
                < next_slice_refresh_end(
                pSliceCtx.iMbWidth as int,
                kiFirstMbIdxOfNextSlice as int,
                kiLastMbIdxInPartition as int,
            ) {
                mb_with_map_neighbors(*pSliceCtx, old(pMbs)@[i], pSliceCtx.iMbWidth as int)
            } else {
                old(pMbs)@[i]
            },
{
    let kiMbWidth: i32 = pSliceCtx.iMbWidth as i32;
    let ghost end = next_slice_refresh_end(
        kiMbWidth as int,
        kiFirstMbIdxOfNextSlice as int,
        kiLastMbIdxInPartition as int,
    );
    let ghost w = kiMbWidth as int;
    let ghost first = kiFirstMbIdxOfNextSlice as int;
    let iNextSliceFirstMbIdxRowStart: i32 = if (kiFirstMbIdxOfNextSlice % kiMbWidth) != 0 {
        1
    } else {
        0
    };
    let iCountMbUpdate: i32 = kiMbWidth + iNextSliceFirstMbIdxRowStart;
    assert(first % w == (kiFirstMbIdxOfNextSlice % kiMbWidth) as int);
    assert(end <= old(pMbs)@.len());
    let kiEndMbNeedUpdate: i64 = kiFirstMbIdxOfNextSlice as i64 + iCountMbUpdate as i64;
    let mut iIdx: i64 = kiFirstMbIdxOfNextSlice as i64;
    let ghost orig = pMbs@;
    loop
        invariant_except_break
            iIdx < end,
        invariant
            first == kiFirstMbIdxOfNextSlice,
            0 <= first <= iIdx <= end,
            end <= orig.len(),
            first + 1 <= end,
            kiEndMbNeedUpdate == first + w + if first % w != 0 { 1int } else { 0int },
            end == (if kiEndMbNeedUpdate <= kiLastMbIdxInPartition + 1 {
                kiEndMbNeedUpdate as int
            } else if first + 1 <= kiLastMbIdxInPartition + 1 {
                kiLastMbIdxInPartition + 1
            } else {
                first + 1
            }),
            w == pSliceCtx.iMbWidth,
            w == kiMbWidth,
            0 < w,
            pMbs@.len() == orig.len(),
            forall|i: int| 0 <= i < orig.len() ==> -0x10000000 <= #[trigger] orig[i].iMbXY <= 0x10000000,
            forall|i: int|
                0 <= i < orig.len() ==> #[trigger] pMbs@[i] == if first <= i < iIdx {
                    mb_with_map_neighbors(*pSliceCtx, orig[i], w)
                } else {
                    orig[i]
                },
        ensures
            pMbs@.len() == orig.len(),
            forall|i: int|
                0 <= i < orig.len() ==> #[trigger] pMbs@[i] == if first <= i < end {
                    mb_with_map_neighbors(*pSliceCtx, orig[i], w)
                } else {
                    orig[i]
                },
        decreases end - iIdx,
    {
        let k: usize = iIdx as usize;
        let mut mb: SMB = pMbs[k];
        assert(mb == orig[k as int]);
        assert(-0x10000000 <= orig[k as int].iMbXY <= 0x10000000);
        let kiSliceIdc: u16 = WelsMbToSliceIdc(Some(pSliceCtx), mb.iMbXY);
        UpdateMbNeighbor(Some(pSliceCtx), &mut mb, kiMbWidth, kiSliceIdc);
        assert(mb == mb_with_map_neighbors(*pSliceCtx, orig[k as int], w));
        pMbs.set(k, mb);
        iIdx = iIdx + 1;
        assert(forall|i: int|
            0 <= i < orig.len() ==> #[trigger] pMbs@[i] == if first <= i < iIdx {
                mb_with_map_neighbors(*pSliceCtx, orig[i], w)
            } else {
                orig[i]
            });
        if !(iIdx < kiEndMbNeedUpdate && iIdx <= kiLastMbIdxInPartition as i64) {
            assert(iIdx == end);
            break;
        }
    }
}

pub const NAL_UNIT_CODED_SLICE_EXT: u8 = 20;

/// The slice map with the `count` macroblocks from `first` on (none for a
/// count of zero or less) moved to slice `idc`.
pub open spec fn filled_map(m: Seq<u16>, first: int, count: int, idc: u16) -> Seq<u16> {
    Seq::new(m.len(), |i: int| if first <= i < first + count { idc } else { m[i] })
}

/// Moves `count` macroblocks from `first` on to slice `idc`.
fn fill_mb_map(map: &mut Vec<u16>, first: i32, count: i32, idc: u16)
    requires
        0 <= first,
        count > 0 ==> first + count <= old(map)@.len(),
    ensures
        final(map)@ == filled_map(old(map)@, first as int, count as int, idc),
{
    let ghost m0 = map@;
    if count <= 0 {
        assert(map@ =~= filled_map(m0, first as int, count as int, idc));
        return ;
    }
    let end: usize = (first as usize) + (count as usize);
    let mut i: usize = first as usize;
    while i < end
        invariant
            first <= i <= end,
            end == first + count,
            end <= m0.len(),
            map@.len() == m0.len(),
            forall|k: int|
                0 <= k < m0.len() ==> #[trigger] map@[k] == if first <= k < i { idc } else { m0[k] },
        decreases end - i,
    {
        map.set(i, idc);
        i = i + 1;
    }
    assert(map@ =~= filled_map(m0, first as int, count as int, idc));
}

/// The layer with a new slice map and nothing else changed.
pub open spec fn layer_with_map(a: SDqLayer, b: SDqLayer, map: Seq<u16>) -> bool {
    &&& b.sSliceEncCtx.pOverallMbMap@ == map
    &&& b.sSliceEncCtx.uiSliceMode == a.sSliceEncCtx.uiSliceMode
    &&& b.sSliceEncCtx.iMbWidth == a.sSliceEncCtx.iMbWidth
    &&& b.sSliceEncCtx.iMbHeight == a.sSliceEncCtx.iMbHeight
    &&& b.sSliceEncCtx.iMbNumInFrame == a.sSliceEncCtx.iMbNumInFrame
    &&& b.sSliceEncCtx.uiSliceSizeConstraint == a.sSliceEncCtx.uiSliceSizeConstraint
    &&& b.iDqIdx == a.iDqIdx
    &&& b.sLayerInfo == a.sLayerInfo
    &&& b.iMbWidth == a.iMbWidth
    &&& b.iMbHeight == a.iMbHeight
    &&& b.iLoopFilterDisableIdc == a.iLoopFilterDisableIdc
    &&& b.iLoopFilterAlphaC0Offset == a.iLoopFilterAlphaC0Offset
    &&& b.iLoopFilterBetaOffset == a.iLoopFilterBetaOffset
    &&& b.uiDisableInterLayerDeblockingFilterIdc == a.uiDisableInterLayerDeblockingFilterIdc
    &&& b.iMaxSliceNum == a.iMaxSliceNum
    &&& b.LastCodedMbIdxOfPartition == a.LastCodedMbIdxOfPartition
    &&& b.FirstMbIdxOfPartition == a.FirstMbIdxOfPartition
    &&& b.EndMbIdxOfPartition == a.EndMbIdxOfPartition
    &&& b.pFirstMbIdxOfSlice@ == a.pFirstMbIdxOfSlice@
    &&& b.pCountMbNumInSlice@ == a.pCountMbNumInSlice@
}

/// The slice that follows `cur` from macroblock `first`: a copy of its
/// header extension starting there, with the SVC extension flag of the layer.
pub open spec fn next_slice_from(n: SSlice, cur: SSlice, first: i32, svc_ext: bool) -> SSlice {
    SSlice {
        bSliceHeaderExtFlag: svc_ext,
        sSliceHeaderExt: SSliceHeaderExt {
            sSliceHeader: SSliceHeader { iFirstMbInSlice: first, ..cur.sSliceHeaderExt.sSliceHeader },
            ..cur.sSliceHeaderExt
        },
        ..n
    }
}

/// What a slice boundary before `first` (in a partition ending at `last`)
/// needs of the layer and the records: the map and the records of the refresh
/// are in range, the next slice index fits.
pub open spec fn slice_boundary_ok(
    threads: int,
    l: SDqLayer,
    mbs: Seq<SMB>,
    cur: int,
    first: int,
    last: int,
) -> bool {
    let m = l.sSliceEncCtx.pOverallMbMap@;
    &&& 0 <= cur < m.len()
    &&& m[cur] + threads <= u16::MAX
    &&& 0 <= first
    &&& (last - first + 1 > 0 ==> last + 1 <= m.len())
    &&& i32::MIN <= last - first
    &&& last - first + 1 <= i32::MAX
    &&& 0 < l.sSliceEncCtx.iMbWidth
    &&& next_slice_refresh_end(l.sSliceEncCtx.iMbWidth as int, first, last) <= mbs.len()
    &&& forall|i: int| 0 <= i < mbs.len() ==> -0x10000000 <= #[trigger] mbs[i].iMbXY <= 0x10000000
}

/// The slice closed at macroblock `cur`: its macroblock count runs from its
/// first macroblock to `cur`.
pub open spec fn closed_slice(s: SSlice, cur: i32) -> SSlice {
    SSlice {
        sSliceHeaderExt: SSliceHeaderExt {
            uiNumMbsInSlice: (1 + cur - s.sSliceHeaderExt.sSliceHeader.iFirstMbInSlice) as u32,
            ..s.sSliceHeaderExt
        },
        ..s
    }
}

/// A next slice opened at `first` after the slice `cur_slice` closed at `cur`:
/// the rest of the partition (to `last`) moved to the slice index `threads`
/// on, the next slice a copy of the header from `first`, and the records of
/// its first row refreshed against the new map.
pub open spec fn boundary_opened(
    threads: int,
    l0: SDqLayer,
    l1: SDqLayer,
    n0: SSlice,
    n1: SSlice,
    cur_slice: SSlice,
    mbs0: Seq<SMB>,
    mbs1: Seq<SMB>,
    cur: int,
    first: i32,
    last: int,
) -> bool {
    let old_map = l0.sSliceEncCtx.pOverallMbMap@;
    let map = filled_map(old_map, first as int, last - first + 1, (old_map[cur] + threads) as u16);
    let w = l0.sSliceEncCtx.iMbWidth as int;
    let end = next_slice_refresh_end(w, first as int, last);
    &&& layer_with_map(l0, l1, map)
    &&& n1 == next_slice_from(
        n0,
        cur_slice,
        first,
        l0.sLayerInfo.sNalHeaderExt.sNalUnitHeader.uiNalUnitType == NAL_UNIT_CODED_SLICE_EXT,
    )
    &&& mbs1.len() == mbs0.len()
    &&& forall|i: int|
        0 <= i < mbs0.len() ==> #[trigger] mbs1[i] == if first <= i < end {
            mb_with_map_neighbors(l1.sSliceEncCtx, mbs0[i], w)
        } else {
            mbs0[i]
        }
}

/// Closes the current slice at macroblock `kiCurMbIdx` and, when there is a
/// next slice, opens it at `iFirstMbIdxOfNextSlice`: the rest of the
/// partition moves to the next slice index (`iActiveThreadsNum` on), the next
/// slice takes a copy of the header starting there, and the records of its
/// first row are refreshed against the new map.
#[verifier::spinoff_prover]
#[verifier::rlimit(40)]
pub fn AddSliceBoundary(
    iActiveThreadsNum: i32,
    pCurLayer: &mut SDqLayer,
    pCurSlice: &mut SSlice,
    kiCurMbIdx: i32,
    iFirstMbIdxOfNextSlice: i32,
    kiLastMbIdxInPartition: i32,
    pMbs: &mut Vec<SMB>,
    pNextSlice: Option<&mut SSlice>,
)
    requires
        1 <= iActiveThreadsNum <= MAX_THREADS_NUM,
        1 + kiCurMbIdx <= i32::MAX,
        i32::MIN <= 1 + kiCurMbIdx - old(pCurSlice).sSliceHeaderExt.sSliceHeader.iFirstMbInSlice <= i32::MAX,
        0 <= kiCurMbIdx < old(pCurLayer).sSliceEncCtx.pOverallMbMap@.len(),
        pNextSlice is Some ==> slice_boundary_ok(
            iActiveThreadsNum as int,
            *old(pCurLayer),
            old(pMbs)@,
            kiCurMbIdx as int,
            iFirstMbIdxOfNextSlice as int,
            kiLastMbIdxInPartition as int,
        ),
    ensures
        *final(pCurSlice) == closed_slice(*old(pCurSlice), kiCurMbIdx),
        final(pCurLayer).sSliceEncCtx.iSliceNumInFrame == old(pCurLayer).sSliceEncCtx.iSliceNumInFrame,
        match pNextSlice {
            None => layer_with_map(*old(pCurLayer), *final(pCurLayer), old(pCurLayer).sSliceEncCtx.pOverallMbMap@)
                && final(pMbs)@ == old(pMbs)@,
            Some(n) => boundary_opened(
                iActiveThreadsNum as int,
                *old(pCurLayer),
                *final(pCurLayer),
                *n,
                *final(n),
                *final(pCurSlice),
                old(pMbs)@,
                final(pMbs)@,
                kiCurMbIdx as int,
                iFirstMbIdxOfNextSlice,
                kiLastMbIdxInPartition as int,
            ),
        },
{
    let iCurSliceIdc: u16 = pCurLayer.sSliceEncCtx.pOverallMbMap[kiCurMbIdx as usize];
    pCurSlice.sSliceHeaderExt.uiNumMbsInSlice = (1 + kiCurMbIdx
        - pCurSlice.sSliceHeaderExt.sSliceHeader.iFirstMbInSlice) as u32;
    match pNextSlice {
        None => {},
        Some(pNext) => {
            let iNextSliceIdc: u16 = iCurSliceIdc + iActiveThreadsNum as u16;
            pNext.bSliceHeaderExtFlag = pCurLayer.sLayerInfo.sNalHeaderExt.sNalUnitHeader.uiNalUnitType
                == NAL_UNIT_CODED_SLICE_EXT;
            pNext.sSliceHeaderExt = pCurSlice.sSliceHeaderExt;
            pNext.sSliceHeaderExt.sSliceHeader.iFirstMbInSlice = iFirstMbIdxOfNextSlice;
            fill_mb_map(
                &mut pCurLayer.sSliceEncCtx.pOverallMbMap,
                iFirstMbIdxOfNextSlice,
                kiLastMbIdxInPartition - iFirstMbIdxOfNextSlice + 1,
                iNextSliceIdc,
            );
            UpdateMbNeighbourInfoForNextSlice(
                &pCurLayer.sSliceEncCtx,
                pMbs,
                iFirstMbIdxOfNextSlice,
                kiLastMbIdxInPartition,
            );
        },
    }
}

/// The macroblock coded after `kiMbXY` in its slice, or -1 when it is the
/// last one (or outside the picture).
pub open spec fn next_mb_of_slice(ctx: SSliceCtx, xy: int) -> int {
    if xy < 0 || xy >= ctx.iMbNumInFrame {
        -1
    } else if ctx.uiSliceMode == SliceMode::SM_SINGLE_SLICE {
        if xy + 1 >= ctx.iMbNumInFrame {
            -1
        } else {
            xy + 1
        }
    } else if ctx.uiSliceMode != SliceMode::SM_RESERVED {
        if xy + 1 < ctx.iMbNumInFrame && xy + 1 < ctx.pOverallMbMap@.len() && ctx.pOverallMbMap@[xy
            + 1] == ctx.pOverallMbMap@[xy] {
            xy + 1
        } else {
            -1
        }
    } else {
        -1
    }
}

/// The walk through a slice misses no macroblock: from a macroblock inside
/// the picture, a single-slice picture goes on to the next macroblock until
/// the last one; in any other layout it goes on to the next macroblock
/// exactly when that one is inside the picture and the map puts it in the
/// same slice, and the walk ends otherwise.
pub proof fn law_next_mb_walks_the_whole_slice(ctx: SSliceCtx, xy: int)
    requires
        0 <= xy < ctx.iMbNumInFrame,
        ctx.uiSliceMode != SliceMode::SM_RESERVED,
    ensures
        ctx.uiSliceMode == SliceMode::SM_SINGLE_SLICE ==> next_mb_of_slice(ctx, xy) == if xy + 1
            < ctx.iMbNumInFrame {
            xy + 1
        } else {
            -1
        },
        ctx.uiSliceMode != SliceMode::SM_SINGLE_SLICE ==> {
            let map = ctx.pOverallMbMap@;
            let same = xy + 1 < ctx.iMbNumInFrame && xy + 1 < map.len() && map[xy + 1] == map[xy];
            &&& same ==> next_mb_of_slice(ctx, xy) == xy + 1
            &&& !same ==> next_mb_of_slice(ctx, xy) == -1
        },
{
}

pub fn WelsGetNextMbOfSlice(pSliceSeg: &SSliceCtx, kiMbXY: i32) -> (r: i32)
    ensures
        r == next_mb_of_slice(*pSliceSeg, kiMbXY as int),
{
    if kiMbXY < 0 || kiMbXY >= pSliceSeg.iMbNumInFrame {
        return -1;
    }
    if pSliceSeg.uiSliceMode == SliceMode::SM_SINGLE_SLICE {
        let iNextMbIdx = kiMbXY + 1;
        if iNextMbIdx >= pSliceSeg.iMbNumInFrame {
            -1
        } else {
            iNextMbIdx
        }
    } else if pSliceSeg.uiSliceMode != SliceMode::SM_RESERVED {
        let iNextMbIdx = kiMbXY + 1;
        let n = pSliceSeg.pOverallMbMap.len();
        if iNextMbIdx < pSliceSeg.iMbNumInFrame && (iNextMbIdx as usize) < n
            && pSliceSeg.pOverallMbMap[iNextMbIdx as usize]
            == pSliceSeg.pOverallMbMap[kiMbXY as usize] {
            iNextMbIdx
        } else {
            -1
        }
    } else {
        -1
    }
}

/// Copies the macroblock's non-zero coefficient counts into the 8-wide
/// neighbour cache: the 4x4 luma rows into rows 1 to 4, columns 1 to 4, and
/// the chroma pairs into their two corners.
pub open spec fn nz_cache_src(k: int) -> int {
    if 9 <= k < 13 {
        k - 9
    } else if 17 <= k < 21 {
        k - 13
    } else if 25 <= k < 29 {
        k - 17
    } else if 33 <= k < 37 {
        k - 21
    } else if 14 <= k < 16 {
        k + 2
    } else if 38 <= k < 40 {
        k - 20
    } else if 22 <= k < 24 {
        k - 2
    } else if 46 <= k < 48 {
        k - 24
    } else {
        -1
    }
}

pub fn UpdateNonZeroCountCache(pMb: &SMB, pMbCache: &mut SMbCache)
    ensures
        forall|k: int|
            0 <= k < 48 ==> #[trigger] final(pMbCache).iNonZeroCoeffCount[k] == if nz_cache_src(k)
                >= 0 {
                pMb.iNonZeroCount[nz_cache_src(k)]
            } else {
                old(pMbCache).iNonZeroCoeffCount[k]
            },
        final(pMbCache).sCoeffLevel@ == old(pMbCache).sCoeffLevel@,
        final(pMbCache).sMvComponents == old(pMbCache).sMvComponents,
        final(pMbCache).sMbMvp == old(pMbCache).sMbMvp,
{
    let mut k: usize = 0;
    while k < 48
        invariant
            0 <= k <= 48,
            forall|j: int|
                0 <= j < 48 ==> #[trigger] pMbCache.iNonZeroCoeffCount[j] == if nz_cache_src(j) >= 0
                    && j < k {
                    pMb.iNonZeroCount[nz_cache_src(j)]
                } else {
                    old(pMbCache).iNonZeroCoeffCount[j]
                },
            pMbCache.sCoeffLevel@ == old(pMbCache).sCoeffLevel@,
            pMbCache.sMvComponents == old(pMbCache).sMvComponents,
            pMbCache.sMbMvp == old(pMbCache).sMbMvp,
        decreases 48 - k,
    {
        let kk = k as i32;
        let src: i32 = if 9 <= kk && kk < 13 {
            kk - 9
        } else if 17 <= kk && kk < 21 {
            kk - 13
        } else if 25 <= kk && kk < 29 {
            kk - 17
        } else if 33 <= kk && kk < 37 {
            kk - 21
        } else if 14 <= kk && kk < 16 {
            kk + 2
        } else if 38 <= kk && kk < 40 {
            kk - 20
        } else if 22 <= kk && kk < 24 {
            kk - 2
        } else if 46 <= kk && kk < 48 {
            kk - 24
        } else {
            -1
        };
        if src >= 0 {
            pMbCache.iNonZeroCoeffCount[k] = pMb.iNonZeroCount[src as usize];
        }
        k = k + 1;
    }
}

/// Steps the macroblock's QP up by `DELTA_QP` (wrapping in `u8`) after an
/// overflow and derives its chroma QP again.
pub fn UpdateQpForOverflow(pCurMb: &mut SMB, kuiChromaQpIndexOffset: u8)
    ensures
        final(pCurMb).uiLumaQp == (old(pCurMb).uiLumaQp + DELTA_QP) % 256,
        final(pCurMb).uiChromaQp == g_kuiChromaQpTable[clip_qp(final(pCurMb).uiLumaQp
            + kuiChromaQpIndexOffset)],
        *final(pCurMb) == (SMB {
            uiLumaQp: final(pCurMb).uiLumaQp,
            uiChromaQp: final(pCurMb).uiChromaQp,
            ..*old(pCurMb)
        }),
{
    pCurMb.uiLumaQp = pCurMb.uiLumaQp.wrapping_add(DELTA_QP as u8);
    let idx = CLIP3_QP_0_51(pCurMb.uiLumaQp as i32 + kuiChromaQpIndexOffset as i32);
    pCurMb.uiChromaQp = g_kuiChromaQpTable[idx];
}

// ---------------------------------------------------------------------------
// Reference list syntax
// ---------------------------------------------------------------------------

/// The slice types, in the order of their `slice_type` codes.
#[derive(Clone, Copy, Debug, PartialEq, Eq, Structural)]
pub enum EWelsSliceType {
    P_SLICE,
    B_SLICE,
    I_SLICE,
    SP_SLICE,
    SI_SLICE,
}

/// The `slice_type` code of a slice type.
pub open spec fn slice_type_code(t: EWelsSliceType) -> u32 {
    match t {
        EWelsSliceType::P_SLICE => 0,
        EWelsSliceType::B_SLICE => 1,
        EWelsSliceType::I_SLICE => 2,
        EWelsSliceType::SP_SLICE => 3,
        EWelsSliceType::SI_SLICE => 4,
    }
}

pub fn slice_type_value(t: EWelsSliceType) -> (r: u32)
    ensures
        r == slice_type_code(t),
{
    match t {
        EWelsSliceType::P_SLICE => 0,
        EWelsSliceType::B_SLICE => 1,
        EWelsSliceType::I_SLICE => 2,
        EWelsSliceType::SP_SLICE => 3,
        EWelsSliceType::SI_SLICE => 4,
    }
}

pub const MAX_REFERENCE_REORDER_COUNT_NUM: usize = 32;
pub const MAX_MMCO_COUNT: usize = 32;

/// One `ref_pic_list_modification` operation.
#[derive(Clone, Copy, Debug)]
pub struct SReorderingSyntax {
    pub uiAbsDiffPicNumMinus1: u32,
    pub iLongTermPicNum: u16,
    pub uiReorderingOfPicNumsIdc: u16,
}

#[derive(Clone, Copy, Debug)]
pub struct SRefPicListReorderSyntax {
    pub SReorderingSyntax: [SReorderingSyntax; 32],
}

/// One memory management control operation.
#[derive(Clone, Copy, Debug)]
pub struct SMmco {
    pub iMmcoType: i32,
    pub iShortFrameNum: i32,
    pub iDiffOfPicNum: i32,
    pub iLongTermPicNum: i32,
    pub iLongTermFrameIdx: i32,
    pub iMaxLongTermFrameIdx: i32,
}

/// The `dec_ref_pic_marking` of a slice.
#[derive(Clone, Copy, Debug)]
pub struct SRefPicMarking {
    pub SMmcoRef: [SMmco; 32],
    pub uiMmcoCount: i32,
    pub bNoOutputOfPriorPicsFlag: bool,
    pub bLongTermRefFlag: bool,
    pub bAdaptiveRefPicMarkingModeFlag: bool,
}

/// The modification operations from `n` on: each one's idc and its operand,
/// up to the terminating idc 3 or the end of the list.
pub open spec fn reorder_ops_bits(r: Seq<SReorderingSyntax>, n: int) -> Seq<bool>
    decreases 32 - n,
{
    if n < 0 || n >= 32 {
        Seq::empty()
    } else {
        let e = r[n];
        let idc = e.uiReorderingOfPicNumsIdc;
        let head = ue_bits(idc as u32) + if idc == 0 || idc == 1 {
            ue_bits(e.uiAbsDiffPicNumMinus1)
        } else if idc == 2 {
            ue_bits(e.iLongTermPicNum as u32)
        } else {
            Seq::empty()
        };
        if idc == 3 || n + 1 >= 32 {
            head
        } else {
            head + reorder_ops_bits(r, n + 1)
        }
    }
}

/// `ref_pic_list_modification()`: nothing for I and SI slices, otherwise the
/// flag 1 and the operations.
pub open spec fn reorder_bits(t: EWelsSliceType, r: SRefPicListReorderSyntax) -> Seq<bool> {
    if t != EWelsSliceType::I_SLICE && t != EWelsSliceType::SI_SLICE {
        seq![true] + reorder_ops_bits(r.SReorderingSyntax@, 0)
    } else {
        Seq::empty()
    }
}

/// Every modification operation from `n` up to the terminating one has an
/// operand that `ue(v)` can code.
pub open spec fn reorder_ops_codable(r: Seq<SReorderingSyntax>, n: int) -> bool
    decreases 32 - n,
{
    if n < 0 || n >= 32 {
        true
    } else {
        let idc = r[n].uiReorderingOfPicNumsIdc;
        &&& (idc == 0 || idc == 1) ==> r[n].uiAbsDiffPicNumMinus1 < u32::MAX
        &&& (idc == 3 || reorder_ops_codable(r, n + 1))
    }
}

/// The modification operations that a slice of type `t` writes can be coded.
pub open spec fn reorder_codable(t: EWelsSliceType, r: SRefPicListReorderSyntax) -> bool {
    t != EWelsSliceType::I_SLICE && t != EWelsSliceType::SI_SLICE ==> reorder_ops_codable(
        r.SReorderingSyntax@,
        0,
    )
}

pub fn WriteReferenceReorder(buf: &mut [u8], pBs: &mut BsWriter, sSliceHeader: &SSliceHeader)
    requires
        old(pBs).wf(),
        reorder_codable(sSliceHeader.eSliceType, sSliceHeader.sRefReordering),
        old(pBs).has_room(
            old(buf)@.len() as int,
            reorder_bits(sSliceHeader.eSliceType, sSliceHeader.sRefReordering).len() as int,
        ),
    ensures
        final(pBs).wf(),
        final(buf)@.len() == old(buf)@.len(),
        final(pBs).bits(final(buf)@) == old(pBs).bits(old(buf)@) + reorder_bits(
            sSliceHeader.eSliceType,
            sSliceHeader.sRefReordering,
        ),
        final(pBs).bit_len() == old(pBs).bit_len() + reorder_bits(
            sSliceHeader.eSliceType,
            sSliceHeader.sRefReordering,
        ).len(),
{
    let eSliceType = sSliceHeader.eSliceType;
    let ghost r = sSliceHeader.sRefReordering.SReorderingSyntax@;
    let ghost b0 = pBs.bits(buf@);
    let ghost len0 = pBs.bit_len();
    let ghost total = reorder_bits(eSliceType, sSliceHeader.sRefReordering);
    if eSliceType != EWelsSliceType::I_SLICE && eSliceType != EWelsSliceType::SI_SLICE {
        BsWriteOneBit(buf, pBs, 1);
        let mut n: usize = 0;
        let ghost mut acc: Seq<bool> = seq![true];
        loop
            invariant_except_break
                0 <= n < 32,
                acc + reorder_ops_bits(r, n as int) == total,
                reorder_ops_codable(r, n as int),
            invariant
                pBs.wf(),
                buf@.len() == old(buf)@.len(),
                r == sSliceHeader.sRefReordering.SReorderingSyntax@,
                pBs.bits(buf@) == b0 + acc,
                pBs.bit_len() == len0 + acc.len(),
                len0 + total.len() <= 8 * buf@.len(),
                8 * buf@.len() + 64 <= i32::MAX,
            ensures
                acc == total,
            decreases 32 - n,
        {
            let e = sSliceHeader.sRefReordering.SReorderingSyntax[n];
            let idc = e.uiReorderingOfPicNumsIdc;
            let ghost rest = reorder_ops_bits(r, n + 1);
            proof {
                assert(acc + reorder_ops_bits(r, n as int) == total);
                assert(acc.len() + ue_bits(idc as u32).len() <= total.len());
            }
            BsWriteUE(buf, pBs, idc as u32);
            let ghost mut head = ue_bits(idc as u32);
            if idc == 0 || idc == 1 {
                proof {
                    assert(acc.len() + ue_bits(idc as u32).len() + ue_bits(e.uiAbsDiffPicNumMinus1).len()
                        <= total.len());
                }
                BsWriteUE(buf, pBs, e.uiAbsDiffPicNumMinus1);
                proof {
                    head = head + ue_bits(e.uiAbsDiffPicNumMinus1);
                }
            } else if idc == 2 {
                proof {
                    assert(acc.len() + ue_bits(idc as u32).len() + ue_bits(e.iLongTermPicNum as u32).len()
                        <= total.len());
                }
                BsWriteUE(buf, pBs, e.iLongTermPicNum as u32);
                proof {
                    head = head + ue_bits(e.iLongTermPicNum as u32);
                }
            } else {
                proof {
                    assert(head + Seq::<bool>::empty() =~= head);
                }
            }
            proof {
                assert(pBs.bits(buf@) =~= b0 + (acc + head));
                acc = acc + head;
            }
            n = n + 1;
            if idc == 3 || n >= 32 {
                break;
            }
            proof {
                assert(acc + reorder_ops_bits(r, n as int) =~= total);
            }
        }
    } else {
        proof {
            assert(b0 + total =~= b0);
        }
    }
}

/// The operations of `dec_ref_pic_marking()` from `n` on: each type and its
/// operands, up to the terminating type 0 or the end of the list.
pub open spec fn mmco_ops_bits(m: Seq<SMmco>, n: int) -> Seq<bool>
    decreases 32 - n,
{
    if n < 0 || n >= 32 {
        Seq::empty()
    } else {
        let e = m[n];
        let t = e.iMmcoType;
        let head = ue_bits(t as u32) + (if t == 1 || t == 3 {
            ue_bits((e.iDiffOfPicNum - 1) as u32)
        } else {
            Seq::empty()
        }) + (if t == 2 {
            ue_bits(e.iLongTermPicNum as u32)
        } else {
            Seq::empty()
        }) + (if t == 3 || t == 6 {
            ue_bits(e.iLongTermFrameIdx as u32)
        } else {
            Seq::empty()
        }) + (if t == 4 {
            ue_bits((e.iMaxLongTermFrameIdx + 1) as u32)
        } else {
            Seq::empty()
        });
        if t == 0 || n + 1 >= 32 {
            head
        } else {
            head + mmco_ops_bits(m, n + 1)
        }
    }
}

/// `dec_ref_pic_marking()`: the two IDR flags, or the adaptive flag followed
/// by the operations when it is set.
pub open spec fn marking_bits(m: SRefPicMarking, idr: bool) -> Seq<bool> {
    if idr {
        seq![m.bNoOutputOfPriorPicsFlag, m.bLongTermRefFlag]
    } else if m.bAdaptiveRefPicMarkingModeFlag {
        seq![true] + mmco_ops_bits(m.SMmcoRef@, 0)
    } else {
        seq![false]
    }
}

/// `dec_ref_pic_marking()` of an IDR picture is its two flags; of any other
/// picture it starts with exactly one bit, the adaptive marking flag, and
/// is that one bit when the flag is off.
pub proof fn law_ref_pic_marking_starts_with_its_flags(m: SRefPicMarking, idr: bool)
    ensures
        idr ==> marking_bits(m, idr) == seq![m.bNoOutputOfPriorPicsFlag, m.bLongTermRefFlag],
        !idr ==> marking_bits(m, idr).len() >= 1 && marking_bits(m, idr)[0] == m.bAdaptiveRefPicMarkingModeFlag,
        !idr && !m.bAdaptiveRefPicMarkingModeFlag ==> marking_bits(m, idr) == seq![false],
{
}

/// The type of the operation and the operands its type writes can be coded
/// as `ue(v)`.
pub open spec fn mmco_codable(e: SMmco) -> bool {
    let t = e.iMmcoType;
    &&& (t as u32) < u32::MAX
    &&& (t == 1 || t == 3) ==> e.iDiffOfPicNum > i32::MIN && ((e.iDiffOfPicNum - 1) as u32) < u32::MAX
    &&& t == 2 ==> (e.iLongTermPicNum as u32) < u32::MAX
    &&& (t == 3 || t == 6) ==> (e.iLongTermFrameIdx as u32) < u32::MAX
    &&& t == 4 ==> e.iMaxLongTermFrameIdx < i32::MAX && ((e.iMaxLongTermFrameIdx + 1) as u32)
        < u32::MAX
}

/// Every operation from `n` up to the terminating one can be coded.
pub open spec fn mmco_ops_codable(m: Seq<SMmco>, n: int) -> bool
    decreases 32 - n,
{
    if n < 0 || n >= 32 {
        true
    } else {
        &&& mmco_codable(m[n])
        &&& (m[n].iMmcoType == 0 || mmco_ops_codable(m, n + 1))
    }
}

/// The operations that the marking writes can be coded: only adaptive
/// marking outside IDR pictures writes any.
pub open spec fn marking_codable(m: SRefPicMarking, idr: bool) -> bool {
    !idr && m.bAdaptiveRefPicMarkingModeFlag ==> mmco_ops_codable(m.SMmcoRef@, 0)
}

#[verifier::rlimit(30)]
pub fn WriteRefPicMarking(
    buf: &mut [u8],
    pBs: &mut BsWriter,
    pSliceHeader: &SSliceHeader,
    pNalHdrExt: &SNalUnitHeaderExt,
)
    requires
        old(pBs).wf(),
        marking_codable(pSliceHeader.sRefMarking, pNalHdrExt.bIdrFlag),
        old(pBs).has_room(
            old(buf)@.len() as int,
            marking_bits(pSliceHeader.sRefMarking, pNalHdrExt.bIdrFlag).len() as int,
        ),
    ensures
        final(pBs).wf(),
        final(buf)@.len() == old(buf)@.len(),
        final(pBs).bits(final(buf)@) == old(pBs).bits(old(buf)@) + marking_bits(
            pSliceHeader.sRefMarking,
            pNalHdrExt.bIdrFlag,
        ),
        final(pBs).bit_len() == old(pBs).bit_len() + marking_bits(
            pSliceHeader.sRefMarking,
            pNalHdrExt.bIdrFlag,
        ).len(),
{
    let mk = &pSliceHeader.sRefMarking;
    let ghost m = mk.SMmcoRef@;
    let ghost b0 = pBs.bits(buf@);
    let ghost len0 = pBs.bit_len();
    let ghost total = marking_bits(*mk, pNalHdrExt.bIdrFlag);
    if pNalHdrExt.bIdrFlag {
        BsWriteOneBit(buf, pBs, if mk.bNoOutputOfPriorPicsFlag { 1 } else { 0 });
        BsWriteOneBit(buf, pBs, if mk.bLongTermRefFlag { 1 } else { 0 });
        proof {
            assert(pBs.bits(buf@) =~= b0 + total);
        }
    } else {
        BsWriteOneBit(buf, pBs, if mk.bAdaptiveRefPicMarkingModeFlag { 1 } else { 0 });
        if mk.bAdaptiveRefPicMarkingModeFlag {
            let mut n: usize = 0;
            let ghost mut acc: Seq<bool> = seq![true];
            loop
                invariant_except_break
                    0 <= n < 32,
                    acc + mmco_ops_bits(m, n as int) == total,
                    mmco_ops_codable(m, n as int),
                invariant
                    pBs.wf(),
                    buf@.len() == old(buf)@.len(),
                    m == mk.SMmcoRef@,
                    pBs.bits(buf@) == b0 + acc,
                    pBs.bit_len() == len0 + acc.len(),
                    len0 + total.len() <= 8 * buf@.len(),
                    8 * buf@.len() + 64 <= i32::MAX,
                ensures
                    acc == total,
                decreases 32 - n,
            {
                let e = mk.SMmcoRef[n];
                let t = e.iMmcoType;
                proof {
                    assert(mmco_codable(m[n as int]));
                }
                let ghost h1 = ue_bits(t as u32);
                let ghost h2 = if t == 1 || t == 3 {
                    ue_bits((e.iDiffOfPicNum - 1) as u32)
                } else {
                    Seq::<bool>::empty()
                };
                let ghost h3 = if t == 2 {
                    ue_bits(e.iLongTermPicNum as u32)
                } else {
                    Seq::<bool>::empty()
                };
                let ghost h4 = if t == 3 || t == 6 {
                    ue_bits(e.iLongTermFrameIdx as u32)
                } else {
                    Seq::<bool>::empty()
                };
                let ghost h5 = if t == 4 {
                    ue_bits((e.iMaxLongTermFrameIdx + 1) as u32)
                } else {
                    Seq::<bool>::empty()
                };
                proof {
                    assert(acc.len() + h1.len() + h2.len() + h3.len() + h4.len() + h5.len()
                        <= total.len());
                }
                BsWriteUE(buf, pBs, t as u32);
                if t == 1 || t == 3 {
                    BsWriteUE(buf, pBs, (e.iDiffOfPicNum - 1) as u32);
                }
                proof {
                    assert(pBs.bits(buf@) =~= b0 + acc + h1 + h2);
                }
                if t == 2 {
                    BsWriteUE(buf, pBs, e.iLongTermPicNum as u32);
                }
                proof {
                    assert(pBs.bits(buf@) =~= b0 + acc + h1 + h2 + h3);
                }
                if t == 3 || t == 6 {
                    BsWriteUE(buf, pBs, e.iLongTermFrameIdx as u32);
                }
                proof {
                    assert(pBs.bits(buf@) =~= b0 + acc + h1 + h2 + h3 + h4);
                }
                if t == 4 {
                    BsWriteUE(buf, pBs, (e.iMaxLongTermFrameIdx + 1) as u32);
                }
                proof {
                    assert(pBs.bits(buf@) =~= b0 + (acc + (h1 + h2 + h3 + h4 + h5)));
                    acc = acc + (h1 + h2 + h3 + h4 + h5);
                }
                n = n + 1;
                if t == 0 || n >= 32 {
                    break;
                }
                proof {
                    assert(acc + mmco_ops_bits(m, n as int) =~= total);
                }
            }
        } else {
            proof {
                assert(pBs.bits(buf@) =~= b0 + total);
            }
        }
    }
}

// ---------------------------------------------------------------------------
// Slice header
// ---------------------------------------------------------------------------

#[derive(Clone, Copy, Debug)]
pub struct SSliceHeader {
    pub iFirstMbInSlice: i32,
    pub iFrameNum: i32,
    pub iPicOrderCntLsb: i32,
    pub eSliceType: EWelsSliceType,
    pub uiNumRefIdxL0Active: u8,
    pub uiRefCount: u8,
    pub uiRefIndex: u8,
    pub iSliceQpDelta: i8,
    pub uiDisableDeblockingFilterIdc: u8,
    pub iSliceAlphaC0Offset: i8,
    pub iSliceBetaOffset: i8,
    pub iSpsId: i32,
    pub iPpsId: i32,
    pub uiIdrPicId: u16,
    pub bNumRefIdxActiveOverrideFlag: bool,
    pub uiPadding1Bytes: u8,
    pub sRefMarking: SRefPicMarking,
    pub sRefReordering: SRefPicListReorderSyntax,
}

#[derive(Clone, Copy, Debug)]
pub struct SSliceHeaderExt {
    pub sSliceHeader: SSliceHeader,
    pub uiNumMbsInSlice: u32,
    pub bStoreRefBasePicFlag: bool,
    pub bConstrainedIntraResamplingFlag: bool,
    pub bSliceSkipFlag: bool,
    pub bAdaptiveBaseModeFlag: bool,
    pub bDefaultBaseModeFlag: bool,
    pub bAdaptiveMotionPredFlag: bool,
    pub bDefaultMotionPredFlag: bool,
    pub bAdaptiveResidualPredFlag: bool,
    pub bDefaultResidualPredFlag: bool,
    pub bTcoeffLevelPredFlag: bool,
    pub uiDisableInterLayerDeblockingFilterIdc: u8,
}

/// The NAL unit header fields the slice syntax reads.
#[derive(Clone, Copy, Debug, Default)]
pub struct SNalUnitHeader {
    pub uiNalRefIdc: u8,
    pub uiNalUnitType: u8,
}

#[derive(Clone, Copy, Debug, Default)]
pub struct SNalUnitHeaderExt {
    pub sNalUnitHeader: SNalUnitHeader,
    pub bIdrFlag: bool,
    pub uiDependencyId: u8,
    pub uiTemporalId: u8,
    pub uiQualityId: u8,
}

/// The sequence parameter set fields the slice header reads.
#[derive(Clone, Copy, Debug)]
pub struct SWelsSPS {
    pub uiLog2MaxFrameNum: u32,
    pub uiPocType: u32,
    pub iLog2MaxPocLsb: i32,
    pub iNumRefFrames: i32,
}

/// The picture parameter set fields the slice header reads.
#[derive(Clone, Copy, Debug)]
pub struct SWelsPPS {
    pub iPpsId: u32,
    pub iPicInitQp: i32,
    pub bEntropyCodingModeFlag: bool,
    pub bDeblockingFilterControlPresentFlag: bool,
}

/// The SVC extension of a subset sequence parameter set.
#[derive(Clone, Copy, Debug)]
pub struct SSpsSvcExt {
    pub bSliceHeaderRestrictionFlag: bool,
}

#[derive(Clone, Copy, Debug)]
pub struct SSubsetSps {
    pub sSpsSvcExt: SSpsSvcExt,
}

/// The `pic_parameter_set_id` written: the PPS id (0 without one) plus the
/// id strategy's offset, wrapping at 32 bits.
pub open spec fn pps_id_code(pps: Option<SWelsPPS>, off: i32) -> u32 {
    let id = match pps {
        Some(p) => p.iPpsId as int,
        None => 0int,
    };
    let t = id + (off as u32) as int;
    if t > u32::MAX {
        (t - 0x1_0000_0000) as u32
    } else {
        t as u32
    }
}

/// The number of `frame_num` bits: `log2_max_frame_num`, 4 without an SPS.
pub open spec fn frame_num_len(sps: Option<SWelsSPS>) -> int {
    match sps {
        Some(s) => s.uiLog2MaxFrameNum as int,
        None => 4,
    }
}

/// The values of the start of the header fit their codes.
pub open spec fn header_head_codable(sps: Option<SWelsSPS>, pps: Option<SWelsPPS>, off: i32, sh: SSliceHeader) -> bool {
    &&& (sh.iFirstMbInSlice as u32) < u32::MAX
    &&& pps_id_code(pps, off) < u32::MAX
    &&& 0 <= frame_num_len(sps) <= 32
    &&& fits(sh.iFrameNum as u32, frame_num_len(sps))
    &&& match sps {
        Some(s) => s.uiPocType == 0 ==> 0 <= s.iLog2MaxPocLsb <= 32 && fits(
            sh.iPicOrderCntLsb as u32,
            s.iLog2MaxPocLsb as int,
        ),
        None => true,
    }
}

/// The CABAC table index is written: with CABAC, outside I slices.
pub open spec fn cabac_idc_written(pps: Option<SWelsPPS>, sh: SSliceHeader) -> bool {
    &&& pps matches Some(p) && p.bEntropyCodingModeFlag
    &&& sh.eSliceType != EWelsSliceType::I_SLICE
}

/// The values that the middle of the header writes fit their codes: the
/// reference modifications outside IDR pictures, the marking of reference
/// pictures and the CABAC table index where it is written.
pub open spec fn header_mid_codable(pps: Option<SWelsPPS>, nal: SNalUnitHeaderExt, sh: SSliceHeader, cabac_idc: i32) -> bool {
    &&& !nal.bIdrFlag ==> reorder_codable(sh.eSliceType, sh.sRefReordering)
    &&& nal.sNalUnitHeader.uiNalRefIdc != 0 ==> marking_codable(sh.sRefMarking, nal.bIdrFlag)
    &&& cabac_idc_written(pps, sh) ==> (cabac_idc as u32) < u32::MAX
}

/// The values that the header writes fit their codes.
pub open spec fn header_codable(
    sps: Option<SWelsSPS>,
    pps: Option<SWelsPPS>,
    off: i32,
    nal: SNalUnitHeaderExt,
    sh: SSliceHeader,
    cabac_idc: i32,
) -> bool {
    &&& header_head_codable(sps, pps, off, sh)
    &&& header_mid_codable(pps, nal, sh, cabac_idc)
}

/// The clamped `num_ref_idx_l0_active_minus1`.
pub open spec fn ref_active_code(sh: SSliceHeader) -> u32 {
    let a = if sh.uiNumRefIdxL0Active >= 1 {
        sh.uiNumRefIdxL0Active - 1
    } else {
        0
    };
    if a > MAX_REF_PIC_COUNT {
        MAX_REF_PIC_COUNT
    } else {
        a as u32
    }
}

/// The start of the slice header, up to the reference count override.
pub open spec fn header_head_bits(
    sps: Option<SWelsSPS>,
    pps: Option<SWelsPPS>,
    off: i32,
    idr: bool,
    sh: SSliceHeader,
) -> Seq<bool> {
    header_ids_bits(sps, pps, off, sh) + header_poc_ref_bits(sps, idr, sh)
}

/// `cabac_init_idc` for CABAC P slices.
pub open spec fn cabac_idc_bits(pps: Option<SWelsPPS>, sh: SSliceHeader, idc: i32) -> Seq<bool> {
    if match pps {
        Some(p) => p.bEntropyCodingModeFlag,
        None => false,
    } && sh.eSliceType != EWelsSliceType::I_SLICE {
        ue_bits(idc as u32)
    } else {
        Seq::empty()
    }
}

/// The deblocking control of an AVC slice header: the filter idc folded to
/// 0, 1 or 2, then the halved offsets unless filtering is off.
pub open spec fn deblock_bits(pps: Option<SWelsPPS>, sh: SSliceHeader, ext: bool) -> Seq<bool> {
    if match pps {
        Some(p) => p.bDeblockingFilterControlPresentFlag,
        None => false,
    } {
        let idc = sh.uiDisableDeblockingFilterIdc;
        let code: u32 = if ext {
            idc as u32
        } else if idc == 1 {
            1
        } else if idc == 2 || idc == 5 {
            2
        } else {
            0
        };
        ue_bits(code) + if idc != 1 {
            se_bits((sh.iSliceAlphaC0Offset as int / 2) as i32) + se_bits(
                (sh.iSliceBetaOffset as int / 2) as i32,
            )
        } else {
            Seq::empty()
        }
    } else {
        Seq::empty()
    }
}

/// The complete AVC slice header.
pub open spec fn slice_header_bits(
    sps: Option<SWelsSPS>,
    pps: Option<SWelsPPS>,
    off: i32,
    nal: SNalUnitHeaderExt,
    sh: SSliceHeader,
    cabac_idc: i32,
) -> Seq<bool> {
    header_head_bits(sps, pps, off, nal.bIdrFlag, sh) + (if !nal.bIdrFlag {
        reorder_bits(sh.eSliceType, sh.sRefReordering)
    } else {
        Seq::empty()
    }) + (if nal.sNalUnitHeader.uiNalRefIdc != 0 {
        marking_bits(sh.sRefMarking, nal.bIdrFlag)
    } else {
        Seq::empty()
    }) + cabac_idc_bits(pps, sh, cabac_idc) + se_bits(sh.iSliceQpDelta as i32) + deblock_bits(
        pps,
        sh,
        false,
    )
}

/// `first_mb_in_slice`, `slice_type`, `pic_parameter_set_id`, `frame_num`.
pub open spec fn header_ids_bits(sps: Option<SWelsSPS>, pps: Option<SWelsPPS>, off: i32, sh: SSliceHeader) -> Seq<bool> {
    ue_bits(sh.iFirstMbInSlice as u32) + ue_bits(slice_type_code(sh.eSliceType)) + ue_bits(
        pps_id_code(pps, off),
    ) + val_bits(sh.iFrameNum as u32, frame_num_len(sps) as nat)
}

/// `idr_pic_id`, `pic_order_cnt_lsb` and the reference count override.
pub open spec fn header_poc_ref_bits(sps: Option<SWelsSPS>, idr: bool, sh: SSliceHeader) -> Seq<bool> {
    (if idr {
        ue_bits(sh.uiIdrPicId as u32)
    } else {
        Seq::empty()
    }) + (match sps {
        Some(s) => if s.uiPocType == 0 {
            val_bits(sh.iPicOrderCntLsb as u32, s.iLog2MaxPocLsb as nat)
        } else {
            Seq::empty()
        },
        None => Seq::empty(),
    }) + (if sh.eSliceType == EWelsSliceType::P_SLICE {
        seq![sh.bNumRefIdxActiveOverrideFlag] + if sh.bNumRefIdxActiveOverrideFlag {
            ue_bits(ref_active_code(sh))
        } else {
            Seq::empty()
        }
    } else {
        Seq::empty()
    })
}

#[verifier::spinoff_prover]
fn write_header_ids(
    buf: &mut [u8],
    pBs: &mut BsWriter,
    pSps: Option<SWelsSPS>,
    pPps: Option<SWelsPPS>,
    iPpsIdOffset: i32,
    sh: &SSliceHeader,
)
    requires
        old(pBs).wf(),
        header_head_codable(pSps, pPps, iPpsIdOffset, *sh),
        old(pBs).has_room(old(buf)@.len() as int, header_ids_bits(pSps, pPps, iPpsIdOffset, *sh).len() as int),
    ensures
        final(pBs).wf(),
        final(buf)@.len() == old(buf)@.len(),
        final(pBs).bits(final(buf)@) == old(pBs).bits(old(buf)@) + header_ids_bits(pSps, pPps, iPpsIdOffset, *sh),
        final(pBs).bit_len() == old(pBs).bit_len() + header_ids_bits(pSps, pPps, iPpsIdOffset, *sh).len(),
{
    let ghost b0 = pBs.bits(buf@);
    let ghost p1 = ue_bits(sh.iFirstMbInSlice as u32);
    let ghost p2 = ue_bits(slice_type_code(sh.eSliceType));
    let ghost p3 = ue_bits(pps_id_code(pPps, iPpsIdOffset));
    let ghost p4 = val_bits(sh.iFrameNum as u32, frame_num_len(pSps) as nat);
    assert(header_ids_bits(pSps, pPps, iPpsIdOffset, *sh).len() == p1.len() + p2.len() + p3.len()
        + p4.len());
    BsWriteUE(buf, pBs, sh.iFirstMbInSlice as u32);
    BsWriteUE(buf, pBs, slice_type_value(sh.eSliceType));
    assert(pBs.bits(buf@) =~= b0 + (p1 + p2));
    let pps_id: u32 = match pPps {
        Some(p) => p.iPpsId,
        None => 0,
    };
    let code = pps_id.wrapping_add(iPpsIdOffset as u32);
    BsWriteUE(buf, pBs, code);
    let log2: u32 = match pSps {
        Some(sp) => sp.uiLog2MaxFrameNum,
        None => 4,
    };
    BsWriteBits(buf, pBs, log2 as i32, sh.iFrameNum as u32);
    proof {
        assert(pBs.bits(buf@) =~= b0 + (p1 + p2 + p3 + p4));
    }
}

#[verifier::spinoff_prover]
fn write_header_poc_ref(buf: &mut [u8], pBs: &mut BsWriter, pSps: Option<SWelsSPS>, bIdrFlag: bool, sh: &SSliceHeader)
    requires
        old(pBs).wf(),
        match pSps {
            Some(s) => s.uiPocType == 0 ==> 0 <= s.iLog2MaxPocLsb <= 32 && fits(
                sh.iPicOrderCntLsb as u32,
                s.iLog2MaxPocLsb as int,
            ),
            None => true,
        },
        old(pBs).has_room(old(buf)@.len() as int, header_poc_ref_bits(pSps, bIdrFlag, *sh).len() as int),
    ensures
        final(pBs).wf(),
        final(buf)@.len() == old(buf)@.len(),
        final(pBs).bits(final(buf)@) == old(pBs).bits(old(buf)@) + header_poc_ref_bits(pSps, bIdrFlag, *sh),
        final(pBs).bit_len() == old(pBs).bit_len() + header_poc_ref_bits(pSps, bIdrFlag, *sh).len(),
{
    let ghost b0 = pBs.bits(buf@);
    let ghost p5 = if bIdrFlag {
        ue_bits(sh.uiIdrPicId as u32)
    } else {
        Seq::<bool>::empty()
    };
    let ghost p6 = match pSps {
        Some(s) => if s.uiPocType == 0 {
            val_bits(sh.iPicOrderCntLsb as u32, s.iLog2MaxPocLsb as nat)
        } else {
            Seq::<bool>::empty()
        },
        None => Seq::<bool>::empty(),
    };
    let ghost p7 = if sh.eSliceType == EWelsSliceType::P_SLICE {
        seq![sh.bNumRefIdxActiveOverrideFlag] + if sh.bNumRefIdxActiveOverrideFlag {
            ue_bits(ref_active_code(*sh))
        } else {
            Seq::<bool>::empty()
        }
    } else {
        Seq::<bool>::empty()
    };
    if bIdrFlag {
        BsWriteUE(buf, pBs, sh.uiIdrPicId as u32);
    }
    proof {
        assert(pBs.bits(buf@) =~= b0 + p5);
    }
    match pSps {
        Some(sp) => {
            if sp.uiPocType == 0 {
                BsWriteBits(buf, pBs, sp.iLog2MaxPocLsb, sh.iPicOrderCntLsb as u32);
            }
        },
        None => {},
    }
    proof {
        assert(pBs.bits(buf@) =~= b0 + (p5 + p6));
    }
    if sh.eSliceType == EWelsSliceType::P_SLICE {
        BsWriteOneBit(buf, pBs, if sh.bNumRefIdxActiveOverrideFlag { 1 } else { 0 });
        if sh.bNumRefIdxActiveOverrideFlag {
            let a: u32 = if sh.uiNumRefIdxL0Active >= 1 {
                (sh.uiNumRefIdxL0Active - 1) as u32
            } else {
                0
            };
            let active = if a > MAX_REF_PIC_COUNT {
                MAX_REF_PIC_COUNT
            } else {
                a
            };
            BsWriteUE(buf, pBs, active);
        }
    }
    proof {
        assert(pBs.bits(buf@) =~= b0 + (p5 + p6 + p7));
    }
}

#[verifier::spinoff_prover]
fn write_deblock(buf: &mut [u8], pBs: &mut BsWriter, pPps: Option<SWelsPPS>, sh: &SSliceHeader, ext: bool)
    requires
        old(pBs).wf(),
        old(pBs).has_room(old(buf)@.len() as int, deblock_bits(pPps, *sh, ext).len() as int),
    ensures
        final(pBs).wf(),
        final(buf)@.len() == old(buf)@.len(),
        final(pBs).bits(final(buf)@) == old(pBs).bits(old(buf)@) + deblock_bits(pPps, *sh, ext),
        final(pBs).bit_len() == old(pBs).bit_len() + deblock_bits(pPps, *sh, ext).len(),
{
    let ghost b0 = pBs.bits(buf@);
    let present = match pPps {
        Some(p) => p.bDeblockingFilterControlPresentFlag,
        None => false,
    };
    if present {
        let idc = sh.uiDisableDeblockingFilterIdc;
        let code: u32 = if ext {
            idc as u32
        } else if idc == 1 {
            1
        } else if idc == 2 || idc == 5 {
            2
        } else {
            0
        };
        BsWriteUE(buf, pBs, code);
        if idc != 1 {
            let a = sh.iSliceAlphaC0Offset as i32;
            let b = sh.iSliceBetaOffset as i32;
            proof {
                crate::bits::lemma_i32_shifts();
                assert((a >> 1u32) == a / 2);
                assert((b >> 1u32) == b / 2);
            }
            BsWriteSE(buf, pBs, a >> 1u32);
            BsWriteSE(buf, pBs, b >> 1u32);
            proof {
                assert(pBs.bits(buf@) =~= b0 + deblock_bits(pPps, *sh, ext));
            }
        } else {
            proof {
                assert(pBs.bits(buf@) =~= b0 + deblock_bits(pPps, *sh, ext));
            }
        }
    } else {
        proof {
            assert(b0 + deblock_bits(pPps, *sh, ext) =~= b0);
        }
    }
}

/// Writes the reference list modification, the reference marking, the CABAC
/// init idc and the QP delta: the part of the header between its start and
/// its deblocking control, with the SVC store-base flag after the marking
/// when `store_base` says so.
pub open spec fn header_mid_bits(
    pps: Option<SWelsPPS>,
    nal: SNalUnitHeaderExt,
    sh: SSliceHeader,
    cabac_idc: i32,
    store_base: Option<bool>,
) -> Seq<bool> {
    (if !nal.bIdrFlag {
        reorder_bits(sh.eSliceType, sh.sRefReordering)
    } else {
        Seq::empty()
    }) + (if nal.sNalUnitHeader.uiNalRefIdc != 0 {
        marking_bits(sh.sRefMarking, nal.bIdrFlag) + match store_base {
            Some(f) => seq![f],
            None => Seq::empty(),
        }
    } else {
        Seq::empty()
    }) + cabac_idc_bits(pps, sh, cabac_idc) + se_bits(sh.iSliceQpDelta as i32)
}

#[verifier::spinoff_prover]
#[verifier::rlimit(40)]
fn write_header_mid(
    buf: &mut [u8],
    pBs: &mut BsWriter,
    pPps: Option<SWelsPPS>,
    pNalHead: &SNalUnitHeaderExt,
    sh: &SSliceHeader,
    iCabacInitIdc: i32,
    store_base: Option<bool>,
)
    requires
        old(pBs).wf(),
        header_mid_codable(pPps, *pNalHead, *sh, iCabacInitIdc),
        old(pBs).has_room(
            old(buf)@.len() as int,
            header_mid_bits(pPps, *pNalHead, *sh, iCabacInitIdc, store_base).len() as int,
        ),
    ensures
        final(pBs).wf(),
        final(buf)@.len() == old(buf)@.len(),
        final(pBs).bits(final(buf)@) == old(pBs).bits(old(buf)@) + header_mid_bits(
            pPps,
            *pNalHead,
            *sh,
            iCabacInitIdc,
            store_base,
        ),
        final(pBs).bit_len() == old(pBs).bit_len() + header_mid_bits(
            pPps,
            *pNalHead,
            *sh,
            iCabacInitIdc,
            store_base,
        ).len(),
{
    let ghost b0 = pBs.bits(buf@);
    let ghost q1 = if !pNalHead.bIdrFlag {
        reorder_bits(sh.eSliceType, sh.sRefReordering)
    } else {
        Seq::<bool>::empty()
    };
    let ghost q2 = if pNalHead.sNalUnitHeader.uiNalRefIdc != 0 {
        marking_bits(sh.sRefMarking, pNalHead.bIdrFlag) + match store_base {
            Some(f) => seq![f],
            None => Seq::<bool>::empty(),
        }
    } else {
        Seq::<bool>::empty()
    };
    let ghost q3 = cabac_idc_bits(pPps, *sh, iCabacInitIdc);
    let ghost q4 = se_bits(sh.iSliceQpDelta as i32);
    assert(header_mid_bits(pPps, *pNalHead, *sh, iCabacInitIdc, store_base) == q1 + q2 + q3 + q4);
    if !pNalHead.bIdrFlag {
        WriteReferenceReorder(buf, pBs, sh);
    }
    proof {
        assert(pBs.bits(buf@) =~= b0 + q1);
    }
    if pNalHead.sNalUnitHeader.uiNalRefIdc != 0 {
        WriteRefPicMarking(buf, pBs, sh, pNalHead);
        match store_base {
            Some(f) => {
                BsWriteOneBit(buf, pBs, if f { 1 } else { 0 });
            },
            None => {},
        }
    }
    proof {
        assert(pBs.bits(buf@) =~= b0 + (q1 + q2));
    }
    let cabac = match pPps {
        Some(p) => p.bEntropyCodingModeFlag,
        None => false,
    };
    if cabac && sh.eSliceType != EWelsSliceType::I_SLICE {
        BsWriteUE(buf, pBs, iCabacInitIdc as u32);
    }
    proof {
        assert(pBs.bits(buf@) =~= b0 + (q1 + q2 + q3));
    }
    BsWriteSE(buf, pBs, sh.iSliceQpDelta as i32);
    proof {
        assert(pBs.bits(buf@) =~= b0 + (q1 + q2 + q3 + q4));
    }
}

#[verifier::spinoff_prover]
#[verifier::rlimit(60)]
/// Writes the AVC slice header. `iPpsIdOffset` is the parameter-set id
/// strategy's offset for the PPS, `iCabacInitIdc` the slice's CABAC table.
pub fn WelsSliceHeaderWrite(
    buf: &mut [u8],
    pBs: &mut BsWriter,
    pSps: Option<SWelsSPS>,
    pPps: Option<SWelsPPS>,
    iPpsIdOffset: i32,
    pNalHead: &SNalUnitHeaderExt,
    pSliceHeader: &SSliceHeader,
    iCabacInitIdc: i32,
)
    requires
        old(pBs).wf(),
        header_codable(pSps, pPps, iPpsIdOffset, *pNalHead, *pSliceHeader, iCabacInitIdc),
        old(pBs).has_room(
            old(buf)@.len() as int,
            slice_header_bits(pSps, pPps, iPpsIdOffset, *pNalHead, *pSliceHeader, iCabacInitIdc).len() as int,
        ),
    ensures
        final(pBs).wf(),
        final(buf)@.len() == old(buf)@.len(),
        final(pBs).bits(final(buf)@) == old(pBs).bits(old(buf)@) + slice_header_bits(
            pSps,
            pPps,
            iPpsIdOffset,
            *pNalHead,
            *pSliceHeader,
            iCabacInitIdc,
        ),
{
    let ghost b0 = pBs.bits(buf@);
    let ghost h1 = header_ids_bits(pSps, pPps, iPpsIdOffset, *pSliceHeader);
    let ghost h2 = header_poc_ref_bits(pSps, pNalHead.bIdrFlag, *pSliceHeader);
    let ghost h3 = header_mid_bits(pPps, *pNalHead, *pSliceHeader, iCabacInitIdc, None);
    let ghost h4 = deblock_bits(pPps, *pSliceHeader, false);
    assert(slice_header_bits(pSps, pPps, iPpsIdOffset, *pNalHead, *pSliceHeader, iCabacInitIdc) =~= h1
        + h2 + h3 + h4) by {
        assert(h3 =~= (if !pNalHead.bIdrFlag {
            reorder_bits(pSliceHeader.eSliceType, pSliceHeader.sRefReordering)
        } else {
            Seq::empty()
        }) + (if pNalHead.sNalUnitHeader.uiNalRefIdc != 0 {
            marking_bits(pSliceHeader.sRefMarking, pNalHead.bIdrFlag)
        } else {
            Seq::empty()
        }) + cabac_idc_bits(pPps, *pSliceHeader, iCabacInitIdc) + se_bits(
            pSliceHeader.iSliceQpDelta as i32,
        ));
    }
    write_header_ids(buf, pBs, pSps, pPps, iPpsIdOffset, pSliceHeader);
    write_header_poc_ref(buf, pBs, pSps, pNalHead.bIdrFlag, pSliceHeader);
    write_header_mid(buf, pBs, pPps, pNalHead, pSliceHeader, iCabacInitIdc, None);
    write_deblock(buf, pBs, pPps, pSliceHeader, false);
    proof {
        assert(pBs.bits(buf@) =~= b0 + (h1 + h2 + h3 + h4));
    }
}

/// The SVC slice header: the AVC fields with the store-base flag after the
/// marking, the deblocking idc written as it is, and the scan range (0 to 15)
/// when the subset SPS does not restrict the header.
pub open spec fn slice_header_ext_bits(
    sps: Option<SWelsSPS>,
    pps: Option<SWelsPPS>,
    sub: Option<SSubsetSps>,
    off: i32,
    nal: SNalUnitHeaderExt,
    she: SSliceHeaderExt,
    cabac_idc: i32,
) -> Seq<bool> {
    let sh = she.sSliceHeader;
    let unrestricted = match sub {
        Some(x) => !x.sSpsSvcExt.bSliceHeaderRestrictionFlag,
        None => false,
    };
    header_ids_bits(sps, pps, off, sh) + header_poc_ref_bits(sps, nal.bIdrFlag, sh) + header_mid_bits(
        pps,
        nal,
        sh,
        cabac_idc,
        if unrestricted {
            Some(she.bStoreRefBasePicFlag)
        } else {
            None
        },
    ) + deblock_bits(pps, sh, true) + if unrestricted {
        val_bits(0, 4) + val_bits(15, 4)
    } else {
        Seq::empty()
    }
}

#[verifier::spinoff_prover]
#[verifier::rlimit(60)]
pub fn WelsSliceHeaderExtWrite(
    buf: &mut [u8],
    pBs: &mut BsWriter,
    pSps: Option<SWelsSPS>,
    pPps: Option<SWelsPPS>,
    pSubSps: Option<SSubsetSps>,
    iPpsIdOffset: i32,
    pNalHead: &SNalUnitHeaderExt,
    pSliceHeadExt: &SSliceHeaderExt,
    iCabacInitIdc: i32,
)
    requires
        old(pBs).wf(),
        header_codable(pSps, pPps, iPpsIdOffset, *pNalHead, pSliceHeadExt.sSliceHeader, iCabacInitIdc),
        old(pBs).has_room(
            old(buf)@.len() as int,
            slice_header_ext_bits(pSps, pPps, pSubSps, iPpsIdOffset, *pNalHead, *pSliceHeadExt, iCabacInitIdc).len() as int,
        ),
    ensures
        final(pBs).wf(),
        final(buf)@.len() == old(buf)@.len(),
        final(pBs).bits(final(buf)@) == old(pBs).bits(old(buf)@) + slice_header_ext_bits(
            pSps,
            pPps,
            pSubSps,
            iPpsIdOffset,
            *pNalHead,
            *pSliceHeadExt,
            iCabacInitIdc,
        ),
{
    let sh = &pSliceHeadExt.sSliceHeader;
    let unrestricted = match pSubSps {
        Some(x) => !x.sSpsSvcExt.bSliceHeaderRestrictionFlag,
        None => false,
    };
    let store_base: Option<bool> = if unrestricted {
        Some(pSliceHeadExt.bStoreRefBasePicFlag)
    } else {
        None
    };
    let ghost b0 = pBs.bits(buf@);
    let ghost h1 = header_ids_bits(pSps, pPps, iPpsIdOffset, *sh);
    let ghost h2 = header_poc_ref_bits(pSps, pNalHead.bIdrFlag, *sh);
    let ghost h3 = header_mid_bits(pPps, *pNalHead, *sh, iCabacInitIdc, store_base);
    let ghost h4 = deblock_bits(pPps, *sh, true);
    let ghost h5 = if unrestricted {
        val_bits(0, 4) + val_bits(15, 4)
    } else {
        Seq::<bool>::empty()
    };
    assert(slice_header_ext_bits(pSps, pPps, pSubSps, iPpsIdOffset, *pNalHead, *pSliceHeadExt, iCabacInitIdc)
        == h1 + h2 + h3 + h4 + h5);
    write_header_ids(buf, pBs, pSps, pPps, iPpsIdOffset, sh);
    write_header_poc_ref(buf, pBs, pSps, pNalHead.bIdrFlag, sh);
    write_header_mid(buf, pBs, pPps, pNalHead, sh, iCabacInitIdc, store_base);
    write_deblock(buf, pBs, pPps, sh, true);
    if unrestricted {
        proof {
            assert(crate::bits::pow2_int(4) == 16) by {
                reveal_with_fuel(crate::bits::pow2_int, 5);
            }
        }
        BsWriteBits(buf, pBs, 4, 0);
        BsWriteBits(buf, pBs, 4, 15);
    }
    proof {
        assert(pBs.bits(buf@) =~= b0 + (h1 + h2 + h3 + h4 + h5));
    }
}

// ---------------------------------------------------------------------------
// Layers and slices
// ---------------------------------------------------------------------------

/// A layer's position in the encoder's layer list.
#[derive(Clone, Copy, Debug, PartialEq, Eq, Structural)]
pub struct LayerIdx(pub u8);

impl LayerIdx {
    pub fn get(self) -> (r: usize)
        ensures
            r == self.0,
    {
        self.0 as usize
    }
}

/// A slice's position in the layer's slice banks: the bank and the offset in
/// it.
#[derive(Clone, Copy, Debug, PartialEq, Eq, Structural)]
pub struct SliceIdx {
    pub bank: u8,
    pub offset: i32,
}

/// Which array a layer's active SPS lives in, with its position there.
#[derive(Clone, Copy, Debug, PartialEq, Eq, Structural)]
pub enum LayerSps {
    Avc(u32),
    Subset(u32),
}

/// The NAL header and the parameter sets of a layer.
#[derive(Clone, Copy, Debug)]
pub struct SLayerInfo {
    pub sNalHeaderExt: SNalUnitHeaderExt,
    pub eSps: Option<LayerSps>,
    pub iPps: Option<u32>,
}

/// The per-slice rate control state.
#[derive(Clone, Copy, Debug, Default)]
pub struct SRCSlicing {
    pub iComplexityIndexSlice: i32,
    pub iCalculatedQpSlice: i32,
    pub iTotalQpSlice: i32,
    pub iTotalMbSlice: i32,
    pub iTargetBitsSlice: i32,
    pub iFrameBitsSlice: i32,
    pub iGomBitsSlice: i32,
}

/// One slice of a layer: its header and the state its coding keeps.
#[derive(Clone, Copy, Debug)]
pub struct SSlice {
    pub sSliceHeaderExt: SSliceHeaderExt,
    pub sMvStartMin: crate::mb::SMVUnitXY,
    pub sMvStartMax: crate::mb::SMVUnitXY,
    pub uiMvcNum: u8,
    pub sScaleShift: u8,
    pub iSliceIdx: i32,
    pub uiBufferIdx: u32,
    pub bSliceHeaderExtFlag: bool,
    pub uiLastMbQp: u8,
    pub bDynamicSlicingSliceSizeCtrlFlag: bool,
    pub uiAssumeLog2BytePerMb: u8,
    pub uiSliceFMECostDown: u32,
    pub uiReservedFillByte: u8,
    pub iCabacInitIdc: i32,
    pub iMbSkipRun: i32,
    pub iCountMbNumInSlice: i32,
    pub uiSliceConsumeTime: u32,
    pub iSliceComplexRatio: i32,
    pub sSlicingOverRc: SRCSlicing,
    pub sSliceBs: SWelsSliceBs,
}

/// Where a slice's own bitstream stands: the bytes written and the NAL
/// units begun.
#[derive(Clone, Copy, Debug)]
pub struct SWelsSliceBs {
    pub uiBsPos: u32,
    pub iNalIndex: i32,
}

/// One worker's bank of slices: the slices, how many it may hold and how
/// many it coded.
#[derive(Debug)]
pub struct SSliceBufferInfo {
    pub pSliceBuffer: Vec<SSlice>,
    pub iMaxSliceNum: i32,
    pub iCodedSliceNum: i32,
}

/// A reference list modification with every operation zero.
fn zero_reordering() -> (r: SRefPicListReorderSyntax)
    ensures
        forall|k: int|
            0 <= k < 32 ==> #[trigger] r.SReorderingSyntax[k] == (SReorderingSyntax {
                uiAbsDiffPicNumMinus1: 0,
                iLongTermPicNum: 0,
                uiReorderingOfPicNumsIdc: 0,
            }),
{
    SRefPicListReorderSyntax {
        SReorderingSyntax: [SReorderingSyntax {
            uiAbsDiffPicNumMinus1: 0,
            iLongTermPicNum: 0,
            uiReorderingOfPicNumsIdc: 0,
        }; 32],
    }
}

/// A reference marking with every operation and flag zero.
fn zero_marking() -> (r: SRefPicMarking)
    ensures
        r.uiMmcoCount == 0,
        !r.bNoOutputOfPriorPicsFlag && !r.bLongTermRefFlag && !r.bAdaptiveRefPicMarkingModeFlag,
        forall|k: int|
            0 <= k < 32 ==> #[trigger] r.SMmcoRef[k] == (SMmco {
                iMmcoType: 0,
                iShortFrameNum: 0,
                iDiffOfPicNum: 0,
                iLongTermPicNum: 0,
                iLongTermFrameIdx: 0,
                iMaxLongTermFrameIdx: 0,
            }),
{
    SRefPicMarking {
        SMmcoRef: [SMmco {
            iMmcoType: 0,
            iShortFrameNum: 0,
            iDiffOfPicNum: 0,
            iLongTermPicNum: 0,
            iLongTermFrameIdx: 0,
            iMaxLongTermFrameIdx: 0,
        }; 32],
        uiMmcoCount: 0,
        bNoOutputOfPriorPicsFlag: false,
        bLongTermRefFlag: false,
        bAdaptiveRefPicMarkingModeFlag: false,
    }
}

impl SSlice {
    /// A slice with every field zero: a P slice header at macroblock 0 with
    /// no reference operations.
    pub fn new() -> (r: Self)
        ensures
            r.iSliceIdx == 0 && r.uiBufferIdx == 0 && !r.bSliceHeaderExtFlag && r.uiLastMbQp == 0,
            r.iCabacInitIdc == 0 && r.iMbSkipRun == 0 && r.iCountMbNumInSlice == 0,
            r.uiSliceFMECostDown == 0,
            r.sSliceHeaderExt.sSliceHeader.iFirstMbInSlice == 0,
            r.sSliceHeaderExt.sSliceHeader.eSliceType == EWelsSliceType::P_SLICE,
            r.sSliceHeaderExt.sSliceHeader.uiRefCount == 0,
            r.sSliceHeaderExt.uiNumMbsInSlice == 0,
    {
        let sh = SSliceHeader {
            iFirstMbInSlice: 0,
            iFrameNum: 0,
            iPicOrderCntLsb: 0,
            eSliceType: EWelsSliceType::P_SLICE,
            uiNumRefIdxL0Active: 0,
            uiRefCount: 0,
            uiRefIndex: 0,
            iSliceQpDelta: 0,
            uiDisableDeblockingFilterIdc: 0,
            iSliceAlphaC0Offset: 0,
            iSliceBetaOffset: 0,
            iSpsId: 0,
            iPpsId: 0,
            uiIdrPicId: 0,
            bNumRefIdxActiveOverrideFlag: false,
            uiPadding1Bytes: 0,
            sRefMarking: zero_marking(),
            sRefReordering: zero_reordering(),
        };
        SSlice {
            sSliceHeaderExt: SSliceHeaderExt {
                sSliceHeader: sh,
                uiNumMbsInSlice: 0,
                bStoreRefBasePicFlag: false,
                bConstrainedIntraResamplingFlag: false,
                bSliceSkipFlag: false,
                bAdaptiveBaseModeFlag: false,
                bDefaultBaseModeFlag: false,
                bAdaptiveMotionPredFlag: false,
                bDefaultMotionPredFlag: false,
                bAdaptiveResidualPredFlag: false,
                bDefaultResidualPredFlag: false,
                bTcoeffLevelPredFlag: false,
                uiDisableInterLayerDeblockingFilterIdc: 0,
            },
            sMvStartMin: crate::mb::SMVUnitXY { iMvX: 0, iMvY: 0 },
            sMvStartMax: crate::mb::SMVUnitXY { iMvX: 0, iMvY: 0 },
            uiMvcNum: 0,
            sScaleShift: 0,
            iSliceIdx: 0,
            uiBufferIdx: 0,
            bSliceHeaderExtFlag: false,
            uiLastMbQp: 0,
            bDynamicSlicingSliceSizeCtrlFlag: false,
            uiAssumeLog2BytePerMb: 0,
            uiSliceFMECostDown: 0,
            uiReservedFillByte: 0,
            iCabacInitIdc: 0,
            iMbSkipRun: 0,
            iCountMbNumInSlice: 0,
            uiSliceConsumeTime: 0,
            iSliceComplexRatio: 0,
            sSlicingOverRc: SRCSlicing {
                iComplexityIndexSlice: 0,
                iCalculatedQpSlice: 0,
                iTotalQpSlice: 0,
                iTotalMbSlice: 0,
                iTargetBitsSlice: 0,
                iFrameBitsSlice: 0,
                iGomBitsSlice: 0,
            },
            sSliceBs: SWelsSliceBs { uiBsPos: 0, iNalIndex: 0 },
        }
    }
}

/// What the slice coding reads of a dependency layer: its geometry, NAL
/// header, slice layout, deblocking setup and the macroblock partitions of
/// the slice workers.
#[derive(Debug)]
pub struct SDqLayer {
    pub iDqIdx: LayerIdx,
    pub sLayerInfo: SLayerInfo,
    pub sSliceEncCtx: SSliceCtx,
    pub iMbWidth: i16,
    pub iMbHeight: i16,
    pub iLoopFilterDisableIdc: u8,
    pub iLoopFilterAlphaC0Offset: i8,
    pub iLoopFilterBetaOffset: i8,
    pub uiDisableInterLayerDeblockingFilterIdc: u8,
    pub iMaxSliceNum: i32,
    pub LastCodedMbIdxOfPartition: [i32; 4],
    pub FirstMbIdxOfPartition: [i32; 4],
    pub EndMbIdxOfPartition: [i32; 4],
    pub pFirstMbIdxOfSlice: Vec<i32>,
    pub pCountMbNumInSlice: Vec<i32>,
    pub sSliceBufferInfo: [SSliceBufferInfo; 4],
    pub ppSliceInLayer: Vec<SliceIdx>,
    pub NumSliceCodedOfPartition: [i32; 4],
}

/// The number of slices of the layer's current frame.
pub fn GetCurrentSliceNum(pCurDq: &SDqLayer) -> (r: i32)
    ensures
        r == pCurDq.sSliceEncCtx.iSliceNumInFrame,
{
    pCurDq.sSliceEncCtx.iSliceNumInFrame
}

/// Marks the layer's NAL header as IDR for an I slice; other slice types
/// leave it.
pub fn StampLayerIdrFlagForSliceType(eSliceType: EWelsSliceType, pCurLayer: &mut SDqLayer)
    ensures
        final(pCurLayer).sLayerInfo.sNalHeaderExt.bIdrFlag == (eSliceType == EWelsSliceType::I_SLICE
            || old(pCurLayer).sLayerInfo.sNalHeaderExt.bIdrFlag),
        final(pCurLayer).sLayerInfo.sNalHeaderExt.sNalUnitHeader
            == old(pCurLayer).sLayerInfo.sNalHeaderExt.sNalUnitHeader,
        final(pCurLayer).iMbWidth == old(pCurLayer).iMbWidth,
        final(pCurLayer).iMbHeight == old(pCurLayer).iMbHeight,
{
    if eSliceType != EWelsSliceType::I_SLICE {
        return ;
    }
    pCurLayer.sLayerInfo.sNalHeaderExt.bIdrFlag = true;
}

/// Sets the slice's first macroblock and macroblock count from the layer's
/// slice layout. Answers `ENC_RETURN_UNEXPECTED` without a layer or without
/// a layout.
pub fn SetSliceBoundaryInfo(pCurLayer: Option<&SDqLayer>, pSlice: &mut SSlice, kiSliceIdx: i32) -> (r: i32)
    requires
        pCurLayer matches Some(l) ==> (l.pFirstMbIdxOfSlice@.len() > 0 && l.pCountMbNumInSlice@.len() > 0
            ==> 0 <= kiSliceIdx < l.pFirstMbIdxOfSlice@.len() && kiSliceIdx < l.pCountMbNumInSlice@.len()),
    ensures
        match pCurLayer {
            None => r == ENC_RETURN_UNEXPECTED && *final(pSlice) == *old(pSlice),
            Some(l) => if l.pFirstMbIdxOfSlice@.len() == 0 || l.pCountMbNumInSlice@.len() == 0 {
                r == ENC_RETURN_UNEXPECTED && *final(pSlice) == *old(pSlice)
            } else {
                r == ENC_RETURN_SUCCESS
                    && final(pSlice).sSliceHeaderExt.sSliceHeader.iFirstMbInSlice
                    == l.pFirstMbIdxOfSlice@[kiSliceIdx as int]
                    && final(pSlice).iCountMbNumInSlice == l.pCountMbNumInSlice@[kiSliceIdx as int]
                    && *final(pSlice) == (SSlice {
                        sSliceHeaderExt: SSliceHeaderExt {
                            sSliceHeader: SSliceHeader {
                                iFirstMbInSlice: l.pFirstMbIdxOfSlice@[kiSliceIdx as int],
                                ..old(pSlice).sSliceHeaderExt.sSliceHeader
                            },
                            ..old(pSlice).sSliceHeaderExt
                        },
                        iCountMbNumInSlice: l.pCountMbNumInSlice@[kiSliceIdx as int],
                        ..*old(pSlice)
                    })
            },
        },
{
    let l = match pCurLayer {
        None => {
            return ENC_RETURN_UNEXPECTED;
        },
        Some(l) => l,
    };
    if l.pFirstMbIdxOfSlice.len() == 0 || l.pCountMbNumInSlice.len() == 0 {
        return ENC_RETURN_UNEXPECTED;
    }
    pSlice.sSliceHeaderExt.sSliceHeader.iFirstMbInSlice = l.pFirstMbIdxOfSlice[kiSliceIdx as usize];
    pSlice.iCountMbNumInSlice = l.pCountMbNumInSlice[kiSliceIdx as usize];
    ENC_RETURN_SUCCESS
}

/// Copies the base slice's header extension flag and parameter set ids.
pub fn InitSliceHeadWithBase(pSlice: &mut SSlice, pBaseSlice: &SSlice)
    ensures
        *final(pSlice) == (SSlice {
            bSliceHeaderExtFlag: pBaseSlice.bSliceHeaderExtFlag,
            sSliceHeaderExt: SSliceHeaderExt {
                sSliceHeader: SSliceHeader {
                    iPpsId: pBaseSlice.sSliceHeaderExt.sSliceHeader.iPpsId,
                    iSpsId: pBaseSlice.sSliceHeaderExt.sSliceHeader.iSpsId,
                    ..old(pSlice).sSliceHeaderExt.sSliceHeader
                },
                ..old(pSlice).sSliceHeaderExt
            },
            ..*old(pSlice)
        }),
{
    pSlice.bSliceHeaderExtFlag = pBaseSlice.bSliceHeaderExtFlag;
    pSlice.sSliceHeaderExt.sSliceHeader.iPpsId = pBaseSlice.sSliceHeaderExt.sSliceHeader.iPpsId;
    pSlice.sSliceHeaderExt.sSliceHeader.iSpsId = pBaseSlice.sSliceHeaderExt.sSliceHeader.iSpsId;
}

/// Sets the reference count and copies the base slice's reference marking
/// and list modification.
pub fn InitSliceRefInfoWithBase(pSlice: &mut SSlice, pBaseSlice: &SSlice, kuiRefCount: u8)
    ensures
        *final(pSlice) == (SSlice {
            sSliceHeaderExt: SSliceHeaderExt {
                sSliceHeader: SSliceHeader {
                    uiRefCount: kuiRefCount,
                    sRefMarking: pBaseSlice.sSliceHeaderExt.sSliceHeader.sRefMarking,
                    sRefReordering: pBaseSlice.sSliceHeaderExt.sSliceHeader.sRefReordering,
                    ..old(pSlice).sSliceHeaderExt.sSliceHeader
                },
                ..old(pSlice).sSliceHeaderExt
            },
            ..*old(pSlice)
        }),
{
    pSlice.sSliceHeaderExt.sSliceHeader.uiRefCount = kuiRefCount;
    pSlice.sSliceHeaderExt.sSliceHeader.sRefMarking = pBaseSlice.sSliceHeaderExt.sSliceHeader.sRefMarking;
    pSlice.sSliceHeaderExt.sSliceHeader.sRefReordering = pBaseSlice.sSliceHeaderExt.sSliceHeader.sRefReordering;
}

/// Starts the slice's rate control at `kiGlobalQp` with every count zero.
/// Answers `ENC_RETURN_INVALIDINPUT`, changing nothing, for a negative QP.
pub fn InitSliceRC(pSlice: &mut SSlice, kiGlobalQp: i32) -> (r: i32)
    ensures
        kiGlobalQp < 0 ==> r == ENC_RETURN_INVALIDINPUT && *final(pSlice) == *old(pSlice),
        kiGlobalQp >= 0 ==> r == ENC_RETURN_SUCCESS && *final(pSlice) == (SSlice {
            sSlicingOverRc: SRCSlicing {
                iComplexityIndexSlice: 0,
                iCalculatedQpSlice: kiGlobalQp,
                iTotalQpSlice: 0,
                iTotalMbSlice: 0,
                iTargetBitsSlice: 0,
                iFrameBitsSlice: 0,
                iGomBitsSlice: 0,
            },
            ..*old(pSlice)
        }),
{
    if kiGlobalQp < 0 {
        return ENC_RETURN_INVALIDINPUT;
    }
    pSlice.sSlicingOverRc.iComplexityIndexSlice = 0;
    pSlice.sSlicingOverRc.iCalculatedQpSlice = kiGlobalQp;
    pSlice.sSlicingOverRc.iTotalQpSlice = 0;
    pSlice.sSlicingOverRc.iTotalMbSlice = 0;
    pSlice.sSlicingOverRc.iTargetBitsSlice = 0;
    pSlice.sSlicingOverRc.iFrameBitsSlice = 0;
    pSlice.sSlicingOverRc.iGomBitsSlice = 0;
    ENC_RETURN_SUCCESS
}

/// Resets the SVC inter-layer prediction flags of the slice header: nothing
/// is skipped, and an enhancement layer predicts nothing from its base by
/// default or adaptively.
pub fn WelsSliceHeaderScalExtInit(pCurLayer: Option<&SDqLayer>, pSlice: &mut SSlice)
    ensures
        match pCurLayer {
            None => *final(pSlice) == *old(pSlice),
            Some(l) => {
                let o = old(pSlice).sSliceHeaderExt;
                let e = if l.sLayerInfo.sNalHeaderExt.uiDependencyId > 0 {
                    SSliceHeaderExt {
                        bSliceSkipFlag: false,
                        bAdaptiveBaseModeFlag: false,
                        bAdaptiveMotionPredFlag: false,
                        bAdaptiveResidualPredFlag: false,
                        bDefaultBaseModeFlag: false,
                        bDefaultMotionPredFlag: false,
                        bDefaultResidualPredFlag: false,
                        ..o
                    }
                } else {
                    SSliceHeaderExt { bSliceSkipFlag: false, ..o }
                };
                *final(pSlice) == (SSlice { sSliceHeaderExt: e, ..*old(pSlice) })
            },
        },
{
    let l = match pCurLayer {
        None => {
            return ;
        },
        Some(l) => l,
    };
    pSlice.sSliceHeaderExt.bSliceSkipFlag = false;
    if l.sLayerInfo.sNalHeaderExt.uiDependencyId > 0 {
        pSlice.sSliceHeaderExt.bAdaptiveBaseModeFlag = false;
        pSlice.sSliceHeaderExt.bAdaptiveMotionPredFlag = false;
        pSlice.sSliceHeaderExt.bAdaptiveResidualPredFlag = false;
        pSlice.sSliceHeaderExt.bDefaultBaseModeFlag = false;
        pSlice.sSliceHeaderExt.bDefaultMotionPredFlag = false;
        pSlice.sSliceHeaderExt.bDefaultResidualPredFlag = false;
    }
}

/// The slice header once the frame's values are stamped on it: its type,
/// frame number, IDR id, picture order (when a source picture is current), the
/// active reference count for a P slice (the requested count where the SPS
/// allows it, else one), the QP offset to the PPS and the layer's deblocking.
pub open spec fn stamped_slice_header(
    h: SSliceHeader,
    eSliceType: EWelsSliceType,
    iFrameNum: i32,
    uiIdrPicId: u16,
    iFramePoc: Option<i32>,
    num_ref: int,
    qp_delta: i8,
    l: SDqLayer,
) -> SSliceHeader {
    let override_ok = h.uiRefCount > 0 && h.uiRefCount <= num_ref;
    SSliceHeader {
        eSliceType,
        iFrameNum,
        uiIdrPicId,
        iPicOrderCntLsb: match iFramePoc {
            Some(p) => p,
            None => h.iPicOrderCntLsb,
        },
        uiNumRefIdxL0Active: if eSliceType != EWelsSliceType::P_SLICE {
            h.uiNumRefIdxL0Active
        } else if override_ok {
            h.uiRefCount
        } else {
            1
        },
        bNumRefIdxActiveOverrideFlag: if eSliceType != EWelsSliceType::P_SLICE {
            h.bNumRefIdxActiveOverrideFlag
        } else {
            override_ok
        },
        iSliceQpDelta: qp_delta,
        uiDisableDeblockingFilterIdc: l.iLoopFilterDisableIdc,
        iSliceAlphaC0Offset: l.iLoopFilterAlphaC0Offset,
        iSliceBetaOffset: l.iLoopFilterBetaOffset,
        ..h
    }
}

/// The SVC extension flags once a slice header is initialised: with an SVC
/// extension the skip flag is cleared and, above the base dependency layer,
/// the adaptive and default prediction flags; without one the prediction flags
/// are cleared.
pub open spec fn initialised_ext_flags(e: SSliceHeaderExt, svc_ext: bool, did: u8) -> SSliceHeaderExt {
    let cleared = SSliceHeaderExt {
        bAdaptiveBaseModeFlag: false,
        bAdaptiveMotionPredFlag: false,
        bAdaptiveResidualPredFlag: false,
        bDefaultBaseModeFlag: false,
        bDefaultMotionPredFlag: false,
        bDefaultResidualPredFlag: false,
        ..e
    };
    if svc_ext {
        if did > 0 {
            SSliceHeaderExt { bSliceSkipFlag: false, ..cleared }
        } else {
            SSliceHeaderExt { bSliceSkipFlag: false, ..e }
        }
    } else {
        cleared
    }
}

/// The header with the frame's values stamped on it (see
/// `stamped_slice_header`).
fn stamp_slice_header(
    h: SSliceHeader,
    eSliceType: EWelsSliceType,
    iFrameNum: i32,
    uiIdrPicId: u16,
    iFramePoc: Option<i32>,
    num_ref: i32,
    qp_delta: i8,
    l: &SDqLayer,
) -> (r: SSliceHeader)
    ensures
        r == stamped_slice_header(
            h,
            eSliceType,
            iFrameNum,
            uiIdrPicId,
            iFramePoc,
            num_ref as int,
            qp_delta,
            *l,
        ),
{
    let mut r = h;
    r.eSliceType = eSliceType;
    r.iFrameNum = iFrameNum;
    r.uiIdrPicId = uiIdrPicId;
    if let Some(poc) = iFramePoc {
        r.iPicOrderCntLsb = poc;
    }
    if eSliceType == EWelsSliceType::P_SLICE {
        r.uiNumRefIdxL0Active = 1;
        if r.uiRefCount > 0 && (r.uiRefCount as i32) <= num_ref {
            r.bNumRefIdxActiveOverrideFlag = true;
            r.uiNumRefIdxL0Active = r.uiRefCount;
        } else {
            r.bNumRefIdxActiveOverrideFlag = false;
        }
    }
    r.iSliceQpDelta = qp_delta;
    r.uiDisableDeblockingFilterIdc = l.iLoopFilterDisableIdc;
    r.iSliceAlphaC0Offset = l.iLoopFilterAlphaC0Offset;
    r.iSliceBetaOffset = l.iLoopFilterBetaOffset;
    r
}

/// Initialises the slice header of `pSlice` for the current frame of
/// `pCurLayer`: the frame's slice type, frame number and IDR id, the picture
/// order of the current source picture, the reference count that the layer's
/// SPS allows (one without an SPS), the QP offset to the layer's PPS (26
/// without a PPS), the layer's deblocking and the SVC extension flags. Without
/// a layer nothing changes.
#[verifier::spinoff_prover]
pub fn WelsSliceHeaderExtInit(
    eSliceType: EWelsSliceType,
    iFrameNum: i32,
    uiIdrPicId: u16,
    iFramePoc: Option<i32>,
    pSps: Option<&SWelsSPS>,
    pPps: Option<&SWelsPPS>,
    iGlobalQp: i32,
    pCurLayer: Option<&SDqLayer>,
    pSlice: &mut SSlice,
)
    requires
        i32::MIN <= iGlobalQp - match pPps {
            Some(p) => p.iPicInitQp as int,
            None => 26int,
        } <= i32::MAX,
    ensures
        match pCurLayer {
            None => *final(pSlice) == *old(pSlice),
            Some(l) => {
                let o = old(pSlice).sSliceHeaderExt;
                let num_ref = match pSps {
                    Some(sp) => sp.iNumRefFrames as int,
                    None => 1int,
                };
                let qp = match pPps {
                    Some(p) => p.iPicInitQp as int,
                    None => 26int,
                };
                let h = stamped_slice_header(
                    o.sSliceHeader,
                    eSliceType,
                    iFrameNum,
                    uiIdrPicId,
                    iFramePoc,
                    num_ref,
                    (iGlobalQp - qp) as i8,
                    *l,
                );
                let e = SSliceHeaderExt {
                    sSliceHeader: h,
                    bStoreRefBasePicFlag: false,
                    uiDisableInterLayerDeblockingFilterIdc: l.uiDisableInterLayerDeblockingFilterIdc,
                    ..o
                };
                *final(pSlice) == (SSlice {
                    sSliceHeaderExt: initialised_ext_flags(
                        e,
                        old(pSlice).bSliceHeaderExtFlag,
                        l.sLayerInfo.sNalHeaderExt.uiDependencyId,
                    ),
                    ..*old(pSlice)
                })
            },
        },
{
    let l = match pCurLayer {
        None => {
            return ;
        },
        Some(l) => l,
    };
    let num_ref: i32 = match pSps {
        Some(sp) => sp.iNumRefFrames,
        None => 1,
    };
    let pic_init_qp: i32 = match pPps {
        Some(p) => p.iPicInitQp,
        None => 26,
    };
    let mut e: SSliceHeaderExt = pSlice.sSliceHeaderExt;
    e.sSliceHeader = stamp_slice_header(
        e.sSliceHeader,
        eSliceType,
        iFrameNum,
        uiIdrPicId,
        iFramePoc,
        num_ref,
        (iGlobalQp - pic_init_qp) as i8,
        l,
    );
    e.bStoreRefBasePicFlag = false;
    e.uiDisableInterLayerDeblockingFilterIdc = l.uiDisableInterLayerDeblockingFilterIdc;
    pSlice.sSliceHeaderExt = e;
    if pSlice.bSliceHeaderExtFlag {
        WelsSliceHeaderScalExtInit(Some(l), pSlice);
    } else {
        pSlice.sSliceHeaderExt.bAdaptiveBaseModeFlag = false;
        pSlice.sSliceHeaderExt.bAdaptiveMotionPredFlag = false;
        pSlice.sSliceHeaderExt.bAdaptiveResidualPredFlag = false;
        pSlice.sSliceHeaderExt.bDefaultBaseModeFlag = false;
        pSlice.sSliceHeaderExt.bDefaultMotionPredFlag = false;
        pSlice.sSliceHeaderExt.bDefaultResidualPredFlag = false;
    }
}

/// The slice budget after an overflow of `iMaxSliceNumOld` slices: doubled
/// for one worker; otherwise grown by the share of the partition still to be
/// coded (in hundredths, times the old budget, at least 1 and at least half
/// the old budget). `None` for an empty old budget.
pub open spec fn new_slice_num(threads: int, left: int, in_part: int, old_num: int) -> Option<int> {
    if old_num == 0 {
        None
    } else if threads == 1 {
        Some(old_num * (SLICE_NUM_EXPAND_COEF as int))
    } else {
        let inc0 = if in_part > 0 {
            (left * (INT_MULTIPLY as int) / in_part) * old_num
        } else {
            0
        };
        let inc1 = if inc0 / (INT_MULTIPLY as int) == 0 {
            1
        } else {
            inc0 / (INT_MULTIPLY as int)
        };
        let inc2 = if inc1 < old_num / 2 {
            old_num / 2
        } else {
            inc1
        };
        Some(old_num + inc2)
    }
}

/// The arithmetic of the new slice budget stays within 32 bits.
pub open spec fn slice_num_fits(threads: int, left: int, in_part: int, old_num: int) -> bool {
    old_num == 0 || if threads == 1 {
        old_num * (SLICE_NUM_EXPAND_COEF as int) <= i32::MAX
    } else {
        &&& left * (INT_MULTIPLY as int) <= i32::MAX
        &&& in_part > 0 ==> (left * (INT_MULTIPLY as int) / in_part) * old_num <= i32::MAX
        &&& new_slice_num(threads, left, in_part, old_num) matches Some(n) && n <= i32::MAX
    }
}

/// After a slice overflow the slice budget grows: with coded macroblocks
/// left to count (never a negative number), the new budget is larger than
/// the old one.
pub proof fn law_new_slice_budget_grows(threads: int, left: int, in_part: int, old_num: int)
    requires
        1 <= threads,
        0 <= left,
        1 <= old_num,
    ensures
        new_slice_num(threads, left, in_part, old_num) matches Some(n) && n > old_num,
{
    if threads != 1 && in_part > 0 {
        assert(left * (INT_MULTIPLY as int) / in_part >= 0) by (nonlinear_arith)
            requires
                left >= 0,
                in_part > 0,
        ;
        assert((left * (INT_MULTIPLY as int) / in_part) * old_num >= 0) by (nonlinear_arith)
            requires
                left * (INT_MULTIPLY as int) / in_part >= 0,
                old_num >= 1,
        ;
    }
}

/// The macroblock that the traversal visits after `xy` lies after it in the
/// picture and, in a multi-slice layout, in the same slice.
pub proof fn law_next_mb_stays_in_its_slice(ctx: SSliceCtx, xy: int)
    ensures
        ({
            let n = next_mb_of_slice(ctx, xy);
            n == -1 || (xy < n < ctx.iMbNumInFrame && (ctx.uiSliceMode != SliceMode::SM_SINGLE_SLICE
                ==> slice_idc(ctx, n) == slice_idc(ctx, xy)))
        }),
{
}


pub fn CalculateNewSliceNum(
    iActiveThreadsNum: i32,
    pCurLayer: &SDqLayer,
    kiLastCodedSliceIdx: i32,
    iMaxSliceNumOld: i32,
    iMaxSliceNumNew: &mut i32,
) -> (r: i32)
    requires
        1 <= iActiveThreadsNum <= 4,
        0 <= kiLastCodedSliceIdx,
        0 <= iMaxSliceNumOld,
        ({
            let part = (kiLastCodedSliceIdx % iActiveThreadsNum) as int;
            let first = pCurLayer.FirstMbIdxOfPartition[part] as int;
            let last = pCurLayer.LastCodedMbIdxOfPartition[part] as int;
            let end = pCurLayer.EndMbIdxOfPartition[part] as int;
            &&& iActiveThreadsNum > 1 && iMaxSliceNumOld != 0 ==> 0 <= first <= last <= end + 1 <= i32::MAX
            &&& slice_num_fits(iActiveThreadsNum as int, end - last + 1, end - first + 1, iMaxSliceNumOld as int)
        }),
    ensures
        ({
            let part = (kiLastCodedSliceIdx % iActiveThreadsNum) as int;
            let in_part = pCurLayer.EndMbIdxOfPartition[part] - pCurLayer.FirstMbIdxOfPartition[part] + 1;
            let left = pCurLayer.EndMbIdxOfPartition[part] - pCurLayer.LastCodedMbIdxOfPartition[part] + 1;
            match new_slice_num(iActiveThreadsNum as int, left, in_part, iMaxSliceNumOld as int) {
                None => r == ENC_RETURN_INVALIDINPUT && *final(iMaxSliceNumNew) == *old(iMaxSliceNumNew),
                Some(n) => r == ENC_RETURN_SUCCESS && *final(iMaxSliceNumNew) == n,
            }
        }),
{
    if iMaxSliceNumOld == 0 {
        return ENC_RETURN_INVALIDINPUT;
    }
    if iActiveThreadsNum == 1 {
        *iMaxSliceNumNew = iMaxSliceNumOld * SLICE_NUM_EXPAND_COEF;
        return ENC_RETURN_SUCCESS;
    }
    let iPartitionID = (kiLastCodedSliceIdx % iActiveThreadsNum) as usize;
    let end = pCurLayer.EndMbIdxOfPartition[iPartitionID];
    let iMBNumInPartition = end - pCurLayer.FirstMbIdxOfPartition[iPartitionID] + 1;
    let iLeftMBNum = end - pCurLayer.LastCodedMbIdxOfPartition[iPartitionID] + 1;
    let mut inc: i32 = if iMBNumInPartition > 0 {
        assert(0 <= (iLeftMBNum * 100) as int / (iMBNumInPartition as int) <= 100) by (nonlinear_arith)
            requires
                0 <= iLeftMBNum <= iMBNumInPartition,
                iMBNumInPartition > 0,
        ;
        let q = iLeftMBNum * INT_MULTIPLY / iMBNumInPartition;
        assert(0 <= q * iMaxSliceNumOld) by (nonlinear_arith)
            requires
                0 <= q,
                0 <= iMaxSliceNumOld,
        ;
        q * iMaxSliceNumOld
    } else {
        0
    };
    inc = if inc / INT_MULTIPLY == 0 {
        1
    } else {
        inc / INT_MULTIPLY
    };
    inc = if inc < iMaxSliceNumOld / 2 {
        iMaxSliceNumOld / 2
    } else {
        inc
    };
    *iMaxSliceNumNew = iMaxSliceNumOld + inc;
    ENC_RETURN_SUCCESS
}

/// What a dynamic slice remembers before each macroblock so that it can
/// take the macroblock back: the writer, the arithmetic coder, the skip run
/// and the last QP, and for CABAC a copy of the bytes the coder may rewrite.
#[derive(Debug)]
pub struct SDynamicSlicingStack {
    pub iStartPos: i32,
    pub iCurrentPos: i32,
    pub sBsStack: BsWriter,
    pub sStoredCabac: crate::svc_set_mb_syn_cabac::SCabacCtx,
    pub iMbSkipRunStack: i32,
    pub uiLastMbQp: u8,
    pub pRestoreBuffer: Option<Vec<u8>>,
}

/// The bytes between the stack's start and current bit positions, a partial
/// byte counted whole.
pub open spec fn stacked_len(d: SDynamicSlicingStack) -> int {
    let off = d.iCurrentPos - d.iStartPos;
    off / 8 + if off % 8 != 0 { 1int } else { 0int }
}

/// The dynamic slicing closes the slice before macroblock `cur`: the slice has
/// no size control of its own, `cur` is not its first macroblock, the bytes
/// coded so far exceed the size constraint less its margin, and `cur` is
/// not the last macroblock of the slice's partition.
pub open spec fn dyn_slice_boundary(threads: int, l: SDqLayer, s: SSlice, cur: int, d: SDynamicSlicingStack) -> bool {
    let m = l.sSliceEncCtx.pOverallMbMap@;
    let end = l.EndMbIdxOfPartition[(s.iSliceIdx as int) % threads];
    let c = l.sSliceEncCtx.uiSliceSizeConstraint;
    let limit = if c >= AVER_MARGIN_BYTES { c - AVER_MARGIN_BYTES } else { 0 };
    &&& !s.bDynamicSlicingSliceSizeCtrlFlag
    &&& cur > 0 && m[cur] == m[cur - 1]
    &&& (stacked_len(d) as u32) > limit
    &&& cur < end
}

/// Decides, after coding macroblock `kiCurMbIdx`, whether the slice has grown
/// past its size constraint (see `dyn_slice_boundary`); if so the slice is
/// closed there, the next one opened at `kiCurMbIdx` up to the partition's
/// end, and the layer counts one more slice.
#[verifier::spinoff_prover]
#[verifier::rlimit(40)]
pub fn DynSlcJudgeSliceBoundaryStepBack(
    iActiveThreadsNum: i32,
    pCurLayer: &mut SDqLayer,
    pCurSlice: &mut SSlice,
    kiCurMbIdx: i32,
    pDss: &SDynamicSlicingStack,
    pMbs: &mut Vec<SMB>,
    pNextSlice: Option<&mut SSlice>,
) -> (r: bool)
    requires
        1 <= iActiveThreadsNum <= MAX_THREADS_NUM,
        0 <= old(pCurSlice).iSliceIdx,
        0 <= kiCurMbIdx < old(pCurLayer).sSliceEncCtx.pOverallMbMap@.len(),
        !old(pCurSlice).bDynamicSlicingSliceSizeCtrlFlag ==> i32::MIN <= pDss.iCurrentPos - pDss.iStartPos
            <= i32::MAX,
        dyn_slice_boundary(iActiveThreadsNum as int, *old(pCurLayer), *old(pCurSlice), kiCurMbIdx as int, *pDss)
            ==> {
            &&& old(pCurLayer).sSliceEncCtx.iSliceNumInFrame < i32::MAX
            &&& 1 + kiCurMbIdx <= i32::MAX
            &&& i32::MIN <= 1 + kiCurMbIdx - old(pCurSlice).sSliceHeaderExt.sSliceHeader.iFirstMbInSlice
                <= i32::MAX
            &&& pNextSlice is Some ==> slice_boundary_ok(
                iActiveThreadsNum as int,
                *old(pCurLayer),
                old(pMbs)@,
                kiCurMbIdx as int,
                kiCurMbIdx as int,
                old(pCurLayer).EndMbIdxOfPartition[(old(pCurSlice).iSliceIdx as int) % (iActiveThreadsNum as int)] as int,
            )
        },
    ensures
        r == dyn_slice_boundary(iActiveThreadsNum as int, *old(pCurLayer), *old(pCurSlice), kiCurMbIdx as int, *pDss),
        !r ==> layer_with_map(*old(pCurLayer), *final(pCurLayer), old(pCurLayer).sSliceEncCtx.pOverallMbMap@)
            && final(pCurLayer).sSliceEncCtx.iSliceNumInFrame == old(pCurLayer).sSliceEncCtx.iSliceNumInFrame
            && *final(pCurSlice) == *old(pCurSlice) && final(pMbs)@ == old(pMbs)@,
        r ==> final(pCurLayer).sSliceEncCtx.iSliceNumInFrame == old(pCurLayer).sSliceEncCtx.iSliceNumInFrame + 1
            && *final(pCurSlice) == closed_slice(*old(pCurSlice), kiCurMbIdx),
        match pNextSlice {
            None => r ==> layer_with_map(*old(pCurLayer), *final(pCurLayer), old(pCurLayer).sSliceEncCtx.pOverallMbMap@)
                && final(pMbs)@ == old(pMbs)@,
            Some(n) => if r {
                boundary_opened(
                    iActiveThreadsNum as int,
                    *old(pCurLayer),
                    *final(pCurLayer),
                    *n,
                    *final(n),
                    *final(pCurSlice),
                    old(pMbs)@,
                    final(pMbs)@,
                    kiCurMbIdx as int,
                    kiCurMbIdx,
                    old(pCurLayer).EndMbIdxOfPartition[(old(pCurSlice).iSliceIdx as int) % (iActiveThreadsNum as int)] as int,
                )
            } else {
                *final(n) == *n
            },
        },
{
    let kiPartitionId: usize = (pCurSlice.iSliceIdx % iActiveThreadsNum) as usize;
    let kiEndMbIdxOfPartition: i32 = pCurLayer.EndMbIdxOfPartition[kiPartitionId];
    let kbCurMbNotFirstMbOfCurSlice: bool = kiCurMbIdx > 0
        && pCurLayer.sSliceEncCtx.pOverallMbMap[kiCurMbIdx as usize]
        == pCurLayer.sSliceEncCtx.pOverallMbMap[(kiCurMbIdx - 1) as usize];
    let kbCurMbNotLastMbOfCurPartition: bool = kiCurMbIdx < kiEndMbIdxOfPartition;
    if pCurSlice.bDynamicSlicingSliceSizeCtrlFlag {
        return false;
    }
    let iPosBitOffset: i32 = pDss.iCurrentPos - pDss.iStartPos;
    let extra: i32 = if (iPosBitOffset & 0x07) != 0 { 1 } else { 0 };
    proof {
        crate::bits::lemma_i32_shifts();
        lemma_i32_byte_split();
    }
    let uiLen: u32 = ((iPosBitOffset >> 3u32) + extra) as u32;
    assert(uiLen == stacked_len(*pDss) as u32);
    if kbCurMbNotFirstMbOfCurSlice && JUMPPACKETSIZE_JUDGE(
        uiLen,
        kiCurMbIdx,
        pCurLayer.sSliceEncCtx.uiSliceSizeConstraint,
    ) && kbCurMbNotLastMbOfCurPartition {
        AddSliceBoundary(
            iActiveThreadsNum,
            pCurLayer,
            pCurSlice,
            kiCurMbIdx,
            kiCurMbIdx,
            kiEndMbIdxOfPartition,
            pMbs,
            pNextSlice,
        );
        pCurLayer.sSliceEncCtx.iSliceNumInFrame = pCurLayer.sSliceEncCtx.iSliceNumInFrame + 1;
        return true;
    }
    false
}

/// A signed bit offset splits into whole bytes and a remainder.
pub proof fn lemma_i32_byte_split()
    by (bit_vector)
    ensures
        forall|t: i32| #[trigger] (t >> 3u32) == t / 8,
        forall|t: i32| (#[trigger] (t & 7i32) == 0i32) <==> (t / 8) * 8 == t,
{
}

pub const MAX_LAYER_NUM_OF_FRAME: usize = 128;

/// What the bitstream of one coded layer reports.
#[derive(Clone, Copy, Debug)]
pub struct SLayerBSInfo {
    pub uiTemporalId: u8,
    pub uiSpatialId: u8,
    pub uiQualityId: u8,
    pub uiLayerType: u8,
    pub iNalCount: i32,
}

/// What the bitstream of one coded frame reports, layer by layer.
pub struct SFrameBSInfo {
    pub iLayerNum: i32,
    pub sLayerInfo: [SLayerBSInfo; 128],
    pub eFrameType: crate::wels_encoder_ext::EVideoFrameType,
    pub uiTimeStamp: i64,
}

/// The NAL units of the first `n` layer records.
pub open spec fn nal_count_sum(layers: Seq<SLayerBSInfo>, n: int) -> int
    decreases n,
{
    if n <= 0 {
        0
    } else {
        nal_count_sum(layers, n - 1) + layers[n - 1].iNalCount
    }
}

/// The NAL units of all layer records of the frame.
pub fn GetTotalCodedNalCount(pFbi: &mut SFrameBSInfo) -> (r: i32)
    requires
        forall|n: int|
            0 <= n <= MAX_LAYER_NUM_OF_FRAME ==> i32::MIN <= #[trigger] nal_count_sum(
                old(pFbi).sLayerInfo@,
                n,
            ) <= i32::MAX,
    ensures
        r == nal_count_sum(old(pFbi).sLayerInfo@, MAX_LAYER_NUM_OF_FRAME as int),
        final(pFbi).iLayerNum == old(pFbi).iLayerNum,
        final(pFbi).sLayerInfo@ == old(pFbi).sLayerInfo@,
{
    let mut iTotalCodedNalCount: i32 = 0;
    let mut iNalIdx: usize = 0;
    while iNalIdx < MAX_LAYER_NUM_OF_FRAME
        invariant
            iNalIdx <= MAX_LAYER_NUM_OF_FRAME,
            pFbi.sLayerInfo@.len() == MAX_LAYER_NUM_OF_FRAME,
            iTotalCodedNalCount == nal_count_sum(pFbi.sLayerInfo@, iNalIdx as int),
            forall|n: int|
                0 <= n <= MAX_LAYER_NUM_OF_FRAME ==> i32::MIN <= #[trigger] nal_count_sum(
                    pFbi.sLayerInfo@,
                    n,
                ) <= i32::MAX,
        decreases MAX_LAYER_NUM_OF_FRAME - iNalIdx,
    {
        assert(i32::MIN <= nal_count_sum(pFbi.sLayerInfo@, iNalIdx as int + 1) <= i32::MAX);
        iTotalCodedNalCount = iTotalCodedNalCount + pFbi.sLayerInfo[iNalIdx].iNalCount;
        iNalIdx = iNalIdx + 1;
    }
    iTotalCodedNalCount
}


/// The number of entries of a slice argument's macroblock-count table.
pub const MAX_SLICES_NUM_TMP: usize = 35;

/// How a picture is asked to be cut into slices: the mode, the number of
/// slices, the macroblock count of each slice, and the size limit of a
/// size-limited slice.
#[derive(Clone, Copy, Debug)]
pub struct SSliceArgument {
    pub uiSliceMode: SliceMode,
    pub uiSliceNum: u32,
    pub uiSliceMbNum: [u32; 35],
    pub uiSliceSizeConstraint: u32,
}

impl Default for SSliceArgument {
    /// A single slice with no counts and no size limit.
    fn default() -> (r: Self)
        ensures
            r.uiSliceMode == SliceMode::SM_SINGLE_SLICE,
            r.uiSliceNum == 0,
            r.uiSliceSizeConstraint == 0,
    {
        SSliceArgument {
            uiSliceMode: SliceMode::SM_SINGLE_SLICE,
            uiSliceNum: 0,
            uiSliceMbNum: [0u32; 35],
            uiSliceSizeConstraint: 0,
        }
    }
}

/// The macroblocks of the slices before slice `s`.
pub open spec fn slice_mb_prefix(arg: SSliceArgument, s: int) -> int
    decreases s,
{
    if s <= 0 {
        0
    } else {
        slice_mb_prefix(arg, s - 1) + arg.uiSliceMbNum[s - 1]
    }
}

/// The slices follow the argument's macroblock counts: fixed-number slices,
/// and raster slices with a count for the first slice.
pub open spec fn counted_slices(arg: SSliceArgument) -> bool {
    arg.uiSliceMode == SliceMode::SM_FIXEDSLCNUM_SLICE || (arg.uiSliceMode == SliceMode::SM_RASTER_SLICE
        && arg.uiSliceMbNum[0] != 0)
}

/// The first macroblock and the macroblock count of slice `s` of a picture
/// `w` macroblocks wide with `total` macroblocks: one row per slice for
/// raster slices without counts, the argument's counts in order for counted
/// slices, the whole picture otherwise.
pub open spec fn slice_boundary(arg: SSliceArgument, w: int, total: int, s: int) -> (int, int) {
    if arg.uiSliceMode == SliceMode::SM_RASTER_SLICE && arg.uiSliceMbNum[0] == 0 {
        (s * w, w)
    } else if counted_slices(arg) {
        (slice_mb_prefix(arg, s), arg.uiSliceMbNum[s] as int)
    } else {
        (0, total)
    }
}

/// Slice `s` would start beyond the picture.
pub open spec fn slice_starts_beyond(arg: SSliceArgument, total: int, s: int) -> bool {
    counted_slices(arg) && slice_mb_prefix(arg, s) >= total
}

/// How many of the first `n` slices are laid out: all of them, or those
/// before the first that would start beyond the picture.
pub open spec fn slices_laid_out(arg: SSliceArgument, total: int, n: int) -> int
    decreases n,
{
    if n <= 0 {
        0
    } else {
        let k = slices_laid_out(arg, total, n - 1);
        if k < n - 1 {
            k
        } else if slice_starts_beyond(arg, total, n - 1) {
            n - 1
        } else {
            n
        }
    }
}

proof fn lemma_laid_out_stops(arg: SSliceArgument, total: int, s: int, n: int)
    requires
        0 <= s < n,
        slices_laid_out(arg, total, s) == s,
        slice_starts_beyond(arg, total, s),
    ensures
        slices_laid_out(arg, total, n) == s,
    decreases n - s,
{
    if n > s + 1 {
        lemma_laid_out_stops(arg, total, s, n - 1);
    }
}

proof fn lemma_laid_out_bound(arg: SSliceArgument, total: int, n: int)
    requires
        0 <= n,
    ensures
        0 <= slices_laid_out(arg, total, n) <= n,
        slices_laid_out(arg, total, n) < n ==> slice_starts_beyond(arg, total, slices_laid_out(arg, total, n)),
        forall|s: int| 0 <= s < slices_laid_out(arg, total, n) ==> !#[trigger] slice_starts_beyond(arg, total, s),
    decreases n,
{
    if n > 0 {
        lemma_laid_out_bound(arg, total, n - 1);
    }
}

proof fn lemma_prefix_nonneg(arg: SSliceArgument, s: int)
    requires
        0 <= s,
    ensures
        0 <= slice_mb_prefix(arg, s),
    decreases s,
{
    if s > 0 {
        lemma_prefix_nonneg(arg, s - 1);
    }
}

/// Lays out the first `kiSliceNumInFrame` slices of the layer's picture:
/// the first macroblock and macroblock count of each slice (see
/// `slice_boundary`) go to the layer's tables. Answers
/// `ENC_RETURN_UNEXPECTED`, with the slices before it laid out, at the first
/// counted slice that would start beyond the picture; `ENC_RETURN_SUCCESS`
/// otherwise.
pub fn InitSliceBoundaryInfo(pCurLayer: &mut SDqLayer, pSliceArgument: &SSliceArgument, kiSliceNumInFrame: i32) -> (r: i32)
    requires
        ({
            let total = old(pCurLayer).iMbWidth * old(pCurLayer).iMbHeight;
            let k = slices_laid_out(*pSliceArgument, total, kiSliceNumInFrame as int);
            &&& k <= old(pCurLayer).pCountMbNumInSlice@.len()
            &&& k <= old(pCurLayer).pFirstMbIdxOfSlice@.len()
            &&& counted_slices(*pSliceArgument) ==> {
                &&& k <= MAX_SLICES_NUM_TMP
                &&& forall|i: int| 0 <= i < k ==> #[trigger] pSliceArgument.uiSliceMbNum[i] <= 0x3fff_ffff
            }
            &&& forall|s: int| 0 <= s < k ==> i32::MIN <= #[trigger] (s * old(pCurLayer).iMbWidth) <= i32::MAX
        }),
    ensures
        ({
            let w = old(pCurLayer).iMbWidth as int;
            let total = old(pCurLayer).iMbWidth * old(pCurLayer).iMbHeight;
            let k = slices_laid_out(*pSliceArgument, total, kiSliceNumInFrame as int);
            &&& r == if k < kiSliceNumInFrame { ENC_RETURN_UNEXPECTED } else { ENC_RETURN_SUCCESS }
            &&& *final(pCurLayer) == (SDqLayer {
                pCountMbNumInSlice: final(pCurLayer).pCountMbNumInSlice,
                pFirstMbIdxOfSlice: final(pCurLayer).pFirstMbIdxOfSlice,
                ..*old(pCurLayer)
            })
            &&& final(pCurLayer).pCountMbNumInSlice@.len() == old(pCurLayer).pCountMbNumInSlice@.len()
            &&& final(pCurLayer).pFirstMbIdxOfSlice@.len() == old(pCurLayer).pFirstMbIdxOfSlice@.len()
            &&& forall|s: int|
                0 <= s < k ==> #[trigger] final(pCurLayer).pFirstMbIdxOfSlice@[s] == slice_boundary(
                    *pSliceArgument,
                    w,
                    total,
                    s,
                ).0
            &&& forall|s: int|
                0 <= s < k ==> #[trigger] final(pCurLayer).pCountMbNumInSlice@[s] == slice_boundary(
                    *pSliceArgument,
                    w,
                    total,
                    s,
                ).1
            &&& forall|s: int|
                k <= s < final(pCurLayer).pFirstMbIdxOfSlice@.len() ==> #[trigger] final(pCurLayer).pFirstMbIdxOfSlice@[s]
                    == old(pCurLayer).pFirstMbIdxOfSlice@[s]
            &&& forall|s: int|
                k <= s < final(pCurLayer).pCountMbNumInSlice@.len() ==> #[trigger] final(pCurLayer).pCountMbNumInSlice@[s]
                    == old(pCurLayer).pCountMbNumInSlice@[s]
        }),
{
    let ghost l0 = *pCurLayer;
    let kiMBWidth: i32 = pCurLayer.iMbWidth as i32;
    let kiMBHeight: i32 = pCurLayer.iMbHeight as i32;
    assert(-32768 * 32767 <= kiMBWidth * kiMBHeight <= 32768 * 32768) by (nonlinear_arith)
        requires
            -32768 <= kiMBWidth <= 32767,
            -32768 <= kiMBHeight <= 32767,
    ;
    let kiCountNumMbInFrame: i32 = kiMBWidth * kiMBHeight;
    let ghost total = kiCountNumMbInFrame as int;
    let ghost arg = *pSliceArgument;
    let ghost kk = slices_laid_out(arg, total, kiSliceNumInFrame as int);
    proof {
        if kiSliceNumInFrame >= 0 {
            lemma_laid_out_bound(arg, total, kiSliceNumInFrame as int);
        }
    }
    let mut iSliceIdx: i32 = 0;
    while iSliceIdx < kiSliceNumInFrame
        invariant
            0 <= iSliceIdx <= kiSliceNumInFrame || (iSliceIdx == 0 && kiSliceNumInFrame <= 0),
            iSliceIdx <= kk,
            slices_laid_out(arg, total, iSliceIdx as int) == iSliceIdx,
            total <= 32768 * 32768,
            l0 == *old(pCurLayer),
            kiMBWidth == l0.iMbWidth,
            total == kiCountNumMbInFrame,
            total == l0.iMbWidth * l0.iMbHeight,
            arg == *pSliceArgument,
            kk == slices_laid_out(arg, total, kiSliceNumInFrame as int),
            0 <= kk,
            kk <= kiSliceNumInFrame || kk == 0,
            kk < kiSliceNumInFrame ==> slice_starts_beyond(arg, total, kk),
            forall|s: int| 0 <= s < kk ==> !#[trigger] slice_starts_beyond(arg, total, s),
            kk <= l0.pCountMbNumInSlice@.len(),
            kk <= l0.pFirstMbIdxOfSlice@.len(),
            counted_slices(arg) ==> kk <= MAX_SLICES_NUM_TMP,
            counted_slices(arg) ==> forall|i: int| 0 <= i < kk ==> #[trigger] arg.uiSliceMbNum[i] <= 0x3fff_ffff,
            forall|s: int| 0 <= s < kk ==> i32::MIN <= #[trigger] (s * l0.iMbWidth) <= i32::MAX,
            *pCurLayer == (SDqLayer {
                pCountMbNumInSlice: pCurLayer.pCountMbNumInSlice,
                pFirstMbIdxOfSlice: pCurLayer.pFirstMbIdxOfSlice,
                ..l0
            }),
            pCurLayer.pCountMbNumInSlice@.len() == l0.pCountMbNumInSlice@.len(),
            pCurLayer.pFirstMbIdxOfSlice@.len() == l0.pFirstMbIdxOfSlice@.len(),
            forall|s: int|
                0 <= s < iSliceIdx ==> #[trigger] pCurLayer.pFirstMbIdxOfSlice@[s] == slice_boundary(
                    arg,
                    l0.iMbWidth as int,
                    total,
                    s,
                ).0,
            forall|s: int|
                0 <= s < iSliceIdx ==> #[trigger] pCurLayer.pCountMbNumInSlice@[s] == slice_boundary(
                    arg,
                    l0.iMbWidth as int,
                    total,
                    s,
                ).1,
            forall|s: int|
                iSliceIdx <= s < pCurLayer.pFirstMbIdxOfSlice@.len() ==> #[trigger] pCurLayer.pFirstMbIdxOfSlice@[s]
                    == l0.pFirstMbIdxOfSlice@[s],
            forall|s: int|
                iSliceIdx <= s < pCurLayer.pCountMbNumInSlice@.len() ==> #[trigger] pCurLayer.pCountMbNumInSlice@[s]
                    == l0.pCountMbNumInSlice@[s],
        decreases kiSliceNumInFrame - iSliceIdx,
    {
        let mut iFirstMBInSlice: i32;
        let mut iMbNumInSlice: i32;
        let mode = pSliceArgument.uiSliceMode;
        if mode == SliceMode::SM_RASTER_SLICE && pSliceArgument.uiSliceMbNum[0] == 0 {
            assert(iSliceIdx < kk);
            assert(i32::MIN <= iSliceIdx * l0.iMbWidth <= i32::MAX);
            iFirstMBInSlice = iSliceIdx * kiMBWidth;
            iMbNumInSlice = kiMBWidth;
        } else if mode == SliceMode::SM_RASTER_SLICE || mode == SliceMode::SM_FIXEDSLCNUM_SLICE {
            let mut iMbIdx: i32 = 0;
            let mut i: i32 = 0;
            while i < iSliceIdx
                invariant
                    0 <= i <= iSliceIdx,
                    iSliceIdx <= kk,
                    kk <= MAX_SLICES_NUM_TMP,
                    counted_slices(arg),
                    arg == *pSliceArgument,
                    forall|j: int| 0 <= j < kk ==> #[trigger] arg.uiSliceMbNum[j] <= 0x3fff_ffff,
                    forall|s: int| 0 <= s < kk ==> !#[trigger] slice_starts_beyond(arg, total, s),
                    total <= 32768 * 32768,
                    iMbIdx == slice_mb_prefix(arg, i as int),
                decreases iSliceIdx - i,
            {
                proof {
                    lemma_prefix_nonneg(arg, i as int);
                    assert(!slice_starts_beyond(arg, total, i as int));
                }
                iMbIdx = iMbIdx + pSliceArgument.uiSliceMbNum[i as usize] as i32;
                i = i + 1;
            }
            if iMbIdx >= kiCountNumMbInFrame {
                proof {
                    assert(slice_starts_beyond(arg, total, iSliceIdx as int));
                    lemma_laid_out_stops(arg, total, iSliceIdx as int, kiSliceNumInFrame as int);
                }
                return ENC_RETURN_UNEXPECTED;
            }
            assert(iSliceIdx < kk);
            iFirstMBInSlice = iMbIdx;
            iMbNumInSlice = pSliceArgument.uiSliceMbNum[iSliceIdx as usize] as i32;
        } else {
            iFirstMBInSlice = 0;
            iMbNumInSlice = kiCountNumMbInFrame;
        }
        assert(iSliceIdx < kk);
        pCurLayer.pCountMbNumInSlice.set(iSliceIdx as usize, iMbNumInSlice);
        pCurLayer.pFirstMbIdxOfSlice.set(iSliceIdx as usize, iFirstMBInSlice);
        iSliceIdx = iSliceIdx + 1;
    }
    ENC_RETURN_SUCCESS
}


/// Raster and counted slices follow one another: each starts where the one
/// before it ends. A laid-out counted slice starts inside the picture.
pub proof fn law_slices_follow_one_another(arg: SSliceArgument, w: int, total: int, n: int, s: int)
    requires
        arg.uiSliceMode == SliceMode::SM_RASTER_SLICE || arg.uiSliceMode == SliceMode::SM_FIXEDSLCNUM_SLICE,
        0 <= s,
    ensures
        slice_boundary(arg, w, total, s + 1).0 == slice_boundary(arg, w, total, s).0 + slice_boundary(arg, w, total, s).1,
        s < slices_laid_out(arg, total, n) && counted_slices(arg) ==> slice_boundary(arg, w, total, s).0 < total,
{
    if arg.uiSliceMode == SliceMode::SM_RASTER_SLICE && arg.uiSliceMbNum[0] == 0 {
        assert((s + 1) * w == s * w + w) by (nonlinear_arith);
    }
    if n >= 0 {
        lemma_laid_out_bound(arg, total, n);
        if s < slices_laid_out(arg, total, n) {
            assert(!slice_starts_beyond(arg, total, s));
        }
    }
}


/// Prepares the inter mode decision of macroblock `pCurMb`: the rate weight
/// of its QP, its row of the cost table (`kiMvdInterTableStride` entries per
/// QP, when there is a table), its position in pixels and no static blocks.
pub fn WelsInitInterMDStruc(
    pCurMb: &crate::mb::SMB,
    pMvdCostTable: Option<usize>,
    kiMvdInterTableStride: i32,
    pMd: &mut crate::svc_mode_decision::SWelsMD,
)
    requires
        pCurMb.uiLumaQp < 52,
        pMvdCostTable matches Some(b) ==> 0 <= b + pCurMb.uiLumaQp * kiMvdInterTableStride <= usize::MAX,
        i32::MIN <= pCurMb.uiLumaQp * kiMvdInterTableStride <= i32::MAX,
    ensures
        *final(pMd) == (crate::svc_mode_decision::SWelsMD {
            iLambda: g_kiQpCostTable[pCurMb.uiLumaQp as int],
            pMvdCost: match pMvdCostTable {
                Some(b) => Some((b + pCurMb.uiLumaQp * kiMvdInterTableStride) as usize),
                None => old(pMd).pMvdCost,
            },
            iMbPixX: (pCurMb.iMbX * 16) as i32,
            iMbPixY: (pCurMb.iMbY * 16) as i32,
            iBlock8x8StaticIdc: [0i32, 0, 0, 0],
            ..*old(pMd)
        }),
{
    let luma_qp = pCurMb.uiLumaQp as usize;
    pMd.iLambda = g_kiQpCostTable[luma_qp];
    match pMvdCostTable {
        Some(b) => {
            let d: i32 = luma_qp as i32 * kiMvdInterTableStride;
            let nb: usize = if d >= 0 {
                b + d as usize
            } else {
                b - (-(d as i64)) as usize
            };
            pMd.pMvdCost = Some(nb);
        },
        None => {},
    }
    pMd.iMbPixX = pCurMb.iMbX as i32 * 16;
    pMd.iMbPixY = pCurMb.iMbY as i32 * 16;
    pMd.iBlock8x8StaticIdc = [0, 0, 0, 0];
}


// ---------------------------------------------------------------------------
// The inter macroblock loop of a slice
// ---------------------------------------------------------------------------

/// Where a slice's inter macroblock loop stands: the macroblock in hand, how
/// many macroblocks it has coded, and how many the layer has.
#[derive(Clone, Copy, Debug)]
pub struct SMbLoopState {
    pub iCurMbIdx: i32,
    pub iNumMbCoded: i32,
    pub kiTotalNumMb: i32,
}

/// What the loop does after a macroblock's syntax was written.
#[derive(Clone, Copy, Debug, PartialEq, Eq, Structural)]
pub enum EMbLoopAction {
    /// Take the writer back to the stash, raise the macroblock's QP (see
    /// `UpdateQpForOverflow`) and decide and write it again.
    RetryWithHigherQp,
    /// Stop the slice with this return code.
    Fail(i32),
    /// Take the writer back to the stash: the slice ends before this
    /// macroblock, which opens the next slice.
    StepBack,
    /// Code this macroblock next.
    NextMb(i32),
    /// The slice ends after this macroblock: write the pending skip run.
    Finish,
}

/// The loop's next state and action after writing the macroblock in hand
/// with return code `ret` at luma QP `qp`. An escaping level under QP 50 is
/// written again at a higher QP (with CAVLC only, unless the slices are
/// dynamic); another failure stops the slice; with dynamic slices
/// `step_back` (the macroblock crossed the slice's size limit) ends the
/// slice before it; otherwise the macroblock counts as coded and the loop
/// moves to the next macroblock of the slice, or ends the slice when there
/// is none or every macroblock of the layer is coded.
pub open spec fn mb_loop_next(
    s: SMbLoopState,
    ctx: SSliceCtx,
    cabac: bool,
    dynamic: bool,
    ret: i32,
    qp: u8,
    step_back: bool,
) -> (SMbLoopState, EMbLoopAction) {
    if (dynamic || !cabac) && ret == ENC_RETURN_VLCOVERFLOWFOUND && qp < 50 {
        (s, EMbLoopAction::RetryWithHigherQp)
    } else if ret != ENC_RETURN_SUCCESS {
        (s, EMbLoopAction::Fail(ret))
    } else if dynamic && step_back {
        (s, EMbLoopAction::StepBack)
    } else {
        let coded = s.iNumMbCoded + 1;
        let next = next_mb_of_slice(ctx, s.iCurMbIdx as int);
        if next == -1 || next >= s.kiTotalNumMb || coded >= s.kiTotalNumMb {
            (SMbLoopState { iNumMbCoded: coded as i32, ..s }, EMbLoopAction::Finish)
        } else {
            (SMbLoopState { iCurMbIdx: next as i32, iNumMbCoded: coded as i32, ..s }, EMbLoopAction::NextMb(next as i32))
        }
    }
}

/// A loop state the loop can be in: fewer macroblocks coded than the layer
/// has.
pub open spec fn mb_loop_wf(s: SMbLoopState) -> bool {
    0 <= s.iNumMbCoded < s.kiTotalNumMb
}

/// One step of the inter macroblock loop of a slice (`bDynamic`: the loop
/// over dynamic slices), after the macroblock in hand was decided and its
/// syntax written with return code `iEncReturn` at luma QP `uiLumaQp`;
/// `bStepBack` is the dynamic slice boundary judgement of that macroblock.
/// Answers what the loop does next and moves its state (see
/// [`mb_loop_next`]).
pub fn WelsMdInterMbLoopStep(
    pState: &mut SMbLoopState,
    pSliceCtx: &SSliceCtx,
    bCabac: bool,
    bDynamic: bool,
    iEncReturn: i32,
    uiLumaQp: u8,
    bStepBack: bool,
) -> (r: EMbLoopAction)
    requires
        mb_loop_wf(*old(pState)),
    ensures
        (*final(pState), r) == mb_loop_next(*old(pState), *pSliceCtx, bCabac, bDynamic, iEncReturn, uiLumaQp, bStepBack),
{
    if (bDynamic || !bCabac) && iEncReturn == ENC_RETURN_VLCOVERFLOWFOUND && uiLumaQp < 50 {
        return EMbLoopAction::RetryWithHigherQp;
    }
    if iEncReturn != ENC_RETURN_SUCCESS {
        return EMbLoopAction::Fail(iEncReturn);
    }
    if bDynamic && bStepBack {
        return EMbLoopAction::StepBack;
    }
    let iNumMbCoded = pState.iNumMbCoded + 1;
    let iNextMbIdx = WelsGetNextMbOfSlice(pSliceCtx, pState.iCurMbIdx);
    pState.iNumMbCoded = iNumMbCoded;
    if iNextMbIdx == -1 || iNextMbIdx >= pState.kiTotalNumMb || iNumMbCoded >= pState.kiTotalNumMb {
        return EMbLoopAction::Finish;
    }
    pState.iCurMbIdx = iNextMbIdx;
    EMbLoopAction::NextMb(iNextMbIdx)
}

/// The macroblock loop makes progress: a retry, a failure and a step back
/// leave its state alone; moving on codes one more macroblock, stays within
/// the layer's count (so the loop moves on fewer times than the layer has
/// macroblocks) and goes to the macroblock right after the one in hand.
pub proof fn law_mb_loop_moves_to_the_next_macroblock(
    s: SMbLoopState,
    ctx: SSliceCtx,
    cabac: bool,
    dynamic: bool,
    ret: i32,
    qp: u8,
    step_back: bool,
)
    requires
        mb_loop_wf(s),
    ensures
        ({
            let (s2, a) = mb_loop_next(s, ctx, cabac, dynamic, ret, qp, step_back);
            match a {
                EMbLoopAction::NextMb(m) => {
                    &&& m == s.iCurMbIdx + 1
                    &&& s2.iCurMbIdx == m
                    &&& s2.iNumMbCoded == s.iNumMbCoded + 1
                    &&& mb_loop_wf(s2)
                    &&& s2.kiTotalNumMb == s.kiTotalNumMb
                },
                EMbLoopAction::Finish => s2 == (SMbLoopState { iNumMbCoded: (s.iNumMbCoded + 1) as i32, ..s }),
                _ => s2 == s,
            }
        }),
{
}

} // verus!
