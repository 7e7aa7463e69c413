//! Mode decision: motion-vector prediction from the neighbour caches, the
//! partition merge after an 8x8 search, the static and scrolled skip
//! helpers and the cost comparisons of the skip decisions.
use vstd::prelude::*;
use crate::svc_motion_estimate::{
    PSampleSadSatdCostFunc, SSampleDealingFunc, sample_sad, sad_cost, sad_fits, BLOCK_8x8,
};
use crate::mb::{
    SMB, SMbCache, SMVUnitXY, TagMVComponentUnit, MB_TYPE_SKIP, MB_TYPE_INTRA, MB_TYPE_INTRA_BL,
    MB_TYPE_16x8, MB_TYPE_8x16, MB_TYPE_8x8,
};
use crate::svc_motion_estimate::SWelsME;
use crate::mb::MB_TYPE_16x16;
use crate::svc_motion_estimate::{SPlaneLayout, sample_at, layout_ok, plane_offset};
use crate::svc_motion_estimate::{displaced_sad, displaced_fits, displaced_sad_of};

verus! {

pub type SMVComponentUnit = TagMVComponentUnit;

pub const DELTA_QP_SCD_THD: i32 = 5;
pub const DELTA_QP_BGD_THD: i32 = 3;
pub const KNOWN_CHROMA_TOO_LARGE: i32 = 640;
pub const SMALLEST_INVISIBLE: i32 = 128;
pub const MBVAASIGN_FLAT: u8 = 15;

pub const MB_LEFT_BIT: u32 = 0;
pub const MB_TOP_BIT: u32 = 1;
pub const MB_TOPRIGHT_BIT: u32 = 2;
pub const REF_NOT_AVAIL: i8 = -2;

pub const P_SLICE: i32 = 0;
pub const I_SLICE: i32 = 2;

/// The position in the 6-wide motion cache of each 4x4 block, in the
/// macroblock's 8x8-major block order.
pub const g_kuiCache30ScanIdx: [u8; 16] = [7, 8, 13, 14, 9, 10, 15, 16, 19, 20, 25, 26, 21, 22, 27, 28];

pub const g_kuiMbCountScan4Idx: [u8; 24] = [
    0, 1, 4, 5, 2, 3, 6, 7, 8, 9, 12, 13, 10, 11, 14, 15, 16, 17, 20, 21, 18, 19, 22, 23,
];

/// The two kinds of screen-content skip.
#[derive(Clone, Copy, Debug, PartialEq, Eq, Structural)]
pub enum ESkipModes {
    STATIC,
    SCROLLED,
}

/// How an 8x8 block relates to the reference picture.
#[derive(Clone, Copy, Debug, PartialEq, Eq, Structural)]
pub enum EStaticBlockIdc {
    NO_STATIC,
    COLLOCATED_STATIC,
    SCROLLED_STATIC,
}

/// The number a block-static index is stored as.
pub open spec fn static_idc_value(e: EStaticBlockIdc) -> i32 {
    match e {
        EStaticBlockIdc::NO_STATIC => 0,
        EStaticBlockIdc::COLLOCATED_STATIC => 1,
        EStaticBlockIdc::SCROLLED_STATIC => 2,
    }
}

pub fn IS_SKIP(uiMbType: u32) -> (r: bool)
    ensures
        r == ((uiMbType & MB_TYPE_SKIP) != 0),
{
    (uiMbType & MB_TYPE_SKIP) != 0
}

pub fn IS_INTRA(uiMbType: u32) -> (r: bool)
    ensures
        r == ((uiMbType & MB_TYPE_INTRA) != 0),
{
    (uiMbType & MB_TYPE_INTRA) != 0
}

pub fn IS_I_BL(uiMbType: u32) -> (r: bool)
    ensures
        r == (uiMbType == MB_TYPE_INTRA_BL),
{
    uiMbType == MB_TYPE_INTRA_BL
}

/// Intra coded, or predicted from the base layer.
pub fn IS_SVC_INTRA(uiMbType: u32) -> (r: bool)
    ensures
        r == (uiMbType == MB_TYPE_INTRA_BL || (uiMbType & MB_TYPE_INTRA) != 0),
{
    IS_I_BL(uiMbType) || IS_INTRA(uiMbType)
}

pub open spec fn clip3(x: int, lo: int, hi: int) -> int {
    if x < lo {
        lo
    } else if x > hi {
        hi
    } else {
        x
    }
}

pub fn WELS_CLIP3(iX: i32, iMin: i32, iMax: i32) -> (r: i32)
    ensures
        r == clip3(iX as int, iMin as int, iMax as int),
{
    if iX < iMin {
        iMin
    } else if iX > iMax {
        iMax
    } else {
        iX
    }
}

/// The median of three values.
pub open spec fn median3(a: int, b: int, c: int) -> int {
    if (a <= b && b <= c) || (c <= b && b <= a) {
        b
    } else if (b <= a && a <= c) || (c <= a && a <= b) {
        a
    } else {
        c
    }
}

fn WelsMedian(iX: i32, iY: i32, iZ: i32) -> (r: i32)
    requires
        -0x10000000 <= iX <= 0x10000000,
        -0x10000000 <= iY <= 0x10000000,
        -0x10000000 <= iZ <= 0x10000000,
    ensures
        r == median3(iX as int, iY as int, iZ as int),
{
    let mut iMin = iX;
    let mut iMax = iX;
    if iY < iMin {
        iMin = iY;
    } else {
        iMax = iY;
    }
    if iZ < iMin {
        iMin = iZ;
    } else if iZ > iMax {
        iMax = iZ;
    }
    (iX + iY + iZ) - (iMin + iMax)
}

/// The component-wise median of three vectors.
pub open spec fn median_mv(a: SMVUnitXY, b: SMVUnitXY, c: SMVUnitXY) -> SMVUnitXY {
    SMVUnitXY {
        iMvX: median3(a.iMvX as int, b.iMvX as int, c.iMvX as int) as i16,
        iMvY: median3(a.iMvY as int, b.iMvY as int, c.iMvY as int) as i16,
    }
}

/// The motion-vector predictor of the partition whose top-left 4x4 block is
/// `part_idx` and which is `part_w` blocks wide, for reference `rf`: from the
/// left (A), top (B) and top-right (C, or top-left when top-right is not
/// available) neighbours, the only one using the same reference if there is
/// exactly one, A when only A is available, and the median otherwise.
pub open spec fn pred_mv(c: SMVComponentUnit, part_idx: int, part_w: int, rf: int) -> SMVUnitXY {
    let scan = g_kuiCache30ScanIdx[part_idx] as int;
    let left = scan - 1;
    let top = scan - 6;
    let left_ref = c.iRefIndexCache[left] as int;
    let top_ref = c.iRefIndexCache[top] as int;
    let tr_ref = c.iRefIndexCache[top + part_w] as int;
    let (diag_ref, mv_c) = if tr_ref == REF_NOT_AVAIL {
        (c.iRefIndexCache[top - 1] as int, c.sMotionVectorCache[top - 1])
    } else {
        (tr_ref, c.sMotionVectorCache[top + part_w])
    };
    let mv_a = c.sMotionVectorCache[left];
    let mv_b = c.sMotionVectorCache[top];
    if top_ref == REF_NOT_AVAIL && diag_ref == REF_NOT_AVAIL && left_ref != REF_NOT_AVAIL {
        mv_a
    } else {
        let la = rf == left_ref;
        let tb = rf == top_ref;
        let dc = rf == diag_ref;
        if la && !tb && !dc {
            mv_a
        } else if !la && tb && !dc {
            mv_b
        } else if !la && !tb && dc {
            mv_c
        } else {
            median_mv(mv_a, mv_b, mv_c)
        }
    }
}

/// `x` is a median of `a`, `b` and `c`: at least two of them lie at or below
/// it and at least two at or above it.
pub open spec fn is_median_of(x: int, a: int, b: int, c: int) -> bool {
    &&& (a <= x && b <= x) || (a <= x && c <= x) || (b <= x && c <= x)
    &&& (a >= x && b >= x) || (a >= x && c >= x) || (b >= x && c >= x)
}

/// The reference of the diagonal neighbour: the top-right one, or the
/// top-left one when the top-right one is not available.
pub open spec fn neighbour_refs(c: SMVComponentUnit, part_idx: int, part_w: int) -> (int, int, int) {
    let scan = g_kuiCache30ScanIdx[part_idx] as int;
    let tr_ref = c.iRefIndexCache[scan - 6 + part_w] as int;
    (
        c.iRefIndexCache[scan - 1] as int,
        c.iRefIndexCache[scan - 6] as int,
        if tr_ref == REF_NOT_AVAIL {
            c.iRefIndexCache[scan - 7] as int
        } else {
            tr_ref
        },
    )
}

/// The vectors of the left, top and diagonal neighbours.
pub open spec fn neighbour_mvs(c: SMVComponentUnit, part_idx: int, part_w: int) -> (SMVUnitXY, SMVUnitXY, SMVUnitXY) {
    let scan = g_kuiCache30ScanIdx[part_idx] as int;
    (
        c.sMotionVectorCache[scan - 1],
        c.sMotionVectorCache[scan - 6],
        if c.iRefIndexCache[scan - 6 + part_w] as int == REF_NOT_AVAIL {
            c.sMotionVectorCache[scan - 7]
        } else {
            c.sMotionVectorCache[scan - 6 + part_w]
        },
    )
}

/// How many of the three neighbours use reference `rf`.
pub open spec fn neighbours_on_ref(c: SMVComponentUnit, part_idx: int, part_w: int, rf: int) -> int {
    let (l, t, d) = neighbour_refs(c, part_idx, part_w);
    (if l == rf { 1int } else { 0int }) + (if t == rf { 1int } else { 0int }) + (if d == rf { 1int } else { 0int })
}

/// Unless only the left neighbour is available, a motion-vector predictor
/// is taken from the neighbours on the partition's reference: the one
/// neighbour when exactly one of them is on it, and otherwise, per
/// component, the median of the left, top and diagonal neighbours' vectors.
pub proof fn law_pred_mv_takes_the_median(c: SMVComponentUnit, part_idx: int, part_w: int, rf: int)
    requires
        0 <= part_idx < 16,
        0 <= part_w <= 6,
        ({
            let (l, t, d) = neighbour_refs(c, part_idx, part_w);
            t != REF_NOT_AVAIL || d != REF_NOT_AVAIL || l == REF_NOT_AVAIL
        }),
    ensures
        ({
            let (l, t, d) = neighbour_refs(c, part_idx, part_w);
            let (a, b, cc) = neighbour_mvs(c, part_idx, part_w);
            let r = pred_mv(c, part_idx, part_w, rf);
            &&& neighbours_on_ref(c, part_idx, part_w, rf) != 1 ==> {
                &&& is_median_of(r.iMvX as int, a.iMvX as int, b.iMvX as int, cc.iMvX as int)
                &&& is_median_of(r.iMvY as int, a.iMvY as int, b.iMvY as int, cc.iMvY as int)
            }
            &&& neighbours_on_ref(c, part_idx, part_w, rf) == 1 ==> r == if l == rf {
                a
            } else if t == rf {
                b
            } else {
                cc
            }
        }),
{
}

/// When the top and diagonal neighbours are not available but the left one
/// is, the predictor is the left neighbour's vector.
pub proof fn law_pred_mv_falls_back_to_the_left(c: SMVComponentUnit, part_idx: int, part_w: int, rf: int)
    requires
        0 <= part_idx < 16,
        0 <= part_w <= 6,
        ({
            let (l, t, d) = neighbour_refs(c, part_idx, part_w);
            t == REF_NOT_AVAIL && d == REF_NOT_AVAIL && l != REF_NOT_AVAIL
        }),
    ensures
        pred_mv(c, part_idx, part_w, rf) == neighbour_mvs(c, part_idx, part_w).0,
{
}

pub fn PredMv(kpMvComp: &SMVComponentUnit, iPartIdx: i8, iPartW: i8, iRef: i32, sMvp: &mut SMVUnitXY)
    requires
        0 <= iPartIdx < 16,
        0 <= iPartW <= 6,
    ensures
        *final(sMvp) == pred_mv(*kpMvComp, iPartIdx as int, iPartW as int, iRef as int),
{
    let scan = g_kuiCache30ScanIdx[iPartIdx as usize] as usize;
    let kuiLeftIdx = scan - 1;
    let kuiTopIdx = scan - 6;
    let iLeftRef = kpMvComp.iRefIndexCache[kuiLeftIdx] as i32;
    let iTopRef = kpMvComp.iRefIndexCache[kuiTopIdx] as i32;
    let iRightTopRef = kpMvComp.iRefIndexCache[kuiTopIdx + iPartW as usize] as i32;
    let sMvA = kpMvComp.sMotionVectorCache[kuiLeftIdx];
    let sMvB = kpMvComp.sMotionVectorCache[kuiTopIdx];
    let iDiagonalRef: i32;
    let sMvC: SMVUnitXY;
    if REF_NOT_AVAIL as i32 == iRightTopRef {
        iDiagonalRef = kpMvComp.iRefIndexCache[kuiTopIdx - 1] as i32;
        sMvC = kpMvComp.sMotionVectorCache[kuiTopIdx - 1];
    } else {
        iDiagonalRef = iRightTopRef;
        sMvC = kpMvComp.sMotionVectorCache[kuiTopIdx + iPartW as usize];
    }
    if REF_NOT_AVAIL as i32 == iTopRef && REF_NOT_AVAIL as i32 == iDiagonalRef && iLeftRef
        != REF_NOT_AVAIL as i32 {
        *sMvp = sMvA;
        return ;
    }
    let la = iRef == iLeftRef;
    let tb = iRef == iTopRef;
    let dc = iRef == iDiagonalRef;
    if la && !tb && !dc {
        *sMvp = sMvA;
    } else if !la && tb && !dc {
        *sMvp = sMvB;
    } else if !la && !tb && dc {
        *sMvp = sMvC;
    } else {
        let x = WelsMedian(sMvA.iMvX as i32, sMvB.iMvX as i32, sMvC.iMvX as i32);
        let y = WelsMedian(sMvA.iMvY as i32, sMvB.iMvY as i32, sMvC.iMvY as i32);
        sMvp.iMvX = x as i16;
        sMvp.iMvY = y as i16;
    }
}

/// The P_Skip motion vector: zero when the left or top neighbour is missing
/// or is a zero vector on reference 0, the 16x16 predictor otherwise.
pub open spec fn pred_skip_mv(c: SMVComponentUnit) -> SMVUnitXY {
    let l = c.iRefIndexCache[6] as int;
    let t = c.iRefIndexCache[1] as int;
    if l == REF_NOT_AVAIL || t == REF_NOT_AVAIL || (l == 0 && c.sMotionVectorCache[6].iMvX == 0
        && c.sMotionVectorCache[6].iMvY == 0) || (t == 0 && c.sMotionVectorCache[1].iMvX == 0
        && c.sMotionVectorCache[1].iMvY == 0) {
        SMVUnitXY { iMvX: 0, iMvY: 0 }
    } else {
        pred_mv(c, 0, 4, 0)
    }
}

pub fn PredSkipMv(kpMvComp: &SMVComponentUnit, sMvp: &mut SMVUnitXY)
    ensures
        *final(sMvp) == pred_skip_mv(*kpMvComp),
{
    let kiLeftRef = kpMvComp.iRefIndexCache[6] as i32;
    let kiTopRef = kpMvComp.iRefIndexCache[1] as i32;
    if REF_NOT_AVAIL as i32 == kiLeftRef || REF_NOT_AVAIL as i32 == kiTopRef || (0 == kiLeftRef
        && kpMvComp.sMotionVectorCache[6].iMvX == 0 && kpMvComp.sMotionVectorCache[6].iMvY == 0) || (
    0 == kiTopRef && kpMvComp.sMotionVectorCache[1].iMvX == 0 && kpMvComp.sMotionVectorCache[1].iMvY
        == 0) {
        *sMvp = SMVUnitXY { iMvX: 0, iMvY: 0 };
        return ;
    }
    PredMv(kpMvComp, 0, 4, 0, sMvp);
}

/// The predictor of a 16x8 partition: the top neighbour's vector for the
/// upper half and the left neighbour's for the lower one when their reference
/// matches, the general predictor otherwise.
pub open spec fn pred_16x8_mv(c: SMVComponentUnit, part_idx: int, rf: int) -> SMVUnitXY {
    if part_idx == 0 && rf == c.iRefIndexCache[1] as int {
        c.sMotionVectorCache[1]
    } else if part_idx != 0 && rf == c.iRefIndexCache[18] as int {
        c.sMotionVectorCache[18]
    } else {
        pred_mv(c, part_idx, 4, rf)
    }
}

pub fn PredInter16x8Mv(kpMvComp: &SMVComponentUnit, iPartIdx: i32, iRef: i8, sMvp: &mut SMVUnitXY)
    requires
        iPartIdx == 0 || iPartIdx == 8,
    ensures
        *final(sMvp) == pred_16x8_mv(*kpMvComp, iPartIdx as int, iRef as int),
{
    if 0 == iPartIdx {
        if iRef == kpMvComp.iRefIndexCache[1] {
            *sMvp = kpMvComp.sMotionVectorCache[1];
            return ;
        }
    } else {
        if iRef == kpMvComp.iRefIndexCache[18] {
            *sMvp = kpMvComp.sMotionVectorCache[18];
            return ;
        }
    }
    PredMv(kpMvComp, iPartIdx as i8, 4, iRef as i32, sMvp);
}

/// The predictor of an 8x16 partition: the left neighbour's vector for the
/// left half, the top-right (or top-left) neighbour's for the right half when
/// their reference matches, the general predictor otherwise.
pub open spec fn pred_8x16_mv(c: SMVComponentUnit, part_idx: int, rf: int) -> SMVUnitXY {
    if part_idx == 0 {
        if rf == c.iRefIndexCache[6] as int {
            c.sMotionVectorCache[6]
        } else {
            pred_mv(c, part_idx, 2, rf)
        }
    } else {
        let idx = if c.iRefIndexCache[5] == REF_NOT_AVAIL {
            2int
        } else {
            5int
        };
        if rf == c.iRefIndexCache[idx] as int {
            c.sMotionVectorCache[idx]
        } else {
            pred_mv(c, part_idx, 2, rf)
        }
    }
}

pub fn PredInter8x16Mv(kpMvComp: &SMVComponentUnit, iPartIdx: i32, iRef: i8, sMvp: &mut SMVUnitXY)
    requires
        iPartIdx == 0 || iPartIdx == 4,
    ensures
        *final(sMvp) == pred_8x16_mv(*kpMvComp, iPartIdx as int, iRef as int),
{
    if 0 == iPartIdx {
        if iRef == kpMvComp.iRefIndexCache[6] {
            *sMvp = kpMvComp.sMotionVectorCache[6];
            return ;
        }
    } else {
        let mut iDiagonalRef = kpMvComp.iRefIndexCache[5];
        let mut iIndex: usize = 5;
        if REF_NOT_AVAIL == iDiagonalRef {
            iDiagonalRef = kpMvComp.iRefIndexCache[2];
            iIndex = 2;
        }
        if iRef == iDiagonalRef {
            *sMvp = kpMvComp.sMotionVectorCache[iIndex];
            return ;
        }
    }
    PredMv(kpMvComp, iPartIdx as i8, 2, iRef as i32, sMvp);
}

/// The cache positions of the macroblock's own 4x4 blocks: rows 1 to 4,
/// columns 1 to 4 of the 6-wide layout.
pub open spec fn in_mb_cache(k: int) -> bool {
    1 <= k / 6 <= 4 && 1 <= k % 6 <= 4
}

/// Records a 16x16 decision: every 4x4 block of the macroblock and of the
/// cache gets the vector and the reference.
pub fn UpdateP16x16MotionInfo(
    pMvComp: &mut SMVComponentUnit,
    pCurMb: &mut SMB,
    kiRef: i8,
    pMv: &mut SMVUnitXY,
)
    ensures
        *final(pMv) == *old(pMv),
        forall|k: int|
            0 <= k < 30 ==> #[trigger] final(pMvComp).iRefIndexCache[k] == if in_mb_cache(k) {
                kiRef
            } else {
                old(pMvComp).iRefIndexCache[k]
            },
        forall|k: int|
            0 <= k < 29 ==> #[trigger] final(pMvComp).sMotionVectorCache[k] == if in_mb_cache(k) {
                *old(pMv)
            } else {
                old(pMvComp).sMotionVectorCache[k]
            },
        forall|i: int| 0 <= i < 16 ==> #[trigger] final(pCurMb).sMv[i] == *old(pMv),
        forall|i: int| 0 <= i < 4 ==> #[trigger] final(pCurMb).iRefIndex[i] == kiRef,
        *final(pCurMb) == (SMB { sMv: final(pCurMb).sMv, iRefIndex: final(pCurMb).iRefIndex, ..*old(pCurMb) }),
{
    let mv = *pMv;
    let mut r: usize = 1;
    while r < 5
        invariant
            1 <= r <= 5,
            mv == *old(pMv),
            forall|k: int|
                0 <= k < 30 ==> #[trigger] pMvComp.iRefIndexCache[k] == if in_mb_cache(k) && k / 6 < r {
                    kiRef
                } else {
                    old(pMvComp).iRefIndexCache[k]
                },
            forall|k: int|
                0 <= k < 29 ==> #[trigger] pMvComp.sMotionVectorCache[k] == if in_mb_cache(k) && k / 6
                    < r {
                    mv
                } else {
                    old(pMvComp).sMotionVectorCache[k]
                },
        decreases 5 - r,
    {
        let mut c: usize = 1;
        while c < 5
            invariant
                1 <= r < 5,
                1 <= c <= 5,
                mv == *old(pMv),
                forall|k: int|
                    0 <= k < 30 ==> #[trigger] pMvComp.iRefIndexCache[k] == if in_mb_cache(k) && (k / 6
                        < r || (k / 6 == r && k % 6 < c)) {
                        kiRef
                    } else {
                        old(pMvComp).iRefIndexCache[k]
                    },
                forall|k: int|
                    0 <= k < 29 ==> #[trigger] pMvComp.sMotionVectorCache[k] == if in_mb_cache(k) && (k
                        / 6 < r || (k / 6 == r && k % 6 < c)) {
                        mv
                    } else {
                        old(pMvComp).sMotionVectorCache[k]
                    },
            decreases 5 - c,
        {
            let idx = 6 * r + c;
            pMvComp.iRefIndexCache[idx] = kiRef;
            pMvComp.sMotionVectorCache[idx] = mv;
            proof {
                assert(idx / 6 == r && idx % 6 == c);
            }
            c = c + 1;
        }
        r = r + 1;
    }
    let mut k: usize = 0;
    while k < 16
        invariant
            0 <= k <= 16,
            mv == *old(pMv),
            forall|j: int| 0 <= j < k ==> #[trigger] pCurMb.sMv[j] == mv,
            *pCurMb == (SMB { sMv: pCurMb.sMv, ..*old(pCurMb) }),
        decreases 16 - k,
    {
        pCurMb.sMv[k] = mv;
        k = k + 1;
    }
    pCurMb.iRefIndex = [kiRef; 4];
}

// ---------------------------------------------------------------------------
// Skip decisions
// ---------------------------------------------------------------------------

/// What the skip cost comparison reads of the reference picture.
#[derive(Debug)]
pub struct SPicture {
    pub iPictureType: i32,
    /// The P_Skip SAD of each macroblock when the picture was coded.
    pub pMbSkipSad: Vec<i32>,
}

/// A cost is no better than skipping when the predicted skip SAD is visible
/// and not above it, or when the collocated macroblock of a P reference was
/// skipped with a visible SAD not above it.
pub fn IsCostLessEqualSkipCost(
    iCurCost: i32,
    iPredPskipSad: i32,
    iRefMbType: u32,
    pRef: Option<&SPicture>,
    iMbXy: i32,
    iSmallestInvisibleTh: i32,
) -> (r: bool)
    requires
        pRef matches Some(p) ==> (p.iPictureType == P_SLICE && iRefMbType == MB_TYPE_SKIP ==> 0
            <= iMbXy < p.pMbSkipSad@.len()),
    ensures
        r == ((iPredPskipSad > iSmallestInvisibleTh && iCurCost >= iPredPskipSad) || (
        pRef matches Some(p) && p.iPictureType == P_SLICE && iRefMbType == MB_TYPE_SKIP
            && p.pMbSkipSad@[iMbXy as int] > iSmallestInvisibleTh && iCurCost
            >= p.pMbSkipSad@[iMbXy as int])),
{
    if iPredPskipSad > iSmallestInvisibleTh && iCurCost >= iPredPskipSad {
        return true;
    }
    match pRef {
        Some(p) => {
            if p.iPictureType == P_SLICE && iRefMbType == MB_TYPE_SKIP {
                let s = p.pMbSkipSad[iMbXy as usize];
                s > iSmallestInvisibleTh && iCurCost >= s
            } else {
                false
            }
        },
        None => false,
    }
}

/// All four 8x8 blocks carry the static index `eType`.
pub fn IsMbStatic(pBlockType: &[i32; 4], eType: EStaticBlockIdc) -> (r: bool)
    ensures
        r == (forall|i: int| 0 <= i < 4 ==> #[trigger] pBlockType[i] == static_idc_value(eType)),
{
    let target: i32 = match eType {
        EStaticBlockIdc::NO_STATIC => 0,
        EStaticBlockIdc::COLLOCATED_STATIC => 1,
        EStaticBlockIdc::SCROLLED_STATIC => 2,
    };
    let r = pBlockType[0] == target && pBlockType[1] == target && pBlockType[2] == target
        && pBlockType[3] == target;
    proof {
        if !r {
            if pBlockType[0] != target {
                assert(pBlockType[0] != static_idc_value(eType));
            } else if pBlockType[1] != target {
                assert(pBlockType[1] != static_idc_value(eType));
            } else if pBlockType[2] != target {
                assert(pBlockType[2] != static_idc_value(eType));
            } else {
                assert(pBlockType[3] != static_idc_value(eType));
            }
        }
    }
    r
}

pub fn IsMbCollocatedStatic(pBlockType: &[i32; 4]) -> (r: bool)
    ensures
        r == (forall|i: int| 0 <= i < 4 ==> #[trigger] pBlockType[i] == 1),
{
    IsMbStatic(pBlockType, EStaticBlockIdc::COLLOCATED_STATIC)
}

pub fn IsMbScrolledStatic(pBlockType: &[i32; 4]) -> (r: bool)
    ensures
        r == (forall|i: int| 0 <= i < 4 ==> #[trigger] pBlockType[i] == 2),
{
    IsMbStatic(pBlockType, EStaticBlockIdc::SCROLLED_STATIC)
}

/// The macroblock moved by the scroll vector leaves the picture.
pub fn CheckBorder(
    iMbX: i32,
    iMbY: i32,
    iScrollMvX: i32,
    iScrollMvY: i32,
    iMbWidth: i32,
    iMbHeight: i32,
) -> (r: bool)
    requires
        0 <= iMbX < 0x100000,
        0 <= iMbY < 0x100000,
        1 <= iMbWidth < 0x100000,
        1 <= iMbHeight < 0x100000,
        -0x10000000 <= iScrollMvX <= 0x10000000,
        -0x10000000 <= iScrollMvY <= 0x10000000,
    ensures
        r == (iMbX * 16 + iScrollMvX < 0 || iMbX * 16 + iScrollMvX > (iMbWidth - 1) * 16 || iMbY
            * 16 + iScrollMvY < 0 || iMbY * 16 + iScrollMvY > (iMbHeight - 1) * 16),
{
    proof {
        crate::bits::lemma_i32_shifts();
        assert((iMbX << 4u32) == iMbX * 16);
        assert((iMbY << 4u32) == iMbY * 16);
    }
    let wm = iMbWidth - 1;
    let hm = iMbHeight - 1;
    proof {
        crate::bits::lemma_i32_shifts();
        assert((wm << 4u32) == wm * 16);
        assert((hm << 4u32) == hm * 16);
    }
    (iMbX << 4u32) + iScrollMvX < 0 || (iMbX << 4u32) + iScrollMvX > (wm << 4u32) || (iMbY << 4u32)
        + iScrollMvY < 0 || (iMbY << 4u32) + iScrollMvY > (hm << 4u32)
}

// ---------------------------------------------------------------------------
// Partition merge
// ---------------------------------------------------------------------------

/// The motion searches of one macroblock, by partition.
#[derive(Clone, Copy, Debug, Default)]
pub struct SWelsMD_sMe {
    pub sMe16x16: SWelsME,
    pub sMe8x8: [SWelsME; 4],
    pub sMe16x8: [SWelsME; 2],
    pub sMe8x16: [SWelsME; 2],
}

/// The mode-decision state of one macroblock.
#[derive(Clone, Copy, Debug, Default)]
pub struct SWelsMD {
    pub iLambda: i32,
    /// Where the macroblock's row of the motion-vector cost table starts
    /// (the entry of a zero difference), when there is a table.
    pub pMvdCost: Option<usize>,
    pub iMbPixX: i32,
    pub iMbPixY: i32,
    pub iCostLuma: i32,
    pub iCostSkipMb: i32,
    pub iSadPredSkip: i32,
    pub iBlock8x8StaticIdc: [i32; 4],
    pub sMe: SWelsMD_sMe,
}

/// Two 8x8 searches merged into one 16x8 or 8x16 search: the first one's
/// state with both costs added.
pub fn MergeSub16Me(sSrcMe0: &SWelsME, sSrcMe1: &SWelsME, pTarMe: &mut SWelsME)
    requires
        sSrcMe0.uiSadCost + sSrcMe1.uiSadCost <= u32::MAX,
        sSrcMe0.uiSatdCost + sSrcMe1.uiSatdCost <= u32::MAX,
    ensures
        *final(pTarMe) == (SWelsME {
            uiSadCost: (sSrcMe0.uiSadCost + sSrcMe1.uiSadCost) as u32,
            uiSatdCost: (sSrcMe0.uiSatdCost + sSrcMe1.uiSatdCost) as u32,
            ..*sSrcMe0
        }),
{
    *pTarMe = *sSrcMe0;
    pTarMe.uiSadCost = sSrcMe0.uiSadCost + sSrcMe1.uiSadCost;
    pTarMe.uiSatdCost = sSrcMe0.uiSatdCost + sSrcMe1.uiSatdCost;
}

pub fn IsSameMv(sMv0: &SMVUnitXY, sMv1: &SMVUnitXY) -> (r: bool)
    ensures
        r == (*sMv0 == *sMv1),
{
    sMv0.iMvX == sMv1.iMvX && sMv0.iMvY == sMv1.iMvY
}

/// The costs of two searches can be added without leaving `u32`.
pub open spec fn costs_add(a: SWelsME, b: SWelsME) -> bool {
    a.uiSadCost + b.uiSadCost <= u32::MAX && a.uiSatdCost + b.uiSatdCost <= u32::MAX
}

/// After an 8x8 decision, merges the four 8x8 searches into two 16x8 ones when
/// the upper and lower pairs share their vectors, or else into two 8x16 ones
/// when the left and right pairs do, with the predictors of the new
/// partitions. Answers whether the macroblock is no longer 8x8.
pub fn TryModeMerge(pMbCache: &SMbCache, pWelsMd: &mut SWelsMD, pCurMb: &mut SMB) -> (r: bool)
    requires
        costs_add(old(pWelsMd).sMe.sMe8x8[0], old(pWelsMd).sMe.sMe8x8[1]),
        costs_add(old(pWelsMd).sMe.sMe8x8[2], old(pWelsMd).sMe.sMe8x8[3]),
        costs_add(old(pWelsMd).sMe.sMe8x8[0], old(pWelsMd).sMe.sMe8x8[2]),
        costs_add(old(pWelsMd).sMe.sMe8x8[1], old(pWelsMd).sMe.sMe8x8[3]),
    ensures
        ({
            let m = old(pWelsMd).sMe.sMe8x8;
            let h = m[0].sMv == m[1].sMv && m[2].sMv == m[3].sMv;
            let v = m[0].sMv == m[2].sMv && m[1].sMv == m[3].sMv;
            let c = pMbCache.sMvComponents;
            &&& h ==> final(pCurMb).uiMbType == MB_TYPE_16x8 && final(pWelsMd).sMe.sMe16x8[0] == (SWelsME {
                uiSadCost: (m[0].uiSadCost + m[1].uiSadCost) as u32,
                uiSatdCost: (m[0].uiSatdCost + m[1].uiSatdCost) as u32,
                sMvp: pred_16x8_mv(c, 0, 0),
                ..m[0]
            }) && final(pWelsMd).sMe.sMe16x8[1] == (SWelsME {
                uiSadCost: (m[2].uiSadCost + m[3].uiSadCost) as u32,
                uiSatdCost: (m[2].uiSatdCost + m[3].uiSatdCost) as u32,
                sMvp: pred_16x8_mv(c, 8, 0),
                ..m[2]
            }) && final(pWelsMd).sMe.sMe8x16 == old(pWelsMd).sMe.sMe8x16
            &&& !h && v ==> final(pCurMb).uiMbType == MB_TYPE_8x16 && final(pWelsMd).sMe.sMe8x16[0]
                == (SWelsME {
                uiSadCost: (m[0].uiSadCost + m[2].uiSadCost) as u32,
                uiSatdCost: (m[0].uiSatdCost + m[2].uiSatdCost) as u32,
                sMvp: pred_8x16_mv(c, 0, 0),
                ..m[0]
            }) && final(pWelsMd).sMe.sMe8x16[1] == (SWelsME {
                uiSadCost: (m[1].uiSadCost + m[3].uiSadCost) as u32,
                uiSatdCost: (m[1].uiSatdCost + m[3].uiSatdCost) as u32,
                sMvp: pred_8x16_mv(c, 4, 0),
                ..m[1]
            }) && final(pWelsMd).sMe.sMe16x8 == old(pWelsMd).sMe.sMe16x8
            &&& !h && !v ==> final(pCurMb).uiMbType == old(pCurMb).uiMbType && *final(pWelsMd) == *old(pWelsMd)
            &&& final(pWelsMd).sMe.sMe8x8 == m && final(pWelsMd).sMe.sMe16x16 == old(pWelsMd).sMe.sMe16x16
            &&& final(pWelsMd).iCostLuma == old(pWelsMd).iCostLuma
            &&& final(pWelsMd).iSadPredSkip == old(pWelsMd).iSadPredSkip
            &&& final(pWelsMd).iBlock8x8StaticIdc == old(pWelsMd).iBlock8x8StaticIdc
            &&& *final(pCurMb) == (SMB { uiMbType: final(pCurMb).uiMbType, ..*old(pCurMb) })
            &&& r == (final(pCurMb).uiMbType != MB_TYPE_8x8)
        }),
{
    let m = pWelsMd.sMe.sMe8x8;
    let h = IsSameMv(&m[0].sMv, &m[1].sMv) && IsSameMv(&m[2].sMv, &m[3].sMv);
    let v = IsSameMv(&m[0].sMv, &m[2].sMv) && IsSameMv(&m[1].sMv, &m[3].sMv);
    if h {
        pCurMb.uiMbType = MB_TYPE_16x8;
        let mut a = m[0];
        let mut b = m[1];
        MergeSub16Me(&m[0], &m[1], &mut a);
        MergeSub16Me(&m[2], &m[3], &mut b);
        PredInter16x8Mv(&pMbCache.sMvComponents, 0, 0, &mut a.sMvp);
        PredInter16x8Mv(&pMbCache.sMvComponents, 8, 0, &mut b.sMvp);
        pWelsMd.sMe.sMe16x8[0] = a;
        pWelsMd.sMe.sMe16x8[1] = b;
    } else if v {
        pCurMb.uiMbType = MB_TYPE_8x16;
        let mut a = m[0];
        let mut b = m[1];
        MergeSub16Me(&m[0], &m[2], &mut a);
        MergeSub16Me(&m[1], &m[3], &mut b);
        PredInter8x16Mv(&pMbCache.sMvComponents, 0, 0, &mut a.sMvp);
        PredInter8x16Mv(&pMbCache.sMvComponents, 4, 0, &mut b.sMvp);
        pWelsMd.sMe.sMe8x16[0] = a;
        pWelsMd.sMe.sMe8x16[1] = b;
    }
    pCurMb.uiMbType != MB_TYPE_8x8
}

// ---------------------------------------------------------------------------
// Screen content
// ---------------------------------------------------------------------------

/// The scroll detected in the current frame, in whole samples.
#[derive(Clone, Copy, Debug, Default)]
pub struct SScrollDetectionParam {
    pub bScrollDetectFlag: bool,
    pub iScrollMvX: i32,
    pub iScrollMvY: i32,
}

/// What the mode decision reads of the screen-content analysis: the scroll
/// vector and the per-reference rows of 8x8 block-static indices (`iStride`
/// bytes each), with the row of the best reference.
#[derive(Debug)]
pub struct SVAAFrameInfoExt {
    pub sScrollDetectInfo: SScrollDetectionParam,
    pub pVaaBlockStaticIdc: Vec<u8>,
    pub iStride: usize,
    pub pVaaBestBlockStaticIdc: Option<usize>,
}

/// Stamps the frame's scroll vector (zero without an analysis) as the
/// directional vector of the 16x16 search and of the four 8x8 searches.
pub fn SetScrollingMvToMd(pVaaExt: Option<&SVAAFrameInfoExt>, pWelsMd: &mut SWelsMD)
    ensures
        ({
            let mv = match pVaaExt {
                Some(e) => SMVUnitXY {
                    iMvX: e.sScrollDetectInfo.iScrollMvX as i16,
                    iMvY: e.sScrollDetectInfo.iScrollMvY as i16,
                },
                None => SMVUnitXY { iMvX: 0, iMvY: 0 },
            };
            &&& final(pWelsMd).sMe.sMe16x16 == (SWelsME { sDirectionalMv: mv, ..old(pWelsMd).sMe.sMe16x16 })
            &&& forall|i: int| 0 <= i < 4 ==> #[trigger] final(pWelsMd).sMe.sMe8x8[i] == (SWelsME {
                sDirectionalMv: mv,
                ..old(pWelsMd).sMe.sMe8x8[i]
            })
            &&& final(pWelsMd).sMe.sMe16x8 == old(pWelsMd).sMe.sMe16x8
            &&& final(pWelsMd).sMe.sMe8x16 == old(pWelsMd).sMe.sMe8x16
            &&& final(pWelsMd).iCostLuma == old(pWelsMd).iCostLuma
            &&& final(pWelsMd).iSadPredSkip == old(pWelsMd).iSadPredSkip
            &&& final(pWelsMd).iBlock8x8StaticIdc == old(pWelsMd).iBlock8x8StaticIdc
        }),
{
    let sTempMv = match pVaaExt {
        Some(e) => SMVUnitXY {
            iMvX: e.sScrollDetectInfo.iScrollMvX as i16,
            iMvY: e.sScrollDetectInfo.iScrollMvY as i16,
        },
        None => SMVUnitXY { iMvX: 0, iMvY: 0 },
    };
    pWelsMd.sMe.sMe16x16.sDirectionalMv = sTempMv;
    pWelsMd.sMe.sMe8x8[0].sDirectionalMv = sTempMv;
    pWelsMd.sMe.sMe8x8[1].sDirectionalMv = sTempMv;
    pWelsMd.sMe.sMe8x8[2].sDirectionalMv = sTempMv;
    pWelsMd.sMe.sMe8x8[3].sDirectionalMv = sTempMv;
}

/// The scrolling stamp for camera content: does nothing.
pub fn SetScrollingMvToMdNull(_pVaaExt: Option<&SVAAFrameInfoExt>, pWelsMd: &mut SWelsMD)
    ensures
        *final(pWelsMd) == *old(pWelsMd),
{
}

/// Copies the block-static indices of the macroblock's four 8x8 blocks from
/// the best reference's row, when a reference is selected and its row holds
/// the layer's whole block grid; leaves them otherwise.
pub fn SetBlockStaticIdcToMd(
    pVaaExt: &SVAAFrameInfoExt,
    pWelsMd: &mut SWelsMD,
    pCurMb: &SMB,
    iMbWidth: i16,
    iMbHeight: i16,
)
    requires
        0 <= pCurMb.iMbX < iMbWidth,
        0 <= pCurMb.iMbY < iMbHeight,
    ensures
        ({
            let w2 = 2 * iMbWidth;
            let blocks = w2 * 2 * iMbHeight;
            let up = 2 * pCurMb.iMbY * w2 + 2 * pCurMb.iMbX;
            let low = (2 * pCurMb.iMbY + 1) * w2 + 2 * pCurMb.iMbX;
            let s = pVaaExt.pVaaBlockStaticIdc@;
            match pVaaExt.pVaaBestBlockStaticIdc {
                Some(row) if blocks <= pVaaExt.iStride && (row + 1) * pVaaExt.iStride <= s.len() => {
                    let base = row * pVaaExt.iStride;
                    &&& final(pWelsMd).iBlock8x8StaticIdc[0] == s[base + up] as i32
                    &&& final(pWelsMd).iBlock8x8StaticIdc[1] == s[base + up + 1] as i32
                    &&& final(pWelsMd).iBlock8x8StaticIdc[2] == s[base + low] as i32
                    &&& final(pWelsMd).iBlock8x8StaticIdc[3] == s[base + low + 1] as i32
                    &&& *final(pWelsMd) == (SWelsMD {
                        iBlock8x8StaticIdc: final(pWelsMd).iBlock8x8StaticIdc,
                        ..*old(pWelsMd)
                    })
                },
                _ => *final(pWelsMd) == *old(pWelsMd),
            }
        }),
{
    let kiMbX = pCurMb.iMbX as usize;
    let kiMbY = pCurMb.iMbY as usize;
    let kiWidth = (iMbWidth as usize) * 2;
    assert(kiWidth * ((iMbHeight as usize) * 2) <= 65534 * 65534) by (nonlinear_arith)
        requires
            kiWidth <= 65534,
            0 <= iMbHeight <= 32767,
    ;
    let kiBlocks = kiWidth * ((iMbHeight as usize) * 2);
    proof {
        assert(kiBlocks == 2 * iMbWidth * 2 * iMbHeight && kiBlocks >= 4) by (nonlinear_arith)
            requires
                kiWidth == iMbWidth * 2,
                kiBlocks == kiWidth * (iMbHeight * 2),
                iMbWidth >= 1,
                iMbHeight >= 1,
        ;
    }
    let row = match pVaaExt.pVaaBestBlockStaticIdc {
        Some(r) => r,
        None => {
            return ;
        },
    };
    let stride = pVaaExt.iStride;
    if kiBlocks > stride {
        return ;
    }
    let len = pVaaExt.pVaaBlockStaticIdc.len();
    if row >= len / stride {
        proof {
            assert((row + 1) * stride > len) by (nonlinear_arith)
                requires
                    row >= len / stride,
                    stride > 0,
            ;
        }
        return ;
    }
    proof {
        assert((row + 1) * stride <= len) by (nonlinear_arith)
            requires
                row < len / stride,
                stride > 0,
        ;
        assert(row * stride + stride <= len) by (nonlinear_arith)
            requires
                (row + 1) * stride <= len,
        ;
        assert(kiMbY * 2 * kiWidth + kiMbX * 2 + 1 < kiBlocks) by (nonlinear_arith)
            requires
                kiMbX < kiWidth / 2,
                kiMbY < iMbHeight,
                kiWidth == iMbWidth * 2,
                kiBlocks == kiWidth * (iMbHeight * 2),
        ;
        assert((kiMbY * 2 + 1) * kiWidth + kiMbX * 2 + 1 < kiBlocks) by (nonlinear_arith)
            requires
                kiMbX < kiWidth / 2,
                kiMbY < iMbHeight,
                kiWidth == iMbWidth * 2,
                kiBlocks == kiWidth * (iMbHeight * 2),
        ;
    }
    let base = row * stride;
    let up = (kiMbY * 2) * kiWidth + kiMbX * 2;
    let low = (kiMbY * 2 + 1) * kiWidth + kiMbX * 2;
    proof {
        let w2 = 2 * iMbWidth;
        assert(up == 2 * pCurMb.iMbY * w2 + 2 * pCurMb.iMbX) by (nonlinear_arith)
            requires
                kiWidth == iMbWidth * 2,
                kiMbY == pCurMb.iMbY,
                kiMbX == pCurMb.iMbX,
                up == (kiMbY * 2) * kiWidth + kiMbX * 2,
                w2 == 2 * iMbWidth,
        ;
        assert(low == (2 * pCurMb.iMbY + 1) * w2 + 2 * pCurMb.iMbX) by (nonlinear_arith)
            requires
                kiWidth == iMbWidth * 2,
                kiMbY == pCurMb.iMbY,
                kiMbX == pCurMb.iMbX,
                low == (kiMbY * 2 + 1) * kiWidth + kiMbX * 2,
                w2 == 2 * iMbWidth,
        ;
        assert(kiBlocks == w2 * 2 * iMbHeight) by (nonlinear_arith)
            requires
                kiWidth == iMbWidth * 2,
                kiBlocks == kiWidth * (iMbHeight * 2),
                w2 == 2 * iMbWidth,
        ;
        assert(base == row * stride);
    }
    pWelsMd.iBlock8x8StaticIdc[0] = pVaaExt.pVaaBlockStaticIdc[base + up] as i32;
    pWelsMd.iBlock8x8StaticIdc[1] = pVaaExt.pVaaBlockStaticIdc[base + up + 1] as i32;
    pWelsMd.iBlock8x8StaticIdc[2] = pVaaExt.pVaaBlockStaticIdc[base + low] as i32;
    pWelsMd.iBlock8x8StaticIdc[3] = pVaaExt.pVaaBlockStaticIdc[base + low + 1] as i32;
}

/// The screen-content skip decision for camera content: never skips.
pub fn WelsMdInterJudgeSCDPskipFalse(_pWelsMd: &mut SWelsMD, _pCurMb: &mut SMB) -> (r: bool)
    ensures
        !r,
        *final(_pWelsMd) == *old(_pWelsMd),
        *final(_pCurMb) == *old(_pCurMb),
{
    false
}

/// The background skip decision without background detection: never skips
/// and leaves the keep-skip flag.
pub fn WelsMdInterJudgeBGDPskipFalse(_pWelsMd: &mut SWelsMD, _pCurMb: &mut SMB, _bKeepSkip: &mut bool) -> (r: bool)
    ensures
        !r,
        *final(_pWelsMd) == *old(_pWelsMd),
        *final(_pCurMb) == *old(_pCurMb),
        *final(_bKeepSkip) == *old(_bKeepSkip),
{
    false
}


/// The SAD of the chroma blocks at `kiSrcOff` and `kiRefOff` (rows
/// `kiSrcStride` and `kiRefStride` apart) with the optional kernel; 0
/// without one.
pub open spec fn chroma_cost(
    f: Option<PSampleSadSatdCostFunc>,
    src: Seq<u8>,
    so: int,
    ss: int,
    refp: Seq<u8>,
    ro: int,
    rs: int,
) -> int {
    match f {
        Some(k) => sad_cost(k, src, so, ss, refp, ro, rs),
        None => 0,
    }
}

pub fn GetChromaCost(
    pSad: Option<PSampleSadSatdCostFunc>,
    pSrc: &[u8],
    kiSrcOff: usize,
    kiSrcStride: usize,
    pRef: &[u8],
    kiRefOff: usize,
    kiRefStride: usize,
) -> (r: i32)
    requires
        pSad matches Some(k) ==> sad_fits(
            k,
            pSrc@,
            kiSrcOff as int,
            kiSrcStride as int,
            pRef@,
            kiRefOff as int,
            kiRefStride as int,
        ),
    ensures
        r == chroma_cost(pSad, pSrc@, kiSrcOff as int, kiSrcStride as int, pRef@, kiRefOff as int, kiRefStride as int),
{
    match pSad {
        Some(k) => sample_sad(k, pSrc, kiSrcOff, kiSrcStride, pRef, kiRefOff, kiRefStride),
        None => 0,
    }
}

/// The SAD of the two 8x8 chroma blocks with the search's 8x8 kernel; 0
/// without one.
pub fn CalUVSadCost(
    sdf: &SSampleDealingFunc,
    pEnc: &[u8],
    kiEncOff: usize,
    kiEncStride: usize,
    pRef: &[u8],
    kiRefOff: usize,
    kiRefStride: usize,
) -> (r: i32)
    requires
        sdf.pfSampleSad[BLOCK_8x8 as int] matches Some(k) ==> sad_fits(
            k,
            pEnc@,
            kiEncOff as int,
            kiEncStride as int,
            pRef@,
            kiRefOff as int,
            kiRefStride as int,
        ),
    ensures
        r == chroma_cost(
            sdf.pfSampleSad[BLOCK_8x8 as int],
            pEnc@,
            kiEncOff as int,
            kiEncStride as int,
            pRef@,
            kiRefOff as int,
            kiRefStride as int,
        ),
{
    match sdf.pfSampleSad[BLOCK_8x8] {
        Some(k) => sample_sad(k, pEnc, kiEncOff, kiEncStride, pRef, kiRefOff, kiRefStride),
        None => 0,
    }
}


/// The base-layer macroblock under an enhancement-layer macroblock: the one
/// at half its coordinates in a base layer `kiRefMbWidth` macroblocks wide,
/// the last one where that index falls outside the base layer.
pub open spec fn ref_mb_index(kiRefMbWidth: i16, len: int, mb: SMB) -> int {
    let idx = (mb.iMbY / 2) * kiRefMbWidth + mb.iMbX / 2;
    if idx < 0 || idx >= len - 1 {
        len - 1
    } else {
        idx
    }
}

/// The base-layer macroblock of `pCurMb` among `kpRefMbs`: see
/// `ref_mb_index`.
pub fn GetRefMb(kiRefMbWidth: i16, kpRefMbs: &[SMB], pCurMb: &SMB) -> (r: SMB)
    requires
        kpRefMbs@.len() > 0,
    ensures
        r == kpRefMbs@[ref_mb_index(kiRefMbWidth, kpRefMbs@.len() as int, *pCurMb)],
{
    proof {
        crate::bits::lemma_i32_shifts();
    }
    let y: i32 = pCurMb.iMbY as i32 >> 1u32;
    let x: i32 = pCurMb.iMbX as i32 >> 1u32;
    assert(-16384 * 32768 <= y * kiRefMbWidth <= 16384 * 32768) by (nonlinear_arith)
        requires
            -16384 <= y <= 16383,
            -32768 <= kiRefMbWidth <= 32767,
    ;
    let kiRefMbIdx: i32 = y * (kiRefMbWidth as i32) + x;
    let last = kpRefMbs.len() - 1;
    let i: usize = if kiRefMbIdx < 0 || kiRefMbIdx as usize >= last {
        last
    } else {
        kiRefMbIdx as usize
    };
    kpRefMbs[i]
}

/// The partition of its base-layer macroblock an enhancement-layer
/// macroblock lies over: which quarter, by the parity of its coordinates.
pub open spec fn base_part(mb: SMB) -> int {
    ((mb.iMbY as i32 & 1i32) * 2 + (mb.iMbX as i32 & 1i32)) as int
}

/// Seeds the base vector of every motion search of the macroblock with the
/// base layer's vector of its quarter, doubled, unless the base macroblock
/// is intra.
pub fn SetMvBaseEnhancelayer(pMd: &mut SWelsMD, pCurMb: &mut SMB, kpRefMb: &SMB)
    requires
        forall|i: int| 0 <= i < 16 ==> -16384 <= #[trigger] kpRefMb.sMv[i].iMvX <= 16383 && -16384
            <= kpRefMb.sMv[i].iMvY <= 16383,
    ensures
        *final(pCurMb) == *old(pCurMb),
        ({
            let mv = kpRefMb.sMv[crate::svc_set_mb_syn_cavlc::g_kuiMbCountScan4Idx[4 * base_part(*old(pCurMb))] as int];
            let b = SMVUnitXY { iMvX: (mv.iMvX * 2) as i16, iMvY: (mv.iMvY * 2) as i16 };
            let m = old(pMd).sMe;
            if (kpRefMb.uiMbType == MB_TYPE_INTRA_BL || (kpRefMb.uiMbType & MB_TYPE_INTRA) != 0) {
                *final(pMd) == *old(pMd)
            } else {
                &&& *final(pMd) == (SWelsMD { sMe: final(pMd).sMe, ..*old(pMd) })
                &&& final(pMd).sMe.sMe16x16 == (SWelsME { sMvBase: b, ..m.sMe16x16 })
                &&& forall|i: int| 0 <= i < 4 ==> #[trigger] final(pMd).sMe.sMe8x8[i] == (SWelsME { sMvBase: b, ..m.sMe8x8[i] })
                &&& forall|i: int| 0 <= i < 2 ==> #[trigger] final(pMd).sMe.sMe16x8[i] == (SWelsME { sMvBase: b, ..m.sMe16x8[i] })
                &&& forall|i: int| 0 <= i < 2 ==> #[trigger] final(pMd).sMe.sMe8x16[i] == (SWelsME { sMvBase: b, ..m.sMe8x16[i] })
            }
        }),
{
    let kuiRefMbType = kpRefMb.uiMbType;
    if !IS_SVC_INTRA(kuiRefMbType) {
        let my: i32 = pCurMb.iMbY as i32;
        let mx: i32 = pCurMb.iMbX as i32;
        let yb: i32 = my & 0x01i32;
        let xb: i32 = mx & 0x01i32;
        assert(0 <= yb <= 1 && 0 <= xb <= 1) by (bit_vector)
            requires
                yb == my & 0x01i32,
                xb == mx & 0x01i32,
        ;
        let iRefMbPartIdx = (yb * 2 + xb) as usize;
        let iScan4RefPartIdx = crate::svc_set_mb_syn_cavlc::g_kuiMbCountScan4Idx[iRefMbPartIdx * 4] as usize;
        assert(iScan4RefPartIdx < 16);
        let ref_mv = kpRefMb.sMv[iScan4RefPartIdx];
        let sMv = SMVUnitXY { iMvX: ref_mv.iMvX * 2, iMvY: ref_mv.iMvY * 2 };
        pMd.sMe.sMe16x16.sMvBase = sMv;
        pMd.sMe.sMe8x8[0].sMvBase = sMv;
        pMd.sMe.sMe8x8[1].sMvBase = sMv;
        pMd.sMe.sMe8x8[2].sMvBase = sMv;
        pMd.sMe.sMe8x8[3].sMvBase = sMv;
        pMd.sMe.sMe16x8[0].sMvBase = sMv;
        pMd.sMe.sMe16x8[1].sMvBase = sMv;
        pMd.sMe.sMe8x16[0].sMvBase = sMv;
        pMd.sMe.sMe8x16[1].sMvBase = sMv;
    }
}


/// The four cache entries of the 8x8 block whose top-left entry is `c`.
pub open spec fn cache_quad(c: int, i: int) -> bool {
    i == c || i == c + 1 || i == c + 6 || i == c + 7
}

/// The cache entry of 4x4 block `p` (raster order within the macroblock).
pub open spec fn cache_idx(p: int) -> int {
    g_kuiCache30ScanIdx[p] as int
}

/// Writes reference `iRef` and vector `mv` to the four cache entries from `c`.
fn store_quad(pMvComp: &mut SMVComponentUnit, c: usize, iRef: i8, mv: SMVUnitXY)
    requires
        c + 7 < 29,
    ensures
        forall|i: int| 0 <= i < 30 ==> #[trigger] final(pMvComp).iRefIndexCache[i] == if cache_quad(c as int, i) {
            iRef
        } else {
            old(pMvComp).iRefIndexCache[i]
        },
        forall|i: int| 0 <= i < 29 ==> #[trigger] final(pMvComp).sMotionVectorCache[i] == if cache_quad(c as int, i) {
            mv
        } else {
            old(pMvComp).sMotionVectorCache[i]
        },
{
    pMvComp.iRefIndexCache[c] = iRef;
    pMvComp.sMotionVectorCache[c] = mv;
    pMvComp.iRefIndexCache[c + 1] = iRef;
    pMvComp.sMotionVectorCache[c + 1] = mv;
    pMvComp.iRefIndexCache[c + 6] = iRef;
    pMvComp.sMotionVectorCache[c + 6] = mv;
    pMvComp.iRefIndexCache[c + 7] = iRef;
    pMvComp.sMotionVectorCache[c + 7] = mv;
}

/// Records an 8x8 decision in the cache only: the four entries of the block
/// get the reference and the vector.
pub fn UpdateP8x8Motion2Cache(pMvComp: &mut SMVComponentUnit, iPartIdx: i32, pRef: i8, pMv: &mut SMVUnitXY)
    requires
        0 <= iPartIdx < 16,
        cache_idx(iPartIdx as int) + 7 < 29,
    ensures
        *final(pMv) == *old(pMv),
        forall|i: int| 0 <= i < 30 ==> #[trigger] final(pMvComp).iRefIndexCache[i] == if cache_quad(
            cache_idx(iPartIdx as int),
            i,
        ) {
            pRef
        } else {
            old(pMvComp).iRefIndexCache[i]
        },
        forall|i: int| 0 <= i < 29 ==> #[trigger] final(pMvComp).sMotionVectorCache[i] == if cache_quad(
            cache_idx(iPartIdx as int),
            i,
        ) {
            *old(pMv)
        } else {
            old(pMvComp).sMotionVectorCache[i]
        },
{
    let c = g_kuiCache30ScanIdx[iPartIdx as usize] as usize;
    store_quad(pMvComp, c, pRef, *pMv);
}

/// Records a 16x8 decision in the cache only: both 8x8 blocks of the
/// partition (`iPartIdx` and four blocks on) get the reference and vector.
pub fn UpdateP16x8Motion2Cache(pMvComp: &mut SMVComponentUnit, iPartIdx: i32, iRef: i8, pMv: &mut SMVUnitXY)
    requires
        0 <= iPartIdx < 12,
        cache_idx(iPartIdx as int) + 7 < 29,
        cache_idx(iPartIdx + 4) + 7 < 29,
    ensures
        *final(pMv) == *old(pMv),
        forall|i: int| 0 <= i < 30 ==> #[trigger] final(pMvComp).iRefIndexCache[i] == if cache_quad(
            cache_idx(iPartIdx as int),
            i,
        ) || cache_quad(cache_idx(iPartIdx + 4), i) {
            iRef
        } else {
            old(pMvComp).iRefIndexCache[i]
        },
        forall|i: int| 0 <= i < 29 ==> #[trigger] final(pMvComp).sMotionVectorCache[i] == if cache_quad(
            cache_idx(iPartIdx as int),
            i,
        ) || cache_quad(cache_idx(iPartIdx + 4), i) {
            *old(pMv)
        } else {
            old(pMvComp).sMotionVectorCache[i]
        },
{
    let c0 = g_kuiCache30ScanIdx[iPartIdx as usize] as usize;
    store_quad(pMvComp, c0, iRef, *pMv);
    let c1 = g_kuiCache30ScanIdx[(iPartIdx + 4) as usize] as usize;
    store_quad(pMvComp, c1, iRef, *pMv);
}

/// Records an 8x16 decision in the cache only: both 8x8 blocks of the
/// partition (`iPartIdx` and eight blocks on) get the reference and vector.
pub fn UpdateP8x16Motion2Cache(pMvComp: &mut SMVComponentUnit, iPartIdx: i32, iRef: i8, pMv: &mut SMVUnitXY)
    requires
        0 <= iPartIdx < 8,
        cache_idx(iPartIdx as int) + 7 < 29,
        cache_idx(iPartIdx + 8) + 7 < 29,
    ensures
        *final(pMv) == *old(pMv),
        forall|i: int| 0 <= i < 30 ==> #[trigger] final(pMvComp).iRefIndexCache[i] == if cache_quad(
            cache_idx(iPartIdx as int),
            i,
        ) || cache_quad(cache_idx(iPartIdx + 8), i) {
            iRef
        } else {
            old(pMvComp).iRefIndexCache[i]
        },
        forall|i: int| 0 <= i < 29 ==> #[trigger] final(pMvComp).sMotionVectorCache[i] == if cache_quad(
            cache_idx(iPartIdx as int),
            i,
        ) || cache_quad(cache_idx(iPartIdx + 8), i) {
            *old(pMv)
        } else {
            old(pMvComp).sMotionVectorCache[i]
        },
{
    let c0 = g_kuiCache30ScanIdx[iPartIdx as usize] as usize;
    store_quad(pMvComp, c0, iRef, *pMv);
    let c1 = g_kuiCache30ScanIdx[(iPartIdx + 8) as usize] as usize;
    store_quad(pMvComp, c1, iRef, *pMv);
}


/// The high byte of a reference doubled into a 16-bit word (`(k << 8) | k`
/// with `k` sign-extended): the reference itself when it is not negative,
/// all ones otherwise.
pub open spec fn ref_word_hi(k: i8) -> i8 {
    if k >= 0 {
        k
    } else {
        -1i8
    }
}

/// Two entries hold the two bytes of the doubled reference word, in one of
/// the two byte orders.
pub open spec fn ref_word_pair(a: i8, b: i8, k: i8) -> bool {
    (a == k && b == ref_word_hi(k)) || (a == ref_word_hi(k) && b == k)
}

/// `u16::to_ne_bytes`: the two bytes of `x` as the machine stores them,
/// low byte first on a little-endian machine and high byte first on a
/// big-endian one; which of the two is not stated.
#[verifier::external_body]
fn u16_ne_bytes(x: u16) -> (r: [u8; 2])
    ensures
        (r[0] == x as u8 && r[1] == (x >> 8u16) as u8) || (r[0] == (x >> 8u16) as u8 && r[1] == x as u8),
{
    x.to_ne_bytes()
}

/// The two bytes, in memory order, of reference `kiRef` doubled into a
/// 16-bit word.
fn ref_word_bytes(kiRef: i8) -> (r: (i8, i8))
    ensures
        ref_word_pair(r.0, r.1, kiRef),
{
    let w: u16 = (((kiRef as i32) << 8u32) | (kiRef as i32)) as u16;
    let hi: i8 = if kiRef >= 0 { kiRef } else { -1 };
    assert((w as u8) as i8 == kiRef && ((w >> 8u16) as u8) as i8 == hi) by (bit_vector)
        requires
            w == (((kiRef as i32) << 8u32) | (kiRef as i32)) as u16,
            hi == if kiRef >= 0 { kiRef } else { -1i8 },
    ;
    let b = u16_ne_bytes(w);
    (b[0] as i8, b[1] as i8)
}

/// Records a 16x8 decision (`kiPartIdx` 0 for the top, 8 for the bottom
/// half): the half's eight 4x4 vectors and its two references in the
/// macroblock, its entries in the cache. The second and third entries of
/// each cache row, and the two references of the macroblock, receive the
/// reference as the two bytes of its doubled word (see `ref_word_pair`).
pub fn UpdateP16x8MotionInfo(
    pMvComp: &mut SMVComponentUnit,
    pCurMb: &mut SMB,
    kiPartIdx: i32,
    kiRef: i8,
    pMv: &mut SMVUnitXY,
)
    requires
        kiPartIdx == 0 || kiPartIdx == 8,
    ensures
        ({
            let sc = g_kuiMbCountScan4Idx[kiPartIdx as int] as int;
            let c = cache_idx(kiPartIdx as int);
            let b = kiPartIdx / 4;
            let mv = *old(pMv);
            let lo = final(pCurMb).iRefIndex[b];
            let hi = final(pCurMb).iRefIndex[b + 1];
            &&& *final(pMv) == mv
            &&& ref_word_pair(lo, hi, kiRef)
            &&& *final(pCurMb) == (SMB { sMv: final(pCurMb).sMv, iRefIndex: final(pCurMb).iRefIndex, ..*old(pCurMb) })
            &&& forall|i: int| 0 <= i < 4 && i != b && i != b + 1 ==> #[trigger] final(pCurMb).iRefIndex[i] == old(pCurMb).iRefIndex[i]
            &&& forall|i: int| 0 <= i < 16 ==> #[trigger] final(pCurMb).sMv[i] == if sc <= i < sc + 8 {
                mv
            } else {
                old(pCurMb).sMv[i]
            }
            &&& forall|i: int| 0 <= i < 30 ==> #[trigger] final(pMvComp).iRefIndexCache[i] == if i == c || i == c + 3
                || i == c + 6 || i == c + 9 {
                kiRef
            } else if i == c + 1 || i == c + 7 {
                lo
            } else if i == c + 2 || i == c + 8 {
                hi
            } else {
                old(pMvComp).iRefIndexCache[i]
            }
            &&& forall|i: int| 0 <= i < 29 ==> #[trigger] final(pMvComp).sMotionVectorCache[i] == if c <= i <= c + 3
                || c + 6 <= i <= c + 9 {
                mv
            } else {
                old(pMvComp).sMotionVectorCache[i]
            }
        }),
{
    let kiScan4Idx = g_kuiMbCountScan4Idx[kiPartIdx as usize] as usize;
    let kiCacheIdx = g_kuiCache30ScanIdx[kiPartIdx as usize] as usize;
    let (lo, hi) = ref_word_bytes(kiRef);
    let mv = *pMv;
    let kiBlk: usize = (kiPartIdx / 4) as usize;
    pCurMb.iRefIndex[kiBlk] = lo;
    pCurMb.iRefIndex[kiBlk + 1] = hi;
    let mut i: usize = 0;
    while i < 8
        invariant
            0 <= i <= 8,
            kiScan4Idx == g_kuiMbCountScan4Idx[kiPartIdx as int],
            kiPartIdx == 0 || kiPartIdx == 8,
            mv == *old(pMv),
            forall|j: int| 0 <= j < 16 ==> #[trigger] pCurMb.sMv[j] == if kiScan4Idx <= j < kiScan4Idx + i {
                mv
            } else {
                old(pCurMb).sMv[j]
            },
            *pCurMb == (SMB { sMv: pCurMb.sMv, iRefIndex: pCurMb.iRefIndex, ..*old(pCurMb) }),
            pCurMb.iRefIndex[kiBlk as int] == lo,
            pCurMb.iRefIndex[kiBlk + 1] == hi,
            kiBlk == kiPartIdx / 4,
            forall|j: int| 0 <= j < 4 && j != kiBlk && j != kiBlk + 1 ==> #[trigger] pCurMb.iRefIndex[j] == old(pCurMb).iRefIndex[j],
        decreases 8 - i,
    {
        pCurMb.sMv[kiScan4Idx + i] = mv;
        i = i + 1;
    }
    let c = kiCacheIdx;
    pMvComp.iRefIndexCache[c] = kiRef;
    pMvComp.iRefIndexCache[c + 1] = lo;
    pMvComp.iRefIndexCache[c + 2] = hi;
    pMvComp.iRefIndexCache[c + 3] = kiRef;
    pMvComp.iRefIndexCache[c + 6] = kiRef;
    pMvComp.iRefIndexCache[c + 7] = lo;
    pMvComp.iRefIndexCache[c + 8] = hi;
    pMvComp.iRefIndexCache[c + 9] = kiRef;
    pMvComp.sMotionVectorCache[c] = mv;
    pMvComp.sMotionVectorCache[c + 1] = mv;
    pMvComp.sMotionVectorCache[c + 2] = mv;
    pMvComp.sMotionVectorCache[c + 3] = mv;
    pMvComp.sMotionVectorCache[c + 6] = mv;
    pMvComp.sMotionVectorCache[c + 7] = mv;
    pMvComp.sMotionVectorCache[c + 8] = mv;
    pMvComp.sMotionVectorCache[c + 9] = mv;
}

/// Records an 8x16 decision (`kiPartIdx` 0 for the left, 4 for the right
/// half): the half's eight 4x4 vectors and its two references in the
/// macroblock, its entries in the cache. The second and third entries of
/// the half's first and third cache rows receive the reference as the two
/// bytes of its doubled word (see `ref_word_pair`).
pub fn update_P8x16_motion_info(
    pMvComp: &mut SMVComponentUnit,
    pCurMb: &mut SMB,
    kiPartIdx: i32,
    kiRef: i8,
    pMv: &mut SMVUnitXY,
)
    requires
        kiPartIdx == 0 || kiPartIdx == 4,
    ensures
        ({
            let sc = g_kuiMbCountScan4Idx[kiPartIdx as int] as int;
            let c = cache_idx(kiPartIdx as int);
            let b = kiPartIdx / 4;
            let mv = *old(pMv);
            let lo = final(pMvComp).iRefIndexCache[c + 1];
            let hi = final(pMvComp).iRefIndexCache[c + 2];
            &&& *final(pMv) == mv
            &&& ref_word_pair(lo, hi, kiRef)
            &&& *final(pCurMb) == (SMB { sMv: final(pCurMb).sMv, iRefIndex: final(pCurMb).iRefIndex, ..*old(pCurMb) })
            &&& forall|i: int| 0 <= i < 4 ==> #[trigger] final(pCurMb).iRefIndex[i] == if i == b || i == b + 2 {
                kiRef
            } else {
                old(pCurMb).iRefIndex[i]
            }
            &&& forall|i: int| 0 <= i < 16 ==> #[trigger] final(pCurMb).sMv[i] == if i == sc || i == sc + 1 || i == sc + 4
                || i == sc + 5 || i == sc + 8 || i == sc + 9 || i == sc + 12 || i == sc + 13 {
                mv
            } else {
                old(pCurMb).sMv[i]
            }
            &&& forall|i: int| 0 <= i < 30 ==> #[trigger] final(pMvComp).iRefIndexCache[i] == if i == c || i == c + 3
                || i == c + 12 || i == c + 15 {
                kiRef
            } else if i == c + 1 || i == c + 13 {
                lo
            } else if i == c + 2 || i == c + 14 {
                hi
            } else {
                old(pMvComp).iRefIndexCache[i]
            }
            &&& forall|i: int| 0 <= i < 29 ==> #[trigger] final(pMvComp).sMotionVectorCache[i] == if c <= i <= c + 3
                || c + 12 <= i <= c + 15 {
                mv
            } else {
                old(pMvComp).sMotionVectorCache[i]
            }
        }),
{
    let s = g_kuiMbCountScan4Idx[kiPartIdx as usize] as usize;
    let c = g_kuiCache30ScanIdx[kiPartIdx as usize] as usize;
    let kiBlkIdx: usize = (kiPartIdx / 4) as usize;
    let (lo, hi) = ref_word_bytes(kiRef);
    let mv = *pMv;
    pCurMb.iRefIndex[kiBlkIdx] = kiRef;
    pCurMb.iRefIndex[2 + kiBlkIdx] = kiRef;
    pCurMb.sMv[s] = mv;
    pCurMb.sMv[s + 1] = mv;
    pCurMb.sMv[4 + s] = mv;
    pCurMb.sMv[4 + s + 1] = mv;
    pCurMb.sMv[8 + s] = mv;
    pCurMb.sMv[8 + s + 1] = mv;
    pCurMb.sMv[12 + s] = mv;
    pCurMb.sMv[12 + s + 1] = mv;
    pMvComp.iRefIndexCache[c] = kiRef;
    pMvComp.iRefIndexCache[c + 1] = lo;
    pMvComp.iRefIndexCache[c + 2] = hi;
    pMvComp.iRefIndexCache[c + 3] = kiRef;
    pMvComp.iRefIndexCache[c + 12] = kiRef;
    pMvComp.iRefIndexCache[c + 13] = lo;
    pMvComp.iRefIndexCache[c + 14] = hi;
    pMvComp.iRefIndexCache[c + 15] = kiRef;
    pMvComp.sMotionVectorCache[c] = mv;
    pMvComp.sMotionVectorCache[c + 1] = mv;
    pMvComp.sMotionVectorCache[c + 2] = mv;
    pMvComp.sMotionVectorCache[c + 3] = mv;
    pMvComp.sMotionVectorCache[c + 12] = mv;
    pMvComp.sMotionVectorCache[c + 13] = mv;
    pMvComp.sMotionVectorCache[c + 14] = mv;
    pMvComp.sMotionVectorCache[c + 15] = mv;
}

/// Records an 8x8 decision of block `kiPartIdx`: its four 4x4 vectors in
/// the macroblock, its four entries in the cache.
pub fn UpdateP8x8MotionInfo(
    pMvComp: &mut SMVComponentUnit,
    pCurMb: &mut SMB,
    kiPartIdx: i32,
    kiRef: i8,
    pMv: &mut SMVUnitXY,
)
    requires
        0 <= kiPartIdx < 16,
        g_kuiMbCountScan4Idx[kiPartIdx as int] + 5 < 16,
        cache_idx(kiPartIdx as int) + 7 < 29,
    ensures
        ({
            let sc = g_kuiMbCountScan4Idx[kiPartIdx as int] as int;
            let c = cache_idx(kiPartIdx as int);
            let mv = *old(pMv);
            &&& *final(pMv) == mv
            &&& *final(pCurMb) == (SMB { sMv: final(pCurMb).sMv, ..*old(pCurMb) })
            &&& forall|i: int| 0 <= i < 16 ==> #[trigger] final(pCurMb).sMv[i] == if i == sc || i == sc + 1 || i == sc + 4
                || i == sc + 5 {
                mv
            } else {
                old(pCurMb).sMv[i]
            }
            &&& forall|i: int| 0 <= i < 30 ==> #[trigger] final(pMvComp).iRefIndexCache[i] == if cache_quad(c, i) {
                kiRef
            } else {
                old(pMvComp).iRefIndexCache[i]
            }
            &&& forall|i: int| 0 <= i < 29 ==> #[trigger] final(pMvComp).sMotionVectorCache[i] == if cache_quad(c, i) {
                mv
            } else {
                old(pMvComp).sMotionVectorCache[i]
            }
        }),
{
    let s = g_kuiMbCountScan4Idx[kiPartIdx as usize] as usize;
    let c = g_kuiCache30ScanIdx[kiPartIdx as usize] as usize;
    let mv = *pMv;
    pCurMb.sMv[s] = mv;
    pCurMb.sMv[s + 1] = mv;
    pCurMb.sMv[4 + s] = mv;
    pCurMb.sMv[4 + s + 1] = mv;
    store_quad(pMvComp, c, kiRef, mv);
}


/// The two chroma planes of a picture, each with its layout.
#[derive(Debug)]
pub struct SChromaPicture {
    pub pCb: Vec<u8>,
    pub sCb: SPlaneLayout,
    pub pCr: Vec<u8>,
    pub sCr: SPlaneLayout,
}

/// The chroma cost of one plane between the 8x8 block at `(x, y)` of `enc`
/// and the one at `(rx, ry)` of `refp`.
pub open spec fn plane_chroma_cost(
    f: Option<PSampleSadSatdCostFunc>,
    enc: Seq<u8>,
    le: SPlaneLayout,
    refp: Seq<u8>,
    lr: SPlaneLayout,
    x: int,
    y: int,
    rx: int,
    ry: int,
) -> int {
    chroma_cost(f, enc, sample_at(le, x, y), le.iStride as int, refp, sample_at(lr, rx, ry), lr.iStride as int)
}

/// The 8x8 blocks of one plane can be compared.
pub open spec fn plane_chroma_ok(
    f: Option<PSampleSadSatdCostFunc>,
    enc: Seq<u8>,
    le: SPlaneLayout,
    refp: Seq<u8>,
    lr: SPlaneLayout,
    x: int,
    y: int,
    rx: int,
    ry: int,
) -> bool {
    &&& layout_ok(le, x, y)
    &&& layout_ok(lr, rx, ry)
    &&& 0 <= sample_at(le, x, y) <= usize::MAX
    &&& 0 <= sample_at(lr, rx, ry) <= usize::MAX
    &&& f matches Some(k) ==> sad_fits(
        k,
        enc,
        sample_at(le, x, y),
        le.iStride as int,
        refp,
        sample_at(lr, rx, ry),
        lr.iStride as int,
    )
}

/// Both chroma planes of the 8x8 block at `(x, y)` of `enc` equal those at
/// `(rx, ry)` of `refp` under the 8x8 SAD kernel.
pub open spec fn chroma_unchanged(sdf: SSampleDealingFunc, enc: SChromaPicture, refp: SChromaPicture, x: int, y: int, rx: int, ry: int) -> bool {
    let f = sdf.pfSampleSad[BLOCK_8x8 as int];
    &&& plane_chroma_cost(f, enc.pCb@, enc.sCb, refp.pCb@, refp.sCb, x, y, rx, ry) == 0
    &&& plane_chroma_cost(f, enc.pCr@, enc.sCr, refp.pCr@, refp.sCr, x, y, rx, ry) == 0
}

/// The chroma comparison can run: the Cb blocks always, the Cr blocks when
/// the Cb blocks are equal.
pub open spec fn chroma_compare_ok(sdf: SSampleDealingFunc, enc: SChromaPicture, refp: SChromaPicture, x: int, y: int, rx: int, ry: int) -> bool {
    let f = sdf.pfSampleSad[BLOCK_8x8 as int];
    &&& plane_chroma_ok(f, enc.pCb@, enc.sCb, refp.pCb@, refp.sCb, x, y, rx, ry)
    &&& plane_chroma_cost(f, enc.pCb@, enc.sCb, refp.pCb@, refp.sCb, x, y, rx, ry) == 0 ==> plane_chroma_ok(
        f,
        enc.pCr@,
        enc.sCr,
        refp.pCr@,
        refp.sCr,
        x,
        y,
        rx,
        ry,
    )
}

/// Compares the chroma blocks: see `chroma_unchanged`.
fn chroma_blocks_equal(sdf: &SSampleDealingFunc, pEnc: &SChromaPicture, pRef: &SChromaPicture, x: i32, y: i32, rx: i32, ry: i32) -> (r: bool)
    requires
        chroma_compare_ok(*sdf, *pEnc, *pRef, x as int, y as int, rx as int, ry as int),
    ensures
        r == chroma_unchanged(*sdf, *pEnc, *pRef, x as int, y as int, rx as int, ry as int),
{
    let eo = plane_offset(pEnc.sCb, x, y);
    let ro = plane_offset(pRef.sCb, rx, ry);
    let iSadCostCb = CalUVSadCost(sdf, pEnc.pCb.as_slice(), eo, pEnc.sCb.iStride, pRef.pCb.as_slice(), ro, pRef.sCb.iStride);
    if iSadCostCb == 0 {
        let eo2 = plane_offset(pEnc.sCr, x, y);
        let ro2 = plane_offset(pRef.sCr, rx, ry);
        let iSadCostCr = CalUVSadCost(sdf, pEnc.pCr.as_slice(), eo2, pEnc.sCr.iStride, pRef.pCr.as_slice(), ro2, pRef.sCr.iStride);
        iSadCostCr == 0
    } else {
        false
    }
}

/// A macroblock may be skipped as static: its four 8x8 blocks are
/// collocated-static and, with an original reference picture, its chroma
/// equals the reference's at the same place.
pub fn JudgeStaticSkip(
    sdf: &SSampleDealingFunc,
    pCurMb: &SMB,
    pWelsMd: &SWelsMD,
    pEnc: &SChromaPicture,
    pRefOri: Option<&SChromaPicture>,
) -> (r: bool)
    requires
        0 <= pCurMb.iMbX,
        0 <= pCurMb.iMbY,
        pRefOri matches Some(rp) ==> chroma_compare_ok(
            *sdf,
            *pEnc,
            *rp,
            8 * pCurMb.iMbX,
            8 * pCurMb.iMbY,
            8 * pCurMb.iMbX,
            8 * pCurMb.iMbY,
        ),
    ensures
        r == ((forall|i: int| 0 <= i < 4 ==> #[trigger] pWelsMd.iBlock8x8StaticIdc[i] == 1) && match pRefOri {
            Some(rp) => chroma_unchanged(
                *sdf,
                *pEnc,
                *rp,
                8 * pCurMb.iMbX,
                8 * pCurMb.iMbY,
                8 * pCurMb.iMbX,
                8 * pCurMb.iMbY,
            ),
            None => false,
        }),
{
    let mut bTryStaticSkip = IsMbCollocatedStatic(&pWelsMd.iBlock8x8StaticIdc);
    if bTryStaticSkip {
        match pRefOri {
            Some(rp) => {
                let kiCx: i32 = pCurMb.iMbX as i32 * 8;
                let kiCy: i32 = pCurMb.iMbY as i32 * 8;
                bTryStaticSkip = chroma_blocks_equal(sdf, pEnc, rp, kiCx, kiCy, kiCx, kiCy);
            },
            None => {
                bTryStaticSkip = false;
            },
        }
    }
    bTryStaticSkip
}

/// The chroma position in the reference of a macroblock's 8x8 chroma block
/// moved by a (luma) scroll vector component: half the vector, rounded down.
pub open spec fn scrolled_chroma(c: int, mv: int) -> int {
    c + mv / 2
}

/// A macroblock may be skipped as scrolled: there is a scroll analysis that
/// detected scrolling, the four 8x8 blocks are scrolled-static, there is an
/// original reference picture, the scrolled macroblock stays inside the
/// picture, and the chroma equals the reference's at the scrolled place.
pub fn JudgeScrollSkip(
    sdf: &SSampleDealingFunc,
    pCurMb: &SMB,
    pWelsMd: &SWelsMD,
    kiMbWidth: i32,
    kiMbHeight: i32,
    pVaaExt: Option<&SVAAFrameInfoExt>,
    pEnc: &SChromaPicture,
    pRefOri: Option<&SChromaPicture>,
) -> (r: bool)
    requires
        0 <= pCurMb.iMbX,
        0 <= pCurMb.iMbY,
        1 <= kiMbWidth < 0x100000,
        1 <= kiMbHeight < 0x100000,
        pVaaExt matches Some(v) ==> {
            let mx = v.sScrollDetectInfo.iScrollMvX;
            let my = v.sScrollDetectInfo.iScrollMvY;
            &&& -0x10000000 <= mx <= 0x10000000
            &&& -0x10000000 <= my <= 0x10000000
            &&& pRefOri matches Some(rp) ==> chroma_compare_ok(
                *sdf,
                *pEnc,
                *rp,
                8 * pCurMb.iMbX,
                8 * pCurMb.iMbY,
                scrolled_chroma(8 * pCurMb.iMbX, mx as int),
                scrolled_chroma(8 * pCurMb.iMbY, my as int),
            )
        },
    ensures
        r == match pVaaExt {
            Some(v) => {
                let mx = v.sScrollDetectInfo.iScrollMvX as int;
                let my = v.sScrollDetectInfo.iScrollMvY as int;
                let x = pCurMb.iMbX as int;
                let y = pCurMb.iMbY as int;
                &&& v.sScrollDetectInfo.bScrollDetectFlag
                &&& forall|i: int| 0 <= i < 4 ==> #[trigger] pWelsMd.iBlock8x8StaticIdc[i] == 2
                &&& match pRefOri {
                    Some(rp) => {
                        &&& !(x * 16 + mx < 0 || x * 16 + mx > (kiMbWidth - 1) * 16 || y * 16 + my < 0 || y * 16 + my
                            > (kiMbHeight - 1) * 16)
                        &&& chroma_unchanged(
                            *sdf,
                            *pEnc,
                            *rp,
                            8 * x,
                            8 * y,
                            scrolled_chroma(8 * x, mx),
                            scrolled_chroma(8 * y, my),
                        )
                    },
                    None => false,
                }
            },
            None => false,
        },
{
    let v = match pVaaExt {
        Some(v) => v,
        None => {
            return false;
        },
    };
    if !v.sScrollDetectInfo.bScrollDetectFlag {
        return false;
    }
    let mut bTryScrollSkip = IsMbScrolledStatic(&pWelsMd.iBlock8x8StaticIdc);
    if bTryScrollSkip {
        match pRefOri {
            Some(rp) => {
                let iScrollMvX = v.sScrollDetectInfo.iScrollMvX;
                let iScrollMvY = v.sScrollDetectInfo.iScrollMvY;
                let kiMbX = pCurMb.iMbX as i32;
                let kiMbY = pCurMb.iMbY as i32;
                if CheckBorder(kiMbX, kiMbY, iScrollMvX, iScrollMvY, kiMbWidth, kiMbHeight) {
                    bTryScrollSkip = false;
                } else {
                    proof {
                        crate::bits::lemma_i32_shifts();
                    }
                    let kiCx: i32 = kiMbX * 8;
                    let kiCy: i32 = kiMbY * 8;
                    let kiRx: i32 = kiCx + (iScrollMvX >> 1u32);
                    let kiRy: i32 = kiCy + (iScrollMvY >> 1u32);
                    bTryScrollSkip = chroma_blocks_equal(sdf, pEnc, rp, kiCx, kiCy, kiRx, kiRy);
                }
            },
            None => {
                bTryScrollSkip = false;
            },
        }
    }
    bTryScrollSkip
}


/// The macroblock type of a background macroblock before it is coded as
/// skipped.
pub const MB_TYPE_BACKGROUND: u32 = 0x00010000;

/// Completes a macroblock decided as skipped: no coded blocks, the slice's
/// last QP as its luma QP and the chroma QP of that (with the picture's
/// chroma offset); the cache notes whether its first vector is zero.
pub fn WelsMdInterUpdatePskip(uiLastMbQp: u8, kiChromaQpIndexOffset: i32, pMbCache: &mut SMbCache, pCurMb: &mut SMB)
    requires
        -0x1000_0000 <= kiChromaQpIndexOffset <= 0x1000_0000,
    ensures
        *final(pCurMb) == (SMB {
            uiCbp: 0,
            uiLumaQp: uiLastMbQp,
            uiChromaQp: crate::svc_set_mb_syn_cavlc::g_kuiChromaQpTable[clip3(uiLastMbQp + kiChromaQpIndexOffset, 0, 51)],
            ..*old(pCurMb)
        }),
        *final(pMbCache) == (SMbCache {
            bCollocatedPredFlag: old(pCurMb).sMv[0].iMvX == 0 && old(pCurMb).sMv[0].iMvY == 0,
            ..*old(pMbCache)
        }),
{
    pCurMb.uiCbp = 0;
    pCurMb.uiLumaQp = uiLastMbQp;
    let q = WELS_CLIP3(pCurMb.uiLumaQp as i32 + kiChromaQpIndexOffset, 0, 51);
    pCurMb.uiChromaQp = crate::svc_set_mb_syn_cavlc::g_kuiChromaQpTable[q as usize];
    pMbCache.bCollocatedPredFlag = pCurMb.sMv[0].iMvX == 0 && pCurMb.sMv[0].iMvY == 0;
}

/// Records a macroblock's QP for the background detection of the next
/// picture: its own QP when it has coded blocks, the reference is an intra
/// picture or it does not predict from the collocated block, the
/// reference's recorded QP otherwise; a background macroblock becomes a
/// skipped one.
pub fn WelsMdUpdateBGDInfo(
    pCurMb: &mut SMB,
    bCollocatedPredFlag: bool,
    iRefPictureType: i32,
    pRefMbQp: &[u8],
    pRecMbQp: &mut [u8],
)
    requires
        0 <= old(pCurMb).iMbXY < old(pRecMbQp)@.len(),
        !(old(pCurMb).uiCbp != 0 || iRefPictureType == crate::svc_encode_slice::I_SLICE || !bCollocatedPredFlag)
            ==> old(pCurMb).iMbXY < pRefMbQp@.len(),
    ensures
        ({
            let xy = old(pCurMb).iMbXY as int;
            let qp = if old(pCurMb).uiCbp != 0 || iRefPictureType == crate::svc_encode_slice::I_SLICE
                || !bCollocatedPredFlag {
                old(pCurMb).uiLumaQp
            } else {
                pRefMbQp@[xy]
            };
            &&& final(pRecMbQp)@ == old(pRecMbQp)@.update(xy, qp)
            &&& *final(pCurMb) == (SMB {
                uiMbType: if old(pCurMb).uiMbType == MB_TYPE_BACKGROUND {
                    MB_TYPE_SKIP
                } else {
                    old(pCurMb).uiMbType
                },
                ..*old(pCurMb)
            })
        }),
{
    let kiMbXY = pCurMb.iMbXY as usize;
    let uiQp = if pCurMb.uiCbp != 0 || iRefPictureType == crate::svc_encode_slice::I_SLICE || !bCollocatedPredFlag {
        pCurMb.uiLumaQp
    } else {
        pRefMbQp[kiMbXY]
    };
    pRecMbQp[kiMbXY] = uiQp;
    if pCurMb.uiMbType == MB_TYPE_BACKGROUND {
        pCurMb.uiMbType = MB_TYPE_SKIP;
    }
}


/// The zero vector.
pub open spec fn zero_mv() -> SMVUnitXY {
    SMVUnitXY { iMvX: 0, iMvY: 0 }
}

/// The 16x16 SAD of macroblock `mb` of the encoded plane against the
/// reference block displaced by whole samples `(dx, dy)`.
pub open spec fn mb_sad(enc: Seq<u8>, le: SPlaneLayout, refp: Seq<u8>, lr: SPlaneLayout, mb: SMB, dx: int, dy: int) -> int {
    displaced_sad(
        Some(PSampleSadSatdCostFunc::Sad16x16),
        enc,
        le,
        refp,
        lr,
        mb.iMbX as int * 16,
        mb.iMbY as int * 16,
        dx,
        dy,
    )
}

/// Both blocks of [`mb_sad`] lie in their planes.
pub open spec fn mb_sad_fits(enc: Seq<u8>, le: SPlaneLayout, refp: Seq<u8>, lr: SPlaneLayout, mb: SMB, dx: int, dy: int) -> bool {
    &&& -0x1000 <= mb.iMbX <= 0x1000
    &&& -0x1000 <= mb.iMbY <= 0x1000
    &&& displaced_fits(
        Some(PSampleSadSatdCostFunc::Sad16x16),
        enc,
        le,
        refp,
        lr,
        mb.iMbX as int * 16,
        mb.iMbY as int * 16,
        dx,
        dy,
    )
}

/// Decides a macroblock of the background at its collocated reference
/// block (the zero vector). Its SAD against that block (`pEnc` against
/// `pRef`) is its SAD cost; `kiSatd`, its SATD there, is taken as the luma
/// cost when the decision does not run on SAD. Either way the macroblock has no coded
/// blocks, its SAD cost is `kiSad`, its 16x16 vector is zero and the cache
/// notes the collocated prediction. A background skip (`bSkipMbFlag`) keeps
/// the background type, reference 0 and zero vectors, and the slice's last
/// QP, with no luma cost; otherwise the macroblock becomes a 16x16 inter
/// macroblock on reference `uiRef` with the zero vector, its predictor and
/// the cache recording the decision. The motion compensation, the
/// reconstruction and the residual coding around this are the caller's.
pub fn WelsMdBackgroundMbEnc(
    pWelsMd: &mut SWelsMD,
    pCurMb: &mut SMB,
    pMbCache: &mut SMbCache,
    uiLastMbQp: u8,
    kiChromaQpIndexOffset: i32,
    uiRef: u8,
    bMdUsingSad: bool,
    bSkipMbFlag: bool,
    pEnc: &[u8],
    sEnc: SPlaneLayout,
    pRef: &[u8],
    sRef: SPlaneLayout,
    kiSatd: i32,
)
    requires
        -0x1000_0000 <= kiChromaQpIndexOffset <= 0x1000_0000,
        mb_sad_fits(pEnc@, sEnc, pRef@, sRef, *old(pCurMb), 0, 0),
    ensures
        ({
            let kiSad = mb_sad(pEnc@, sEnc, pRef@, sRef, *old(pCurMb), 0, 0) as i32;
        &&& final(pCurMb).uiCbp == 0
        &&& final(pCurMb).iSadCost == kiSad
        &&& final(pCurMb).sP16x16Mv == zero_mv()
        &&& final(pMbCache).bCollocatedPredFlag
        &&& forall|i: int| 0 <= i < 16 ==> #[trigger] final(pCurMb).sMv[i] == zero_mv()
        &&& bSkipMbFlag ==> {
            &&& *final(pCurMb) == (SMB {
                uiMbType: MB_TYPE_BACKGROUND,
                uiCbp: 0,
                iSadCost: kiSad,
                sP16x16Mv: zero_mv(),
                sMv: final(pCurMb).sMv,
                iRefIndex: [0i8, 0, 0, 0],
                uiLumaQp: uiLastMbQp,
                uiChromaQp: crate::svc_set_mb_syn_cavlc::g_kuiChromaQpTable[clip3(uiLastMbQp + kiChromaQpIndexOffset, 0, 51)],
                ..*old(pCurMb)
            })
            &&& *final(pMbCache) == (SMbCache { bCollocatedPredFlag: true, ..*old(pMbCache) })
            &&& *final(pWelsMd) == (SWelsMD { iCostLuma: 0, ..*old(pWelsMd) })
        }
        &&& !bSkipMbFlag ==> {
            let mvp = pred_mv(old(pMbCache).sMvComponents, 0, 4, uiRef as int);
            &&& *final(pCurMb) == (SMB {
                uiMbType: MB_TYPE_16x16,
                uiCbp: 0,
                iSadCost: kiSad,
                sP16x16Mv: zero_mv(),
                sMv: final(pCurMb).sMv,
                iRefIndex: final(pCurMb).iRefIndex,
                ..*old(pCurMb)
            })
            &&& forall|i: int| 0 <= i < 4 ==> #[trigger] final(pCurMb).iRefIndex[i] == uiRef as i8
            &&& final(pMbCache).bCollocatedPredFlag
            &&& final(pMbCache).sMbMvp[0] == mvp
            &&& forall|i: int| 1 <= i < 16 ==> #[trigger] final(pMbCache).sMbMvp[i] == old(pMbCache).sMbMvp[i]
            &&& forall|k: int| 0 <= k < 30 ==> #[trigger] final(pMbCache).sMvComponents.iRefIndexCache[k]
                == if in_mb_cache(k) {
                uiRef as i8
            } else {
                old(pMbCache).sMvComponents.iRefIndexCache[k]
            }
            &&& forall|k: int| 0 <= k < 29 ==> #[trigger] final(pMbCache).sMvComponents.sMotionVectorCache[k]
                == if in_mb_cache(k) {
                zero_mv()
            } else {
                old(pMbCache).sMvComponents.sMotionVectorCache[k]
            }
            &&& *final(pMbCache) == (SMbCache {
                bCollocatedPredFlag: true,
                sMbMvp: final(pMbCache).sMbMvp,
                sMvComponents: final(pMbCache).sMvComponents,
                ..*old(pMbCache)
            })
            &&& final(pWelsMd).iCostLuma == if bMdUsingSad {
                kiSad
            } else {
                kiSatd
            }
            &&& final(pWelsMd).sMe.sMe16x16.sMv == zero_mv()
            &&& final(pWelsMd).sMe.sMe16x16.sMvp == mvp
        }
        }),
{
    let sMvp = SMVUnitXY { iMvX: 0, iMvY: 0 };
    let kiSad = displaced_sad_of(
        Some(PSampleSadSatdCostFunc::Sad16x16),
        pEnc,
        sEnc,
        pRef,
        sRef,
        pCurMb.iMbX as i32 * 16,
        pCurMb.iMbY as i32 * 16,
        0,
        0,
    );
    pCurMb.uiCbp = 0;
    pMbCache.bCollocatedPredFlag = true;
    pWelsMd.iCostLuma = 0;
    pCurMb.iSadCost = kiSad;
    pCurMb.sP16x16Mv = sMvp;
    if bSkipMbFlag {
        pCurMb.uiMbType = MB_TYPE_BACKGROUND;
        pCurMb.iRefIndex = [0i8, 0, 0, 0];
        let mut i: usize = 0;
        while i < 16
            invariant
                0 <= i <= 16,
                sMvp == zero_mv(),
                forall|k: int| 0 <= k < i ==> #[trigger] pCurMb.sMv[k] == zero_mv(),
                *pCurMb == (SMB {
                    uiMbType: MB_TYPE_BACKGROUND,
                    uiCbp: 0,
                    iSadCost: kiSad,
                    sP16x16Mv: zero_mv(),
                    sMv: pCurMb.sMv,
                    iRefIndex: [0i8, 0, 0, 0],
                    ..*old(pCurMb)
                }),
            decreases 16 - i,
        {
            pCurMb.sMv[i] = sMvp;
            i = i + 1;
        }
        pCurMb.uiLumaQp = uiLastMbQp;
        let q = WELS_CLIP3(pCurMb.uiLumaQp as i32 + kiChromaQpIndexOffset, 0, 51);
        pCurMb.uiChromaQp = crate::svc_set_mb_syn_cavlc::g_kuiChromaQpTable[q as usize];
        return;
    }
    pCurMb.uiMbType = MB_TYPE_16x16;
    pWelsMd.sMe.sMe16x16.sMv = sMvp;
    PredMv(&pMbCache.sMvComponents, 0, 4, uiRef as i32, &mut pWelsMd.sMe.sMe16x16.sMvp);
    pMbCache.sMbMvp[0] = pWelsMd.sMe.sMe16x16.sMvp;
    UpdateP16x16MotionInfo(
        &mut pMbCache.sMvComponents,
        pCurMb,
        #[verifier::truncate] (uiRef as i8),
        &mut pWelsMd.sMe.sMe16x16.sMv,
    );
    pWelsMd.iCostLuma = if bMdUsingSad {
        pCurMb.iSadCost
    } else {
        kiSatd
    };
}


/// The candidate vector of a screen-content skip mode.
pub open spec fn scd_candidate(mvs: [SMVUnitXY; 2], mode: ESkipModes) -> SMVUnitXY {
    match mode {
        ESkipModes::STATIC => mvs[0],
        ESkipModes::SCROLLED => mvs[1],
    }
}

/// Decides a macroblock of screen content that a static or scrolled
/// reference block predicts: the candidate vector of `eSkipMode` in
/// `sCurMbMv`. Its SAD against the reference block the candidate points to
/// (in whole samples) is its SAD cost and skip cost; its SAD against the
/// collocated block is the luma cost of a 16x16 macroblock when the
/// decision does not run on SAD. The macroblock has no coded blocks and its
/// 16x16
/// vector is the candidate. With a similar QP and a skip decision it is
/// skipped on reference 0 with the candidate vector (see
/// [`WelsMdInterUpdatePskip`]); otherwise it becomes a 16x16 inter
/// macroblock on reference 0 with the candidate vector, its predictor and
/// the cache recording the decision. The motion compensation, the
/// reconstruction and the residual coding around this are the caller's.
pub fn SvcMdSCDMbEnc(
    pWelsMd: &mut SWelsMD,
    pCurMb: &mut SMB,
    pMbCache: &mut SMbCache,
    uiLastMbQp: u8,
    kiChromaQpIndexOffset: i32,
    bQpSimilarFlag: bool,
    bMbSkipFlag: bool,
    sCurMbMv: &[SMVUnitXY; 2],
    eSkipMode: ESkipModes,
    bMdUsingSad: bool,
    pEnc: &[u8],
    sEnc: SPlaneLayout,
    pRef: &[u8],
    sRef: SPlaneLayout,
)
    requires
        -0x1000_0000 <= kiChromaQpIndexOffset <= 0x1000_0000,
        ({
            let cand = scd_candidate(*sCurMbMv, eSkipMode);
            mb_sad_fits(pEnc@, sEnc, pRef@, sRef, *old(pCurMb), cand.iMvX as int / 4, cand.iMvY as int / 4)
        }),
        !(bQpSimilarFlag && bMbSkipFlag) && !bMdUsingSad ==> mb_sad_fits(pEnc@, sEnc, pRef@, sRef, *old(pCurMb), 0, 0),
    ensures
        ({
            let cand = scd_candidate(*sCurMbMv, eSkipMode);
            let kiSad = mb_sad(pEnc@, sEnc, pRef@, sRef, *old(pCurMb), cand.iMvX as int / 4, cand.iMvY as int / 4) as i32;
            let kiSadCollocated = mb_sad(pEnc@, sEnc, pRef@, sRef, *old(pCurMb), 0, 0) as i32;
            &&& final(pCurMb).uiCbp == 0
            &&& final(pCurMb).iSadCost == kiSad
            &&& final(pCurMb).sP16x16Mv == cand
            &&& final(pWelsMd).iCostSkipMb == kiSad
            &&& forall|i: int| 0 <= i < 16 ==> #[trigger] final(pCurMb).sMv[i] == cand
            &&& forall|i: int| 0 <= i < 4 ==> #[trigger] final(pCurMb).iRefIndex[i] == 0
            &&& bQpSimilarFlag && bMbSkipFlag ==> {
                &&& *final(pCurMb) == (SMB {
                    uiMbType: MB_TYPE_SKIP,
                    uiCbp: 0,
                    iSadCost: kiSad,
                    sP16x16Mv: cand,
                    sMv: final(pCurMb).sMv,
                    iRefIndex: [0i8, 0, 0, 0],
                    uiLumaQp: uiLastMbQp,
                    uiChromaQp: crate::svc_set_mb_syn_cavlc::g_kuiChromaQpTable[clip3(uiLastMbQp + kiChromaQpIndexOffset, 0, 51)],
                    ..*old(pCurMb)
                })
                &&& *final(pMbCache) == (SMbCache {
                    bCollocatedPredFlag: cand.iMvX == 0 && cand.iMvY == 0,
                    ..*old(pMbCache)
                })
                &&& *final(pWelsMd) == (SWelsMD { iCostLuma: 0, iCostSkipMb: kiSad, ..*old(pWelsMd) })
            }
            &&& !(bQpSimilarFlag && bMbSkipFlag) ==> {
                let mvp = pred_mv(old(pMbCache).sMvComponents, 0, 4, 0);
                &&& *final(pCurMb) == (SMB {
                    uiMbType: MB_TYPE_16x16,
                    uiCbp: 0,
                    iSadCost: kiSad,
                    sP16x16Mv: cand,
                    sMv: final(pCurMb).sMv,
                    iRefIndex: final(pCurMb).iRefIndex,
                    ..*old(pCurMb)
                })
                &&& final(pMbCache).sMbMvp[0] == mvp
                &&& forall|i: int| 1 <= i < 16 ==> #[trigger] final(pMbCache).sMbMvp[i] == old(pMbCache).sMbMvp[i]
                &&& forall|k: int| 0 <= k < 30 ==> #[trigger] final(pMbCache).sMvComponents.iRefIndexCache[k]
                    == if in_mb_cache(k) {
                    0
                } else {
                    old(pMbCache).sMvComponents.iRefIndexCache[k]
                }
                &&& forall|k: int| 0 <= k < 29 ==> #[trigger] final(pMbCache).sMvComponents.sMotionVectorCache[k]
                    == if in_mb_cache(k) {
                    cand
                } else {
                    old(pMbCache).sMvComponents.sMotionVectorCache[k]
                }
                &&& *final(pMbCache) == (SMbCache {
                    sMbMvp: final(pMbCache).sMbMvp,
                    sMvComponents: final(pMbCache).sMvComponents,
                    ..*old(pMbCache)
                })
                &&& final(pWelsMd).iCostLuma == if bMdUsingSad {
                    kiSad
                } else {
                    kiSadCollocated
                }
                &&& final(pWelsMd).sMe.sMe16x16.sMv == cand
                &&& final(pWelsMd).sMe.sMe16x16.sMvp == mvp
            }
        }),
{
    let sCandidateMv = match eSkipMode {
        ESkipModes::STATIC => sCurMbMv[0],
        ESkipModes::SCROLLED => sCurMbMv[1],
    };
    let sMvp = sCandidateMv;
    proof {
        crate::bits::lemma_i32_shifts();
    }
    let dx: i32 = (sCandidateMv.iMvX as i32) >> 2u32;
    let dy: i32 = (sCandidateMv.iMvY as i32) >> 2u32;
    assert(dx == sCandidateMv.iMvX as int / 4 && dy == sCandidateMv.iMvY as int / 4);
    let kiMbXLuma: i32 = pCurMb.iMbX as i32 * 16;
    let kiMbYLuma: i32 = pCurMb.iMbY as i32 * 16;
    let kiSad = displaced_sad_of(
        Some(PSampleSadSatdCostFunc::Sad16x16),
        pEnc,
        sEnc,
        pRef,
        sRef,
        kiMbXLuma,
        kiMbYLuma,
        dx,
        dy,
    );
    pCurMb.uiCbp = 0;
    pWelsMd.iCostLuma = 0;
    pCurMb.iSadCost = kiSad;
    pWelsMd.iCostSkipMb = kiSad;
    pCurMb.sP16x16Mv = sCandidateMv;
    if bQpSimilarFlag && bMbSkipFlag {
        pCurMb.iRefIndex = [0i8, 0, 0, 0];
        let mut i: usize = 0;
        while i < 16
            invariant
                0 <= i <= 16,
                sMvp == sCandidateMv,
                forall|k: int| 0 <= k < i ==> #[trigger] pCurMb.sMv[k] == sCandidateMv,
                *pCurMb == (SMB {
                    uiCbp: 0,
                    iSadCost: kiSad,
                    sP16x16Mv: sCandidateMv,
                    sMv: pCurMb.sMv,
                    iRefIndex: [0i8, 0, 0, 0],
                    ..*old(pCurMb)
                }),
            decreases 16 - i,
        {
            pCurMb.sMv[i] = sMvp;
            i = i + 1;
        }
        pCurMb.uiMbType = MB_TYPE_SKIP;
        WelsMdInterUpdatePskip(uiLastMbQp, kiChromaQpIndexOffset, pMbCache, pCurMb);
        return;
    }
    pCurMb.uiMbType = MB_TYPE_16x16;
    pWelsMd.sMe.sMe16x16.sMv = sCandidateMv;
    PredMv(&pMbCache.sMvComponents, 0, 4, 0, &mut pWelsMd.sMe.sMe16x16.sMvp);
    pMbCache.sMbMvp[0] = pWelsMd.sMe.sMe16x16.sMvp;
    UpdateP16x16MotionInfo(&mut pMbCache.sMvComponents, pCurMb, 0, &mut pWelsMd.sMe.sMe16x16.sMv);
    pWelsMd.iCostLuma = if bMdUsingSad {
        pCurMb.iSadCost
    } else {
        displaced_sad_of(
            Some(PSampleSadSatdCostFunc::Sad16x16),
            pEnc,
            sEnc,
            pRef,
            sRef,
            kiMbXLuma,
            kiMbYLuma,
            0,
            0,
        )
    };
}

} // verus!
