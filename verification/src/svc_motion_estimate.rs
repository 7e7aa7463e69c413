//! Motion estimation: the search-range arithmetic, the motion-vector cost
//! lookups, the diamond step selection, the block feature sums and hash
//! layout of the feature search, and its frame-level on/off switch.
use vstd::prelude::*;
use crate::mb::SMVUnitXY;

verus! {

pub const CAMERA_STARTMV_RANGE: i32 = 64;
pub const ITERATIVE_TIMES: i32 = 16;
pub const CAMERA_MV_RANGE: i32 = 80;
pub const CAMERA_MVD_RANGE: i32 = 162;
pub const MB_WIDTH_LUMA: i32 = 16;
pub const BASE_MV_MB_NMB: i32 = 9;
pub const CAMERA_HIGHLAYER_MVD_RANGE: i32 = 243;
pub const EXPANDED_MV_RANGE: i32 = 504;
pub const EXPANDED_MVD_RANGE: i32 = 1010;
pub const INTPEL_NEEDED_MARGIN: i32 = 3;
pub const MAX_VERTICAL_MV_RANGE: i32 = 1024;

pub const ME_DIA: u32 = 0x01;
pub const ME_CROSS: u32 = 0x02;
pub const ME_FME: u32 = 0x04;
pub const ME_FULL: u32 = 0x10;
pub const ME_DIA_CROSS: u32 = 0x03;
pub const ME_DIA_CROSS_FME: u32 = 0x07;

pub const LIST_SIZE_SUM_16x16: usize = 0x0FF01;
pub const LIST_SIZE_SUM_8x8: usize = 0x03FC1;
pub const LIST_SIZE_MSE_16x16: usize = 0x00878;
pub const LIST_SIZE: i32 = 0x10000;

pub const FME_DEFAULT_FEATURE_INDEX: i32 = 0;
pub const FMESWITCH_DEFAULT_GOODFRAME_NUM: u8 = 2;
pub const FMESWITCH_MBSAD_THRESHOLD: i32 = 30;
pub const FMESWITCH_MBAVERCOSTSAVING_THRESHOLD: u32 = 2;
pub const FMESWITCH_GOODFRAMECOUNT_MAX: u8 = 5;

pub const BLOCK_16x16: usize = 0;
pub const BLOCK_16x8: usize = 1;
pub const BLOCK_8x16: usize = 2;
pub const BLOCK_8x8: usize = 3;
pub const BLOCK_4x4: usize = 4;
pub const BLOCK_8x4: usize = 5;
pub const BLOCK_4x8: usize = 6;
pub const BLOCK_SIZE_ALL: usize = 7;

/// Sixteen times the quantiser step size for each QP.
pub const QStepx16ByQp: [i32; 52] = [
    10, 11, 13, 14, 16, 18, 20, 22, 26, 28, 32, 36, 40, 44, 52, 56, 64, 72, 80, 88, 104, 112, 128,
    144, 160, 176, 208, 224, 256, 288, 320, 352, 416, 448, 512, 576, 640, 704, 832, 896, 1024,
    1152, 1280, 1408, 1664, 1792, 2048, 2304, 2560, 2816, 3328, 3584,
];

/// The SAD prediction before a search, the SATD after it.
#[derive(Clone, Copy, Debug, Default)]
pub struct SadPredISatdUnit {
    pub uiValue: u32,
}

/// A cursor into a motion-vector cost table, biased so that component
/// difference `d` reads entry `bias + d`.
#[derive(Debug)]
pub struct MvdCostCursor {
    pub table: Vec<u16>,
    pub bias: usize,
}

impl MvdCostCursor {
    pub fn new(table: &[u16], bias: usize) -> (r: Self)
        ensures
            r.table@ == table@,
            r.bias == bias,
    {
        let mut v: Vec<u16> = Vec::new();
        let mut i: usize = 0;
        while i < table.len()
            invariant
                0 <= i <= table.len(),
                v@ == table@.take(i as int),
            decreases table.len() - i,
        {
            v.push(table[i]);
            i = i + 1;
            proof {
                assert(v@ =~= table@.take(i as int));
            }
        }
        proof {
            assert(table@.take(table.len() as int) =~= table@);
        }
        MvdCostCursor { table: v, bias }
    }

    /// Difference `d` is within the table.
    pub open spec fn covers(&self, d: int) -> bool {
        0 <= self.bias + d < self.table@.len()
    }

    pub open spec fn cost(&self, d: int) -> int {
        self.table@[self.bias + d] as int
    }

    pub fn at(&self, d: i32) -> (r: u16)
        requires
            self.covers(d as int),
        ensures
            r == self.cost(d as int),
    {
        let n = self.table.len();
        assert(self.bias + d < n);
        let i: usize = if d >= 0 {
            self.bias + d as usize
        } else {
            self.bias - (-(d as i64)) as usize
        };
        self.table[i]
    }
}

/// The working state of one block's motion search.
#[derive(Clone, Copy, Debug, Default)]
pub struct SWelsME {
    pub uSadPredISatd: SadPredISatdUnit,
    pub uiSadCost: u32,
    pub uiSatdCost: u32,
    pub uiSadCostThreshold: u32,
    pub iCurMeBlockPixX: i32,
    pub iCurMeBlockPixY: i32,
    pub uiBlockSize: u8,
    pub uiReserved: u8,
    pub sMvp: SMVUnitXY,
    pub sMvBase: SMVUnitXY,
    pub sDirectionalMv: SMVUnitXY,
    pub sMv: SMVUnitXY,
}

/// The result of a feature search pass.
#[derive(Clone, Copy, Debug, Default)]
pub struct SFeatureSearchOut {
    pub sBestMv: SMVUnitXY,
    pub uiBestSadCost: u32,
}

/// The rate cost of a motion-vector difference: the table entries of both
/// components.
pub fn COST_MVD(table: &MvdCostCursor, mx: i32, my: i32) -> (r: u32)
    requires
        table.covers(mx as int),
        table.covers(my as int),
    ensures
        r == table.cost(mx as int) + table.cost(my as int),
{
    table.at(mx) as u32 + table.at(my) as u32
}

pub fn UpdateMeResults(ksBestMv: SMVUnitXY, kiBestSadCost: u32, pMe: &mut SWelsME)
    ensures
        *final(pMe) == (SWelsME { sMv: ksBestMv, uiSadCost: kiBestSadCost, ..*old(pMe) }),
{
    pMe.sMv = ksBestMv;
    pMe.uiSadCost = kiBestSadCost;
}

/// Ends the whole-sample search: the vector goes to quarter-sample units and
/// the SAD cost stands as the SATD cost.
pub fn MeEndIntepelSearch(pMe: &mut SWelsME)
    requires
        -8192 <= old(pMe).sMv.iMvX <= 8191,
        -8192 <= old(pMe).sMv.iMvY <= 8191,
    ensures
        *final(pMe) == (SWelsME {
            sMv: SMVUnitXY { iMvX: (old(pMe).sMv.iMvX * 4) as i16, iMvY: (old(pMe).sMv.iMvY * 4) as i16 },
            uiSatdCost: old(pMe).uiSadCost,
            ..*old(pMe)
        }),
{
    pMe.sMv.iMvX = pMe.sMv.iMvX * 4;
    pMe.sMv.iMvY = pMe.sMv.iMvY * 4;
    pMe.uiSatdCost = pMe.uiSadCost;
}

pub fn CheckInRangeCloseOpen(iVal: i16, iMin: i16, iMax: i16) -> (r: bool)
    ensures
        r == (iMin <= iVal < iMax),
{
    iVal >= iMin && iVal < iMax
}

/// Both components lie in `[min, max)`.
pub fn CheckMvInRange(ksCurrentMv: SMVUnitXY, ksMinMv: SMVUnitXY, ksMaxMv: SMVUnitXY) -> (r: bool)
    ensures
        r == (ksMinMv.iMvX <= ksCurrentMv.iMvX < ksMaxMv.iMvX && ksMinMv.iMvY <= ksCurrentMv.iMvY
            < ksMaxMv.iMvY),
{
    CheckInRangeCloseOpen(ksCurrentMv.iMvX, ksMinMv.iMvX, ksMaxMv.iMvX) && CheckInRangeCloseOpen(
        ksCurrentMv.iMvY,
        ksMinMv.iMvY,
        ksMaxMv.iMvY,
    )
}

pub open spec fn max_int(a: int, b: int) -> int {
    if a >= b {
        a
    } else {
        b
    }
}

pub open spec fn min_int(a: int, b: int) -> int {
    if a <= b {
        a
    } else {
        b
    }
}

/// The lowest whole-sample vector component that keeps a block at `mb`
/// within the padded picture, bounded by the search range.
pub open spec fn mv_lower(mb: int, range: int) -> int {
    max_int(-((mb + 1) * 16) + INTPEL_NEEDED_MARGIN, -range)
}

/// The highest such component, for a picture `size` macroblocks wide or high.
pub open spec fn mv_upper(size: int, mb: int, range: int) -> int {
    min_int((size - mb) * 16 - INTPEL_NEEDED_MARGIN, range)
}

/// The whole-sample search window of the macroblock at `(kiMbX, kiMbY)`,
/// each bound stored as its low 16 bits.
pub fn SetMvWithinIntegerMvRange(
    kiMbWidth: i32,
    kiMbHeight: i32,
    kiMbX: i32,
    kiMbY: i32,
    kiMaxMvRange: i32,
    pMvMin: &mut SMVUnitXY,
    pMvMax: &mut SMVUnitXY,
)
    requires
        -0x2000000 <= kiMbWidth <= 0x2000000,
        -0x2000000 <= kiMbHeight <= 0x2000000,
        -0x2000000 <= kiMbX <= 0x2000000,
        -0x2000000 <= kiMbY <= 0x2000000,
        kiMaxMvRange > i32::MIN,
    ensures
        final(pMvMin).iMvX == mv_lower(kiMbX as int, kiMaxMvRange as int) as i16,
        final(pMvMin).iMvY == mv_lower(kiMbY as int, kiMaxMvRange as int) as i16,
        final(pMvMax).iMvX == mv_upper(kiMbWidth as int, kiMbX as int, kiMaxMvRange as int) as i16,
        final(pMvMax).iMvY == mv_upper(kiMbHeight as int, kiMbY as int, kiMaxMvRange as int) as i16,
{
    let lx = -((kiMbX + 1) * 16) + INTPEL_NEEDED_MARGIN;
    let ly = -((kiMbY + 1) * 16) + INTPEL_NEEDED_MARGIN;
    let ux = (kiMbWidth - kiMbX) * 16 - INTPEL_NEEDED_MARGIN;
    let uy = (kiMbHeight - kiMbY) * 16 - INTPEL_NEEDED_MARGIN;
    let nr = -kiMaxMvRange;
    let vlx = if lx >= nr {
        lx
    } else {
        nr
    };
    let vly = if ly >= nr {
        ly
    } else {
        nr
    };
    let vux = if ux <= kiMaxMvRange {
        ux
    } else {
        kiMaxMvRange
    };
    let vuy = if uy <= kiMaxMvRange {
        uy
    } else {
        kiMaxMvRange
    };
    pMvMin.iMvX = vlx as i16;
    pMvMin.iMvY = vly as i16;
    pMvMax.iMvX = vux as i16;
    pMvMax.iMvY = vuy as i16;
}

/// The feature search is switched on for scrolling content, or while good
/// frames are counted and the average macroblock SAD is high.
pub fn CalcFMESwitchFlag(
    uiFMEGoodFrameCount: u8,
    _iHighFreMbPrecentage: i32,
    iAvgMbSAD: i32,
    bScrollingDetected: bool,
) -> (r: bool)
    ensures
        r == (bScrollingDetected || (uiFMEGoodFrameCount > 0 && iAvgMbSAD
            > FMESWITCH_MBSAD_THRESHOLD)),
{
    bScrollingDetected || (uiFMEGoodFrameCount > 0 && iAvgMbSAD > FMESWITCH_MBSAD_THRESHOLD)
}

/// The costs of the four diamond neighbours (up, down, left, right) with their
/// motion-vector rate added.
pub open spec fn diamond_cost(sad: Seq<i32>, t: MvdCostCursor, dx: int, dy: int, k: int) -> int {
    if k == 0 {
        sad[0] + t.cost(dx) + t.cost(dy - 4)
    } else if k == 1 {
        sad[1] + t.cost(dx) + t.cost(dy + 4)
    } else if k == 2 {
        sad[2] + t.cost(dx - 4) + t.cost(dy)
    } else {
        sad[3] + t.cost(dx + 4) + t.cost(dy)
    }
}

/// The step `(x, y)` of the diamond search that moves to neighbour `k`.
pub open spec fn diamond_step(k: int) -> (int, int) {
    if k == 0 {
        (0, 1)
    } else if k == 1 {
        (0, -1)
    } else if k == 2 {
        (1, 0)
    } else {
        (-1, 0)
    }
}

/// The sequential choice among the four diamond neighbours: each one that
/// undercuts the best cost so far becomes the best; the final cost and the
/// last neighbour taken (-1 for none).
pub open spec fn diamond_pick(sad: Seq<i32>, t: MvdCostCursor, dx: int, dy: int, best: int) -> (int, int) {
    let c0 = diamond_cost(sad, t, dx, dy, 0);
    let c1 = diamond_cost(sad, t, dx, dy, 1);
    let c2 = diamond_cost(sad, t, dx, dy, 2);
    let c3 = diamond_cost(sad, t, dx, dy, 3);
    let (b1, k1) = if c0 < best { (c0, 0int) } else { (best, -1int) };
    let (b2, k2) = if c1 < b1 { (c1, 1int) } else { (b1, k1) };
    let (b3, k3) = if c2 < b2 { (c2, 2int) } else { (b2, k2) };
    if c3 < b3 { (c3, 3int) } else { (b3, k3) }
}

/// Picks the cheapest of the four diamond neighbours that beats the best cost
/// so far (the earliest on ties), records its cost and step, and answers
/// whether none did.
pub fn WelsMeSadCostSelect(
    iSadCost: &[i32; 4],
    kpMvdCost: &MvdCostCursor,
    pBestCost: &mut i32,
    kiDx: i32,
    kiDy: i32,
    pIx: &mut i32,
    pIy: &mut i32,
) -> (stop: bool)
    requires
        -0x10000000 <= kiDx <= 0x10000000,
        -0x10000000 <= kiDy <= 0x10000000,
        kpMvdCost.covers(kiDx as int),
        kpMvdCost.covers(kiDy as int),
        kpMvdCost.covers(kiDx - 4),
        kpMvdCost.covers(kiDx + 4),
        kpMvdCost.covers(kiDy - 4),
        kpMvdCost.covers(kiDy + 4),
        forall|k: int| 0 <= k < 4 ==> -0x40000000 <= #[trigger] iSadCost[k] <= 0x40000000,
    ensures
        *final(pBestCost) == diamond_pick(iSadCost@, *kpMvdCost, kiDx as int, kiDy as int, *old(pBestCost) as int).0,
        stop <==> diamond_pick(iSadCost@, *kpMvdCost, kiDx as int, kiDy as int, *old(pBestCost) as int).1 < 0,
        !stop ==> (*final(pIx) as int, *final(pIy) as int) == diamond_step(
            diamond_pick(iSadCost@, *kpMvdCost, kiDx as int, kiDy as int, *old(pBestCost) as int).1,
        ),
        stop == (forall|k: int|
            0 <= k < 4 ==> #[trigger] diamond_cost(iSadCost@, *kpMvdCost, kiDx as int, kiDy as int, k)
                >= *old(pBestCost)),
        stop ==> *final(pBestCost) == *old(pBestCost) && *final(pIx) == *old(pIx) && *final(pIy)
            == *old(pIy),
        !stop ==> exists|k: int|
            0 <= k < 4 && *final(pBestCost) == diamond_cost(
                iSadCost@,
                *kpMvdCost,
                kiDx as int,
                kiDy as int,
                k,
            ) && (*final(pIx) as int, *final(pIy) as int) == diamond_step(k) && (forall|j: int|
                0 <= j < k ==> #[trigger] diamond_cost(iSadCost@, *kpMvdCost, kiDx as int, kiDy as int, j)
                    > *final(pBestCost)) && (forall|j: int|
                k < j < 4 ==> #[trigger] diamond_cost(iSadCost@, *kpMvdCost, kiDx as int, kiDy as int, j)
                    >= *final(pBestCost)),
{
    let ghost t = *kpMvdCost;
    let ghost s = iSadCost@;
    let ghost b0 = *pBestCost as int;
    let iInputSadCost = *pBestCost;
    let c0 = iSadCost[0] + COST_MVD(kpMvdCost, kiDx, kiDy - 4) as i32;
    let c1 = iSadCost[1] + COST_MVD(kpMvdCost, kiDx, kiDy + 4) as i32;
    let c2 = iSadCost[2] + COST_MVD(kpMvdCost, kiDx - 4, kiDy) as i32;
    let c3 = iSadCost[3] + COST_MVD(kpMvdCost, kiDx + 4, kiDy) as i32;
    assert(c0 == diamond_cost(s, t, kiDx as int, kiDy as int, 0));
    assert(c1 == diamond_cost(s, t, kiDx as int, kiDy as int, 1));
    assert(c2 == diamond_cost(s, t, kiDx as int, kiDy as int, 2));
    assert(c3 == diamond_cost(s, t, kiDx as int, kiDy as int, 3));
    let ghost mut kk: int = -1;
    if c0 < *pBestCost {
        *pBestCost = c0;
        *pIx = 0;
        *pIy = 1;
        proof {
            kk = 0;
        }
    }
    if c1 < *pBestCost {
        *pBestCost = c1;
        *pIx = 0;
        *pIy = -1;
        proof {
            kk = 1;
        }
    }
    if c2 < *pBestCost {
        *pBestCost = c2;
        *pIx = 1;
        *pIy = 0;
        proof {
            kk = 2;
        }
    }
    if c3 < *pBestCost {
        *pBestCost = c3;
        *pIx = -1;
        *pIy = 0;
        proof {
            kk = 3;
        }
    }
    proof {
        if kk >= 0 {
            assert(forall|j: int|
                0 <= j < kk ==> #[trigger] diamond_cost(s, t, kiDx as int, kiDy as int, j)
                    > *pBestCost);
            assert(forall|j: int|
                kk < j < 4 ==> #[trigger] diamond_cost(s, t, kiDx as int, kiDy as int, j)
                    >= *pBestCost);
            assert(*pBestCost == diamond_cost(s, t, kiDx as int, kiDy as int, kk));
            assert((*pIx as int, *pIy as int) == diamond_step(kk));
        }
    }
    *pBestCost == iInputSadCost
}

/// The search families a block-size slot can be aimed at.
#[derive(Clone, Copy, Debug, PartialEq, Eq, Structural)]
pub enum PSearchMethodFunc {
    WelsDiamondSearch,
    WelsMotionCrossSearch,
    WelsDiamondCrossSearch,
    WelsDiamondCrossFeatureSearch,
}

/// Aims the slot at the search family `uiMethod` names. Full search and any
/// unknown method fall back to the diamond search and answer `false`.
pub fn SetMeMethod(uiMethod: u32, pSearchMethodFunc: &mut Option<PSearchMethodFunc>) -> (r: bool)
    ensures
        r == (uiMethod == ME_DIA || uiMethod == ME_CROSS || uiMethod == ME_DIA_CROSS || uiMethod
            == ME_DIA_CROSS_FME),
        *final(pSearchMethodFunc) == Some(
            if uiMethod == ME_CROSS {
                PSearchMethodFunc::WelsMotionCrossSearch
            } else if uiMethod == ME_DIA_CROSS {
                PSearchMethodFunc::WelsDiamondCrossSearch
            } else if uiMethod == ME_DIA_CROSS_FME {
                PSearchMethodFunc::WelsDiamondCrossFeatureSearch
            } else {
                PSearchMethodFunc::WelsDiamondSearch
            },
        ),
{
    if uiMethod == ME_DIA {
        *pSearchMethodFunc = Some(PSearchMethodFunc::WelsDiamondSearch);
        true
    } else if uiMethod == ME_CROSS {
        *pSearchMethodFunc = Some(PSearchMethodFunc::WelsMotionCrossSearch);
        true
    } else if uiMethod == ME_DIA_CROSS {
        *pSearchMethodFunc = Some(PSearchMethodFunc::WelsDiamondCrossSearch);
        true
    } else if uiMethod == ME_DIA_CROSS_FME {
        *pSearchMethodFunc = Some(PSearchMethodFunc::WelsDiamondCrossFeatureSearch);
        true
    } else {
        *pSearchMethodFunc = Some(PSearchMethodFunc::WelsDiamondSearch);
        false
    }
}

/// The sum of `w` bytes of `s` from `off`.
pub open spec fn row_sum(s: Seq<u8>, off: int, w: int) -> int
    decreases w,
{
    if w <= 0 {
        0
    } else {
        row_sum(s, off, w - 1) + s[off + w - 1]
    }
}

/// The sum of a `w x h` block of `s` whose rows start `stride` apart from `off`.
pub open spec fn block_sum(s: Seq<u8>, off: int, stride: int, w: int, h: int) -> int
    decreases h,
{
    if h <= 0 {
        0
    } else {
        block_sum(s, off, stride, w, h - 1) + row_sum(s, off + (h - 1) * stride, w)
    }
}

proof fn lemma_row_sum_bound(s: Seq<u8>, off: int, w: int)
    requires
        0 <= w,
    ensures
        0 <= row_sum(s, off, w) <= 255 * w,
    decreases w,
{
    if w > 0 {
        lemma_row_sum_bound(s, off, w - 1);
    }
}

pub proof fn lemma_block_sum_bound(s: Seq<u8>, off: int, stride: int, w: int, h: int)
    requires
        0 <= w,
        0 <= h,
    ensures
        0 <= block_sum(s, off, stride, w, h) <= 255 * w * h,
    decreases h,
{
    if h > 0 {
        lemma_block_sum_bound(s, off, stride, w, h - 1);
        lemma_row_sum_bound(s, off + (h - 1) * stride, w);
        assert(255 * w * (h - 1) + 255 * w == 255 * w * h) by (nonlinear_arith);
    }
}

/// Sums the square block of side `n` at `off` whose rows start `stride`
/// apart.
fn sum_square_block(kpRef: &[u8], off: usize, kiRefStride: i32, n: usize) -> (r: i32)
    requires
        n == 8 || n == 16,
        0 <= kiRefStride <= 0x1000000,
        off + (n - 1) * kiRefStride + n <= kpRef@.len(),
    ensures
        r == block_sum(kpRef@, off as int, kiRefStride as int, n as int, n as int),
        0 <= r <= 255 * n * n,
{
    let stride = kiRefStride as usize;
    let total = kpRef.len();
    let mut sum: i32 = 0;
    let mut r: usize = 0;
    while r < n
        invariant
            total == kpRef@.len(),
            n == 8 || n == 16,
            stride == kiRefStride,
            0 <= kiRefStride <= 0x1000000,
            off + (n - 1) * stride + n <= kpRef@.len(),
            0 <= r <= n,
            sum == block_sum(kpRef@, off as int, stride as int, n as int, r as int),
            0 <= sum <= 255 * n * r,
        decreases n - r,
    {
        assert(r * stride <= (n - 1) * stride) by (nonlinear_arith)
            requires
                r < n,
        ;
        let o = off + r * stride;
        let mut rs: i32 = 0;
        let mut c: usize = 0;
        while c < n
            invariant
                total == kpRef@.len(),
                n == 8 || n == 16,
                o + n <= kpRef@.len(),
                0 <= c <= n,
                rs == row_sum(kpRef@, o as int, c as int),
                0 <= rs <= 255 * c,
            decreases n - c,
        {
            rs = rs + kpRef[o + c] as i32;
            c = c + 1;
        }
        proof {
            assert(255 * n * r + 255 * n == 255 * n * (r + 1)) by (nonlinear_arith);
            assert(255 * n * (r + 1) <= 255 * 16 * 16) by (nonlinear_arith)
                requires
                    r < n,
                    n <= 16,
            ;
            assert(o as int == off as int + r * stride);
        }
        sum = sum + rs;
        r = r + 1;
    }
    sum
}

/// The sum of the 8x8 block at the start of `kpRef`.
pub fn SumOf8x8SingleBlock_c(kpRef: &[u8], kiRefStride: i32) -> (r: i32)
    requires
        0 <= kiRefStride <= 0x1000000,
        7 * kiRefStride + 8 <= kpRef@.len(),
    ensures
        r == block_sum(kpRef@, 0, kiRefStride as int, 8, 8),
{
    sum_square_block(kpRef, 0, kiRefStride, 8)
}

/// The sum of the 16x16 block at the start of `kpRef`.
pub fn SumOf16x16SingleBlock_c(kpRef: &[u8], kiRefStride: i32) -> (r: i32)
    requires
        0 <= kiRefStride <= 0x1000000,
        15 * kiRefStride + 16 <= kpRef@.len(),
    ensures
        r == block_sum(kpRef@, 0, kiRefStride as int, 16, 16),
{
    sum_square_block(kpRef, 0, kiRefStride, 16)
}

/// The sum of the 8x8 block at `off` of a plane whose rows are `stride` apart.
pub fn sum_of_8x8_single_block(plane: &[u8], off: usize, stride: i32) -> (r: i32)
    requires
        0 <= stride <= 0x1000000,
        off + 7 * stride + 8 <= plane@.len(),
    ensures
        r == block_sum(plane@, off as int, stride as int, 8, 8),
{
    sum_square_block(plane, off, stride, 8)
}

/// The sum of the 16x16 block at `off` of a plane whose rows are `stride`
/// apart.
pub fn sum_of_16x16_single_block(plane: &[u8], off: usize, stride: i32) -> (r: i32)
    requires
        0 <= stride <= 0x1000000,
        off + 15 * stride + 16 <= plane@.len(),
    ensures
        r == block_sum(plane@, off as int, stride as int, 16, 16),
{
    sum_square_block(plane, off, stride, 16)
}

/// How many of the first `n` entries of `s` are `v`.
pub open spec fn count_eq(s: Seq<u16>, n: int, v: int) -> int
    decreases n,
{
    if n <= 0 {
        0
    } else {
        count_eq(s, n - 1, v) + if s[n - 1] as int == v {
            1int
        } else {
            0int
        }
    }
}

proof fn lemma_count_update(s: Seq<u16>, n: int, p: int, x: u16, v: int)
    requires
        0 <= n <= p < s.len(),
    ensures
        count_eq(s.update(p, x), n, v) == count_eq(s, n, v),
    decreases n,
{
    if n > 0 {
        lemma_count_update(s, n - 1, p, x, v);
    }
}

proof fn lemma_count_bound(s: Seq<u16>, n: int, v: int)
    requires
        0 <= n,
    ensures
        0 <= count_eq(s, n, v) <= n,
    decreases n,
{
    if n > 0 {
        lemma_count_bound(s, n - 1, v);
    }
}

/// The block feature of every position of a `w x h` grid: the sum of the
/// `n x n` block there, with a histogram of the features.
#[verifier::spinoff_prover]
#[verifier::rlimit(40)]
fn block_sums_of_frame(
    kpRefPicture: &[u8],
    kiWidth: i32,
    kiHeight: i32,
    kiRefStride: i32,
    pFeatureOfBlock: &mut [u16],
    pTimesOfFeatureValue: &mut [u32],
    n: usize,
)
    requires
        n == 8 || n == 16,
        0 <= kiWidth <= 0x4000,
        0 <= kiHeight <= 0x4000,
        kiWidth <= kiRefStride <= 0x10000,
        (kiHeight + n - 1) * kiRefStride + n <= kpRefPicture@.len(),
        kiWidth * kiHeight <= old(pFeatureOfBlock)@.len(),
        255 * n * n < old(pTimesOfFeatureValue)@.len(),
        forall|v: int| 0 <= v < old(pTimesOfFeatureValue)@.len() ==> #[trigger] old(pTimesOfFeatureValue)@[v] + kiWidth * kiHeight <= u32::MAX,
    ensures
        final(pFeatureOfBlock)@.len() == old(pFeatureOfBlock)@.len(),
        final(pTimesOfFeatureValue)@.len() == old(pTimesOfFeatureValue)@.len(),
        forall|y: int, x: int|
            0 <= y < kiHeight && 0 <= x < kiWidth ==> #[trigger] final(pFeatureOfBlock)@[y * kiWidth + x]
                == block_sum(kpRefPicture@, y * kiRefStride + x, kiRefStride as int, n as int, n as int),
        forall|p: int| kiWidth * kiHeight <= p < old(pFeatureOfBlock)@.len() ==> #[trigger] final(pFeatureOfBlock)@[p] == old(pFeatureOfBlock)@[p],
        forall|v: int|
            0 <= v < old(pTimesOfFeatureValue)@.len() ==> #[trigger] final(pTimesOfFeatureValue)@[v]
                == old(pTimesOfFeatureValue)@[v] + count_eq(final(pFeatureOfBlock)@, kiWidth * kiHeight, v),
{
    let w = kiWidth as usize;
    let h = kiHeight as usize;
    let stride = kiRefStride as usize;
    assert(w * h <= 0x4000 * 0x4000) by (nonlinear_arith)
        requires w <= 0x4000, h <= 0x4000;
    let total: usize = w * h;
    let mut p: usize = 0;
    let mut x: usize = 0;
    let mut y: usize = 0;
    while p < total
        invariant
            n == 8 || n == 16,
            w == kiWidth,
            h == kiHeight,
            stride == kiRefStride,
            0 <= kiWidth <= 0x4000,
            0 <= kiHeight <= 0x4000,
            kiWidth <= kiRefStride <= 0x10000,
            total == w * h,
            (kiHeight + n - 1) * kiRefStride + n <= kpRefPicture@.len(),
            total <= pFeatureOfBlock@.len(),
            pFeatureOfBlock@.len() == old(pFeatureOfBlock)@.len(),
            pTimesOfFeatureValue@.len() == old(pTimesOfFeatureValue)@.len(),
            255 * n * n < pTimesOfFeatureValue@.len(),
            0 <= p <= total,
            p == y * w + x,
            x < w || (p == total),
            p < total ==> y < h && x < w,
            forall|yy: int, xx: int|
                0 <= yy < kiHeight && 0 <= xx < kiWidth && yy * kiWidth + xx < p ==> #[trigger] pFeatureOfBlock@[yy * kiWidth + xx]
                    == block_sum(kpRefPicture@, yy * kiRefStride + xx, kiRefStride as int, n as int, n as int),
            forall|q: int| p <= q < pFeatureOfBlock@.len() ==> #[trigger] pFeatureOfBlock@[q] == old(pFeatureOfBlock)@[q],
            forall|v: int|
                0 <= v < pTimesOfFeatureValue@.len() ==> #[trigger] pTimesOfFeatureValue@[v]
                    == old(pTimesOfFeatureValue)@[v] + count_eq(pFeatureOfBlock@, p as int, v),
            forall|v: int| 0 <= v < old(pTimesOfFeatureValue)@.len() ==> #[trigger] old(pTimesOfFeatureValue)@[v] + kiWidth * kiHeight <= u32::MAX,
        decreases total - p,
    {
        proof {
            assert(y * stride + x + (n - 1) * stride + n <= (kiHeight + n - 1) * kiRefStride + n) by (nonlinear_arith)
                requires
                    y < kiHeight,
                    x < kiWidth,
                    kiWidth <= stride,
                    stride == kiRefStride,
            ;
            assert(y * stride + x <= 0x7fff_ffff) by (nonlinear_arith)
                requires
                    y < 0x4000,
                    x < 0x4000,
                    stride <= 0x10000,
            ;
        }
        let off = y * stride + x;
        let sum = sum_square_block(kpRefPicture, off, kiRefStride, n);
        proof {
            assert(255 * n * n <= 255 * 16 * 16) by (nonlinear_arith)
                requires n <= 16;
        }
        let ghost before = pFeatureOfBlock@;
        pFeatureOfBlock[p] = sum as u16;
        proof {
            assert(pFeatureOfBlock@ == before.update(p as int, sum as u16));
            assert forall|v: int| 0 <= v < pTimesOfFeatureValue@.len() implies count_eq(pFeatureOfBlock@, p + 1, v)
                == count_eq(before, p as int, v) + if sum as int == v { 1int } else { 0int } by {
                lemma_count_update(before, p as int, p as int, sum as u16, v);
            }
            lemma_count_bound(before, p as int, sum as int);
            assert(p < kiWidth * kiHeight);
        }
        let t = pTimesOfFeatureValue[sum as usize];
        pTimesOfFeatureValue[sum as usize] = t + 1;
        proof {
            assert forall|yy: int, xx: int|
                0 <= yy < kiHeight && 0 <= xx < kiWidth && yy * kiWidth + xx < p + 1 implies #[trigger] pFeatureOfBlock@[yy * kiWidth + xx]
                    == block_sum(kpRefPicture@, yy * kiRefStride + xx, kiRefStride as int, n as int, n as int) by {
                if yy * kiWidth + xx == p {
                    assert(yy == y && xx == x) by (nonlinear_arith)
                        requires
                            yy * kiWidth + xx == y * kiWidth + x,
                            0 <= xx < kiWidth,
                            0 <= x < kiWidth,
                            0 <= yy,
                            0 <= y,
                    ;
                }
            }
        }
        p = p + 1;
        if x + 1 == w {
            let ghost yo = y;
            x = 0;
            y = y + 1;
            proof {
                assert(p == yo * w + w);
                assert(yo * w + w == (yo + 1) * w) by (nonlinear_arith);
                if p < total {
                    assert(y < h) by (nonlinear_arith)
                        requires p == y * w, p < w * h, w > 0;
                }
            }
        } else {
            x = x + 1;
            proof {
                if p < total {
                    assert(y < h) by (nonlinear_arith)
                        requires p == y * w + x, p < w * h, x < w;
                }
            }
        }
    }
    proof {
        assert forall|yy: int, xx: int|
            0 <= yy < kiHeight && 0 <= xx < kiWidth implies #[trigger] pFeatureOfBlock@[yy * kiWidth + xx]
                == block_sum(kpRefPicture@, yy * kiRefStride + xx, kiRefStride as int, n as int, n as int) by {
            assert(yy * kiWidth + xx < kiWidth * kiHeight) by (nonlinear_arith)
                requires 0 <= yy < kiHeight, 0 <= xx < kiWidth;
        }
    }
}

/// The 8x8 block feature (sum) of every position of a `w x h` grid of a
/// reference picture, with the histogram of the features.
pub fn SumOf8x8BlockOfFrame_c(
    kpRefPicture: &[u8],
    kiWidth: i32,
    kiHeight: i32,
    kiRefStride: i32,
    pFeatureOfBlock: &mut [u16],
    pTimesOfFeatureValue: &mut [u32],
)
    requires
        0 <= kiWidth <= 0x4000,
        0 <= kiHeight <= 0x4000,
        kiWidth <= kiRefStride <= 0x10000,
        (kiHeight + 7) * kiRefStride + 8 <= kpRefPicture@.len(),
        kiWidth * kiHeight <= old(pFeatureOfBlock)@.len(),
        LIST_SIZE_SUM_8x8 <= old(pTimesOfFeatureValue)@.len(),
        forall|v: int| 0 <= v < old(pTimesOfFeatureValue)@.len() ==> #[trigger] old(pTimesOfFeatureValue)@[v] + kiWidth * kiHeight <= u32::MAX,
    ensures
        final(pFeatureOfBlock)@.len() == old(pFeatureOfBlock)@.len(),
        final(pTimesOfFeatureValue)@.len() == old(pTimesOfFeatureValue)@.len(),
        forall|y: int, x: int|
            0 <= y < kiHeight && 0 <= x < kiWidth ==> #[trigger] final(pFeatureOfBlock)@[y * kiWidth + x]
                == block_sum(kpRefPicture@, y * kiRefStride + x, kiRefStride as int, 8, 8),
        forall|p: int| kiWidth * kiHeight <= p < old(pFeatureOfBlock)@.len() ==> #[trigger] final(pFeatureOfBlock)@[p] == old(pFeatureOfBlock)@[p],
        forall|v: int|
            0 <= v < old(pTimesOfFeatureValue)@.len() ==> #[trigger] final(pTimesOfFeatureValue)@[v]
                == old(pTimesOfFeatureValue)@[v] + count_eq(final(pFeatureOfBlock)@, kiWidth * kiHeight, v),
{
    block_sums_of_frame(kpRefPicture, kiWidth, kiHeight, kiRefStride, pFeatureOfBlock, pTimesOfFeatureValue, 8);
}

/// The 16x16 block feature (sum) of every position of a `w x h` grid of a
/// reference picture, with the histogram of the features.
pub fn SumOf16x16BlockOfFrame_c(
    kpRefPicture: &[u8],
    kiWidth: i32,
    kiHeight: i32,
    kiRefStride: i32,
    pFeatureOfBlock: &mut [u16],
    pTimesOfFeatureValue: &mut [u32],
)
    requires
        0 <= kiWidth <= 0x4000,
        0 <= kiHeight <= 0x4000,
        kiWidth <= kiRefStride <= 0x10000,
        (kiHeight + 15) * kiRefStride + 16 <= kpRefPicture@.len(),
        kiWidth * kiHeight <= old(pFeatureOfBlock)@.len(),
        LIST_SIZE_SUM_16x16 <= old(pTimesOfFeatureValue)@.len(),
        forall|v: int| 0 <= v < old(pTimesOfFeatureValue)@.len() ==> #[trigger] old(pTimesOfFeatureValue)@[v] + kiWidth * kiHeight <= u32::MAX,
    ensures
        final(pFeatureOfBlock)@.len() == old(pFeatureOfBlock)@.len(),
        final(pTimesOfFeatureValue)@.len() == old(pTimesOfFeatureValue)@.len(),
        forall|y: int, x: int|
            0 <= y < kiHeight && 0 <= x < kiWidth ==> #[trigger] final(pFeatureOfBlock)@[y * kiWidth + x]
                == block_sum(kpRefPicture@, y * kiRefStride + x, kiRefStride as int, 16, 16),
        forall|p: int| kiWidth * kiHeight <= p < old(pFeatureOfBlock)@.len() ==> #[trigger] final(pFeatureOfBlock)@[p] == old(pFeatureOfBlock)@[p],
        forall|v: int|
            0 <= v < old(pTimesOfFeatureValue)@.len() ==> #[trigger] final(pTimesOfFeatureValue)@[v]
                == old(pTimesOfFeatureValue)@[v] + count_eq(final(pFeatureOfBlock)@, kiWidth * kiHeight, v),
{
    block_sums_of_frame(kpRefPicture, kiWidth, kiHeight, kiRefStride, pFeatureOfBlock, pTimesOfFeatureValue, 16);
}


/// Stores the best vector and cost of a feature search pass.
pub fn SaveFeatureSearchOut(
    sBestMv: SMVUnitXY,
    uiBestSadCost: u32,
    pFeatureSearchOut: &mut SFeatureSearchOut,
)
    ensures
        *final(pFeatureSearchOut) == (SFeatureSearchOut { sBestMv, uiBestSadCost }),
{
    pFeatureSearchOut.sBestMv = sBestMv;
    pFeatureSearchOut.uiBestSadCost = uiBestSadCost;
}

/// The good-frame count after a frame whose average per-macroblock cost
/// saving was `saving`: one up (at most the maximum) above the threshold, one
/// down (at least zero) otherwise.
pub open spec fn next_good_frame_count(saving: int, count: int) -> int {
    if saving > FMESWITCH_MBAVERCOSTSAVING_THRESHOLD {
        if count < FMESWITCH_GOODFRAMECOUNT_MAX {
            count + 1
        } else {
            count
        }
    } else if count > 0 {
        count - 1
    } else {
        count
    }
}

pub fn UpdateFMEGoodFrameCount(iAvMBNormalizedRDcostDown: u32, uiFMEGoodFrameCount: &mut u8)
    ensures
        *final(uiFMEGoodFrameCount) == next_good_frame_count(
            iAvMBNormalizedRDcostDown as int,
            *old(uiFMEGoodFrameCount) as int,
        ),
{
    if iAvMBNormalizedRDcostDown > FMESWITCH_MBAVERCOSTSAVING_THRESHOLD {
        if *uiFMEGoodFrameCount < FMESWITCH_GOODFRAMECOUNT_MAX {
            *uiFMEGoodFrameCount = *uiFMEGoodFrameCount + 1;
        }
    } else if *uiFMEGoodFrameCount > 0 {
        *uiFMEGoodFrameCount = *uiFMEGoodFrameCount - 1;
    }
}

/// The sum, wrapping at 32 bits, of the first `n` slice cost savings.
pub open spec fn cost_down_sum(costs: Seq<u32>, n: int) -> u32
    decreases n,
{
    if n <= 0 {
        0
    } else {
        let t = cost_down_sum(costs, n - 1) + costs[n - 1];
        if t > u32::MAX {
            (t - 0x1_0000_0000) as u32
        } else {
            t as u32
        }
    }
}

/// The feature-search cost saving of a layer: the wrapping sum over its
/// `kiSliceCount` coded slices (the ones that exist).
pub fn CountFMECostDown(costs: &[u32], kiSliceCount: i32) -> (r: u32)
    ensures
        r == cost_down_sum(costs@, min_int(kiSliceCount as int, costs@.len() as int)),
{
    let mut sum: u32 = 0;
    let mut i: usize = 0;
    let n: usize = if kiSliceCount <= 0 {
        0
    } else if (kiSliceCount as usize) < costs.len() {
        kiSliceCount as usize
    } else {
        costs.len()
    };
    while i < n
        invariant
            0 <= i <= n,
            n <= costs@.len(),
            sum == cost_down_sum(costs@, i as int),
        decreases n - i,
    {
        sum = sum.wrapping_add(costs[i]);
        i = i + 1;
    }
    proof {
        if kiSliceCount <= 0 {
            assert(cost_down_sum(costs@, min_int(kiSliceCount as int, costs@.len() as int)) == 0);
        }
    }
    sum
}

/// The frame-level feature-search state of the last layer.
#[derive(Debug)]
pub struct SFeatureSearchPreparation {
    pub pFeatureOfBlock: Vec<u16>,
    pub uiFeatureStrategyIndex: u8,
    pub bFMESwitchFlag: bool,
    pub uiFMEGoodFrameCount: u8,
    pub iHighFreMbCount: i32,
}

/// Steps the good-frame count of `prep` by the layer's average cost saving
/// per macroblock: the wrapping sum over its coded slices, divided by the
/// macroblock count.
pub fn UpdateFMESwitch(
    costs: &[u32],
    kiSliceCount: i32,
    iMbWidth: i16,
    iMbHeight: i16,
    prep: &mut Option<SFeatureSearchPreparation>,
)
    requires
        iMbWidth > 0,
        iMbHeight > 0,
    ensures
        match *old(prep) {
            None => (*final(prep)).is_none(),
            Some(p) => *final(prep) matches Some(q) && q.uiFMEGoodFrameCount == next_good_frame_count(
                cost_down_sum(costs@, min_int(kiSliceCount as int, costs@.len() as int)) as int
                    / (iMbWidth * iMbHeight),
                p.uiFMEGoodFrameCount as int,
            ) && q.pFeatureOfBlock@ == p.pFeatureOfBlock@ && q.uiFeatureStrategyIndex
                == p.uiFeatureStrategyIndex && q.bFMESwitchFlag == p.bFMESwitchFlag
                && q.iHighFreMbCount == p.iHighFreMbCount,
        },
{
    let iFMECost = CountFMECostDown(costs, kiSliceCount);
    assert(0 < (iMbWidth as i32) * (iMbHeight as i32) <= 32767 * 32767) by (nonlinear_arith)
        requires
            0 < iMbWidth <= 32767,
            0 < iMbHeight <= 32767,
    ;
    let kiMbNum = ((iMbWidth as i32) * (iMbHeight as i32)) as u32;
    let iAv = iFMECost / kiMbNum;
    match prep {
        Some(p) => {
            UpdateFMEGoodFrameCount(iAv, &mut p.uiFMEGoodFrameCount);
        },
        None => {},
    }
}

/// The switch for layers without a feature search: does nothing.
pub fn UpdateFMESwitchNull(_prep: &mut Option<SFeatureSearchPreparation>)
    ensures
        *final(_prep) == *old(_prep),
{
}

impl SFeatureSearchPreparation {
    /// The preparation for a `kiFrameWidth x kiFrameHeight` frame: one feature
    /// per block position that leaves the block's margin inside the frame (8
    /// for the 8x8 feature search, 16 otherwise), switched on, with the
    /// default good-frame count.
    pub fn new(kiFrameWidth: i32, kiFrameHeight: i32, iNeedFeatureStorage: i32) -> (r: Self)
        requires
            0 <= kiFrameWidth <= 0x4000,
            0 <= kiFrameHeight <= 0x4000,
        ensures
            r.uiFeatureStrategyIndex == (iNeedFeatureStorage >> 16) as u8,
            r.bFMESwitchFlag,
            r.uiFMEGoodFrameCount == FMESWITCH_DEFAULT_GOODFRAME_NUM,
            r.iHighFreMbCount == 0,
            ({
                let margin = if (iNeedFeatureStorage & 0x0000FF & 4) == 4 { 8int } else { 16int };
                let w = max_int(kiFrameWidth - margin, 0);
                let h = max_int(kiFrameHeight - margin, 0);
                r.pFeatureOfBlock@.len() == if r.uiFeatureStrategyIndex == 0 {
                    w * h
                } else {
                    w * h + 2 * w + 4 * kiFrameWidth
                }
            }),
            forall|i: int| 0 <= i < r.pFeatureOfBlock@.len() ==> #[trigger] r.pFeatureOfBlock@[i] == 0,
    {
        let kiFeatureStrategyIndex = (iNeedFeatureStorage >> 16u32) as u8;
        let bFme8x8 = (iNeedFeatureStorage & 0x0000FF & 4) == 4;
        let kiMarginSize: i32 = if bFme8x8 {
            8
        } else {
            16
        };
        let w: usize = if kiFrameWidth - kiMarginSize > 0 {
            (kiFrameWidth - kiMarginSize) as usize
        } else {
            0
        };
        let h: usize = if kiFrameHeight - kiMarginSize > 0 {
            (kiFrameHeight - kiMarginSize) as usize
        } else {
            0
        };
        assert(w * h <= 0x4000 * 0x4000) by (nonlinear_arith)
            requires
                w <= 0x4000,
                h <= 0x4000,
        ;
        let len: usize = if kiFeatureStrategyIndex == 0 {
            w * h
        } else {
            w * h + 2 * w + 4 * (kiFrameWidth as usize)
        };
        let mut v: Vec<u16> = Vec::new();
        let mut i: usize = 0;
        while i < len
            invariant
                0 <= i <= len,
                v@.len() == i,
                forall|k: int| 0 <= k < i ==> #[trigger] v@[k] == 0,
            decreases len - i,
        {
            v.push(0u16);
            i = i + 1;
        }
        SFeatureSearchPreparation {
            pFeatureOfBlock: v,
            uiFeatureStrategyIndex: kiFeatureStrategyIndex,
            bFMESwitchFlag: true,
            uiFMEGoodFrameCount: FMESWITCH_DEFAULT_GOODFRAME_NUM,
            iHighFreMbCount: 0,
        }
    }
}

/// The sum of the first `n` counts.
pub open spec fn times_prefix(t: Seq<u32>, n: int) -> int
    decreases n,
{
    if n <= 0 {
        0
    } else {
        times_prefix(t, n - 1) + t[n - 1]
    }
}

/// Lays out the location arena of the feature search: each feature value
/// gets a group of two entries per block carrying it, in value order; its
/// base and its write cursor both start at the group's beginning.
pub fn InitializeHashforFeature_c(
    pTimesOfFeatureValue: &[u32],
    kiListSize: i32,
    pLocationOfFeature: &mut [usize],
    pFeatureValuePointerList: &mut [usize],
)
    requires
        0 <= kiListSize <= pTimesOfFeatureValue@.len(),
        kiListSize <= old(pLocationOfFeature)@.len(),
        kiListSize <= old(pFeatureValuePointerList)@.len(),
        2 * times_prefix(pTimesOfFeatureValue@, kiListSize as int) <= 0xffff_ffff,
    ensures
        final(pLocationOfFeature)@.len() == old(pLocationOfFeature)@.len(),
        final(pFeatureValuePointerList)@.len() == old(pFeatureValuePointerList)@.len(),
        forall|i: int|
            0 <= i < kiListSize ==> #[trigger] final(pLocationOfFeature)@[i] == 2 * times_prefix(pTimesOfFeatureValue@, i)
                && final(pFeatureValuePointerList)@[i] == 2 * times_prefix(pTimesOfFeatureValue@, i),
        forall|i: int|
            kiListSize <= i < old(pLocationOfFeature)@.len() ==> #[trigger] final(pLocationOfFeature)@[i] == old(pLocationOfFeature)@[i],
        forall|i: int|
            kiListSize <= i < old(pFeatureValuePointerList)@.len() ==> #[trigger] final(pFeatureValuePointerList)@[i]
                == old(pFeatureValuePointerList)@[i],
{
    let n = kiListSize as usize;
    let mut pos: usize = 0;
    let mut i: usize = 0;
    while i < n
        invariant
            n == kiListSize,
            0 <= i <= n,
            n <= pTimesOfFeatureValue@.len(),
            n <= pLocationOfFeature@.len(),
            n <= pFeatureValuePointerList@.len(),
            pLocationOfFeature@.len() == old(pLocationOfFeature)@.len(),
            pFeatureValuePointerList@.len() == old(pFeatureValuePointerList)@.len(),
            2 * times_prefix(pTimesOfFeatureValue@, n as int) <= 0xffff_ffff,
            pos == 2 * times_prefix(pTimesOfFeatureValue@, i as int),
            forall|k: int|
                0 <= k < i ==> #[trigger] pLocationOfFeature@[k] == 2 * times_prefix(pTimesOfFeatureValue@, k)
                    && pFeatureValuePointerList@[k] == 2 * times_prefix(pTimesOfFeatureValue@, k),
            forall|k: int| i <= k < pLocationOfFeature@.len() ==> #[trigger] pLocationOfFeature@[k] == old(pLocationOfFeature)@[k],
            forall|k: int|
                i <= k < pFeatureValuePointerList@.len() ==> #[trigger] pFeatureValuePointerList@[k]
                    == old(pFeatureValuePointerList)@[k],
        decreases n - i,
    {
        pLocationOfFeature[i] = pos;
        pFeatureValuePointerList[i] = pos;
        proof {
            lemma_times_prefix_mono(pTimesOfFeatureValue@, i + 1, n as int);
        }
        pos = pos + (pTimesOfFeatureValue[i] as usize) * 2;
        i = i + 1;
    }
}

proof fn lemma_times_prefix_mono(t: Seq<u32>, a: int, b: int)
    requires
        0 <= a <= b,
    ensures
        times_prefix(t, a) <= times_prefix(t, b),
    decreases b - a,
{
    if a < b {
        lemma_times_prefix_mono(t, a, b - 1);
    }
}

/// The SATD pass for searches that keep the SAD: does nothing.
pub fn NotCalculateSatdCost(_pMe: &mut SWelsME)
    ensures
        *final(_pMe) == *old(_pMe),
{
}

/// The directional-vector check of camera content: never taken.
pub fn CheckDirectionalMvFalse(
    _pSad: Option<PSampleSadSatdCostFunc>,
    _pMe: &mut SWelsME,
    _ksMinMv: SMVUnitXY,
    _ksMaxMv: SMVUnitXY,
    _kpMvdCost: &MvdCostCursor,
    _pEnc: &[u8],
    _sEnc: SPlaneLayout,
    _pRef: &[u8],
    _sRef: SPlaneLayout,
    _iBestSadCost: &mut i32,
) -> (r: bool)
    ensures
        !r,
        *final(_pMe) == *old(_pMe),
        *final(_iBestSadCost) == *old(_iBestSadCost),
{
    false
}


// ---------------------------------------------------------------------------
// Sum of absolute differences
// ---------------------------------------------------------------------------

/// The SAD kernels, one per block size.
#[derive(Clone, Copy, Debug, PartialEq, Eq, Structural)]
pub enum PSampleSadSatdCostFunc {
    Sad16x16,
    Sad16x8,
    Sad8x16,
    Sad8x8,
    Sad4x4,
}

/// The width and height of the block a kernel compares.
pub open spec fn sad_dims(f: PSampleSadSatdCostFunc) -> (int, int) {
    match f {
        PSampleSadSatdCostFunc::Sad16x16 => (16, 16),
        PSampleSadSatdCostFunc::Sad16x8 => (16, 8),
        PSampleSadSatdCostFunc::Sad8x16 => (8, 16),
        PSampleSadSatdCostFunc::Sad8x8 => (8, 8),
        PSampleSadSatdCostFunc::Sad4x4 => (4, 4),
    }
}

/// The kernels of a motion search, by block size (`BLOCK_16x16` ...).
#[derive(Clone, Copy, Debug)]
pub struct SSampleDealingFunc {
    pub pfSampleSad: [Option<PSampleSadSatdCostFunc>; 7],
    /// The kernels that give the SADs of the four diamond neighbours at once.
    pub pfSample4Sad: [Option<PSampleSadSatdCostFunc>; 7],
}

/// The absolute difference of two samples.
pub open spec fn abs_diff(a: u8, b: u8) -> int {
    if a >= b {
        a - b
    } else {
        b - a
    }
}

/// The SAD of the first `w` samples of two rows.
pub open spec fn row_sad(a: Seq<u8>, ao: int, b: Seq<u8>, bo: int, w: int) -> int
    decreases w,
{
    if w <= 0 {
        0
    } else {
        row_sad(a, ao, b, bo, w - 1) + abs_diff(a[ao + w - 1], b[bo + w - 1])
    }
}

/// The SAD of the first `h` rows of two `w`-wide blocks.
pub open spec fn block_sad(a: Seq<u8>, ao: int, sa: int, b: Seq<u8>, bo: int, sb: int, w: int, h: int) -> int
    decreases h,
{
    if h <= 0 {
        0
    } else {
        block_sad(a, ao, sa, b, bo, sb, w, h - 1) + row_sad(a, ao + (h - 1) * sa, b, bo + (h - 1) * sb, w)
    }
}

/// A `w x h` block at `off` with rows `stride` apart lies in `len` samples.
pub open spec fn block_fits(len: int, off: int, stride: int, w: int, h: int) -> bool {
    0 <= off && off + (h - 1) * stride + w <= len
}

/// The SAD that kernel `f` computes for the blocks at `ao` and `bo`.
pub open spec fn sad_cost(f: PSampleSadSatdCostFunc, a: Seq<u8>, ao: int, sa: int, b: Seq<u8>, bo: int, sb: int) -> int {
    block_sad(a, ao, sa, b, bo, sb, sad_dims(f).0, sad_dims(f).1)
}

/// Both blocks of kernel `f` lie in their planes.
pub open spec fn sad_fits(f: PSampleSadSatdCostFunc, a: Seq<u8>, ao: int, sa: int, b: Seq<u8>, bo: int, sb: int) -> bool {
    &&& block_fits(a.len() as int, ao, sa, sad_dims(f).0, sad_dims(f).1)
    &&& block_fits(b.len() as int, bo, sb, sad_dims(f).0, sad_dims(f).1)
}

/// Runs SAD kernel `f` on the blocks at `ao` (rows `sa` apart) of `a` and at
/// `bo` (rows `sb` apart) of `b`.
pub fn sample_sad(
    f: PSampleSadSatdCostFunc,
    a: &[u8],
    ao: usize,
    sa: usize,
    b: &[u8],
    bo: usize,
    sb: usize,
) -> (r: i32)
    requires
        sad_fits(f, a@, ao as int, sa as int, b@, bo as int, sb as int),
    ensures
        r == sad_cost(f, a@, ao as int, sa as int, b@, bo as int, sb as int),
        0 <= r <= 255 * 256,
{
    let (w, h): (usize, usize) = match f {
        PSampleSadSatdCostFunc::Sad16x16 => (16, 16),
        PSampleSadSatdCostFunc::Sad16x8 => (16, 8),
        PSampleSadSatdCostFunc::Sad8x16 => (8, 16),
        PSampleSadSatdCostFunc::Sad8x8 => (8, 8),
        PSampleSadSatdCostFunc::Sad4x4 => (4, 4),
    };
    let alen = a.len();
    let blen = b.len();
    let mut sum: i32 = 0;
    let mut y: usize = 0;
    while y < h
        invariant
            alen == a@.len(),
            blen == b@.len(),
            w == sad_dims(f).0,
            h == sad_dims(f).1,
            4 <= w <= 16,
            4 <= h <= 16,
            0 <= y <= h,
            ao + (h - 1) * sa + w <= a@.len(),
            bo + (h - 1) * sb + w <= b@.len(),
            sum == block_sad(a@, ao as int, sa as int, b@, bo as int, sb as int, w as int, y as int),
            0 <= sum <= 255 * w * y,
        decreases h - y,
    {
        assert(y * sa <= (h - 1) * sa && y * sb <= (h - 1) * sb) by (nonlinear_arith)
            requires
                y < h,
        ;
        let oa = ao + y * sa;
        let ob = bo + y * sb;
        let mut rs: i32 = 0;
        let mut x: usize = 0;
        while x < w
            invariant
                alen == a@.len(),
                blen == b@.len(),
                4 <= w <= 16,
                oa + w <= a@.len(),
                ob + w <= b@.len(),
                0 <= x <= w,
                rs == row_sad(a@, oa as int, b@, ob as int, x as int),
                0 <= rs <= 255 * x,
            decreases w - x,
        {
            let p = a[oa + x];
            let q = b[ob + x];
            let d: i32 = if p >= q {
                (p - q) as i32
            } else {
                (q - p) as i32
            };
            rs = rs + d;
            x = x + 1;
        }
        proof {
            assert(255 * w * y + 255 * w == 255 * w * (y + 1)) by (nonlinear_arith);
            assert(255 * w * (y + 1) <= 255 * 16 * 16) by (nonlinear_arith)
                requires
                    y < h,
                    h <= 16,
                    w <= 16,
            ;
        }
        sum = sum + rs;
        y = y + 1;
    }
    proof {
        assert(255 * w * h <= 255 * 256) by (nonlinear_arith)
            requires
                w <= 16,
                h <= 16,
        ;
    }
    sum
}


/// Where the samples of a picture plane lie in its buffer: sample `(x, y)`
/// at `iOrigin + y * iStride + x`; coordinates may reach into the padding
/// around the picture.
#[derive(Clone, Copy, Debug)]
pub struct SPlaneLayout {
    pub iOrigin: usize,
    pub iStride: usize,
}

/// The buffer offset of sample `(x, y)`.
pub open spec fn sample_at(p: SPlaneLayout, x: int, y: int) -> int {
    p.iOrigin + y * p.iStride + x
}

/// The layout is small enough for offset arithmetic, and `(x, y)` is near
/// enough to the picture.
pub open spec fn layout_ok(p: SPlaneLayout, x: int, y: int) -> bool {
    &&& p.iOrigin <= 0x4000_0000
    &&& p.iStride <= 0x10000
    &&& -0x10000 <= x <= 0x10000
    &&& -0x10000 <= y <= 0x10000
}

/// The buffer offset of sample `(x, y)`.
pub fn plane_offset(p: SPlaneLayout, x: i32, y: i32) -> (r: usize)
    requires
        layout_ok(p, x as int, y as int),
        0 <= sample_at(p, x as int, y as int) <= usize::MAX,
    ensures
        r == sample_at(p, x as int, y as int),
{
    assert(-0x10000 * 0x10000 <= y * p.iStride <= 0x10000 * 0x10000) by (nonlinear_arith)
        requires
            -0x10000 <= y <= 0x10000,
            0 <= p.iStride <= 0x10000,
    ;
    let o: i64 = p.iOrigin as i64 + (y as i64) * (p.iStride as i64) + x as i64;
    o as usize
}

/// The SAD of kernel `f` between the block at `(x, y)` of the encoded plane
/// and the block at `(x + dx, y + dy)` of the reference plane (0 without a
/// kernel).
pub open spec fn displaced_sad(
    f: Option<PSampleSadSatdCostFunc>,
    enc: Seq<u8>,
    le: SPlaneLayout,
    refp: Seq<u8>,
    lr: SPlaneLayout,
    x: int,
    y: int,
    dx: int,
    dy: int,
) -> int {
    match f {
        Some(k) => sad_cost(
            k,
            enc,
            sample_at(le, x, y),
            le.iStride as int,
            refp,
            sample_at(lr, x + dx, y + dy),
            lr.iStride as int,
        ),
        None => 0,
    }
}

/// Both blocks of `displaced_sad` lie in their planes.
pub open spec fn displaced_fits(
    f: Option<PSampleSadSatdCostFunc>,
    enc: Seq<u8>,
    le: SPlaneLayout,
    refp: Seq<u8>,
    lr: SPlaneLayout,
    x: int,
    y: int,
    dx: int,
    dy: int,
) -> bool {
    &&& layout_ok(le, x, y)
    &&& layout_ok(lr, x + dx, y + dy)
    &&& match f {
        Some(k) => sad_fits(
            k,
            enc,
            sample_at(le, x, y),
            le.iStride as int,
            refp,
            sample_at(lr, x + dx, y + dy),
            lr.iStride as int,
        ),
        None => true,
    }
}

/// Runs the optional kernel on the displaced blocks (0 without one).
pub fn displaced_sad_of(
    f: Option<PSampleSadSatdCostFunc>,
    enc: &[u8],
    le: SPlaneLayout,
    refp: &[u8],
    lr: SPlaneLayout,
    x: i32,
    y: i32,
    dx: i32,
    dy: i32,
) -> (r: i32)
    requires
        -0x10000 <= dx <= 0x10000,
        -0x10000 <= dy <= 0x10000,
        -0x10000 <= x <= 0x10000,
        -0x10000 <= y <= 0x10000,
        displaced_fits(f, enc@, le, refp@, lr, x as int, y as int, dx as int, dy as int),
    ensures
        r == displaced_sad(f, enc@, le, refp@, lr, x as int, y as int, dx as int, dy as int),
        0 <= r <= 255 * 256,
{
    match f {
        Some(k) => {
            assert(enc@.len() == enc.len() && refp@.len() == refp.len());
            let eo = plane_offset(le, x, y);
            let ro = plane_offset(lr, x + dx, y + dy);
            sample_sad(k, enc, eo, le.iStride, refp, ro, lr.iStride)
        },
        None => 0,
    }
}

/// The directional vector of the search is tried: not for 16x16 blocks, not
/// when zero, and only inside the search window.
pub open spec fn directional_tried(me: SWelsME, min: SMVUnitXY, max: SMVUnitXY) -> bool {
    let mv = me.sDirectionalMv;
    &&& me.uiBlockSize as int != BLOCK_16x16
    &&& (mv.iMvX != 0 || mv.iMvY != 0)
    &&& min.iMvX <= mv.iMvX < max.iMvX && min.iMvY <= mv.iMvY < max.iMvY
}

/// The cost of the directional vector: the SAD of the block it points to
/// plus the rate of its difference to the predictor.
pub open spec fn directional_cost(
    f: Option<PSampleSadSatdCostFunc>,
    me: SWelsME,
    t: MvdCostCursor,
    enc: Seq<u8>,
    le: SPlaneLayout,
    refp: Seq<u8>,
    lr: SPlaneLayout,
) -> int {
    let mv = me.sDirectionalMv;
    displaced_sad(
        f,
        enc,
        le,
        refp,
        lr,
        me.iCurMeBlockPixX as int,
        me.iCurMeBlockPixY as int,
        mv.iMvX as int,
        mv.iMvY as int,
    ) + t.cost(mv.iMvX * 4 - me.sMvp.iMvX) + t.cost(mv.iMvY * 4 - me.sMvp.iMvY)
}

/// Tries the directional (scrolling) vector of the search: when it is tried
/// and its cost undercuts the search's SAD cost, the cost is stored in
/// `iBestSadCost` and the answer is `true`.
pub fn CheckDirectionalMv(
    pSad: Option<PSampleSadSatdCostFunc>,
    pMe: &mut SWelsME,
    ksMinMv: SMVUnitXY,
    ksMaxMv: SMVUnitXY,
    kpMvdCost: &MvdCostCursor,
    pEnc: &[u8],
    sEnc: SPlaneLayout,
    pRef: &[u8],
    sRef: SPlaneLayout,
    iBestSadCost: &mut i32,
) -> (r: bool)
    requires
        directional_tried(*old(pMe), ksMinMv, ksMaxMv) ==> {
            let me = *old(pMe);
            let mv = me.sDirectionalMv;
            &&& -0x10000 <= me.iCurMeBlockPixX <= 0x10000
            &&& -0x10000 <= me.iCurMeBlockPixY <= 0x10000
            &&& displaced_fits(
                pSad,
                pEnc@,
                sEnc,
                pRef@,
                sRef,
                me.iCurMeBlockPixX as int,
                me.iCurMeBlockPixY as int,
                mv.iMvX as int,
                mv.iMvY as int,
            )
            &&& kpMvdCost.covers(mv.iMvX * 4 - me.sMvp.iMvX)
            &&& kpMvdCost.covers(mv.iMvY * 4 - me.sMvp.iMvY)
        },
    ensures
        *final(pMe) == *old(pMe),
        r == (directional_tried(*old(pMe), ksMinMv, ksMaxMv) && directional_cost(
            pSad,
            *old(pMe),
            *kpMvdCost,
            pEnc@,
            sEnc,
            pRef@,
            sRef,
        ) < old(pMe).uiSadCost),
        r ==> *final(iBestSadCost) == directional_cost(pSad, *old(pMe), *kpMvdCost, pEnc@, sEnc, pRef@, sRef),
        !r ==> *final(iBestSadCost) == *old(iBestSadCost),
{
    let kiMvX = pMe.sDirectionalMv.iMvX;
    let kiMvY = pMe.sDirectionalMv.iMvY;
    if (pMe.uiBlockSize as usize != BLOCK_16x16) && (kiMvX != 0 || kiMvY != 0) && CheckMvInRange(
        pMe.sDirectionalMv,
        ksMinMv,
        ksMaxMv,
    ) {
        let kiX = pMe.iCurMeBlockPixX;
        let kiY = pMe.iCurMeBlockPixY;
        let sad = displaced_sad_of(pSad, pEnc, sEnc, pRef, sRef, kiX, kiY, kiMvX as i32, kiMvY as i32);
        let uiCurrentSadCost: u32 = sad as u32 + COST_MVD(
            kpMvdCost,
            (kiMvX as i32 * 4) - pMe.sMvp.iMvX as i32,
            (kiMvY as i32 * 4) - pMe.sMvp.iMvY as i32,
        );
        if uiCurrentSadCost < pMe.uiSadCost {
            *iBestSadCost = uiCurrentSadCost as i32;
            return true;
        }
    }
    false
}


/// The displacement of the line search at position `t` of the line through
/// the block at `cur` (its row for a horizontal, its column for a vertical
/// search).
pub open spec fn line_disp(vertical: bool, t: int, cur: int) -> (int, int) {
    if vertical {
        (0, t - cur)
    } else {
        (t - cur, 0)
    }
}

/// The cost of line position `t`: the SAD there plus the rate of the vector
/// difference, the fixed component's rate `fixed` included.
pub open spec fn line_cost(
    f: Option<PSampleSadSatdCostFunc>,
    me: SWelsME,
    tab: MvdCostCursor,
    enc: Seq<u8>,
    le: SPlaneLayout,
    refp: Seq<u8>,
    lr: SPlaneLayout,
    vertical: bool,
    t: int,
) -> int {
    let x = me.iCurMeBlockPixX as int;
    let y = me.iCurMeBlockPixY as int;
    let cur = if vertical { y } else { x };
    let mvp_moving = if vertical { me.sMvp.iMvY as int } else { me.sMvp.iMvX as int };
    let mvp_fixed = if vertical { me.sMvp.iMvX as int } else { me.sMvp.iMvY as int };
    let (dx, dy) = line_disp(vertical, t, cur);
    displaced_sad(f, enc, le, refp, lr, x, y, dx, dy) + tab.cost(-mvp_fixed) + tab.cost(4 * (t - cur) - mvp_moving)
}

/// The cheapest position of `[lo, hi)` with its cost, the first one on ties;
/// `(u32::MAX, 0)` for an empty line.
pub open spec fn line_best(
    f: Option<PSampleSadSatdCostFunc>,
    me: SWelsME,
    tab: MvdCostCursor,
    enc: Seq<u8>,
    le: SPlaneLayout,
    refp: Seq<u8>,
    lr: SPlaneLayout,
    vertical: bool,
    lo: int,
    hi: int,
) -> (int, int)
    decreases hi - lo,
{
    if hi <= lo {
        (u32::MAX as int, 0)
    } else {
        let (c, p) = line_best(f, me, tab, enc, le, refp, lr, vertical, lo, hi - 1);
        let c2 = line_cost(f, me, tab, enc, le, refp, lr, vertical, hi - 1);
        if c2 < c {
            (c2, hi - 1)
        } else {
            (c, p)
        }
    }
}

/// Line position `t` can be costed: its blocks lie in the planes and its
/// vector difference in the cost table.
pub open spec fn line_pos_ok(
    f: Option<PSampleSadSatdCostFunc>,
    me: SWelsME,
    tab: MvdCostCursor,
    enc: Seq<u8>,
    le: SPlaneLayout,
    refp: Seq<u8>,
    lr: SPlaneLayout,
    vertical: bool,
    t: int,
) -> bool {
    let x = me.iCurMeBlockPixX as int;
    let y = me.iCurMeBlockPixY as int;
    let cur = if vertical { y } else { x };
    let mvp_moving = if vertical { me.sMvp.iMvY as int } else { me.sMvp.iMvX as int };
    &&& tab.covers(4 * (t - cur) - mvp_moving)
    &&& displaced_fits(f, enc, le, refp, lr, x, y, line_disp(vertical, t, cur).0, line_disp(vertical, t, cur).1)
}

/// Every position of the line `[lo, hi)` can be costed.
pub open spec fn line_ok(
    f: Option<PSampleSadSatdCostFunc>,
    me: SWelsME,
    tab: MvdCostCursor,
    enc: Seq<u8>,
    le: SPlaneLayout,
    refp: Seq<u8>,
    lr: SPlaneLayout,
    vertical: bool,
    lo: int,
    hi: int,
) -> bool {
    let mvp_fixed = if vertical { me.sMvp.iMvX as int } else { me.sMvp.iMvY as int };
    &&& -0x10000 <= me.iCurMeBlockPixX <= 0x10000
    &&& -0x10000 <= me.iCurMeBlockPixY <= 0x10000
    &&& tab.covers(-mvp_fixed)
    &&& forall|t: int| lo <= t < hi ==> #[trigger] line_pos_ok(f, me, tab, enc, le, refp, lr, vertical, t)
}

/// The search after a line search over the components `[lo, hi)`: the
/// cheapest position of the line (see `line_best`) with its cost when that
/// undercuts the search's SAD cost, the search unchanged otherwise.
pub open spec fn line_search_result(
    sdf: SSampleDealingFunc,
    me: SWelsME,
    tab: MvdCostCursor,
    enc: Seq<u8>,
    le: SPlaneLayout,
    refp: Seq<u8>,
    lr: SPlaneLayout,
    lo: i16,
    hi: i16,
    vertical: bool,
) -> SWelsME {
    let cur = if vertical { me.iCurMeBlockPixY as int } else { me.iCurMeBlockPixX as int };
    let (c, p) = line_best(
        sdf.pfSampleSad[me.uiBlockSize as int],
        me,
        tab,
        enc,
        le,
        refp,
        lr,
        vertical,
        cur + lo,
        cur + hi,
    );
    let (dx, dy) = line_disp(vertical, p, cur);
    if c < me.uiSadCost {
        SWelsME { sMv: SMVUnitXY { iMvX: dx as i16, iMvY: dy as i16 }, uiSadCost: c as u32, ..me }
    } else {
        me
    }
}

/// The line search of `me` over `[lo, hi)` can cost every position.
pub open spec fn line_search_ok(
    sdf: SSampleDealingFunc,
    me: SWelsME,
    tab: MvdCostCursor,
    enc: Seq<u8>,
    le: SPlaneLayout,
    refp: Seq<u8>,
    lr: SPlaneLayout,
    lo: i16,
    hi: i16,
    vertical: bool,
) -> bool {
    let cur = if vertical { me.iCurMeBlockPixY } else { me.iCurMeBlockPixX };
    &&& me.uiBlockSize < 7
    &&& line_ok(sdf.pfSampleSad[me.uiBlockSize as int], me, tab, enc, le, refp, lr, vertical, cur + lo, cur + hi)
}

/// Whether a line search can cost its positions depends only on where the
/// block is and on its predictor, not on the search's current result.
proof fn lemma_line_search_ok_keeps(
    sdf: SSampleDealingFunc,
    me: SWelsME,
    me2: SWelsME,
    tab: MvdCostCursor,
    enc: Seq<u8>,
    le: SPlaneLayout,
    refp: Seq<u8>,
    lr: SPlaneLayout,
    lo: i16,
    hi: i16,
    vertical: bool,
)
    requires
        line_search_ok(sdf, me, tab, enc, le, refp, lr, lo, hi, vertical),
        me2.uiBlockSize == me.uiBlockSize,
        me2.iCurMeBlockPixX == me.iCurMeBlockPixX,
        me2.iCurMeBlockPixY == me.iCurMeBlockPixY,
        me2.sMvp == me.sMvp,
    ensures
        line_search_ok(sdf, me2, tab, enc, le, refp, lr, lo, hi, vertical),
{
    let f = sdf.pfSampleSad[me.uiBlockSize as int];
    let cur = if vertical { me.iCurMeBlockPixY } else { me.iCurMeBlockPixX };
    assert forall|t: int| cur + lo <= t < cur + hi implies #[trigger] line_pos_ok(f, me2, tab, enc, le, refp, lr, vertical, t) by {
        assert(line_pos_ok(f, me, tab, enc, le, refp, lr, vertical, t));
    }
}

/// Full search along the block's column (vertical) or row over the vector
/// components `[iMinMv, iMaxMv)`: the cheapest position (the first on ties)
/// replaces the search's result when it undercuts its SAD cost.
#[verifier::rlimit(40)]
pub fn LineFullSearch_c(
    sdf: &SSampleDealingFunc,
    pMe: &mut SWelsME,
    pMvdTable: &MvdCostCursor,
    pEnc: &[u8],
    sEnc: SPlaneLayout,
    pRef: &[u8],
    sRef: SPlaneLayout,
    iMinMv: i16,
    iMaxMv: i16,
    bVerticalSearch: bool,
)
    requires
        line_search_ok(*sdf, *old(pMe), *pMvdTable, pEnc@, sEnc, pRef@, sRef, iMinMv, iMaxMv, bVerticalSearch),
    ensures
        *final(pMe) == line_search_result(*sdf, *old(pMe), *pMvdTable, pEnc@, sEnc, pRef@, sRef, iMinMv, iMaxMv, bVerticalSearch),
{
    let pSad = sdf.pfSampleSad[pMe.uiBlockSize as usize];
    let kiX: i32 = pMe.iCurMeBlockPixX;
    let kiY: i32 = pMe.iCurMeBlockPixY;
    let ghost me = *pMe;
    let iCurMeBlockPix: i32 = if bVerticalSearch { kiY } else { kiX };
    let iMinPos: i32 = iCurMeBlockPix + iMinMv as i32;
    let iMaxPos: i32 = iCurMeBlockPix + iMaxMv as i32;
    let kiMvpMoving: i32 = if bVerticalSearch { pMe.sMvp.iMvY as i32 } else { pMe.sMvp.iMvX as i32 };
    let kiMvpFixed: i32 = if bVerticalSearch { pMe.sMvp.iMvX as i32 } else { pMe.sMvp.iMvY as i32 };
    let iFixedMvd: i32 = pMvdTable.at(-kiMvpFixed) as i32;
    let mut uiBestCost: u32 = 0xFFFF_FFFF;
    let mut iBestPos: i32 = 0;
    let mut iTargetPos: i32 = iMinPos;
    while iTargetPos < iMaxPos
        invariant
            *pMe == me,
            pSad == sdf.pfSampleSad[me.uiBlockSize as int],
            kiX == me.iCurMeBlockPixX,
            kiY == me.iCurMeBlockPixY,
            iCurMeBlockPix == (if bVerticalSearch { kiY } else { kiX }),
            iMinPos == iCurMeBlockPix + iMinMv,
            iMaxPos == iCurMeBlockPix + iMaxMv,
            kiMvpMoving == (if bVerticalSearch { me.sMvp.iMvY as int } else { me.sMvp.iMvX as int }),
            kiMvpFixed == (if bVerticalSearch { me.sMvp.iMvX as int } else { me.sMvp.iMvY as int }),
            iFixedMvd == pMvdTable.cost(-kiMvpFixed),
            line_ok(pSad, me, *pMvdTable, pEnc@, sEnc, pRef@, sRef, bVerticalSearch, iMinPos as int, iMaxPos as int),
            iMinPos <= iTargetPos <= iMaxPos || (iMaxPos <= iMinPos && iTargetPos == iMinPos),
            uiBestCost < u32::MAX ==> iMinPos <= iBestPos < iTargetPos,
            (uiBestCost as int, iBestPos as int) == line_best(
                pSad,
                me,
                *pMvdTable,
                pEnc@,
                sEnc,
                pRef@,
                sRef,
                bVerticalSearch,
                iMinPos as int,
                iTargetPos as int,
            ),
        decreases iMaxPos - iTargetPos,
    {
        let d: i32 = iTargetPos - iCurMeBlockPix;
        let (dx, dy): (i32, i32) = if bVerticalSearch { (0, d) } else { (d, 0) };
        assert(line_pos_ok(pSad, me, *pMvdTable, pEnc@, sEnc, pRef@, sRef, bVerticalSearch, iTargetPos as int));
        let sad = displaced_sad_of(pSad, pEnc, sEnc, pRef, sRef, kiX, kiY, dx, dy);
        let uiSadCost: u32 = sad as u32 + (iFixedMvd + pMvdTable.at(4 * d - kiMvpMoving) as i32) as u32;
        assert(uiSadCost == line_cost(pSad, me, *pMvdTable, pEnc@, sEnc, pRef@, sRef, bVerticalSearch, iTargetPos as int));
        if uiSadCost < uiBestCost {
            uiBestCost = uiSadCost;
            iBestPos = iTargetPos;
        }
        iTargetPos = iTargetPos + 1;
    }
    assert(iTargetPos == iMaxPos || iMaxPos <= iMinPos);
    if uiBestCost < pMe.uiSadCost {
        let m: i32 = iBestPos - iCurMeBlockPix;
        let sBestMv = if bVerticalSearch {
            SMVUnitXY { iMvX: 0, iMvY: m as i16 }
        } else {
            SMVUnitXY { iMvX: m as i16, iMvY: 0 }
        };
        UpdateMeResults(sBestMv, uiBestCost, pMe);
    }
}


/// The kernel the diamond search uses: the four-neighbour kernel of the block
/// size, else its single kernel.
pub open spec fn diamond_kernel(sdf: SSampleDealingFunc, bs: int) -> Option<PSampleSadSatdCostFunc> {
    match sdf.pfSample4Sad[bs] {
        Some(k) => Some(k),
        None => sdf.pfSampleSad[bs],
    }
}

/// The SADs of the four diamond neighbours (above, below, left, right) of
/// the whole-sample vector `(mx, my)`; `prev` without a kernel.
pub open spec fn diamond_sads(
    f: Option<PSampleSadSatdCostFunc>,
    me: SWelsME,
    enc: Seq<u8>,
    le: SPlaneLayout,
    refp: Seq<u8>,
    lr: SPlaneLayout,
    mx: int,
    my: int,
    prev: Seq<i32>,
) -> Seq<i32> {
    let x = me.iCurMeBlockPixX as int;
    let y = me.iCurMeBlockPixY as int;
    match f {
        Some(_) => seq![
            displaced_sad(f, enc, le, refp, lr, x, y, mx, my - 1) as i32,
            displaced_sad(f, enc, le, refp, lr, x, y, mx, my + 1) as i32,
            displaced_sad(f, enc, le, refp, lr, x, y, mx - 1, my) as i32,
            displaced_sad(f, enc, le, refp, lr, x, y, mx + 1, my) as i32,
        ],
        None => prev,
    }
}

/// The vector lies in the search window.
pub open spec fn in_window(min: SMVUnitXY, max: SMVUnitXY, mx: int, my: int) -> bool {
    min.iMvX <= mx < max.iMvX && min.iMvY <= my < max.iMvY
}

/// The diamond walk from the whole-sample vector `(mx, my)` with best cost
/// `best`, `n` steps left: outside the window a step is spent in place;
/// inside, the four neighbours are costed and the walk moves to the one
/// picked, or stops when none undercuts the best. The final vector and cost.
pub open spec fn diamond_walk(
    f: Option<PSampleSadSatdCostFunc>,
    me: SWelsME,
    t: MvdCostCursor,
    enc: Seq<u8>,
    le: SPlaneLayout,
    refp: Seq<u8>,
    lr: SPlaneLayout,
    min: SMVUnitXY,
    max: SMVUnitXY,
    mx: int,
    my: int,
    best: int,
    sads: Seq<i32>,
    n: nat,
) -> (int, int, int)
    decreases n,
{
    if n == 0 {
        (mx, my, best)
    } else if !in_window(min, max, mx, my) {
        diamond_walk(f, me, t, enc, le, refp, lr, min, max, mx, my, best, sads, (n - 1) as nat)
    } else {
        let s2 = diamond_sads(f, me, enc, le, refp, lr, mx, my, sads);
        let (b2, k) = diamond_pick(s2, t, 4 * mx - me.sMvp.iMvX, 4 * my - me.sMvp.iMvY, best);
        if k < 0 {
            (mx, my, best)
        } else {
            diamond_walk(
                f,
                me,
                t,
                enc,
                le,
                refp,
                lr,
                min,
                max,
                mx - diamond_step(k).0,
                my - diamond_step(k).1,
                b2,
                s2,
                (n - 1) as nat,
            )
        }
    }
}

/// The diamond at `(mx, my)` can be costed: the four neighbouring blocks lie
/// in the planes and the vector differences around it in the cost table.
pub open spec fn diamond_pos_ok(
    f: Option<PSampleSadSatdCostFunc>,
    me: SWelsME,
    t: MvdCostCursor,
    enc: Seq<u8>,
    le: SPlaneLayout,
    refp: Seq<u8>,
    lr: SPlaneLayout,
    mx: int,
    my: int,
) -> bool {
    let x = me.iCurMeBlockPixX as int;
    let y = me.iCurMeBlockPixY as int;
    let dx = 4 * mx - me.sMvp.iMvX;
    let dy = 4 * my - me.sMvp.iMvY;
    &&& t.covers(dx) && t.covers(dx - 4) && t.covers(dx + 4)
    &&& t.covers(dy) && t.covers(dy - 4) && t.covers(dy + 4)
    &&& displaced_fits(f, enc, le, refp, lr, x, y, mx, my - 1)
    &&& displaced_fits(f, enc, le, refp, lr, x, y, mx, my + 1)
    &&& displaced_fits(f, enc, le, refp, lr, x, y, mx - 1, my)
    &&& displaced_fits(f, enc, le, refp, lr, x, y, mx + 1, my)
}

/// The diamond search can cost every diamond of its window.
pub open spec fn diamond_search_ok(
    sdf: SSampleDealingFunc,
    me: SWelsME,
    min: SMVUnitXY,
    max: SMVUnitXY,
    tab: MvdCostCursor,
    enc: Seq<u8>,
    le: SPlaneLayout,
    refp: Seq<u8>,
    lr: SPlaneLayout,
) -> bool {
    &&& me.uiBlockSize < 7
    &&& -0x1000 <= me.iCurMeBlockPixX <= 0x1000
    &&& -0x1000 <= me.iCurMeBlockPixY <= 0x1000
    &&& min.iMvX > i16::MIN
    &&& min.iMvY > i16::MIN
    &&& forall|mx: int, my: int|
        in_window(min, max, mx, my) ==> #[trigger] diamond_pos_ok(
            diamond_kernel(sdf, me.uiBlockSize as int),
            me,
            tab,
            enc,
            le,
            refp,
            lr,
            mx,
            my,
        )
}

/// The search after the diamond search: the walk's vector and cost (see
/// `diamond_walk`), the SATD cost being the SAD cost.
pub open spec fn diamond_search_result(
    sdf: SSampleDealingFunc,
    me: SWelsME,
    min: SMVUnitXY,
    max: SMVUnitXY,
    tab: MvdCostCursor,
    enc: Seq<u8>,
    le: SPlaneLayout,
    refp: Seq<u8>,
    lr: SPlaneLayout,
) -> SWelsME {
    let (mx, my, best) = diamond_walk(
        diamond_kernel(sdf, me.uiBlockSize as int),
        me,
        tab,
        enc,
        le,
        refp,
        lr,
        min,
        max,
        me.sMv.iMvX as int,
        me.sMv.iMvY as int,
        me.uiSadCost as i32 as int,
        seq![0i32, 0i32, 0i32, 0i32],
        ITERATIVE_TIMES as nat,
    );
    SWelsME {
        sMv: SMVUnitXY { iMvX: mx as i16, iMvY: my as i16 },
        uiSadCost: best as u32,
        uiSatdCost: best as u32,
        ..me
    }
}

/// The diamond search of whole-sample motion: from the search's vector, at
/// most `ITERATIVE_TIMES` steps of `diamond_walk` within the slice's start
/// window; the search ends at the walk's vector and cost (its SATD cost
/// being the SAD cost).
#[verifier::rlimit(60)]
pub fn WelsDiamondSearch(
    sdf: &SSampleDealingFunc,
    pMe: &mut SWelsME,
    ksMvStartMin: SMVUnitXY,
    ksMvStartMax: SMVUnitXY,
    kpMvdCost: &MvdCostCursor,
    pEnc: &[u8],
    sEnc: SPlaneLayout,
    pRef: &[u8],
    sRef: SPlaneLayout,
)
    requires
        diamond_search_ok(*sdf, *old(pMe), ksMvStartMin, ksMvStartMax, *kpMvdCost, pEnc@, sEnc, pRef@, sRef),
    ensures
        *final(pMe) == diamond_search_result(*sdf, *old(pMe), ksMvStartMin, ksMvStartMax, *kpMvdCost, pEnc@, sEnc, pRef@, sRef),
        final(pMe).uiSatdCost == final(pMe).uiSadCost,
        old(pMe).uiSadCost <= i32::MAX ==> final(pMe).uiSadCost <= old(pMe).uiSadCost,
        crate::svc_set_mb_syn_cavlc::abs_int(final(pMe).sMv.iMvX - old(pMe).sMv.iMvX)
            + crate::svc_set_mb_syn_cavlc::abs_int(final(pMe).sMv.iMvY - old(pMe).sMv.iMvY) <= ITERATIVE_TIMES,
{
    let bs = pMe.uiBlockSize as usize;
    let pSad: Option<PSampleSadSatdCostFunc> = match sdf.pfSample4Sad[bs] {
        Some(k) => Some(k),
        None => sdf.pfSampleSad[bs],
    };
    let ghost me = *pMe;
    let ghost f = diamond_kernel(*sdf, me.uiBlockSize as int);
    let kiX: i32 = pMe.iCurMeBlockPixX;
    let kiY: i32 = pMe.iCurMeBlockPixY;
    let kiMvpX: i32 = pMe.sMvp.iMvX as i32;
    let kiMvpY: i32 = pMe.sMvp.iMvY as i32;
    let mut iMvDx: i32 = (pMe.sMv.iMvX as i32 * 4) - kiMvpX;
    let mut iMvDy: i32 = (pMe.sMv.iMvY as i32 * 4) - kiMvpY;
    let mut iBestCost: i32 = pMe.uiSadCost as i32;
    let mut iTimeThreshold: i32 = ITERATIVE_TIMES;
    let mut iSadCosts: [i32; 4] = [0i32; 4];
    let ghost mut mx: int = me.sMv.iMvX as int;
    let ghost mut my: int = me.sMv.iMvY as int;
    proof {
        assert(iSadCosts@ =~= seq![0i32, 0i32, 0i32, 0i32]);
        crate::bits::lemma_i32_shifts();
    }
    let ghost goal = diamond_walk(
        f,
        me,
        *kpMvdCost,
        pEnc@,
        sEnc,
        pRef@,
        sRef,
        ksMvStartMin,
        ksMvStartMax,
        mx,
        my,
        iBestCost as int,
        iSadCosts@,
        ITERATIVE_TIMES as nat,
    );
    while iTimeThreshold > 0
        invariant_except_break
            0 <= iTimeThreshold <= ITERATIVE_TIMES,
            goal == diamond_walk(
                f,
                me,
                *kpMvdCost,
                pEnc@,
                sEnc,
                pRef@,
                sRef,
                ksMvStartMin,
                ksMvStartMax,
                mx,
                my,
                iBestCost as int,
                iSadCosts@,
                iTimeThreshold as nat,
            ),
        invariant
            *pMe == me,
            pSad == f,
            f == diamond_kernel(*sdf, me.uiBlockSize as int),
            kiX == me.iCurMeBlockPixX,
            kiY == me.iCurMeBlockPixY,
            -0x1000 <= kiX <= 0x1000,
            -0x1000 <= kiY <= 0x1000,
            kiMvpX == me.sMvp.iMvX,
            kiMvpY == me.sMvp.iMvY,
            ksMvStartMin.iMvX > i16::MIN,
            ksMvStartMin.iMvY > i16::MIN,
            iMvDx == 4 * mx - kiMvpX,
            iMvDy == 4 * my - kiMvpY,
            i16::MIN <= mx <= i16::MAX,
            i16::MIN <= my <= i16::MAX,
            forall|k: int| 0 <= k < 4 ==> 0 <= #[trigger] iSadCosts[k] <= 255 * 256,
            forall|a: int, b: int|
                in_window(ksMvStartMin, ksMvStartMax, a, b) ==> #[trigger] diamond_pos_ok(
                    f,
                    me,
                    *kpMvdCost,
                    pEnc@,
                    sEnc,
                    pRef@,
                    sRef,
                    a,
                    b,
                ),
        ensures
            goal == (mx, my, iBestCost as int),
            iMvDx == 4 * mx - kiMvpX,
            iMvDy == 4 * my - kiMvpY,
            i16::MIN <= mx <= i16::MAX,
            i16::MIN <= my <= i16::MAX,
        decreases iTimeThreshold,
    {
        iTimeThreshold = iTimeThreshold - 1;
        let sx: i32 = iMvDx + kiMvpX;
        let sy: i32 = iMvDy + kiMvpY;
        proof {
            crate::bits::lemma_i32_shifts();
        }
        assert(sx >> 2u32 == sx / 4 && sy >> 2u32 == sy / 4);
        assert(sx / 4 == mx && sy / 4 == my);
        let cx: i16 = (sx >> 2u32) as i16;
        let cy: i16 = (sy >> 2u32) as i16;
        if !CheckMvInRange(SMVUnitXY { iMvX: cx, iMvY: cy }, ksMvStartMin, ksMvStartMax) {
            continue;
        }
        assert(diamond_pos_ok(f, me, *kpMvdCost, pEnc@, sEnc, pRef@, sRef, mx, my));
        let ghost prev = iSadCosts@;
        match pSad {
            Some(_) => {
                iSadCosts[0] = displaced_sad_of(pSad, pEnc, sEnc, pRef, sRef, kiX, kiY, cx as i32, cy as i32 - 1);
                iSadCosts[1] = displaced_sad_of(pSad, pEnc, sEnc, pRef, sRef, kiX, kiY, cx as i32, cy as i32 + 1);
                iSadCosts[2] = displaced_sad_of(pSad, pEnc, sEnc, pRef, sRef, kiX, kiY, cx as i32 - 1, cy as i32);
                iSadCosts[3] = displaced_sad_of(pSad, pEnc, sEnc, pRef, sRef, kiX, kiY, cx as i32 + 1, cy as i32);
            },
            None => {},
        }
        assert(iSadCosts@ =~= diamond_sads(f, me, pEnc@, sEnc, pRef@, sRef, mx, my, prev));
        let mut iX: i32 = 0;
        let mut iY: i32 = 0;
        let ghost b0 = iBestCost as int;
        let kbIsBestCostWorse = WelsMeSadCostSelect(
            &iSadCosts,
            kpMvdCost,
            &mut iBestCost,
            iMvDx,
            iMvDy,
            &mut iX,
            &mut iY,
        );
        if kbIsBestCostWorse {
            break;
        }
        iMvDx = iMvDx - iX * 4;
        iMvDy = iMvDy - iY * 4;
        proof {
            mx = mx - iX;
            my = my - iY;
        }
    }
    let sx: i32 = iMvDx + kiMvpX;
    let sy: i32 = iMvDy + kiMvpY;
    assert(sx >> 2u32 == sx / 4 && sy >> 2u32 == sy / 4);
    assert(sx / 4 == mx && sy / 4 == my);
    pMe.sMv.iMvX = (sx >> 2u32) as i16;
    pMe.sMv.iMvY = (sy >> 2u32) as i16;
    pMe.uiSadCost = iBestCost as u32;
    pMe.uiSatdCost = pMe.uiSadCost;
    proof {
        let start = me.uiSadCost as i32 as int;
        let z = seq![0i32, 0i32, 0i32, 0i32];
        law_diamond_walk_stays_within_its_iterations(f, me, *kpMvdCost, pEnc@, sEnc, pRef@, sRef, ksMvStartMin,
            ksMvStartMax, me.sMv.iMvX as int, me.sMv.iMvY as int, start, z, ITERATIVE_TIMES as nat);
        law_diamond_walk_never_worsens(f, me, *kpMvdCost, pEnc@, sEnc, pRef@, sRef, ksMvStartMin,
            ksMvStartMax, me.sMv.iMvX as int, me.sMv.iMvY as int, start, z, ITERATIVE_TIMES as nat);
        if me.uiSadCost <= i32::MAX {
            law_diamond_walk_keeps_a_nonnegative_cost(f, me, *kpMvdCost, pEnc@, sEnc, pRef@, sRef, ksMvStartMin,
                ksMvStartMax, me.sMv.iMvX as int, me.sMv.iMvY as int, start, z, ITERATIVE_TIMES as nat);
        }
    }
}


/// A good-frame count in `[0, FMESWITCH_GOODFRAMECOUNT_MAX]` stays there,
/// whatever the frame saved.
pub proof fn law_good_frame_count_stays_in_range(saving: int, count: int)
    requires
        0 <= count <= FMESWITCH_GOODFRAMECOUNT_MAX,
    ensures
        0 <= next_good_frame_count(saving, count) <= FMESWITCH_GOODFRAMECOUNT_MAX,
{
}

/// The SAD of two `w`-sample rows is at most `255 w`.
proof fn lemma_row_sad_bound(a: Seq<u8>, ao: int, b: Seq<u8>, bo: int, w: int)
    requires
        0 <= w,
    ensures
        0 <= row_sad(a, ao, b, bo, w) <= 255 * w,
    decreases w,
{
    if w > 0 {
        lemma_row_sad_bound(a, ao, b, bo, w - 1);
    }
}

/// The SAD of two `w x h` blocks is at most `255 w h`.
pub proof fn lemma_block_sad_bound(a: Seq<u8>, ao: int, sa: int, b: Seq<u8>, bo: int, sb: int, w: int, h: int)
    requires
        0 <= w,
        0 <= h,
    ensures
        0 <= block_sad(a, ao, sa, b, bo, sb, w, h) <= 255 * w * h,
    decreases h,
{
    if h > 0 {
        lemma_block_sad_bound(a, ao, sa, b, bo, sb, w, h - 1);
        lemma_row_sad_bound(a, ao + (h - 1) * sa, b, bo + (h - 1) * sb, w);
        assert(255 * w * (h - 1) + 255 * w == 255 * w * h) by (nonlinear_arith);
    }
}

/// Every position of a line costs less than the initial `u32::MAX`.
proof fn lemma_line_cost_bound(
    f: Option<PSampleSadSatdCostFunc>,
    me: SWelsME,
    tab: MvdCostCursor,
    enc: Seq<u8>,
    le: SPlaneLayout,
    refp: Seq<u8>,
    lr: SPlaneLayout,
    vertical: bool,
    t: int,
)
    ensures
        0 <= line_cost(f, me, tab, enc, le, refp, lr, vertical, t) < u32::MAX,
{
    let x = me.iCurMeBlockPixX as int;
    let y = me.iCurMeBlockPixY as int;
    let cur = if vertical { y } else { x };
    let (dx, dy) = line_disp(vertical, t, cur);
    match f {
        Some(k) => {
            lemma_block_sad_bound(
                enc,
                sample_at(le, x, y),
                le.iStride as int,
                refp,
                sample_at(lr, x + dx, y + dy),
                lr.iStride as int,
                sad_dims(k).0,
                sad_dims(k).1,
            );
            assert(255 * sad_dims(k).0 * sad_dims(k).1 <= 255 * 256) by (nonlinear_arith)
                requires
                    sad_dims(k).0 <= 16,
                    sad_dims(k).1 <= 16,
                    0 <= sad_dims(k).0,
                    0 <= sad_dims(k).1,
            ;
        },
        None => {},
    }
}

/// The line search picks a cheapest position of a non-empty line, the first
/// one of them: the position lies on the line, its cost is the cost found,
/// and no position costs less.
pub proof fn law_line_search_picks_the_cheapest(
    f: Option<PSampleSadSatdCostFunc>,
    me: SWelsME,
    tab: MvdCostCursor,
    enc: Seq<u8>,
    le: SPlaneLayout,
    refp: Seq<u8>,
    lr: SPlaneLayout,
    vertical: bool,
    lo: int,
    hi: int,
)
    requires
        lo < hi,
    ensures
        ({
            let (c, p) = line_best(f, me, tab, enc, le, refp, lr, vertical, lo, hi);
            &&& lo <= p < hi
            &&& c == line_cost(f, me, tab, enc, le, refp, lr, vertical, p)
            &&& forall|t: int| lo <= t < hi ==> c <= #[trigger] line_cost(f, me, tab, enc, le, refp, lr, vertical, t)
            &&& forall|t: int| lo <= t < p ==> c < #[trigger] line_cost(f, me, tab, enc, le, refp, lr, vertical, t)
        }),
    decreases hi - lo,
{
    lemma_line_cost_bound(f, me, tab, enc, le, refp, lr, vertical, hi - 1);
    let (c0, p0) = line_best(f, me, tab, enc, le, refp, lr, vertical, lo, hi - 1);
    let c2 = line_cost(f, me, tab, enc, le, refp, lr, vertical, hi - 1);
    assert(line_best(f, me, tab, enc, le, refp, lr, vertical, lo, hi) == if c2 < c0 {
        (c2, hi - 1)
    } else {
        (c0, p0)
    });
    if hi - 1 > lo {
        law_line_search_picks_the_cheapest(f, me, tab, enc, le, refp, lr, vertical, lo, hi - 1);
    } else {
        assert(c0 == u32::MAX);
    }
}

/// The diamond walk moves one whole sample per iteration at most: after `n`
/// iterations its vector lies within `n` samples (in city-block distance)
/// of where it started.
pub proof fn law_diamond_walk_stays_within_its_iterations(
    f: Option<PSampleSadSatdCostFunc>,
    me: SWelsME,
    t: MvdCostCursor,
    enc: Seq<u8>,
    le: SPlaneLayout,
    refp: Seq<u8>,
    lr: SPlaneLayout,
    min: SMVUnitXY,
    max: SMVUnitXY,
    mx: int,
    my: int,
    best: int,
    sads: Seq<i32>,
    n: nat,
)
    ensures
        ({
            let (x, y, _) = diamond_walk(f, me, t, enc, le, refp, lr, min, max, mx, my, best, sads, n);
            crate::svc_set_mb_syn_cavlc::abs_int(x - mx) + crate::svc_set_mb_syn_cavlc::abs_int(y - my) <= n
        }),
    decreases n,
{
    if n > 0 {
        if !in_window(min, max, mx, my) {
            law_diamond_walk_stays_within_its_iterations(f, me, t, enc, le, refp, lr, min, max, mx, my, best, sads, (n - 1) as nat);
        } else {
            let s2 = diamond_sads(f, me, enc, le, refp, lr, mx, my, sads);
            let (b2, k) = diamond_pick(s2, t, 4 * mx - me.sMvp.iMvX, 4 * my - me.sMvp.iMvY, best);
            if k >= 0 {
                law_diamond_walk_stays_within_its_iterations(
                    f,
                    me,
                    t,
                    enc,
                    le,
                    refp,
                    lr,
                    min,
                    max,
                    mx - diamond_step(k).0,
                    my - diamond_step(k).1,
                    b2,
                    s2,
                    (n - 1) as nat,
                );
            }
        }
    }
}

/// The SAD of a displaced block lies in `[0, 255 * 256]`.
proof fn lemma_displaced_sad_bound(
    f: Option<PSampleSadSatdCostFunc>,
    enc: Seq<u8>,
    le: SPlaneLayout,
    refp: Seq<u8>,
    lr: SPlaneLayout,
    x: int,
    y: int,
    dx: int,
    dy: int,
)
    ensures
        0 <= displaced_sad(f, enc, le, refp, lr, x, y, dx, dy) <= 255 * 256,
{
    match f {
        Some(k) => {
            lemma_block_sad_bound(
                enc,
                sample_at(le, x, y),
                le.iStride as int,
                refp,
                sample_at(lr, x + dx, y + dy),
                lr.iStride as int,
                sad_dims(k).0,
                sad_dims(k).1,
            );
            assert(255 * sad_dims(k).0 * sad_dims(k).1 <= 255 * 256) by (nonlinear_arith)
                requires
                    sad_dims(k).0 <= 16,
                    sad_dims(k).1 <= 16,
                    0 <= sad_dims(k).0,
                    0 <= sad_dims(k).1,
            ;
        },
        None => {},
    }
}

/// A diamond walk that starts from a cost that is not negative, with SADs
/// that are not negative, ends at a cost that is not negative.
pub proof fn law_diamond_walk_keeps_a_nonnegative_cost(
    f: Option<PSampleSadSatdCostFunc>,
    me: SWelsME,
    t: MvdCostCursor,
    enc: Seq<u8>,
    le: SPlaneLayout,
    refp: Seq<u8>,
    lr: SPlaneLayout,
    min: SMVUnitXY,
    max: SMVUnitXY,
    mx: int,
    my: int,
    best: int,
    sads: Seq<i32>,
    n: nat,
)
    requires
        0 <= best,
        sads.len() == 4,
        forall|k: int| 0 <= k < 4 ==> 0 <= #[trigger] sads[k],
    ensures
        0 <= diamond_walk(f, me, t, enc, le, refp, lr, min, max, mx, my, best, sads, n).2,
    decreases n,
{
    if n > 0 {
        if !in_window(min, max, mx, my) {
            law_diamond_walk_keeps_a_nonnegative_cost(f, me, t, enc, le, refp, lr, min, max, mx, my, best, sads, (n - 1) as nat);
        } else {
            let x = me.iCurMeBlockPixX as int;
            let y = me.iCurMeBlockPixY as int;
            lemma_displaced_sad_bound(f, enc, le, refp, lr, x, y, mx, my - 1);
            lemma_displaced_sad_bound(f, enc, le, refp, lr, x, y, mx, my + 1);
            lemma_displaced_sad_bound(f, enc, le, refp, lr, x, y, mx - 1, my);
            lemma_displaced_sad_bound(f, enc, le, refp, lr, x, y, mx + 1, my);
            let s2 = diamond_sads(f, me, enc, le, refp, lr, mx, my, sads);
            assert(s2.len() == 4);
            assert(forall|k: int| 0 <= k < 4 ==> 0 <= #[trigger] s2[k]);
            let (b2, k) = diamond_pick(s2, t, 4 * mx - me.sMvp.iMvX, 4 * my - me.sMvp.iMvY, best);
            assert(0 <= b2);
            if k >= 0 {
                law_diamond_walk_keeps_a_nonnegative_cost(
                    f,
                    me,
                    t,
                    enc,
                    le,
                    refp,
                    lr,
                    min,
                    max,
                    mx - diamond_step(k).0,
                    my - diamond_step(k).1,
                    b2,
                    s2,
                    (n - 1) as nat,
                );
            }
        }
    }
}

/// The diamond walk never makes the search worse: its final cost is at most
/// the cost it started from.
pub proof fn law_diamond_walk_never_worsens(
    f: Option<PSampleSadSatdCostFunc>,
    me: SWelsME,
    t: MvdCostCursor,
    enc: Seq<u8>,
    le: SPlaneLayout,
    refp: Seq<u8>,
    lr: SPlaneLayout,
    min: SMVUnitXY,
    max: SMVUnitXY,
    mx: int,
    my: int,
    best: int,
    sads: Seq<i32>,
    n: nat,
)
    ensures
        diamond_walk(f, me, t, enc, le, refp, lr, min, max, mx, my, best, sads, n).2 <= best,
    decreases n,
{
    if n > 0 {
        if !in_window(min, max, mx, my) {
            law_diamond_walk_never_worsens(f, me, t, enc, le, refp, lr, min, max, mx, my, best, sads, (n - 1) as nat);
        } else {
            let s2 = diamond_sads(f, me, enc, le, refp, lr, mx, my, sads);
            let (b2, k) = diamond_pick(s2, t, 4 * mx - me.sMvp.iMvX, 4 * my - me.sMvp.iMvY, best);
            if k >= 0 {
                law_diamond_walk_never_worsens(
                    f,
                    me,
                    t,
                    enc,
                    le,
                    refp,
                    lr,
                    min,
                    max,
                    mx - diamond_step(k).0,
                    my - diamond_step(k).1,
                    b2,
                    s2,
                    (n - 1) as nat,
                );
            }
        }
    }
}


/// The whole-line searches a motion search can use.
#[derive(Clone, Copy, Debug, PartialEq, Eq, Structural)]
pub enum PLineFullSearchFunc {
    LineFullSearch_c,
}

/// The directional-vector checks a motion search can use.
#[derive(Clone, Copy, Debug, PartialEq, Eq, Structural)]
pub enum PCheckDirectionalMv {
    CheckDirectionalMv,
    CheckDirectionalMvFalse,
}

/// The single-block feature kernels: the sum of an 8x8 or a 16x16 block.
#[derive(Clone, Copy, Debug, PartialEq, Eq, Structural)]
pub enum PCalculateSingleBlockFeature {
    sum_of_8x8_single_block,
    sum_of_16x16_single_block,
}

/// The search functions of a layer's motion estimation.
#[derive(Clone, Copy, Debug)]
pub struct SMeFuncs {
    pub pfCheckDirectionalMv: Option<PCheckDirectionalMv>,
    pub pfVerticalFullSearch: Option<PLineFullSearchFunc>,
    pub pfHorizontalFullSearch: Option<PLineFullSearchFunc>,
    pub pfCalculateSingleBlockFeature: [Option<PCalculateSingleBlockFeature>; 2],
}

/// The search after the cross search: a vertical line search over the
/// window's rows, then, while the cost is still at or above the threshold, a
/// horizontal one over its columns (each when the layer has it).
pub open spec fn cross_search_result(
    funcs: SMeFuncs,
    sdf: SSampleDealingFunc,
    me: SWelsME,
    tab: MvdCostCursor,
    enc: Seq<u8>,
    le: SPlaneLayout,
    refp: Seq<u8>,
    lr: SPlaneLayout,
    min: SMVUnitXY,
    max: SMVUnitXY,
) -> SWelsME {
    let me1 = if funcs.pfVerticalFullSearch is Some {
        line_search_result(sdf, me, tab, enc, le, refp, lr, min.iMvY, max.iMvY, true)
    } else {
        me
    };
    if me1.uiSadCost >= me1.uiSadCostThreshold && funcs.pfHorizontalFullSearch is Some {
        line_search_result(sdf, me1, tab, enc, le, refp, lr, min.iMvX, max.iMvX, false)
    } else {
        me1
    }
}

/// The cross search of a block: see `cross_search_result`.
pub fn WelsMotionCrossSearch(
    pMeFuncs: &SMeFuncs,
    sdf: &SSampleDealingFunc,
    pMe: &mut SWelsME,
    ksMvStartMin: SMVUnitXY,
    ksMvStartMax: SMVUnitXY,
    kpMvdCost: &MvdCostCursor,
    pEnc: &[u8],
    sEnc: SPlaneLayout,
    pRef: &[u8],
    sRef: SPlaneLayout,
)
    requires
        line_search_ok(*sdf, *old(pMe), *kpMvdCost, pEnc@, sEnc, pRef@, sRef, ksMvStartMin.iMvY, ksMvStartMax.iMvY, true),
        line_search_ok(*sdf, *old(pMe), *kpMvdCost, pEnc@, sEnc, pRef@, sRef, ksMvStartMin.iMvX, ksMvStartMax.iMvX, false),
    ensures
        *final(pMe) == cross_search_result(*pMeFuncs, *sdf, *old(pMe), *kpMvdCost, pEnc@, sEnc, pRef@, sRef, ksMvStartMin, ksMvStartMax),
{
    let ghost me0 = *pMe;
    match pMeFuncs.pfVerticalFullSearch {
        Some(PLineFullSearchFunc::LineFullSearch_c) => {
            LineFullSearch_c(sdf, pMe, kpMvdCost, pEnc, sEnc, pRef, sRef, ksMvStartMin.iMvY, ksMvStartMax.iMvY, true);
        },
        None => {},
    }
    proof {
        lemma_line_search_ok_keeps(*sdf, me0, *pMe, *kpMvdCost, pEnc@, sEnc, pRef@, sRef, ksMvStartMin.iMvX, ksMvStartMax.iMvX, false);
    }
    if pMe.uiSadCost >= pMe.uiSadCostThreshold {
        match pMeFuncs.pfHorizontalFullSearch {
            Some(PLineFullSearchFunc::LineFullSearch_c) => {
                LineFullSearch_c(sdf, pMe, kpMvdCost, pEnc, sEnc, pRef, sRef, ksMvStartMin.iMvX, ksMvStartMax.iMvX, false);
            },
            None => {},
        }
    }
}


/// The search after the diamond-cross search: the diamond search, the
/// threshold of the reference's feature storage (when it has one) for the
/// block size, and the cross search while the cost is at or above it.
pub open spec fn diamond_cross_result(
    funcs: SMeFuncs,
    sdf: SSampleDealingFunc,
    me: SWelsME,
    min: SMVUnitXY,
    max: SMVUnitXY,
    tab: MvdCostCursor,
    enc: Seq<u8>,
    le: SPlaneLayout,
    refp: Seq<u8>,
    lr: SPlaneLayout,
    thresholds: Option<[u32; 7]>,
) -> SWelsME {
    let me1 = diamond_search_result(sdf, me, min, max, tab, enc, le, refp, lr);
    let me2 = match thresholds {
        Some(t) => SWelsME { uiSadCostThreshold: t[me.uiBlockSize as int], ..me1 },
        None => me1,
    };
    if me2.uiSadCost >= me2.uiSadCostThreshold {
        cross_search_result(funcs, sdf, me2, tab, enc, le, refp, lr, min, max)
    } else {
        me2
    }
}

/// The diamond search, followed by the cross search when the block stays
/// expensive: see `diamond_cross_result`.
pub fn WelsDiamondCrossSearch(
    pMeFuncs: &SMeFuncs,
    sdf: &SSampleDealingFunc,
    pMe: &mut SWelsME,
    ksMvStartMin: SMVUnitXY,
    ksMvStartMax: SMVUnitXY,
    kpMvdCost: &MvdCostCursor,
    pEnc: &[u8],
    sEnc: SPlaneLayout,
    pRef: &[u8],
    sRef: SPlaneLayout,
    pRefSadCostThreshold: Option<&[u32; 7]>,
)
    requires
        diamond_search_ok(*sdf, *old(pMe), ksMvStartMin, ksMvStartMax, *kpMvdCost, pEnc@, sEnc, pRef@, sRef),
        line_search_ok(*sdf, *old(pMe), *kpMvdCost, pEnc@, sEnc, pRef@, sRef, ksMvStartMin.iMvY, ksMvStartMax.iMvY, true),
        line_search_ok(*sdf, *old(pMe), *kpMvdCost, pEnc@, sEnc, pRef@, sRef, ksMvStartMin.iMvX, ksMvStartMax.iMvX, false),
    ensures
        *final(pMe) == diamond_cross_result(
            *pMeFuncs,
            *sdf,
            *old(pMe),
            ksMvStartMin,
            ksMvStartMax,
            *kpMvdCost,
            pEnc@,
            sEnc,
            pRef@,
            sRef,
            match pRefSadCostThreshold {
                Some(t) => Some(*t),
                None => None,
            },
        ),
{
    let ghost me0 = *pMe;
    WelsDiamondSearch(sdf, pMe, ksMvStartMin, ksMvStartMax, kpMvdCost, pEnc, sEnc, pRef, sRef);
    match pRefSadCostThreshold {
        Some(t) => {
            pMe.uiSadCostThreshold = t[pMe.uiBlockSize as usize];
        },
        None => {},
    }
    proof {
        lemma_line_search_ok_keeps(*sdf, me0, *pMe, *kpMvdCost, pEnc@, sEnc, pRef@, sRef, ksMvStartMin.iMvY, ksMvStartMax.iMvY, true);
        lemma_line_search_ok_keeps(*sdf, me0, *pMe, *kpMvdCost, pEnc@, sEnc, pRef@, sRef, ksMvStartMin.iMvX, ksMvStartMax.iMvX, false);
    }
    if pMe.uiSadCost >= pMe.uiSadCostThreshold {
        WelsMotionCrossSearch(pMeFuncs, sdf, pMe, ksMvStartMin, ksMvStartMax, kpMvdCost, pEnc, sEnc, pRef, sRef);
    }
}


/// A quarter-sample predictor component as a whole-sample start: rounded
/// to the nearest sample (halves up), then clamped to `[lo, hi]`.
pub open spec fn start_component(q: int, lo: int, hi: int) -> int {
    let c = (2 + q) / 4;
    if c < lo {
        lo
    } else if c > hi {
        hi
    } else {
        c
    }
}

/// The whole-sample start of a quarter-sample vector in a window.
pub open spec fn start_mv(q: SMVUnitXY, min: SMVUnitXY, max: SMVUnitXY) -> SMVUnitXY {
    SMVUnitXY {
        iMvX: start_component(q.iMvX as int, min.iMvX as int, max.iMvX as int) as i16,
        iMvY: start_component(q.iMvY as int, min.iMvY as int, max.iMvY as int) as i16,
    }
}

/// The cost of starting the search at whole-sample vector `mv`: the SAD
/// there plus the rate of its difference to the predictor.
pub open spec fn start_cost(
    f: Option<PSampleSadSatdCostFunc>,
    me: SWelsME,
    tab: MvdCostCursor,
    enc: Seq<u8>,
    le: SPlaneLayout,
    refp: Seq<u8>,
    lr: SPlaneLayout,
    mv: SMVUnitXY,
) -> int {
    displaced_sad(
        f,
        enc,
        le,
        refp,
        lr,
        me.iCurMeBlockPixX as int,
        me.iCurMeBlockPixY as int,
        mv.iMvX as int,
        mv.iMvY as int,
    ) + tab.cost(mv.iMvX * 4 - me.sMvp.iMvX) + tab.cost(mv.iMvY * 4 - me.sMvp.iMvY)
}

/// The best start after the candidates `k..n`: each candidate's start that
/// differs from the best so far and costs less replaces it.
pub open spec fn mvc_scan(
    f: Option<PSampleSadSatdCostFunc>,
    me: SWelsME,
    tab: MvdCostCursor,
    enc: Seq<u8>,
    le: SPlaneLayout,
    refp: Seq<u8>,
    lr: SPlaneLayout,
    mvcs: Seq<SMVUnitXY>,
    min: SMVUnitXY,
    max: SMVUnitXY,
    k: int,
    n: int,
    mv: SMVUnitXY,
    cost: int,
) -> (SMVUnitXY, int)
    decreases n - k,
{
    if k >= n {
        (mv, cost)
    } else {
        let c = start_mv(mvcs[k], min, max);
        let t = start_cost(f, me, tab, enc, le, refp, lr, c);
        if c != mv && t < cost {
            mvc_scan(f, me, tab, enc, le, refp, lr, mvcs, min, max, k + 1, n, c, t)
        } else {
            mvc_scan(f, me, tab, enc, le, refp, lr, mvcs, min, max, k + 1, n, mv, cost)
        }
    }
}

/// A start can be costed: its blocks lie in the planes and its differences
/// in the cost table.
pub open spec fn start_ok(
    f: Option<PSampleSadSatdCostFunc>,
    me: SWelsME,
    tab: MvdCostCursor,
    enc: Seq<u8>,
    le: SPlaneLayout,
    refp: Seq<u8>,
    lr: SPlaneLayout,
    mv: SMVUnitXY,
) -> bool {
    &&& tab.covers(mv.iMvX * 4 - me.sMvp.iMvX)
    &&& tab.covers(mv.iMvY * 4 - me.sMvp.iMvY)
    &&& displaced_fits(
        f,
        enc,
        le,
        refp,
        lr,
        me.iCurMeBlockPixX as int,
        me.iCurMeBlockPixY as int,
        mv.iMvX as int,
        mv.iMvY as int,
    )
}

/// The search after the end of the whole-sample search (see
/// `MeEndIntepelSearch`).
pub open spec fn me_end(me: SWelsME) -> SWelsME {
    SWelsME {
        sMv: SMVUnitXY { iMvX: (me.sMv.iMvX * 4) as i16, iMvY: (me.sMv.iMvY * 4) as i16 },
        uiSatdCost: me.uiSadCost,
        ..me
    }
}

/// The directional check of the layer finds the directional vector cheaper
/// than the search's cost.
pub open spec fn directional_taken(
    check: Option<PCheckDirectionalMv>,
    f: Option<PSampleSadSatdCostFunc>,
    me: SWelsME,
    tab: MvdCostCursor,
    enc: Seq<u8>,
    le: SPlaneLayout,
    refp: Seq<u8>,
    lr: SPlaneLayout,
    min: SMVUnitXY,
    max: SMVUnitXY,
) -> bool {
    &&& check == Some(PCheckDirectionalMv::CheckDirectionalMv)
    &&& directional_tried(me, min, max)
    &&& directional_cost(f, me, tab, enc, le, refp, lr) < me.uiSadCost
}

/// The search after its initial point, and whether that point is good enough
/// to end the search: the predictor's start, improved by the candidate
/// vectors' starts (see `mvc_scan`), replaced by the directional vector when
/// the layer's check takes it; the point ends the search (whole-sample
/// search ended) when its cost is below the SAD prediction.
pub open spec fn initial_point_result(
    funcs: SMeFuncs,
    sdf: SSampleDealingFunc,
    me: SWelsME,
    mvcs: Seq<SMVUnitXY>,
    min: SMVUnitXY,
    max: SMVUnitXY,
    tab: MvdCostCursor,
    enc: Seq<u8>,
    le: SPlaneLayout,
    refp: Seq<u8>,
    lr: SPlaneLayout,
) -> (SWelsME, bool) {
    let f = sdf.pfSampleSad[me.uiBlockSize as int];
    let mv0 = start_mv(me.sMvp, min, max);
    let (mv1, c1) = mvc_scan(
        f,
        me,
        tab,
        enc,
        le,
        refp,
        lr,
        mvcs,
        min,
        max,
        0,
        mvcs.len() as int,
        mv0,
        start_cost(f, me, tab, enc, le, refp, lr, mv0),
    );
    let (mv2, c2) = if directional_taken(funcs.pfCheckDirectionalMv, f, me, tab, enc, le, refp, lr, min, max) {
        (me.sDirectionalMv, directional_cost(f, me, tab, enc, le, refp, lr))
    } else {
        (mv1, c1)
    };
    let me2 = SWelsME { sMv: mv2, uiSadCost: c2 as u32, ..me };
    if c2 < (me.uSadPredISatd.uiValue as i32) {
        (me_end(me2), true)
    } else {
        (me2, false)
    }
}

/// What the initial point needs: a block size with a kernel slot, a block
/// near the picture, a window within the vector range, every start that can
/// be costed, and a directional vector that can be costed when it is tried.
pub open spec fn initial_point_ok(
    funcs: SMeFuncs,
    sdf: SSampleDealingFunc,
    me: SWelsME,
    mvcs: Seq<SMVUnitXY>,
    min: SMVUnitXY,
    max: SMVUnitXY,
    tab: MvdCostCursor,
    enc: Seq<u8>,
    le: SPlaneLayout,
    refp: Seq<u8>,
    lr: SPlaneLayout,
) -> bool {
    let f = sdf.pfSampleSad[me.uiBlockSize as int];
    let mv = me.sDirectionalMv;
    &&& me.uiBlockSize < 7
    &&& -0x10000 <= me.iCurMeBlockPixX <= 0x10000
    &&& -0x10000 <= me.iCurMeBlockPixY <= 0x10000
    &&& -8192 <= min.iMvX <= max.iMvX <= 8191
    &&& -8192 <= min.iMvY <= max.iMvY <= 8191
    &&& start_ok(f, me, tab, enc, le, refp, lr, start_mv(me.sMvp, min, max))
    &&& forall|k: int| 0 <= k < mvcs.len() ==> #[trigger] start_ok(f, me, tab, enc, le, refp, lr, start_mv(mvcs[k], min, max))
    &&& funcs.pfCheckDirectionalMv == Some(PCheckDirectionalMv::CheckDirectionalMv) && directional_tried(me, min, max)
        ==> {
        &&& displaced_fits(
            f,
            enc,
            le,
            refp,
            lr,
            me.iCurMeBlockPixX as int,
            me.iCurMeBlockPixY as int,
            mv.iMvX as int,
            mv.iMvY as int,
        )
        &&& tab.covers(mv.iMvX * 4 - me.sMvp.iMvX)
        &&& tab.covers(mv.iMvY * 4 - me.sMvp.iMvY)
    }
}

/// A start's cost fits in 32 bits.
proof fn lemma_start_cost_bound(
    f: Option<PSampleSadSatdCostFunc>,
    me: SWelsME,
    tab: MvdCostCursor,
    enc: Seq<u8>,
    le: SPlaneLayout,
    refp: Seq<u8>,
    lr: SPlaneLayout,
    mv: SMVUnitXY,
)
    ensures
        0 <= start_cost(f, me, tab, enc, le, refp, lr, mv) <= 255 * 256 + 2 * 65535,
{
    let x = me.iCurMeBlockPixX as int;
    let y = me.iCurMeBlockPixY as int;
    match f {
        Some(k) => {
            lemma_block_sad_bound(
                enc,
                sample_at(le, x, y),
                le.iStride as int,
                refp,
                sample_at(lr, x + mv.iMvX, y + mv.iMvY),
                lr.iStride as int,
                sad_dims(k).0,
                sad_dims(k).1,
            );
            assert(255 * sad_dims(k).0 * sad_dims(k).1 <= 255 * 256) by (nonlinear_arith)
                requires
                    sad_dims(k).0 <= 16,
                    sad_dims(k).1 <= 16,
                    0 <= sad_dims(k).0,
                    0 <= sad_dims(k).1,
            ;
        },
        None => {},
    }
}

/// The best start of the candidates never costs more than the start it
/// came from and stays in 32 bits.
proof fn lemma_mvc_scan_bound(
    f: Option<PSampleSadSatdCostFunc>,
    me: SWelsME,
    tab: MvdCostCursor,
    enc: Seq<u8>,
    le: SPlaneLayout,
    refp: Seq<u8>,
    lr: SPlaneLayout,
    mvcs: Seq<SMVUnitXY>,
    min: SMVUnitXY,
    max: SMVUnitXY,
    k: int,
    n: int,
    mv: SMVUnitXY,
    cost: int,
)
    requires
        0 <= cost <= 255 * 256 + 2 * 65535,
        -8192 <= min.iMvX <= max.iMvX <= 8191,
        -8192 <= min.iMvY <= max.iMvY <= 8191,
        min.iMvX <= mv.iMvX <= max.iMvX,
        min.iMvY <= mv.iMvY <= max.iMvY,
    ensures
        ({
            let (m2, c2) = mvc_scan(f, me, tab, enc, le, refp, lr, mvcs, min, max, k, n, mv, cost);
            &&& 0 <= c2 <= cost
            &&& min.iMvX <= m2.iMvX <= max.iMvX
            &&& min.iMvY <= m2.iMvY <= max.iMvY
        }),
    decreases n - k,
{
    if k < n {
        let c = start_mv(mvcs[k], min, max);
        lemma_start_cost_bound(f, me, tab, enc, le, refp, lr, c);
        let t = start_cost(f, me, tab, enc, le, refp, lr, c);
        if c != mv && t < cost {
            lemma_mvc_scan_bound(f, me, tab, enc, le, refp, lr, mvcs, min, max, k + 1, n, c, t);
        } else {
            lemma_mvc_scan_bound(f, me, tab, enc, le, refp, lr, mvcs, min, max, k + 1, n, mv, cost);
        }
    }
}

/// The whole-sample start of a quarter-sample component in `[lo, hi]`.
fn start_of(q: i16, lo: i16, hi: i16) -> (r: i16)
    requires
        lo <= hi,
    ensures
        r == start_component(q as int, lo as int, hi as int),
{
    let c: i32 = (2 + q as i32) >> 2u32;
    proof {
        crate::bits::lemma_i32_shifts();
    }
    if c < lo as i32 {
        lo
    } else if c > hi as i32 {
        hi
    } else {
        c as i16
    }
}

/// The initial point of a block search: see `initial_point_result`. The
/// first `kuiMvcNum` of `sMvc` are the slice's candidate vectors.
#[verifier::rlimit(60)]
pub fn WelsMotionEstimateInitialPoint(
    pMeFuncs: &SMeFuncs,
    sdf: &SSampleDealingFunc,
    pMe: &mut SWelsME,
    sMvc: &[SMVUnitXY],
    kuiMvcNum: u8,
    ksMvStartMin: SMVUnitXY,
    ksMvStartMax: SMVUnitXY,
    kpMvdCost: &MvdCostCursor,
    pEnc: &[u8],
    sEnc: SPlaneLayout,
    pRef: &[u8],
    sRef: SPlaneLayout,
) -> (r: bool)
    requires
        kuiMvcNum <= sMvc@.len(),
        initial_point_ok(
            *pMeFuncs,
            *sdf,
            *old(pMe),
            sMvc@.take(kuiMvcNum as int),
            ksMvStartMin,
            ksMvStartMax,
            *kpMvdCost,
            pEnc@,
            sEnc,
            pRef@,
            sRef,
        ),
    ensures
        (*final(pMe), r) == initial_point_result(
            *pMeFuncs,
            *sdf,
            *old(pMe),
            sMvc@.take(kuiMvcNum as int),
            ksMvStartMin,
            ksMvStartMax,
            *kpMvdCost,
            pEnc@,
            sEnc,
            pRef@,
            sRef,
        ),
        pMeFuncs.pfCheckDirectionalMv != Some(PCheckDirectionalMv::CheckDirectionalMv) ==> ({
            let mvcs = sMvc@.take(kuiMvcNum as int);
            let f = sdf.pfSampleSad[old(pMe).uiBlockSize as int];
            let mv0 = start_mv(old(pMe).sMvp, ksMvStartMin, ksMvStartMax);
            let c0 = start_cost(f, *old(pMe), *kpMvdCost, pEnc@, sEnc, pRef@, sRef, mv0);
            let (mv1, c1) = mvc_scan(f, *old(pMe), *kpMvdCost, pEnc@, sEnc, pRef@, sRef, mvcs, ksMvStartMin,
                ksMvStartMax, 0, mvcs.len() as int, mv0, c0);
            &&& c1 <= c0
            &&& forall|j: int| 0 <= j < mvcs.len() ==> c1 <= #[trigger] start_cost(f, *old(pMe), *kpMvdCost,
                pEnc@, sEnc, pRef@, sRef, start_mv(mvcs[j], ksMvStartMin, ksMvStartMax))
            &&& c1 == c0 ==> mv1 == mv0
            &&& mv1 == mv0 || exists|j: int| 0 <= j < mvcs.len() && mv1 == #[trigger] start_mv(mvcs[j], ksMvStartMin, ksMvStartMax)
            &&& r == (c1 < old(pMe).uSadPredISatd.uiValue as i32)
            &&& final(pMe).uiSadCost == c1 as u32
            &&& final(pMe).sMv == if r {
                SMVUnitXY { iMvX: (mv1.iMvX * 4) as i16, iMvY: (mv1.iMvY * 4) as i16 }
            } else {
                mv1
            }
        }),
{
    proof {
        if pMeFuncs.pfCheckDirectionalMv != Some(PCheckDirectionalMv::CheckDirectionalMv) {
            law_initial_point_without_directional_check(*pMeFuncs, *sdf, *pMe, sMvc@.take(kuiMvcNum as int),
                ksMvStartMin, ksMvStartMax, *kpMvdCost, pEnc@, sEnc, pRef@, sRef);
        }
    }
    let ghost me0 = *pMe;
    let ghost mvcs = sMvc@.take(kuiMvcNum as int);
    let block_size = pMe.uiBlockSize as usize;
    let pSad = sdf.pfSampleSad[block_size];
    let kiX = pMe.iCurMeBlockPixX;
    let kiY = pMe.iCurMeBlockPixY;
    let ksMvp = pMe.sMvp;
    let mut sMv = SMVUnitXY {
        iMvX: start_of(ksMvp.iMvX, ksMvStartMin.iMvX, ksMvStartMax.iMvX),
        iMvY: start_of(ksMvp.iMvY, ksMvStartMin.iMvY, ksMvStartMax.iMvY),
    };
    let ghost mv0 = sMv;
    proof {
        lemma_start_cost_bound(pSad, me0, *kpMvdCost, pEnc@, sEnc, pRef@, sRef, sMv);
    }
    let sad0 = displaced_sad_of(pSad, pEnc, sEnc, pRef, sRef, kiX, kiY, sMv.iMvX as i32, sMv.iMvY as i32);
    let mut iBestSadCost: i32 = sad0 + COST_MVD(
        kpMvdCost,
        (sMv.iMvX as i32 * 4) - ksMvp.iMvX as i32,
        (sMv.iMvY as i32 * 4) - ksMvp.iMvY as i32,
    ) as i32;
    let ghost target = mvc_scan(
        pSad,
        me0,
        *kpMvdCost,
        pEnc@,
        sEnc,
        pRef@,
        sRef,
        mvcs,
        ksMvStartMin,
        ksMvStartMax,
        0,
        mvcs.len() as int,
        sMv,
        iBestSadCost as int,
    );
    proof {
        lemma_mvc_scan_bound(
            pSad,
            me0,
            *kpMvdCost,
            pEnc@,
            sEnc,
            pRef@,
            sRef,
            mvcs,
            ksMvStartMin,
            ksMvStartMax,
            0,
            mvcs.len() as int,
            sMv,
            iBestSadCost as int,
        );
    }
    let mut iSadCost: i32 = 0;
    let n = kuiMvcNum as usize;
    let mut i: usize = 0;
    while i < n
        invariant
            n == kuiMvcNum,
            n <= sMvc@.len(),
            mvcs == sMvc@.take(kuiMvcNum as int),
            0 <= i <= n,
            *pMe == me0,
            pSad == sdf.pfSampleSad[me0.uiBlockSize as int],
            kiX == me0.iCurMeBlockPixX,
            kiY == me0.iCurMeBlockPixY,
            ksMvp == me0.sMvp,
            initial_point_ok(*pMeFuncs, *sdf, me0, mvcs, ksMvStartMin, ksMvStartMax, *kpMvdCost, pEnc@, sEnc, pRef@, sRef),
            0 <= iBestSadCost <= 255 * 256 + 2 * 65535,
            ksMvStartMin.iMvX <= sMv.iMvX <= ksMvStartMax.iMvX,
            ksMvStartMin.iMvY <= sMv.iMvY <= ksMvStartMax.iMvY,
            target == mvc_scan(
                pSad,
                me0,
                *kpMvdCost,
                pEnc@,
                sEnc,
                pRef@,
                sRef,
                mvcs,
                ksMvStartMin,
                ksMvStartMax,
                i as int,
                mvcs.len() as int,
                sMv,
                iBestSadCost as int,
            ),
        decreases n - i,
    {
        let mvc = sMvc[i];
        assert(mvcs[i as int] == mvc);
        let iMvc0 = start_of(mvc.iMvX, ksMvStartMin.iMvX, ksMvStartMax.iMvX);
        let iMvc1 = start_of(mvc.iMvY, ksMvStartMin.iMvY, ksMvStartMax.iMvY);
        let c = SMVUnitXY { iMvX: iMvc0, iMvY: iMvc1 };
        proof {
            assert(start_ok(pSad, me0, *kpMvdCost, pEnc@, sEnc, pRef@, sRef, start_mv(mvcs[i as int], ksMvStartMin, ksMvStartMax)));
            lemma_start_cost_bound(pSad, me0, *kpMvdCost, pEnc@, sEnc, pRef@, sRef, c);
        }
        if (iMvc0 != sMv.iMvX) || (iMvc1 != sMv.iMvY) {
            let sad = displaced_sad_of(pSad, pEnc, sEnc, pRef, sRef, kiX, kiY, iMvc0 as i32, iMvc1 as i32);
            iSadCost = sad + COST_MVD(
                kpMvdCost,
                (iMvc0 as i32 * 4) - ksMvp.iMvX as i32,
                (iMvc1 as i32 * 4) - ksMvp.iMvY as i32,
            ) as i32;
            if iSadCost < iBestSadCost {
                sMv = c;
                iBestSadCost = iSadCost;
            }
        }
        i = i + 1;
    }
    let check = pMeFuncs.pfCheckDirectionalMv;
    let taken = match check {
        Some(PCheckDirectionalMv::CheckDirectionalMv) => CheckDirectionalMv(
            pSad,
            pMe,
            ksMvStartMin,
            ksMvStartMax,
            kpMvdCost,
            pEnc,
            sEnc,
            pRef,
            sRef,
            &mut iSadCost,
        ),
        Some(PCheckDirectionalMv::CheckDirectionalMvFalse) => CheckDirectionalMvFalse(
            pSad,
            pMe,
            ksMvStartMin,
            ksMvStartMax,
            kpMvdCost,
            pEnc,
            sEnc,
            pRef,
            sRef,
            &mut iSadCost,
        ),
        None => false,
    };
    if taken {
        sMv = pMe.sDirectionalMv;
        iBestSadCost = iSadCost;
    }
    UpdateMeResults(sMv, iBestSadCost as u32, pMe);
    if iBestSadCost < pMe.uSadPredISatd.uiValue as i32 {
        proof {
            if taken {
                assert(directional_tried(me0, ksMvStartMin, ksMvStartMax));
            }
        }
        MeEndIntepelSearch(pMe);
        return true;
    }
    false
}

/// The candidate scan of the initial point ends at the cheapest of the start
/// it began from and the candidates' starts, keeping the earliest on ties:
/// its cost is the cost of its vector, no start costs less, and the vector is
/// the first start or one of the candidates' starts.
pub proof fn law_initial_point_is_cheapest(
    f: Option<PSampleSadSatdCostFunc>,
    me: SWelsME,
    tab: MvdCostCursor,
    enc: Seq<u8>,
    le: SPlaneLayout,
    refp: Seq<u8>,
    lr: SPlaneLayout,
    mvcs: Seq<SMVUnitXY>,
    min: SMVUnitXY,
    max: SMVUnitXY,
    k: int,
    n: int,
    mv: SMVUnitXY,
    cost: int,
)
    requires
        0 <= k <= n <= mvcs.len(),
        cost == start_cost(f, me, tab, enc, le, refp, lr, mv),
    ensures
        ({
            let (mv2, c2) = mvc_scan(f, me, tab, enc, le, refp, lr, mvcs, min, max, k, n, mv, cost);
            &&& c2 == start_cost(f, me, tab, enc, le, refp, lr, mv2)
            &&& c2 <= cost
            &&& forall|j: int|
                k <= j < n ==> c2 <= #[trigger] start_cost(f, me, tab, enc, le, refp, lr, start_mv(mvcs[j], min, max))
            &&& c2 == cost ==> mv2 == mv
            &&& mv2 == mv || exists|j: int| k <= j < n && mv2 == #[trigger] start_mv(mvcs[j], min, max)
        }),
    decreases n - k,
{
    if k < n {
        let c = start_mv(mvcs[k], min, max);
        let t = start_cost(f, me, tab, enc, le, refp, lr, c);
        if c != mv && t < cost {
            law_initial_point_is_cheapest(f, me, tab, enc, le, refp, lr, mvcs, min, max, k + 1, n, c, t);
        } else {
            law_initial_point_is_cheapest(f, me, tab, enc, le, refp, lr, mvcs, min, max, k + 1, n, mv, cost);
        }
    }
}

/// Without the directional check, the initial point is the cheapest start
/// among the predictor's and the candidate vectors' (the earliest on ties),
/// and it ends the whole-sample search exactly when its cost is below the
/// SAD prediction, scaled to quarter samples.
pub proof fn law_initial_point_without_directional_check(
    funcs: SMeFuncs,
    sdf: SSampleDealingFunc,
    me: SWelsME,
    mvcs: Seq<SMVUnitXY>,
    min: SMVUnitXY,
    max: SMVUnitXY,
    tab: MvdCostCursor,
    enc: Seq<u8>,
    le: SPlaneLayout,
    refp: Seq<u8>,
    lr: SPlaneLayout,
)
    requires
        funcs.pfCheckDirectionalMv != Some(PCheckDirectionalMv::CheckDirectionalMv),
    ensures
        ({
            let f = sdf.pfSampleSad[me.uiBlockSize as int];
            let mv0 = start_mv(me.sMvp, min, max);
            let c0 = start_cost(f, me, tab, enc, le, refp, lr, mv0);
            let (mv1, c1) = mvc_scan(f, me, tab, enc, le, refp, lr, mvcs, min, max, 0, mvcs.len() as int, mv0, c0);
            let (me2, done) = initial_point_result(funcs, sdf, me, mvcs, min, max, tab, enc, le, refp, lr);
            &&& c1 == start_cost(f, me, tab, enc, le, refp, lr, mv1)
            &&& c1 <= c0
            &&& forall|j: int|
                0 <= j < mvcs.len() ==> c1 <= #[trigger] start_cost(f, me, tab, enc, le, refp, lr, start_mv(mvcs[j], min, max))
            &&& c1 == c0 ==> mv1 == mv0
            &&& mv1 == mv0 || exists|j: int| 0 <= j < mvcs.len() && mv1 == #[trigger] start_mv(mvcs[j], min, max)
            &&& done == (c1 < me.uSadPredISatd.uiValue as i32)
            &&& me2.uiSadCost == c1 as u32
            &&& me2.sMv == if done {
                SMVUnitXY { iMvX: (mv1.iMvX * 4) as i16, iMvY: (mv1.iMvY * 4) as i16 }
            } else {
                mv1
            }
        }),
{
    let f = sdf.pfSampleSad[me.uiBlockSize as int];
    let mv0 = start_mv(me.sMvp, min, max);
    let c0 = start_cost(f, me, tab, enc, le, refp, lr, mv0);
    law_initial_point_is_cheapest(f, me, tab, enc, le, refp, lr, mvcs, min, max, 0, mvcs.len() as int, mv0, c0);
}

} // verus!
