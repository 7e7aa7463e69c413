//! The feature search of screen content: where in the reference each block
//! feature value occurs, and the search over the positions that share the
//! current block's feature.
use vstd::prelude::*;
use crate::svc_motion_estimate::count_eq;
use crate::svc_motion_estimate::times_prefix;
use crate::svc_motion_estimate::block_sum;
use crate::svc_motion_estimate::lemma_block_sum_bound;
use crate::svc_motion_estimate::max_int;
use crate::svc_motion_estimate::SMeFuncs;
use crate::svc_motion_estimate::SWelsME;
use crate::svc_motion_estimate::SFeatureSearchOut;
use crate::svc_motion_estimate::MvdCostCursor;
use crate::svc_motion_estimate::SPlaneLayout;
use crate::svc_motion_estimate::PSampleSadSatdCostFunc;
use crate::svc_motion_estimate::SSampleDealingFunc;
use crate::svc_motion_estimate::displaced_sad;
use crate::svc_motion_estimate::displaced_fits;
use crate::svc_motion_estimate::displaced_sad_of;
use crate::svc_motion_estimate::SaveFeatureSearchOut;
use crate::svc_motion_estimate::UpdateMeResults;
use crate::svc_motion_estimate::sum_of_8x8_single_block;
use crate::svc_motion_estimate::sum_of_16x16_single_block;
use crate::svc_motion_estimate::sample_at;
use crate::svc_motion_estimate::layout_ok;
use crate::svc_motion_estimate::plane_offset;
use crate::svc_motion_estimate::diamond_search_ok;
use crate::svc_motion_estimate::line_search_ok;
use crate::svc_motion_estimate::diamond_cross_result;
use crate::svc_motion_estimate::WelsDiamondCrossSearch;
use crate::svc_motion_estimate::lemma_block_sad_bound;
use crate::svc_motion_estimate::sad_dims;
use crate::svc_motion_estimate::LIST_SIZE;
use crate::mb::SMVUnitXY;
use crate::svc_motion_estimate::PCheckDirectionalMv;
use crate::svc_motion_estimate::PCalculateSingleBlockFeature;
use crate::svc_motion_estimate::PLineFullSearchFunc;
use crate::svc_motion_estimate::SumOf8x8BlockOfFrame_c;
use crate::svc_motion_estimate::SumOf16x16BlockOfFrame_c;
use crate::svc_motion_estimate::InitializeHashforFeature_c;
use crate::svc_motion_estimate::QStepx16ByQp;
use crate::svc_motion_estimate::LIST_SIZE_SUM_8x8;
use crate::svc_motion_estimate::LIST_SIZE_SUM_16x16;
use crate::svc_motion_estimate::BLOCK_16x16;
use crate::svc_motion_estimate::BLOCK_16x8;
use crate::svc_motion_estimate::BLOCK_8x16;
use crate::svc_motion_estimate::BLOCK_8x8;
use crate::svc_motion_estimate::BLOCK_4x4;
use crate::svc_motion_estimate::BLOCK_SIZE_ALL;

verus! {

/// The location arena and the per-value write cursors after the first `n`
/// block positions of a `w`-wide grid were filed: each position appends its
/// quarter-pel coordinates `(4x, 4y)` at the cursor of its feature value,
/// which then moves on by two.
pub open spec fn qpel_fill(feat: Seq<u16>, w: int, n: int, loc: Seq<u16>, ptr: Seq<usize>) -> (Seq<u16>, Seq<usize>)
    decreases n,
{
    if n <= 0 {
        (loc, ptr)
    } else {
        let prev = qpel_fill(feat, w, n - 1, loc, ptr);
        let f = feat[n - 1] as int;
        let t = prev.1[f] as int;
        (
            prev.0.update(t, (4 * ((n - 1) % w)) as u16).update(t + 1, (4 * ((n - 1) / w)) as u16),
            prev.1.update(f, (t + 2) as usize),
        )
    }
}

/// Every filed position's feature has a cursor, and every value's cursor
/// stays inside the arena for all the positions that carry it.
pub open spec fn qpel_fill_ok(feat: Seq<u16>, n: int, loc_len: int, ptr: Seq<usize>) -> bool {
    &&& n <= feat.len()
    &&& loc_len <= usize::MAX
    &&& forall|p: int| 0 <= p < n ==> (#[trigger] feat[p]) < ptr.len()
    &&& forall|v: int|
        0 <= v < ptr.len() && count_eq(feat, n, v) > 0 ==> ptr[v] + 2 * count_eq(feat, n, v) <= loc_len
}

/// The groups that the cursors will fill do not overlap.
pub open spec fn groups_disjoint(feat: Seq<u16>, n: int, ptr: Seq<usize>) -> bool {
    forall|a: int, b: int|
        0 <= a < ptr.len() && 0 <= b < ptr.len() && a != b && count_eq(feat, n, a) > 0 && count_eq(feat, n, b)
            > 0 ==> #[trigger] ptr[a] + 2 * count_eq(feat, n, a) <= #[trigger] ptr[b] || ptr[b] + 2 * count_eq(feat, n, b)
            <= ptr[a]
}

pub proof fn lemma_count_step(s: Seq<u16>, n: int, v: int)
    requires
        0 <= n,
    ensures
        count_eq(s, n + 1, v) == count_eq(s, n, v) + if s[n] as int == v { 1int } else { 0int },
{
}

pub proof fn lemma_count_mono(s: Seq<u16>, a: int, b: int, v: int)
    requires
        0 <= a <= b,
    ensures
        count_eq(s, a, v) <= count_eq(s, b, v),
    decreases b - a,
{
    if a < b {
        lemma_count_mono(s, a, b - 1, v);
    }
}

proof fn lemma_count_nonneg(s: Seq<u16>, n: int, v: int)
    requires
        0 <= n,
    ensures
        0 <= count_eq(s, n, v),
    decreases n,
{
    if n > 0 {
        lemma_count_nonneg(s, n - 1, v);
    }
}

/// The cursors after filing: each moved on by two per position of its value.
proof fn lemma_qpel_fill_cursors(feat: Seq<u16>, w: int, n: int, loc: Seq<u16>, ptr: Seq<usize>)
    requires
        0 <= n,
        qpel_fill_ok(feat, n, loc.len() as int, ptr),
    ensures
        qpel_fill(feat, w, n, loc, ptr).0.len() == loc.len(),
        qpel_fill(feat, w, n, loc, ptr).1.len() == ptr.len(),
        forall|v: int|
            0 <= v < ptr.len() ==> #[trigger] qpel_fill(feat, w, n, loc, ptr).1[v] == ptr[v] + 2 * count_eq(feat, n, v),
    decreases n,
{
    if n > 0 {
        let f = feat[n - 1] as int;
        assert(feat[n - 1] < ptr.len());
        assert forall|v: int| 0 <= v < ptr.len() && count_eq(feat, n - 1, v) > 0 implies ptr[v] + 2 * count_eq(
            feat,
            n - 1,
            v,
        ) <= loc.len() by {
            lemma_count_mono(feat, n - 1, n, v);
        }
        lemma_qpel_fill_cursors(feat, w, n - 1, loc, ptr);
        lemma_count_step(feat, n - 1, f);
        lemma_count_nonneg(feat, n - 1, f);
        assert(ptr[f] + 2 * count_eq(feat, n, f) <= loc.len());
        assert forall|v: int| 0 <= v < ptr.len() implies #[trigger] qpel_fill(feat, w, n, loc, ptr).1[v] == ptr[v] + 2
            * count_eq(feat, n, v) by {
            lemma_count_step(feat, n - 1, v);
        }
    }
}

/// Under disjoint groups, position `q` lands at the rank it has among the
/// positions of its value, inside its value's group.
proof fn lemma_qpel_fill_slot(feat: Seq<u16>, w: int, n: int, loc: Seq<u16>, ptr: Seq<usize>, q: int)
    requires
        0 <= q < n,
        w > 0,
        qpel_fill_ok(feat, n, loc.len() as int, ptr),
        groups_disjoint(feat, n, ptr),
    ensures
        ({
            let f = feat[q] as int;
            let s = ptr[f] + 2 * count_eq(feat, q, f);
            let r = qpel_fill(feat, w, n, loc, ptr).0;
            r[s] == (4 * (q % w)) as u16 && r[s + 1] == (4 * (q / w)) as u16
        }),
    decreases n,
{
    let f = feat[q] as int;
    let s = ptr[f] + 2 * count_eq(feat, q, f);
    let g = feat[n - 1] as int;
    assert(feat[n - 1] < ptr.len());
    assert(feat[q] < ptr.len());
    assert forall|v: int| 0 <= v < ptr.len() && count_eq(feat, n - 1, v) > 0 implies ptr[v] + 2 * count_eq(
        feat,
        n - 1,
        v,
    ) <= loc.len() by {
        lemma_count_mono(feat, n - 1, n, v);
    }
    lemma_qpel_fill_cursors(feat, w, n - 1, loc, ptr);
    let prev = qpel_fill(feat, w, n - 1, loc, ptr);
    let t = prev.1[g] as int;
    assert(t == ptr[g] + 2 * count_eq(feat, n - 1, g));
    lemma_count_step(feat, n - 1, g);
    lemma_count_step(feat, q, f);
    lemma_count_mono(feat, q + 1, n, f);
    lemma_count_nonneg(feat, q, f);
    lemma_count_nonneg(feat, n - 1, g);
    if q < n - 1 {
        assert forall|a: int, b: int|
            0 <= a < ptr.len() && 0 <= b < ptr.len() && a != b && count_eq(feat, n - 1, a) > 0 && count_eq(
                feat,
                n - 1,
                b,
            ) > 0 implies #[trigger] ptr[a] + 2 * count_eq(feat, n - 1, a) <= #[trigger] ptr[b] || ptr[b] + 2
            * count_eq(feat, n - 1, b) <= ptr[a] by {
            lemma_count_mono(feat, n - 1, n, a);
            lemma_count_mono(feat, n - 1, n, b);
            assert(ptr[a] + 2 * count_eq(feat, n, a) <= ptr[b] || ptr[b] + 2 * count_eq(feat, n, b) <= ptr[a]);
        }
        lemma_qpel_fill_slot(feat, w, n - 1, loc, ptr, q);
        if g == f {
            lemma_count_mono(feat, q + 1, n - 1, f);
            assert(t >= s + 2);
        } else {
            assert(ptr[g] + 2 * count_eq(feat, n, g) <= ptr[f] || ptr[f] + 2 * count_eq(feat, n, f) <= ptr[g]);
        }
    }
}

/// How many of the first `n` positions carry a feature value below `m`.
pub open spec fn count_prefix(feat: Seq<u16>, n: int, m: int) -> int
    decreases m,
{
    if m <= 0 {
        0
    } else {
        count_prefix(feat, n, m - 1) + count_eq(feat, n, m - 1)
    }
}

proof fn lemma_count_prefix_step(feat: Seq<u16>, n: int, m: int)
    requires
        0 <= n < feat.len(),
        0 <= m,
    ensures
        count_prefix(feat, n + 1, m) == count_prefix(feat, n, m) + if (feat[n] as int) < m { 1int } else { 0int },
    decreases m,
{
    if m > 0 {
        lemma_count_prefix_step(feat, n, m - 1);
        lemma_count_step(feat, n, m - 1);
    }
}

proof fn lemma_count_prefix_all(feat: Seq<u16>, n: int, l: int)
    requires
        0 <= n <= feat.len(),
        0 <= l,
        forall|p: int| 0 <= p < n ==> (#[trigger] feat[p]) < l,
    ensures
        count_prefix(feat, n, l) == n,
    decreases n,
{
    if n == 0 {
        lemma_count_prefix_zero(feat, l);
    } else {
        lemma_count_prefix_all(feat, n - 1, l);
        lemma_count_prefix_step(feat, n - 1, l);
    }
}

proof fn lemma_count_prefix_zero(feat: Seq<u16>, m: int)
    requires
        0 <= m,
    ensures
        count_prefix(feat, 0, m) == 0,
    decreases m,
{
    if m > 0 {
        lemma_count_prefix_zero(feat, m - 1);
    }
}

proof fn lemma_times_are_counts(feat: Seq<u16>, n: int, times: Seq<u32>, m: int)
    requires
        0 <= m <= times.len(),
        forall|v: int| 0 <= v < times.len() ==> #[trigger] times[v] == count_eq(feat, n, v),
    ensures
        times_prefix(times, m) == count_prefix(feat, n, m),
    decreases m,
{
    if m > 0 {
        lemma_times_are_counts(feat, n, times, m - 1);
    }
}

proof fn lemma_prefix_mono(t: Seq<u32>, a: int, b: int)
    requires
        0 <= a <= b,
    ensures
        times_prefix(t, a) <= times_prefix(t, b),
    decreases b - a,
{
    if a < b {
        lemma_prefix_mono(t, a, b - 1);
    }
}

/// The group layout of a histogram: value `v`'s group starts two entries per
/// position of the smaller values into the arena.
pub open spec fn group_bases(times: Seq<u32>) -> Seq<usize> {
    Seq::new(times.len(), |v: int| (2 * times_prefix(times, v)) as usize)
}

/// The group layout of the histogram of the first `n` positions: the
/// histogram counts every position once, every cursor stays inside an arena
/// of two entries per position, and the groups do not overlap.
proof fn lemma_tiled_layout(feat: Seq<u16>, n: int, times: Seq<u32>, loc_len: int)
    requires
        0 <= n <= feat.len(),
        forall|p: int| 0 <= p < n ==> (#[trigger] feat[p]) < times.len(),
        forall|v: int| 0 <= v < times.len() ==> #[trigger] times[v] == count_eq(feat, n, v),
        2 * n <= loc_len <= usize::MAX,
    ensures
        times_prefix(times, times.len() as int) == n,
        qpel_fill_ok(feat, n, loc_len, group_bases(times)),
        groups_disjoint(feat, n, group_bases(times)),
        forall|v: int| 0 <= v < times.len() ==> #[trigger] group_bases(times)[v] == 2 * times_prefix(times, v),
{
    let l = times.len() as int;
    let ptr = group_bases(times);
    lemma_count_prefix_all(feat, n, l);
    lemma_times_are_counts(feat, n, times, l);
    assert forall|v: int| 0 <= v < l implies #[trigger] ptr[v] == 2 * times_prefix(times, v) && 2 * times_prefix(
        times,
        v + 1,
    ) <= 2 * n by {
        lemma_prefix_mono(times, v, v + 1);
        lemma_prefix_mono(times, v + 1, l);
        lemma_prefix_mono(times, 0, v);
    }
    assert(qpel_fill_ok(feat, n, loc_len, ptr));
    assert forall|a: int, b: int|
        0 <= a < ptr.len() && 0 <= b < ptr.len() && a != b && count_eq(feat, n, a) > 0 && count_eq(feat, n, b)
            > 0 implies #[trigger] ptr[a] + 2 * count_eq(feat, n, a) <= #[trigger] ptr[b] || ptr[b] + 2 * count_eq(
        feat,
        n,
        b,
    ) <= ptr[a] by {
        if a < b {
            lemma_prefix_mono(times, a + 1, b);
        } else {
            lemma_prefix_mono(times, b + 1, a);
        }
    }
}

/// The feature arena of a `w x h` grid of positions, whose histogram counts
/// each feature value's positions and whose cursors start at the group
/// layout of that histogram: the histogram counts every position once; after
/// the filing each value's cursor stands two entries per position past its
/// group's start, where the next group starts, so the groups fill the arena
/// with no gap and no overlap; and each position's quarter-pel coordinates
/// stand in its value's group, at its rank among the positions of that value.
pub proof fn law_feature_groups_tile_the_arena(feat: Seq<u16>, w: int, h: int, times: Seq<u32>, loc: Seq<u16>)
    requires
        w > 0,
        h >= 0,
        w * h <= feat.len(),
        forall|p: int| 0 <= p < w * h ==> (#[trigger] feat[p]) < times.len(),
        forall|v: int| 0 <= v < times.len() ==> #[trigger] times[v] == count_eq(feat, w * h, v),
        2 * (w * h) <= loc.len() <= usize::MAX,
    ensures
        times_prefix(times, times.len() as int) == w * h,
        forall|v: int|
            0 <= v < times.len() ==> #[trigger] qpel_fill(feat, w, w * h, loc, group_bases(times)).1[v] == 2
                * times_prefix(times, v + 1),
        forall|q: int|
            #![trigger feat[q]]
            0 <= q < w * h ==> {
                let f = feat[q] as int;
                let s = 2 * times_prefix(times, f) + 2 * count_eq(feat, q, f);
                let r = qpel_fill(feat, w, w * h, loc, group_bases(times)).0;
                &&& 0 <= s && s + 1 < 2 * (w * h)
                &&& r[s] == (4 * (q % w)) as u16
                &&& r[s + 1] == (4 * (q / w)) as u16
            },
{
    let n = w * h;
    let ptr = group_bases(times);
    assert(n >= 0) by (nonlinear_arith)
        requires
            w > 0,
            h >= 0,
            n == w * h,
    ;
    lemma_tiled_layout(feat, n, times, loc.len() as int);
    lemma_qpel_fill_cursors(feat, w, n, loc, ptr);
    assert forall|q: int| #![trigger feat[q]] 0 <= q < n implies {
        let f = feat[q] as int;
        let s = 2 * times_prefix(times, f) + 2 * count_eq(feat, q, f);
        let r = qpel_fill(feat, w, n, loc, ptr).0;
        &&& 0 <= s && s + 1 < 2 * n
        &&& r[s] == (4 * (q % w)) as u16
        &&& r[s + 1] == (4 * (q / w)) as u16
    } by {
        let f = feat[q] as int;
        lemma_qpel_fill_slot(feat, w, n, loc, ptr, q);
        lemma_count_step(feat, q, f);
        lemma_count_mono(feat, q + 1, n, f);
        lemma_count_nonneg(feat, q, f);
        assert(ptr[f] == 2 * times_prefix(times, f));
        assert(times[f] == count_eq(feat, n, f));
        lemma_prefix_mono(times, f + 1, times.len() as int);
    }
}

/// Files every position of a `kiWidth x kiHeight` grid under its feature
/// value: see `qpel_fill`.
pub fn FillQpelLocationByFeatureValue_c(
    pFeatureOfBlock: &[u16],
    kiWidth: i32,
    kiHeight: i32,
    pLocationPointer: &mut [u16],
    pFeatureValuePointerList: &mut [usize],
)
    requires
        kiWidth <= 0x1fff_ffff,
        kiHeight <= 0x1fff_ffff,
        qpel_fill_ok(
            pFeatureOfBlock@,
            if kiWidth > 0 && kiHeight > 0 { kiWidth * kiHeight } else { 0 },
            old(pLocationPointer)@.len() as int,
            old(pFeatureValuePointerList)@,
        ),
    ensures
        ({
            let n = if kiWidth > 0 && kiHeight > 0 { kiWidth * kiHeight } else { 0 };
            (final(pLocationPointer)@, final(pFeatureValuePointerList)@) == qpel_fill(
                pFeatureOfBlock@,
                kiWidth as int,
                n,
                old(pLocationPointer)@,
                old(pFeatureValuePointerList)@,
            )
        }),
        final(pLocationPointer)@.len() == old(pLocationPointer)@.len(),
        final(pFeatureValuePointerList)@.len() == old(pFeatureValuePointerList)@.len(),
        forall|v: int|
            0 <= v < old(pFeatureValuePointerList)@.len() ==> #[trigger] final(pFeatureValuePointerList)@[v]
                == old(pFeatureValuePointerList)@[v] + 2 * count_eq(
                pFeatureOfBlock@,
                if kiWidth > 0 && kiHeight > 0 { kiWidth * kiHeight } else { 0 },
                v,
            ),
{
    let ghost n: int = if kiWidth > 0 && kiHeight > 0 { kiWidth * kiHeight } else { 0 };
    let ghost loc0 = pLocationPointer@;
    let ghost ptr0 = pFeatureValuePointerList@;
    proof {
        lemma_qpel_fill_cursors(pFeatureOfBlock@, kiWidth as int, n, loc0, ptr0);
    }
    if kiWidth <= 0 || kiHeight <= 0 {
        return;
    }
    let w = kiWidth as usize;
    let h = kiHeight as usize;
    let flen = pFeatureOfBlock.len();
    let mut iQpelY: i32 = 0;
    let mut pSrcPointer: usize = 0;
    let mut y: usize = 0;
    while y < h
        invariant
            w == kiWidth,
            h == kiHeight,
            w > 0,
            n == w * h,
            0 <= y <= h,
            pSrcPointer == y * w,
            iQpelY == 4 * y,
            flen == pFeatureOfBlock@.len(),
            h <= 0x1fff_ffff,
            w <= 0x1fff_ffff,
            qpel_fill_ok(pFeatureOfBlock@, n, loc0.len() as int, ptr0),
            (pLocationPointer@, pFeatureValuePointerList@) == qpel_fill(pFeatureOfBlock@, w as int, (y * w) as int, loc0, ptr0),
            pLocationPointer@.len() == loc0.len(),
            pFeatureValuePointerList@.len() == ptr0.len(),
        decreases h - y,
    {
        let mut x: usize = 0;
        while x < w
            invariant
                w == kiWidth,
                h == kiHeight,
                w > 0,
                n == w * h,
                0 <= y < h,
                0 <= x <= w,
                pSrcPointer == y * w,
                iQpelY == 4 * y,
                flen == pFeatureOfBlock@.len(),
                h <= 0x1fff_ffff,
                w <= 0x1fff_ffff,
                qpel_fill_ok(pFeatureOfBlock@, n, loc0.len() as int, ptr0),
                (pLocationPointer@, pFeatureValuePointerList@) == qpel_fill(
                    pFeatureOfBlock@,
                    w as int,
                    (y * w + x) as int,
                    loc0,
                    ptr0,
                ),
                pLocationPointer@.len() == loc0.len(),
                pFeatureValuePointerList@.len() == ptr0.len(),
            decreases w - x,
        {
            let ghost p: int = (y * w + x) as int;
            proof {
                assert(y * w + x < w * h) by (nonlinear_arith)
                    requires
                        y < h,
                        x < w,
                ;
                assert(pFeatureOfBlock@[p] < ptr0.len());
                let fv = pFeatureOfBlock@[p] as int;
                assert forall|v: int| 0 <= v < ptr0.len() && count_eq(pFeatureOfBlock@, p, v) > 0 implies ptr0[v] + 2
                    * count_eq(pFeatureOfBlock@, p, v) <= loc0.len() by {
                    lemma_count_mono(pFeatureOfBlock@, p, n, v);
                }
                lemma_qpel_fill_cursors(pFeatureOfBlock@, w as int, p, loc0, ptr0);
                lemma_count_step(pFeatureOfBlock@, p, fv);
                lemma_count_mono(pFeatureOfBlock@, p + 1, n, fv);
                lemma_count_nonneg(pFeatureOfBlock@, p, fv);
                vstd::arithmetic::div_mod::lemma_fundamental_div_mod_converse(p, w as int, y as int, x as int);
            }
            assert(pSrcPointer + x < pFeatureOfBlock@.len());
            let uiFeature = pFeatureOfBlock[pSrcPointer + x] as usize;
            let target = pFeatureValuePointerList[uiFeature];
            let xi: i32 = x as i32;
            pLocationPointer[target] = (xi << 2u32) as u16;
            pLocationPointer[target + 1] = iQpelY as u16;
            pFeatureValuePointerList[uiFeature] = target + 2;
            proof {
                assert((xi << 2u32) == 4 * xi) by (bit_vector)
                    requires
                        0 <= xi <= 0x1fff_ffff,
                ;
            }
            x = x + 1;
        }
        proof {
            assert(y * w + w == (y + 1) * w) by (nonlinear_arith);
            assert((y + 1) * w <= h * w) by (nonlinear_arith)
                requires
                    y < h,
            ;
            assert(h * w == w * h) by (nonlinear_arith);
        }
        y = y + 1;
        pSrcPointer = pSrcPointer + w;
        iQpelY = iQpelY + 4;
    }
    proof {
        assert(h * w == w * h) by (nonlinear_arith);
    }
}


/// The frame feature kernels: the 8x8 or 16x16 block sums of every position.
#[derive(Clone, Copy, Debug, PartialEq, Eq, Structural)]
pub enum PCalculateBlockFeatureOfFrame {
    SumOf8x8BlockOfFrame_c,
    SumOf16x16BlockOfFrame_c,
}

/// The group-layout kernels.
#[derive(Clone, Copy, Debug, PartialEq, Eq, Structural)]
pub enum PInitializeHashforFeatureFunc {
    InitializeHashforFeature_c,
}

/// The position-filing kernels.
#[derive(Clone, Copy, Debug, PartialEq, Eq, Structural)]
pub enum PFillQpelLocationByFeatureValueFunc {
    FillQpelLocationByFeatureValue_c,
}

/// The frame-level feature-search switch updates.
#[derive(Clone, Copy, Debug, PartialEq, Eq, Structural)]
pub enum PUpdateFMESwitch {
    UpdateFMESwitch,
    UpdateFMESwitchNull,
}

/// The motion-estimation and feature-search entries of an encoder's
/// function table.
#[derive(Clone, Copy, Debug)]
pub struct SWelsFuncPtrList {
    pub sMeFuncs: SMeFuncs,
    pub pfUpdateFMESwitch: Option<PUpdateFMESwitch>,
    pub pfCalculateBlockFeatureOfFrame: [Option<PCalculateBlockFeatureOfFrame>; 2],
    pub pfInitializeHashforFeature: Option<PInitializeHashforFeatureFunc>,
    pub pfFillQpelLocationByFeatureValue: Option<PFillQpelLocationByFeatureValueFunc>,
}

impl Default for SWelsFuncPtrList {
    /// A table with every entry empty.
    fn default() -> (r: Self)
        ensures
            r.sMeFuncs.pfCheckDirectionalMv is None,
            r.sMeFuncs.pfVerticalFullSearch is None,
            r.sMeFuncs.pfHorizontalFullSearch is None,
            r.sMeFuncs.pfCalculateSingleBlockFeature == [None::<PCalculateSingleBlockFeature>, None],
            r.pfUpdateFMESwitch is None,
            r.pfCalculateBlockFeatureOfFrame == [None::<PCalculateBlockFeatureOfFrame>, None],
            r.pfInitializeHashforFeature is None,
            r.pfFillQpelLocationByFeatureValue is None,
    {
        SWelsFuncPtrList {
            sMeFuncs: SMeFuncs {
                pfCheckDirectionalMv: None,
                pfVerticalFullSearch: None,
                pfHorizontalFullSearch: None,
                pfCalculateSingleBlockFeature: [None, None],
            },
            pfUpdateFMESwitch: None,
            pfCalculateBlockFeatureOfFrame: [None, None],
            pfInitializeHashforFeature: None,
            pfFillQpelLocationByFeatureValue: None,
        }
    }
}

/// Fills the motion-estimation entries of `pFuncList`: the null switch
/// update always; for camera content no directional check and no feature
/// kernels; for screen content the directional check, the line searches and
/// all the feature kernels. Other entries stay.
pub fn WelsInitMeFunc(pFuncList: &mut SWelsFuncPtrList, uiCpuFlag: u32, bScreenContent: bool)
    ensures
        final(pFuncList).pfUpdateFMESwitch == Some(PUpdateFMESwitch::UpdateFMESwitchNull),
        !bScreenContent ==> {
            &&& final(pFuncList).sMeFuncs == (SMeFuncs {
                pfCheckDirectionalMv: Some(PCheckDirectionalMv::CheckDirectionalMvFalse),
                pfCalculateSingleBlockFeature: [None, None],
                ..old(pFuncList).sMeFuncs
            })
            &&& final(pFuncList).pfCalculateBlockFeatureOfFrame == [None::<PCalculateBlockFeatureOfFrame>, None]
            &&& final(pFuncList).pfInitializeHashforFeature == old(pFuncList).pfInitializeHashforFeature
            &&& final(pFuncList).pfFillQpelLocationByFeatureValue == old(pFuncList).pfFillQpelLocationByFeatureValue
        },
        bScreenContent ==> {
            &&& final(pFuncList).sMeFuncs == (SMeFuncs {
                pfCheckDirectionalMv: Some(PCheckDirectionalMv::CheckDirectionalMv),
                pfVerticalFullSearch: Some(PLineFullSearchFunc::LineFullSearch_c),
                pfHorizontalFullSearch: Some(PLineFullSearchFunc::LineFullSearch_c),
                pfCalculateSingleBlockFeature: [
                    Some(PCalculateSingleBlockFeature::sum_of_8x8_single_block),
                    Some(PCalculateSingleBlockFeature::sum_of_16x16_single_block),
                ],
            })
            &&& final(pFuncList).pfCalculateBlockFeatureOfFrame == [
                Some(PCalculateBlockFeatureOfFrame::SumOf8x8BlockOfFrame_c),
                Some(PCalculateBlockFeatureOfFrame::SumOf16x16BlockOfFrame_c),
            ]
            &&& final(pFuncList).pfInitializeHashforFeature == Some(
                PInitializeHashforFeatureFunc::InitializeHashforFeature_c,
            )
            &&& final(pFuncList).pfFillQpelLocationByFeatureValue == Some(
                PFillQpelLocationByFeatureValueFunc::FillQpelLocationByFeatureValue_c,
            )
        },
{
    pFuncList.pfUpdateFMESwitch = Some(PUpdateFMESwitch::UpdateFMESwitchNull);
    if !bScreenContent {
        pFuncList.sMeFuncs.pfCheckDirectionalMv = Some(PCheckDirectionalMv::CheckDirectionalMvFalse);
        pFuncList.pfCalculateBlockFeatureOfFrame = [None, None];
        pFuncList.sMeFuncs.pfCalculateSingleBlockFeature = [None, None];
    } else {
        pFuncList.sMeFuncs.pfCheckDirectionalMv = Some(PCheckDirectionalMv::CheckDirectionalMv);
        pFuncList.sMeFuncs.pfVerticalFullSearch = Some(PLineFullSearchFunc::LineFullSearch_c);
        pFuncList.sMeFuncs.pfHorizontalFullSearch = Some(PLineFullSearchFunc::LineFullSearch_c);
        pFuncList.pfInitializeHashforFeature = Some(PInitializeHashforFeatureFunc::InitializeHashforFeature_c);
        pFuncList.pfFillQpelLocationByFeatureValue = Some(
            PFillQpelLocationByFeatureValueFunc::FillQpelLocationByFeatureValue_c,
        );
        pFuncList.pfCalculateBlockFeatureOfFrame = [
            Some(PCalculateBlockFeatureOfFrame::SumOf8x8BlockOfFrame_c),
            Some(PCalculateBlockFeatureOfFrame::SumOf16x16BlockOfFrame_c),
        ];
        pFuncList.sMeFuncs.pfCalculateSingleBlockFeature = [
            Some(PCalculateSingleBlockFeature::sum_of_8x8_single_block),
            Some(PCalculateSingleBlockFeature::sum_of_16x16_single_block),
        ];
    }
}

/// The three feature kernels a reference picture's feature pass runs.
#[derive(Clone, Copy, Debug)]
pub struct FmeKernels {
    pub calc_frame: [Option<PCalculateBlockFeatureOfFrame>; 2],
    pub init_hash: Option<PInitializeHashforFeatureFunc>,
    pub fill_qpel: Option<PFillQpelLocationByFeatureValueFunc>,
}

impl FmeKernels {
    /// The feature kernels of a function table.
    pub fn of(pFunc: &SWelsFuncPtrList) -> (r: Self)
        ensures
            r.calc_frame == pFunc.pfCalculateBlockFeatureOfFrame,
            r.init_hash == pFunc.pfInitializeHashforFeature,
            r.fill_qpel == pFunc.pfFillQpelLocationByFeatureValue,
    {
        FmeKernels {
            calc_frame: pFunc.pfCalculateBlockFeatureOfFrame,
            init_hash: pFunc.pfInitializeHashforFeature,
            fill_qpel: pFunc.pfFillQpelLocationByFeatureValue,
        }
    }
}

/// The luma plane of a reference picture, from its first pixel, with what
/// the feature pass reads of the picture.
#[derive(Clone, Debug)]
pub struct SPicture {
    pub pData: Vec<u8>,
    pub iLineSize: i32,
    pub iWidthInPixel: i32,
    pub iHeightInPixel: i32,
    pub iFrameAverageQp: i32,
}

/// The block-feature hash of a reference picture: the histogram of the
/// feature values, each value's group base and write cursor in the location
/// arena, the arena of quarter-pel positions, and the SAD thresholds the
/// feature search stops at.
#[derive(Clone, Debug)]
pub struct SScreenBlockFeatureStorage {
    pub pTimesOfFeatureValue: Vec<u32>,
    pub pLocationOfFeature: Vec<usize>,
    pub pLocationPointer: Vec<u16>,
    pub pFeatureValuePointerList: Vec<usize>,
    pub iIs16x16: bool,
    pub uiFeatureStrategyIndex: u8,
    pub iActualListSize: i32,
    pub uiSadCostThreshold: [u32; 7],
    pub bRefBlockFeatureCalculated: bool,
}

/// The number of entries of a feature list: every sum of an 8x8 or a 16x16
/// block for the block-sum strategy, 256 otherwise.
pub open spec fn feature_list_size(bIsBlock8x8: bool, strategy: u8) -> int {
    if strategy == 0 {
        if bIsBlock8x8 {
            LIST_SIZE_SUM_8x8 as int
        } else {
            LIST_SIZE_SUM_16x16 as int
        }
    } else {
        256
    }
}

/// The edge a block feature leaves out: the block size.
pub open spec fn feature_margin(is16x16: bool) -> int {
    if is16x16 {
        16
    } else {
        8
    }
}

/// `n` copies of `x`.
fn filled<T: Copy>(x: T, n: usize) -> (r: Vec<T>)
    ensures
        r@.len() == n,
        forall|i: int| 0 <= i < n ==> #[trigger] r@[i] == x,
{
    let mut v: Vec<T> = Vec::new();
    let mut i: usize = 0;
    while i < n
        invariant
            0 <= i <= n,
            v@.len() == i,
            forall|k: int| 0 <= k < i ==> #[trigger] v@[k] == x,
        decreases n - i,
    {
        v.push(x);
        i = i + 1;
    }
    v
}

impl SScreenBlockFeatureStorage {
    /// The lists have the storage's list size.
    pub open spec fn wf(&self) -> bool {
        &&& 0 <= self.iActualListSize
        &&& self.pTimesOfFeatureValue@.len() == self.iActualListSize
        &&& self.pLocationOfFeature@.len() == self.iActualListSize
        &&& self.pFeatureValuePointerList@.len() == self.iActualListSize
    }

    /// The empty storage of a `iFrameWidth x iFrameHeight` frame: a list of
    /// `feature_list_size` entries, an arena of two entries per block
    /// position that leaves the block's margin inside the frame, every count
    /// and position zero, every threshold the largest, nothing calculated.
    pub fn for_frame(iFrameWidth: i32, iFrameHeight: i32, bIsBlock8x8: bool, uiFeatureStrategyIndex: u8) -> (r: Self)
        requires
            0 <= iFrameWidth <= 0x4000,
            0 <= iFrameHeight <= 0x4000,
        ensures
            r.wf(),
            r.iActualListSize == feature_list_size(bIsBlock8x8, uiFeatureStrategyIndex),
            r.pLocationPointer@.len() == 2 * max_int(iFrameWidth - feature_margin(!bIsBlock8x8), 0) * max_int(
                iFrameHeight - feature_margin(!bIsBlock8x8),
                0,
            ),
            forall|i: int| 0 <= i < r.pTimesOfFeatureValue@.len() ==> #[trigger] r.pTimesOfFeatureValue@[i] == 0,
            forall|i: int| 0 <= i < r.pLocationOfFeature@.len() ==> #[trigger] r.pLocationOfFeature@[i] == 0,
            forall|i: int| 0 <= i < r.pLocationPointer@.len() ==> #[trigger] r.pLocationPointer@[i] == 0,
            forall|i: int| 0 <= i < r.pFeatureValuePointerList@.len() ==> #[trigger] r.pFeatureValuePointerList@[i] == 0,
            r.iIs16x16 == !bIsBlock8x8,
            r.uiFeatureStrategyIndex == uiFeatureStrategyIndex,
            forall|i: int| 0 <= i < 7 ==> #[trigger] r.uiSadCostThreshold[i] == u32::MAX,
            !r.bRefBlockFeatureCalculated,
    {
        let margin: i32 = if bIsBlock8x8 {
            8
        } else {
            16
        };
        let w: usize = if iFrameWidth > margin {
            (iFrameWidth - margin) as usize
        } else {
            0
        };
        let h: usize = if iFrameHeight > margin {
            (iFrameHeight - margin) as usize
        } else {
            0
        };
        assert(2 * w * h <= 2 * 0x4000 * 0x4000) by (nonlinear_arith)
            requires
                w <= 0x4000,
                h <= 0x4000,
        ;
        let list: usize = if uiFeatureStrategyIndex == 0 {
            if bIsBlock8x8 {
                LIST_SIZE_SUM_8x8
            } else {
                LIST_SIZE_SUM_16x16
            }
        } else {
            256
        };
        SScreenBlockFeatureStorage {
            pTimesOfFeatureValue: filled(0u32, list),
            pLocationOfFeature: filled(0usize, list),
            pLocationPointer: filled(0u16, 2 * w * h),
            pFeatureValuePointerList: filled(0usize, list),
            iIs16x16: !bIsBlock8x8,
            uiFeatureStrategyIndex,
            iActualListSize: list as i32,
            uiSadCostThreshold: [u32::MAX; 7],
            bRefBlockFeatureCalculated: false,
        }
    }
}


/// The side of the blocks a frame feature kernel sums.
pub open spec fn frame_kernel_side(k: PCalculateBlockFeatureOfFrame) -> int {
    match k {
        PCalculateBlockFeatureOfFrame::SumOf8x8BlockOfFrame_c => 8,
        PCalculateBlockFeatureOfFrame::SumOf16x16BlockOfFrame_c => 16,
    }
}

/// The list a frame feature kernel's sums need.
pub open spec fn frame_kernel_list(k: PCalculateBlockFeatureOfFrame) -> int {
    match k {
        PCalculateBlockFeatureOfFrame::SumOf8x8BlockOfFrame_c => LIST_SIZE_SUM_8x8 as int,
        PCalculateBlockFeatureOfFrame::SumOf16x16BlockOfFrame_c => LIST_SIZE_SUM_16x16 as int,
    }
}

/// The frame kernel a storage of 8x8 or 16x16 features uses.
pub open spec fn calc_kernel(k: FmeKernels, is16x16: bool) -> Option<PCalculateBlockFeatureOfFrame> {
    if is16x16 {
        k.calc_frame[1]
    } else {
        k.calc_frame[0]
    }
}

/// The width of the grid of block positions of a picture.
pub open spec fn grid_w(pic: SPicture, is16x16: bool) -> int {
    max_int(pic.iWidthInPixel - feature_margin(is16x16), 0)
}

/// The height of the grid of block positions of a picture.
pub open spec fn grid_h(pic: SPicture, is16x16: bool) -> int {
    max_int(pic.iHeightInPixel - feature_margin(is16x16), 0)
}

/// What the feature pass of a picture needs: a well-formed storage; a frame
/// kernel whose blocks stay in the plane, whose features fit the scratch
/// and whose sums fit the list; and a filing only after a histogram and a
/// group layout, into an arena of two entries per position.
pub open spec fn feature_pass_ok(k: FmeKernels, pic: SPicture, feat_len: int, st: SScreenBlockFeatureStorage) -> bool {
    let w = grid_w(pic, st.iIs16x16);
    let h = grid_h(pic, st.iIs16x16);
    &&& st.wf()
    &&& 0 <= pic.iWidthInPixel <= 0x4000
    &&& 0 <= pic.iHeightInPixel <= 0x4000
    &&& calc_kernel(k, st.iIs16x16) matches Some(kk) ==> {
        let m = frame_kernel_side(kk);
        &&& w <= pic.iLineSize <= 0x10000
        &&& (h + m - 1) * pic.iLineSize + m <= pic.pData@.len()
        &&& w * h <= feat_len
        &&& frame_kernel_list(kk) <= st.iActualListSize
    }
    &&& k.fill_qpel is Some ==> {
        &&& calc_kernel(k, st.iIs16x16) is Some
        &&& k.init_hash is Some
        &&& 2 * (w * h) <= st.pLocationPointer@.len()
    }
}

/// The storage and the block features after the feature pass of a
/// picture: the frame kernel's block sums of the grid with their histogram
/// (all counts zero without a kernel), the group layout of the histogram
/// when there is a layout kernel, and the positions filed from that layout
/// when there is a filing kernel. The rest of the storage stays.
pub open spec fn feature_pass_result(
    k: FmeKernels,
    pic: SPicture,
    f0: Seq<u16>,
    s0: SScreenBlockFeatureStorage,
    f1: Seq<u16>,
    s1: SScreenBlockFeatureStorage,
) -> bool {
    let is16 = s0.iIs16x16;
    let w = grid_w(pic, is16);
    let h = grid_h(pic, is16);
    let n = w * h;
    let ptr1 = if k.init_hash is Some {
        group_bases(s1.pTimesOfFeatureValue@)
    } else {
        s0.pFeatureValuePointerList@
    };
    &&& s1.iIs16x16 == s0.iIs16x16
    &&& s1.uiFeatureStrategyIndex == s0.uiFeatureStrategyIndex
    &&& s1.iActualListSize == s0.iActualListSize
    &&& s1.uiSadCostThreshold == s0.uiSadCostThreshold
    &&& s1.bRefBlockFeatureCalculated == s0.bRefBlockFeatureCalculated
    &&& f1.len() == f0.len()
    &&& s1.pTimesOfFeatureValue@.len() == s0.pTimesOfFeatureValue@.len()
    &&& match calc_kernel(k, is16) {
        Some(kk) => {
            let m = frame_kernel_side(kk);
            &&& forall|y: int, x: int|
                0 <= y < h && 0 <= x < w ==> #[trigger] f1[y * w + x] == block_sum(
                    pic.pData@,
                    y * pic.iLineSize + x,
                    pic.iLineSize as int,
                    m,
                    m,
                )
            &&& forall|p: int| n <= p < f0.len() ==> #[trigger] f1[p] == f0[p]
            &&& forall|v: int|
                0 <= v < s1.pTimesOfFeatureValue@.len() ==> #[trigger] s1.pTimesOfFeatureValue@[v] == count_eq(f1, n, v)
        },
        None => {
            &&& f1 == f0
            &&& forall|v: int| 0 <= v < s1.pTimesOfFeatureValue@.len() ==> #[trigger] s1.pTimesOfFeatureValue@[v] == 0
        },
    }
    &&& if k.init_hash is Some {
        forall|v: int|
            0 <= v < s0.iActualListSize ==> #[trigger] s1.pLocationOfFeature@[v] == 2 * times_prefix(
                s1.pTimesOfFeatureValue@,
                v,
            )
    } else {
        s1.pLocationOfFeature@ == s0.pLocationOfFeature@
    }
    &&& s1.pLocationOfFeature@.len() == s0.pLocationOfFeature@.len()
    &&& if k.fill_qpel is Some {
        (s1.pLocationPointer@, s1.pFeatureValuePointerList@) == qpel_fill(f1, w, n, s0.pLocationPointer@, ptr1)
    } else {
        s1.pLocationPointer@ == s0.pLocationPointer@ && s1.pFeatureValuePointerList@ == ptr1
    }
}

proof fn lemma_prefix_of_zeros(t: Seq<u32>, m: int)
    requires
        0 <= m <= t.len(),
        forall|v: int| 0 <= v < t.len() ==> #[trigger] t[v] == 0,
    ensures
        times_prefix(t, m) == 0,
    decreases m,
{
    if m > 0 {
        lemma_prefix_of_zeros(t, m - 1);
    }
}

/// The block features of a reference picture and their hash: see
/// `feature_pass_result`. Answers false, and changes nothing, when the
/// scratch or one of the storage's lists is empty.
#[verifier::spinoff_prover]
#[verifier::rlimit(60)]
pub fn CalculateFeatureOfBlock(
    kernels: &FmeKernels,
    pRef: &SPicture,
    pFeatureOfBlock: &mut [u16],
    pScreenBlockFeatureStorage: &mut SScreenBlockFeatureStorage,
) -> (r: bool)
    requires
        feature_pass_ok(*kernels, *pRef, old(pFeatureOfBlock)@.len() as int, *old(pScreenBlockFeatureStorage)),
    ensures
        r == (old(pFeatureOfBlock)@.len() > 0 && old(pScreenBlockFeatureStorage).pTimesOfFeatureValue@.len() > 0
            && old(pScreenBlockFeatureStorage).pLocationOfFeature@.len() > 0
            && old(pScreenBlockFeatureStorage).pLocationPointer@.len() > 0),
        !r ==> final(pFeatureOfBlock)@ == old(pFeatureOfBlock)@ && *final(pScreenBlockFeatureStorage) == *old(
            pScreenBlockFeatureStorage,
        ),
        r ==> feature_pass_result(
            *kernels,
            *pRef,
            old(pFeatureOfBlock)@,
            *old(pScreenBlockFeatureStorage),
            final(pFeatureOfBlock)@,
            *final(pScreenBlockFeatureStorage),
        ),
{
    if pFeatureOfBlock.len() == 0 || pScreenBlockFeatureStorage.pTimesOfFeatureValue.len() == 0
        || pScreenBlockFeatureStorage.pLocationOfFeature.len() == 0
        || pScreenBlockFeatureStorage.pLocationPointer.len() == 0 {
        return false;
    }
    let ghost f0 = pFeatureOfBlock@;
    let ghost s0 = *pScreenBlockFeatureStorage;
    let is16 = pScreenBlockFeatureStorage.iIs16x16;
    let iEdgeDiscard: i32 = if is16 {
        16
    } else {
        8
    };
    let iWidth = pRef.iWidthInPixel - iEdgeDiscard;
    let kiHeight = pRef.iHeightInPixel - iEdgeDiscard;
    let w: i32 = if iWidth > 0 {
        iWidth
    } else {
        0
    };
    let h: i32 = if kiHeight > 0 {
        kiHeight
    } else {
        0
    };
    let ghost n: int = w * h;
    proof {
        assert(0 <= n <= 0x4000 * 0x4000) by (nonlinear_arith)
            requires
                0 <= w <= 0x4000,
                0 <= h <= 0x4000,
                n == w * h,
        ;
    }
    let list = pScreenBlockFeatureStorage.iActualListSize as usize;
    let mut i: usize = 0;
    while i < list
        invariant
            0 <= i <= list,
            list == pScreenBlockFeatureStorage.iActualListSize,
            pScreenBlockFeatureStorage.pTimesOfFeatureValue@.len() == list,
            forall|k: int| 0 <= k < i ==> #[trigger] pScreenBlockFeatureStorage.pTimesOfFeatureValue@[k] == 0,
            *pScreenBlockFeatureStorage == (SScreenBlockFeatureStorage {
                pTimesOfFeatureValue: pScreenBlockFeatureStorage.pTimesOfFeatureValue,
                ..s0
            }),
        decreases list - i,
    {
        pScreenBlockFeatureStorage.pTimesOfFeatureValue.set(i, 0);
        i = i + 1;
    }
    let calc = if is16 {
        kernels.calc_frame[1]
    } else {
        kernels.calc_frame[0]
    };
    match calc {
        Some(PCalculateBlockFeatureOfFrame::SumOf8x8BlockOfFrame_c) => {
            SumOf8x8BlockOfFrame_c(
                pRef.pData.as_slice(),
                w,
                h,
                pRef.iLineSize,
                pFeatureOfBlock,
                pScreenBlockFeatureStorage.pTimesOfFeatureValue.as_mut_slice(),
            );
        },
        Some(PCalculateBlockFeatureOfFrame::SumOf16x16BlockOfFrame_c) => {
            SumOf16x16BlockOfFrame_c(
                pRef.pData.as_slice(),
                w,
                h,
                pRef.iLineSize,
                pFeatureOfBlock,
                pScreenBlockFeatureStorage.pTimesOfFeatureValue.as_mut_slice(),
            );
        },
        None => {},
    }
    let ghost f1 = pFeatureOfBlock@;
    let ghost t1 = pScreenBlockFeatureStorage.pTimesOfFeatureValue@;
    proof {
        if calc is Some {
            let m = frame_kernel_side(calc.unwrap());
            assert forall|p: int| 0 <= p < n implies (#[trigger] f1[p]) < t1.len() by {
                let y = p / (w as int);
                let x = p % (w as int);
                vstd::arithmetic::div_mod::lemma_fundamental_div_mod(p, w as int);
                assert(0 <= y < h) by (nonlinear_arith)
                    requires
                        p == w * y + x,
                        0 <= x < w,
                        0 <= p < w * h,
                ;
                assert(p == y * w + x) by (nonlinear_arith)
                    requires
                        p == w * y + x,
                ;
                assert(f1[y * w + x] == block_sum(pRef.pData@, y * pRef.iLineSize + x, pRef.iLineSize as int, m, m));
                lemma_block_sum_bound(pRef.pData@, y * pRef.iLineSize + x, pRef.iLineSize as int, m, m);
            }
            lemma_count_prefix_all(f1, n, t1.len() as int);
            lemma_times_are_counts(f1, n, t1, t1.len() as int);
        } else {
            lemma_prefix_of_zeros(t1, t1.len() as int);
        }
    }
    match kernels.init_hash {
        Some(PInitializeHashforFeatureFunc::InitializeHashforFeature_c) => {
            InitializeHashforFeature_c(
                pScreenBlockFeatureStorage.pTimesOfFeatureValue.as_slice(),
                pScreenBlockFeatureStorage.iActualListSize,
                pScreenBlockFeatureStorage.pLocationOfFeature.as_mut_slice(),
                pScreenBlockFeatureStorage.pFeatureValuePointerList.as_mut_slice(),
            );
            proof {
                assert forall|v: int| 0 <= v < t1.len() implies 2 * times_prefix(t1, v) <= 2 * n by {
                    lemma_prefix_mono(t1, v, t1.len() as int);
                }
                assert(pScreenBlockFeatureStorage.pFeatureValuePointerList@.len() == list);
                assert(t1.len() == list);
                assert(group_bases(t1).len() == list);
                assert forall|v: int| 0 <= v < list implies pScreenBlockFeatureStorage.pFeatureValuePointerList@[v]
                    == group_bases(t1)[v] by {
                    assert(pScreenBlockFeatureStorage.pLocationOfFeature@[v] == 2 * times_prefix(t1, v));
                }
                assert(pScreenBlockFeatureStorage.pFeatureValuePointerList@ =~= group_bases(t1));
            }
        },
        None => {},
    }
    match kernels.fill_qpel {
        Some(PFillQpelLocationByFeatureValueFunc::FillQpelLocationByFeatureValue_c) => {
            proof {
                lemma_tiled_layout(f1, n, t1, pScreenBlockFeatureStorage.pLocationPointer@.len() as int);
                assert(n == (if w > 0 && h > 0 { w * h } else { 0 }));
            }
            FillQpelLocationByFeatureValue_c(
                pFeatureOfBlock,
                w,
                h,
                pScreenBlockFeatureStorage.pLocationPointer.as_mut_slice(),
                pScreenBlockFeatureStorage.pFeatureValuePointerList.as_mut_slice(),
            );
        },
        None => {},
    }
    true
}


/// The quantiser of a picture's average QP clamped to the H.264 range.
pub open spec fn clamped_qp(qp: i32) -> int {
    if qp < 0 {
        0
    } else if qp > 51 {
        51
    } else {
        qp as int
    }
}

/// The feature search's 16x16 SAD threshold for a reference picture of
/// average QP `qp`: 30/8 of its quantiser step (times 16) plus 160.
pub open spec fn fme_threshold_16x16(qp: i32) -> int {
    (30 * (QStepx16ByQp[clamped_qp(qp)] + 160)) / 8
}

/// The feature pass of a reference picture (see `CalculateFeatureOfBlock`),
/// recording in the storage whether it ran; when it ran, the feature
/// search's SAD thresholds become `fme_threshold_16x16` for 16x16 blocks, a
/// quarter of it for 8x8 blocks and the largest value for 16x8, 8x16 and
/// 4x4 blocks.
pub fn PerformFMEPreprocess(
    kernels: &FmeKernels,
    pRef: &SPicture,
    pFeatureOfBlock: &mut [u16],
    pScreenBlockFeatureStorage: &mut SScreenBlockFeatureStorage,
)
    requires
        feature_pass_ok(*kernels, *pRef, old(pFeatureOfBlock)@.len() as int, *old(pScreenBlockFeatureStorage)),
    ensures
        ({
            let s0 = *old(pScreenBlockFeatureStorage);
            let s1 = *final(pScreenBlockFeatureStorage);
            let ran = old(pFeatureOfBlock)@.len() > 0 && s0.pTimesOfFeatureValue@.len() > 0
                && s0.pLocationOfFeature@.len() > 0 && s0.pLocationPointer@.len() > 0;
            let t = fme_threshold_16x16(pRef.iFrameAverageQp);
            &&& s1.bRefBlockFeatureCalculated == ran
            &&& !ran ==> final(pFeatureOfBlock)@ == old(pFeatureOfBlock)@ && s1 == (SScreenBlockFeatureStorage {
                bRefBlockFeatureCalculated: false,
                ..s0
            })
            &&& ran ==> {
                &&& feature_pass_result(
                    *kernels,
                    *pRef,
                    old(pFeatureOfBlock)@,
                    s0,
                    final(pFeatureOfBlock)@,
                    (SScreenBlockFeatureStorage {
                        bRefBlockFeatureCalculated: s0.bRefBlockFeatureCalculated,
                        uiSadCostThreshold: s0.uiSadCostThreshold,
                        ..s1
                    }),
                )
                &&& s1.uiSadCostThreshold[BLOCK_16x16 as int] == t
                &&& s1.uiSadCostThreshold[BLOCK_8x8 as int] == t / 4
                &&& s1.uiSadCostThreshold[BLOCK_16x8 as int] == u32::MAX
                &&& s1.uiSadCostThreshold[BLOCK_8x16 as int] == u32::MAX
                &&& s1.uiSadCostThreshold[BLOCK_4x4 as int] == u32::MAX
                &&& s1.uiSadCostThreshold[5] == s0.uiSadCostThreshold[5]
                &&& s1.uiSadCostThreshold[6] == s0.uiSadCostThreshold[6]
            }
        }),
{
    let calculated = CalculateFeatureOfBlock(kernels, pRef, pFeatureOfBlock, pScreenBlockFeatureStorage);
    pScreenBlockFeatureStorage.bRefBlockFeatureCalculated = calculated;
    if calculated {
        let qp = pRef.iFrameAverageQp;
        let qp_idx: usize = if qp < 0 {
            0
        } else if qp > 51 {
            51
        } else {
            qp as usize
        };
        assert(0 <= QStepx16ByQp[qp_idx as int] <= 3584);
        let uiRefPictureAvgQstepx16 = QStepx16ByQp[qp_idx] as u32;
        let x: u32 = 30 * (uiRefPictureAvgQstepx16 + 160);
        let uiSadCostThreshold16x16 = x >> 3u32;
        assert(x >> 3u32 == x / 8) by (bit_vector);
        assert(uiSadCostThreshold16x16 >> 2u32 == uiSadCostThreshold16x16 / 4) by (bit_vector);
        pScreenBlockFeatureStorage.uiSadCostThreshold[BLOCK_16x16] = uiSadCostThreshold16x16;
        pScreenBlockFeatureStorage.uiSadCostThreshold[BLOCK_8x8] = uiSadCostThreshold16x16 >> 2u32;
        pScreenBlockFeatureStorage.uiSadCostThreshold[BLOCK_16x8] = u32::MAX;
        pScreenBlockFeatureStorage.uiSadCostThreshold[BLOCK_8x16] = u32::MAX;
        pScreenBlockFeatureStorage.uiSadCostThreshold[BLOCK_4x4] = u32::MAX;
    }
}


/// What a feature search pass reads besides the reference's feature hash,
/// the planes and the motion-vector cost table: the SAD kernel of the block
/// size, the current block's feature, its position in whole and quarter
/// samples, the quarter-sample search window, the offsets that turn a
/// quarter-sample position into the difference to the predictor, and the
/// cost under which the search stops.
#[derive(Clone, Copy, Debug, Default)]
pub struct SFeatureSearchIn {
    pub pSad: Option<PSampleSadSatdCostFunc>,
    pub iMvdOffsetX: i32,
    pub iMvdOffsetY: i32,
    pub uiSadCostThresh: u16,
    pub iFeatureOfCurrent: i32,
    pub iCurPixX: i32,
    pub iCurPixY: i32,
    pub iCurPixXQpel: i32,
    pub iCurPixYQpel: i32,
    pub iMinQpelX: i32,
    pub iMinQpelY: i32,
    pub iMaxQpelX: i32,
    pub iMaxQpelY: i32,
}

/// A candidate at quarter-sample `(qx, qy)` is searched: it lies in the
/// window and differs from the current block in both components.
pub open spec fn fs_in_window(fin: SFeatureSearchIn, qx: int, qy: int) -> bool {
    !(qx > fin.iMaxQpelX || qx < fin.iMinQpelX || qy > fin.iMaxQpelY || qy < fin.iMinQpelY || qx == fin.iCurPixXQpel
        || qy == fin.iCurPixYQpel)
}

/// The rate of a candidate: the costs of both vector differences.
pub open spec fn fs_rate(fin: SFeatureSearchIn, tab: MvdCostCursor, qx: int, qy: int) -> int {
    tab.cost(qx + fin.iMvdOffsetX) + tab.cost(qy + fin.iMvdOffsetY)
}

/// The whole-sample displacement of a candidate.
pub open spec fn fs_disp(fin: SFeatureSearchIn, qx: int, qy: int) -> (int, int) {
    (qx / 4 - fin.iCurPixX, qy / 4 - fin.iCurPixY)
}

/// The cost of a candidate: its rate plus the SAD of the block it points to.
pub open spec fn fs_cost(
    fin: SFeatureSearchIn,
    tab: MvdCostCursor,
    enc: Seq<u8>,
    le: SPlaneLayout,
    refp: Seq<u8>,
    lr: SPlaneLayout,
    qx: int,
    qy: int,
) -> int {
    fs_rate(fin, tab, qx, qy) + displaced_sad(
        fin.pSad,
        enc,
        le,
        refp,
        lr,
        fin.iCurPixX as int,
        fin.iCurPixY as int,
        fs_disp(fin, qx, qy).0,
        fs_disp(fin, qx, qy).1,
    )
}

/// The rate filter: a candidate whose rate, plus the feature difference
/// (wrapping at 32 bits), is not below the best cost is skipped.
pub open spec fn fs_rate_skips(fin: SFeatureSearchIn, tab: MvdCostCursor, qx: int, qy: int, diff: i32, best: u32) -> bool {
    (fs_rate(fin, tab, qx, qy) + (diff as u32)) % 0x1_0000_0000 >= best
}

/// The search over the candidates `k..n` of a feature group at `pos` of the
/// arena, from the best vector and cost so far: each searched candidate
/// that the rate filter keeps and whose cost undercuts the best becomes the
/// best; the search stops as soon as the best cost is under the threshold.
/// The flag says whether it stopped so.
pub open spec fn fs_scan(
    fin: SFeatureSearchIn,
    tab: MvdCostCursor,
    enc: Seq<u8>,
    le: SPlaneLayout,
    refp: Seq<u8>,
    lr: SPlaneLayout,
    arena: Seq<u16>,
    pos: int,
    diff: i32,
    k: int,
    n: int,
    mv: SMVUnitXY,
    cost: u32,
) -> (SMVUnitXY, u32, bool)
    decreases n - k,
{
    if k >= n {
        (mv, cost, false)
    } else {
        let qx = arena[pos + 2 * k] as int;
        let qy = arena[pos + 2 * k + 1] as int;
        if !fs_in_window(fin, qx, qy) || fs_rate_skips(fin, tab, qx, qy, diff, cost) {
            fs_scan(fin, tab, enc, le, refp, lr, arena, pos, diff, k + 1, n, mv, cost)
        } else {
            let t = fs_cost(fin, tab, enc, le, refp, lr, qx, qy);
            if t < cost {
                let mv2 = SMVUnitXY { iMvX: fs_disp(fin, qx, qy).0 as i16, iMvY: fs_disp(fin, qx, qy).1 as i16 };
                if t < fin.uiSadCostThresh {
                    (mv2, t as u32, true)
                } else {
                    fs_scan(fin, tab, enc, le, refp, lr, arena, pos, diff, k + 1, n, mv2, t as u32)
                }
            } else {
                fs_scan(fin, tab, enc, le, refp, lr, arena, pos, diff, k + 1, n, mv, cost)
            }
        }
    }
}

/// The feature value a pass with difference `diff` searches.
pub open spec fn fs_value(fin: SFeatureSearchIn, diff: i32) -> int {
    fin.iFeatureOfCurrent + diff
}

/// The number of candidates of the pass: the positions of the value, at most
/// the expected number.
pub open spec fn fs_count(st: SScreenBlockFeatureStorage, f: int, expected: u32) -> int {
    let times = st.pTimesOfFeatureValue@[f] as int;
    if times < expected {
        times
    } else {
        expected as int
    }
}

/// A searched candidate can be costed: both differences are in the cost
/// table and both blocks lie in their planes.
pub open spec fn fs_candidate_ok(
    fin: SFeatureSearchIn,
    tab: MvdCostCursor,
    enc: Seq<u8>,
    le: SPlaneLayout,
    refp: Seq<u8>,
    lr: SPlaneLayout,
    qx: int,
    qy: int,
) -> bool {
    &&& i32::MIN <= qx + fin.iMvdOffsetX <= i32::MAX
    &&& i32::MIN <= qy + fin.iMvdOffsetY <= i32::MAX
    &&& tab.covers(qx + fin.iMvdOffsetX)
    &&& tab.covers(qy + fin.iMvdOffsetY)
    &&& -0x10000 <= fs_disp(fin, qx, qy).0 <= 0x10000
    &&& -0x10000 <= fs_disp(fin, qx, qy).1 <= 0x10000
    &&& displaced_fits(
        fin.pSad,
        enc,
        le,
        refp,
        lr,
        fin.iCurPixX as int,
        fin.iCurPixY as int,
        fs_disp(fin, qx, qy).0,
        fs_disp(fin, qx, qy).1,
    )
}

/// What a feature search pass needs: the searched value has a count and a
/// group, its candidates lie in the arena, and every candidate in the window
/// can be costed.
pub open spec fn fs_ok(
    fin: SFeatureSearchIn,
    st: SScreenBlockFeatureStorage,
    tab: MvdCostCursor,
    enc: Seq<u8>,
    le: SPlaneLayout,
    refp: Seq<u8>,
    lr: SPlaneLayout,
    diff: i32,
    expected: u32,
) -> bool {
    let f = fs_value(fin, diff);
    &&& i32::MIN <= f <= i32::MAX
    &&& -0x10000 <= fin.iCurPixX <= 0x10000
    &&& -0x10000 <= fin.iCurPixY <= 0x10000
    &&& 0 <= f < LIST_SIZE ==> {
        let n = fs_count(st, f, expected);
        let pos = st.pLocationOfFeature@[f] as int;
        &&& f < st.pTimesOfFeatureValue@.len()
        &&& f < st.pLocationOfFeature@.len()
        &&& n <= 0x3fff_ffff
        &&& pos + 2 * n <= st.pLocationPointer@.len()
        &&& forall|k: int|
            0 <= k < n && fs_in_window(
                fin,
                st.pLocationPointer@[pos + 2 * k] as int,
                st.pLocationPointer@[pos + 2 * k + 1] as int,
            ) ==> #[trigger] fs_candidate_ok(
                fin,
                tab,
                enc,
                le,
                refp,
                lr,
                st.pLocationPointer@[pos + 2 * k] as int,
                st.pLocationPointer@[pos + 2 * k + 1] as int,
            )
    }
}

/// One pass of the feature search over the reference positions whose
/// feature is the current block's plus `iFeatureDifference`, at most
/// `kuiExpectedSearchTimes` of them, from the best vector and cost in
/// `pFeatureSearchOut`: see `fs_scan`. A value outside the feature range is
/// not searched and answers `true`; otherwise the answer is whether the
/// search stopped under the threshold.
#[verifier::rlimit(60)]
pub fn FeatureSearchOne(
    sFeatureSearchIn: &SFeatureSearchIn,
    pStorage: &SScreenBlockFeatureStorage,
    kpMvdCost: &MvdCostCursor,
    pEnc: &[u8],
    sEnc: SPlaneLayout,
    pRef: &[u8],
    sRef: SPlaneLayout,
    iFeatureDifference: i32,
    kuiExpectedSearchTimes: u32,
    pFeatureSearchOut: &mut SFeatureSearchOut,
) -> (r: bool)
    requires
        fs_ok(*sFeatureSearchIn, *pStorage, *kpMvdCost, pEnc@, sEnc, pRef@, sRef, iFeatureDifference, kuiExpectedSearchTimes),
    ensures
        ({
            let fin = *sFeatureSearchIn;
            let f = fs_value(fin, iFeatureDifference);
            if 0 <= f < LIST_SIZE {
                let (mv, c, stopped) = fs_scan(
                    fin,
                    *kpMvdCost,
                    pEnc@,
                    sEnc,
                    pRef@,
                    sRef,
                    pStorage.pLocationPointer@,
                    pStorage.pLocationOfFeature@[f] as int,
                    iFeatureDifference,
                    0,
                    fs_count(*pStorage, f, kuiExpectedSearchTimes),
                    old(pFeatureSearchOut).sBestMv,
                    old(pFeatureSearchOut).uiBestSadCost,
                );
                &&& *final(pFeatureSearchOut) == (SFeatureSearchOut { sBestMv: mv, uiBestSadCost: c })
                &&& r == stopped
                &&& c <= old(pFeatureSearchOut).uiBestSadCost
                &&& c == old(pFeatureSearchOut).uiBestSadCost ==> mv == old(pFeatureSearchOut).sBestMv
                &&& r <==> (c < old(pFeatureSearchOut).uiBestSadCost && c < fin.uiSadCostThresh)
            } else {
                &&& *final(pFeatureSearchOut) == *old(pFeatureSearchOut)
                &&& r
            }
        }),
{
    proof {
        let f = fs_value(*sFeatureSearchIn, iFeatureDifference);
        let args = (
            pStorage.pLocationOfFeature@[f] as int,
            fs_count(*pStorage, f, kuiExpectedSearchTimes),
        );
        law_feature_search_never_worsens(*sFeatureSearchIn, *kpMvdCost, pEnc@, sEnc, pRef@, sRef,
            pStorage.pLocationPointer@, args.0, iFeatureDifference, 0, args.1, pFeatureSearchOut.sBestMv,
            pFeatureSearchOut.uiBestSadCost);
        law_feature_search_stops_under_threshold(*sFeatureSearchIn, *kpMvdCost, pEnc@, sEnc, pRef@, sRef,
            pStorage.pLocationPointer@, args.0, iFeatureDifference, 0, args.1, pFeatureSearchOut.sBestMv,
            pFeatureSearchOut.uiBestSadCost);
    }
    let fin = *sFeatureSearchIn;
    let iFeatureOfRef = fin.iFeatureOfCurrent + iFeatureDifference;
    if iFeatureOfRef < 0 || iFeatureOfRef >= LIST_SIZE {
        return true;
    }
    let fu = iFeatureOfRef as usize;
    let times = pStorage.pTimesOfFeatureValue[fu];
    let iSearchTimes: i32 = if times < kuiExpectedSearchTimes {
        times as i32
    } else {
        kuiExpectedSearchTimes as i32
    };
    let iSearchTimesx2: i32 = iSearchTimes * 2;
    let pQpelPosition = pStorage.pLocationOfFeature[fu];
    let ghost n = fs_count(*pStorage, iFeatureOfRef as int, kuiExpectedSearchTimes);
    let ghost pos = pQpelPosition as int;
    let ghost arena = pStorage.pLocationPointer@;
    let ghost target = fs_scan(
        fin,
        *kpMvdCost,
        pEnc@,
        sEnc,
        pRef@,
        sRef,
        arena,
        pos,
        iFeatureDifference,
        0,
        n,
        pFeatureSearchOut.sBestMv,
        pFeatureSearchOut.uiBestSadCost,
    );
    let alen = pStorage.pLocationPointer.len();
    let mut sBestMv = pFeatureSearchOut.sBestMv;
    let mut uiBestCost = pFeatureSearchOut.uiBestSadCost;
    let mut stopped = false;
    let mut i: i32 = 0;
    while i < iSearchTimesx2
        invariant_except_break
            !stopped,
            target == fs_scan(
                fin,
                *kpMvdCost,
                pEnc@,
                sEnc,
                pRef@,
                sRef,
                arena,
                pos,
                iFeatureDifference,
                i / 2,
                n,
                sBestMv,
                uiBestCost,
            ),
        invariant
            n == iSearchTimes,
            iSearchTimesx2 == 2 * n,
            0 <= n <= 0x3fff_ffff,
            0 <= i <= iSearchTimesx2,
            i % 2 == 0,
            alen == arena.len(),
            pos + 2 * n <= arena.len(),
            arena == pStorage.pLocationPointer@,
            pos == pQpelPosition,
            fin == *sFeatureSearchIn,
            -0x10000 <= fin.iCurPixX <= 0x10000,
            -0x10000 <= fin.iCurPixY <= 0x10000,
            forall|k: int|
                0 <= k < n && fs_in_window(fin, arena[pos + 2 * k] as int, arena[pos + 2 * k + 1] as int)
                    ==> #[trigger] fs_candidate_ok(
                    fin,
                    *kpMvdCost,
                    pEnc@,
                    sEnc,
                    pRef@,
                    sRef,
                    arena[pos + 2 * k] as int,
                    arena[pos + 2 * k + 1] as int,
                ),
        ensures
            target == (if stopped {
                (sBestMv, uiBestCost, true)
            } else {
                fs_scan(
                    fin,
                    *kpMvdCost,
                    pEnc@,
                    sEnc,
                    pRef@,
                    sRef,
                    arena,
                    pos,
                    iFeatureDifference,
                    i / 2,
                    n,
                    sBestMv,
                    uiBestCost,
                )
            }),
            stopped || i >= iSearchTimesx2,
            stopped ==> i < iSearchTimesx2,
        decreases iSearchTimesx2 - i,
    {
        let ghost k = i / 2;
        let iu = i as usize;
        let iQpelX = pStorage.pLocationPointer[pQpelPosition + iu] as i32;
        let iQpelY = pStorage.pLocationPointer[pQpelPosition + iu + 1] as i32;
        assert(pos + 2 * k == pQpelPosition + iu);
        if iQpelX > fin.iMaxQpelX || iQpelX < fin.iMinQpelX || iQpelY > fin.iMaxQpelY || iQpelY < fin.iMinQpelY
            || iQpelX == fin.iCurPixXQpel || iQpelY == fin.iCurPixYQpel {
            i = i + 2;
            continue;
        }
        assert(fs_candidate_ok(fin, *kpMvdCost, pEnc@, sEnc, pRef@, sRef, iQpelX as int, iQpelY as int));
        let mut uiTmpCost: u32 = (kpMvdCost.at(iQpelX + fin.iMvdOffsetX) as u32) + (kpMvdCost.at(
            iQpelY + fin.iMvdOffsetY,
        ) as u32);
        if uiTmpCost.wrapping_add(iFeatureDifference as u32) >= uiBestCost {
            i = i + 2;
            continue;
        }
        let sx = iQpelX >> 2u32;
        let sy = iQpelY >> 2u32;
        proof {
            assert((iQpelX >> 2u32) == iQpelX / 4) by (bit_vector)
                requires
                    0 <= iQpelX,
            ;
            assert((iQpelY >> 2u32) == iQpelY / 4) by (bit_vector)
                requires
                    0 <= iQpelY,
            ;
        }
        let iIntepelX = sx - fin.iCurPixX;
        let iIntepelY = sy - fin.iCurPixY;
        let sad = displaced_sad_of(fin.pSad, pEnc, sEnc, pRef, sRef, fin.iCurPixX, fin.iCurPixY, iIntepelX, iIntepelY);
        uiTmpCost = uiTmpCost + sad as u32;
        if uiTmpCost < uiBestCost {
            sBestMv = SMVUnitXY { iMvX: iIntepelX as i16, iMvY: iIntepelY as i16 };
            uiBestCost = uiTmpCost;
            if uiBestCost < fin.uiSadCostThresh as u32 {
                stopped = true;
                break;
            }
        }
        i = i + 2;
    }
    SaveFeatureSearchOut(sBestMv, uiBestCost, pFeatureSearchOut);
    proof {
        if !stopped {
            assert(i / 2 >= n);
        }
    }
    stopped
}


/// The single-block feature kernel of a block size: the 16x16 sum for 16x16
/// blocks, the 8x8 sum otherwise.
pub open spec fn single_kernel(funcs: SMeFuncs, block: int) -> Option<PCalculateSingleBlockFeature> {
    if block == BLOCK_16x16 {
        funcs.pfCalculateSingleBlockFeature[1]
    } else {
        funcs.pfCalculateSingleBlockFeature[0]
    }
}

/// The side of the block a single-block feature kernel sums.
pub open spec fn single_kernel_side(k: PCalculateSingleBlockFeature) -> int {
    match k {
        PCalculateSingleBlockFeature::sum_of_8x8_single_block => 8,
        PCalculateSingleBlockFeature::sum_of_16x16_single_block => 16,
    }
}

/// The feature of the current block: the single-block kernel's sum at the
/// block's position, or `old` without a kernel.
pub open spec fn current_feature(funcs: SMeFuncs, me: SWelsME, enc: Seq<u8>, le: SPlaneLayout, old: i32) -> int {
    match single_kernel(funcs, me.uiBlockSize as int) {
        Some(k) => block_sum(
            enc,
            sample_at(le, me.iCurMeBlockPixX as int, me.iCurMeBlockPixY as int),
            le.iStride as int,
            single_kernel_side(k),
            single_kernel_side(k),
        ),
        None => old as int,
    }
}

/// The feature search input of block search `me` over the start window
/// `[min, max]` (whole samples), built on `base`: the block size's SAD
/// kernel, the current feature, the threshold, the position in whole and
/// quarter samples; with a feature hash also the predictor offsets and the
/// quarter-sample window.
pub open spec fn feature_search_in(
    funcs: SMeFuncs,
    sdf: SSampleDealingFunc,
    me: SWelsME,
    min: SMVUnitXY,
    max: SMVUnitXY,
    has_storage: bool,
    enc: Seq<u8>,
    le: SPlaneLayout,
    base: SFeatureSearchIn,
) -> SFeatureSearchIn {
    let xq = 4 * me.iCurMeBlockPixX;
    let yq = 4 * me.iCurMeBlockPixY;
    let set = SFeatureSearchIn {
        pSad: sdf.pfSampleSad[me.uiBlockSize as int],
        iFeatureOfCurrent: current_feature(funcs, me, enc, le, base.iFeatureOfCurrent) as i32,
        uiSadCostThresh: me.uiSadCostThreshold as u16,
        iCurPixX: me.iCurMeBlockPixX,
        iCurPixY: me.iCurMeBlockPixY,
        iCurPixXQpel: xq as i32,
        iCurPixYQpel: yq as i32,
        ..base
    };
    if has_storage {
        SFeatureSearchIn {
            iMvdOffsetX: (-xq - me.sMvp.iMvX) as i32,
            iMvdOffsetY: (-yq - me.sMvp.iMvY) as i32,
            iMinQpelX: (xq + 4 * min.iMvX) as i32,
            iMinQpelY: (yq + 4 * min.iMvY) as i32,
            iMaxQpelX: (xq + 4 * max.iMvX) as i32,
            iMaxQpelY: (yq + 4 * max.iMvY) as i32,
            ..set
        }
    } else {
        set
    }
}

/// What setting up a feature search needs: a block size with a kernel slot,
/// a block near the picture, and the current block inside the encoded plane
/// for the single-block kernel.
pub open spec fn feature_search_in_ok(funcs: SMeFuncs, me: SWelsME, enc: Seq<u8>, le: SPlaneLayout) -> bool {
    &&& me.uiBlockSize < 7
    &&& -0x10000 <= me.iCurMeBlockPixX <= 0x10000
    &&& -0x10000 <= me.iCurMeBlockPixY <= 0x10000
    &&& single_kernel(funcs, me.uiBlockSize as int) matches Some(k) ==> {
        let m = single_kernel_side(k);
        &&& layout_ok(le, me.iCurMeBlockPixX as int, me.iCurMeBlockPixY as int)
        &&& le.iStride <= 0x1000000
        &&& 0 <= sample_at(le, me.iCurMeBlockPixX as int, me.iCurMeBlockPixY as int) <= usize::MAX
        &&& sample_at(le, me.iCurMeBlockPixX as int, me.iCurMeBlockPixY as int) + (m - 1) * le.iStride + m <= enc.len()
    }
}

/// Sets up the feature search of block search `sMe`: see
/// `feature_search_in`. Answers whether the search can run: there is a
/// feature hash with non-empty counts and groups, and a SAD kernel.
pub fn SetFeatureSearchIn(
    pMeFuncs: &SMeFuncs,
    sdf: &SSampleDealingFunc,
    sMe: &SWelsME,
    ksMvStartMin: SMVUnitXY,
    ksMvStartMax: SMVUnitXY,
    pRefFeatureStorage: Option<&SScreenBlockFeatureStorage>,
    pEnc: &[u8],
    sEnc: SPlaneLayout,
    pFeatureSearchIn: &mut SFeatureSearchIn,
) -> (r: bool)
    requires
        feature_search_in_ok(*pMeFuncs, *sMe, pEnc@, sEnc),
    ensures
        *final(pFeatureSearchIn) == feature_search_in(
            *pMeFuncs,
            *sdf,
            *sMe,
            ksMvStartMin,
            ksMvStartMax,
            pRefFeatureStorage is Some,
            pEnc@,
            sEnc,
            *old(pFeatureSearchIn),
        ),
        r == (match pRefFeatureStorage {
            Some(st) => sdf.pfSampleSad[sMe.uiBlockSize as int] is Some && st.pTimesOfFeatureValue@.len() > 0
                && st.pLocationOfFeature@.len() > 0,
            None => false,
        }),
{
    let block_size = sMe.uiBlockSize as usize;
    pFeatureSearchIn.pSad = sdf.pfSampleSad[block_size];
    let single = if block_size == BLOCK_16x16 {
        pMeFuncs.pfCalculateSingleBlockFeature[1]
    } else {
        pMeFuncs.pfCalculateSingleBlockFeature[0]
    };
    match single {
        Some(k) => {
            let off = plane_offset(sEnc, sMe.iCurMeBlockPixX, sMe.iCurMeBlockPixY);
            let stride = sEnc.iStride as i32;
            pFeatureSearchIn.iFeatureOfCurrent = match k {
                PCalculateSingleBlockFeature::sum_of_8x8_single_block => sum_of_8x8_single_block(pEnc, off, stride),
                PCalculateSingleBlockFeature::sum_of_16x16_single_block => sum_of_16x16_single_block(
                    pEnc,
                    off,
                    stride,
                ),
            };
        },
        None => {},
    }
    pFeatureSearchIn.uiSadCostThresh = sMe.uiSadCostThreshold as u16;
    pFeatureSearchIn.iCurPixX = sMe.iCurMeBlockPixX;
    pFeatureSearchIn.iCurPixXQpel = sMe.iCurMeBlockPixX * 4;
    pFeatureSearchIn.iCurPixY = sMe.iCurMeBlockPixY;
    pFeatureSearchIn.iCurPixYQpel = sMe.iCurMeBlockPixY * 4;
    let storage = match pRefFeatureStorage {
        Some(st) => st,
        None => {
            return false;
        },
    };
    pFeatureSearchIn.iMvdOffsetX = -pFeatureSearchIn.iCurPixXQpel - sMe.sMvp.iMvX as i32;
    pFeatureSearchIn.iMvdOffsetY = -pFeatureSearchIn.iCurPixYQpel - sMe.sMvp.iMvY as i32;
    pFeatureSearchIn.iMinQpelX = pFeatureSearchIn.iCurPixXQpel + ksMvStartMin.iMvX as i32 * 4;
    pFeatureSearchIn.iMinQpelY = pFeatureSearchIn.iCurPixYQpel + ksMvStartMin.iMvY as i32 * 4;
    pFeatureSearchIn.iMaxQpelX = pFeatureSearchIn.iCurPixXQpel + ksMvStartMax.iMvX as i32 * 4;
    pFeatureSearchIn.iMaxQpelY = pFeatureSearchIn.iCurPixYQpel + ksMvStartMax.iMvY as i32 * 4;
    !(pFeatureSearchIn.pSad.is_none() || storage.pTimesOfFeatureValue.len() == 0
        || storage.pLocationOfFeature.len() == 0)
}

/// The block search after a full feature search with `in`: the pass over
/// the positions sharing the current feature (at most `max_points` of
/// them), from the search's vector and cost, replaces them when it found a
/// cheaper one.
pub open spec fn feature_full_search_result(
    fin: SFeatureSearchIn,
    st: SScreenBlockFeatureStorage,
    tab: MvdCostCursor,
    enc: Seq<u8>,
    le: SPlaneLayout,
    refp: Seq<u8>,
    lr: SPlaneLayout,
    max_points: u32,
    me: SWelsME,
) -> SWelsME {
    let f = fs_value(fin, 0);
    if 0 <= f < LIST_SIZE {
        let (mv, c, _) = fs_scan(
            fin,
            tab,
            enc,
            le,
            refp,
            lr,
            st.pLocationPointer@,
            st.pLocationOfFeature@[f] as int,
            0,
            0,
            fs_count(st, f, max_points),
            me.sMv,
            me.uiSadCost,
        );
        if c < me.uiSadCost {
            SWelsME { sMv: mv, uiSadCost: c, ..me }
        } else {
            me
        }
    } else {
        me
    }
}

/// The full feature search of a block: see `feature_full_search_result`.
pub fn MotionEstimateFeatureFullSearch(
    sFeatureSearchIn: SFeatureSearchIn,
    pStorage: &SScreenBlockFeatureStorage,
    kpMvdCost: &MvdCostCursor,
    pEnc: &[u8],
    sEnc: SPlaneLayout,
    pRef: &[u8],
    sRef: SPlaneLayout,
    kuiMaxSearchPoint: u32,
    pMe: &mut SWelsME,
)
    requires
        fs_ok(sFeatureSearchIn, *pStorage, *kpMvdCost, pEnc@, sEnc, pRef@, sRef, 0, kuiMaxSearchPoint),
    ensures
        *final(pMe) == feature_full_search_result(
            sFeatureSearchIn,
            *pStorage,
            *kpMvdCost,
            pEnc@,
            sEnc,
            pRef@,
            sRef,
            kuiMaxSearchPoint,
            *old(pMe),
        ),
{
    let mut sFeatureSearchOut = SFeatureSearchOut { sBestMv: pMe.sMv, uiBestSadCost: pMe.uiSadCost };
    let iFeatureDifference: i32 = 0;
    FeatureSearchOne(
        &sFeatureSearchIn,
        pStorage,
        kpMvdCost,
        pEnc,
        sEnc,
        pRef,
        sRef,
        iFeatureDifference,
        kuiMaxSearchPoint,
        &mut sFeatureSearchOut,
    );
    if sFeatureSearchOut.uiBestSadCost < pMe.uiSadCost {
        UpdateMeResults(sFeatureSearchOut.sBestMv, sFeatureSearchOut.uiBestSadCost, pMe);
    }
}

/// A candidate's cost fits in 32 bits.
proof fn lemma_fs_cost_bound(
    fin: SFeatureSearchIn,
    tab: MvdCostCursor,
    enc: Seq<u8>,
    le: SPlaneLayout,
    refp: Seq<u8>,
    lr: SPlaneLayout,
    qx: int,
    qy: int,
)
    ensures
        0 <= fs_cost(fin, tab, enc, le, refp, lr, qx, qy) < u32::MAX,
{
    let x = fin.iCurPixX as int;
    let y = fin.iCurPixY as int;
    let (dx, dy) = fs_disp(fin, qx, qy);
    match fin.pSad {
        Some(k) => {
            lemma_block_sad_bound(
                enc,
                sample_at(le, x, y),
                le.iStride as int,
                refp,
                sample_at(lr, x + dx, y + dy),
                lr.iStride as int,
                sad_dims(k).0,
                sad_dims(k).1,
            );
            assert(255 * sad_dims(k).0 * sad_dims(k).1 <= 255 * 256) by (nonlinear_arith)
                requires
                    sad_dims(k).0 <= 16,
                    sad_dims(k).1 <= 16,
                    0 <= sad_dims(k).0,
                    0 <= sad_dims(k).1,
            ;
        },
        None => {},
    }
}

/// A feature search pass never ends above the cost it started from; when it
/// ends below, its vector and cost are those of one of its candidates: a
/// searched position of the window, kept by the rate filter, at its whole-
/// sample displacement and with its cost.
pub proof fn law_feature_search_never_worsens(
    fin: SFeatureSearchIn,
    tab: MvdCostCursor,
    enc: Seq<u8>,
    le: SPlaneLayout,
    refp: Seq<u8>,
    lr: SPlaneLayout,
    arena: Seq<u16>,
    pos: int,
    diff: i32,
    k: int,
    n: int,
    mv: SMVUnitXY,
    cost: u32,
)
    ensures
        ({
            let (mv2, c2, _) = fs_scan(fin, tab, enc, le, refp, lr, arena, pos, diff, k, n, mv, cost);
            &&& c2 <= cost
            &&& c2 < cost ==> exists|j: int|
                #![trigger arena[pos + 2 * j]]
                k <= j < n && {
                    let qx = arena[pos + 2 * j] as int;
                    let qy = arena[pos + 2 * j + 1] as int;
                    &&& fs_in_window(fin, qx, qy)
                    &&& c2 == fs_cost(fin, tab, enc, le, refp, lr, qx, qy)
                    &&& mv2 == SMVUnitXY {
                        iMvX: fs_disp(fin, qx, qy).0 as i16,
                        iMvY: fs_disp(fin, qx, qy).1 as i16,
                    }
                }
        }),
    decreases n - k,
{
    if k < n {
        let qx = arena[pos + 2 * k] as int;
        let qy = arena[pos + 2 * k + 1] as int;
        if !fs_in_window(fin, qx, qy) || fs_rate_skips(fin, tab, qx, qy, diff, cost) {
            law_feature_search_never_worsens(fin, tab, enc, le, refp, lr, arena, pos, diff, k + 1, n, mv, cost);
        } else {
            let t = fs_cost(fin, tab, enc, le, refp, lr, qx, qy);
            lemma_fs_cost_bound(fin, tab, enc, le, refp, lr, qx, qy);
            if t < cost {
                let mv2 = SMVUnitXY { iMvX: fs_disp(fin, qx, qy).0 as i16, iMvY: fs_disp(fin, qx, qy).1 as i16 };
                if t >= fin.uiSadCostThresh {
                    law_feature_search_never_worsens(
                        fin,
                        tab,
                        enc,
                        le,
                        refp,
                        lr,
                        arena,
                        pos,
                        diff,
                        k + 1,
                        n,
                        mv2,
                        t as u32,
                    );
                    let (mv3, c3, _) = fs_scan(fin, tab, enc, le, refp, lr, arena, pos, diff, k + 1, n, mv2, t as u32);
                    if c3 == t {
                        assert(mv3 == mv2) by {
                            lemma_fs_scan_keeps(fin, tab, enc, le, refp, lr, arena, pos, diff, k + 1, n, mv2, t as u32);
                        }
                    }
                }
            } else {
                law_feature_search_never_worsens(fin, tab, enc, le, refp, lr, arena, pos, diff, k + 1, n, mv, cost);
            }
        }
    }
}

/// A pass that ends at the cost it started from keeps its vector.
proof fn lemma_fs_scan_keeps(
    fin: SFeatureSearchIn,
    tab: MvdCostCursor,
    enc: Seq<u8>,
    le: SPlaneLayout,
    refp: Seq<u8>,
    lr: SPlaneLayout,
    arena: Seq<u16>,
    pos: int,
    diff: i32,
    k: int,
    n: int,
    mv: SMVUnitXY,
    cost: u32,
)
    ensures
        fs_scan(fin, tab, enc, le, refp, lr, arena, pos, diff, k, n, mv, cost).1 == cost ==> fs_scan(
            fin,
            tab,
            enc,
            le,
            refp,
            lr,
            arena,
            pos,
            diff,
            k,
            n,
            mv,
            cost,
        ).0 == mv,
        fs_scan(fin, tab, enc, le, refp, lr, arena, pos, diff, k, n, mv, cost).1 <= cost,
    decreases n - k,
{
    if k < n {
        let qx = arena[pos + 2 * k] as int;
        let qy = arena[pos + 2 * k + 1] as int;
        if !fs_in_window(fin, qx, qy) || fs_rate_skips(fin, tab, qx, qy, diff, cost) {
            lemma_fs_scan_keeps(fin, tab, enc, le, refp, lr, arena, pos, diff, k + 1, n, mv, cost);
        } else {
            let t = fs_cost(fin, tab, enc, le, refp, lr, qx, qy);
            lemma_fs_cost_bound(fin, tab, enc, le, refp, lr, qx, qy);
            if t < cost {
                let mv2 = SMVUnitXY { iMvX: fs_disp(fin, qx, qy).0 as i16, iMvY: fs_disp(fin, qx, qy).1 as i16 };
                if t >= fin.uiSadCostThresh {
                    lemma_fs_scan_keeps(fin, tab, enc, le, refp, lr, arena, pos, diff, k + 1, n, mv2, t as u32);
                }
            } else {
                lemma_fs_scan_keeps(fin, tab, enc, le, refp, lr, arena, pos, diff, k + 1, n, mv, cost);
            }
        }
    }
}


/// A feature search pass stops early exactly when it found a candidate
/// cheaper than both the cost it started from and the threshold: its flag is
/// set if and only if it ends under both. A pass that ends at the cost it
/// started from keeps its vector.
pub proof fn law_feature_search_stops_under_threshold(
    fin: SFeatureSearchIn,
    tab: MvdCostCursor,
    enc: Seq<u8>,
    le: SPlaneLayout,
    refp: Seq<u8>,
    lr: SPlaneLayout,
    arena: Seq<u16>,
    pos: int,
    diff: i32,
    k: int,
    n: int,
    mv: SMVUnitXY,
    cost: u32,
)
    ensures
        ({
            let (mv2, c2, stopped) = fs_scan(fin, tab, enc, le, refp, lr, arena, pos, diff, k, n, mv, cost);
            &&& stopped <==> (c2 < cost && c2 < fin.uiSadCostThresh)
            &&& c2 == cost ==> mv2 == mv
        }),
    decreases n - k,
{
    law_feature_search_never_worsens(fin, tab, enc, le, refp, lr, arena, pos, diff, k, n, mv, cost);
    lemma_fs_scan_keeps(fin, tab, enc, le, refp, lr, arena, pos, diff, k, n, mv, cost);
    if k < n {
        let qx = arena[pos + 2 * k] as int;
        let qy = arena[pos + 2 * k + 1] as int;
        if !fs_in_window(fin, qx, qy) || fs_rate_skips(fin, tab, qx, qy, diff, cost) {
            law_feature_search_stops_under_threshold(fin, tab, enc, le, refp, lr, arena, pos, diff, k + 1, n, mv, cost);
        } else {
            let t = fs_cost(fin, tab, enc, le, refp, lr, qx, qy);
            lemma_fs_cost_bound(fin, tab, enc, le, refp, lr, qx, qy);
            if t < cost {
                let mv2 = SMVUnitXY { iMvX: fs_disp(fin, qx, qy).0 as i16, iMvY: fs_disp(fin, qx, qy).1 as i16 };
                if t >= fin.uiSadCostThresh {
                    law_feature_search_stops_under_threshold(fin, tab, enc, le, refp, lr, arena, pos, diff, k + 1, n, mv2, t as u32);
                    law_feature_search_never_worsens(fin, tab, enc, le, refp, lr, arena, pos, diff, k + 1, n, mv2, t as u32);
                }
            } else {
                law_feature_search_stops_under_threshold(fin, tab, enc, le, refp, lr, arena, pos, diff, k + 1, n, mv, cost);
            }
        }
    }
}

/// A feature search pass over `n` candidates reads no other entry of the
/// arena: two arenas that agree on the candidates `k..n` give the same pass.
pub proof fn law_feature_search_reads_only_its_candidates(
    fin: SFeatureSearchIn,
    tab: MvdCostCursor,
    enc: Seq<u8>,
    le: SPlaneLayout,
    refp: Seq<u8>,
    lr: SPlaneLayout,
    arena: Seq<u16>,
    other: Seq<u16>,
    pos: int,
    diff: i32,
    k: int,
    n: int,
    mv: SMVUnitXY,
    cost: u32,
)
    requires
        forall|i: int| pos + 2 * k <= i < pos + 2 * n ==> #[trigger] other[i] == arena[i],
    ensures
        fs_scan(fin, tab, enc, le, refp, lr, other, pos, diff, k, n, mv, cost) == fs_scan(
            fin,
            tab,
            enc,
            le,
            refp,
            lr,
            arena,
            pos,
            diff,
            k,
            n,
            mv,
            cost,
        ),
    decreases n - k,
{
    if k < n {
        assert(other[pos + 2 * k] == arena[pos + 2 * k]);
        assert(other[pos + 2 * k + 1] == arena[pos + 2 * k + 1]);
        let qx = arena[pos + 2 * k] as int;
        let qy = arena[pos + 2 * k + 1] as int;
        let t = fs_cost(fin, tab, enc, le, refp, lr, qx, qy);
        let mv2 = SMVUnitXY { iMvX: fs_disp(fin, qx, qy).0 as i16, iMvY: fs_disp(fin, qx, qy).1 as i16 };
        law_feature_search_reads_only_its_candidates(fin, tab, enc, le, refp, lr, arena, other, pos, diff, k + 1, n, mv, cost);
        law_feature_search_reads_only_its_candidates(fin, tab, enc, le, refp, lr, arena, other, pos, diff, k + 1, n, mv2, t as u32);
    }
}

/// The feature search input with every entry zero and no SAD kernel.
pub open spec fn fs_in_zero() -> SFeatureSearchIn {
    SFeatureSearchIn {
        pSad: None,
        iMvdOffsetX: 0,
        iMvdOffsetY: 0,
        uiSadCostThresh: 0,
        iFeatureOfCurrent: 0,
        iCurPixX: 0,
        iCurPixY: 0,
        iCurPixXQpel: 0,
        iCurPixYQpel: 0,
        iMinQpelX: 0,
        iMinQpelY: 0,
        iMaxQpelX: 0,
        iMaxQpelY: 0,
    }
}

/// Whether a pass can run does not depend on its threshold.
proof fn lemma_fs_ok_any_threshold(
    fin: SFeatureSearchIn,
    fin2: SFeatureSearchIn,
    st: SScreenBlockFeatureStorage,
    tab: MvdCostCursor,
    enc: Seq<u8>,
    le: SPlaneLayout,
    refp: Seq<u8>,
    lr: SPlaneLayout,
    diff: i32,
    expected: u32,
)
    requires
        fs_ok(fin, st, tab, enc, le, refp, lr, diff, expected),
        fin2 == (SFeatureSearchIn { uiSadCostThresh: fin2.uiSadCostThresh, ..fin }),
    ensures
        fs_ok(fin2, st, tab, enc, le, refp, lr, diff, expected),
{
    let f = fs_value(fin, diff);
    if 0 <= f < LIST_SIZE {
        let n = fs_count(st, f, expected);
        let pos = st.pLocationOfFeature@[f] as int;
        let arena = st.pLocationPointer@;
        assert forall|k: int|
            0 <= k < n && fs_in_window(fin2, arena[pos + 2 * k] as int, arena[pos + 2 * k + 1] as int) implies #[trigger] fs_candidate_ok(
            fin2,
            tab,
            enc,
            le,
            refp,
            lr,
            arena[pos + 2 * k] as int,
            arena[pos + 2 * k + 1] as int,
        ) by {
            assert(fs_candidate_ok(fin, tab, enc, le, refp, lr, arena[pos + 2 * k] as int, arena[pos + 2 * k + 1] as int));
        }
    }
}

/// The SAD thresholds of a reference's feature hash, if it has one.
pub open spec fn storage_thresholds(st: Option<&SScreenBlockFeatureStorage>) -> Option<[u32; 7]> {
    match st {
        Some(s) => Some(s.uiSadCostThreshold),
        None => None,
    }
}

/// The block search and the slice's feature-search saving after the
/// diamond-cross-feature search: the diamond-cross search with the
/// reference's thresholds; then, when the block is still at or above its
/// threshold and the feature search can be set up (see
/// `SetFeatureSearchIn`), the full feature search over every position of
/// the current feature, its saving added to the slice's, wrapping at 32
/// bits.
pub open spec fn diamond_cross_feature_result(
    funcs: SMeFuncs,
    sdf: SSampleDealingFunc,
    me: SWelsME,
    min: SMVUnitXY,
    max: SMVUnitXY,
    tab: MvdCostCursor,
    enc: Seq<u8>,
    le: SPlaneLayout,
    refp: Seq<u8>,
    lr: SPlaneLayout,
    storage: Option<&SScreenBlockFeatureStorage>,
    cost_down: u32,
) -> (SWelsME, u32) {
    let me1 = diamond_cross_result(funcs, sdf, me, min, max, tab, enc, le, refp, lr, storage_thresholds(storage));
    if me1.uiSadCost >= me1.uiSadCostThreshold {
        let fin = feature_search_in(funcs, sdf, me1, min, max, storage is Some, enc, le, fs_in_zero());
        let me2 = match storage {
            Some(st) => if fin.pSad is Some && st.pTimesOfFeatureValue@.len() > 0 && st.pLocationOfFeature@.len() > 0 {
                feature_full_search_result(fin, *st, tab, enc, le, refp, lr, u32::MAX, me1)
            } else {
                me1
            },
            None => me1,
        };
        (me2, ((cost_down + me1.uiSadCost - me2.uiSadCost) % 0x1_0000_0000) as u32)
    } else {
        (me1, cost_down)
    }
}

/// The diamond-cross search of a block followed, while it stays expensive,
/// by the full feature search: see `diamond_cross_feature_result`.
pub fn WelsDiamondCrossFeatureSearch(
    pMeFuncs: &SMeFuncs,
    sdf: &SSampleDealingFunc,
    pMe: &mut SWelsME,
    ksMvStartMin: SMVUnitXY,
    ksMvStartMax: SMVUnitXY,
    kpMvdCost: &MvdCostCursor,
    pEnc: &[u8],
    sEnc: SPlaneLayout,
    pRef: &[u8],
    sRef: SPlaneLayout,
    pRefFeatureStorage: Option<&SScreenBlockFeatureStorage>,
    uiSliceFMECostDown: &mut u32,
)
    requires
        diamond_search_ok(*sdf, *old(pMe), ksMvStartMin, ksMvStartMax, *kpMvdCost, pEnc@, sEnc, pRef@, sRef),
        line_search_ok(*sdf, *old(pMe), *kpMvdCost, pEnc@, sEnc, pRef@, sRef, ksMvStartMin.iMvY, ksMvStartMax.iMvY, true),
        line_search_ok(*sdf, *old(pMe), *kpMvdCost, pEnc@, sEnc, pRef@, sRef, ksMvStartMin.iMvX, ksMvStartMax.iMvX, false),
        feature_search_in_ok(*pMeFuncs, *old(pMe), pEnc@, sEnc),
        pRefFeatureStorage matches Some(st) ==> fs_ok(
            feature_search_in(*pMeFuncs, *sdf, *old(pMe), ksMvStartMin, ksMvStartMax, true, pEnc@, sEnc, fs_in_zero()),
            *st,
            *kpMvdCost,
            pEnc@,
            sEnc,
            pRef@,
            sRef,
            0,
            u32::MAX,
        ),
    ensures
        (*final(pMe), *final(uiSliceFMECostDown)) == diamond_cross_feature_result(
            *pMeFuncs,
            *sdf,
            *old(pMe),
            ksMvStartMin,
            ksMvStartMax,
            *kpMvdCost,
            pEnc@,
            sEnc,
            pRef@,
            sRef,
            pRefFeatureStorage,
            *old(uiSliceFMECostDown),
        ),
{
    let ghost me0 = *pMe;
    let thresholds = match pRefFeatureStorage {
        Some(st) => Some(&st.uiSadCostThreshold),
        None => None,
    };
    WelsDiamondCrossSearch(
        pMeFuncs,
        sdf,
        pMe,
        ksMvStartMin,
        ksMvStartMax,
        kpMvdCost,
        pEnc,
        sEnc,
        pRef,
        sRef,
        thresholds,
    );
    if pMe.uiSadCost >= pMe.uiSadCostThreshold {
        let ghost me1 = *pMe;
        *uiSliceFMECostDown = uiSliceFMECostDown.wrapping_add(pMe.uiSadCost);
        let mut sFeatureSearchIn = SFeatureSearchIn {
            pSad: None,
            iMvdOffsetX: 0,
            iMvdOffsetY: 0,
            uiSadCostThresh: 0,
            iFeatureOfCurrent: 0,
            iCurPixX: 0,
            iCurPixY: 0,
            iCurPixXQpel: 0,
            iCurPixYQpel: 0,
            iMinQpelX: 0,
            iMinQpelY: 0,
            iMaxQpelX: 0,
            iMaxQpelY: 0,
        };
        let me_now = *pMe;
        assert(feature_search_in_ok(*pMeFuncs, me_now, pEnc@, sEnc));
        let ok = SetFeatureSearchIn(
            pMeFuncs,
            sdf,
            &me_now,
            ksMvStartMin,
            ksMvStartMax,
            pRefFeatureStorage,
            pEnc,
            sEnc,
            &mut sFeatureSearchIn,
        );
        if ok {
            match pRefFeatureStorage {
                Some(st) => {
                    proof {
                        lemma_fs_ok_any_threshold(
                            feature_search_in(*pMeFuncs, *sdf, me0, ksMvStartMin, ksMvStartMax, true, pEnc@, sEnc, fs_in_zero()),
                            sFeatureSearchIn,
                            *st,
                            *kpMvdCost,
                            pEnc@,
                            sEnc,
                            pRef@,
                            sRef,
                            0,
                            u32::MAX,
                        );
                    }
                    MotionEstimateFeatureFullSearch(
                        sFeatureSearchIn,
                        st,
                        kpMvdCost,
                        pEnc,
                        sEnc,
                        pRef,
                        sRef,
                        u32::MAX,
                        pMe,
                    );
                },
                None => {},
            }
        }
        *uiSliceFMECostDown = uiSliceFMECostDown.wrapping_sub(pMe.uiSadCost);
    }
}

} // verus!
