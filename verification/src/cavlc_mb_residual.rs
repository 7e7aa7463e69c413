//! The residual of one macroblock in CAVLC syntax: which blocks a macroblock
//! codes, in which order and with which predicted `nC`, and the writer that
//! codes them one after the other.
use vstd::prelude::*;
use crate::bits::BsWriter;
use crate::mb::{SMB, SMbCache, MB_TYPE_INTRA16x16};
use crate::svc_set_mb_syn_cavlc::{
    IS_INTRA16x16,
    residual_block_bits, residual_block_room, nc_average, wels_non_zero_count_average,
    WriteBlockResidualCavlc, g_kuiCache48CountScan4Idx, ENC_RETURN_SUCCESS,
    ENC_RETURN_VLCOVERFLOWFOUND, LUMA_4x4, LUMA_AC, CHROMA_DC, CHROMA_AC, CHROMA_DC_NC_OFFSET,
};

verus! {

// ---------------------------------------------------------------------------
// Macroblock residual
// ---------------------------------------------------------------------------

/// One residual block to code: its coefficients, the last scanned index,
/// whether its levels are analysed, its kind and its predicted `nC`.
pub struct BlockJob {
    pub coeffs: Seq<i16>,
    pub end_idx: int,
    pub cal: bool,
    pub prop: int,
    pub nc: int,
}

/// The bits of a run of blocks, in order, or `None` when one of them escapes.
pub open spec fn jobs_bits(jobs: Seq<BlockJob>) -> Option<Seq<bool>>
    decreases jobs.len(),
{
    if jobs.len() == 0 {
        Some(Seq::empty())
    } else {
        let j = jobs.last();
        match jobs_bits(jobs.drop_last()) {
            None => None,
            Some(a) => match residual_block_bits(j.coeffs, j.end_idx, j.cal, j.prop, j.nc) {
                None => None,
                Some(b) => Some(a + b),
            },
        }
    }
}

pub open spec fn opt_concat(a: Option<Seq<bool>>, b: Option<Seq<bool>>) -> Option<Seq<bool>> {
    match a {
        None => None,
        Some(x) => match b {
            None => None,
            Some(y) => Some(x + y),
        },
    }
}

proof fn lemma_jobs_concat(a: Seq<BlockJob>, b: Seq<BlockJob>)
    ensures
        jobs_bits(a + b) == opt_concat(jobs_bits(a), jobs_bits(b)),
    decreases b.len(),
{
    if b.len() == 0 {
        assert(a + b =~= a);
        match jobs_bits(a) {
            None => {},
            Some(x) => {
                assert(x + Seq::<bool>::empty() =~= x);
            },
        }
    } else {
        lemma_jobs_concat(a, b.drop_last());
        assert((a + b).drop_last() =~= a + b.drop_last());
        assert((a + b).last() == b.last());
        match jobs_bits(a) {
            None => {},
            Some(x) => match jobs_bits(b.drop_last()) {
                None => {},
                Some(y) => {
                    let j = b.last();
                    match residual_block_bits(j.coeffs, j.end_idx, j.cal, j.prop, j.nc) {
                        None => {},
                        Some(z) => {
                            assert(x + y + z =~= x + (y + z));
                        },
                    }
                },
            },
        }
    }
}

/// The 4x4 block `j` of luma (`ac`: a 16x16 macroblock's AC block, from
/// index 1) with `nC` from its left and top neighbours in the count cache.
pub open spec fn luma_job(c: SMbCache, j: int, ac: bool) -> BlockJob {
    let idx = g_kuiCache48CountScan4Idx[j] as int;
    BlockJob {
        coeffs: c.sDct.iLumaBlock[j]@,
        end_idx: if ac {
            14
        } else {
            15
        },
        cal: c.iNonZeroCoeffCount[idx] > 0,
        prop: if ac {
            LUMA_AC as int
        } else {
            LUMA_4x4 as int
        },
        nc: nc_average(c.iNonZeroCoeffCount[idx - 1] as int, c.iNonZeroCoeffCount[idx - 8] as int),
    }
}

/// Chroma AC block `k`: Cb for `k < 4`, Cr after.
pub open spec fn chroma_ac_job(c: SMbCache, k: int) -> BlockJob {
    let idx = if k < 4 {
        g_kuiCache48CountScan4Idx[16 + k] as int
    } else {
        24 + g_kuiCache48CountScan4Idx[16 + k - 4] as int
    };
    BlockJob {
        coeffs: c.sDct.iChromaBlock[k]@,
        end_idx: 14,
        cal: c.iNonZeroCoeffCount[idx] > 0,
        prop: CHROMA_AC as int,
        nc: nc_average(c.iNonZeroCoeffCount[idx - 1] as int, c.iNonZeroCoeffCount[idx - 8] as int),
    }
}

/// The luma 4x4 blocks of the 8x8 groups from `g` on whose bit is set in
/// `cbp_luma`.
pub open spec fn luma_group_jobs(c: SMbCache, cbp_luma: int, g: int) -> Seq<BlockJob>
    decreases 4 - g,
{
    if g >= 4 || g < 0 {
        Seq::empty()
    } else {
        (if (cbp_luma as u32) & (1u32 << (g as u32)) != 0 {
            luma_run(c, 4 * g, 4, false)
        } else {
            Seq::empty()
        }) + luma_group_jobs(c, cbp_luma, g + 1)
    }
}

/// The blocks of a macroblock's residual in coding order: the luma DC and
/// (with luma coefficients) the 16 AC blocks of a 16x16 macroblock, or the
/// coded 8x8 groups of any other; then, with chroma coefficients, the two
/// chroma DC blocks and, when chroma AC is coded, the 8 chroma AC blocks.
pub open spec fn residual_jobs(c: SMbCache, mb_type: u32, cbp: u8) -> Seq<BlockJob> {
    luma_jobs(c, mb_type, (cbp & 0x0F) as int) + chroma_jobs(c, cbp >> 4u8)
}

/// The job of one block from its parts.
pub open spec fn job_of(coeffs: Seq<i16>, end_idx: int, cal: bool, prop: int, nc: int) -> BlockJob {
    BlockJob { coeffs, end_idx, cal, prop, nc }
}

/// The number of bits the block writer puts down for a job.
pub open spec fn job_room(j: BlockJob) -> nat {
    residual_block_room(j.coeffs, j.end_idx, j.cal, j.prop, j.nc)
}

/// The number of bits written for a run of blocks: every block up to and
/// including the first one that escapes.
pub open spec fn jobs_room(jobs: Seq<BlockJob>) -> nat
    decreases jobs.len(),
{
    if jobs.len() == 0 {
        0
    } else if jobs_bits(jobs.drop_last()) is Some {
        jobs_room(jobs.drop_last()) + job_room(jobs.last())
    } else {
        jobs_room(jobs.drop_last())
    }
}

proof fn lemma_jobs_room_concat(a: Seq<BlockJob>, b: Seq<BlockJob>)
    ensures
        jobs_room(a + b) == jobs_room(a) + (if jobs_bits(a) is Some {
            jobs_room(b)
        } else {
            0
        }),
    decreases b.len(),
{
    if b.len() == 0 {
        assert(a + b =~= a);
    } else {
        lemma_jobs_room_concat(a, b.drop_last());
        lemma_jobs_concat(a, b.drop_last());
        assert((a + b).drop_last() =~= a + b.drop_last());
        assert((a + b).last() == b.last());
    }
}

proof fn lemma_jobs_room_one(j: BlockJob)
    ensures
        jobs_room(seq![j]) == job_room(j),
{
    assert(seq![j].drop_last() =~= Seq::<BlockJob>::empty());
    assert(jobs_bits(Seq::<BlockJob>::empty()) == Some(Seq::<bool>::empty()));
    assert(jobs_room(Seq::<BlockJob>::empty()) == 0);
}

/// When no block of a run escapes, the number of bits the run's writers
/// put down is the length of the run's code.
pub proof fn law_residual_room_is_its_code_length(jobs: Seq<BlockJob>)
    ensures
        jobs_bits(jobs) matches Some(b) ==> jobs_room(jobs) == b.len(),
    decreases jobs.len(),
{
    if jobs.len() > 0 {
        let d = jobs.drop_last();
        let j = jobs.last();
        law_residual_room_is_its_code_length(d);
        crate::svc_set_mb_syn_cavlc::law_block_room_is_its_code_length(j.coeffs, j.end_idx, j.cal, j.prop, j.nc);
        match jobs_bits(d) {
            None => {},
            Some(a) => {
                match residual_block_bits(j.coeffs, j.end_idx, j.cal, j.prop, j.nc) {
                    None => {},
                    Some(bb) => {
                        assert(jobs_bits(jobs) == Some(a + bb));
                        assert(jobs_room(jobs) == jobs_room(d) + job_room(j));
                        assert((a + bb).len() == a.len() + bb.len());
                    },
                }
            },
        }
    }
}

/// Writes one block of a run: `done` has been written, `acc` are its bits.
#[verifier::spinoff_prover]
fn write_job(
    buf: &mut [u8],
    pBs: &mut BsWriter,
    coeffs: &[i16],
    iEndIdx: i32,
    cal: bool,
    prop: i32,
    nc: i8,
    Ghost(done): Ghost<Seq<BlockJob>>,
    Ghost(acc): Ghost<Seq<bool>>,
    Ghost(b0): Ghost<Seq<bool>>,
) -> (ok: bool)
    requires
        old(pBs).wf(),
        iEndIdx <= 15,
        jobs_bits(done) == Some(acc),
        old(pBs).bits(old(buf)@) == b0 + acc,
        old(pBs).has_room(
            old(buf)@.len() as int,
            job_room(job_of(coeffs@, iEndIdx as int, cal, prop as int, nc as int)) as int,
        ),
    ensures
        final(pBs).wf(),
        final(buf)@.len() == old(buf)@.len(),
        final(pBs).pos >= old(pBs).pos,
        forall|i: int| 0 <= i < old(pBs).pos ==> final(buf)@[i] == old(buf)@[i],
        final(pBs).bit_len() == old(pBs).bit_len() + job_room(
            job_of(coeffs@, iEndIdx as int, cal, prop as int, nc as int),
        ),
        ({
            let d2 = done.push(job_of(coeffs@, iEndIdx as int, cal, prop as int, nc as int));
            match jobs_bits(d2) {
                None => !ok,
                Some(a2) => ok && final(pBs).bits(final(buf)@) == b0 + a2,
            }
        }),
{
    let ghost j = job_of(coeffs@, iEndIdx as int, cal, prop as int, nc as int);
    let ghost d2 = done.push(j);
    proof {
        assert(d2.drop_last() =~= done);
        assert(d2.last() == j);
    }
    let r = WriteBlockResidualCavlc(coeffs, iEndIdx, if cal { 1 } else { 0 }, prop, nc, buf, pBs);
    if r != ENC_RETURN_SUCCESS {
        return false;
    }
    proof {
        let b = residual_block_bits(coeffs@, iEndIdx as int, cal, prop as int, nc as int).unwrap();
        assert(pBs.bits(buf@) =~= b0 + (acc + b));
    }
    true
}

/// `count` luma 4x4 blocks from `first`.
pub open spec fn luma_run(c: SMbCache, first: int, count: int, ac: bool) -> Seq<BlockJob> {
    Seq::new(count as nat, |t: int| luma_job(c, first + t, ac))
}

/// The 8 chroma AC blocks.
pub open spec fn chroma_ac_run(c: SMbCache) -> Seq<BlockJob> {
    Seq::new(8, |k: int| chroma_ac_job(c, k))
}

/// Writes a run of luma 4x4 blocks of `c` from `first` (`count` of them).
#[verifier::spinoff_prover]
#[verifier::rlimit(40)]
fn write_luma_run(
    buf: &mut [u8],
    pBs: &mut BsWriter,
    c: &SMbCache,
    first: usize,
    count: usize,
    ac: bool,
    Ghost(done): Ghost<Seq<BlockJob>>,
    Ghost(acc): Ghost<Seq<bool>>,
    Ghost(b0): Ghost<Seq<bool>>,
) -> (ok: bool)
    requires
        old(pBs).wf(),
        first + count <= 16,
        jobs_bits(done) == Some(acc),
        old(pBs).bits(old(buf)@) == b0 + acc,
        old(pBs).has_room(
            old(buf)@.len() as int,
            jobs_room(luma_run(*c, first as int, count as int, ac)) as int,
        ),
    ensures
        final(pBs).wf(),
        final(buf)@.len() == old(buf)@.len(),
        final(pBs).pos >= old(pBs).pos,
        forall|i: int| 0 <= i < old(pBs).pos ==> final(buf)@[i] == old(buf)@[i],
        final(pBs).bit_len() == old(pBs).bit_len() + jobs_room(
            luma_run(*c, first as int, count as int, ac),
        ),
        match jobs_bits(done + luma_run(*c, first as int, count as int, ac)) {
            None => !ok,
            Some(a2) => ok && final(pBs).bits(final(buf)@) == b0 + a2,
        },
{
    let ghost len0 = pBs.bit_len();
    let ghost pos0 = pBs.pos;
    let ghost buf0 = buf@;
    let ghost run = luma_run(*c, first as int, count as int, ac);
    let ghost whole = done + run;
    let mut t: usize = 0;
    let ghost mut d: Seq<BlockJob> = done;
    let ghost mut a: Seq<bool> = acc;
    let ghost mut n: Seq<BlockJob> = Seq::empty();
    proof {
        assert(n =~= run.take(0));
        assert(d =~= done + n);
    }
    while t < count
        invariant
            len0 == old(pBs).bit_len(),
            pos0 == old(pBs).pos,
            buf0 == old(buf)@,
            pBs.wf(),
            buf@.len() == buf0.len(),
            pBs.pos >= pos0,
            forall|i: int| 0 <= i < pos0 ==> buf@[i] == buf0[i],
            first + count <= 16,
            0 <= t <= count,
            run == luma_run(*c, first as int, count as int, ac),
            n == run.take(t as int),
            d == done + n,
            whole == done + run,
            jobs_bits(done) == Some(acc),
            jobs_bits(d) == Some(a),
            jobs_bits(n) is Some,
            pBs.bits(buf@) == b0 + a,
            pBs.bit_len() == len0 + jobs_room(n),
            len0 + jobs_room(run) <= 8 * buf@.len(),
            8 * buf@.len() + 64 <= i32::MAX,
        decreases count - t,
    {
        let j = first + t;
        let idx = g_kuiCache48CountScan4Idx[j] as usize;
        let nc = wels_non_zero_count_average(c.iNonZeroCoeffCount[idx - 1], c.iNonZeroCoeffCount[idx - 8]);
        let cal = c.iNonZeroCoeffCount[idx] > 0;
        let ghost jb = luma_job(*c, j as int, ac);
        let ghost rest = run.skip(t + 1);
        proof {
            assert(run[t as int] == jb);
            assert(n.push(jb) =~= run.take(t + 1));
            assert(run =~= n.push(jb) + rest);
            lemma_jobs_room_concat(n.push(jb), rest);
            assert(n.push(jb).drop_last() =~= n);
        }
        let ok = if ac {
            write_job(buf, pBs, &c.sDct.iLumaBlock[j], 14, cal, LUMA_AC, nc, Ghost(d), Ghost(a), Ghost(b0))
        } else {
            write_job(buf, pBs, &c.sDct.iLumaBlock[j], 15, cal, LUMA_4x4, nc, Ghost(d), Ghost(a), Ghost(b0))
        };
        proof {
            assert(d.push(jb) =~= done + n.push(jb));
            lemma_jobs_concat(done, n.push(jb));
        }
        if !ok {
            proof {
                assert(d.push(jb) + rest =~= whole);
                lemma_none_extends(d.push(jb), rest);
            }
            return false;
        }
        proof {
            a = jobs_bits(d.push(jb)).unwrap();
            d = d.push(jb);
            n = n.push(jb);
        }
        t = t + 1;
    }
    proof {
        assert(n =~= run);
    }
    true
}

/// Writes the 8 chroma AC blocks of `c`.
#[verifier::spinoff_prover]
#[verifier::rlimit(40)]
fn write_chroma_ac_run(
    buf: &mut [u8],
    pBs: &mut BsWriter,
    c: &SMbCache,
    Ghost(done): Ghost<Seq<BlockJob>>,
    Ghost(acc): Ghost<Seq<bool>>,
    Ghost(b0): Ghost<Seq<bool>>,
) -> (ok: bool)
    requires
        old(pBs).wf(),
        jobs_bits(done) == Some(acc),
        old(pBs).bits(old(buf)@) == b0 + acc,
        old(pBs).has_room(old(buf)@.len() as int, jobs_room(chroma_ac_run(*c)) as int),
    ensures
        final(pBs).wf(),
        final(buf)@.len() == old(buf)@.len(),
        final(pBs).pos >= old(pBs).pos,
        forall|i: int| 0 <= i < old(pBs).pos ==> final(buf)@[i] == old(buf)@[i],
        final(pBs).bit_len() == old(pBs).bit_len() + jobs_room(chroma_ac_run(*c)),
        match jobs_bits(done + chroma_ac_run(*c)) {
            None => !ok,
            Some(a2) => ok && final(pBs).bits(final(buf)@) == b0 + a2,
        },
{
    let ghost len0 = pBs.bit_len();
    let ghost pos0 = pBs.pos;
    let ghost buf0 = buf@;
    let ghost run = chroma_ac_run(*c);
    let ghost whole = done + run;
    let mut k: usize = 0;
    let ghost mut d: Seq<BlockJob> = done;
    let ghost mut a: Seq<bool> = acc;
    let ghost mut n: Seq<BlockJob> = Seq::empty();
    proof {
        assert(n =~= run.take(0));
        assert(d =~= done + n);
    }
    while k < 8
        invariant
            len0 == old(pBs).bit_len(),
            pos0 == old(pBs).pos,
            buf0 == old(buf)@,
            pBs.wf(),
            buf@.len() == buf0.len(),
            pBs.pos >= pos0,
            forall|i: int| 0 <= i < pos0 ==> buf@[i] == buf0[i],
            0 <= k <= 8,
            run == chroma_ac_run(*c),
            n == run.take(k as int),
            d == done + n,
            whole == done + run,
            jobs_bits(done) == Some(acc),
            jobs_bits(d) == Some(a),
            jobs_bits(n) is Some,
            pBs.bits(buf@) == b0 + a,
            pBs.bit_len() == len0 + jobs_room(n),
            len0 + jobs_room(run) <= 8 * buf@.len(),
            8 * buf@.len() + 64 <= i32::MAX,
        decreases 8 - k,
    {
        let idx: usize = if k < 4 {
            g_kuiCache48CountScan4Idx[16 + k] as usize
        } else {
            24 + g_kuiCache48CountScan4Idx[16 + k - 4] as usize
        };
        let nc = wels_non_zero_count_average(c.iNonZeroCoeffCount[idx - 1], c.iNonZeroCoeffCount[idx - 8]);
        let cal = c.iNonZeroCoeffCount[idx] > 0;
        let ghost jb = chroma_ac_job(*c, k as int);
        let ghost rest = run.skip(k + 1);
        proof {
            assert(run[k as int] == jb);
            assert(n.push(jb) =~= run.take(k + 1));
            assert(run =~= n.push(jb) + rest);
            lemma_jobs_room_concat(n.push(jb), rest);
            assert(n.push(jb).drop_last() =~= n);
        }
        let ok = write_job(buf, pBs, &c.sDct.iChromaBlock[k], 14, cal, CHROMA_AC, nc, Ghost(d), Ghost(a), Ghost(b0));
        proof {
            assert(d.push(jb) =~= done + n.push(jb));
            lemma_jobs_concat(done, n.push(jb));
        }
        if !ok {
            proof {
                assert(d.push(jb) + rest =~= whole);
                lemma_none_extends(d.push(jb), rest);
            }
            return false;
        }
        proof {
            a = jobs_bits(d.push(jb)).unwrap();
            d = d.push(jb);
            n = n.push(jb);
        }
        k = k + 1;
    }
    proof {
        assert(n =~= run);
    }
    true
}

proof fn lemma_none_extends(a: Seq<BlockJob>, b: Seq<BlockJob>)
    requires
        jobs_bits(a) is None,
    ensures
        jobs_bits(a + b) is None,
{
    lemma_jobs_concat(a, b);
}

proof fn lemma_group_unfold(c: SMbCache, l: int, g: int)
    requires
        0 <= g < 4,
    ensures
        luma_group_jobs(c, l, g) == (if (l as u32) & (1u32 << (g as u32)) != 0 {
            luma_run(c, 4 * g, 4, false)
        } else {
            Seq::empty()
        }) + luma_group_jobs(c, l, g + 1),
{
}

/// The luma DC block of a 16x16 macroblock.
pub open spec fn luma_dc_job(c: SMbCache) -> BlockJob {
    BlockJob {
        coeffs: c.sDct.iLumaI16x16Dc@,
        end_idx: 15,
        cal: true,
        prop: LUMA_4x4 as int,
        nc: nc_average(c.iNonZeroCoeffCount[8] as int, c.iNonZeroCoeffCount[1] as int),
    }
}

/// Chroma DC block `i` (Cb, then Cr).
pub open spec fn chroma_dc_job(c: SMbCache, i: int) -> BlockJob {
    BlockJob { coeffs: c.sDct.iChromaDc[i]@, end_idx: 3, cal: true, prop: CHROMA_DC as int, nc: CHROMA_DC_NC_OFFSET as int }
}

/// The luma blocks of a macroblock in coding order.
pub open spec fn luma_jobs(c: SMbCache, mb_type: u32, luma_cbp: int) -> Seq<BlockJob> {
    if mb_type == MB_TYPE_INTRA16x16 {
        seq![luma_dc_job(c)] + if luma_cbp != 0 {
            luma_run(c, 0, 16, true)
        } else {
            Seq::empty()
        }
    } else {
        luma_group_jobs(c, luma_cbp, 0)
    }
}

/// The chroma blocks of a macroblock in coding order.
pub open spec fn chroma_jobs(c: SMbCache, chroma_cbp: u8) -> Seq<BlockJob> {
    if chroma_cbp != 0 {
        seq![chroma_dc_job(c, 0), chroma_dc_job(c, 1)] + if chroma_cbp & 2u8 != 0 {
            chroma_ac_run(c)
        } else {
            Seq::empty()
        }
    } else {
        Seq::empty()
    }
}

#[verifier::spinoff_prover]
#[verifier::rlimit(40)]
fn write_luma_16x16(buf: &mut [u8], pBs: &mut BsWriter, c: &SMbCache, kiCbpLuma: u8) -> (ok: bool)
    requires
        old(pBs).wf(),
        old(pBs).has_room(old(buf)@.len() as int, jobs_room(luma_jobs(*c, MB_TYPE_INTRA16x16, kiCbpLuma as int)) as int),
    ensures
        final(pBs).wf(),
        final(buf)@.len() == old(buf)@.len(),
        final(pBs).pos >= old(pBs).pos,
        forall|i: int| 0 <= i < old(pBs).pos ==> final(buf)@[i] == old(buf)@[i],
        final(pBs).bit_len() == old(pBs).bit_len() + jobs_room(luma_jobs(*c, MB_TYPE_INTRA16x16, kiCbpLuma as int)),
        match jobs_bits(luma_jobs(*c, MB_TYPE_INTRA16x16, kiCbpLuma as int)) {
            None => !ok,
            Some(b) => ok && final(pBs).bits(final(buf)@) == old(pBs).bits(old(buf)@) + b,
        },
{
    let ghost luma = luma_jobs(*c, MB_TYPE_INTRA16x16, kiCbpLuma as int);
    let ghost b0 = pBs.bits(buf@);
    let ghost acc = Seq::<bool>::empty();
    let ghost dcj = luma_dc_job(*c);
    let ghost rest = luma.drop_first();
    proof {
        assert(b0 + acc =~= b0);
        assert(seq![dcj] + rest =~= luma);
        lemma_jobs_room_concat(seq![dcj], rest);
        lemma_jobs_room_one(dcj);
    }
    let nc = wels_non_zero_count_average(c.iNonZeroCoeffCount[8], c.iNonZeroCoeffCount[1]);
    let ghost none = Seq::<BlockJob>::empty();
    let ok = write_job(buf, pBs, &c.sDct.iLumaI16x16Dc, 15, true, LUMA_4x4, nc, Ghost(none), Ghost(acc), Ghost(b0));
    proof {
        assert(Seq::<BlockJob>::empty().push(dcj) =~= seq![dcj]);
    }
    if !ok {
        proof {
            lemma_none_extends(seq![dcj], rest);
        }
        return false;
    }
    let ghost acc1 = jobs_bits(seq![dcj]).unwrap();
    if kiCbpLuma != 0 {
        let ghost d1 = seq![dcj];
        proof {
            assert(rest =~= luma_run(*c, 0, 16, true));
        }
        write_luma_run(buf, pBs, c, 0, 16, true, Ghost(d1), Ghost(acc1), Ghost(b0))
    } else {
        proof {
            assert(rest =~= Seq::<BlockJob>::empty());
            assert(seq![dcj] =~= luma);
        }
        true
    }
}

#[verifier::spinoff_prover]
#[verifier::rlimit(60)]
fn write_luma_groups(buf: &mut [u8], pBs: &mut BsWriter, c: &SMbCache, kiCbpLuma: u8) -> (ok: bool)
    requires
        old(pBs).wf(),
        old(pBs).has_room(old(buf)@.len() as int, jobs_room(luma_group_jobs(*c, kiCbpLuma as int, 0)) as int),
    ensures
        final(pBs).wf(),
        final(buf)@.len() == old(buf)@.len(),
        final(pBs).pos >= old(pBs).pos,
        forall|i: int| 0 <= i < old(pBs).pos ==> final(buf)@[i] == old(buf)@[i],
        final(pBs).bit_len() == old(pBs).bit_len() + jobs_room(luma_group_jobs(*c, kiCbpLuma as int, 0)),
        luma_group_jobs(*c, kiCbpLuma as int, 0).len() == 0 ==> *final(pBs) == *old(pBs) && final(buf)@ == old(buf)@,
        match jobs_bits(luma_group_jobs(*c, kiCbpLuma as int, 0)) {
            None => !ok,
            Some(b) => ok && final(pBs).bits(final(buf)@) == old(pBs).bits(old(buf)@) + b,
        },
{
    let ghost l = kiCbpLuma as int;
    let ghost luma = luma_group_jobs(*c, l, 0);
    let ghost b0 = pBs.bits(buf@);
    let ghost len0 = pBs.bit_len();
    let ghost pos0 = pBs.pos;
    let ghost buf0 = buf@;
    let ghost mut done = Seq::<BlockJob>::empty();
    let ghost mut acc = Seq::<bool>::empty();
    let mut g: usize = 0;
    proof {
        assert(b0 + acc =~= b0);
        assert(done + luma_group_jobs(*c, l, 0) =~= luma);
    }
    while g < 4
        invariant
            0 <= g <= 4,
            len0 == old(pBs).bit_len(),
            pos0 == old(pBs).pos,
            buf0 == old(buf)@,
            b0 == old(pBs).bits(old(buf)@),
            pBs.wf(),
            buf@.len() == buf0.len(),
            pBs.pos >= pos0,
            forall|i: int| 0 <= i < pos0 ==> buf@[i] == buf0[i],
            done.len() == 0 ==> *pBs == *old(pBs) && buf@ == buf0,
            l == kiCbpLuma,
            luma == luma_group_jobs(*c, l, 0),
            done + luma_group_jobs(*c, l, g as int) == luma,
            jobs_bits(done) == Some(acc),
            pBs.bits(buf@) == b0 + acc,
            pBs.bit_len() == len0 + jobs_room(done),
            len0 + jobs_room(luma) <= 8 * buf@.len(),
            8 * buf@.len() + 64 <= i32::MAX,
        decreases 4 - g,
    {
        proof {
            lemma_group_unfold(*c, l, g as int);
        }
        let bit: u32 = 1u32 << (g as u32);
        if (kiCbpLuma as u32) & bit != 0 {
            let ghost run = luma_run(*c, 4 * g as int, 4, false);
            let ghost rest = luma_group_jobs(*c, l, g + 1);
            proof {
                assert(done + (run + rest) =~= luma);
                lemma_jobs_room_concat(done, run + rest);
                lemma_jobs_room_concat(run, rest);
            }
            let ok = write_luma_run(buf, pBs, c, 4 * g, 4, false, Ghost(done), Ghost(acc), Ghost(b0));
            proof {
                lemma_jobs_room_concat(done, run);
                lemma_jobs_concat(done, run);
            }
            if !ok {
                proof {
                    assert((done + run) + rest =~= luma);
                    lemma_none_extends(done + run, rest);
                }
                return false;
            }
            proof {
                acc = jobs_bits(done + run).unwrap();
                assert((done + run) + rest =~= luma);
                done = done + run;
            }
        } else {
            proof {
                assert(done + luma_group_jobs(*c, l, g + 1) =~= luma);
            }
        }
        g = g + 1;
    }
    proof {
        assert(luma_group_jobs(*c, l, 4) =~= Seq::<BlockJob>::empty());
        assert(done + Seq::<BlockJob>::empty() =~= done);
    }
    true
}

#[verifier::spinoff_prover]
#[verifier::rlimit(60)]
fn write_chroma(buf: &mut [u8], pBs: &mut BsWriter, c: &SMbCache, kiCbpChroma: u8) -> (ok: bool)
    requires
        old(pBs).wf(),
        old(pBs).has_room(old(buf)@.len() as int, jobs_room(chroma_jobs(*c, kiCbpChroma)) as int),
    ensures
        final(pBs).wf(),
        final(buf)@.len() == old(buf)@.len(),
        final(pBs).pos >= old(pBs).pos,
        forall|i: int| 0 <= i < old(pBs).pos ==> final(buf)@[i] == old(buf)@[i],
        final(pBs).bit_len() == old(pBs).bit_len() + jobs_room(chroma_jobs(*c, kiCbpChroma)),
        chroma_jobs(*c, kiCbpChroma).len() == 0 ==> *final(pBs) == *old(pBs) && final(buf)@ == old(buf)@,
        match jobs_bits(chroma_jobs(*c, kiCbpChroma)) {
            None => !ok,
            Some(b) => ok && final(pBs).bits(final(buf)@) == old(pBs).bits(old(buf)@) + b,
        },
{
    let ghost chroma = chroma_jobs(*c, kiCbpChroma);
    let ghost b0 = pBs.bits(buf@);
    if kiCbpChroma == 0 {
        proof {
            assert(b0 + Seq::<bool>::empty() =~= b0);
        }
        return true;
    }
    let ghost dc0 = chroma_dc_job(*c, 0);
    let ghost dc1 = chroma_dc_job(*c, 1);
    let ghost rest = chroma.skip(2);
    let ghost acc0 = Seq::<bool>::empty();
    proof {
        assert(b0 + acc0 =~= b0);
        assert(seq![dc0, dc1] + rest =~= chroma);
        assert(seq![dc0] + (seq![dc1] + rest) =~= chroma);
        lemma_jobs_room_concat(seq![dc0], seq![dc1] + rest);
        lemma_jobs_room_concat(seq![dc1], rest);
        lemma_jobs_room_concat(seq![dc0], seq![dc1]);
        lemma_jobs_room_concat(seq![dc0, dc1], rest);
        assert(seq![dc0] + seq![dc1] =~= seq![dc0, dc1]);
        lemma_jobs_concat(seq![dc0], seq![dc1]);
        lemma_jobs_room_one(dc0);
        lemma_jobs_room_one(dc1);
    }
    let ghost none = Seq::<BlockJob>::empty();
    let ok0 = write_job(buf, pBs, &c.sDct.iChromaDc[0], 3, true, CHROMA_DC, CHROMA_DC_NC_OFFSET, Ghost(none), Ghost(acc0), Ghost(b0));
    proof {
        assert(Seq::<BlockJob>::empty().push(dc0) =~= seq![dc0]);
    }
    if !ok0 {
        proof {
            lemma_none_extends(seq![dc0], seq![dc1] + rest);
        }
        return false;
    }
    let ghost acc1 = jobs_bits(seq![dc0]).unwrap();
    let ghost d1 = seq![dc0];
    let ok1 = write_job(buf, pBs, &c.sDct.iChromaDc[1], 3, true, CHROMA_DC, CHROMA_DC_NC_OFFSET, Ghost(d1), Ghost(acc1), Ghost(b0));
    proof {
        assert(seq![dc0].push(dc1) =~= seq![dc0, dc1]);
    }
    if !ok1 {
        proof {
            lemma_none_extends(seq![dc0, dc1], rest);
        }
        return false;
    }
    let ghost acc2 = jobs_bits(seq![dc0, dc1]).unwrap();
    if kiCbpChroma & 2u8 != 0 {
        let ghost d2 = seq![dc0, dc1];
        proof {
            assert(rest =~= chroma_ac_run(*c));
        }
        write_chroma_ac_run(buf, pBs, c, Ghost(d2), Ghost(acc2), Ghost(b0))
    } else {
        proof {
            assert(rest =~= Seq::<BlockJob>::empty());
            assert(seq![dc0, dc1] =~= chroma);
        }
        true
    }
}

/// Writes the residual of a macroblock in CAVLC syntax, block after block as
/// [`residual_jobs`] orders them. Answers `ENC_RETURN_VLCOVERFLOWFOUND` at the
/// first block whose level escapes, and 0 with exactly the blocks' bits
/// appended otherwise. The buffer needs room for the [`jobs_room`] bits it
/// writes; the bytes before the writer's position stay as they were, and a
/// macroblock without coded blocks leaves writer and buffer untouched.
#[verifier::spinoff_prover]
pub fn WelsWriteMbResidual(sMbCacheInfo: &SMbCache, pCurMb: &SMB, buf: &mut [u8], pBs: &mut BsWriter) -> (r: i32)
    requires
        old(pBs).wf(),
        old(pBs).has_room(
            old(buf)@.len() as int,
            jobs_room(residual_jobs(*sMbCacheInfo, pCurMb.uiMbType, pCurMb.uiCbp)) as int,
        ),
    ensures
        final(pBs).wf(),
        final(buf)@.len() == old(buf)@.len(),
        final(pBs).pos >= old(pBs).pos,
        forall|i: int| 0 <= i < old(pBs).pos ==> final(buf)@[i] == old(buf)@[i],
        final(pBs).bit_len() == old(pBs).bit_len() + jobs_room(
            residual_jobs(*sMbCacheInfo, pCurMb.uiMbType, pCurMb.uiCbp),
        ),
        residual_jobs(*sMbCacheInfo, pCurMb.uiMbType, pCurMb.uiCbp).len() == 0 ==> *final(pBs)
            == *old(pBs) && final(buf)@ == old(buf)@,
        match jobs_bits(residual_jobs(*sMbCacheInfo, pCurMb.uiMbType, pCurMb.uiCbp)) {
            None => r == ENC_RETURN_VLCOVERFLOWFOUND,
            Some(b) => r == ENC_RETURN_SUCCESS && final(pBs).bits(final(buf)@) == old(pBs).bits(old(buf)@) + b,
        },
{
    let c = sMbCacheInfo;
    let kiCbpChroma: u8 = pCurMb.uiCbp >> 4u8;
    let kiCbpLuma: u8 = pCurMb.uiCbp & 0x0F;
    let ghost luma = luma_jobs(*c, pCurMb.uiMbType, kiCbpLuma as int);
    let ghost chroma = chroma_jobs(*c, kiCbpChroma);
    let ghost b0 = pBs.bits(buf@);
    proof {
        assert(residual_jobs(*c, pCurMb.uiMbType, pCurMb.uiCbp) =~= luma + chroma);
        lemma_jobs_concat(luma, chroma);
        lemma_jobs_room_concat(luma, chroma);
    }
    let ok = if IS_INTRA16x16(pCurMb.uiMbType) {
        write_luma_16x16(buf, pBs, c, kiCbpLuma)
    } else {
        write_luma_groups(buf, pBs, c, kiCbpLuma)
    };
    if !ok {
        return ENC_RETURN_VLCOVERFLOWFOUND;
    }
    let ok2 = write_chroma(buf, pBs, c, kiCbpChroma);
    if !ok2 {
        return ENC_RETURN_VLCOVERFLOWFOUND;
    }
    proof {
        let a = jobs_bits(luma).unwrap();
        let b = jobs_bits(chroma).unwrap();
        assert(pBs.bits(buf@) =~= b0 + (a + b));
    }
    ENC_RETURN_SUCCESS
}

} // verus!
