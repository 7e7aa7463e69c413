//! The bit writer every syntax element of the encoder goes through.
//!
//! A [`BsWriter`] is a detached cursor: a byte position into a caller-owned
//! buffer plus a 32-bit accumulator holding the bits not yet stored. The
//! abstract view of a writer over a buffer is the sequence of bits written so
//! far, most significant bit first: the bits of the completed bytes followed by
//! the pending bits of the accumulator.
use vstd::prelude::*;

verus! {

/// Bit `p` (counted from the least significant end) of `x`.
pub open spec fn bit_at(x: u32, p: int) -> bool {
    ((x >> (p as u32)) & 1u32) == 1u32
}

/// Bit `p` (counted from the least significant end) of the byte `b`.
pub open spec fn byte_bit_at(b: u8, p: int) -> bool {
    ((b >> (p as u8)) & 1u8) == 1u8
}

/// The `n` low bits of `v`, most significant first.
pub open spec fn val_bits(v: u32, n: nat) -> Seq<bool> {
    Seq::new(n, |i: int| bit_at(v, n - 1 - i))
}

/// The bits of a byte string, each byte most significant bit first.
pub open spec fn bytes_bits(s: Seq<u8>) -> Seq<bool> {
    Seq::new(8 * s.len(), |k: int| byte_bit_at(s[k / 8], 7 - k % 8))
}

/// `n` zero bits.
pub open spec fn zero_bits(n: nat) -> Seq<bool> {
    Seq::new(n, |i: int| false)
}

/// `n` one bits.
pub open spec fn one_bits(n: nat) -> Seq<bool> {
    Seq::new(n, |i: int| true)
}

/// `v` fits in `n` bits.
pub open spec fn fits(v: u32, n: int) -> bool {
    n >= 32 || (v as int) < pow2_int(n)
}

pub open spec fn pow2_int(n: int) -> int
    decreases n,
{
    if n <= 0 {
        1
    } else {
        2 * pow2_int(n - 1)
    }
}

/// `floor(log2(x))` for `x >= 1`.
pub open spec fn floor_log2(x: int) -> nat
    decreases x,
{
    if x <= 1 {
        0
    } else {
        (1 + floor_log2(x / 2)) as nat
    }
}

/// The unsigned Exp-Golomb code of `v`: `floor(log2(v + 1))` zeros, then `v + 1`
/// in `floor(log2(v + 1)) + 1` bits.
pub open spec fn ue_bits(v: u32) -> Seq<bool> {
    let x = (v + 1) as int;
    let l = floor_log2(x);
    zero_bits(l) + val_bits((v + 1) as u32, l + 1)
}

/// The signed Exp-Golomb code of `v`: positive values map to the odd code
/// numbers, negative values to the even ones.
pub open spec fn se_code_num(v: i32) -> u32 {
    if v > 0 {
        (2 * v - 1) as u32
    } else {
        (-2 * v) as u32
    }
}

pub open spec fn se_bits(v: i32) -> Seq<bool> {
    ue_bits(se_code_num(v))
}

/// The truncated Exp-Golomb code of `v` for the range bound `x`.
pub open spec fn te_bits(x: i32, v: u32) -> Seq<bool> {
    if x == 1 {
        seq![v == 0]
    } else {
        ue_bits(v)
    }
}

/// Number of bits needed to pad a bit string of length `len` to a byte boundary.
pub open spec fn pad_len(len: int) -> nat {
    if len % 8 == 0 {
        0
    } else {
        (8 - len % 8) as nat
    }
}

/// The detached write cursor.
#[derive(Clone, Copy, Debug)]
pub struct BsWriter {
    /// Byte position of the next completed 32-bit word.
    pub pos: usize,
    /// The pending bits, right aligned.
    pub cur_bits: u32,
    /// How many bits of the accumulator are still free.
    pub left_bits: i32,
}

impl BsWriter {
    /// The writer is consistent: the accumulator holds exactly `32 - left_bits`
    /// pending bits and nothing above them.
    pub open spec fn wf(self) -> bool {
        &&& 1 <= self.left_bits <= 32
        &&& fits(self.cur_bits, 32 - self.left_bits)
        &&& 8 * self.pos + 64 <= i32::MAX
    }

    pub open spec fn pending(self) -> Seq<bool> {
        val_bits(self.cur_bits, (32 - self.left_bits) as nat)
    }

    /// Everything written so far through this cursor into `buf`.
    pub open spec fn bits(self, buf: Seq<u8>) -> Seq<bool> {
        bytes_bits(buf.take(self.pos as int)) + self.pending()
    }

    /// Number of bits written so far.
    pub open spec fn bit_len(self) -> int {
        8 * self.pos + 32 - self.left_bits
    }

    /// Room for `n` more bits in a buffer of `len` bytes.
    pub open spec fn has_room(self, len: int, n: int) -> bool {
        self.bit_len() + n <= 8 * len && 8 * len + 64 <= i32::MAX
    }

    /// A fresh cursor at the start of a buffer.
    pub fn new() -> (w: Self)
        ensures
            w.wf(),
            w.pos == 0,
            w.pending() == Seq::<bool>::empty(),
            forall|buf: Seq<u8>| #[trigger] w.bits(buf) == Seq::<bool>::empty(),
    {
        let w = BsWriter { pos: 0, cur_bits: 0, left_bits: 32 };
        proof {
            assert(w.pending() =~= Seq::<bool>::empty());
            assert forall|buf: Seq<u8>| #[trigger] w.bits(buf) == Seq::<bool>::empty() by {
                assert(bytes_bits(buf.take(0)) =~= Seq::<bool>::empty());
                assert(w.bits(buf) =~= Seq::<bool>::empty());
            }
        }
        w
    }

    /// Byte position of the cursor.
    pub fn pos(&self) -> (r: usize)
        ensures
            r == self.pos,
    {
        self.pos
    }

    /// Number of bits written so far.
    pub fn bits_pos(&self) -> (r: i32)
        requires
            self.wf(),
        ensures
            r == self.bit_len(),
    {
        let p = self.pos as i32;
        assert(p == self.pos);
        p * 8 + 32 - self.left_bits
    }
}

// ---------------------------------------------------------------------------
// Bit-level lemmas
// ---------------------------------------------------------------------------

/// Shift and mask facts of 32-bit words.
pub proof fn lemma_u32_shifts()
    by (bit_vector)
    ensures
        forall|k: u32| k < 32 ==> #[trigger] (1u32 << k) >= 1u32,
        forall|k: u32| k < 31 ==> #[trigger] (1u32 << (k + 1)) == 2 * (1u32 << k),
        forall|k: u32| 1 <= k < 32 ==> #[trigger] (1u32 >> k) == 0u32,
        forall|k: u32, v: u32| k < 32 ==> (#[trigger] (v >> k) == 0u32 <==> v < (1u32 << k)),
        forall|p: u32| #[trigger] ((0u32 >> p) & 1u32) == 0u32,
        forall|p: u32| #[trigger] ((1u32 >> p) & 1u32) == 1u32 <==> p == 0u32,
        forall|v: u32| v <= 1 ==> (#[trigger] ((v >> 0u32) & 1u32) == 1u32 <==> v == 1),
        forall|v: u32| #[trigger] (v >> 1u32) == v / 2,
        forall|l: i32| l >= 0 ==> #[trigger] (l & 7i32) == l % 8,
        (1u32 << 0u32) == 1u32,
        (1u32 << 3u32) == 8u32,
        (1u32 << 4u32) == 16u32,
        (1u32 << 12u32) == 4096u32,
        (1u32 << 31u32) == 0x8000_0000u32,
{
}

/// Arithmetic shifts of signed 32-bit values: right shifts divide rounding
/// down, a small left shift by 4 multiplies by 16.
pub proof fn lemma_i32_shifts()
    by (bit_vector)
    ensures
        forall|t: i32| #[trigger] (t >> 0u32) == t,
        forall|t: i32| #[trigger] (t >> 1u32) == t / 2,
        forall|t: i32| #[trigger] (t >> 2u32) == t / 4,
        forall|x: i32| 0 <= x < 0x100000 ==> #[trigger] (x << 4u32) == x * 16,
{
}

pub proof fn lemma_pow2_u32(n: int)
    requires
        0 <= n < 32,
    ensures
        pow2_int(n) == (1u32 << (n as u32)) as int,
        pow2_int(n) > 0,
    decreases n,
{
    if n == 0 {
        lemma_u32_shifts();
    } else {
        lemma_pow2_u32(n - 1);
        let m = (n - 1) as u32;
        lemma_u32_shifts();
        assert(m < 31 ==> (1u32 << (m + 1)) == 2 * (1u32 << m));
    }
}

/// `fits` as a bit-vector fact.
pub proof fn lemma_fits_shr(v: u32, n: int)
    requires
        0 <= n < 32,
        fits(v, n),
    ensures
        (v >> (n as u32)) == 0,
{
    lemma_pow2_u32(n);
    let nn = n as u32;
    lemma_u32_shifts();
    assert(nn < 32 && v < (1u32 << nn) ==> (v >> nn) == 0);
}

pub proof fn lemma_shr_fits(v: u32, n: int)
    requires
        0 <= n < 32,
        (v >> (n as u32)) == 0,
    ensures
        fits(v, n),
{
    lemma_pow2_u32(n);
    let nn = n as u32;
    lemma_u32_shifts();
    assert(nn < 32 && (v >> nn) == 0 ==> v < (1u32 << nn));
}

/// Appending `n` bits to a right-aligned accumulator of `m` bits.
pub proof fn lemma_append_acc(cur: u32, m: int, v: u32, n: int)
    requires
        0 <= m,
        0 <= n,
        m + n <= 32,
        n < 32,
        fits(cur, m),
        fits(v, n),
    ensures
        val_bits(((cur << (n as u32)) | v), (m + n) as nat) =~= val_bits(cur, m as nat) + val_bits(
            v,
            n as nat,
        ),
        fits(((cur << (n as u32)) | v), m + n),
{
    let nn = n as u32;
    let c2 = (cur << nn) | v;
    if m + n < 32 {
        lemma_fits_shr(cur, m);
    }
    lemma_fits_shr(v, n);
    let mm = m as u32;
    assert forall|i: int| 0 <= i < m + n implies #[trigger] val_bits(c2, (m + n) as nat)[i] == (
    val_bits(cur, m as nat) + val_bits(v, n as nat))[i] by {
        let p = (m + n - 1 - i) as u32;
        if i < m {
            assert(p >= nn && p < 32 && nn < 32 ==> ((((cur << nn) | v) >> p) & 1u32) == ((cur >> ((p - nn) as u32)) & 1u32)) by (bit_vector)
                requires
                    (v >> nn) == 0,
            ;
        } else {
            assert(p < nn && nn < 32 ==> ((((cur << nn) | v) >> p) & 1u32) == ((v >> p) & 1u32))
                by (bit_vector);
        }
    }
    if m + n < 32 {
        let s = (m + n) as u32;
        assert(s < 32 && nn <= s && (cur >> ((s - nn) as u32)) == 0 && (v >> nn) == 0 ==> (((cur << nn)
            | v) >> s) == 0) by (bit_vector);
        lemma_shr_fits(c2, m + n);
    }
}

/// Splitting the `n` low bits of `v` into its high `n - k` and low `k` bits.
proof fn lemma_split_val(v: u32, n: int, k: int)
    requires
        0 <= k <= n <= 32,
        k < 32,
    ensures
        val_bits(v, n as nat) =~= val_bits(v >> (k as u32), (n - k) as nat) + val_bits(
            v & (((1u32 << (k as u32)) - 1) as u32),
            k as nat,
        ),
        fits(v & (((1u32 << (k as u32)) - 1) as u32), k),
{
    let kk = k as u32;
    assert forall|i: int| 0 <= i < n implies #[trigger] val_bits(v, n as nat)[i] == (val_bits(
        v >> kk,
        (n - k) as nat,
    ) + val_bits(v & (((1u32 << kk) - 1) as u32), k as nat))[i] by {
        let p = (n - 1 - i) as u32;
        if i < n - k {
            assert(p >= kk && p < 32 && kk < 32 ==> (((v >> kk) >> ((p - kk) as u32)) & 1u32) == ((v >> p)
                & 1u32)) by (bit_vector);
        } else {
            assert(p < kk && kk < 32 ==> (((v & (((1u32 << kk) - 1u32) as u32)) >> p) & 1u32) == ((v >> p)
                & 1u32)) by (bit_vector);
        }
    }
    assert(kk < 32 ==> ((v & (((1u32 << kk) - 1u32) as u32)) >> kk) == 0) by (bit_vector);
    lemma_shr_fits(v & (((1u32 << kk) - 1) as u32), k);
}

/// The four big-endian bytes of a word carry its bits in order.
proof fn lemma_be_word(x: u32, b0: u8, b1: u8, b2: u8, b3: u8)
    requires
        b0 == (x >> 24u32) as u8,
        b1 == (x >> 16u32) as u8,
        b2 == (x >> 8u32) as u8,
        b3 == x as u8,
    ensures
        bytes_bits(seq![b0, b1, b2, b3]) =~= val_bits(x, 32),
{
    let s = seq![b0, b1, b2, b3];
    assert forall|k: int| 0 <= k < 32 implies #[trigger] bytes_bits(s)[k] == val_bits(x, 32)[k] by {
        let q = (7 - k % 8) as u8;
        let p = (31 - k) as u32;
        if k < 8 {
            assert(q < 8 && p == 24 + q ==> (((((x >> 24u32) as u8) >> q) & 1u8) == 1u8 <==> ((x
                >> p) & 1u32) == 1u32)) by (bit_vector);
        } else if k < 16 {
            assert(q < 8 && p == 16 + q ==> (((((x >> 16u32) as u8) >> q) & 1u8) == 1u8 <==> ((x
                >> p) & 1u32) == 1u32)) by (bit_vector);
        } else if k < 24 {
            assert(q < 8 && p == 8 + q ==> (((((x >> 8u32) as u8) >> q) & 1u8) == 1u8 <==> ((x >> p)
                & 1u32) == 1u32)) by (bit_vector);
        } else {
            assert(q < 8 && p == q ==> ((((x as u8) >> q) & 1u8) == 1u8 <==> ((x >> p) & 1u32)
                == 1u32)) by (bit_vector);
        }
    }
}

proof fn lemma_bytes_bits_append(a: Seq<u8>, b: Seq<u8>)
    ensures
        bytes_bits(a + b) =~= bytes_bits(a) + bytes_bits(b),
{
    assert forall|k: int| 0 <= k < 8 * (a.len() + b.len()) implies #[trigger] bytes_bits(a + b)[k]
        == (bytes_bits(a) + bytes_bits(b))[k] by {
        if k < 8 * a.len() {
            assert(k / 8 < a.len());
        } else {
            let k2 = k - 8 * a.len();
            assert(k / 8 == a.len() + k2 / 8);
            assert(k % 8 == k2 % 8);
        }
    }
}

/// Writing four bytes at `pos` and advancing extends the completed prefix by
/// those bytes.
proof fn lemma_store_word(old_buf: Seq<u8>, new_buf: Seq<u8>, pos: int, x: u32)
    requires
        0 <= pos,
        pos + 4 <= old_buf.len(),
        new_buf.len() == old_buf.len(),
        forall|i: int| 0 <= i < pos ==> new_buf[i] == old_buf[i],
        new_buf[pos] == (x >> 24u32) as u8,
        new_buf[pos + 1] == (x >> 16u32) as u8,
        new_buf[pos + 2] == (x >> 8u32) as u8,
        new_buf[pos + 3] == x as u8,
    ensures
        bytes_bits(new_buf.take(pos + 4)) =~= bytes_bits(old_buf.take(pos)) + val_bits(x, 32),
{
    let w = seq![new_buf[pos], new_buf[pos + 1], new_buf[pos + 2], new_buf[pos + 3]];
    assert(new_buf.take(pos + 4) =~= old_buf.take(pos) + w);
    lemma_bytes_bits_append(old_buf.take(pos), w);
    lemma_be_word(x, new_buf[pos], new_buf[pos + 1], new_buf[pos + 2], new_buf[pos + 3]);
}

// ---------------------------------------------------------------------------
// Writing
// ---------------------------------------------------------------------------

impl BsWriter {
    /// Appends the `n` low bits of `v`, most significant first.
    pub fn write_bits(&mut self, buf: &mut [u8], n: i32, v: u32)
        requires
            old(self).wf(),
            0 <= n <= 32,
            fits(v, n as int),
            old(self).has_room(old(buf)@.len() as int, n as int),
        ensures
            final(self).wf(),
            final(buf)@.len() == old(buf)@.len(),
            final(self).bits(final(buf)@) == old(self).bits(old(buf)@) + val_bits(v, n as nat),
            final(self).bit_len() == old(self).bit_len() + n,
            final(self).pos >= old(self).pos,
            forall|i: int| 0 <= i < old(self).pos ==> final(buf)@[i] == old(buf)@[i],
    {
        let ghost old_buf = buf@;
        let ghost old_w = *self;
        let m = 32 - self.left_bits;
        if n < self.left_bits {
            proof {
                lemma_append_acc(self.cur_bits, m as int, v, n as int);
            }
            self.cur_bits = (self.cur_bits << (n as u32)) | v;
            self.left_bits = self.left_bits - n;
            proof {
                assert(self.pending() =~= old_w.pending() + val_bits(v, n as nat));
                assert(self.bits(buf@) =~= old_w.bits(old_buf) + val_bits(v, n as nat));
            }
        } else {
            let k = n - self.left_bits;
            // k < 32 because left_bits >= 1
            let hi = v >> (k as u32);
            proof {
                lemma_split_val(v, n as int, k as int);
                assert(fits(hi, (n - k) as int)) by {
                    if n < 32 {
                        lemma_fits_shr(v, n as int);
                        let kk = k as u32;
                        let nn = n as u32;
                        let d = (n - k) as u32;
                        assert(kk <= nn && nn < 32 && d == nn - kk && (v >> nn) == 0 ==> ((v >> kk)
                            >> d) == 0) by (bit_vector);
                        lemma_shr_fits(hi, (n - k) as int);
                    } else if k > 0 {
                        let kk = k as u32;
                        let d = (32 - k) as u32;
                        assert(1 <= kk && kk < 32 && d == 32 - kk ==> ((v >> kk) >> d) == 0)
                            by (bit_vector);
                        lemma_shr_fits(hi, (n - k) as int);
                    }
                }
            }
            let x: u32;
            if self.left_bits == 32 {
                // nothing pending
                proof {
                    assert(self.cur_bits == 0) by {
                        assert(fits(self.cur_bits, 0));
                    }
                    assert(k == n - 32);
                }
                x = hi;
                proof {
                    assert(val_bits(x, 32) =~= old_w.pending() + val_bits(hi, 32));
                }
            } else {
                proof {
                    lemma_append_acc(self.cur_bits, m as int, hi, self.left_bits as int);
                }
                x = (self.cur_bits << (self.left_bits as u32)) | hi;
            }
            let p = self.pos;
            buf[p] = (x >> 24u32) as u8;
            buf[p + 1] = (x >> 16u32) as u8;
            buf[p + 2] = (x >> 8u32) as u8;
            buf[p + 3] = x as u8;
            proof {
                lemma_store_word(old_buf, buf@, p as int, x);
            }
            self.pos = p + 4;
            proof {
                let kk = k as u32;
                lemma_u32_shifts();
                assert(kk < 32 ==> (1u32 << kk) >= 1u32);
            }
            let mask: u32 = ((1u32 << (k as u32)) - 1) as u32;
            self.cur_bits = v & mask;
            self.left_bits = 32 - k;
            proof {
                assert(self.pending() =~= val_bits(v & mask, k as nat));
                assert(val_bits(x, 32) =~= old_w.pending() + val_bits(hi, (n - k) as nat));
                assert(self.bits(buf@) =~= old_w.bits(old_buf) + val_bits(v, n as nat));
            }
        }
    }
}


pub proof fn lemma_zero_val(n: nat)
    requires
        n <= 32,
    ensures
        val_bits(0u32, n) =~= zero_bits(n),
{
    assert forall|i: int| 0 <= i < n implies #[trigger] val_bits(0u32, n)[i] == zero_bits(n)[i] by {
        let p = (n - 1 - i) as u32;
        lemma_u32_shifts();
        assert(((0u32 >> p) & 1u32) == 0u32);
    }
}

proof fn lemma_ones_val(r: int)
    requires
        0 <= r < 32,
    ensures
        val_bits(((1u32 << (r as u32)) - 1) as u32, r as nat) =~= one_bits(r as nat),
        fits(((1u32 << (r as u32)) - 1) as u32, r),
{
    let rr = r as u32;
    lemma_u32_shifts();
    assert(rr < 32 ==> (1u32 << rr) >= 1u32);
    assert forall|i: int| 0 <= i < r implies #[trigger] val_bits(((1u32 << rr) - 1) as u32, r as nat)[i]
        == one_bits(r as nat)[i] by {
        let p = (r - 1 - i) as u32;
        assert(p < rr && rr < 32 ==> (((((1u32 << rr) - 1u32) as u32) >> p) & 1u32) == 1u32)
            by (bit_vector);
    }
    assert(rr < 32 ==> ((((1u32 << rr) - 1u32) as u32) >> rr) == 0u32) by (bit_vector);
    lemma_shr_fits(((1u32 << rr) - 1) as u32, r);
}

proof fn lemma_bytes_bits_take(s: Seq<u8>, a: int)
    requires
        0 <= a <= s.len(),
    ensures
        bytes_bits(s.take(a)) =~= bytes_bits(s).take(8 * a),
{
    assert forall|k: int| 0 <= k < 8 * a implies #[trigger] bytes_bits(s.take(a))[k] == bytes_bits(
        s,
    ).take(8 * a)[k] by {
        assert(k / 8 < a);
    }
}

impl BsWriter {
    /// Stores the pending bits, zero padded to the next byte boundary, and
    /// empties the accumulator.
    pub fn flush(&mut self, buf: &mut [u8])
        requires
            old(self).wf(),
            old(self).left_bits == 32 || old(self).pos + 4 <= old(buf)@.len(),
            8 * old(buf)@.len() + 64 <= i32::MAX,
        ensures
            final(self).wf(),
            final(self).left_bits == 32,
            final(buf)@.len() == old(buf)@.len(),
            final(self).bits(final(buf)@) == old(self).bits(old(buf)@) + zero_bits(
                pad_len(old(self).bit_len()),
            ),
            final(self).bit_len() == old(self).bit_len() + pad_len(old(self).bit_len()),
            forall|i: int| 0 <= i < old(self).pos ==> final(buf)@[i] == old(buf)@[i],
    {
        if self.left_bits == 32 {
            proof {
                assert((8 * self.pos) % 8 == 0);
                assert(pad_len(self.bit_len()) == 0);
                assert(zero_bits(0) =~= Seq::<bool>::empty());
                assert(self.bits(buf@) =~= self.bits(buf@) + zero_bits(0));
            }
            return;
        }
        let ghost old_buf = buf@;
        let ghost old_w = *self;
        let left = self.left_bits;
        let m = 32 - left;
        proof {
            lemma_pow2_pos(left as int);
            lemma_zero_val(left as nat);
            lemma_append_acc(self.cur_bits, m as int, 0u32, left as int);
        }
        let x = (self.cur_bits << (left as u32)) | 0u32;
        let p = self.pos;
        buf[p] = (x >> 24u32) as u8;
        buf[p + 1] = (x >> 16u32) as u8;
        buf[p + 2] = (x >> 8u32) as u8;
        buf[p + 3] = x as u8;
        proof {
            lemma_store_word(old_buf, buf@, p as int, x);
        }
        let adv = (4 - left / 8) as usize;
        self.pos = p + adv;
        self.cur_bits = 0;
        self.left_bits = 32;
        proof {
            assert(pow2_int(0) == 1);
            let c = adv as int;
            assert(8 * c == m + pad_len(old_w.bit_len()));
            lemma_bytes_bits_take(buf@.take(p + 4), p + c);
            assert(buf@.take(p + 4).take(p + c) =~= buf@.take(p + c));
            let pre = bytes_bits(old_buf.take(p as int));
            assert(val_bits(x, 32) =~= old_w.pending() + zero_bits(left as nat));
            assert(bytes_bits(buf@.take(p + c)) =~= (pre + val_bits(x, 32)).take(8 * (p + c)));
            assert(self.pending() =~= Seq::<bool>::empty());
            assert(self.bits(buf@) =~= old_w.bits(old_buf) + zero_bits(pad_len(old_w.bit_len())));
        }
    }

    /// Pads to a byte boundary with one bits, then flushes.
    pub fn align(&mut self, buf: &mut [u8])
        requires
            old(self).wf(),
            old(self).pos + 8 <= old(buf)@.len(),
            8 * old(buf)@.len() + 64 <= i32::MAX,
        ensures
            final(self).wf(),
            final(self).left_bits == 32,
            final(buf)@.len() == old(buf)@.len(),
            final(self).bits(final(buf)@) == old(self).bits(old(buf)@) + one_bits(
                pad_len(old(self).bit_len()),
            ),
            final(self).bit_len() == old(self).bit_len() + pad_len(old(self).bit_len()),
            forall|i: int| 0 <= i < old(self).pos ==> final(buf)@[i] == old(buf)@[i],
    {
        let r = self.left_bits & 7;
        proof {
            let l = self.left_bits;
            lemma_u32_shifts();
            assert(l >= 0 ==> (l & 7i32) == l % 8);
            assert(r == pad_len(self.bit_len()));
            lemma_ones_val(r as int);
            let rr = r as u32;
            assert(rr < 32 ==> (1u32 << rr) >= 1u32);
        }
        let ones = ((1u32 << (r as u32)) - 1) as u32;
        self.write_bits(buf, r, ones);
        self.flush(buf);
        proof {
            assert(zero_bits(0) =~= Seq::<bool>::empty());
        }
    }
}

/// `floor(log2(x))` for `x >= 1`.
pub fn floor_log2_u32(x: u32) -> (r: u32)
    requires
        x >= 1,
    ensures
        r == floor_log2(x as int),
        r < 32,
{
    proof {
        lemma_floor_log2_u32(x);
    }
    let mut t = x;
    let mut l: u32 = 0;
    while t > 1
        invariant
            t >= 1,
            l + floor_log2(t as int) == floor_log2(x as int),
            l <= 32 - 1 - floor_log2(t as int),
            floor_log2(x as int) <= 31,
        decreases t,
    {
        proof {
            lemma_u32_shifts();
        }
        assert((t >> 1u32) == t / 2);
        t = t >> 1;
        l = l + 1;
    }
    l
}

pub proof fn lemma_floor_log2_bound(x: int)
    requires
        1 <= x,
    ensures
        pow2_int(floor_log2(x) as int) <= x < pow2_int(floor_log2(x) as int + 1),
    decreases x,
{
    if x > 1 {
        lemma_floor_log2_bound(x / 2);
    }
}

pub proof fn lemma_floor_log2_u32(x: u32)
    requires
        1 <= x,
    ensures
        floor_log2(x as int) <= 31,
    decreases x,
{
    lemma_floor_log2_bound(x as int);
    let l = floor_log2(x as int) as int;
    if l >= 32 {
        lemma_pow2_u32(31);
        lemma_pow2_ge(32, l);
        assert(pow2_int(32) == 2 * pow2_int(31));
        lemma_u32_shifts();
    }
}

pub proof fn lemma_pow2_ge(a: int, b: int)
    requires
        0 <= a <= b,
    ensures
        pow2_int(a) <= pow2_int(b),
        pow2_int(a) >= 1,
    decreases b,
{
    if b > a {
        lemma_pow2_ge(a, b - 1);
    } else {
        lemma_pow2_pos(a);
    }
}

pub proof fn lemma_pow2_pos(a: int)
    ensures
        pow2_int(a) >= 1,
    decreases a,
{
    if a > 0 {
        lemma_pow2_pos(a - 1);
    }
}

impl BsWriter {
    /// Appends the unsigned Exp-Golomb code of `v`.
    pub fn write_ue(&mut self, buf: &mut [u8], v: u32)
        requires
            old(self).wf(),
            v < u32::MAX,
            old(self).has_room(old(buf)@.len() as int, ue_bits(v).len() as int),
        ensures
            final(self).wf(),
            final(buf)@.len() == old(buf)@.len(),
            final(self).bits(final(buf)@) == old(self).bits(old(buf)@) + ue_bits(v),
            final(self).bit_len() == old(self).bit_len() + ue_bits(v).len(),
            forall|i: int| 0 <= i < old(self).pos ==> final(buf)@[i] == old(buf)@[i],
    {
        let x = v + 1;
        proof {
            lemma_floor_log2_u32(x);
        }
        let l = floor_log2_u32(x);
        proof {
            lemma_zero_val(l as nat);
            lemma_floor_log2_bound(x as int);
            if l + 1 < 32 {
                lemma_pow2_u32((l + 1) as int);
            }
        }
        self.write_bits(buf, l as i32, 0);
        proof {
            assert(l + 1 >= 32 || (x as int) < pow2_int((l + 1) as int));
            assert(((l + 1) as i32) as int == l + 1);
            assert(fits(x, ((l + 1) as i32) as int));
        }
        self.write_bits(buf, (l + 1) as i32, x);
        proof {
            assert(ue_bits(v) =~= zero_bits(l as nat) + val_bits(x, (l + 1) as nat));
        }
    }

    /// Appends the signed Exp-Golomb code of `v`.
    pub fn write_se(&mut self, buf: &mut [u8], v: i32)
        requires
            old(self).wf(),
            v != i32::MIN,
            old(self).has_room(old(buf)@.len() as int, se_bits(v).len() as int),
        ensures
            final(self).wf(),
            final(buf)@.len() == old(buf)@.len(),
            final(self).bits(final(buf)@) == old(self).bits(old(buf)@) + se_bits(v),
            final(self).bit_len() == old(self).bit_len() + se_bits(v).len(),
            forall|i: int| 0 <= i < old(self).pos ==> final(buf)@[i] == old(buf)@[i],
    {
        if v == 0 {
            proof {
                assert(floor_log2(1) == 0);
                assert(pow2_int(0) == 1);
                assert(pow2_int(1) == 2);
                assert(se_bits(0) =~= zero_bits(0) + val_bits(1u32, 1));
                assert(val_bits(1u32, 1) =~= seq![true]) by {
                    lemma_u32_shifts();
                    assert(((1u32 >> 0u32) & 1u32) == 1u32);
                }
            }
            self.write_bits(buf, 1, 1);
        } else if v > 0 {
            let t = ((v as u32) * 2 - 1) as u32;
            assert(t == se_code_num(v));
            self.write_ue(buf, t);
        } else {
            let t = ((-v) as u32) * 2;
            assert(t == se_code_num(v));
            self.write_ue(buf, t);
        }
    }

    /// Appends the truncated Exp-Golomb code of `v` for range bound `x`.
    pub fn write_te(&mut self, buf: &mut [u8], x: i32, v: u32)
        requires
            old(self).wf(),
            x == 1 || v < u32::MAX,
            old(self).has_room(old(buf)@.len() as int, te_bits(x, v).len() as int),
        ensures
            final(self).wf(),
            final(buf)@.len() == old(buf)@.len(),
            final(self).bits(final(buf)@) == old(self).bits(old(buf)@) + te_bits(x, v),
            final(self).bit_len() == old(self).bit_len() + te_bits(x, v).len(),
            forall|i: int| 0 <= i < old(self).pos ==> final(buf)@[i] == old(buf)@[i],
    {
        if x == 1 {
            let b: u32 = if v == 0 {
                1
            } else {
                0
            };
            proof {
                lemma_u32_shifts();
                assert(val_bits(b, 1) =~= seq![v == 0]) by {
                    assert(((1u32 >> 0u32) & 1u32) == 1u32);
                    assert(((0u32 >> 0u32) & 1u32) == 0u32);
                }
                if b == 0 {
                    assert((0u32 >> 1u32) == 0u32);
                    lemma_shr_fits(0u32, 1);
                } else {
                    assert((1u32 >> 1u32) == 0u32);
                    lemma_shr_fits(1u32, 1);
                }
            }
            self.write_bits(buf, 1, b);
        } else {
            self.write_ue(buf, v);
        }
    }
}

/// Length of the unsigned Exp-Golomb code of `v`.
pub fn ue_len(v: u32) -> (r: u32)
    requires
        v < u32::MAX,
    ensures
        r == ue_bits(v).len(),
        r <= 63,
{
    proof {
        lemma_floor_log2_u32((v + 1) as u32);
    }
    let l = floor_log2_u32(v + 1);
    2 * l + 1
}

/// Only the `n` low bits of a value are written, so masking with them is
/// invisible in the bit view.
pub proof fn lemma_val_bits_mask(v: u32, n: int)
    requires
        0 <= n < 32,
    ensures
        val_bits(v & (((1u32 << (n as u32)) - 1) as u32), n as nat) =~= val_bits(v, n as nat),
        fits(v & (((1u32 << (n as u32)) - 1) as u32), n),
{
    lemma_split_val(v, n, n);
    assert(val_bits(v >> (n as u32), 0) =~= Seq::<bool>::empty());
}

impl BsWriter {
    /// Appends the `n` low bits of `v`, ignoring whatever lies above them.
    pub fn write_low_bits(&mut self, buf: &mut [u8], n: i32, v: u32)
        requires
            old(self).wf(),
            0 <= n <= 32,
            old(self).has_room(old(buf)@.len() as int, n as int),
        ensures
            final(self).wf(),
            final(buf)@.len() == old(buf)@.len(),
            final(self).bits(final(buf)@) == old(self).bits(old(buf)@) + val_bits(v, n as nat),
            final(self).bit_len() == old(self).bit_len() + n,
            final(self).pos >= old(self).pos,
            forall|i: int| 0 <= i < old(self).pos ==> final(buf)@[i] == old(buf)@[i],
    {
        if n == 32 {
            self.write_bits(buf, n, v);
        } else {
            proof {
                lemma_val_bits_mask(v, n as int);
                let nn = n as u32;
                lemma_u32_shifts();
                assert(nn < 32 ==> (1u32 << nn) >= 1u32);
            }
            let m = ((1u32 << (n as u32)) - 1) as u32;
            self.write_bits(buf, n, v & m);
        }
    }
}

/// A single bit value as a one-element bit string.
pub proof fn lemma_one_bit(v: u32)
    requires
        v <= 1,
    ensures
        val_bits(v, 1) =~= seq![v == 1],
        fits(v, 1),
{
    lemma_u32_shifts();
    assert(v <= 1 ==> (((v >> 0u32) & 1u32) == 1u32 <==> v == 1));
    assert(v <= 1 ==> (v >> 1u32) == 0u32);
    lemma_shr_fits(v, 1);
}

/// The value 1 written in `z + 1` bits is `z` zeros and a one.
pub proof fn lemma_unary(z: int)
    requires
        0 <= z <= 31,
    ensures
        val_bits(1u32, (z + 1) as nat) =~= zero_bits(z as nat) + seq![true],
{
    assert forall|i: int| 0 <= i < z + 1 implies #[trigger] val_bits(1u32, (z + 1) as nat)[i] == (
    zero_bits(z as nat) + seq![true])[i] by {
        let p = (z - i) as u32;
        lemma_u32_shifts();
        assert(((1u32 >> p) & 1u32) == 1u32 <==> p == 0u32);
    }
}

/// Appending `n` bits below the `m` low bits of any word.
pub proof fn lemma_append_low(a: u32, m: int, b: u32, n: int)
    requires
        0 <= m,
        0 <= n < 32,
        m + n <= 32,
        fits(b, n),
    ensures
        val_bits(((a << (n as u32)) | b), (m + n) as nat) =~= val_bits(a, m as nat) + val_bits(
            b,
            n as nat,
        ),
{
    let nn = n as u32;
    let c2 = (a << nn) | b;
    lemma_fits_shr(b, n);
    assert forall|i: int| 0 <= i < m + n implies #[trigger] val_bits(c2, (m + n) as nat)[i] == (
    val_bits(a, m as nat) + val_bits(b, n as nat))[i] by {
        let p = (m + n - 1 - i) as u32;
        if i < m {
            assert(p >= nn && p < 32 && nn < 32 ==> ((((a << nn) | b) >> p) & 1u32) == ((a >> ((p
                - nn) as u32)) & 1u32)) by (bit_vector)
                requires
                    (b >> nn) == 0,
            ;
        } else {
            assert(p < nn && nn < 32 ==> ((((a << nn) | b) >> p) & 1u32) == ((b >> p) & 1u32))
                by (bit_vector);
        }
    }
}

} // verus!
