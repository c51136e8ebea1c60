//! A fixed-capacity circular buffer of samples with a write cursor and a
//! fractional (interpolated) read of any past sample within capacity.

use vstd::prelude::*;
use vstd::arithmetic::div_mod::lemma_fundamental_div_mod;
use vstd::arithmetic::div_mod::lemma_mod_division_less_than_divisor;
use vstd::arithmetic::div_mod::lemma_multiply_divide_lt;
use vstd::arithmetic::div_mod::lemma_small_mod;
use vstd::arithmetic::div_mod::lemma_mod_self_0;
use crate::div_trunc;
use crate::div_trunc_i64;
use crate::lemma_div_trunc_bound;
use crate::MAX_CAPACITY;
use crate::SAMPLE_LIMIT;
use crate::SCALE;

verus! {

/// Mathematical state of a [`DelayLine`]: the stored samples and the
/// position the next sample will be written to.
pub ghost struct DelayLineView {
    pub samples: Seq<i64>,
    pub write_pos: int,
}

impl DelayLineView {
    /// Well-formedness: the write cursor is a valid slot and every stored
    /// sample is within the admissible magnitude.
    pub open spec fn wf(self) -> bool {
        &&& self.samples.len() <= MAX_CAPACITY
        &&& self.samples.len() == 0 ==> self.write_pos == 0
        &&& self.samples.len() > 0 ==> 0 <= self.write_pos < self.samples.len()
        &&& forall|i: int|
            0 <= i < self.samples.len() ==> -SAMPLE_LIMIT <= #[trigger] self.samples[i]
                <= SAMPLE_LIMIT
    }
}

/// Fixed-point read position for a backward `offset` from the write cursor:
/// `(write_pos + capacity - offset) mod capacity`, all scaled by [`SCALE`].
pub open spec fn read_pos_spec(v: DelayLineView, offset: int) -> int {
    (v.write_pos * SCALE + v.samples.len() * SCALE - offset) % (v.samples.len() * SCALE)
}

/// Index of the earlier of the two samples blended by an interpolated read.
pub open spec fn index_a_spec(v: DelayLineView, offset: int) -> int {
    read_pos_spec(v, offset) / (SCALE as int)
}

/// Fixed-point fraction of the read position past `index_a_spec`.
pub open spec fn frac_spec(v: DelayLineView, offset: int) -> int {
    read_pos_spec(v, offset) % (SCALE as int)
}

/// Index of the later of the two samples blended by an interpolated read:
/// the slot after `index_a_spec`, wrapping at capacity.
pub open spec fn index_b_spec(v: DelayLineView, offset: int) -> int {
    (index_a_spec(v, offset) + 1) % (v.samples.len() as int)
}

/// Value of an interpolated read: the linear blend
/// `(1 - frac) * samples[index_a] + frac * samples[index_b]`, in fixed point.
pub open spec fn interp_spec(v: DelayLineView, offset: int) -> int {
    div_trunc(
        (SCALE - frac_spec(v, offset)) * v.samples[index_a_spec(v, offset)] + frac_spec(v, offset)
            * v.samples[index_b_spec(v, offset)],
        SCALE as int,
    )
}

/// The interpolation decomposition: the blend index is the whole part
/// (floor) of the fixed-point read position, the blend fraction is what
/// remains below one slot, and the second index is the next slot modulo
/// capacity.
pub proof fn lemma_interpolation_decomposition(v: DelayLineView, offset: int)
    requires
        v.wf(),
        v.samples.len() >= 1,
        0 <= offset <= v.samples.len() * SCALE,
    ensures
        0 <= index_a_spec(v, offset) < v.samples.len(),
        SCALE * index_a_spec(v, offset) <= read_pos_spec(v, offset) < SCALE * (index_a_spec(
            v,
            offset,
        ) + 1),
        frac_spec(v, offset) == read_pos_spec(v, offset) - SCALE * index_a_spec(v, offset),
        0 <= frac_spec(v, offset) < SCALE,
        index_b_spec(v, offset) == (index_a_spec(v, offset) + 1) % (v.samples.len() as int),
{
    let len = v.samples.len() as int;
    let rp = read_pos_spec(v, offset);
    assert(0 < len * SCALE) by (nonlinear_arith)
        requires
            len >= 1,
    ;
    lemma_mod_division_less_than_divisor(v.write_pos * SCALE + len * SCALE - offset, len * SCALE);
    lemma_fundamental_div_mod(rp, SCALE as int);
    lemma_mod_division_less_than_divisor(rp, SCALE as int);
    vstd::arithmetic::div_mod::lemma_div_pos_is_pos(rp, SCALE as int);
    lemma_multiply_divide_lt(rp, SCALE as int, len);
}

/// A circular delay buffer: samples are written at a cursor that wraps at
/// capacity, and past samples are read back at fractional offsets.
pub struct DelayLine {
    samples: Vec<i64>,
    write_pos: usize,
}

impl View for DelayLine {
    type V = DelayLineView;

    closed spec fn view(&self) -> DelayLineView {
        DelayLineView { samples: self.samples@, write_pos: self.write_pos as int }
    }
}

impl DelayLine {
    /// Builds a delay line of `capacity` zeroed slots with the cursor on
    /// slot zero.
    pub fn new(capacity: usize) -> (r: Self)
        requires
            capacity <= MAX_CAPACITY,
        ensures
            r@.samples == Seq::new(capacity as nat, |i: int| 0i64),
            r@.write_pos == 0,
            r@.wf(),
    {
        let mut samples: Vec<i64> = Vec::new();
        let mut i: usize = 0;
        while i < capacity
            invariant
                i <= capacity,
                samples@.len() == i,
                forall|j: int| 0 <= j < i ==> #[trigger] samples@[j] == 0i64,
            decreases capacity - i,
        {
            samples.push(0);
            i = i + 1;
        }
        proof {
            assert(samples@ =~= Seq::new(capacity as nat, |i: int| 0i64));
        }
        DelayLine { samples, write_pos: 0 }
    }

    /// Number of slots.
    pub fn capacity(&self) -> (r: usize)
        ensures
            r == self@.samples.len(),
    {
        self.samples.len()
    }

    /// The sample stored in slot `i`.
    pub fn sample_at(&self, i: usize) -> (r: i64)
        requires
            i < self@.samples.len(),
        ensures
            r == self@.samples[i as int],
    {
        self.samples[i]
    }

    /// Overwrites the slot at the write cursor with `sample`. No other slot
    /// changes and the cursor stays put.
    pub fn write(&mut self, sample: i64)
        requires
            old(self)@.wf(),
            old(self)@.samples.len() > 0,
            -SAMPLE_LIMIT <= sample <= SAMPLE_LIMIT,
        ensures
            final(self)@.samples == old(self)@.samples.update(old(self)@.write_pos, sample),
            final(self)@.write_pos == old(self)@.write_pos,
            final(self)@.wf(),
    {
        let wp = self.write_pos;
        self.samples[wp] = sample;
    }

    /// Moves the write cursor one slot forward, wrapping at capacity.
    pub fn advance(&mut self)
        requires
            old(self)@.wf(),
            old(self)@.samples.len() > 0,
        ensures
            final(self)@.samples == old(self)@.samples,
            final(self)@.write_pos == (old(self)@.write_pos + 1) % (
            old(self)@.samples.len() as int),
            final(self)@.wf(),
    {
        let len = self.samples.len();
        proof {
            if old(self)@.write_pos + 1 == len {
                lemma_mod_self_0(len as int);
            } else {
                lemma_small_mod((old(self)@.write_pos + 1) as nat, len as nat);
            }
        }
        if self.write_pos + 1 == len {
            self.write_pos = 0;
        } else {
            self.write_pos = self.write_pos + 1;
        }
    }

    /// Zeroes every slot and puts the cursor back on slot zero, without
    /// changing the capacity.
    pub fn reset(&mut self)
        requires
            old(self)@.wf(),
        ensures
            final(self)@.samples == Seq::new(old(self)@.samples.len(), |i: int| 0i64),
            final(self)@.write_pos == 0,
            final(self)@.wf(),
    {
        let len = self.samples.len();
        let mut i: usize = 0;
        while i < len
            invariant
                i <= len,
                self@.samples.len() == len,
                forall|j: int| 0 <= j < i ==> #[trigger] self@.samples[j] == 0i64,
            decreases len - i,
        {
            self.samples[i] = 0;
            i = i + 1;
        }
        self.write_pos = 0;
        proof {
            assert(self@.samples =~= Seq::new(old(self)@.samples.len(), |i: int| 0i64));
        }
    }

    /// Reads the sample `offset` fixed-point slots behind the write cursor,
    /// blending the two adjacent slots when the offset is fractional. At an
    /// offset of the full capacity the wrap lands back on the slot under
    /// the cursor, which still holds the oldest sample at that point.
    pub fn read_interpolated(&self, offset: i64) -> (r: i64)
        requires
            self@.wf(),
            self@.samples.len() >= 1,
            0 <= offset <= self@.samples.len() * SCALE,
        ensures
            r == interp_spec(self@, offset as int),
            -SAMPLE_LIMIT <= r <= SAMPLE_LIMIT,
    {
        let ghost v = self@;
        let ghost goff = offset as int;
        let len = self.samples.len();
        let len_fp: i64 = (len as i64) * SCALE;
        let read_pos: i64 = ((self.write_pos as i64) * SCALE + len_fp - offset) % len_fp;
        proof {
            lemma_mod_division_less_than_divisor(
                v.write_pos * SCALE + len * SCALE - goff,
                len * SCALE,
            );
            assert(read_pos == read_pos_spec(v, goff));
            lemma_multiply_divide_lt(read_pos as int, SCALE as int, len as int);
            lemma_fundamental_div_mod(read_pos as int, SCALE as int);
            lemma_mod_division_less_than_divisor(read_pos as int, SCALE as int);
            vstd::arithmetic::div_mod::lemma_div_pos_is_pos(read_pos as int, SCALE as int);
        }
        let index_a: usize = (read_pos / SCALE) as usize;
        let frac: i64 = read_pos % SCALE;
        proof {
            if index_a + 1 == len {
                lemma_mod_self_0(len as int);
            } else {
                lemma_small_mod((index_a + 1) as nat, len as nat);
            }
        }
        let index_b: usize = if index_a + 1 == len {
            0
        } else {
            index_a + 1
        };
        let a = self.samples[index_a];
        let b = self.samples[index_b];
        proof {
            assert(-(SCALE * SAMPLE_LIMIT) <= (SCALE - frac) * a <= SCALE * SAMPLE_LIMIT)
                by (nonlinear_arith)
                requires
                    0 <= frac < SCALE,
                    -SAMPLE_LIMIT <= a <= SAMPLE_LIMIT,
            ;
            assert(-(SCALE * SAMPLE_LIMIT) <= frac * b <= SCALE * SAMPLE_LIMIT)
                by (nonlinear_arith)
                requires
                    0 <= frac < SCALE,
                    -SAMPLE_LIMIT <= b <= SAMPLE_LIMIT,
            ;
            assert((SCALE - frac) * a + frac * b <= SCALE * SAMPLE_LIMIT) by (nonlinear_arith)
                requires
                    0 <= frac < SCALE,
                    -SAMPLE_LIMIT <= a <= SAMPLE_LIMIT,
                    -SAMPLE_LIMIT <= b <= SAMPLE_LIMIT,
            ;
            assert(-(SCALE * SAMPLE_LIMIT) <= (SCALE - frac) * a + frac * b) by (nonlinear_arith)
                requires
                    0 <= frac < SCALE,
                    -SAMPLE_LIMIT <= a <= SAMPLE_LIMIT,
                    -SAMPLE_LIMIT <= b <= SAMPLE_LIMIT,
            ;
            lemma_div_trunc_bound(
                (SCALE - frac) * a + frac * b,
                SCALE as int,
                SAMPLE_LIMIT as int,
            );
        }
        let num: i64 = (SCALE - frac) * a + frac * b;
        div_trunc_i64(num, SCALE)
    }
}

} // verus!
