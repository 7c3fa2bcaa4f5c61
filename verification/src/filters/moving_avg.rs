//! Simple moving average filter.
//!
//! Maintains a fixed-capacity circular buffer of past samples (a
//! `heapless::Vec`, so no heap allocation) and returns the arithmetic mean of
//! the samples currently in the window.

use vstd::arithmetic::div_mod::lemma_div_is_ordered;
use vstd::arithmetic::div_mod::lemma_div_multiples_vanish;
use vstd::arithmetic::div_mod::lemma_div_pos_is_pos;
use vstd::arithmetic::div_mod::lemma_fundamental_div_mod;
use vstd::arithmetic::div_mod::lemma_fundamental_div_mod_converse_mod;
use vstd::arithmetic::div_mod::lemma_mod_division_less_than_divisor;
use vstd::prelude::*;

use crate::VALUE_LIMIT;

verus! {

#[verifier::external_type_specification]
#[verifier::external_body]
#[verifier::reject_recursive_types(T)]
pub struct ExHeaplessVec<T, const N: usize>(heapless::Vec<T, N>);

/// The samples a ring buffer holds, oldest slot first.
pub uninterp spec fn ring_contents(v: heapless::Vec<i64, 32>) -> Seq<i64>;

/// Relies on heapless::Vec::new: a new vector holds no elements.
#[verifier::external_body]
fn ring_new() -> (r: heapless::Vec<i64, 32>)
    ensures
        ring_contents(r) == Seq::<i64>::empty(),
{
    heapless::Vec::new()
}

/// Relies on heapless::Vec::push: appends the item while the vector is below
/// its capacity of 32, and rejects it unchanged once full.
#[verifier::external_body]
fn ring_push(v: &mut heapless::Vec<i64, 32>, x: i64) -> (r: Result<(), i64>)
    ensures
        ring_contents(*old(v)).len() < 32 ==> r is Ok && ring_contents(*final(v)) == ring_contents(
            *old(v),
        ).push(x),
        ring_contents(*old(v)).len() >= 32 ==> r is Err && ring_contents(*final(v))
            == ring_contents(*old(v)),
{
    v.push(x)
}

/// Relies on slice indexing through heapless::Vec's Deref: reads the element
/// at `i`.
#[verifier::external_body]
fn ring_get(v: &heapless::Vec<i64, 32>, i: usize) -> (r: i64)
    requires
        i < ring_contents(*v).len(),
    ensures
        r == ring_contents(*v)[i as int],
{
    v[i]
}

/// Relies on slice indexing through heapless::Vec's DerefMut: overwrites the
/// element at `i`.
#[verifier::external_body]
fn ring_set(v: &mut heapless::Vec<i64, 32>, i: usize, x: i64)
    requires
        i < ring_contents(*old(v)).len(),
    ensures
        ring_contents(*final(v)) == ring_contents(*old(v)).update(i as int, x),
{
    v[i] = x;
}

/// Sum of a sequence of samples.
pub open spec fn sum_seq(s: Seq<i64>) -> int
    decreases s.len(),
{
    if s.len() == 0 {
        0
    } else {
        sum_seq(s.drop_last()) + s.last()
    }
}

/// The samples a moving average over window `w` looks at: all of them while
/// fewer than `w` have arrived, afterwards exactly the last `w`.
pub open spec fn ma_window(history: Seq<i64>, w: int) -> Seq<i64> {
    if history.len() <= w {
        history
    } else {
        history.subrange(history.len() - w, history.len() as int)
    }
}

/// The mean (rounded down to a whole normalized unit) of the samples in the
/// window: what a moving average filter emits after seeing `history`.
pub open spec fn ma_output(history: Seq<i64>, w: int) -> int {
    sum_seq(ma_window(history, w)) / ma_window(history, w).len() as int
}

/// Summing a concatenation sums each part.
proof fn lemma_sum_concat(a: Seq<i64>, b: Seq<i64>)
    ensures
        sum_seq(a + b) == sum_seq(a) + sum_seq(b),
    decreases b.len(),
{
    if b.len() == 0 {
        assert(a + b == a);
    } else {
        lemma_sum_concat(a, b.drop_last());
        assert((a + b).drop_last() == a + b.drop_last());
        assert((a + b).last() == b.last());
    }
}

/// A sequence of samples in `[0, bound]` sums to at most `len * bound`.
proof fn lemma_sum_bounds(s: Seq<i64>, bound: int)
    requires
        forall|j: int| 0 <= j < s.len() ==> 0 <= #[trigger] s[j] <= bound,
    ensures
        0 <= sum_seq(s) <= s.len() * bound,
    decreases s.len(),
{
    if s.len() > 0 {
        lemma_sum_bounds(s.drop_last(), bound);
        assert(s.len() as int * bound == (s.len() - 1) * bound + bound) by (nonlinear_arith);
    }
}

/// The mean of samples in `[0, bound]` lies in `[0, bound]`, whatever the
/// window size.
pub proof fn lemma_ma_output_bounds(history: Seq<i64>, w: int, bound: int)
    requires
        history.len() > 0,
        1 <= w,
        0 <= bound,
        forall|j: int| 0 <= j < history.len() ==> 0 <= #[trigger] history[j] <= bound,
    ensures
        0 <= ma_output(history, w) <= bound,
{
    let win = ma_window(history, w);
    assert forall|j: int| 0 <= j < win.len() implies 0 <= #[trigger] win[j] <= bound by {
        if history.len() > w {
            assert(win[j] == history[history.len() - w + j]);
        }
    }
    lemma_sum_bounds(win, bound);
    lemma_div_pos_is_pos(sum_seq(win), win.len() as int);
    lemma_div_is_ordered(sum_seq(win), win.len() * bound, win.len() as int);
    lemma_div_multiples_vanish(bound, win.len() as int);
}

/// Simple moving average filter state.
pub struct MovingAvgFilter {
    buffer: heapless::Vec<i64, 32>,
    window_size: usize,
    index: usize,
    count: usize,
    history: Ghost<Seq<i64>>,
}

impl MovingAvgFilter {
    /// The samples fed to the filter since construction or the last reset,
    /// in order.
    pub closed spec fn history(&self) -> Seq<i64> {
        self.history@
    }

    /// The configured window size.
    pub closed spec fn window(&self) -> int {
        self.window_size as int
    }

    /// The buffer is a faithful circular image of the history: the slots below
    /// the write index hold the most recent samples in order, the slots above
    /// it hold the wrapped-around older ones, and every recorded sample is a
    /// valid value.
    pub closed spec fn wf(&self) -> bool {
        &&& 1 <= self.window_size as int <= 32
        &&& ring_contents(self.buffer).len() == self.window_size as int
        &&& self.count as int == if self.history@.len() as int <= self.window_size as int {
            self.history@.len() as int
        } else {
            self.window_size as int
        }
        &&& self.index as int == self.history@.len() as int % (self.window_size as int)
        &&& forall|j: int|
            0 <= j < self.index as int ==> #[trigger] ring_contents(self.buffer)[j]
                == self.history@[self.history@.len() - self.index as int + j]
        &&& forall|j: int|
            self.index as int <= j < self.count as int ==> #[trigger] ring_contents(self.buffer)[j]
                == self.history@[self.history@.len() - self.index as int + j - self.window_size as int]
        &&& forall|j: int| 0 <= j < self.history@.len() ==> 0 <= #[trigger] self.history@[j] <= VALUE_LIMIT
    }

    /// Create a new moving average filter; the window must hold between 1 and
    /// 32 samples.
    pub fn new(window_size: usize) -> (r: Self)
        requires
            1 <= window_size <= 32,
        ensures
            r.wf(),
            r.window() == window_size,
            r.history() == Seq::<i64>::empty(),
    {
        let mut buffer: heapless::Vec<i64, 32> = ring_new();
        let mut k: usize = 0;
        while k < window_size
            invariant
                k <= window_size <= 32,
                ring_contents(buffer).len() == k,
            decreases window_size - k,
        {
            let _ = ring_push(&mut buffer, 0);
            k = k + 1;
        }
        let r = MovingAvgFilter {
            buffer,
            window_size,
            index: 0,
            count: 0,
            history: Ghost(Seq::empty()),
        };
        proof {
            lemma_fundamental_div_mod_converse_mod(0, window_size as int, 0, 0);
        }
        r
    }

    /// Apply the moving average: record `input` in the circular buffer and
    /// return the mean of the `min(count, window_size)` most recent samples.
    pub fn apply(&mut self, input: i64) -> (r: i64)
        requires
            old(self).wf(),
            0 <= input <= VALUE_LIMIT,
        ensures
            final(self).wf(),
            final(self).window() == old(self).window(),
            final(self).history() == old(self).history().push(input),
            r == ma_output(old(self).history().push(input), old(self).window()),
            0 <= r <= VALUE_LIMIT,
    {
        let ghost old_hist = self.history@;
        let ghost w = self.window_size as int;
        let ghost n = old_hist.len() as int;
        let ghost m = self.index as int;
        proof {
            lemma_mod_division_less_than_divisor(n, w);
            assert(m < w);
            self.history@ = self.history@.push(input);
        }
        ring_set(&mut self.buffer, self.index, input);
        self.index = (self.index + 1) % self.window_size;
        if self.count < self.window_size {
            self.count = self.count + 1;
        }
        proof {
            lemma_fundamental_div_mod(n, w);
            assert(n == w * (n / w) + m);
            if n < w {
                lemma_fundamental_div_mod_converse_mod(n, w, 0, n);
                assert(m == n);
            }
            if m + 1 < w {
                assert(n + 1 == (n / w) * w + (m + 1)) by (nonlinear_arith)
                    requires
                        n == w * (n / w) + m,
                ;
                lemma_fundamental_div_mod_converse_mod(n + 1, w, n / w, m + 1);
                lemma_fundamental_div_mod_converse_mod(m + 1, w, 0, m + 1);
            } else {
                assert(n + 1 == (n / w + 1) * w + 0) by (nonlinear_arith)
                    requires
                        n == w * (n / w) + m,
                        m + 1 == w,
                ;
                lemma_fundamental_div_mod_converse_mod(n + 1, w, n / w + 1, 0);
                assert(m + 1 == 1 * w + 0) by (nonlinear_arith)
                    requires
                        m + 1 == w,
                ;
                lemma_fundamental_div_mod_converse_mod(m + 1, w, 1, 0);
            }
            assert(self.index as int == (n + 1) % w);
            let c0 = ring_contents(old(self).buffer);
            let c2 = ring_contents(self.buffer);
            let h2 = self.history@;
            let m2 = self.index as int;
            let cnt2 = self.count as int;
            assert(c2 == c0.update(m, input));
            assert(h2 == old_hist.push(input));
            assert forall|j: int| 0 <= j < n + 1 implies 0 <= #[trigger] h2[j] <= VALUE_LIMIT by {
                if j < n {
                    assert(0 <= old_hist[j] <= VALUE_LIMIT);
                }
            }
            assert forall|j: int| 0 <= j < m2 implies c2[j] == h2[n + 1 - m2 + j] by {
                if j != m {
                    assert(c0[j] == old_hist[n - m + j]);
                }
            }
            assert forall|j: int| m2 <= j < cnt2 implies c2[j] == h2[n + 1 - m2 + j - w] by {
                if m + 1 < w {
                    assert(n >= w);
                    assert(m <= j < w);
                    assert(c0[j] == old_hist[n - m + j - w]);
                } else {
                    if j != m {
                        assert(0 <= j < m);
                        assert(c0[j] == old_hist[n - m + j]);
                    }
                }
            }
            assert(self.wf());
        }
        let ghost vals = ring_contents(self.buffer).take(self.count as int);
        proof {
            let c2 = ring_contents(self.buffer);
            let h2 = self.history@;
            let m2 = self.index as int;
            let cnt2 = self.count as int;
            assert forall|j: int| 0 <= j < vals.len() implies 0 <= #[trigger] vals[j]
                <= VALUE_LIMIT by {
                assert(vals[j] == c2[j]);
                if j < m2 {
                    assert(c2[j] == h2[h2.len() - m2 + j]);
                } else {
                    assert(c2[j] == h2[h2.len() - m2 + j - w]);
                }
            }
        }
        let mut sum: i64 = 0;
        let mut i: usize = 0;
        while i < self.count
            invariant
                i <= self.count,
                self.count <= 32,
                self.count as int == vals.len(),
                vals == ring_contents(self.buffer).take(self.count as int),
                ring_contents(self.buffer).len() >= self.count,
                forall|j: int| 0 <= j < vals.len() ==> 0 <= #[trigger] vals[j] <= VALUE_LIMIT,
                sum == sum_seq(vals.take(i as int)),
                0 <= sum <= i * VALUE_LIMIT,
            decreases self.count - i,
        {
            let x: i64 = ring_get(&self.buffer, i);
            proof {
                assert(vals.take(i as int + 1).drop_last() == vals.take(i as int));
                assert(vals.take(i as int + 1).last() == vals[i as int]);
                assert(x == vals[i as int]);
            }
            sum = sum + x;
            i = i + 1;
        }
        proof {
            assert(vals.take(vals.len() as int) == vals);
            self.lemma_window_sum(old_hist, input);
            let win = ma_window(self.history@, w);
            assert(win.len() == self.count as int);
            lemma_div_pos_is_pos(sum as int, self.count as int);
            assert(sum <= self.count as int * VALUE_LIMIT);
            lemma_div_is_ordered(sum as int, self.count as int * VALUE_LIMIT, self.count as int);
            lemma_div_multiples_vanish(VALUE_LIMIT as int, self.count as int);
        }
        sum / (self.count as i64)
    }

    /// The first `count` buffer slots hold, up to rotation, exactly the window
    /// of the (just pushed-to) history, so their sums agree.
    proof fn lemma_window_sum(&self, old_hist: Seq<i64>, input: i64)
        requires
            self.wf(),
            self.history@ == old_hist.push(input),
        ensures
            sum_seq(ring_contents(self.buffer).take(self.count as int)) == sum_seq(
                ma_window(self.history@, self.window_size as int),
            ),
    {
        let w = self.window_size as int;
        let n = self.history@.len() as int;
        let m = self.index as int;
        let c = ring_contents(self.buffer);
        let win = ma_window(self.history@, w);
        if n <= w {
            // not yet wrapped (or exactly full): the buffer prefix is the
            // history itself, laid out from slot 0
            if n < w {
                lemma_fundamental_div_mod_converse_mod(n, w, 0, n);
                assert(m == n);
            } else {
                lemma_fundamental_div_mod_converse_mod(n, w, 1, 0);
                assert(m == 0);
            }
            assert(c.take(self.count as int) =~= win);
        } else {
            // wrapped: the buffer is the window rotated by the write index
            assert(self.count as int == w);
            assert(win.len() == w);
            assert(forall|j: int| 0 <= j < m ==> c[j] == #[trigger] win[w - m + j]);
            assert(forall|j: int| m <= j < w ==> c[j] == #[trigger] win[j - m]);
            let hi = win.subrange(w - m, w);
            let lo = win.subrange(0, w - m);
            assert(c.take(w) =~= hi + lo);
            lemma_sum_concat(hi, lo);
            lemma_sum_concat(lo, hi);
            assert(lo + hi =~= win);
        }
    }

    /// Reset the filter: clear the recorded samples and zero the buffer.
    pub fn reset(&mut self)
        requires
            old(self).wf(),
        ensures
            final(self).wf(),
            final(self).window() == old(self).window(),
            final(self).history() == Seq::<i64>::empty(),
    {
        self.index = 0;
        self.count = 0;
        proof {
            self.history@ = Seq::empty();
        }
        let mut k: usize = 0;
        while k < self.window_size
            invariant
                k <= self.window_size,
                self.window_size == old(self).window_size,
                ring_contents(self.buffer).len() == self.window_size,
                1 <= self.window_size <= 32,
                self.index == 0,
                self.count == 0,
                self.history@ == Seq::<i64>::empty(),
            decreases self.window_size - k,
        {
            ring_set(&mut self.buffer, k, 0);
            k = k + 1;
        }
        proof {
            lemma_fundamental_div_mod_converse_mod(0, self.window_size as int, 0, 0);
        }
    }
}

} // verus!
