//! Capture pipeline: per-channel sliding windows of the most recent samples,
//! and the counter that decides when a full window is analysed and sent.
//!
//! The windows are generic over the sample type; the pipeline never looks at
//! a sample's value.

use vstd::prelude::*;

verus! {

/// Number of samples in an analysis window.
pub const FFT_SIZE: usize = 4096;

/// Analyses per second the pipeline aims for.
pub const TARGET_UPDATE_HZ: u32 = 20;

/// The last `n` items of `s` (all of `s` when it is shorter).
pub open spec fn last_n<T>(s: Seq<T>, n: nat) -> Seq<T> {
    if s.len() <= n {
        s
    } else {
        s.subrange(s.len() - n, s.len() as int)
    }
}

proof fn lemma_last_n_push<T>(s: Seq<T>, x: T, n: nat)
    requires
        n > 0,
    ensures
        last_n(last_n(s, n).push(x), n) == last_n(s.push(x), n),
{
    assert(last_n(last_n(s, n).push(x), n) =~= last_n(s.push(x), n));
}

/// A window of at most `capacity` samples; once full, each new sample
/// evicts the oldest.
pub struct SampleWindow<T> {
    samples: Vec<T>,
    capacity: usize,
}

impl<T: Copy> SampleWindow<T> {
    /// The samples held, oldest first.
    pub closed spec fn view(&self) -> Seq<T> {
        self.samples@
    }

    /// The most samples the window holds.
    pub closed spec fn spec_capacity(&self) -> nat {
        self.capacity as nat
    }

    /// Never more samples than the capacity, which is positive.
    pub closed spec fn wf(&self) -> bool {
        0 < self.capacity && self.samples@.len() <= self.capacity
    }

    /// An empty window of the given capacity.
    pub fn new(capacity: usize) -> (r: Self)
        requires
            capacity > 0,
        ensures
            r.wf(),
            r.view() == Seq::<T>::empty(),
            r.spec_capacity() == capacity,
    {
        SampleWindow { samples: Vec::with_capacity(capacity), capacity }
    }

    /// Adds a sample, evicting the oldest when the window was full.
    pub fn push(&mut self, x: T)
        requires
            old(self).wf(),
        ensures
            final(self).wf(),
            final(self).spec_capacity() == old(self).spec_capacity(),
            final(self).view() == last_n(old(self).view().push(x), old(self).spec_capacity()),
    {
        self.samples.push(x);
        if self.samples.len() > self.capacity {
            self.samples.remove(0);
        }
        assert(self.samples@ =~= last_n(old(self).view().push(x), old(self).spec_capacity()));
    }

    /// Adds every sample of `xs` in order.
    pub fn extend(&mut self, xs: &[T])
        requires
            old(self).wf(),
        ensures
            final(self).wf(),
            final(self).spec_capacity() == old(self).spec_capacity(),
            final(self).view() == last_n(old(self).view() + xs@, old(self).spec_capacity()),
    {
        let ghost start = self.view();
        let mut i: usize = 0;
        while i < xs.len()
            invariant
                i <= xs@.len(),
                self.wf(),
                self.spec_capacity() == old(self).spec_capacity(),
                start == old(self).view(),
                self.view() == last_n(start + xs@.take(i as int), self.spec_capacity()),
            decreases xs@.len() - i,
        {
            proof {
                lemma_last_n_push(start + xs@.take(i as int), xs@[i as int], self.spec_capacity());
                assert(start + xs@.take(i as int + 1) =~= (start + xs@.take(i as int)).push(
                    xs@[i as int],
                ));
            }
            self.push(xs[i]);
            i = i + 1;
        }
        assert(xs@.take(xs@.len() as int) =~= xs@);
    }

    /// Drops every sample.
    pub fn clear(&mut self)
        requires
            old(self).wf(),
        ensures
            final(self).wf(),
            final(self).spec_capacity() == old(self).spec_capacity(),
            final(self).view() == Seq::<T>::empty(),
    {
        self.samples.clear();
    }

    /// Number of samples held.
    pub fn len(&self) -> (r: usize)
        ensures
            r == self.view().len(),
    {
        self.samples.len()
    }

    /// Whether the window holds `capacity` samples.
    pub fn is_full(&self) -> (r: bool)
        ensures
            r == (self.view().len() == self.spec_capacity()),
    {
        self.samples.len() == self.capacity
    }

    /// The samples held, oldest first.
    pub fn as_slice(&self) -> (r: &[T])
        ensures
            r@ == self.view(),
    {
        self.samples.as_slice()
    }
}

/// Samples between two analyses at a sample rate (in Hz).
pub open spec fn samples_per_send(sample_rate: u32) -> nat {
    (sample_rate / TARGET_UPDATE_HZ) as nat
}

/// `a + b`, held at the largest `usize`.
pub open spec fn saturating_sum(a: nat, b: nat) -> nat {
    if a + b <= usize::MAX {
        a + b
    } else {
        usize::MAX as nat
    }
}

/// Accumulates host sample blocks for both channels and says when a full
/// window is due for analysis.
pub struct CapturePipeline<T> {
    left: SampleWindow<T>,
    right: SampleWindow<T>,
    samples_since_send: usize,
    samples_per_send: usize,
}

impl<T: Copy> CapturePipeline<T> {
    /// Both windows have the analysis size.
    pub closed spec fn wf(&self) -> bool {
        &&& self.left.wf()
        &&& self.right.wf()
        &&& self.left.spec_capacity() == FFT_SIZE
        &&& self.right.spec_capacity() == FFT_SIZE
        &&& self.left.view().len() == self.right.view().len()
    }

    /// The left window, oldest sample first.
    pub closed spec fn left_view(&self) -> Seq<T> {
        self.left.view()
    }

    /// The right window, oldest sample first.
    pub closed spec fn right_view(&self) -> Seq<T> {
        self.right.view()
    }

    /// Samples taken in since the last analysis.
    pub closed spec fn since_send(&self) -> nat {
        self.samples_since_send as nat
    }

    /// Samples between two analyses.
    pub closed spec fn per_send(&self) -> nat {
        self.samples_per_send as nat
    }

    /// Empty windows, with the cadence derived from the sample rate.
    pub fn new(sample_rate: u32) -> (r: Self)
        ensures
            r.wf(),
            r.left_view() == Seq::<T>::empty(),
            r.right_view() == Seq::<T>::empty(),
            r.since_send() == 0,
            r.per_send() == samples_per_send(sample_rate),
    {
        CapturePipeline {
            left: SampleWindow::new(FFT_SIZE),
            right: SampleWindow::new(FFT_SIZE),
            samples_since_send: 0,
            samples_per_send: (sample_rate / TARGET_UPDATE_HZ) as usize,
        }
    }

    /// The host (re)configured the stream: derive the cadence from the new
    /// sample rate and drop the windows' contents.
    pub fn initialize(&mut self, sample_rate: u32)
        requires
            old(self).wf(),
        ensures
            final(self).wf(),
            final(self).left_view() == Seq::<T>::empty(),
            final(self).right_view() == Seq::<T>::empty(),
            final(self).since_send() == old(self).since_send(),
            final(self).per_send() == samples_per_send(sample_rate),
    {
        self.samples_per_send = (sample_rate / TARGET_UPDATE_HZ) as usize;
        self.left.clear();
        self.right.clear();
    }

    /// The stream was interrupted: drop the windows' contents and restart
    /// the count.
    pub fn reset(&mut self)
        requires
            old(self).wf(),
        ensures
            final(self).wf(),
            final(self).left_view() == Seq::<T>::empty(),
            final(self).right_view() == Seq::<T>::empty(),
            final(self).since_send() == 0,
            final(self).per_send() == old(self).per_send(),
    {
        self.left.clear();
        self.right.clear();
        self.samples_since_send = 0;
    }

    /// Takes in one host block: `left`, and `right` for a stereo input (a
    /// mono input counts for both channels). Returns whether an analysis is
    /// due now, that is whether enough samples came in since the last one and
    /// the windows are full; the count restarts when it is.
    pub fn push_block(&mut self, left: &[T], right: Option<&[T]>) -> (due: bool)
        requires
            old(self).wf(),
            right matches Some(r) ==> r@.len() == left@.len(),
        ensures
            final(self).wf(),
            final(self).left_view() == last_n(old(self).left_view() + left@, FFT_SIZE as nat),
            final(self).right_view() == last_n(
                old(self).right_view() + match right {
                    Some(r) => r@,
                    None => left@,
                },
                FFT_SIZE as nat,
            ),
            final(self).per_send() == old(self).per_send(),
            due == (saturating_sum(old(self).since_send(), left@.len()) >= old(self).per_send()
                && final(self).left_view().len() == FFT_SIZE),
            final(self).since_send() == if due {
                0
            } else {
                saturating_sum(old(self).since_send(), left@.len())
            },
    {
        self.left.extend(left);
        match right {
            Some(r) => self.right.extend(r),
            None => self.right.extend(left),
        }
        let n = left.len();
        self.samples_since_send = if self.samples_since_send <= usize::MAX - n {
            self.samples_since_send + n
        } else {
            usize::MAX
        };
        let due = self.samples_since_send >= self.samples_per_send && self.left.is_full();
        if due {
            self.samples_since_send = 0;
        }
        due
    }

    /// The left window, oldest sample first.
    pub fn left_samples(&self) -> (r: &[T])
        ensures
            r@ == self.left_view(),
    {
        self.left.as_slice()
    }

    /// The right window, oldest sample first.
    pub fn right_samples(&self) -> (r: &[T])
        ensures
            r@ == self.right_view(),
    {
        self.right.as_slice()
    }
}

/// Half the window: the number of frequency bins below the Nyquist limit.
pub const HALF_BINS: usize = 2048;

/// The bins a band averages over, from the bins that its edge frequencies
/// fall in: at least bin 1 (skipping the DC bin) and below the last bin to
/// start, at least one bin wide, and never past `HALF_BINS`.
pub fn band_bin_range(low_bin: usize, high_bin: usize) -> (r: (usize, usize))
    ensures
        r.0 == if low_bin < 1 {
            1
        } else if low_bin > HALF_BINS - 1 {
            (HALF_BINS - 1) as usize
        } else {
            low_bin
        },
        r.1 == if high_bin < r.0 + 1 {
            (r.0 + 1) as usize
        } else if high_bin > HALF_BINS {
            HALF_BINS
        } else {
            high_bin
        },
        1 <= r.0 < r.1 <= HALF_BINS,
{
    let low = if low_bin < 1 {
        1
    } else if low_bin > HALF_BINS - 1 {
        HALF_BINS - 1
    } else {
        low_bin
    };
    let high = if high_bin < low + 1 {
        low + 1
    } else if high_bin > HALF_BINS {
        HALF_BINS
    } else {
        high_bin
    };
    (low, high)
}

} // verus!
