//! Interval-gated progress accounting.
//!
//! The counter decides when a progress line is due: exactly when an
//! increment crosses a multiple of the reporting interval.  Printing is the
//! caller's business.

use vstd::prelude::*;

verus! {

/// A progress counter with a reporting interval of at least one.
pub struct ProgressCounter {
    label: String,
    interval: u64,
    count: u64,
}

impl ProgressCounter {
    pub closed spec fn spec_count(&self) -> u64 {
        self.count
    }

    pub closed spec fn spec_interval(&self) -> u64 {
        self.interval
    }

    pub closed spec fn spec_label(&self) -> Seq<char> {
        self.label@
    }

    /// The interval is never zero.
    #[verifier::type_invariant]
    pub closed spec fn wf(&self) -> bool {
        self.interval >= 1
    }

    /// A fresh counter at zero; an interval of zero is clamped to one.
    pub fn new(label: String, interval: u64) -> (r: Self)
        ensures
            r.spec_count() == 0,
            r.spec_interval() == (if interval >= 1 {
                interval
            } else {
                1u64
            }),
            r.spec_label() == label@,
    {
        let clamped: u64 = if interval >= 1 {
            interval
        } else {
            1
        };
        ProgressCounter { label, interval: clamped, count: 0 }
    }

    /// Add `delta`.  Returns true exactly when the count crossed a multiple
    /// of the interval, which is when a progress line is due.
    pub fn inc(&mut self, delta: u64) -> (emit: bool)
        requires
            old(self).spec_count() + delta <= u64::MAX,
        ensures
            final(self).spec_count() == old(self).spec_count() + delta,
            final(self).spec_interval() == old(self).spec_interval(),
            final(self).spec_label() == old(self).spec_label(),
            emit == (old(self).spec_count() / old(self).spec_interval()
                < final(self).spec_count() / old(self).spec_interval()),
    {
        proof {
            use_type_invariant(&*self);
        }
        let prev = self.count;
        self.count = self.count + delta;
        prev / self.interval < self.count / self.interval
    }

    /// The current count.
    pub fn value(&self) -> (r: u64)
        ensures
            r == self.spec_count(),
    {
        self.count
    }

    /// The label the counter was created with.
    pub fn label_text(&self) -> (r: &str)
        ensures
            r@ == self.spec_label(),
    {
        self.label.as_str()
    }
}

} // verus!
