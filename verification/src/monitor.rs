//! Monitoring statistics: a (min, average, max) sample and a profiler
//! that keeps the extremes and a running average of reported values.

use vstd::prelude::*;

verus! {

/// A monitoring sample: the minimum, average and maximum of a quantity.
#[derive(Debug, Clone, Copy, PartialEq, Default)]
pub struct MonitorSample<D> {
    min: D,
    average: D,
    max: D,
}

impl<D: Clone> MonitorSample<D> {
    /// The minimum.
    pub closed spec fn spec_min(&self) -> D {
        self.min
    }

    /// The average.
    pub closed spec fn spec_average(&self) -> D {
        self.average
    }

    /// The maximum.
    pub closed spec fn spec_max(&self) -> D {
        self.max
    }

    pub fn new(min: D, average: D, max: D) -> (r: Self)
        ensures
            r.spec_min() == min,
            r.spec_average() == average,
            r.spec_max() == max,
    {
        Self { min, average, max }
    }

    /// A clone of the minimum.
    pub fn min(&self) -> (r: D)
        ensures
            cloned(self.spec_min(), r),
    {
        self.min.clone()
    }

    /// A clone of the average.
    pub fn average(&self) -> (r: D)
        ensures
            cloned(self.spec_average(), r),
    {
        self.average.clone()
    }

    /// A clone of the maximum.
    pub fn max(&self) -> (r: D)
        ensures
            cloned(self.spec_max(), r),
    {
        self.max.clone()
    }
}

/// Keeps the smallest and largest reported value and a running average in
/// which each new value weighs as much as all earlier ones together.
#[derive(Debug)]
pub struct MinMaxProfiler {
    min: u64,
    average: u64,
    max: u64,
}

/// The profiler's numbers: minimum, running average, maximum.
pub struct MinMaxView {
    pub min: u64,
    pub average: u64,
    pub max: u64,
}

impl View for MinMaxProfiler {
    type V = MinMaxView;

    closed spec fn view(&self) -> MinMaxView {
        MinMaxView { min: self.min, average: self.average, max: self.max }
    }
}

/// The numbers of a fresh (or reset) profiler.
pub open spec fn min_max_initial() -> MinMaxView {
    MinMaxView { min: u64::MAX, average: 0, max: 0 }
}

/// The numbers after reporting `value`.
pub open spec fn min_max_update(v: MinMaxView, value: u64) -> MinMaxView {
    MinMaxView {
        min: if value < v.min { value } else { v.min },
        average: ((v.average + value) / 2) as u64,
        max: if value > v.max { value } else { v.max },
    }
}

/// The numbers after reporting `values` in order, from `v`.
pub open spec fn min_max_fold(v: MinMaxView, values: Seq<u64>) -> MinMaxView
    decreases values.len(),
{
    if values.len() == 0 {
        v
    } else {
        min_max_update(min_max_fold(v, values.drop_last()), values.last())
    }
}

impl MinMaxProfiler {
    pub fn new() -> (r: MinMaxProfiler)
        ensures
            r@ == min_max_initial(),
    {
        MinMaxProfiler { min: u64::MAX, average: 0, max: 0 }
    }

    /// Forgets every reported value.
    pub fn reset(&mut self)
        ensures
            final(self)@ == min_max_initial(),
    {
        self.min = u64::MAX;
        self.average = 0;
        self.max = 0;
    }

    /// Reports a value.
    pub fn update(&mut self, value: u64)
        requires
            old(self)@.average + value <= u64::MAX,
        ensures
            final(self)@ == min_max_update(old(self)@, value),
    {
        let mut min = self.min;
        let mut average = self.average;
        let mut max = self.max;

        if value < min {
            min = value;
        }
        if value > max {
            max = value;
        }

        average = (average + value) / 2;

        self.min = min;
        self.average = average;
        self.max = max;
    }

    /// The current numbers as a sample.
    pub fn stat(&self) -> (r: MonitorSample<u64>)
        ensures
            r.spec_min() == self@.min,
            r.spec_average() == self@.average,
            r.spec_max() == self@.max,
    {
        MonitorSample::new(self.min, self.average, self.max)
    }
}

impl Default for MinMaxProfiler {
    fn default() -> (r: MinMaxProfiler)
        ensures
            r@ == min_max_initial(),
    {
        MinMaxProfiler::new()
    }
}

/// After reporting values to a fresh profiler, the minimum is one of the
/// values and below or equal to each of them, the maximum is one of them
/// and above or equal to each, and the running average never exceeds the
/// maximum (it starts from zero, so it may lie below the minimum).
pub proof fn law_min_max_bounds(values: Seq<u64>)
    requires
        values.len() > 0,
    ensures
        values.contains(min_max_fold(min_max_initial(), values).min),
        values.contains(min_max_fold(min_max_initial(), values).max),
        forall|i: int|
            0 <= i < values.len() ==> min_max_fold(min_max_initial(), values).min <= #[trigger] values[i]
                <= min_max_fold(min_max_initial(), values).max,
        min_max_fold(min_max_initial(), values).average <= min_max_fold(
            min_max_initial(),
            values,
        ).max,
    decreases values.len(),
{
    let d = values.drop_last();
    let x = values.last();
    assert(values[values.len() - 1] == x);
    if d.len() == 0 {
        assert(min_max_fold(min_max_initial(), d) == min_max_initial());
    } else {
        law_min_max_bounds(d);
        let f = min_max_fold(min_max_initial(), d);
        assert forall|i: int| 0 <= i < values.len() implies min_max_fold(
            min_max_initial(),
            values,
        ).min <= #[trigger] values[i] <= min_max_fold(min_max_initial(), values).max by {
            if i < d.len() {
                assert(values[i] == d[i]);
            }
        }
        let j = choose|j: int| 0 <= j < d.len() && d[j] == f.min;
        assert(values[j] == d[j]);
        let k = choose|k: int| 0 <= k < d.len() && d[k] == f.max;
        assert(values[k] == d[k]);
    }
}

} // verus!
