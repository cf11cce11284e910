use vstd::prelude::*;

use crate::statistics::{throughput, throughput_of};

verus! {

/// A quantity moved and the time it took, in nanoseconds.
#[derive(Debug, Clone, Copy, PartialEq, Eq, Structural)]
pub struct Measurement {
    pub value: u64,
    pub elapsed_nanos: u64,
}

pub open spec fn total_value(ms: Seq<Measurement>) -> int
    decreases ms.len(),
{
    if ms.len() == 0 {
        0
    } else {
        total_value(ms.drop_last()) + ms.last().value
    }
}

pub open spec fn total_nanos(ms: Seq<Measurement>) -> int
    decreases ms.len(),
{
    if ms.len() == 0 {
        0
    } else {
        total_nanos(ms.drop_last()) + ms.last().elapsed_nanos
    }
}

proof fn lemma_totals_grow(ms: Seq<Measurement>, i: int)
    requires
        0 <= i <= ms.len(),
    ensures
        0 <= total_value(ms.take(i)) <= total_value(ms),
        0 <= total_nanos(ms.take(i)) <= total_nanos(ms),
    decreases ms.len(),
{
    if i < ms.len() {
        lemma_totals_grow(ms.drop_last(), i);
        assert(ms.drop_last().take(i) =~= ms.take(i));
    } else {
        assert(ms.take(i) =~= ms);
        if ms.len() > 0 {
            lemma_totals_grow(ms.drop_last(), ms.len() - 1);
            assert(ms.drop_last().take(ms.len() - 1) =~= ms.drop_last());
        }
    }
}

impl Measurement {
    /// The rate of this measurement, per second.
    pub fn per_sec(&self) -> (r: u64)
        ensures
            r == throughput_of(self.value as int, self.elapsed_nanos as int),
    {
        throughput(self.value, self.elapsed_nanos)
    }

    /// The measurements taken together: their values and times added up.
    pub fn sum(measurements: &Vec<Measurement>) -> (r: Measurement)
        requires
            total_value(measurements@) <= u64::MAX,
            total_nanos(measurements@) <= u64::MAX,
        ensures
            r.value == total_value(measurements@),
            r.elapsed_nanos == total_nanos(measurements@),
    {
        let mut value: u64 = 0;
        let mut elapsed_nanos: u64 = 0;
        let mut i: usize = 0;
        while i < measurements.len()
            invariant
                i <= measurements@.len(),
                total_value(measurements@) <= u64::MAX,
                total_nanos(measurements@) <= u64::MAX,
                value == total_value(measurements@.take(i as int)),
                elapsed_nanos == total_nanos(measurements@.take(i as int)),
            decreases measurements@.len() - i,
        {
            proof {
                assert(measurements@.take(i as int + 1).drop_last() =~= measurements@.take(i as int));
                lemma_totals_grow(measurements@, i as int + 1);
            }
            value = value + measurements[i].value;
            elapsed_nanos = elapsed_nanos + measurements[i].elapsed_nanos;
            i = i + 1;
        }
        assert(measurements@.take(i as int) =~= measurements@);
        Measurement { value, elapsed_nanos }
    }
}

} // verus!
