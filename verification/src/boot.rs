//! Boot-time decisions: which harts the boot hart starts, and the timing
//! arithmetic of busy-wait delays and transfer measurements.
use crate::config::{CLOCK_FREQ, USEC_PER_SEC};
use vstd::prelude::*;

verus! {

/// The harts the boot hart starts: every hart below `cpu_num` but itself,
/// in increasing order.
pub fn harts_to_start(boot_hart: usize, cpu_num: usize) -> (harts: Vec<usize>)
    ensures
        forall|k: int| 0 <= k < harts.len() ==> harts@[k] < cpu_num && harts@[k] != boot_hart,
        forall|k: int, l: int| 0 <= k < l < harts.len() ==> harts@[k] < harts@[l],
        forall|i: usize| i < cpu_num && i != boot_hart ==> harts@.contains(i),
{
    let mut harts: Vec<usize> = Vec::new();
    let mut i: usize = 0;
    while i < cpu_num
        invariant
            i <= cpu_num,
            forall|k: int| 0 <= k < harts.len() ==> harts@[k] < i && harts@[k] != boot_hart,
            forall|k: int, l: int| 0 <= k < l < harts.len() ==> harts@[k] < harts@[l],
            forall|j: usize| j < i && j != boot_hart ==> harts@.contains(j),
        decreases cpu_num - i,
    {
        if i != boot_hart {
            let ghost before = harts@;
            harts.push(i);
            proof {
                assert forall|j: usize| j < i + 1 && j != boot_hart implies harts@.contains(j) by {
                    if j == i {
                        assert(harts@[harts.len() - 1] == i);
                    } else {
                        assert(before.contains(j));
                        let k = choose|k: int| 0 <= k < before.len() && before[k] == j;
                        assert(harts@[k] == j);
                    }
                }
            }
        }
        proof {
            assert forall|j: usize| j < i + 1 && j != boot_hart implies harts@.contains(j) by {
                if j < i {
                }
            }
        }
        i = i + 1;
    }
    harts
}

/// Microseconds in `ticks` ticks of the time counter, rounded down.
pub open spec fn ticks_to_us(ticks: int) -> int {
    ticks * USEC_PER_SEC / CLOCK_FREQ as int
}

/// Microseconds between two readings of the time counter.
pub fn elapsed_us(start: usize, end: usize) -> (us: usize)
    requires
        start <= end,
        (end - start) * USEC_PER_SEC <= usize::MAX,
    ensures
        us == ticks_to_us(end - start),
{
    (end - start) * USEC_PER_SEC / CLOCK_FREQ
}

/// Ticks of the time counter in `ms` milliseconds.
pub open spec fn delay_ticks(ms: int) -> int {
    CLOCK_FREQ * ms / 1000
}

/// Whether a delay of `ms` milliseconds that started at `start` is still
/// running at time `now`.
pub fn delay_pending(start: usize, now: usize, ms: usize) -> (r: bool)
    requires
        start <= now,
        CLOCK_FREQ * ms <= usize::MAX,
    ensures
        r == ((now - start) < delay_ticks(ms as int)),
{
    now - start < CLOCK_FREQ * ms / 1000
}

} // verus!
