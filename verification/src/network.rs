//! Network traffic over a sampling interval.

use vstd::prelude::*;

verus! {

/// Whether each interface's counters in `current` are at least those it had
/// in `initial`, matching interfaces by position: `(received, transmitted)`.
pub open spec fn counters_grew(initial: Seq<(u64, u64)>, current: Seq<(u64, u64)>) -> bool {
    &&& current.len() <= initial.len()
    &&& forall|i: int|
        0 <= i < current.len() ==> #[trigger] current[i].0 >= initial[i].0 && current[i].1
            >= initial[i].1
}

/// The bytes that each interface received and transmitted between two
/// readings of its total counters, `(received, transmitted)`, matching the
/// interfaces by position. The readings must not go backwards and the later
/// list must not be longer than the earlier one.
pub fn traffic_deltas(initial: &Vec<(u64, u64)>, current: &Vec<(u64, u64)>) -> (r: Vec<(u64, u64)>)
    requires
        counters_grew(initial@, current@),
    ensures
        r@.len() == current@.len(),
        forall|i: int|
            0 <= i < current@.len() ==> #[trigger] r@[i] == (
                (current@[i].0 - initial@[i].0) as u64,
                (current@[i].1 - initial@[i].1) as u64,
            ),
{
    let mut out: Vec<(u64, u64)> = Vec::new();
    let n = current.len();
    for i in 0..n
        invariant
            n == current@.len(),
            counters_grew(initial@, current@),
            out@.len() == i,
            forall|k: int|
                0 <= k < i ==> #[trigger] out@[k] == (
                    (current@[k].0 - initial@[k].0) as u64,
                    (current@[k].1 - initial@[k].1) as u64,
                ),
    {
        let (rx, tx) = current[i];
        let (rx0, tx0) = initial[i];
        assert(current@[i as int].0 >= initial@[i as int].0);
        out.push((rx - rx0, tx - tx0));
    }
    out
}

/// Adding each interval's traffic back to the earlier readings gives the
/// later readings.
pub proof fn lemma_deltas_restore_counters(
    initial: Seq<(u64, u64)>,
    current: Seq<(u64, u64)>,
    deltas: Seq<(u64, u64)>,
)
    requires
        counters_grew(initial, current),
        deltas.len() == current.len(),
        forall|i: int|
            0 <= i < current.len() ==> #[trigger] deltas[i] == (
                (current[i].0 - initial[i].0) as u64,
                (current[i].1 - initial[i].1) as u64,
            ),
    ensures
        forall|i: int|
            0 <= i < current.len() ==> initial[i].0 + #[trigger] deltas[i].0 == current[i].0
                && initial[i].1 + deltas[i].1 == current[i].1,
{
    assert forall|i: int| 0 <= i < current.len() implies initial[i].0 + #[trigger] deltas[i].0
        == current[i].0 && initial[i].1 + deltas[i].1 == current[i].1 by {
        assert(current[i].0 >= initial[i].0);
    }
}

} // verus!
