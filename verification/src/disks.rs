//! Which rows of the physical-disk performance table are real disks.

use vstd::prelude::*;

use crate::text::str_equals;

verus! {

/// The name of the row that sums all disks.
pub open spec fn is_total_row(name: Seq<char>) -> bool {
    name == "_Total"@
}

/// The positions of the rows of `names` that are not the "_Total" row, in
/// order.
pub open spec fn disk_rows(names: Seq<String>) -> Seq<usize>
    decreases names.len(),
{
    if names.len() == 0 {
        Seq::empty()
    } else {
        let earlier = disk_rows(names.drop_last());
        if is_total_row(names.last()@) {
            earlier
        } else {
            earlier.push((names.len() - 1) as usize)
        }
    }
}

/// The rows kept are exactly the rows not named "_Total", in increasing
/// order.
pub proof fn lemma_disk_rows_exact(names: Seq<String>)
    requires
        names.len() <= usize::MAX,
    ensures
        forall|a: int, b: int|
            0 <= a < b < disk_rows(names).len() ==> #[trigger] disk_rows(names)[a]
                < #[trigger] disk_rows(names)[b],
        forall|a: int|
            0 <= a < disk_rows(names).len() ==> #[trigger] disk_rows(names)[a] < names.len(),
        forall|i: usize|
            i < names.len() ==> (disk_rows(names).contains(i) <==> !is_total_row(
                #[trigger] names[i as int]@,
            )),
    decreases names.len(),
{
    if names.len() > 0 {
        let init = names.drop_last();
        lemma_disk_rows_exact(init);
        let r0 = disk_rows(init);
        let r = disk_rows(names);
        assert forall|i: usize| i < names.len() implies (r.contains(i) <==> !is_total_row(
            #[trigger] names[i as int]@,
        )) by {
            if i < init.len() {
                assert(names[i as int] == init[i as int]);
                if r0.contains(i) {
                    let a = choose|a: int| 0 <= a < r0.len() && r0[a] == i;
                    assert(r[a] == i);
                }
                if r.contains(i) {
                    let a = choose|a: int| 0 <= a < r.len() && r[a] == i;
                    if a < r0.len() {
                        assert(r0[a] == i);
                    }
                }
            } else {
                if !is_total_row(names[i as int]@) {
                    assert(r[r.len() - 1] == i);
                }
                if r.contains(i) {
                    let a = choose|a: int| 0 <= a < r.len() && r[a] == i;
                    if a < r0.len() {
                        assert(r0[a] < init.len());
                    }
                }
            }
        }
    }
}

/// The positions of the rows of the disk table, given by their names, that
/// describe one physical disk each: all but the "_Total" row, in order.
pub fn get_disk_metrics(names: &Vec<String>) -> (r: Vec<usize>)
    ensures
        r@ == disk_rows(names@),
{
    let mut out: Vec<usize> = Vec::new();
    let n = names.len();
    for i in 0..n
        invariant
            n == names@.len(),
            out@ == disk_rows(names@.take(i as int)),
    {
        assert(names@.take(i + 1).drop_last() =~= names@.take(i as int));
        if !str_equals(names[i].as_str(), "_Total") {
            out.push(i);
        }
    }
    assert(names@.take(n as int) =~= names@);
    out
}

} // verus!
