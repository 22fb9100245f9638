//! Choosing the processes that use the processor most: the first entries of
//! a stable sort by descending usage key.

use vstd::prelude::*;
use vstd::set_lib::lemma_len_subset;

verus! {

/// How many processes the report lists.
pub const TOP_PROCESS_COUNT: usize = 5;

/// Whether entry `i` comes before entry `j` in a stable sort of `keys` from
/// the largest key to the smallest: a larger key first, and of two equal
/// keys the one that came first.
pub open spec fn ranked_before(keys: Seq<u64>, i: int, j: int) -> bool {
    keys[i] > keys[j] || (keys[i] == keys[j] && i < j)
}

/// Whether `r` lists, in order, the first entries of the stable descending
/// sort of `keys`, as many as it holds.
pub open spec fn is_ranked_prefix(keys: Seq<u64>, r: Seq<usize>) -> bool {
    &&& forall|a: int| 0 <= a < r.len() ==> #[trigger] r[a] < keys.len()
    &&& forall|a: int, b: int|
        0 <= a < b < r.len() ==> ranked_before(keys, #[trigger] r[a] as int, #[trigger] r[b] as int)
    &&& forall|a: int, j: int|
        0 <= a < r.len() && 0 <= j < keys.len() && !r.contains(j as usize)
            ==> #[trigger] ranked_before(keys, r[a] as int, j)
}

/// Whether `r` is the first `min(k, keys.len())` entries of the stable
/// descending sort of `keys`: what sorting the indices by key, largest
/// first, and taking `k` of them gives.
pub open spec fn is_top_ranking(keys: Seq<u64>, r: Seq<usize>, k: int) -> bool {
    &&& r.len() == if k < keys.len() {
        k
    } else {
        keys.len() as int
    }
    &&& is_ranked_prefix(keys, r)
}

/// The indices below `n`, as a set.
pub open spec fn indices_below(n: int) -> Set<usize> {
    Set::new(|j: usize| j < n)
}

proof fn lemma_indices_below(n: int)
    requires
        0 <= n <= usize::MAX + 1,
    ensures
        indices_below(n).finite(),
        indices_below(n).len() == n,
    decreases n,
{
    if n == 0 {
        assert(indices_below(n) =~= Set::empty());
    } else {
        lemma_indices_below(n - 1);
        assert(indices_below(n - 1).insert((n - 1) as usize) =~= indices_below(n));
    }
}

/// A sequence shorter than `n` misses some index below `n`.
proof fn lemma_some_index_missing(r: Seq<usize>, n: usize)
    requires
        r.len() < n,
    ensures
        exists|j: usize| j < n && !r.contains(j),
{
    if forall|j: usize| j < n ==> r.contains(j) {
        lemma_indices_below(n as int);
        assert(indices_below(n as int).subset_of(r.to_set()));
        vstd::seq_lib::seq_to_set_is_finite(r);
        lemma_len_subset(indices_below(n as int), r.to_set());
        r.lemma_cardinality_of_set();
        assert(false);
    }
}

/// Whether index `i` comes before index `j` in the stable descending sort
/// of `keys`.
fn before(keys: &Vec<u64>, i: usize, j: usize) -> (r: bool)
    requires
        i < keys.len(),
        j < keys.len(),
    ensures
        r == ranked_before(keys@, i as int, j as int),
{
    keys[i] > keys[j] || (keys[i] == keys[j] && i < j)
}

/// The indices of the `k` largest keys (all of them when there are fewer),
/// largest first; of equal keys the earlier index comes first. This is the
/// start of a stable sort of the indices by descending key.
pub fn top_ranked(keys: &Vec<u64>, k: usize) -> (r: Vec<usize>)
    ensures
        is_top_ranking(keys@, r@, k as int),
{
    let n = keys.len();
    let mut out: Vec<usize> = Vec::new();
    while out.len() < k && out.len() < n
        invariant
            n == keys@.len(),
            out.len() <= k,
            out.len() <= n,
            is_ranked_prefix(keys@, out@),
        decreases n - out.len(),
    {
        let m = out.len();
        let mut best: usize = 0;
        let mut found = false;
        let mut j: usize = 0;
        while j < n
            invariant
                n == keys@.len(),
                m == out.len(),
                m < n,
                j <= n,
                is_ranked_prefix(keys@, out@),
                found ==> best < n && !out@.contains(best),
                found ==> forall|i: usize|
                    i < j && !(#[trigger] out@.contains(i)) ==> i == best || ranked_before(
                        keys@,
                        best as int,
                        i as int,
                    ),
                !found ==> forall|i: usize| i < j ==> #[trigger] out@.contains(i),
            decreases n - j,
        {
            let candidate = if m == 0 {
                true
            } else {
                before(keys, out[m - 1], j)
            };
            proof {
                if m > 0 {
                    if out@.contains(j) {
                        let a = choose|a: int| 0 <= a < m && out@[a] == j;
                        if a < m - 1 {
                            assert(ranked_before(keys@, out@[a] as int, out@[m - 1] as int));
                        }
                    } else {
                        assert(ranked_before(keys@, out@[m - 1] as int, j as int));
                    }
                }
                assert(candidate == !out@.contains(j));
            }
            if candidate && (!found || before(keys, j, best)) {
                best = j;
                found = true;
            }
            j = j + 1;
        }
        if !found {
            proof {
                lemma_some_index_missing(out@, n);
                let missing = choose|i: usize| i < n && !out@.contains(i);
                assert(out@.contains(missing as usize));
            }
        }
        let ghost prev = out@;
        out.push(best);
        assert forall|a: int, b: int| 0 <= a < b < out@.len() implies ranked_before(
            keys@,
            #[trigger] out@[a] as int,
            #[trigger] out@[b] as int,
        ) by {
            if b == m && a < m {
                assert(prev[a] == out@[a]);
                assert(ranked_before(keys@, prev[a] as int, best as int));
            }
        }
        assert forall|a: int, i: int|
            0 <= a < out@.len() && 0 <= i < keys@.len() && !out@.contains(
                i as usize,
            ) implies #[trigger] ranked_before(keys@, out@[a] as int, i) by {
            assert(!prev.contains(i as usize)) by {
                if prev.contains(i as usize) {
                    let c = choose|c: int| 0 <= c < prev.len() && prev[c] == i as usize;
                    assert(out@[c] == i as usize);
                }
            }
            assert(out@[m as int] == best);
            assert(i != best);
            assert(ranked_before(keys@, best as int, i));
            if a < m {
                assert(prev[a] == out@[a]);
                assert(ranked_before(keys@, prev[a] as int, best as int));
            }
        }
    }
    out
}

/// The positions, among the listed processes, of the `TOP_PROCESS_COUNT`
/// that use the processor most, given each process's usage as a key that
/// orders as the usage does; ties keep the listing order.
pub fn get_top_processes(usage_keys: &Vec<u64>) -> (r: Vec<usize>)
    ensures
        is_top_ranking(usage_keys@, r@, TOP_PROCESS_COUNT as int),
{
    top_ranked(usage_keys, TOP_PROCESS_COUNT)
}

/// The report lists five processes, or all of them when there are fewer.
pub proof fn lemma_top_processes_are_five(keys: Seq<u64>, r: Seq<usize>)
    requires
        is_top_ranking(keys, r, TOP_PROCESS_COUNT as int),
    ensures
        r.len() == if keys.len() < 5 {
            keys.len() as int
        } else {
            5
        },
{
}

proof fn lemma_ranked_prefixes_agree_at(keys: Seq<u64>, r1: Seq<usize>, r2: Seq<usize>, a: int)
    requires
        is_ranked_prefix(keys, r1),
        is_ranked_prefix(keys, r2),
        r1.len() <= r2.len(),
        0 <= a < r1.len(),
        forall|b: int| 0 <= b < a ==> r1[b] == r2[b],
    ensures
        r1[a] == r2[a],
{
    let x = r1[a];
    let y = r2[a];
    if x != y {
        assert(ranked_before(keys, x as int, y as int)) by {
            if r1.contains(y) {
                let c = choose|c: int| 0 <= c < r1.len() && r1[c] == y;
                if c < a {
                    assert(r2[c] == y);
                    assert(ranked_before(keys, r2[c] as int, r2[a] as int));
                } else {
                    assert(ranked_before(keys, r1[a] as int, r1[c] as int));
                }
            } else {
                assert(ranked_before(keys, r1[a] as int, y as int));
            }
        }
        assert(ranked_before(keys, y as int, x as int)) by {
            if r2.contains(x) {
                let c = choose|c: int| 0 <= c < r2.len() && r2[c] == x;
                if c < a {
                    assert(r1[c] == x);
                    assert(ranked_before(keys, r1[c] as int, r1[a] as int));
                } else {
                    assert(ranked_before(keys, r2[a] as int, r2[c] as int));
                }
            } else {
                assert(ranked_before(keys, r2[a] as int, x as int));
            }
        }
    }
}

proof fn lemma_ranked_prefixes_agree(keys: Seq<u64>, r1: Seq<usize>, r2: Seq<usize>, a: int)
    requires
        is_ranked_prefix(keys, r1),
        is_ranked_prefix(keys, r2),
        r1.len() <= r2.len(),
        0 <= a <= r1.len(),
    ensures
        forall|b: int| 0 <= b < a ==> r1[b] == r2[b],
    decreases a,
{
    if a > 0 {
        lemma_ranked_prefixes_agree(keys, r1, r2, a - 1);
        lemma_ranked_prefixes_agree_at(keys, r1, r2, a - 1);
    }
}

/// Asking for fewer of the top entries gives a prefix of what asking for
/// more gives: the `k1` top entries are the first `k1` of the `k2` top
/// entries whenever `k1 <= k2`. In particular the top entries for a given
/// `k` are determined by the keys alone.
pub proof fn lemma_top_ranking_prefix(
    keys: Seq<u64>,
    r1: Seq<usize>,
    k1: int,
    r2: Seq<usize>,
    k2: int,
)
    requires
        0 <= k1 <= k2,
        is_top_ranking(keys, r1, k1),
        is_top_ranking(keys, r2, k2),
    ensures
        r1 == r2.take(r1.len() as int),
{
    lemma_ranked_prefixes_agree(keys, r1, r2, r1.len() as int);
    assert(r1 =~= r2.take(r1.len() as int));
}

/// The keys of the top entries never increase along the list, entries with
/// equal keys keep their listing order, and no entry left out has a larger
/// key than a listed one, nor an equal key and an earlier position.
pub proof fn lemma_top_ranking_keys(keys: Seq<u64>, r: Seq<usize>, k: int)
    requires
        is_top_ranking(keys, r, k),
    ensures
        forall|a: int, b: int| 0 <= a < b < r.len() ==> keys[r[a] as int] >= keys[r[b] as int],
        forall|a: int, j: int|
            #![trigger keys[r[a] as int], keys[j]]
            0 <= a < r.len() && 0 <= j < keys.len() && !r.contains(j as usize) ==> keys[r[a] as int]
                >= keys[j],
        forall|a: int, b: int|
            0 <= a < b < r.len() && keys[r[a] as int] == keys[r[b] as int] ==> r[a] < r[b],
        forall|a: int, j: int|
            #![trigger keys[r[a] as int], keys[j]]
            0 <= a < r.len() && 0 <= j < keys.len() && !r.contains(j as usize) && keys[r[a] as int]
                == keys[j] ==> r[a] < j,
        r.no_duplicates(),
{
    assert forall|a: int, b: int|
        0 <= a < b < r.len() && keys[r[a] as int] == keys[r[b] as int] implies r[a] < r[b] by {
        assert(ranked_before(keys, r[a] as int, r[b] as int));
    }
    assert forall|a: int, b: int| 0 <= a < b < r.len() implies keys[r[a] as int] >= keys[r[b] as int] by {
        assert(ranked_before(keys, r[a] as int, r[b] as int));
    }
    assert forall|a: int, j: int|
        #![trigger keys[r[a] as int], keys[j]]
        0 <= a < r.len() && 0 <= j < keys.len() && !r.contains(j as usize) implies keys[r[a] as int]
        >= keys[j] by {
        assert(ranked_before(keys, r[a] as int, j));
    }
    assert forall|a: int, j: int|
        #![trigger keys[r[a] as int], keys[j]]
        0 <= a < r.len() && 0 <= j < keys.len() && !r.contains(j as usize) && keys[r[a] as int]
            == keys[j] implies r[a] < j by {
        assert(ranked_before(keys, r[a] as int, j));
    }
    assert forall|a: int, b: int| 0 <= a < r.len() && 0 <= b < r.len() && a != b implies r[a]
        != r[b] by {
        if a < b {
            assert(ranked_before(keys, r[a] as int, r[b] as int));
        } else {
            assert(ranked_before(keys, r[b] as int, r[a] as int));
        }
    }
}

} // verus!
