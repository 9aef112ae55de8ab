//! Exact distances between vectors of integers, as the extension's
//! operators `<->` (squared Euclidean distance) and `<#>` (negative dot
//! product) compute them on such vectors.

use vstd::prelude::*;
use vstd::set_lib::{lemma_int_range, lemma_len_subset, set_int_range};

verus! {

/// The squared Euclidean distance of the first `n` coordinates of `a` and `b`.
pub open spec fn squared_distance_upto(a: Seq<i32>, b: Seq<i32>, n: int) -> int
    decreases n,
{
    if n <= 0 {
        0
    } else {
        let d = a[n - 1] as int - b[n - 1] as int;
        squared_distance_upto(a, b, n - 1) + d * d
    }
}

/// The dot product of the first `n` coordinates of `a` and `b`.
pub open spec fn dot_upto(a: Seq<i32>, b: Seq<i32>, n: int) -> int
    decreases n,
{
    if n <= 0 {
        0
    } else {
        dot_upto(a, b, n - 1) + a[n - 1] as int * b[n - 1] as int
    }
}

/// The squared Euclidean distance of two vectors of one dimension.
pub open spec fn squared_distance(a: Seq<i32>, b: Seq<i32>) -> int {
    squared_distance_upto(a, b, a.len() as int)
}

/// The dot product of two vectors of one dimension.
pub open spec fn dot(a: Seq<i32>, b: Seq<i32>) -> int {
    dot_upto(a, b, a.len() as int)
}

/// The largest square of a difference of two `i32` values.
pub open spec fn max_term() -> int {
    0x1_0000_0000_0000_0000
}

proof fn lemma_term_bounds(x: i32, y: i32)
    ensures
        0 <= (x as int - y as int) * (x as int - y as int) <= max_term(),
        -max_term() <= x as int * y as int <= max_term(),
{
    let d = x as int - y as int;
    assert(-0x1_0000_0000 <= d <= 0x1_0000_0000);
    assert(0 <= d * d <= 0x1_0000_0000 * 0x1_0000_0000) by (nonlinear_arith)
        requires
            -0x1_0000_0000 <= d <= 0x1_0000_0000,
    ;
    let xi = x as int;
    let yi = y as int;
    assert(-0x8000_0000 <= xi <= 0x8000_0000);
    assert(-0x8000_0000 <= yi <= 0x8000_0000);
    assert(-max_term() <= xi * yi <= max_term()) by (nonlinear_arith)
        requires
            -0x8000_0000 <= xi <= 0x8000_0000,
            -0x8000_0000 <= yi <= 0x8000_0000,
    ;
}

/// The squared Euclidean distance of `a` and `b`.
pub fn squared_euclidean(a: &Vec<i32>, b: &Vec<i32>) -> (r: i128)
    requires
        a@.len() == b@.len(),
        a@.len() <= usize::MAX / 4,
    ensures
        r == squared_distance(a@, b@),
{
    let mut acc: i128 = 0;
    let mut i: usize = 0;
    while i < a.len()
        invariant
            i <= a@.len(),
            a@.len() == b@.len(),
            a@.len() <= usize::MAX / 4,
            acc == squared_distance_upto(a@, b@, i as int),
            0 <= acc <= i * max_term(),
        decreases a@.len() - i,
    {
        let x = a[i];
        let y = b[i];
        proof {
            lemma_term_bounds(x, y);
            assert(i * max_term() + max_term() == (i + 1) * max_term()) by (nonlinear_arith);
            assert((i + 1) * max_term() <= 0x4000_0000_0000_0000 * max_term()) by (nonlinear_arith)
                requires
                    i + 1 <= 0x4000_0000_0000_0000,
            ;
        }
        let d = x as i128 - y as i128;
        acc = acc + d * d;
        i += 1;
    }
    acc
}

/// The negative dot product of `a` and `b`.
pub fn negative_dot_product(a: &Vec<i32>, b: &Vec<i32>) -> (r: i128)
    requires
        a@.len() == b@.len(),
        a@.len() <= usize::MAX / 4,
    ensures
        r == -dot(a@, b@),
{
    let mut acc: i128 = 0;
    let mut i: usize = 0;
    while i < a.len()
        invariant
            i <= a@.len(),
            a@.len() == b@.len(),
            a@.len() <= usize::MAX / 4,
            acc == dot_upto(a@, b@, i as int),
            -(i * max_term()) <= acc <= i * max_term(),
        decreases a@.len() - i,
    {
        let x = a[i];
        let y = b[i];
        proof {
            lemma_term_bounds(x, y);
            assert(i * max_term() + max_term() == (i + 1) * max_term()) by (nonlinear_arith);
            assert((i + 1) * max_term() <= 0x4000_0000_0000_0000 * max_term()) by (nonlinear_arith)
                requires
                    i + 1 <= 0x4000_0000_0000_0000,
            ;
        }
        acc = acc + x as i128 * y as i128;
        i += 1;
    }
    -acc
}

/// The squared distances of the rows to `probe`.
pub open spec fn distances_to(rows: Seq<Vec<i32>>, probe: Seq<i32>) -> Seq<int> {
    Seq::new(rows.len(), |j: int| squared_distance(rows[j]@, probe))
}

/// Whether row `i` comes before row `j` in the order of nearness: nearer
/// first, and of two rows at one distance the earlier one first.
pub open spec fn nearer(dist: Seq<int>, i: int, j: int) -> bool {
    dist[i] < dist[j] || (dist[i] == dist[j] && i < j)
}

/// Whether row `i` comes after the row `last` that was taken last, if any.
pub open spec fn comes_after(dist: Seq<int>, has_last: bool, last: int, i: int) -> bool {
    !has_last || nearer(dist, last, i)
}

/// Distinct indices below `n` are at most `n`, and exactly `n` when all of
/// them occur.
proof fn lemma_distinct_indices(s: Seq<usize>, n: int)
    requires
        0 <= n <= usize::MAX,
        forall|k: int| 0 <= k < s.len() ==> s[k] < n,
        forall|k1: int, k2: int| 0 <= k1 < s.len() && 0 <= k2 < s.len() && k1 != k2 ==> s[k1] != s[k2],
    ensures
        s.len() <= n,
        (forall|j: usize| j < n ==> #[trigger] s.contains(j)) ==> s.len() == n,
{
    let t = s.map_values(|x: usize| x as int);
    assert(t.no_duplicates());
    t.unique_seq_to_set();
    lemma_int_range(0, n);
    assert(t.to_set().subset_of(set_int_range(0, n))) by {
        assert forall|x: int| t.to_set().contains(x) implies set_int_range(0, n).contains(x) by {
            let k = choose|k: int| 0 <= k < t.len() && t[k] == x;
        }
    }
    lemma_len_subset(t.to_set(), set_int_range(0, n));
    if forall|j: usize| j < n ==> #[trigger] s.contains(j) {
        assert(set_int_range(0, n).subset_of(t.to_set())) by {
            assert forall|x: int| set_int_range(0, n).contains(x) implies t.to_set().contains(x) by {
                assert(s.contains(x as usize));
                let k = choose|k: int| 0 <= k < s.len() && s[k] == x as usize;
                assert(t[k] == x);
            }
        }
        lemma_len_subset(set_int_range(0, n), t.to_set());
    }
}

/// Indices in the order of nearness are distinct.
proof fn lemma_ordered_distinct(dist: Seq<int>, s: Seq<usize>)
    requires
        forall|k1: int, k2: int| 0 <= k1 < k2 < s.len() ==> nearer(dist, s[k1] as int, s[k2] as int),
    ensures
        forall|k1: int, k2: int| 0 <= k1 < s.len() && 0 <= k2 < s.len() && k1 != k2 ==> s[k1] != s[k2],
{
    assert forall|k1: int, k2: int| 0 <= k1 < s.len() && 0 <= k2 < s.len() && k1 != k2 implies s[k1] != s[k2] by {
        if k1 < k2 {
            assert(nearer(dist, s[k1] as int, s[k2] as int));
        } else {
            assert(nearer(dist, s[k2] as int, s[k1] as int));
        }
    }
}

/// The indices of the `limit` rows nearest to `probe`, nearest first; of
/// rows at one distance the earlier comes first. Fewer where there are
/// fewer rows.
pub fn nearest_rows(rows: &Vec<Vec<i32>>, probe: &Vec<i32>, limit: usize) -> (r: Vec<usize>)
    requires
        forall|j: int| 0 <= j < rows@.len() ==> (#[trigger] rows@[j])@.len() == probe@.len(),
        probe@.len() <= usize::MAX / 4,
    ensures
        r@.len() == if limit < rows@.len() { limit as int } else { rows@.len() as int },
        forall|k: int| 0 <= k < r@.len() ==> r@[k] < rows@.len(),
        forall|k1: int, k2: int|
            0 <= k1 < k2 < r@.len() ==> nearer(distances_to(rows@, probe@), r@[k1] as int, r@[k2] as int),
        forall|j: int, k: int|
            0 <= j < rows@.len() && 0 <= k < r@.len() && nearer(distances_to(rows@, probe@), j, r@[k] as int)
                ==> r@.contains(j as usize),
{
    let ghost dist = distances_to(rows@, probe@);
    let n = rows.len();
    let mut d: Vec<i128> = Vec::new();
    let mut j: usize = 0;
    while j < n
        invariant
            n == rows@.len(),
            dist == distances_to(rows@, probe@),
            j <= n,
            d@.len() == j,
            forall|j: int| 0 <= j < rows@.len() ==> (#[trigger] rows@[j])@.len() == probe@.len(),
            probe@.len() <= usize::MAX / 4,
            forall|i: int| 0 <= i < j ==> d@[i] == dist[i],
        decreases n - j,
    {
        d.push(squared_euclidean(&rows[j], probe));
        j += 1;
    }
    let mut r: Vec<usize> = Vec::new();
    while r.len() < limit
        invariant
            n == rows@.len(),
            dist.len() == n,
            d@.len() == n,
            forall|i: int| 0 <= i < n ==> d@[i] == dist[i],
            r@.len() <= limit,
            forall|k: int| 0 <= k < r@.len() ==> r@[k] < n,
            forall|k1: int, k2: int| 0 <= k1 < k2 < r@.len() ==> nearer(dist, r@[k1] as int, r@[k2] as int),
            forall|j: int, k: int|
                0 <= j < n && 0 <= k < r@.len() && nearer(dist, j, r@[k] as int) ==> r@.contains(j as usize),
        ensures
            r@.len() == limit || r@.len() == n,
        decreases limit - r@.len(),
    {
        let has_last = r.len() > 0;
        let last: usize = if has_last { r[r.len() - 1] } else { 0 };
        let mut best: Option<usize> = None;
        let mut j: usize = 0;
        while j < n
            invariant
                n == rows@.len(),
                dist.len() == n,
                d@.len() == n,
                forall|i: int| 0 <= i < n ==> d@[i] == dist[i],
                j <= n,
                has_last == (r@.len() > 0),
                has_last ==> last == r@[r@.len() - 1] && last < n,
                best matches Some(b) ==> b < n && comes_after(dist, has_last, last as int, b as int),
                forall|i: int|
                    0 <= i < j && #[trigger] comes_after(dist, has_last, last as int, i) ==> (best matches Some(b) && (i
                        == b || nearer(dist, b as int, i))),
            decreases n - j,
        {
            let candidate = !has_last || d[last] < d[j] || (d[last] == d[j] && last < j);
            assert(candidate == comes_after(dist, has_last, last as int, j as int));
            if candidate {
                match best {
                    None => {
                        best = Some(j);
                    },
                    Some(b) => {
                        if d[j] < d[b] || (d[j] == d[b] && j < b) {
                            assert(nearer(dist, j as int, b as int));
                            best = Some(j);
                        } else {
                            assert(j == b || nearer(dist, b as int, j as int));
                        }
                    },
                }
            }
            j += 1;
        }
        match best {
            None => {
                proof {
                    assert forall|i: usize| i < n implies #[trigger] r@.contains(i) by {
                        assert(!comes_after(dist, has_last, last as int, i as int));
                        if has_last && i != last {
                            assert(nearer(dist, i as int, r@[r@.len() - 1] as int));
                        } else if has_last {
                            assert(r@[r@.len() - 1] == i);
                        } else {
                            assert(!has_last);
                        }
                    }
                    lemma_ordered_distinct(dist, r@);
                    lemma_distinct_indices(r@, n as int);
                }
                break;
            },
            Some(b) => {
                let ghost before = r@;
                r.push(b);
                proof {
                    assert(r@[before.len() as int] == b);
                    assert forall|k1: int, k2: int| 0 <= k1 < k2 < r@.len() implies nearer(dist, r@[k1] as int, r@[k2] as int) by {
                        if k2 == before.len() {
                            assert(has_last);
                            if k1 < before.len() - 1 {
                                assert(nearer(dist, before[k1] as int, before[before.len() - 1] as int));
                            }
                        } else {
                            assert(r@[k1] == before[k1] && r@[k2] == before[k2]);
                        }
                    }
                    assert forall|i: int, k: int|
                        0 <= i < n && 0 <= k < r@.len() && nearer(dist, i, r@[k] as int) implies r@.contains(i as usize) by {
                        if k < before.len() {
                            assert(r@[k] == before[k]);
                            assert(before.contains(i as usize));
                            let k2 = choose|k2: int| 0 <= k2 < before.len() && before[k2] == i as usize;
                            assert(r@[k2] == i as usize);
                        } else if has_last && i == last {
                            assert(r@[before.len() - 1] == i as usize);
                        } else if has_last && nearer(dist, i, last as int) {
                            assert(nearer(dist, i, before[before.len() - 1] as int));
                            assert(before.contains(i as usize));
                            let k2 = choose|k2: int| 0 <= k2 < before.len() && before[k2] == i as usize;
                            assert(r@[k2] == i as usize);
                        } else {
                            assert(comes_after(dist, has_last, last as int, i));
                            assert(i == b);
                        }
                    }
                }
            },
        }
    }
    proof {
        lemma_ordered_distinct(dist, r@);
        lemma_distinct_indices(r@, n as int);
    }
    r
}

} // verus!
