//! Splitting a byte range `[0, total)` into consecutive chunks of a fixed size,
//! the last one possibly shorter.
use vstd::prelude::*;

verus! {

/// First byte of chunk `i`.
pub open spec fn chunk_start(i: nat, cs: nat) -> nat {
    i * cs
}

/// Last byte of chunk `i`: a full chunk, or the last byte of the range.
pub open spec fn chunk_end(i: nat, cs: nat, total: nat) -> nat {
    let e = i * cs + cs - 1;
    if e < total - 1 {
        e as nat
    } else {
        (total - 1) as nat
    }
}

/// Number of chunks: the range size divided by the chunk size, rounded up.
pub open spec fn chunk_count(total: nat, cs: nat) -> nat {
    ((total + cs - 1) as nat) / cs
}

/// `ranges` is the chunk plan of `[0, total)` with chunk size `cs`: chunk `i`
/// runs from `i * cs` to the earlier of `i * cs + cs - 1` and `total - 1`.
pub open spec fn is_plan(ranges: Seq<(u64, u64)>, total: nat, cs: nat) -> bool {
    &&& ranges.len() == chunk_count(total, cs)
    &&& forall|i: int|
        0 <= i < ranges.len() ==> (#[trigger] ranges[i]).0 == chunk_start(i as nat, cs)
            && ranges[i].1 == chunk_end(i as nat, cs, total)
}

proof fn lemma_count(total: nat, cs: nat, n: nat)
    requires
        cs > 0,
        n * cs >= total,
        n == 0 || (n - 1) * cs < total,
    ensures
        chunk_count(total, cs) == n,
{
    if n == 0 {
        assert(total == 0);
        assert((cs - 1) as nat / cs == 0) by (nonlinear_arith)
            requires
                cs > 0,
        ;
    } else {
        let m = (n - 1) as nat;
        assert(m * cs + cs == n * cs) by (nonlinear_arith)
            requires
                m == n - 1,
        ;
        let t = (total + cs - 1) as nat;
        assert(n * cs <= t < n * cs + cs);
        assert(t / cs == n) by (nonlinear_arith)
            requires
                cs > 0,
                n * cs <= t < n * cs + cs,
        ;
    }
}

/// The chunk plan of `[0, total)` with chunk size `cs`, as (first byte, last
/// byte) pairs.
pub fn plan_ranges(total: u64, cs: u64) -> (r: Vec<(u64, u64)>)
    requires
        cs > 0,
    ensures
        is_plan(r@, total as nat, cs as nat),
{
    let mut r: Vec<(u64, u64)> = Vec::new();
    let mut start: u64 = 0;
    let ghost mut id: nat = 0;
    while start < total
        invariant
            cs > 0,
            start <= total,
            start < total ==> start == id * cs,
            start == total ==> id * cs >= total,
            r.len() == id,
            id == 0 || (id - 1) * cs < total,
            forall|i: int|
                0 <= i < r.len() ==> (#[trigger] r@[i]).0 == chunk_start(i as nat, cs as nat)
                    && r@[i].1 == chunk_end(i as nat, cs as nat, total as nat),
        decreases total - start,
    {
        let end: u64 = if cs - 1 >= total - 1 - start {
            total - 1
        } else {
            start + cs - 1
        };
        assert(end == chunk_end(id, cs as nat, total as nat));
        r.push((start, end));
        let ghost old_id = id;
        start = end + 1;
        proof {
            id = id + 1;
            assert(old_id * cs + cs == id * cs) by (nonlinear_arith)
                requires
                    id == old_id + 1,
            ;
        }
    }
    proof {
        lemma_count(total as nat, cs as nat, id);
    }
    r
}

/// The chunk count is the least number of chunks that covers the range.
pub proof fn lemma_count_bounds(total: nat, cs: nat)
    requires
        cs > 0,
    ensures
        chunk_count(total, cs) * cs >= total,
        chunk_count(total, cs) == 0 || (chunk_count(total, cs) - 1) * cs < total,
        total == 0 <==> chunk_count(total, cs) == 0,
{
    let t = (total + cs - 1) as nat;
    let n = t / cs;
    assert(n * cs <= t < n * cs + cs) by (nonlinear_arith)
        requires
            cs > 0,
            n == t / cs,
    ;
    if n > 0 {
        assert((n - 1) * cs == n * cs - cs) by (nonlinear_arith);
    }
    if total > 0 {
        assert(n >= 1) by (nonlinear_arith)
            requires
                cs > 0,
                t >= cs,
                n == t / cs,
        ;
    }
}

/// Law: the chunks of a plan partition the range.  The first starts at byte 0,
/// each next one starts right after the previous one ends, the last ends at
/// the last byte; every chunk holds between one byte and the chunk size, and
/// every chunk but the last holds exactly the chunk size.  An empty range has
/// no chunks.
pub proof fn lemma_plan_partition(ranges: Seq<(u64, u64)>, total: nat, cs: nat)
    requires
        cs > 0,
        is_plan(ranges, total, cs),
    ensures
        total == 0 <==> ranges.len() == 0,
        total > 0 ==> ranges[0].0 == 0 && ranges.last().1 == total - 1,
        forall|i: int|
            0 <= i < ranges.len() - 1 ==> #[trigger] ranges[i + 1].0 == ranges[i].1 + 1,
        forall|i: int|
            0 <= i < ranges.len() ==> (#[trigger] ranges[i]).0 <= ranges[i].1 && ranges[i].1
                - ranges[i].0 + 1 <= cs,
        forall|i: int|
            0 <= i < ranges.len() - 1 ==> (#[trigger] ranges[i]).1 - ranges[i].0 + 1 == cs,
{
    lemma_count_bounds(total, cs);
    let n = ranges.len();
    assert forall|i: int| 0 <= i < n - 1 implies (#[trigger] ranges[i]).1 - ranges[i].0 + 1 == cs
        && ranges[i + 1].0 == ranges[i].1 + 1 by {
        assert((i + 1) * cs <= (n - 1) * cs) by (nonlinear_arith)
            requires
                0 <= i < n - 1,
                cs > 0,
        ;
        assert(i * cs + cs == (i + 1) * cs) by (nonlinear_arith);
        let _ = ranges[i + 1];
    }
    assert forall|i: int| 0 <= i < n implies (#[trigger] ranges[i]).0 <= ranges[i].1 && ranges[i].1
        - ranges[i].0 + 1 <= cs by {
        assert(i * cs <= (n - 1) * cs) by (nonlinear_arith)
            requires
                0 <= i < n,
                cs > 0,
        ;
    }
    if total > 0 {
        assert(0 * cs == 0);
        assert((n - 1) * cs + cs == n * cs) by (nonlinear_arith);
        let _ = ranges[n - 1];
    }
}

} // verus!
