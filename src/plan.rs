//! Partitioning of the bytes that remain to be fetched into fixed-size ranges.
use vstd::prelude::*;
use vstd::string::*;
use crate::decimal::{decimal, push_decimal};

verus! {

/// An inclusive byte range `[start, end]` of the remote resource.
#[derive(Clone, Copy, Debug, PartialEq, Eq, Structural)]
pub struct ChunkRange {
    pub start: u64,
    pub end: u64,
}

/// The value of the `Range` header that asks for `[start, end]`: `bytes=<start>-<end>`.
pub open spec fn range_header_text(start: nat, end: nat) -> Seq<char> {
    seq!['b', 'y', 't', 'e', 's', '='] + decimal(start) + seq!['-'] + decimal(end)
}

impl ChunkRange {
    /// The `Range` header value that requests this range.
    pub fn header_value(&self) -> (r: String)
        ensures
            r@ == range_header_text(self.start as nat, self.end as nat),
    {
        proof {
            reveal_strlit("bytes=");
            reveal_strlit("-");
        }
        let mut s = String::from_str("bytes=");
        push_decimal(&mut s, self.start as u128);
        s.append("-");
        push_decimal(&mut s, self.end as u128);
        assert(s@ =~= range_header_text(self.start as nat, self.end as nat));
        s
    }
}

/// Number of ranges needed to cover `[existing, total)` with ranges of `chunk` bytes:
/// the ceiling of `(total - existing) / chunk`, and zero when nothing remains.
pub open spec fn chunk_count(total: nat, existing: nat, chunk: nat) -> nat
    recommends
        chunk > 0,
{
    if existing >= total {
        0
    } else {
        let remaining = (total - existing) as nat;
        remaining / chunk + if remaining % chunk == 0 { 0nat } else { 1nat }
    }
}

/// The `i`-th range: it starts `i` chunks past `existing`, and its end is clamped
/// to the last byte of the resource.
pub open spec fn range_at(total: nat, existing: nat, chunk: nat, i: nat) -> (nat, nat) {
    let start = existing + i * chunk;
    let end = if start + chunk - 1 > total - 1 { (total - 1) as nat } else { (start + chunk - 1) as nat };
    (start, end)
}

/// The whole plan, in ascending order.
pub open spec fn planned(total: nat, existing: nat, chunk: nat) -> Seq<(nat, nat)> {
    Seq::new(chunk_count(total, existing, chunk), |i: int| range_at(total, existing, chunk, i as nat))
}

/// The mathematical value of a range.
pub open spec fn range_view(r: ChunkRange) -> (nat, nat) {
    (r.start as nat, r.end as nat)
}

pub open spec fn ranges_view(v: Seq<ChunkRange>) -> Seq<(nat, nat)> {
    v.map_values(|r: ChunkRange| range_view(r))
}

proof fn lemma_index_in_bounds(remaining: nat, chunk: nat, i: nat)
    requires
        chunk > 0,
        i < remaining / chunk + if remaining % chunk == 0 { 0nat } else { 1nat },
    ensures
        i * chunk < remaining,
{
    let q = remaining / chunk;
    let r = remaining % chunk;
    vstd::arithmetic::div_mod::lemma_fundamental_div_mod(remaining as int, chunk as int);
    if i < q {
        assert(i * chunk <= (q - 1) * chunk) by (nonlinear_arith)
            requires
                i <= q - 1,
                chunk > 0,
        ;
        assert((q - 1) * chunk == q * chunk - chunk) by (nonlinear_arith);
    } else {
        assert(i == q);
        assert(r != 0);
    }
}

/// Splits `[existing_bytes, total_size)` into contiguous ranges of `chunk_size` bytes,
/// the last one clamped to `total_size - 1`; empty when `existing_bytes >= total_size`.
pub fn plan(total_size: u64, existing_bytes: u64, chunk_size: u64) -> (r: Vec<ChunkRange>)
    requires
        chunk_size > 0,
    ensures
        ranges_view(r@) == planned(total_size as nat, existing_bytes as nat, chunk_size as nat),
{
    let mut v: Vec<ChunkRange> = Vec::new();
    if existing_bytes >= total_size {
        assert(ranges_view(v@) =~= planned(total_size as nat, existing_bytes as nat, chunk_size as nat));
        return v;
    }
    let remaining: u64 = total_size - existing_bytes;
    let whole: u64 = remaining / chunk_size;
    let count: u64 = if remaining % chunk_size == 0 {
        whole
    } else {
        proof {
            vstd::arithmetic::div_mod::lemma_fundamental_div_mod(remaining as int, chunk_size as int);
            assert(whole < remaining) by (nonlinear_arith)
                requires
                    remaining == chunk_size * whole + remaining % chunk_size,
                    0 < remaining % chunk_size < chunk_size,
            ;
        }
        whole + 1
    };
    let ghost target = planned(total_size as nat, existing_bytes as nat, chunk_size as nat);
    let mut i: u64 = 0;
    while i < count
        invariant
            chunk_size > 0,
            existing_bytes < total_size,
            remaining == total_size - existing_bytes,
            count as nat == chunk_count(total_size as nat, existing_bytes as nat, chunk_size as nat),
            target == planned(total_size as nat, existing_bytes as nat, chunk_size as nat),
            i <= count,
            ranges_view(v@) =~= target.subrange(0, i as int),
        decreases count - i,
    {
        proof {
            lemma_index_in_bounds(remaining as nat, chunk_size as nat, i as nat);
        }
        let offset: u64 = i * chunk_size;
        let start: u64 = existing_bytes + offset;
        let end: u64 = if chunk_size - 1 > total_size - 1 - start {
            total_size - 1
        } else {
            start + (chunk_size - 1)
        };
        let ghost prev = v@;
        v.push(ChunkRange { start, end });
        assert(range_view(ChunkRange { start, end }) == range_at(
            total_size as nat,
            existing_bytes as nat,
            chunk_size as nat,
            i as nat,
        ));
        assert(ranges_view(v@) =~= ranges_view(prev).push(range_view(ChunkRange { start, end })));
        i = i + 1;
        assert(ranges_view(v@) =~= target.subrange(0, i as int));
    }
    assert(target.subrange(0, count as int) =~= target);
    v
}

/// Offset `x` lies in one of the ranges of `p`.
pub open spec fn in_some_range(p: Seq<(nat, nat)>, x: nat) -> bool {
    exists|i: int| 0 <= i < p.len() && #[trigger] p[i].0 <= x <= p[i].1
}

/// The ranges reach the end of the resource: `chunk_count` chunks hold at least
/// the remaining bytes.
proof fn lemma_count_covers(remaining: nat, chunk: nat)
    requires
        chunk > 0,
    ensures
        (remaining / chunk + if remaining % chunk == 0 { 0nat } else { 1nat }) * chunk
            >= remaining,
{
    vstd::arithmetic::div_mod::lemma_fundamental_div_mod(remaining as int, chunk as int);
    let q = remaining / chunk;
    assert((q + 1) * chunk == q * chunk + chunk) by (nonlinear_arith);
    assert(q * chunk == chunk * q) by (nonlinear_arith);
}

/// Facts on one range of a non-empty plan.
proof fn lemma_range_facts(total: nat, existing: nat, chunk: nat, i: nat)
    requires
        existing < total,
        chunk > 0,
        i < chunk_count(total, existing, chunk),
    ensures
        existing + i * chunk < total,
        range_at(total, existing, chunk, i).0 == existing + i * chunk,
        range_at(total, existing, chunk, i).0 <= range_at(total, existing, chunk, i).1,
        range_at(total, existing, chunk, i).1 < total,
        range_at(total, existing, chunk, i).1 < existing + (i + 1) * chunk,
        i + 1 < chunk_count(total, existing, chunk) ==> range_at(total, existing, chunk, i).1 + 1
            == existing + (i + 1) * chunk,
        i + 1 == chunk_count(total, existing, chunk) ==> range_at(total, existing, chunk, i).1 == total
            - 1,
{
    let remaining = (total - existing) as nat;
    lemma_index_in_bounds(remaining, chunk, i);
    assert((i + 1) * chunk == i * chunk + chunk) by (nonlinear_arith);
    if i + 1 < chunk_count(total, existing, chunk) {
        lemma_index_in_bounds(remaining, chunk, i + 1);
    }
    if i + 1 == chunk_count(total, existing, chunk) {
        lemma_count_covers(remaining, chunk);
    }
}

/// When bytes remain to be fetched, the plan starts at `existing`, its ranges are
/// non-empty, each one begins right after the one before it, no two overlap, the last
/// one ends at `total - 1`, and together they hold exactly the offsets of
/// `[existing, total)`.
pub proof fn lemma_plan_covers_remaining(total: nat, existing: nat, chunk: nat)
    requires
        total > existing > 0,
        chunk > 0,
    ensures
        planned(total, existing, chunk).len() > 0,
        planned(total, existing, chunk)[0].0 == existing,
        planned(total, existing, chunk).last().1 == total - 1,
        forall|i: int|
            0 <= i < planned(total, existing, chunk).len() ==> #[trigger] planned(
                total,
                existing,
                chunk,
            )[i].0 <= planned(total, existing, chunk)[i].1,
        forall|i: int|
            0 <= i < planned(total, existing, chunk).len() - 1 ==> #[trigger] planned(
                total,
                existing,
                chunk,
            )[i + 1].0 == planned(total, existing, chunk)[i].1 + 1,
        forall|i: int, j: int|
            0 <= i < j < planned(total, existing, chunk).len() ==> #[trigger] planned(
                total,
                existing,
                chunk,
            )[i].1 < #[trigger] planned(total, existing, chunk)[j].0,
        forall|x: nat|
            existing <= x < total <==> #[trigger] in_some_range(planned(total, existing, chunk), x),
{
    let p = planned(total, existing, chunk);
    let n = chunk_count(total, existing, chunk);
    let remaining = (total - existing) as nat;
    assert(remaining > 0);
    assert(n > 0) by {
        if remaining % chunk == 0 {
            vstd::arithmetic::div_mod::lemma_fundamental_div_mod(remaining as int, chunk as int);
            assert(remaining / chunk != 0);
        }
    }
    lemma_range_facts(total, existing, chunk, 0);
    assert(0 * chunk == 0) by (nonlinear_arith);
    lemma_range_facts(total, existing, chunk, (n - 1) as nat);
    assert forall|i: int| 0 <= i < p.len() implies #[trigger] p[i].0 <= p[i].1 by {
        lemma_range_facts(total, existing, chunk, i as nat);
    }
    assert forall|i: int| 0 <= i < p.len() - 1 implies #[trigger] p[i + 1].0 == p[i].1 + 1 by {
        lemma_range_facts(total, existing, chunk, i as nat);
        lemma_range_facts(total, existing, chunk, (i + 1) as nat);
    }
    assert forall|i: int, j: int| 0 <= i < j < p.len() implies #[trigger] p[i].1 < #[trigger] p[j].0 by {
        lemma_range_facts(total, existing, chunk, i as nat);
        lemma_range_facts(total, existing, chunk, j as nat);
        assert((i + 1) * chunk <= j * chunk) by (nonlinear_arith)
            requires
                i + 1 <= j,
                chunk > 0,
        ;
    }
    assert forall|x: nat| existing <= x < total <==> #[trigger] in_some_range(p, x) by {
        if existing <= x < total {
            let off = (x - existing) as nat;
            let k = off / chunk;
            vstd::arithmetic::div_mod::lemma_fundamental_div_mod(off as int, chunk as int);
            assert(k * chunk <= off < (k + 1) * chunk) by (nonlinear_arith)
                requires
                    off == chunk * k + off % chunk,
                    0 <= off % chunk < chunk,
            ;
            if k >= n {
                lemma_count_covers(remaining, chunk);
                assert(k * chunk >= n * chunk) by (nonlinear_arith)
                    requires
                        k >= n,
                        chunk > 0,
                ;
            }
            lemma_range_facts(total, existing, chunk, k);
            assert(0 <= k as int && (k as int) < p.len() && p[k as int].0 <= x <= p[k as int].1);
        }
        if exists|i: int| 0 <= i < p.len() && #[trigger] p[i].0 <= x <= p[i].1 {
            let i = choose|i: int| 0 <= i < p.len() && #[trigger] p[i].0 <= x <= p[i].1;
            lemma_range_facts(total, existing, chunk, i as nat);
        }
    }
}

/// Nothing is planned once the existing bytes reach the size of the resource.
pub proof fn lemma_plan_empty_when_complete(total: nat, existing: nat, chunk: nat)
    requires
        existing >= total,
        chunk > 0,
    ensures
        planned(total, existing, chunk).len() == 0,
{
}

/// Planning twice with the same inputs yields the same ranges: the result of `plan`
/// is fixed by its three arguments.
pub proof fn lemma_plan_deterministic(
    total: u64,
    existing: u64,
    chunk: u64,
    first: Seq<ChunkRange>,
    second: Seq<ChunkRange>,
)
    requires
        chunk > 0,
        ranges_view(first) == planned(total as nat, existing as nat, chunk as nat),
        ranges_view(second) == planned(total as nat, existing as nat, chunk as nat),
    ensures
        first == second,
{
    assert(first.len() == ranges_view(first).len());
    assert(second.len() == ranges_view(second).len());
    assert forall|i: int| 0 <= i < first.len() implies first[i] == second[i] by {
        assert(ranges_view(first)[i] == range_view(first[i]));
        assert(ranges_view(second)[i] == range_view(second[i]));
    }
    assert(first =~= second);
}

} // verus!
