use vstd::prelude::*;
use crate::bytes::BLOCK_SIZE;
use crate::error::DvdError;

verus! {

/// A piece of a logical read: `len` bytes of part `part`, from byte `start` of that part.
#[derive(Clone, Copy, Debug, PartialEq, Eq, Structural)]
pub struct Span {
    pub part: usize,
    pub start: u64,
    pub len: u64,
}

/// Offset at which part `i` begins in the logical file: the sizes of the parts before it.
pub open spec fn part_base(sizes: Seq<u64>, i: int) -> int
    decreases i,
{
    if i <= 0 || i > sizes.len() {
        0
    } else {
        part_base(sizes, i - 1) + sizes[i - 1]
    }
}

/// Size of the logical file: the sum of the part sizes.
pub open spec fn total_size(sizes: Seq<u64>) -> int {
    part_base(sizes, sizes.len() as int)
}

pub open spec fn max(a: int, b: int) -> int {
    if a >= b { a } else { b }
}

pub open spec fn min(a: int, b: int) -> int {
    if a <= b { a } else { b }
}

/// The part of the logical range `[lo, hi)` that falls in part `i`, when it is not empty.
pub open spec fn overlap(sizes: Seq<u64>, i: int, lo: int, hi: int) -> Seq<Span> {
    let b = part_base(sizes, i);
    let s = max(lo, b);
    let t = min(hi, b + sizes[i]);
    if s < t {
        seq![Span { part: i as usize, start: (s - b) as u64, len: (t - s) as u64 }]
    } else {
        seq![]
    }
}

/// The pieces of the logical range `[lo, hi)` that lie in the first `n` parts, in order.
pub open spec fn plan(sizes: Seq<u64>, n: int, lo: int, hi: int) -> Seq<Span>
    decreases n,
{
    if n <= 0 {
        seq![]
    } else {
        plan(sizes, n - 1, lo, hi) + overlap(sizes, n - 1, lo, hi)
    }
}

/// The contents of the parts one after the other.
pub open spec fn concat_parts(ps: Seq<Seq<u8>>) -> Seq<u8>
    decreases ps.len(),
{
    if ps.len() == 0 {
        seq![]
    } else {
        concat_parts(ps.drop_last()) + ps.last()
    }
}

/// The bytes that a list of spans designates in the parts `ps`.
pub open spec fn span_bytes(ps: Seq<Seq<u8>>, spans: Seq<Span>) -> Seq<u8>
    decreases spans.len(),
{
    if spans.len() == 0 {
        seq![]
    } else {
        let s = spans.last();
        span_bytes(ps, spans.drop_last()) + ps[s.part as int].subrange(
            s.start as int,
            s.start + s.len,
        )
    }
}

/// The parts `ps` have the sizes `sizes`.
pub open spec fn parts_sized(ps: Seq<Seq<u8>>, sizes: Seq<u64>) -> bool {
    ps.len() == sizes.len() && forall|i: int| 0 <= i < ps.len() ==> #[trigger] ps[i].len() == sizes[i]
}

proof fn lemma_part_base_grows(sizes: Seq<u64>, i: int, j: int)
    requires
        0 <= i <= j <= sizes.len(),
    ensures
        part_base(sizes, i) <= part_base(sizes, j),
    decreases j - i,
{
    if i < j {
        lemma_part_base_grows(sizes, i, j - 1);
    }
}

pub proof fn lemma_concat_len(ps: Seq<Seq<u8>>, sizes: Seq<u64>, n: int)
    requires
        parts_sized(ps, sizes),
        0 <= n <= ps.len(),
    ensures
        concat_parts(ps.take(n)).len() == part_base(sizes, n),
    decreases n,
{
    if n > 0 {
        assert(ps.take(n).drop_last() =~= ps.take(n - 1));
        lemma_concat_len(ps, sizes, n - 1);
    }
}

proof fn lemma_span_bytes_push(ps: Seq<Seq<u8>>, a: Seq<Span>, b: Seq<Span>)
    requires
        b.len() <= 1,
    ensures
        span_bytes(ps, a + b) == span_bytes(ps, a) + span_bytes(ps, b),
{
    if b.len() == 0 {
        assert(a + b =~= a);
        assert(span_bytes(ps, a) + span_bytes(ps, b) =~= span_bytes(ps, a));
    } else {
        assert((a + b).drop_last() =~= a);
        assert(b.drop_last() =~= Seq::<Span>::empty());
        assert(span_bytes(ps, b.drop_last()) == Seq::<u8>::empty());
        let x = b.last();
        let xb = ps[x.part as int].subrange(x.start as int, x.start + x.len);
        assert(span_bytes(ps, b) =~= xb);
    }
}

/// The pieces planned over the first `n` parts are exactly the bytes of the
/// logical range `[lo, hi)`, clipped to the end of those parts.
pub proof fn lemma_plan_bytes(ps: Seq<Seq<u8>>, sizes: Seq<u64>, n: int, lo: int, hi: int)
    requires
        parts_sized(ps, sizes),
        ps.len() <= usize::MAX,
        0 <= n <= ps.len(),
        0 <= lo <= hi,
    ensures
        span_bytes(ps, plan(sizes, n, lo, hi)) == concat_parts(ps.take(n)).subrange(
            min(lo, part_base(sizes, n)),
            min(hi, part_base(sizes, n)),
        ),
    decreases n,
{
    if n == 0 {
        assert(concat_parts(ps.take(0)) =~= Seq::<u8>::empty());
    } else {
        let i = n - 1;
        lemma_plan_bytes(ps, sizes, i, lo, hi);
        lemma_concat_len(ps, sizes, i);
        lemma_span_bytes_push(ps, plan(sizes, i, lo, hi), overlap(sizes, i, lo, hi));
        assert(ps.take(n).drop_last() =~= ps.take(i));
        let c = concat_parts(ps.take(i));
        let p = ps[i];
        let b = part_base(sizes, i);
        let e = part_base(sizes, n);
        assert(concat_parts(ps.take(n)) == c + p);
        let s = max(lo, b);
        let t = min(hi, e);
        if s < t {
            let sp = Span { part: i as usize, start: (s - b) as u64, len: (t - s) as u64 };
            assert(sp.part as int == i);
            assert(sp.start as int == s - b);
            assert(sp.len as int == t - s);
            assert(overlap(sizes, i, lo, hi) == seq![sp]);
            assert(seq![sp].drop_last() =~= Seq::<Span>::empty());
            assert(seq![sp].last() == sp);
            assert(span_bytes(ps, seq![sp].drop_last()) == Seq::<u8>::empty());
            assert(ps[sp.part as int] == p);
            assert(span_bytes(ps, seq![sp]) == Seq::<u8>::empty() + p.subrange(s - b, t - b));
            assert(span_bytes(ps, seq![sp]) =~= p.subrange(s - b, t - b));
            assert((c + p).subrange(min(lo, e), min(hi, e)) =~= c.subrange(min(lo, b), min(hi, b))
                + p.subrange(s - b, t - b));
        } else {
            assert((c + p).subrange(min(lo, e), min(hi, e)) =~= c.subrange(min(lo, b), min(hi, b)));
        }
    }
}

/// Reading the whole logical range of a file made of parts gives the
/// contents of its parts, concatenated in order.
pub proof fn lemma_full_read_is_concatenation(ps: Seq<Seq<u8>>, sizes: Seq<u64>)
    requires
        parts_sized(ps, sizes),
        ps.len() <= usize::MAX,
    ensures
        span_bytes(ps, plan(sizes, sizes.len() as int, 0, total_size(sizes))) == concat_parts(ps),
{
    lemma_part_base_grows(sizes, 0, sizes.len() as int);
    lemma_plan_bytes(ps, sizes, sizes.len() as int, 0, total_size(sizes));
    assert(ps.take(ps.len() as int) =~= ps);
    lemma_concat_len(ps, sizes, ps.len() as int);
    let c = concat_parts(ps);
    assert(c.subrange(0, c.len() as int) =~= c);
}

/// A read that starts inside part `k` and ends inside part `k + 1` gives the
/// tail of part `k` followed by the head of part `k + 1`, with no gap and no
/// byte twice.
pub proof fn lemma_read_across_boundary(ps: Seq<Seq<u8>>, sizes: Seq<u64>, k: int, lo: int, hi: int)
    requires
        parts_sized(ps, sizes),
        ps.len() <= usize::MAX,
        0 <= k,
        k + 1 < sizes.len(),
        part_base(sizes, k) <= lo <= part_base(sizes, k + 1) <= hi <= part_base(sizes, k + 2),
    ensures
        span_bytes(ps, plan(sizes, sizes.len() as int, lo, hi)) == ps[k].subrange(
            lo - part_base(sizes, k),
            sizes[k] as int,
        ) + ps[k + 1].subrange(0, hi - part_base(sizes, k + 1)),
{
    let n = sizes.len() as int;
    lemma_part_base_grows(sizes, 0, k);
    lemma_part_base_grows(sizes, k + 2, n);
    lemma_plan_bytes(ps, sizes, n, lo, hi);
    lemma_concat_len(ps, sizes, k);
    lemma_concat_split(ps, k + 2, n);
    assert(ps.take(k + 2).drop_last() =~= ps.take(k + 1));
    assert(ps.take(k + 1).drop_last() =~= ps.take(k));
    let c = concat_parts(ps.take(k));
    let c1 = concat_parts(ps.take(k + 1));
    let c2 = concat_parts(ps.take(k + 2));
    assert(c1 == c + ps[k]);
    assert(c2 == c1 + ps[k + 1]);
    let whole = concat_parts(ps.take(n));
    let bk = part_base(sizes, k);
    assert(whole.subrange(lo, hi) =~= (c + ps[k] + ps[k + 1]).subrange(lo, hi));
    assert((c + ps[k] + ps[k + 1]).subrange(lo, hi) =~= ps[k].subrange(lo - bk, sizes[k] as int)
        + ps[k + 1].subrange(0, hi - part_base(sizes, k + 1)));
}

proof fn lemma_concat_split(ps: Seq<Seq<u8>>, m: int, n: int)
    requires
        0 <= m <= n <= ps.len(),
    ensures
        concat_parts(ps.take(n)) == concat_parts(ps.take(m)) + concat_parts(ps.subrange(m, n)),
    decreases n - m,
{
    if m == n {
        assert(ps.subrange(m, n) =~= Seq::<Seq<u8>>::empty());
        assert(concat_parts(ps.take(m)) + concat_parts(ps.subrange(m, n)) =~= concat_parts(ps.take(m)));
    } else {
        lemma_concat_split(ps, m, n - 1);
        assert(ps.take(n).drop_last() =~= ps.take(n - 1));
        assert(ps.subrange(m, n).drop_last() =~= ps.subrange(m, n - 1));
        let a = concat_parts(ps.take(m));
        let b = concat_parts(ps.subrange(m, n - 1));
        assert(a + b + ps[n - 1] =~= a + (b + ps[n - 1]));
    }
}

/// Each planned piece lies within its part.
pub proof fn lemma_plan_in_bounds(sizes: Seq<u64>, n: int, lo: int, hi: int)
    requires
        0 <= n <= sizes.len(),
        sizes.len() <= usize::MAX,
    ensures
        forall|j: int|
            0 <= j < plan(sizes, n, lo, hi).len() ==> {
                let s = #[trigger] plan(sizes, n, lo, hi)[j];
                s.part < n && s.start + s.len <= sizes[s.part as int]
            },
    decreases n,
{
    if n > 0 {
        lemma_plan_in_bounds(sizes, n - 1, lo, hi);
        let a = plan(sizes, n - 1, lo, hi);
        let o = overlap(sizes, n - 1, lo, hi);
        assert(plan(sizes, n, lo, hi) == a + o);
        assert forall|j: int| 0 <= j < (a + o).len() implies {
            let s = #[trigger] (a + o)[j];
            s.part < n && s.start + s.len <= sizes[s.part as int]
        } by {
            if j >= a.len() {
                let b = part_base(sizes, n - 1);
                let st = max(lo, b);
                let t = min(hi, b + sizes[n - 1]);
                assert(o[j - a.len()].part as int == n - 1);
                assert(o[j - a.len()].start + o[j - a.len()].len == t - b);
            }
        }
    }
}

/// Splits the logical byte range `[lo, hi)` into per-part pieces.
pub fn plan_range(sizes: &Vec<u64>, lo: u64, hi: u64) -> (r: Vec<Span>)
    requires
        lo <= hi,
        total_size(sizes@) <= u64::MAX,
    ensures
        r@ == plan(sizes@, sizes@.len() as int, lo as int, hi as int),
{
    let mut r: Vec<Span> = Vec::new();
    let mut base: u64 = 0;
    let mut i: usize = 0;
    while i < sizes.len()
        invariant
            i <= sizes@.len(),
            lo <= hi,
            total_size(sizes@) <= u64::MAX,
            base as int == part_base(sizes@, i as int),
            r@ == plan(sizes@, i as int, lo as int, hi as int),
        decreases sizes@.len() - i,
    {
        proof {
            lemma_part_base_grows(sizes@, i as int + 1, sizes@.len() as int);
        }
        let end: u64 = base + sizes[i];
        let s: u64 = if lo >= base { lo } else { base };
        let t: u64 = if hi <= end { hi } else { end };
        if s < t {
            r.push(Span { part: i, start: s - base, len: t - s });
        }
        assert(r@ =~= plan(sizes@, i as int + 1, lo as int, hi as int));
        base = end;
        i = i + 1;
    }
    r
}

/// Splits a read of `block_count` blocks from block `block_offset` of a file
/// made of parts of the given sizes into per-part pieces; fails when the range
/// reaches past the end of the file.
pub fn plan_read(sizes: &Vec<u64>, block_offset: u64, block_count: u64) -> (r: Result<Vec<Span>, DvdError>)
    requires
        total_size(sizes@) <= u64::MAX,
    ensures
        match r {
            Ok(spans) => (block_offset + block_count) * BLOCK_SIZE <= total_size(sizes@) && spans@ == plan(
                sizes@,
                sizes@.len() as int,
                block_offset * BLOCK_SIZE,
                (block_offset + block_count) * BLOCK_SIZE,
            ),
            Err(e) => e == DvdError::IoError && (block_offset + block_count) * BLOCK_SIZE > total_size(
                sizes@,
            ),
        },
{
    let total = total_of(sizes);
    if block_offset > total / BLOCK_SIZE || block_count > total / BLOCK_SIZE - block_offset {
        return Err(DvdError::IoError);
    }
    let lo = block_offset * BLOCK_SIZE;
    let hi = (block_offset + block_count) * BLOCK_SIZE;
    Ok(plan_range(sizes, lo, hi))
}

/// Sum of the part sizes.
pub fn total_of(sizes: &Vec<u64>) -> (r: u64)
    requires
        total_size(sizes@) <= u64::MAX,
    ensures
        r as int == total_size(sizes@),
{
    let mut sum: u64 = 0;
    let mut i: usize = 0;
    while i < sizes.len()
        invariant
            i <= sizes@.len(),
            total_size(sizes@) <= u64::MAX,
            sum as int == part_base(sizes@, i as int),
        decreases sizes@.len() - i,
    {
        proof {
            lemma_part_base_grows(sizes@, i as int + 1, sizes@.len() as int);
        }
        sum = sum + sizes[i];
        i = i + 1;
    }
    sum
}

/// Sum of the part sizes, when it fits in 64 bits.
pub fn checked_total(sizes: &Vec<u64>) -> (r: Option<u64>)
    ensures
        match r {
            Some(t) => t as int == total_size(sizes@),
            None => total_size(sizes@) > u64::MAX,
        },
{
    let mut sum: u64 = 0;
    let mut i: usize = 0;
    while i < sizes.len()
        invariant
            i <= sizes@.len(),
            sum as int == part_base(sizes@, i as int),
        decreases sizes@.len() - i,
    {
        if sum > u64::MAX - sizes[i] {
            proof {
                lemma_part_base_grows(sizes@, i as int + 1, sizes@.len() as int);
            }
            return None;
        }
        sum = sum + sizes[i];
        i = i + 1;
    }
    Some(sum)
}

} // verus!
