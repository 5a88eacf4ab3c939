use vstd::prelude::*;
use crate::bytes::{copy_range, le32, read_le32};
use crate::multipart::{
    checked_total, concat_parts, lemma_concat_len, lemma_plan_bytes, lemma_plan_in_bounds, parts_sized,
    plan, plan_range, span_bytes, total_size,
};

verus! {

/// Length of the extent of allocation descriptor `k`: the low 30 bits of its first field.
pub open spec fn ext_len(img: Seq<u8>, ads: int, step: int, k: int) -> int {
    le32(img, ads + step * k) % 0x4000_0000
}

/// First block of the extent of allocation descriptor `k`.
pub open spec fn ext_start(img: Seq<u8>, ads: int, step: int, part_start: int, k: int) -> int {
    part_start + le32(img, ads + step * k + 4)
}

/// Lengths of the `count` extents.
pub open spec fn ext_lens(img: Seq<u8>, ads: int, step: int, count: nat) -> Seq<u64> {
    Seq::new(count, |k: int| ext_len(img, ads, step, k) as u64)
}

/// Bytes of each of the `count` extents.
pub open spec fn ext_parts(img: Seq<u8>, ads: int, step: int, part_start: int, count: nat) -> Seq<Seq<u8>> {
    Seq::new(
        count,
        |k: int|
            img.subrange(
                ext_start(img, ads, step, part_start, k) * 2048,
                ext_start(img, ads, step, part_start, k) * 2048 + ext_len(img, ads, step, k),
            ),
    )
}

/// The descriptors and every extent lie within the image, and the extents
/// hold at least `size` bytes.
pub open spec fn extents_readable(img: Seq<u8>, ads: int, count: nat, step: int, part_start: int, size: int) -> bool {
    &&& step == 8 || step == 16
    &&& ads + step * count <= img.len()
    &&& forall|k: int|
        0 <= k < count ==> #[trigger] ext_start(img, ads, step, part_start, k) * 2048 + ext_len(img, ads, step, k)
            <= img.len()
    &&& size <= total_size(ext_lens(img, ads, step, count)) <= u64::MAX
}

/// The file: the first `size` bytes of its extents, concatenated in order.
pub open spec fn extents_content(img: Seq<u8>, ads: int, count: nat, step: int, part_start: int, size: int) -> Seq<u8> {
    concat_parts(ext_parts(img, ads, step, part_start, count)).take(size)
}

proof fn lemma_le32_nonneg(d: Seq<u8>, o: int)
    ensures
        0 <= le32(d, o),
{
    let a = d[o] as int;
    let b = d[o + 1] as int;
    let c = d[o + 2] as int;
    let e = d[o + 3] as int;
    assert(0 <= a + b * 256 + (c + e * 256) * 65536) by (nonlinear_arith)
        requires
            0 <= a,
            0 <= b,
            0 <= c,
            0 <= e,
    ;
}

/// A readable file's content is exactly `size` bytes long.
pub proof fn lemma_extents_content_len(img: Seq<u8>, ads: int, count: nat, step: int, part_start: int, size: int)
    requires
        extents_readable(img, ads, count, step, part_start, size),
        0 <= size,
        0 <= part_start,
        0 <= ads,
    ensures
        extents_content(img, ads, count, step, part_start, size).len() == size,
{
    let ps = ext_parts(img, ads, step, part_start, count);
    let sizes = ext_lens(img, ads, step, count);
    assert forall|k: int| 0 <= k < ps.len() implies #[trigger] ps[k].len() == sizes[k] by {
        let st = ext_start(img, ads, step, part_start, k);
        assert(st * 2048 + ext_len(img, ads, step, k) <= img.len());
        lemma_le32_nonneg(img, ads + step * k + 4);
        lemma_le32_nonneg(img, ads + step * k);
    }
    lemma_concat_len(ps, sizes, count as int);
    assert(ps.take(count as int) =~= ps);
}

proof fn lemma_ad_fits(ads: int, step: int, k: int, count: int, n: int)
    requires
        step == 8 || step == 16,
        0 <= k < count,
        ads >= 0,
        ads + step * count <= n,
    ensures
        ads + step * k + 8 <= n,
{
    assert(step * k + step <= step * count) by (nonlinear_arith)
        requires
            0 <= k < count,
            step > 0,
    ;
}

fn ext_lens_exec(img: &Vec<u8>, ads: u64, count: u32, step: u8) -> (r: Vec<u64>)
    requires
        step == 8 || step == 16,
        ads + step * count <= img@.len(),
    ensures
        r@ == ext_lens(img@, ads as int, step as int, count as nat),
{
    let n: usize = img.len();
    let mut r: Vec<u64> = Vec::new();
    let mut k: u32 = 0;
    while k < count
        invariant
            step == 8 || step == 16,
            ads + step * count <= img@.len(),
            n == img@.len(),
            k <= count,
            r@ == ext_lens(img@, ads as int, step as int, count as nat).take(k as int),
        decreases count - k,
    {
        proof {
            lemma_ad_fits(ads as int, step as int, k as int, count as int, n as int);
        }
        let off: usize = (ads + step as u64 * k as u64) as usize;
        r.push((read_le32(img, off) % 0x4000_0000) as u64);
        k = k + 1;
        assert(r@ =~= ext_lens(img@, ads as int, step as int, count as nat).take(k as int));
    }
    assert(ext_lens(img@, ads as int, step as int, count as nat).take(count as int) =~= ext_lens(
        img@,
        ads as int,
        step as int,
        count as nat,
    ));
    r
}

fn ext_start_exec(img: &Vec<u8>, ads: u64, step: u8, part_start: u32, k: u32, count: u32) -> (r: u64)
    requires
        step == 8 || step == 16,
        k < count,
        ads + step * count <= img@.len(),
    ensures
        r as int == ext_start(img@, ads as int, step as int, part_start as int, k as int),
{
    let n: usize = img.len();
    proof {
        lemma_ad_fits(ads as int, step as int, k as int, count as int, n as int);
    }
    let off: usize = (ads + step as u64 * k as u64) as usize;
    part_start as u64 + read_le32(img, off + 4) as u64
}

/// Whether the extents of a file lie within the image and hold its `size` bytes.
pub fn extents_readable_exec(img: &Vec<u8>, ads: u64, count: u32, step: u8, part_start: u32, size: u64) -> (r: bool)
    ensures
        r == extents_readable(img@, ads as int, count as nat, step as int, part_start as int, size as int),
{
    let n: u64 = img.len() as u64;
    if step != 8 && step != 16 {
        return false;
    }
    let span: u64 = if step == 8 { 8 * count as u64 } else { 16 * count as u64 };
    if ads > n || span > n - ads {
        return false;
    }
    let lens = ext_lens_exec(img, ads, count, step);
    let mut k: u32 = 0;
    while k < count
        invariant
            step == 8 || step == 16,
            ads + step * count <= img@.len(),
            n == img@.len(),
            k <= count,
            lens@ == ext_lens(img@, ads as int, step as int, count as nat),
            forall|j: int|
                0 <= j < k ==> #[trigger] ext_start(img@, ads as int, step as int, part_start as int, j) * 2048
                    + ext_len(img@, ads as int, step as int, j) <= img@.len(),
        decreases count - k,
    {
        let st = ext_start_exec(img, ads, step, part_start, k, count);
        let l = lens[k as usize];
        assert(l as int == ext_len(img@, ads as int, step as int, k as int));
        if st > n / 2048 || l > n - st * 2048 {
            assert(!(ext_start(img@, ads as int, step as int, part_start as int, k as int) * 2048 + ext_len(
                img@,
                ads as int,
                step as int,
                k as int,
            ) <= img@.len())) by (nonlinear_arith)
                requires
                    st > n / 2048 || (st <= n / 2048 && l > n - st * 2048),
                    st as int == ext_start(img@, ads as int, step as int, part_start as int, k as int),
                    l as int == ext_len(img@, ads as int, step as int, k as int),
                    l >= 0,
                    n == img@.len(),
            ;
            return false;
        }
        k = k + 1;
    }
    match checked_total(&lens) {
        Some(t) => size <= t,
        None => false,
    }
}

/// Reads `len` bytes of a file from byte `start`, across its extents.
pub fn read_extents(
    img: &Vec<u8>,
    ads: u64,
    count: u32,
    step: u8,
    part_start: u32,
    size: u64,
    start: u64,
    len: u64,
) -> (r: Vec<u8>)
    requires
        extents_readable(img@, ads as int, count as nat, step as int, part_start as int, size as int),
        start + len <= size,
    ensures
        r@ == extents_content(img@, ads as int, count as nat, step as int, part_start as int, size as int).subrange(
            start as int,
            start + len,
        ),
{
    let ghost ps = ext_parts(img@, ads as int, step as int, part_start as int, count as nat);
    let sizes = ext_lens_exec(img, ads, count, step);
    let ghost lo = start as int;
    let ghost hi = start + len;
    let spans = plan_range(&sizes, start, start + len);
    proof {
        lemma_extents_content_len(img@, ads as int, count as nat, step as int, part_start as int, size as int);
    }
    assert(parts_sized(ps, sizes@)) by {
        assert forall|k: int| 0 <= k < ps.len() implies #[trigger] ps[k].len() == sizes@[k] by {
            let st = ext_start(img@, ads as int, step as int, part_start as int, k);
            assert(st * 2048 + ext_len(img@, ads as int, step as int, k) <= img@.len());
            lemma_le32_nonneg(img@, ads + step * k + 4);
            lemma_le32_nonneg(img@, ads + step * k);
        }
    }
    proof {
        lemma_plan_in_bounds(sizes@, count as int, lo, hi);
    }
    let _n: usize = img.len();
    let mut out: Vec<u8> = Vec::new();
    let mut j: usize = 0;
    while j < spans.len()
        invariant
            extents_readable(img@, ads as int, count as nat, step as int, part_start as int, size as int),
            _n == img@.len(),
            sizes@ == ext_lens(img@, ads as int, step as int, count as nat),
            ps == ext_parts(img@, ads as int, step as int, part_start as int, count as nat),
            spans@ == plan(sizes@, count as int, lo, hi),
            forall|k: int|
                0 <= k < spans@.len() ==> {
                    let s = #[trigger] spans@[k];
                    s.part < count && s.start + s.len <= sizes@[s.part as int]
                },
            j <= spans@.len(),
            out@ == span_bytes(ps, spans@.take(j as int)),
        decreases spans@.len() - j,
    {
        let sp = spans[j];
        assert(spans@[j as int] == sp);
        let k = sp.part as u32;
        let st = ext_start_exec(img, ads, step, part_start, k, count);
        assert(st * 2048 + sizes@[k as int] <= img@.len());
        let mut bytes = copy_range(img, (st * 2048 + sp.start) as usize, sp.len as usize);
        assert(bytes@ =~= ps[sp.part as int].subrange(sp.start as int, sp.start + sp.len));
        out.append(&mut bytes);
        assert(spans@.take(j as int + 1).drop_last() =~= spans@.take(j as int));
        j = j + 1;
    }
    proof {
        lemma_plan_bytes(ps, sizes@, count as int, lo, hi);
        lemma_concat_len(ps, sizes@, count as int);
        assert(spans@.take(spans@.len() as int) =~= spans@);
        assert(ps.take(count as int) =~= ps);
        let c = concat_parts(ps);
        assert(c.take(size as int).subrange(lo, hi) =~= c.subrange(lo, hi));
    }
    out
}

} // verus!
