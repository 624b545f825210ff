//! Grouping of the scanned files into batches for the parallel Zstandard
//! mode. Each batch becomes one self-contained frame.

use vstd::prelude::*;
use crate::scan::{FileToCompress, FileView};

verus! {

/// Smallest batch threshold: below it a frame gives the codec too little
/// context to compress well.
pub const MIN_BATCH_SIZE_BYTES: u64 = 64 * 1024 * 1024;

/// Largest batch threshold: above it one huge batch can starve the workers.
pub const MAX_BATCH_SIZE_BYTES: u64 = 512 * 1024 * 1024;

/// The batch threshold: the total size shared out over the threads, held
/// between the two bounds, and never above the total itself (nor below 1).
pub open spec fn threshold_for(total: nat, threads: nat) -> nat {
    let per_thread = if threads == 0 {
        total
    } else {
        total / threads
    };
    let clamped = if per_thread < MIN_BATCH_SIZE_BYTES {
        MIN_BATCH_SIZE_BYTES as nat
    } else if per_thread > MAX_BATCH_SIZE_BYTES {
        MAX_BATCH_SIZE_BYTES as nat
    } else {
        per_thread
    };
    let cap = if total == 0 {
        1
    } else {
        total
    };
    if clamped < cap {
        clamped
    } else {
        cap
    }
}

pub fn batch_threshold(total: u64, threads: usize) -> (r: u64)
    ensures
        r == threshold_for(total as nat, threads as nat),
        r >= 1,
{
    let n: u64 = if threads == 0 {
        1
    } else {
        threads as u64
    };
    let per_thread = total / n;
    let clamped = if per_thread < MIN_BATCH_SIZE_BYTES {
        MIN_BATCH_SIZE_BYTES
    } else if per_thread > MAX_BATCH_SIZE_BYTES {
        MAX_BATCH_SIZE_BYTES
    } else {
        per_thread
    };
    let cap = if total == 0 {
        1
    } else {
        total
    };
    if clamped < cap {
        clamped
    } else {
        cap
    }
}

/// The sum of `s[a]` up to, not including, `s[b]`.
pub open spec fn sum_range(s: Seq<u64>, a: int, b: int) -> nat
    decreases b - a,
{
    if b <= a {
        0
    } else {
        sum_range(s, a, b - 1) + s[b - 1] as nat
    }
}

/// The sum of the first `k` lengths: where the `k`-th batch starts.
pub open spec fn prefix_total(lens: Seq<nat>, k: int) -> int
    decreases k,
{
    if k <= 0 {
        0
    } else {
        prefix_total(lens, k - 1) + lens[k - 1]
    }
}

/// One work unit of the parallel Zstandard mode.
pub struct BatchToCompress {
    pub files: Vec<FileToCompress>,
    /// Uncompressed size of the files together.
    pub total_size: u64,
}

pub struct BatchView {
    pub files: Seq<FileView>,
    pub total_size: nat,
}

impl View for BatchToCompress {
    type V = BatchView;

    open spec fn view(&self) -> BatchView {
        BatchView {
            files: self.files@.map_values(|f: FileToCompress| f@),
            total_size: self.total_size as nat,
        }
    }
}

pub open spec fn batch_lens(batches: Seq<BatchView>) -> Seq<nat> {
    batches.map_values(|b: BatchView| b.files.len())
}

pub open spec fn file_views(files: Seq<(FileToCompress, u64)>) -> Seq<FileView> {
    files.map_values(|p: (FileToCompress, u64)| p.0@)
}

pub open spec fn file_sizes(files: Seq<(FileToCompress, u64)>) -> Seq<u64> {
    files.map_values(|p: (FileToCompress, u64)| p.1)
}

pub proof fn lemma_prefix_push(lens: Seq<nat>, x: nat, k: int)
    requires
        0 <= k <= lens.len(),
    ensures
        prefix_total(lens.push(x), k) == prefix_total(lens, k),
    decreases k,
{
    if k > 0 {
        lemma_prefix_push(lens, x, k - 1);
    }
}

pub proof fn lemma_sum_split(s: Seq<u64>, a: int, m: int, b: int)
    requires
        a <= m <= b,
    ensures
        sum_range(s, a, b) == sum_range(s, a, m) + sum_range(s, m, b),
    decreases b - m,
{
    if b > m {
        lemma_sum_split(s, a, m, b - 1);
    }
}

/// The batches closed so far: they cover the first `end` files in order,
/// and each was closed as soon as it reached `t` (the last one possibly
/// still below it when `last_open` holds).
pub open spec fn batches_cover(
    files: Seq<FileView>,
    sizes: Seq<u64>,
    t: nat,
    batches: Seq<BatchView>,
    end: int,
    last_open: bool,
) -> bool {
    let lens = batch_lens(batches);
    &&& prefix_total(lens, batches.len() as int) == end
    &&& forall|k: int|
        0 <= k < batches.len() ==> {
            let b = #[trigger] batches[k];
            let a = prefix_total(lens, k);
            let z = prefix_total(lens, k + 1);
            &&& b.files.len() > 0
            &&& b.files == files.subrange(a, z)
            &&& b.total_size == sum_range(sizes, a, z)
            &&& (k < batches.len() - 1 || !last_open) ==> b.total_size >= t
        }
    &&& forall|k: int, j: int|
        0 <= k < batches.len() && prefix_total(lens, k) < j < prefix_total(lens, k + 1)
            ==> #[trigger] sum_range(sizes, prefix_total(lens, k), j) < t
}

/// Closing one more batch, `files[start..end]`, keeps the batches covering.
pub proof fn lemma_close_batch(
    files: Seq<FileView>,
    sizes: Seq<u64>,
    t: nat,
    batches: Seq<BatchView>,
    b: BatchView,
    start: int,
    end: int,
    last_open: bool,
)
    requires
        batches_cover(files, sizes, t, batches, start, false),
        0 <= start < end <= files.len(),
        b.files == files.subrange(start, end),
        b.total_size == sum_range(sizes, start, end),
        !last_open ==> b.total_size >= t,
        forall|j: int| start < j < end ==> #[trigger] sum_range(sizes, start, j) < t,
    ensures
        batches_cover(files, sizes, t, batches.push(b), end, last_open),
{
    let lens0 = batch_lens(batches);
    let bv = batches.push(b);
    let lens = batch_lens(bv);
    assert(lens =~= lens0.push(b.files.len()));
    assert forall|k: int| 0 <= k <= batches.len() implies prefix_total(lens, k) == prefix_total(
        lens0,
        k,
    ) by {
        lemma_prefix_push(lens0, b.files.len(), k);
    }
    assert(lens[batches.len() as int] == b.files.len());
    assert(b.files.len() == end - start);
    assert(prefix_total(lens, bv.len() as int) == prefix_total(lens, batches.len() as int)
        + lens[batches.len() as int]);
    assert(prefix_total(lens, bv.len() as int) == end);
    assert forall|k: int| 0 <= k < bv.len() implies {
        let c = #[trigger] bv[k];
        let a = prefix_total(lens, k);
        let z = prefix_total(lens, k + 1);
        &&& c.files.len() > 0
        &&& c.files == files.subrange(a, z)
        &&& c.total_size == sum_range(sizes, a, z)
        &&& (k < bv.len() - 1 || !last_open) ==> c.total_size >= t
    } by {
        if k < batches.len() {
            assert(bv[k] == batches[k]);
        }
    }
    assert forall|k: int, j: int|
        0 <= k < bv.len() && prefix_total(lens, k) < j < prefix_total(lens, k + 1)
            implies #[trigger] sum_range(sizes, prefix_total(lens, k), j) < t by {
        if k < batches.len() {
            assert(prefix_total(lens, k) == prefix_total(lens0, k));
            assert(prefix_total(lens, k + 1) == prefix_total(lens0, k + 1));
        }
    }
}

/// `batches` is the greedy split of `files` (with their `sizes`) at
/// threshold `t`: in order, nothing left out, each batch closed as soon as
/// its size reaches `t`, and only the last one allowed to stay below it.
pub open spec fn is_greedy_split(
    files: Seq<FileView>,
    sizes: Seq<u64>,
    t: nat,
    batches: Seq<BatchView>,
) -> bool {
    batches_cover(files, sizes, t, batches, files.len() as int, true)
}

/// Splits the files, each given with its size, into batches at `threshold`.
pub fn make_batches(files: Vec<(FileToCompress, u64)>, threshold: u64) -> (r: Vec<BatchToCompress>)
    requires
        sum_range(file_sizes(files@), 0, files@.len() as int) <= u64::MAX,
    ensures
        is_greedy_split(
            file_views(files@),
            file_sizes(files@),
            threshold as nat,
            r@.map_values(|b: BatchToCompress| b@),
        ),
{
    let ghost fv = file_views(files@);
    let ghost sz = file_sizes(files@);
    let ghost t = threshold as nat;
    let n = files.len();
    let mut batches: Vec<BatchToCompress> = Vec::new();
    let mut current: Vec<FileToCompress> = Vec::new();
    let mut current_size: u64 = 0;
    let mut start: usize = 0;
    let mut i: usize = 0;
    assert(current@.map_values(|f: FileToCompress| f@) =~= fv.subrange(0, 0));
    assert(batches_cover(fv, sz, t, batches@.map_values(|b: BatchToCompress| b@), 0, false));
    while i < n
        invariant
            n == files@.len(),
            fv == file_views(files@),
            sz == file_sizes(files@),
            t == threshold as nat,
            sum_range(sz, 0, n as int) <= u64::MAX,
            start <= i <= n,
            batches_cover(
                fv,
                sz,
                t,
                batches@.map_values(|b: BatchToCompress| b@),
                start as int,
                false,
            ),
            current@.map_values(|f: FileToCompress| f@) == fv.subrange(start as int, i as int),
            current_size == sum_range(sz, start as int, i as int),
            forall|j: int| start < j <= i ==> #[trigger] sum_range(sz, start as int, j) < t,
        decreases n - i,
    {
        proof {
            lemma_sum_split(sz, 0, start as int, n as int);
            lemma_sum_split(sz, start as int, i + 1, n as int);
        }
        let ghost cur0 = current@.map_values(|f: FileToCompress| f@);
        let size = files[i].1;
        let file = files[i].0.duplicate();
        assert(file@ == fv[i as int]);
        current.push(file);
        current_size = current_size + size;
        assert(current@.map_values(|f: FileToCompress| f@) =~= cur0.push(file@));
        assert(fv.subrange(start as int, i + 1) =~= fv.subrange(start as int, i as int).push(
            fv[i as int],
        ));
        if current_size >= threshold {
            let batch = BatchToCompress { files: current, total_size: current_size };
            let ghost bv0 = batches@.map_values(|b: BatchToCompress| b@);
            proof {
                lemma_close_batch(fv, sz, t, bv0, batch@, start as int, i + 1, false);
            }
            batches.push(batch);
            assert(batches@.map_values(|b: BatchToCompress| b@) =~= bv0.push(batch@));
            current = Vec::new();
            current_size = 0;
            start = i + 1;
            assert(current@.map_values(|f: FileToCompress| f@) =~= fv.subrange(
                start as int,
                i + 1,
            ));
        }
        i = i + 1;
    }
    let ghost bv0 = batches@.map_values(|b: BatchToCompress| b@);
    if current.len() > 0 {
        let batch = BatchToCompress { files: current, total_size: current_size };
        proof {
            lemma_close_batch(fv, sz, t, bv0, batch@, start as int, n as int, true);
        }
        batches.push(batch);
        assert(batches@.map_values(|b: BatchToCompress| b@) =~= bv0.push(batch@));
    } else {
        assert(fv.subrange(start as int, n as int).len() == 0);
        assert(batches_cover(fv, sz, t, bv0, n as int, true));
    }
    batches
}

pub open spec fn batch_files(batches: Seq<BatchView>) -> Seq<Seq<FileView>> {
    batches.map_values(|b: BatchView| b.files)
}

/// Each batch holds the files between where it starts and where the next one does.
pub open spec fn files_in_place(files: Seq<FileView>, batches: Seq<BatchView>) -> bool {
    forall|k: int|
        0 <= k < batches.len() ==> (#[trigger] batches[k]).files == files.subrange(
            prefix_total(batch_lens(batches), k),
            prefix_total(batch_lens(batches), k + 1),
        )
}

proof fn lemma_cover_prefix(files: Seq<FileView>, batches: Seq<BatchView>, k: int)
    requires
        files_in_place(files, batches),
        prefix_total(batch_lens(batches), batches.len() as int) <= files.len(),
        0 <= k <= batches.len(),
    ensures
        0 <= prefix_total(batch_lens(batches), k) <= files.len(),
        batch_files(batches.take(k)).flatten() == files.subrange(
            0,
            prefix_total(batch_lens(batches), k),
        ),
    decreases k,
{
    let lens = batch_lens(batches);
    lemma_prefix_monotone(lens, k, batches.len() as int);
    if k == 0 {
        assert(batch_files(batches.take(0)) =~= Seq::<Seq<FileView>>::empty());
        assert(files.subrange(0, 0) =~= Seq::<FileView>::empty());
    } else {
        lemma_cover_prefix(files, batches, k - 1);
        let b = batches[k - 1];
        let a = prefix_total(lens, k - 1);
        let z = prefix_total(lens, k);
        assert(b.files == files.subrange(a, z));
        lemma_prefix_monotone(lens, k - 1, k);
        let front = batch_files(batches.take(k - 1));
        assert(batch_files(batches.take(k)) =~= front.push(b.files));
        front.lemma_flatten_push(b.files);
        assert(files.subrange(0, a) + files.subrange(a, z) =~= files.subrange(0, z));
    }
}

proof fn lemma_prefix_monotone(lens: Seq<nat>, k: int, m: int)
    requires
        0 <= k <= m <= lens.len(),
    ensures
        0 <= prefix_total(lens, k) <= prefix_total(lens, m),
    decreases m - k,
{
    if k < m {
        lemma_prefix_monotone(lens, k, m - 1);
    } else {
        lemma_prefix_nonneg(lens, k);
    }
}

proof fn lemma_prefix_nonneg(lens: Seq<nat>, k: int)
    ensures
        prefix_total(lens, k) >= 0,
    decreases k,
{
    if k > 0 {
        lemma_prefix_nonneg(lens, k - 1);
    }
}

/// The batches hold every scanned file exactly once, in scan order; so one
/// compression report per file of each batch makes as many reports as
/// there are scanned files.
pub proof fn lemma_batches_hold_every_file_once(
    files: Seq<FileView>,
    sizes: Seq<u64>,
    t: nat,
    batches: Seq<BatchView>,
)
    requires
        is_greedy_split(files, sizes, t, batches),
    ensures
        batch_files(batches).flatten() == files,
        batch_files(batches).flatten().len() == files.len(),
{
    assert(files_in_place(files, batches));
    lemma_cover_prefix(files, batches, batches.len() as int);
    assert(batches.take(batches.len() as int) =~= batches);
    assert(files.subrange(0, files.len() as int) =~= files);
}

/// Adds up the sizes, or `None` past `u64::MAX`.
pub fn total_size(files: &Vec<(FileToCompress, u64)>) -> (r: Option<u64>)
    ensures
        r matches Some(t) ==> t == sum_range(file_sizes(files@), 0, files@.len() as int),
        r is None ==> sum_range(file_sizes(files@), 0, files@.len() as int) > u64::MAX,
{
    let ghost sz = file_sizes(files@);
    let n = files.len();
    let mut acc: u64 = 0;
    let mut i: usize = 0;
    while i < n
        invariant
            n == files@.len(),
            sz == file_sizes(files@),
            i <= n,
            acc == sum_range(sz, 0, i as int),
        decreases n - i,
    {
        let size = files[i].1;
        if acc > u64::MAX - size {
            proof {
                lemma_sum_split(sz, 0, i + 1, n as int);
            }
            return None;
        }
        acc = acc + size;
        i = i + 1;
    }
    Some(acc)
}

/// The work units of the parallel Zstandard mode: the files split greedily
/// at the threshold that their total size and the thread count give.
/// `None` only when the total size does not fit in 64 bits.
pub fn plan_batches(files: Vec<(FileToCompress, u64)>, threads: usize) -> (r: Option<
    Vec<BatchToCompress>,
>)
    ensures
        r is None <==> sum_range(file_sizes(files@), 0, files@.len() as int) > u64::MAX,
        r matches Some(b) ==> is_greedy_split(
            file_views(files@),
            file_sizes(files@),
            threshold_for(sum_range(file_sizes(files@), 0, files@.len() as int), threads as nat),
            b@.map_values(|x: BatchToCompress| x@),
        ),
{
    match total_size(&files) {
        None => None,
        Some(total) => {
            let threshold = batch_threshold(total, threads);
            Some(make_batches(files, threshold))
        },
    }
}

} // verus!
