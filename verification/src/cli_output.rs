//! The saved output of each download: lines kept in numbered chunk files with
//! an index of their counts, read back by pages, plus the line each download is
//! writing right now, held in memory only.
use vstd::prelude::*;
use crate::app_error::AppError;
use crate::models::{CliOutputPage, CliTerminalState};
use crate::text::{
    trim_seq, trim_str, char_vec, owned, push_char, push_zero_padded, str_eq, string_from_chars,
    zero_padded,
};

verus! {

broadcast use vstd::string::group_string_axioms;

/// Page size used when a caller asks for no particular size.
pub const DEFAULT_PAGE_LIMIT: usize = 200;

/// The largest page handed out.
pub const MAX_PAGE_LIMIT: usize = 2000;

/// Lines per chunk file.
pub const CLI_OUTPUT_CHUNK_SIZE: usize = 200;

/// The storage format this code writes; other stored output is discarded.
pub open spec fn cli_output_format_version() -> Seq<char> {
    "2"@
}

/// The text of the format marker file this code writes.
pub fn format_version() -> (r: &'static str)
    ensures
        r@ == cli_output_format_version(),
{
    "2"
}

/// Whether a format marker file with content `content` marks the current format.
pub fn is_current_format(content: &str) -> (r: bool)
    ensures
        r == (trim_seq(content@) == cli_output_format_version()),
{
    str_eq(trim_str(content), format_version())
}

/// Whether the stored saved output is kept, given the content of its format marker
/// file (`None` when there is none): only a store marked with this code's
/// format is kept; an unmarked or differently marked one is discarded.
pub fn keeps_stored_output(marker: Option<&str>) -> (r: bool)
    ensures
        r == (marker matches Some(m) && trim_seq(m@) == cli_output_format_version()),
{
    match marker {
        Some(m) => is_current_format(m),
        None => false,
    }
}

/// One chunk file and the number of lines it holds.
#[derive(Debug, Clone)]
pub struct CliChunkMeta {
    pub file: String,
    pub count: usize,
}

/// The chunk files of one download, in order, and their total line count.
#[derive(Debug, Clone)]
pub struct CliOutputIndex {
    pub total: usize,
    pub chunks: Vec<CliChunkMeta>,
}

/// The sum of the line counts of `chunks`.
pub open spec fn sum_counts(chunks: Seq<CliChunkMeta>) -> int
    decreases chunks.len(),
{
    if chunks.len() == 0 {
        0
    } else {
        sum_counts(chunks.drop_last()) + chunks.last().count
    }
}

/// The page size actually used for a requested `limit`.
pub open spec fn normalized_limit(limit: nat) -> nat {
    if limit == 0 {
        DEFAULT_PAGE_LIMIT as nat
    } else if limit < MAX_PAGE_LIMIT {
        limit
    } else {
        MAX_PAGE_LIMIT as nat
    }
}

pub fn normalize_limit(limit: usize) -> (r: usize)
    ensures
        r as nat == normalized_limit(limit as nat),
        1 <= r <= MAX_PAGE_LIMIT,
{
    if limit == 0 {
        DEFAULT_PAGE_LIMIT
    } else if limit < MAX_PAGE_LIMIT {
        limit
    } else {
        MAX_PAGE_LIMIT
    }
}

/// Whether `c` may appear in the directory name of a download's output.
pub open spec fn is_safe_id_char(c: char) -> bool {
    ('a' <= c && c <= 'z') || ('A' <= c && c <= 'Z') || ('0' <= c && c <= '9') || c == '-' || c
        == '_'
}

/// A download id made safe as a directory name: only ASCII letters, digits,
/// `-` and `_` are kept, and `task` stands for an id with none of them.
pub open spec fn sanitized_task_id(id: Seq<char>) -> Seq<char> {
    let kept = id.filter(|c: char| is_safe_id_char(c));
    if kept.len() == 0 {
        "task"@
    } else {
        kept
    }
}

pub fn sanitize_task_id(task_id: &str) -> (r: String)
    ensures
        r@ == sanitized_task_id(task_id@),
{
    let chars = char_vec(task_id);
    let mut kept: Vec<char> = Vec::new();
    let mut i: usize = 0;
    while i < chars.len()
        invariant
            i <= chars.len(),
            chars@ == task_id@,
            kept@ == task_id@.take(i as int).filter(|c: char| is_safe_id_char(c)),
        decreases chars.len() - i,
    {
        let c = chars[i];
        proof {
            reveal(Seq::filter);
            assert(task_id@.take(i + 1).drop_last() =~= task_id@.take(i as int));
        }
        if ('a' <= c && c <= 'z') || ('A' <= c && c <= 'Z') || ('0' <= c && c <= '9') || c == '-'
            || c == '_' {
            kept.push(c);
        }
        i = i + 1;
    }
    proof {
        assert(task_id@.take(task_id@.len() as int) =~= task_id@);
    }
    if kept.len() == 0 {
        proof {
            reveal_strlit("task");
        }
        owned("task")
    } else {
        string_from_chars(&kept)
    }
}

/// The name of chunk file number `n`: the number in six or more digits, then `.txt`.
pub open spec fn chunk_file_name(n: nat) -> Seq<char> {
    zero_padded(n, 6) + ".txt"@
}

pub fn next_chunk_file_name(chunk_number: usize) -> (r: String)
    ensures
        r@ == chunk_file_name(chunk_number as nat),
{
    let mut s = String::new();
    push_zero_padded(&mut s, chunk_number, 6);
    let ghost digits = s@;
    push_char(&mut s, '.');
    push_char(&mut s, 't');
    push_char(&mut s, 'x');
    push_char(&mut s, 't');
    proof {
        reveal_strlit(".txt");
        assert(s@ =~= digits + ".txt"@);
    }
    s
}

// ---------------------------------------------------------------------------
// Windows of lines
// ---------------------------------------------------------------------------

/// A range `[start, end)` of the lines of a download that holds `total` lines.
#[derive(Debug, Clone, Copy, PartialEq, Eq, Structural)]
pub struct OutputWindow {
    pub start: usize,
    pub end: usize,
    pub total: usize,
}

/// The window a page request reads: from `offset` (at most `total`) on, at most
/// the normalized limit of lines.
pub open spec fn page_window_spec(total: nat, offset: nat, limit: nat) -> (int, int) {
    let start = if offset < total {
        offset
    } else {
        total
    };
    let end = if start + normalized_limit(limit) < total {
        start + normalized_limit(limit)
    } else {
        total
    };
    (start as int, end as int)
}

/// The window a tail request reads: the last lines, at most the normalized limit.
pub open spec fn tail_window_spec(total: nat, limit: nat) -> (int, int) {
    let start = if total > normalized_limit(limit) {
        total - normalized_limit(limit)
    } else {
        0
    };
    (start as int, total as int)
}

pub fn page_window(total: usize, offset: usize, limit: usize) -> (r: OutputWindow)
    ensures
        (r.start as int, r.end as int) == page_window_spec(total as nat, offset as nat, limit as nat),
        r.total == total,
        r.start <= r.end <= r.total,
{
    let limit = normalize_limit(limit);
    let start = if offset < total {
        offset
    } else {
        total
    };
    let end = if limit < total - start {
        start + limit
    } else {
        total
    };
    OutputWindow { start, end, total }
}

pub fn tail_window(total: usize, limit: usize) -> (r: OutputWindow)
    ensures
        (r.start as int, r.end as int) == tail_window_spec(total as nat, limit as nat),
        r.total == total,
        r.start <= r.end <= r.total,
{
    let limit = normalize_limit(limit);
    let start = if total > limit {
        total - limit
    } else {
        0
    };
    OutputWindow { start, end: total, total }
}

// ---------------------------------------------------------------------------
// Reading a window out of the chunk files
// ---------------------------------------------------------------------------

/// The lines `[local_start, local_end)` of chunk `chunk_index`, stored in `file`.
#[derive(Debug, Clone)]
pub struct ChunkSlice {
    pub chunk_index: usize,
    pub file: String,
    pub local_start: usize,
    pub local_end: usize,
}

/// A chunk slice as numbers: chunk index, first line, end line.
pub open spec fn slice_view(s: ChunkSlice) -> (int, int, int) {
    (s.chunk_index as int, s.local_start as int, s.local_end as int)
}

/// The slices that cover `[start, end)`, walking the chunks from `k` on, where
/// chunk `k` begins at line `chunk_start`: chunks wholly before the window are
/// skipped and the walk stops at the first chunk that begins at or after its end.
pub open spec fn plan_from(
    chunks: Seq<CliChunkMeta>,
    k: int,
    chunk_start: int,
    start: int,
    end: int,
) -> Seq<(int, int, int)>
    decreases chunks.len() - k,
{
    if k < 0 || k >= chunks.len() {
        Seq::empty()
    } else {
        let chunk_end = chunk_start + chunks[k].count;
        if chunk_end <= start {
            plan_from(chunks, k + 1, chunk_end, start, end)
        } else if chunk_start >= end {
            Seq::empty()
        } else {
            let local_start = if start > chunk_start {
                start - chunk_start
            } else {
                0
            };
            let local_end = (if end < chunk_end {
                end
            } else {
                chunk_end
            }) - chunk_start;
            seq![(k, local_start, local_end)] + plan_from(chunks, k + 1, chunk_end, start, end)
        }
    }
}

/// The chunk slices read for the window `[start, end)`.
pub open spec fn read_plan(chunks: Seq<CliChunkMeta>, start: int, end: int) -> Seq<(int, int, int)> {
    if start >= end {
        Seq::empty()
    } else {
        plan_from(chunks, 0, 0, start, end)
    }
}

/// The line counts of `chunks` add up within a `usize`, prefix by prefix.
pub open spec fn counts_fit(chunks: Seq<CliChunkMeta>) -> bool {
    forall|k: int| 0 <= k <= chunks.len() ==> #[trigger] sum_counts(chunks.take(k)) <= usize::MAX
}

proof fn lemma_sum_counts_take_step(chunks: Seq<CliChunkMeta>, k: int)
    requires
        0 <= k < chunks.len(),
    ensures
        sum_counts(chunks.take(k + 1)) == sum_counts(chunks.take(k)) + chunks[k].count,
{
    assert(chunks.take(k + 1).drop_last() =~= chunks.take(k));
}

/// The slices of chunk files to read for the window `[start, end)`, in order.
pub fn plan_read_range(index: &CliOutputIndex, start: usize, end: usize) -> (r: Vec<ChunkSlice>)
    requires
        counts_fit(index.chunks@),
    ensures
        r@.map_values(|s: ChunkSlice| slice_view(s)) == read_plan(index.chunks@, start as int, end as int),
        forall|i: int|
            0 <= i < r@.len() ==> #[trigger] r@[i].chunk_index < index.chunks@.len() && r@[i].file
                == index.chunks@[r@[i].chunk_index as int].file,
{
    let mut out: Vec<ChunkSlice> = Vec::new();
    if start >= end {
        proof {
            assert(out@.map_values(|s: ChunkSlice| slice_view(s)) =~= Seq::<(int, int, int)>::empty());
        }
        return out;
    }
    let ghost chunks = index.chunks@;
    let ghost target = plan_from(chunks, 0, 0, start as int, end as int);
    let mut chunk_start: usize = 0;
    let mut k: usize = 0;
    proof {
        assert(chunks.take(0) =~= Seq::<CliChunkMeta>::empty());
        assert(out@.map_values(|s: ChunkSlice| slice_view(s)) + plan_from(chunks, 0, 0, start as int, end as int) =~= target);
    }
    loop
        invariant
            k <= index.chunks.len(),
            chunks == index.chunks@,
            counts_fit(chunks),
            start < end,
            chunk_start as int == sum_counts(chunks.take(k as int)),
            out@.map_values(|s: ChunkSlice| slice_view(s)) + plan_from(
                chunks,
                k as int,
                chunk_start as int,
                start as int,
                end as int,
            ) == target,
            forall|i: int|
                0 <= i < out@.len() ==> #[trigger] out@[i].chunk_index < chunks.len() && out@[i].file
                    == chunks[out@[i].chunk_index as int].file,
        ensures
            out@.map_values(|s: ChunkSlice| slice_view(s)) == target,
            forall|i: int|
                0 <= i < out@.len() ==> #[trigger] out@[i].chunk_index < chunks.len() && out@[i].file
                    == chunks[out@[i].chunk_index as int].file,
        decreases index.chunks.len() - k,
    {
        if k >= index.chunks.len() {
            proof {
                assert(out@.map_values(|s: ChunkSlice| slice_view(s)) + Seq::<(int, int, int)>::empty()
                    =~= out@.map_values(|s: ChunkSlice| slice_view(s)));
            }
            break;
        }
        proof {
            lemma_sum_counts_take_step(chunks, k as int);
            assert(sum_counts(chunks.take(k + 1)) <= usize::MAX);
        }
        let count = index.chunks[k].count;
        let chunk_end = chunk_start + count;
        if chunk_end <= start {
            chunk_start = chunk_end;
            k = k + 1;
            continue;
        }
        if chunk_start >= end {
            proof {
                assert(out@.map_values(|s: ChunkSlice| slice_view(s)) + Seq::<(int, int, int)>::empty()
                    =~= out@.map_values(|s: ChunkSlice| slice_view(s)));
            }
            break;
        }
        let local_start = if start > chunk_start {
            start - chunk_start
        } else {
            0
        };
        let local_end = (if end < chunk_end {
            end
        } else {
            chunk_end
        }) - chunk_start;
        let ghost before = out@;
        out.push(
            ChunkSlice {
                chunk_index: k,
                file: index.chunks[k].file.clone(),
                local_start,
                local_end,
            },
        );
        proof {
            assert(out@.map_values(|s: ChunkSlice| slice_view(s)) =~= before.map_values(
                |s: ChunkSlice| slice_view(s),
            ).push((k as int, local_start as int, local_end as int)));
            assert(before.map_values(|s: ChunkSlice| slice_view(s)).push(
                (k as int, local_start as int, local_end as int),
            ) + plan_from(chunks, k + 1, chunk_end as int, start as int, end as int)
                =~= before.map_values(|s: ChunkSlice| slice_view(s)) + (seq![
                (k as int, local_start as int, local_end as int),
            ] + plan_from(chunks, k + 1, chunk_end as int, start as int, end as int)));
        }
        chunk_start = chunk_end;
        k = k + 1;
    }
    out
}

/// A chunk file held fewer lines than its index entry promised.
#[derive(Debug, Clone)]
pub enum ReadRangeError {
    ChunkTooShort { file: String, expected: usize, found: usize },
}

/// The lines a plan selects, given the lines loaded for each of its slices.
pub open spec fn collect(plan: Seq<(int, int, int)>, loaded: Seq<Seq<String>>) -> Seq<String>
    decreases plan.len(),
{
    if plan.len() == 0 || loaded.len() == 0 {
        Seq::empty()
    } else {
        loaded[0].subrange(plan[0].1, plan[0].2) + collect(plan.drop_first(), loaded.drop_first())
    }
}

/// Every loaded chunk holds at least the lines its slice needs.
pub open spec fn loaded_long_enough(plan: Seq<(int, int, int)>, loaded: Seq<Seq<String>>) -> bool {
    forall|k: int| 0 <= k < plan.len() ==> plan[k].2 <= (#[trigger] loaded[k]).len()
}

/// Picks, from the lines loaded for each slice of `plan`, the lines of the slice,
/// in order; fails on the first loaded chunk too short for its slice.
pub fn assemble_range(plan: &Vec<ChunkSlice>, loaded: Vec<Vec<String>>) -> (r: Result<
    Vec<String>,
    ReadRangeError,
>)
    requires
        loaded@.len() == plan@.len(),
        forall|k: int| 0 <= k < plan@.len() ==> #[trigger] plan@[k].local_start <= plan@[k].local_end,
    ensures
        ({
            let pv = plan@.map_values(|s: ChunkSlice| slice_view(s));
            let lv = loaded@.map_values(|v: Vec<String>| v@);
            match r {
                Ok(lines) => loaded_long_enough(pv, lv) && lines@ == collect(pv, lv),
                Err(ReadRangeError::ChunkTooShort { file, expected, found }) => exists|k: int|
                    0 <= k < plan@.len() && (forall|j: int|
                        0 <= j < k ==> plan@[j].local_end <= (#[trigger] loaded@[j])@.len())
                        && loaded@[k]@.len() < plan@[k].local_end && file == plan@[k].file
                        && expected == plan@[k].local_end && found == loaded@[k]@.len(),
            }
        }),
{
    let ghost pv = plan@.map_values(|s: ChunkSlice| slice_view(s));
    let ghost lv = loaded@.map_values(|v: Vec<String>| v@);
    let mut result: Vec<String> = Vec::new();
    let mut k: usize = 0;
    proof {
        assert(pv.skip(0) =~= pv);
        assert(lv.skip(0) =~= lv);
        assert(result@ + collect(pv, lv) =~= collect(pv, lv));
    }
    while k < plan.len()
        invariant
            k <= plan.len(),
            loaded@.len() == plan@.len(),
            pv == plan@.map_values(|s: ChunkSlice| slice_view(s)),
            lv == loaded@.map_values(|v: Vec<String>| v@),
            forall|j: int| 0 <= j < plan@.len() ==> #[trigger] plan@[j].local_start <= plan@[j].local_end,
            forall|j: int| 0 <= j < k ==> plan@[j].local_end <= (#[trigger] loaded@[j])@.len(),
            loaded_long_enough(pv.skip(k as int), lv.skip(k as int)) ==> result@ + collect(
                pv.skip(k as int),
                lv.skip(k as int),
            ) == collect(pv, lv),
            loaded_long_enough(pv, lv) ==> loaded_long_enough(pv.skip(k as int), lv.skip(k as int)),
        decreases plan.len() - k,
    {
        let slice = &plan[k];
        let lines = &loaded[k];
        if lines.len() < slice.local_end {
            proof {
                assert(!loaded_long_enough(pv, lv)) by {
                    assert(pv[k as int].2 > lv[k as int].len());
                }
            }
            return Err(
                ReadRangeError::ChunkTooShort {
                    file: slice.file.clone(),
                    expected: slice.local_end,
                    found: lines.len(),
                },
            );
        }
        let ghost before = result@;
        let mut j: usize = slice.local_start;
        while j < slice.local_end
            invariant
                slice.local_start <= j <= slice.local_end <= lines@.len(),
                result@ == before + lines@.subrange(slice.local_start as int, j as int),
            decreases slice.local_end - j,
        {
            result.push(lines[j].clone());
            proof {
                assert(lines@.subrange(slice.local_start as int, j as int).push(lines@[j as int])
                    =~= lines@.subrange(slice.local_start as int, j + 1));
            }
            j = j + 1;
        }
        proof {
            let ps = pv.skip(k as int);
            let ls = lv.skip(k as int);
            assert(ps[0] == pv[k as int]);
            assert(ls[0] == lv[k as int]);
            assert(ps.drop_first() =~= pv.skip(k + 1));
            assert(ls.drop_first() =~= lv.skip(k + 1));
            if loaded_long_enough(pv.skip(k + 1), lv.skip(k + 1)) {
                assert(loaded_long_enough(ps, ls)) by {
                    assert forall|i: int| 0 <= i < ps.len() implies ps[i].2 <= (#[trigger] ls[i]).len() by {
                        if i > 0 {
                            assert(ps[i] == pv.skip(k + 1)[i - 1]);
                            assert(ls[i] == lv.skip(k + 1)[i - 1]);
                        }
                    }
                }
                assert(result@ + collect(pv.skip(k + 1), lv.skip(k + 1)) =~= before + collect(ps, ls));
            }
            if loaded_long_enough(pv, lv) {
                assert forall|i: int| 0 <= i < pv.skip(k + 1).len() implies pv.skip(k + 1)[i].2
                    <= (#[trigger] lv.skip(k + 1)[i]).len() by {
                    assert(pv.skip(k + 1)[i] == pv[k + 1 + i]);
                    assert(lv.skip(k + 1)[i] == lv[k + 1 + i]);
                }
            }
        }
        k = k + 1;
    }
    proof {
        assert(pv.skip(k as int) =~= Seq::<(int, int, int)>::empty());
        assert(lv.skip(k as int) =~= Seq::<Seq<String>>::empty());
        assert(loaded_long_enough(pv, lv)) by {
            assert forall|i: int| 0 <= i < pv.len() implies pv[i].2 <= (#[trigger] lv[i]).len() by {
                assert(loaded@[i]@ == lv[i]);
            }
        }
        assert(result@ + collect(pv.skip(k as int), lv.skip(k as int)) =~= result@);
    }
    Ok(result)
}

/// All lines of the chunks, in order.
pub open spec fn flat(c: Seq<Seq<String>>) -> Seq<String>
    decreases c.len(),
{
    if c.len() == 0 {
        Seq::empty()
    } else {
        c[0] + flat(c.drop_first())
    }
}

/// The lines loaded for each slice of `plan` when chunk `i` holds `c[i]`.
pub open spec fn loaded_for(plan: Seq<(int, int, int)>, c: Seq<Seq<String>>) -> Seq<Seq<String>> {
    plan.map_values(|p: (int, int, int)| c[p.0])
}

/// Chunk `i` holds exactly as many lines as the index says.
pub open spec fn chunks_match(chunks: Seq<CliChunkMeta>, c: Seq<Seq<String>>) -> bool {
    &&& c.len() == chunks.len()
    &&& forall|i: int| 0 <= i < c.len() ==> (#[trigger] c[i]).len() == chunks[i].count
}

proof fn lemma_plan_from_reads_window(
    chunks: Seq<CliChunkMeta>,
    c: Seq<Seq<String>>,
    k: int,
    cs: int,
    start: int,
    end: int,
    total: int,
)
    requires
        chunks_match(chunks, c),
        0 <= k <= chunks.len(),
        0 <= cs,
        cs + flat(c.skip(k)).len() == total,
        0 <= start < end <= total,
    ensures
        ({
            let plan = plan_from(chunks, k, cs, start, end);
            let lo = if start > cs {
                start - cs
            } else {
                0
            };
            let hi = if end > cs {
                end - cs
            } else {
                0
            };
            &&& loaded_long_enough(plan, loaded_for(plan, c))
            &&& collect(plan, loaded_for(plan, c)) == flat(c.skip(k)).subrange(lo, hi)
            &&& forall|i: int| 0 <= i < plan.len() ==> 0 <= (#[trigger] plan[i]).1 <= plan[i].2
        }),
    decreases chunks.len() - k,
{
    let plan = plan_from(chunks, k, cs, start, end);
    let r = flat(c.skip(k));
    if k >= chunks.len() {
        assert(c.skip(k) =~= Seq::<Seq<String>>::empty());
        assert(r =~= Seq::<String>::empty());
        assert(r.subrange(0, 0) =~= Seq::<String>::empty());
    } else {
        let ce = cs + chunks[k].count;
        let rest = flat(c.skip(k + 1));
        assert(c.skip(k)[0] == c[k]);
        assert(c.skip(k).drop_first() =~= c.skip(k + 1));
        assert(r == c[k] + rest);
        let n = c[k].len() as int;
        if ce <= start {
            lemma_plan_from_reads_window(chunks, c, k + 1, ce, start, end, total);
            let lo2 = start - ce;
            let hi2 = end - ce;
            assert(r.subrange(start - cs, end - cs) =~= rest.subrange(lo2, hi2));
        } else if cs >= end {
            assert(plan =~= Seq::<(int, int, int)>::empty());
            assert(r.subrange(0, 0) =~= Seq::<String>::empty());
            assert(collect(plan, loaded_for(plan, c)) =~= Seq::<String>::empty());
        } else {
            lemma_plan_from_reads_window(chunks, c, k + 1, ce, start, end, total);
            let ls = if start > cs {
                start - cs
            } else {
                0
            };
            let le = (if end < ce {
                end
            } else {
                ce
            }) - cs;
            let tail = plan_from(chunks, k + 1, ce, start, end);
            assert(plan == seq![(k, ls, le)] + tail);
            let lf = loaded_for(plan, c);
            assert(plan.drop_first() =~= tail);
            assert(lf.drop_first() =~= loaded_for(tail, c));
            assert(lf[0] == c[k]);
            assert(collect(plan, lf) == c[k].subrange(ls, le) + collect(tail, loaded_for(tail, c)));
            assert forall|i: int| 0 <= i < plan.len() implies plan[i].2 <= (#[trigger] lf[i]).len() by {
                if i > 0 {
                    assert(plan[i] == tail[i - 1]);
                    assert(lf[i] == loaded_for(tail, c)[i - 1]);
                }
            }
            assert forall|i: int| 0 <= i < plan.len() implies 0 <= (#[trigger] plan[i]).1 <= plan[i].2 by {
                if i > 0 {
                    assert(plan[i] == tail[i - 1]);
                }
            }
            if end < ce {
                let hi2 = 0int;
                assert(tail =~= Seq::<(int, int, int)>::empty()) by {
                    if k + 1 < chunks.len() {
                        let ce2 = ce + chunks[k + 1].count;
                        if ce2 <= start {
                        }
                    }
                }
                assert(collect(tail, loaded_for(tail, c)) =~= Seq::<String>::empty());
                assert(r.subrange(ls, end - cs) =~= c[k].subrange(ls, le));
            } else {
                assert(r.subrange(ls, end - cs) =~= c[k].subrange(ls, le) + rest.subrange(0, end - ce));
            }
        }
    }
}

proof fn lemma_flat_len(chunks: Seq<CliChunkMeta>, c: Seq<Seq<String>>)
    requires
        chunks_match(chunks, c),
    ensures
        flat(c).len() == sum_counts(chunks),
    decreases c.len(),
{
    if c.len() > 0 {
        let d = chunks.drop_first();
        let e = c.drop_first();
        assert(chunks_match(d, e)) by {
            assert forall|i: int| 0 <= i < e.len() implies (#[trigger] e[i]).len() == d[i].count by {
                assert(e[i] == c[i + 1]);
                assert(d[i] == chunks[i + 1]);
            }
        }
        lemma_flat_len(d, e);
        lemma_sum_counts_front(chunks);
    }
}

proof fn lemma_sum_counts_front(chunks: Seq<CliChunkMeta>)
    requires
        chunks.len() > 0,
    ensures
        sum_counts(chunks) == chunks[0].count + sum_counts(chunks.drop_first()),
    decreases chunks.len(),
{
    if chunks.len() > 1 {
        lemma_sum_counts_front(chunks.drop_last());
        assert(chunks.drop_last().drop_first() =~= chunks.drop_first().drop_last());
        assert(chunks.drop_last()[0] == chunks[0]);
    } else {
        assert(chunks.drop_first() =~= Seq::<CliChunkMeta>::empty());
        assert(chunks.drop_last() =~= Seq::<CliChunkMeta>::empty());
    }
}

/// When every chunk holds as many lines as the index says, the slices planned
/// for a window `[start, end)` within the total hold exactly the lines of that
/// window: a page or tail reads the lines it reports, in order.
pub proof fn law_read_plan_reads_the_window(
    chunks: Seq<CliChunkMeta>,
    c: Seq<Seq<String>>,
    start: int,
    end: int,
)
    requires
        chunks_match(chunks, c),
        0 <= start <= end <= sum_counts(chunks),
    ensures
        loaded_long_enough(read_plan(chunks, start, end), loaded_for(read_plan(chunks, start, end), c)),
        collect(read_plan(chunks, start, end), loaded_for(read_plan(chunks, start, end), c)) == flat(
            c,
        ).subrange(start, end),
{
    lemma_flat_len(chunks, c);
    if start >= end {
        assert(flat(c).subrange(start, end) =~= Seq::<String>::empty());
    } else {
        assert(c.skip(0) =~= c);
        lemma_plan_from_reads_window(chunks, c, 0, 0, start, end, flat(c).len() as int);
    }
}

/// Whether `new` is the chunk list `old` once one more line is indexed: the
/// last chunk counts one line more while it holds fewer than
/// [`CLI_OUTPUT_CHUNK_SIZE`], otherwise a chunk of one line follows the others.
pub open spec fn line_append_indexed(old: Seq<CliChunkMeta>, new: Seq<CliChunkMeta>) -> bool {
    let n = old.len();
    if n > 0 && old[n - 1].count < CLI_OUTPUT_CHUNK_SIZE {
        new == old.update(n - 1, CliChunkMeta { count: (old[n - 1].count + 1) as usize, ..old[n - 1] })
    } else {
        &&& new.len() == n + 1
        &&& new.take(n as int) == old
        &&& new[n as int].count == 1
    }
}

/// The chunk contents once `line` is written where [`line_append_indexed`]
/// puts it: at the end of the last chunk, or as a new chunk.
pub open spec fn lines_after_append(old: Seq<CliChunkMeta>, c: Seq<Seq<String>>, line: String) -> Seq<Seq<String>> {
    let n = old.len();
    if n > 0 && old[n - 1].count < CLI_OUTPUT_CHUNK_SIZE {
        c.update(n - 1, c[n - 1].push(line))
    } else {
        c.push(seq![line])
    }
}

proof fn lemma_flat_push(c: Seq<Seq<String>>, x: Seq<String>)
    ensures
        flat(c.push(x)) == flat(c) + x,
    decreases c.len(),
{
    if c.len() == 0 {
        assert(c.push(x).drop_first() =~= Seq::<Seq<String>>::empty());
        assert(flat(Seq::<Seq<String>>::empty()) =~= Seq::<String>::empty());
        assert(flat(c.push(x)) =~= flat(c) + x);
    } else {
        assert(c.push(x).drop_first() =~= c.drop_first().push(x));
        lemma_flat_push(c.drop_first(), x);
        assert(flat(c.push(x)) =~= flat(c) + x);
    }
}

/// Writing a line where the index puts it keeps the index true to the chunk
/// files and adds the line after all lines written before: the output of a
/// download is the lines appended to it, in order.
pub proof fn law_line_append_extends_output(
    old: Seq<CliChunkMeta>,
    new: Seq<CliChunkMeta>,
    c: Seq<Seq<String>>,
    line: String,
)
    requires
        chunks_match(old, c),
        line_append_indexed(old, new),
    ensures
        chunks_match(new, lines_after_append(old, c, line)),
        flat(lines_after_append(old, c, line)) == flat(c).push(line),
        sum_counts(new) == sum_counts(old) + 1,
{
    let n = old.len();
    let c2 = lines_after_append(old, c, line);
    if n > 0 && old[n - 1].count < CLI_OUTPUT_CHUNK_SIZE {
        assert forall|i: int| 0 <= i < c2.len() implies (#[trigger] c2[i]).len() == new[i].count by {
            if i == n - 1 {
                assert(c2[i] == c[n - 1].push(line));
            } else {
                assert(c2[i] == c[i]);
            }
        }
        assert(c =~= c.drop_last().push(c[n - 1]));
        assert(c2 =~= c.drop_last().push(c[n - 1].push(line)));
        lemma_flat_push(c.drop_last(), c[n - 1]);
        lemma_flat_push(c.drop_last(), c[n - 1].push(line));
        assert(flat(c2) =~= flat(c).push(line));
    } else {
        assert forall|i: int| 0 <= i < c2.len() implies (#[trigger] c2[i]).len() == new[i].count by {
            if i < n {
                assert(c2[i] == c[i]);
                assert(new[i] == new.take(n as int)[i]);
            }
        }
        lemma_flat_push(c, seq![line]);
        assert(flat(c) + seq![line] =~= flat(c).push(line));
    }
    lemma_flat_len(old, c);
    lemma_flat_len(new, c2);
}

/// After a line is appended, the output counts one line more, a tail of one
/// line reads that line, and every window within the lines written before
/// reads what it read before the append.
pub proof fn law_append_then_read(
    old: Seq<CliChunkMeta>,
    new: Seq<CliChunkMeta>,
    c: Seq<Seq<String>>,
    line: String,
    start: int,
    end: int,
)
    requires
        chunks_match(old, c),
        line_append_indexed(old, new),
        0 <= start <= end <= sum_counts(old),
    ensures
        ({
            let c2 = lines_after_append(old, c, line);
            let (s, e) = tail_window_spec(sum_counts(new) as nat, 1);
            &&& sum_counts(new) == sum_counts(old) + 1
            &&& collect(read_plan(new, s, e), loaded_for(read_plan(new, s, e), c2)) == seq![line]
            &&& collect(read_plan(new, start, end), loaded_for(read_plan(new, start, end), c2)) == collect(
                read_plan(old, start, end),
                loaded_for(read_plan(old, start, end), c),
            )
        }),
{
    let c2 = lines_after_append(old, c, line);
    law_line_append_extends_output(old, new, c, line);
    lemma_flat_len(old, c);
    let total = sum_counts(new);
    let (s, e) = tail_window_spec(total as nat, 1);
    assert(s == total - 1 && e == total);
    law_read_plan_reads_the_window(new, c2, s, e);
    assert(flat(c).push(line).subrange(s, e) =~= seq![line]);
    law_read_plan_reads_the_window(new, c2, start, end);
    law_read_plan_reads_the_window(old, c, start, end);
    assert(flat(c).push(line).subrange(start, end) =~= flat(c).subrange(start, end));
}

// ---------------------------------------------------------------------------
// Keeping the index
// ---------------------------------------------------------------------------

proof fn lemma_sum_counts_monotone(chunks: Seq<CliChunkMeta>, i: int, j: int)
    requires
        0 <= i <= j <= chunks.len(),
    ensures
        sum_counts(chunks.take(i)) <= sum_counts(chunks.take(j)),
    decreases j - i,
{
    if i < j {
        lemma_sum_counts_monotone(chunks, i, j - 1);
        lemma_sum_counts_take_step(chunks, j - 1);
    }
}

/// The sum of the line counts of `chunks`, when it fits in a `usize`.
pub fn checked_total(chunks: &Vec<CliChunkMeta>) -> (r: Option<usize>)
    ensures
        r matches Some(t) ==> t == sum_counts(chunks@) && counts_fit(chunks@),
        r is None ==> sum_counts(chunks@) > usize::MAX,
{
    let mut total: usize = 0;
    let mut k: usize = 0;
    proof {
        assert(chunks@.take(0) =~= Seq::<CliChunkMeta>::empty());
    }
    while k < chunks.len()
        invariant
            k <= chunks.len(),
            total == sum_counts(chunks@.take(k as int)),
        decreases chunks.len() - k,
    {
        proof {
            lemma_sum_counts_take_step(chunks@, k as int);
        }
        if chunks[k].count > usize::MAX - total {
            proof {
                lemma_sum_counts_monotone(chunks@, k + 1, chunks@.len() as int);
                assert(chunks@.take(chunks@.len() as int) =~= chunks@);
            }
            return None;
        }
        total = total + chunks[k].count;
        k = k + 1;
    }
    proof {
        assert(chunks@.take(chunks@.len() as int) =~= chunks@);
        assert forall|i: int| 0 <= i <= chunks@.len() implies #[trigger] sum_counts(chunks@.take(i))
            <= usize::MAX by {
            lemma_sum_counts_monotone(chunks@, i, chunks@.len() as int);
        }
    }
    Some(total)
}

/// The chunk files found on disk, numbered from 1, as an index: files with no
/// line are left out.
pub open spec fn chunks_from_counts(counts: Seq<usize>) -> Seq<(Seq<char>, int)>
    decreases counts.len(),
{
    if counts.len() == 0 {
        Seq::empty()
    } else {
        let before = chunks_from_counts(counts.drop_last());
        if counts.last() > 0 {
            before.push((chunk_file_name(counts.len()), counts.last() as int))
        } else {
            before
        }
    }
}

/// A chunk entry as its file name and line count.
pub open spec fn meta_view(m: CliChunkMeta) -> (Seq<char>, int) {
    (m.file@, m.count as int)
}

/// The index rebuilt from the chunk files on disk, where `counts[i]` is the line
/// count of file number `i + 1` and numbering stops at the first missing file.
pub fn index_from_chunk_counts(counts: &Vec<usize>) -> (r: Option<CliOutputIndex>)
    ensures
        r matches Some(index) ==> index.chunks@.map_values(|m: CliChunkMeta| meta_view(m))
            == chunks_from_counts(counts@) && index.total == entries_total(chunks_from_counts(counts@)),
        r is None ==> entries_total(chunks_from_counts(counts@)) > usize::MAX,
{
    let mut chunks: Vec<CliChunkMeta> = Vec::new();
    let mut i: usize = 0;
    while i < counts.len()
        invariant
            i <= counts.len(),
            chunks@.map_values(|m: CliChunkMeta| meta_view(m)) == chunks_from_counts(counts@.take(i as int)),
        decreases counts.len() - i,
    {
        proof {
            assert(counts@.take(i + 1).drop_last() =~= counts@.take(i as int));
            assert(counts@.take(i + 1).last() == counts@[i as int]);
        }
        if counts[i] > 0 {
            let file = next_chunk_file_name(i + 1);
            let ghost before = chunks@;
            chunks.push(CliChunkMeta { file, count: counts[i] });
            proof {
                assert(chunks@.map_values(|m: CliChunkMeta| meta_view(m)) =~= before.map_values(
                    |m: CliChunkMeta| meta_view(m),
                ).push((chunk_file_name((i + 1) as nat), counts@[i as int] as int)));
            }
        }
        i = i + 1;
    }
    proof {
        assert(counts@.take(counts@.len() as int) =~= counts@);
    }
    proof {
        lemma_entries_total(chunks@);
    }
    match checked_total(&chunks) {
        Some(total) => Some(CliOutputIndex { total, chunks }),
        None => None,
    }
}

/// The sum of the counts of index entries.
pub open spec fn entries_total(e: Seq<(Seq<char>, int)>) -> int
    decreases e.len(),
{
    if e.len() == 0 {
        0
    } else {
        entries_total(e.drop_last()) + e.last().1
    }
}

proof fn lemma_entries_total(c: Seq<CliChunkMeta>)
    ensures
        sum_counts(c) == entries_total(c.map_values(|m: CliChunkMeta| meta_view(m))),
    decreases c.len(),
{
    if c.len() > 0 {
        lemma_entries_total(c.drop_last());
        assert(c.map_values(|m: CliChunkMeta| meta_view(m)).drop_last() =~= c.drop_last().map_values(
            |m: CliChunkMeta| meta_view(m),
        ));
    }
}

/// Records one more line in the index and names the chunk file it goes to: the
/// last chunk while it holds fewer than [`CLI_OUTPUT_CHUNK_SIZE`] lines, a new
/// chunk otherwise.
pub fn record_line_append(index: &mut CliOutputIndex) -> (r: String)
    requires
        old(index).total < usize::MAX,
        old(index).chunks@.len() < usize::MAX,
    ensures
        final(index).total == old(index).total + 1,
        line_append_indexed(old(index).chunks@, final(index).chunks@),
        ({
            let old_chunks = old(index).chunks@;
            let n = old_chunks.len();
            if n > 0 && old_chunks[n - 1].count < CLI_OUTPUT_CHUNK_SIZE {
                &&& r == old_chunks[n - 1].file
                &&& final(index).chunks@ == old_chunks.update(
                    n - 1,
                    CliChunkMeta { count: (old_chunks[n - 1].count + 1) as usize, ..old_chunks[n - 1] },
                )
            } else {
                &&& r@ == chunk_file_name((n + 1) as nat)
                &&& final(index).chunks@.len() == n + 1
                &&& final(index).chunks@.take(n as int) == old_chunks
                &&& final(index).chunks@[n as int].file@ == r@
                &&& final(index).chunks@[n as int].count == 1
            }
        }),
{
    let n = index.chunks.len();
    let file = if n > 0 && index.chunks[n - 1].count < CLI_OUTPUT_CHUNK_SIZE {
        index.chunks[n - 1].count = index.chunks[n - 1].count + 1;
        proof {
            assert(index.chunks@ =~= old(index).chunks@.update(n - 1, index.chunks@[n - 1]));
        }
        index.chunks[n - 1].file.clone()
    } else {
        let file = next_chunk_file_name(n + 1);
        index.chunks.push(CliChunkMeta { file: file.clone(), count: 1 });
        proof {
            assert(index.chunks@.take(n as int) =~= old(index).chunks@);
        }
        file
    };
    index.total = index.total + 1;
    file
}

/// The index kept for an append after checking it against the disk: the last
/// chunk takes its actual line count `last_count`, and chunk files written after
/// it but missing from the index are added, where `following_counts[j]` is the
/// line count of file number `n + 1 + j` (`n` chunks indexed) and files with no
/// line are left out. Tells whether anything changed.
pub fn reconcile_index_tail(index: &mut CliOutputIndex, last_count: usize, following_counts: &Vec<usize>) -> (r: bool)
    requires
        old(index).chunks@.len() > 0,
        old(index).chunks@.len() + following_counts@.len() < usize::MAX,
    ensures
        ({
            let n = old(index).chunks@.len();
            let last = old(index).chunks@[n - 1];
            let updated = old(index).chunks@.update(n - 1, CliChunkMeta { count: last_count, ..last });
            let added = final(index).chunks@.skip(n as int);
            &&& final(index).chunks@.take(n as int) == updated
            &&& added.map_values(|m: CliChunkMeta| meta_view(m)) == Seq::new(
                following_counts@.len(),
                |j: int| (chunk_file_name((n + 1 + j) as nat), following_counts@[j] as int),
            ).filter(|e: (Seq<char>, int)| e.1 > 0)
            &&& r == (last.count != last_count || exists|j: int|
                0 <= j < following_counts@.len() && #[trigger] following_counts@[j] > 0)
            &&& final(index).total == old(index).total
        }),
{
    let n = index.chunks.len();
    let mut changed = false;
    if index.chunks[n - 1].count != last_count {
        index.chunks[n - 1].count = last_count;
        changed = true;
    }
    let ghost updated = index.chunks@;
    proof {
        assert(updated =~= old(index).chunks@.update(
            n - 1,
            CliChunkMeta { count: last_count, ..old(index).chunks@[n - 1] },
        ));
    }
    let ghost wanted = Seq::new(
        following_counts@.len(),
        |j: int| (chunk_file_name((n + 1 + j) as nat), following_counts@[j] as int),
    );
    let mut j: usize = 0;
    let ghost changed0 = changed;
    proof {
        assert(index.chunks@.skip(n as int) =~= Seq::<CliChunkMeta>::empty());
        assert(wanted.take(0) =~= Seq::<(Seq<char>, int)>::empty());
        reveal(Seq::filter);
    }
    while j < following_counts.len()
        invariant
            j <= following_counts.len(),
            n == old(index).chunks@.len(),
            n + following_counts@.len() < usize::MAX,
            index.chunks@.len() >= n,
            index.chunks@.take(n as int) == updated,
            index.total == old(index).total,
            wanted == Seq::new(
                following_counts@.len(),
                |j: int| (chunk_file_name((n + 1 + j) as nat), following_counts@[j] as int),
            ),
            index.chunks@.skip(n as int).map_values(|m: CliChunkMeta| meta_view(m)) == wanted.take(
                j as int,
            ).filter(|e: (Seq<char>, int)| e.1 > 0),
            changed == (changed0 || exists|i: int| 0 <= i < j && #[trigger] following_counts@[i] > 0),
        decreases following_counts.len() - j,
    {
        proof {
            reveal(Seq::filter);
            assert(wanted.take(j + 1).drop_last() =~= wanted.take(j as int));
            assert(wanted.take(j + 1).last() == wanted[j as int]);
        }
        if following_counts[j] > 0 {
            let file = next_chunk_file_name(n + 1 + j);
            let ghost before = index.chunks@;
            index.chunks.push(CliChunkMeta { file, count: following_counts[j] });
            proof {
                assert(index.chunks@.take(n as int) =~= before.take(n as int));
                assert(index.chunks@.skip(n as int) =~= before.skip(n as int).push(
                    index.chunks@[index.chunks@.len() - 1],
                ));
                assert(index.chunks@.skip(n as int).map_values(|m: CliChunkMeta| meta_view(m))
                    =~= before.skip(n as int).map_values(|m: CliChunkMeta| meta_view(m)).push(
                    wanted[j as int],
                ));
            }
            changed = true;
        }
        j = j + 1;
    }
    proof {
        assert(wanted.take(j as int) =~= wanted);
    }
    changed
}

/// Whether `r` is the index of a download's output once checked against the
/// disk, where it was `old`: with no chunk indexed, the chunk files found from
/// number 1 on (`counts_from(1)`) when there are any; otherwise the last chunk
/// takes its actual line count (`count_lines`) and the files written after it
/// (`counts_from(n + 1)`) are added, those with no line left out.
pub open spec fn output_index_on_disk<C, F>(count_lines: C, counts_from: F, old: Seq<CliChunkMeta>, r: Seq<CliChunkMeta>) -> bool where
    C: Fn(&String) -> Result<usize, AppError>,
    F: Fn(usize) -> Result<Vec<usize>, AppError>,
 {
    let n = old.len();
    if n == 0 {
        exists|counts: Vec<usize>|
            #![trigger call_ensures(counts_from, (1usize,), Ok::<Vec<usize>, AppError>(counts))]
            call_ensures(counts_from, (1usize,), Ok::<Vec<usize>, AppError>(counts)) && if chunks_from_counts(
                counts@,
            ).len() == 0 {
                r == old
            } else {
                r.map_values(|m: CliChunkMeta| meta_view(m)) == chunks_from_counts(counts@)
            }
    } else {
        exists|last: usize, following: Vec<usize>|
            #![trigger call_ensures(count_lines, (&old[n - 1].file,), Ok::<usize, AppError>(last)), call_ensures(counts_from, ((n + 1) as usize,), Ok::<Vec<usize>, AppError>(following))]
            {
                &&& call_ensures(count_lines, (&old[n - 1].file,), Ok::<usize, AppError>(last))
                &&& call_ensures(counts_from, ((n + 1) as usize,), Ok::<Vec<usize>, AppError>(following))
                &&& r.take(n as int) == old.update(n - 1, CliChunkMeta { count: last, ..old[n - 1] })
                &&& r.skip(n as int).map_values(|m: CliChunkMeta| meta_view(m)) == Seq::new(
                    following@.len(),
                    |j: int| (chunk_file_name((n + 1 + j) as nat), following@[j] as int),
                ).filter(|e: (Seq<char>, int)| e.1 > 0)
            }
    }
}

proof fn lemma_sum_counts_line_append(old: Seq<CliChunkMeta>, new: Seq<CliChunkMeta>)
    requires
        line_append_indexed(old, new),
    ensures
        sum_counts(new) == sum_counts(old) + 1,
{
    let n = old.len();
    if n > 0 && old[n - 1].count < CLI_OUTPUT_CHUNK_SIZE {
        assert(new.drop_last() =~= old.drop_last());
    } else {
        assert(new.drop_last() =~= new.take(n as int));
    }
}

/// Appends `line` to the saved output of a download whose index is `index`:
/// the index is first checked against the chunk files (`count_lines` counts
/// the lines of a file, `counts_from(k)` those of the files numbered `k` on),
/// then the line is indexed and written to its chunk file with `write_line`.
/// The first outside step that fails ends the append with its error; an index
/// whose numbers would not fit in a `usize` is refused.
pub fn append_output_line<C, F, W>(
    index: &mut CliOutputIndex,
    line: &String,
    count_lines: C,
    counts_from: F,
    write_line: W,
) -> (r: Result<(), AppError>) where
    C: Fn(&String) -> Result<usize, AppError>,
    F: Fn(usize) -> Result<Vec<usize>, AppError>,
    W: FnOnce(&String, &String) -> Result<(), AppError>,

    requires
        forall|f: &String| call_requires(count_lines, (f,)),
        forall|k: usize| call_requires(counts_from, (k,)),
        forall|f: &String, l: &String| call_requires(write_line, (f, l)),
    ensures
        ({
            let old_chunks = old(index).chunks@;
            let n = old_chunks.len();
            match r {
                Ok(_) => exists|reconciled: Seq<CliChunkMeta>, file: String|
                    #![trigger output_index_on_disk(count_lines, counts_from, old_chunks, reconciled), call_ensures(write_line, (&file, line), Ok::<(), AppError>(()))]
                    {
                        &&& output_index_on_disk(count_lines, counts_from, old_chunks, reconciled)
                        &&& line_append_indexed(reconciled, final(index).chunks@)
                        &&& final(index).total == sum_counts(final(index).chunks@)
                        &&& counts_fit(final(index).chunks@)
                        &&& final(index).chunks@.last().file@ == file@
                        &&& call_ensures(write_line, (&file, line), Ok::<(), AppError>(()))
                        &&& forall|c: Seq<Seq<String>>|
                            #[trigger] chunks_match(reconciled, c) ==> chunks_match(
                                final(index).chunks@,
                                lines_after_append(reconciled, c, *line),
                            ) && flat(lines_after_append(reconciled, c, *line)) == flat(c).push(*line)
                    },
                Err(e) => {
                    ||| exists|f: String| call_ensures(count_lines, (&f,), Err::<usize, AppError>(e))
                    ||| exists|k: usize| call_ensures(counts_from, (k,), Err::<Vec<usize>, AppError>(e))
                    ||| exists|f: String, l: String| call_ensures(write_line, (&f, &l), Err::<(), AppError>(e))
                    ||| (e matches AppError::Message(m) && m@ == "too many output chunks"@ && n > 0 && (n
                        == usize::MAX || exists|following: Vec<usize>|
                        call_ensures(counts_from, ((n + 1) as usize,), Ok::<Vec<usize>, AppError>(following))
                            && n + following@.len() >= usize::MAX))
                    ||| (e matches AppError::Message(m) && m@ == "cli output line count overflows"@ && ((n == 0
                        && exists|counts: Vec<usize>|
                        call_ensures(counts_from, (1usize,), Ok::<Vec<usize>, AppError>(counts))
                            && entries_total(chunks_from_counts(counts@)) > usize::MAX) || exists|
                        rc: Seq<CliChunkMeta>,
                    |
                        output_index_on_disk(count_lines, counts_from, old_chunks, rc) && (sum_counts(rc)
                            >= usize::MAX || rc.len() >= usize::MAX)))
                },
            }
        }),
{
    let ghost old_chunks = index.chunks@;
    let n = index.chunks.len();
    if n == 0 {
        let counts = match counts_from(1) {
            Ok(c) => c,
            Err(e) => {
                return Err(e);
            },
        };
        let recovered = match index_from_chunk_counts(&counts) {
            Some(r) => r,
            None => {
                return Err(AppError::Message("cli output line count overflows".to_string()));
            },
        };
        if recovered.chunks.len() > 0 {
            proof {
                assert(recovered.chunks@.map_values(|m: CliChunkMeta| meta_view(m)).len() == recovered.chunks@.len());
            }
            *index = recovered;
        } else {
            proof {
                assert(recovered.chunks@.map_values(|m: CliChunkMeta| meta_view(m)).len() == 0);
            }
        }
        proof {
            assert(output_index_on_disk(count_lines, counts_from, old_chunks, index.chunks@));
        }
    } else {
        let last = match count_lines(&index.chunks[n - 1].file) {
            Ok(c) => c,
            Err(e) => {
                return Err(e);
            },
        };
        if n == usize::MAX {
            return Err(AppError::Message("too many output chunks".to_string()));
        }
        let following = match counts_from(n + 1) {
            Ok(c) => c,
            Err(e) => {
                return Err(e);
            },
        };
        if following.len() >= usize::MAX - n {
            return Err(AppError::Message("too many output chunks".to_string()));
        }
        reconcile_index_tail(index, last, &following);
        proof {
            assert(output_index_on_disk(count_lines, counts_from, old_chunks, index.chunks@));
        }
    }
    let ghost reconciled = index.chunks@;
    let total = match checked_total(&index.chunks) {
        Some(t) => t,
        None => {
            return Err(AppError::Message("cli output line count overflows".to_string()));
        },
    };
    if total == usize::MAX || index.chunks.len() == usize::MAX {
        return Err(AppError::Message("cli output line count overflows".to_string()));
    }
    index.total = total;
    let file = record_line_append(index);
    match write_line(&file, line) {
        Ok(u) => {
            assert(u == ());
        },
        Err(e) => {
            return Err(e);
        },
    }
    proof {
        assert(index.chunks@.last().file@ == file@);
        assert forall|c: Seq<Seq<String>>| #[trigger] chunks_match(reconciled, c) implies chunks_match(
            index.chunks@,
            lines_after_append(reconciled, c, *line),
        ) && flat(lines_after_append(reconciled, c, *line)) == flat(c).push(*line) by {
            law_line_append_extends_output(reconciled, index.chunks@, c, *line);
        }
        lemma_sum_counts_line_append(reconciled, index.chunks@);
        assert(counts_fit(index.chunks@)) by {
            assert forall|k: int| 0 <= k <= index.chunks@.len() implies #[trigger] sum_counts(index.chunks@.take(k))
                <= usize::MAX by {
                lemma_sum_counts_monotone(index.chunks@, k, index.chunks@.len() as int);
                assert(index.chunks@.take(index.chunks@.len() as int) =~= index.chunks@);
            }
        }
    }
    Ok(())
}

// ---------------------------------------------------------------------------
// Pages
// ---------------------------------------------------------------------------

/// A page of saved output lines, as the output repository hands it out.
#[derive(Debug, Clone)]
pub struct TerminalOutputPage {
    pub lines: Vec<String>,
    pub offset: usize,
    pub total: usize,
    pub next_offset: usize,
    pub has_more_before: bool,
    pub has_more_after: bool,
}

/// The line a download is writing, when there is one.
#[derive(Debug, Clone, PartialEq, Eq)]
pub enum TerminalActiveLine {
    Present(String),
    Missing,
}

/// The window to read and the chunk slices that hold it.
#[derive(Debug, Clone)]
pub struct ReadPlan {
    pub window: OutputWindow,
    pub slices: Vec<ChunkSlice>,
}

impl ReadPlan {
    /// The page made of the lines read for this plan's slices, in order, where
    /// `loaded[k]` holds the lines of the chunk file of slice `k`.
    pub fn into_page(self, loaded: Vec<Vec<String>>) -> (r: Result<TerminalOutputPage, ReadRangeError>)
        requires
            loaded@.len() == self.slices@.len(),
            forall|k: int| 0 <= k < self.slices@.len() ==> #[trigger] self.slices@[k].local_start <= self.slices@[k].local_end,
        ensures
            ({
                let pv = self.slices@.map_values(|s: ChunkSlice| slice_view(s));
                let lv = loaded@.map_values(|v: Vec<String>| v@);
                match r {
                    Ok(page) => loaded_long_enough(pv, lv) && page.lines@ == collect(pv, lv)
                        && page.offset == self.window.start && page.total == self.window.total
                        && page.next_offset == self.window.end && page.has_more_before == (self.window.start > 0)
                        && page.has_more_after == (self.window.end < self.window.total),
                    Err(_) => !loaded_long_enough(pv, lv),
                }
            }),
    {
        let window = self.window;
        match assemble_range(&self.slices, loaded) {
            Ok(lines) => Ok(
                TerminalOutputPage {
                    lines,
                    offset: window.start,
                    total: window.total,
                    next_offset: window.end,
                    has_more_before: window.start > 0,
                    has_more_after: window.end < window.total,
                },
            ),
            Err(e) => {
                proof {
                    let pv = self.slices@.map_values(|s: ChunkSlice| slice_view(s));
                    let lv = loaded@.map_values(|v: Vec<String>| v@);
                    let k = choose|k: int|
                        0 <= k < self.slices@.len() && (forall|j: int|
                            0 <= j < k ==> self.slices@[j].local_end <= (#[trigger] loaded@[j])@.len())
                            && loaded@[k]@.len() < self.slices@[k].local_end;
                    assert(pv[k].2 > lv[k].len());
                }
                Err(e)
            },
        }
    }
}

pub fn cli_output_page_from_repository(page: TerminalOutputPage) -> (r: CliOutputPage)
    ensures
        r.lines == page.lines,
        r.offset == page.offset,
        r.total == page.total,
        r.next_offset == page.next_offset,
        r.has_more_before == page.has_more_before,
        r.has_more_after == page.has_more_after,
{
    CliOutputPage {
        lines: page.lines,
        offset: page.offset,
        total: page.total,
        next_offset: page.next_offset,
        has_more_before: page.has_more_before,
        has_more_after: page.has_more_after,
    }
}

/// The terminal view of a download from its last page and the line it is writing
/// (empty when none).
pub fn terminal_state(page: TerminalOutputPage, active: TerminalActiveLine) -> (r: CliTerminalState)
    ensures
        r.committed_lines == page.lines,
        r.offset == page.offset,
        r.total == page.total,
        r.has_more_before == page.has_more_before,
        match active {
            TerminalActiveLine::Present(line) => r.active_line == line,
            TerminalActiveLine::Missing => r.active_line@ == Seq::<char>::empty(),
        },
{
    let active_line = match active {
        TerminalActiveLine::Present(line) => line,
        TerminalActiveLine::Missing => String::new(),
    };
    CliTerminalState {
        committed_lines: page.lines,
        active_line,
        offset: page.offset,
        total: page.total,
        has_more_before: page.has_more_before,
    }
}

// ---------------------------------------------------------------------------
// The store
// ---------------------------------------------------------------------------

/// The value stored under `key` in a list of key/value pairs: the first pair
/// with that key wins.
pub open spec fn lookup(pairs: Seq<(String, String)>, key: Seq<char>) -> Option<Seq<char>>
    decreases pairs.len(),
{
    if pairs.len() == 0 {
        None
    } else if pairs[0].0@ == key {
        Some(pairs[0].1@)
    } else {
        lookup(pairs.drop_first(), key)
    }
}

/// The map that a list of key/value pairs stands for.
pub open spec fn pairs_map(pairs: Seq<(String, String)>) -> Map<Seq<char>, Seq<char>> {
    Map::new(|k: Seq<char>| lookup(pairs, k) is Some, |k: Seq<char>| lookup(pairs, k)->0)
}

proof fn lemma_lookup_skip(s: Seq<(String, String)>, key: Seq<char>, i: int)
    requires
        0 <= i <= s.len(),
        forall|j: int| 0 <= j < i ==> s[j].0@ != key,
    ensures
        lookup(s, key) == lookup(s.skip(i), key),
    decreases i,
{
    if i > 0 {
        assert(s.skip(1) =~= s.drop_first());
        lemma_lookup_skip(s.drop_first(), key, i - 1);
        assert(s.drop_first().skip(i - 1) =~= s.skip(i));
    } else {
        assert(s.skip(0) =~= s);
    }
}

proof fn lemma_lookup_update_value(s: Seq<(String, String)>, i: int, v: String, key: Seq<char>)
    requires
        0 <= i < s.len(),
        forall|j: int| 0 <= j < i ==> s[j].0@ != s[i].0@,
    ensures
        lookup(s.update(i, (s[i].0, v)), key) == if key == s[i].0@ {
            Some(v@)
        } else {
            lookup(s, key)
        },
    decreases s.len(),
{
    let t = s.update(i, (s[i].0, v));
    if i == 0 {
        assert(t.drop_first() =~= s.drop_first());
    } else {
        assert(t.drop_first() =~= s.drop_first().update(i - 1, (s[i].0, v)));
        assert(s.drop_first()[i - 1] == s[i]);
        lemma_lookup_update_value(s.drop_first(), i - 1, v, key);
    }
}

proof fn lemma_lookup_push(s: Seq<(String, String)>, p: (String, String), key: Seq<char>)
    requires
        lookup(s, p.0@) is None,
    ensures
        lookup(s.push(p), key) == if key == p.0@ {
            Some(p.1@)
        } else {
            lookup(s, key)
        },
    decreases s.len(),
{
    let t = s.push(p);
    if s.len() == 0 {
        assert(t[0] == p);
        assert(t.drop_first() =~= Seq::<(String, String)>::empty());
        assert(lookup(Seq::<(String, String)>::empty(), key) is None);
        assert(lookup(s, key) is None);
    } else {
        assert(t[0] == s[0]);
        assert(t.drop_first() =~= s.drop_first().push(p));
        assert(s[0].0@ != p.0@);
        assert(lookup(s.drop_first(), p.0@) is None);
        lemma_lookup_push(s.drop_first(), p, key);
        if s[0].0@ == key {
            assert(lookup(t, key) == Some(s[0].1@));
        } else {
            assert(lookup(t, key) == lookup(t.drop_first(), key));
            assert(lookup(s, key) == lookup(s.drop_first(), key));
        }
    }
}

/// The test "the key is not `key`".
pub open spec fn key_differs(key: Seq<char>) -> spec_fn((String, String)) -> bool {
    |p: (String, String)| p.0@ != key
}

proof fn lemma_lookup_filter(s: Seq<(String, String)>, key: Seq<char>, k: Seq<char>)
    ensures
        lookup(s.filter(key_differs(key)), k) == if k == key {
            None
        } else {
            lookup(s, k)
        },
    decreases s.len(),
{
    reveal(Seq::filter);
    if s.len() > 0 {
        let f = key_differs(key);
        lemma_lookup_filter(s.drop_first(), key, k);
        lemma_filter_front(s, f);
        if f(s[0]) {
            assert((seq![s[0]] + s.drop_first().filter(f)).drop_first() =~= s.drop_first().filter(f));
        }
    }
}

proof fn lemma_filter_front(s: Seq<(String, String)>, f: spec_fn((String, String)) -> bool)
    requires
        s.len() > 0,
    ensures
        s.filter(f) == if f(s[0]) {
            seq![s[0]] + s.drop_first().filter(f)
        } else {
            s.drop_first().filter(f)
        },
{
    assert(s =~= seq![s[0]] + s.drop_first());
    Seq::filter_distributes_over_add(seq![s[0]], s.drop_first(), f);
    reveal(Seq::filter);
    assert(seq![s[0]].drop_last() =~= Seq::<(String, String)>::empty());
    assert(Seq::<(String, String)>::empty().filter(f) =~= Seq::<(String, String)>::empty());
    assert(seq![s[0]].last() == s[0]);
    if f(s[0]) {
        assert(seq![s[0]].filter(f) =~= seq![s[0]]);
    } else {
        assert(seq![s[0]].filter(f) =~= Seq::<(String, String)>::empty());
    }
}

/// Where the output of the downloads is saved, and the line each download is
/// writing right now.
pub struct CliOutputStore {
    base_path: String,
    active_lines: Vec<(String, String)>,
}

impl CliOutputStore {
    /// The directory that holds the saved output.
    pub closed spec fn base_path_view(&self) -> Seq<char> {
        self.base_path@
    }

    /// The line each download is writing, by download id.
    pub closed spec fn active_lines(&self) -> Map<Seq<char>, Seq<char>> {
        pairs_map(self.active_lines@)
    }

    pub fn new(base_path: String) -> (r: CliOutputStore)
        ensures
            r.base_path_view() == base_path@,
            r.active_lines() == Map::<Seq<char>, Seq<char>>::empty(),
    {
        let r = CliOutputStore { base_path, active_lines: Vec::new() };
        proof {
            assert(pairs_map(r.active_lines@) =~= Map::<Seq<char>, Seq<char>>::empty());
        }
        r
    }

    pub fn base_path(&self) -> (r: &str)
        ensures
            r@ == self.base_path_view(),
    {
        self.base_path.as_str()
    }

    fn position_of_key(&self, task_id: &str) -> (r: Option<usize>)
        ensures
            match r {
                Some(i) => i < self.active_lines@.len() && self.active_lines@[i as int].0@ == task_id@
                    && forall|j: int| 0 <= j < i ==> self.active_lines@[j].0@ != task_id@,
                None => forall|j: int|
                    0 <= j < self.active_lines@.len() ==> self.active_lines@[j].0@ != task_id@,
            },
    {
        let mut i: usize = 0;
        while i < self.active_lines.len()
            invariant
                i <= self.active_lines.len(),
                forall|j: int| 0 <= j < i ==> self.active_lines@[j].0@ != task_id@,
            decreases self.active_lines.len() - i,
        {
            if str_eq(self.active_lines[i].0.as_str(), task_id) {
                return Some(i);
            }
            i = i + 1;
        }
        None
    }

    /// Records `line` as the line download `task_id` is writing.
    pub fn set_active_line(&mut self, task_id: &str, line: String)
        ensures
            final(self).active_lines() == old(self).active_lines().insert(task_id@, line@),
            final(self).base_path_view() == old(self).base_path_view(),
    {
        let ghost s = self.active_lines@;
        let ghost lv = line@;
        match self.position_of_key(task_id) {
            Some(i) => {
                let key = self.active_lines[i].0.clone();
                let ghost v = line;
                self.active_lines.set(i, (key, line));
                proof {
                    assert forall|k: Seq<char>| #[trigger] lookup(self.active_lines@, k) == if k
                        == task_id@ {
                        Some(lv)
                    } else {
                        lookup(s, k)
                    } by {
                        lemma_lookup_update_value(s, i as int, v, k);
                        assert(self.active_lines@ =~= s.update(i as int, (s[i as int].0, v)));
                    }
                }
            },
            None => {
                proof {
                    lemma_lookup_skip(s, task_id@, s.len() as int);
                    assert(s.skip(s.len() as int) =~= Seq::<(String, String)>::empty());
                }
                self.active_lines.push((owned(task_id), line));
                proof {
                    assert forall|k: Seq<char>| #[trigger] lookup(self.active_lines@, k) == if k
                        == task_id@ {
                        Some(lv)
                    } else {
                        lookup(s, k)
                    } by {
                        lemma_lookup_push(s, self.active_lines@.last(), k);
                        assert(self.active_lines@ =~= s.push(self.active_lines@.last()));
                    }
                }
            },
        }
        proof {
            assert(pairs_map(self.active_lines@) =~= pairs_map(s).insert(task_id@, lv));
        }
    }

    /// Forgets the line download `task_id` was writing.
    pub fn clear_active_line(&mut self, task_id: &str)
        ensures
            final(self).active_lines() == old(self).active_lines().remove(task_id@),
            final(self).base_path_view() == old(self).base_path_view(),
    {
        let ghost s = self.active_lines@;
        let mut kept: Vec<(String, String)> = Vec::new();
        let mut i: usize = 0;
        while i < self.active_lines.len()
            invariant
                i <= self.active_lines.len(),
                self.active_lines@ == s,
                kept@ == s.take(i as int).filter(key_differs(task_id@)),
            decreases self.active_lines.len() - i,
        {
            proof {
                reveal(Seq::filter);
                assert(s.take(i + 1).drop_last() =~= s.take(i as int));
            }
            if !str_eq(self.active_lines[i].0.as_str(), task_id) {
                let pair = (self.active_lines[i].0.clone(), self.active_lines[i].1.clone());
                kept.push(pair);
            }
            i = i + 1;
        }
        proof {
            assert(s.take(s.len() as int) =~= s);
            assert forall|k: Seq<char>| #[trigger] lookup(kept@, k) == if k == task_id@ {
                None
            } else {
                lookup(s, k)
            } by {
                lemma_lookup_filter(s, task_id@, k);
            }
            assert(pairs_map(kept@) =~= pairs_map(s).remove(task_id@));
        }
        self.active_lines = kept;
    }

    /// The line download `task_id` is writing, when one is recorded.
    pub fn get_active_line(&self, task_id: &str) -> (r: Option<String>)
        ensures
            match r {
                Some(line) => self.active_lines().contains_key(task_id@) && line@
                    == self.active_lines()[task_id@],
                None => !self.active_lines().contains_key(task_id@),
            },
    {
        let ghost s = self.active_lines@;
        match self.position_of_key(task_id) {
            Some(i) => {
                proof {
                    lemma_lookup_skip(s, task_id@, i as int);
                    assert(s.skip(i as int)[0] == s[i as int]);
                }
                Some(self.active_lines[i].1.clone())
            },
            None => {
                proof {
                    lemma_lookup_skip(s, task_id@, s.len() as int);
                    assert(s.skip(s.len() as int) =~= Seq::<(String, String)>::empty());
                }
                None
            },
        }
    }

    /// The plan for reading a page: the window from `offset` with the normalized
    /// `limit`, and the chunk slices that hold it.
    pub fn page(&self, index: &CliOutputIndex, offset: usize, limit: usize) -> (r: ReadPlan)
        requires
            counts_fit(index.chunks@),
        ensures
            (r.window.start as int, r.window.end as int) == page_window_spec(
                index.total as nat,
                offset as nat,
                limit as nat,
            ),
            r.window.total == index.total,
            r.slices@.map_values(|s: ChunkSlice| slice_view(s)) == read_plan(
                index.chunks@,
                r.window.start as int,
                r.window.end as int,
            ),
            forall|i: int|
                0 <= i < r.slices@.len() ==> #[trigger] r.slices@[i].chunk_index < index.chunks@.len()
                    && r.slices@[i].file == index.chunks@[r.slices@[i].chunk_index as int].file,
    {
        let window = page_window(index.total, offset, limit);
        let slices = plan_read_range(index, window.start, window.end);
        ReadPlan { window, slices }
    }

    /// The plan for reading the last lines: the window of at most the normalized
    /// `limit` lines ending at the total, and the chunk slices that hold it.
    pub fn tail(&self, index: &CliOutputIndex, limit: usize) -> (r: ReadPlan)
        requires
            counts_fit(index.chunks@),
        ensures
            (r.window.start as int, r.window.end as int) == tail_window_spec(
                index.total as nat,
                limit as nat,
            ),
            r.window.total == index.total,
            r.slices@.map_values(|s: ChunkSlice| slice_view(s)) == read_plan(
                index.chunks@,
                r.window.start as int,
                r.window.end as int,
            ),
            forall|i: int|
                0 <= i < r.slices@.len() ==> #[trigger] r.slices@[i].chunk_index < index.chunks@.len()
                    && r.slices@[i].file == index.chunks@[r.slices@[i].chunk_index as int].file,
    {
        let window = tail_window(index.total, limit);
        let slices = plan_read_range(index, window.start, window.end);
        ReadPlan { window, slices }
    }
}

} // verus!
