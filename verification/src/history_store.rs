//! The history of finished tasks: per status, tasks kept in numbered chunk
//! files of [`HISTORY_CHUNK_SIZE`] with an index of their counts, read back
//! newest first.
use vstd::prelude::*;
use crate::app_error::AppError;
use crate::models::{
    find_task_position, first_task_with_id, lemma_task_position, task_id_differs, task_position,
    history_status_of, not_finished_message, HistoryPage, HistoryStatus, Task,
};
use crate::text::{
    char_vec, lemma_decimal_digits_are_digits, lemma_digits_value_leading_zeros,
    parse_usize, parse_usize_spec, push_char, push_zero_padded, str_eq, string_from_chars,
    unsigned_digits, decimal_digits, zero_padded, trim_seq, trim_str,
};

verus! {

broadcast use vstd::string::group_string_axioms;

/// Tasks per chunk file.
pub const HISTORY_CHUNK_SIZE: usize = 10;

/// The storage format this code writes; other stored history is discarded.
pub open spec fn history_format_version() -> Seq<char> {
    "2"@
}

/// The text of the format marker file this code writes.
pub fn format_version() -> (r: &'static str)
    ensures
        r@ == history_format_version(),
{
    "2"
}

/// Whether a format marker file with content `content` marks the current format.
pub fn is_current_format(content: &str) -> (r: bool)
    ensures
        r == (trim_seq(content@) == history_format_version()),
{
    str_eq(trim_str(content), format_version())
}

/// Whether the stored history is kept, given the content of its format marker
/// file (`None` when there is none): only a store marked with this code's
/// format is kept; an unmarked or differently marked one is discarded.
pub fn keeps_stored_history(marker: Option<&str>) -> (r: bool)
    ensures
        r == (marker matches Some(m) && trim_seq(m@) == history_format_version()),
{
    match marker {
        Some(m) => is_current_format(m),
        None => false,
    }
}

/// One chunk file and the number of tasks it holds.
#[derive(Debug, Clone)]
pub struct HistoryChunkMeta {
    pub file: String,
    pub count: usize,
}

/// The chunk files of one status, oldest first, and their total task count.
#[derive(Debug, Clone)]
pub struct HistoryIndex {
    pub total: usize,
    pub chunks: Vec<HistoryChunkMeta>,
}

/// The sum of the task counts of `chunks`.
pub open spec fn sum_counts(chunks: Seq<HistoryChunkMeta>) -> int
    decreases chunks.len(),
{
    if chunks.len() == 0 {
        0
    } else {
        sum_counts(chunks.drop_last()) + chunks.last().count
    }
}

proof fn lemma_sum_counts_take_step(chunks: Seq<HistoryChunkMeta>, k: int)
    requires
        0 <= k < chunks.len(),
    ensures
        sum_counts(chunks.take(k + 1)) == sum_counts(chunks.take(k)) + chunks[k].count,
{
    assert(chunks.take(k + 1).drop_last() =~= chunks.take(k));
}

proof fn lemma_sum_counts_monotone(chunks: Seq<HistoryChunkMeta>, i: int, j: int)
    requires
        0 <= i <= j <= chunks.len(),
    ensures
        sum_counts(chunks.take(i)) <= sum_counts(chunks.take(j)),
    decreases j - i,
{
    if i < j {
        lemma_sum_counts_monotone(chunks, i, j - 1);
        lemma_sum_counts_take_step(chunks, j - 1);
    }
}

/// The sum of the task counts of `chunks`, when it fits in a `usize`.
pub fn checked_total(chunks: &Vec<HistoryChunkMeta>) -> (r: Option<usize>)
    ensures
        r matches Some(t) ==> t == sum_counts(chunks@),
        r is None ==> sum_counts(chunks@) > usize::MAX,
{
    let mut total: usize = 0;
    let mut k: usize = 0;
    proof {
        assert(chunks@.take(0) =~= Seq::<HistoryChunkMeta>::empty());
    }
    while k < chunks.len()
        invariant
            k <= chunks.len(),
            total == sum_counts(chunks@.take(k as int)),
        decreases chunks.len() - k,
    {
        proof {
            lemma_sum_counts_take_step(chunks@, k as int);
        }
        if chunks[k].count > usize::MAX - total {
            proof {
                lemma_sum_counts_monotone(chunks@, k + 1, chunks@.len() as int);
                assert(chunks@.take(chunks@.len() as int) =~= chunks@);
            }
            return None;
        }
        total = total + chunks[k].count;
        k = k + 1;
    }
    proof {
        assert(chunks@.take(chunks@.len() as int) =~= chunks@);
    }
    Some(total)
}

/// The name of chunk file number `n`: the number in six or more digits, then `.json`.
pub open spec fn chunk_file_name(n: nat) -> Seq<char> {
    zero_padded(n, 6) + ".json"@
}

pub fn next_chunk_file_name(chunk_number: usize) -> (r: String)
    ensures
        r@ == chunk_file_name(chunk_number as nat),
{
    let mut s = String::new();
    push_zero_padded(&mut s, chunk_number, 6);
    let ghost digits = s@;
    push_char(&mut s, '.');
    push_char(&mut s, 'j');
    push_char(&mut s, 's');
    push_char(&mut s, 'o');
    push_char(&mut s, 'n');
    proof {
        reveal_strlit(".json");
        assert(s@ =~= digits + ".json"@);
    }
    s
}

/// The chunk number a file name stands for: the name must end in `.json`, and
/// what comes before must read as a `usize` the way `str::parse` reads it.
pub open spec fn chunk_number_of(name: Seq<char>) -> Option<nat> {
    let n = name.len();
    if n >= 5 && name.subrange(n - 5, n as int) == ".json"@ {
        parse_usize_spec(name.subrange(0, n - 5))
    } else {
        None
    }
}

pub fn parse_chunk_number(file_name: &str) -> (r: Option<usize>)
    ensures
        match r {
            Some(v) => chunk_number_of(file_name@) == Some(v as nat),
            None => chunk_number_of(file_name@) is None,
        },
{
    let chars = char_vec(file_name);
    let n = chars.len();
    proof {
        reveal_strlit(".json");
    }
    if n < 5 || chars[n - 5] != '.' || chars[n - 4] != 'j' || chars[n - 3] != 's' || chars[n - 2]
        != 'o' || chars[n - 1] != 'n' {
        proof {
            if n >= 5 && file_name@.subrange(n - 5, n as int) == ".json"@ {
                assert(file_name@.subrange(n - 5, n as int)[0] == file_name@[n - 5]);
                assert(file_name@.subrange(n - 5, n as int)[1] == file_name@[n - 4]);
                assert(file_name@.subrange(n - 5, n as int)[2] == file_name@[n - 3]);
                assert(file_name@.subrange(n - 5, n as int)[3] == file_name@[n - 2]);
                assert(file_name@.subrange(n - 5, n as int)[4] == file_name@[n - 1]);
            }
        }
        return None;
    }
    proof {
        assert(file_name@.subrange(n - 5, n as int) =~= ".json"@);
    }
    let mut head: Vec<char> = Vec::new();
    let mut i: usize = 0;
    while i < n - 5
        invariant
            i <= n - 5,
            n == chars@.len(),
            n >= 5,
            chars@ == file_name@,
            head@ == file_name@.subrange(0, i as int),
        decreases n - 5 - i,
    {
        head.push(chars[i]);
        proof {
            assert(file_name@.subrange(0, i as int).push(file_name@[i as int]) =~= file_name@.subrange(
                0,
                i + 1,
            ));
        }
        i = i + 1;
    }
    let stem = string_from_chars(&head);
    parse_usize(stem.as_str())
}

/// File names written by this store read back as the number they were made from.
pub proof fn law_chunk_file_name_round_trip(n: nat)
    requires
        n <= usize::MAX,
    ensures
        chunk_number_of(chunk_file_name(n)) == Some(n),
{
    reveal_strlit(".json");
    let z = zero_padded(n, 6);
    let name = chunk_file_name(n);
    assert(name.subrange(name.len() - 5, name.len() as int) =~= ".json"@);
    assert(name.subrange(0, name.len() - 5) =~= z);
    lemma_decimal_digits_are_digits(n);
    let d = decimal_digits(n);
    if d.len() < 6 {
        let k = (6 - d.len()) as nat;
        lemma_digits_value_leading_zeros(k, d);
        assert forall|i: int| 0 <= i < z.len() implies crate::text::is_ascii_digit(#[trigger] z[i]) by {
            if i >= k {
                assert(z[i] == d[i - k]);
            }
        }
        assert(z[0] == '0');
    }
    assert(z.len() >= 1);
    assert(z[0] != '+') by {
        if d.len() >= 6 {
            assert(crate::text::is_ascii_digit(d[0]));
        }
    }
    assert(unsigned_digits(z) == z);
}

/// The number of the chunk file that follows the last indexed one: one past the
/// number of the last file's name, or 1 when there is no chunk or its name is
/// not a number.
pub open spec fn next_chunk_number_spec(chunks: Seq<HistoryChunkMeta>) -> nat {
    if chunks.len() > 0 {
        match chunk_number_of(chunks.last().file@) {
            Some(v) => v + 1,
            None => 1,
        }
    } else {
        1
    }
}

pub fn next_chunk_number(index: &HistoryIndex) -> (r: usize)
    requires
        next_chunk_number_spec(index.chunks@) <= usize::MAX,
    ensures
        r as nat == next_chunk_number_spec(index.chunks@),
{
    let n = index.chunks.len();
    if n > 0 {
        match parse_chunk_number(index.chunks[n - 1].file.as_str()) {
            Some(v) => v + 1,
            None => 1,
        }
    } else {
        1
    }
}

/// Whether the chunk number after the last indexed chunk fits in a `usize`.
pub fn next_chunk_number_fits(index: &HistoryIndex) -> (r: bool)
    ensures
        r == (next_chunk_number_spec(index.chunks@) <= usize::MAX),
{
    let n = index.chunks.len();
    if n > 0 {
        match parse_chunk_number(index.chunks[n - 1].file.as_str()) {
            Some(v) => v < usize::MAX,
            None => true,
        }
    } else {
        true
    }
}

/// Sets the count of the last chunk to the number of tasks actually in its file
/// and recomputes the total. Returns `false`, changing nothing, when the total
/// would not fit in a `usize`.
pub fn reconcile_last_chunk(index: &mut HistoryIndex, actual_len: usize) -> (r: bool)
    requires
        old(index).chunks@.len() > 0,
    ensures
        ({
            let n = old(index).chunks@.len();
            let updated = old(index).chunks@.update(
                n - 1,
                HistoryChunkMeta { count: actual_len, ..old(index).chunks@[n - 1] },
            );
            &&& r == (sum_counts(updated) <= usize::MAX)
            &&& r ==> final(index).chunks@ == updated && final(index).total == sum_counts(updated)
            &&& !r ==> final(index).chunks@ == old(index).chunks@ && final(index).total == old(index).total
        }),
{
    let n = index.chunks.len();
    let previous = index.chunks[n - 1].count;
    index.chunks[n - 1].count = actual_len;
    proof {
        assert(index.chunks@ =~= old(index).chunks@.update(n - 1, index.chunks@[n - 1]));
    }
    match checked_total(&index.chunks) {
        Some(total) => {
            index.total = total;
            true
        },
        None => {
            index.chunks[n - 1].count = previous;
            proof {
                assert(index.chunks@ =~= old(index).chunks@);
            }
            false
        },
    }
}

/// Picks the chunk file the next task goes to: the last chunk while it holds
/// fewer than [`HISTORY_CHUNK_SIZE`] tasks, otherwise a new, empty chunk numbered
/// after the last, added to the index (`000001.json` when there is none).
pub fn plan_history_append(index: &mut HistoryIndex) -> (r: String)
    requires
        next_chunk_number_spec(old(index).chunks@) <= usize::MAX,
    ensures
        final(index).total == old(index).total,
        ({
            let c = old(index).chunks@;
            let n = c.len();
            if n > 0 && c[n - 1].count < HISTORY_CHUNK_SIZE {
                r == c[n - 1].file && final(index).chunks@ == c
            } else {
                &&& r@ == chunk_file_name(next_chunk_number_spec(c))
                &&& final(index).chunks@.len() == n + 1
                &&& final(index).chunks@.take(n as int) == c
                &&& final(index).chunks@[n as int].file@ == r@
                &&& final(index).chunks@[n as int].count == 0
            }
        }),
{
    let n = index.chunks.len();
    if n > 0 && index.chunks[n - 1].count < HISTORY_CHUNK_SIZE {
        return index.chunks[n - 1].file.clone();
    }
    let number = next_chunk_number(index);
    let file = next_chunk_file_name(number);
    index.chunks.push(HistoryChunkMeta { file: file.clone(), count: 0 });
    proof {
        assert(index.chunks@.take(n as int) =~= old(index).chunks@);
    }
    file
}

/// The position of the first chunk stored in file `file`.
pub open spec fn first_chunk_with_file(c: Seq<HistoryChunkMeta>, file: Seq<char>, i: int) -> bool {
    &&& 0 <= i < c.len()
    &&& c[i].file@ == file
    &&& forall|j: int| 0 <= j < i ==> c[j].file@ != file
}

/// The chunk list `c` with the first chunk stored in `file` counting `count`
/// tasks; `c` itself when no chunk is stored there.
pub open spec fn with_chunk_count(c: Seq<HistoryChunkMeta>, file: Seq<char>, count: usize) -> Seq<HistoryChunkMeta> {
    if exists|i: int| first_chunk_with_file(c, file, i) {
        let i = choose|i: int| first_chunk_with_file(c, file, i);
        c.update(i, HistoryChunkMeta { count: count, ..c[i] })
    } else {
        c
    }
}

/// Records that chunk file `file` now holds `new_len` tasks and recomputes the
/// total. Returns `false`, changing nothing, when the total would not fit.
pub fn record_history_append(index: &mut HistoryIndex, file: &str, new_len: usize) -> (r: bool)
    ensures
        ({
            let c = old(index).chunks@;
            let updated = with_chunk_count(c, file@, new_len);
            &&& r == (sum_counts(updated) <= usize::MAX)
            &&& r ==> final(index).chunks@ == updated && final(index).total == sum_counts(updated)
            &&& !r ==> final(index).chunks@ == c && final(index).total == old(index).total
        }),
{
    let ghost c = index.chunks@;
    let mut i: usize = 0;
    while i < index.chunks.len()
        invariant
            i <= index.chunks.len(),
            index.chunks@ == c,
            index.total == old(index).total,
            c == old(index).chunks@,
            forall|j: int| 0 <= j < i ==> c[j].file@ != file@,
        ensures
            index.chunks@ == c,
            index.total == old(index).total,
            i <= index.chunks.len(),
            forall|j: int| 0 <= j < i ==> c[j].file@ != file@,
            i < index.chunks.len() ==> c[i as int].file@ == file@,
        decreases index.chunks.len() - i,
    {
        if str_eq(index.chunks[i].file.as_str(), file) {
            break;
        }
        i = i + 1;
    }
    let mut previous: usize = 0;
    if i < index.chunks.len() {
        proof {
            assert(first_chunk_with_file(c, file@, i as int));
            let k = choose|k: int| first_chunk_with_file(c, file@, k);
            if k < i {
                assert(c[k].file@ != file@);
            }
            if i < k {
                assert(c[i as int].file@ != file@);
            }
        }
        previous = index.chunks[i].count;
        index.chunks[i].count = new_len;
        proof {
            assert(index.chunks@ =~= c.update(i as int, HistoryChunkMeta { count: new_len, ..c[i as int] }));
        }
    }
    match checked_total(&index.chunks) {
        Some(total) => {
            index.total = total;
            true
        },
        None => {
            if i < index.chunks.len() {
                index.chunks[i].count = previous;
                proof {
                    assert(index.chunks@ =~= c);
                }
            }
            false
        },
    }
}

/// The tasks of a chunk without those with id `id`, and whether any was dropped.
pub fn remove_from_chunk(tasks: Vec<Task>, id: &str) -> (r: (Vec<Task>, bool))
    ensures
        r.0@ == tasks@.filter(task_id_differs(id@)),
        r.1 == (r.0@.len() != tasks@.len()),
        r.1 == exists|j: int| 0 <= j < tasks@.len() && #[trigger] tasks@[j].id@ == id@,
{
    let mut kept: Vec<Task> = Vec::new();
    let mut i: usize = 0;
    while i < tasks.len()
        invariant
            i <= tasks.len(),
            kept@ == tasks@.take(i as int).filter(task_id_differs(id@)),
            (kept@.len() == i) == forall|j: int| 0 <= j < i ==> tasks@[j].id@ != id@,
            kept@.len() <= i,
        decreases tasks.len() - i,
    {
        proof {
            reveal(Seq::filter);
            assert(tasks@.take(i + 1).drop_last() =~= tasks@.take(i as int));
            tasks@.take(i as int).lemma_filter_len(task_id_differs(id@));
        }
        if !str_eq(tasks[i].id.as_str(), id) {
            kept.push(tasks[i].duplicate());
        }
        i = i + 1;
    }
    proof {
        assert(tasks@.take(tasks@.len() as int) =~= tasks@);
    }
    let removed = kept.len() != tasks.len();
    (kept, removed)
}

/// The index after task removal left `remaining` tasks in chunk `chunk_index`:
/// an emptied chunk leaves the index, another keeps its new count; the total is
/// recomputed. Returns `false`, changing nothing, when the total would not fit.
pub fn index_after_chunk_removal(index: &mut HistoryIndex, chunk_index: usize, remaining: usize) -> (r:
    bool)
    requires
        chunk_index < old(index).chunks@.len(),
    ensures
        ({
            let c = old(index).chunks@;
            let updated = if remaining == 0 {
                c.remove(chunk_index as int)
            } else {
                c.update(chunk_index as int, HistoryChunkMeta { count: remaining, ..c[chunk_index as int] })
            };
            &&& r == (sum_counts(updated) <= usize::MAX)
            &&& r ==> final(index).chunks@ == updated && final(index).total == sum_counts(updated)
            &&& !r ==> final(index).chunks@ == c && final(index).total == old(index).total
        }),
{
    let ghost c = index.chunks@;
    if remaining == 0 {
        let removed = index.chunks.remove(chunk_index);
        match checked_total(&index.chunks) {
            Some(total) => {
                index.total = total;
                true
            },
            None => {
                index.chunks.insert(chunk_index, removed);
                proof {
                    assert(index.chunks@ =~= c);
                }
                false
            },
        }
    } else {
        let previous = index.chunks[chunk_index].count;
        index.chunks[chunk_index].count = remaining;
        proof {
            assert(index.chunks@ =~= c.update(
                chunk_index as int,
                HistoryChunkMeta { count: remaining, ..c[chunk_index as int] },
            ));
        }
        match checked_total(&index.chunks) {
            Some(total) => {
                index.total = total;
                true
            },
            None => {
                index.chunks[chunk_index].count = previous;
                proof {
                    assert(index.chunks@ =~= c);
                }
                false
            },
        }
    }
}


/// The tasks a page shows of the tasks `s`, newest first: at most `limit`
/// of them, from position `offset` on.
pub open spec fn page_window(s: Seq<Task>, offset: nat, limit: nat) -> Seq<Task> {
    let start = if offset <= s.len() { offset } else { s.len() };
    let end = if offset + limit <= s.len() { offset + limit } else { s.len() };
    s.subrange(start as int, end as int)
}

proof fn lemma_page_window_prefix(s: Seq<Task>, m: int, offset: nat, limit: nat)
    requires
        offset + limit <= m <= s.len(),
    ensures
        page_window(s.take(m), offset, limit) == page_window(s, offset, limit),
{
    assert(page_window(s.take(m), offset, limit) =~= page_window(s, offset, limit));
}

/// A page of history being read: chunks are handed over newest first, and
/// the page takes their tasks, newest first, skipping the first `offset` and
/// stopping after `limit`.
pub struct HistoryPageCursor {
    offset: usize,
    limit: usize,
    total: usize,
    remaining_skip: usize,
    tasks: Vec<Task>,
    seen: Ghost<Seq<Task>>,
}

/// What a page request needs first: an answer at once, or chunks to read.
pub enum HistoryPageStart {
    /// The page, known without reading any chunk.
    Done(HistoryPage),
    /// Chunks are to be read, newest first, and handed to the cursor.
    Reading(HistoryPageCursor),
}

impl HistoryPageCursor {
    /// The first task position the page shows.
    pub closed spec fn offset(&self) -> nat {
        self.offset as nat
    }

    /// The most tasks the page shows.
    pub closed spec fn limit(&self) -> nat {
        self.limit as nat
    }

    /// The number of tasks the index counts.
    pub closed spec fn total(&self) -> nat {
        self.total as nat
    }

    /// The tasks handed over so far, newest first.
    pub closed spec fn seen(&self) -> Seq<Task> {
        self.seen@
    }

    /// The tasks the page has taken so far.
    pub closed spec fn taken(&self) -> Seq<Task> {
        self.tasks@
    }

    pub closed spec fn wf(&self) -> bool {
        &&& self.limit > 0
        &&& self.tasks@ == page_window(self.seen@, self.offset as nat, self.limit as nat)
        &&& self.remaining_skip == (if self.seen@.len() >= self.offset {
            0
        } else {
            self.offset - self.seen@.len()
        })
    }

    /// Whether the page is full, so that no further chunk need be read.
    pub closed spec fn full(&self) -> bool {
        self.tasks@.len() >= self.limit
    }

    /// Starts a page of at most `limit` tasks from position `offset` of a
    /// history whose index counts `total` tasks. With no room (`limit` 0) or an
    /// offset past the end, the page is empty and its next offset is `offset`.
    pub fn start(offset: usize, limit: usize, total: usize) -> (r: HistoryPageStart)
        ensures
            (limit == 0 || offset >= total) <==> r is Done,
            r matches HistoryPageStart::Done(p) ==> p.tasks@.len() == 0 && !p.has_more
                && p.next_offset == offset,
            r matches HistoryPageStart::Reading(c) ==> {
                &&& c.wf()
                &&& c.offset() == offset
                &&& c.limit() == limit
                &&& c.total() == total
                &&& c.seen() == Seq::<Task>::empty()
                &&& !c.full()
            },
    {
        if limit == 0 || offset >= total {
            return HistoryPageStart::Done(
                HistoryPage { tasks: Vec::new(), has_more: false, next_offset: offset },
            );
        }
        let c = HistoryPageCursor {
            offset,
            limit,
            total,
            remaining_skip: offset,
            tasks: Vec::new(),
            seen: Ghost(Seq::empty()),
        };
        proof {
            assert(c.tasks@ =~= page_window(c.seen@, offset as nat, limit as nat));
        }
        HistoryPageStart::Reading(c)
    }

    /// How many tasks the page has taken so far.
    pub fn taken_count(&self) -> (r: usize)
        ensures
            r == self.taken().len(),
    {
        self.tasks.len()
    }

    /// The first task position the page shows.
    pub fn start_offset(&self) -> (r: usize)
        ensures
            r == self.offset(),
    {
        self.offset
    }

    /// Whether the page is full, so that no further chunk need be read.
    pub fn is_full(&self) -> (r: bool)
        requires
            self.wf(),
        ensures
            r == self.full(),
    {
        self.tasks.len() >= self.limit
    }

    /// Takes the tasks of the next chunk, as stored (oldest first); the page
    /// reads them newest first.
    pub fn feed_chunk(&mut self, chunk: Vec<Task>)
        requires
            old(self).wf(),
        ensures
            final(self).wf(),
            final(self).offset() == old(self).offset(),
            final(self).limit() == old(self).limit(),
            final(self).total() == old(self).total(),
            final(self).seen() == old(self).seen() + chunk@.reverse(),
            final(self).full() == (final(self).seen().len() >= final(self).offset() + final(self).limit()),
    {
        let ghost before = self.seen@;
        let ghost r = chunk@.reverse();
        let ghost n = chunk@.len();
        let mut chunk = chunk;
        let ghost original = chunk@;
        proof {
            assert(before + r.take(0) =~= before);
        }
        while chunk.len() > 0 && self.tasks.len() < self.limit
            invariant
                self.limit > 0,
                self.offset == old(self).offset,
                self.limit == old(self).limit,
                self.total == old(self).total,
                self.seen@ == before,
                before == old(self).seen@,
                r == original.reverse(),
                n == original.len(),
                chunk@ == original.take(chunk@.len() as int),
                chunk@.len() <= n,
                self.tasks@ == page_window(before + r.take(n - chunk@.len()), self.offset as nat, self.limit as nat),
                self.remaining_skip == (if before.len() + (n - chunk@.len()) >= self.offset {
                    0
                } else {
                    self.offset - (before.len() + (n - chunk@.len()))
                }),
            decreases chunk@.len(),
        {
            let ghost k = n - chunk@.len();
            let task = chunk.pop().unwrap();
            proof {
                assert(r[k] == original[n - 1 - k]);
                assert(chunk@ =~= original.take(chunk@.len() as int));
                assert(before + r.take(k + 1) =~= (before + r.take(k)).push(task));
            }
            if self.remaining_skip > 0 {
                self.remaining_skip = self.remaining_skip - 1;
                proof {
                    assert(page_window(before + r.take(k + 1), self.offset as nat, self.limit as nat) =~= page_window(before + r.take(k), self.offset as nat, self.limit as nat));
                }
            } else {
                self.tasks.push(task);
                proof {
                    assert(self.tasks@ =~= page_window(before + r.take(k + 1), self.offset as nat, self.limit as nat));
                }
            }
        }
        proof {
            let k = n - chunk@.len();
            let all = before + r;
            assert(all.take(before.len() + k) =~= before + r.take(k));
            if chunk@.len() == 0 {
                assert(r.take(k) =~= r);
            } else {
                lemma_page_window_prefix(all, before.len() + k, self.offset as nat, self.limit as nat);
            }
        }
        self.seen = Ghost(before + r);
    }

    /// The page read: the tasks taken, whether the index counts tasks past
    /// them, and the offset of the page that follows.
    pub fn finish(self) -> (p: HistoryPage)
        requires
            self.wf(),
            self.offset() + self.taken().len() <= usize::MAX,
        ensures
            p.tasks@ == page_window(self.seen(), self.offset(), self.limit()),
            p.next_offset == self.offset() + p.tasks@.len(),
            p.has_more == (p.next_offset < self.total()),
    {
        let next_offset = self.offset + self.tasks.len();
        HistoryPage { has_more: next_offset < self.total, next_offset, tasks: self.tasks }
    }
}

/// The tasks of chunk contents `chunks`, in the order they were appended:
/// chunk by chunk, oldest chunk first, each chunk as stored.
pub open spec fn history_tasks(chunks: Seq<Seq<Task>>) -> Seq<Task>
    decreases chunks.len(),
{
    if chunks.len() == 0 {
        Seq::empty()
    } else {
        history_tasks(chunks.drop_last()) + chunks.last()
    }
}

/// The tasks of chunks read newest chunk first (`read[0]` is the newest), in
/// the order a page shows them: each chunk newest task first.
pub open spec fn newest_first(read: Seq<Vec<Task>>) -> Seq<Task>
    decreases read.len(),
{
    if read.len() == 0 {
        Seq::empty()
    } else {
        newest_first(read.drop_last()) + read.last()@.reverse()
    }
}

/// Whether the chunks `read`, newest first, are the last `read.len()` of the
/// chunk contents `chunks`.
pub open spec fn read_newest_chunks(chunks: Seq<Seq<Task>>, read: Seq<Vec<Task>>) -> bool {
    &&& read.len() <= chunks.len()
    &&& forall|j: int| 0 <= j < read.len() ==> #[trigger] read[j]@ == chunks[chunks.len() - 1 - j]
}

proof fn lemma_reverse_concat(x: Seq<Task>, y: Seq<Task>)
    ensures
        (x + y).reverse() == y.reverse() + x.reverse(),
{
    assert((x + y).reverse() =~= y.reverse() + x.reverse());
}

proof fn lemma_history_tasks_concat(a: Seq<Seq<Task>>, b: Seq<Seq<Task>>)
    ensures
        history_tasks(a + b) == history_tasks(a) + history_tasks(b),
    decreases b.len(),
{
    if b.len() == 0 {
        assert(a + b =~= a);
        assert(history_tasks(a) + history_tasks(b) =~= history_tasks(a));
    } else {
        assert((a + b).drop_last() =~= a + b.drop_last());
        lemma_history_tasks_concat(a, b.drop_last());
        assert(history_tasks(a) + history_tasks(b) =~= history_tasks(a) + history_tasks(b.drop_last())
            + b.last());
    }
}

/// The chunks read newest first show the tasks of the last chunks, newest
/// task first.
proof fn lemma_newest_first_suffix(chunks: Seq<Seq<Task>>, read: Seq<Vec<Task>>)
    requires
        read_newest_chunks(chunks, read),
    ensures
        newest_first(read) == history_tasks(chunks.skip(chunks.len() - read.len())).reverse(),
    decreases read.len(),
{
    let n = chunks.len();
    let k = read.len();
    if k == 0 {
        assert(chunks.skip(n as int) =~= Seq::<Seq<Task>>::empty());
        assert(history_tasks(Seq::<Seq<Task>>::empty()).reverse() =~= Seq::<Task>::empty());
    } else {
        let prev = read.drop_last();
        assert forall|j: int| 0 <= j < prev.len() implies #[trigger] prev[j]@ == chunks[n - 1 - j] by {
            assert(prev[j] == read[j]);
        }
        lemma_newest_first_suffix(chunks, prev);
        let tail = chunks.skip(n - k);
        assert(tail =~= seq![chunks[n - k]] + chunks.skip(n - k + 1));
        lemma_history_tasks_concat(seq![chunks[n - k]], chunks.skip(n - k + 1));
        assert(seq![chunks[n - k]].drop_last() =~= Seq::<Seq<Task>>::empty());
        assert(history_tasks(Seq::<Seq<Task>>::empty()) =~= Seq::<Task>::empty());
        assert(history_tasks(seq![chunks[n - k]]) =~= chunks[n - k]);
        lemma_reverse_concat(chunks[n - k], history_tasks(chunks.skip(n - k + 1)));
        assert(read.last()@ == chunks[n - k]);
    }
}

/// A page read from the newest chunks only is the page of the whole history
/// when the chunks read hold enough tasks for it, or when all were read.
pub proof fn lemma_page_of_newest_chunks(chunks: Seq<Seq<Task>>, read: Seq<Vec<Task>>, offset: nat, limit: nat)
    requires
        read_newest_chunks(chunks, read),
        read.len() == chunks.len() || newest_first(read).len() >= offset + limit,
    ensures
        page_window(newest_first(read), offset, limit) == page_window(history_tasks(chunks).reverse(), offset, limit),
{
    let n = chunks.len();
    let k = read.len();
    lemma_newest_first_suffix(chunks, read);
    assert(chunks =~= chunks.take(n - k) + chunks.skip(n - k));
    lemma_history_tasks_concat(chunks.take(n - k), chunks.skip(n - k));
    lemma_reverse_concat(history_tasks(chunks.take(n - k)), history_tasks(chunks.skip(n - k)));
    let all = history_tasks(chunks).reverse();
    let front = newest_first(read);
    assert(all.take(front.len() as int) =~= front);
    if k == n {
        assert(chunks.take(0) =~= Seq::<Seq<Task>>::empty());
        assert(all =~= front);
    } else {
        lemma_page_window_prefix(all, front.len() as int, offset, limit);
    }
}

/// Whether chunk `i` of `chunks` holds as many tasks as entry `i` of the index
/// entries `c` counts.
pub open spec fn counts_agree(c: Seq<HistoryChunkMeta>, chunks: Seq<Seq<Task>>) -> bool {
    &&& chunks.len() == c.len()
    &&& forall|i: int| 0 <= i < c.len() ==> (#[trigger] chunks[i]).len() == c[i].count
}

proof fn lemma_history_tasks_len(c: Seq<HistoryChunkMeta>, chunks: Seq<Seq<Task>>)
    requires
        counts_agree(c, chunks),
    ensures
        history_tasks(chunks).len() == sum_counts(c),
    decreases c.len(),
{
    if c.len() > 0 {
        let d = c.drop_last();
        let e = chunks.drop_last();
        assert(counts_agree(d, e)) by {
            assert forall|i: int| 0 <= i < d.len() implies (#[trigger] e[i]).len() == d[i].count by {
                assert(e[i] == chunks[i]);
            }
        }
        lemma_history_tasks_len(d, e);
        assert(chunks.last().len() == c.last().count) by {
            assert(chunks[c.len() - 1].len() == c[c.len() - 1].count);
        }
    }
}

/// Reads a page of at most `limit` tasks from position `offset` of the
/// history with index `index`, newest first. Chunks are loaded with `load`,
/// newest chunk first, until the page is full; the first load that fails
/// ends the read with its error.
pub fn read_history_page<L>(index: &HistoryIndex, offset: usize, limit: usize, load: L) -> (r: Result<
    HistoryPage,
    AppError,
>) where L: Fn(&String) -> Result<Vec<Task>, AppError>,
    requires
        forall|f: &String| call_requires(load, (f,)),
    ensures
        (limit == 0 || offset >= index.total) ==> (r matches Ok(p) && p.tasks@.len() == 0 && !p.has_more
            && p.next_offset == offset),
        forall|chunks: Seq<Seq<Task>>|
            #[trigger] counts_agree(index.chunks@, chunks) && index.total == sum_counts(index.chunks@)
                ==> history_tasks(chunks).len() == index.total,
        !(limit == 0 || offset >= index.total) ==> match r {
            Ok(p) => p.next_offset == offset + p.tasks@.len() && p.has_more == (p.next_offset
                < index.total) && exists|read: Seq<Vec<Task>>|
                {
                    &&& read.len() <= index.chunks@.len()
                    &&& forall|j: int|
                        0 <= j < read.len() ==> call_ensures(
                            load,
                            (&index.chunks@[index.chunks@.len() - 1 - j].file,),
                            Ok::<Vec<Task>, AppError>(#[trigger] read[j]),
                        )
                    &&& (read.len() == index.chunks@.len() || newest_first(read).len() >= offset + limit)
                    &&& p.tasks@ == page_window(newest_first(read), offset as nat, limit as nat)
                    &&& forall|chunks: Seq<Seq<Task>>|
                        chunks.len() == index.chunks@.len() && #[trigger] read_newest_chunks(chunks, read)
                            ==> p.tasks@ == page_window(history_tasks(chunks).reverse(), offset as nat, limit as nat)
                    &&& forall|chunks: Seq<Seq<Task>>|
                        #[trigger] counts_agree(index.chunks@, chunks) && index.total == sum_counts(index.chunks@)
                            ==> p.has_more == (p.next_offset < history_tasks(chunks).len())
                },
            Err(e) => (exists|k: int|
                0 <= k < index.chunks@.len() && call_ensures(
                    load,
                    (&#[trigger] index.chunks@[k].file,),
                    Err::<Vec<Task>, AppError>(e),
                )) || ((e matches AppError::Message(m) && m@ == "history page offset overflows"@)
                    && exists|read: Seq<Vec<Task>>|
                    {
                        &&& read.len() <= index.chunks@.len()
                        &&& forall|j: int|
                            0 <= j < read.len() ==> call_ensures(
                                load,
                                (&index.chunks@[index.chunks@.len() - 1 - j].file,),
                                Ok::<Vec<Task>, AppError>(#[trigger] read[j]),
                            )
                        &&& offset + page_window(newest_first(read), offset as nat, limit as nat).len()
                            > usize::MAX
                    }),
        },
{
    proof {
        assert forall|chunks: Seq<Seq<Task>>|
            #[trigger] counts_agree(index.chunks@, chunks) && index.total == sum_counts(index.chunks@)
                implies history_tasks(chunks).len() == index.total by {
            lemma_history_tasks_len(index.chunks@, chunks);
        }
    }
    match HistoryPageCursor::start(offset, limit, index.total) {
        HistoryPageStart::Done(page) => Ok(page),
        HistoryPageStart::Reading(mut cursor) => {
            let n = index.chunks.len();
            let mut count: usize = 0;
            let ghost mut read: Seq<Vec<Task>> = Seq::empty();
            while count < n && !cursor.is_full()
                invariant
                    cursor.wf(),
                    cursor.offset() == offset,
                    cursor.limit() == limit,
                    cursor.total() == index.total,
                    offset < index.total,
                    limit > 0,
                    n == index.chunks@.len(),
                    forall|chunks: Seq<Seq<Task>>|
                        #[trigger] counts_agree(index.chunks@, chunks) && index.total == sum_counts(index.chunks@)
                            ==> history_tasks(chunks).len() == index.total,
                    count <= n,
                    read.len() == count,
                    cursor.seen() == newest_first(read),
                    cursor.full() == (cursor.seen().len() >= offset + limit),
                    forall|f: &String| call_requires(load, (f,)),
                    forall|j: int|
                        0 <= j < read.len() ==> call_ensures(
                            load,
                            (&index.chunks@[n - 1 - j].file,),
                            Ok::<Vec<Task>, AppError>(#[trigger] read[j]),
                        ),
                decreases n - count,
            {
                let chunk = match load(&index.chunks[n - 1 - count].file) {
                    Ok(c) => c,
                    Err(e) => {
                        return Err(e);
                    },
                };
                proof {
                    let prev = read;
                    read = read.push(chunk);
                    assert(read.drop_last() =~= prev);
                    assert forall|j: int| 0 <= j < read.len() implies call_ensures(
                        load,
                        (&index.chunks@[n - 1 - j].file,),
                        Ok::<Vec<Task>, AppError>(#[trigger] read[j]),
                    ) by {
                        if j < prev.len() {
                            assert(read[j] == prev[j]);
                        }
                    }
                }
                cursor.feed_chunk(chunk);
                count = count + 1;
            }
            if cursor.start_offset().checked_add(cursor.taken_count()).is_none() {
                return Err(AppError::Message("history page offset overflows".to_string()));
            }
            let page = cursor.finish();
            proof {
                assert forall|chunks: Seq<Seq<Task>>|
                    chunks.len() == index.chunks@.len() && #[trigger] read_newest_chunks(chunks, read)
                        implies page.tasks@ == page_window(history_tasks(chunks).reverse(), offset as nat, limit as nat) by {
                    lemma_page_of_newest_chunks(chunks, read, offset as nat, limit as nat);
                }
                assert forall|chunks: Seq<Seq<Task>>|
                    #[trigger] counts_agree(index.chunks@, chunks) && index.total == sum_counts(index.chunks@)
                        implies page.has_more == (page.next_offset < history_tasks(chunks).len()) by {
                    lemma_history_tasks_len(index.chunks@, chunks);
                }
            }
            Ok(page)
        },
    }
}

/// The task with id `id` that a search of the history finds: in the newest
/// chunk that holds such a task, the first one as stored.
pub open spec fn find_in_history(chunks: Seq<Seq<Task>>, id: Seq<char>) -> Option<Task>
    decreases chunks.len(),
{
    if chunks.len() == 0 {
        None
    } else {
        match task_position(chunks.last(), id) {
            Some(i) => Some(chunks.last()[i]),
            None => find_in_history(chunks.drop_last(), id),
        }
    }
}

proof fn lemma_find_skips_newer(chunks: Seq<Seq<Task>>, id: Seq<char>, m: int)
    requires
        0 <= m <= chunks.len(),
        forall|t: int| m <= t < chunks.len() ==> task_position(#[trigger] chunks[t], id) is None,
    ensures
        find_in_history(chunks, id) == find_in_history(chunks.take(m), id),
    decreases chunks.len() - m,
{
    if m == chunks.len() {
        assert(chunks.take(m) =~= chunks);
    } else {
        lemma_find_skips_newer(chunks, id, m + 1);
        let front = chunks.take(m + 1);
        assert(front.last() == chunks[m]);
        assert(front.drop_last() =~= chunks.take(m));
    }
}

/// Looks for the task with id `task_id` in the history with index `index`:
/// chunks are loaded with `load`, newest chunk first, and the first task with
/// the id in the first chunk that holds one is the result. The first load
/// that fails ends the search with its error.
pub fn find_history_task<L>(index: &HistoryIndex, task_id: &str, load: L) -> (r: Result<Option<Task>, AppError>) where
    L: Fn(&String) -> Result<Vec<Task>, AppError>,

    requires
        forall|f: &String| call_requires(load, (f,)),
    ensures
        match r {
            Ok(found) => exists|read: Seq<Vec<Task>>|
                #![trigger read.len()]
                {
                    &&& read.len() <= index.chunks@.len()
                    &&& forall|j: int|
                        0 <= j < read.len() ==> call_ensures(
                            load,
                            (&index.chunks@[index.chunks@.len() - 1 - j].file,),
                            Ok::<Vec<Task>, AppError>(#[trigger] read[j]),
                        )
                    &&& forall|chunks: Seq<Seq<Task>>|
                        chunks.len() == index.chunks@.len() && #[trigger] read_newest_chunks(chunks, read)
                            ==> found == find_in_history(chunks, task_id@)
                },
            Err(e) => exists|k: int|
                0 <= k < index.chunks@.len() && call_ensures(
                    load,
                    (&#[trigger] index.chunks@[k].file,),
                    Err::<Vec<Task>, AppError>(e),
                ),
        },
{
    let n = index.chunks.len();
    let mut count: usize = 0;
    let ghost mut read: Seq<Vec<Task>> = Seq::empty();
    while count < n
        invariant
            n == index.chunks@.len(),
            count <= n,
            read.len() == count,
            forall|f: &String| call_requires(load, (f,)),
            forall|j: int|
                0 <= j < read.len() ==> call_ensures(
                    load,
                    (&index.chunks@[n - 1 - j].file,),
                    Ok::<Vec<Task>, AppError>(#[trigger] read[j]),
                ),
            forall|j: int| 0 <= j < read.len() ==> task_position(#[trigger] read[j]@, task_id@) is None,
        decreases n - count,
    {
        let chunk = match load(&index.chunks[n - 1 - count].file) {
            Ok(c) => c,
            Err(e) => {
                return Err(e);
            },
        };
        let ghost prev = read;
        proof {
            read = read.push(chunk);
            assert forall|j: int| 0 <= j < read.len() implies call_ensures(
                load,
                (&index.chunks@[n - 1 - j].file,),
                Ok::<Vec<Task>, AppError>(#[trigger] read[j]),
            ) by {
                if j < prev.len() {
                    assert(read[j] == prev[j]);
                }
            }
        }
        match find_task_position(&chunk, task_id) {
            Some(p) => {
                let found = chunk[p].duplicate();
                proof {
                    assert forall|chunks: Seq<Seq<Task>>|
                        chunks.len() == n && #[trigger] read_newest_chunks(chunks, read) implies Some(found)
                            == find_in_history(chunks, task_id@) by {
                        let m = n - count;
                        assert forall|t: int| m <= t < chunks.len() implies task_position(
                            #[trigger] chunks[t],
                            task_id@,
                        ) is None by {
                            assert(read[n - 1 - t]@ == chunks[t]);
                            assert(prev[n - 1 - t] == read[n - 1 - t]);
                        }
                        lemma_find_skips_newer(chunks, task_id@, m);
                        let front = chunks.take(m);
                        assert(read[count as int]@ == chunks[n - 1 - count]);
                        assert(front.last() == chunks[m - 1]);
                        assert(task_position(front.last(), task_id@) == Some(p as int));
                        assert(find_in_history(front, task_id@) == Some(front.last()[p as int]));
                    }
                    assert(read.len() <= n);
                }
                return Ok(Some(found));
            },
            None => {},
        }
        count = count + 1;
    }
    proof {
        assert forall|chunks: Seq<Seq<Task>>|
            chunks.len() == n && #[trigger] read_newest_chunks(chunks, read) implies None::<Task>
                == find_in_history(chunks, task_id@) by {
            assert forall|t: int| 0 <= t < chunks.len() implies task_position(#[trigger] chunks[t], task_id@)
                is None by {
                assert(read[n - 1 - t]@ == chunks[t]);
            }
            lemma_find_skips_newer(chunks, task_id@, 0);
        }
    }
    Ok(None)
}

/// The chunk contents once `task` is appended: to the last chunk, or to a new
/// chunk after the last when `new_chunk` holds or there is no chunk.
pub open spec fn contents_after_append(chunks: Seq<Seq<Task>>, new_chunk: bool, task: Task) -> Seq<Seq<Task>> {
    if new_chunk || chunks.len() == 0 {
        chunks.push(seq![task])
    } else {
        chunks.update(chunks.len() - 1, chunks.last().push(task))
    }
}

/// The index entries once the last chunk's count is set to `actual`, the
/// number of tasks its file holds; no entry changes when there is none.
pub open spec fn reconciled_chunks(c: Seq<HistoryChunkMeta>, actual: usize) -> Seq<HistoryChunkMeta> {
    if c.len() > 0 {
        c.update(c.len() - 1, HistoryChunkMeta { count: actual, ..c[c.len() - 1] })
    } else {
        c
    }
}

/// Whether the next task goes to a new chunk, when `n` chunks are indexed and
/// the last holds `actual` tasks.
pub open spec fn opens_new_chunk(n: nat, actual: usize) -> bool {
    !(n > 0 && actual < HISTORY_CHUNK_SIZE)
}

/// Whether `planned` is the index entries `reconciled` once the chunk the next
/// task goes to is picked: a new, empty chunk stored in `file` after the
/// others when `new_chunk` holds, otherwise the entries as they are.
pub open spec fn planned_append(
    reconciled: Seq<HistoryChunkMeta>,
    new_chunk: bool,
    file: Seq<char>,
    planned: Seq<HistoryChunkMeta>,
) -> bool {
    if new_chunk {
        &&& planned.len() == reconciled.len() + 1
        &&& planned.take(reconciled.len() as int) == reconciled
        &&& planned.last().file@ == file
        &&& planned.last().count == 0
    } else {
        planned == reconciled
    }
}

/// The steps of appending `task` to the history whose index entries were `c`,
/// up to the save: the last chunk, loaded with `load`, holds `actual` tasks;
/// the task goes to chunk file `file` (the last chunk's while it has room,
/// else a new one numbered after it), whose loaded tasks `target` with the
/// task added at the end are `saved`, saved with `save`; `planned` are the
/// index entries once that chunk was picked.
pub open spec fn append_steps<L, S>(
    load: L,
    save: S,
    c: Seq<HistoryChunkMeta>,
    task: Task,
    actual: usize,
    file: String,
    target: Vec<Task>,
    saved: Vec<Task>,
    planned: Seq<HistoryChunkMeta>,
) -> bool where
    L: Fn(&String) -> Result<Vec<Task>, AppError>,
    S: FnOnce(&String, &Vec<Task>) -> Result<(), AppError>,
 {
    let n = c.len();
    let new_chunk = opens_new_chunk(n, actual);
    &&& n > 0 ==> exists|last: Vec<Task>|
        call_ensures(load, (&c[n - 1].file,), Ok::<Vec<Task>, AppError>(last)) && last@.len() == actual
    &&& new_chunk ==> file@ == chunk_file_name(next_chunk_number_spec(c))
    &&& !new_chunk ==> file == c[n - 1].file
    &&& call_ensures(load, (&file,), Ok::<Vec<Task>, AppError>(target))
    &&& saved@ == target@.push(task)
    &&& call_ensures(save, (&file, &saved), Ok::<(), AppError>(()))
    &&& planned_append(reconciled_chunks(c, actual), new_chunk, file@, planned)
    &&& saved@.len() <= usize::MAX
}

/// Appends `task` to the history with index `index`; a task that has not
/// finished is refused and nothing is read or written. The last chunk's count
/// is first checked against its file, loaded with `load`; the task goes to the
/// last chunk while it holds fewer than [`HISTORY_CHUNK_SIZE`] tasks, else to a
/// new chunk numbered after it. The chunk file is loaded, the task added at
/// its end, the file saved with `save`, and the index records its new count.
/// The first load or save that fails ends the append with its error; an index
/// whose numbers would not fit in a `usize` is refused.
pub fn append_history_task<L, S>(index: &mut HistoryIndex, task: &Task, load: L, save: S) -> (r: Result<
    (),
    AppError,
>) where L: Fn(&String) -> Result<Vec<Task>, AppError>, S: FnOnce(&String, &Vec<Task>) -> Result<(), AppError>,
    requires
        forall|f: &String| call_requires(load, (f,)),
        forall|f: &String, t: &Vec<Task>| call_requires(save, (f, t)),
    ensures
        history_status_of(task.status) is None ==> (r matches Err(AppError::Message(m)) && m@
            == not_finished_message()) && final(index).chunks@ == old(index).chunks@ && final(index).total
            == old(index).total,
        history_status_of(task.status) is Some ==> ({
            let c = old(index).chunks@;
            let n = c.len();
            match r {
                Ok(_) => exists|
                    actual: usize,
                    file: String,
                    target: Vec<Task>,
                    saved: Vec<Task>,
                    planned: Seq<HistoryChunkMeta>,
                |
                    #![trigger append_steps(load, save, c, *task, actual, file, target, saved, planned)]
                    {
                        let new_chunk = opens_new_chunk(n, actual);
                        &&& append_steps(load, save, c, *task, actual, file, target, saved, planned)
                        &&& final(index).chunks@ == with_chunk_count(planned, file@, saved@.len() as usize)
                        &&& final(index).total == sum_counts(final(index).chunks@)
                        &&& forall|chunks: Seq<Seq<Task>>|
                            chunks.len() == n && (if new_chunk {
                                target@.len() == 0
                            } else {
                                target@ == chunks.last()
                            }) ==> #[trigger] contents_after_append(chunks, new_chunk, *task) == (if new_chunk {
                                chunks.push(saved@)
                            } else {
                                chunks.update(n - 1, saved@)
                            })
                    },
                Err(e) => {
                    ||| exists|f: String| call_ensures(load, (&f,), Err::<Vec<Task>, AppError>(e))
                    ||| exists|f: String, t: Vec<Task>| call_ensures(save, (&f, &t), Err::<(), AppError>(e))
                    ||| (e matches AppError::Message(m) && m@ == "history chunk number overflows"@
                        && next_chunk_number_spec(c) > usize::MAX)
                    ||| (e matches AppError::Message(m) && m@ == "history index total overflows"@ && (exists|
                        last: Vec<Task>,
                    |
                        n > 0 && call_ensures(load, (&c[n - 1].file,), Ok::<Vec<Task>, AppError>(last))
                            && last@.len() <= usize::MAX && sum_counts(reconciled_chunks(c, last@.len() as usize)) > usize::MAX) || (exists|
                        actual: usize,
                        file: String,
                        target: Vec<Task>,
                        saved: Vec<Task>,
                        planned: Seq<HistoryChunkMeta>,
                    |
                        #![trigger append_steps(load, save, c, *task, actual, file, target, saved, planned)]
                        append_steps(load, save, c, *task, actual, file, target, saved, planned) && sum_counts(
                            with_chunk_count(planned, file@, saved@.len() as usize),
                        ) > usize::MAX))
                },
            }
        }),
{
    match HistoryStatus::from_task_status(&task.status) {
        Ok(_) => {},
        Err(m) => {
            return Err(AppError::Message(m));
        },
    }
    let ghost c = index.chunks@;
    let n = index.chunks.len();
    let mut actual: usize = 0;
    let ghost mut last_v: Vec<Task> = arbitrary();
    if n > 0 {
        let last = match load(&index.chunks[n - 1].file) {
            Ok(t) => t,
            Err(e) => {
                return Err(e);
            },
        };
        proof {
            last_v = last;
        }
        actual = last.len();
        if !reconcile_last_chunk(index, actual) {
            proof {
                assert(c[n - 1].file == index.chunks@[n - 1].file);
                assert(reconciled_chunks(c, last@.len() as usize) == c.update(
                    n - 1,
                    HistoryChunkMeta { count: actual, ..c[n - 1] },
                ));
                assert(n > 0 && call_ensures(load, (&c[n - 1].file,), Ok::<Vec<Task>, AppError>(last))
                    && last@.len() <= usize::MAX && sum_counts(reconciled_chunks(c, last@.len() as usize))
                    > usize::MAX);
            }
            return Err(AppError::Message("history index total overflows".to_string()));
        }
    }
    let ghost reconciled = index.chunks@;
    proof {
        assert(reconciled == reconciled_chunks(c, actual));
    }
    if !next_chunk_number_fits(index) {
        proof {
            if n > 0 {
                assert(reconciled.last().file == c.last().file);
            }
        }
        return Err(AppError::Message("history chunk number overflows".to_string()));
    }
    proof {
        if n > 0 {
            assert(reconciled.last().file == c.last().file);
        }
    }
    let file = plan_history_append(index);
    let ghost planned = index.chunks@;
    let ghost new_chunk = opens_new_chunk(n as nat, actual);
    proof {
        assert(planned_append(reconciled, new_chunk, file@, planned));
    }
    let target = match load(&file) {
        Ok(t) => t,
        Err(e) => {
            return Err(e);
        },
    };
    let ghost target_v = target;
    let mut saved = target;
    saved.push(task.duplicate());
    match save(&file, &saved) {
        Ok(u) => {
            assert(u == ());
        },
        Err(e) => {
            return Err(e);
        },
    }
    let ghost saved_v = saved;
    proof {
        if n > 0 {
            assert(reconciled.last().file == c.last().file);
            assert(call_ensures(load, (&c[n - 1].file,), Ok::<Vec<Task>, AppError>(last_v)) && last_v@.len()
                == actual);
        }
        assert(next_chunk_number_spec(reconciled) == next_chunk_number_spec(c));
        assert(call_ensures(save, (&file, &saved_v), Ok::<(), AppError>(())));
        assert(call_ensures(load, (&file,), Ok::<Vec<Task>, AppError>(target_v)));
        assert(saved_v@.len() == saved.len());
        assert(append_steps(load, save, c, *task, actual, file, target_v, saved_v, planned));
    }
    if !record_history_append(index, file.as_str(), saved.len()) {
        return Err(AppError::Message("history index total overflows".to_string()));
    }
    proof {
        assert forall|chunks: Seq<Seq<Task>>|
            chunks.len() == n && (if new_chunk {
                target_v@.len() == 0
            } else {
                target_v@ == chunks.last()
            }) implies #[trigger] contents_after_append(chunks, new_chunk, *task) == (if new_chunk {
                chunks.push(saved@)
            } else {
                chunks.update(n - 1, saved@)
            }) by {
            if new_chunk {
                assert(saved@ =~= seq![*task]);
            }
        }
        if n > 0 {
            assert(reconciled.last().file == c.last().file);
            assert(call_ensures(load, (&c[n - 1].file,), Ok::<Vec<Task>, AppError>(last_v)) && last_v@.len()
                == actual);
        }
        assert(next_chunk_number_spec(reconciled) == next_chunk_number_spec(c));
        assert(planned_append(reconciled_chunks(c, actual), opens_new_chunk(n as nat, actual), file@, planned));
        assert(call_ensures(save, (&file, &saved_v), Ok::<(), AppError>(())));
        assert(call_ensures(load, (&file,), Ok::<Vec<Task>, AppError>(target_v)));
    }
    Ok(())
}

/// Whether loading chunk file `file` with `load` may give tasks none of which
/// has id `id`.
pub open spec fn loads_without<L: Fn(&String) -> Result<Vec<Task>, AppError>>(load: L, file: String, id: Seq<char>) -> bool {
    exists|t: Vec<Task>| call_ensures(load, (&file,), Ok::<Vec<Task>, AppError>(t)) && !holds_task(#[trigger] t@, id)
}

/// Whether some task of `tasks` has id `id`.
pub open spec fn holds_task(tasks: Seq<Task>, id: Seq<char>) -> bool {
    exists|j: int| 0 <= j < tasks.len() && #[trigger] tasks[j].id@ == id
}

/// The index entries once chunk `k` keeps `remaining` tasks: its entry goes
/// when none is left.
pub open spec fn chunks_after_removal(c: Seq<HistoryChunkMeta>, k: int, remaining: usize) -> Seq<HistoryChunkMeta> {
    if remaining == 0 {
        c.remove(k)
    } else {
        c.update(k, HistoryChunkMeta { count: remaining, ..c[k] })
    }
}

/// Removes the task with id `task_id` from the history with index `index`:
/// chunks are loaded with `load`, oldest first, until one holds the id; its
/// tasks with that id are removed, and the chunk file is saved with `save`,
/// or deleted with `delete` when no task is left, and the index updated. The
/// result tells whether a task was removed. The first load, save or delete
/// that fails ends the removal with its error.
pub fn remove_history_task<L, S, D>(index: &mut HistoryIndex, task_id: &str, load: L, save: S, delete: D) -> (r:
    Result<bool, AppError>) where
    L: Fn(&String) -> Result<Vec<Task>, AppError>,
    S: FnOnce(&String, &Vec<Task>) -> Result<(), AppError>,
    D: FnOnce(&String) -> Result<(), AppError>,

    requires
        forall|f: &String| call_requires(load, (f,)),
        forall|f: &String, t: &Vec<Task>| call_requires(save, (f, t)),
        forall|f: &String| call_requires(delete, (f,)),
    ensures
        ({
            let c = old(index).chunks@;
            match r {
                Ok(false) => {
                    &&& final(index).chunks@ == c
                    &&& final(index).total == old(index).total
                    &&& forall|k: int| 0 <= k < c.len() ==> loads_without(load, #[trigger] c[k].file, task_id@)
                },
                Ok(true) => exists|k: int, t: Vec<Task>|
                    #![trigger call_ensures(load, (&c[k].file,), Ok::<Vec<Task>, AppError>(t))]
                    {
                        let kept = t@.filter(task_id_differs(task_id@));
                        &&& 0 <= k < c.len()
                        &&& forall|j: int| 0 <= j < k ==> loads_without(load, #[trigger] c[j].file, task_id@)
                        &&& call_ensures(load, (&c[k].file,), Ok::<Vec<Task>, AppError>(t))
                        &&& holds_task(t@, task_id@)
                        &&& kept.len() == 0 ==> call_ensures(delete, (&c[k].file,), Ok::<(), AppError>(()))
                        &&& kept.len() > 0 ==> exists|v: Vec<Task>|
                            v@ == kept && #[trigger] call_ensures(save, (&c[k].file, &v), Ok::<(), AppError>(()))
                        &&& final(index).chunks@ == chunks_after_removal(c, k, kept.len() as usize)
                        &&& final(index).total == sum_counts(final(index).chunks@)
                    },
                Err(e) => {
                    ||| exists|f: String| call_ensures(load, (&f,), Err::<Vec<Task>, AppError>(e))
                    ||| exists|f: String, v: Vec<Task>| call_ensures(save, (&f, &v), Err::<(), AppError>(e))
                    ||| exists|f: String| call_ensures(delete, (&f,), Err::<(), AppError>(e))
                    ||| (e matches AppError::Message(m) && m@ == "history index total overflows"@ && ((exists|
                        f: String,
                        v: Vec<Task>,
                    | call_ensures(save, (&f, &v), Ok::<(), AppError>(()))) || (exists|f: String|
                        call_ensures(delete, (&f,), Ok::<(), AppError>(())))))
                },
            }
        }),
{
    let ghost c = index.chunks@;
    let n = index.chunks.len();
    let mut k: usize = 0;
    while k < n
        invariant
            n == index.chunks@.len(),
            index.chunks@ == c,
            index.total == old(index).total,
            c == old(index).chunks@,
            k <= n,
            forall|f: &String| call_requires(load, (f,)),
            forall|f: &String, t: &Vec<Task>| call_requires(save, (f, t)),
            forall|f: &String| call_requires(delete, (f,)),
            forall|j: int| 0 <= j < k ==> loads_without(load, #[trigger] c[j].file, task_id@),
        decreases n - k,
    {
        let tasks = match load(&index.chunks[k].file) {
            Ok(t) => t,
            Err(e) => {
                return Err(e);
            },
        };
        let ghost loaded = tasks;
        let (kept, removed) = remove_from_chunk(tasks, task_id);
        if !removed {
            proof {
                assert(call_ensures(load, (&c[k as int].file,), Ok::<Vec<Task>, AppError>(loaded)) && !holds_task(
                    loaded@,
                    task_id@,
                ));
                assert(loads_without(load, c[k as int].file, task_id@));
            }
            k = k + 1;
            continue;
        }
        let file = index.chunks[k].file.clone();
        proof {
            assert(file == c[k as int].file);
        }
        if kept.len() == 0 {
            match delete(&file) {
                Ok(u) => {
                    assert(u == ());
                },
                Err(e) => {
                    return Err(e);
                },
            }
        } else {
            match save(&file, &kept) {
                Ok(u) => {
                    assert(u == ());
                },
                Err(e) => {
                    return Err(e);
                },
            }
        }
        let ghost kept_v = kept;
        if !index_after_chunk_removal(index, k, kept.len()) {
            proof {
                if kept_v@.len() == 0 {
                    assert(call_ensures(delete, (&file,), Ok::<(), AppError>(())));
                } else {
                    assert(call_ensures(save, (&file, &kept_v), Ok::<(), AppError>(())));
                }
            }
            return Err(AppError::Message("history index total overflows".to_string()));
        }
        proof {
            assert(holds_task(loaded@, task_id@));
            assert(call_ensures(load, (&c[k as int].file,), Ok::<Vec<Task>, AppError>(loaded)));
            if kept_v@.len() > 0 {
                assert(call_ensures(save, (&c[k as int].file, &kept_v), Ok::<(), AppError>(())));
            }
        }
        return Ok(true);
    }
    Ok(false)
}

/// Appending a task makes it the newest task of its status: the history
/// holds one task more, the first page of one task shows it, every other
/// task moves one place further down the pages, and a search by its id finds
/// it when no other task has that id.
pub proof fn law_appended_task_is_newest(chunks: Seq<Seq<Task>>, new_chunk: bool, task: Task, k: nat)
    ensures
        ({
            let after = contents_after_append(chunks, new_chunk, task);
            &&& history_tasks(after) == history_tasks(chunks).push(task)
            &&& history_tasks(after).len() == history_tasks(chunks).len() + 1
            &&& page_window(history_tasks(after).reverse(), 0, 1) == seq![task]
            &&& page_window(history_tasks(after).reverse(), 1, k) == page_window(
                history_tasks(chunks).reverse(),
                0,
                k,
            )
            &&& (forall|c: int, i: int|
                0 <= c < chunks.len() && 0 <= i < chunks[c].len() ==> (#[trigger] chunks[c][i]).id@ != task.id@)
                ==> find_in_history(after, task.id@) == Some(task)
        }),
{
    let after = contents_after_append(chunks, new_chunk, task);
    let n = chunks.len();
    if new_chunk || n == 0 {
        assert(after.drop_last() =~= chunks);
        assert(history_tasks(after) =~= history_tasks(chunks) + seq![task]);
    } else {
        assert(after.drop_last() =~= chunks.drop_last());
        assert(history_tasks(after) =~= history_tasks(chunks.drop_last()) + chunks.last() + seq![task]);
    }
    assert(history_tasks(chunks) + seq![task] =~= history_tasks(chunks).push(task));
    let before = history_tasks(chunks);
    lemma_reverse_concat(before, seq![task]);
    assert(seq![task].reverse() =~= seq![task]);
    let all = history_tasks(after).reverse();
    assert(all =~= seq![task] + before.reverse());
    assert(page_window(all, 0, 1) =~= seq![task]);
    assert(page_window(all, 1, k) =~= page_window(before.reverse(), 0, k));
    if forall|c: int, i: int|
        0 <= c < chunks.len() && 0 <= i < chunks[c].len() ==> (#[trigger] chunks[c][i]).id@ != task.id@ {
        let last = after.last();
        let q = last.len() - 1;
        assert(last[q] == task);
        assert forall|j: int| 0 <= j < q implies last[j].id@ != task.id@ by {
            if !(new_chunk || n == 0) {
                assert(last[j] == chunks[n - 1][j]);
            }
        }
        assert(first_task_with_id(last, task.id@, q));
        lemma_task_position(last, task.id@);
        let found = task_position(last, task.id@);
        assert(found == Some(q)) by {
            if let Some(i) = found {
                if i < q {
                    assert(last[i].id@ != task.id@);
                }
                if i > q {
                    assert(last[q].id@ != task.id@);
                }
            }
        }
    }
}

/// Reading a page and then the page at its next offset gives the tasks of one
/// page over both limits: pages follow one another without gap or overlap.
pub proof fn law_history_pages_tile(s: Seq<Task>, offset: nat, first: nat, second: nat)
    ensures
        ({
            let p = page_window(s, offset, first);
            p + page_window(s, offset + p.len(), second) == page_window(s, offset, first + second)
        }),
{
    let p = page_window(s, offset, first);
    assert(p + page_window(s, offset + p.len(), second) =~= page_window(s, offset, first + second));
}

/// The history kept under one directory, a directory per status.
#[derive(Debug, Clone)]
pub struct HistoryStore {
    base_path: String,
}

impl HistoryStore {
    pub closed spec fn base_path_spec(&self) -> Seq<char> {
        self.base_path@
    }

    /// A store of the history under `base_path`.
    pub fn new(base_path: String) -> (r: HistoryStore)
        ensures
            r.base_path_spec() == base_path@,
    {
        HistoryStore { base_path }
    }

    /// The directory the history is kept under.
    pub fn base_path(&self) -> (r: &str)
        ensures
            r@ == self.base_path_spec(),
    {
        self.base_path.as_str()
    }
}

} // verus!
