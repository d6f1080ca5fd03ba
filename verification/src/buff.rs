//! Bounded-memory processing of a file in chunks, resumable from a
//! checkpoint: the chunk plan, where the checkpoint lives, which chunks a
//! resumed run skips, and the summary of a run.  Reading the file, calling the
//! chunk handler and storing the checkpoint happen outside the library.
use vstd::prelude::*;
use crate::chunker::plan::{chunk_count, chunk_end, chunk_start, is_plan, lemma_plan_partition, plan_ranges};
use crate::error::{AgeError, AgeResult};

verus! {

/// The default chunk size: 64 MiB.
pub const DEFAULT_CHUNK_SIZE: u64 = 67108864;

/// One contiguous byte range of the source file.
#[derive(PartialEq, Eq, Structural, Clone, Copy, Debug)]
pub struct ChunkSpec {
    pub id: usize,
    pub start: u64,
    pub end: u64,
    pub size: u64,
}

/// How a file is chunked.
pub struct ChunkerConfig {
    /// Desired chunk size.
    pub chunk_size: u64,
    /// Where checkpoints go (beside the source file when absent).
    pub checkpoint_dir: Option<String>,
    /// Whether progress is reported.
    pub enable_progress: bool,
}

impl ChunkerConfig {
    /// 64 MiB chunks, checkpoints beside the source, progress on.
    pub fn default() -> (c: Self)
        ensures
            c.chunk_size == DEFAULT_CHUNK_SIZE,
            c.checkpoint_dir is None,
            c.enable_progress,
    {
        ChunkerConfig { chunk_size: DEFAULT_CHUNK_SIZE, checkpoint_dir: None, enable_progress: true }
    }
}

/// What a run has completed, persisted between runs.
pub struct ChunkCheckpoint {
    pub source_path: String,
    pub file_size: u64,
    pub chunk_size: u64,
    pub completed_chunks: Vec<usize>,
    pub bytes_processed: u64,
}

/// The outcome of a run.
#[derive(PartialEq, Eq, Structural, Clone, Copy, Debug)]
pub struct ChunkProcessingSummary {
    pub total_bytes: u64,
    pub processed_bytes: u64,
    pub chunks_total: usize,
    pub chunks_completed: usize,
    pub checkpoint_cleared: bool,
}

/// What a run does next.
pub enum ChunkAction {
    /// Handle this chunk: read it and pass it to the handler.
    Process(ChunkSpec),
    /// Every chunk is done; the run ends with this summary.
    Done(ChunkProcessingSummary),
}

/// A run over a chunk plan: the checkpoint so far, the next chunk to look at
/// and the bytes up to the last chunk handled.
pub struct ChunkRun {
    checkpoint: ChunkCheckpoint,
    next: usize,
    processed_bytes: u64,
}

impl ChunkRun {
    pub closed spec fn spec_checkpoint(&self) -> ChunkCheckpoint {
        self.checkpoint
    }

    /// The index of the next chunk to look at: every chunk before it is
    /// done, skipped or handled.
    pub closed spec fn spec_next(&self) -> nat {
        self.next as nat
    }

    pub closed spec fn spec_bytes(&self) -> u64 {
        self.processed_bytes
    }

    /// The checkpoint so far, to be stored.
    pub fn checkpoint(&self) -> (r: &ChunkCheckpoint)
        ensures
            *r == self.spec_checkpoint(),
    {
        &self.checkpoint
    }
}

/// The completed chunks of a run that has handled the first `k` chunks of
/// a plan, in order.
pub open spec fn first_ids(k: nat) -> Seq<usize> {
    Seq::new(k, |i: int| i as usize)
}

/// Law: chunks are handled in plan order, each once.  In a run whose
/// checkpoint records the first `k` chunks (`k == 0` for a fresh run), the
/// chunks recorded are exactly those before `k`, so `next_action` passes
/// over them and hands out chunk `k`; once chunk `k` is handled the
/// checkpoint records the first `k + 1`, and the bytes it records reach
/// the byte before chunk `k + 1`.  After the last chunk every chunk is
/// recorded, and the bytes reach the end of the file.
pub proof fn lemma_run_in_plan_order(c: FileChunker, k: nat)
    requires
        c.wf(),
        k <= c.spec_chunks().len(),
    ensures
        forall|j: int|
            0 <= j < c.spec_chunks().len() ==> (first_ids(k).contains(#[trigger] c.spec_chunks()[j].id)
                <==> j < k),
        k < c.spec_chunks().len() ==> first_ids(k).push(c.spec_chunks()[k as int].id) == first_ids(k + 1),
        k + 1 < c.spec_chunks().len() ==> c.spec_chunks()[k as int].end + 1 == c.spec_chunks()[k + 1int].start,
        k == c.spec_chunks().len() && k > 0 ==> c.spec_chunks()[k - 1].end + 1 == c.spec_total_size(),
{
    let chunks = c.spec_chunks();
    let n = chunks.len();
    let ids = first_ids(k);
    assert forall|j: int| 0 <= j < n implies (ids.contains(#[trigger] chunks[j].id) <==> j < k) by {
        assert(chunks[j].id == j);
        if j < k {
            assert(ids[j] == chunks[j].id);
        } else {
            if ids.contains(chunks[j].id) {
                let w = choose|w: int| 0 <= w < ids.len() && ids[w] == chunks[j].id;
                assert(ids[w] == w as usize);
            }
        }
    }
    if k < n {
        assert(chunks[k as int].id == k);
        assert(ids.push(chunks[k as int].id) =~= first_ids(k + 1));
    }
    let cs = effective_chunk_size(c.spec_chunk_size()) as nat;
    let total = c.spec_total_size() as nat;
    let ranges = Seq::new(n, |i: int| (chunks[i].start, chunks[i].end));
    assert(is_plan(ranges, total, cs)) by {
        assert forall|i: int| 0 <= i < ranges.len() implies (#[trigger] ranges[i]).0 == chunk_start(i as nat, cs)
            && ranges[i].1 == chunk_end(i as nat, cs, total) by {
            assert(chunks[i].start == chunk_start(i as nat, cs));
        }
    }
    lemma_plan_partition(ranges, total, cs);
    if k + 1 < n {
        assert(ranges[k + 1int].0 == ranges[k as int].1 + 1);
    }
    if k == n && k > 0 {
        assert(ranges.last() == ranges[k - 1]);
    }
}

/// Law: a fresh run whose handler fails on chunk `k` (having succeeded on
/// every chunk before it) hands out chunks `0..=k` in order, ends with that
/// failure and leaves a checkpoint recording chunks `0..k`; a run resumed
/// from that checkpoint hands out chunk `k` first and never an earlier one.
/// A fresh run whose handler never fails hands out every chunk in order and
/// ends with all of them recorded.
pub proof fn lemma_failed_run_resumes(c: FileChunker, k: nat, ok: spec_fn(nat) -> bool, ok2: spec_fn(nat) -> bool)
    requires
        c.wf(),
        k < c.spec_chunks().len(),
        forall|j: nat| j < k ==> #[trigger] ok(j),
        !ok(k),
    ensures
        run_trace(c.spec_chunks(), Seq::empty(), 0, ok) == (Seq::new(k + 1, |t: int| t as nat), first_ids(k), Some(k)),
        run_trace(c.spec_chunks(), first_ids(k), 0, ok2).0.len() > 0,
        run_trace(c.spec_chunks(), first_ids(k), 0, ok2).0[0] == k,
        forall|t: int|
            0 <= t < run_trace(c.spec_chunks(), first_ids(k), 0, ok2).0.len() ==> k <= #[trigger] run_trace(
                c.spec_chunks(),
                first_ids(k),
                0,
                ok2,
            ).0[t],
{
    let chunks = c.spec_chunks();
    lemma_trace_fails_at(c, k, 0, ok);
    assert(first_ids(0) =~= Seq::<usize>::empty());
    assert(Seq::new((k + 1 - 0) as nat, |t: int| (0 + t) as nat) =~= Seq::new(k + 1, |t: int| t as nat));
    lemma_next_index_past_prefix(c, k, 0);
    lemma_run_in_plan_order(c, k);
    assert(!first_ids(k).contains(chunks[k as int].id));
    assert(next_index(chunks, first_ids(k), k) == k);
    lemma_trace_from(chunks, first_ids(k), 0, ok2);
    lemma_trace_from(chunks, first_ids(k), k, ok2);
}

/// Law: a fresh run whose handler never fails hands out every chunk, in
/// order, and ends with all of them recorded and no failure.
pub proof fn lemma_full_run(c: FileChunker, ok: spec_fn(nat) -> bool)
    requires
        c.wf(),
        forall|j: nat| j < c.spec_chunks().len() ==> #[trigger] ok(j),
    ensures
        run_trace(c.spec_chunks(), Seq::empty(), 0, ok) == (
            Seq::new(c.spec_chunks().len(), |t: int| t as nat),
            first_ids(c.spec_chunks().len()),
            None::<nat>,
        ),
{
    lemma_trace_succeeds_from(c, 0, ok);
    assert(first_ids(0) =~= Seq::<usize>::empty());
    assert(Seq::new((c.spec_chunks().len() - 0) as nat, |t: int| (0 + t) as nat) =~= Seq::new(
        c.spec_chunks().len(),
        |t: int| t as nat,
    ));
}

proof fn lemma_trace_fails_at(c: FileChunker, k: nat, j: nat, ok: spec_fn(nat) -> bool)
    requires
        c.wf(),
        j <= k < c.spec_chunks().len(),
        forall|i: nat| i < k ==> #[trigger] ok(i),
        !ok(k),
    ensures
        run_trace(c.spec_chunks(), first_ids(j), j, ok) == (
            Seq::new((k + 1 - j) as nat, |t: int| (j + t) as nat),
            first_ids(k),
            Some(k),
        ),
    decreases k - j,
{
    let chunks = c.spec_chunks();
    lemma_run_in_plan_order(c, j);
    assert(!first_ids(j).contains(chunks[j as int].id));
    assert(next_index(chunks, first_ids(j), j) == j);
    if j == k {
        assert(Seq::new((k + 1 - j) as nat, |t: int| (j + t) as nat) =~= seq![j]);
    } else {
        assert(ok(j));
        lemma_trace_fails_at(c, k, j + 1, ok);
        assert(first_ids(j).push(chunks[j as int].id) == first_ids(j + 1));
        let rest = run_trace(chunks, first_ids(j + 1), j + 1, ok);
        assert(seq![j] + rest.0 =~= Seq::new((k + 1 - j) as nat, |t: int| (j + t) as nat));
    }
}

proof fn lemma_trace_succeeds_from(c: FileChunker, j: nat, ok: spec_fn(nat) -> bool)
    requires
        c.wf(),
        j <= c.spec_chunks().len(),
        forall|i: nat| i < c.spec_chunks().len() ==> #[trigger] ok(i),
    ensures
        run_trace(c.spec_chunks(), first_ids(j), j, ok) == (
            Seq::new((c.spec_chunks().len() - j) as nat, |t: int| (j + t) as nat),
            first_ids(c.spec_chunks().len()),
            None::<nat>,
        ),
    decreases c.spec_chunks().len() - j,
{
    let chunks = c.spec_chunks();
    let n = chunks.len();
    if j == n {
        assert(Seq::new((n - j) as nat, |t: int| (j + t) as nat) =~= Seq::<nat>::empty());
    } else {
        lemma_run_in_plan_order(c, j);
        assert(!first_ids(j).contains(chunks[j as int].id));
        assert(next_index(chunks, first_ids(j), j) == j);
        assert(ok(j));
        lemma_trace_succeeds_from(c, j + 1, ok);
        assert(first_ids(j).push(chunks[j as int].id) == first_ids(j + 1));
        let rest = run_trace(chunks, first_ids(j + 1), j + 1, ok);
        assert(seq![j] + rest.0 =~= Seq::new((n - j) as nat, |t: int| (j + t) as nat));
    }
}

/// Every chunk before `k` is recorded in `first_ids(k)`, so from any index
/// up to `k` the run passes on to `k`.
proof fn lemma_next_index_past_prefix(c: FileChunker, k: nat, from: nat)
    requires
        c.wf(),
        from <= k < c.spec_chunks().len(),
    ensures
        next_index(c.spec_chunks(), first_ids(k), from) == k,
    decreases k - from,
{
    let chunks = c.spec_chunks();
    lemma_run_in_plan_order(c, k);
    if from < k {
        assert(first_ids(k).contains(chunks[from as int].id));
        lemma_next_index_past_prefix(c, k, from + 1);
    } else {
        assert(!first_ids(k).contains(chunks[k as int].id));
    }
}

/// A run from index `from` hands out only chunks at or after `from`, the
/// first being where `next_action` stops.
proof fn lemma_trace_from(chunks: Seq<ChunkSpec>, completed: Seq<usize>, from: nat, ok: spec_fn(nat) -> bool)
    ensures
        forall|t: int|
            0 <= t < run_trace(chunks, completed, from, ok).0.len() ==> next_index(chunks, completed, from)
                <= #[trigger] run_trace(chunks, completed, from, ok).0[t],
        run_trace(chunks, completed, from, ok).0.len() > 0 ==> run_trace(chunks, completed, from, ok).0[0]
            == next_index(chunks, completed, from),
        next_index(chunks, completed, from) < chunks.len() && from < chunks.len() ==> run_trace(
            chunks,
            completed,
            from,
            ok,
        ).0.len() > 0,
    decreases chunks.len() - from,
{
    let i = next_index(chunks, completed, from);
    lemma_next_index_bounds(chunks, completed, from);
    if i < chunks.len() && from < chunks.len() && ok(i) {
        let c2 = completed.push(chunks[i as int].id);
        lemma_trace_from(chunks, c2, i + 1, ok);
        lemma_next_index_bounds(chunks, c2, i + 1);
        let t = run_trace(chunks, c2, i + 1, ok);
        let h = seq![i] + t.0;
        assert forall|u: int| 0 <= u < h.len() implies i <= #[trigger] h[u] by {
            if u > 0 {
                assert(h[u] == t.0[u - 1]);
            }
        }
    }
}

/// The index of the first chunk at or after `from` that `completed` does
/// not record: where `next_action` stops.
pub open spec fn next_index(chunks: Seq<ChunkSpec>, completed: Seq<usize>, from: nat) -> nat
    decreases chunks.len() - from,
{
    if from >= chunks.len() {
        chunks.len()
    } else if completed.contains(chunks[from as int].id) {
        next_index(chunks, completed, from + 1)
    } else {
        from
    }
}

/// `next_index` stays between its start and the end of the plan.
pub proof fn lemma_next_index_bounds(chunks: Seq<ChunkSpec>, completed: Seq<usize>, from: nat)
    ensures
        from <= chunks.len() ==> from <= next_index(chunks, completed, from) <= chunks.len(),
        from > chunks.len() ==> next_index(chunks, completed, from) == chunks.len(),
    decreases chunks.len() - from,
{
    if from < chunks.len() {
        lemma_next_index_bounds(chunks, completed, from + 1);
    }
}

/// The course of a run from `completed` and chunk index `from` when the
/// handler succeeds on chunk `i` exactly when `ok(i)`: the indices of the
/// chunks handed to the handler, in order, the chunks the checkpoint then
/// records, and the chunk whose handling failed, if one did (else the run
/// ended with its summary).  Each step is a `next_action` that hands out a
/// chunk (`next_index`), the handler, and on success `chunk_done`; a chunk
/// too large for memory, which `next_action` refuses, is left aside.
pub open spec fn run_trace(chunks: Seq<ChunkSpec>, completed: Seq<usize>, from: nat, ok: spec_fn(nat) -> bool) -> (Seq<nat>, Seq<usize>, Option<nat>)
    decreases chunks.len() - from,
{
    let i = next_index(chunks, completed, from);
    if i >= chunks.len() || from >= chunks.len() {
        (Seq::empty(), completed, None)
    } else if ok(i) {
        proof {
            lemma_next_index_bounds(chunks, completed, from);
        }
        let t = run_trace(chunks, completed.push(chunks[i as int].id), i + 1, ok);
        (seq![i] + t.0, t.1, t.2)
    } else {
        (seq![i], completed, Some(i))
    }
}

/// The chunk plan of one file.
pub struct FileChunker {
    source: String,
    total_size: u64,
    chunks: Vec<ChunkSpec>,
    config: ChunkerConfig,
    checkpoint_path: String,
}

/// `chunks` is the plan of a file of `size` bytes in chunks of `cs` bytes.
pub open spec fn chunks_plan(chunks: Seq<ChunkSpec>, size: nat, cs: nat) -> bool {
    &&& chunks.len() == chunk_count(size, cs)
    &&& forall|i: int|
        0 <= i < chunks.len() ==> (#[trigger] chunks[i]).id == i && chunks[i].start == chunk_start(
            i as nat,
            cs,
        ) && chunks[i].end == chunk_end(i as nat, cs, size) && chunks[i].size == chunks[i].end
            - chunks[i].start + 1
}

/// The effective chunk size: the configured one, at least one byte.
pub open spec fn effective_chunk_size(cs: u64) -> u64 {
    if cs < 1 { 1 } else { cs }
}

/// Where the checkpoint of `source` lives: `<dir>/<file name>.checkpoint`
/// (`cage.chunk` standing in for a missing file name), or, without a
/// directory, the source with the extension `cage.chunk`.
pub open spec fn checkpoint_path_spec(source: Seq<char>, dir: Option<Seq<char>>) -> Seq<char> {
    match dir {
        Some(d) => {
            let name = match crate::paths::path_file_name(source) {
                Some(n) => n,
                None => "cage.chunk"@,
            };
            crate::paths::path_join(d, name + ".checkpoint"@)
        },
        None => crate::paths::path_with_extension(source, "cage.chunk"@),
    }
}

/// Where the checkpoint of `source` lives.
pub fn checkpoint_path(source: &str, checkpoint_dir: Option<&String>) -> (r: String)
    ensures
        r@ == checkpoint_path_spec(
            source@,
            match checkpoint_dir {
                Some(d) => Some(d@),
                None => None,
            },
        ),
{
    match checkpoint_dir {
        Some(dir) => {
            let file_name = match crate::paths::file_name(source) {
                Some(n) => n,
                None => String::from_str("cage.chunk"),
            };
            let mut name = file_name;
            name.append(".checkpoint");
            crate::paths::join(dir.as_str(), name.as_str())
        },
        None => {
            proof {
                reveal_strlit("cage.chunk");
            }
            crate::paths::with_extension(source, "cage.chunk")
        },
    }
}

impl FileChunker {
    /// The chunk plan of `source`, a file of `total_size` bytes.
    pub fn new(source: &str, total_size: u64, config: ChunkerConfig) -> (c: Self)
        ensures
            c.spec_source() == source@,
            c.spec_total_size() == total_size,
            chunks_plan(
                c.spec_chunks(),
                total_size as nat,
                effective_chunk_size(config.chunk_size) as nat,
            ),
            c.spec_checkpoint_path() == checkpoint_path_spec(
                source@,
                match config.checkpoint_dir {
                    Some(d) => Some(d@),
                    None => None,
                },
            ),
            c.spec_enable_progress() == config.enable_progress,
            c.wf(),
    {
        let chunk_size = if config.chunk_size < 1 { 1 } else { config.chunk_size };
        let chunks = Self::plan_chunks(total_size, chunk_size);
        let cp = checkpoint_path(source, config.checkpoint_dir.as_ref());
        FileChunker {
            source: String::from_str(source),
            total_size,
            chunks,
            config,
            checkpoint_path: cp,
        }
    }

    pub closed spec fn spec_source(&self) -> Seq<char> {
        self.source@
    }

    pub closed spec fn spec_total_size(&self) -> u64 {
        self.total_size
    }

    pub closed spec fn spec_chunks(&self) -> Seq<ChunkSpec> {
        self.chunks@
    }

    pub closed spec fn spec_checkpoint_path(&self) -> Seq<char> {
        self.checkpoint_path@
    }

    pub closed spec fn spec_enable_progress(&self) -> bool {
        self.config.enable_progress
    }

    pub closed spec fn spec_chunk_size(&self) -> u64 {
        self.config.chunk_size
    }

    /// The chunks are the plan of the file in chunks of the effective size.
    pub closed spec fn wf(&self) -> bool {
        chunks_plan(self.chunks@, self.total_size as nat, effective_chunk_size(self.config.chunk_size) as nat)
    }

    /// The chunk plan of a file of `total_size` bytes in chunks of `chunk_size`.
    pub fn plan_chunks(total_size: u64, chunk_size: u64) -> (r: Vec<ChunkSpec>)
        requires
            chunk_size > 0,
        ensures
            chunks_plan(r@, total_size as nat, chunk_size as nat),
    {
        let ranges = plan_ranges(total_size, chunk_size);
        let mut r: Vec<ChunkSpec> = Vec::new();
        let mut i: usize = 0;
        while i < ranges.len()
            invariant
                is_plan(ranges@, total_size as nat, chunk_size as nat),
                chunk_size > 0,
                i <= ranges.len(),
                r.len() == i,
                forall|j: int|
                    0 <= j < i ==> (#[trigger] r@[j]).id == j && r@[j].start == ranges@[j].0
                        && r@[j].end == ranges@[j].1 && r@[j].size == r@[j].end - r@[j].start + 1,
            decreases ranges.len() - i,
        {
            let (s, e) = ranges[i];
            proof {
                crate::chunker::plan::lemma_plan_partition(
                    ranges@,
                    total_size as nat,
                    chunk_size as nat,
                );
                assert(ranges@[i as int].0 <= ranges@[i as int].1);
            }
            r.push(ChunkSpec { id: i, start: s, end: e, size: e - s + 1 });
            i = i + 1;
        }
        r
    }

    /// The chunk plan.
    pub fn chunks(&self) -> (r: &[ChunkSpec])
        ensures
            r@ == self.spec_chunks(),
    {
        self.chunks.as_slice()
    }

    /// The source file.
    pub fn source(&self) -> (r: &String)
        ensures
            r@ == self.spec_source(),
    {
        &self.source
    }

    /// The size of the source file.
    pub fn total_size(&self) -> (r: u64)
        ensures
            r == self.spec_total_size(),
    {
        self.total_size
    }

    /// Where the checkpoint lives.
    pub fn checkpoint_file(&self) -> (r: &String)
        ensures
            r@ == self.spec_checkpoint_path(),
    {
        &self.checkpoint_path
    }

    /// Whether progress is reported.
    pub fn progress_enabled(&self) -> (r: bool)
        ensures
            r == self.spec_enable_progress(),
    {
        self.config.enable_progress
    }

    /// The checkpoint of a run that has not started.
    pub fn fresh_checkpoint(&self) -> (c: ChunkCheckpoint)
        ensures
            c.source_path@ == self.spec_source(),
            c.file_size == self.spec_total_size(),
            c.chunk_size == self.spec_chunk_size(),
            c.completed_chunks@.len() == 0,
            c.bytes_processed == 0,
    {
        ChunkCheckpoint {
            source_path: self.source.clone(),
            file_size: self.total_size,
            chunk_size: self.config.chunk_size,
            completed_chunks: Vec::new(),
            bytes_processed: 0,
        }
    }

    /// A stored checkpoint is usable when the source still has the size it
    /// had; otherwise it is rejected as a configuration error naming the
    /// checkpoint file.
    pub fn validate_checkpoint(&self, checkpoint: &ChunkCheckpoint) -> (r: Result<(), AgeError>)
        ensures
            checkpoint.file_size == self.spec_total_size() <==> r is Ok,
            r matches Err(AgeError::ConfigurationError { parameter, value, reason }) ==> parameter@
                == "chunk_checkpoint"@ && value@ == self.spec_checkpoint_path() && reason@
                == "Source file size changed since checkpoint"@,
    {
        if checkpoint.file_size != self.total_size {
            return Err(
                AgeError::ConfigurationError {
                    parameter: String::from_str("chunk_checkpoint"),
                    value: self.checkpoint_path.clone(),
                    reason: String::from_str("Source file size changed since checkpoint"),
                },
            );
        }
        Ok(())
    }

    /// A chunk is skipped when the checkpoint records it as completed.
    pub fn is_completed(checkpoint: &ChunkCheckpoint, chunk: &ChunkSpec) -> (r: bool)
        ensures
            r == checkpoint.completed_chunks@.contains(chunk.id),
    {
        crate::chunker::file_chunking::contains_usize(&checkpoint.completed_chunks, chunk.id)
    }

    /// A chunk larger than memory can address is refused.
    pub fn check_chunk_size(chunk: &ChunkSpec) -> (r: Result<(), AgeError>)
        ensures
            (chunk.size <= usize::MAX) <==> r is Ok,
            r is Err ==> (r matches Err(AgeError::ConfigurationError { parameter, reason, .. }) && parameter@
                == "chunk_size"@ && reason@ == "Chunk size exceeds usize limits"@),
    {
        if chunk.size as u128 > usize::MAX as u128 {
            let value = crate::text::u64_to_string(chunk.size);
            return Err(
                AgeError::ConfigurationError {
                    parameter: String::from_str("chunk_size"),
                    value,
                    reason: String::from_str("Chunk size exceeds usize limits"),
                },
            );
        }
        Ok(())
    }

    /// The checkpoint after `chunk` was handled.
    pub fn record_chunk(checkpoint: &mut ChunkCheckpoint, chunk: &ChunkSpec)
        requires
            chunk.end < u64::MAX,
        ensures
            final(checkpoint).completed_chunks@ == old(checkpoint).completed_chunks@.push(chunk.id),
            final(checkpoint).bytes_processed == chunk.end + 1,
            final(checkpoint).source_path == old(checkpoint).source_path,
            final(checkpoint).file_size == old(checkpoint).file_size,
            final(checkpoint).chunk_size == old(checkpoint).chunk_size,
    {
        checkpoint.completed_chunks.push(chunk.id);
        checkpoint.bytes_processed = chunk.end + 1;
    }

    /// The summary of a finished run: the file size, the bytes up to the last
    /// chunk handled, the number of chunks, and the number completed (handled
    /// now or before); the checkpoint is cleared.
    pub fn summary(&self, processed_bytes: u64, chunks_completed: usize) -> (s: ChunkProcessingSummary)
        ensures
            s.total_bytes == self.spec_total_size(),
            s.processed_bytes == processed_bytes,
            s.chunks_total == self.spec_chunks().len(),
            s.chunks_completed == chunks_completed,
            s.checkpoint_cleared,
    {
        ChunkProcessingSummary {
            total_bytes: self.total_size,
            processed_bytes,
            chunks_total: self.chunks.len(),
            chunks_completed,
            checkpoint_cleared: true,
        }
    }

    /// Starts a run from `checkpoint`: at the first chunk, with the bytes the
    /// checkpoint records.
    pub fn start_run(&self, checkpoint: ChunkCheckpoint) -> (r: ChunkRun)
        ensures
            r.spec_checkpoint() == checkpoint,
            r.spec_next() == 0,
            r.spec_bytes() == checkpoint.bytes_processed,
    {
        let bytes = checkpoint.bytes_processed;
        ChunkRun { checkpoint, next: 0, processed_bytes: bytes }
    }

    /// What a run does next: it passes over the chunks its checkpoint
    /// records as completed, then hands out the next chunk to handle, or,
    /// past the last chunk, ends with the summary.  A chunk larger than
    /// memory can address ends the run with an error.
    pub fn next_action(&self, run: &mut ChunkRun) -> (r: AgeResult<ChunkAction>)
        requires
            old(run).spec_next() <= self.spec_chunks().len(),
        ensures
            final(run).spec_checkpoint() == old(run).spec_checkpoint(),
            final(run).spec_bytes() == old(run).spec_bytes(),
            old(run).spec_next() <= final(run).spec_next() <= self.spec_chunks().len(),
            final(run).spec_next() == next_index(
                self.spec_chunks(),
                old(run).spec_checkpoint().completed_chunks@,
                old(run).spec_next(),
            ),
            forall|k: int|
                old(run).spec_next() <= k < final(run).spec_next() ==> old(
                    run,
                ).spec_checkpoint().completed_chunks@.contains(#[trigger] self.spec_chunks()[k].id),
            match r {
                Ok(ChunkAction::Done(s)) => final(run).spec_next() == self.spec_chunks().len() && s.total_bytes
                    == self.spec_total_size() && s.processed_bytes == old(run).spec_bytes() && s.chunks_total
                    == self.spec_chunks().len() && s.chunks_completed == self.spec_chunks().len()
                    && s.checkpoint_cleared,
                Ok(ChunkAction::Process(c)) => final(run).spec_next() < self.spec_chunks().len() && c
                    == self.spec_chunks()[final(run).spec_next() as int]
                    && !old(run).spec_checkpoint().completed_chunks@.contains(c.id) && c.size <= usize::MAX,
                Err(e) => final(run).spec_next() < self.spec_chunks().len() && !old(
                    run,
                ).spec_checkpoint().completed_chunks@.contains(
                    self.spec_chunks()[final(run).spec_next() as int].id,
                ) && self.spec_chunks()[final(run).spec_next() as int].size > usize::MAX
                    && (e matches AgeError::ConfigurationError { parameter, reason, .. } && parameter@
                    == "chunk_size"@ && reason@ == "Chunk size exceeds usize limits"@),
            },
    {
        let n = self.chunks.len();
        while run.next < n && Self::is_completed(&run.checkpoint, &self.chunks[run.next])
            invariant
                n == self.spec_chunks().len(),
                old(run).spec_next() <= run.spec_next() <= n,
                run.spec_checkpoint() == old(run).spec_checkpoint(),
                run.spec_bytes() == old(run).spec_bytes(),
                forall|k: int|
                    old(run).spec_next() <= k < run.spec_next() ==> old(
                        run,
                    ).spec_checkpoint().completed_chunks@.contains(#[trigger] self.spec_chunks()[k].id),
                next_index(self.spec_chunks(), old(run).spec_checkpoint().completed_chunks@, old(run).spec_next())
                    == next_index(self.spec_chunks(), old(run).spec_checkpoint().completed_chunks@, run.spec_next()),
            decreases n - run.next,
        {
            run.next = run.next + 1;
        }
        if run.next == n {
            return Ok(ChunkAction::Done(self.summary(run.processed_bytes, n)));
        }
        let chunk = self.chunks[run.next];
        match Self::check_chunk_size(&chunk) {
            Ok(()) => Ok(ChunkAction::Process(chunk)),
            Err(e) => Err(e),
        }
    }

    /// Records in the run that the chunk it handed out was handled: the
    /// checkpoint gains the chunk, the bytes reach its end, and the run moves
    /// past it.
    pub fn chunk_done(&self, run: &mut ChunkRun)
        requires
            self.wf(),
            old(run).spec_next() < self.spec_chunks().len(),
        ensures
            final(run).spec_checkpoint().completed_chunks@ == old(run).spec_checkpoint().completed_chunks@.push(
                self.spec_chunks()[old(run).spec_next() as int].id,
            ),
            final(run).spec_checkpoint().bytes_processed == self.spec_chunks()[old(run).spec_next() as int].end + 1,
            final(run).spec_checkpoint().source_path == old(run).spec_checkpoint().source_path,
            final(run).spec_checkpoint().file_size == old(run).spec_checkpoint().file_size,
            final(run).spec_checkpoint().chunk_size == old(run).spec_checkpoint().chunk_size,
            final(run).spec_bytes() == self.spec_chunks()[old(run).spec_next() as int].end + 1,
            final(run).spec_next() == old(run).spec_next() + 1,
    {
        let next = run.next;
        let n = self.chunks.len();
        assert(next < n);
        let chunk = self.chunks[next];
        proof {
            let i = next as int;
            let cs = effective_chunk_size(self.config.chunk_size) as nat;
            let total = self.total_size as nat;
            assert(self.chunks@[i].end == chunk_end(i as nat, cs, total));
            assert(total > 0) by {
                if total == 0 {
                    assert(chunk_count(total, cs) == 0) by (nonlinear_arith)
                        requires
                            total == 0,
                            cs >= 1,
                    ;
                }
            }
        }
        Self::record_chunk(&mut run.checkpoint, &chunk);
        run.processed_bytes = chunk.end + 1;
        run.next = next + 1;
    }
}

} // verus!
