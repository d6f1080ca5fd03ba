//! Chunked, resumable processing of a large file: the chunk plan, the
//! checkpoint that records which chunks are done, and a bracket/quote sweep
//! that gathers forensic statistics chunk by chunk.
//!
//! Reading the file and storing checkpoints happen outside the library; the
//! library decides which chunks remain, how a checkpoint advances, and what a
//! chunk contributes to the statistics.
use vstd::prelude::*;
use crate::chunker::plan::{chunk_count, chunk_end, chunk_start, is_plan, plan_ranges};

verus! {

/// One contiguous byte range of the file.
#[derive(PartialEq, Eq, Structural, Clone, Copy, Debug)]
pub struct ChunkSpec {
    pub chunk_id: usize,
    pub start_byte: u64,
    pub end_byte: u64,
    pub size: u64,
}

/// Statistics carried from chunk to chunk.
pub struct ForensicState {
    pub total_keys: u32,
    pub total_bytes_processed: u64,
    pub key_frequencies: Vec<(String, u32)>,
    pub max_depth_seen: i32,
    pub anomaly_count: u32,
}

/// What has been done so far.
pub struct ProcessingCheckpoint {
    pub file_path: String,
    pub current_chunk: usize,
    pub byte_position: u64,
    pub forensic_state: ForensicState,
    pub completed_chunks: Vec<usize>,
    pub total_chunks: usize,
}

/// The chunk plan of one file.
pub struct FileChunker {
    file_path: String,
    chunk_size: u64,
    chunks: Vec<ChunkSpec>,
    checkpoint_path: String,
}

/// Runs the sweep over the chunks of one file.
pub struct ChunkedStreamSweep {
    chunker: FileChunker,
}

/// `chunks` is the plan of a file of `size` bytes in chunks of `cs` bytes.
pub open spec fn chunks_plan(chunks: Seq<ChunkSpec>, size: nat, cs: nat) -> bool {
    &&& chunks.len() == chunk_count(size, cs)
    &&& forall|i: int|
        0 <= i < chunks.len() ==> (#[trigger] chunks[i]).chunk_id == i && chunks[i].start_byte
            == chunk_start(i as nat, cs) && chunks[i].end_byte == chunk_end(i as nat, cs, size)
            && chunks[i].size == chunks[i].end_byte - chunks[i].start_byte + 1
}

/// The chunk plan of a file of `file_size` bytes.
pub fn calculate_chunks(file_size: u64, chunk_size: u64) -> (r: Vec<ChunkSpec>)
    requires
        chunk_size > 0 || file_size == 0,
    ensures
        chunk_size > 0 ==> chunks_plan(r@, file_size as nat, chunk_size as nat),
        file_size == 0 ==> r@.len() == 0,
{
    if file_size == 0 {
        proof {
            if chunk_size > 0 {
                assert(chunk_count(0, chunk_size as nat) == 0) by (nonlinear_arith)
                    requires
                        chunk_size > 0,
                ;
            }
        }
        return Vec::new();
    }
    let ranges = plan_ranges(file_size, chunk_size);
    let mut r: Vec<ChunkSpec> = Vec::new();
    let mut i: usize = 0;
    while i < ranges.len()
        invariant
            is_plan(ranges@, file_size as nat, chunk_size as nat),
            chunk_size > 0,
            i <= ranges.len(),
            r.len() == i,
            forall|j: int|
                0 <= j < i ==> (#[trigger] r@[j]).chunk_id == j && r@[j].start_byte == ranges@[j].0
                    && r@[j].end_byte == ranges@[j].1 && r@[j].size == r@[j].end_byte
                    - r@[j].start_byte + 1,
        decreases ranges.len() - i,
    {
        let (s, e) = ranges[i];
        proof {
            crate::chunker::plan::lemma_plan_partition(
                ranges@,
                file_size as nat,
                chunk_size as nat,
            );
            assert(ranges@[i as int].0 <= ranges@[i as int].1);
        }
        r.push(ChunkSpec { chunk_id: i, start_byte: s, end_byte: e, size: e - s + 1 });
        i = i + 1;
    }
    r
}

/// A state with nothing recorded.
pub fn empty_state() -> (s: ForensicState)
    ensures
        s.total_keys == 0,
        s.total_bytes_processed == 0,
        s.key_frequencies@.len() == 0,
        s.max_depth_seen == 0,
        s.anomaly_count == 0,
{
    ForensicState {
        total_keys: 0,
        total_bytes_processed: 0,
        key_frequencies: Vec::new(),
        max_depth_seen: 0,
        anomaly_count: 0,
    }
}

impl FileChunker {
    /// The plan of `file_path`, whose size is `file_size`; the checkpoint lives
    /// beside it with the extension `checkpoint`.
    pub fn new(file_path: &str, file_size: u64, chunk_size: u64) -> (c: Self)
        requires
            chunk_size > 0 || file_size == 0,
        ensures
            c.spec_file_path() == file_path@,
            c.spec_chunk_size() == chunk_size,
            chunk_size > 0 ==> chunks_plan(c.spec_chunks(), file_size as nat, chunk_size as nat),
            file_size == 0 ==> c.spec_chunks().len() == 0,
            c.spec_checkpoint_path() == crate::paths::path_with_extension(
                file_path@,
                "checkpoint"@,
            ),
    {
        proof {
            reveal_strlit("checkpoint");
        }
        let checkpoint_path = crate::paths::with_extension(file_path, "checkpoint");
        let chunks = calculate_chunks(file_size, chunk_size);
        FileChunker { file_path: String::from_str(file_path), chunk_size, chunks, checkpoint_path }
    }

    pub closed spec fn spec_chunks(&self) -> Seq<ChunkSpec> {
        self.chunks@
    }

    pub closed spec fn spec_file_path(&self) -> Seq<char> {
        self.file_path@
    }

    pub closed spec fn spec_checkpoint_path(&self) -> Seq<char> {
        self.checkpoint_path@
    }

    pub closed spec fn spec_chunk_size(&self) -> u64 {
        self.chunk_size
    }

    /// The chunk plan.
    pub fn get_chunks(&self) -> (r: &[ChunkSpec])
        ensures
            r@ == self.spec_chunks(),
    {
        self.chunks.as_slice()
    }

    /// The file being processed.
    pub fn file_path(&self) -> (r: &String)
        ensures
            r@ == self.spec_file_path(),
    {
        &self.file_path
    }

    /// Where the checkpoint is stored.
    pub fn checkpoint_path(&self) -> (r: &String)
        ensures
            r@ == self.spec_checkpoint_path(),
    {
        &self.checkpoint_path
    }

    /// The chunk size.
    pub fn chunk_size(&self) -> (r: u64)
        ensures
            r == self.spec_chunk_size(),
    {
        self.chunk_size
    }

    /// The checkpoint of a run that has not started.
    pub fn initial_checkpoint(&self) -> (c: ProcessingCheckpoint)
        ensures
            c.file_path@ == self.spec_file_path(),
            c.current_chunk == 0,
            c.byte_position == 0,
            c.completed_chunks@.len() == 0,
            c.total_chunks == self.spec_chunks().len(),
            c.forensic_state.total_keys == 0,
            c.forensic_state.total_bytes_processed == 0,
            c.forensic_state.key_frequencies@.len() == 0,
            c.forensic_state.max_depth_seen == 0,
            c.forensic_state.anomaly_count == 0,
    {
        ProcessingCheckpoint {
            file_path: self.file_path.clone(),
            current_chunk: 0,
            byte_position: 0,
            forensic_state: empty_state(),
            completed_chunks: Vec::new(),
            total_chunks: self.chunks.len(),
        }
    }

    /// A stored checkpoint belongs to this run: same file, same number of chunks.
    pub fn checkpoint_matches(&self, checkpoint: &ProcessingCheckpoint) -> (r: bool)
        ensures
            r == (checkpoint.file_path@ == self.spec_file_path() && checkpoint.total_chunks
                == self.spec_chunks().len()),
    {
        checkpoint.file_path == self.file_path && checkpoint.total_chunks == self.chunks.len()
    }

    /// The chunks that still have to be processed, in order: those from the
    /// checkpoint's current chunk on that are not recorded as completed.
    pub fn pending_chunks(&self, checkpoint: &ProcessingCheckpoint) -> (r: Vec<ChunkSpec>)
        requires
            checkpoint.current_chunk <= self.spec_chunks().len(),
        ensures
            r@ == self.spec_chunks().subrange(
                checkpoint.current_chunk as int,
                self.spec_chunks().len() as int,
            ).filter(|c: ChunkSpec| !checkpoint.completed_chunks@.contains(c.chunk_id)),
    {
        let mut r: Vec<ChunkSpec> = Vec::new();
        let mut i: usize = checkpoint.current_chunk;
        let ghost all = self.chunks@.subrange(checkpoint.current_chunk as int, self.chunks@.len() as int);
        let ghost f = |c: ChunkSpec| !checkpoint.completed_chunks@.contains(c.chunk_id);
        assert(all.take(0) =~= Seq::<ChunkSpec>::empty());
        assert(all.take(0).filter(f) =~= Seq::<ChunkSpec>::empty());
        while i < self.chunks.len()
            invariant
                checkpoint.current_chunk <= i <= self.chunks.len(),
                all == self.chunks@.subrange(checkpoint.current_chunk as int, self.chunks@.len() as int),
                f == (|c: ChunkSpec| !checkpoint.completed_chunks@.contains(c.chunk_id)),
                r@ == all.take(i - checkpoint.current_chunk).filter(f),
            decreases self.chunks.len() - i,
        {
            let c = self.chunks[i];
            let k = i - checkpoint.current_chunk;
            proof {
                reveal(Seq::filter);
            }
            assert(all.take(k + 1).drop_last() =~= all.take(k as int));
            assert(all.take(k + 1).last() == c);
            if !contains_usize(&checkpoint.completed_chunks, c.chunk_id) {
                r.push(c);
            }
            i = i + 1;
        }
        assert(all.take(self.chunks.len() - checkpoint.current_chunk) =~= all);
        r
    }

    /// The checkpoint after `chunk` was processed into `new_state`.
    pub fn record_chunk(
        &self,
        checkpoint: &mut ProcessingCheckpoint,
        chunk: &ChunkSpec,
        new_state: ForensicState,
    )
        requires
            chunk.chunk_id < usize::MAX,
            chunk.end_byte < u64::MAX,
        ensures
            final(checkpoint).current_chunk == chunk.chunk_id + 1,
            final(checkpoint).byte_position == chunk.end_byte + 1,
            final(checkpoint).forensic_state == new_state,
            final(checkpoint).completed_chunks@ == old(checkpoint).completed_chunks@.push(
                chunk.chunk_id,
            ),
            final(checkpoint).file_path == old(checkpoint).file_path,
            final(checkpoint).total_chunks == old(checkpoint).total_chunks,
    {
        checkpoint.current_chunk = chunk.chunk_id + 1;
        checkpoint.byte_position = chunk.end_byte + 1;
        checkpoint.forensic_state = new_state;
        checkpoint.completed_chunks.push(chunk.chunk_id);
    }
}

/// Whether `v` holds `x`.
pub fn contains_usize(v: &Vec<usize>, x: usize) -> (r: bool)
    ensures
        r == v@.contains(x),
{
    let mut i: usize = 0;
    while i < v.len()
        invariant
            i <= v.len(),
            forall|j: int| 0 <= j < i ==> v@[j] != x,
        decreases v.len() - i,
    {
        if v[i] == x {
            return true;
        }
        i = i + 1;
    }
    false
}

// ---------------------------------------------------------------------------
// The sweep
// ---------------------------------------------------------------------------

/// The running values of the sweep.
pub struct SweepTotals {
    pub depth: int,
    pub max_depth: int,
    pub keys: nat,
    pub anomalies: nat,
}

/// The sweep over `data`, starting at depth zero with the maximum depth seen
/// so far: brackets open and close levels, each quote counts as a key, and
/// every byte read while deeper than fifty levels counts as an anomaly.
pub open spec fn sweep(data: Seq<u8>, max0: int) -> SweepTotals
    decreases data.len(),
{
    if data.len() == 0 {
        SweepTotals { depth: 0, max_depth: max0, keys: 0, anomalies: 0 }
    } else {
        let t = sweep(data.drop_last(), max0);
        let b = data.last();
        let opens = b == 123u8 || b == 91u8;
        let d = if opens {
            t.depth + 1
        } else if b == 125u8 || b == 93u8 {
            t.depth - 1
        } else {
            t.depth
        };
        SweepTotals {
            depth: d,
            max_depth: if opens && d > t.max_depth { d } else { t.max_depth },
            keys: if b == 34u8 { t.keys + 1 } else { t.keys },
            anomalies: if d > 50 { t.anomalies + 1 } else { t.anomalies },
        }
    }
}

proof fn lemma_sweep_bounds(data: Seq<u8>, max0: int)
    ensures
        -data.len() <= sweep(data, max0).depth <= data.len(),
        sweep(data, max0).keys <= data.len(),
        sweep(data, max0).anomalies <= data.len(),
        max0 <= sweep(data, max0).max_depth <= if max0 > data.len() as int { max0 } else { data.len() as int },
    decreases data.len(),
{
    if data.len() > 0 {
        lemma_sweep_bounds(data.drop_last(), max0);
    }
}

/// The name under which a chunk is counted in the key frequencies.
pub open spec fn chunk_key(id: nat) -> Seq<char> {
    "chunk_"@ + crate::text::dec_digits(id) + "_pattern"@
}

/// Index of the frequency entry of `k`, or -1.
pub open spec fn freq_index(f: Seq<(String, u32)>, k: Seq<char>) -> int
    decreases f.len(),
{
    if f.len() == 0 {
        -1
    } else if f.last().0@ == k {
        f.len() - 1
    } else {
        freq_index(f.drop_last(), k)
    }
}

/// The views of frequency entries.
pub open spec fn freq_view(f: Seq<(String, u32)>) -> Seq<(Seq<char>, u32)> {
    f.map_values(|e: (String, u32)| (e.0@, e.1))
}

proof fn lemma_freq_index(f: Seq<(String, u32)>, k: Seq<char>)
    ensures
        -1 <= freq_index(f, k) < f.len(),
        freq_index(f, k) >= 0 ==> f[freq_index(f, k)].0@ == k,
    decreases f.len(),
{
    if f.len() > 0 {
        lemma_freq_index(f.drop_last(), k);
    }
}

fn find_frequency(f: &Vec<(String, u32)>, k: &String) -> (r: Option<usize>)
    ensures
        match r {
            Some(i) => i == freq_index(f@, k@) && i < f.len(),
            None => freq_index(f@, k@) == -1,
        },
{
    let mut i: usize = f.len();
    assert(f@.take(i as int) =~= f@);
    while i > 0
        invariant
            i <= f.len(),
            freq_index(f@, k@) == freq_index(f@.take(i as int), k@),
        decreases i,
    {
        assert(f@.take(i as int).drop_last() =~= f@.take(i - 1));
        if f[i - 1].0 == *k {
            return Some(i - 1);
        }
        i = i - 1;
    }
    None
}

impl ChunkedStreamSweep {
    pub closed spec fn spec_chunker(&self) -> FileChunker {
        self.chunker
    }

    /// A sweep over the chunks of `file_path`, whose size is `file_size`.
    pub fn new(file_path: &str, file_size: u64, chunk_size: u64) -> (s: Self)
        requires
            chunk_size > 0 || file_size == 0,
        ensures
            chunk_size > 0 ==> chunks_plan(s.spec_chunker().spec_chunks(), file_size as nat, chunk_size as nat),
            file_size == 0 ==> s.spec_chunker().spec_chunks().len() == 0,
            s.spec_chunker().spec_file_path() == file_path@,
    {
        ChunkedStreamSweep { chunker: FileChunker::new(file_path, file_size, chunk_size) }
    }

    /// The underlying chunk plan.
    pub fn chunker(&self) -> (r: &FileChunker)
        ensures
            r == self.spec_chunker(),
    {
        &self.chunker
    }

    /// The statistics after one chunk: the previous ones (or none), plus the
    /// chunk's bytes, quotes and anomalies, the deepest level reached, and
    /// one more occurrence of `chunk_<id>_pattern`.
    pub fn process_chunk_with_streamsweep(
        &self,
        chunk_data: &[u8],
        chunk_spec: &ChunkSpec,
        previous_state: Option<&ForensicState>,
    ) -> (r: ForensicState)
        requires
            chunk_data@.len() <= i32::MAX,
            match previous_state {
                Some(p) => {
                    &&& p.total_keys + chunk_data@.len() <= u32::MAX
                    &&& p.anomaly_count + chunk_data@.len() <= u32::MAX
                    &&& p.total_bytes_processed + chunk_data@.len() <= u64::MAX
                    &&& 0 <= freq_index(p.key_frequencies@, chunk_key(chunk_spec.chunk_id as nat)) < p.key_frequencies@.len()
                        ==> p.key_frequencies@[freq_index(
                        p.key_frequencies@,
                        chunk_key(chunk_spec.chunk_id as nat),
                    )].1 < u32::MAX
                },
                None => chunk_data@.len() <= u32::MAX,
            },
        ensures
            ({
                let p_keys: int = match previous_state { Some(p) => p.total_keys as int, None => 0 };
                let p_bytes: int = match previous_state { Some(p) => p.total_bytes_processed as int, None => 0 };
                let p_max: int = match previous_state { Some(p) => p.max_depth_seen as int, None => 0 };
                let p_anom: int = match previous_state { Some(p) => p.anomaly_count as int, None => 0 };
                let p_freq: Seq<(String, u32)> = match previous_state { Some(p) => p.key_frequencies@, None => Seq::empty() };
                let t = sweep(chunk_data@, p_max);
                let k = chunk_key(chunk_spec.chunk_id as nat);
                let i = freq_index(p_freq, k);
                &&& r.total_bytes_processed == p_bytes + chunk_data@.len()
                &&& r.total_keys == p_keys + t.keys
                &&& r.max_depth_seen == t.max_depth
                &&& r.anomaly_count == p_anom + t.anomalies
                &&& if i < 0 {
                    freq_view(r.key_frequencies@) == freq_view(p_freq).push((k, 1u32))
                } else {
                    freq_view(r.key_frequencies@) == freq_view(p_freq).update(i, (k, (p_freq[i].1 + 1) as u32))
                }
            }),
    {
        let mut state = match previous_state {
            Some(p) => copy_state(p),
            None => empty_state(),
        };
        let ghost p_freq = state.key_frequencies@;
        let ghost p_max = state.max_depth_seen as int;
        let ghost s0 = freq_view(state.key_frequencies@);
        let mut depth: i32 = 0;
        let mut max_depth: i32 = state.max_depth_seen;
        let mut key_count: u32 = 0;
        let mut anomalies: u32 = 0;
        let mut i: usize = 0;
        assert(chunk_data@.take(0) =~= Seq::<u8>::empty());
        while i < chunk_data.len()
            invariant
                i <= chunk_data.len(),
                chunk_data@.len() <= i32::MAX,
                chunk_data@.len() <= u32::MAX,
                sweep(chunk_data@.take(i as int), p_max).depth == depth,
                sweep(chunk_data@.take(i as int), p_max).max_depth == max_depth,
                sweep(chunk_data@.take(i as int), p_max).keys == key_count,
                sweep(chunk_data@.take(i as int), p_max).anomalies == anomalies,
                p_max <= i32::MAX,
            decreases chunk_data.len() - i,
        {
            proof {
                assert(chunk_data@.take(i + 1).drop_last() =~= chunk_data@.take(i as int));
                lemma_sweep_bounds(chunk_data@.take(i as int), p_max);
            }
            let b = chunk_data[i];
            if b == 123u8 || b == 91u8 {
                depth = depth + 1;
                if depth > max_depth {
                    max_depth = depth;
                }
            } else if b == 125u8 || b == 93u8 {
                depth = depth - 1;
            } else if b == 34u8 {
                key_count = key_count + 1;
            }
            if depth > 50 {
                anomalies = anomalies + 1;
            }
            i = i + 1;
        }
        assert(chunk_data@.take(chunk_data.len() as int) =~= chunk_data@);
        proof {
            lemma_sweep_bounds(chunk_data@, p_max);
        }
        state.total_bytes_processed = state.total_bytes_processed + chunk_data.len() as u64;
        state.max_depth_seen = max_depth;
        state.total_keys = state.total_keys + key_count;
        state.anomaly_count = state.anomaly_count + anomalies;
        let key = chunk_key_string(chunk_spec.chunk_id);
        match find_frequency(&state.key_frequencies, &key) {
            Some(j) => {
                proof {
                    lemma_freq_index(state.key_frequencies@, key@);
                }
                let c = state.key_frequencies[j].1;
                let name = state.key_frequencies[j].0.clone();
                state.key_frequencies.set(j, (name, c + 1));
                assert(freq_view(state.key_frequencies@) =~= s0.update(j as int, (key@, (c + 1) as u32)));
            },
            None => {
                state.key_frequencies.push((key, 1u32));
                assert(freq_view(state.key_frequencies@) =~= s0.push((key@, 1u32)));
            },
        }
        state
    }
}

/// The statistics of one chunk can be added to `prev` (or to nothing)
/// without exceeding the counters' ranges.
pub open spec fn step_fits(prev: Option<ForensicState>, data: Seq<u8>, id: usize) -> bool {
    &&& data.len() <= i32::MAX
    &&& match prev {
        Some(p) => {
            &&& p.total_keys + data.len() <= u32::MAX
            &&& p.anomaly_count + data.len() <= u32::MAX
            &&& p.total_bytes_processed + data.len() <= u64::MAX
            &&& 0 <= freq_index(p.key_frequencies@, chunk_key(id as nat)) < p.key_frequencies@.len()
                ==> p.key_frequencies@[freq_index(p.key_frequencies@, chunk_key(id as nat))].1 < u32::MAX
        },
        None => data.len() <= u32::MAX,
    }
}

/// `r` is the statistics after the chunk `data` with identifier `id`,
/// added to `prev` (or to nothing).
pub open spec fn stepped(prev: Option<ForensicState>, data: Seq<u8>, id: usize, r: ForensicState) -> bool {
    let p_keys: int = match prev { Some(p) => p.total_keys as int, None => 0 };
    let p_bytes: int = match prev { Some(p) => p.total_bytes_processed as int, None => 0 };
    let p_max: int = match prev { Some(p) => p.max_depth_seen as int, None => 0 };
    let p_anom: int = match prev { Some(p) => p.anomaly_count as int, None => 0 };
    let p_freq: Seq<(String, u32)> = match prev { Some(p) => p.key_frequencies@, None => Seq::empty() };
    let t = sweep(data, p_max);
    let k = chunk_key(id as nat);
    let i = freq_index(p_freq, k);
    &&& r.total_bytes_processed == p_bytes + data.len()
    &&& r.total_keys == p_keys + t.keys
    &&& r.max_depth_seen == t.max_depth
    &&& r.anomaly_count == p_anom + t.anomalies
    &&& if i < 0 {
        freq_view(r.key_frequencies@) == freq_view(p_freq).push((k, 1u32))
    } else {
        freq_view(r.key_frequencies@) == freq_view(p_freq).update(i, (k, (p_freq[i].1 + 1) as u32))
    }
}

/// `a` and `b` hold the same statistics.
pub open spec fn same_state(a: ForensicState, b: ForensicState) -> bool {
    &&& a.total_keys == b.total_keys
    &&& a.total_bytes_processed == b.total_bytes_processed
    &&& a.key_frequencies@ == b.key_frequencies@
    &&& a.max_depth_seen == b.max_depth_seen
    &&& a.anomaly_count == b.anomaly_count
}

/// `states` are the statistics before each of the first `upto` chunks and
/// after the last of them: starting from `start` (or from nothing), each
/// chunk's statistics added to the previous ones.
pub open spec fn sweep_chain(
    states: Seq<ForensicState>,
    start: Option<ForensicState>,
    data: Seq<Vec<u8>>,
    chunks: Seq<ChunkSpec>,
    upto: int,
) -> bool {
    &&& states.len() == upto + 1
    &&& match start {
        Some(p) => same_state(states[0], p),
        None => states[0].total_keys == 0 && states[0].total_bytes_processed == 0
            && states[0].key_frequencies@.len() == 0 && states[0].max_depth_seen == 0
            && states[0].anomaly_count == 0,
    }
    &&& forall|i: int|
        0 <= i < upto ==> step_fits(Some(#[trigger] states[i]), data[i]@, chunks[i].chunk_id) && stepped(
            Some(states[i]),
            data[i]@,
            chunks[i].chunk_id,
            states[i + 1],
        )
}

impl ChunkedStreamSweep {
    /// The statistics of the whole plan: the chunks' contents `chunk_data`
    /// (read by the caller, chunk by chunk) swept in order from `start`
    /// (a checkpoint's statistics, or nothing).  `None` when a chunk's
    /// statistics would exceed the counters' ranges.
    pub fn process(&self, chunk_data: &Vec<Vec<u8>>, start: Option<&ForensicState>) -> (r: Option<ForensicState>)
        requires
            chunk_data.len() == self.spec_chunker().spec_chunks().len(),
        ensures
            ({
                let s0 = match start {
                    Some(p) => Some(*p),
                    None => None,
                };
                let n = chunk_data.len() as int;
                let chunks = self.spec_chunker().spec_chunks();
                &&& r matches Some(s) ==> exists|states: Seq<ForensicState>|
                    sweep_chain(states, s0, chunk_data@, chunks, n) && same_state(#[trigger] states[n], s)
                &&& r is None ==> exists|states: Seq<ForensicState>, i: int|
                    0 <= i < n && sweep_chain(states, s0, chunk_data@, chunks, i) && !step_fits(
                        Some(#[trigger] states[i]),
                        chunk_data@[i]@,
                        chunks[i].chunk_id,
                    )
            }),
    {
        let ghost s0 = match start {
            Some(p) => Some(*p),
            None => None,
        };
        let ghost chunks = self.spec_chunker().spec_chunks();
        let plan = self.chunker.get_chunks();
        let mut current = match start {
            Some(p) => copy_state(p),
            None => empty_state(),
        };
        let ghost mut states: Seq<ForensicState> = seq![current];
        let mut i: usize = 0;
        while i < chunk_data.len()
            invariant
                i <= chunk_data.len(),
                chunk_data.len() == chunks.len(),
                plan@ == chunks,
                chunks == self.spec_chunker().spec_chunks(),
                s0 == (match start {
                    Some(p) => Some(*p),
                    None => None::<ForensicState>,
                }),
                sweep_chain(states, s0, chunk_data@, chunks, i as int),
                states[i as int] == current,
            decreases chunk_data.len() - i,
        {
            let data = &chunk_data[i];
            let id = plan[i].chunk_id;
            let len = data.len();
            let fits = if len > 2147483647 || (current.total_keys as u64) + (len as u64) > 4294967295
                || (current.anomaly_count as u64) + (len as u64) > 4294967295
                || current.total_bytes_processed > u64::MAX - (len as u64) {
                false
            } else {
                let key = chunk_key_string(id);
                match find_frequency(&current.key_frequencies, &key) {
                    Some(j) => current.key_frequencies[j].1 < 4294967295,
                    None => true,
                }
            };
            if !fits {
                proof {
                    lemma_freq_index(current.key_frequencies@, chunk_key(id as nat));
                    assert(!step_fits(Some(states[i as int]), chunk_data@[i as int]@, chunks[i as int].chunk_id));
                    let ii = i as int;
                    assert(0 <= ii < chunk_data@.len() && sweep_chain(states, s0, chunk_data@, chunks, ii) && !step_fits(
                        Some(states[ii]),
                        chunk_data@[ii]@,
                        chunks[ii].chunk_id,
                    ));
                }
                return None;
            }
            proof {
                lemma_freq_index(current.key_frequencies@, chunk_key(id as nat));
            }
            let next = self.process_chunk_with_streamsweep(data.as_slice(), &plan[i], Some(&current));
            proof {
                let old_states = states;
                states = states.push(next);
                assert forall|k: int| 0 <= k < i + 1 implies step_fits(Some(#[trigger] states[k]), chunk_data@[k]@, chunks[k].chunk_id)
                    && stepped(Some(states[k]), chunk_data@[k]@, chunks[k].chunk_id, states[k + 1]) by {
                    if k < i {
                        assert(states[k] == old_states[k]);
                        assert(states[k + 1] == old_states[k + 1]);
                    }
                }
            }
            current = next;
            i = i + 1;
        }
        assert(same_state(states[chunk_data.len() as int], current));
        Some(current)
    }
}

/// `chunk_<id>_pattern`.
fn chunk_key_string(id: usize) -> (r: String)
    ensures
        r@ == chunk_key(id as nat),
{
    let mut s = String::from_str("chunk_");
    let digits = crate::text::u64_to_string(id as u64);
    s.append(digits.as_str());
    s.append("_pattern");
    s
}

/// A copy of a state.
pub fn copy_state(s: &ForensicState) -> (r: ForensicState)
    ensures
        r.total_keys == s.total_keys,
        r.total_bytes_processed == s.total_bytes_processed,
        r.key_frequencies@ == s.key_frequencies@,
        r.max_depth_seen == s.max_depth_seen,
        r.anomaly_count == s.anomaly_count,
{
    let mut f: Vec<(String, u32)> = Vec::new();
    let mut i: usize = 0;
    while i < s.key_frequencies.len()
        invariant
            i <= s.key_frequencies.len(),
            f@ == s.key_frequencies@.take(i as int),
        decreases s.key_frequencies.len() - i,
    {
        let name = s.key_frequencies[i].0.clone();
        f.push((name, s.key_frequencies[i].1));
        i = i + 1;
        assert(f@ =~= s.key_frequencies@.take(i as int));
    }
    assert(f@ =~= s.key_frequencies@);
    ForensicState {
        total_keys: s.total_keys,
        total_bytes_processed: s.total_bytes_processed,
        key_frequencies: f,
        max_depth_seen: s.max_depth_seen,
        anomaly_count: s.anomaly_count,
    }
}

/// A chunk size suited to a file of `file_size` bytes: 256 kB up to 1 MB,
/// 1 MB up to 100 MB, 10 MB up to 1 GB, 100 MB beyond.
pub fn get_optimal_chunk_size(file_size: u64) -> (r: u64)
    ensures
        r == optimal_size(file_size),
{
    if file_size <= 1_000_000 {
        256_000
    } else if file_size <= 100_000_000 {
        1_000_000
    } else if file_size <= 1_000_000_000 {
        10_000_000
    } else {
        100_000_000
    }
}

pub open spec fn optimal_size(file_size: u64) -> u64 {
    if file_size <= 1_000_000 {
        256_000
    } else if file_size <= 100_000_000 {
        1_000_000
    } else if file_size <= 1_000_000_000 {
        10_000_000
    } else {
        100_000_000
    }
}

/// Law: the chunk size grows with the file and steps through four sizes:
/// 256 000 bytes for files of at most 10⁶ bytes, 10⁶ up to 10⁸, 10⁷ up to
/// 10⁹ and 10⁸ beyond.
pub proof fn lemma_chunk_size_steps(a: u64, b: u64)
    ensures
        a <= b ==> optimal_size(a) <= optimal_size(b),
        a <= 1000000 ==> optimal_size(a) == 256000,
        1000000 < a <= 100000000 ==> optimal_size(a) == 1000000,
        100000000 < a <= 1000000000 ==> optimal_size(a) == 10000000,
        1000000000 < a ==> optimal_size(a) == 100000000,
{
}

/// Seconds needed for a file: two per chunk.
pub fn estimate_processing_time(file_size: u64, chunk_size: u64) -> (r: u64)
    requires
        chunk_size > 0,
        file_size + chunk_size - 1 <= u64::MAX,
        ((file_size + chunk_size - 1) as nat / chunk_size as nat) * 2 <= u64::MAX,
    ensures
        r == chunk_count(file_size as nat, chunk_size as nat) * 2,
{
    let chunks = (file_size + (chunk_size - 1)) / chunk_size;
    chunks * 2
}

} // verus!
