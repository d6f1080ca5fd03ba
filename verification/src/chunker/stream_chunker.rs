//! Chunking of any byte stream with resumable processing: the chunk plan, the
//! state carried between chunks, where a resumed run starts, and how the state
//! advances after each chunk.  Reading bytes and storing checkpoints happen
//! outside the library.
use vstd::prelude::*;
use crate::chunker::plan::{chunk_count, chunk_end, chunk_start, is_plan, plan_ranges};
use crate::text::{kv_find, kv_get, kv_set};

verus! {

/// One contiguous byte range of the stream.
#[derive(PartialEq, Eq, Structural, Clone, Copy, Debug)]
pub struct StreamChunk {
    pub id: usize,
    pub start: u64,
    pub end: u64,
    pub size: u64,
}

/// State carried from chunk to chunk; consumers keep their own values in
/// `custom_data`.
pub struct StreamState {
    pub bytes_processed: u64,
    pub chunks_completed: Vec<usize>,
    pub custom_data: Vec<(String, String)>,
}

/// What a resumed run starts from.
pub struct StreamCheckpoint {
    pub stream_source: String,
    pub current_position: u64,
    pub state: StreamState,
    pub total_size: u64,
    pub chunk_size: u64,
}

/// The chunk plan of one stream.
pub struct StreamChunker {
    source: String,
    chunk_size: u64,
    total_size: u64,
    checkpoint_path: String,
}

/// Configures a [`StreamChunker`].
pub struct StreamProcessorBuilder {
    chunk_size: Option<u64>,
    checkpoint_enabled: bool,
}

/// Hands chunks to independent workers.
pub struct ParallelStreamProcessor {
    chunker: StreamChunker,
}

impl StreamState {
    /// Nothing processed yet.
    pub fn default() -> (s: Self)
        ensures
            s.bytes_processed == 0,
            s.chunks_completed@.len() == 0,
            s.custom_data@.len() == 0,
    {
        StreamState { bytes_processed: 0, chunks_completed: Vec::new(), custom_data: Vec::new() }
    }

    /// Sets `key` to `value` in the custom data, replacing an earlier value.
    pub fn set_custom(&mut self, key: &str, value: String)
        ensures
            final(self).bytes_processed == old(self).bytes_processed,
            final(self).chunks_completed == old(self).chunks_completed,
            kv_get(final(self).custom_data@, key@) == Some(value@),
            forall|k: Seq<char>| k != key@ ==> kv_get(final(self).custom_data@, k) == kv_get(
                old(self).custom_data@,
                k,
            ),
    {
        kv_set(&mut self.custom_data, key, value);
    }

    /// The custom value of `key`.
    pub fn get_custom(&self, key: &str) -> (r: Option<&String>)
        ensures
            match r {
                Some(v) => kv_get(self.custom_data@, key@) == Some(v@),
                None => kv_get(self.custom_data@, key@) is None,
            },
    {
        kv_find(&self.custom_data, key)
    }
}

/// `chunks` is the plan of a stream of `size` bytes in chunks of `cs` bytes.
pub open spec fn stream_plan(chunks: Seq<StreamChunk>, size: nat, cs: nat) -> bool {
    &&& chunks.len() == (if size == 0 { 0 } else { chunk_count(size, cs) })
    &&& forall|i: int|
        0 <= i < chunks.len() ==> (#[trigger] chunks[i]).id == i && chunks[i].start == chunk_start(
            i as nat,
            cs,
        ) && chunks[i].end == chunk_end(i as nat, cs, size) && chunks[i].size == chunks[i].end
            - chunks[i].start + 1
}

impl StreamChunker {
    /// The chunker of `source`, a stream of `total_size` bytes; the checkpoint
    /// lives beside it with the extension `stream_checkpoint`.
    pub fn new(source: &str, total_size: u64, chunk_size: u64) -> (c: Self)
        ensures
            c.spec_source() == source@,
            c.spec_size() == total_size,
            c.spec_chunk_size() == chunk_size,
            c.spec_checkpoint_path() == crate::paths::path_with_extension(
                source@,
                "stream_checkpoint"@,
            ),
    {
        proof {
            reveal_strlit("stream_checkpoint");
        }
        let checkpoint_path = crate::paths::with_extension(source, "stream_checkpoint");
        StreamChunker { source: String::from_str(source), chunk_size, total_size, checkpoint_path }
    }

    pub closed spec fn spec_source(&self) -> Seq<char> {
        self.source@
    }

    pub closed spec fn spec_chunk_size(&self) -> u64 {
        self.chunk_size
    }

    pub closed spec fn spec_checkpoint_path(&self) -> Seq<char> {
        self.checkpoint_path@
    }

    /// The chunk plan of the stream (empty for an empty stream).
    pub fn get_chunks(&self) -> (r: Vec<StreamChunk>)
        requires
            self.spec_chunk_size() > 0 || self.spec_size() == 0,
        ensures
            stream_plan(r@, self.spec_size() as nat, self.spec_chunk_size() as nat),
    {
        let mut r: Vec<StreamChunk> = Vec::new();
        if self.total_size == 0 {
            return r;
        }
        let ranges = plan_ranges(self.total_size, self.chunk_size);
        let mut i: usize = 0;
        while i < ranges.len()
            invariant
                is_plan(ranges@, self.total_size as nat, self.chunk_size as nat),
                self.chunk_size > 0,
                self.total_size > 0,
                i <= ranges.len(),
                r.len() == i,
                forall|j: int|
                    0 <= j < i ==> (#[trigger] r@[j]).id == j && r@[j].start == ranges@[j].0
                        && r@[j].end == ranges@[j].1 && r@[j].size == r@[j].end - r@[j].start + 1,
            decreases ranges.len() - i,
        {
            let (s, e) = ranges[i];
            proof {
                crate::chunker::plan::lemma_plan_partition(
                    ranges@,
                    self.total_size as nat,
                    self.chunk_size as nat,
                );
                assert(ranges@[i as int].0 <= ranges@[i as int].1);
            }
            r.push(StreamChunk { id: i, start: s, end: e, size: e - s + 1 });
            i = i + 1;
        }
        r
    }

    /// The size of the stream.
    pub fn size(&self) -> (r: u64)
        ensures
            r == self.spec_size(),
    {
        self.total_size
    }

    pub closed spec fn spec_size(&self) -> u64 {
        self.total_size
    }

    /// The source of the stream.
    pub fn source(&self) -> (r: &String)
        ensures
            r@ == self.spec_source(),
    {
        &self.source
    }

    /// The chunk size.
    pub fn chunk_size(&self) -> (r: u64)
        ensures
            r == self.spec_chunk_size(),
    {
        self.chunk_size
    }

    /// Where the checkpoint is stored.
    pub fn checkpoint_path(&self) -> (r: &String)
        ensures
            r@ == self.spec_checkpoint_path(),
    {
        &self.checkpoint_path
    }

    /// The checkpoint of a run that has not started.
    pub fn initial_checkpoint(&self) -> (c: StreamCheckpoint)
        ensures
            c.stream_source@ == self.spec_source(),
            c.current_position == 0,
            c.state.bytes_processed == 0,
            c.state.chunks_completed@.len() == 0,
            c.state.custom_data@.len() == 0,
            c.total_size == self.spec_size(),
            c.chunk_size == self.spec_chunk_size(),
    {
        StreamCheckpoint {
            stream_source: self.source.clone(),
            current_position: 0,
            state: StreamState::default(),
            total_size: self.total_size,
            chunk_size: self.chunk_size,
        }
    }

    /// A stored checkpoint belongs to this stream.
    pub fn checkpoint_matches(&self, checkpoint: &StreamCheckpoint) -> (r: bool)
        ensures
            r == (checkpoint.stream_source@ == self.spec_source()),
    {
        checkpoint.stream_source == self.source
    }
}

/// Where a resumed run starts: the first chunk that starts at or after the
/// checkpoint's position, or the first chunk when there is none.
pub fn start_chunk(chunks: &Vec<StreamChunk>, position: u64) -> (r: usize)
    ensures
        r <= chunks.len(),
        (exists|i: int| 0 <= i < chunks.len() && chunks@[i].start >= position) ==> (r < chunks.len()
            && chunks@[r as int].start >= position && forall|j: int|
            0 <= j < r ==> (#[trigger] chunks@[j]).start < position),
        (forall|i: int| 0 <= i < chunks.len() ==> (#[trigger] chunks@[i]).start < position) ==> r
            == 0,
{
    let mut i: usize = 0;
    while i < chunks.len()
        invariant
            i <= chunks.len(),
            forall|j: int| 0 <= j < i ==> (#[trigger] chunks@[j]).start < position,
        decreases chunks.len() - i,
    {
        if chunks[i].start >= position {
            return i;
        }
        i = i + 1;
    }
    0
}

/// The chunks a resumed run still has to process: from the start chunk on,
/// those not recorded as completed.
pub fn pending_chunks(chunks: &Vec<StreamChunk>, checkpoint: &StreamCheckpoint) -> (r: Vec<StreamChunk>)
    ensures
        r@ == chunks@.subrange(start_chunk_spec(chunks@, checkpoint.current_position), chunks@.len() as int).filter(
            |c: StreamChunk| !checkpoint.state.chunks_completed@.contains(c.id),
        ),
{
    let s = start_chunk(chunks, checkpoint.current_position);
    proof {
        lemma_start_chunk_spec(chunks@, checkpoint.current_position, s as int);
    }
    let mut r: Vec<StreamChunk> = Vec::new();
    let ghost all = chunks@.subrange(s as int, chunks@.len() as int);
    let ghost f = |c: StreamChunk| !checkpoint.state.chunks_completed@.contains(c.id);
    assert(all.take(0) =~= Seq::<StreamChunk>::empty());
    proof {
        reveal(Seq::filter);
    }
    assert(all.take(0).filter(f) =~= Seq::<StreamChunk>::empty());
    let mut i: usize = s;
    while i < chunks.len()
        invariant
            s <= i <= chunks.len(),
            all == chunks@.subrange(s as int, chunks@.len() as int),
            f == (|c: StreamChunk| !checkpoint.state.chunks_completed@.contains(c.id)),
            r@ == all.take(i - s).filter(f),
        decreases chunks.len() - i,
    {
        let c = chunks[i];
        let k = i - s;
        assert(all.take(k + 1).drop_last() =~= all.take(k as int));
        assert(all.take(k + 1).last() == c);
        proof {
            reveal(Seq::filter);
        }
        if !crate::chunker::file_chunking::contains_usize(&checkpoint.state.chunks_completed, c.id) {
            r.push(c);
        }
        i = i + 1;
    }
    assert(all.take(chunks.len() - s) =~= all);
    r
}

/// The index [`start_chunk`] returns.
pub open spec fn start_chunk_spec(chunks: Seq<StreamChunk>, position: u64) -> int {
    if exists|i: int| 0 <= i < chunks.len() && chunks[i].start >= position {
        choose|i: int|
            0 <= i < chunks.len() && chunks[i].start >= position && forall|j: int|
                0 <= j < i ==> (#[trigger] chunks[j]).start < position
    } else {
        0
    }
}

proof fn lemma_start_chunk_spec(chunks: Seq<StreamChunk>, position: u64, r: int)
    requires
        0 <= r <= chunks.len(),
        (exists|i: int| 0 <= i < chunks.len() && chunks[i].start >= position) ==> (r < chunks.len()
            && chunks[r].start >= position && forall|j: int|
            0 <= j < r ==> (#[trigger] chunks[j]).start < position),
        (forall|i: int| 0 <= i < chunks.len() ==> (#[trigger] chunks[i]).start < position) ==> r
            == 0,
    ensures
        start_chunk_spec(chunks, position) == r,
{
    if exists|i: int| 0 <= i < chunks.len() && chunks[i].start >= position {
        let c = choose|i: int|
            0 <= i < chunks.len() && chunks[i].start >= position && forall|j: int|
                0 <= j < i ==> (#[trigger] chunks[j]).start < position;
        assert(0 <= r < chunks.len() && chunks[r].start >= position && forall|j: int|
            0 <= j < r ==> (#[trigger] chunks[j]).start < position);
        if c < r {
            assert(chunks[c].start < position);
        } else if c > r {
            assert(chunks[r].start < position);
        }
    }
}

/// The checkpoint after `chunk` was processed into `new_state`.
pub fn record_chunk(checkpoint: &mut StreamCheckpoint, chunk: &StreamChunk, new_state: StreamState)
    requires
        chunk.end < u64::MAX,
    ensures
        final(checkpoint).state.bytes_processed == chunk.end + 1,
        final(checkpoint).state.chunks_completed@ == new_state.chunks_completed@.push(chunk.id),
        final(checkpoint).state.custom_data == new_state.custom_data,
        final(checkpoint).current_position == chunk.end + 1,
        final(checkpoint).stream_source == old(checkpoint).stream_source,
        final(checkpoint).total_size == old(checkpoint).total_size,
        final(checkpoint).chunk_size == old(checkpoint).chunk_size,
{
    checkpoint.state = new_state;
    checkpoint.state.bytes_processed = chunk.end + 1;
    checkpoint.state.chunks_completed.push(chunk.id);
    checkpoint.current_position = chunk.end + 1;
}

impl StreamProcessorBuilder {
    /// No chunk size chosen; checkpoints enabled.
    pub fn default() -> (b: Self)
        ensures
            b.spec_chunk_size() is None,
            b.spec_checkpoint_enabled(),
    {
        StreamProcessorBuilder { chunk_size: None, checkpoint_enabled: true }
    }

    /// No chunk size chosen; checkpoints enabled.
    pub fn new() -> (b: Self)
        ensures
            b.spec_chunk_size() is None,
            b.spec_checkpoint_enabled(),
    {
        Self::default()
    }

    pub closed spec fn spec_chunk_size(&self) -> Option<u64> {
        self.chunk_size
    }

    pub closed spec fn spec_checkpoint_enabled(&self) -> bool {
        self.checkpoint_enabled
    }

    /// Chooses the chunk size.
    pub fn chunk_size(self, size: u64) -> (b: Self)
        ensures
            b.spec_chunk_size() == Some(size),
            b.spec_checkpoint_enabled() == self.spec_checkpoint_enabled(),
    {
        StreamProcessorBuilder { chunk_size: Some(size), ..self }
    }

    /// Enables or disables checkpoints.
    pub fn checkpoint_enabled(self, enabled: bool) -> (b: Self)
        ensures
            b.spec_checkpoint_enabled() == enabled,
            b.spec_chunk_size() == self.spec_chunk_size(),
    {
        StreamProcessorBuilder { checkpoint_enabled: enabled, ..self }
    }

    /// The chunker of `source`, a stream of `total_size` bytes (or of unknown
    /// size, counted as empty): the chosen chunk size, or the one suited to
    /// the size.
    pub fn build_with_size(self, source: &str, total_size: Option<u64>) -> (c: StreamChunker)
        ensures
            c.spec_source() == source@,
            c.spec_chunk_size() == match self.spec_chunk_size() {
                Some(s) => s,
                None => crate::chunker::file_chunking::optimal_size(
                    match total_size {
                        Some(n) => n,
                        None => 0,
                    },
                ),
            },
            c.spec_size() == match total_size {
                Some(n) => n,
                None => 0,
            },
    {
        let size = match total_size {
            Some(n) => n,
            None => 0,
        };
        let chunk_size = match self.chunk_size {
            Some(s) => s,
            None => optimal_chunk_size(size),
        };
        StreamChunker::new(source, size, chunk_size)
    }
}

/// A chunk size suited to a stream of `file_size` bytes.
pub fn optimal_chunk_size(file_size: u64) -> (r: u64)
    ensures
        r == crate::chunker::file_chunking::optimal_size(file_size),
{
    crate::chunker::file_chunking::get_optimal_chunk_size(file_size)
}

impl ParallelStreamProcessor {
    /// Workers over the chunks of `chunker`.
    pub fn new(chunker: StreamChunker) -> (p: Self)
        ensures
            p.spec_chunker() == chunker,
    {
        ParallelStreamProcessor { chunker }
    }

    pub closed spec fn spec_chunker(&self) -> StreamChunker {
        self.chunker
    }

    /// The chunker the workers share.
    pub fn chunker(&self) -> (r: &StreamChunker)
        ensures
            *r == self.spec_chunker(),
    {
        &self.chunker
    }
}

} // verus!
