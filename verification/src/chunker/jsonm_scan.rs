//! A lightweight streaming scanner for JSON-like text: it groups consecutive
//! characters of one class into patterns, checks that closing brackets never
//! outnumber opening ones, records every word or number it sees with the
//! array positions around it, and gathers depth and anomaly statistics.
//!
//! Its abstract state is [`ScanModel`]; [`scan_step`] is the transition
//! function that every executable entry point is proved against.
use vstd::prelude::*;
use crate::text::{dec_digits, join_spec, push_char};

verus! {

/// The class of a character.
#[derive(PartialEq, Eq, Structural, Clone, Copy, Debug)]
pub enum CharType {
    Structure,
    Alphanumeric,
    Numeric,
    Hexadecimal,
    Whitespace,
    Special,
}

/// The type inferred for a recorded word or number.
#[derive(PartialEq, Eq, Structural, Clone, Copy, Debug)]
pub enum ValueType {
    Number,
    Text,
    Hash,
    Identifier,
    Boolean,
    Unknown,
}

/// How the scanner intends to hold its collected data.
#[derive(PartialEq, Eq, Structural, Clone, Copy, Debug)]
pub enum ProcessingMode {
    InMemory,
    Hybrid,
    Streaming,
}

/// One open object or array.
pub enum ContextType {
    Object { current_key: Option<String> },
    Array { current_index: u64 },
}

/// The characters of the pattern being read.
pub struct PatternBuffer {
    pub char_type: CharType,
    pub content: String,
    pub start_position: u64,
    pub end_position: u64,
    pub context_depth: u64,
}

/// Statistics of one recorded word or number.
pub struct KeyStats {
    pub token: String,
    pub id: u64,
    pub frequency: u64,
    pub positions: Vec<u64>,
    pub contexts: Vec<String>,
    pub value_types: Vec<ValueType>,
}

/// A noteworthy observation.
pub struct Anomaly {
    pub anomaly_type: String,
    pub description: String,
    pub position: u64,
}

/// The tokens produced for a scanned document.
pub struct MeteorStream {
    pub context: String,
    pub namespace: String,
    pub tokens: Vec<String>,
}

/// Byte and structure counts.
#[derive(PartialEq, Eq, Structural, Clone, Copy, Debug)]
pub struct SizeEstimates {
    pub total_bytes: u64,
    pub estimated_objects: u64,
    pub estimated_arrays: u64,
}

/// Counts, depth distribution and anomalies gathered while scanning.
pub struct ForensicStats {
    pub total_keys: u64,
    pub depth_distribution: Vec<(i64, u64)>,
    pub anomalies: Vec<Anomaly>,
    pub size_estimates: SizeEstimates,
}

/// Depth, balance and open containers.
pub struct StructuralState {
    pub depth: i64,
    pub balance: i64,
    pub max_depth: i64,
    pub context_stack: Vec<ContextType>,
}

/// A snapshot from which scanning can be resumed.
pub struct Checkpoint {
    pub byte_position: u64,
    pub structural_state: StructuralState,
    pub key_dictionary: Vec<KeyStats>,
    pub forensic_stats: ForensicStats,
}

/// The streaming scanner.
pub struct JsonmProcessor {
    current_position: u64,
    structural_state: StructuralState,
    pattern_buffer: Option<PatternBuffer>,
    key_dictionary: Vec<KeyStats>,
    forensic_stats: ForensicStats,
    next_key_id: u64,
    memory_threshold: usize,
    processing_mode: ProcessingMode,
}

// ---------------------------------------------------------------------------
// The abstract state
// ---------------------------------------------------------------------------

pub enum FrameModel {
    Object { key: Option<Seq<char>> },
    Array { index: nat },
}

pub struct BufferModel {
    pub kind: CharType,
    pub content: Seq<char>,
    pub start: u64,
    pub end: u64,
    pub context_depth: u64,
}

pub struct KeyModel {
    pub token: Seq<char>,
    pub id: u64,
    pub frequency: u64,
    pub positions: Seq<u64>,
    pub contexts: Seq<Seq<char>>,
    pub value_types: Seq<ValueType>,
}

pub struct AnomalyModel {
    pub kind: Seq<char>,
    pub description: Seq<char>,
    pub position: u64,
}

pub struct ScanModel {
    pub position: u64,
    pub depth: i64,
    pub balance: i64,
    pub max_depth: i64,
    pub frames: Seq<FrameModel>,
    pub buffer: Option<BufferModel>,
    pub keys: Seq<KeyModel>,
    pub total_keys: u64,
    pub depth_counts: Seq<(i64, u64)>,
    pub anomalies: Seq<AnomalyModel>,
    pub total_bytes: u64,
    pub objects: u64,
    pub arrays: u64,
    pub next_key_id: u64,
    pub memory_threshold: usize,
    pub mode: ProcessingMode,
}

impl ContextType {
    pub open spec fn model(self) -> FrameModel {
        match self {
            ContextType::Object { current_key } => FrameModel::Object {
                key: match current_key {
                    Some(k) => Some(k@),
                    None => None,
                },
            },
            ContextType::Array { current_index } => FrameModel::Array { index: current_index as nat },
        }
    }
}

impl PatternBuffer {
    pub open spec fn model(self) -> BufferModel {
        BufferModel {
            kind: self.char_type,
            content: self.content@,
            start: self.start_position,
            end: self.end_position,
            context_depth: self.context_depth,
        }
    }
}

impl KeyStats {
    pub open spec fn model(self) -> KeyModel {
        KeyModel {
            token: self.token@,
            id: self.id,
            frequency: self.frequency,
            positions: self.positions@,
            contexts: self.contexts@.map_values(|s: String| s@),
            value_types: self.value_types@,
        }
    }
}

impl Anomaly {
    pub open spec fn model(self) -> AnomalyModel {
        AnomalyModel { kind: self.anomaly_type@, description: self.description@, position: self.position }
    }
}

impl JsonmProcessor {
    /// The abstract state of the scanner.
    pub closed spec fn model(&self) -> ScanModel {
        ScanModel {
            position: self.current_position,
            depth: self.structural_state.depth,
            balance: self.structural_state.balance,
            max_depth: self.structural_state.max_depth,
            frames: frames_model(self.structural_state.context_stack@),
            buffer: match self.pattern_buffer {
                Some(b) => Some(b.model()),
                None => None,
            },
            keys: keys_model(self.key_dictionary@),
            total_keys: self.forensic_stats.total_keys,
            depth_counts: self.forensic_stats.depth_distribution@,
            anomalies: anomalies_model(self.forensic_stats.anomalies@),
            total_bytes: self.forensic_stats.size_estimates.total_bytes,
            objects: self.forensic_stats.size_estimates.estimated_objects,
            arrays: self.forensic_stats.size_estimates.estimated_arrays,
            next_key_id: self.next_key_id,
            memory_threshold: self.memory_threshold,
            mode: self.processing_mode,
        }
    }
}

pub open spec fn frames_model(v: Seq<ContextType>) -> Seq<FrameModel> {
    v.map_values(|f: ContextType| f.model())
}

pub open spec fn keys_model(v: Seq<KeyStats>) -> Seq<KeyModel> {
    v.map_values(|k: KeyStats| k.model())
}

pub open spec fn anomalies_model(v: Seq<Anomaly>) -> Seq<AnomalyModel> {
    v.map_values(|a: Anomaly| a.model())
}

// ---------------------------------------------------------------------------
// The transition function
// ---------------------------------------------------------------------------

/// The class of a character: brackets, colon, quote and comma are structure;
/// letters are alphanumeric and digits numeric; space, tab and line breaks
/// are whitespace; everything else is special.
pub open spec fn classify(ch: char) -> CharType {
    if ch == '{' || ch == '}' || ch == '[' || ch == ']' || ch == ':' || ch == '"' || ch == ',' {
        CharType::Structure
    } else if '0' <= ch && ch <= '9' {
        CharType::Numeric
    } else if ('a' <= ch && ch <= 'z') || ('A' <= ch && ch <= 'Z') {
        CharType::Alphanumeric
    } else if ch == ' ' || ch == '\t' || ch == '\n' || ch == '\r' {
        CharType::Whitespace
    } else {
        CharType::Special
    }
}

/// Law: the character classes, by code point. Brackets, braces, colon,
/// quote and comma are structure; `0`-`9` numeric; ASCII letters
/// alphanumeric; space, tab, line feed and carriage return whitespace;
/// everything else special (no character is classed hexadecimal).
pub proof fn lemma_scan_char_classes(ch: char)
    ensures
        classify(ch) == CharType::Structure <==> set!['{', '}', '[', ']', ':', '"', ','].contains(ch),
        classify(ch) == CharType::Numeric <==> 48 <= (ch as u32) && (ch as u32) <= 57,
        classify(ch) == CharType::Alphanumeric <==> (65 <= (ch as u32) && (ch as u32) <= 90) || (97 <= (
        ch as u32) && (ch as u32) <= 122),
        classify(ch) == CharType::Whitespace <==> set![' ', '\t', '\n', '\r'].contains(ch),
        classify(ch) != CharType::Hexadecimal,
{
}

pub open spec fn is_ascii_digit(c: char) -> bool {
    '0' <= c && c <= '9'
}

pub open spec fn is_ascii_hex(c: char) -> bool {
    ('0' <= c && c <= '9') || ('a' <= c && c <= 'f') || ('A' <= c && c <= 'F')
}

pub open spec fn is_ascii_alnum(c: char) -> bool {
    ('0' <= c && c <= '9') || ('a' <= c && c <= 'z') || ('A' <= c && c <= 'Z')
}

/// The type of a recorded word or number (whose characters are ASCII letters
/// and digits).
pub open spec fn infer_type(s: Seq<char>) -> ValueType {
    if forall|i: int|
        0 <= i < s.len() ==> is_ascii_digit(#[trigger] s[i]) || s[i] == '.' || s[i] == '-' || s[i]
            == '+' {
        ValueType::Number
    } else if s.len() == 32 && forall|i: int| 0 <= i < s.len() ==> is_ascii_hex(#[trigger] s[i]) {
        ValueType::Hash
    } else if s.len() < 20 && forall|i: int| 0 <= i < s.len() ==> is_ascii_alnum(#[trigger] s[i]) {
        ValueType::Identifier
    } else if s == seq!['t', 'r', 'u', 'e'] || s == seq!['f', 'a', 'l', 's', 'e'] {
        ValueType::Boolean
    } else {
        ValueType::Text
    }
}

/// Law: how a recorded value is typed.  Content made only of ASCII digits,
/// `.`, `-` and `+` (of any length, the empty content included) is a
/// number, and nothing else is; a hash is 32 hexadecimal digits that are not
/// all decimal; an identifier is shorter than 20 characters, all ASCII
/// letters and digits, and neither a number nor a hash; a Boolean is `true`
/// or `false` only when it is none of these.
pub proof fn lemma_value_types(s: Seq<char>)
    ensures
        infer_type(s) == ValueType::Number <==> (forall|i: int|
            0 <= i < s.len() ==> ('0' <= #[trigger] s[i] && s[i] <= '9') || s[i] == '.' || s[i] == '-' || s[i]
                == '+'),
        infer_type(s) == ValueType::Hash <==> (infer_type(s) != ValueType::Number && s.len() == 32 && forall|i: int|
            0 <= i < s.len() ==> ('0' <= #[trigger] s[i] && s[i] <= '9') || ('a' <= s[i] && s[i] <= 'f') || ('A'
                <= s[i] && s[i] <= 'F')),
        infer_type(s) == ValueType::Identifier ==> s.len() < 20 && forall|i: int|
            0 <= i < s.len() ==> ('0' <= #[trigger] s[i] && s[i] <= '9') || ('a' <= s[i] && s[i] <= 'z') || ('A'
                <= s[i] && s[i] <= 'Z'),
        infer_type(s) == ValueType::Boolean ==> s == seq!['t', 'r', 'u', 'e'] || s == seq!['f', 'a', 'l', 's', 'e'],
{
}

/// What a frame contributes to a context path.
pub open spec fn frame_part(f: FrameModel) -> Option<Seq<char>> {
    match f {
        FrameModel::Object { key } => key,
        FrameModel::Array { index } => Some(dec_digits(index)),
    }
}

pub open spec fn path_parts(frames: Seq<FrameModel>) -> Seq<Seq<char>>
    decreases frames.len(),
{
    if frames.len() == 0 {
        Seq::empty()
    } else {
        let rest = path_parts(frames.drop_last());
        match frame_part(frames.last()) {
            Some(p) => rest.push(p),
            None => rest,
        }
    }
}

/// The dotted context path of the open containers.
pub open spec fn context_path(frames: Seq<FrameModel>) -> Seq<char> {
    join_spec(path_parts(frames), seq!['.'])
}

/// Index of the entry of `t`, or -1.
pub open spec fn key_index(keys: Seq<KeyModel>, t: Seq<char>) -> int
    decreases keys.len(),
{
    if keys.len() == 0 {
        -1
    } else if keys.last().token == t {
        keys.len() - 1
    } else {
        key_index(keys.drop_last(), t)
    }
}

/// A word or number recorded with its start position and context.
pub open spec fn analyze(m: ScanModel, b: BufferModel) -> ScanModel {
    let i = key_index(m.keys, b.content);
    let path = context_path(m.frames);
    let ty = infer_type(b.content);
    if i < 0 {
        ScanModel {
            keys: m.keys.push(
                KeyModel {
                    token: b.content,
                    id: m.next_key_id,
                    frequency: 1,
                    positions: seq![b.start],
                    contexts: seq![path],
                    value_types: seq![ty],
                },
            ),
            next_key_id: (m.next_key_id + 1) as u64,
            total_keys: (m.total_keys + 1) as u64,
            ..m
        }
    } else {
        let e = m.keys[i];
        ScanModel {
            keys: m.keys.update(
                i,
                KeyModel {
                    frequency: (e.frequency + 1) as u64,
                    positions: e.positions.push(b.start),
                    contexts: e.contexts.push(path),
                    value_types: e.value_types.push(ty),
                    ..e
                },
            ),
            ..m
        }
    }
}

/// Index of the depth entry of `d`, or -1.
pub open spec fn depth_index(counts: Seq<(i64, u64)>, d: i64) -> int
    decreases counts.len(),
{
    if counts.len() == 0 {
        -1
    } else if counts.last().0 == d {
        counts.len() - 1
    } else {
        depth_index(counts.drop_last(), d)
    }
}

/// Number of bytes of the UTF-8 encoding of `s`.
pub open spec fn utf8_len(s: Seq<char>) -> nat {
    crate::chunker::jsonm::utf8_len(s)
}

pub open spec fn excessive_nesting_description(d: u64) -> Seq<char> {
    "Nesting depth "@ + dec_digits(d as nat) + " exceeds normal limits"@
}

/// Depth statistics and anomalies of a structural or special pattern.
pub open spec fn collect_stats(m: ScanModel, b: BufferModel) -> ScanModel {
    let d = b.context_depth as i64;
    let i = depth_index(m.depth_counts, d);
    let counts = if i < 0 {
        m.depth_counts.push((d, 1u64))
    } else {
        m.depth_counts.update(i, (d, (m.depth_counts[i].1 + 1) as u64))
    };
    let a1 = if b.context_depth > 20 {
        m.anomalies.push(
            AnomalyModel {
                kind: "excessive_nesting"@,
                description: excessive_nesting_description(b.context_depth),
                position: b.start,
            },
        )
    } else {
        m.anomalies
    };
    let a2 = if utf8_len(b.content) > 1000 {
        a1.push(
            AnomalyModel {
                kind: "large_token"@,
                description: "Token size exceeds normal limits"@,
                position: b.start,
            },
        )
    } else {
        a1
    };
    ScanModel { depth_counts: counts, anomalies: a2, ..m }
}

/// A completed pattern: words and numbers are recorded, whitespace counted,
/// and everything else feeds the depth and anomaly statistics.
pub open spec fn complete(m: ScanModel, b: BufferModel) -> ScanModel {
    match b.kind {
        CharType::Alphanumeric | CharType::Numeric => analyze(m, b),
        CharType::Whitespace => ScanModel {
            total_bytes: (m.total_bytes + utf8_len(b.content)) as u64,
            ..m
        },
        _ => collect_stats(m, b),
    }
}

/// The effect of a structural character on depth, balance and the frames;
/// rejected once closing brackets outnumber opening ones.
pub open spec fn structural(m: ScanModel, ch: char) -> Option<ScanModel> {
    let m1 = if ch == '{' || ch == '[' {
        let d = (m.depth + 1) as i64;
        ScanModel {
            depth: d,
            balance: (m.balance + 1) as i64,
            max_depth: if m.max_depth < d { d } else { m.max_depth },
            frames: m.frames.push(
                if ch == '{' {
                    FrameModel::Object { key: None }
                } else {
                    FrameModel::Array { index: 0 }
                },
            ),
            objects: if ch == '{' { (m.objects + 1) as u64 } else { m.objects },
            arrays: if ch == '[' { (m.arrays + 1) as u64 } else { m.arrays },
            ..m
        }
    } else if ch == '}' || ch == ']' {
        ScanModel {
            depth: (m.depth - 1) as i64,
            balance: (m.balance - 1) as i64,
            frames: if m.frames.len() > 0 { m.frames.drop_last() } else { m.frames },
            ..m
        }
    } else {
        m
    };
    if m1.balance < 0 {
        None
    } else {
        Some(m1)
    }
}

/// The state after one character at the current position, or `None` when it
/// closes more brackets than were opened.
pub open spec fn scan_step(m: ScanModel, ch: char) -> Option<ScanModel> {
    let ct = classify(ch);
    let m1 = match m.buffer {
        Some(b) => if b.kind == ct {
            ScanModel {
                buffer: Some(BufferModel { content: b.content.push(ch), end: m.position, ..b }),
                ..m
            }
        } else {
            let m0 = complete(ScanModel { buffer: None, ..m }, b);
            ScanModel {
                buffer: Some(
                    BufferModel {
                        kind: ct,
                        content: seq![ch],
                        start: m.position,
                        end: m.position,
                        context_depth: m.depth as u64,
                    },
                ),
                ..m0
            }
        },
        None => ScanModel {
            buffer: Some(
                BufferModel {
                    kind: ct,
                    content: seq![ch],
                    start: m.position,
                    end: m.position,
                    context_depth: m.depth as u64,
                },
            ),
            ..m
        },
    };
    if ct == CharType::Structure {
        structural(m1, ch)
    } else {
        Some(m1)
    }
}

pub open spec fn scan_advance(m: ScanModel) -> ScanModel {
    ScanModel { position: (m.position + 1) as u64, ..m }
}

/// Law: a run that accepts `s` advances the position by one per
/// character, so the position counts the characters read without error.
pub proof fn lemma_scan_run_position(m: ScanModel, s: Seq<char>)
    requires
        m.position + s.len() <= u64::MAX,
    ensures
        scan_run(m, s) matches Some(m2) ==> m2.position == m.position + s.len(),
    decreases s.len(),
{
    if s.len() > 0 {
        lemma_scan_run_position(m, s.drop_last());
    }
}

/// The state after the characters of `s`, or `None` if one is rejected.
pub open spec fn scan_run(m: ScanModel, s: Seq<char>) -> Option<ScanModel>
    decreases s.len(),
{
    if s.len() == 0 {
        Some(m)
    } else {
        match scan_run(m, s.drop_last()) {
            Some(m1) => match scan_step(m1, s.last()) {
                Some(m2) => Some(scan_advance(m2)),
                None => None,
            },
            None => None,
        }
    }
}

/// The mode after a memory-pressure check.
pub open spec fn pressure_mode(m: ScanModel) -> ProcessingMode {
    let size = m.keys.len() * 100 + m.anomalies.len() * 50;
    if size < m.memory_threshold {
        ProcessingMode::InMemory
    } else if size < m.memory_threshold * 10 {
        ProcessingMode::Hybrid
    } else {
        ProcessingMode::Streaming
    }
}

/// The token of one recorded occurrence: `context.word=word`, or `word=word`
/// outside any array.
pub open spec fn occurrence_token(context: Seq<char>, token: Seq<char>) -> Seq<char> {
    if context.len() == 0 {
        token + seq!['='] + token
    } else {
        context + seq!['.'] + token + seq!['='] + token
    }
}

/// The tokens of the recorded occurrences of one entry.
pub open spec fn entry_tokens(k: KeyModel) -> Seq<Seq<char>> {
    k.contexts.map_values(|c: Seq<char>| occurrence_token(c, k.token))
}

/// The tokens of all entries, entry by entry.
pub open spec fn all_tokens(keys: Seq<KeyModel>) -> Seq<Seq<char>>
    decreases keys.len(),
{
    if keys.len() == 0 {
        Seq::empty()
    } else {
        all_tokens(keys.drop_last()) + entry_tokens(keys.last())
    }
}

// ---------------------------------------------------------------------------
// Invariant
// ---------------------------------------------------------------------------

pub open spec fn buffer_len(m: ScanModel) -> nat {
    match m.buffer {
        Some(b) => b.content.len(),
        None => 0,
    }
}

/// Counters stay below the number of characters read, and no token or depth
/// has two entries.
pub open spec fn scan_wf(m: ScanModel) -> bool {
    &&& m.balance == m.depth
    &&& 0 <= m.depth <= m.max_depth <= m.position
    &&& m.total_bytes + buffer_len(m) <= m.position
    &&& m.objects <= m.position
    &&& m.arrays <= m.position
    &&& m.total_keys == m.keys.len()
    &&& m.next_key_id == m.total_keys + 1
    &&& m.total_keys <= m.position
    &&& forall|i: int| 0 <= i < m.keys.len() ==> (#[trigger] m.keys[i]).frequency <= m.position
    &&& forall|i: int|
        0 <= i < m.depth_counts.len() ==> (#[trigger] m.depth_counts[i]).1 <= m.position
    &&& match m.buffer {
        Some(b) => b.context_depth <= m.position && forall|i: int|
            0 <= i < b.content.len() ==> classify(#[trigger] b.content[i]) == b.kind,
        None => true,
    }
}


pub open spec fn initial_model() -> ScanModel {
    ScanModel {
        position: 0,
        depth: 0,
        balance: 0,
        max_depth: 0,
        frames: Seq::empty(),
        buffer: None,
        keys: Seq::empty(),
        total_keys: 0,
        depth_counts: Seq::empty(),
        anomalies: Seq::empty(),
        total_bytes: 0,
        objects: 0,
        arrays: 0,
        next_key_id: 1,
        memory_threshold: 5242880usize,
        mode: ProcessingMode::InMemory,
    }
}

// ---------------------------------------------------------------------------
// Executable code
// ---------------------------------------------------------------------------

/// The class of a character.
pub fn classify_char(ch: char) -> (r: CharType)
    ensures
        r == classify(ch),
{
    if ch == '{' || ch == '}' || ch == '[' || ch == ']' || ch == ':' || ch == '"' || ch == ',' {
        CharType::Structure
    } else if '0' <= ch && ch <= '9' {
        CharType::Numeric
    } else if ('a' <= ch && ch <= 'z') || ('A' <= ch && ch <= 'Z') {
        CharType::Alphanumeric
    } else if ch == ' ' || ch == '\t' || ch == '\n' || ch == '\r' {
        CharType::Whitespace
    } else {
        CharType::Special
    }
}

/// The type of a recorded word or number.
pub fn infer_value_type(content: &String) -> (r: ValueType)
    ensures
        r == infer_type(content@),
        r == ValueType::Number <==> (forall|i: int|
            0 <= i < content@.len() ==> ('0' <= #[trigger] content@[i] && content@[i] <= '9') || content@[i] == '.'
                || content@[i] == '-' || content@[i] == '+'),
{
    proof {
        lemma_value_types(content@);
    }
    let v = crate::text::chars_of(content.as_str());
    let n = v.len();
    let mut numeric = true;
    let mut hex = true;
    let mut alnum = true;
    let mut i: usize = 0;
    while i < n
        invariant
            n == v.len(),
            v@ == content@,
            i <= n,
            numeric == forall|j: int|
                0 <= j < i ==> is_ascii_digit(#[trigger] v@[j]) || v@[j] == '.' || v@[j] == '-'
                    || v@[j] == '+',
            hex == forall|j: int| 0 <= j < i ==> is_ascii_hex(#[trigger] v@[j]),
            alnum == forall|j: int| 0 <= j < i ==> is_ascii_alnum(#[trigger] v@[j]),
        decreases n - i,
    {
        let c = v[i];
        if !(('0' <= c && c <= '9') || c == '.' || c == '-' || c == '+') {
            numeric = false;
        }
        if !(('0' <= c && c <= '9') || ('a' <= c && c <= 'f') || ('A' <= c && c <= 'F')) {
            hex = false;
        }
        if !(('0' <= c && c <= '9') || ('a' <= c && c <= 'z') || ('A' <= c && c <= 'Z')) {
            alnum = false;
        }
        i = i + 1;
    }
    proof {
        reveal_strlit("true");
        reveal_strlit("false");
        assert("true"@ =~= seq!['t', 'r', 'u', 'e']);
        assert("false"@ =~= seq!['f', 'a', 'l', 's', 'e']);
    }
    if numeric {
        ValueType::Number
    } else if n == 32 && hex {
        ValueType::Hash
    } else if n < 20 && alnum {
        ValueType::Identifier
    } else if crate::text::str_eq(content.as_str(), "true") || crate::text::str_eq(
        content.as_str(),
        "false",
    ) {
        ValueType::Boolean
    } else {
        ValueType::Text
    }
}

fn copy_strings(v: &Vec<String>) -> (r: Vec<String>)
    ensures
        r@.map_values(|s: String| s@) == v@.map_values(|s: String| s@),
{
    let mut r: Vec<String> = Vec::new();
    let mut i: usize = 0;
    while i < v.len()
        invariant
            i <= v.len(),
            r.len() == i,
            forall|j: int| 0 <= j < i ==> (#[trigger] r@[j])@ == v@[j]@,
        decreases v.len() - i,
    {
        r.push(v[i].clone());
        i = i + 1;
    }
    assert(r@.map_values(|s: String| s@) =~= v@.map_values(|s: String| s@));
    r
}

impl ContextType {
    /// A copy of the frame.
    pub fn copy(&self) -> (r: Self)
        ensures
            r.model() == self.model(),
    {
        match self {
            ContextType::Object { current_key } => ContextType::Object {
                current_key: match current_key {
                    Some(k) => Some(k.clone()),
                    None => None,
                },
            },
            ContextType::Array { current_index } => ContextType::Array {
                current_index: *current_index,
            },
        }
    }
}

impl KeyStats {
    /// A copy of the entry.
    pub fn copy(&self) -> (r: Self)
        ensures
            r.model() == self.model(),
    {
        KeyStats {
            token: self.token.clone(),
            id: self.id,
            frequency: self.frequency,
            positions: self.positions.clone(),
            contexts: copy_strings(&self.contexts),
            value_types: self.value_types.clone(),
        }
    }
}

impl Anomaly {
    /// A copy of the anomaly.
    pub fn copy(&self) -> (r: Self)
        ensures
            r.model() == self.model(),
    {
        Anomaly {
            anomaly_type: self.anomaly_type.clone(),
            description: self.description.clone(),
            position: self.position,
        }
    }
}

/// There is room for one more character.
pub open spec fn room(m: ScanModel) -> bool {
    scan_wf(m) && m.position < crate::chunker::jsonm::POSITION_LIMIT
}

impl JsonmProcessor {
    /// A scanner at the start of its input.
    pub fn new() -> (p: Self)
        ensures
            p.model() == initial_model(),
            scan_wf(p.model()),
    {
        let p = JsonmProcessor {
            current_position: 0,
            structural_state: StructuralState {
                depth: 0,
                balance: 0,
                max_depth: 0,
                context_stack: Vec::new(),
            },
            pattern_buffer: None,
            key_dictionary: Vec::new(),
            forensic_stats: ForensicStats {
                total_keys: 0,
                depth_distribution: Vec::new(),
                anomalies: Vec::new(),
                size_estimates: SizeEstimates {
                    total_bytes: 0,
                    estimated_objects: 0,
                    estimated_arrays: 0,
                },
            },
            next_key_id: 1,
            memory_threshold: 5 * 1024 * 1024,
            processing_mode: ProcessingMode::InMemory,
        };
        assert(p.model().frames =~= Seq::<FrameModel>::empty());
        assert(p.model().keys =~= Seq::<KeyModel>::empty());
        assert(p.model().anomalies =~= Seq::<AnomalyModel>::empty());
        p
    }

    /// The class of a character.
    pub fn classify_character(&self, ch: char) -> (r: CharType)
        ensures
            r == classify(ch),
    {
        classify_char(ch)
    }

    /// The dotted context path of the open containers.
    fn build_context_path(&self) -> (r: String)
        ensures
            r@ == context_path(self.model().frames),
    {
        let frames = &self.structural_state.context_stack;
        let ghost fm = frames_model(frames@);
        let mut parts: Vec<String> = Vec::new();
        let mut i: usize = 0;
        assert(fm.take(0) =~= Seq::<FrameModel>::empty());
        while i < frames.len()
            invariant
                fm == frames_model(frames@),
                i <= frames.len(),
                crate::text::views(parts@) == path_parts(fm.take(i as int)),
            decreases frames.len() - i,
        {
            assert(fm.take(i + 1).drop_last() =~= fm.take(i as int));
            assert(fm.take(i + 1).last() == frames@[i as int].model());
            match &frames[i] {
                ContextType::Object { current_key: Some(k) } => {
                    parts.push(k.clone());
                },
                ContextType::Array { current_index } => {
                    parts.push(crate::text::u64_to_string(*current_index));
                },
                _ => {},
            }
            proof {
                assert(crate::text::views(parts@) =~= path_parts(fm.take(i + 1)));
            }
            i = i + 1;
        }
        assert(fm.take(frames.len() as int) =~= fm);
        let r = crate::text::join(&parts, ".");
        proof {
            reveal_strlit(".");
            assert("."@ =~= seq!['.']);
        }
        r
    }

    /// The index of the entry of `token`.
    fn find_token(&self, token: &String) -> (r: Option<usize>)
        ensures
            match r {
                Some(i) => i == key_index(self.model().keys, token@) && i < self.key_dictionary.len(),
                None => key_index(self.model().keys, token@) == -1,
            },
    {
        let ghost km = keys_model(self.key_dictionary@);
        let mut i: usize = self.key_dictionary.len();
        assert(km.take(i as int) =~= km);
        while i > 0
            invariant
                i <= self.key_dictionary.len(),
                km == keys_model(self.key_dictionary@),
                key_index(km, token@) == key_index(km.take(i as int), token@),
            decreases i,
        {
            assert(km.take(i as int).drop_last() =~= km.take(i - 1));
            if self.key_dictionary[i - 1].token == *token {
                return Some(i - 1);
            }
            i = i - 1;
        }
        None
    }

    /// Records a word or number with its start position and context.
    fn analyze_token(&mut self, pattern: PatternBuffer)
        requires
            room(old(self).model()),
        ensures
            final(self).model() == analyze(old(self).model(), pattern.model()),
    {
        let ghost m = self.model();
        let context_path = self.build_context_path();
        let value_type = infer_value_type(&pattern.content);
        match self.find_token(&pattern.content) {
            None => {
                let mut positions: Vec<u64> = Vec::new();
                positions.push(pattern.start_position);
                let mut contexts: Vec<String> = Vec::new();
                contexts.push(context_path);
                let mut value_types: Vec<ValueType> = Vec::new();
                value_types.push(value_type);
                let e = KeyStats {
                    token: pattern.content,
                    id: self.next_key_id,
                    frequency: 1,
                    positions,
                    contexts,
                    value_types,
                };
                self.key_dictionary.push(e);
                self.next_key_id = self.next_key_id + 1;
                self.forensic_stats.total_keys = self.forensic_stats.total_keys + 1;
                proof {
                    assert(e.model().contexts =~= seq![context_path@]);
                    assert(self.model().keys =~= analyze(m, pattern.model()).keys);
                }
            },
            Some(i) => {
                let ghost e0 = self.key_dictionary@[i as int];
                assert(m.keys[i as int] == e0.model());
                let mut e = self.key_dictionary.remove(i);
                e.frequency = e.frequency + 1;
                e.positions.push(pattern.start_position);
                e.contexts.push(context_path);
                e.value_types.push(value_type);
                self.key_dictionary.insert(i, e);
                proof {
                    assert(e.model().contexts =~= e0.model().contexts.push(context_path@));
                    assert(self.model().keys =~= analyze(m, pattern.model()).keys);
                }
            },
        }
    }

    /// The index of the depth entry of `d`.
    fn find_depth(&self, d: i64) -> (r: Option<usize>)
        ensures
            match r {
                Some(i) => i == depth_index(self.model().depth_counts, d) && i
                    < self.forensic_stats.depth_distribution.len(),
                None => depth_index(self.model().depth_counts, d) == -1,
            },
    {
        let ghost dc = self.forensic_stats.depth_distribution@;
        let mut i: usize = self.forensic_stats.depth_distribution.len();
        assert(dc.take(i as int) =~= dc);
        while i > 0
            invariant
                i <= self.forensic_stats.depth_distribution.len(),
                dc == self.forensic_stats.depth_distribution@,
                depth_index(dc, d) == depth_index(dc.take(i as int), d),
            decreases i,
        {
            assert(dc.take(i as int).drop_last() =~= dc.take(i - 1));
            if self.forensic_stats.depth_distribution[i - 1].0 == d {
                return Some(i - 1);
            }
            i = i - 1;
        }
        None
    }

    /// Depth statistics and anomalies of a structural or special pattern.
    fn collect_pattern_statistics(&mut self, pattern: &PatternBuffer)
        requires
            room(old(self).model()),
            pattern.context_depth <= old(self).model().position,
        ensures
            final(self).model() == collect_stats(old(self).model(), pattern.model()),
    {
        let ghost m = self.model();
        let d = pattern.context_depth as i64;
        match self.find_depth(d) {
            None => {
                self.forensic_stats.depth_distribution.push((d, 1u64));
            },
            Some(i) => {
                let c = self.forensic_stats.depth_distribution[i].1;
                assert(m.depth_counts[i as int].1 <= m.position);
                self.forensic_stats.depth_distribution.set(i, (d, c + 1));
            },
        }
        self.detect_anomalies(pattern);
        proof {
            let counts = self.model().depth_counts;
            assert(counts == collect_stats(m, pattern.model()).depth_counts);
        }
    }

    /// Anomalies of a pattern: nesting deeper than twenty levels, and a
    /// pattern over a thousand bytes.
    fn detect_anomalies(&mut self, pattern: &PatternBuffer)
        ensures
            final(self).model() == ({
                let m = old(self).model();
                let b = pattern.model();
                let a1 = if b.context_depth > 20 {
                    m.anomalies.push(
                        AnomalyModel {
                            kind: "excessive_nesting"@,
                            description: excessive_nesting_description(b.context_depth),
                            position: b.start,
                        },
                    )
                } else {
                    m.anomalies
                };
                let a2 = if utf8_len(b.content) > 1000 {
                    a1.push(
                        AnomalyModel {
                            kind: "large_token"@,
                            description: "Token size exceeds normal limits"@,
                            position: b.start,
                        },
                    )
                } else {
                    a1
                };
                ScanModel { anomalies: a2, ..m }
            }),
    {
        let ghost m = self.model();
        if pattern.context_depth > 20 {
            let mut d = String::from_str("Nesting depth ");
            let digits = crate::text::u64_to_string(pattern.context_depth);
            d.append(digits.as_str());
            d.append(" exceeds normal limits");
            let a = Anomaly {
                anomaly_type: String::from_str("excessive_nesting"),
                description: d,
                position: pattern.start_position,
            };
            self.forensic_stats.anomalies.push(a);
            assert(d@ =~= excessive_nesting_description(pattern.context_depth));
        }
        let ghost a1 = self.model().anomalies;
        let n = crate::chunker::jsonm::utf8_length(&pattern.content);
        if n > 1000 {
            let a = Anomaly {
                anomaly_type: String::from_str("large_token"),
                description: String::from_str("Token size exceeds normal limits"),
                position: pattern.start_position,
            };
            self.forensic_stats.anomalies.push(a);
            assert(self.model().anomalies =~= a1.push(a.model()));
        }
        proof {
            if pattern.context_depth > 20 {
                assert(a1 =~= m.anomalies.push(
                    AnomalyModel {
                        kind: "excessive_nesting"@,
                        description: excessive_nesting_description(pattern.context_depth),
                        position: pattern.start_position,
                    },
                ));
            } else {
                assert(a1 =~= m.anomalies);
            }
        }
    }
}


/// A run of whitespace takes one byte per character.
proof fn lemma_whitespace_bytes(s: Seq<char>)
    requires
        forall|i: int| 0 <= i < s.len() ==> classify(#[trigger] s[i]) == CharType::Whitespace,
    ensures
        utf8_len(s) == s.len(),
    decreases s.len(),
{
    if s.len() > 0 {
        assert forall|i: int| 0 <= i < s.drop_last().len() implies classify(
            #[trigger] s.drop_last()[i],
        ) == CharType::Whitespace by {
            assert(s.drop_last()[i] == s[i]);
        }
        lemma_whitespace_bytes(s.drop_last());
        assert(classify(s[s.len() - 1]) == CharType::Whitespace);
    }
}

impl JsonmProcessor {
    /// Handles a completed pattern.
    fn process_completed_pattern(&mut self, pattern: PatternBuffer)
        requires
            room(old(self).model()),
            pattern.context_depth <= old(self).model().position,
            pattern.char_type == CharType::Whitespace ==> old(self).model().total_bytes
                + pattern.content@.len() <= old(self).model().position,
            forall|i: int|
                0 <= i < pattern.content@.len() ==> classify(#[trigger] pattern.content@[i])
                    == pattern.char_type,
        ensures
            final(self).model() == complete(old(self).model(), pattern.model()),
    {
        match pattern.char_type {
            CharType::Alphanumeric | CharType::Numeric => {
                self.analyze_token(pattern);
            },
            CharType::Whitespace => {
                proof {
                    lemma_whitespace_bytes(pattern.content@);
                }
                let n = crate::chunker::jsonm::utf8_length(&pattern.content);
                self.forensic_stats.size_estimates.total_bytes =
                self.forensic_stats.size_estimates.total_bytes + n as u64;
            },
            _ => {
                self.collect_pattern_statistics(&pattern);
            },
        }
    }

    /// Depth, balance and frames after a structural character; rejected once
    /// closing brackets outnumber opening ones.
    fn process_structural_character(&mut self, ch: char) -> (r: Result<(), String>)
        requires
            old(self).model().balance == old(self).model().depth,
            0 <= old(self).model().depth <= old(self).model().max_depth <= old(self).model().position,
            old(self).model().objects <= old(self).model().position,
            old(self).model().arrays <= old(self).model().position,
            old(self).model().position < crate::chunker::jsonm::POSITION_LIMIT,
        ensures
            match structural(old(self).model(), ch) {
                Some(m) => r is Ok && final(self).model() == m,
                None => (r matches Err(e) && e@ == "Malformed JSON: unmatched closing bracket"@),
            },
    {
        let ghost m = self.model();
        if ch == '{' || ch == '[' {
            self.structural_state.depth = self.structural_state.depth + 1;
            self.structural_state.balance = self.structural_state.balance + 1;
            if self.structural_state.max_depth < self.structural_state.depth {
                self.structural_state.max_depth = self.structural_state.depth;
            }
            if ch == '{' {
                self.structural_state.context_stack.push(ContextType::Object { current_key: None });
                self.forensic_stats.size_estimates.estimated_objects =
                self.forensic_stats.size_estimates.estimated_objects + 1;
            } else {
                self.structural_state.context_stack.push(ContextType::Array { current_index: 0 });
                self.forensic_stats.size_estimates.estimated_arrays =
                self.forensic_stats.size_estimates.estimated_arrays + 1;
            }
            assert(self.model().frames =~= structural(m, ch).unwrap().frames);
        } else if ch == '}' || ch == ']' {
            self.structural_state.depth = self.structural_state.depth - 1;
            self.structural_state.balance = self.structural_state.balance - 1;
            self.structural_state.context_stack.pop();
            assert(self.model().frames =~= (if m.frames.len() > 0 {
                m.frames.drop_last()
            } else {
                m.frames
            }));
        }
        if self.structural_state.balance < 0 {
            return Err(String::from_str("Malformed JSON: unmatched closing bracket"));
        }
        Ok(())
    }

    /// Reads one character at the current position (without moving past it).
    fn process_character(&mut self, ch: char) -> (r: Result<(), String>)
        requires
            room(old(self).model()),
        ensures
            match scan_step(old(self).model(), ch) {
                Some(m) => r is Ok && final(self).model() == m,
                None => (r matches Err(e) && e@ == "Malformed JSON: unmatched closing bracket"@),
            },
    {
        let ghost m = self.model();
        let char_type = classify_char(ch);
        let extend = match &self.pattern_buffer {
            Some(p) => p.char_type == char_type,
            None => false,
        };
        if extend {
            let mut p = self.pattern_buffer.take().unwrap();
            push_char(&mut p.content, ch);
            p.end_position = self.current_position;
            self.pattern_buffer = Some(p);
        } else {
            if self.pattern_buffer.is_some() {
                let completed = self.pattern_buffer.take().unwrap();
                proof {
                    let b = completed.model();
                    assert(buffer_len(m) == b.content.len());
                }
                self.process_completed_pattern(completed);
            }
            let mut content = String::new();
            push_char(&mut content, ch);
            self.pattern_buffer = Some(
                PatternBuffer {
                    char_type,
                    content,
                    start_position: self.current_position,
                    end_position: self.current_position,
                    context_depth: self.structural_state.depth as u64,
                },
            );
        }
        let ghost m1 = self.model();
        proof {
            assert(m1.buffer == scan_step_buffer(m, ch));
        }
        if char_type == CharType::Structure {
            assert(m1.balance == m.balance && m1.depth == m.depth && m1.max_depth == m.max_depth);
            self.process_structural_character(ch)
        } else {
            Ok(())
        }
    }
}

/// The buffer after one character (before structural processing).
pub open spec fn scan_step_buffer(m: ScanModel, ch: char) -> Option<BufferModel> {
    let ct = classify(ch);
    match m.buffer {
        Some(b) => if b.kind == ct {
            Some(BufferModel { content: b.content.push(ch), end: m.position, ..b })
        } else {
            Some(
                BufferModel {
                    kind: ct,
                    content: seq![ch],
                    start: m.position,
                    end: m.position,
                    context_depth: m.depth as u64,
                },
            )
        },
        None => Some(
            BufferModel {
                kind: ct,
                content: seq![ch],
                start: m.position,
                end: m.position,
                context_depth: m.depth as u64,
            },
        ),
    }
}


pub proof fn lemma_key_index(keys: Seq<KeyModel>, t: Seq<char>)
    ensures
        -1 <= key_index(keys, t) < keys.len(),
        key_index(keys, t) >= 0 ==> keys[key_index(keys, t)].token == t,
    decreases keys.len(),
{
    if keys.len() > 0 {
        lemma_key_index(keys.drop_last(), t);
    }
}

pub proof fn lemma_depth_index(counts: Seq<(i64, u64)>, d: i64)
    ensures
        -1 <= depth_index(counts, d) < counts.len(),
    decreases counts.len(),
{
    if counts.len() > 0 {
        lemma_depth_index(counts.drop_last(), d);
    }
}

/// Completing a pattern keeps every counter within one more than the position.
proof fn lemma_complete_bounds(m: ScanModel, b: BufferModel)
    requires
        scan_wf(m),
        m.buffer == Some(b),
        m.position < crate::chunker::jsonm::POSITION_LIMIT,
    ensures
        ({
            let r = complete(ScanModel { buffer: None, ..m }, b);
            &&& r.total_keys == r.keys.len()
            &&& r.next_key_id == r.total_keys + 1
            &&& r.total_keys <= m.position + 1
            &&& forall|i: int| 0 <= i < r.keys.len() ==> (#[trigger] r.keys[i]).frequency <= m.position + 1
            &&& forall|i: int| 0 <= i < r.depth_counts.len() ==> (#[trigger] r.depth_counts[i]).1 <= m.position + 1
            &&& r.total_bytes <= m.position
            &&& r.depth == m.depth && r.balance == m.balance && r.max_depth == m.max_depth
            &&& r.objects == m.objects && r.arrays == m.arrays && r.position == m.position
            &&& r.frames == m.frames
        }),
{
    let m0 = ScanModel { buffer: None, ..m };
    let r = complete(m0, b);
    match b.kind {
        CharType::Alphanumeric | CharType::Numeric => {
            lemma_key_index(m.keys, b.content);
            let i = key_index(m.keys, b.content);
            assert forall|j: int| 0 <= j < r.keys.len() implies (#[trigger] r.keys[j]).frequency
                <= m.position + 1 by {
                if j < m.keys.len() && j != i {
                    assert(r.keys[j] == m.keys[j]);
                } else if j < m.keys.len() {
                    assert(m.keys[j].frequency <= m.position);
                }
            }
        },
        CharType::Whitespace => {
            lemma_whitespace_bytes(b.content);
        },
        _ => {
            let d = b.context_depth as i64;
            lemma_depth_index(m.depth_counts, d);
            let i = depth_index(m.depth_counts, d);
            assert forall|j: int| 0 <= j < r.depth_counts.len() implies (
            #[trigger] r.depth_counts[j]).1 <= m.position + 1 by {
                if j < m.depth_counts.len() && j != i {
                    assert(r.depth_counts[j] == m.depth_counts[j]);
                } else if j < m.depth_counts.len() {
                    assert(m.depth_counts[j].1 <= m.position);
                }
            }
        },
    }
}

/// Law: every character the scanner accepts leads from a well-formed state to
/// a well-formed one: the depth equals the balance of opened over closed
/// brackets and never drops below zero, and every counter stays below the
/// number of characters read.
pub proof fn lemma_scan_step_keeps_wf(m: ScanModel, ch: char)
    requires
        scan_wf(m),
        m.position < crate::chunker::jsonm::POSITION_LIMIT,
        scan_step(m, ch) is Some,
    ensures
        scan_wf(scan_advance(scan_step(m, ch).unwrap())),
        scan_step(m, ch).unwrap().position == m.position,
{
    let ct = classify(ch);
    let r = scan_advance(scan_step(m, ch).unwrap());
    match m.buffer {
        Some(b) => {
            if b.kind != ct {
                lemma_complete_bounds(m, b);
            } else {
                assert forall|i: int| 0 <= i < b.content.len() + 1 implies classify(
                    #[trigger] b.content.push(ch)[i],
                ) == b.kind by {
                    if i < b.content.len() {
                        assert(b.content.push(ch)[i] == b.content[i]);
                    }
                }
            }
        },
        None => {},
    }
    assert forall|i: int| 0 <= i < r.keys.len() implies (#[trigger] r.keys[i]).frequency
        <= r.position by {}
}


pub proof fn lemma_scan_rejects_extension(m: ScanModel, s: Seq<char>, k: int)
    requires
        0 <= k <= s.len(),
        scan_run(m, s.take(k)) is None,
    ensures
        scan_run(m, s) is None,
    decreases s.len() - k,
{
    if k == s.len() {
        assert(s.take(k) =~= s);
    } else {
        assert(s.take(k + 1).drop_last() =~= s.take(k));
        lemma_scan_rejects_extension(m, s, k + 1);
    }
}

/// `context.token=token`, or `token=token` for an empty context.
fn occurrence_string(context: &String, token: &String) -> (r: String)
    ensures
        r@ == occurrence_token(context@, token@),
{
    let mut s = String::new();
    if context.as_str().unicode_len() != 0 {
        s.append(context.as_str());
        push_char(&mut s, '.');
    }
    s.append(token.as_str());
    push_char(&mut s, '=');
    s.append(token.as_str());
    proof {
        if context@.len() == 0 {
            assert(s@ =~= token@ + seq!['='] + token@);
        } else {
            assert(s@ =~= context@ + seq!['.'] + token@ + seq!['='] + token@);
        }
    }
    s
}

impl JsonmProcessor {
    /// Reads one character and moves past it.
    fn feed_char(&mut self, ch: char) -> (r: Result<(), String>)
        requires
            room(old(self).model()),
        ensures
            match scan_step(old(self).model(), ch) {
                Some(m) => r is Ok && final(self).model() == scan_advance(m) && scan_wf(
                    final(self).model(),
                ),
                None => (r matches Err(e) && e@ == "Malformed JSON: unmatched closing bracket"@),
            },
            r is Ok ==> final(self).model().position == old(self).model().position + 1,
    {
        let ghost m = self.model();
        match self.process_character(ch) {
            Ok(()) => {},
            Err(e) => {
                return Err(e);
            },
        }
        proof {
            lemma_scan_step_keeps_wf(m, ch);
        }
        self.current_position = self.current_position + 1;
        Ok(())
    }

    /// Re-evaluates how collected data should be held.
    fn check_memory_pressure(&mut self)
        ensures
            final(self).model() == (ScanModel { mode: pressure_mode(old(self).model()), ..old(self).model() }),
    {
        let size: u128 = (self.key_dictionary.len() as u128) * 100 + (
        self.forensic_stats.anomalies.len() as u128) * 50;
        let threshold: u128 = self.memory_threshold as u128;
        if size < threshold {
            self.processing_mode = ProcessingMode::InMemory;
        } else if size < threshold * 10 {
            self.processing_mode = ProcessingMode::Hybrid;
        } else {
            self.processing_mode = ProcessingMode::Streaming;
        }
    }

    /// Reads `data` (one character per byte), then re-evaluates the memory
    /// mode.  Stops at the first rejected character.
    pub fn feed(&mut self, data: &[u8]) -> (r: Result<(), String>)
        requires
            scan_wf(old(self).model()),
            old(self).model().position + data@.len() <= crate::chunker::jsonm::POSITION_LIMIT,
        ensures
            match scan_run(old(self).model(), crate::chunker::jsonm::bytes_as_chars(data@)) {
                Some(m) => r is Ok && final(self).model() == (ScanModel {
                    mode: pressure_mode(m),
                    ..m
                }) && scan_wf(final(self).model()),
                None => (r matches Err(e) && e@ == "Malformed JSON: unmatched closing bracket"@),
            },
            r is Ok ==> final(self).model().position == old(self).model().position + data@.len(),
    {
        let ghost m0 = self.model();
        let ghost chars = crate::chunker::jsonm::bytes_as_chars(data@);
        let mut i: usize = 0;
        assert(chars.take(0) =~= Seq::<char>::empty());
        while i < data.len()
            invariant
                i <= data.len(),
                chars == crate::chunker::jsonm::bytes_as_chars(data@),
                m0 == old(self).model(),
                scan_wf(self.model()),
                scan_run(m0, chars.take(i as int)) == Some(self.model()),
                self.model().position == m0.position + i,
                m0.position + data@.len() <= crate::chunker::jsonm::POSITION_LIMIT,
            decreases data.len() - i,
        {
            let ch = data[i] as char;
            let ghost m = self.model();
            proof {
                assert(chars.take(i + 1).drop_last() =~= chars.take(i as int));
                assert(chars.take(i + 1).last() == ch);
            }
            match self.feed_char(ch) {
                Ok(()) => {},
                Err(e) => {
                    proof {
                        let s1 = chars.take(i + 1);
                        assert(scan_run(m0, s1.drop_last()) == Some(m));
                        assert(scan_run(m0, s1) is None);
                        lemma_scan_rejects_extension(m0, chars, i + 1);
                    }
                    return Err(e);
                },
            }
            i = i + 1;
        }
        assert(chars.take(data.len() as int) =~= chars);
        self.check_memory_pressure();
        Ok(())
    }

    /// The Meteor stream of everything recorded: one token per recorded
    /// occurrence, entry by entry.  Rejected while brackets are unbalanced.
    fn finalize_processing(&self) -> (r: Result<MeteorStream, String>)
        ensures
            self.model().balance != 0 ==> (r matches Err(m) && m@ == "Malformed JSON: unbalanced brackets"@),
            self.model().balance == 0 ==> r is Ok && crate::text::views(r->Ok_0.tokens@) == all_tokens(
                self.model().keys,
            ) && r->Ok_0.context@ == "object"@ && r->Ok_0.namespace@ == "jsonm_parsed"@,
    {
        if self.structural_state.balance != 0 {
            return Err(String::from_str("Malformed JSON: unbalanced brackets"));
        }
        let ghost km = keys_model(self.key_dictionary@);
        let mut tokens: Vec<String> = Vec::new();
        let mut i: usize = 0;
        assert(km.take(0) =~= Seq::<KeyModel>::empty());
        assert(crate::text::views(tokens@) =~= Seq::<Seq<char>>::empty());
        while i < self.key_dictionary.len()
            invariant
                i <= self.key_dictionary.len(),
                km == keys_model(self.key_dictionary@),
                crate::text::views(tokens@) == all_tokens(km.take(i as int)),
            decreases self.key_dictionary.len() - i,
        {
            let stats = &self.key_dictionary[i];
            let ghost before = crate::text::views(tokens@);
            let mut j: usize = 0;
            let ghost k = stats.model();
            assert(k == km[i as int]);
            while j < stats.contexts.len()
                invariant
                    j <= stats.contexts.len(),
                    k == stats.model(),
                    crate::text::views(tokens@) == before + entry_tokens(k).take(j as int),
                decreases stats.contexts.len() - j,
            {
                let tok = occurrence_string(&stats.contexts[j], &stats.token);
                let ghost vb = crate::text::views(tokens@);
                tokens.push(tok);
                proof {
                    assert(crate::text::views(tokens@) =~= vb.push(tok@));
                    assert(entry_tokens(k).take(j + 1) =~= entry_tokens(k).take(j as int).push(
                        tok@,
                    ));
                }
                j = j + 1;
            }
            proof {
                assert(entry_tokens(k).take(j as int) =~= entry_tokens(k));
                assert(km.take(i + 1).drop_last() =~= km.take(i as int));
            }
            i = i + 1;
        }
        assert(km.take(self.key_dictionary.len() as int) =~= km);
        Ok(
            MeteorStream {
                context: String::from_str("object"),
                namespace: String::from_str("jsonm_parsed"),
                tokens,
            },
        )
    }

    /// Scans a whole document and returns its Meteor stream: rejected when a
    /// closing bracket has no opening one or when brackets are left open.
    pub fn process_stream(&mut self, data: &[u8]) -> (r: Result<MeteorStream, String>)
        requires
            scan_wf(old(self).model()),
            old(self).model().position + data@.len() <= crate::chunker::jsonm::POSITION_LIMIT,
        ensures
            match scan_run(old(self).model(), crate::chunker::jsonm::bytes_as_chars(data@)) {
                Some(m) => if m.balance == 0 {
                    r is Ok && crate::text::views(r->Ok_0.tokens@) == all_tokens(m.keys)
                } else {
                    r matches Err(e) && e@ == "Malformed JSON: unbalanced brackets"@
                },
                None => (r matches Err(e) && e@ == "Malformed JSON: unmatched closing bracket"@),
            },
            r is Ok ==> final(self).model().position == old(self).model().position + data@.len(),
    {
        match self.feed(data) {
            Ok(()) => {},
            Err(e) => return Err(e),
        }
        self.finalize_processing()
    }

    /// The counts and anomalies gathered so far.
    pub fn get_forensic_stats(&self) -> (r: &ForensicStats)
        ensures
            r.total_keys == self.model().total_keys,
            r.depth_distribution@ == self.model().depth_counts,
            anomalies_model(r.anomalies@) == self.model().anomalies,
            r.size_estimates.total_bytes == self.model().total_bytes,
            r.size_estimates.estimated_objects == self.model().objects,
            r.size_estimates.estimated_arrays == self.model().arrays,
    {
        &self.forensic_stats
    }

    /// How often each key was seen, key by key in the order first seen.
    pub fn key_frequencies(&self) -> (r: Vec<(String, u64)>)
        ensures
            r.len() == self.model().keys.len(),
            forall|i: int| 0 <= i < r.len() ==> (#[trigger] r@[i]).0@ == self.model().keys[i].token
                && r@[i].1 == self.model().keys[i].frequency,
    {
        let mut r: Vec<(String, u64)> = Vec::new();
        let mut i: usize = 0;
        while i < self.key_dictionary.len()
            invariant
                i <= self.key_dictionary.len(),
                r.len() == i,
                forall|j: int| 0 <= j < i ==> (#[trigger] r@[j]).0@ == self.key_dictionary@[j].token@
                    && r@[j].1 == self.key_dictionary@[j].frequency,
            decreases self.key_dictionary.len() - i,
        {
            let k = &self.key_dictionary[i];
            r.push((k.token.clone(), k.frequency));
            i = i + 1;
        }
        r
    }

    /// A snapshot from which scanning can be resumed.
    pub fn create_checkpoint(&self) -> (c: Checkpoint)
        ensures
            c.byte_position == self.model().position,
            c.structural_state.depth == self.model().depth,
            c.structural_state.balance == self.model().balance,
            c.structural_state.max_depth == self.model().max_depth,
            frames_model(c.structural_state.context_stack@) == self.model().frames,
            keys_model(c.key_dictionary@) == self.model().keys,
            c.forensic_stats.total_keys == self.model().total_keys,
            c.forensic_stats.depth_distribution@ == self.model().depth_counts,
            anomalies_model(c.forensic_stats.anomalies@) == self.model().anomalies,
            c.forensic_stats.size_estimates.total_bytes == self.model().total_bytes,
            c.forensic_stats.size_estimates.estimated_objects == self.model().objects,
            c.forensic_stats.size_estimates.estimated_arrays == self.model().arrays,
    {
        let mut frames: Vec<ContextType> = Vec::new();
        let mut i: usize = 0;
        while i < self.structural_state.context_stack.len()
            invariant
                i <= self.structural_state.context_stack.len(),
                frames.len() == i,
                forall|j: int| 0 <= j < i ==> (#[trigger] frames@[j]).model()
                    == self.structural_state.context_stack@[j].model(),
            decreases self.structural_state.context_stack.len() - i,
        {
            frames.push(self.structural_state.context_stack[i].copy());
            i = i + 1;
        }
        assert(frames_model(frames@) =~= frames_model(self.structural_state.context_stack@));
        let mut keys: Vec<KeyStats> = Vec::new();
        let mut i: usize = 0;
        while i < self.key_dictionary.len()
            invariant
                i <= self.key_dictionary.len(),
                keys.len() == i,
                forall|j: int| 0 <= j < i ==> (#[trigger] keys@[j]).model()
                    == self.key_dictionary@[j].model(),
            decreases self.key_dictionary.len() - i,
        {
            keys.push(self.key_dictionary[i].copy());
            i = i + 1;
        }
        assert(keys_model(keys@) =~= keys_model(self.key_dictionary@));
        let mut anomalies: Vec<Anomaly> = Vec::new();
        let mut i: usize = 0;
        while i < self.forensic_stats.anomalies.len()
            invariant
                i <= self.forensic_stats.anomalies.len(),
                anomalies.len() == i,
                forall|j: int| 0 <= j < i ==> (#[trigger] anomalies@[j]).model()
                    == self.forensic_stats.anomalies@[j].model(),
            decreases self.forensic_stats.anomalies.len() - i,
        {
            anomalies.push(self.forensic_stats.anomalies[i].copy());
            i = i + 1;
        }
        assert(anomalies_model(anomalies@) =~= anomalies_model(self.forensic_stats.anomalies@));
        let mut depths: Vec<(i64, u64)> = Vec::new();
        let mut i: usize = 0;
        while i < self.forensic_stats.depth_distribution.len()
            invariant
                i <= self.forensic_stats.depth_distribution.len(),
                depths@ == self.forensic_stats.depth_distribution@.take(i as int),
            decreases self.forensic_stats.depth_distribution.len() - i,
        {
            let (d, c) = self.forensic_stats.depth_distribution[i];
            depths.push((d, c));
            i = i + 1;
            assert(depths@ =~= self.forensic_stats.depth_distribution@.take(i as int));
        }
        assert(depths@ =~= self.forensic_stats.depth_distribution@);
        Checkpoint {
            byte_position: self.current_position,
            structural_state: StructuralState {
                depth: self.structural_state.depth,
                balance: self.structural_state.balance,
                max_depth: self.structural_state.max_depth,
                context_stack: frames,
            },
            key_dictionary: keys,
            forensic_stats: ForensicStats {
                total_keys: self.forensic_stats.total_keys,
                depth_distribution: depths,
                anomalies,
                size_estimates: self.forensic_stats.size_estimates,
            },
        }
    }
}

/// Law: the scanner rejects exactly the inputs in which, at some point,
/// closing brackets outnumber opening ones; on the others its balance is the
/// number of opening minus closing brackets read.
pub open spec fn bracket_balance(s: Seq<char>) -> int
    decreases s.len(),
{
    if s.len() == 0 {
        0
    } else {
        bracket_balance(s.drop_last()) + if s.last() == '{' || s.last() == '[' {
            1int
        } else if s.last() == '}' || s.last() == ']' {
            -1int
        } else {
            0int
        }
    }
}

/// No prefix of `s` closes more brackets than it opens.
pub open spec fn never_negative(s: Seq<char>) -> bool {
    forall|k: int| 0 <= k <= s.len() ==> bracket_balance(#[trigger] s.take(k)) >= 0
}

/// Law: from a fresh scanner, an input is accepted exactly when no prefix of
/// it closes more brackets than it opens, and then the balance equals the
/// number of opening minus closing brackets.
pub proof fn lemma_scan_balance(s: Seq<char>)
    requires
        s.len() <= crate::chunker::jsonm::POSITION_LIMIT,
    ensures
        (scan_run(initial_model(), s) is Some) <==> never_negative(s),
        scan_run(initial_model(), s) is Some ==> scan_run(initial_model(), s).unwrap().balance
            == bracket_balance(s),
    decreases s.len(),
{
    if s.len() == 0 {
        assert(s.take(0) =~= s);
    } else {
        let p = s.drop_last();
        lemma_scan_balance(p);
        assert forall|k: int| 0 <= k <= p.len() implies #[trigger] p.take(k) == s.take(k) by {
            assert(p.take(k) =~= s.take(k));
        }
        assert(s.take(s.len() as int) =~= s);
        match scan_run(initial_model(), p) {
            Some(m1) => {
                lemma_scan_run_wf(initial_model(), p);
                let c = s.last();
                let st = scan_step(m1, c);
                assert(st is Some <==> bracket_balance(s) >= 0);
                if never_negative(p) && bracket_balance(s) >= 0 {
                    assert forall|k: int| 0 <= k <= s.len() implies bracket_balance(
                        #[trigger] s.take(k),
                    ) >= 0 by {
                        if k < s.len() {
                            assert(p.take(k) == s.take(k));
                        }
                    }
                }
                if bracket_balance(s) < 0 {
                    assert(!never_negative(s));
                }
            },
            None => {
                assert(!never_negative(p));
                let k = choose|k: int| 0 <= k <= p.len() && bracket_balance(#[trigger] p.take(k)) < 0;
                assert(p.take(k) == s.take(k));
            },
        }
    }
}

/// Runs from a well-formed state stay well-formed.
pub proof fn lemma_scan_run_wf(m: ScanModel, s: Seq<char>)
    requires
        scan_wf(m),
        m.position + s.len() <= crate::chunker::jsonm::POSITION_LIMIT,
        scan_run(m, s) is Some,
    ensures
        scan_wf(scan_run(m, s).unwrap()),
        scan_run(m, s).unwrap().position == m.position + s.len(),
    decreases s.len(),
{
    if s.len() > 0 {
        lemma_scan_run_wf(m, s.drop_last());
        lemma_scan_step_keeps_wf(scan_run(m, s.drop_last()).unwrap(), s.last());
    }
}

} // verus!
