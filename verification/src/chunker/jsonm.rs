//! A streaming JSON processor that turns a document into Meteor tokens: one
//! token per scalar value, keyed by the dotted path of object keys and array
//! positions (`__i_<n>`) that lead to it, while tracking bracket matching,
//! nesting depth, per-key statistics and anomalies.
//!
//! The processor is a state machine fed one character at a time.  Its
//! abstract state is [`JsonmModel`]; [`step`] is the transition function and
//! every executable entry point is proved against it.
use vstd::prelude::*;
use crate::text::{dec_digits, is_prefix, join_spec, push_char, u64_to_string};

verus! {

// ---------------------------------------------------------------------------
// Plain types
// ---------------------------------------------------------------------------

/// Where the parser stands in the JSON grammar.
#[derive(PartialEq, Eq, Structural, Clone, Copy, Debug)]
pub enum JsonState {
    ExpectValue,
    ExpectKey,
    ExpectColon,
    ExpectValueAfterColon,
    ExpectCommaOrClose,
    InString,
    InNumber,
    InTrue,
    InFalse,
    InNull,
}

/// The class of a single input character.
#[derive(PartialEq, Eq, Structural, Clone, Copy, Debug)]
pub enum CharType {
    Structure,
    StringDelim,
    Digit,
    Letter,
    Sign,
    Decimal,
    Exponent,
    Whitespace,
    Escape,
    Other,
}

/// The type recorded for a value in the key statistics.
#[derive(PartialEq, Eq, Structural, Clone, Copy, Debug)]
pub enum InferredType {
    String,
    Number,
    Boolean,
    Null,
    Object,
    Array,
    Hash,
    Identifier,
}

/// The kind of an anomaly.
#[derive(PartialEq, Eq, Structural, Clone, Copy, Debug)]
pub enum AnomalyType {
    ExcessiveNesting,
    LargeToken,
    SuspiciousPattern,
    UnusualFrequency,
    StructuralIrregularity,
}

/// How severe an anomaly is.
#[derive(PartialEq, Eq, Structural, Clone, Copy, Debug)]
pub enum Severity {
    Low,
    Medium,
    High,
    Critical,
}

/// How the processor intends to hold its collected data.
#[derive(PartialEq, Eq, Structural, Clone, Copy, Debug)]
pub enum ProcessingMode {
    InMemory,
    Hybrid,
    Streaming,
}

/// Byte and structure counts gathered while processing.
#[derive(PartialEq, Eq, Structural, Clone, Copy, Debug)]
pub struct SizeEstimates {
    pub total_bytes: u64,
    pub estimated_objects: u64,
    pub estimated_arrays: u64,
    pub estimated_strings: u64,
    pub estimated_numbers: u64,
}

/// One open object or array.
pub enum ContextFrame {
    Object { current_key: Option<String>, expecting_key: bool },
    Array { current_index: u64 },
}

/// The characters of the scalar being read.
pub struct PatternBuffer {
    pub char_type: CharType,
    pub content: String,
    pub start_position: u64,
    pub end_position: u64,
    pub json_state: JsonState,
    pub escaped: bool,
}

/// Bracket matching and nesting state.
pub struct StructuralState {
    pub depth: u64,
    pub balance: u64,
    pub max_depth: u64,
    pub context_stack: Vec<ContextFrame>,
    pub current_state: JsonState,
    pub bracket_stack: Vec<char>,
}

/// Statistics of one object key.
pub struct KeyStats {
    pub key: String,
    pub id: u64,
    pub frequency: u64,
    pub positions: Vec<u64>,
    pub contexts: Vec<String>,
    pub value_types: Vec<InferredType>,
    pub first_seen: u64,
    pub last_seen: u64,
}

/// A noteworthy observation about the input.
pub struct Anomaly {
    pub anomaly_type: AnomalyType,
    pub description: String,
    pub position: u64,
    pub severity: Severity,
}

/// Counts and anomalies gathered while processing.
pub struct ForensicStats {
    pub total_keys: u64,
    pub total_values: u64,
    pub anomalies: Vec<Anomaly>,
    pub size_estimates: SizeEstimates,
}

/// One scalar value with the dotted path that leads to it.
pub struct MeteorToken {
    pub context: String,
    pub namespace: String,
    pub key: String,
    pub value: String,
    pub position: u64,
}

/// A snapshot of everything the processor holds.
pub struct Checkpoint {
    pub byte_position: u64,
    pub structural_state: StructuralState,
    pub current_buffer: Option<PatternBuffer>,
    pub key_dictionary: Vec<KeyStats>,
    pub forensic_stats: ForensicStats,
    pub partial_tokens: Vec<MeteorToken>,
}

/// The streaming JSON processor.
pub struct JsonmProcessor {
    current_position: u64,
    structural_state: StructuralState,
    pattern_buffer: Option<PatternBuffer>,
    current_key: Option<String>,
    key_dictionary: Vec<KeyStats>,
    forensic_stats: ForensicStats,
    meteor_tokens: Vec<MeteorToken>,
    next_key_id: u64,
    memory_threshold: usize,
    processing_mode: ProcessingMode,
}

// ---------------------------------------------------------------------------
// The abstract state
// ---------------------------------------------------------------------------

/// An open object (with the key it is reading, if any) or array (with the
/// index of its next element).
pub enum FrameModel {
    Object { key: Option<Seq<char>>, expecting_key: bool },
    Array { index: nat },
}

/// The scalar being read.
pub struct BufferModel {
    pub char_type: CharType,
    pub content: Seq<char>,
    pub start: u64,
    pub end: u64,
    pub state: JsonState,
    pub escaped: bool,
}

/// Statistics of one key.
pub struct KeyModel {
    pub key: Seq<char>,
    pub id: u64,
    pub frequency: u64,
    pub positions: Seq<u64>,
    pub contexts: Seq<Seq<char>>,
    pub value_types: Seq<InferredType>,
    pub first_seen: u64,
    pub last_seen: u64,
}

/// An anomaly.
pub struct AnomalyModel {
    pub kind: AnomalyType,
    pub description: Seq<char>,
    pub position: u64,
    pub severity: Severity,
}

/// A token: dotted path, value and the position of the character that
/// completed the value.
pub struct TokenModel {
    pub key: Seq<char>,
    pub value: Seq<char>,
    pub position: u64,
}

/// The whole abstract state of a processor.
pub struct JsonmModel {
    pub position: u64,
    pub state: JsonState,
    pub depth: u64,
    pub balance: u64,
    pub max_depth: u64,
    pub frames: Seq<FrameModel>,
    pub brackets: Seq<char>,
    pub buffer: Option<BufferModel>,
    pub current_key: Option<Seq<char>>,
    pub keys: Seq<KeyModel>,
    pub total_keys: u64,
    pub total_values: u64,
    pub anomalies: Seq<AnomalyModel>,
    pub sizes: SizeEstimates,
    pub tokens: Seq<TokenModel>,
    pub next_key_id: u64,
    pub memory_threshold: usize,
    pub mode: ProcessingMode,
}

pub open spec fn opt_view(o: Option<String>) -> Option<Seq<char>> {
    match o {
        Some(s) => Some(s@),
        None => None,
    }
}

impl ContextFrame {
    pub open spec fn model(self) -> FrameModel {
        match self {
            ContextFrame::Object { current_key, expecting_key } => FrameModel::Object {
                key: opt_view(current_key),
                expecting_key,
            },
            ContextFrame::Array { current_index } => FrameModel::Array { index: current_index as nat },
        }
    }
}

impl PatternBuffer {
    pub open spec fn model(self) -> BufferModel {
        BufferModel {
            char_type: self.char_type,
            content: self.content@,
            start: self.start_position,
            end: self.end_position,
            state: self.json_state,
            escaped: self.escaped,
        }
    }
}

pub open spec fn buffer_model(b: Option<PatternBuffer>) -> Option<BufferModel> {
    match b {
        Some(p) => Some(p.model()),
        None => None,
    }
}

impl KeyStats {
    pub open spec fn model(self) -> KeyModel {
        KeyModel {
            key: self.key@,
            id: self.id,
            frequency: self.frequency,
            positions: self.positions@,
            contexts: self.contexts@.map_values(|s: String| s@),
            value_types: self.value_types@,
            first_seen: self.first_seen,
            last_seen: self.last_seen,
        }
    }
}

impl Anomaly {
    pub open spec fn model(self) -> AnomalyModel {
        AnomalyModel {
            kind: self.anomaly_type,
            description: self.description@,
            position: self.position,
            severity: self.severity,
        }
    }
}

impl MeteorToken {
    pub open spec fn model(self) -> TokenModel {
        TokenModel { key: self.key@, value: self.value@, position: self.position }
    }

    /// The token carries the fixed context and namespace of this processor.
    pub open spec fn well_labelled(self) -> bool {
        self.context@ == seq!['a', 'p', 'p'] && self.namespace@ == namespace_label()
    }
}

/// The namespace every token carries.
pub open spec fn namespace_label() -> Seq<char> {
    seq!['j', 's', 'o', 'n', 'm', '_', 'p', 'a', 'r', 's', 'e', 'd']
}

pub open spec fn frames_model(v: Seq<ContextFrame>) -> Seq<FrameModel> {
    v.map_values(|f: ContextFrame| f.model())
}

pub open spec fn keys_model(v: Seq<KeyStats>) -> Seq<KeyModel> {
    v.map_values(|k: KeyStats| k.model())
}

pub open spec fn anomalies_model(v: Seq<Anomaly>) -> Seq<AnomalyModel> {
    v.map_values(|a: Anomaly| a.model())
}

pub open spec fn tokens_model(v: Seq<MeteorToken>) -> Seq<TokenModel> {
    v.map_values(|t: MeteorToken| t.model())
}

impl JsonmProcessor {
    /// The abstract state of the processor.
    pub closed spec fn model(&self) -> JsonmModel {
        JsonmModel {
            position: self.current_position,
            state: self.structural_state.current_state,
            depth: self.structural_state.depth,
            balance: self.structural_state.balance,
            max_depth: self.structural_state.max_depth,
            frames: frames_model(self.structural_state.context_stack@),
            brackets: self.structural_state.bracket_stack@,
            buffer: buffer_model(self.pattern_buffer),
            current_key: opt_view(self.current_key),
            keys: keys_model(self.key_dictionary@),
            total_keys: self.forensic_stats.total_keys,
            total_values: self.forensic_stats.total_values,
            anomalies: anomalies_model(self.forensic_stats.anomalies@),
            sizes: self.forensic_stats.size_estimates,
            tokens: tokens_model(self.meteor_tokens@),
            next_key_id: self.next_key_id,
            memory_threshold: self.memory_threshold,
            mode: self.processing_mode,
        }
    }

    /// Every token carries the fixed context and namespace.
    pub closed spec fn labels_ok(&self) -> bool {
        forall|i: int|
            0 <= i < self.meteor_tokens@.len() ==> (#[trigger] self.meteor_tokens@[i]).well_labelled()
    }

    /// The processor is in a state that its operations can take further.
    pub open spec fn wf(&self) -> bool {
        wf_model(self.model()) && self.labels_ok()
    }
}

// ---------------------------------------------------------------------------
// The transition function
// ---------------------------------------------------------------------------

/// The class of a character (letters are tested before `e`/`E`, so those two
/// count as letters).
pub open spec fn classify(ch: char) -> CharType {
    if ch == '{' || ch == '}' || ch == '[' || ch == ']' || ch == ':' || ch == ',' {
        CharType::Structure
    } else if ch == '"' {
        CharType::StringDelim
    } else if '0' <= ch && ch <= '9' {
        CharType::Digit
    } else if ('a' <= ch && ch <= 'z') || ('A' <= ch && ch <= 'Z') {
        CharType::Letter
    } else if ch == '+' || ch == '-' {
        CharType::Sign
    } else if ch == '.' {
        CharType::Decimal
    } else if ch == 'e' || ch == 'E' {
        CharType::Exponent
    } else if ch == ' ' || ch == '\t' || ch == '\n' || ch == '\r' {
        CharType::Whitespace
    } else if ch == '\\' {
        CharType::Escape
    } else {
        CharType::Other
    }
}

/// Law: the character classes, by code point. Brackets, braces, colon and
/// comma are structure; the quote delimits strings; `0`-`9` are digits;
/// ASCII letters (with `e` and `E`) are letters; `+` and `-` are signs; `.`
/// is the decimal point; space, tab, line feed and carriage return are
/// whitespace; the backslash escapes; nothing is ever an exponent.
pub proof fn lemma_char_classes(ch: char)
    ensures
        classify(ch) == CharType::Structure <==> set!['{', '}', '[', ']', ':', ','].contains(ch),
        classify(ch) == CharType::StringDelim <==> (ch as u32) == 34,
        classify(ch) == CharType::Digit <==> 48 <= (ch as u32) && (ch as u32) <= 57,
        classify(ch) == CharType::Letter <==> (65 <= (ch as u32) && (ch as u32) <= 90) || (97 <= (ch as u32)
            && (ch as u32) <= 122),
        classify(ch) == CharType::Sign <==> set!['+', '-'].contains(ch),
        classify(ch) == CharType::Decimal <==> (ch as u32) == 46,
        classify(ch) != CharType::Exponent,
        classify(ch) == CharType::Whitespace <==> set![' ', '\t', '\n', '\r'].contains(ch),
        classify(ch) == CharType::Escape <==> (ch as u32) == 92,
{
}

/// The path segment of an array element: `__i_<index>`.
pub open spec fn index_key(i: nat) -> Seq<char> {
    seq!['_', '_', 'i', '_'] + dec_digits(i)
}

/// What a frame contributes to a path.
pub open spec fn frame_part(f: FrameModel) -> Option<Seq<char>> {
    match f {
        FrameModel::Object { key, .. } => key,
        FrameModel::Array { index } => Some(index_key(index)),
    }
}

/// The path segments contributed by a stack of frames, outermost first.
pub open spec fn path_parts(frames: Seq<FrameModel>) -> Seq<Seq<char>>
    decreases frames.len(),
{
    if frames.len() == 0 {
        Seq::empty()
    } else {
        let rest = path_parts(frames.drop_last());
        match frame_part(frames.last()) {
            Some(p) => rest.push(p),
            None => rest,
        }
    }
}

/// The dotted path of a value whose innermost container is the last frame and
/// whose own segment is `key`: the segments of the enclosing frames, then `key`.
pub open spec fn value_path(frames: Seq<FrameModel>, key: Seq<char>) -> Seq<char> {
    let outer = if frames.len() == 0 { frames } else { frames.drop_last() };
    join_spec(path_parts(outer).push(key), seq!['.'])
}

/// `s` without its leading and trailing runs of `"`.
pub open spec fn strip_quotes(s: Seq<char>) -> Seq<char> {
    let a = lead_quotes(s) as int;
    let rest = s.subrange(a, s.len() as int);
    rest.subrange(0, rest.len() - trail_quotes(rest))
}

pub open spec fn lead_quotes(s: Seq<char>) -> nat
    decreases s.len(),
{
    if s.len() > 0 && s[0] == '"' {
        1 + lead_quotes(s.drop_first())
    } else {
        0
    }
}

pub open spec fn trail_quotes(s: Seq<char>) -> nat
    decreases s.len(),
{
    if s.len() > 0 && s.last() == '"' {
        1 + trail_quotes(s.drop_last())
    } else {
        0
    }
}

/// Number of bytes of the UTF-8 encoding of `c`.
pub open spec fn utf8_width(c: char) -> nat {
    if (c as u32) < 0x80 {
        1
    } else if (c as u32) < 0x800 {
        2
    } else if (c as u32) < 0x10000 {
        3
    } else {
        4
    }
}

/// Number of bytes of the UTF-8 encoding of `s` (what `str::len` returns).
pub open spec fn utf8_len(s: Seq<char>) -> nat
    decreases s.len(),
{
    if s.len() == 0 {
        0
    } else {
        utf8_len(s.drop_last()) + utf8_width(s.last())
    }
}

pub open spec fn lit_true() -> Seq<char> {
    seq!['t', 'r', 'u', 'e']
}

pub open spec fn lit_false() -> Seq<char> {
    seq!['f', 'a', 'l', 's', 'e']
}

pub open spec fn lit_null() -> Seq<char> {
    seq!['n', 'u', 'l', 'l']
}

/// The description of a large-value anomaly.
pub open spec fn large_value_description(key: Seq<char>, len: nat) -> Seq<char> {
    "Large value for key '"@ + key + "': "@ + dec_digits(len) + " characters"@
}

/// The description of a deep-nesting anomaly.
pub open spec fn deep_nesting_description(depth: nat) -> Seq<char> {
    "Deep nesting level: "@ + dec_digits(depth)
}

/// Index of the statistics entry of `k`, or -1.
pub open spec fn key_index(keys: Seq<KeyModel>, k: Seq<char>) -> int
    decreases keys.len(),
{
    if keys.len() == 0 {
        -1
    } else if keys.last().key == k {
        keys.len() - 1
    } else {
        key_index(keys.drop_last(), k)
    }
}

/// The statistics after `key` received `value` at path `path`, with the
/// anomalies that the value triggers.
pub open spec fn record_key(
    m: JsonmModel,
    key: Seq<char>,
    path: Seq<char>,
    value: Seq<char>,
    ty: InferredType,
) -> JsonmModel {
    let i = key_index(m.keys, key);
    let pos = m.position;
    let m1 = if i < 0 {
        JsonmModel {
            keys: m.keys.push(
                KeyModel {
                    key,
                    id: m.next_key_id,
                    frequency: 1,
                    positions: seq![pos],
                    contexts: seq![path],
                    value_types: seq![ty],
                    first_seen: pos,
                    last_seen: pos,
                },
            ),
            next_key_id: (m.next_key_id + 1) as u64,
            total_keys: (m.total_keys + 1) as u64,
            ..m
        }
    } else {
        let e = m.keys[i];
        JsonmModel {
            keys: m.keys.update(
                i,
                KeyModel {
                    frequency: (e.frequency + 1) as u64,
                    positions: e.positions.push(pos),
                    contexts: e.contexts.push(path),
                    value_types: e.value_types.push(ty),
                    last_seen: pos,
                    ..e
                },
            ),
            ..m
        }
    };
    let a1 = if utf8_len(value) > 1000 {
        m1.anomalies.push(
            AnomalyModel {
                kind: AnomalyType::LargeToken,
                description: large_value_description(key, utf8_len(value)),
                position: pos,
                severity: Severity::Medium,
            },
        )
    } else {
        m1.anomalies
    };
    let a2 = if m.depth > 20 {
        a1.push(
            AnomalyModel {
                kind: AnomalyType::ExcessiveNesting,
                description: deep_nesting_description(m.depth as nat),
                position: pos,
                severity: Severity::High,
            },
        )
    } else {
        a1
    };
    JsonmModel { anomalies: a2, ..m1 }
}

/// A value completed inside an object: if a key is pending, a token for it,
/// the key's statistics, and the key cleared.
pub open spec fn key_value(m: JsonmModel, value: Seq<char>, ty: InferredType) -> JsonmModel {
    match m.current_key {
        Some(k) => {
            let path = value_path(m.frames, k);
            let m1 = record_key(m, k, path, value, ty);
            JsonmModel {
                tokens: m1.tokens.push(TokenModel { key: path, value, position: m.position }),
                current_key: None,
                total_values: (m1.total_values + 1) as u64,
                ..m1
            }
        },
        None => m,
    }
}

/// A value completed inside an array: a token at the array's next index, and
/// the index advanced.  Outside an array nothing is recorded.
pub open spec fn array_value(m: JsonmModel, value: Seq<char>) -> JsonmModel {
    if m.frames.len() > 0 && m.frames.last() is Array {
        let i = m.frames.last()->index;
        let path = value_path(m.frames, index_key(i));
        JsonmModel {
            tokens: m.tokens.push(TokenModel { key: path, value, position: m.position }),
            frames: m.frames.update(m.frames.len() - 1, FrameModel::Array { index: i + 1 }),
            total_values: (m.total_values + 1) as u64,
            ..m
        }
    } else {
        m
    }
}

/// The innermost frame is an object that has read its key.
pub open spec fn in_object_value(m: JsonmModel) -> bool {
    m.frames.len() > 0 && (m.frames.last() matches FrameModel::Object { expecting_key, .. }
        && !expecting_key)
}

/// A scalar value completed: recorded under the pending key or array index.
pub open spec fn scalar_value(m: JsonmModel, value: Seq<char>, ty: InferredType) -> JsonmModel {
    if in_object_value(m) {
        key_value(m, value, ty)
    } else {
        array_value(m, value)
    }
}

pub open spec fn with_sizes(m: JsonmModel, s: SizeEstimates) -> JsonmModel {
    JsonmModel { sizes: s, ..m }
}

/// A string completed (`content` holds its quotes): an object key when the
/// innermost object expects one, a value otherwise.
pub open spec fn complete_string(m: JsonmModel, content: Seq<char>) -> JsonmModel {
    let v = strip_quotes(content);
    let m1 = if m.frames.len() > 0 && (m.frames.last() matches FrameModel::Object {
        expecting_key,
        ..
    } && expecting_key) {
        JsonmModel {
            current_key: Some(v),
            state: JsonState::ExpectColon,
            frames: m.frames.update(
                m.frames.len() - 1,
                FrameModel::Object { key: Some(v), expecting_key: false },
            ),
            ..m
        }
    } else {
        JsonmModel { state: JsonState::ExpectCommaOrClose, ..scalar_value(m, v, InferredType::String) }
    };
    with_sizes(
        m1,
        SizeEstimates { estimated_strings: (m1.sizes.estimated_strings + 1) as u64, ..m1.sizes },
    )
}

/// A number completed.
pub open spec fn complete_number(m: JsonmModel, content: Seq<char>) -> JsonmModel {
    let m1 = scalar_value(m, content, InferredType::Number);
    with_sizes(
        m1,
        SizeEstimates { estimated_numbers: (m1.sizes.estimated_numbers + 1) as u64, ..m1.sizes },
    )
}

/// A literal completed; only `true`, `false` and `null` are accepted.
pub open spec fn complete_literal(m: JsonmModel, content: Seq<char>) -> Option<JsonmModel> {
    if content == lit_true() || content == lit_false() {
        Some(scalar_value(m, content, InferredType::Boolean))
    } else if content == lit_null() {
        Some(scalar_value(m, content, InferredType::Null))
    } else {
        None
    }
}

/// A new scalar buffer holding `ch`.
pub open spec fn start_buffer(m: JsonmModel, ch: char, ct: CharType, st: JsonState) -> JsonmModel {
    JsonmModel {
        buffer: Some(
            BufferModel {
                char_type: ct,
                content: seq![ch],
                start: m.position,
                end: m.position,
                state: st,
                escaped: false,
            },
        ),
        state: st,
        ..m
    }
}

/// `ch` appended to the buffer, if there is one.
pub open spec fn extend_buffer(m: JsonmModel, ch: char) -> JsonmModel {
    match m.buffer {
        Some(b) => JsonmModel {
            buffer: Some(BufferModel { content: b.content.push(ch), end: m.position, ..b }),
            ..m
        },
        None => m,
    }
}

/// An object (`{`) or array (`[`) opened.
pub open spec fn open(m: JsonmModel, bracket: char) -> JsonmModel {
    let d = (m.depth + 1) as u64;
    let frame = if bracket == '{' {
        FrameModel::Object { key: None, expecting_key: true }
    } else {
        FrameModel::Array { index: 0 }
    };
    let sizes = if bracket == '{' {
        SizeEstimates { estimated_objects: (m.sizes.estimated_objects + 1) as u64, ..m.sizes }
    } else {
        SizeEstimates { estimated_arrays: (m.sizes.estimated_arrays + 1) as u64, ..m.sizes }
    };
    JsonmModel {
        depth: d,
        balance: (m.balance + 1) as u64,
        max_depth: if m.max_depth < d { d } else { m.max_depth },
        brackets: m.brackets.push(bracket),
        frames: m.frames.push(frame),
        sizes,
        ..m
    }
}

/// The innermost container closed; it must have been opened with `bracket`.
pub open spec fn close(m: JsonmModel, bracket: char) -> Option<JsonmModel> {
    if m.brackets.len() == 0 || m.brackets.last() != bracket {
        None
    } else {
        Some(
            JsonmModel {
                depth: (m.depth - 1) as u64,
                balance: (m.balance - 1) as u64,
                frames: m.frames.drop_last(),
                brackets: m.brackets.drop_last(),
                ..m
            },
        )
    }
}

pub open spec fn with_state(m: Option<JsonmModel>, st: JsonState) -> Option<JsonmModel> {
    match m {
        Some(x) => Some(JsonmModel { state: st, ..x }),
        None => None,
    }
}

/// A value may start here.
pub open spec fn expect_value(m: JsonmModel, ch: char, ct: CharType) -> Option<JsonmModel> {
    match ct {
        CharType::StringDelim => Some(
            start_buffer(m, ch, CharType::StringDelim, JsonState::InString),
        ),
        CharType::Digit | CharType::Sign => Some(
            start_buffer(m, ch, CharType::Digit, JsonState::InNumber),
        ),
        CharType::Structure => if ch == '{' {
            Some(JsonmModel { state: JsonState::ExpectKey, ..open(m, '{') })
        } else if ch == '[' {
            Some(JsonmModel { state: JsonState::ExpectValue, ..open(m, '[') })
        } else {
            None
        },
        CharType::Letter => if ch == 't' {
            Some(start_buffer(m, ch, CharType::Letter, JsonState::InTrue))
        } else if ch == 'f' {
            Some(start_buffer(m, ch, CharType::Letter, JsonState::InFalse))
        } else if ch == 'n' {
            Some(start_buffer(m, ch, CharType::Letter, JsonState::InNull))
        } else {
            None
        },
        _ => None,
    }
}

/// An object key or the end of an empty object may come here.
pub open spec fn expect_key(m: JsonmModel, ch: char, ct: CharType) -> Option<JsonmModel> {
    if ct == CharType::StringDelim {
        Some(start_buffer(m, ch, CharType::StringDelim, JsonState::InString))
    } else if ct == CharType::Structure && ch == '}' {
        with_state(close(m, '{'), JsonState::ExpectCommaOrClose)
    } else {
        None
    }
}

/// A separator or a closing bracket may come here.  After a comma inside an
/// object, the object expects its next key.
pub open spec fn comma_or_close(m: JsonmModel, ch: char, ct: CharType) -> Option<JsonmModel> {
    if ct != CharType::Structure {
        None
    } else if ch == ',' {
        if m.frames.len() == 0 {
            Some(m)
        } else {
            match m.frames.last() {
                FrameModel::Object { key, .. } => Some(
                    JsonmModel {
                        state: JsonState::ExpectKey,
                        frames: m.frames.update(
                            m.frames.len() - 1,
                            FrameModel::Object { key, expecting_key: true },
                        ),
                        ..m
                    },
                ),
                FrameModel::Array { .. } => Some(JsonmModel { state: JsonState::ExpectValue, ..m }),
            }
        }
    } else if ch == '}' {
        with_state(close(m, '{'), JsonState::ExpectCommaOrClose)
    } else if ch == ']' {
        with_state(close(m, '['), JsonState::ExpectCommaOrClose)
    } else {
        None
    }
}

/// Inside a number: number characters extend it, a structural character ends
/// it and is then handled as a separator or closing bracket.
pub open spec fn in_number(m: JsonmModel, ch: char, ct: CharType) -> Option<JsonmModel> {
    match ct {
        CharType::Digit | CharType::Decimal | CharType::Exponent | CharType::Sign => Some(
            extend_buffer(m, ch),
        ),
        CharType::Structure => {
            let m1 = match m.buffer {
                Some(b) => complete_number(JsonmModel { buffer: None, ..m }, b.content),
                None => m,
            };
            comma_or_close(m1, ch, ct)
        },
        _ => None,
    }
}

/// The literal a literal state spells.
pub open spec fn literal_of(st: JsonState) -> Option<Seq<char>> {
    match st {
        JsonState::InTrue => Some(lit_true()),
        JsonState::InFalse => Some(lit_false()),
        JsonState::InNull => Some(lit_null()),
        _ => None,
    }
}

/// Inside `true`, `false` or `null`.
pub open spec fn literal(m: JsonmModel, ch: char) -> Option<JsonmModel> {
    match m.buffer {
        Some(b) => {
            let c = b.content.push(ch);
            let m1 = JsonmModel {
                buffer: Some(BufferModel { content: c, end: m.position, ..b }),
                ..m
            };
            match literal_of(b.state) {
                Some(expected) => if c == expected {
                    with_state(
                        complete_literal(JsonmModel { buffer: None, ..m1 }, c),
                        JsonState::ExpectCommaOrClose,
                    )
                } else if !is_prefix(c, expected) {
                    None
                } else {
                    Some(m1)
                },
                None => None,
            }
        },
        None => Some(m),
    }
}

/// A character outside a string (or one without special meaning inside it).
pub open spec fn dispatch(m: JsonmModel, ch: char, ct: CharType) -> Option<JsonmModel> {
    if ct == CharType::Whitespace {
        Some(m)
    } else {
        match m.state {
            JsonState::ExpectValue | JsonState::ExpectValueAfterColon => expect_value(m, ch, ct),
            JsonState::ExpectKey => expect_key(m, ch, ct),
            JsonState::ExpectColon => if ct == CharType::Structure && ch == ':' {
                Some(JsonmModel { state: JsonState::ExpectValueAfterColon, ..m })
            } else {
                None
            },
            JsonState::ExpectCommaOrClose => comma_or_close(m, ch, ct),
            JsonState::InString => Some(extend_buffer(m, ch)),
            JsonState::InNumber => in_number(m, ch, ct),
            JsonState::InTrue | JsonState::InFalse | JsonState::InNull => literal(m, ch),
        }
    }
}

/// The state after one character at the current position, or `None` when the
/// character is rejected.  Inside a string an escaped character, a backslash
/// and the closing quote are handled first.
#[verifier::opaque]
pub open spec fn step(m: JsonmModel, ch: char) -> Option<JsonmModel> {
    let ct = classify(ch);
    match m.buffer {
        Some(b) => if b.state == JsonState::InString {
            if b.escaped {
                Some(
                    JsonmModel {
                        buffer: Some(
                            BufferModel {
                                content: b.content.push(ch),
                                escaped: false,
                                end: m.position,
                                ..b
                            },
                        ),
                        ..m
                    },
                )
            } else if ch == '\\' {
                Some(
                    JsonmModel {
                        buffer: Some(
                            BufferModel {
                                content: b.content.push(ch),
                                escaped: true,
                                end: m.position,
                                ..b
                            },
                        ),
                        ..m
                    },
                )
            } else if ch == '"' {
                Some(complete_string(JsonmModel { buffer: None, ..m }, b.content.push(ch)))
            } else {
                dispatch(m, ch, ct)
            }
        } else {
            dispatch(m, ch, ct)
        },
        None => dispatch(m, ch, ct),
    }
}

/// `prefix`, the character, then `suffix`.
pub open spec fn with_char(prefix: Seq<char>, ch: char, suffix: Seq<char>) -> Seq<char> {
    prefix.push(ch) + suffix
}

/// Why closing with `bracket` is refused: nothing is open, or the innermost
/// container was opened with the other bracket.
pub open spec fn close_error(m: JsonmModel, bracket: char) -> Seq<char> {
    if m.brackets.len() == 0 {
        if bracket == '{' {
            "Unmatched closing brace"@
        } else {
            "Unmatched closing bracket"@
        }
    } else if bracket == '{' {
        with_char("Bracket mismatch: expected '{', found '"@, m.brackets.last(), "'"@)
    } else {
        with_char("Bracket mismatch: expected '[', found '"@, m.brackets.last(), "'"@)
    }
}

/// Why `ch` cannot start a value.
pub open spec fn expect_value_error(ch: char, ct: CharType) -> Seq<char> {
    if ct == CharType::Structure {
        with_char("Unexpected structural character '"@, ch, "' when expecting value"@)
    } else {
        with_char("Unexpected character '"@, ch, "' when expecting value"@)
    }
}

/// Why `ch` is refused where a key may come.
pub open spec fn expect_key_error(m: JsonmModel, ch: char, ct: CharType) -> Seq<char> {
    if ct == CharType::Structure && ch == '}' {
        close_error(m, '{')
    } else {
        with_char("Expected string key or '}', found '"@, ch, "'"@)
    }
}

/// Why `ch` is refused where a separator or a closing bracket may come.
pub open spec fn comma_or_close_error(m: JsonmModel, ch: char, ct: CharType) -> Seq<char> {
    if ct == CharType::Structure && ch == '}' {
        close_error(m, '{')
    } else if ct == CharType::Structure && ch == ']' {
        close_error(m, '[')
    } else {
        with_char("Expected ',', '}', or ']', found '"@, ch, "'"@)
    }
}

/// Why `ch` is refused inside a number.
pub open spec fn in_number_error(m: JsonmModel, ch: char, ct: CharType) -> Seq<char> {
    if ct == CharType::Structure {
        let m1 = match m.buffer {
            Some(b) => complete_number(JsonmModel { buffer: None, ..m }, b.content),
            None => m,
        };
        comma_or_close_error(m1, ch, ct)
    } else {
        with_char("Invalid character '"@, ch, "' in number"@)
    }
}

/// Why `ch` is refused inside a literal.
pub open spec fn literal_error(m: JsonmModel, ch: char) -> Seq<char> {
    match m.buffer {
        Some(b) => match literal_of(b.state) {
            Some(_) => "Invalid literal: "@ + b.content.push(ch),
            None => "Invalid literal state"@,
        },
        None => Seq::empty(),
    }
}

/// Why `dispatch` refuses `ch`.
pub open spec fn dispatch_error(m: JsonmModel, ch: char, ct: CharType) -> Seq<char> {
    match m.state {
        JsonState::ExpectValue | JsonState::ExpectValueAfterColon => expect_value_error(ch, ct),
        JsonState::ExpectKey => expect_key_error(m, ch, ct),
        JsonState::ExpectColon => with_char("Expected ':', found '"@, ch, "'"@),
        JsonState::ExpectCommaOrClose => comma_or_close_error(m, ch, ct),
        JsonState::InNumber => in_number_error(m, ch, ct),
        JsonState::InTrue | JsonState::InFalse | JsonState::InNull => literal_error(m, ch),
        JsonState::InString => Seq::empty(),
    }
}

/// The message of the rejection of `ch` when `step` refuses it.
pub open spec fn step_error(m: JsonmModel, ch: char) -> Seq<char> {
    dispatch_error(m, ch, classify(ch))
}

/// The message of the first rejected character of `s`.
pub open spec fn run_error(m: JsonmModel, s: Seq<char>) -> Seq<char>
    decreases s.len(),
{
    if s.len() == 0 {
        Seq::empty()
    } else {
        match run(m, s.drop_last()) {
            Some(m1) => step_error(m1, s.last()),
            None => run_error(m, s.drop_last()),
        }
    }
}

/// Why a finished input is refused: brackets left unbalanced or unclosed.
pub open spec fn finish_error(m: JsonmModel) -> Seq<char> {
    if m.balance != 0 {
        "Unbalanced JSON structure"@
    } else {
        "Unclosed brackets in JSON"@
    }
}

/// The position and byte count moved past one character.
pub open spec fn advance(m: JsonmModel) -> JsonmModel {
    JsonmModel {
        position: (m.position + 1) as u64,
        sizes: SizeEstimates { total_bytes: (m.sizes.total_bytes + 1) as u64, ..m.sizes },
        ..m
    }
}

/// The state after the characters of `s` in order, or `None` if one of them
/// is rejected.
pub open spec fn run(m: JsonmModel, s: Seq<char>) -> Option<JsonmModel>
    decreases s.len(),
{
    if s.len() == 0 {
        Some(m)
    } else {
        match run(m, s.drop_last()) {
            Some(m1) => match step(m1, s.last()) {
                Some(m2) => Some(advance(m2)),
                None => None,
            },
            None => None,
        }
    }
}

/// The mode after a memory-pressure check.
pub open spec fn pressure_mode(m: JsonmModel) -> ProcessingMode {
    let size = m.keys.len() * 200 + m.tokens.len() * 150 + m.anomalies.len() * 100;
    if size > m.memory_threshold * 10 {
        ProcessingMode::Streaming
    } else if size > m.memory_threshold {
        ProcessingMode::Hybrid
    } else {
        m.mode
    }
}

/// The tokens handed out when the input ends: all of them when every bracket
/// is closed, `None` otherwise.
pub open spec fn finish(m: JsonmModel) -> Option<Seq<TokenModel>> {
    if m.balance != 0 || m.brackets.len() != 0 {
        None
    } else {
        Some(m.tokens)
    }
}

// ---------------------------------------------------------------------------
// Well-formedness
// ---------------------------------------------------------------------------

/// The bracket stack and the frame stack describe the same containers.
pub open spec fn stacks_agree(m: JsonmModel) -> bool {
    &&& m.brackets.len() == m.frames.len()
    &&& m.depth == m.frames.len()
    &&& m.balance == m.depth
    &&& forall|i: int|
        0 <= i < m.frames.len() ==> ((m.brackets[i] == '{') <==> (#[trigger] m.frames[i] is Object))
            && (m.brackets[i] == '{' || m.brackets[i] == '[')
}

/// No key occurs twice in the statistics.
pub open spec fn keys_distinct(keys: Seq<KeyModel>) -> bool {
    forall|i: int, j: int| 0 <= i < j < keys.len() ==> keys[i].key != keys[j].key
}

/// Counters stay below the number of characters read.
pub open spec fn counters_bounded(m: JsonmModel) -> bool {
    &&& m.depth <= m.max_depth <= m.position
    &&& m.sizes.total_bytes == m.position
    &&& m.sizes.estimated_objects <= m.position
    &&& m.sizes.estimated_arrays <= m.position
    &&& m.sizes.estimated_strings <= m.position
    &&& m.sizes.estimated_numbers <= m.position
    &&& m.total_values == m.tokens.len()
    &&& m.total_values <= m.position
    &&& m.total_keys == m.keys.len()
    &&& m.next_key_id == m.total_keys + 1
    &&& m.total_keys <= m.total_values
    &&& forall|i: int| 0 <= i < m.keys.len() ==> (#[trigger] m.keys[i]).frequency <= m.total_values
    &&& forall|i: int|
        0 <= i < m.frames.len() ==> (#[trigger] m.frames[i] matches FrameModel::Array { index }
            ==> index <= m.total_values)
}

/// The invariant every reachable state satisfies.
pub open spec fn wf_model(m: JsonmModel) -> bool {
    &&& stacks_agree(m)
    &&& keys_distinct(m.keys)
    &&& counters_bounded(m)
}


/// The state of a fresh processor.
pub open spec fn initial_model() -> JsonmModel {
    JsonmModel {
        position: 0,
        state: JsonState::ExpectValue,
        depth: 0,
        balance: 0,
        max_depth: 0,
        frames: Seq::empty(),
        brackets: Seq::empty(),
        buffer: None,
        current_key: None,
        keys: Seq::empty(),
        total_keys: 0,
        total_values: 0,
        anomalies: Seq::empty(),
        sizes: SizeEstimates {
            total_bytes: 0,
            estimated_objects: 0,
            estimated_arrays: 0,
            estimated_strings: 0,
            estimated_numbers: 0,
        },
        tokens: Seq::empty(),
        next_key_id: 1,
        memory_threshold: 5242880usize,
        mode: ProcessingMode::InMemory,
    }
}

/// There is room to read one more character.
pub open spec fn room(m: JsonmModel) -> bool {
    counters_bounded(m) && m.position < POSITION_LIMIT
}

/// The number of characters one processor reads at most.
pub const POSITION_LIMIT: u64 = 0x7fff_ffff_ffff_ffff;

// ---------------------------------------------------------------------------
// Executable code
// ---------------------------------------------------------------------------

/// The class of a character.
pub fn classify_char(ch: char) -> (r: CharType)
    ensures
        r == classify(ch),
{
    if ch == '{' || ch == '}' || ch == '[' || ch == ']' || ch == ':' || ch == ',' {
        CharType::Structure
    } else if ch == '"' {
        CharType::StringDelim
    } else if '0' <= ch && ch <= '9' {
        CharType::Digit
    } else if ('a' <= ch && ch <= 'z') || ('A' <= ch && ch <= 'Z') {
        CharType::Letter
    } else if ch == '+' || ch == '-' {
        CharType::Sign
    } else if ch == '.' {
        CharType::Decimal
    } else if ch == 'e' || ch == 'E' {
        CharType::Exponent
    } else if ch == ' ' || ch == '\t' || ch == '\n' || ch == '\r' {
        CharType::Whitespace
    } else if ch == '\\' {
        CharType::Escape
    } else {
        CharType::Other
    }
}

/// `__i_<i>`.
fn index_key_string(i: u64) -> (r: String)
    ensures
        r@ == index_key(i as nat),
{
    let mut s = String::new();
    push_char(&mut s, '_');
    push_char(&mut s, '_');
    push_char(&mut s, 'i');
    push_char(&mut s, '_');
    let d = u64_to_string(i);
    s.append(d.as_str());
    assert(s@ =~= index_key(i as nat));
    s
}

/// The UTF-8 byte length of `s`.
pub(crate) fn utf8_length(s: &String) -> (n: u128)
    ensures
        n == utf8_len(s@),
{
    let v = crate::text::chars_of(s.as_str());
    let mut n: u128 = 0;
    let mut i: usize = 0;
    while i < v.len()
        invariant
            i <= v.len(),
            v@ == s@,
            n == utf8_len(v@.take(i as int)),
            n <= 4 * i,
        decreases v.len() - i,
    {
        assert(v@.take(i + 1).drop_last() =~= v@.take(i as int));
        let c = v[i];
        let w: u128 = if (c as u32) < 0x80 {
            1
        } else if (c as u32) < 0x800 {
            2
        } else if (c as u32) < 0x10000 {
            3
        } else {
            4
        };
        n = n + w;
        i = i + 1;
    }
    assert(v@.take(v.len() as int) =~= v@);
    n
}

/// `s` without its leading and trailing runs of `"`.
fn strip_quote_runs(s: &String) -> (r: String)
    ensures
        r@ == strip_quotes(s@),
{
    let v = crate::text::chars_of(s.as_str());
    let n = v.len();
    let mut a: usize = 0;
    assert(v@.subrange(0, n as int) =~= v@);
    while a < n && v[a] == '"'
        invariant
            n == v.len(),
            v@ == s@,
            a <= n,
            lead_quotes(v@) == a + lead_quotes(v@.subrange(a as int, n as int)),
        decreases n - a,
    {
        assert(v@.subrange(a as int, n as int).drop_first() =~= v@.subrange(a + 1, n as int));
        a = a + 1;
    }
    let ghost rest = v@.subrange(a as int, n as int);
    let mut b: usize = n;
    assert(v@.subrange(a as int, n as int) =~= rest);
    while b > a && v[b - 1] == '"'
        invariant
            a <= b <= n,
            n == v.len(),
            rest == v@.subrange(a as int, n as int),
            trail_quotes(rest) == (n - b) + trail_quotes(v@.subrange(a as int, b as int)),
        decreases b - a,
    {
        assert(v@.subrange(a as int, b as int).drop_last() =~= v@.subrange(a as int, b - 1));
        b = b - 1;
    }
    let r = crate::text::string_from_chars(&v, a, b);
    assert(rest.subrange(0, rest.len() - trail_quotes(rest)) =~= v@.subrange(a as int, b as int));
    r
}

/// A copy of an optional string.
fn copy_opt(o: &Option<String>) -> (r: Option<String>)
    ensures
        opt_view(r) == opt_view(*o),
{
    match o {
        Some(s) => Some(s.clone()),
        None => None,
    }
}

/// A copy of a vector of strings.
fn copy_strings(v: &Vec<String>) -> (r: Vec<String>)
    ensures
        r@.map_values(|s: String| s@) == v@.map_values(|s: String| s@),
{
    let mut r: Vec<String> = Vec::new();
    let mut i: usize = 0;
    while i < v.len()
        invariant
            i <= v.len(),
            r.len() == i,
            forall|j: int| 0 <= j < i ==> (#[trigger] r@[j])@ == v@[j]@,
        decreases v.len() - i,
    {
        r.push(v[i].clone());
        i = i + 1;
    }
    assert(r@.map_values(|s: String| s@) =~= v@.map_values(|s: String| s@));
    r
}

impl ContextFrame {
    /// A copy of the frame.
    pub fn copy(&self) -> (r: Self)
        ensures
            r.model() == self.model(),
    {
        match self {
            ContextFrame::Object { current_key, expecting_key } => ContextFrame::Object {
                current_key: copy_opt(current_key),
                expecting_key: *expecting_key,
            },
            ContextFrame::Array { current_index } => ContextFrame::Array {
                current_index: *current_index,
            },
        }
    }
}

impl PatternBuffer {
    /// A copy of the buffer.
    pub fn copy(&self) -> (r: Self)
        ensures
            r.model() == self.model(),
    {
        PatternBuffer {
            char_type: self.char_type,
            content: self.content.clone(),
            start_position: self.start_position,
            end_position: self.end_position,
            json_state: self.json_state,
            escaped: self.escaped,
        }
    }
}

impl KeyStats {
    /// A copy of the statistics entry.
    pub fn copy(&self) -> (r: Self)
        ensures
            r.model() == self.model(),
    {
        let contexts = copy_strings(&self.contexts);
        KeyStats {
            key: self.key.clone(),
            id: self.id,
            frequency: self.frequency,
            positions: self.positions.clone(),
            contexts,
            value_types: self.value_types.clone(),
            first_seen: self.first_seen,
            last_seen: self.last_seen,
        }
    }
}

impl Anomaly {
    /// A copy of the anomaly.
    pub fn copy(&self) -> (r: Self)
        ensures
            r.model() == self.model(),
    {
        Anomaly {
            anomaly_type: self.anomaly_type,
            description: self.description.clone(),
            position: self.position,
            severity: self.severity,
        }
    }
}

impl MeteorToken {
    /// A copy of the token.
    pub fn copy(&self) -> (r: Self)
        ensures
            r.model() == self.model(),
            r.context@ == self.context@,
            r.namespace@ == self.namespace@,
    {
        MeteorToken {
            context: self.context.clone(),
            namespace: self.namespace.clone(),
            key: self.key.clone(),
            value: self.value.clone(),
            position: self.position,
        }
    }
}


/// `prefix`, then `ch`, then `suffix`.
fn message_with_char(prefix: &str, ch: char, suffix: &str) -> (r: String)
    ensures
        r@ == prefix@.push(ch) + suffix@,
{
    let mut s = String::from_str(prefix);
    push_char(&mut s, ch);
    s.append(suffix);
    s
}

impl JsonmProcessor {
    /// A processor at the start of its input.
    pub fn new() -> (p: Self)
        ensures
            p.model() == initial_model(),
            p.wf(),
    {
        let p = JsonmProcessor {
            current_position: 0,
            structural_state: StructuralState {
                depth: 0,
                balance: 0,
                max_depth: 0,
                context_stack: Vec::new(),
                current_state: JsonState::ExpectValue,
                bracket_stack: Vec::new(),
            },
            pattern_buffer: None,
            current_key: None,
            key_dictionary: Vec::new(),
            forensic_stats: ForensicStats {
                total_keys: 0,
                total_values: 0,
                anomalies: Vec::new(),
                size_estimates: SizeEstimates {
                    total_bytes: 0,
                    estimated_objects: 0,
                    estimated_arrays: 0,
                    estimated_strings: 0,
                    estimated_numbers: 0,
                },
            },
            meteor_tokens: Vec::new(),
            next_key_id: 1,
            memory_threshold: 5 * 1024 * 1024,
            processing_mode: ProcessingMode::InMemory,
        };
        assert(p.model().frames =~= Seq::<FrameModel>::empty());
        assert(p.model().keys =~= Seq::<KeyModel>::empty());
        assert(p.model().anomalies =~= Seq::<AnomalyModel>::empty());
        assert(p.model().tokens =~= Seq::<TokenModel>::empty());
        p
    }

    /// The class of a character.
    pub fn classify_character(&self, ch: char) -> (r: CharType)
        ensures
            r == classify(ch),
    {
        classify_char(ch)
    }

    /// Starts a scalar buffer holding `ch` and enters `st`.
    fn start_pattern(&mut self, ch: char, ct: CharType, st: JsonState)
        ensures
            final(self).model() == start_buffer(old(self).model(), ch, ct, st),
            final(self).meteor_tokens == old(self).meteor_tokens,
    {
        let mut content = String::new();
        push_char(&mut content, ch);
        self.pattern_buffer = Some(
            PatternBuffer {
                char_type: ct,
                content,
                start_position: self.current_position,
                end_position: self.current_position,
                json_state: st,
                escaped: false,
            },
        );
        self.structural_state.current_state = st;
        assert(final(self).model().buffer == start_buffer(old(self).model(), ch, ct, st).buffer);
    }

    /// Opens an object or array.
    fn handle_container_start(&mut self, bracket: char)
        requires
            room(old(self).model()),
            stacks_agree(old(self).model()),
            bracket == '{' || bracket == '[',
        ensures
            final(self).model() == open(old(self).model(), bracket),
            final(self).meteor_tokens == old(self).meteor_tokens,
    {
        let ghost m = self.model();
        self.structural_state.depth = self.structural_state.depth + 1;
        self.structural_state.balance = self.structural_state.balance + 1;
        if self.structural_state.max_depth < self.structural_state.depth {
            self.structural_state.max_depth = self.structural_state.depth;
        }
        self.structural_state.bracket_stack.push(bracket);
        if bracket == '{' {
            self.structural_state.context_stack.push(
                ContextFrame::Object { current_key: None, expecting_key: true },
            );
            self.forensic_stats.size_estimates.estimated_objects =
            self.forensic_stats.size_estimates.estimated_objects + 1;
        } else {
            self.structural_state.context_stack.push(ContextFrame::Array { current_index: 0 });
            self.forensic_stats.size_estimates.estimated_arrays =
            self.forensic_stats.size_estimates.estimated_arrays + 1;
        }
        assert(self.model().frames =~= open(m, bracket).frames);
        assert(self.model().sizes == open(m, bracket).sizes);
    }

    /// Closes the innermost container, which must have been opened with `bracket`.
    fn handle_container_end(&mut self, bracket: char) -> (r: Result<(), String>)
        requires
            stacks_agree(old(self).model()),
        ensures
            match close(old(self).model(), bracket) {
                Some(m) => r is Ok && final(self).model() == m,
                None => r matches Err(e) && e@ == close_error(old(self).model(), bracket),
            },
            final(self).meteor_tokens == old(self).meteor_tokens,
    {
        let ghost m = self.model();
        let n = self.structural_state.bracket_stack.len();
        if n == 0 {
            if bracket == '{' {
                return Err(String::from_str("Unmatched closing brace"));
            } else {
                return Err(String::from_str("Unmatched closing bracket"));
            }
        }
        let found = self.structural_state.bracket_stack[n - 1];
        if found != bracket {
            if bracket == '{' {
                return Err(message_with_char("Bracket mismatch: expected '{', found '", found, "'"));
            } else {
                return Err(message_with_char("Bracket mismatch: expected '[', found '", found, "'"));
            }
        }
        self.structural_state.bracket_stack.pop();
        self.structural_state.depth = self.structural_state.depth - 1;
        self.structural_state.balance = self.structural_state.balance - 1;
        self.structural_state.context_stack.pop();
        assert(self.model().frames =~= m.frames.drop_last());
        Ok(())
    }

    /// The dotted path of a value whose own segment is `key`.
    fn build_current_path(&self, key: &String) -> (r: String)
        ensures
            r@ == value_path(self.model().frames, key@),
    {
        let frames = &self.structural_state.context_stack;
        let ghost fm = frames_model(frames@);
        let n = frames.len();
        let outer: usize = if n == 0 { 0 } else { n - 1 };
        let mut parts: Vec<String> = Vec::new();
        let mut i: usize = 0;
        assert(fm.take(0) =~= Seq::<FrameModel>::empty());
        while i < outer
            invariant
                outer <= frames.len(),
                fm == frames_model(frames@),
                i <= outer,
                crate::text::views(parts@) == path_parts(fm.take(i as int)),
            decreases outer - i,
        {
            assert(fm.take(i + 1).drop_last() =~= fm.take(i as int));
            assert(fm.take(i + 1).last() == frames@[i as int].model());
            match &frames[i] {
                ContextFrame::Object { current_key: Some(k), .. } => {
                    parts.push(k.clone());
                },
                ContextFrame::Array { current_index } => {
                    parts.push(index_key_string(*current_index));
                },
                _ => {},
            }
            proof {
                assert(crate::text::views(parts@) =~= path_parts(fm.take(i + 1)));
            }
            i = i + 1;
        }
        let ghost before = crate::text::views(parts@);
        parts.push(key.clone());
        assert(crate::text::views(parts@) =~= before.push(key@));
        proof {
            let outer_frames = if fm.len() == 0 { fm } else { fm.drop_last() };
            assert(outer_frames =~= fm.take(outer as int));
        }
        let r = crate::text::join(&parts, ".");
        proof {
            reveal_strlit(".");
            assert("."@ =~= seq!['.']);
        }
        r
    }
}


impl JsonmProcessor {
    /// The index of the statistics entry of `key`.
    fn find_key(&self, key: &String) -> (r: Option<usize>)
        ensures
            match r {
                Some(i) => i == key_index(self.model().keys, key@) && i < self.key_dictionary.len(),
                None => key_index(self.model().keys, key@) == -1,
            },
    {
        let ghost km = keys_model(self.key_dictionary@);
        let mut i: usize = self.key_dictionary.len();
        assert(km.take(i as int) =~= km);
        while i > 0
            invariant
                i <= self.key_dictionary.len(),
                km == keys_model(self.key_dictionary@),
                key_index(km, key@) == key_index(km.take(i as int), key@),
            decreases i,
        {
            assert(km.take(i as int).drop_last() =~= km.take(i - 1));
            if self.key_dictionary[i - 1].key == *key {
                return Some(i - 1);
            }
            i = i - 1;
        }
        None
    }

    /// Records that `key` received `value` at `path`, with the anomalies the
    /// value triggers.
    fn update_key_statistics(&mut self, key: &String, path: &String, value: &String, ty: InferredType)
        requires
            room(old(self).model()),
        ensures
            final(self).model() == record_key(old(self).model(), key@, path@, value@, ty),
            final(self).meteor_tokens == old(self).meteor_tokens,
    {
        let ghost m = self.model();
        let pos = self.current_position;
        match self.find_key(key) {
            None => {
                let mut positions: Vec<u64> = Vec::new();
                positions.push(pos);
                let mut contexts: Vec<String> = Vec::new();
                contexts.push(path.clone());
                let mut value_types: Vec<InferredType> = Vec::new();
                value_types.push(ty);
                let e = KeyStats {
                    key: key.clone(),
                    id: self.next_key_id,
                    frequency: 1,
                    positions,
                    contexts,
                    value_types,
                    first_seen: pos,
                    last_seen: pos,
                };
                self.key_dictionary.push(e);
                self.next_key_id = self.next_key_id + 1;
                self.forensic_stats.total_keys = self.forensic_stats.total_keys + 1;
                proof {
                    assert(e.model().contexts =~= seq![path@]);
                    assert(self.model().keys =~= record_key(m, key@, path@, value@, ty).keys);
                }
            },
            Some(i) => {
                let ghost e0 = self.key_dictionary@[i as int];
                assert(m.keys[i as int] == e0.model());
                assert(e0.frequency <= m.total_values);
                let mut e = self.key_dictionary.remove(i);
                e.frequency = e.frequency + 1;
                e.positions.push(pos);
                e.contexts.push(path.clone());
                e.value_types.push(ty);
                e.last_seen = pos;
                self.key_dictionary.insert(i, e);
                proof {
                    assert(e.model().contexts =~= e0.model().contexts.push(path@));
                    assert(self.model().keys =~= record_key(m, key@, path@, value@, ty).keys);
                }
            },
        }
        let ghost m1 = self.model();
        self.detect_value_anomalies(key, value);
        assert(self.model().anomalies =~= record_key(m, key@, path@, value@, ty).anomalies);
    }

    /// Records the anomalies that `value` of `key` triggers: a value over a
    /// thousand bytes, and nesting deeper than twenty levels.
    fn detect_value_anomalies(&mut self, key: &String, value: &String)
        ensures
            final(self).model() == ({
                let m = old(self).model();
                let a1 = if utf8_len(value@) > 1000 {
                    m.anomalies.push(
                        AnomalyModel {
                            kind: AnomalyType::LargeToken,
                            description: large_value_description(key@, utf8_len(value@)),
                            position: m.position,
                            severity: Severity::Medium,
                        },
                    )
                } else {
                    m.anomalies
                };
                let a2 = if m.depth > 20 {
                    a1.push(
                        AnomalyModel {
                            kind: AnomalyType::ExcessiveNesting,
                            description: deep_nesting_description(m.depth as nat),
                            position: m.position,
                            severity: Severity::High,
                        },
                    )
                } else {
                    a1
                };
                JsonmModel { anomalies: a2, ..m }
            }),
            final(self).meteor_tokens == old(self).meteor_tokens,
    {
        let ghost m = self.model();
        let n = utf8_length(value);
        if n > 1000 {
            let mut d = String::from_str("Large value for key '");
            d.append(key.as_str());
            d.append("': ");
            let digits = crate::text::u128_to_string(n);
            d.append(digits.as_str());
            d.append(" characters");
            let a = Anomaly {
                anomaly_type: AnomalyType::LargeToken,
                description: d,
                position: self.current_position,
                severity: Severity::Medium,
            };
            self.forensic_stats.anomalies.push(a);
            assert(d@ =~= large_value_description(key@, utf8_len(value@)));
        }
        let ghost a1 = self.model().anomalies;
        if self.structural_state.depth > 20 {
            let mut d = String::from_str("Deep nesting level: ");
            let digits = u64_to_string(self.structural_state.depth);
            d.append(digits.as_str());
            let a = Anomaly {
                anomaly_type: AnomalyType::ExcessiveNesting,
                description: d,
                position: self.current_position,
                severity: Severity::High,
            };
            self.forensic_stats.anomalies.push(a);
            assert(d@ =~= deep_nesting_description(m.depth as nat));
            assert(self.model().anomalies =~= a1.push(a.model()));
        }
        proof {
            if utf8_len(value@) > 1000 {
                assert(a1 =~= m.anomalies.push(
                    AnomalyModel {
                        kind: AnomalyType::LargeToken,
                        description: large_value_description(key@, utf8_len(value@)),
                        position: m.position,
                        severity: Severity::Medium,
                    },
                ));
            } else {
                assert(a1 =~= m.anomalies);
            }
        }
    }
}


/// A token with the fixed context and namespace.
fn make_token(key: String, value: String, position: u64) -> (t: MeteorToken)
    ensures
        t.model() == (TokenModel { key: key@, value: value@, position }),
        t.well_labelled(),
{
    let context = String::from_str("app");
    let namespace = String::from_str("jsonm_parsed");
    proof {
        reveal_strlit("app");
        reveal_strlit("jsonm_parsed");
        assert("app"@ =~= seq!['a', 'p', 'p']);
        assert("jsonm_parsed"@ =~= namespace_label());
    }
    MeteorToken { context, namespace, key, value, position }
}

impl JsonmProcessor {
    /// A value completed inside an object.
    fn process_key_value_pair(&mut self, value: String, ty: InferredType)
        requires
            room(old(self).model()),
            old(self).labels_ok(),
        ensures
            final(self).model() == key_value(old(self).model(), value@, ty),
            final(self).labels_ok(),
    {
        let ghost m = self.model();
        if self.current_key.is_some() {
            let key = self.current_key.take().unwrap();
            let full_path = self.build_current_path(&key);
            proof {
                assert(self.model().frames == m.frames);
            }
            self.update_key_statistics(&key, &full_path, &value, ty);
            let ghost m1 = self.model();
            let pos = self.current_position;
            let token = make_token(full_path, value, pos);
            self.meteor_tokens.push(token);
            self.forensic_stats.total_values = self.forensic_stats.total_values + 1;
            proof {
                assert(self.model().tokens =~= m1.tokens.push(token.model()));
                assert forall|i: int| 0 <= i < self.meteor_tokens@.len() implies (
                #[trigger] self.meteor_tokens@[i]).well_labelled() by {
                    if i < self.meteor_tokens@.len() - 1 {
                        assert(self.meteor_tokens@[i] == old(self).meteor_tokens@[i]);
                    }
                }
                let mk = JsonmModel { current_key: None, ..m };
                assert(record_key(mk, key@, full_path@, value@, ty) == JsonmModel {
                    current_key: None,
                    ..record_key(m, key@, full_path@, value@, ty)
                });
            }
        }
    }

    /// A value completed inside an array (or at the top level).
    fn process_array_value(&mut self, value: String)
        requires
            room(old(self).model()),
            old(self).labels_ok(),
        ensures
            final(self).model() == array_value(old(self).model(), value@),
            final(self).labels_ok(),
    {
        let ghost m = self.model();
        let n = self.structural_state.context_stack.len();
        if n > 0 {
            match &self.structural_state.context_stack[n - 1] {
                ContextFrame::Array { current_index } => {
                    let idx = *current_index;
                    assert(m.frames[n - 1] matches FrameModel::Array { index } && index == idx);
                    let index_key = index_key_string(idx);
                    let full_path = self.build_current_path(&index_key);
                    let token = make_token(full_path, value, self.current_position);
                    self.meteor_tokens.push(token);
                    self.structural_state.context_stack.set(
                        n - 1,
                        ContextFrame::Array { current_index: idx + 1 },
                    );
                    self.forensic_stats.total_values = self.forensic_stats.total_values + 1;
                    proof {
                        assert(self.model().tokens =~= m.tokens.push(token.model()));
                        assert(self.model().frames =~= m.frames.update(
                            n - 1,
                            FrameModel::Array { index: (idx + 1) as nat },
                        ));
                        assert forall|i: int| 0 <= i < self.meteor_tokens@.len() implies (
                        #[trigger] self.meteor_tokens@[i]).well_labelled() by {
                            if i < self.meteor_tokens@.len() - 1 {
                                assert(self.meteor_tokens@[i] == old(self).meteor_tokens@[i]);
                            }
                        }
                    }
                },
                _ => {},
            }
        }
    }

    /// A scalar value completed: recorded under the pending key or array index.
    fn process_scalar(&mut self, value: String, ty: InferredType)
        requires
            room(old(self).model()),
            old(self).labels_ok(),
        ensures
            final(self).model() == scalar_value(old(self).model(), value@, ty),
            final(self).labels_ok(),
    {
        let n = self.structural_state.context_stack.len();
        let in_object = n > 0 && match &self.structural_state.context_stack[n - 1] {
            ContextFrame::Object { expecting_key, .. } => !*expecting_key,
            _ => false,
        };
        if in_object {
            self.process_key_value_pair(value, ty);
        } else {
            self.process_array_value(value);
        }
    }
}


/// Completing a number keeps the bracket and frame stacks in agreement.
proof fn lemma_complete_number_stacks(m: JsonmModel, c: Seq<char>)
    requires
        stacks_agree(m),
    ensures
        stacks_agree(complete_number(m, c)),
{
    let m1 = complete_number(m, c);
    assert(m1.frames.len() == m.frames.len());
    assert forall|i: int| 0 <= i < m1.frames.len() implies ((m1.brackets[i] == '{') <==> (
    #[trigger] m1.frames[i] is Object)) && (m1.brackets[i] == '{' || m1.brackets[i] == '[') by {
        assert(m1.brackets == m.brackets);
        if in_object_value(m) {
        } else if m.frames.len() > 0 && m.frames.last() is Array {
            if i == m.frames.len() - 1 {
                assert(m.frames[i] is Array);
            } else {
                assert(m1.frames[i] == m.frames[i]);
            }
        }
    }
}

impl JsonmProcessor {
    /// A string completed; `content` holds its quotes.
    fn process_completed_string(&mut self, content: String)
        requires
            room(old(self).model()),
            old(self).labels_ok(),
        ensures
            final(self).model() == complete_string(old(self).model(), content@),
            final(self).labels_ok(),
    {
        let ghost m = self.model();
        let v = strip_quote_runs(&content);
        let n = self.structural_state.context_stack.len();
        let expecting = n > 0 && match &self.structural_state.context_stack[n - 1] {
            ContextFrame::Object { expecting_key, .. } => *expecting_key,
            _ => false,
        };
        if expecting {
            self.current_key = Some(v.clone());
            self.structural_state.current_state = JsonState::ExpectColon;
            self.structural_state.context_stack.set(
                n - 1,
                ContextFrame::Object { current_key: Some(v), expecting_key: false },
            );
            proof {
                assert(self.model().frames =~= m.frames.update(
                    n - 1,
                    FrameModel::Object { key: Some(v@), expecting_key: false },
                ));
            }
        } else {
            self.process_scalar(v, InferredType::String);
            self.structural_state.current_state = JsonState::ExpectCommaOrClose;
        }
        self.forensic_stats.size_estimates.estimated_strings =
        self.forensic_stats.size_estimates.estimated_strings + 1;
    }

    /// A number completed.
    fn process_completed_number(&mut self, content: String)
        requires
            room(old(self).model()),
            old(self).labels_ok(),
        ensures
            final(self).model() == complete_number(old(self).model(), content@),
            final(self).labels_ok(),
    {
        self.process_scalar(content, InferredType::Number);
        self.forensic_stats.size_estimates.estimated_numbers =
        self.forensic_stats.size_estimates.estimated_numbers + 1;
    }

    /// A literal completed.
    fn process_completed_literal(&mut self, content: String) -> (r: Result<(), String>)
        requires
            room(old(self).model()),
            old(self).labels_ok(),
        ensures
            match complete_literal(old(self).model(), content@) {
                Some(m) => r is Ok && final(self).model() == m,
                None => r matches Err(e) && e@ == "Invalid literal: "@ + content@,
            },
            final(self).labels_ok(),
    {
        proof {
            reveal_strlit("true");
            reveal_strlit("false");
            reveal_strlit("null");
            assert("true"@ =~= lit_true());
            assert("false"@ =~= lit_false());
            assert("null"@ =~= lit_null());
        }
        if crate::text::str_eq(content.as_str(), "true") || crate::text::str_eq(
            content.as_str(),
            "false",
        ) {
            self.process_scalar(content, InferredType::Boolean);
            Ok(())
        } else if crate::text::str_eq(content.as_str(), "null") {
            self.process_scalar(content, InferredType::Null);
            Ok(())
        } else {
            let mut msg = String::from_str("Invalid literal: ");
            msg.append(content.as_str());
            Err(msg)
        }
    }

    /// Appends `ch` to the scalar buffer, if there is one.
    fn extend_pattern(&mut self, ch: char)
        ensures
            final(self).model() == extend_buffer(old(self).model(), ch),
            final(self).meteor_tokens == old(self).meteor_tokens,
    {
        if self.pattern_buffer.is_some() {
            let mut b = self.pattern_buffer.take().unwrap();
            push_char(&mut b.content, ch);
            b.end_position = self.current_position;
            self.pattern_buffer = Some(b);
        }
    }

    /// A value may start here.
    fn handle_expect_value(&mut self, ch: char, ct: CharType) -> (r: Result<(), String>)
        requires
            room(old(self).model()),
            stacks_agree(old(self).model()),
            ct == classify(ch),
        ensures
            match expect_value(old(self).model(), ch, ct) {
                Some(m) => r is Ok && final(self).model() == m,
                None => r matches Err(e) && e@ == expect_value_error(ch, ct),
            },
            final(self).meteor_tokens == old(self).meteor_tokens,
    {
        match ct {
            CharType::StringDelim => {
                self.start_pattern(ch, CharType::StringDelim, JsonState::InString);
                Ok(())
            },
            CharType::Digit | CharType::Sign => {
                self.start_pattern(ch, CharType::Digit, JsonState::InNumber);
                Ok(())
            },
            CharType::Structure => {
                if ch == '{' {
                    self.handle_container_start('{');
                    self.structural_state.current_state = JsonState::ExpectKey;
                    Ok(())
                } else if ch == '[' {
                    self.handle_container_start('[');
                    self.structural_state.current_state = JsonState::ExpectValue;
                    Ok(())
                } else {
                    Err(
                        message_with_char(
                            "Unexpected structural character '",
                            ch,
                            "' when expecting value",
                        ),
                    )
                }
            },
            CharType::Letter => {
                if ch == 't' {
                    self.start_pattern(ch, CharType::Letter, JsonState::InTrue);
                    Ok(())
                } else if ch == 'f' {
                    self.start_pattern(ch, CharType::Letter, JsonState::InFalse);
                    Ok(())
                } else if ch == 'n' {
                    self.start_pattern(ch, CharType::Letter, JsonState::InNull);
                    Ok(())
                } else {
                    Err(message_with_char("Unexpected character '", ch, "' when expecting value"))
                }
            },
            _ => Err(message_with_char("Unexpected character '", ch, "' when expecting value")),
        }
    }

    /// An object key or the end of an empty object may come here.
    fn handle_expect_key(&mut self, ch: char, ct: CharType) -> (r: Result<(), String>)
        requires
            stacks_agree(old(self).model()),
        ensures
            match expect_key(old(self).model(), ch, ct) {
                Some(m) => r is Ok && final(self).model() == m,
                None => r matches Err(e) && e@ == expect_key_error(old(self).model(), ch, ct),
            },
            final(self).meteor_tokens == old(self).meteor_tokens,
    {
        if ct == CharType::StringDelim {
            self.start_pattern(ch, CharType::StringDelim, JsonState::InString);
            Ok(())
        } else if ct == CharType::Structure && ch == '}' {
            match self.handle_container_end('{') {
                Ok(()) => {
                    self.structural_state.current_state = JsonState::ExpectCommaOrClose;
                    Ok(())
                },
                Err(e) => Err(e),
            }
        } else {
            Err(message_with_char("Expected string key or '}', found '", ch, "'"))
        }
    }

    /// A colon must come here.
    fn handle_expect_colon(&mut self, ch: char, ct: CharType) -> (r: Result<(), String>)
        ensures
            ct == CharType::Structure && ch == ':' ==> r is Ok && final(self).model() == (
            JsonmModel { state: JsonState::ExpectValueAfterColon, ..old(self).model() }),
            !(ct == CharType::Structure && ch == ':') ==> (r matches Err(e) && e@ == with_char(
                "Expected ':', found '"@,
                ch,
                "'"@,
            )),
            final(self).meteor_tokens == old(self).meteor_tokens,
    {
        if ct == CharType::Structure && ch == ':' {
            self.structural_state.current_state = JsonState::ExpectValueAfterColon;
            Ok(())
        } else {
            Err(message_with_char("Expected ':', found '", ch, "'"))
        }
    }

    /// A value may start here, after a colon.
    fn handle_expect_value_after_colon(&mut self, ch: char, ct: CharType) -> (r: Result<
        (),
        String,
    >)
        requires
            room(old(self).model()),
            stacks_agree(old(self).model()),
            ct == classify(ch),
        ensures
            match expect_value(old(self).model(), ch, ct) {
                Some(m) => r is Ok && final(self).model() == m,
                None => r matches Err(e) && e@ == expect_value_error(ch, ct),
            },
            final(self).meteor_tokens == old(self).meteor_tokens,
    {
        self.handle_expect_value(ch, ct)
    }

    /// A separator or a closing bracket may come here.
    fn handle_expect_comma_or_close(&mut self, ch: char, ct: CharType) -> (r: Result<(), String>)
        requires
            stacks_agree(old(self).model()),
        ensures
            match comma_or_close(old(self).model(), ch, ct) {
                Some(m) => r is Ok && final(self).model() == m,
                None => r matches Err(e) && e@ == comma_or_close_error(old(self).model(), ch, ct),
            },
            final(self).meteor_tokens == old(self).meteor_tokens,
    {
        let ghost m = self.model();
        if ct == CharType::Structure {
            if ch == ',' {
                let n = self.structural_state.context_stack.len();
                if n > 0 {
                    let is_object = match &self.structural_state.context_stack[n - 1] {
                        ContextFrame::Object { .. } => true,
                        ContextFrame::Array { .. } => false,
                    };
                    if is_object {
                        let frame = self.structural_state.context_stack.remove(n - 1);
                        let key = match frame {
                            ContextFrame::Object { current_key, .. } => current_key,
                            ContextFrame::Array { .. } => None,
                        };
                        self.structural_state.context_stack.push(
                            ContextFrame::Object { current_key: key, expecting_key: true },
                        );
                        self.structural_state.current_state = JsonState::ExpectKey;
                        proof {
                            let k = m.frames.last()->Object_key;
                            assert(self.model().frames =~= m.frames.update(
                                n - 1,
                                FrameModel::Object { key: k, expecting_key: true },
                            ));
                        }
                    } else {
                        self.structural_state.current_state = JsonState::ExpectValue;
                    }
                }
                Ok(())
            } else if ch == '}' {
                match self.handle_container_end('{') {
                    Ok(()) => {
                        self.structural_state.current_state = JsonState::ExpectCommaOrClose;
                        Ok(())
                    },
                    Err(e) => Err(e),
                }
            } else if ch == ']' {
                match self.handle_container_end('[') {
                    Ok(()) => {
                        self.structural_state.current_state = JsonState::ExpectCommaOrClose;
                        Ok(())
                    },
                    Err(e) => Err(e),
                }
            } else {
                Err(message_with_char("Expected ',', '}', or ']', found '", ch, "'"))
            }
        } else {
            Err(message_with_char("Expected ',', '}', or ']', found '", ch, "'"))
        }
    }
}


impl JsonmProcessor {
    /// Inside a number.
    fn handle_in_number(&mut self, ch: char, ct: CharType) -> (r: Result<(), String>)
        requires
            room(old(self).model()),
            stacks_agree(old(self).model()),
            old(self).labels_ok(),
        ensures
            match in_number(old(self).model(), ch, ct) {
                Some(m) => r is Ok && final(self).model() == m,
                None => r matches Err(e) && e@ == in_number_error(old(self).model(), ch, ct),
            },
            final(self).labels_ok(),
    {
        let ghost m = self.model();
        match ct {
            CharType::Digit | CharType::Decimal | CharType::Exponent | CharType::Sign => {
                self.extend_pattern(ch);
                Ok(())
            },
            CharType::Structure => {
                if self.pattern_buffer.is_some() {
                    let b = self.pattern_buffer.take().unwrap();
                    proof {
                        lemma_complete_number_stacks(JsonmModel { buffer: None, ..m }, b.content@);
                    }
                    self.process_completed_number(b.content);
                }
                self.handle_expect_comma_or_close(ch, ct)
            },
            _ => Err(message_with_char("Invalid character '", ch, "' in number")),
        }
    }

    /// Inside `true`, `false` or `null`.
    fn handle_literal_continuation(&mut self, ch: char) -> (r: Result<(), String>)
        requires
            room(old(self).model()),
            old(self).labels_ok(),
        ensures
            match literal(old(self).model(), ch) {
                Some(m) => r is Ok && final(self).model() == m,
                None => r matches Err(e) && e@ == literal_error(old(self).model(), ch),
            },
            final(self).labels_ok(),
    {
        let ghost m = self.model();
        if self.pattern_buffer.is_none() {
            return Ok(());
        }
        let mut b = self.pattern_buffer.take().unwrap();
        let ghost b0 = b.model();
        push_char(&mut b.content, ch);
        b.end_position = self.current_position;
        let expected: &str = match b.json_state {
            JsonState::InTrue => "true",
            JsonState::InFalse => "false",
            JsonState::InNull => "null",
            _ => {
                self.pattern_buffer = Some(b);
                return Err(String::from_str("Invalid literal state"));
            },
        };
        proof {
            reveal_strlit("true");
            reveal_strlit("false");
            reveal_strlit("null");
            assert("true"@ =~= lit_true());
            assert("false"@ =~= lit_false());
            assert("null"@ =~= lit_null());
            assert(literal_of(b0.state) == Some(expected@));
        }
        if crate::text::str_eq(b.content.as_str(), expected) {
            let r = self.process_completed_literal(b.content);
            match r {
                Ok(()) => {
                    self.structural_state.current_state = JsonState::ExpectCommaOrClose;
                    Ok(())
                },
                Err(e) => Err(e),
            }
        } else if !crate::text::starts_with(expected, b.content.as_str()) {
            let mut msg = String::from_str("Invalid literal: ");
            msg.append(b.content.as_str());
            self.pattern_buffer = Some(b);
            Err(msg)
        } else {
            self.pattern_buffer = Some(b);
            Ok(())
        }
    }

    /// Reads one character at the current position (without moving past it).
    fn process_character(&mut self, ch: char) -> (r: Result<(), String>)
        requires
            wf_model(old(self).model()),
            old(self).labels_ok(),
            old(self).model().position < POSITION_LIMIT,
        ensures
            match step(old(self).model(), ch) {
                Some(m) => r is Ok && final(self).model() == m,
                None => r matches Err(e) && e@ == step_error(old(self).model(), ch),
            },
            final(self).labels_ok(),
    {
        reveal(step);
        let ghost m = self.model();
        let ct = classify_char(ch);
        let in_string = match &self.pattern_buffer {
            Some(b) => b.json_state == JsonState::InString,
            None => false,
        };
        if in_string {
            let mut b = self.pattern_buffer.take().unwrap();
            if b.escaped {
                push_char(&mut b.content, ch);
                b.escaped = false;
                b.end_position = self.current_position;
                self.pattern_buffer = Some(b);
                return Ok(());
            } else if ch == '\\' {
                b.escaped = true;
                push_char(&mut b.content, ch);
                b.end_position = self.current_position;
                self.pattern_buffer = Some(b);
                return Ok(());
            } else if ch == '"' {
                push_char(&mut b.content, ch);
                self.process_completed_string(b.content);
                return Ok(());
            } else {
                self.pattern_buffer = Some(b);
            }
        }
        if ct == CharType::Whitespace {
            return Ok(());
        }
        match self.structural_state.current_state {
            JsonState::ExpectValue => self.handle_expect_value(ch, ct),
            JsonState::ExpectKey => self.handle_expect_key(ch, ct),
            JsonState::ExpectColon => self.handle_expect_colon(ch, ct),
            JsonState::ExpectValueAfterColon => self.handle_expect_value_after_colon(ch, ct),
            JsonState::ExpectCommaOrClose => self.handle_expect_comma_or_close(ch, ct),
            JsonState::InString => {
                self.extend_pattern(ch);
                Ok(())
            },
            JsonState::InNumber => self.handle_in_number(ch, ct),
            JsonState::InTrue | JsonState::InFalse | JsonState::InNull => {
                self.handle_literal_continuation(ch)
            },
        }
    }
}


// ---------------------------------------------------------------------------
// Laws of the transition function
// ---------------------------------------------------------------------------

/// `key_index` finds the entry of `k`, or reports that none exists.
pub proof fn lemma_key_index(keys: Seq<KeyModel>, k: Seq<char>)
    ensures
        -1 <= key_index(keys, k) < keys.len(),
        key_index(keys, k) >= 0 ==> keys[key_index(keys, k)].key == k,
        key_index(keys, k) == -1 ==> forall|i: int| 0 <= i < keys.len() ==> keys[i].key != k,
    decreases keys.len(),
{
    if keys.len() > 0 {
        lemma_key_index(keys.drop_last(), k);
        if keys.last().key != k {
            assert forall|i: int| 0 <= i < keys.len() - 1 implies keys[i] == keys.drop_last()[i] by {}
        }
    }
}

/// The statistics stay consistent when a key receives a value.
proof fn lemma_record_key(m: JsonmModel, k: Seq<char>, path: Seq<char>, v: Seq<char>, ty: InferredType)
    requires
        keys_distinct(m.keys),
        m.total_keys == m.keys.len(),
        m.next_key_id == m.total_keys + 1,
        forall|i: int| 0 <= i < m.keys.len() ==> (#[trigger] m.keys[i]).frequency <= m.total_values,
        m.total_keys <= m.total_values,
        m.total_values < POSITION_LIMIT,
    ensures
        ({
            let m1 = record_key(m, k, path, v, ty);
            &&& keys_distinct(m1.keys)
            &&& m1.total_keys == m1.keys.len()
            &&& m1.next_key_id == m1.total_keys + 1
            &&& m1.total_keys <= m.total_keys + 1
            &&& forall|i: int|
                0 <= i < m1.keys.len() ==> (#[trigger] m1.keys[i]).frequency <= m.total_values + 1
            &&& m1.frames == m.frames && m1.brackets == m.brackets && m1.depth == m.depth
            &&& m1.balance == m.balance && m1.max_depth == m.max_depth && m1.sizes == m.sizes
            &&& m1.position == m.position && m1.tokens == m.tokens && m1.total_values
                == m.total_values
        }),
{
    lemma_key_index(m.keys, k);
    let m1 = record_key(m, k, path, v, ty);
    let i = key_index(m.keys, k);
    if i < 0 {
        assert forall|a: int, b: int| 0 <= a < b < m1.keys.len() implies m1.keys[a].key
            != m1.keys[b].key by {
            if b == m.keys.len() {
                assert(m1.keys[a] == m.keys[a]);
            } else {
                assert(m1.keys[a] == m.keys[a]);
                assert(m1.keys[b] == m.keys[b]);
            }
        }
        assert forall|j: int| 0 <= j < m1.keys.len() implies (#[trigger] m1.keys[j]).frequency
            <= m.total_values + 1 by {
            if j < m.keys.len() {
                assert(m1.keys[j] == m.keys[j]);
            }
        }
    } else {
        assert forall|a: int, b: int| 0 <= a < b < m1.keys.len() implies m1.keys[a].key
            != m1.keys[b].key by {
            assert(m1.keys[a].key == m.keys[a].key);
            assert(m1.keys[b].key == m.keys[b].key);
        }
        assert forall|j: int| 0 <= j < m1.keys.len() implies (#[trigger] m1.keys[j]).frequency
            <= m.total_values + 1 by {
            if j != i {
                assert(m1.keys[j] == m.keys[j]);
            } else {
                assert(m.keys[j].frequency <= m.total_values);
            }
        }
    }
}

/// What recording a scalar value changes: one more token at most, the
/// statistics, and the index of the innermost array.
pub open spec fn value_recorded(m: JsonmModel, m1: JsonmModel) -> bool {
    &&& m1.brackets == m.brackets && m1.depth == m.depth && m1.balance == m.balance
    &&& m1.max_depth == m.max_depth && m1.sizes == m.sizes && m1.position == m.position
    &&& m1.state == m.state && m1.buffer == m.buffer
    &&& m1.frames.len() == m.frames.len()
    &&& forall|i: int| 0 <= i < m.frames.len() ==> (#[trigger] m1.frames[i] is Object) == (
    m.frames[i] is Object)
    &&& keys_distinct(m1.keys)
    &&& m1.total_values == m1.tokens.len()
    &&& m1.total_values <= m.total_values + 1
    &&& m1.total_keys == m1.keys.len()
    &&& m1.next_key_id == m1.total_keys + 1
    &&& m1.total_keys <= m1.total_values
    &&& forall|i: int| 0 <= i < m1.keys.len() ==> (#[trigger] m1.keys[i]).frequency <= m1.total_values
    &&& forall|i: int|
        0 <= i < m1.frames.len() ==> (#[trigger] m1.frames[i] matches FrameModel::Array { index }
            ==> index <= m1.total_values)
    &&& m.tokens.is_prefix_of(m1.tokens)
}

/// Recording a scalar value keeps the statistics and stacks consistent.
pub proof fn lemma_scalar_value(m: JsonmModel, v: Seq<char>, ty: InferredType)
    requires
        wf_model(m),
        m.position < POSITION_LIMIT,
    ensures
        value_recorded(m, scalar_value(m, v, ty)),
{
    let m1 = scalar_value(m, v, ty);
    if in_object_value(m) {
        match m.current_key {
            Some(k) => {
                let path = value_path(m.frames, k);
                lemma_record_key(m, k, path, v, ty);
                let r = record_key(m, k, path, v, ty);
                assert(m1.tokens == r.tokens.push(
                    TokenModel { key: path, value: v, position: m.position },
                ));
                assert forall|i: int| 0 <= i < m1.frames.len() implies (
                #[trigger] m1.frames[i] matches FrameModel::Array { index }
                    ==> index <= m1.total_values) by {
                    assert(m1.frames[i] == m.frames[i]);
                }
            },
            None => {},
        }
    } else if m.frames.len() > 0 && m.frames.last() is Array {
        let i0 = m.frames.last()->index;
        assert(m.frames[m.frames.len() - 1] matches FrameModel::Array { index } && index
            <= m.total_values);
        assert forall|i: int| 0 <= i < m.frames.len() implies (#[trigger] m1.frames[i] is Object)
            == (m.frames[i] is Object) by {
            if i != m.frames.len() - 1 {
                assert(m1.frames[i] == m.frames[i]);
            }
        }
        assert forall|i: int| 0 <= i < m1.frames.len() implies (
        #[trigger] m1.frames[i] matches FrameModel::Array { index }
            ==> index <= m1.total_values) by {
            if i != m.frames.len() - 1 {
                assert(m1.frames[i] == m.frames[i]);
            }
        }
        assert forall|i: int| 0 <= i < m1.keys.len() implies (#[trigger] m1.keys[i]).frequency
            <= m1.total_values by {
            assert(m1.keys[i] == m.keys[i]);
        }
    }
}


/// `m1` is within one character of `m`: the stacks agree, the statistics are
/// consistent, and every counter is at most the position after the character.
pub open spec fn within_one(m: JsonmModel, m1: JsonmModel) -> bool {
    &&& m.tokens.is_prefix_of(m1.tokens)
    &&& stacks_agree(m1)
    &&& keys_distinct(m1.keys)
    &&& m1.position == m.position
    &&& m1.sizes.total_bytes == m.sizes.total_bytes
    &&& m1.depth <= m1.max_depth <= m.position + 1
    &&& m1.sizes.estimated_objects <= m.position + 1
    &&& m1.sizes.estimated_arrays <= m.position + 1
    &&& m1.sizes.estimated_strings <= m.position + 1
    &&& m1.sizes.estimated_numbers <= m.position + 1
    &&& m1.total_values == m1.tokens.len()
    &&& m1.total_values <= m.position + 1
    &&& m1.total_keys == m1.keys.len()
    &&& m1.next_key_id == m1.total_keys + 1
    &&& m1.total_keys <= m1.total_values
    &&& forall|i: int| 0 <= i < m1.keys.len() ==> (#[trigger] m1.keys[i]).frequency <= m1.total_values
    &&& forall|i: int|
        0 <= i < m1.frames.len() ==> (#[trigger] m1.frames[i] matches FrameModel::Array { index }
            ==> index <= m1.total_values)
}

proof fn lemma_within_one_refl(m: JsonmModel)
    requires
        wf_model(m),
    ensures
        within_one(m, m),
{
    assert(m.tokens.subrange(0, m.tokens.len() as int) =~= m.tokens);
}

proof fn lemma_within_one_advance(m: JsonmModel, m1: JsonmModel)
    requires
        within_one(m, m1),
        m.sizes.total_bytes == m.position,
        m.position < POSITION_LIMIT,
    ensures
        wf_model(advance(m1)),
{
    let a = advance(m1);
    assert forall|i: int| 0 <= i < a.frames.len() implies ((a.brackets[i] == '{') <==> (
    #[trigger] a.frames[i] is Object)) && (a.brackets[i] == '{' || a.brackets[i] == '[') by {
        assert(a.frames[i] == m1.frames[i]);
    }
    assert forall|i: int| 0 <= i < a.keys.len() implies (#[trigger] a.keys[i]).frequency
        <= a.total_values by {
        assert(a.keys[i] == m1.keys[i]);
    }
    assert forall|i: int| 0 <= i < a.frames.len() implies (
    #[trigger] a.frames[i] matches FrameModel::Array { index }
        ==> index <= a.total_values) by {
        assert(a.frames[i] == m1.frames[i]);
    }
}

/// Changing only the state or the buffer keeps a state within one character.
proof fn lemma_within_one_state(m: JsonmModel, m1: JsonmModel, m2: JsonmModel)
    requires
        within_one(m, m1),
        m2 == (JsonmModel { state: m2.state, buffer: m2.buffer, current_key: m2.current_key, ..m1 }),
    ensures
        within_one(m, m2),
{
}

/// Closing a container keeps a state within one character.
proof fn lemma_close_within_one(m: JsonmModel, m1: JsonmModel, bracket: char)
    requires
        within_one(m, m1),
        close(m1, bracket) is Some,
    ensures
        within_one(m, close(m1, bracket).unwrap()),
{
    let m2 = close(m1, bracket).unwrap();
    assert forall|i: int| 0 <= i < m2.frames.len() implies ((m2.brackets[i] == '{') <==> (
    #[trigger] m2.frames[i] is Object)) && (m2.brackets[i] == '{' || m2.brackets[i] == '[') by {
        assert(m2.frames[i] == m1.frames[i]);
        assert(m2.brackets[i] == m1.brackets[i]);
    }
    assert forall|i: int| 0 <= i < m2.frames.len() implies (
    #[trigger] m2.frames[i] matches FrameModel::Array { index }
        ==> index <= m2.total_values) by {
        assert(m2.frames[i] == m1.frames[i]);
    }
}

/// A separator or closing bracket keeps a state within one character.
proof fn lemma_comma_within_one(m: JsonmModel, m1: JsonmModel, ch: char, ct: CharType)
    requires
        within_one(m, m1),
        comma_or_close(m1, ch, ct) is Some,
    ensures
        within_one(m, comma_or_close(m1, ch, ct).unwrap()),
{
    let m2 = comma_or_close(m1, ch, ct).unwrap();
    if ch == ',' {
        if m1.frames.len() > 0 && m1.frames.last() is Object {
            let n = m1.frames.len() - 1;
            assert forall|i: int| 0 <= i < m2.frames.len() implies ((m2.brackets[i] == '{') <==> (
            #[trigger] m2.frames[i] is Object)) && (m2.brackets[i] == '{' || m2.brackets[i]
                == '[') by {
                if i != n {
                    assert(m2.frames[i] == m1.frames[i]);
                } else {
                    assert(m1.frames[i] is Object);
                }
            }
            assert forall|i: int| 0 <= i < m2.frames.len() implies (
            #[trigger] m2.frames[i] matches FrameModel::Array { index }
                ==> index <= m2.total_values) by {
                if i != n {
                    assert(m2.frames[i] == m1.frames[i]);
                }
            }
        }
    } else if ch == '}' {
        lemma_close_within_one(m, m1, '{');
    } else if ch == ']' {
        lemma_close_within_one(m, m1, '[');
    }
}

/// Recording a scalar (and bumping one size estimate) keeps a state within one
/// character.
proof fn lemma_value_within_one(m: JsonmModel, m1: JsonmModel)
    requires
        wf_model(m),
        value_recorded(m, m1),
    ensures
        within_one(m, m1),
{
    assert forall|i: int| 0 <= i < m1.frames.len() implies ((m1.brackets[i] == '{') <==> (
    #[trigger] m1.frames[i] is Object)) && (m1.brackets[i] == '{' || m1.brackets[i] == '[') by {
        assert(m.frames[i] is Object == m1.frames[i] is Object);
    }
}

/// Completing a string keeps a state within one character.
proof fn lemma_complete_string_within_one(m: JsonmModel, content: Seq<char>)
    requires
        wf_model(m),
        m.position < POSITION_LIMIT,
    ensures
        within_one(m, complete_string(JsonmModel { buffer: None, ..m }, content)),
{
    let mb = JsonmModel { buffer: None, ..m };
    let v = strip_quotes(content);
    let r = complete_string(mb, content);
    if mb.frames.len() > 0 && (mb.frames.last() matches FrameModel::Object { expecting_key, .. }
        && expecting_key) {
        let n = m.frames.len() - 1;
        assert forall|i: int| 0 <= i < r.frames.len() implies ((r.brackets[i] == '{') <==> (
        #[trigger] r.frames[i] is Object)) && (r.brackets[i] == '{' || r.brackets[i] == '[') by {
            if i != n {
                assert(r.frames[i] == m.frames[i]);
            }
        }
        assert forall|i: int| 0 <= i < r.frames.len() implies (
        #[trigger] r.frames[i] matches FrameModel::Array { index }
            ==> index <= r.total_values) by {
            if i != n {
                assert(r.frames[i] == m.frames[i]);
            }
        }
    } else {
        lemma_scalar_value(mb, v, InferredType::String);
        let s = scalar_value(mb, v, InferredType::String);
        lemma_value_within_one(mb, s);
        assert forall|i: int| 0 <= i < r.frames.len() implies ((r.brackets[i] == '{') <==> (
        #[trigger] r.frames[i] is Object)) && (r.brackets[i] == '{' || r.brackets[i] == '[') by {
            assert(r.frames[i] == s.frames[i]);
        }
        assert forall|i: int| 0 <= i < r.frames.len() implies (
        #[trigger] r.frames[i] matches FrameModel::Array { index }
            ==> index <= r.total_values) by {
            assert(r.frames[i] == s.frames[i]);
        }
        assert forall|i: int| 0 <= i < r.keys.len() implies (#[trigger] r.keys[i]).frequency
            <= r.total_values by {
            assert(r.keys[i] == s.keys[i]);
        }
    }
}

/// Completing a number keeps a state within one character.
proof fn lemma_complete_number_within_one(m: JsonmModel, content: Seq<char>)
    requires
        wf_model(m),
        m.position < POSITION_LIMIT,
    ensures
        within_one(m, complete_number(JsonmModel { buffer: None, ..m }, content)),
{
    let mb = JsonmModel { buffer: None, ..m };
    lemma_scalar_value(mb, content, InferredType::Number);
    let s = scalar_value(mb, content, InferredType::Number);
    lemma_value_within_one(mb, s);
    let r = complete_number(mb, content);
    assert forall|i: int| 0 <= i < r.frames.len() implies ((r.brackets[i] == '{') <==> (
    #[trigger] r.frames[i] is Object)) && (r.brackets[i] == '{' || r.brackets[i] == '[') by {
        assert(r.frames[i] == s.frames[i]);
    }
    assert forall|i: int| 0 <= i < r.frames.len() implies (
    #[trigger] r.frames[i] matches FrameModel::Array { index }
        ==> index <= r.total_values) by {
        assert(r.frames[i] == s.frames[i]);
    }
    assert forall|i: int| 0 <= i < r.keys.len() implies (#[trigger] r.keys[i]).frequency
        <= r.total_values by {
        assert(r.keys[i] == s.keys[i]);
    }
}

/// Opening a container keeps a state within one character.
proof fn lemma_open_within_one(m: JsonmModel, bracket: char)
    requires
        wf_model(m),
        m.position < POSITION_LIMIT,
        bracket == '{' || bracket == '[',
    ensures
        within_one(m, open(m, bracket)),
{
    let r = open(m, bracket);
    assert forall|i: int| 0 <= i < r.frames.len() implies ((r.brackets[i] == '{') <==> (
    #[trigger] r.frames[i] is Object)) && (r.brackets[i] == '{' || r.brackets[i] == '[') by {
        if i < m.frames.len() {
            assert(r.frames[i] == m.frames[i]);
            assert(r.brackets[i] == m.brackets[i]);
        }
    }
    assert forall|i: int| 0 <= i < r.frames.len() implies (
    #[trigger] r.frames[i] matches FrameModel::Array { index }
        ==> index <= r.total_values) by {
        if i < m.frames.len() {
            assert(r.frames[i] == m.frames[i]);
        }
    }
}

/// Law: every character that the processor accepts leads from a well-formed
/// state to a well-formed state.  In particular the bracket stack and the
/// frame stack always describe the same open containers, the depth is their
/// number, no key has two statistics entries, and there is one token per
/// recorded value.
pub proof fn lemma_step_keeps_wf(m: JsonmModel, ch: char)
    requires
        wf_model(m),
        m.position < POSITION_LIMIT,
        step(m, ch) is Some,
    ensures
        wf_model(advance(step(m, ch).unwrap())),
        m.tokens.is_prefix_of(step(m, ch).unwrap().tokens),
        step(m, ch).unwrap().position == m.position,
        step(m, ch).unwrap().sizes.total_bytes == m.sizes.total_bytes,
{
    reveal(step);
    let ct = classify(ch);
    let r = step(m, ch).unwrap();
    lemma_within_one_refl(m);
    let in_str = m.buffer is Some && m.buffer->0.state == JsonState::InString;
    if in_str && (m.buffer->0.escaped || ch == '\\') {
        lemma_within_one_state(m, m, r);
    } else if in_str && ch == '"' {
        lemma_complete_string_within_one(m, m.buffer->0.content.push(ch));
    } else if ct == CharType::Whitespace {
    } else {
        match m.state {
            JsonState::ExpectValue | JsonState::ExpectValueAfterColon => {
                if ct == CharType::Structure {
                    lemma_open_within_one(m, ch);
                    lemma_within_one_state(m, open(m, ch), r);
                } else {
                    lemma_within_one_state(m, m, r);
                }
            },
            JsonState::ExpectKey => {
                if ct == CharType::Structure {
                    lemma_close_within_one(m, m, '{');
                    lemma_within_one_state(m, close(m, '{').unwrap(), r);
                } else {
                    lemma_within_one_state(m, m, r);
                }
            },
            JsonState::ExpectColon => {
                lemma_within_one_state(m, m, r);
            },
            JsonState::ExpectCommaOrClose => {
                lemma_comma_within_one(m, m, ch, ct);
            },
            JsonState::InString => {
                lemma_within_one_state(m, m, r);
            },
            JsonState::InNumber => {
                if ct == CharType::Structure {
                    let m1 = match m.buffer {
                        Some(b) => complete_number(JsonmModel { buffer: None, ..m }, b.content),
                        None => m,
                    };
                    if m.buffer is Some {
                        lemma_complete_number_within_one(m, m.buffer->0.content);
                    }
                    lemma_comma_within_one(m, m1, ch, ct);
                } else {
                    lemma_within_one_state(m, m, r);
                }
            },
            JsonState::InTrue | JsonState::InFalse | JsonState::InNull => {
                match m.buffer {
                    Some(b) => {
                        let c = b.content.push(ch);
                        if literal_of(b.state) == Some(c) {
                            let mb = JsonmModel { buffer: None, ..m };
                            lemma_scalar_value(mb, c, InferredType::Boolean);
                            lemma_scalar_value(mb, c, InferredType::Null);
                            let ty = if c == lit_null() {
                                InferredType::Null
                            } else {
                                InferredType::Boolean
                            };
                            let s = scalar_value(mb, c, ty);
                            lemma_value_within_one(mb, s);
                            lemma_within_one_state(m, s, r);
                        } else {
                            lemma_within_one_state(m, m, r);
                        }
                    },
                    None => {},
                }
            },
        }
    }
    lemma_within_one_advance(m, r);
}


/// The characters of a byte sequence, one per byte.
pub open spec fn bytes_as_chars(s: Seq<u8>) -> Seq<char> {
    s.map_values(|b: u8| b as char)
}

/// Once a prefix of the input is rejected, the whole input is.
pub proof fn lemma_run_rejects_extension(m: JsonmModel, s: Seq<char>, k: int)
    requires
        0 <= k <= s.len(),
        run(m, s.take(k)) is None,
    ensures
        run(m, s) is None,
    decreases s.len() - k,
{
    if k == s.len() {
        assert(s.take(k) =~= s);
    } else {
        assert(s.take(k + 1).drop_last() =~= s.take(k));
        lemma_run_rejects_extension(m, s, k + 1);
    }
}

/// Once a prefix of the input is rejected, the whole input is rejected with
/// the prefix's message.
pub proof fn lemma_run_error_extension(m: JsonmModel, s: Seq<char>, k: int)
    requires
        0 <= k <= s.len(),
        run(m, s.take(k)) is None,
    ensures
        run_error(m, s) == run_error(m, s.take(k)),
    decreases s.len() - k,
{
    if k == s.len() {
        assert(s.take(k) =~= s);
    } else {
        assert(s.take(k + 1).drop_last() =~= s.take(k));
        lemma_run_error_extension(m, s, k + 1);
    }
}

impl JsonmProcessor {
    /// Re-evaluates how collected data should be held, from the number of
    /// keys, tokens and anomalies.
    fn check_memory_pressure(&mut self)
        ensures
            final(self).model() == (JsonmModel {
                mode: pressure_mode(old(self).model()),
                ..old(self).model()
            }),
            final(self).meteor_tokens == old(self).meteor_tokens,
    {
        let size: u128 = (self.key_dictionary.len() as u128) * 200 + (
        self.meteor_tokens.len() as u128) * 150 + (self.forensic_stats.anomalies.len() as u128)
            * 100;
        let threshold: u128 = self.memory_threshold as u128;
        if size > threshold * 10 {
            self.processing_mode = ProcessingMode::Streaming;
        } else if size > threshold {
            self.processing_mode = ProcessingMode::Hybrid;
        }
    }

    /// Reads one character and moves past it.
    fn feed_char(&mut self, ch: char) -> (r: Result<(), String>)
        requires
            old(self).wf(),
            old(self).model().position < POSITION_LIMIT,
        ensures
            match step(old(self).model(), ch) {
                Some(m) => r is Ok && final(self).model() == advance(m) && final(self).wf(),
                None => r matches Err(e) && e@ == step_error(old(self).model(), ch),
            },
            r is Ok ==> final(self).model().position == old(self).model().position + 1,
    {
        let ghost m = self.model();
        match self.process_character(ch) {
            Ok(()) => {},
            Err(e) => {
                return Err(e);
            },
        }
        proof {
            lemma_step_keeps_wf(m, ch);
        }
        self.current_position = self.current_position + 1;
        self.forensic_stats.size_estimates.total_bytes =
        self.forensic_stats.size_estimates.total_bytes + 1;
        Ok(())
    }

    /// Reads `data` (one character per byte), then re-evaluates the memory
    /// mode.  Stops at the first rejected character.
    pub fn feed(&mut self, data: &[u8]) -> (r: Result<(), String>)
        requires
            old(self).wf(),
            old(self).model().position + data@.len() <= POSITION_LIMIT,
        ensures
            match run(old(self).model(), bytes_as_chars(data@)) {
                Some(m) => r is Ok && final(self).model() == (JsonmModel {
                    mode: pressure_mode(m),
                    ..m
                }) && final(self).wf(),
                None => r matches Err(e) && e@ == run_error(old(self).model(), bytes_as_chars(data@)),
            },
            r is Ok ==> final(self).model().position == old(self).model().position + data@.len(),
    {
        let ghost m0 = self.model();
        let ghost chars = bytes_as_chars(data@);
        let mut i: usize = 0;
        assert(chars.take(0) =~= Seq::<char>::empty());
        while i < data.len()
            invariant
                i <= data.len(),
                chars == bytes_as_chars(data@),
                m0 == old(self).model(),
                self.wf(),
                run(m0, chars.take(i as int)) == Some(self.model()),
                self.model().position == m0.position + i,
                m0.position + data@.len() <= POSITION_LIMIT,
            decreases data.len() - i,
        {
            let ch = data[i] as char;
            let ghost m = self.model();
            proof {
                assert(chars.take(i + 1).drop_last() =~= chars.take(i as int));
                assert(chars.take(i + 1).last() == ch);
            }
            match self.feed_char(ch) {
                Ok(()) => {},
                Err(e) => {
                    proof {
                        let s1 = chars.take(i + 1);
                        assert(s1.len() > 0);
                        assert(run(m0, s1.drop_last()) == Some(m));
                        assert(step(m, s1.last()) is None);
                        assert(run(m0, s1) is None);
                        lemma_run_rejects_extension(m0, chars, i + 1);
                        assert(run(m0, chars) is None);
                        assert(run_error(m0, s1) == step_error(m, ch));
                        lemma_run_error_extension(m0, chars, i + 1);
                        assert(chars == bytes_as_chars(data@));
                    }
                    return Err(e);
                },
            }
            i = i + 1;
        }
        assert(chars.take(data.len() as int) =~= chars);
        self.check_memory_pressure();
        Ok(())
    }

    /// The tokens, once the input is complete: rejected while brackets are
    /// still open.
    fn finalize_processing(&self) -> (r: Result<Vec<MeteorToken>, String>)
        requires
            self.labels_ok(),
        ensures
            match finish(self.model()) {
                Some(ts) => r is Ok && tokens_model(r->Ok_0@) == ts && (forall|i: int|
                    0 <= i < r->Ok_0@.len() ==> (#[trigger] r->Ok_0@[i]).well_labelled()),
                None => r matches Err(e) && e@ == finish_error(self.model()),
            },
    {
        if self.structural_state.balance != 0 {
            return Err(String::from_str("Unbalanced JSON structure"));
        }
        if !self.structural_state.bracket_stack.is_empty() {
            return Err(String::from_str("Unclosed brackets in JSON"));
        }
        let mut out: Vec<MeteorToken> = Vec::new();
        let mut i: usize = 0;
        while i < self.meteor_tokens.len()
            invariant
                i <= self.meteor_tokens.len(),
                self.labels_ok(),
                out.len() == i,
                forall|j: int| 0 <= j < i ==> (#[trigger] out@[j]).model() == self.meteor_tokens@[j].model()
                    && out@[j].well_labelled(),
            decreases self.meteor_tokens.len() - i,
        {
            let t = self.meteor_tokens[i].copy();
            assert(self.meteor_tokens@[i as int].well_labelled());
            out.push(t);
            i = i + 1;
        }
        assert(tokens_model(out@) =~= tokens_model(self.meteor_tokens@));
        Ok(out)
    }

    /// Reads a whole document and returns its tokens: rejected when a
    /// character is rejected or when brackets are left open.
    pub fn process_stream(&mut self, data: &[u8]) -> (r: Result<Vec<MeteorToken>, String>)
        requires
            old(self).wf(),
            old(self).model().position + data@.len() <= POSITION_LIMIT,
        ensures
            match run(old(self).model(), bytes_as_chars(data@)) {
                Some(m) => match finish(m) {
                    Some(ts) => r is Ok && tokens_model(r->Ok_0@) == ts,
                    None => r matches Err(e) && e@ == finish_error(m),
                },
                None => r matches Err(e) && e@ == run_error(old(self).model(), bytes_as_chars(data@)),
            },
            r is Ok ==> forall|i: int|
                0 <= i < r->Ok_0@.len() ==> (#[trigger] r->Ok_0@[i]).well_labelled(),
            final(self).wf() || r is Err,
            r is Ok ==> final(self).model().position == old(self).model().position + data@.len(),
    {
        match self.feed(data) {
            Ok(()) => {},
            Err(e) => return Err(e),
        }
        self.finalize_processing()
    }

    /// The counts and anomalies gathered so far.
    pub fn get_forensic_stats(&self) -> (r: &ForensicStats)
        ensures
            r.total_keys == self.model().total_keys,
            r.total_values == self.model().total_values,
            anomalies_model(r.anomalies@) == self.model().anomalies,
            r.size_estimates == self.model().sizes,
    {
        &self.forensic_stats
    }

    /// The statistics entry of `key`, if the key has received a value.
    pub fn key_stats(&self, key: &str) -> (r: Option<&KeyStats>)
        ensures
            match r {
                Some(e) => key_index(self.model().keys, key@) >= 0 && e.model() == self.model().keys[key_index(self.model().keys, key@)],
                None => key_index(self.model().keys, key@) == -1,
            },
    {
        let k = String::from_str(key);
        match self.find_key(&k) {
            Some(i) => Some(&self.key_dictionary[i]),
            None => None,
        }
    }

    /// The current processing mode.
    pub fn processing_mode(&self) -> (r: ProcessingMode)
        ensures
            r == self.model().mode,
    {
        self.processing_mode
    }
}


/// Law: reading any input from a well-formed state that the processor accepts
/// ends in a well-formed state, one character further per character read, and
/// never takes back a token: the tokens before are a prefix of the tokens
/// after.
pub proof fn lemma_run_keeps_wf(m: JsonmModel, s: Seq<char>)
    requires
        wf_model(m),
        m.position + s.len() <= POSITION_LIMIT,
        run(m, s) is Some,
    ensures
        wf_model(run(m, s).unwrap()),
        run(m, s).unwrap().position == m.position + s.len(),
        m.tokens.is_prefix_of(run(m, s).unwrap().tokens),
    decreases s.len(),
{
    if s.len() == 0 {
        assert(m.tokens.subrange(0, m.tokens.len() as int) =~= m.tokens);
    } else {
        lemma_run_keeps_wf(m, s.drop_last());
        let m1 = run(m, s.drop_last()).unwrap();
        lemma_step_keeps_wf(m1, s.last());
        let m2 = step(m1, s.last()).unwrap();
        let m3 = run(m, s).unwrap();
        assert(m3 == advance(m2));
        assert forall|i: int| 0 <= i < m.tokens.len() implies m3.tokens[i] == m.tokens[i] by {
            assert(m.tokens[i] == m1.tokens.subrange(0, m.tokens.len() as int)[i]);
            assert(m1.tokens[i] == m2.tokens.subrange(0, m1.tokens.len() as int)[i]);
        }
        assert(m3.tokens.subrange(0, m.tokens.len() as int) =~= m.tokens);
    }
}

/// Law: the input is accepted at its end exactly when every object and array
/// that was opened has been closed, and then all tokens are handed out.
pub proof fn lemma_finish_iff_closed(m: JsonmModel)
    requires
        wf_model(m),
    ensures
        (finish(m) is Some) <==> m.depth == 0,
        finish(m) is Some ==> finish(m).unwrap() == m.tokens,
{
}

/// Law: outside strings and literals, a closing bracket that does not match
/// the innermost open bracket (or closes nothing) is rejected.
pub proof fn lemma_mismatched_close_rejected(m: JsonmModel, ch: char)
    requires
        wf_model(m),
        ch == '}' || ch == ']',
        m.state != JsonState::InString && m.state != JsonState::InTrue && m.state
            != JsonState::InFalse && m.state != JsonState::InNull,
        m.buffer is None || m.buffer->0.state != JsonState::InString,
        m.brackets.len() == 0 || m.brackets.last() != (if ch == '}' { '{' } else { '[' }),
    ensures
        step(m, ch) is None,
{
    reveal(step);
    if m.state == JsonState::InNumber {
        match m.buffer {
            Some(b) => {
                let m1 = complete_number(JsonmModel { buffer: None, ..m }, b.content);
                assert(m1.brackets == m.brackets);
            },
            None => {},
        }
    }
}

/// Law: a character that opens an object or array where a value may start
/// pushes exactly one level, remembered with its bracket.
pub proof fn lemma_open_pushes(m: JsonmModel, ch: char)
    requires
        wf_model(m),
        m.position < POSITION_LIMIT,
        ch == '{' || ch == '[',
        m.state == JsonState::ExpectValue || m.state == JsonState::ExpectValueAfterColon,
        m.buffer is None || m.buffer->0.state != JsonState::InString,
    ensures
        step(m, ch) is Some,
        step(m, ch).unwrap().depth == m.depth + 1,
        step(m, ch).unwrap().brackets == m.brackets.push(ch),
{
    reveal(step);
}


fn copy_frames(v: &Vec<ContextFrame>) -> (r: Vec<ContextFrame>)
    ensures
        frames_model(r@) == frames_model(v@),
{
    let mut r: Vec<ContextFrame> = Vec::new();
    let mut i: usize = 0;
    while i < v.len()
        invariant
            i <= v.len(),
            r.len() == i,
            forall|j: int| 0 <= j < i ==> (#[trigger] r@[j]).model() == v@[j].model(),
        decreases v.len() - i,
    {
        r.push(v[i].copy());
        i = i + 1;
    }
    assert(frames_model(r@) =~= frames_model(v@));
    r
}

fn copy_keys(v: &Vec<KeyStats>) -> (r: Vec<KeyStats>)
    ensures
        keys_model(r@) == keys_model(v@),
{
    let mut r: Vec<KeyStats> = Vec::new();
    let mut i: usize = 0;
    while i < v.len()
        invariant
            i <= v.len(),
            r.len() == i,
            forall|j: int| 0 <= j < i ==> (#[trigger] r@[j]).model() == v@[j].model(),
        decreases v.len() - i,
    {
        r.push(v[i].copy());
        i = i + 1;
    }
    assert(keys_model(r@) =~= keys_model(v@));
    r
}

fn copy_anomalies(v: &Vec<Anomaly>) -> (r: Vec<Anomaly>)
    ensures
        anomalies_model(r@) == anomalies_model(v@),
{
    let mut r: Vec<Anomaly> = Vec::new();
    let mut i: usize = 0;
    while i < v.len()
        invariant
            i <= v.len(),
            r.len() == i,
            forall|j: int| 0 <= j < i ==> (#[trigger] r@[j]).model() == v@[j].model(),
        decreases v.len() - i,
    {
        r.push(v[i].copy());
        i = i + 1;
    }
    assert(anomalies_model(r@) =~= anomalies_model(v@));
    r
}

fn copy_tokens(v: &Vec<MeteorToken>) -> (r: Vec<MeteorToken>)
    ensures
        tokens_model(r@) == tokens_model(v@),
        r@.len() == v@.len(),
        forall|j: int| 0 <= j < r@.len() ==> (#[trigger] r@[j]).well_labelled() == v@[j].well_labelled(),
{
    let mut r: Vec<MeteorToken> = Vec::new();
    let mut i: usize = 0;
    while i < v.len()
        invariant
            i <= v.len(),
            r.len() == i,
            forall|j: int| 0 <= j < i ==> (#[trigger] r@[j]).model() == v@[j].model(),
            forall|j: int| 0 <= j < i ==> (#[trigger] r@[j]).context@ == v@[j].context@ && r@[j].namespace@
                == v@[j].namespace@,
        decreases v.len() - i,
    {
        r.push(v[i].copy());
        i = i + 1;
    }
    assert(tokens_model(r@) =~= tokens_model(v@));
    r
}

impl JsonmProcessor {
    /// How often each key was seen, key by key in the order first seen.
    pub fn key_frequencies(&self) -> (r: Vec<(String, u64)>)
        ensures
            r.len() == self.model().keys.len(),
            forall|i: int| 0 <= i < r.len() ==> (#[trigger] r@[i]).0@ == self.model().keys[i].key
                && r@[i].1 == self.model().keys[i].frequency,
    {
        let mut r: Vec<(String, u64)> = Vec::new();
        let mut i: usize = 0;
        while i < self.key_dictionary.len()
            invariant
                i <= self.key_dictionary.len(),
                r.len() == i,
                forall|j: int| 0 <= j < i ==> (#[trigger] r@[j]).0@ == self.key_dictionary@[j].key@
                    && r@[j].1 == self.key_dictionary@[j].frequency,
            decreases self.key_dictionary.len() - i,
        {
            let k = &self.key_dictionary[i];
            r.push((k.key.clone(), k.frequency));
            i = i + 1;
        }
        r
    }

    /// A snapshot of everything the processor holds, from which processing
    /// can be resumed.
    pub fn create_checkpoint(&self) -> (c: Checkpoint)
        ensures
            c.byte_position == self.model().position,
            c.structural_state.depth == self.model().depth,
            c.structural_state.balance == self.model().balance,
            c.structural_state.max_depth == self.model().max_depth,
            c.structural_state.current_state == self.model().state,
            frames_model(c.structural_state.context_stack@) == self.model().frames,
            c.structural_state.bracket_stack@ == self.model().brackets,
            buffer_model(c.current_buffer) == self.model().buffer,
            keys_model(c.key_dictionary@) == self.model().keys,
            c.forensic_stats.total_keys == self.model().total_keys,
            c.forensic_stats.total_values == self.model().total_values,
            anomalies_model(c.forensic_stats.anomalies@) == self.model().anomalies,
            c.forensic_stats.size_estimates == self.model().sizes,
            tokens_model(c.partial_tokens@) == self.model().tokens,
            self.wf() ==> forall|i: int|
                0 <= i < c.partial_tokens@.len() ==> (#[trigger] c.partial_tokens@[i]).well_labelled(),
    {
        let buffer = match &self.pattern_buffer {
            Some(b) => Some(b.copy()),
            None => None,
        };
        Checkpoint {
            byte_position: self.current_position,
            structural_state: StructuralState {
                depth: self.structural_state.depth,
                balance: self.structural_state.balance,
                max_depth: self.structural_state.max_depth,
                context_stack: copy_frames(&self.structural_state.context_stack),
                current_state: self.structural_state.current_state,
                bracket_stack: self.structural_state.bracket_stack.clone(),
            },
            current_buffer: buffer,
            key_dictionary: copy_keys(&self.key_dictionary),
            forensic_stats: ForensicStats {
                total_keys: self.forensic_stats.total_keys,
                total_values: self.forensic_stats.total_values,
                anomalies: copy_anomalies(&self.forensic_stats.anomalies),
                size_estimates: self.forensic_stats.size_estimates,
            },
            partial_tokens: copy_tokens(&self.meteor_tokens),
        }
    }
}

} // verus!
