//! Display styles: what kind of indicator a task gets, spinner frames, and
//! the rendering of progress bars; presets for common operations.
use vstd::prelude::*;
use crate::progress::utils::{div_round_half_even, fixed1, format_fixed1, round_half_even};
use crate::text::{dec_digits, join, join_spec, owned, push_char, str_eq, u64_to_string, views};

verus! {

/// The kind of indicator a task is shown with.
#[derive(Clone, Debug)]
pub enum ProgressStyle {
    /// Indeterminate progress.
    Spinner,
    /// A bar towards a known total.
    Bar { total: u64 },
    /// A `current/total` counter.
    Counter { total: u64 },
    /// A percentage.
    Percentage { total: u64 },
    /// Bytes done of a known size.
    Bytes { total_bytes: u64 },
    /// Nothing shown.
    Silent,
    /// A template of the caller's.
    Custom(String),
}

/// The total a style carries, if any.
pub open spec fn style_total(s: ProgressStyle) -> Option<u64> {
    match s {
        ProgressStyle::Bar { total } => Some(total),
        ProgressStyle::Counter { total } => Some(total),
        ProgressStyle::Percentage { total } => Some(total),
        ProgressStyle::Bytes { total_bytes } => Some(total_bytes),
        _ => None,
    }
}

/// The name a style is shown by: `spinner`, `bar(10)`, `custom(fmt)`...
pub open spec fn style_text(s: ProgressStyle) -> Seq<char> {
    match s {
        ProgressStyle::Spinner => "spinner"@,
        ProgressStyle::Bar { total } => "bar("@ + dec_digits(total as nat) + ")"@,
        ProgressStyle::Counter { total } => "counter("@ + dec_digits(total as nat) + ")"@,
        ProgressStyle::Percentage { total } => "percentage("@ + dec_digits(total as nat) + ")"@,
        ProgressStyle::Bytes { total_bytes } => "bytes("@ + dec_digits(total_bytes as nat) + ")"@,
        ProgressStyle::Silent => "silent"@,
        ProgressStyle::Custom(f) => "custom("@ + f@ + ")"@,
    }
}

impl ProgressStyle {
    /// The total of a style that carries one.
    pub fn total(&self) -> (r: Option<u64>)
        ensures
            r == style_total(*self),
    {
        match self {
            ProgressStyle::Bar { total } => Some(*total),
            ProgressStyle::Counter { total } => Some(*total),
            ProgressStyle::Percentage { total } => Some(*total),
            ProgressStyle::Bytes { total_bytes } => Some(*total_bytes),
            _ => None,
        }
    }

    /// Every style but the silent one shows updates.
    pub fn supports_updates(&self) -> (r: bool)
        ensures
            r == !(*self is Silent),
    {
        match self {
            ProgressStyle::Silent => false,
            _ => true,
        }
    }

    /// Bars, counters, percentages and byte counts need a total.
    pub fn needs_total(&self) -> (r: bool)
        ensures
            r == (*self is Bar || *self is Counter || *self is Percentage || *self is Bytes),
    {
        match self {
            ProgressStyle::Bar { .. } => true,
            ProgressStyle::Counter { .. } => true,
            ProgressStyle::Percentage { .. } => true,
            ProgressStyle::Bytes { .. } => true,
            _ => false,
        }
    }

    /// The style's name, as `bar(10)` or `spinner`.
    pub fn text(&self) -> (r: String)
        ensures
            r@ == style_text(*self),
    {
        let mut s = String::new();
        match self {
            ProgressStyle::Spinner => {
                s.append("spinner");
            },
            ProgressStyle::Bar { total } => {
                s.append("bar(");
                s.append(u64_to_string(*total).as_str());
                s.append(")");
            },
            ProgressStyle::Counter { total } => {
                s.append("counter(");
                s.append(u64_to_string(*total).as_str());
                s.append(")");
            },
            ProgressStyle::Percentage { total } => {
                s.append("percentage(");
                s.append(u64_to_string(*total).as_str());
                s.append(")");
            },
            ProgressStyle::Bytes { total_bytes } => {
                s.append("bytes(");
                s.append(u64_to_string(*total_bytes).as_str());
                s.append(")");
            },
            ProgressStyle::Silent => {
                s.append("silent");
            },
            ProgressStyle::Custom(f) => {
                s.append("custom(");
                s.append(f.as_str());
                s.append(")");
            },
        }
        s
    }
}

/// Frames of a spinner and what surrounds it.
#[derive(Clone, Debug)]
pub struct SpinnerStyle {
    pub chars: Vec<char>,
    /// Milliseconds per frame.
    pub speed_ms: u64,
    pub prefix: String,
    pub suffix: String,
}

/// The frames of the dots spinner.
pub open spec fn dots_frames() -> Seq<char> {
    seq!['\u{280b}', '\u{2819}', '\u{2839}', '\u{2838}', '\u{283c}', '\u{2834}', '\u{2826}',
        '\u{2827}', '\u{2807}', '\u{280f}']
}

/// The braille frames of the dots spinner.
fn dots_vec() -> (v: Vec<char>)
    ensures
        v@ == dots_frames(),
{
    let v = vec!['\u{280b}', '\u{2819}', '\u{2839}', '\u{2838}', '\u{283c}', '\u{2834}', '\u{2826}',
        '\u{2827}', '\u{2807}', '\u{280f}'];
    assert(v@ =~= dots_frames());
    v
}

impl SpinnerStyle {
    /// Dots at 80 ms a frame, no prefix or suffix.
    pub fn default() -> (s: Self)
        ensures
            s.chars@ == dots_frames(),
            s.speed_ms == 80,
            s.prefix@ == Seq::<char>::empty(),
            s.suffix@ == Seq::<char>::empty(),
    {
        SpinnerStyle { chars: dots_vec(), speed_ms: 80, prefix: String::new(), suffix: String::new() }
    }

    /// `| / - \` at 100 ms a frame.
    pub fn simple() -> (s: Self)
        ensures
            s.chars@ == seq!['|', '/', '-', '\\'],
            s.speed_ms == 100,
            s.prefix@ == Seq::<char>::empty(),
            s.suffix@ == Seq::<char>::empty(),
    {
        let chars = vec!['|', '/', '-', '\\'];
        assert(chars@ =~= seq!['|', '/', '-', '\\']);
        SpinnerStyle { chars, speed_ms: 100, prefix: String::new(), suffix: String::new() }
    }

    /// Braille dots at 80 ms a frame.
    pub fn dots() -> (s: Self)
        ensures
            s.chars@ == dots_frames(),
            s.speed_ms == 80,
            s.prefix@ == Seq::<char>::empty(),
            s.suffix@ == Seq::<char>::empty(),
    {
        SpinnerStyle { chars: dots_vec(), speed_ms: 80, prefix: String::new(), suffix: String::new() }
    }

    /// Arrows turning at 120 ms a frame.
    pub fn arrow() -> (s: Self)
        ensures
            s.chars@ == seq!['\u{2190}', '\u{2196}', '\u{2191}', '\u{2197}', '\u{2192}', '\u{2198}',
                '\u{2193}', '\u{2199}'],
            s.speed_ms == 120,
            s.prefix@ == Seq::<char>::empty(),
            s.suffix@ == Seq::<char>::empty(),
    {
        let chars = vec!['\u{2190}', '\u{2196}', '\u{2191}', '\u{2197}', '\u{2192}', '\u{2198}',
            '\u{2193}', '\u{2199}'];
        assert(chars@ =~= seq!['\u{2190}', '\u{2196}', '\u{2191}', '\u{2197}', '\u{2192}', '\u{2198}',
            '\u{2193}', '\u{2199}']);
        SpinnerStyle { chars, speed_ms: 120, prefix: String::new(), suffix: String::new() }
    }

    /// Sets the prefix.
    pub fn with_prefix(self, prefix: &str) -> (s: Self)
        ensures
            s.prefix@ == prefix@,
            s.chars == self.chars,
            s.speed_ms == self.speed_ms,
            s.suffix == self.suffix,
    {
        let mut s = self;
        s.prefix = owned(prefix);
        s
    }

    /// Sets the suffix.
    pub fn with_suffix(self, suffix: &str) -> (s: Self)
        ensures
            s.suffix@ == suffix@,
            s.chars == self.chars,
            s.speed_ms == self.speed_ms,
            s.prefix == self.prefix,
    {
        let mut s = self;
        s.suffix = owned(suffix);
        s
    }

    /// The frame shown at step `frame`, the frames taken in turn.
    pub fn current_char(&self, frame: usize) -> (c: char)
        requires
            self.chars.len() > 0,
        ensures
            c == self.chars@[frame as int % self.chars@.len() as int],
    {
        self.chars[frame % self.chars.len()]
    }
}

/// Where a bar's message goes.
#[derive(PartialEq, Eq, Structural, Clone, Copy, Debug)]
pub enum MessagePosition {
    Before,
    After,
    Above,
    Below,
    Hidden,
}

/// The look of a progress bar and what is shown beside it.
#[derive(Clone, Debug)]
pub struct BarStyle {
    pub width: usize,
    pub filled_char: char,
    pub empty_char: char,
    /// Left and right edges.
    pub edge_chars: Option<(char, char)>,
    pub show_percentage: bool,
    pub show_counters: bool,
    pub show_eta: bool,
    pub show_rate: bool,
    pub message_position: MessagePosition,
}

/// `n` copies of `c`.
pub open spec fn repeat(c: char, n: nat) -> Seq<char> {
    Seq::new(n, |i: int| c)
}

/// Width of the filled part of a bar: the done fraction of the width, rounded
/// down (and held to what a `usize` can count).
pub open spec fn filled_width(current: nat, total: nat, width: nat) -> nat
    recommends
        total > 0,
{
    let w = current * width / total;
    if w > usize::MAX {
        usize::MAX as nat
    } else {
        w
    }
}

/// The bar itself: edges, filled part and empty part.
pub open spec fn bar_body(b: BarStyle, current: nat, total: nat) -> Seq<char> {
    let fw = filled_width(current, total, b.width as nat);
    let ew = if fw < b.width { (b.width - fw) as nat } else { 0nat };
    let left = match b.edge_chars {
        Some(e) => seq![e.0],
        None => Seq::<char>::empty(),
    };
    let right = match b.edge_chars {
        Some(e) => seq![e.1],
        None => Seq::<char>::empty(),
    };
    left + repeat(b.filled_char, fw) + repeat(b.empty_char, ew) + right
}

/// `s` padded on the left with spaces to at least `w` characters.
pub open spec fn pad_left(s: Seq<char>, w: nat) -> Seq<char> {
    if s.len() < w {
        repeat(' ', (w - s.len()) as nat) + s
    } else {
        s
    }
}

/// The percentage done, with one decimal, right-aligned in five places.
pub open spec fn percent_field(current: nat, total: nat) -> Seq<char> {
    pad_left(fixed1(round_half_even(current * 1000, total)), 5) + "%"@
}

/// The parts of information shown after a bar.
pub open spec fn info_parts(b: BarStyle, current: nat, total: nat) -> Seq<Seq<char>> {
    let p = if b.show_percentage {
        seq![percent_field(current, total)]
    } else {
        Seq::<Seq<char>>::empty()
    };
    if b.show_counters {
        p.push(dec_digits(current) + "/"@ + dec_digits(total))
    } else {
        p
    }
}

/// The bar followed by its information.
pub open spec fn bar_line(b: BarStyle, current: nat, total: nat) -> Seq<char> {
    let parts = info_parts(b, current, total);
    if parts.len() == 0 {
        bar_body(b, current, total)
    } else {
        bar_body(b, current, total) + " "@ + join_spec(parts, " "@)
    }
}

/// A rendered bar with its message placed.
pub open spec fn rendered_bar(
    b: BarStyle,
    current: nat,
    total: nat,
    message: Option<Seq<char>>,
) -> Seq<char> {
    if total == 0 {
        "Error: Division by zero"@
    } else {
        let line = bar_line(b, current, total);
        match message {
            Some(m) => match b.message_position {
                MessagePosition::Before => m + " "@ + line,
                MessagePosition::After => line + " "@ + m,
                MessagePosition::Above => m + "\n"@ + line,
                MessagePosition::Below => line + "\n"@ + m,
                MessagePosition::Hidden => line,
            },
            None => line,
        }
    }
}

/// Appends `n` copies of `c` to `s`.
fn push_repeat(s: &mut String, c: char, n: usize)
    ensures
        final(s)@ == old(s)@ + repeat(c, n as nat),
{
    let mut i: usize = 0;
    while i < n
        invariant
            i <= n,
            s@ == old(s)@ + repeat(c, i as nat),
        decreases n - i,
    {
        push_char(s, c);
        i = i + 1;
        assert(s@ =~= old(s)@ + repeat(c, i as nat));
    }
}

/// The percentage field of `current` of `total`.
fn percent_text(current: u64, total: u64) -> (s: String)
    requires
        total > 0,
    ensures
        s@ == percent_field(current as nat, total as nat),
{
    let tenths = div_round_half_even((current as u128) * 1000, total as u128);
    let digits = format_fixed1(tenths);
    let n = digits.as_str().unicode_len();
    let mut s = String::new();
    if n < 5 {
        push_repeat(&mut s, ' ', 5 - n);
    }
    s.append(digits.as_str());
    s.append("%");
    assert(s@ =~= percent_field(current as nat, total as nat));
    s
}

impl BarStyle {
    /// Forty wide, block characters, bracket edges, percentage, counters and
    /// time left shown, message after.
    pub fn default() -> (b: Self)
        ensures
            b.width == 40,
            b.filled_char == '\u{2588}',
            b.empty_char == '\u{2591}',
            b.edge_chars == Some(('[', ']')),
            b.show_percentage && b.show_counters && b.show_eta && !b.show_rate,
            b.message_position == MessagePosition::After,
    {
        BarStyle {
            width: 40,
            filled_char: '\u{2588}',
            empty_char: '\u{2591}',
            edge_chars: Some(('[', ']')),
            show_percentage: true,
            show_counters: true,
            show_eta: true,
            show_rate: false,
            message_position: MessagePosition::After,
        }
    }

    /// Twenty wide, `=` and `-`, bracket edges, percentage only.
    pub fn simple() -> (b: Self)
        ensures
            b.width == 20,
            b.filled_char == '=',
            b.empty_char == '-',
            b.edge_chars == Some(('[', ']')),
            b.show_percentage && !b.show_counters && !b.show_eta && !b.show_rate,
            b.message_position == MessagePosition::After,
    {
        BarStyle {
            width: 20,
            filled_char: '=',
            empty_char: '-',
            edge_chars: Some(('[', ']')),
            show_percentage: true,
            show_counters: false,
            show_eta: false,
            show_rate: false,
            message_position: MessagePosition::After,
        }
    }

    /// The default look, fifty wide, with everything shown.
    pub fn detailed() -> (b: Self)
        ensures
            b.width == 50,
            b.filled_char == '\u{2588}',
            b.empty_char == '\u{2591}',
            b.edge_chars == Some(('[', ']')),
            b.show_percentage && b.show_counters && b.show_eta && b.show_rate,
            b.message_position == MessagePosition::After,
    {
        let mut b = BarStyle::default();
        b.width = 50;
        b.show_rate = true;
        b
    }

    /// Twenty wide, squares and spaces, no edges, nothing beside, message
    /// before.
    pub fn minimal() -> (b: Self)
        ensures
            b.width == 20,
            b.filled_char == '\u{25a0}',
            b.empty_char == ' ',
            b.edge_chars is None,
            !b.show_percentage && !b.show_counters && !b.show_eta && !b.show_rate,
            b.message_position == MessagePosition::Before,
    {
        BarStyle {
            width: 20,
            filled_char: '\u{25a0}',
            empty_char: ' ',
            edge_chars: None,
            show_percentage: false,
            show_counters: false,
            show_eta: false,
            show_rate: false,
            message_position: MessagePosition::Before,
        }
    }

    /// Sets the width.
    pub fn with_width(self, width: usize) -> (b: Self)
        ensures
            b == (BarStyle { width, ..self }),
    {
        BarStyle { width, ..self }
    }

    /// Sets the filled and empty characters.
    pub fn with_chars(self, filled: char, empty: char) -> (b: Self)
        ensures
            b == (BarStyle { filled_char: filled, empty_char: empty, ..self }),
    {
        BarStyle { filled_char: filled, empty_char: empty, ..self }
    }

    /// Sets the edges.
    pub fn with_edges(self, left: char, right: char) -> (b: Self)
        ensures
            b == (BarStyle { edge_chars: Some((left, right)), ..self }),
    {
        BarStyle { edge_chars: Some((left, right)), ..self }
    }

    /// Removes the edges.
    pub fn without_edges(self) -> (b: Self)
        ensures
            b == (BarStyle { edge_chars: None, ..self }),
    {
        BarStyle { edge_chars: None, ..self }
    }

    /// Chooses what is shown beside the bar.
    pub fn with_info(self, percentage: bool, counters: bool, eta: bool, rate: bool) -> (b: Self)
        ensures
            b == (BarStyle {
                show_percentage: percentage,
                show_counters: counters,
                show_eta: eta,
                show_rate: rate,
                ..self
            }),
    {
        BarStyle {
            show_percentage: percentage,
            show_counters: counters,
            show_eta: eta,
            show_rate: rate,
            ..self
        }
    }

    /// Sets where the message goes.
    pub fn with_message_position(self, position: MessagePosition) -> (b: Self)
        ensures
            b == (BarStyle { message_position: position, ..self }),
    {
        BarStyle { message_position: position, ..self }
    }

    /// The bar alone: edges, filled and empty parts.
    fn body_text(&self, current: u64, total: u64) -> (s: String)
        requires
            total > 0,
        ensures
            s@ == bar_body(*self, current as nat, total as nat),
    {
        assert((current as int) * (self.width as int) <= u128::MAX) by (nonlinear_arith)
            requires
                0 <= current <= u64::MAX,
                0 <= self.width <= u64::MAX,
        ;
        let fw128 = (current as u128) * (self.width as u128) / (total as u128);
        let fw: usize = if fw128 > usize::MAX as u128 {
            usize::MAX
        } else {
            fw128 as usize
        };
        let ew: usize = if fw < self.width {
            self.width - fw
        } else {
            0
        };
        let mut line = String::new();
        if let Some((left, _)) = self.edge_chars {
            push_char(&mut line, left);
        }
        push_repeat(&mut line, self.filled_char, fw);
        push_repeat(&mut line, self.empty_char, ew);
        if let Some((_, right)) = self.edge_chars {
            push_char(&mut line, right);
        }
        assert(line@ =~= bar_body(*self, current as nat, total as nat));
        line
    }

    /// The bar followed by the information it shows.
    fn line_text(&self, current: u64, total: u64) -> (s: String)
        requires
            total > 0,
        ensures
            s@ == bar_line(*self, current as nat, total as nat),
    {
        let mut line = self.body_text(current, total);
        let mut parts: Vec<String> = Vec::new();
        if self.show_percentage {
            parts.push(percent_text(current, total));
        }
        if self.show_counters {
            let mut c = u64_to_string(current);
            c.append("/");
            c.append(u64_to_string(total).as_str());
            parts.push(c);
        }
        assert(views(parts@) =~= info_parts(*self, current as nat, total as nat));
        if parts.len() > 0 {
            line.append(" ");
            line.append(join(&parts, " ").as_str());
        }
        line
    }

    /// Renders `current` of `total` as a bar with its information and message;
    /// a zero total renders an error text.
    pub fn render(&self, current: u64, total: u64, message: Option<&str>) -> (s: String)
        ensures
            s@ == rendered_bar(
                *self,
                current as nat,
                total as nat,
                match message {
                    Some(m) => Some(m@),
                    None => None,
                },
            ),
    {
        if total == 0 {
            return owned("Error: Division by zero");
        }
        let mut line = self.line_text(current, total);
        match message {
            Some(m) => match self.message_position {
                MessagePosition::Before => {
                    let mut s = owned(m);
                    s.append(" ");
                    s.append(line.as_str());
                    s
                },
                MessagePosition::After => {
                    line.append(" ");
                    line.append(m);
                    line
                },
                MessagePosition::Above => {
                    let mut s = owned(m);
                    s.append("\n");
                    s.append(line.as_str());
                    s
                },
                MessagePosition::Below => {
                    line.append("\n");
                    line.append(m);
                    line
                },
                MessagePosition::Hidden => line,
            },
            None => line,
        }
    }
}

/// Bytes of a file being encrypted.
pub fn encryption_progress(total_bytes: u64) -> (s: ProgressStyle)
    ensures
        s == (ProgressStyle::Bytes { total_bytes }),
{
    ProgressStyle::Bytes { total_bytes }
}

/// A bar over a number of files.
pub fn multi_file_progress(file_count: u64) -> (s: ProgressStyle)
    ensures
        s == (ProgressStyle::Bar { total: file_count }),
{
    ProgressStyle::Bar { total: file_count }
}

/// A counter over the files of a key rotation.
pub fn key_rotation_progress(file_count: u64) -> (s: ProgressStyle)
    ensures
        s == (ProgressStyle::Counter { total: file_count }),
{
    ProgressStyle::Counter { total: file_count }
}

/// A spinner.
pub fn simple_spinner() -> (s: ProgressStyle)
    ensures
        s == ProgressStyle::Spinner,
{
    ProgressStyle::Spinner
}

/// The style an operation gets from what is known of it.
pub open spec fn auto_style(has_total: bool, total_value: Option<u64>, op: Seq<char>) -> ProgressStyle {
    match (has_total, total_value) {
        (true, Some(total)) => if op == "files"@ && total > 1 {
            ProgressStyle::Bar { total }
        } else if op == "bytes"@ {
            ProgressStyle::Bytes { total_bytes: total }
        } else if op == "rotation"@ {
            ProgressStyle::Counter { total }
        } else {
            ProgressStyle::Percentage { total }
        },
        _ => ProgressStyle::Spinner,
    }
}

/// Law: with a known total `t`, `files` above one gets a bar, `bytes` a
/// byte count, `rotation` a counter and any other operation a percentage of
/// that total; without one, a spinner.
pub proof fn lemma_auto_style_table(has_total: bool, t: u64, op: Seq<char>)
    ensures
        auto_style(false, Some(t), op) == ProgressStyle::Spinner,
        auto_style(has_total, None, op) == ProgressStyle::Spinner,
        op == seq!['f', 'i', 'l', 'e', 's'] && t > 1 ==> auto_style(true, Some(t), op) == (ProgressStyle::Bar {
            total: t,
        }),
        op == seq!['b', 'y', 't', 'e', 's'] ==> auto_style(true, Some(t), op) == (ProgressStyle::Bytes {
            total_bytes: t,
        }),
        op == seq!['r', 'o', 't', 'a', 't', 'i', 'o', 'n'] ==> auto_style(true, Some(t), op) == (
        ProgressStyle::Counter { total: t }),
        (op == seq!['f', 'i', 'l', 'e', 's'] && t <= 1) || (op != seq!['f', 'i', 'l', 'e', 's'] && op != seq![
            'b',
            'y',
            't',
            'e',
            's',
        ] && op != seq!['r', 'o', 't', 'a', 't', 'i', 'o', 'n']) ==> auto_style(true, Some(t), op) == (
        ProgressStyle::Percentage { total: t }),
{
    reveal_strlit("files");
    reveal_strlit("bytes");
    reveal_strlit("rotation");
    assert("files"@ =~= seq!['f', 'i', 'l', 'e', 's']);
    assert("bytes"@ =~= seq!['b', 'y', 't', 'e', 's']);
    assert("rotation"@ =~= seq!['r', 'o', 't', 'a', 't', 'i', 'o', 'n']);
}

/// Chooses a style from whether a total is known, its value and the kind of
/// operation (`files`, `bytes`, `rotation` or another).
pub fn auto_select(has_total: bool, total_value: Option<u64>, operation_type: &str) -> (s: ProgressStyle)
    ensures
        s == auto_style(has_total, total_value, operation_type@),
{
    match (has_total, total_value) {
        (true, Some(total)) => {
            if str_eq(operation_type, "files") && total > 1 {
                ProgressStyle::Bar { total }
            } else if str_eq(operation_type, "bytes") {
                ProgressStyle::Bytes { total_bytes: total }
            } else if str_eq(operation_type, "rotation") {
                ProgressStyle::Counter { total }
            } else {
                ProgressStyle::Percentage { total }
            }
        },
        _ => ProgressStyle::Spinner,
    }
}

} // verus!
