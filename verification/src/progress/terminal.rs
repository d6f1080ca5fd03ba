//! Terminal reporters: their configuration, the style a task is shown with,
//! the throttling of updates, and the text of counter and spinner lines.  The
//! writing to the terminal is the caller's.
use vstd::prelude::*;
use crate::progress::styles::{dots_frames, ProgressStyle, SpinnerStyle};
use crate::progress::task::{ProgressEvent, ProgressReporter, ProgressState};
use crate::progress::utils::{bytes_text, duration_text, format_bytes, format_duration};
use crate::text::{dec_digits, owned, push_char, u64_to_string};

verus! {

/// How a terminal reporter shows progress.
#[derive(PartialEq, Eq, Structural, Clone, Copy, Debug)]
pub struct TerminalConfig {
    pub use_colors: bool,
    pub use_unicode: bool,
    /// Write to standard error rather than standard output.
    pub use_stderr: bool,
    /// Least time between two updates of a running task.
    pub update_interval_ms: u64,
    /// Forget tasks once they finish.
    pub clear_on_complete: bool,
    pub max_width: Option<usize>,
}

/// Colours and Unicode on, standard output, 50 ms between updates.
pub open spec fn default_terminal_config() -> TerminalConfig {
    TerminalConfig {
        use_colors: true,
        use_unicode: true,
        use_stderr: false,
        update_interval_ms: 50,
        clear_on_complete: false,
        max_width: None,
    }
}

impl TerminalConfig {
    /// Colours and Unicode on, standard output, 50 ms between updates.
    pub fn default() -> (c: Self)
        ensures
            c == default_terminal_config(),
    {
        TerminalConfig {
            use_colors: true,
            use_unicode: true,
            use_stderr: false,
            update_interval_ms: 50,
            clear_on_complete: false,
            max_width: None,
        }
    }
}

/// The style a task is shown with, from its first event: bytes above a
/// million, a bar above one, a percentage otherwise, a spinner without a
/// total.
pub open spec fn inferred_style(total: Option<u64>) -> ProgressStyle {
    match total {
        Some(t) => if t > 1_000_000 {
            ProgressStyle::Bytes { total_bytes: t }
        } else if t > 1 {
            ProgressStyle::Bar { total: t }
        } else {
            ProgressStyle::Percentage { total: t }
        },
        None => ProgressStyle::Spinner,
    }
}

/// Law: a task whose first event gives a total of more than one million is
/// shown in bytes, one of two up to a million as a bar, one of at most one
/// as a percentage; a task without a total gets a spinner.
pub proof fn lemma_inferred_style_bounds(t: u64)
    ensures
        t >= 1000001 ==> inferred_style(Some(t)) == (ProgressStyle::Bytes { total_bytes: t }),
        2 <= t <= 1000000 ==> inferred_style(Some(t)) == (ProgressStyle::Bar { total: t }),
        t <= 1 ==> inferred_style(Some(t)) == (ProgressStyle::Percentage { total: t }),
        inferred_style(None) == ProgressStyle::Spinner,
{
}

/// The text of a counter line for `current` of `total` in state `state`.
pub open spec fn counter_text(
    colors: bool,
    state: ProgressState,
    current: nat,
    total: nat,
    message: Seq<char>,
    elapsed: Seq<char>,
) -> Seq<char> {
    let counter = "["@ + dec_digits(current) + "/"@ + dec_digits(total) + "]"@;
    match state {
        ProgressState::Complete => if colors {
            "\x1b[32m\u{2713}\x1b[0m "@ + counter + " "@ + message + " ("@ + elapsed + ")"@
        } else {
            "\u{2713} "@ + counter + " "@ + message + " ("@ + elapsed + ")"@
        },
        ProgressState::Failed => if colors {
            "\x1b[31m\u{2717} "@ + counter + " "@ + message + "\x1b[0m"@
        } else {
            "\u{2717} "@ + counter + " "@ + message
        },
        ProgressState::Running => counter + " "@ + message,
        ProgressState::Cancelled => if colors {
            "\x1b[33m\u{25d0} "@ + counter + " "@ + message + "\x1b[0m"@
        } else {
            "\u{25d0} "@ + counter + " "@ + message
        },
    }
}

/// A reporter that draws progress on a terminal.
pub struct TerminalReporter {
    pub config: TerminalConfig,
}

impl TerminalReporter {
    /// A reporter with the default configuration.
    pub fn new() -> (r: Self)
        ensures
            r.config == default_terminal_config(),
    {
        TerminalReporter { config: TerminalConfig::default() }
    }

    /// A reporter with configuration `config`.
    pub fn with_config(config: TerminalConfig) -> (r: Self)
        ensures
            r.config == config,
    {
        TerminalReporter { config }
    }

    /// A reporter without colours or Unicode.
    pub fn simple() -> (r: Self)
        ensures
            r.config == (TerminalConfig { use_colors: false, use_unicode: false, ..default_terminal_config() }),
    {
        TerminalReporter {
            config: TerminalConfig { use_colors: false, use_unicode: false, ..TerminalConfig::default() },
        }
    }

    /// A reporter that never updates a running task.
    pub fn silent() -> (r: Self)
        ensures
            r.config == (TerminalConfig { update_interval_ms: u64::MAX, ..default_terminal_config() }),
    {
        TerminalReporter {
            config: TerminalConfig { update_interval_ms: u64::MAX, ..TerminalConfig::default() },
        }
    }

    /// The reporter's name.
    pub fn name(&self) -> (r: &'static str)
        ensures
            r@ == "terminal"@,
    {
        "terminal"
    }

    /// A terminal shows changes as they happen.
    pub fn supports_realtime(&self) -> (r: bool)
        ensures
            r,
    {
        true
    }

    /// Whether an update at clock reading `now` is shown, the last shown one
    /// having been at `last_update` (both in nanoseconds): once the update
    /// interval, counted in whole milliseconds, has passed.
    pub fn should_update(&self, last_update: u128, now: u128) -> (r: bool)
        ensures
            r == (now >= last_update && (now - last_update) / 1_000_000 >= self.config.update_interval_ms),
    {
        now >= last_update && (now - last_update) / 1_000_000 >= self.config.update_interval_ms as u128
    }

    /// Whether an event is written: finished tasks always, running ones when
    /// the update interval has passed.
    pub fn should_report(&self, event: &ProgressEvent, last_update: u128, now: u128) -> (r: bool)
        ensures
            r == (event.state != ProgressState::Running || (now >= last_update && (now - last_update)
                / 1_000_000 >= self.config.update_interval_ms)),
    {
        match event.state {
            ProgressState::Running => self.should_update(last_update, now),
            _ => true,
        }
    }

    /// The style a task is shown with, from its first event.
    pub fn infer_style(&self, event: &ProgressEvent) -> (s: ProgressStyle)
        ensures
            s == inferred_style(event.total),
    {
        match event.total {
            Some(t) => {
                if t > 1_000_000 {
                    ProgressStyle::Bytes { total_bytes: t }
                } else if t > 1 {
                    ProgressStyle::Bar { total: t }
                } else {
                    ProgressStyle::Percentage { total: t }
                }
            },
            None => ProgressStyle::Spinner,
        }
    }

    /// The spinner frames this reporter uses: dots with Unicode, `|/-\`
    /// without.
    pub fn spinner(&self) -> (s: SpinnerStyle)
        ensures
            self.config.use_unicode ==> s.chars@ == dots_frames() && s.speed_ms == 80,
            !self.config.use_unicode ==> s.chars@ == seq!['|', '/', '-', '\\'] && s.speed_ms == 100,
            s.prefix@ == Seq::<char>::empty(),
            s.suffix@ == Seq::<char>::empty(),
            s.chars.len() > 0,
    {
        if self.config.use_unicode {
            SpinnerStyle::dots()
        } else {
            SpinnerStyle::simple()
        }
    }

    /// A duration, as the reporter shows it.
    pub fn format_duration(&self, nanos: u128) -> (s: String)
        ensures
            s@ == duration_text(nanos as nat),
    {
        format_duration(nanos)
    }

    /// A byte count, as the reporter shows it.
    pub fn format_bytes(&self, bytes: u64) -> (s: String)
        ensures
            s@ == bytes_text(bytes as nat),
    {
        format_bytes(bytes)
    }

    /// The counter line of an event: `[3/10] message`, marked when the task
    /// has finished; a missing message reads `Processing`.
    pub fn render_counter(&self, event: &ProgressEvent, total: u64, elapsed_nanos: u128) -> (s: String)
        ensures
            s@ == counter_text(
                self.config.use_colors,
                event.state,
                event.current as nat,
                total as nat,
                match &event.message {
                    Some(m) => m@,
                    None => "Processing"@,
                },
                duration_text(elapsed_nanos as nat),
            ),
    {
        let message = match &event.message {
            Some(m) => m.clone(),
            None => owned("Processing"),
        };
        let mut counter = owned("[");
        counter.append(u64_to_string(event.current).as_str());
        counter.append("/");
        counter.append(u64_to_string(total).as_str());
        counter.append("]");
        let colors = self.config.use_colors;
        let mut s = String::new();
        match event.state {
            ProgressState::Complete => {
                if colors {
                    s.append("\x1b[32m\u{2713}\x1b[0m ");
                } else {
                    s.append("\u{2713} ");
                }
                s.append(counter.as_str());
                s.append(" ");
                s.append(message.as_str());
                s.append(" (");
                s.append(format_duration(elapsed_nanos).as_str());
                s.append(")");
            },
            ProgressState::Failed => {
                if colors {
                    s.append("\x1b[31m\u{2717} ");
                } else {
                    s.append("\u{2717} ");
                }
                s.append(counter.as_str());
                s.append(" ");
                s.append(message.as_str());
                if colors {
                    s.append("\x1b[0m");
                }
            },
            ProgressState::Running => {
                s.append(counter.as_str());
                s.append(" ");
                s.append(message.as_str());
            },
            ProgressState::Cancelled => {
                if colors {
                    s.append("\x1b[33m\u{25d0} ");
                } else {
                    s.append("\u{25d0} ");
                }
                s.append(counter.as_str());
                s.append(" ");
                s.append(message.as_str());
                if colors {
                    s.append("\x1b[0m");
                }
            },
        }
        s
    }
}

/// A reporter that shows nothing.
pub struct SilentReporter;

impl SilentReporter {
    /// The silent reporter.
    pub fn new() -> (r: Self) {
        SilentReporter
    }
}

impl ProgressReporter for SilentReporter {
    fn report(&self, event: &ProgressEvent) {
    }

    fn supports_realtime(&self) -> (r: bool)
        ensures
            !r,
    {
        false
    }

    fn name(&self) -> (r: &'static str)
        ensures
            r@ == "silent"@,
    {
        "silent"
    }
}

} // verus!
