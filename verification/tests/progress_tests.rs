use cage::progress::manager::{ManagerBuilder, ProgressManager, ProgressStats};
use cage::progress::styles::{
    auto_select, encryption_progress, multi_file_progress, BarStyle, MessagePosition, ProgressStyle,
    SpinnerStyle,
};
use cage::progress::task::{ProgressEvent, ProgressReporter, ProgressState, ProgressTask, TaskBuilder};
use cage::progress::terminal::{SilentReporter, TerminalReporter};
use cage::progress::utils::{calculate_eta, format_bytes, format_duration, format_rate};

const SEC: u128 = 1_000_000_000;

#[test]
fn test_task_builder() {
    let builder = TaskBuilder::new("Test task").with_total(200).with_metadata("type", "file");

    assert_eq!(builder.title(), "Test task");
    assert_eq!(builder.total(), Some(200));
    assert_eq!(builder.get_metadata("type"), Some(&"file".to_string()));
}

#[test]
fn test_progress_calculations() {
    // Test ETA calculation
    let eta = calculate_eta(25, 100, 10 * SEC);
    assert!(eta.is_some());
    assert_eq!(eta.unwrap() / SEC, 30); // 10s for 25%, so 40s total, 30s remaining

    // Test duration formatting
    assert_eq!(format_duration(30 * SEC), "30s");
    assert_eq!(format_duration(90 * SEC), "1m 30s");
    assert_eq!(format_duration(3661 * SEC), "1h 1m");

    // Test byte formatting
    assert_eq!(format_bytes(1024), "1.0 KB");
    assert_eq!(format_bytes(1536), "1.5 KB");
    assert_eq!(format_bytes(1048576), "1.0 MB");

    // Test rate formatting
    assert_eq!(format_rate(100, 10 * SEC), "10.0 items/s");
    assert_eq!(format_rate(5, 10 * SEC), "0.5 items/s");
}

#[test]
fn test_progress_manager_creation() {
    let manager = ProgressManager::new();
    assert!(manager.is_enabled());
    assert_eq!(manager.active_tasks().len(), 0);

    let disabled_manager = ProgressManager::disabled();
    assert!(!disabled_manager.is_enabled());
}

#[test]
fn test_task_creation_and_management() {
    let mut manager = ProgressManager::new();

    let task1 = manager.start_task("Task 1", &ProgressStyle::Spinner, 0);
    let task2 = manager.start_task("Task 2", &ProgressStyle::Bar { total: 100 }, 0);

    assert_eq!(manager.active_tasks().len(), 2);

    manager.complete_task(task1.id(), "Done");
    assert_eq!(manager.cleanup_finished(), 1);
    assert_eq!(manager.active_tasks().len(), 1);

    manager.fail_task(task2.id(), "Error");
    assert_eq!(manager.cleanup_finished(), 1);
    assert_eq!(manager.active_tasks().len(), 0);
}

#[test]
fn test_disabled_manager() {
    let mut manager = ProgressManager::disabled();
    let task = manager.start_task("Test", &ProgressStyle::Spinner, 0);

    // Should create a no-op task
    assert_eq!(task.id(), 0);
    assert_eq!(manager.active_tasks().len(), 0);
}

#[test]
fn test_manager_builder() {
    let manager = ManagerBuilder::new().enabled(true).with_auto_cleanup(500).build();

    assert!(manager.is_enabled());

    let disabled_manager = ManagerBuilder::new().enabled(false).build();

    assert!(!disabled_manager.is_enabled());
}

#[test]
fn test_progress_framework_creation() {
    let manager = ProgressManager::new();
    assert!(manager.active_tasks().is_empty());
}

#[test]
fn mod_test_progress_task_lifecycle() {
    let mut manager = ProgressManager::new();
    let task = manager.start_task("Test task", &ProgressStyle::Spinner, 0);

    assert_eq!(task.current_progress(), 0);
    assert_eq!(task.state(), ProgressState::Running);

    manager.update_task(task.id(), 50, "Half way");
    assert_eq!(manager.get_task(task.id()).unwrap().current_progress(), 50);

    manager.complete_task(task.id(), "Done");
    assert_eq!(manager.get_task(task.id()).unwrap().state(), ProgressState::Complete);
}

#[test]
fn test_multiple_tasks() {
    let mut manager = ProgressManager::new();

    let task1 = manager.start_task("Task 1", &ProgressStyle::Bar { total: 100 }, 0);
    let task2 = manager.start_task("Task 2", &ProgressStyle::Spinner, 0);

    assert_eq!(manager.active_tasks().len(), 2);

    manager.complete_task(task1.id(), "Task 1 done");
    assert_eq!(manager.active_tasks().len(), 1);

    manager.complete_task(task2.id(), "Task 2 done");
    assert_eq!(manager.active_tasks().len(), 0);
}

#[test]
fn test_progress_style_properties() {
    let bar_style = ProgressStyle::Bar { total: 100 };
    assert_eq!(bar_style.total(), Some(100));
    assert!(bar_style.supports_updates());
    assert!(bar_style.needs_total());

    let spinner_style = ProgressStyle::Spinner;
    assert_eq!(spinner_style.total(), None);
    assert!(spinner_style.supports_updates());
    assert!(!spinner_style.needs_total());

    let silent_style = ProgressStyle::Silent;
    assert!(!silent_style.supports_updates());
}

#[test]
fn test_spinner_style() {
    let spinner = SpinnerStyle::simple();
    assert_eq!(spinner.chars, vec!['|', '/', '-', '\\']);
    assert_eq!(spinner.current_char(0), '|');
    assert_eq!(spinner.current_char(1), '/');
    assert_eq!(spinner.current_char(4), '|'); // wraps around

    let custom_spinner = SpinnerStyle::dots().with_prefix("Loading: ").with_suffix("...");
    assert_eq!(custom_spinner.prefix, "Loading: ");
    assert_eq!(custom_spinner.suffix, "...");
}

#[test]
fn test_bar_style_rendering() {
    let bar = BarStyle::simple();

    // Test 0%
    let result = bar.render(0, 100, Some("Starting"));
    assert!(result.contains("--------------------"));
    assert!(result.contains("0.0%"));

    // Test 50%
    let result = bar.render(50, 100, Some("Half way"));
    assert!(result.contains("==========----------"));
    assert!(result.contains("50.0%"));

    // Test 100%
    let result = bar.render(100, 100, Some("Complete"));
    assert!(result.contains("===================="));
    assert!(result.contains("100.0%"));
}

#[test]
fn test_bar_style_customization() {
    let bar = BarStyle::minimal().with_width(10).with_chars('●', '○').without_edges();

    let result = bar.render(3, 10, None);
    assert!(result.contains("●●●○○○○○○○"));
}

#[test]
fn test_message_positions() {
    let bar = BarStyle::simple().with_message_position(MessagePosition::Before);
    let result = bar.render(50, 100, Some("Progress"));
    assert!(result.starts_with("Progress"));

    let bar = BarStyle::simple().with_message_position(MessagePosition::After);
    let result = bar.render(50, 100, Some("Progress"));
    assert!(result.ends_with("Progress"));

    let bar = BarStyle::simple().with_message_position(MessagePosition::Above);
    let result = bar.render(50, 100, Some("Progress"));
    assert!(result.contains("Progress\n["));
}

#[test]
fn test_preset_styles() {
    let file_style = multi_file_progress(10);
    assert_eq!(file_style.total(), Some(10));

    let byte_style = encryption_progress(1024);
    assert_eq!(byte_style.total(), Some(1024));

    let auto_style = auto_select(true, Some(5), "files");
    assert!(matches!(auto_style, ProgressStyle::Bar { total: 5 }));

    let auto_spinner = auto_select(false, None, "unknown");
    assert!(matches!(auto_spinner, ProgressStyle::Spinner));
}

#[test]
fn test_terminal_reporter_creation() {
    let reporter = TerminalReporter::new();
    assert_eq!(reporter.name(), "terminal");
    assert!(reporter.supports_realtime());

    let simple_reporter = TerminalReporter::simple();
    assert!(!simple_reporter.config.use_colors);
    assert!(!simple_reporter.config.use_unicode);
}

fn event(task_id: u64, current: u64, total: Option<u64>, message: Option<&str>) -> ProgressEvent {
    ProgressEvent {
        task_id,
        timestamp: 0,
        current,
        total,
        message: message.map(|m| m.to_string()),
        state: ProgressState::Running,
    }
}

#[test]
fn test_silent_reporter() {
    let reporter = SilentReporter::new();
    assert_eq!(reporter.name(), "silent");
    assert!(!reporter.supports_realtime());

    // Should do nothing
    let event = event(1, 50, Some(100), Some("Test"));
    reporter.report(&event);
}

#[test]
fn test_format_helpers() {
    let reporter = TerminalReporter::new();

    // Test duration formatting
    let formatted = reporter.format_duration(65 * SEC);
    assert!(formatted.contains("1m") && formatted.contains("5s"));

    // Test byte formatting
    let formatted = reporter.format_bytes(1536);
    assert!(formatted.contains("1.5") && formatted.contains("KB"));
}

#[test]
fn test_style_inference() {
    let reporter = TerminalReporter::new();

    // Test bar style inference
    let style = reporter.infer_style(&event(1, 10, Some(100), None));
    assert!(matches!(style, ProgressStyle::Bar { total: 100 }));

    // Test bytes style inference
    let style = reporter.infer_style(&event(2, 1000, Some(2000000), None));
    assert!(matches!(style, ProgressStyle::Bytes { total_bytes: 2000000 }));

    // Test spinner inference
    let style = reporter.infer_style(&event(3, 0, None, None));
    assert!(matches!(style, ProgressStyle::Spinner));
}

#[test]
fn core_test_progress_task_lifecycle() {
    let mut task = ProgressTask::new(1, "Test", Some(100), 5);
    let mut events = vec![task.event()];

    assert_eq!(task.current_progress(), 0);
    assert_eq!(task.total_progress(), Some(100));
    assert_eq!(task.state(), ProgressState::Running);

    events.push(task.update(50, "Half way"));
    assert_eq!(task.current_progress(), 50);

    events.push(task.complete("Done"));
    assert_eq!(task.state(), ProgressState::Complete);
    assert_eq!(task.current_progress(), 100);

    assert_eq!(events.len(), 3);
    assert_eq!(events[0].current, 0);
    assert_eq!(events[1].current, 50);
    assert_eq!(events[2].current, 100);
    assert_eq!(events[2].state, ProgressState::Complete);
    assert_eq!(events[1].message, Some("Half way".to_string()));
    assert!(task.is_finished());
}

#[test]
fn task_increment_and_elapsed() {
    let mut task = ProgressTask::new(7, "Count", None, 10);
    task.increment(None);
    task.increment(Some("two"));
    assert_eq!(task.current_progress(), 2);
    assert_eq!(task.message(), "two");
    task.touch(10 + 3 * SEC);
    assert_eq!(task.elapsed(), 3 * SEC);
    task.cancel("stop");
    assert_eq!(task.state(), ProgressState::Cancelled);
    assert_eq!(task.current_progress(), 2);
}

#[test]
fn manager_ids_rise_and_unknown_ids_are_ignored() {
    let mut manager = ProgressManager::new();
    let a = manager.start_task("a", &ProgressStyle::Spinner, 0);
    let b = manager.start_task("b", &ProgressStyle::Counter { total: 3 }, 0);
    assert_eq!(a.id(), 1);
    assert_eq!(b.id(), 2);
    assert_eq!(b.total_progress(), Some(3));
    assert!(manager.update_task(99, 1, "x").is_none());
    let removed = manager.remove_task(a.id()).unwrap();
    assert_eq!(removed.message(), "a");
    assert!(manager.get_task(a.id()).is_none());
    let events = manager.cancel_all("shutdown");
    assert_eq!(events.len(), 1);
    assert_eq!(events[0].task_id, 2);
    assert_eq!(events[0].state, ProgressState::Cancelled);
    assert!(manager.active_tasks().is_empty());
}

#[test]
fn utils_exact_values() {
    assert_eq!(format_duration(0), "0s");
    assert_eq!(format_duration(59 * SEC + 999_999_999), "59s");
    assert_eq!(format_bytes(0), "0 B");
    assert_eq!(format_bytes(1023), "1023 B");
    // 1.25 KB rounds to even.
    assert_eq!(format_bytes(1280), "1.2 KB");
    assert_eq!(format_bytes(1024 * 1024 * 1024 * 1024 * 3), "3.0 TB");
    assert_eq!(format_rate(1, SEC / 2), "\u{221e} items/s");
    assert_eq!(format_rate(1, 50 * SEC), "0.02 items/s");
    assert_eq!(calculate_eta(0, 10, SEC), None);
    assert_eq!(calculate_eta(10, 10, SEC), None);
    assert_eq!(calculate_eta(5, 10, 0), None);
    assert_eq!(calculate_eta(1, 4, 2 * SEC), Some(6 * SEC));
}

#[test]
fn bar_render_details() {
    let bar = BarStyle::default().with_width(4);
    assert_eq!(bar.render(1, 4, None), "[\u{2588}\u{2591}\u{2591}\u{2591}]  25.0% 1/4");
    assert_eq!(BarStyle::simple().render(1, 0, Some("x")), "Error: Division by zero");
    let below = BarStyle::simple()
        .with_width(2)
        .with_message_position(MessagePosition::Below)
        .render(2, 2, Some("m"));
    assert_eq!(below, "[==] 100.0%\nm");
    assert_eq!(ProgressStyle::Bar { total: 10 }.text(), "bar(10)");
    assert_eq!(ProgressStyle::Custom("x".to_string()).text(), "custom(x)");
}

#[test]
fn terminal_counter_line() {
    let reporter = TerminalReporter::simple();
    let e = event(1, 3, Some(10), None);
    assert_eq!(reporter.render_counter(&e, 10, 0), "[3/10] Processing");
    assert!(reporter.should_update(0, 50_000_000));
    assert!(!reporter.should_update(0, 49_999_999));
}

#[test]
fn cleanup_is_idempotent() {
    let mut manager = ProgressManager::new();
    let a = manager.start_task("a", &ProgressStyle::Spinner, 0);
    manager.start_task("b", &ProgressStyle::Spinner, 0);
    manager.complete_task(a.id(), "done");
    let before = manager.active_tasks().len();
    assert_eq!(manager.cleanup_finished(), 1);
    assert_eq!(manager.active_tasks().len(), before);
    assert_eq!(manager.cleanup_finished(), 0);
}

#[test]
fn test_progress_stats() {
    let mut manager = ProgressManager::new();

    let task1 = manager.start_task("Task 1", &ProgressStyle::Bar { total: 100 }, 0);
    let task2 = manager.start_task("Task 2", &ProgressStyle::Bar { total: 200 }, 0);

    manager.update_task(task1.id(), 50, "Half way");
    manager.update_task(task2.id(), 100, "Half way");

    let stats = manager.stats();
    assert_eq!(stats.total_tasks, 2);
    assert_eq!(stats.running_tasks, 2);
    assert_eq!(stats.total_items, 300);

    manager.complete_task(task1.id(), "Done");
    let stats = manager.stats();
    assert_eq!(stats.completed_tasks, 1);
    assert_eq!(stats.running_tasks, 1);
}

#[test]
fn stats_work_done_and_verdicts() {
    let mut manager = ProgressManager::new();
    let a = manager.start_task("a", &ProgressStyle::Bar { total: 100 }, 0);
    let b = manager.start_task("b", &ProgressStyle::Bar { total: 0 }, 0);
    manager.start_task("c", &ProgressStyle::Spinner, 0);
    manager.update_task(a.id(), 40, "");
    manager.update_task(b.id(), 7, "");
    let stats = manager.stats();
    assert_eq!(stats.total_progress, 40);
    assert_eq!(stats.total_items, 100);
    assert!(!stats.all_complete());
    assert!(!stats.has_failures());
    manager.fail_task(b.id(), "boom");
    assert!(manager.stats().has_failures());

    let empty = ProgressStats::default();
    assert!(!empty.all_complete());
    let mut done = ProgressManager::new();
    let t = done.start_task("t", &ProgressStyle::Spinner, 0);
    done.complete_task(t.id(), "ok");
    assert!(done.stats().all_complete());
}

#[test]
fn terminal_reporter_spinner_frames() {
    let unicode = TerminalReporter::new().spinner();
    assert_eq!(unicode.chars.len(), 10);
    assert_eq!(unicode.chars[0], '\u{280b}');
    assert_eq!(unicode.speed_ms, 80);
    let plain = TerminalReporter::simple().spinner();
    assert_eq!(plain.chars, vec!['|', '/', '-', '\\']);
    assert_eq!(plain.speed_ms, 100);
    let silent = SilentReporter::new();
    assert_eq!(silent.name(), "silent");
    assert!(!silent.supports_realtime());
}
