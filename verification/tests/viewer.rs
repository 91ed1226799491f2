use logkx::autoscroll::ScrollMode;
use logkx::capture::{capture_step, CaptureAction, CaptureEvent, CaptureStatus, LaunchConfig};
use logkx::queue::{DeliveryQueue, PushError, QUEUE_CAPACITY};
use logkx::store::{LogStore, MAX_LOG_LINES};
use logkx::text::matches_query;

fn store_with(lines: &[&str]) -> LogStore {
    let mut s = LogStore::new();
    s.append_all(lines.iter().map(|l| l.to_string()).collect());
    s
}

#[test]
fn single_stream_kept_in_order() {
    let mut q = DeliveryQueue::new();
    for l in ["first", "second", "third"] {
        assert_eq!(q.push(l.to_string()), Ok(()));
    }
    let mut s = LogStore::new();
    s.append_all(q.drain_all());
    assert_eq!(s.visible_lines(), vec!["first", "second", "third"]);
}

#[test]
fn interleaved_streams_kept_in_per_stream_order() {
    // Writes arrive interleaved from two streams; the queue keeps arrival
    // order, so each stream's lines stay in their own order inside the view.
    let writes = [
        (false, "out 1"),
        (true, "err 1"),
        (false, "out 2"),
        (false, "out 3"),
        (true, "err 2"),
    ];
    let mut q = DeliveryQueue::new();
    for (_, l) in writes {
        assert_eq!(q.push(l.to_string()), Ok(()));
    }
    let mut s = LogStore::new();
    s.append_all(q.drain_all());
    let vis = s.visible_lines();
    assert_eq!(vis, vec!["out 1", "err 1", "out 2", "out 3", "err 2"]);
    let outs: Vec<&String> = vis.iter().filter(|l| l.starts_with("out")).collect();
    let errs: Vec<&String> = vis.iter().filter(|l| l.starts_with("err")).collect();
    assert_eq!(outs, vec!["out 1", "out 2", "out 3"]);
    assert_eq!(errs, vec!["err 1", "err 2"]);
}

#[test]
fn query_filters_case_insensitively() {
    let mut s = store_with(&["Error: disk full", "all quiet", "ERROR again", "errors ahead"]);
    s.set_query("eRRor".to_string());
    assert_eq!(
        s.visible_lines(),
        vec!["Error: disk full", "ERROR again", "errors ahead"]
    );
    s.set_query(String::new());
    assert_eq!(
        s.visible_lines(),
        vec!["Error: disk full", "all quiet", "ERROR again", "errors ahead"]
    );
}

#[test]
fn lowercase_folding_applies_to_both_sides() {
    // Would fail if lowercasing handed its argument back unchanged:
    // "AbC" and "aBc" agree in no position at all.
    let mut s = store_with(&["xxAbCyy"]);
    s.set_query("aBc".to_string());
    assert_eq!(s.visible_lines(), vec!["xxAbCyy"]);
    s.set_query("acb".to_string());
    assert!(s.visible_lines().is_empty());
}

#[test]
fn substring_match_is_exact() {
    assert!(matches_query("hello world", "o w"));
    assert!(matches_query("hello", "hello"));
    assert!(matches_query("hello", ""));
    assert!(!matches_query("hello", "hello!"));
    assert!(!matches_query("", "x"));
    assert!(matches_query("", ""));
    assert!(!matches_query("abab", "abba"));
}

#[test]
fn clear_empties_under_any_query() {
    let mut s = store_with(&["one", "two"]);
    s.clear();
    assert!(s.visible_lines().is_empty());
    s.set_query("one".to_string());
    assert!(s.visible_lines().is_empty());
    s.set_query(String::new());
    assert!(s.visible_lines().is_empty());
}

#[test]
fn drain_of_empty_queue_is_empty() {
    let mut q = DeliveryQueue::new();
    assert!(q.drain_all().is_empty());
    assert!(q.drain_all().is_empty());
}

#[test]
fn full_queue_refuses_and_keeps_oldest() {
    let mut q = DeliveryQueue::new();
    for i in 0..QUEUE_CAPACITY {
        assert_eq!(q.push(format!("line {}", i)), Ok(()));
    }
    assert_eq!(q.push("overflow".to_string()), Err(PushError::Full));
    let drained = q.drain_all();
    assert_eq!(drained.len(), QUEUE_CAPACITY);
    assert_eq!(drained[0], "line 0");
    assert_eq!(drained[QUEUE_CAPACITY - 1], format!("line {}", QUEUE_CAPACITY - 1));
    // After the drain there is room again.
    assert_eq!(q.push("overflow".to_string()), Ok(()));
}

#[test]
fn closed_queue_refuses_pushes() {
    let mut q = DeliveryQueue::new();
    assert_eq!(q.push("kept".to_string()), Ok(()));
    q.close();
    assert_eq!(q.push("late".to_string()), Err(PushError::Closed));
    assert_eq!(q.drain_all(), vec!["kept"]);
}

#[test]
fn store_evicts_oldest_at_cap() {
    let mut s = LogStore::new();
    let lines: Vec<String> = (0..MAX_LOG_LINES + 1).map(|i| format!("{}", i)).collect();
    s.append_all(lines);
    let vis = s.visible_lines();
    assert_eq!(vis.len(), MAX_LOG_LINES);
    assert_eq!(vis[0], "1");
    assert_eq!(vis[MAX_LOG_LINES - 1], format!("{}", MAX_LOG_LINES));
    s.append_all(vec!["newest".to_string()]);
    let vis = s.visible_lines();
    assert_eq!(vis.len(), MAX_LOG_LINES);
    assert_eq!(vis[0], "2");
    assert_eq!(vis[MAX_LOG_LINES - 1], "newest");
}

#[test]
fn autoscroll_follows_until_scrolled_away() {
    let mut s = LogStore::new();
    // Following from the start: every render is sent to the bottom.
    assert_eq!(s.target_offset(3, 10), 10);
    s.observe_scroll(10, 10, false);
    assert_eq!(s.target_offset(0, 12), 12);
    // A scroll input away from the bottom pins the view.
    s.observe_scroll(5, 12, true);
    assert_eq!(s.target_offset(5, 12), 5);
    // Appends and inputs above the bottom do not force the view down.
    s.append_all(vec!["more".to_string()]);
    s.observe_scroll(5, 13, false);
    assert_eq!(s.target_offset(5, 13), 5);
    s.observe_scroll(6, 13, true);
    assert_eq!(s.target_offset(6, 13), 6);
    // Reaching the bottom resumes following.
    s.observe_scroll(13, 13, false);
    assert_eq!(s.target_offset(2, 14), 14);
}

#[test]
fn scroll_mode_transitions() {
    let mut m = ScrollMode::Following;
    m.observe(4, 9, false);
    assert_eq!(m, ScrollMode::Following);
    m.observe(4, 9, true);
    assert_eq!(m, ScrollMode::Pinned);
    m.observe(4, 9, true);
    assert_eq!(m, ScrollMode::Pinned);
    m.observe(9, 9, true);
    assert_eq!(m, ScrollMode::Following);
}

#[test]
fn capture_decisions() {
    let (st, act) = capture_step(CaptureEvent::LineRead("payload".to_string()));
    assert_eq!(st, CaptureStatus::Running);
    assert!(matches!(act, CaptureAction::Deliver(l) if l == "payload"));
    let (st, act) = capture_step(CaptureEvent::StreamUnavailable);
    assert_eq!(st, CaptureStatus::Running);
    assert!(matches!(act, CaptureAction::RetryAfterDelay));
    let (st, act) = capture_step(CaptureEvent::SinkFull);
    assert_eq!(st, CaptureStatus::Running);
    assert!(matches!(act, CaptureAction::RetryAfterDelay));
    let (st, act) = capture_step(CaptureEvent::DecodeError);
    assert_eq!(st, CaptureStatus::Running);
    assert!(matches!(act, CaptureAction::DropLine));
    let (st, act) = capture_step(CaptureEvent::StreamClosed);
    assert_eq!(st, CaptureStatus::Stopped);
    assert!(matches!(act, CaptureAction::Finish));
    let (st, act) = capture_step(CaptureEvent::SinkClosed);
    assert_eq!(st, CaptureStatus::Stopped);
    assert!(matches!(act, CaptureAction::Finish));
}

#[test]
fn launch_args_are_split() {
    let argv: Vec<String> = ["viewer", "/bin/cat", "/tmp", "-n", "file"]
        .iter()
        .map(|a| a.to_string())
        .collect();
    let cfg = LaunchConfig::from_args(argv).unwrap();
    assert_eq!(cfg.executable, "/bin/cat");
    assert_eq!(cfg.working_dir, "/tmp");
    assert_eq!(cfg.args, vec!["-n", "file"]);
}

#[test]
fn launch_args_too_short_are_refused() {
    let argv: Vec<String> = ["viewer", "/bin/cat"].iter().map(|a| a.to_string()).collect();
    assert!(LaunchConfig::from_args(argv).is_err());
    assert!(LaunchConfig::from_args(Vec::new()).is_err());
}

#[test]
fn end_to_end_capture_of_three_lines() {
    // A child printing "a", "b", "c" to stdout and exiting, replayed through
    // the capture decisions, the queue, and the store.
    let mut q = DeliveryQueue::new();
    let events = [
        CaptureEvent::LineRead("a".to_string()),
        CaptureEvent::LineRead("b".to_string()),
        CaptureEvent::LineRead("c".to_string()),
        CaptureEvent::StreamClosed,
    ];
    for ev in events {
        let (st, act) = capture_step(ev);
        match act {
            CaptureAction::Deliver(line) => {
                assert_eq!(q.push(line), Ok(()));
            }
            CaptureAction::Finish => assert_eq!(st, CaptureStatus::Stopped),
            _ => panic!("unexpected action"),
        }
        if st == CaptureStatus::Stopped {
            break;
        }
    }
    let mut s = LogStore::new();
    s.append_all(q.drain_all());
    assert_eq!(s.visible_lines(), vec!["a", "b", "c"]);
    s.set_query("B".to_string());
    assert_eq!(s.visible_lines(), vec!["b"]);
    s.clear();
    assert!(s.visible_lines().is_empty());
}
