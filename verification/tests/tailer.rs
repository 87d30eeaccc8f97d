use otternel::tailer::{
    backoff_seconds, process_chunk, ChangeKind, Command, LogWatcher, WatchFailure,
};
use otternel::triggers::{load_triggers, TriggerDefinition};

fn watcher(records: Vec<(&str, &str, Option<Vec<u32>>)>) -> LogWatcher {
    let definitions = records
        .into_iter()
        .map(|(pattern, action, scope)| TriggerDefinition {
            name: None,
            pattern: pattern.to_string(),
            action: action.to_string(),
            scope,
        })
        .collect();
    LogWatcher::new(load_triggers(definitions).triggers)
}

#[test]
fn first_read_records_the_length_and_a_second_one_finds_nothing() {
    let mut w = watcher(vec![("hello", "on_test", None)]);
    let content = b"hello\nworld\n";
    let first = w.read_new("/logs/5.log", "5.log", content);
    assert_eq!(w.offsets.get("/logs/5.log"), Some(content.len() as u64));
    assert_eq!(first.line.map(|l| l.text), Some("world".to_string()));
    assert!(first.actions.is_empty());
    let second = w.read_new("/logs/5.log", "5.log", content);
    assert!(second.line.is_none());
    assert!(second.actions.is_empty());
    assert_eq!(w.offsets.get("/logs/5.log"), Some(content.len() as u64));
}

#[test]
fn only_appended_bytes_are_read() {
    let mut w = watcher(vec![("joined", "on_player_joined", None)]);
    w.read_new("/logs/5.log", "5.log", b"Ann joined\n");
    let outcome = w.read_new("/logs/5.log", "5.log", b"Ann joined\nBob left\n");
    assert_eq!(outcome.line.map(|l| l.text), Some("Bob left".to_string()));
    assert!(outcome.actions.is_empty());
    assert_eq!(w.offsets.offset("/logs/5.log"), 20);
}

#[test]
fn shorter_file_is_read_from_its_beginning() {
    let mut w = watcher(vec![("joined", "on_player_joined", None)]);
    w.read_new("/logs/5.log", "5.log", b"a long line that was there before\n");
    assert_eq!(w.offsets.offset("/logs/5.log"), 34);
    let plan = w.begin_read("/logs/5.log", 11);
    assert_eq!(plan.start, 0);
    assert!(plan.truncated);
    assert_eq!(w.offsets.get("/logs/5.log"), Some(0));
    let outcome = w.finish_read("/logs/5.log", "5.log", b"Bob joined\n", 11);
    assert_eq!(outcome.actions, vec!["on_player_joined"]);
    assert_eq!(w.offsets.get("/logs/5.log"), Some(11));
    let mut again = watcher(vec![]);
    again.read_new("x.log", "x.log", b"0123456789\n");
    let outcome = again.read_new("x.log", "x.log", b"new\n");
    assert_eq!(outcome.line.map(|l| l.text), Some("new".to_string()));
    assert_eq!(again.offsets.offset("x.log"), 4);
}

#[test]
fn read_plan_starts_at_the_recorded_offset() {
    let mut w = watcher(vec![]);
    let plan = w.begin_read("a.log", 100);
    assert_eq!((plan.start, plan.truncated), (0, false));
    assert_eq!(w.offsets.get("a.log"), None);
    w.finish_read("a.log", "a.log", b"", 100);
    let plan = w.begin_read("a.log", 100);
    assert_eq!((plan.start, plan.truncated), (100, false));
    let plan = w.begin_read("a.log", 250);
    assert_eq!((plan.start, plan.truncated), (100, false));
    let plan = w.begin_read("a.log", 99);
    assert_eq!((plan.start, plan.truncated), (0, true));
}

#[test]
fn appended_line_gives_exactly_one_dispatch() {
    let mut w = watcher(vec![("left the game", "on_player_left", None)]);
    let appended = "[00:00:01] [Server thread/INFO]: Steve left the game\n";
    let outcome = w.read_new("/srv/logs/5.log", "5.log", appended.as_bytes());
    let line = outcome.line.expect("a complete line was appended");
    assert_eq!(line.text, "[00:00:01] [Server thread/INFO]: Steve left the game");
    assert_eq!(line.source, Some(5));
    assert_eq!(outcome.actions, vec!["on_player_left"]);
}

#[test]
fn both_matching_triggers_are_invoked() {
    let mut w = watcher(vec![
        ("joined the game", "on_player_joined", None),
        ("broken(", "on_test", None),
        ("Bob", "on_test", Some(vec![5])),
        ("Bob", "on_player_death", Some(vec![7])),
    ]);
    assert_eq!(w.triggers.len(), 3);
    let outcome = w.read_new("5.log", "5.log", b"[12:00:00] [Server thread/INFO]: Bob joined the game\n");
    assert_eq!(outcome.actions, vec!["on_player_joined", "on_test"]);
}

#[test]
fn file_without_a_number_fires_unscoped_triggers_only() {
    let triggers = watcher(vec![
        ("joined", "everywhere", None),
        ("joined", "on_five", Some(vec![5])),
    ])
    .triggers;
    let outcome = process_chunk(&triggers, b"Bob joined\n", "latest.log");
    let line = outcome.line.expect("a complete line");
    assert_eq!(line.source, None);
    assert_eq!(line.text, "Bob joined");
    assert_eq!(outcome.actions, vec!["everywhere"]);
    let outcome = process_chunk(&triggers, b"Bob joined\n", "5.log");
    assert_eq!(outcome.actions, vec!["everywhere", "on_five"]);
}

#[test]
fn source_accompanies_a_line_that_no_trigger_matches() {
    let outcome = process_chunk(&Vec::new(), b"quiet\npartial", "12.log");
    let line = outcome.line.expect("the line before the tail");
    assert_eq!((line.source, line.text.as_str()), (Some(12), "quiet"));
    assert!(outcome.actions.is_empty());
}

#[test]
fn utf16_chunk_is_decoded_before_matching() {
    let triggers = watcher(vec![("left the game", "on_player_left", None)]).triggers;
    let mut bytes: Vec<u8> = vec![0xFF, 0xFE];
    for unit in "Zoé left the game\r\n".encode_utf16() {
        bytes.push((unit & 0xFF) as u8);
        bytes.push((unit >> 8) as u8);
    }
    let outcome = process_chunk(&triggers, &bytes, "3.log");
    assert_eq!(outcome.line.map(|l| l.text), Some("Zoé left the game".to_string()));
    assert_eq!(outcome.actions, vec!["on_player_left"]);
}

#[test]
fn changes_are_sorted_by_kind_and_extension() {
    let mut w = watcher(vec![]);
    assert_eq!(w.on_change(ChangeKind::Created, "/l/5.log", "5.log"), Command::Read);
    assert_eq!(w.on_change(ChangeKind::Modified, "/l/5.log", "5.log"), Command::Read);
    assert_eq!(w.on_change(ChangeKind::Other, "/l/5.log", "5.log"), Command::Skip);
    assert_eq!(w.on_change(ChangeKind::Modified, "/l/5.txt", "5.txt"), Command::Skip);
    assert_eq!(w.on_change(ChangeKind::Removed, "/l/5.txt", "5.txt"), Command::Skip);
    assert_eq!(w.on_change(ChangeKind::Removed, "/l/5.log", "5.log"), Command::Forget);
}

#[test]
fn removed_file_loses_its_offset() {
    let mut w = watcher(vec![]);
    w.read_new("/l/5.log", "5.log", b"abc\n");
    w.read_new("/l/6.log", "6.log", b"abcdef\n");
    assert_eq!(w.on_change(ChangeKind::Removed, "/l/5.log", "5.log"), Command::Forget);
    assert_eq!(w.offsets.get("/l/5.log"), None);
    assert_eq!(w.offsets.get("/l/6.log"), Some(7));
    assert_eq!(w.offsets.len(), 1);
    let outcome = w.read_new("/l/5.log", "5.log", b"abc\n");
    assert_eq!(outcome.line.map(|l| l.text), Some("abc".to_string()));
}

#[test]
fn only_a_channel_failure_is_waited_out() {
    assert_eq!(backoff_seconds(WatchFailure::Channel), 1);
    assert_eq!(backoff_seconds(WatchFailure::Watcher), 0);
}
