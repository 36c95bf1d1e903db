use crossterm::capability::EscapeCommand;
use crossterm::capability::NativeCommand;
use crossterm::dispatch::execute;
use crossterm::dispatch::queue;
use crossterm::error::ErrorKind;
use crossterm::error::IoOrigin;
use crossterm::sink::FailingSink;
use crossterm::sink::MemSink;

fn esc(form: &str) -> EscapeCommand {
    EscapeCommand::new(form.as_bytes().to_vec())
}

fn native(form: &str) -> NativeCommand {
    NativeCommand::new(form.as_bytes().to_vec())
}

fn contents_of(sink: &MemSink) -> String {
    String::from_utf8(sink.contents().clone()).unwrap()
}

// Checks that a batch of native-path capabilities went through the native
// call path, in order, and left the writer untouched.
fn assert_native_stream(sink: &MemSink, caps: &[NativeCommand], stream: &[&str]) {
    assert_eq!(contents_of(sink), "");
    assert_eq!(caps.len(), stream.len());
    for (cap, expected) in caps.iter().zip(stream.iter()) {
        assert_eq!(cap.performed_count(), 1, "native path not taken for {expected}");
    }
}

#[test]
fn test_queue_one() {
    let mut result = MemSink::new();
    queue(&mut result, &mut vec![esc("cmd")]).unwrap();
    assert_eq!(contents_of(&result), "cmd");
    assert!(!result.is_flushed());
}

#[test]
fn test_queue_many() {
    let mut result = MemSink::new();
    queue(&mut result, &mut vec![esc("cmd"), esc("cmd")]).unwrap();
    assert_eq!(contents_of(&result), "cmdcmd");
    assert!(!result.is_flushed());
}

#[test]
fn test_queue_trailing_comma() {
    let mut result = MemSink::new();
    queue(&mut result, &mut vec![esc("cmd"), esc("cmd"),]).unwrap();
    assert_eq!(contents_of(&result), "cmdcmd");
    assert!(!result.is_flushed());
}

#[test]
fn test_execute_one() {
    let mut result = MemSink::new();
    execute(&mut result, &mut vec![esc("cmd")]).unwrap();
    assert_eq!(contents_of(&result), "cmd");
    assert!(result.is_flushed());
}

#[test]
fn test_execute_many() {
    let mut result = MemSink::new();
    execute(&mut result, &mut vec![esc("cmd"), esc("cmd")]).unwrap();
    assert_eq!(contents_of(&result), "cmdcmd");
    assert!(result.is_flushed());
}

#[test]
fn test_execute_trailing_comma() {
    let mut result = MemSink::new();
    execute(&mut result, &mut vec![esc("cmd"), esc("cmd"),]).unwrap();
    assert_eq!(contents_of(&result), "cmdcmd");
    assert!(result.is_flushed());
}

#[test]
fn macros_test_queue_one() {
    let mut writer = MemSink::new();
    let mut caps = vec![native("cmd1")];
    queue(&mut writer, &mut caps).unwrap();
    assert_native_stream(&writer, &caps, &["cmd1"]);
}

#[test]
fn test_queue_some() {
    let mut writer = MemSink::new();
    let mut caps = vec![native("cmd1"), native("cmd2")];
    queue(&mut writer, &mut caps).unwrap();
    assert_native_stream(&writer, &caps, &["cmd1", "cmd2"]);
}

#[test]
fn test_many_queues() {
    let mut writer = MemSink::new();
    let mut first = vec![native("cmd1")];
    let mut second = vec![native("cmd2")];
    let mut third = vec![native("cmd3")];
    queue(&mut writer, &mut first).unwrap();
    queue(&mut writer, &mut second).unwrap();
    queue(&mut writer, &mut third).unwrap();
    assert_eq!(contents_of(&writer), "");
    assert_eq!(first[0].performed_count(), 1);
    assert_eq!(second[0].performed_count(), 1);
    assert_eq!(third[0].performed_count(), 1);
}

#[test]
fn queue_and_execute_write_the_same_pair() {
    let mut queued = MemSink::new();
    queue(&mut queued, &mut vec![esc("cmdA"), esc("cmdB")]).unwrap();
    assert_eq!(contents_of(&queued), "cmdAcmdB");
    assert!(!queued.is_flushed());

    let mut executed = MemSink::new();
    execute(&mut executed, &mut vec![esc("cmdA"), esc("cmdB")]).unwrap();
    assert_eq!(contents_of(&executed), "cmdAcmdB");
    assert!(executed.is_flushed());
}

#[test]
fn unsupported_capability_leaves_the_sink_unchanged() {
    let mut sink = MemSink::new();
    let mut caps = vec![native("n")];
    queue(&mut sink, &mut caps).unwrap();
    assert_eq!(contents_of(&sink), "");
    assert_eq!(caps[0].performed_count(), 1);
}

#[test]
fn native_path_runs_between_escape_writes() {
    let mut sink = MemSink::new();
    let mut a = vec![esc("a")];
    let mut n = vec![native("nat")];
    let mut b = vec![esc("b")];
    queue(&mut sink, &mut a).unwrap();
    queue(&mut sink, &mut n).unwrap();
    queue(&mut sink, &mut b).unwrap();
    assert_eq!(contents_of(&sink), "ab");
    assert_eq!(n[0].performed_count(), 1);
}

#[test]
fn legacy_fallback_emission_collapses_queue_into_execute() {
    let mut sink = MemSink::new();
    let mut caps = vec![NativeCommand::with_fallback_emission("legacy".as_bytes().to_vec())];
    queue(&mut sink, &mut caps).unwrap();
    assert_eq!(contents_of(&sink), "legacy");
    assert!(sink.is_flushed());
    assert_eq!(caps[0].performed_count(), 1);
}

#[test]
fn write_failure_aborts_the_rest_of_the_batch() {
    let mut sink = FailingSink::new(1, false, 7);
    let mut caps = vec![esc("cmdA"), esc("cmdB"), esc("cmdC")];
    let r = queue(&mut sink, &mut caps);
    assert_eq!(r, Err(ErrorKind::Io { origin: IoOrigin::Write, code: 7 }));
    assert_eq!(String::from_utf8(sink.contents().clone()).unwrap(), "cmdA");
}

#[test]
fn execute_does_not_flush_after_a_write_failure() {
    let mut sink = FailingSink::new(0, false, 3);
    let mut caps = vec![esc("cmd")];
    let r = execute(&mut sink, &mut caps);
    assert_eq!(r, Err(ErrorKind::Io { origin: IoOrigin::Write, code: 3 }));
    assert_eq!(sink.contents().len(), 0);
}

#[test]
fn flush_failure_is_reported_as_its_own_origin() {
    let mut sink = FailingSink::new(10, true, 9);
    let mut caps = vec![esc("x")];
    let r = execute(&mut sink, &mut caps);
    assert_eq!(r, Err(ErrorKind::Io { origin: IoOrigin::Flush, code: 9 }));
    assert_eq!(String::from_utf8(sink.contents().clone()).unwrap(), "x");
}

#[test]
fn native_failure_aborts_the_rest_of_the_batch() {
    let mut sink = MemSink::new();
    let mut failing = vec![NativeCommand::failing("n".as_bytes().to_vec(), 5)];
    let r = queue(&mut sink, &mut failing);
    assert_eq!(r, Err(ErrorKind::Native { code: 5 }));
    assert_eq!(contents_of(&sink), "");
    assert_eq!(failing[0].performed_count(), 1);
}

#[test]
fn empty_batches_succeed() {
    let mut sink = MemSink::new();
    let mut none: Vec<EscapeCommand> = Vec::new();
    queue(&mut sink, &mut none).unwrap();
    assert_eq!(contents_of(&sink), "");
    assert!(!sink.is_flushed());
    execute(&mut sink, &mut none).unwrap();
    assert_eq!(contents_of(&sink), "");
    assert!(sink.is_flushed());
}
