use ultramcp::lines::{split_stream, LineScanner};
use ultramcp::outcome::{run_outcome, streaming_outcome, ExitEvent};

fn exited(success: bool, stdout: &[u8], stderr: &[u8]) -> ExitEvent {
    ExitEvent::Exited { success, stdout: stdout.to_vec(), stderr: stderr.to_vec() }
}

#[test]
fn run_success_returns_stdout_text() {
    let r = run_outcome(exited(true, b"hello\n", b""));
    assert_eq!(r, Ok("hello\n".to_string()));
}

#[test]
fn run_failure_returns_stderr_text() {
    let r = run_outcome(exited(false, b"partial out\n", b"make: *** [target] Error 1\n"));
    assert_eq!(r, Err("make: *** [target] Error 1\n".to_string()));
}

#[test]
fn run_success_replaces_invalid_utf8() {
    let r = run_outcome(exited(true, &[0xff, 0x68, 0x69], b""));
    assert_eq!(r, Ok("\u{FFFD}hi".to_string()));
}

#[test]
fn run_failure_replaces_invalid_utf8_in_stderr() {
    let r = run_outcome(exited(false, b"", &[0x62, 0x61, 0x64, 0xC0]));
    assert_eq!(r, Err("bad\u{FFFD}".to_string()));
}

#[test]
fn run_spawn_failure_is_distinct_diagnostic() {
    let r = run_outcome(ExitEvent::SpawnFailed(
        "No such file or directory (os error 2)".to_string(),
    ));
    let err = r.expect_err("spawn failure must fail");
    assert!(err.contains("Failed to spawn command"));
    assert_eq!(err, "Failed to spawn command: No such file or directory (os error 2)");
}

#[test]
fn run_wait_failure_is_distinct_diagnostic() {
    let r = run_outcome(ExitEvent::WaitFailed("interrupted (os error 4)".to_string()));
    assert_eq!(r, Err("Failed to execute command: interrupted (os error 4)".to_string()));
}

#[test]
fn run_is_deterministic_for_identical_events() {
    let a = run_outcome(exited(true, b"same output\n", b""));
    let b = run_outcome(exited(true, b"same output\n", b""));
    assert_eq!(a, b);
    let c = run_outcome(exited(false, b"", b"same error"));
    let d = run_outcome(exited(false, b"", b"same error"));
    assert_eq!(c, d);
}

#[test]
fn streaming_success_returns_acknowledgement() {
    let r = streaming_outcome(exited(true, b"", b""));
    assert_eq!(r, Ok("Command completed successfully".to_string()));
}

#[test]
fn streaming_failure_returns_stderr_text() {
    let r = streaming_outcome(exited(false, b"", b"stream blew up\n"));
    assert_eq!(r, Err("stream blew up\n".to_string()));
}

#[test]
fn streaming_spawn_and_wait_diagnostics() {
    let s = streaming_outcome(ExitEvent::SpawnFailed("denied".to_string()));
    assert_eq!(s, Err("Failed to spawn streaming command: denied".to_string()));
    let w = streaming_outcome(ExitEvent::WaitFailed("lost".to_string()));
    assert_eq!(w, Err("Failed to complete streaming command: lost".to_string()));
}

fn collect_lines(chunks: &[&[u8]]) -> (Vec<String>, Option<String>) {
    let mut scanner = LineScanner::new();
    let mut lines: Vec<String> = Vec::new();
    for chunk in chunks {
        lines.extend(scanner.push_chunk(chunk));
    }
    let tail = scanner.finish();
    (lines, tail)
}

#[test]
fn stream_three_lines_then_failure() {
    let (lines, tail) = collect_lines(&[b"alpha\nbeta\n", b"gamma\n"]);
    assert_eq!(lines, vec!["alpha", "beta", "gamma"]);
    assert_eq!(tail, None);
    let r = streaming_outcome(exited(false, b"", b"exit status 1"));
    assert_eq!(r, Err("exit status 1".to_string()));
}

#[test]
fn stream_lines_split_across_chunks() {
    let (lines, tail) = collect_lines(&[b"al", b"pha\nbe", b"ta", b"\ngam"]);
    assert_eq!(lines, vec!["alpha", "beta"]);
    assert_eq!(tail, Some("gam".to_string()));
}

#[test]
fn stream_strips_carriage_return_before_newline() {
    let (lines, tail) = collect_lines(&[b"one\r\ntwo\n"]);
    assert_eq!(lines, vec!["one", "two"]);
    assert_eq!(tail, None);
}

#[test]
fn stream_keeps_carriage_return_without_newline() {
    let (lines, tail) = collect_lines(&[b"one\r"]);
    assert_eq!(lines, Vec::<String>::new());
    assert_eq!(tail, Some("one\r".to_string()));
}

#[test]
fn stream_empty_input_delivers_nothing() {
    let (lines, tail) = collect_lines(&[b""]);
    assert_eq!(lines, Vec::<String>::new());
    assert_eq!(tail, None);
}

#[test]
fn stream_bare_newline_is_one_empty_line() {
    let (lines, tail) = collect_lines(&[b"\n"]);
    assert_eq!(lines, vec![""]);
    assert_eq!(tail, None);
}

#[test]
fn split_stream_yields_whole_transcript() {
    assert_eq!(split_stream(b"alpha\r\nbeta\nga"), vec!["alpha", "beta", "ga"]);
    assert_eq!(split_stream(b""), Vec::<String>::new());
    assert_eq!(split_stream(b"\n\n"), vec!["", ""]);
}

#[test]
fn stream_decodes_each_line_lossily() {
    let (lines, tail) = collect_lines(&[&[0xffu8, 0x41, 0x0a, 0x42][..]]);
    assert_eq!(lines, vec!["\u{FFFD}A"]);
    assert_eq!(tail, Some("B".to_string()));
}
