use ai_translator::cancel::{clear_cancelled, is_cancelled, CancellationSet};
use ai_translator::prompts::{create_formatted_prompt, create_summary_prompt, format_stream_error, Operation};
use ai_translator::run::{start_run, RunKind, RunSettings, RunStart, RunStep, StreamUpdate};
use ai_translator::stream::{
    filter_thoughts, parse_sse_delta, sse_error_outcome, sse_payload_of, stream_display,
    ChunkStream, LineBuffer, StreamRead,
};

#[test]
fn sse_payloads() {
    assert_eq!(sse_payload_of("  data: {\"a\":1}  \n"), Some("{\"a\":1}".to_string()));
    assert_eq!(sse_payload_of("data:[DONE]"), None);
    assert_eq!(sse_payload_of(": keep-alive"), None);
    assert_eq!(sse_payload_of("event: message"), None);
    assert_eq!(sse_payload_of("   "), None);
}

#[test]
fn sse_content_delta() {
    let line = "data: {\"choices\":[{\"delta\":{\"content\":\"Hi\"}}]}\n";
    assert_eq!(parse_sse_delta(line), Ok(Some("Hi".to_string())));
    let line = "data: {\"choices\":[{\"delta\":{\"role\":\"assistant\"}}]}";
    assert_eq!(parse_sse_delta(line), Ok(None));
    assert_eq!(parse_sse_delta("data: [DONE]"), Ok(None));
    assert_eq!(parse_sse_delta(""), Ok(None));
}

#[test]
fn sse_errors() {
    assert_eq!(
        parse_sse_delta("data: {\"error\":{\"message\":\"bad key\"}}"),
        Err("bad key".to_string())
    );
    assert!(parse_sse_delta("data: not json").is_err());
    assert_eq!(sse_error_outcome(Ok(None)), None);
    assert_eq!(sse_error_outcome(Ok(Some("m".to_string()))), Some(Err("m".to_string())));
    assert_eq!(sse_error_outcome(Err("p".to_string())), Some(Err("p".to_string())));
}

#[test]
fn thinking_blocks_are_removed() {
    assert_eq!(filter_thoughts("<think>hmm</think> Hello "), "Hello");
    assert_eq!(filter_thoughts("Answer <thought>partial"), "Answer");
    assert_eq!(
        filter_thoughts("a<think>x\ny</think>b<thought>z</thought>c<think>open"),
        "abc"
    );
    assert_eq!(filter_thoughts("plain"), "plain");
    assert_eq!(filter_thoughts("  spaced out \n"), "spaced out");
    assert_eq!(filter_thoughts("<thought>never closed\n\nstill thinking"), "");
    assert_eq!(filter_thoughts("keep <b>bold</b> and <thin>"), "keep <b>bold</b> and <thin>");
}

#[test]
fn filtering_thinking_blocks_twice_changes_nothing() {
    for text in [
        "<think>a</think> x <thought>b",
        "  plain  ",
        "</think> stray close",
        "a<think>b</think>c<think>d</think>e",
        "",
    ] {
        let once = filter_thoughts(text);
        assert!(!once.contains("<think>") && !once.contains("<thought>"));
        assert_eq!(once.trim(), once);
        assert_eq!(filter_thoughts(&once), once);
    }
}

#[test]
fn streamed_display() {
    assert_eq!(stream_display("Prev\n\n", "<think>x</think>Hi "), "Prev\n\nHi");
    assert_eq!(stream_display("", "<thought>still going"), "");
}

#[test]
fn line_buffer_splits_lines() {
    let mut b = LineBuffer::new();
    b.push_text("data: a\nda");
    assert_eq!(b.next_line(), Some("data: a\n".to_string()));
    assert_eq!(b.next_line(), None);
    b.push_text("ta: b\n\n");
    assert_eq!(b.next_line(), Some("data: b\n".to_string()));
    assert_eq!(b.next_line(), Some("\n".to_string()));
    assert_eq!(b.remainder(), None);
    b.push_text("tail");
    assert_eq!(b.next_line(), None);
    assert_eq!(b.remainder(), Some("tail".to_string()));
}

#[test]
fn cancellation_set() {
    let mut s = CancellationSet::new();
    assert!(!is_cancelled(&s, "t1"));
    s.cancel_task("t1".to_string());
    s.cancel_task("t1".to_string());
    s.cancel_task("t2".to_string());
    assert!(is_cancelled(&s, "t1"));
    assert!(is_cancelled(&s, "t2"));
    clear_cancelled(&mut s, "t1");
    assert!(!is_cancelled(&s, "t1"));
    assert!(is_cancelled(&s, "t2"));
    clear_cancelled(&mut s, "missing");
    assert!(is_cancelled(&s, "t2"));
}

fn settings(original: Option<&str>) -> RunSettings {
    RunSettings {
        source_lang: None,
        target_lang: "English".to_string(),
        provider: "LM Studio".to_string(),
        base_url: "http://localhost:1234/v1".to_string(),
        original_file_name: original.map(|s| s.to_string()),
    }
}

fn check(u: &StreamUpdate, status: &str, output: Option<&str>, progress: Option<&str>, completed: Option<usize>) {
    assert_eq!(u.status, status);
    assert_eq!(u.output.as_deref(), output);
    assert_eq!(u.progress.as_deref(), progress);
    assert_eq!(u.completed_chunks, completed);
}

#[test]
fn blank_text_runs_finish_at_once() {
    match start_run(RunKind::Text(Operation::Translate), "  \n", 10, None, None, settings(None)) {
        RunStart::Finished { update, output, output_path } => {
            check(&update, "done", Some(""), Some(""), None);
            assert_eq!(output, "");
            assert_eq!(output_path, None);
        }
        _ => panic!("expected an immediate finish"),
    }
    match start_run(RunKind::File, "", 10, None, None, settings(None)) {
        RunStart::Finished { update, output, .. } => {
            check(&update, "error", Some("Please upload a file first."), Some("No file content"), None);
            assert_eq!(update.error.as_deref(), Some("Please upload a file first."));
            assert_eq!(output, "Please upload a file first.");
        }
        _ => panic!("expected an immediate finish"),
    }
}

#[test]
fn text_run_step_by_step() {
    let mut run = match start_run(
        RunKind::Text(Operation::Translate),
        "Hello world. Bye now.",
        12,
        None,
        None,
        settings(None),
    ) {
        RunStart::Running { run, update } => {
            assert!(update.is_none());
            run
        }
        _ => panic!("expected a running run"),
    };
    assert_eq!(run.total_chunks(), 3);
    match run.next_step(false) {
        RunStep::Request { prompt, update } => {
            assert_eq!(prompt, create_formatted_prompt("Auto Detect", "English", "Hello "));
            check(&update, "progress", Some(""), Some("Processing chunk 1 of 3..."), None);
        }
        _ => panic!("expected a request"),
    }
    let u = run.on_chunk_done("Bonjour");
    check(&u, "output", Some("Bonjour\n\n"), Some("Completed 1 of 3 chunks."), None);
    match run.next_step(true) {
        RunStep::Stop { update } => {
            check(&update, "cancelled", Some("Bonjour\n\n"), Some("Cancelled"), Some(1))
        }
        _ => panic!("expected a stop"),
    }
    let e = run.on_chunk_error("timeout");
    check(&e, "error", Some("Bonjour\n\n"), Some("Error on chunk 2"), Some(1));
    assert_eq!(
        e.error,
        Some(format_stream_error("LM Studio", "http://localhost:1234/v1", Operation::Translate, 2, "timeout"))
    );
    run.on_chunk_done("monde.");
    let c = run.on_chunk_cancelled("Au re");
    check(&c, "cancelled", Some("Bonjour\n\nmonde.\n\nAu re"), Some("Cancelled"), Some(2));
}

#[test]
fn summary_run_finishes() {
    let mut run = match start_run(
        RunKind::Text(Operation::Summarize),
        "abcdef",
        3,
        None,
        Some("prev ".to_string()),
        settings(None),
    ) {
        RunStart::Running { run, .. } => run,
        _ => panic!("expected a running run"),
    };
    match run.next_step(false) {
        RunStep::Request { prompt, update } => {
            assert_eq!(prompt, create_summary_prompt("abc", "English"));
            check(&update, "progress", Some("prev "), Some("Summarizing chunk 1 of 2..."), None);
        }
        _ => panic!("expected a request"),
    }
    let u = run.on_chunk_done("S1");
    check(&u, "output", Some("prev S1\n\n"), Some("Completed summarizing 1 of 2 chunks."), None);
    run.on_chunk_done("S2");
    match run.next_step(true) {
        RunStep::Finish { update } => {
            check(&update, "done", Some("prev S1\n\nS2\n\n"), Some("Done"), Some(2))
        }
        _ => panic!("expected the finish"),
    }
}

#[test]
fn file_run_saves_and_reports() {
    let mut run = match start_run(RunKind::File, "abcdef", 3, Some(1), Some("X\n\n".to_string()), settings(Some("doc.txt"))) {
        RunStart::Running { run, update } => {
            let u = update.expect("file runs announce their start");
            check(&u, "progress", Some("X\n\n"), Some("Starting translation of 2 chunks..."), Some(1));
            run
        }
        _ => panic!("expected a running run"),
    };
    match run.next_step(false) {
        RunStep::Request { prompt, update } => {
            assert_eq!(prompt, create_formatted_prompt("Auto Detect", "English", "def"));
            check(&update, "progress", Some("X\n\n"), Some("Translating chunk 2 of 2..."), None);
        }
        _ => panic!("expected a request"),
    }
    let e = run.on_chunk_error("raw error");
    assert_eq!(e.error.as_deref(), Some("raw error"));
    run.on_chunk_done("Y");
    match run.next_step(false) {
        RunStep::Save { file_name } => assert_eq!(file_name, "doc_translated.txt"),
        _ => panic!("expected a save"),
    }
    let d = run.saved("/out/doc_translated001.txt".to_string());
    check(&d, "done", Some("X\n\nY\n\n"), Some("Done"), Some(2));
    assert_eq!(d.output_path.as_deref(), Some("/out/doc_translated001.txt"));
}

#[test]
fn start_chunk_is_capped() {
    let run = match start_run(RunKind::Text(Operation::Translate), "abc", 1, Some(10), None, settings(None)) {
        RunStart::Running { run, .. } => run,
        _ => panic!("expected a running run"),
    };
    assert_eq!(run.next_index(), 3);
    assert!(matches!(run.next_step(false), RunStep::Finish { .. }));
}

fn run_to_end(start: Option<usize>, existing: Option<String>) -> String {
    let mut run = match start_run(RunKind::Text(Operation::Translate), "ab cd ef", 3, start, existing, settings(None)) {
        RunStart::Running { run, .. } => run,
        _ => panic!("expected a running run"),
    };
    loop {
        match run.next_step(false) {
            RunStep::Request { prompt, .. } => {
                let i = run.next_index();
                run.on_chunk_done(&format!("T{}:{}", i, prompt.len() % 7));
            }
            RunStep::Finish { .. } => return run.output_text(),
            _ => panic!("unexpected step"),
        }
    }
}

#[test]
fn resumed_run_matches_uninterrupted_run() {
    let full = run_to_end(None, None);
    let mut first = match start_run(RunKind::Text(Operation::Translate), "ab cd ef", 3, None, None, settings(None)) {
        RunStart::Running { run, .. } => run,
        _ => panic!("expected a running run"),
    };
    match first.next_step(false) {
        RunStep::Request { prompt, .. } => {
            first.on_chunk_done(&format!("T0:{}", prompt.len() % 7));
        }
        _ => panic!("expected a request"),
    }
    let resumed = run_to_end(Some(first.next_index()), Some(first.output_text()));
    assert_eq!(resumed, full);
}

#[test]
fn chunk_stream_gathers_content() {
    let mut c = ChunkStream::new();
    c.receive("data: {\"choices\":[{\"delta\":{\"content\":\"He\"}}]}\n: ping\n");
    c.receive("data: {\"choices\":[{\"delta\":{\"content\":\"llo\"}}]}\ndata: [DO");
    assert_eq!(c.next_event(), Some(Ok(Some("He".to_string()))));
    assert_eq!(c.next_event(), Some(Ok(None)));
    assert_eq!(c.next_event(), Some(Ok(Some("Hello".to_string()))));
    assert_eq!(c.next_event(), None);
    assert_eq!(c.output(), "Hello");
    c.receive("NE]");
    assert_eq!(c.next_event(), None);
    assert_eq!(c.finish(), Ok("Hello".to_string()));
    assert!(matches!(c.complete(), Ok(StreamRead::Completed(ref o)) if o == "Hello"));
}

#[test]
fn chunk_stream_stops_or_completes() {
    let mut c = ChunkStream::new();
    c.receive("data: {\"choices\":[{\"delta\":{\"content\":\"<think>hm</think> Hi\"}}]}\n");
    assert_eq!(c.next_event(), Some(Ok(Some("<think>hm</think> Hi".to_string()))));
    assert!(c.stopped(false).is_none());
    assert!(matches!(c.stopped(true), Some(StreamRead::Cancelled(ref o)) if o == "<think>hm</think> Hi"));
    assert!(matches!(c.complete(), Ok(StreamRead::Completed(ref o)) if o == "Hi"));
    let mut e = ChunkStream::new();
    e.receive("data: {\"error\":{\"message\":\"quota\"}}");
    assert!(matches!(e.complete(), Err(ref m) if m == "quota"));
}

#[test]
fn chunk_stream_tail_and_errors() {
    let mut c = ChunkStream::new();
    c.receive("data: {\"choices\":[{\"delta\":{\"content\":\"end\"}}]}");
    assert_eq!(c.next_event(), None);
    assert_eq!(c.finish(), Ok("end".to_string()));
    let mut e = ChunkStream::new();
    e.receive("data: {\"error\":{\"message\":\"quota\"}}\n");
    assert_eq!(e.next_event(), Some(Err("quota".to_string())));
}
