use cargo_limit::collector::Collector;
use cargo_limit::cutoff::{Config, Phase, Tracker};
use cargo_limit::emitter::{exit_code, output_of, render, Chunk};
use cargo_limit::message::{Level, Message, MessageKind};
use cargo_limit::processor::{contains_error, process_messages};

const LOCAL: &str = "path+file:///work/app#0.1.0";
const DEP: &str = "registry+https://github.com/rust-lang/crates.io-index#dep@1.0.0";

fn record(level: &str, text: &str, package: &str) -> String {
    format!(
        "{{\"reason\":\"compiler-message\",\"package_id\":\"{}\",\
         \"target\":{{\"name\":\"app\",\"kind\":[\"bin\"],\"src_path\":\"/work/app/src/main.rs\"}},\
         \"message\":{{\"message\":\"{}\",\"code\":null,\"level\":\"{}\",\"spans\":[],\
         \"children\":[],\"rendered\":\"{}: {}\\n\"}}}}",
        package, text, level, level, text
    )
}

fn config(limit: usize) -> Config {
    Config {
        message_limit: limit,
        time_limit_seconds: 1,
        ascending: true,
        force_warn: false,
        show_deps_warnings: false,
        json_output: false,
    }
}

fn collect(lines: &[String], config: &Config) -> Vec<Message> {
    let mut c = Collector::new(config);
    for (i, line) in lines.iter().enumerate() {
        if c.on_line(line, i as u64) {
            break;
        }
    }
    c.messages
}

fn level(m: &Message) -> Option<Level> {
    match &m.kind {
        MessageKind::CompilerMessage(d) => Some(d.level),
        _ => None,
    }
}

fn count(ms: &[Message], l: Level) -> usize {
    ms.iter().filter(|m| level(m) == Some(l)).count()
}

fn locals() -> Vec<String> {
    vec![LOCAL.to_string()]
}

#[test]
fn classifies_error_record() {
    let m = Message::classify(&record("error", "e1", LOCAL));
    match &m.kind {
        MessageKind::CompilerMessage(d) => {
            assert_eq!(d.level, Level::Error);
            assert_eq!(d.rendered.as_deref(), Some("error: e1\n"));
            assert_eq!(d.package_id, LOCAL);
            assert!(d.span.is_none());
        }
        _ => panic!("not a diagnostic"),
    }
}

#[test]
fn classifies_failure_note_as_note() {
    let m = Message::classify(&record("failure-note", "n", LOCAL));
    assert_eq!(level(&m), Some(Level::Note));
}

#[test]
fn classifies_plain_line_as_unrecognized() {
    let m = Message::classify("   Compiling app v0.1.0");
    assert!(matches!(m.kind, MessageKind::Unrecognized));
    assert_eq!(m.line, "   Compiling app v0.1.0");
}

#[test]
fn classifies_unknown_severity_line_as_unrecognized() {
    let m = Message::classify(&record("catastrophe", "x", LOCAL));
    assert!(matches!(m.kind, MessageKind::Unrecognized));
}

#[test]
fn classifies_build_finished() {
    let m = Message::classify("{\"reason\":\"build-finished\",\"success\":false}");
    assert!(matches!(m.kind, MessageKind::BuildFinished(false)));
}

#[test]
fn classifies_span_of_first_location() {
    let line = "{\"reason\":\"compiler-message\",\"package_id\":\"p\",\
         \"target\":{\"name\":\"app\",\"kind\":[\"bin\"],\"src_path\":\"/w/src/main.rs\"},\
         \"message\":{\"message\":\"m\",\"code\":null,\"level\":\"warning\",\"spans\":[\
         {\"file_name\":\"src/main.rs\",\"byte_start\":1,\"byte_end\":2,\"line_start\":3,\
         \"line_end\":3,\"column_start\":5,\"column_end\":6,\"is_primary\":true,\"text\":[],\
         \"label\":null,\"suggested_replacement\":null,\"suggestion_applicability\":null,\
         \"expansion\":null}],\"children\":[],\"rendered\":\"warning: m\\n\"}}";
    let m = Message::classify(line);
    match &m.kind {
        MessageKind::CompilerMessage(d) => {
            let s = d.span.as_ref().expect("span");
            assert_eq!(s.file, "src/main.rs");
            assert_eq!((s.line, s.column), (3, 5));
            assert_eq!(d.level, Level::Warning);
        }
        _ => panic!("not a diagnostic"),
    }
}

#[test]
fn five_errors_ten_warnings_limit_three() {
    let mut lines: Vec<String> = (0..5).map(|i| record("error", &format!("e{}", i), LOCAL)).collect();
    lines.extend((0..10).map(|i| record("warning", &format!("w{}", i), LOCAL)));
    let mut cfg = config(3);
    cfg.ascending = false;
    let collected = collect(&lines, &cfg);
    let out = process_messages(&collected, &cfg, &locals());
    assert_eq!(count(&out, Level::Error), 3);
    assert_eq!(count(&out, Level::Warning), 0);
    assert_eq!(out.len(), 3);
    assert_eq!(exit_code(Some(1)), 1);
}

#[test]
fn error_then_plain_line() {
    let lines = vec![record("error", "e", LOCAL), "plain log line".to_string()];
    let cfg = config(0);
    let collected = collect(&lines, &cfg);
    assert_eq!(collected.len(), 2);
    let chunks = output_of(&collected, &cfg, &locals());
    assert_eq!(chunks.len(), 2);
    assert_eq!(chunks[0].text, "error: e\n");
    assert!(!chunks[0].newline);
    assert_eq!(chunks[1].text, "plain log line");
    assert!(chunks[1].newline);
    assert_eq!(exit_code(Some(0)), 0);
}

#[test]
fn positive_limit_bounds_diagnostics() {
    let lines: Vec<String> = (0..5).map(|i| record("error", &format!("e{}", i), LOCAL)).collect();
    let msgs: Vec<Message> = lines.iter().map(|l| Message::classify(l)).collect();
    let out = process_messages(&msgs, &config(2), &locals());
    assert_eq!(out.len(), 2);
    assert_eq!(out[0].line, lines[0]);
    assert_eq!(out[1].line, lines[1]);
}

#[test]
fn zero_limit_keeps_all() {
    let lines: Vec<String> = (0..5).map(|i| record("error", &format!("e{}", i), LOCAL)).collect();
    let mut cfg = config(0);
    cfg.time_limit_seconds = 0;
    let collected = collect(&lines, &cfg);
    assert_eq!(collected.len(), 5);
    assert_eq!(process_messages(&collected, &cfg, &locals()).len(), 5);
}

#[test]
fn truncation_keeps_other_messages() {
    let lines = vec![
        record("error", "a", LOCAL),
        "text".to_string(),
        record("error", "b", LOCAL),
        "{\"reason\":\"build-finished\",\"success\":false}".to_string(),
    ];
    let msgs: Vec<Message> = lines.iter().map(|l| Message::classify(l)).collect();
    let out = process_messages(&msgs, &config(1), &locals());
    let kept: Vec<&str> = out.iter().map(|m| m.line.as_str()).collect();
    assert_eq!(kept, vec![lines[0].as_str(), "text", lines[3].as_str()]);
}

#[test]
fn time_cutoff_after_first_error() {
    let mut t = Tracker::new(&config(0));
    t.observe(false, false, 0);
    assert_eq!(t.phase, Phase::Collecting);
    t.observe(true, true, 500);
    assert_eq!(t.phase, Phase::ArmedAfterError(1500));
    t.observe(true, false, 1499);
    assert_eq!(t.phase, Phase::ArmedAfterError(1500));
    t.observe(false, false, 1500);
    assert_eq!(t.phase, Phase::Stopped);
    assert_eq!(t.count, 2);
}

#[test]
fn zero_time_limit_never_arms() {
    let mut cfg = config(0);
    cfg.time_limit_seconds = 0;
    let mut t = Tracker::new(&cfg);
    for now in [0u64, 10, 5000, 1_000_000] {
        t.observe(true, true, now);
        assert_eq!(t.phase, Phase::Collecting);
    }
}

#[test]
fn count_cutoff_stops_collection() {
    let mut t = Tracker::new(&config(2));
    t.observe(true, false, 0);
    assert!(!t.stopped());
    t.observe(false, false, 0);
    assert!(!t.stopped());
    t.observe(true, false, 0);
    assert!(t.stopped());
    t.observe(true, true, 0);
    assert_eq!(t.count, 2);
}

#[test]
fn huge_time_limit_saturates_deadline() {
    let mut cfg = config(0);
    cfg.time_limit_seconds = u64::MAX;
    let mut t = Tracker::new(&cfg);
    t.observe(true, true, 7);
    assert_eq!(t.phase, Phase::ArmedAfterError(u64::MAX));
}

#[test]
fn dependency_warnings_hidden_or_shown() {
    let lines = vec![record("warning", "mine", LOCAL), record("warning", "theirs", DEP)];
    let msgs: Vec<Message> = lines.iter().map(|l| Message::classify(l)).collect();
    let hidden = process_messages(&msgs, &config(0), &locals());
    assert_eq!(hidden.len(), 1);
    assert_eq!(hidden[0].line, lines[0]);
    let mut cfg = config(0);
    cfg.show_deps_warnings = true;
    assert_eq!(process_messages(&msgs, &cfg, &locals()).len(), 2);
}

#[test]
fn dependency_errors_always_kept() {
    let msgs = vec![Message::classify(&record("error", "theirs", DEP))];
    assert_eq!(process_messages(&msgs, &config(0), &locals()).len(), 1);
}

#[test]
fn errors_hide_warnings_unless_forced() {
    let lines = vec![record("warning", "w", LOCAL), record("error", "e", LOCAL)];
    let msgs: Vec<Message> = lines.iter().map(|l| Message::classify(l)).collect();
    assert!(contains_error(&msgs));
    let out = process_messages(&msgs, &config(0), &locals());
    assert_eq!(count(&out, Level::Warning), 0);
    assert_eq!(count(&out, Level::Error), 1);
    let mut cfg = config(0);
    cfg.force_warn = true;
    let forced = process_messages(&msgs, &cfg, &locals());
    assert_eq!(count(&forced, Level::Warning), 1);
    assert_eq!(count(&forced, Level::Error), 1);
}

#[test]
fn warnings_kept_without_errors() {
    let msgs = vec![Message::classify(&record("warning", "w", LOCAL))];
    assert!(!contains_error(&msgs));
    assert_eq!(process_messages(&msgs, &config(0), &locals()).len(), 1);
}

#[test]
fn duplicates_collapse_to_first() {
    let lines = vec![
        record("error", "same", LOCAL),
        record("error", "other", LOCAL),
        record("error", "same", DEP),
    ];
    let msgs: Vec<Message> = lines.iter().map(|l| Message::classify(l)).collect();
    let out = process_messages(&msgs, &config(0), &locals());
    assert_eq!(out.len(), 2);
    assert_eq!(out[0].line, lines[0]);
    assert_eq!(out[1].line, lines[1]);
}

#[test]
fn descending_order_reverses() {
    let lines = vec![record("error", "a", LOCAL), record("error", "b", LOCAL), "t".to_string()];
    let msgs: Vec<Message> = lines.iter().map(|l| Message::classify(l)).collect();
    let mut cfg = config(0);
    cfg.ascending = false;
    let out = process_messages(&msgs, &cfg, &locals());
    let order: Vec<&str> = out.iter().map(|m| m.line.as_str()).collect();
    assert_eq!(order, vec!["t", lines[1].as_str(), lines[0].as_str()]);
}

#[test]
fn structured_records_round_trip() {
    let lines = vec![
        record("error", "e", LOCAL),
        "{\"reason\":\"build-finished\",\"success\":true}".to_string(),
    ];
    let msgs: Vec<Message> = lines.iter().map(|l| Message::classify(l)).collect();
    let chunks: Vec<Chunk> = render(&msgs, true);
    assert_eq!(chunks.len(), 2);
    for (c, m) in chunks.iter().zip(msgs.iter()) {
        assert!(c.newline);
        let back = Message::classify(&c.text);
        assert_eq!(back.line, m.line);
        assert_eq!(level(&back), level(m));
    }
    assert!(matches!(Message::classify(&chunks[1].text).kind, MessageKind::BuildFinished(true)));
}

#[test]
fn text_mode_shows_only_rendered_and_plain() {
    let lines = vec![
        record("error", "e", LOCAL),
        "{\"reason\":\"build-finished\",\"success\":false}".to_string(),
        "raw".to_string(),
    ];
    let msgs: Vec<Message> = lines.iter().map(|l| Message::classify(l)).collect();
    let chunks = render(&msgs, false);
    let texts: Vec<&str> = chunks.iter().map(|c| c.text.as_str()).collect();
    assert_eq!(texts, vec!["error: e\n", "raw"]);
}

#[test]
fn unknown_exit_status_is_sentinel() {
    assert_eq!(exit_code(None), 127);
    assert_eq!(exit_code(Some(101)), 101);
}
