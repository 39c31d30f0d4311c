use std::path::Path;

use token_monitor::atomcode::aggregate::to_millis;
use token_monitor::atomcode::per_call::SessionFile;
use token_monitor::atomcode::prompt::{extract_model_from_messages, extract_model_from_prompt};
use token_monitor::atomcode::scan::{wants_entry, WalkedEntry};
use token_monitor::atomcode::session::{
    is_aggregate, parse_session, per_call_session, session_outcome, SessionOutcome,
};
use token_monitor::atomcode::stamps::{line_document, load_turn_timestamps};
use token_monitor::atomcode::unified::{parse_atomcode_file, TokenBreakdown, UnifiedMessage};
use token_monitor::atomcode::{
    sessions_suffix, AtomCodeJsonlLine, AtomCodeMeta, AtomCodeModelUsage, AtomCodeSource,
    AtomCodeTokens, AtomCodeTurnStat,
};
use token_monitor::files::{file_error_text, FileStat};
use token_monitor::json::{parse_json, Json};
use token_monitor::model::{
    Provider, ProviderConfig, ProviderError, ScanOutput, ScanRoot, UsageRecord,
};
use token_monitor::scan::ScannedFile;

const DEFAULT_MODEL: &str = "unknown";

fn text(json: &Json, key: &str) -> Option<String> {
    json.text_at(key).map(|s| s.to_string())
}

fn list<'a>(json: &'a Json, key: &str) -> Vec<&'a Json> {
    json.items_at(key)
        .map(|items| items.iter().collect())
        .unwrap_or_default()
}

fn meta_of(json: &Json) -> AtomCodeMeta {
    AtomCodeMeta {
        id: text(json, "id"),
        working_dir: text(json, "working_dir"),
        created_at: json.integer_at("created_at"),
        updated_at: json.integer_at("updated_at"),
        turn_stats: list(json, "turn_stats")
            .into_iter()
            .map(|turn| AtomCodeTurnStat {
                turn_id: turn.integer_at("turn_id"),
                used_tokens: turn.integer_at("used_tokens"),
                model_usage: list(turn, "model_usage")
                    .into_iter()
                    .map(|call| AtomCodeModelUsage {
                        provider_id: text(call, "provider_id"),
                        model_id: text(call, "model_id"),
                        tokens: call.get("tokens").map(|t| AtomCodeTokens {
                            input: t.integer_at("input"),
                            output: t.integer_at("output"),
                            cached_input: t.integer_at("cached_input"),
                        }),
                    })
                    .collect(),
            })
            .collect(),
    }
}

fn lines_of(jsonl: &str) -> Vec<AtomCodeJsonlLine> {
    jsonl
        .lines()
        .filter_map(line_document)
        .filter_map(|document| parse_json(&document).ok())
        .map(|json| AtomCodeJsonlLine {
            ts: json.integer_at("ts"),
            turn_id: json.integer_at("turn_id"),
        })
        .collect()
}

fn file_at(path: &str) -> SessionFile {
    SessionFile {
        path: format!("{:?}", path),
        stem: Path::new(path)
            .file_stem()
            .and_then(|s| s.to_str())
            .map(|s| s.to_string()),
        rel: path.to_string(),
        mtime_ms: 0,
    }
}

fn entry_at(path: &str, content: &str) -> WalkedEntry {
    let path = Path::new(path);
    WalkedEntry {
        is_file: true,
        extension: path.extension().and_then(|s| s.to_str()).map(|s| s.to_string()),
        stem: path.file_stem().and_then(|s| s.to_str()).map(|s| s.to_string()),
        len: Some(content.len() as u64),
    }
}

fn source() -> AtomCodeSource {
    let mut src = AtomCodeSource::new(ProviderConfig {
        provider: Provider::AtomCode,
        data_dir_override: Some("/home/u/.atomcode/sessions".to_string()),
        ..ProviderConfig::default()
    });
    src.roots(Vec::new());
    src
}

fn read(path: &str, raw: &str, files: &[(&str, &str)]) -> Result<Vec<UsageRecord>, String> {
    let file = file_at(path);
    match parse_session(raw, &file) {
        SessionOutcome::Records(records) => Ok(records),
        SessionOutcome::Failed(message) => Err(message),
        SessionOutcome::StampOverflow => panic!("stamp overflow"),
        SessionOutcome::PerCall => {
            let jsonl = Path::new(path).with_extension("jsonl");
            let lines = files
                .iter()
                .find(|(p, _)| Path::new(p) == jsonl)
                .map(|(_, content)| lines_of(content))
                .unwrap_or_default();
            let meta = parse_json(raw).map(|json| meta_of(&json));
            per_call_session(&meta, &lines, &file, raw.len() as u64)
        }
    }
}

fn scan_collect(files: &[(&str, &str)]) -> (ScanOutput, Vec<UsageRecord>) {
    let src = source();
    let entries: Vec<WalkedEntry> = files.iter().map(|(p, c)| entry_at(p, c)).collect();
    let wanted = src.meta_files(&entries);
    let scanned: Vec<ScannedFile> = files
        .iter()
        .zip(wanted)
        .filter(|(_, wanted)| *wanted)
        .map(|((path, raw), _)| ScannedFile {
            stat: Some(FileStat { len: raw.len() as u64, mtime_secs: Some(7) }),
            records: read(path, raw, files),
        })
        .collect();
    src.scan(&vec![true], scanned).unwrap()
}

const RICH: &str = r#"{
  "id": "sess-1",
  "working_dir": "D:/project/dbpt",
  "created_at": 1787000000000,
  "updated_at": 1787999999999,
  "turn_stats": [
    {
      "turn_id": 1,
      "used_tokens": 27593,
      "model_usage": [
        {
          "provider_id": "AtomGit",
          "model_id": "qwen3.8-27b",
          "tokens": { "input": 64080, "output": 22518, "cached_input": 331776 }
        }
      ]
    }
  ]
}"#;

const RICH_JSONL: &str = r#"{"ts":1787220850248,"session_id":"sess-1","turn_id":1}
"#;

#[test]
fn mod_parses_model_usage_with_jsonl_timestamp() {
    let (out, records) = scan_collect(&[
        ("abc123/sess-1.meta", RICH),
        ("abc123/sess-1.jsonl", RICH_JSONL),
    ]);
    assert!(out.errors.is_empty());
    assert_eq!(out.found_files, 1);
    assert_eq!(records.len(), 1);
    let r = &records[0];
    assert_eq!(r.provider, Provider::AtomCode);
    assert_eq!(r.project, "dbpt");
    assert_eq!(r.session_id, "sess-1");
    assert_eq!(r.usage.model, "qwen3.8-27b");
    assert_eq!(r.usage.started_at, 1787220850248);
    assert_eq!(r.usage.input_tokens, 64080);
    assert_eq!(r.usage.output_tokens, 22518);
    assert_eq!(r.usage.cache_read_tokens, 331776);
    assert_eq!(r.usage.cost_micros, 0);
}

#[test]
fn earliest_jsonl_timestamp_wins_per_turn() {
    let (_out, records) = scan_collect(&[
        (
            "abc123/sess-6.meta",
            r#"{
  "id": "sess-6",
  "updated_at": 1787999999999,
  "turn_stats": [
    { "turn_id": 4, "model_usage": [ { "model_id": "m", "tokens": { "input": 5 } } ] }
  ]
}"#,
        ),
        (
            "abc123/sess-6.jsonl",
            "{\"ts\":1787300000000,\"turn_id\":4}\n{\"ts\":1787200000000,\"turn_id\":4}\n",
        ),
    ]);
    assert_eq!(records.len(), 1);
    assert_eq!(records[0].usage.started_at, 1787200000000);
}

const WITHOUT_JSONL: &str = r#"{
  "id": "sess-2",
  "updated_at": 1787100000000,
  "turn_stats": [
    { "turn_id": 7, "model_usage": [ { "model_id": "GLM-5.2", "tokens": { "input": 10, "output": 2 } } ] }
  ]
}"#;

#[test]
fn mod_falls_back_to_session_timestamp_without_jsonl() {
    let (out, records) = scan_collect(&[("abc123/sess-2.meta", WITHOUT_JSONL)]);
    assert!(out.errors.is_empty());
    assert_eq!(records.len(), 1);
    assert_eq!(records[0].usage.started_at, 1787100000000);
    assert_eq!(records[0].usage.cache_read_tokens, 0);
}

#[test]
fn rich_meta_with_total_tokens_keeps_cache_read() {
    let meta = r#"{
  "v": 1,
  "id": "sess-rich",
  "working_dir": "E:/project/dbpt-zw",
  "created_at": 1787319280476,
  "updated_at": 1787321147793,
  "turn_count": 3,
  "turn_stats": [
    {
      "turn_id": 1,
      "total_tokens": 36857,
      "used_tokens": 34060,
      "model_usage": [
        { "provider_id": "AtomGit", "model_id": "LongCat-2.0",
          "tokens": { "input": 44206, "output": 1272, "cached_input": 170240 } }
      ]
    },
    {
      "turn_id": 2,
      "total_tokens": 40758,
      "used_tokens": 40610,
      "model_usage": [
        { "provider_id": "AtomGit", "model_id": "LongCat-2.0",
          "tokens": { "input": 5370, "output": 4331, "cached_input": 306304 } }
      ]
    }
  ]
}"#;
    let (out, records) = scan_collect(&[("114d687823ac7f89/sess-rich.meta", meta)]);
    assert!(out.errors.is_empty());
    assert_eq!(records.len(), 2);
    for r in &records {
        assert_eq!(r.provider, Provider::AtomCode);
        assert_eq!(r.project, "dbpt-zw");
        assert_eq!(r.usage.model, "LongCat-2.0");
    }
    assert_eq!(records[0].usage.cache_read_tokens, 170240);
    assert_eq!(records[0].usage.input_tokens, 44206);
    assert_eq!(records[0].usage.output_tokens, 1272);
    assert_eq!(records[1].usage.cache_read_tokens, 306304);
    assert_ne!(records[0].usage.input_tokens, 36857);
}

const UNCALLED: &str = r#"{
  "id": "sess-3",
  "updated_at": 1787100000000,
  "turn_stats": [
    { "turn_id": 1, "used_tokens": 27593, "model_usage": [] },
    { "turn_id": 2, "used_tokens": 0, "model_usage": [] }
  ]
}"#;

#[test]
fn mod_legacy_turn_without_model_usage_is_not_dropped() {
    let (out, records) = scan_collect(&[("abc123/sess-3.meta", UNCALLED)]);
    assert!(out.errors.is_empty());
    assert_eq!(records.len(), 1);
    assert_eq!(records[0].usage.model, DEFAULT_MODEL);
    assert_eq!(records[0].usage.input_tokens, 27593);
    assert!(records[0].fingerprint.ends_with(":1:legacy"));
}

#[test]
fn malformed_meta_is_reported_not_fatal() {
    let (out, records) = scan_collect(&[("abc123/sess-4.meta", "{ this is not json")]);
    assert_eq!(out.found_files, 1);
    assert_eq!(out.errors.len(), 1);
    assert!(records.is_empty());
}

#[test]
fn ignores_snapshot_files() {
    let (out, records) = scan_collect(&[(
        "abc123/sess-5.snapshot",
        r#"{"model":"x","input":9999,"output":9999}"#,
    )]);
    assert!(out.errors.is_empty());
    assert_eq!(out.found_files, 0);
    assert!(records.is_empty());
}

const NEW_JSON: &str = r#"{
  "id": "sess-json",
  "working_dir": "E:/project/dbpt-dw",
  "created_at": 1784268744,
  "updated_at": 1784268768,
  "messages": [
    { "role": "System", "content": { "Text": "You are AtomCode, an AI coding agent by AtomGit running the deepseek-v4-flash model. Never claim to be another model." } },
    { "role": "User", "content": { "Text": "hi" } }
  ],
  "turn_stats": [
    { "turn_count": 1, "total_tokens": 12345, "errored": false },
    { "turn_count": 2, "total_tokens": 0, "errored": true },
    { "turn_count": 3, "total_tokens": 678 }
  ]
}"#;

#[test]
fn parses_new_json_format_model_from_prompt() {
    let (_out, records) = scan_collect(&[("48d39d236dcc56e0/sess-json.json", NEW_JSON)]);
    assert_eq!(records.len(), 2);
    for r in &records {
        assert_eq!(r.provider, Provider::AtomCode);
        assert_eq!(r.project, "dbpt-dw");
        assert_eq!(r.session_id, "sess-json");
        assert_eq!(r.usage.model, "deepseek-v4-flash");
    }
    assert_eq!(records[0].usage.input_tokens, 12345);
    assert_eq!(records[1].usage.input_tokens, 678);
    assert_eq!(records[0].usage.started_at, 1784268768 * 1000);
}

#[test]
fn aggregate_records_are_keyed_by_their_turn_and_share_the_file() {
    let (_out, records) = scan_collect(&[("p/s.json", NEW_JSON)]);
    assert_eq!(records[0].fingerprint, "p/s.json:0");
    assert_eq!(records[1].fingerprint, "p/s.json:2");
    assert_eq!(records[0].raw_bytes, NEW_JSON.len() as u64 / 3);
    assert_eq!(records[0].usage.output_tokens, 0);
    assert_eq!(records[0].usage.cache_read_tokens, 0);
}

#[test]
fn a_bad_file_does_not_cost_the_others_their_records() {
    let (out, records) = scan_collect(&[
        ("a/one.json", NEW_JSON),
        ("a/two.json", "[1, 2"),
        ("a/three.meta", WITHOUT_JSONL),
    ]);
    assert_eq!(out.found_files, 3);
    assert_eq!(out.errors.len(), 1);
    assert!(out.errors[0].starts_with("parse \"a/two.json\": "));
    assert_eq!(records.len(), 3);
    assert_eq!(records[2].session_id, "sess-2");
    let bytes = NEW_JSON.len() + "[1, 2".len() + WITHOUT_JSONL.len();
    assert_eq!(out.fingerprint, format!("3:7:{}", bytes));
}

#[test]
fn scan_and_cheap_check_agree() {
    let src = source();
    let stats = vec![
        Some(FileStat { len: 10, mtime_secs: Some(5) }),
        None,
        Some(FileStat { len: 3, mtime_secs: Some(9) }),
    ];
    let files = stats
        .iter()
        .map(|stat| ScannedFile { stat: *stat, records: Ok(Vec::new()) })
        .collect();
    let (out, _) = src.scan(&vec![true], files).unwrap();
    assert_eq!(out.fingerprint, "2:9:13");
    assert_eq!(src.scan_fingerprint(&vec![true], &stats).unwrap(), "2:9:13");
}

#[test]
fn scan_without_a_root_is_an_error() {
    let src = source();
    assert_eq!(
        src.scan(&vec![false], Vec::new()).unwrap_err(),
        ProviderError::DataDirNotFound(Provider::AtomCode)
    );
    assert_eq!(
        src.scan_fingerprint(&vec![false], &Vec::new()).unwrap_err(),
        ProviderError::DataDirNotFound(Provider::AtomCode)
    );
}

#[test]
fn siblings_are_not_session_files() {
    let wanted = |name: &str| wants_entry(&entry_at(name, ""), 0);
    assert!(wanted("a.meta"));
    assert!(wanted("a.json"));
    assert!(wanted("A.META"));
    assert!(wanted("A.Json"));
    assert!(!wanted("a.ui.json"));
    assert!(!wanted("a.UI.json"));
    assert!(!wanted("a.rewind.json"));
    assert!(!wanted("a.jsonl"));
    assert!(!wanted("a.snapshot"));
    assert!(!wanted("a.lease"));
    assert!(!wanted("meta"));
    assert!(!wanted(".json"));
}

#[test]
fn long_files_and_directories_are_passed_over() {
    let mut entry = entry_at("a.meta", "12345");
    assert!(wants_entry(&entry, 5));
    assert!(!wants_entry(&entry, 4));
    entry.len = None;
    assert!(!wants_entry(&entry, u64::MAX));
    entry.len = Some(5);
    entry.is_file = false;
    assert!(!wants_entry(&entry, u64::MAX));
}

#[test]
fn sibling_lines_keep_the_earliest_stamp() {
    let lines = lines_of(
        "\n  {\"ts\":30,\"turn_id\":1}  \nnot json\n{\"ts\":10,\"turn_id\":1}\n{\"ts\":20,\"turn_id\":1}\n{\"turn_id\":2}\n{\"ts\":5}\n",
    );
    let starts = load_turn_timestamps(&lines);
    assert_eq!(starts.len(), 1);
    assert_eq!(starts.get(&1), Some(&10));
}

#[test]
fn blank_lines_hold_no_document() {
    assert_eq!(line_document(" \t "), None);
    assert_eq!(line_document(""), None);
    assert_eq!(line_document("\u{3000} x y \n"), Some("x y".to_string()));
}

#[test]
fn stamps_in_seconds_become_milliseconds() {
    assert_eq!(to_millis(None), None);
    assert_eq!(to_millis(Some(1784268768)), Some(1784268768000));
    assert_eq!(to_millis(Some(1784268768000)), Some(1784268768000));
    assert_eq!(to_millis(Some(999_999_999_999)), Some(999_999_999_999_000));
    assert_eq!(to_millis(Some(1_000_000_000_000)), Some(1_000_000_000_000));
    assert_eq!(to_millis(Some(0)), Some(0));
    assert_eq!(to_millis(Some(-5)), Some(-5000));
}

#[test]
fn prompt_gives_the_model_it_names() {
    let model = |text: &str| extract_model_from_prompt(text);
    assert_eq!(model("x running the m-1 model."), Some("m-1".to_string()));
    assert_eq!(model("running the m-1"), Some("m-1".to_string()));
    assert_eq!(model("running the  big m model"), Some("big".to_string()));
    assert_eq!(model("running the  model"), None);
    assert_eq!(model("running the "), None);
    assert_eq!(model("no model at all"), None);
    assert_eq!(model("\u{e9} running the \u{4e2d} model"), Some("\u{4e2d}".to_string()));
}

#[test]
fn only_system_messages_name_the_model() {
    let json = parse_json(
        r#"[
            {"role":"User","content":"running the a model"},
            {"role":"System","content":{"Other":"running the b model"}},
            {"role":"System","content":"nothing here"},
            {"role":"System","content":"running the c model"},
            {"role":"System","content":{"Text":"running the d model"}}
        ]"#,
    )
    .unwrap();
    assert_eq!(extract_model_from_messages(json.as_array()), Some("c".to_string()));
    assert_eq!(extract_model_from_messages(None), None);
}

#[test]
fn sessions_are_routed_by_their_turns() {
    let new = |text: &str| is_aggregate(&parse_json(text).unwrap());
    assert!(new(r#"{"messages":[]}"#));
    assert!(new(r#"{"turn_stats":[{"total_tokens":1}]}"#));
    assert!(!new(r#"{"turn_stats":[{"used_tokens":1},{"total_tokens":1}]}"#));
    assert!(!new(r#"{"messages":[],"turn_stats":[{"total_tokens":1},{"model_usage":[{}]}]}"#));
    assert!(new(r#"{"messages":[],"turn_stats":[{"model_usage":[]}]}"#));
    assert!(!new(r#"{}"#));
    assert!(!new(r#"[]"#));
}

#[test]
fn a_stamp_beyond_milliseconds_is_told_apart() {
    let text = r#"{"messages":[],"updated_at":-9223372036854776}"#;
    assert!(matches!(
        parse_session(text, &file_at("a.json")),
        SessionOutcome::StampOverflow
    ));
    let text = r#"{"messages":[],"updated_at":-9223372036854775}"#;
    assert!(matches!(
        parse_session(text, &file_at("a.json")),
        SessionOutcome::Records(_)
    ));
}

#[test]
fn a_stamp_beyond_the_calendar_is_replaced_by_now() {
    let json = parse_json(
        r#"{"messages":[],"updated_at":9223372036854775807,"turn_stats":[{"total_tokens":3}]}"#,
    );
    match session_outcome(&json, &file_at("a.json"), &None, 10, 42) {
        SessionOutcome::Records(records) => {
            assert_eq!(records[0].usage.started_at, 42);
            assert_eq!(records[0].session_id, "a");
            assert_eq!(records[0].project, "unknown");
            assert_eq!(records[0].raw_bytes, 10);
        }
        other => panic!("{:?}", other),
    }
}

#[test]
fn a_failed_parse_names_the_file() {
    let failed: Result<Json, String> = Err("boom".to_string());
    match session_outcome(&failed, &file_at("x/a.json"), &None, 0, 0) {
        SessionOutcome::Failed(message) => assert_eq!(message, "parse \"x/a.json\": boom"),
        other => panic!("{:?}", other),
    }
    let failed: Result<AtomCodeMeta, String> = Err("boom".to_string());
    assert_eq!(
        per_call_session(&failed, &Vec::new(), &file_at("x/a.meta"), 0).unwrap_err(),
        "parse \"x/a.meta\": boom"
    );
    assert_eq!(file_error_text("read", "p", "gone"), "read p: gone");
}

#[test]
fn calls_share_the_bytes_of_their_turn_and_keep_their_places() {
    let meta = r#"{
  "id": "",
  "working_dir": "  ",
  "turn_stats": [
    { "turn_id": -3, "model_usage": [
        { "model_id": "", "tokens": { "input": 1 } },
        { "tokens": null },
        { "tokens": { "input": -5, "output": 0 } },
        { "model_id": "m", "tokens": { "cached_input": 9 } } ] },
    { "used_tokens": 4 }
  ]
}"#;
    let (_, records) = scan_collect(&[("d/name.meta", meta)]);
    assert_eq!(records.len(), 3);
    assert_eq!(records[0].session_id, "name");
    assert_eq!(records[0].project, "unknown");
    assert_eq!(records[0].usage.model, "unknown");
    assert_eq!(records[0].fingerprint, "d/name.meta:-3:0");
    assert_eq!(records[1].fingerprint, "d/name.meta:-3:3");
    assert_eq!(records[1].usage.cache_read_tokens, 9);
    assert_eq!(records[2].fingerprint, "d/name.meta:0:legacy");
    let turn = meta.len() as u64 / 2;
    assert_eq!(records[0].raw_bytes, turn / 4);
    assert_eq!(records[2].raw_bytes, turn);
    let total: u64 = records
        .iter()
        .map(|r| r.usage.input_tokens + r.usage.output_tokens + r.usage.cache_read_tokens)
        .sum();
    assert_eq!(total, 1 + 9 + 4);
}

#[test]
fn roots_are_discovered_once() {
    let mut src = AtomCodeSource::new(ProviderConfig::default());
    assert!(src.needs_discovery());
    let root = |dir: &str| ScanRoot { dir: dir.to_string(), label: None };
    assert_eq!(src.roots(vec![root("/a"), root("/b")]).len(), 2);
    assert!(!src.needs_discovery());
    let kept = src.roots(vec![root("/c")]);
    assert_eq!(kept.len(), 2);
    assert_eq!(kept[1].dir, "/b");
    assert_eq!(src.data_dirs(&vec![false, true]).unwrap(), vec!["/b".to_string()]);
    assert_eq!(src.provider(), Provider::AtomCode);
    assert_eq!(src.max_depth(), usize::MAX);
    assert_eq!(sessions_suffix(), vec![".atomcode", "sessions"]);
}

fn unified(path: &str, meta: &str, jsonl: &str) -> Vec<UnifiedMessage> {
    let meta = parse_json(meta).ok().map(|json| meta_of(&json));
    let dir = meta.as_ref().and_then(|m| m.working_dir.clone());
    parse_atomcode_file(&meta, &lines_of(jsonl), &file_at(path), &dir, &Some("label".to_string()))
}

#[test]
fn atomcode_parses_model_usage_with_jsonl_timestamp() {
    let meta = r#"{
  "v": 1,
  "id": "sess-1",
  "working_dir": "D:/project/dbpt",
  "created_at": 1787000000000,
  "updated_at": 1787999999999,
  "turn_stats": [
    {
      "turn_id": 1,
      "used_tokens": 27593,
      "model_usage": [
        {
          "provider_id": "AtomGit",
          "model_id": "qwen3.8-27b",
          "tokens": { "input": 64080, "output": 22518, "cached_input": 331776 }
        }
      ]
    }
  ]
}"#;
    let jsonl = r#"{"v":1,"ts":1787220850248,"iso":"2026-08-20T10:14:10.248+00:00","session_id":"sess-1","turn_id":1,"usage":{"prompt":100,"completion":20,"cached":5}}
"#;
    let messages = unified("abc123/sess-1.meta", meta, jsonl);
    assert_eq!(messages.len(), 1);
    let m = &messages[0];
    assert_eq!(m.client, "atomcode");
    assert_eq!(m.model_id, "qwen3.8-27b");
    assert_eq!(m.provider_id, "AtomGit");
    assert_eq!(m.session_id, "sess-1");
    assert_eq!(m.timestamp, 1787220850248);
    assert_eq!(m.tokens.input, 64080);
    assert_eq!(m.tokens.output, 22518);
    assert_eq!(m.tokens.cache_read, 331776);
    assert_eq!(m.tokens.input + m.tokens.cache_read, 64080 + 331776);
}

#[test]
fn atomcode_falls_back_to_session_timestamp_without_jsonl() {
    let messages = unified("abc123/sess-2.meta", WITHOUT_JSONL, "");
    assert_eq!(messages.len(), 1);
    assert_eq!(messages[0].timestamp, 1787100000000);
    assert_eq!(messages[0].provider_id, "atomcode");
    assert_eq!(messages[0].tokens.cache_read, 0);
}

#[test]
fn atomcode_legacy_turn_without_model_usage_is_not_dropped() {
    let messages = unified("abc123/sess-3.meta", UNCALLED, "");
    assert_eq!(messages.len(), 1);
    assert_eq!(messages[0].model_id, DEFAULT_MODEL);
    assert_eq!(messages[0].tokens.input, 27593);
}

#[test]
fn malformed_meta_yields_empty_vec() {
    assert!(unified("abc123/sess-4.meta", "{ this is not json", "").is_empty());
}

#[test]
fn messages_carry_their_workspace_and_key() {
    let messages = unified("abc123/sess-1.meta", RICH, RICH_JSONL);
    assert_eq!(messages[0].dedup_key, Some("atomcode:sess-1:1:0".to_string()));
    assert_eq!(messages[0].workspace_key, Some("D:/project/dbpt".to_string()));
    assert_eq!(messages[0].workspace_label, Some("label".to_string()));
    assert_eq!(
        messages[0].tokens,
        TokenBreakdown { input: 64080, output: 22518, cache_read: 331776, cache_write: 0, reasoning: 0 }
    );
    let messages = unified("abc123/sess-3.meta", UNCALLED, "");
    assert_eq!(messages[0].dedup_key, Some("atomcode:sess-3:1:legacy".to_string()));
    assert_eq!(messages[0].workspace_key, None);
    assert_eq!(messages[0].workspace_label, None);
}
