use token_monitor::codearts::messages::{
    json_i64, parse_message, project_name, project_named, record_of_message, scan_db, MessageRow,
};
use token_monitor::codearts::{db_file_name, db_rel_paths, CodeArtsSource, DbProbe};
use token_monitor::files::{file_error_text, FileStat};
use token_monitor::json::parse_json;
use token_monitor::model::{Provider, ProviderConfig, ProviderError, ScanOutput, UsageRecord};
use token_monitor::scan::ScannedFile;

fn source() -> CodeArtsSource {
    let mut src = CodeArtsSource::new(ProviderConfig {
        provider: Provider::CodeArts,
        data_dir_override: Some("/data".to_string()),
        ..ProviderConfig::default()
    });
    src.db_paths(DbProbe {
        override_db: "/data/opencode.db".to_string(),
        override_db_is_file: true,
        candidates: Vec::new(),
        is_file: Vec::new(),
    });
    src
}

fn scan_collect(messages: &[(&str, &str, &str)]) -> (ScanOutput, Vec<UsageRecord>) {
    let rows: Vec<MessageRow> = messages
        .iter()
        .map(|(id, session, data)| MessageRow {
            message_id: id.to_string(),
            session_id: session.to_string(),
            data: data.to_string(),
            directory: "E:/project/dbpt-zw".to_string(),
            time_created: 1787880271126,
        })
        .collect();
    let scanned = ScannedFile {
        stat: Some(FileStat { len: 4096, mtime_secs: Some(100) }),
        records: Ok(scan_db(&rows)),
    };
    source().scan(&vec![true], vec![scanned]).unwrap()
}

#[test]
fn parses_assistant_tokens_and_skips_user() {
    let (out, records) = scan_collect(&[
        (
            "msg_user",
            "ses_1",
            r#"{"role":"user","modelID":"deepseek-v4-pro","summary":{"diffs":[]}}"#,
        ),
        (
            "msg_asst",
            "ses_1",
            r#"{"role":"assistant","modelID":"deepseek-v4-pro","providerID":"inferhub-provider","tokens":{"total":24605,"input":24291,"output":314,"reasoning":0,"cache":{"write":0,"read":42}},"time":{"created":1787880271126,"completed":1787880396842},"cost":0}"#,
        ),
    ]);
    assert!(out.errors.is_empty());
    assert_eq!(records.len(), 1);
    let r = &records[0];
    assert_eq!(r.provider, Provider::CodeArts);
    assert_eq!(r.project, "dbpt-zw");
    assert_eq!(r.session_id, "ses_1");
    assert_eq!(r.usage.model, "deepseek-v4-pro");
    assert_eq!(r.usage.input_tokens, 24291);
    assert_eq!(r.usage.output_tokens, 314);
    assert_eq!(r.usage.cache_read_tokens, 42);
    assert_eq!(r.usage.cache_write_tokens, 0);
    assert_eq!(r.usage.started_at, 1787880271126);
    assert!(r.fingerprint.starts_with("message:msg_asst"));
    assert_eq!(out.found_files, 1);
    assert_eq!(out.fingerprint, "1:100:4096");
}

#[test]
fn zero_token_message_is_skipped() {
    let (_out, records) = scan_collect(&[(
        "msg_asst_zero",
        "ses_1",
        r#"{"role":"assistant","modelID":"x","tokens":{"input":0,"output":0,"cache":{"read":0,"write":0}}}"#,
    )]);
    assert!(records.is_empty());
}

#[test]
fn malformed_messages_are_passed_over() {
    let (out, records) = scan_collect(&[
        ("a", "s", "{ no"),
        ("b", "s", r#"[{"tokens":{"input":1}}]"#),
        ("c", "s", r#"{"tokens":5}"#),
        ("d", "s", r#"{"tokens":{"cache":{"write":7}}}"#),
    ]);
    assert!(out.errors.is_empty());
    assert_eq!(records.len(), 1);
    assert_eq!(records[0].fingerprint, "message:d");
    assert_eq!(records[0].usage.cache_write_tokens, 7);
    assert_eq!(records[0].usage.model, "unknown");
    assert_eq!(records[0].usage.started_at, 1787880271126);
}

#[test]
fn numbers_are_read_leniently() {
    let number = |text: &str| json_i64(parse_json(text).ok().as_ref());
    assert_eq!(number("12"), 12);
    assert_eq!(number("12.9"), 12);
    assert_eq!(number("-12.9"), -12);
    assert_eq!(number("1e30"), i64::MAX);
    assert_eq!(number("18446744073709551615"), i64::MAX);
    assert_eq!(number("\"7\""), 0);
    assert_eq!(number("null"), 0);
    assert_eq!(json_i64(None), 0);
}

#[test]
fn fractions_and_negative_counters() {
    let r = parse_message("s", "p", "m", r#"{"tokens":{"input":-4,"output":2.7}}"#, 9, 8).unwrap();
    assert_eq!(r.usage.started_at, 8);
    assert_eq!(r.usage.input_tokens, 0);
    assert_eq!(r.usage.output_tokens, 2);
    assert_eq!(r.raw_bytes, 9);
    assert_eq!(r.usage.cost_micros, 0);
}

#[test]
fn nested_model_and_stamp_are_found() {
    let json = parse_json(
        r#"{"tokens":{"input":1},"model":{"modelID":"inner"},"time":{"completed":3}}"#,
    )
    .unwrap();
    let r = record_of_message(&json, "s", "p", "m", 1, 77, 5).unwrap();
    assert_eq!(r.usage.model, "inner");
    assert_eq!(r.usage.started_at, 77);
    let json = parse_json(
        r#"{"tokens":{"input":1},"modelID":"","model":{"modelID":"inner"},"time":{"created":9223372036854775807}}"#,
    )
    .unwrap();
    let r = record_of_message(&json, "s", "p", "m", 1, 77, 5).unwrap();
    assert_eq!(r.usage.model, "unknown");
    assert_eq!(r.usage.started_at, 5);
}

#[test]
fn projects_are_named_after_their_directory() {
    assert_eq!(project_name("E:/project/dbpt-zw"), "dbpt-zw");
    assert_eq!(project_name("/home/u/thing"), "thing");
    assert_eq!(project_name("/home/u/thing//"), "thing");
    assert_eq!(project_name("thing"), "thing");
    assert_eq!(project_name("thing/"), "thing");
    assert_eq!(project_name("/a/foo.txt/."), "foo.txt");
    assert_eq!(project_name("foo.txt/.//"), "foo.txt");
    assert_eq!(project_name("/home/../."), "unknown");
    assert_eq!(project_name("//server/share/proj"), "proj");
    assert_eq!(project_name("//server/share/a/proj/"), "proj");
    let shared = project_name("\\\\server\\share\\proj");
    assert!(shared == "unknown" || shared.ends_with("proj"));
    assert_eq!(project_name("  "), "unknown");
    assert_eq!(project_name(""), "unknown");
    assert_eq!(project_name("/"), "unknown");
    assert_eq!(project_name("/home/.."), "unknown");
    assert_eq!(project_name(".."), "unknown");
    assert!("E:\\p\\dbpt".ends_with(&project_name("E:\\p\\dbpt")));
    assert!(project_name("E:\\p\\dbpt").ends_with("dbpt"));
    assert_eq!(project_named("x", &Some(String::new())), "unknown");
}

#[test]
fn a_database_that_cannot_be_read_is_reported() {
    let bad = ScannedFile {
        stat: None,
        records: Err(file_error_text("open", "\"/data/opencode.db\"", "locked")),
    };
    let (out, records) = source().scan(&vec![true], vec![bad]).unwrap();
    assert_eq!(out.errors, vec!["open \"/data/opencode.db\": locked".to_string()]);
    assert_eq!(out.found_files, 0);
    assert_eq!(out.fingerprint, "0:0:0");
    assert!(records.is_empty());
    assert_eq!(
        source().scan(&vec![false], Vec::new()).unwrap_err(),
        ProviderError::DataDirNotFound(Provider::CodeArts)
    );
    assert_eq!(
        source().scan_fingerprint(&vec![false], &Vec::new()).unwrap_err(),
        ProviderError::DataDirNotFound(Provider::CodeArts)
    );
    assert_eq!(source().scan_fingerprint(&vec![true], &Vec::new()).unwrap(), "0:0:0");
}

#[test]
fn databases_are_looked_for_in_order() {
    let mut src = CodeArtsSource::new(ProviderConfig {
        provider: Provider::CodeArts,
        ..ProviderConfig::default()
    });
    assert!(src.needs_probe());
    let candidates: Vec<String> = db_rel_paths().iter().map(|p| format!("/home/u/{}", p)).collect();
    let found = src
        .db_paths(DbProbe {
            override_db: String::new(),
            override_db_is_file: false,
            candidates,
            is_file: vec![false, true, false, true],
        })
        .clone();
    assert_eq!(
        found,
        vec![
            "/home/u/.codeartsdoer/codearts-data/opencode.db".to_string(),
            "/home/u/.codeartsdoer/opencode.db".to_string(),
        ]
    );
    assert!(!src.needs_probe());
    assert_eq!(src.data_dirs(&vec![true, false]).unwrap(), found[..1].to_vec());
    assert_eq!(src.provider(), Provider::CodeArts);
    assert_eq!(db_file_name(), "opencode.db");
}

#[test]
fn user_messages_give_no_record() {
    let user = r#"{"role":"user","modelID":"x","tokens":{"input":5,"output":1}}"#;
    assert!(parse_message("ses_1", "p", "m", user, 9, 0).is_none());
    let system = r#"{"role":"system","modelID":"x","tokens":{"input":5,"output":1}}"#;
    assert!(parse_message("ses_1", "p", "m", system, 9, 0).is_none());
    let assistant = r#"{"role":"assistant","modelID":"x","tokens":{"input":5,"output":1}}"#;
    let r = parse_message("ses_1", "p", "m", assistant, 9, 0).unwrap();
    assert_eq!((r.usage.input_tokens, r.usage.output_tokens), (5, 1));
    let (out, records) = scan_collect(&[("m", "ses_1", user)]);
    assert!(records.is_empty());
    assert_eq!(out.found_files, 0);
}

#[test]
fn row_stamps_a_message_without_its_own() {
    let row = MessageRow {
        message_id: "m1".to_string(),
        session_id: "s1".to_string(),
        data: r#"{"role":"assistant","modelID":"x","tokens":{"input":1}}"#.to_string(),
        directory: "/p/q".to_string(),
        time_created: 1787880271126,
    };
    let records = scan_db(&vec![row]);
    assert_eq!(records.len(), 1);
    assert_eq!(records[0].project, "q");
    assert_eq!(records[0].usage.input_tokens, 1);
    assert_eq!(records[0].usage.started_at, 1787880271126);
}

#[test]
fn row_beyond_the_calendar_is_stamped_by_the_clock() {
    let data = r#"{"tokens":{"input":1}}"#;
    let r = parse_message("s", "p", "m", data, 1, i64::MAX).unwrap();
    assert!(r.usage.started_at > 1_600_000_000_000);
    assert!(r.usage.started_at < 8_210_266_876_799_999);
}
