use std::collections::HashSet;

use token_monitor::atomcode::per_call::{meta_records, SessionFile};
use token_monitor::atomcode::stamps::load_turn_timestamps;
use token_monitor::atomcode::unified::parse_atomcode_file;
use token_monitor::atomcode::{
    AtomCodeJsonlLine, AtomCodeMeta, AtomCodeModelUsage, AtomCodeTokens, AtomCodeTurnStat,
};
use token_monitor::floating::{sphere_diameter_for, RegionRequest, MIN_SPHERE, PX};
use token_monitor::model::ScanRoot;
use token_monitor::monitor::{
    ActivePage, ChartApp, ChartMetric, ChartRange, Settings, ThemeColor, TokenMonitorApp,
};
use token_monitor::paths::session_rel;
use token_monitor::region::{can_be_clipped, set_window_circle_region, Rect};
use token_monitor::slot::LatestSlot;
use token_monitor::snapshot::{compute_view_snapshot, TimeTab, WindowAnswers};
use token_monitor::stats::SumStats;

fn call(input: i64, cached: i64) -> AtomCodeModelUsage {
    AtomCodeModelUsage {
        provider_id: None,
        model_id: Some("m".to_string()),
        tokens: Some(AtomCodeTokens {
            input: Some(input),
            output: None,
            cached_input: Some(cached),
        }),
    }
}

fn turn(id: i64, used: i64, calls: Vec<AtomCodeModelUsage>) -> AtomCodeTurnStat {
    AtomCodeTurnStat { turn_id: Some(id), used_tokens: Some(used), model_usage: calls }
}

fn meta() -> AtomCodeMeta {
    AtomCodeMeta {
        id: Some("s".to_string()),
        working_dir: Some("/p/q".to_string()),
        created_at: Some(5),
        updated_at: Some(6),
        turn_stats: vec![
            turn(1, 1000, vec![call(1, 2), call(0, 0), call(3, 4)]),
            turn(11, 50, vec![]),
            turn(-1, 0, vec![]),
            turn(2, 9, vec![call(10, 0)]),
        ],
    }
}

fn file() -> SessionFile {
    SessionFile {
        path: "f".to_string(),
        stem: Some("f".to_string()),
        rel: "atomcode:s".to_string(),
        mtime_ms: 0,
    }
}

fn stamp(turn: i64, ts: i64) -> AtomCodeJsonlLine {
    AtomCodeJsonlLine { ts: Some(ts), turn_id: Some(turn) }
}

#[test]
fn session_tokens_are_kept_and_keys_differ() {
    let lines = vec![stamp(1, 300), stamp(1, 200), stamp(2, 400)];
    let starts = load_turn_timestamps(&lines);
    let records = meta_records(&meta(), &file(), &Some("q".to_string()), &starts, 1003, 0);
    let tokens: u64 = records
        .iter()
        .map(|r| r.usage.input_tokens + r.usage.output_tokens + r.usage.cache_read_tokens)
        .sum();
    assert_eq!(tokens, 1 + 2 + 3 + 4 + 50 + 10);
    assert_eq!(records.iter().map(|r| r.usage.input_tokens).sum::<u64>(), 1 + 3 + 50 + 10);
    assert_eq!(records.iter().map(|r| r.usage.output_tokens).sum::<u64>(), 0);
    assert_eq!(records.iter().map(|r| r.usage.cache_read_tokens).sum::<u64>(), 2 + 4);
    assert!(records.iter().all(|r| r.usage.cache_write_tokens == 0));
    let keys: HashSet<&String> = records.iter().map(|r| &r.fingerprint).collect();
    assert_eq!(keys.len(), records.len());
    let started: Vec<i64> = records.iter().map(|r| r.usage.started_at).collect();
    assert_eq!(started, vec![200, 200, 6, 400]);
    assert!(records.iter().all(|r| r.project == "q"));
}

#[test]
fn session_records_share_the_file() {
    let starts = load_turn_timestamps(&Vec::new());
    let records = meta_records(&meta(), &file(), &None, &starts, 1003, 0);
    let bytes: Vec<u64> = records.iter().map(|r| r.raw_bytes).collect();
    assert_eq!(bytes, vec![83, 83, 250, 250]);
    assert!(bytes.iter().sum::<u64>() <= 1003);
    assert!(records.iter().all(|r| r.project == "unknown"));
}

#[test]
fn messages_match_the_records_of_a_session() {
    let starts = load_turn_timestamps(&Vec::new());
    let records = meta_records(&meta(), &file(), &None, &starts, 0, 0);
    let messages = parse_atomcode_file(&Some(meta()), &Vec::new(), &file(), &None, &None);
    assert_eq!(messages.len(), records.len());
    for (m, r) in messages.iter().zip(&records) {
        assert_eq!(m.dedup_key.as_ref(), Some(&r.fingerprint));
        assert_eq!(m.model_id, r.usage.model);
        assert_eq!(m.tokens.input as u64, r.usage.input_tokens);
        assert_eq!(m.tokens.output as u64, r.usage.output_tokens);
        assert_eq!(m.tokens.cache_read as u64, r.usage.cache_read_tokens);
        assert_eq!(m.workspace_key, None);
    }
}

#[test]
fn ball_only_grows_with_usage() {
    let mut last = 0;
    for tokens in (0..210_000_000u64).step_by(1_000_003) {
        let d = sphere_diameter_for(tokens, false);
        assert!(d >= last);
        last = d;
        let growth = (d - MIN_SPHERE) as u128;
        let square = 38_720_000u128 * tokens.min(200_000_000) as u128;
        assert!(growth * growth <= square && square < (growth + 1) * (growth + 1));
    }
}

#[test]
fn clip_circle_is_independent_of_the_unit_and_grows() {
    let client = Rect { left: 0, top: 0, right: 451, bottom: 449 };
    let region = |diameter: u64, window_size: u64| {
        let request = RegionRequest { hwnd: 1, diameter, window_size };
        assert!(can_be_clipped(request, client, 120));
        set_window_circle_region(request, client, 120).unwrap()
    };
    let mut last = 0;
    for d in 1..=400u64 {
        let c = region(d * PX, 360 * PX);
        assert_eq!(c, region(d, 360));
        assert_eq!(c.width(), c.height());
        assert!(c.width() >= last);
        last = c.width();
        assert!(c.left >= 0 && c.top >= 0 && c.right <= 451 && c.bottom <= 449);
        assert!((c.left - (451 - c.right)).abs() <= 1);
        assert!((c.top - (449 - c.bottom)).abs() <= 1);
    }
    assert_eq!(last, 449);
}

#[test]
fn windows_that_cannot_be_counted_are_told() {
    let none = Rect { left: 0, top: 0, right: 0, bottom: 0 };
    let request = RegionRequest { hwnd: 1, diameter: 1, window_size: 499_999 };
    assert!(!can_be_clipped(request, none, 96));
    assert!(can_be_clipped(RegionRequest { window_size: 500_000, ..request }, none, 96));
    assert!(!can_be_clipped(RegionRequest { window_size: u64::MAX, ..request }, none, u32::MAX));
    assert!(can_be_clipped(RegionRequest { hwnd: 0, ..request }, none, 96));
}

#[test]
fn snapshots_keep_what_the_user_selected() {
    let (mut app, _) = TokenMonitorApp::new(Settings {
        scan_interval_secs: 60,
        theme_color: ThemeColor { index: 1 },
        check_updates_on_startup: false,
        skipped_update_version: Some("0.3.3".to_string()),
    });
    app.select_page(ActivePage::Charts);
    app.select_chart_metric(ChartMetric { index: 2 });
    app.select_chart_app(ChartApp::All);
    app.select_chart_range(ChartRange::Preset(3));
    app.select_time_tab(TimeTab { index: 1 });
    let answers = WindowAnswers {
        summary: Ok(SumStats {
            input_tokens: u64::MAX,
            output_tokens: 1,
            cache_read_tokens: 0,
            cache_write_tokens: 0,
            cost_micros: 0,
        }),
        by_provider: Ok(Vec::new()),
        by_provider_model: Ok(Vec::new()),
        by_project: Ok(Vec::new()),
        by_day: Ok(Vec::new()),
    };
    let before = app.view_seq;
    app.apply_snapshot(compute_view_snapshot(9, TimeTab { index: 0 }, answers, None, None), true);
    assert_eq!(app.view_seq, before);
    assert_eq!(app.state.active_page, ActivePage::Charts);
    assert_eq!(app.state.time_tab, TimeTab { index: 1 });
    assert_eq!(app.state.charts.range, ChartRange::Preset(3));
    assert_eq!(app.state.charts.metric, ChartMetric { index: 2 });
    assert_eq!(app.settings.skipped_update_version.as_deref(), Some("0.3.3"));
}

#[test]
fn newest_request_replaces_the_waiting_one() {
    let (mut app, _) = TokenMonitorApp::new(Settings {
        scan_interval_secs: 60,
        theme_color: ThemeColor { index: 1 },
        check_updates_on_startup: false,
        skipped_update_version: None,
    });
    let mut slot = LatestSlot::new();
    let first = app.refresh_view();
    assert_eq!(slot.put(first), None);
    app.select_time_tab(TimeTab { index: 2 });
    let second = app.refresh_view();
    assert_eq!(slot.put(second), Some(first));
    assert_eq!(slot.waiting, Some(second));
    assert_eq!(second.seq, app.view_seq);
    assert_eq!(second.time_tab, TimeTab { index: 2 });
    assert_eq!(slot.take(), Some(second));
    assert_eq!(slot.take(), None);
}

#[test]
fn copies_below_home_and_label_are_told_apart() {
    let starts = load_turn_timestamps(&Vec::new());
    let at = |rel: &str| {
        let place = SessionFile { rel: rel.to_string(), ..file() };
        meta_records(&meta(), &place, &None, &starts, 1003, 0)
    };
    let home = at("abc/sess.meta");
    let wsl = at("wsl-ubuntu/abc/sess.meta");
    assert_eq!(home.len(), wsl.len());
    for (a, b) in home.iter().zip(&wsl) {
        assert!(wsl.iter().all(|r| r.fingerprint != a.fingerprint));
        assert_eq!(a.usage.input_tokens, b.usage.input_tokens);
        assert_eq!(a.usage.started_at, b.usage.started_at);
        assert_eq!(a.raw_bytes, b.raw_bytes);
        assert_eq!(a.session_id, b.session_id);
    }
}

#[test]
fn copies_below_two_labels_are_told_apart() {
    let starts = load_turn_timestamps(&Vec::new());
    let at = |label: &str, mtime_ms: i64| {
        let root = ScanRoot { dir: "/home/u/s".to_string(), label: Some(label.to_string()) };
        let rel = session_rel("/home/u/s/abc/sess.meta", &root);
        let place = SessionFile { rel, mtime_ms, ..file() };
        let unstamped = AtomCodeMeta { created_at: None, updated_at: None, ..meta() };
        meta_records(&unstamped, &place, &None, &starts, 1003, 0)
    };
    let ubuntu = at("wsl-Ubuntu", 1_000);
    let debian = at("wsl-Debian", 2_000);
    assert_eq!(ubuntu.len(), debian.len());
    for (a, b) in ubuntu.iter().zip(&debian) {
        assert!(debian.iter().all(|r| r.fingerprint != a.fingerprint));
        assert_eq!(a.usage.input_tokens, b.usage.input_tokens);
        assert_eq!(a.usage.cache_read_tokens, b.usage.cache_read_tokens);
        assert_eq!((a.usage.started_at, b.usage.started_at), (1_000, 2_000));
        assert_eq!(a.raw_bytes, b.raw_bytes);
    }
}
