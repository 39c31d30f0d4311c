use token_monitor::model::Provider;
use token_monitor::monitor::{
    chart_app_options, ActivePage, AggRequest, ChartApp, ChartMetric, ChartQuery, ChartRange,
    CollectorEvent, DateRange, Effect, ScanStatus, Settings, ThemeColor, TokenMonitorApp,
};
use token_monitor::snapshot::{
    compute_chart_snapshot, compute_report_snapshot, compute_view_snapshot, ModelAnswers,
    ProviderStats, ReportSnapshot, SeriesAnswer, TimeTab, ViewSnapshot, WindowAnswers,
};
use token_monitor::stats::{merge_model_series, DayStats, ModelSeries, SumStats};

fn settings() -> Settings {
    Settings {
        scan_interval_secs: 60,
        theme_color: ThemeColor { index: 2 },
        check_updates_on_startup: true,
        skipped_update_version: None,
    }
}

fn app() -> TokenMonitorApp {
    TokenMonitorApp::new(settings()).0
}

fn stats(n: u64) -> SumStats {
    SumStats {
        input_tokens: n,
        output_tokens: 2 * n,
        cache_read_tokens: 3 * n,
        cache_write_tokens: 4 * n,
        cost_micros: 5 * n,
    }
}

fn day(day: &str, n: u64) -> DayStats {
    DayStats { day: day.to_string(), stats: stats(n) }
}

fn answers() -> WindowAnswers {
    WindowAnswers {
        summary: Ok(stats(1)),
        by_provider: Ok(vec![ProviderStats { provider: Provider::CodeArts, stats: stats(1) }]),
        by_provider_model: Ok(Vec::new()),
        by_project: Ok(Vec::new()),
        by_day: Ok(vec![day("2026-08-20", 1)]),
    }
}

fn snap(seq: u64) -> ViewSnapshot {
    compute_view_snapshot(seq, TimeTab { index: 3 }, answers(), None, None)
}

fn request(seq: u64, tab: u8, charts: Option<ChartQuery>) -> Effect {
    Effect::RequestAggregate(AggRequest {
        seq,
        time_tab: TimeTab { index: tab },
        charts,
        report_days: 365,
    })
}

#[test]
fn monitor_starts_with_a_scan_and_a_request() {
    let (app, effects) = TokenMonitorApp::new(settings());
    assert_eq!(
        effects,
        vec![
            Effect::SyncAppSelect,
            Effect::ApplyTheme(ThemeColor { index: 2 }),
            Effect::StartScan,
            request(1, 0, None),
        ]
    );
    assert!(matches!(app.state.scan_status, ScanStatus::Idle));
    assert_eq!(app.applied_seq, 0);
}

#[test]
fn started_scan_clears_the_error() {
    let mut app = app();
    assert_eq!(app.trigger_scan(Err("busy".to_string()), 3), vec![Effect::Notify]);
    assert_eq!(app.state.last_error.as_deref(), Some("failed to start scan: busy"));
    app.trigger_scan(Ok(()), 3);
    assert!(matches!(app.state.scan_status, ScanStatus::Scanning { completed: 0, total: 3 }));
    assert_eq!(app.state.last_error, None);
}

#[test]
fn new_interval_wakes_the_scheduler() {
    let mut app = app();
    assert_eq!(app.select_scan_interval(60, Ok(())), vec![Effect::Notify]);
    assert_eq!(
        app.select_scan_interval(300, Err("disk full".to_string())),
        vec![Effect::WakeScheduler, Effect::StartScan, Effect::Notify]
    );
    assert_eq!(app.settings.scan_interval_secs, 300);
    assert_eq!(app.state.last_error.as_deref(), Some("save scan interval: disk full"));
}

#[test]
fn same_color_changes_nothing() {
    let mut app = app();
    assert!(!app.is_new_color(ThemeColor { index: 2 }));
    assert_eq!(app.select_theme_color(ThemeColor { index: 2 }, Ok(())), Vec::new());
    assert!(app.is_new_color(ThemeColor { index: 4 }));
    assert_eq!(
        app.select_theme_color(ThemeColor { index: 4 }, Err("no".to_string())),
        vec![
            Effect::ApplyTheme(ThemeColor { index: 4 }),
            Effect::RefreshWindows,
            Effect::Notify,
        ]
    );
    assert_eq!(app.state.last_error.as_deref(), Some("save theme color: no"));
    assert_eq!(app.settings.theme_color, ThemeColor { index: 4 });
}

#[test]
fn time_tab_collapses_and_reloads() {
    let mut app = app();
    app.toggle_provider_expanded(Provider::AtomCode);
    assert_eq!(
        app.select_time_tab(TimeTab { index: 2 }),
        vec![request(2, 2, None), Effect::Notify]
    );
    assert_eq!(app.state.expanded_provider, None);
}

#[test]
fn charts_are_loaded_on_their_page_only() {
    let mut app = app();
    app.state.report_hover = Some(4);
    assert_eq!(app.select_page(ActivePage::Other(1)), vec![Effect::Notify]);
    assert_eq!(app.state.report_hover, None);
    let query = ChartQuery {
        range: ChartRange::Preset(0),
        custom_range: None,
        app: ChartApp::All,
    };
    assert_eq!(
        app.select_page(ActivePage::Charts),
        vec![request(2, 0, Some(query)), Effect::Notify]
    );
    let one = ChartQuery { app: ChartApp::One(Provider::CodeArts), ..query };
    assert_eq!(
        app.select_chart_app(ChartApp::One(Provider::CodeArts)),
        vec![request(3, 0, Some(one)), Effect::Notify]
    );
    assert_eq!(app.select_chart_metric(ChartMetric { index: 1 }), vec![Effect::Notify]);
    assert_eq!(app.view_seq, 3);
}

#[test]
fn own_dates_are_put_in_order() {
    let mut app = app();
    assert_eq!(
        app.select_chart_range(ChartRange::Custom),
        vec![Effect::SyncRangeSelect, Effect::Notify]
    );
    assert_eq!(
        app.select_chart_custom_range(20, 10),
        vec![Effect::SyncRangeSelect, request(2, 0, None), Effect::Notify]
    );
    assert_eq!(app.state.charts.custom_range, Some(DateRange { first: 10, last: 20 }));
    app.select_chart_custom_range(5, 6);
    assert_eq!(app.state.charts.custom_range, Some(DateRange { first: 5, last: 6 }));
    assert_eq!(
        app.clear_chart_custom_range(),
        vec![Effect::SyncRangeSelect, request(4, 0, None), Effect::Notify]
    );
    assert_eq!(app.state.charts.custom_range, None);
    app.select_chart_custom_range(5, 6);
    assert_eq!(
        app.select_chart_range(ChartRange::Preset(1)),
        vec![
            Effect::ClearRangePicker,
            request(6, 0, None),
            Effect::SyncRangeSelect,
            Effect::Notify,
        ]
    );
    assert_eq!(app.state.charts.custom_range, None);
}

#[test]
fn toggling_twice_collapses_the_card() {
    let mut app = app();
    app.toggle_provider_expanded(Provider::AtomCode);
    assert_eq!(app.state.expanded_provider, Some(Provider::AtomCode));
    app.toggle_provider_expanded(Provider::AtomCode);
    assert_eq!(app.state.expanded_provider, None);
    app.toggle_provider_expanded(Provider::AtomCode);
    app.toggle_provider_expanded(Provider::CodeArts);
    assert_eq!(app.state.expanded_provider, Some(Provider::CodeArts));
}

#[test]
fn scan_counts_its_sources() {
    let mut app = app();
    app.trigger_scan(Ok(()), 2);
    app.handle_collector_event(CollectorEvent::ScanStarted, 2, 0);
    assert_eq!(
        app.handle_collector_event(
            CollectorEvent::ScanCompleted { records: 5, unchanged: true },
            2,
            10
        ),
        vec![Effect::Notify]
    );
    app.handle_collector_event(CollectorEvent::ScanStarted, 2, 0);
    assert!(matches!(app.state.scan_status, ScanStatus::Scanning { completed: 1, total: 2 }));
    assert_eq!(
        app.handle_collector_event(
            CollectorEvent::ScanCompleted { records: 7, unchanged: false },
            2,
            11
        ),
        vec![request(2, 0, None), Effect::Notify]
    );
    assert!(matches!(app.state.scan_status, ScanStatus::Done { records: 7, at: 11 }));
}

#[test]
fn failed_scan_is_reported_and_watch_rescans() {
    let mut app = app();
    app.handle_collector_event(
        CollectorEvent::ScanFailed {
            provider_name: "AtomCode".to_string(),
            error: "gone".to_string(),
        },
        2,
        0,
    );
    assert_eq!(app.state.last_error.as_deref(), Some("AtomCode: gone"));
    assert!(matches!(&app.state.scan_status, ScanStatus::Failed { error } if error == "gone"));
    assert_eq!(
        app.handle_collector_event(CollectorEvent::Watch, 2, 0),
        vec![Effect::Rescan, Effect::Notify]
    );
}

#[test]
fn late_snapshot_is_dropped() {
    let mut app = app();
    assert_eq!(app.apply_snapshot(snap(5), false), vec![Effect::Notify]);
    assert_eq!(app.state.summary, Some(stats(1)));
    let mut late = snap(4);
    late.summary = None;
    late.error = Some("late".to_string());
    assert_eq!(app.apply_snapshot(late, false), Vec::new());
    assert_eq!(app.applied_seq, 5);
    assert_eq!(app.state.summary, Some(stats(1)));
    assert_eq!(app.state.last_error, None);
    let mut again = snap(5);
    again.error = Some("again".to_string());
    assert_eq!(app.apply_snapshot(again, false), vec![Effect::Notify]);
    assert_eq!(app.state.last_error.as_deref(), Some("again"));
}

#[test]
fn ball_gets_the_total_with_its_period() {
    let mut app = app();
    app.link_ball();
    assert_eq!(
        app.apply_snapshot(snap(1), true),
        vec![
            Effect::PushUsage {
                total_tokens: 10,
                cost_micros: 5,
                time_tab: TimeTab { index: 3 },
            },
            Effect::Notify,
        ]
    );
    assert_eq!(app.apply_snapshot(snap(2), false), vec![Effect::Notify]);
    assert!(!app.ball_linked);
    assert_eq!(app.apply_snapshot(snap(3), true), vec![Effect::Notify]);
}

#[test]
fn snapshot_keeps_what_it_does_not_bring() {
    let mut app = app();
    let mut first = snap(1);
    first.report = Some(ReportSnapshot { days: vec![day("d", 1)] });
    app.apply_snapshot(first, false);
    app.apply_snapshot(snap(2), false);
    assert_eq!(app.state.report.as_ref().map(|r| r.days.len()), Some(1));
    assert!(app.state.charts.data.is_none());
}

#[test]
fn failing_query_keeps_the_other_answers() {
    let mut bad = answers();
    bad.by_provider = Err("one".to_string());
    bad.by_project = Err("two".to_string());
    let s = compute_view_snapshot(9, TimeTab { index: 1 }, bad, None, None);
    assert_eq!(s.seq, 9);
    assert_eq!(s.summary, Some(stats(1)));
    assert!(s.by_provider.is_empty());
    assert_eq!(s.by_day.len(), 1);
    assert_eq!(s.error.as_deref(), Some("query failed: two"));
    let mut bad = answers();
    bad.summary = Err("zero".to_string());
    let s = compute_view_snapshot(9, TimeTab { index: 1 }, bad, None, None);
    assert_eq!(s.summary, None);
    assert_eq!(s.error.as_deref(), Some("query failed: zero"));
    assert_eq!(snap(1).error, None);
}

#[test]
fn failing_report_is_empty() {
    assert!(compute_report_snapshot(Err("x".to_string())).days.is_empty());
    assert_eq!(compute_report_snapshot(Ok(vec![day("d", 1)])).days.len(), 1);
}

fn series(models: &[(&str, &[(&str, u64)])]) -> ModelSeries {
    let mut out = ModelSeries::new();
    for (model, days) in models {
        out.add_series(model.to_string(), days.iter().map(|(d, n)| day(d, *n)).collect());
    }
    out
}

fn flat(series: &ModelSeries) -> Vec<(String, Vec<(String, u64)>)> {
    series
        .entries()
        .iter()
        .map(|m| {
            let days = m.days.iter().map(|d| (d.day.clone(), d.stats.input_tokens)).collect();
            (m.model.clone(), days)
        })
        .collect()
}

fn expect(models: &[(&str, &[(&str, u64)])]) -> Vec<(String, Vec<(String, u64)>)> {
    models
        .iter()
        .map(|(m, days)| {
            (m.to_string(), days.iter().map(|(d, n)| (d.to_string(), *n)).collect())
        })
        .collect()
}

#[test]
fn merge_adds_up_models_and_days() {
    let mut dst = series(&[("m", &[("d1", 1), ("d2", 2)]), ("a", &[("d1", 5)])]);
    merge_model_series(
        &mut dst,
        series(&[("z", &[]), ("m", &[("d2", 10), ("d3", 20)]), ("b", &[("d9", 7)])]),
    );
    assert_eq!(
        flat(&dst),
        expect(&[
            ("a", &[("d1", 5)]),
            ("b", &[("d9", 7)]),
            ("m", &[("d1", 1), ("d2", 12), ("d3", 20)]),
            ("z", &[]),
        ])
    );
}

#[test]
fn sums_stay_at_the_largest_number() {
    let mut a = stats(1);
    let full = SumStats { input_tokens: u64::MAX, ..stats(1) };
    a.add(&full);
    assert_eq!(a.input_tokens, u64::MAX);
    assert_eq!(a.output_tokens, 4);
    assert_eq!(a.cost_micros, 10);
}

#[test]
fn charts_take_the_answered_series() {
    let answers = vec![
        SeriesAnswer { provider: Provider::AtomCode, days: Some(vec![day("d", 1)]) },
        SeriesAnswer { provider: Provider::CodeArts, days: None },
        SeriesAnswer { provider: Provider::Other(3), days: Some(Vec::new()) },
    ];
    let all = ModelAnswers::All(vec![
        Some(series(&[("m", &[("d", 1)])])),
        None,
        Some(series(&[("m", &[("d", 2)]), ("k", &[("e", 3)])])),
    ]);
    let charts = compute_chart_snapshot(answers, all);
    let providers: Vec<Provider> = charts.provider_series.iter().map(|s| s.provider).collect();
    assert_eq!(providers, vec![Provider::AtomCode, Provider::Other(3)]);
    assert_eq!(
        flat(&charts.model_series),
        expect(&[("k", &[("e", 3)]), ("m", &[("d", 3)])])
    );
}

#[test]
fn charts_of_one_provider_take_its_answer() {
    let one = ModelAnswers::One(Some(series(&[("m", &[("d", 1)])])));
    let charts = compute_chart_snapshot(Vec::new(), one);
    assert_eq!(flat(&charts.model_series), expect(&[("m", &[("d", 1)])]));
    let charts = compute_chart_snapshot(Vec::new(), ModelAnswers::One(None));
    assert!(charts.model_series.entries().is_empty());
}

#[test]
fn chart_options_list_all_providers() {
    assert_eq!(
        chart_app_options(&vec![Provider::AtomCode, Provider::CodeArts]),
        vec![
            ChartApp::All,
            ChartApp::One(Provider::AtomCode),
            ChartApp::One(Provider::CodeArts),
        ]
    );
}
