//! What the user, the collector and the snapshots bring about, handler by handler.

use vstd::prelude::*;
use crate::model::Provider;
use crate::monitor::{
    chart_app_options, ActivePage, AggRequest, AppState, ChartApp, ChartMetric, ChartRange,
    CollectorEvent, Effect, ScanStatus, Settings, ThemeColor, TokenMonitorApp,
};
use crate::snapshot::{TimeTab, ViewSnapshot};

verus! {

/// Whether two states show the same numbers.
pub open spec fn shows_the_same(a: AppState, b: AppState) -> bool {
    &&& a.summary == b.summary
    &&& a.by_provider == b.by_provider
    &&& a.by_provider_model == b.by_provider_model
    &&& a.by_project == b.by_project
    &&& a.by_day == b.by_day
    &&& a.charts.data == b.charts.data
    &&& a.report == b.report
}

/// Whether two states have the same page, period and card selected.
pub open spec fn same_page(a: AppState, b: AppState) -> bool {
    &&& a.active_page == b.active_page
    &&& a.time_tab == b.time_tab
    &&& a.expanded_provider == b.expanded_provider
    &&& a.report_hover == b.report_hover
}

/// Whether two states have the same selections on the page of the charts.
pub open spec fn same_charts(a: AppState, b: AppState) -> bool {
    &&& a.charts.range == b.charts.range
    &&& a.charts.custom_range == b.charts.custom_range
    &&& a.charts.metric == b.charts.metric
    &&& a.charts.app == b.charts.app
}

/// Whether two states report the same of scans and errors.
pub open spec fn reports_the_same(a: AppState, b: AppState) -> bool {
    a.scan_status == b.scan_status && a.last_error == b.last_error
}

/// Whether nothing but the state, and the number of the last request, differs.
pub open spec fn same_around(a: TokenMonitorApp, b: TokenMonitorApp) -> bool {
    a.settings == b.settings && a.applied_seq == b.applied_seq && a.ball_linked == b.ball_linked
}

/// Whether `next` is the number behind `last`; zero follows on the largest.
pub open spec fn follows(next: u64, last: u64) -> bool {
    next == if last == 0xffff_ffff_ffff_ffff {
        0
    } else {
        last + 1
    }
}

/// Whether an effect requests what a monitor shows, under the number of its last request.
pub open spec fn requests(effect: Effect, app: TokenMonitorApp) -> bool {
    match effect {
        Effect::RequestAggregate(q) => {
            &&& q.seq == app.view_seq
            &&& q.time_tab == app.state.time_tab
            &&& q.report_days == 365
            &&& match q.charts {
                Some(c) => app.state.active_page == ActivePage::Charts && c.range
                    == app.state.charts.range && c.custom_range == app.state.charts.custom_range
                    && c.app == app.state.charts.app,
                None => app.state.active_page != ActivePage::Charts,
            }
        },
        _ => false,
    }
}

/// A monitor starts with its settings and a fresh dashboard: the providers of the charts are
/// listed, the accent is installed, a scan starts and a first snapshot is requested.
pub proof fn start_scans_and_requests(settings: Settings, r: (TokenMonitorApp, Vec<Effect>))
    requires
        call_ensures(TokenMonitorApp::new, (settings,), r),
    ensures
        r.0.settings == settings,
        r.0.view_seq == 1,
        r.0.applied_seq == 0,
        !r.0.ball_linked,
        r.0.state.active_page == ActivePage::Dashboard,
        r.0.state.time_tab.index == 0,
        r.0.state.scan_status == ScanStatus::Idle,
        r.0.state.summary is None,
        r.0.state.by_provider@.len() == 0,
        r.0.state.by_provider_model@.len() == 0,
        r.0.state.by_project@.len() == 0,
        r.0.state.by_day@.len() == 0,
        r.0.state.charts.range == ChartRange::Preset(0),
        r.0.state.charts.custom_range is None,
        r.0.state.charts.metric.index == 0,
        r.0.state.charts.app == ChartApp::All,
        r.1@.len() == 4,
        r.1@[0] == Effect::SyncAppSelect,
        r.1@[1] == Effect::ApplyTheme(settings.theme_color),
        r.1@[2] == Effect::StartScan,
        requests(r.1@[3], r.0),
{
}

/// A scan that could be started counts from zero over its sources, and clears the error. One that
/// could not leaves the scan as it is and says why.
pub proof fn started_scan_counts_from_zero(
    app: &mut TokenMonitorApp,
    started: Result<(), String>,
    sources: u32,
    r: Vec<Effect>,
)
    requires
        call_ensures(TokenMonitorApp::trigger_scan, (app, started, sources), r),
    ensures
        r@ == seq![Effect::Notify],
        shows_the_same(final(app).state, old(app).state),
        same_page(final(app).state, old(app).state),
        same_charts(final(app).state, old(app).state),
        same_around(*final(app), *old(app)),
        final(app).view_seq == old(app).view_seq,
        match started {
            Ok(_) => final(app).state.last_error is None && final(app).state.scan_status == (
            ScanStatus::Scanning { completed: 0, total: sources }),
            Err(e) => final(app).state.scan_status == old(app).state.scan_status && (
            final(app).state.last_error matches Some(text) && text@ == "failed to start scan"@
                + ": "@ + e@),
        },
{
}

/// A new interval is taken over, wakes the scheduler and starts a scan; the same one only draws the
/// window anew. That it could not be saved is reported either way.
pub proof fn new_interval_wakes_the_scheduler(
    app: &mut TokenMonitorApp,
    secs: u64,
    saved: Result<(), String>,
    r: Vec<Effect>,
)
    requires
        call_ensures(TokenMonitorApp::select_scan_interval, (app, secs, saved), r),
    ensures
        final(app).settings.scan_interval_secs == secs,
        final(app).settings.theme_color == old(app).settings.theme_color,
        final(app).settings.check_updates_on_startup
            == old(app).settings.check_updates_on_startup,
        final(app).settings.skipped_update_version == old(app).settings.skipped_update_version,
        final(app).state.scan_status == old(app).state.scan_status,
        shows_the_same(final(app).state, old(app).state),
        same_page(final(app).state, old(app).state),
        same_charts(final(app).state, old(app).state),
        final(app).view_seq == old(app).view_seq,
        final(app).applied_seq == old(app).applied_seq,
        final(app).ball_linked == old(app).ball_linked,
        match saved {
            Ok(_) => final(app).state.last_error == old(app).state.last_error,
            Err(e) => final(app).state.last_error matches Some(text) && text@
                == "save scan interval"@ + ": "@ + e@,
        },
        secs != old(app).settings.scan_interval_secs ==> r@ == seq![
            Effect::WakeScheduler,
            Effect::StartScan,
            Effect::Notify,
        ],
        secs == old(app).settings.scan_interval_secs ==> r@ == seq![Effect::Notify],
{
}

/// A new color is taken over, installed, and drawn in all windows; the current one changes nothing.
pub proof fn new_color_is_installed(
    app: &mut TokenMonitorApp,
    color: ThemeColor,
    saved: Result<(), String>,
    r: Vec<Effect>,
)
    requires
        call_ensures(TokenMonitorApp::select_theme_color, (app, color, saved), r),
    ensures
        final(app).settings.theme_color == color,
        final(app).settings.scan_interval_secs == old(app).settings.scan_interval_secs,
        shows_the_same(final(app).state, old(app).state),
        same_page(final(app).state, old(app).state),
        same_charts(final(app).state, old(app).state),
        final(app).state.scan_status == old(app).state.scan_status,
        final(app).view_seq == old(app).view_seq,
        final(app).applied_seq == old(app).applied_seq,
        final(app).ball_linked == old(app).ball_linked,
        color == old(app).settings.theme_color ==> r@.len() == 0 && *final(app) == *old(app),
        color != old(app).settings.theme_color ==> r@ == seq![
            Effect::ApplyTheme(color),
            Effect::RefreshWindows,
            Effect::Notify,
        ] && match saved {
            Ok(_) => final(app).state.last_error == old(app).state.last_error,
            Err(e) => final(app).state.last_error matches Some(text) && text@
                == "save theme color"@ + ": "@ + e@,
        },
{
}

/// A color is new where it is not the current one.
pub proof fn current_color_is_not_new(app: TokenMonitorApp, color: ThemeColor, r: bool)
    requires
        call_ensures(TokenMonitorApp::is_new_color, (&app, color), r),
    ensures
        r <==> app.settings.theme_color.index != color.index,
{
}

/// A refresh requests what is shown under the next number, and changes nothing else.
pub proof fn refresh_requests_what_is_shown(app: &mut TokenMonitorApp, r: AggRequest)
    requires
        call_ensures(TokenMonitorApp::refresh_view, (app,), r),
    ensures
        follows(final(app).view_seq, old(app).view_seq),
        final(app).state == old(app).state,
        same_around(*final(app), *old(app)),
        requests(Effect::RequestAggregate(r), *final(app)),
{
}

/// A period that is selected is shown and requested; the expanded card collapses, and nothing else
/// changes.
pub proof fn selected_period_is_requested(app: &mut TokenMonitorApp, tab: TimeTab, r: Vec<Effect>)
    requires
        call_ensures(TokenMonitorApp::select_time_tab, (app, tab), r),
    ensures
        final(app).state.time_tab == tab,
        final(app).state.expanded_provider is None,
        final(app).state.active_page == old(app).state.active_page,
        final(app).state.report_hover == old(app).state.report_hover,
        shows_the_same(final(app).state, old(app).state),
        same_charts(final(app).state, old(app).state),
        reports_the_same(final(app).state, old(app).state),
        same_around(*final(app), *old(app)),
        follows(final(app).view_seq, old(app).view_seq),
        r@.len() == 2,
        requests(r@[0], *final(app)),
        r@[1] == Effect::Notify,
{
}

/// A page that is selected is shown, with nothing pointed at; the charts are requested when they
/// are entered, and no other page is.
pub proof fn entered_charts_are_requested(
    app: &mut TokenMonitorApp,
    page: ActivePage,
    r: Vec<Effect>,
)
    requires
        call_ensures(TokenMonitorApp::select_page, (app, page), r),
    ensures
        final(app).state.active_page == page,
        final(app).state.report_hover is None,
        final(app).state.time_tab == old(app).state.time_tab,
        final(app).state.expanded_provider == old(app).state.expanded_provider,
        shows_the_same(final(app).state, old(app).state),
        same_charts(final(app).state, old(app).state),
        reports_the_same(final(app).state, old(app).state),
        same_around(*final(app), *old(app)),
        page == ActivePage::Charts ==> follows(final(app).view_seq, old(app).view_seq) && r@.len()
            == 2 && requests(r@[0], *final(app)) && r@[1] == Effect::Notify,
        page != ActivePage::Charts ==> final(app).view_seq == old(app).view_seq && r@ == seq![
            Effect::Notify,
        ],
{
}

/// A period of the charts that is selected takes the place of the dates of the user's own. A preset
/// is requested at once, and the dates are cleared from the picker; own dates wait to be picked.
pub proof fn selected_preset_is_requested(
    app: &mut TokenMonitorApp,
    range: ChartRange,
    r: Vec<Effect>,
)
    requires
        call_ensures(TokenMonitorApp::select_chart_range, (app, range), r),
    ensures
        final(app).state.charts.range == range,
        final(app).state.charts.custom_range is None,
        final(app).state.charts.metric == old(app).state.charts.metric,
        final(app).state.charts.app == old(app).state.charts.app,
        same_page(final(app).state, old(app).state),
        shows_the_same(final(app).state, old(app).state),
        reports_the_same(final(app).state, old(app).state),
        same_around(*final(app), *old(app)),
        range == ChartRange::Custom ==> final(app).view_seq == old(app).view_seq && r@ == seq![
            Effect::SyncRangeSelect,
            Effect::Notify,
        ],
        range != ChartRange::Custom ==> follows(final(app).view_seq, old(app).view_seq) && r@.len()
            == 4 && r@[0] == Effect::ClearRangePicker && requests(r@[1], *final(app)) && r@[2]
            == Effect::SyncRangeSelect && r@[3] == Effect::Notify,
{
}

/// Dates that are picked bound the charts, the earlier as the first and the later as the last day,
/// and are requested at once.
pub proof fn picked_dates_are_requested(
    app: &mut TokenMonitorApp,
    start: i32,
    end: i32,
    r: Vec<Effect>,
)
    requires
        call_ensures(TokenMonitorApp::select_chart_custom_range, (app, start, end), r),
    ensures
        final(app).state.charts.custom_range matches Some(dates) && dates.first <= dates.last && (
        dates.first == start && dates.last == end || dates.first == end && dates.last == start),
        final(app).state.charts.range == old(app).state.charts.range,
        final(app).state.charts.metric == old(app).state.charts.metric,
        final(app).state.charts.app == old(app).state.charts.app,
        same_page(final(app).state, old(app).state),
        shows_the_same(final(app).state, old(app).state),
        reports_the_same(final(app).state, old(app).state),
        same_around(*final(app), *old(app)),
        follows(final(app).view_seq, old(app).view_seq),
        r@.len() == 3,
        r@[0] == Effect::SyncRangeSelect,
        requests(r@[1], *final(app)),
        r@[2] == Effect::Notify,
{
}

/// Dates that are cleared no longer bound the charts, which are requested anew.
pub proof fn cleared_dates_are_requested(app: &mut TokenMonitorApp, r: Vec<Effect>)
    requires
        call_ensures(TokenMonitorApp::clear_chart_custom_range, (app,), r),
    ensures
        final(app).state.charts.custom_range is None,
        final(app).state.charts.range == old(app).state.charts.range,
        final(app).state.charts.metric == old(app).state.charts.metric,
        final(app).state.charts.app == old(app).state.charts.app,
        same_page(final(app).state, old(app).state),
        shows_the_same(final(app).state, old(app).state),
        reports_the_same(final(app).state, old(app).state),
        same_around(*final(app), *old(app)),
        follows(final(app).view_seq, old(app).view_seq),
        r@.len() == 3,
        r@[0] == Effect::SyncRangeSelect,
        requests(r@[1], *final(app)),
        r@[2] == Effect::Notify,
{
}

/// What the charts plot is selected without a request.
pub proof fn selected_metric_needs_no_request(
    app: &mut TokenMonitorApp,
    metric: ChartMetric,
    r: Vec<Effect>,
)
    requires
        call_ensures(TokenMonitorApp::select_chart_metric, (app, metric), r),
    ensures
        final(app).state.charts.metric == metric,
        final(app).state.charts.range == old(app).state.charts.range,
        final(app).state.charts.custom_range == old(app).state.charts.custom_range,
        final(app).state.charts.app == old(app).state.charts.app,
        same_page(final(app).state, old(app).state),
        shows_the_same(final(app).state, old(app).state),
        reports_the_same(final(app).state, old(app).state),
        same_around(*final(app), *old(app)),
        final(app).view_seq == old(app).view_seq,
        r@ == seq![Effect::Notify],
{
}

/// A provider that is selected for the charts is requested.
pub proof fn selected_provider_is_requested(
    app: &mut TokenMonitorApp,
    provider: ChartApp,
    r: Vec<Effect>,
)
    requires
        call_ensures(TokenMonitorApp::select_chart_app, (app, provider), r),
    ensures
        final(app).state.charts.app == provider,
        final(app).state.charts.range == old(app).state.charts.range,
        final(app).state.charts.custom_range == old(app).state.charts.custom_range,
        final(app).state.charts.metric == old(app).state.charts.metric,
        same_page(final(app).state, old(app).state),
        shows_the_same(final(app).state, old(app).state),
        reports_the_same(final(app).state, old(app).state),
        same_around(*final(app), *old(app)),
        follows(final(app).view_seq, old(app).view_seq),
        r@.len() == 2,
        requests(r@[0], *final(app)),
        r@[1] == Effect::Notify,
{
}

/// The card of a provider that is clicked expands in place of any other, or collapses where it was
/// expanded.
pub proof fn clicked_card_expands_or_collapses(
    app: &mut TokenMonitorApp,
    provider: Provider,
    r: Vec<Effect>,
)
    requires
        call_ensures(TokenMonitorApp::toggle_provider_expanded, (app, provider), r),
    ensures
        old(app).state.expanded_provider == Some(provider)
            ==> final(app).state.expanded_provider is None,
        old(app).state.expanded_provider != Some(provider) ==> final(app).state.expanded_provider
            == Some(provider),
        final(app).state.active_page == old(app).state.active_page,
        final(app).state.time_tab == old(app).state.time_tab,
        final(app).state.report_hover == old(app).state.report_hover,
        same_charts(final(app).state, old(app).state),
        shows_the_same(final(app).state, old(app).state),
        reports_the_same(final(app).state, old(app).state),
        same_around(*final(app), *old(app)),
        final(app).view_seq == old(app).view_seq,
        r@ == seq![Effect::Notify],
{
}

/// A source that starts to be scanned goes on with a running count, or starts one at zero.
pub proof fn started_source_goes_on_with_the_count(
    app: &mut TokenMonitorApp,
    sources: u32,
    now: i64,
    r: Vec<Effect>,
)
    requires
        call_ensures(
            TokenMonitorApp::handle_collector_event,
            (app, CollectorEvent::ScanStarted, sources, now),
            r,
        ),
    ensures
        match old(app).state.scan_status {
            ScanStatus::Scanning { completed, .. } => final(app).state.scan_status == (
            ScanStatus::Scanning { completed, total: sources }),
            _ => final(app).state.scan_status == (ScanStatus::Scanning {
                completed: 0,
                total: sources,
            }),
        },
        final(app).state.last_error == old(app).state.last_error,
        same_page(final(app).state, old(app).state),
        same_charts(final(app).state, old(app).state),
        shows_the_same(final(app).state, old(app).state),
        same_around(*final(app), *old(app)),
        final(app).view_seq == old(app).view_seq,
        r@ == seq![Effect::Notify],
{
}

/// A source that was scanned counts as one more; with the last of them the scan is done, with its
/// records at that time. What it brought is requested, unless it brought nothing new.
pub proof fn scanned_source_counts_and_is_requested(
    app: &mut TokenMonitorApp,
    records: u64,
    unchanged: bool,
    sources: u32,
    now: i64,
    r: Vec<Effect>,
)
    requires
        call_ensures(
            TokenMonitorApp::handle_collector_event,
            (app, CollectorEvent::ScanCompleted { records, unchanged }, sources, now),
            r,
        ),
        old(app).state.scan_status matches ScanStatus::Scanning { completed, .. } ==> completed
            < u32::MAX,
    ensures
        ({
            let done = match old(app).state.scan_status {
                ScanStatus::Scanning { completed, .. } => completed + 1,
                _ => 1,
            };
            &&& done >= sources ==> final(app).state.scan_status == (ScanStatus::Done {
                records,
                at: now,
            })
            &&& done < sources ==> final(app).state.scan_status == (ScanStatus::Scanning {
                completed: done as u32,
                total: sources,
            })
        }),
        final(app).state.last_error == old(app).state.last_error,
        same_page(final(app).state, old(app).state),
        same_charts(final(app).state, old(app).state),
        shows_the_same(final(app).state, old(app).state),
        same_around(*final(app), *old(app)),
        unchanged ==> final(app).view_seq == old(app).view_seq && r@ == seq![Effect::Notify],
        !unchanged ==> follows(final(app).view_seq, old(app).view_seq) && r@.len() == 2
            && requests(r@[0], *final(app)) && r@[1] == Effect::Notify,
{
}

/// A source that failed is reported with its name and its reason.
pub proof fn failed_source_is_reported(
    app: &mut TokenMonitorApp,
    provider_name: String,
    error: String,
    sources: u32,
    now: i64,
    r: Vec<Effect>,
)
    requires
        call_ensures(
            TokenMonitorApp::handle_collector_event,
            (app, CollectorEvent::ScanFailed { provider_name, error }, sources, now),
            r,
        ),
    ensures
        final(app).state.scan_status == (ScanStatus::Failed { error }),
        final(app).state.last_error matches Some(text) && text@ == provider_name@ + ": "@ + error@,
        same_page(final(app).state, old(app).state),
        same_charts(final(app).state, old(app).state),
        shows_the_same(final(app).state, old(app).state),
        same_around(*final(app), *old(app)),
        final(app).view_seq == old(app).view_seq,
        r@ == seq![Effect::Notify],
{
}

/// A change that is watched for starts a scan, and changes nothing itself.
pub proof fn watched_change_starts_a_scan(
    app: &mut TokenMonitorApp,
    sources: u32,
    now: i64,
    r: Vec<Effect>,
)
    requires
        call_ensures(
            TokenMonitorApp::handle_collector_event,
            (app, CollectorEvent::Watch, sources, now),
            r,
        ),
    ensures
        *final(app) == *old(app),
        r@ == seq![Effect::Rescan, Effect::Notify],
{
}

/// A ball that was opened is linked, and nothing else changes.
pub proof fn opened_ball_is_linked(app: &mut TokenMonitorApp, r: ())
    requires
        call_ensures(TokenMonitorApp::link_ball, (app,), r),
    ensures
        final(app).ball_linked,
        final(app).state == old(app).state,
        final(app).settings == old(app).settings,
        final(app).view_seq == old(app).view_seq,
        final(app).applied_seq == old(app).applied_seq,
{
}

/// A snapshot that is not older than the one shown is shown whole; an older one changes nothing. A
/// ball that is linked and there gets its totals.
pub proof fn newest_snapshot_is_shown(
    app: &mut TokenMonitorApp,
    snap: ViewSnapshot,
    ball_alive: bool,
    r: Vec<Effect>,
)
    requires
        call_ensures(TokenMonitorApp::apply_snapshot, (app, snap, ball_alive), r),
        snap.summary matches Some(s) ==> s.input_tokens + s.output_tokens + s.cache_read_tokens
            + s.cache_write_tokens <= u64::MAX,
    ensures
        snap.seq < old(app).applied_seq ==> *final(app) == *old(app) && r@.len() == 0,
        snap.seq >= old(app).applied_seq ==> {
            &&& final(app).state.summary == snap.summary
            &&& final(app).state.by_provider == snap.by_provider
            &&& final(app).state.by_provider_model == snap.by_provider_model
            &&& final(app).state.by_project == snap.by_project
            &&& final(app).state.by_day == snap.by_day
            &&& final(app).state.charts.data == if snap.charts is Some {
                snap.charts
            } else {
                old(app).state.charts.data
            }
            &&& final(app).state.report == if snap.report is Some {
                snap.report
            } else {
                old(app).state.report
            }
            &&& final(app).state.last_error == if snap.error is Some {
                snap.error
            } else {
                old(app).state.last_error
            }
            &&& final(app).applied_seq == snap.seq
            &&& final(app).ball_linked == (old(app).ball_linked && ball_alive)
            &&& r@[r@.len() - 1] == Effect::Notify
            &&& old(app).ball_linked && ball_alive ==> (snap.summary matches Some(s) ==> r@.len()
                == 2 && (r@[0] matches Effect::PushUsage { total_tokens, cost_micros, time_tab }
                && total_tokens == s.input_tokens + s.output_tokens + s.cache_read_tokens
                + s.cache_write_tokens && cost_micros == s.cost_micros && time_tab
                == snap.time_tab))
            &&& !(old(app).ball_linked && ball_alive) || snap.summary is None ==> r@.len() == 1
        },
        same_page(final(app).state, old(app).state),
        same_charts(final(app).state, old(app).state),
        final(app).state.scan_status == old(app).state.scan_status,
        final(app).settings == old(app).settings,
        final(app).view_seq == old(app).view_seq,
{
}

/// The charts can be narrowed to all providers together, and to each of them in order.
pub proof fn charts_can_be_narrowed_to_each_provider(
    providers: Vec<Provider>,
    r: Vec<ChartApp>,
    i: int,
)
    requires
        call_ensures(chart_app_options, (&providers,), r),
        0 <= i < providers@.len(),
    ensures
        r@.len() == providers@.len() + 1,
        r@[0] == ChartApp::All,
        r@[i + 1] == ChartApp::One(providers@[i]),
{
}

} // verus!
