//! The state of the monitor, and how it answers to the user, to the collector and to new
//! snapshots.
//!
//! A handler changes the state and returns what is left to do outside, in order.

use vstd::prelude::*;
use vstd::string::*;
use crate::model::{opt_text, Provider};
use crate::slot::put_into;
use crate::snapshot::{
    ChartsSnapshot, NamedStats, ProviderModels, ProviderStats, ReportSnapshot, TimeTab,
    ViewSnapshot,
};
use crate::stats::{DayStats, SumStats};

verus! {

/// How many days the report looks back.
pub const REPORT_DAYS: u32 = 365;

/// The accent color, by its place in the list of colors.
#[derive(Debug, Clone, Copy, PartialEq, Eq, Structural)]
pub struct ThemeColor {
    pub index: u8,
}

/// The page that is shown.
#[derive(Debug, Clone, Copy, PartialEq, Eq, Structural)]
pub enum ActivePage {
    Dashboard,
    Charts,
    Other(u8),
}

/// The period of the charts: a preset, by its place in the list, or dates of the user's own.
#[derive(Debug, Clone, Copy, PartialEq, Eq, Structural)]
pub enum ChartRange {
    Preset(u8),
    Custom,
}

/// What the charts plot, by its place in the list.
#[derive(Debug, Clone, Copy, PartialEq, Eq, Structural)]
pub struct ChartMetric {
    pub index: u8,
}

/// Whose usage the charts plot.
#[derive(Debug, Clone, Copy, PartialEq, Eq, Structural)]
pub enum ChartApp {
    All,
    One(Provider),
}

/// The first and the last day of a period, in days since the Unix epoch.
#[derive(Debug, Clone, Copy, PartialEq, Eq, Structural)]
pub struct DateRange {
    pub first: i32,
    pub last: i32,
}

/// How far a scan has come.
#[derive(Debug)]
pub enum ScanStatus {
    Idle,
    Scanning { completed: u32, total: u32 },
    /// `at` is in milliseconds since the Unix epoch.
    Done { records: u64, at: i64 },
    Failed { error: String },
}

/// The state of the charts page.
#[derive(Debug)]
pub struct ChartsState {
    pub range: ChartRange,
    pub custom_range: Option<DateRange>,
    pub metric: ChartMetric,
    pub app: ChartApp,
    pub data: Option<ChartsSnapshot>,
}

/// The state that the pages show.
#[derive(Debug)]
pub struct AppState {
    pub active_page: ActivePage,
    pub time_tab: TimeTab,
    pub expanded_provider: Option<Provider>,
    pub report_hover: Option<u32>,
    pub scan_status: ScanStatus,
    pub last_error: Option<String>,
    pub summary: Option<SumStats>,
    pub by_provider: Vec<ProviderStats>,
    pub by_provider_model: Vec<ProviderModels>,
    pub by_project: Vec<NamedStats>,
    pub by_day: Vec<DayStats>,
    pub charts: ChartsState,
    pub report: Option<ReportSnapshot>,
}

/// What the charts ask the history for.
#[derive(Debug, Clone, Copy, PartialEq, Eq, Structural)]
pub struct ChartQuery {
    pub range: ChartRange,
    pub custom_range: Option<DateRange>,
    pub app: ChartApp,
}

/// A request for a snapshot.
#[derive(Debug, Clone, Copy, PartialEq, Eq, Structural)]
pub struct AggRequest {
    pub seq: u64,
    pub time_tab: TimeTab,
    pub charts: Option<ChartQuery>,
    /// How many days the report looks back.
    pub report_days: u32,
}

/// What is left to do outside.
#[derive(Debug, Clone, Copy, PartialEq, Eq, Structural)]
pub enum Effect {
    /// Draw the window anew.
    Notify,
    /// Start a scan, and hand the outcome to [`TokenMonitorApp::trigger_scan`].
    StartScan,
    /// Start a scan; the outcome does not matter.
    Rescan,
    /// Wake the scheduler, so that it takes up the new interval.
    WakeScheduler,
    /// Install the accent color.
    ApplyTheme(ThemeColor),
    /// Draw all windows anew.
    RefreshWindows,
    /// Put a request for a snapshot into the slot of the worker, in place of one that it has not
    /// taken up yet.
    RequestAggregate(AggRequest),
    /// Clear the dates in the date picker.
    ClearRangePicker,
    /// List the periods of the charts anew, and select the current one.
    SyncRangeSelect,
    /// List the providers of the charts anew, and select the current one.
    SyncAppSelect,
    /// Show these totals, with their period, on the floating ball.
    PushUsage { total_tokens: u64, cost_micros: u64, time_tab: TimeTab },
}

/// What the collector reports.
#[derive(Debug)]
pub enum CollectorEvent {
    ScanStarted,
    ScanCompleted { records: u64, unchanged: bool },
    ScanFailed { provider_name: String, error: String },
    Watch,
}

/// What the collector keeps between runs.
#[derive(Debug)]
pub struct Settings {
    pub scan_interval_secs: u64,
    pub theme_color: ThemeColor,
    pub check_updates_on_startup: bool,
    pub skipped_update_version: Option<String>,
}

/// The monitor.
#[derive(Debug)]
pub struct TokenMonitorApp {
    pub state: AppState,
    pub settings: Settings,
    /// The number of the last request for a snapshot.
    pub view_seq: u64,
    /// The highest number of a snapshot that was applied.
    pub applied_seq: u64,
    /// Whether the floating ball was opened and not seen to be gone.
    pub ball_linked: bool,
}

/// The number of the next request.
pub open spec fn next_seq(seq: u64) -> u64 {
    if seq == u64::MAX {
        0
    } else {
        (seq + 1) as u64
    }
}

/// The request that the state asks for.
pub open spec fn request(app: TokenMonitorApp) -> AggRequest {
    AggRequest {
        seq: app.view_seq,
        time_tab: app.state.time_tab,
        charts: if app.state.active_page == ActivePage::Charts {
            Some(
                ChartQuery {
                    range: app.state.charts.range,
                    custom_range: app.state.charts.custom_range,
                    app: app.state.charts.app,
                },
            )
        } else {
            None
        },
        report_days: REPORT_DAYS,
    }
}

/// The monitor with the number of the next request taken.
pub open spec fn refreshed(app: TokenMonitorApp) -> TokenMonitorApp {
    TokenMonitorApp { view_seq: next_seq(app.view_seq), ..app }
}

/// The status when a provider starts to be scanned: the count goes on.
pub open spec fn started_status(status: ScanStatus, total: u32) -> ScanStatus {
    match status {
        ScanStatus::Scanning { completed, .. } => ScanStatus::Scanning { completed, total },
        _ => ScanStatus::Scanning { completed: 0, total },
    }
}

/// The status when a provider has been scanned: one more, or done where that was the last.
pub open spec fn completed_status(
    status: ScanStatus,
    total: u32,
    records: u64,
    at: i64,
) -> ScanStatus {
    let completed = match status {
        ScanStatus::Scanning { completed, .. } => completed + 1,
        _ => 1,
    };
    if completed >= total {
        ScanStatus::Done { records, at }
    } else {
        ScanStatus::Scanning { completed: completed as u32, total }
    }
}

/// The two dates in order.
pub open spec fn ordered(start: i32, end: i32) -> DateRange {
    if start <= end {
        DateRange { first: start, last: end }
    } else {
        DateRange { first: end, last: start }
    }
}

/// The state that shows a snapshot.
pub open spec fn shown(state: AppState, snap: ViewSnapshot) -> AppState {
    AppState {
        summary: snap.summary,
        by_provider: snap.by_provider,
        by_provider_model: snap.by_provider_model,
        by_project: snap.by_project,
        by_day: snap.by_day,
        charts: ChartsState {
            data: match snap.charts {
                Some(charts) => Some(charts),
                None => state.charts.data,
            },
            ..state.charts
        },
        report: match snap.report {
            Some(report) => Some(report),
            None => state.report,
        },
        last_error: match snap.error {
            Some(error) => Some(error),
            None => state.last_error,
        },
        ..state
    }
}

/// The monitor after a snapshot: as it was where one with a higher number was applied before.
/// `ball_alive` says whether the floating ball is still there.
pub open spec fn applied(
    app: TokenMonitorApp,
    snap: ViewSnapshot,
    ball_alive: bool,
) -> TokenMonitorApp {
    if snap.seq < app.applied_seq {
        app
    } else {
        TokenMonitorApp {
            state: shown(app.state, snap),
            applied_seq: snap.seq,
            ball_linked: app.ball_linked && ball_alive,
            ..app
        }
    }
}

/// What is left to do after a snapshot.
pub open spec fn snapshot_effects(
    app: TokenMonitorApp,
    snap: ViewSnapshot,
    ball_alive: bool,
) -> Seq<Effect> {
    if snap.seq < app.applied_seq {
        seq![]
    } else if app.ball_linked && ball_alive && snap.summary is Some {
        seq![
            Effect::PushUsage {
                total_tokens: snap.summary->0.tokens() as u64,
                cost_micros: snap.summary->0.cost_micros,
                time_tab: snap.time_tab,
            },
            Effect::Notify,
        ]
    } else {
        seq![Effect::Notify]
    }
}

/// The state with a provider card expanded, or collapsed where it was.
pub open spec fn toggled(expanded: Option<Provider>, provider: Provider) -> Option<Provider> {
    if expanded == Some(provider) {
        None
    } else {
        Some(provider)
    }
}

/// One effect.
fn one(effect: Effect) -> (r: Vec<Effect>)
    ensures
        r@ == seq![effect],
{
    let mut r: Vec<Effect> = Vec::new();
    r.push(effect);
    assert(r@ =~= seq![effect]);
    r
}

/// Two effects.
fn two(first: Effect, second: Effect) -> (r: Vec<Effect>)
    ensures
        r@ == seq![first, second],
{
    let mut r = one(first);
    r.push(second);
    assert(r@ =~= seq![first, second]);
    r
}

/// Three effects.
fn three(first: Effect, second: Effect, third: Effect) -> (r: Vec<Effect>)
    ensures
        r@ == seq![first, second, third],
{
    let mut r = two(first, second);
    r.push(third);
    assert(r@ =~= seq![first, second, third]);
    r
}

/// Four effects.
fn four(first: Effect, second: Effect, third: Effect, fourth: Effect) -> (r: Vec<Effect>)
    ensures
        r@ == seq![first, second, third, fourth],
{
    let mut r = three(first, second, third);
    r.push(fourth);
    assert(r@ =~= seq![first, second, third, fourth]);
    r
}

/// A message about something that failed with `e`.
fn message(what: &str, e: &str) -> (r: String)
    ensures
        r@ == what@ + ": "@ + e@,
{
    let mut r = what.to_owned();
    r.append(": ");
    r.append(e);
    r
}

/// The providers that the charts can be narrowed to: all together, then each.
pub fn chart_app_options(providers: &Vec<Provider>) -> (r: Vec<ChartApp>)
    ensures
        r@ == seq![ChartApp::All] + providers@.map_values(|p: Provider| ChartApp::One(p)),
{
    let mut r: Vec<ChartApp> = Vec::new();
    r.push(ChartApp::All);
    let mut i: usize = 0;
    assert(r@ =~= seq![ChartApp::All] + providers@.take(0).map_values(
        |p: Provider| ChartApp::One(p),
    ));
    while i < providers.len()
        invariant
            i <= providers@.len(),
            r@ == seq![ChartApp::All] + providers@.take(i as int).map_values(
                |p: Provider| ChartApp::One(p),
            ),
        decreases providers@.len() - i,
    {
        r.push(ChartApp::One(providers[i]));
        assert(r@ =~= seq![ChartApp::All] + providers@.take(i + 1).map_values(
            |p: Provider| ChartApp::One(p),
        ));
        i += 1;
    }
    assert(providers@.take(providers@.len() as int) =~= providers@);
    r
}

/// The state of a monitor that has scanned nothing yet: the dashboard, with nothing to show.
pub open spec fn is_initial(state: AppState) -> bool {
    &&& state.active_page == ActivePage::Dashboard
    &&& state.time_tab == (TimeTab { index: 0 })
    &&& state.expanded_provider is None
    &&& state.report_hover is None
    &&& state.scan_status is Idle
    &&& state.last_error is None
    &&& state.summary is None
    &&& state.by_provider@.len() == 0
    &&& state.by_provider_model@.len() == 0
    &&& state.by_project@.len() == 0
    &&& state.by_day@.len() == 0
    &&& state.charts == (ChartsState {
        range: ChartRange::Preset(0),
        custom_range: None,
        metric: ChartMetric { index: 0 },
        app: ChartApp::All,
        data: None,
    })
    &&& state.report is None
}

impl Default for AppState {
    /// The dashboard, with nothing scanned yet.
    fn default() -> (r: AppState)
        ensures
            is_initial(r),
    {
        AppState {
            active_page: ActivePage::Dashboard,
            time_tab: TimeTab { index: 0 },
            expanded_provider: None,
            report_hover: None,
            scan_status: ScanStatus::Idle,
            last_error: None,
            summary: None,
            by_provider: Vec::new(),
            by_provider_model: Vec::new(),
            by_project: Vec::new(),
            by_day: Vec::new(),
            charts: ChartsState {
                range: ChartRange::Preset(0),
                custom_range: None,
                metric: ChartMetric { index: 0 },
                app: ChartApp::All,
                data: None,
            },
            report: None,
        }
    }
}

impl TokenMonitorApp {
    /// A running count can go on, and the dates of the charts are in order.
    pub open spec fn wf(self) -> bool {
        &&& self.state.scan_status matches ScanStatus::Scanning { completed, .. } ==> completed
            < u32::MAX
        &&& self.state.charts.custom_range matches Some(range) ==> range.first <= range.last
    }

    /// A monitor that starts: it selects the providers of the charts, installs the accent, starts
    /// a scan and asks for a first snapshot.
    pub fn new(settings: Settings) -> (r: (TokenMonitorApp, Vec<Effect>))
        ensures
            r.0.wf(),
            r.0.settings == settings,
            r.0.view_seq == 1,
            r.0.applied_seq == 0,
            !r.0.ball_linked,
            is_initial(r.0.state),
            r.1@ == seq![
                Effect::SyncAppSelect,
                Effect::ApplyTheme(settings.theme_color),
                Effect::StartScan,
                Effect::RequestAggregate(request(r.0)),
            ],
    {
        let mut app = TokenMonitorApp {
            state: AppState::default(),
            settings,
            view_seq: 0,
            applied_seq: 0,
            ball_linked: false,
        };
        let req = app.refresh_view();
        let color = app.settings.theme_color;
        let effects = four(
            Effect::SyncAppSelect,
            Effect::ApplyTheme(color),
            Effect::StartScan,
            Effect::RequestAggregate(req),
        );
        (app, effects)
    }

    /// Takes note of whether a scan of `sources` sources could be started.
    pub fn trigger_scan(&mut self, started: Result<(), String>, sources: u32) -> (r: Vec<Effect>)
        requires
            old(self).wf(),
        ensures
            final(self).wf(),
            r@ == seq![Effect::Notify],
            match started {
                Ok(_) => *final(self) == (TokenMonitorApp {
                    state: AppState {
                        scan_status: ScanStatus::Scanning { completed: 0, total: sources },
                        last_error: None,
                        ..old(self).state
                    },
                    ..*old(self)
                }),
                Err(e) => {
                    &&& opt_text(final(self).state.last_error) == Some(
                        "failed to start scan"@ + ": "@ + e@,
                    )
                    &&& *final(self) == (TokenMonitorApp {
                        state: AppState {
                            last_error: final(self).state.last_error,
                            ..old(self).state
                        },
                        ..*old(self)
                    })
                },
            },
    {
        match started {
            Ok(_) => {
                self.state.scan_status = ScanStatus::Scanning { completed: 0, total: sources };
                self.state.last_error = None;
            },
            Err(e) => {
                self.state.last_error = Some(message("failed to start scan", e.as_str()));
            },
        }
        one(Effect::Notify)
    }

    /// Takes over the interval between scans. `saved` says whether it could be saved. A new
    /// interval wakes the scheduler and starts a scan at once.
    pub fn select_scan_interval(&mut self, secs: u64, saved: Result<(), String>) -> (r: Vec<Effect>)
        requires
            old(self).wf(),
        ensures
            final(self).wf(),
            match saved {
                Ok(_) => final(self).state.last_error == old(self).state.last_error,
                Err(e) => opt_text(final(self).state.last_error) == Some(
                    "save scan interval"@ + ": "@ + e@,
                ),
            },
            *final(self) == (TokenMonitorApp {
                state: AppState { last_error: final(self).state.last_error, ..old(self).state },
                settings: Settings { scan_interval_secs: secs, ..old(self).settings },
                ..*old(self)
            }),
            r@ == (if secs != old(self).settings.scan_interval_secs {
                seq![Effect::WakeScheduler, Effect::StartScan, Effect::Notify]
            } else {
                seq![Effect::Notify]
            }),
    {
        let changed: bool = self.settings.scan_interval_secs != secs;
        self.settings.scan_interval_secs = secs;
        if let Err(e) = saved {
            self.state.last_error = Some(message("save scan interval", e.as_str()));
        }
        if changed {
            three(Effect::WakeScheduler, Effect::StartScan, Effect::Notify)
        } else {
            one(Effect::Notify)
        }
    }

    /// Whether a color differs from the current one, so that it has to be saved and taken over.
    pub fn is_new_color(&self, color: ThemeColor) -> (r: bool)
        ensures
            r == (color != self.settings.theme_color),
    {
        self.settings.theme_color != color
    }

    /// Takes over the accent color. `saved` says whether it could be saved. The current color
    /// changes nothing.
    pub fn select_theme_color(&mut self, color: ThemeColor, saved: Result<(), String>) -> (r: Vec<
        Effect,
    >)
        requires
            old(self).wf(),
        ensures
            final(self).wf(),
            if color == old(self).settings.theme_color {
                *final(self) == *old(self) && r@ == Seq::<Effect>::empty()
            } else {
                &&& match saved {
                    Ok(_) => final(self).state.last_error == old(self).state.last_error,
                    Err(e) => opt_text(final(self).state.last_error) == Some(
                        "save theme color"@ + ": "@ + e@,
                    ),
                }
                &&& *final(self) == (TokenMonitorApp {
                    state: AppState { last_error: final(self).state.last_error, ..old(self).state },
                    settings: Settings { theme_color: color, ..old(self).settings },
                    ..*old(self)
                })
                &&& r@ == seq![Effect::ApplyTheme(color), Effect::RefreshWindows, Effect::Notify]
            },
    {
        if self.settings.theme_color == color {
            return Vec::new();
        }
        self.settings.theme_color = color;
        if let Err(e) = saved {
            self.state.last_error = Some(message("save theme color", e.as_str()));
        }
        three(Effect::ApplyTheme(color), Effect::RefreshWindows, Effect::Notify)
    }

    /// Takes the number of the next request, and makes the request that the state asks for.
    pub fn refresh_view(&mut self) -> (r: AggRequest)
        ensures
            *final(self) == refreshed(*old(self)),
            r == request(*final(self)),
    {
        self.view_seq = self.view_seq.wrapping_add(1);
        let charts: Option<ChartQuery> = if self.state.active_page == ActivePage::Charts {
            Some(
                ChartQuery {
                    range: self.state.charts.range,
                    custom_range: self.state.charts.custom_range,
                    app: self.state.charts.app,
                },
            )
        } else {
            None
        };
        AggRequest {
            seq: self.view_seq,
            time_tab: self.state.time_tab,
            charts,
            report_days: REPORT_DAYS,
        }
    }

    /// Switches the period of the dashboard, and collapses the expanded card.
    pub fn select_time_tab(&mut self, tab: TimeTab) -> (r: Vec<Effect>)
        requires
            old(self).wf(),
        ensures
            final(self).wf(),
            *final(self) == refreshed(
                TokenMonitorApp {
                    state: AppState { time_tab: tab, expanded_provider: None, ..old(self).state },
                    ..*old(self)
                },
            ),
            final(self).state.time_tab == tab,
            final(self).state.expanded_provider is None,
            r@ == seq![Effect::RequestAggregate(request(*final(self))), Effect::Notify],
    {
        self.state.time_tab = tab;
        self.state.expanded_provider = None;
        let req = self.refresh_view();
        two(Effect::RequestAggregate(req), Effect::Notify)
    }

    /// Switches the page. The charts are loaded when their page is entered.
    pub fn select_page(&mut self, page: ActivePage) -> (r: Vec<Effect>)
        requires
            old(self).wf(),
        ensures
            final(self).wf(),
            ({
                let turned = TokenMonitorApp {
                    state: AppState { active_page: page, report_hover: None, ..old(self).state },
                    ..*old(self)
                };
                if page == ActivePage::Charts {
                    &&& *final(self) == refreshed(turned)
                    &&& r@ == seq![Effect::RequestAggregate(request(*final(self))), Effect::Notify]
                } else {
                    *final(self) == turned && r@ == seq![Effect::Notify]
                }
            }),
            final(self).state.active_page == page,
            final(self).state.report_hover is None,
    {
        self.state.active_page = page;
        self.state.report_hover = None;
        if page == ActivePage::Charts {
            let req = self.refresh_view();
            two(Effect::RequestAggregate(req), Effect::Notify)
        } else {
            one(Effect::Notify)
        }
    }

    /// Selects the period of the charts. A preset clears the date picker and is loaded at once;
    /// own dates are loaded when they are picked.
    pub fn select_chart_range(&mut self, range: ChartRange) -> (r: Vec<Effect>)
        requires
            old(self).wf(),
        ensures
            final(self).wf(),
            ({
                let ranged = TokenMonitorApp {
                    state: AppState {
                        charts: ChartsState { range, custom_range: None, ..old(self).state.charts },
                        ..old(self).state
                    },
                    ..*old(self)
                };
                if range == ChartRange::Custom {
                    &&& *final(self) == ranged
                    &&& r@ == seq![Effect::SyncRangeSelect, Effect::Notify]
                } else {
                    &&& *final(self) == refreshed(ranged)
                    &&& r@ == seq![
                        Effect::ClearRangePicker,
                        Effect::RequestAggregate(request(*final(self))),
                        Effect::SyncRangeSelect,
                        Effect::Notify,
                    ]
                }
            }),
            final(self).state.charts.range == range,
            final(self).state.charts.custom_range is None,
    {
        self.state.charts.range = range;
        self.state.charts.custom_range = None;
        if range != ChartRange::Custom {
            let req = self.refresh_view();
            four(
                Effect::ClearRangePicker,
                Effect::RequestAggregate(req),
                Effect::SyncRangeSelect,
                Effect::Notify,
            )
        } else {
            two(Effect::SyncRangeSelect, Effect::Notify)
        }
    }

    /// Sets the dates of the charts, both included and in either order.
    pub fn select_chart_custom_range(&mut self, start: i32, end: i32) -> (r: Vec<Effect>)
        requires
            old(self).wf(),
        ensures
            final(self).wf(),
            *final(self) == refreshed(
                TokenMonitorApp {
                    state: AppState {
                        charts: ChartsState {
                            custom_range: Some(ordered(start, end)),
                            ..old(self).state.charts
                        },
                        ..old(self).state
                    },
                    ..*old(self)
                },
            ),
            final(self).state.charts.custom_range matches Some(d) && d.first <= d.last && (d.first
                == start && d.last == end || d.first == end && d.last == start),
            r@ == seq![
                Effect::SyncRangeSelect,
                Effect::RequestAggregate(request(*final(self))),
                Effect::Notify,
            ],
    {
        let range: DateRange = if start <= end {
            DateRange { first: start, last: end }
        } else {
            DateRange { first: end, last: start }
        };
        self.state.charts.custom_range = Some(range);
        let req = self.refresh_view();
        three(Effect::SyncRangeSelect, Effect::RequestAggregate(req), Effect::Notify)
    }

    /// Forgets the dates of the charts, when the date picker is cleared.
    pub fn clear_chart_custom_range(&mut self) -> (r: Vec<Effect>)
        requires
            old(self).wf(),
        ensures
            final(self).wf(),
            *final(self) == refreshed(
                TokenMonitorApp {
                    state: AppState {
                        charts: ChartsState { custom_range: None, ..old(self).state.charts },
                        ..old(self).state
                    },
                    ..*old(self)
                },
            ),
            final(self).state.charts.custom_range is None,
            r@ == seq![
                Effect::SyncRangeSelect,
                Effect::RequestAggregate(request(*final(self))),
                Effect::Notify,
            ],
    {
        self.state.charts.custom_range = None;
        let req = self.refresh_view();
        three(Effect::SyncRangeSelect, Effect::RequestAggregate(req), Effect::Notify)
    }

    /// Selects what the charts plot; nothing has to be loaded for that.
    pub fn select_chart_metric(&mut self, metric: ChartMetric) -> (r: Vec<Effect>)
        requires
            old(self).wf(),
        ensures
            final(self).wf(),
            *final(self) == (TokenMonitorApp {
                state: AppState {
                    charts: ChartsState { metric, ..old(self).state.charts },
                    ..old(self).state
                },
                ..*old(self)
            }),
            final(self).state.charts.metric == metric,
            r@ == seq![Effect::Notify],
    {
        self.state.charts.metric = metric;
        one(Effect::Notify)
    }

    /// Selects whose usage the charts plot.
    pub fn select_chart_app(&mut self, app: ChartApp) -> (r: Vec<Effect>)
        requires
            old(self).wf(),
        ensures
            final(self).wf(),
            *final(self) == refreshed(
                TokenMonitorApp {
                    state: AppState {
                        charts: ChartsState { app, ..old(self).state.charts },
                        ..old(self).state
                    },
                    ..*old(self)
                },
            ),
            final(self).state.charts.app == app,
            r@ == seq![Effect::RequestAggregate(request(*final(self))), Effect::Notify],
    {
        self.state.charts.app = app;
        let req = self.refresh_view();
        two(Effect::RequestAggregate(req), Effect::Notify)
    }

    /// Expands the card of a provider, or collapses it where it is expanded.
    pub fn toggle_provider_expanded(&mut self, provider: Provider) -> (r: Vec<Effect>)
        requires
            old(self).wf(),
        ensures
            final(self).wf(),
            *final(self) == (TokenMonitorApp {
                state: AppState {
                    expanded_provider: toggled(old(self).state.expanded_provider, provider),
                    ..old(self).state
                },
                ..*old(self)
            }),
            old(self).state.expanded_provider == Some(provider)
                ==> final(self).state.expanded_provider is None,
            old(self).state.expanded_provider != Some(provider)
                ==> final(self).state.expanded_provider == Some(provider),
            r@ == seq![Effect::Notify],
    {
        let expanded: bool = match self.state.expanded_provider {
            Some(p) => p == provider,
            None => false,
        };
        self.state.expanded_provider = if expanded {
            None
        } else {
            Some(provider)
        };
        one(Effect::Notify)
    }

    /// Answers to the collector, which scans `sources` sources, at `now`. A scan that brought
    /// nothing new is not loaded.
    pub fn handle_collector_event(&mut self, event: CollectorEvent, sources: u32, now: i64) -> (r:
        Vec<Effect>)
        requires
            old(self).wf(),
        ensures
            final(self).wf(),
            match event {
                CollectorEvent::ScanStarted => {
                    &&& *final(self) == (TokenMonitorApp {
                        state: AppState {
                            scan_status: started_status(old(self).state.scan_status, sources),
                            ..old(self).state
                        },
                        ..*old(self)
                    })
                    &&& r@ == seq![Effect::Notify]
                },
                CollectorEvent::ScanCompleted { records, unchanged } => {
                    let counted = TokenMonitorApp {
                        state: AppState {
                            scan_status: completed_status(
                                old(self).state.scan_status,
                                sources,
                                records,
                                now,
                            ),
                            ..old(self).state
                        },
                        ..*old(self)
                    };
                    if unchanged {
                        *final(self) == counted && r@ == seq![Effect::Notify]
                    } else {
                        &&& *final(self) == refreshed(counted)
                        &&& r@ == seq![
                            Effect::RequestAggregate(request(*final(self))),
                            Effect::Notify,
                        ]
                    }
                },
                CollectorEvent::ScanFailed { provider_name, error } => {
                    &&& opt_text(final(self).state.last_error) == Some(
                        provider_name@ + ": "@ + error@,
                    )
                    &&& *final(self) == (TokenMonitorApp {
                        state: AppState {
                            scan_status: ScanStatus::Failed { error },
                            last_error: final(self).state.last_error,
                            ..old(self).state
                        },
                        ..*old(self)
                    })
                    &&& r@ == seq![Effect::Notify]
                },
                CollectorEvent::Watch => {
                    *final(self) == *old(self) && r@ == seq![Effect::Rescan, Effect::Notify]
                },
            },
    {
        match event {
            CollectorEvent::ScanStarted => {
                let completed: u32 = match &self.state.scan_status {
                    ScanStatus::Scanning { completed, .. } => *completed,
                    _ => 0,
                };
                self.state.scan_status = ScanStatus::Scanning { completed, total: sources };
                one(Effect::Notify)
            },
            CollectorEvent::ScanCompleted { records, unchanged } => {
                let completed: u32 = match &self.state.scan_status {
                    ScanStatus::Scanning { completed, .. } => *completed + 1,
                    _ => 1,
                };
                self.state.scan_status = if completed >= sources {
                    ScanStatus::Done { records, at: now }
                } else {
                    ScanStatus::Scanning { completed, total: sources }
                };
                if unchanged {
                    one(Effect::Notify)
                } else {
                    let req = self.refresh_view();
                    two(Effect::RequestAggregate(req), Effect::Notify)
                }
            },
            CollectorEvent::ScanFailed { provider_name, error } => {
                self.state.last_error = Some(message(provider_name.as_str(), error.as_str()));
                self.state.scan_status = ScanStatus::Failed { error };
                one(Effect::Notify)
            },
            CollectorEvent::Watch => two(Effect::Rescan, Effect::Notify),
        }
    }

    /// Takes note that the floating ball was opened.
    pub fn link_ball(&mut self)
        requires
            old(self).wf(),
        ensures
            final(self).wf(),
            *final(self) == (TokenMonitorApp { ball_linked: true, ..*old(self) }),
    {
        self.ball_linked = true;
    }

    /// Shows a snapshot, unless one with a higher number was shown before. The ball gets the
    /// totals together with the period that they are over.
    pub fn apply_snapshot(&mut self, snap: ViewSnapshot, ball_alive: bool) -> (r: Vec<Effect>)
        requires
            old(self).wf(),
            snap.seq >= old(self).applied_seq && old(self).ball_linked && ball_alive ==> (
            snap.summary matches Some(s) ==> s.tokens() <= u64::MAX),
        ensures
            final(self).wf(),
            *final(self) == applied(*old(self), snap, ball_alive),
            r@ == snapshot_effects(*old(self), snap, ball_alive),
            snap.seq >= old(self).applied_seq ==> {
                &&& final(self).applied_seq == snap.seq
                &&& final(self).state.summary == snap.summary
                &&& final(self).state.by_provider == snap.by_provider
                &&& final(self).state.by_provider_model == snap.by_provider_model
                &&& final(self).state.by_project == snap.by_project
                &&& final(self).state.by_day == snap.by_day
            },
    {
        if snap.seq < self.applied_seq {
            return Vec::new();
        }
        let summary: Option<SumStats> = snap.summary;
        let time_tab: TimeTab = snap.time_tab;
        self.applied_seq = snap.seq;
        self.state.summary = snap.summary;
        self.state.by_provider = snap.by_provider;
        self.state.by_provider_model = snap.by_provider_model;
        self.state.by_project = snap.by_project;
        self.state.by_day = snap.by_day;
        if let Some(charts) = snap.charts {
            self.state.charts.data = Some(charts);
        }
        if let Some(report) = snap.report {
            self.state.report = Some(report);
        }
        if let Some(error) = snap.error {
            self.state.last_error = Some(error);
        }
        if self.ball_linked {
            if ball_alive {
                if let Some(s) = summary {
                    let total_tokens: u64 = s.input_tokens + s.output_tokens + s.cache_read_tokens
                        + s.cache_write_tokens;
                    return two(
                        Effect::PushUsage { total_tokens, cost_micros: s.cost_micros, time_tab },
                        Effect::Notify,
                    );
                }
            } else {
                self.ball_linked = false;
            }
        }
        one(Effect::Notify)
    }
}

/// Snapshots are shown in the order of their numbers: one that comes after a newer one changes
/// nothing.
pub proof fn late_snapshot_changes_nothing(
    app: TokenMonitorApp,
    newer: ViewSnapshot,
    older: ViewSnapshot,
    alive: bool,
    alive_later: bool,
)
    requires
        older.seq < newer.seq,
    ensures
        applied(applied(app, newer, alive), older, alive_later) == applied(app, newer, alive),
        snapshot_effects(applied(app, newer, alive), older, alive_later) == Seq::<Effect>::empty(),
{
}

/// The number of the shown snapshot never falls.
pub proof fn applied_number_never_falls(app: TokenMonitorApp, snap: ViewSnapshot, alive: bool)
    ensures
        applied(app, snap, alive).applied_seq >= app.applied_seq,
        applied(app, snap, alive).applied_seq >= snap.seq,
{
}

/// The newest request replaces the one that waits: after a refresh the slot of the worker holds the
/// request of the state as it is, under the next number, whatever waited in it before.
pub proof fn newest_request_waits(app: TokenMonitorApp, waiting: Option<AggRequest>)
    ensures
        put_into(waiting, request(refreshed(app))) == Some(
            AggRequest { seq: next_seq(app.view_seq), ..request(app) },
        ),
        refreshed(app).view_seq == next_seq(app.view_seq),
        refreshed(app).state == app.state,
{
}

/// A snapshot leaves what the user selected as it is.
pub proof fn snapshot_keeps_selections(app: TokenMonitorApp, snap: ViewSnapshot, alive: bool)
    ensures
        ({
            let after = applied(app, snap, alive);
            &&& after.settings == app.settings
            &&& after.state.active_page == app.state.active_page
            &&& after.state.time_tab == app.state.time_tab
            &&& after.state.expanded_provider == app.state.expanded_provider
            &&& after.state.charts.range == app.state.charts.range
            &&& after.state.charts.custom_range == app.state.charts.custom_range
            &&& after.state.charts.metric == app.state.charts.metric
            &&& after.state.charts.app == app.state.charts.app
            &&& request(after) == request(app)
        }),
{
}

/// To toggle a card twice undoes it, unless another card was expanded before.
pub proof fn toggling_twice_undoes(expanded: Option<Provider>, provider: Provider)
    requires
        expanded == None::<Provider> || expanded == Some(provider),
    ensures
        toggled(toggled(expanded, provider), provider) == expanded,
{
}

/// The status after `n` sources were scanned, the last of them with `records` at `at`.
pub open spec fn after_completions(
    status: ScanStatus,
    total: u32,
    n: nat,
    records: u64,
    at: i64,
) -> ScanStatus
    decreases n,
{
    if n == 0 {
        status
    } else {
        completed_status(
            after_completions(status, total, (n - 1) as nat, records, at),
            total,
            records,
            at,
        )
    }
}

/// A scan is done when as many sources were scanned as there are, and not before.
pub proof fn scan_is_done_with_its_last_source(total: u32, n: nat, records: u64, at: i64)
    requires
        0 < n <= total,
    ensures
        after_completions(ScanStatus::Scanning { completed: 0, total }, total, n, records, at) == (
        if n < total {
            ScanStatus::Scanning { completed: n as u32, total }
        } else {
            ScanStatus::Done { records, at }
        }),
    decreases n,
{
    let status = ScanStatus::Scanning { completed: 0, total };
    if n > 1 {
        scan_is_done_with_its_last_source(total, (n - 1) as nat, records, at);
    } else {
        assert(after_completions(status, total, 0, records, at) == status);
    }
}

/// A snapshot that is not older than the one shown is shown whole: the summary and the breakdowns
/// by provider, by model, by project and by day are those of the snapshot. Charts, report and error
/// are those of the snapshot where it has them, and stay as they are where it has none.
pub proof fn snapshot_is_shown_whole(app: TokenMonitorApp, snap: ViewSnapshot, alive: bool)
    requires
        snap.seq >= app.applied_seq,
    ensures
        ({
            let after = applied(app, snap, alive);
            &&& after.state.summary == snap.summary
            &&& after.state.by_provider == snap.by_provider
            &&& after.state.by_provider_model == snap.by_provider_model
            &&& after.state.by_project == snap.by_project
            &&& after.state.by_day == snap.by_day
            &&& snap.charts is Some ==> after.state.charts.data == snap.charts
            &&& snap.charts is None ==> after.state.charts.data == app.state.charts.data
            &&& snap.report is Some ==> after.state.report == snap.report
            &&& snap.report is None ==> after.state.report == app.state.report
            &&& snap.error is Some ==> after.state.last_error == snap.error
            &&& snap.error is None ==> after.state.last_error == app.state.last_error
            &&& after.applied_seq == snap.seq
        }),
{
}

/// A snapshot that is older than the one shown changes nothing, and nothing is to be done.
pub proof fn older_snapshot_is_dropped(app: TokenMonitorApp, snap: ViewSnapshot, alive: bool)
    requires
        snap.seq < app.applied_seq,
    ensures
        applied(app, snap, alive) == app,
        snapshot_effects(app, snap, alive).len() == 0,
{
}

/// Besides what it shows, a snapshot changes nothing but that a ball which is gone is no longer
/// linked: the number of the last request, the scan and what the user points at stay.
pub proof fn snapshot_touches_nothing_else(app: TokenMonitorApp, snap: ViewSnapshot, alive: bool)
    ensures
        ({
            let after = applied(app, snap, alive);
            &&& after.view_seq == app.view_seq
            &&& after.settings == app.settings
            &&& after.state.scan_status == app.state.scan_status
            &&& after.state.report_hover == app.state.report_hover
            &&& after.state.active_page == app.state.active_page
            &&& after.state.time_tab == app.state.time_tab
            &&& after.state.expanded_provider == app.state.expanded_provider
            &&& snap.seq >= app.applied_seq ==> after.ball_linked == (app.ball_linked && alive)
        }),
{
}

/// A ball that is linked and there gets the totals of the snapshot that is shown: its tokens of
/// input, of output, of cache reads and of cache writes together, its cost, and its period. Without
/// a ball or a summary the window is only drawn anew.
pub proof fn ball_gets_the_totals_that_are_shown(
    app: TokenMonitorApp,
    snap: ViewSnapshot,
    alive: bool,
)
    requires
        snap.seq >= app.applied_seq,
        snap.summary matches Some(s) ==> s.input_tokens + s.output_tokens + s.cache_read_tokens
            + s.cache_write_tokens <= u64::MAX,
    ensures
        match snap.summary {
            Some(s) => if app.ball_linked && alive {
                &&& snapshot_effects(app, snap, alive).len() == 2
                &&& snapshot_effects(app, snap, alive)[0] matches Effect::PushUsage {
                    total_tokens,
                    cost_micros,
                    time_tab,
                } && total_tokens == s.input_tokens + s.output_tokens + s.cache_read_tokens
                    + s.cache_write_tokens && cost_micros == s.cost_micros && time_tab
                    == snap.time_tab
                &&& snapshot_effects(app, snap, alive)[1] == Effect::Notify
            } else {
                snapshot_effects(app, snap, alive) == seq![Effect::Notify]
            },
            None => snapshot_effects(app, snap, alive) == seq![Effect::Notify],
        },
{
}

/// A refresh takes the number behind the last one, and zero behind the largest; it changes nothing
/// else.
pub proof fn refreshes_are_numbered_on(app: TokenMonitorApp)
    ensures
        app.view_seq < u64::MAX ==> refreshed(app).view_seq == app.view_seq + 1,
        app.view_seq == u64::MAX ==> refreshed(app).view_seq == 0,
        refreshed(app).state == app.state,
        refreshed(app).settings == app.settings,
        refreshed(app).applied_seq == app.applied_seq,
        refreshed(app).ball_linked == app.ball_linked,
{
}

/// A request asks for what the state shows: the period of the dashboard, a year of the report, and
/// on the page of the charts their period, their dates and their provider.
pub proof fn request_asks_for_what_is_shown(app: TokenMonitorApp)
    ensures
        request(app).seq == app.view_seq,
        request(app).time_tab == app.state.time_tab,
        request(app).report_days == 365,
        app.state.active_page != ActivePage::Charts ==> request(app).charts is None,
        app.state.active_page == ActivePage::Charts ==> (request(app).charts matches Some(q)
            && q.range == app.state.charts.range && q.custom_range
            == app.state.charts.custom_range && q.app == app.state.charts.app),
{
}

/// A card that is expanded collapses; any other is expanded in its place.
pub proof fn toggling_expands_one_card(expanded: Option<Provider>, provider: Provider)
    ensures
        expanded == Some(provider) ==> toggled(expanded, provider) is None,
        expanded != Some(provider) ==> toggled(expanded, provider) == Some(provider),
{
}

/// Two dates make the period from the earlier to the later one, in whichever order they come.
pub proof fn dates_make_one_period(start: i32, end: i32)
    ensures
        ordered(start, end).first <= ordered(start, end).last,
        ordered(start, end).first == start && ordered(start, end).last == end || ordered(
            start,
            end,
        ).first == end && ordered(start, end).last == start,
        ordered(start, end) == ordered(end, start),
{
}

/// A provider that starts to be scanned goes on with the count of a running scan, and starts one at
/// zero else. One that was scanned counts as one more, until all are done.
pub proof fn scanned_providers_are_counted(
    status: ScanStatus,
    total: u32,
    records: u64,
    at: i64,
    completed: u32,
    before: u32,
)
    requires
        completed < u32::MAX,
    ensures
        started_status(ScanStatus::Scanning { completed, total: before }, total) == (
        ScanStatus::Scanning { completed, total }),
        !(status is Scanning) ==> started_status(status, total) == (ScanStatus::Scanning {
            completed: 0,
            total,
        }),
        completed + 1 < total ==> completed_status(
            ScanStatus::Scanning { completed, total: before },
            total,
            records,
            at,
        ) == (ScanStatus::Scanning { completed: (completed + 1) as u32, total }),
        completed + 1 >= total ==> completed_status(
            ScanStatus::Scanning { completed, total: before },
            total,
            records,
            at,
        ) == (ScanStatus::Done { records, at }),
        !(status is Scanning) && total > 1 ==> completed_status(status, total, records, at) == (
        ScanStatus::Scanning { completed: 1, total }),
        !(status is Scanning) && total <= 1 ==> completed_status(status, total, records, at) == (
        ScanStatus::Done { records, at }),
{
}

/// A monitor that has scanned nothing yet shows the dashboard over its first period, and nothing in
/// it; the charts are those of all providers over their first period.
pub proof fn fresh_state_shows_nothing(state: AppState)
    requires
        is_initial(state),
    ensures
        state.active_page == ActivePage::Dashboard,
        state.time_tab.index == 0,
        state.expanded_provider == None::<Provider>,
        state.report_hover == None::<u32>,
        state.scan_status == ScanStatus::Idle,
        state.last_error == None::<String>,
        state.summary == None::<SumStats>,
        state.by_provider@.len() == 0,
        state.by_provider_model@.len() == 0,
        state.by_project@.len() == 0,
        state.by_day@.len() == 0,
        state.charts.range == ChartRange::Preset(0),
        state.charts.custom_range == None::<DateRange>,
        state.charts.metric.index == 0,
        state.charts.app == ChartApp::All,
        state.charts.data == None::<ChartsSnapshot>,
        state.report == None::<ReportSnapshot>,
{
}

} // verus!
