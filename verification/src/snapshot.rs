//! Snapshots of the history, put together from what the queries answered.

use vstd::prelude::*;
use vstd::string::*;
use crate::model::{lemma_rank_below, opt_text, rank, Provider};
use crate::stats::{
    day_totals, lemma_totals_not_negative, merge_model_series, merged,
    merging_adds_up_by_model_day_and_kind, DayStats, ModelSeries, SumStats, Totals,
};

verus! {

/// A period that the dashboard sums over, by its place among the tabs.
#[derive(Debug, Clone, Copy, PartialEq, Eq, Structural)]
pub struct TimeTab {
    pub index: u8,
}

/// The sums of one provider.
#[derive(Debug)]
pub struct ProviderStats {
    pub provider: Provider,
    pub stats: SumStats,
}

/// The sums of something with a name.
#[derive(Debug)]
pub struct NamedStats {
    pub name: String,
    pub stats: SumStats,
}

/// The sums of the models of one provider.
#[derive(Debug)]
pub struct ProviderModels {
    pub provider: Provider,
    pub models: Vec<NamedStats>,
}

/// The daily sums of one provider.
#[derive(Debug)]
pub struct ProviderSeries {
    pub provider: Provider,
    pub days: Vec<DayStats>,
}

/// What the charts show.
#[derive(Debug)]
pub struct ChartsSnapshot {
    pub provider_series: Vec<ProviderSeries>,
    pub model_series: ModelSeries,
}

/// What the report shows.
#[derive(Debug)]
pub struct ReportSnapshot {
    pub days: Vec<DayStats>,
}

/// What the dashboard shows.
#[derive(Debug)]
pub struct ViewSnapshot {
    /// The number of the request that the snapshot answers.
    pub seq: u64,
    /// The period that the sums are over.
    pub time_tab: TimeTab,
    pub summary: Option<SumStats>,
    pub by_provider: Vec<ProviderStats>,
    pub by_provider_model: Vec<ProviderModels>,
    pub by_project: Vec<NamedStats>,
    pub by_day: Vec<DayStats>,
    pub charts: Option<ChartsSnapshot>,
    pub report: Option<ReportSnapshot>,
    pub error: Option<String>,
}

/// What the queries over the window of a snapshot answered.
#[derive(Debug)]
pub struct WindowAnswers {
    pub summary: Result<SumStats, String>,
    pub by_provider: Result<Vec<ProviderStats>, String>,
    pub by_provider_model: Result<Vec<ProviderModels>, String>,
    pub by_project: Result<Vec<NamedStats>, String>,
    pub by_day: Result<Vec<DayStats>, String>,
}

/// What the query for the daily sums of a provider answered; nothing where it failed.
#[derive(Debug)]
pub struct SeriesAnswer {
    pub provider: Provider,
    pub days: Option<Vec<DayStats>>,
}

/// What the queries for the daily sums by model answered; nothing where one failed.
#[derive(Debug)]
pub enum ModelAnswers {
    /// One answer for each provider.
    All(Vec<Option<ModelSeries>>),
    /// The answer for the chosen provider.
    One(Option<ModelSeries>),
}

/// The message of a query that failed.
pub open spec fn query_error<T>(answer: Result<T, String>) -> Option<Seq<char>> {
    match answer {
        Ok(_) => None,
        Err(e) => Some("query failed: "@ + e@),
    }
}

/// The later of two errors, where there is any.
pub open spec fn later(first: Option<Seq<char>>, second: Option<Seq<char>>) -> Option<Seq<char>> {
    match second {
        Some(_) => second,
        None => first,
    }
}

/// The message of the last query that failed.
pub open spec fn last_query_error(a: WindowAnswers) -> Option<Seq<char>> {
    let error = query_error(a.summary);
    let error = later(error, query_error(a.by_provider));
    let error = later(error, query_error(a.by_provider_model));
    let error = later(error, query_error(a.by_project));
    later(error, query_error(a.by_day))
}

/// The rows that a query answered; none where it failed.
pub open spec fn rows<T>(answer: Result<Vec<T>, String>) -> Seq<T> {
    match answer {
        Ok(rows) => rows@,
        Err(_) => seq![],
    }
}

/// Keeps the rows of an answer, or its error in place of an earlier one.
fn rows_or_error<T>(answer: Result<Vec<T>, String>, error: Option<String>) -> (r: (
    Vec<T>,
    Option<String>,
))
    ensures
        r.0@ == rows(answer),
        opt_text(r.1) == later(opt_text(error), query_error(answer)),
{
    match answer {
        Ok(rows) => (rows, error),
        Err(e) => (Vec::new(), Some(query_failed(e.as_str()))),
    }
}

/// The message of a query that failed with `e`.
fn query_failed(e: &str) -> (r: String)
    ensures
        r@ == "query failed: "@ + e@,
{
    let mut message = "query failed: ".to_owned();
    message.append(e);
    message
}

/// Puts a snapshot together. A query that failed leaves its part empty and the others as they
/// are; of several errors the last is kept.
pub fn compute_view_snapshot(
    seq: u64,
    time_tab: TimeTab,
    answers: WindowAnswers,
    charts: Option<ChartsSnapshot>,
    report: Option<ReportSnapshot>,
) -> (r: ViewSnapshot)
    ensures
        r.seq == seq,
        r.time_tab == time_tab,
        r.summary == (match answers.summary {
            Ok(summary) => Some(summary),
            Err(_) => None,
        }),
        r.by_provider@ == rows(answers.by_provider),
        r.by_provider_model@ == rows(answers.by_provider_model),
        r.by_project@ == rows(answers.by_project),
        r.by_day@ == rows(answers.by_day),
        r.charts == charts,
        r.report == report,
        opt_text(r.error) == last_query_error(answers),
{
    let (summary, error): (Option<SumStats>, Option<String>) = match answers.summary {
        Ok(summary) => (Some(summary), None),
        Err(e) => (None, Some(query_failed(e.as_str()))),
    };
    let (by_provider, error) = rows_or_error(answers.by_provider, error);
    let (by_provider_model, error) = rows_or_error(answers.by_provider_model, error);
    let (by_project, error) = rows_or_error(answers.by_project, error);
    let (by_day, error) = rows_or_error(answers.by_day, error);
    ViewSnapshot {
        seq,
        time_tab,
        summary,
        by_provider,
        by_provider_model,
        by_project,
        by_day,
        charts,
        report,
        error,
    }
}

/// The report over the days that the query answered; an empty one where it failed.
pub fn compute_report_snapshot(days: Result<Vec<DayStats>, String>) -> (r: ReportSnapshot)
    ensures
        r.days@ == rows(days),
{
    match days {
        Ok(days) => ReportSnapshot { days },
        Err(_) => ReportSnapshot { days: Vec::new() },
    }
}

/// The series of the providers that were answered, in order.
pub open spec fn answered(series: Seq<SeriesAnswer>) -> Seq<(Provider, Seq<DayStats>)>
    decreases series.len(),
{
    if series.len() == 0 {
        seq![]
    } else {
        match series.last().days {
            Some(days) => answered(series.drop_last()).push((series.last().provider, days@)),
            None => answered(series.drop_last()),
        }
    }
}

/// The series of a snapshot, provider by provider.
pub open spec fn series_views(series: Seq<ProviderSeries>) -> Seq<(Provider, Seq<DayStats>)> {
    series.map_values(|s: ProviderSeries| (s.provider, s.days@))
}

/// The series of all providers together.
pub open spec fn merged_answers(answers: Seq<Option<ModelSeries>>) -> Map<
    Seq<char>,
    Seq<(Seq<char>, SumStats)>,
>
    decreases answers.len(),
{
    if answers.len() == 0 {
        Map::empty()
    } else {
        match answers.last() {
            Some(series) => merged(merged_answers(answers.drop_last()), series@),
            None => merged_answers(answers.drop_last()),
        }
    }
}

/// Whether the models of every answer are in order.
pub open spec fn answers_wf(answers: ModelAnswers) -> bool {
    match answers {
        ModelAnswers::All(all) => forall|i: int|
            0 <= i < all@.len() ==> ((#[trigger] all@[i]) matches Some(series) ==> series.wf()),
        ModelAnswers::One(one) => one matches Some(series) ==> series.wf(),
    }
}

/// The series by model that the answers give.
pub open spec fn model_series_of(answers: ModelAnswers) -> Map<
    Seq<char>,
    Seq<(Seq<char>, SumStats)>,
> {
    match answers {
        ModelAnswers::All(all) => merged_answers(all@),
        ModelAnswers::One(one) => match one {
            Some(series) => series@,
            None => Map::empty(),
        },
    }
}

/// Merges the answers of all providers.
fn merge_answers(answers: Vec<Option<ModelSeries>>) -> (r: ModelSeries)
    requires
        answers_wf(ModelAnswers::All(answers)),
    ensures
        r.wf(),
        r@ == merged_answers(answers@),
{
    let ghost all = answers@;
    let mut out = ModelSeries::new();
    for answer in it: answers
        invariant
            it.seq() == all,
            forall|i: int|
                0 <= i < all.len() ==> ((#[trigger] all[i]) matches Some(series) ==> series.wf()),
            out.wf(),
            out@ == merged_answers(all.take(it.index() as int)),
    {
        let ghost first = all.take(it.index() + 1);
        assert(first.drop_last() =~= all.take(it.index() as int));
        assert(all[it.index() as int] == answer);
        if let Some(series) = answer {
            merge_model_series(&mut out, series);
        }
    }
    assert(all.take(all.len() as int) =~= all);
    out
}

/// The charts over what the queries answered: the series of every provider that was answered,
/// and the series by model, of all providers merged or of the chosen one.
pub fn compute_chart_snapshot(series: Vec<SeriesAnswer>, models: ModelAnswers) -> (r:
    ChartsSnapshot)
    requires
        answers_wf(models),
    ensures
        series_views(r.provider_series@) == answered(series@),
        r.model_series.wf(),
        r.model_series@ == model_series_of(models),
{
    let ghost all = series@;
    let mut provider_series: Vec<ProviderSeries> = Vec::new();
    for answer in it: series
        invariant
            it.seq() == all,
            series_views(provider_series@) == answered(all.take(it.index() as int)),
    {
        let ghost first = all.take(it.index() + 1);
        assert(first.drop_last() =~= all.take(it.index() as int));
        assert(first.last() == answer);
        if let Some(days) = answer.days {
            let ghost before = series_views(provider_series@);
            provider_series.push(ProviderSeries { provider: answer.provider, days });
            assert(series_views(provider_series@) =~= before.push((answer.provider, days@)));
        }
    }
    assert(all.take(all.len() as int) =~= all);
    let model_series: ModelSeries = match models {
        ModelAnswers::All(answers) => merge_answers(answers),
        ModelAnswers::One(one) => match one {
            Some(series) => series,
            None => ModelSeries::new(),
        },
    };
    ChartsSnapshot { provider_series, model_series }
}

/// A query that was answered gives its rows, and one that failed gives none.
pub proof fn failed_queries_give_no_rows<T>(answered: Vec<T>, e: String)
    ensures
        rows(Ok::<Vec<T>, String>(answered)) == answered@,
        rows(Err::<Vec<T>, String>(e)).len() == 0,
{
}

/// The error of a snapshot is that of the last query that failed, in the order of summary,
/// providers, models, projects and days; there is none where all were answered.
pub proof fn last_failure_is_reported(a: WindowAnswers)
    ensures
        a.by_day matches Err(e) ==> last_query_error(a) == Some("query failed: "@ + e@),
        a.by_day is Ok ==> (a.by_project matches Err(e) ==> last_query_error(a) == Some(
            "query failed: "@ + e@,
        )),
        a.by_day is Ok && a.by_project is Ok ==> (a.by_provider_model matches Err(e)
            ==> last_query_error(a) == Some("query failed: "@ + e@)),
        a.by_day is Ok && a.by_project is Ok && a.by_provider_model is Ok ==> (
        a.by_provider matches Err(e) ==> last_query_error(a) == Some("query failed: "@ + e@)),
        a.by_day is Ok && a.by_project is Ok && a.by_provider_model is Ok && a.by_provider is Ok
            ==> (a.summary matches Err(e) ==> last_query_error(a) == Some(
            "query failed: "@ + e@,
        )),
        a.by_day is Ok && a.by_project is Ok && a.by_provider_model is Ok && a.by_provider is Ok
            && a.summary is Ok ==> last_query_error(a) is None,
{
}

/// The places of the providers that were answered.
pub open spec fn answered_places(series: Seq<SeriesAnswer>) -> Set<int> {
    Set::new(|i: int| 0 <= i < series.len() && series[i].days is Some)
}

proof fn lemma_answered_places(series: Seq<SeriesAnswer>, chosen: Set<int>)
    requires
        forall|i: int|
            0 <= i < series.len() ==> (#[trigger] chosen.contains(i) == (series[i].days is Some)),
    ensures
        answered(series).len() == rank(chosen, series.len() as int),
        forall|i: int|
            0 <= i < series.len() && #[trigger] chosen.contains(i) ==> answered(series)[rank(
                chosen,
                i,
            ) as int] == (series[i].provider, series[i].days->0@),
    decreases series.len(),
{
    if series.len() > 0 {
        let front = series.drop_last();
        let last = series.len() - 1;
        assert forall|i: int| 0 <= i < front.len() implies (#[trigger] chosen.contains(i) == (
        front[i].days is Some)) by {
            assert(front[i] == series[i]);
        }
        lemma_answered_places(front, chosen);
        assert(chosen.contains(last) == (series[last].days is Some));
        assert forall|i: int| 0 <= i < series.len() && #[trigger] chosen.contains(i) implies answered(
            series,
        )[rank(chosen, i) as int] == (series[i].provider, series[i].days->0@) by {
            if i < last {
                lemma_rank_below(chosen, i, last);
                assert(front[i] == series[i]);
            }
        }
    }
}

/// Every provider that was answered has its own days in the charts, in the order of the providers,
/// and no other provider has any.
pub proof fn answered_providers_have_their_days(series: Seq<SeriesAnswer>)
    ensures
        answered(series).len() == rank(answered_places(series), series.len() as int),
        forall|i: int|
            0 <= i < series.len() && (#[trigger] series[i]).days is Some ==> answered(series)[rank(
                answered_places(series),
                i,
            ) as int] == (series[i].provider, series[i].days->0@),
{
    lemma_answered_places(series, answered_places(series));
    assert forall|i: int| 0 <= i < series.len() && (#[trigger] series[i]).days is Some implies answered(
        series,
    )[rank(answered_places(series), i) as int] == (series[i].provider, series[i].days->0@) by {
        assert(answered_places(series).contains(i));
    }
}

/// The series of a snapshot by their views: each provider with its days.
pub proof fn series_are_taken_one_by_one(series: Seq<ProviderSeries>, i: int)
    requires
        0 <= i < series.len(),
    ensures
        series_views(series).len() == series.len(),
        series_views(series)[i].0 == series[i].provider,
        series_views(series)[i].1 == series[i].days@,
{
}

/// What the answers of all providers hold of a model on a day, together.
pub open spec fn answers_totals(
    answers: Seq<Option<ModelSeries>>,
    model: Seq<char>,
    day: Seq<char>,
) -> Totals
    decreases answers.len(),
{
    if answers.len() == 0 {
        Totals { input: 0, output: 0, cache_read: 0, cache_write: 0, cost: 0 }
    } else {
        let before = answers_totals(answers.drop_last(), model, day);
        match answers.last() {
            Some(series) => if series@.contains_key(model) {
                before.plus(day_totals(series@[model], day))
            } else {
                before
            },
            None => before,
        }
    }
}

proof fn lemma_answers_not_negative(
    answers: Seq<Option<ModelSeries>>,
    model: Seq<char>,
    day: Seq<char>,
)
    ensures
        ({
            let t = answers_totals(answers, model, day);
            t.input >= 0 && t.output >= 0 && t.cache_read >= 0 && t.cache_write >= 0 && t.cost >= 0
        }),
    decreases answers.len(),
{
    if answers.len() > 0 {
        lemma_answers_not_negative(answers.drop_last(), model, day);
        if let Some(series) = answers.last() {
            lemma_totals_not_negative(series@[model], day);
        }
    }
}

/// The charts of all providers add up what each was answered: a model has on a day, of every kind,
/// the sums of all providers together, as long as they can be held.
pub proof fn charts_add_up_all_providers(
    answers: Seq<Option<ModelSeries>>,
    model: Seq<char>,
    day: Seq<char>,
)
    requires
        answers_totals(answers, model, day).fit(),
    ensures
        merged_answers(answers).contains_key(model) ==> day_totals(
            merged_answers(answers)[model],
            day,
        ) == answers_totals(answers, model, day),
        !merged_answers(answers).contains_key(model) ==> answers_totals(answers, model, day) == (
        Totals { input: 0, output: 0, cache_read: 0, cache_write: 0, cost: 0 }),
        merged_answers(answers).contains_key(model) <==> exists|i: int|
            0 <= i < answers.len() && ((#[trigger] answers[i]) matches Some(series)
                && series@.contains_key(model)),
    decreases answers.len(),
{
    if answers.len() > 0 {
        let front = answers.drop_last();
        let last = answers.len() - 1;
        lemma_answers_not_negative(front, model, day);
        if let Some(series) = answers.last() {
            lemma_totals_not_negative(series@[model], day);
        }
        charts_add_up_all_providers(front, model, day);
        let before = merged_answers(front);
        if let Some(series) = answers.last() {
            merging_adds_up_by_model_day_and_kind(before, series@, model, day);
        }
        assert(merged_answers(answers).contains_key(model) <==> before.contains_key(model) || (
        answers.last() matches Some(series) && series@.contains_key(model)));
        if before.contains_key(model) {
            let i = choose|i: int|
                0 <= i < front.len() && ((#[trigger] front[i]) matches Some(series)
                    && series@.contains_key(model));
            assert(answers[i] == front[i]);
        }
        if exists|i: int|
            0 <= i < answers.len() && ((#[trigger] answers[i]) matches Some(series)
                && series@.contains_key(model)) {
            let i = choose|i: int|
                0 <= i < answers.len() && ((#[trigger] answers[i]) matches Some(series)
                    && series@.contains_key(model));
            if i < last {
                assert(front[i] == answers[i]);
            }
        }
        assert(answers[last] == answers.last());
    }
}

/// The charts of a chosen provider are what that provider was answered, and empty where its query
/// failed.
pub proof fn charts_of_one_provider_are_its_own(series: ModelSeries)
    ensures
        model_series_of(ModelAnswers::One(Some(series))) == series@,
        forall|model: Seq<char>|
            !(#[trigger] model_series_of(ModelAnswers::One(None)).contains_key(model)),
        forall|all: Vec<Option<ModelSeries>>|
            (#[trigger] model_series_of(ModelAnswers::All(all))) == merged_answers(all@),
{
}

/// A snapshot carries what the queries answered, each in its own part, under the number and over
/// the period of its request. A query that failed leaves its part empty, and no other.
pub proof fn snapshot_carries_the_answers(
    seq: u64,
    time_tab: TimeTab,
    answers: WindowAnswers,
    charts: Option<ChartsSnapshot>,
    report: Option<ReportSnapshot>,
    r: ViewSnapshot,
)
    requires
        call_ensures(compute_view_snapshot, (seq, time_tab, answers, charts, report), r),
    ensures
        r.seq == seq,
        r.time_tab == time_tab,
        answers.summary matches Ok(summary) ==> r.summary == Some(summary),
        answers.summary is Err ==> r.summary is None,
        answers.by_provider matches Ok(given) ==> r.by_provider@ == given@,
        answers.by_provider is Err ==> r.by_provider@.len() == 0,
        answers.by_provider_model matches Ok(given) ==> r.by_provider_model@ == given@,
        answers.by_provider_model is Err ==> r.by_provider_model@.len() == 0,
        answers.by_project matches Ok(given) ==> r.by_project@ == given@,
        answers.by_project is Err ==> r.by_project@.len() == 0,
        answers.by_day matches Ok(given) ==> r.by_day@ == given@,
        answers.by_day is Err ==> r.by_day@.len() == 0,
        r.charts == charts,
        r.report == report,
        r.error is None <==> answers.summary is Ok && answers.by_provider is Ok
            && answers.by_provider_model is Ok && answers.by_project is Ok && answers.by_day is Ok,
{
}

/// A report has the days that were answered, and none where the query failed.
pub proof fn report_has_the_days_answered(
    days: Result<Vec<DayStats>, String>,
    r: ReportSnapshot,
)
    requires
        call_ensures(compute_report_snapshot, (days,), r),
    ensures
        days matches Ok(given) ==> r.days@ == given@,
        days is Err ==> r.days@.len() == 0,
{
}

/// The charts of all providers have, of every model, day and kind, what all answers hold together,
/// as long as it can be held; and they have the days of every provider that was answered.
pub proof fn charts_have_what_was_answered(
    series: Vec<SeriesAnswer>,
    all: Vec<Option<ModelSeries>>,
    r: ChartsSnapshot,
    model: Seq<char>,
    day: Seq<char>,
)
    requires
        call_ensures(compute_chart_snapshot, (series, ModelAnswers::All(all)), r),
        answers_totals(all@, model, day).fit(),
    ensures
        r.model_series@.contains_key(model) ==> day_totals(r.model_series@[model], day)
            == answers_totals(all@, model, day),
        r.model_series@.contains_key(model) <==> exists|i: int|
            0 <= i < all@.len() && ((#[trigger] all@[i]) matches Some(given)
                && given@.contains_key(model)),
        r.provider_series@.len() == rank(answered_places(series@), series@.len() as int),
        forall|i: int|
            0 <= i < series@.len() && (#[trigger] series@[i]).days is Some ==> ({
                let at = rank(answered_places(series@), i) as int;
                &&& r.provider_series@[at].provider == series@[i].provider
                &&& r.provider_series@[at].days@ == series@[i].days->0@
            }),
{
    charts_add_up_all_providers(all@, model, day);
    answered_providers_have_their_days(series@);
    assert(series_views(r.provider_series@).len() == r.provider_series@.len());
    assert forall|i: int| 0 <= i < series@.len() && (#[trigger] series@[i]).days is Some implies ({
        let at = rank(answered_places(series@), i) as int;
        &&& r.provider_series@[at].provider == series@[i].provider
        &&& r.provider_series@[at].days@ == series@[i].days->0@
    }) by {
        let at = rank(answered_places(series@), i) as int;
        assert(answered_places(series@).contains(i));
        lemma_rank_below(answered_places(series@), i, series@.len() as int);
        assert(series_views(r.provider_series@)[at] == (
            r.provider_series@[at].provider,
            r.provider_series@[at].days@,
        ));
    }
}

} // verus!
