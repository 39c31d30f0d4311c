//! Sums of usage, by day and by model.

use vstd::prelude::*;
use crate::text::{
    lemma_text_lt_antisymmetric, lemma_text_lt_connected, lemma_text_lt_transitive, text_less,
    text_lt,
};

verus! {

/// The sums over a run of records. A sum that does not fit stays at the largest number.
#[derive(Debug, Clone, Copy, PartialEq, Eq, Structural)]
pub struct SumStats {
    pub input_tokens: u64,
    pub output_tokens: u64,
    pub cache_read_tokens: u64,
    pub cache_write_tokens: u64,
    pub cost_micros: u64,
}

/// The sum of two counters.
pub open spec fn sum(a: u64, b: u64) -> u64 {
    if a + b > u64::MAX {
        u64::MAX
    } else {
        (a + b) as u64
    }
}

/// A number, or the largest that can be held where it is larger.
pub open spec fn at_most_max(n: int) -> int {
    if n <= 0xffff_ffff_ffff_ffff {
        n
    } else {
        0xffff_ffff_ffff_ffff
    }
}

/// The sums over two runs of records.
pub open spec fn sums(a: SumStats, b: SumStats) -> SumStats {
    SumStats {
        input_tokens: sum(a.input_tokens, b.input_tokens),
        output_tokens: sum(a.output_tokens, b.output_tokens),
        cache_read_tokens: sum(a.cache_read_tokens, b.cache_read_tokens),
        cache_write_tokens: sum(a.cache_write_tokens, b.cache_write_tokens),
        cost_micros: sum(a.cost_micros, b.cost_micros),
    }
}

impl SumStats {
    /// All tokens.
    pub open spec fn tokens(self) -> int {
        self.input_tokens + self.output_tokens + self.cache_read_tokens + self.cache_write_tokens
    }

    /// Adds the sums over another run of records.
    pub fn add(&mut self, other: &SumStats)
        ensures
            *final(self) == sums(*old(self), *other),
            final(self).input_tokens == at_most_max(old(self).input_tokens + other.input_tokens),
            final(self).output_tokens == at_most_max(old(self).output_tokens + other.output_tokens),
            final(self).cache_read_tokens == at_most_max(
                old(self).cache_read_tokens + other.cache_read_tokens,
            ),
            final(self).cache_write_tokens == at_most_max(
                old(self).cache_write_tokens + other.cache_write_tokens,
            ),
            final(self).cost_micros == at_most_max(old(self).cost_micros + other.cost_micros),
    {
        self.input_tokens = self.input_tokens.saturating_add(other.input_tokens);
        self.output_tokens = self.output_tokens.saturating_add(other.output_tokens);
        self.cache_read_tokens = self.cache_read_tokens.saturating_add(other.cache_read_tokens);
        self.cache_write_tokens = self.cache_write_tokens.saturating_add(other.cache_write_tokens);
        self.cost_micros = self.cost_micros.saturating_add(other.cost_micros);
    }
}

/// The sums of one day.
#[derive(Debug)]
pub struct DayStats {
    pub day: String,
    pub stats: SumStats,
}

/// The daily sums of one model.
#[derive(Debug)]
pub struct ModelDays {
    pub model: String,
    pub days: Vec<DayStats>,
}

/// A series of days, by its views.
pub open spec fn day_views(days: Seq<DayStats>) -> Seq<(Seq<char>, SumStats)> {
    days.map_values(|d: DayStats| (d.day@, d.stats))
}

/// The first place of a day in a series.
pub open spec fn day_index(days: Seq<(Seq<char>, SumStats)>, day: Seq<char>) -> Option<int>
    decreases days.len(),
{
    if days.len() == 0 {
        None
    } else {
        match day_index(days.drop_last(), day) {
            Some(i) => Some(i),
            None => if days.last().0 == day {
                Some(days.len() - 1)
            } else {
                None
            },
        }
    }
}

/// A series with the sums of one day added: to that day where the series has it, else behind
/// the others.
pub open spec fn with_day(
    days: Seq<(Seq<char>, SumStats)>,
    day: Seq<char>,
    stats: SumStats,
) -> Seq<(Seq<char>, SumStats)> {
    match day_index(days, day) {
        Some(i) => days.update(i, (day, sums(days[i].1, stats))),
        None => days.push((day, stats)),
    }
}

/// A series with another added, day by day.
pub open spec fn with_days(
    days: Seq<(Seq<char>, SumStats)>,
    more: Seq<(Seq<char>, SumStats)>,
) -> Seq<(Seq<char>, SumStats)>
    decreases more.len(),
{
    if more.len() == 0 {
        days
    } else {
        with_day(with_days(days, more.drop_last()), more.last().0, more.last().1)
    }
}

/// The place of a day that no earlier place holds is the first.
proof fn lemma_day_index(days: Seq<(Seq<char>, SumStats)>, day: Seq<char>, i: int)
    requires
        0 <= i <= days.len(),
        i < days.len() ==> days[i].0 == day,
        forall|j: int| 0 <= j < i ==> (#[trigger] days[j]).0 != day,
    ensures
        day_index(days, day) == (if i < days.len() {
            Some(i)
        } else {
            None
        }),
    decreases days.len(),
{
    if days.len() > 0 {
        let front = days.drop_last();
        if i < front.len() {
            lemma_day_index(front, day, i);
        } else {
            lemma_day_index(front, day, front.len() as int);
        }
    }
}

/// Adds the sums of one day to a series.
fn add_day(days: &mut Vec<DayStats>, day: String, stats: SumStats)
    ensures
        day_views(final(days)@) == with_day(day_views(old(days)@), day@, stats),
{
    let ghost before = day_views(days@);
    let mut i: usize = 0;
    while i < days.len()
        invariant
            *days == *old(days),
            i <= days@.len(),
            before == day_views(days@),
            forall|j: int| 0 <= j < i ==> (#[trigger] before[j]).0 != day@,
        decreases days@.len() - i,
    {
        if days[i].day == day {
            let mut acc: SumStats = days[i].stats;
            acc.add(&stats);
            proof {
                lemma_day_index(before, day@, i as int);
            }
            days.set(i, DayStats { day, stats: acc });
            assert(day_views(days@) =~= with_day(before, day@, stats));
            return;
        }
        assert(before[i as int].0 != day@);
        i += 1;
    }
    proof {
        lemma_day_index(before, day@, before.len() as int);
    }
    days.push(DayStats { day, stats });
    assert(day_views(days@) =~= with_day(before, day@, stats));
}

/// Adds a series to another, day by day.
fn add_days(days: &mut Vec<DayStats>, more: Vec<DayStats>)
    ensures
        day_views(final(days)@) == with_days(day_views(old(days)@), day_views(more@)),
{
    let ghost before = day_views(days@);
    let ghost all = more@;
    let ghost views = day_views(all);
    for item in it: more
        invariant
            it.seq() == all,
            views == day_views(all),
            day_views(days@) == with_days(before, views.take(it.index() as int)),
    {
        let ghost first = views.take(it.index() + 1);
        assert(first.drop_last() =~= views.take(it.index() as int));
        assert(first.last() == (item.day@, item.stats));
        add_day(days, item.day, item.stats);
    }
    assert(views.take(views.len() as int) =~= views);
}

/// The daily sums of every model, in the order of the names of the models.
#[derive(Debug)]
pub struct ModelSeries {
    entries: Vec<ModelDays>,
}

/// Whether the models are in strictly ascending order.
pub open spec fn ascending(entries: Seq<ModelDays>) -> bool {
    forall|i: int, j: int|
        0 <= i < j < entries.len() ==> text_lt(
            (#[trigger] entries[i]).model@,
            (#[trigger] entries[j]).model@,
        )
}

/// The series of each model.
pub open spec fn series_by_model(entries: Seq<ModelDays>) -> Map<
    Seq<char>,
    Seq<(Seq<char>, SumStats)>,
>
    decreases entries.len(),
{
    if entries.len() == 0 {
        Map::empty()
    } else {
        series_by_model(entries.drop_last()).insert(
            entries.last().model@,
            day_views(entries.last().days@),
        )
    }
}

/// The series of a model, empty where there is none.
pub open spec fn series_of(
    series: Map<Seq<char>, Seq<(Seq<char>, SumStats)>>,
    model: Seq<char>,
) -> Seq<(Seq<char>, SumStats)> {
    if series.contains_key(model) {
        series[model]
    } else {
        seq![]
    }
}

/// The series of two sources together: every model of either, its days added up.
pub open spec fn merged(
    dst: Map<Seq<char>, Seq<(Seq<char>, SumStats)>>,
    src: Map<Seq<char>, Seq<(Seq<char>, SumStats)>>,
) -> Map<Seq<char>, Seq<(Seq<char>, SumStats)>> {
    Map::new(
        |model: Seq<char>| dst.contains_key(model) || src.contains_key(model),
        |model: Seq<char>| with_days(series_of(dst, model), series_of(src, model)),
    )
}

/// What a run of entries in order holds, model by model: the days of each entry, and no model
/// without an entry.
pub proof fn lemma_series_by_model(entries: Seq<ModelDays>)
    requires
        ascending(entries),
    ensures
        forall|i: int|
            0 <= i < entries.len() ==> series_by_model(entries).contains_key(
                (#[trigger] entries[i]).model@,
            ) && series_by_model(entries)[entries[i].model@] == day_views(entries[i].days@),
        forall|m: Seq<char>| #[trigger]
            series_by_model(entries).contains_key(m) ==> exists|i: int|
                0 <= i < entries.len() && (#[trigger] entries[i]).model@ == m,
    decreases entries.len(),
{
    if entries.len() > 0 {
        let front = entries.drop_last();
        let last = entries.len() - 1;
        assert(ascending(front)) by {
            assert forall|i: int, j: int| 0 <= i < j < front.len() implies text_lt(
                (#[trigger] front[i]).model@,
                (#[trigger] front[j]).model@,
            ) by {
                assert(front[i] == entries[i] && front[j] == entries[j]);
            }
        }
        lemma_series_by_model(front);
        assert forall|i: int| 0 <= i < entries.len() implies series_by_model(entries).contains_key(
            (#[trigger] entries[i]).model@,
        ) && series_by_model(entries)[entries[i].model@] == day_views(entries[i].days@) by {
            if i < last {
                assert(front[i] == entries[i]);
                assert(text_lt(entries[i].model@, entries[last].model@));
                lemma_text_lt_antisymmetric(entries[i].model@, entries[last].model@);
            }
        }
        assert forall|m: Seq<char>| #[trigger] series_by_model(entries).contains_key(m) implies exists|
            i: int,
        | 0 <= i < entries.len() && (#[trigger] entries[i]).model@ == m by {
            if m == entries.last().model@ {
                assert(entries[last].model@ == m);
            } else {
                assert(series_by_model(front).contains_key(m));
                let i = choose|i: int| 0 <= i < front.len() && (#[trigger] front[i]).model@ == m;
                assert(entries[i].model@ == m);
            }
        }
    }
}

impl View for ModelSeries {
    type V = Map<Seq<char>, Seq<(Seq<char>, SumStats)>>;

    closed spec fn view(&self) -> Map<Seq<char>, Seq<(Seq<char>, SumStats)>> {
        series_by_model(self.entries@)
    }
}

impl ModelSeries {
    /// The models are in strictly ascending order, so none occurs twice.
    pub closed spec fn wf(&self) -> bool {
        ascending(self.entries@)
    }

    /// The models and their series, in order.
    pub closed spec fn in_order(&self) -> Seq<ModelDays> {
        self.entries@
    }

    /// No series at all.
    pub fn new() -> (r: ModelSeries)
        ensures
            r.wf(),
            r@ == Map::<Seq<char>, Seq<(Seq<char>, SumStats)>>::empty(),
    {
        ModelSeries { entries: Vec::new() }
    }

    /// The models and their series, in the order of the names of the models.
    pub fn entries(&self) -> (r: &Vec<ModelDays>)
        ensures
            r@ == self.in_order(),
            self.wf() ==> ascending(r@),
            self@ == series_by_model(r@),
    {
        &self.entries
    }

    /// Adds the series of one model, day by day.
    pub fn add_series(&mut self, model: String, days: Vec<DayStats>)
        requires
            old(self).wf(),
        ensures
            final(self).wf(),
            final(self)@ == old(self)@.insert(
                model@,
                with_days(series_of(old(self)@, model@), day_views(days@)),
            ),
    {
        let ghost before = self.entries@;
        let ghost old_map = series_by_model(before);
        proof {
            lemma_series_by_model(before);
        }
        let mut i: usize = 0;
        while i < self.entries.len() && text_less(self.entries[i].model.as_str(), model.as_str())
            invariant
                self.entries@ == before,
                i <= before.len(),
                forall|j: int| 0 <= j < i ==> text_lt((#[trigger] before[j]).model@, model@),
            decreases before.len() - i,
        {
            i += 1;
        }
        if i < self.entries.len() && self.entries[i].model == model {
            let mut entry = self.entries.remove(i);
            assert(series_of(old_map, model@) == day_views(before[i as int].days@));
            add_days(&mut entry.days, days);
            self.entries.insert(i, entry);
            let ghost after = self.entries@;
            assert(after =~= before.update(i as int, entry));
            proof {
                lemma_updated(before, i as int, entry);
            }
        } else {
            proof {
                if i < before.len() {
                    lemma_text_lt_connected(before[i as int].model@, model@);
                }
                if old_map.contains_key(model@) {
                    let k = choose|k: int|
                        0 <= k < before.len() && (#[trigger] before[k]).model@ == model@;
                    lemma_text_lt_antisymmetric(before[k].model@, model@);
                    if k > i {
                        assert(text_lt(before[i as int].model@, before[k].model@));
                        lemma_text_lt_antisymmetric(before[i as int].model@, model@);
                    }
                }
            }
            let mut fresh: Vec<DayStats> = Vec::new();
            assert(day_views(fresh@) =~= seq![]);
            add_days(&mut fresh, days);
            let entry = ModelDays { model, days: fresh };
            self.entries.insert(i, entry);
            proof {
                lemma_inserted(before, i as int, entry);
            }
        }
    }
}

/// An entry that takes the place of one of the same model keeps the order and stands for its
/// series.
proof fn lemma_updated(before: Seq<ModelDays>, i: int, entry: ModelDays)
    requires
        ascending(before),
        0 <= i < before.len(),
        entry.model@ == before[i].model@,
    ensures
        ascending(before.update(i, entry)),
        series_by_model(before.update(i, entry)) == series_by_model(before).insert(
            entry.model@,
            day_views(entry.days@),
        ),
{
    let after = before.update(i, entry);
    assert(ascending(after)) by {
        assert forall|j: int, k: int| 0 <= j < k < after.len() implies text_lt(
            (#[trigger] after[j]).model@,
            (#[trigger] after[k]).model@,
        ) by {
            assert(text_lt(before[j].model@, before[k].model@));
        }
    }
    lemma_series_by_model(before);
    lemma_series_by_model(after);
    let expected = series_by_model(before).insert(entry.model@, day_views(entry.days@));
    assert forall|m: Seq<char>| #[trigger]
        series_by_model(after).contains_key(m) <==> expected.contains_key(m) by {
        if series_by_model(after).contains_key(m) {
            let k = choose|k: int| 0 <= k < after.len() && (#[trigger] after[k]).model@ == m;
            assert(before[k].model@ == m);
        }
        if expected.contains_key(m) && m != entry.model@ {
            let k = choose|k: int| 0 <= k < before.len() && (#[trigger] before[k]).model@ == m;
            assert(after[k].model@ == m);
        }
        assert(after[i].model@ == entry.model@);
    }
    assert forall|m: Seq<char>| series_by_model(after).contains_key(m) implies #[trigger] series_by_model(
        after,
    )[m] == expected[m] by {
        let k = choose|k: int| 0 <= k < after.len() && (#[trigger] after[k]).model@ == m;
        assert(before[k].model@ == m);
        if k != i && m == entry.model@ {
            if k < i {
                assert(text_lt(before[k].model@, before[i].model@));
            } else {
                assert(text_lt(before[i].model@, before[k].model@));
            }
            lemma_text_lt_antisymmetric(m, m);
        }
    }
    assert(series_by_model(after) =~= expected);
}

/// An entry of a new model, put in its place, keeps the order and stands for its series.
proof fn lemma_inserted(before: Seq<ModelDays>, i: int, entry: ModelDays)
    requires
        ascending(before),
        0 <= i <= before.len(),
        forall|j: int| 0 <= j < i ==> text_lt((#[trigger] before[j]).model@, entry.model@),
        i < before.len() ==> text_lt(entry.model@, before[i].model@),
    ensures
        ascending(before.insert(i, entry)),
        series_by_model(before.insert(i, entry)) == series_by_model(before).insert(
            entry.model@,
            day_views(entry.days@),
        ),
{
    let after = before.insert(i, entry);
    assert(ascending(after)) by {
        assert forall|j: int, k: int| 0 <= j < k < after.len() implies text_lt(
            (#[trigger] after[j]).model@,
            (#[trigger] after[k]).model@,
        ) by {
            if k < i {
                assert(after[j] == before[j] && after[k] == before[k]);
            } else if k == i {
                assert(after[j] == before[j]);
            } else if j < i {
                assert(after[j] == before[j] && after[k] == before[k - 1]);
            } else if j == i {
                assert(after[k] == before[k - 1]);
                if k - 1 > i {
                    assert(text_lt(before[i].model@, before[k - 1].model@));
                    lemma_text_lt_transitive(
                        entry.model@,
                        before[i].model@,
                        before[k - 1].model@,
                    );
                }
            } else {
                assert(after[j] == before[j - 1] && after[k] == before[k - 1]);
            }
        }
    }
    lemma_series_by_model(before);
    lemma_series_by_model(after);
    let expected = series_by_model(before).insert(entry.model@, day_views(entry.days@));
    assert(after[i] == entry);
    assert forall|m: Seq<char>| #[trigger]
        series_by_model(after).contains_key(m) <==> expected.contains_key(m) by {
        if series_by_model(after).contains_key(m) && m != entry.model@ {
            let k = choose|k: int| 0 <= k < after.len() && (#[trigger] after[k]).model@ == m;
            if k < i {
                assert(before[k].model@ == m);
            } else {
                assert(before[k - 1].model@ == m);
            }
        }
        if expected.contains_key(m) && m != entry.model@ {
            let k = choose|k: int| 0 <= k < before.len() && (#[trigger] before[k]).model@ == m;
            if k < i {
                assert(after[k].model@ == m);
            } else {
                assert(after[k + 1].model@ == m);
            }
        }
    }
    assert forall|m: Seq<char>| series_by_model(after).contains_key(m) implies #[trigger] series_by_model(
        after,
    )[m] == expected[m] by {
        if m != entry.model@ {
            let k = choose|k: int| 0 <= k < after.len() && (#[trigger] after[k]).model@ == m;
            if k < i {
                assert(before[k] == after[k]);
            } else {
                assert(before[k - 1] == after[k]);
            }
        }
    }
    assert(series_by_model(after) =~= expected);
}

/// The first entries of an ascending run, and those that follow.
proof fn lemma_merge_step(
    dst: Map<Seq<char>, Seq<(Seq<char>, SumStats)>>,
    entries: Seq<ModelDays>,
    i: int,
)
    requires
        ascending(entries),
        0 <= i < entries.len(),
    ensures
        merged(dst, series_by_model(entries.take(i))).insert(
            entries[i].model@,
            with_days(
                series_of(merged(dst, series_by_model(entries.take(i))), entries[i].model@),
                day_views(entries[i].days@),
            ),
        ) == merged(dst, series_by_model(entries.take(i + 1))),
{
    let model = entries[i].model@;
    let first = entries.take(i);
    let next = entries.take(i + 1);
    assert(next.drop_last() =~= first);
    assert(next.last() == entries[i]);
    assert(ascending(first)) by {
        assert forall|j: int, k: int| 0 <= j < k < first.len() implies text_lt(
            (#[trigger] first[j]).model@,
            (#[trigger] first[k]).model@,
        ) by {
            assert(first[j] == entries[j] && first[k] == entries[k]);
        }
    }
    lemma_series_by_model(first);
    let seen = series_by_model(first);
    if seen.contains_key(model) {
        let k = choose|k: int| 0 <= k < first.len() && (#[trigger] first[k]).model@ == model;
        assert(text_lt(entries[k].model@, entries[i].model@));
        lemma_text_lt_antisymmetric(model, model);
    }
    assert(series_of(seen, model) =~= seq![]);
    assert(series_of(merged(dst, seen), model) == series_of(dst, model));
    assert(merged(dst, seen).insert(
        model,
        with_days(series_of(merged(dst, seen), model), day_views(entries[i].days@)),
    ) =~= merged(dst, series_by_model(next)));
}

/// Merges the series of one source into those of all, adding up the sums of the same model and
/// day.
pub fn merge_model_series(dst: &mut ModelSeries, src: ModelSeries)
    requires
        old(dst).wf(),
        src.wf(),
    ensures
        final(dst).wf(),
        final(dst)@ == merged(old(dst)@, src@),
{
    let ghost before = dst@;
    let ghost all = src.entries@;
    assert(merged(before, series_by_model(all.take(0))) =~= before) by {
        assert(all.take(0).len() == 0);
    }
    for entry in it: src.entries
        invariant
            it.seq() == all,
            ascending(all),
            dst.wf(),
            dst@ == merged(before, series_by_model(all.take(it.index() as int))),
    {
        proof {
            lemma_merge_step(before, all, it.index() as int);
        }
        dst.add_series(entry.model, entry.days);
    }
    assert(all.take(all.len() as int) =~= all);
}

/// All tokens of a series.
pub open spec fn series_tokens(days: Seq<(Seq<char>, SumStats)>) -> int
    decreases days.len(),
{
    if days.len() == 0 {
        0
    } else {
        series_tokens(days.drop_last()) + days.last().1.tokens()
    }
}

/// Whether no day occurs twice in a series.
pub open spec fn distinct_days(days: Seq<(Seq<char>, SumStats)>) -> bool {
    forall|i: int, j: int|
        0 <= i < j < days.len() ==> (#[trigger] days[i]).0 != (#[trigger] days[j]).0
}

/// Where a day stands, if it does.
proof fn lemma_day_index_found(days: Seq<(Seq<char>, SumStats)>, day: Seq<char>)
    ensures
        match day_index(days, day) {
            Some(i) => 0 <= i < days.len() && days[i].0 == day,
            None => forall|j: int| 0 <= j < days.len() ==> (#[trigger] days[j]).0 != day,
        },
    decreases days.len(),
{
    if days.len() > 0 {
        let front = days.drop_last();
        lemma_day_index_found(front, day);
        if day_index(days, day) is None {
            assert forall|j: int| 0 <= j < days.len() implies (#[trigger] days[j]).0 != day by {
                if j < front.len() {
                    assert(front[j].0 != day);
                }
            }
        }
    }
}

proof fn lemma_tokens_updated(days: Seq<(Seq<char>, SumStats)>, i: int, d: (Seq<char>, SumStats))
    requires
        0 <= i < days.len(),
    ensures
        series_tokens(days.update(i, d)) == series_tokens(days) - days[i].1.tokens()
            + d.1.tokens(),
        days[i].1.tokens() <= series_tokens(days),
    decreases days.len(),
{
    let front = days.drop_last();
    lemma_tokens_not_negative(front);
    if i < front.len() {
        lemma_tokens_updated(front, i, d);
        assert(days.update(i, d).drop_last() =~= front.update(i, d));
    } else {
        assert(days.update(i, d).drop_last() =~= front);
    }
}

proof fn lemma_tokens_not_negative(days: Seq<(Seq<char>, SumStats)>)
    ensures
        series_tokens(days) >= 0,
    decreases days.len(),
{
    if days.len() > 0 {
        lemma_tokens_not_negative(days.drop_last());
    }
}

proof fn lemma_day_tokens(days: Seq<(Seq<char>, SumStats)>, day: Seq<char>, stats: SumStats)
    requires
        series_tokens(days) + stats.tokens() <= u64::MAX,
    ensures
        series_tokens(with_day(days, day, stats)) == series_tokens(days) + stats.tokens(),
{
    lemma_day_index_found(days, day);
    match day_index(days, day) {
        Some(i) => {
            lemma_tokens_updated(days, i, (day, sums(days[i].1, stats)));
        },
        None => {
            assert(days.push((day, stats)).drop_last() =~= days);
        },
    }
}

proof fn lemma_series_tokens(
    days: Seq<(Seq<char>, SumStats)>,
    more: Seq<(Seq<char>, SumStats)>,
)
    requires
        series_tokens(days) + series_tokens(more) <= u64::MAX,
    ensures
        series_tokens(with_days(days, more)) == series_tokens(days) + series_tokens(more),
    decreases more.len(),
{
    if more.len() > 0 {
        lemma_series_tokens(days, more.drop_last());
        lemma_day_tokens(with_days(days, more.drop_last()), more.last().0, more.last().1);
    }
}

/// Merging loses no tokens: a model has as many behind the merge as it had in both sources, as
/// long as their number can be held.
pub proof fn merging_loses_no_tokens(
    dst: Map<Seq<char>, Seq<(Seq<char>, SumStats)>>,
    src: Map<Seq<char>, Seq<(Seq<char>, SumStats)>>,
    model: Seq<char>,
)
    requires
        series_tokens(series_of(dst, model)) + series_tokens(series_of(src, model)) <= u64::MAX,
    ensures
        series_tokens(series_of(merged(dst, src), model)) == series_tokens(series_of(dst, model))
            + series_tokens(series_of(src, model)),
{
    lemma_series_tokens(series_of(dst, model), series_of(src, model));
    if !dst.contains_key(model) && !src.contains_key(model) {
        assert(!merged(dst, src).contains_key(model));
    } else {
        assert(merged(dst, src).contains_key(model));
    }
}

proof fn lemma_day_kept_distinct(
    days: Seq<(Seq<char>, SumStats)>,
    day: Seq<char>,
    stats: SumStats,
)
    requires
        distinct_days(days),
    ensures
        distinct_days(with_day(days, day, stats)),
{
    lemma_day_index_found(days, day);
}

/// Merging keeps the days of a series apart: the same day is added up, not listed again.
pub proof fn merging_lists_no_day_twice(
    days: Seq<(Seq<char>, SumStats)>,
    more: Seq<(Seq<char>, SumStats)>,
)
    requires
        distinct_days(days),
    ensures
        distinct_days(with_days(days, more)),
    decreases more.len(),
{
    if more.len() > 0 {
        merging_lists_no_day_twice(days, more.drop_last());
        lemma_day_kept_distinct(with_days(days, more.drop_last()), more.last().0, more.last().1);
    }
}

/// Sums by what they are sums of, however large.
pub struct Totals {
    pub input: int,
    pub output: int,
    pub cache_read: int,
    pub cache_write: int,
    pub cost: int,
}

impl Totals {
    /// The sums of both, each with its like.
    pub open spec fn plus(self, other: Totals) -> Totals {
        Totals {
            input: self.input + other.input,
            output: self.output + other.output,
            cache_read: self.cache_read + other.cache_read,
            cache_write: self.cache_write + other.cache_write,
            cost: self.cost + other.cost,
        }
    }

    /// Whether every sum can be held.
    pub open spec fn fit(self) -> bool {
        &&& 0 <= self.input <= 0xffff_ffff_ffff_ffff
        &&& 0 <= self.output <= 0xffff_ffff_ffff_ffff
        &&& 0 <= self.cache_read <= 0xffff_ffff_ffff_ffff
        &&& 0 <= self.cache_write <= 0xffff_ffff_ffff_ffff
        &&& 0 <= self.cost <= 0xffff_ffff_ffff_ffff
    }
}

/// What a series holds of a day, all entries of the day taken together.
pub open spec fn day_totals(days: Seq<(Seq<char>, SumStats)>, day: Seq<char>) -> Totals
    decreases days.len(),
{
    if days.len() == 0 {
        Totals { input: 0, output: 0, cache_read: 0, cache_write: 0, cost: 0 }
    } else if days.last().0 == day {
        let stats = days.last().1;
        day_totals(days.drop_last(), day).plus(
            Totals {
                input: stats.input_tokens as int,
                output: stats.output_tokens as int,
                cache_read: stats.cache_read_tokens as int,
                cache_write: stats.cache_write_tokens as int,
                cost: stats.cost_micros as int,
            },
        )
    } else {
        day_totals(days.drop_last(), day)
    }
}

/// Two sums are added counter by counter, each with its like; one that does not fit stays at the
/// largest number.
pub proof fn sums_are_added_by_their_kind(a: SumStats, b: SumStats)
    ensures
        a.input_tokens + b.input_tokens <= u64::MAX ==> sums(a, b).input_tokens == a.input_tokens
            + b.input_tokens,
        a.output_tokens + b.output_tokens <= u64::MAX ==> sums(a, b).output_tokens
            == a.output_tokens + b.output_tokens,
        a.cache_read_tokens + b.cache_read_tokens <= u64::MAX ==> sums(a, b).cache_read_tokens
            == a.cache_read_tokens + b.cache_read_tokens,
        a.cache_write_tokens + b.cache_write_tokens <= u64::MAX ==> sums(a, b).cache_write_tokens
            == a.cache_write_tokens + b.cache_write_tokens,
        a.cost_micros + b.cost_micros <= u64::MAX ==> sums(a, b).cost_micros == a.cost_micros
            + b.cost_micros,
        a.input_tokens + b.input_tokens > u64::MAX ==> sums(a, b).input_tokens == u64::MAX,
        a.output_tokens + b.output_tokens > u64::MAX ==> sums(a, b).output_tokens == u64::MAX,
        a.cache_read_tokens + b.cache_read_tokens > u64::MAX ==> sums(a, b).cache_read_tokens
            == u64::MAX,
        a.cache_write_tokens + b.cache_write_tokens > u64::MAX ==> sums(a, b).cache_write_tokens
            == u64::MAX,
        a.cost_micros + b.cost_micros > u64::MAX ==> sums(a, b).cost_micros == u64::MAX,
{
}

/// No total is negative.
pub proof fn lemma_totals_not_negative(days: Seq<(Seq<char>, SumStats)>, day: Seq<char>)
    ensures
        ({
            let t = day_totals(days, day);
            t.input >= 0 && t.output >= 0 && t.cache_read >= 0 && t.cache_write >= 0 && t.cost >= 0
        }),
    decreases days.len(),
{
    if days.len() > 0 {
        lemma_totals_not_negative(days.drop_last(), day);
    }
}

/// To replace the entry of a day changes the totals of that day by the difference, and no others.
proof fn lemma_totals_updated(
    days: Seq<(Seq<char>, SumStats)>,
    i: int,
    stats: SumStats,
    day: Seq<char>,
)
    requires
        0 <= i < days.len(),
    ensures
        ({
            let old = days[i].1;
            let before = day_totals(days, day);
            let after = day_totals(days.update(i, (days[i].0, stats)), day);
            if days[i].0 == day {
                &&& after.input == before.input - old.input_tokens + stats.input_tokens
                &&& after.output == before.output - old.output_tokens + stats.output_tokens
                &&& after.cache_read == before.cache_read - old.cache_read_tokens
                    + stats.cache_read_tokens
                &&& after.cache_write == before.cache_write - old.cache_write_tokens
                    + stats.cache_write_tokens
                &&& after.cost == before.cost - old.cost_micros + stats.cost_micros
                &&& old.input_tokens <= before.input
                &&& old.output_tokens <= before.output
                &&& old.cache_read_tokens <= before.cache_read
                &&& old.cache_write_tokens <= before.cache_write
                &&& old.cost_micros <= before.cost
            } else {
                after == before
            }
        }),
    decreases days.len(),
{
    let front = days.drop_last();
    let new = (days[i].0, stats);
    lemma_totals_not_negative(front, day);
    if i < front.len() {
        lemma_totals_updated(front, i, stats, day);
        assert(days.update(i, new).drop_last() =~= front.update(i, new));
    } else {
        assert(days.update(i, new).drop_last() =~= front);
    }
}

proof fn lemma_day_totals(
    days: Seq<(Seq<char>, SumStats)>,
    at: Seq<char>,
    stats: SumStats,
    day: Seq<char>,
)
    requires
        day_totals(days, day).plus(day_totals(seq![(at, stats)], day)).fit(),
    ensures
        day_totals(with_day(days, at, stats), day) == day_totals(days, day).plus(
            day_totals(seq![(at, stats)], day),
        ),
{
    let one = seq![(at, stats)];
    assert(one.drop_last() =~= Seq::<(Seq<char>, SumStats)>::empty());
    reveal_with_fuel(day_totals, 2);
    lemma_day_index_found(days, at);
    match day_index(days, at) {
        Some(i) => {
            lemma_totals_updated(days, i, sums(days[i].1, stats), day);
        },
        None => {
            assert(days.push((at, stats)).drop_last() =~= days);
        },
    }
}

/// A series with another added holds, of every day, what both hold of it: each counter with its
/// like, as long as the sums can be held.
pub proof fn series_add_up_by_day_and_kind(
    days: Seq<(Seq<char>, SumStats)>,
    more: Seq<(Seq<char>, SumStats)>,
    day: Seq<char>,
)
    requires
        day_totals(days, day).plus(day_totals(more, day)).fit(),
    ensures
        day_totals(with_days(days, more), day) == day_totals(days, day).plus(
            day_totals(more, day),
        ),
    decreases more.len(),
{
    lemma_totals_not_negative(days, day);
    lemma_totals_not_negative(more, day);
    if more.len() > 0 {
        let front = more.drop_last();
        let one = seq![more.last()];
        lemma_totals_not_negative(front, day);
        series_add_up_by_day_and_kind(days, front, day);
        assert(one.drop_last() =~= Seq::<(Seq<char>, SumStats)>::empty());
        assert(day_totals(more, day) == day_totals(front, day).plus(day_totals(one, day))) by {
            reveal_with_fuel(day_totals, 2);
        }
        lemma_day_totals(with_days(days, front), more.last().0, more.last().1, day);
    }
}

/// Merging keeps every sum by its model, its day and its kind: behind the merge a model has on a
/// day as many tokens of input, of output, of cache reads and of cache writes, and costs as much,
/// as in both sources together, as long as the sums can be held.
pub proof fn merging_adds_up_by_model_day_and_kind(
    dst: Map<Seq<char>, Seq<(Seq<char>, SumStats)>>,
    src: Map<Seq<char>, Seq<(Seq<char>, SumStats)>>,
    model: Seq<char>,
    day: Seq<char>,
)
    requires
        day_totals(series_of(dst, model), day).plus(day_totals(series_of(src, model), day)).fit(),
    ensures
        day_totals(series_of(merged(dst, src), model), day) == day_totals(
            series_of(dst, model),
            day,
        ).plus(day_totals(series_of(src, model), day)),
        merged(dst, src).contains_key(model) <==> dst.contains_key(model) || src.contains_key(model),
{
    series_add_up_by_day_and_kind(series_of(dst, model), series_of(src, model), day);
    if !dst.contains_key(model) && !src.contains_key(model) {
        assert(!merged(dst, src).contains_key(model));
    } else {
        assert(merged(dst, src).contains_key(model));
    }
}

/// A model that only one source has keeps its series as it is, where that lists no day twice.
pub proof fn merging_leaves_other_models_alone(
    dst: Map<Seq<char>, Seq<(Seq<char>, SumStats)>>,
    src: Map<Seq<char>, Seq<(Seq<char>, SumStats)>>,
    model: Seq<char>,
)
    requires
        dst.contains_key(model) != src.contains_key(model),
        src.contains_key(model) ==> distinct_days(src[model]),
    ensures
        dst.contains_key(model) ==> merged(dst, src)[model] == dst[model],
        src.contains_key(model) ==> merged(dst, src)[model] == src[model],
{
    assert(merged(dst, src).contains_key(model));
    if src.contains_key(model) {
        lemma_distinct_days_listed(src[model]);
    }
}

proof fn lemma_distinct_days_listed(more: Seq<(Seq<char>, SumStats)>)
    requires
        distinct_days(more),
    ensures
        with_days(seq![], more) == more,
    decreases more.len(),
{
    if more.len() > 0 {
        let front = more.drop_last();
        assert(distinct_days(front)) by {
            assert forall|i: int, j: int| 0 <= i < j < front.len() implies (#[trigger] front[i]).0
                != (#[trigger] front[j]).0 by {
                assert(front[i] == more[i] && front[j] == more[j]);
            }
        }
        lemma_distinct_days_listed(front);
        assert forall|j: int| 0 <= j < front.len() implies (#[trigger] front[j]).0
            != more.last().0 by {
            assert(front[j] == more[j]);
            assert(more[j].0 != more[more.len() - 1].0);
        }
        lemma_day_index(front, more.last().0, front.len() as int);
        assert(front.push(more.last()) =~= more);
    }
}

/// A series with another added lists its own days first and in place; every day of the other is
/// listed too, and no day that neither has.
pub proof fn merging_lists_the_days_of_both(
    days: Seq<(Seq<char>, SumStats)>,
    more: Seq<(Seq<char>, SumStats)>,
)
    ensures
        with_days(days, more).len() >= days.len(),
        forall|i: int| 0 <= i < days.len() ==> (#[trigger] with_days(days, more)[i]).0 == days[i].0,
        forall|j: int|
            0 <= j < more.len() ==> exists|i: int|
                0 <= i < with_days(days, more).len() && with_days(days, more)[i].0 == (
                #[trigger] more[j]).0,
        forall|i: int|
            days.len() <= i < with_days(days, more).len() ==> exists|j: int|
                0 <= j < more.len() && more[j].0 == (#[trigger] with_days(days, more)[i]).0,
    decreases more.len(),
{
    if more.len() > 0 {
        let front = more.drop_last();
        let before = with_days(days, front);
        let all = with_days(days, more);
        let last = more.last();
        merging_lists_the_days_of_both(days, front);
        lemma_day_index_found(before, last.0);
        assert forall|i: int| 0 <= i < before.len() implies (#[trigger] all[i]).0 == before[i].0 by {}
        assert forall|j: int| 0 <= j < more.len() implies exists|i: int|
            0 <= i < all.len() && all[i].0 == (#[trigger] more[j]).0 by {
            if j < front.len() {
                assert(front[j] == more[j]);
                let i = choose|i: int| 0 <= i < before.len() && before[i].0 == front[j].0;
                assert(all[i].0 == more[j].0);
            } else {
                match day_index(before, last.0) {
                    Some(i) => {
                        assert(all[i].0 == last.0);
                    },
                    None => {
                        assert(all[before.len() as int].0 == last.0);
                    },
                }
            }
        }
        assert forall|i: int| days.len() <= i < all.len() implies exists|j: int|
            0 <= j < more.len() && more[j].0 == (#[trigger] all[i]).0 by {
            if i < before.len() {
                let j = choose|j: int| 0 <= j < front.len() && front[j].0 == before[i].0;
                assert(more[j].0 == all[i].0);
            } else {
                assert(more[more.len() - 1].0 == all[i].0);
            }
        }
    }
}

/// The series of a model is the one kept under its name, and empty where none is.
pub proof fn series_are_kept_under_their_models(
    series: Map<Seq<char>, Seq<(Seq<char>, SumStats)>>,
    model: Seq<char>,
)
    ensures
        series.contains_key(model) ==> series_of(series, model) == series[model],
        !series.contains_key(model) ==> series_of(series, model).len() == 0,
{
}

/// The series of days by their views: each day under its name, with its sums.
pub proof fn days_are_taken_one_by_one(days: Seq<DayStats>, i: int)
    requires
        0 <= i < days.len(),
    ensures
        day_views(days).len() == days.len(),
        day_views(days)[i].0 == days[i].day@,
        day_views(days)[i].1 == days[i].stats,
{
}

/// The series of all models are those that are listed, in the order of the names of the models.
pub proof fn series_are_those_listed(series: ModelSeries, i: int, j: int)
    requires
        series.wf(),
        0 <= i < j < series.in_order().len(),
    ensures
        series@.contains_key(series.in_order()[i].model@),
        series@[series.in_order()[i].model@] == day_views(series.in_order()[i].days@),
        series@.contains_key(series.in_order()[j].model@),
        series@[series.in_order()[j].model@] == day_views(series.in_order()[j].days@),
        text_lt(series.in_order()[i].model@, series.in_order()[j].model@),
{
    lemma_series_by_model(series.entries@);
}

/// All tokens are those of input, of output, of cache reads and of cache writes.
pub proof fn tokens_are_of_four_kinds(stats: SumStats)
    ensures
        stats.tokens() == stats.input_tokens + stats.output_tokens + stats.cache_read_tokens
            + stats.cache_write_tokens,
{
}

/// To add sums adds each counter to its like; one that does not fit stays at the largest number.
pub proof fn adding_keeps_the_kinds_apart(stats: &mut SumStats, other: SumStats, r: ())
    requires
        call_ensures(SumStats::add, (stats, &other), r),
    ensures
        final(stats).input_tokens == at_most_max(old(stats).input_tokens + other.input_tokens),
        final(stats).output_tokens == at_most_max(old(stats).output_tokens + other.output_tokens),
        final(stats).cache_read_tokens == at_most_max(
            old(stats).cache_read_tokens + other.cache_read_tokens,
        ),
        final(stats).cache_write_tokens == at_most_max(
            old(stats).cache_write_tokens + other.cache_write_tokens,
        ),
        final(stats).cost_micros == at_most_max(old(stats).cost_micros + other.cost_micros),
{
}

/// To merge series adds up what both hold of a model on a day, kind by kind, as long as the sums
/// can be held; every model of either is there, and no other.
pub proof fn merged_series_hold_what_both_held(
    dst: &mut ModelSeries,
    src: ModelSeries,
    r: (),
    model: Seq<char>,
    day: Seq<char>,
)
    requires
        call_ensures(merge_model_series, (dst, src), r),
        day_totals(series_of(old(dst)@, model), day).plus(
            day_totals(series_of(src@, model), day),
        ).fit(),
    ensures
        day_totals(series_of(final(dst)@, model), day) == day_totals(
            series_of(old(dst)@, model),
            day,
        ).plus(day_totals(series_of(src@, model), day)),
        final(dst)@.contains_key(model) <==> old(dst)@.contains_key(model) || src@.contains_key(
            model,
        ),
{
    merging_adds_up_by_model_day_and_kind(old(dst)@, src@, model, day);
}

/// To add the series of a model adds up its days, kind by kind, as long as the sums can be held,
/// and leaves the other models alone.
pub proof fn added_series_add_up_by_day(
    series: &mut ModelSeries,
    model: String,
    days: Vec<DayStats>,
    r: (),
    other: Seq<char>,
    day: Seq<char>,
)
    requires
        call_ensures(ModelSeries::add_series, (series, model, days), r),
        day_totals(series_of(old(series)@, model@), day).plus(
            day_totals(day_views(days@), day),
        ).fit(),
        other != model@,
    ensures
        final(series)@.contains_key(model@),
        day_totals(final(series)@[model@], day) == day_totals(
            series_of(old(series)@, model@),
            day,
        ).plus(day_totals(day_views(days@), day)),
        final(series)@.contains_key(other) == old(series)@.contains_key(other),
        old(series)@.contains_key(other) ==> final(series)@[other] == old(series)@[other],
{
    series_add_up_by_day_and_kind(series_of(old(series)@, model@), day_views(days@), day);
}

} // verus!
