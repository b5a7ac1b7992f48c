//! Typed request parameters and the fixed sets of values that FRED accepts.
use vstd::prelude::*;
use crate::date::{date_le, iso_date_text, next_day, valid_ymd, Date};
use crate::query::{with_date, Query};
use crate::text::decimal;

verus! {
/// Observation frequency; FRED aggregates to a lower one.
#[derive(Clone, Copy, Debug, PartialEq, Eq)]
pub enum Frequency {
    Daily,
    Weekly,
    Biweekly,
    Monthly,
    Quarterly,
    Semiannual,
    Annual,
    WeeklyEndingFriday,
    WeeklyEndingThursday,
    WeeklyEndingWednesday,
    WeeklyEndingTuesday,
    WeeklyEndingMonday,
    WeeklyEndingSunday,
    WeeklyEndingSaturday,
    BiweeklyEndingWednesday,
    BiweeklyEndingMonday,
}

impl Frequency {
    /// The code that FRED expects for this value.
    pub open spec fn code(self) -> Seq<char> {
        match self {
            Frequency::Daily => "d"@,
            Frequency::Weekly => "w"@,
            Frequency::Biweekly => "bw"@,
            Frequency::Monthly => "m"@,
            Frequency::Quarterly => "q"@,
            Frequency::Semiannual => "sa"@,
            Frequency::Annual => "a"@,
            Frequency::WeeklyEndingFriday => "wef"@,
            Frequency::WeeklyEndingThursday => "weth"@,
            Frequency::WeeklyEndingWednesday => "wew"@,
            Frequency::WeeklyEndingTuesday => "wetu"@,
            Frequency::WeeklyEndingMonday => "wem"@,
            Frequency::WeeklyEndingSunday => "wesu"@,
            Frequency::WeeklyEndingSaturday => "wesa"@,
            Frequency::BiweeklyEndingWednesday => "bwew"@,
            Frequency::BiweeklyEndingMonday => "bwem"@,
        }
    }

    /// The code that FRED expects for this value.
    pub fn as_str(self) -> (r: &'static str)
        ensures
            r@ == self.code(),
    {
        match self {
            Frequency::Daily => "d",
            Frequency::Weekly => "w",
            Frequency::Biweekly => "bw",
            Frequency::Monthly => "m",
            Frequency::Quarterly => "q",
            Frequency::Semiannual => "sa",
            Frequency::Annual => "a",
            Frequency::WeeklyEndingFriday => "wef",
            Frequency::WeeklyEndingThursday => "weth",
            Frequency::WeeklyEndingWednesday => "wew",
            Frequency::WeeklyEndingTuesday => "wetu",
            Frequency::WeeklyEndingMonday => "wem",
            Frequency::WeeklyEndingSunday => "wesu",
            Frequency::WeeklyEndingSaturday => "wesa",
            Frequency::BiweeklyEndingWednesday => "bwew",
            Frequency::BiweeklyEndingMonday => "bwem",
        }
    }

    /// Law: different values are sent as different codes, so FRED can tell
    /// them apart.
    pub proof fn law_codes_distinct(a: Frequency, b: Frequency)
        requires
            a != b,
        ensures
            a.code() != b.code(),
    {
        reveal_strlit("d");
        reveal_strlit("w");
        reveal_strlit("bw");
        reveal_strlit("m");
        reveal_strlit("q");
        reveal_strlit("sa");
        reveal_strlit("a");
        reveal_strlit("wef");
        reveal_strlit("weth");
        reveal_strlit("wew");
        reveal_strlit("wetu");
        reveal_strlit("wem");
        reveal_strlit("wesu");
        reveal_strlit("wesa");
        reveal_strlit("bwew");
        reveal_strlit("bwem");
        if a.code() == b.code() {
            assert(a.code().len() == b.code().len());
            if a.code().len() > 0 {
                assert(a.code()[0] == b.code()[0]);
            }
            if a.code().len() > 1 {
                assert(a.code()[1] == b.code()[1]);
            }
            if a.code().len() > 2 {
                assert(a.code()[2] == b.code()[2]);
            }
            if a.code().len() > 3 {
                assert(a.code()[3] == b.code()[3]);
            }
            if a.code().len() > 4 {
                assert(a.code()[4] == b.code()[4]);
            }
        }
    }
}

/// How observations are aggregated to a lower frequency.
#[derive(Clone, Copy, Debug, PartialEq, Eq)]
pub enum AggregationMethod {
    Average,
    Sum,
    EndOfPeriod,
}

impl AggregationMethod {
    /// The code that FRED expects for this value.
    pub open spec fn code(self) -> Seq<char> {
        match self {
            AggregationMethod::Average => "avg"@,
            AggregationMethod::Sum => "sum"@,
            AggregationMethod::EndOfPeriod => "eop"@,
        }
    }

    /// The code that FRED expects for this value.
    pub fn as_str(self) -> (r: &'static str)
        ensures
            r@ == self.code(),
    {
        match self {
            AggregationMethod::Average => "avg",
            AggregationMethod::Sum => "sum",
            AggregationMethod::EndOfPeriod => "eop",
        }
    }

    /// Law: different values are sent as different codes, so FRED can tell
    /// them apart.
    pub proof fn law_codes_distinct(a: AggregationMethod, b: AggregationMethod)
        requires
            a != b,
        ensures
            a.code() != b.code(),
    {
        reveal_strlit("avg");
        reveal_strlit("sum");
        reveal_strlit("eop");
        if a.code() == b.code() {
            assert(a.code().len() == b.code().len());
            if a.code().len() > 0 {
                assert(a.code()[0] == b.code()[0]);
            }
            if a.code().len() > 1 {
                assert(a.code()[1] == b.code()[1]);
            }
            if a.code().len() > 2 {
                assert(a.code()[2] == b.code()[2]);
            }
            if a.code().len() > 3 {
                assert(a.code()[3] == b.code()[3]);
            }
            if a.code().len() > 4 {
                assert(a.code()[4] == b.code()[4]);
            }
        }
    }
}

/// The transformation applied to a series' values.
#[derive(Clone, Copy, Debug, PartialEq, Eq)]
pub enum Units {
    Levels,
    Change,
    ChangeFromYearAgo,
    PercentChange,
    PercentChangeFromYearAgo,
    CompoundedAnnualRate,
    ContinuouslyCompoundedChange,
    ContinuouslyCompoundedAnnualRate,
    NaturalLog,
}

impl Units {
    /// The code that FRED expects for this value.
    pub open spec fn code(self) -> Seq<char> {
        match self {
            Units::Levels => "lin"@,
            Units::Change => "chg"@,
            Units::ChangeFromYearAgo => "ch1"@,
            Units::PercentChange => "pch"@,
            Units::PercentChangeFromYearAgo => "pc1"@,
            Units::CompoundedAnnualRate => "pca"@,
            Units::ContinuouslyCompoundedChange => "cch"@,
            Units::ContinuouslyCompoundedAnnualRate => "cca"@,
            Units::NaturalLog => "log"@,
        }
    }

    /// The code that FRED expects for this value.
    pub fn as_str(self) -> (r: &'static str)
        ensures
            r@ == self.code(),
    {
        match self {
            Units::Levels => "lin",
            Units::Change => "chg",
            Units::ChangeFromYearAgo => "ch1",
            Units::PercentChange => "pch",
            Units::PercentChangeFromYearAgo => "pc1",
            Units::CompoundedAnnualRate => "pca",
            Units::ContinuouslyCompoundedChange => "cch",
            Units::ContinuouslyCompoundedAnnualRate => "cca",
            Units::NaturalLog => "log",
        }
    }

    /// Law: different values are sent as different codes, so FRED can tell
    /// them apart.
    pub proof fn law_codes_distinct(a: Units, b: Units)
        requires
            a != b,
        ensures
            a.code() != b.code(),
    {
        reveal_strlit("lin");
        reveal_strlit("chg");
        reveal_strlit("ch1");
        reveal_strlit("pch");
        reveal_strlit("pc1");
        reveal_strlit("pca");
        reveal_strlit("cch");
        reveal_strlit("cca");
        reveal_strlit("log");
        if a.code() == b.code() {
            assert(a.code().len() == b.code().len());
            if a.code().len() > 0 {
                assert(a.code()[0] == b.code()[0]);
            }
            if a.code().len() > 1 {
                assert(a.code()[1] == b.code()[1]);
            }
            if a.code().len() > 2 {
                assert(a.code()[2] == b.code()[2]);
            }
            if a.code().len() > 3 {
                assert(a.code()[3] == b.code()[3]);
            }
            if a.code().len() > 4 {
                assert(a.code()[4] == b.code()[4]);
            }
        }
    }
}

/// Seasonal adjustment of a series.
#[derive(Clone, Copy, Debug, PartialEq, Eq)]
pub enum Seasonality {
    SeasonallyAdjusted,
    NotSeasonallyAdjusted,
    SeasonallyAdjustedAnnualRate,
    NotSeasonallyAdjustedAnnualRate,
}

impl Seasonality {
    /// The code that FRED expects for this value.
    pub open spec fn code(self) -> Seq<char> {
        match self {
            Seasonality::SeasonallyAdjusted => "sa"@,
            Seasonality::NotSeasonallyAdjusted => "nsa"@,
            Seasonality::SeasonallyAdjustedAnnualRate => "saar"@,
            Seasonality::NotSeasonallyAdjustedAnnualRate => "nsaar"@,
        }
    }

    /// The code that FRED expects for this value.
    pub fn as_str(self) -> (r: &'static str)
        ensures
            r@ == self.code(),
    {
        match self {
            Seasonality::SeasonallyAdjusted => "sa",
            Seasonality::NotSeasonallyAdjusted => "nsa",
            Seasonality::SeasonallyAdjustedAnnualRate => "saar",
            Seasonality::NotSeasonallyAdjustedAnnualRate => "nsaar",
        }
    }

    /// Law: different values are sent as different codes, so FRED can tell
    /// them apart.
    pub proof fn law_codes_distinct(a: Seasonality, b: Seasonality)
        requires
            a != b,
        ensures
            a.code() != b.code(),
    {
        reveal_strlit("sa");
        reveal_strlit("nsa");
        reveal_strlit("saar");
        reveal_strlit("nsaar");
        if a.code() == b.code() {
            assert(a.code().len() == b.code().len());
            if a.code().len() > 0 {
                assert(a.code()[0] == b.code()[0]);
            }
            if a.code().len() > 1 {
                assert(a.code()[1] == b.code()[1]);
            }
            if a.code().len() > 2 {
                assert(a.code()[2] == b.code()[2]);
            }
            if a.code().len() > 3 {
                assert(a.code()[3] == b.code()[3]);
            }
            if a.code().len() > 4 {
                assert(a.code()[4] == b.code()[4]);
            }
        }
    }
}

/// The order of a list's records.
#[derive(Clone, Copy, Debug, PartialEq, Eq)]
pub enum SortOrder {
    Ascending,
    Descending,
}

impl SortOrder {
    /// The code that FRED expects for this value.
    pub open spec fn code(self) -> Seq<char> {
        match self {
            SortOrder::Ascending => "asc"@,
            SortOrder::Descending => "desc"@,
        }
    }

    /// The code that FRED expects for this value.
    pub fn as_str(self) -> (r: &'static str)
        ensures
            r@ == self.code(),
    {
        match self {
            SortOrder::Ascending => "asc",
            SortOrder::Descending => "desc",
        }
    }

    /// Law: different values are sent as different codes, so FRED can tell
    /// them apart.
    pub proof fn law_codes_distinct(a: SortOrder, b: SortOrder)
        requires
            a != b,
        ensures
            a.code() != b.code(),
    {
        reveal_strlit("asc");
        reveal_strlit("desc");
        if a.code() == b.code() {
            assert(a.code().len() == b.code().len());
            if a.code().len() > 0 {
                assert(a.code()[0] == b.code()[0]);
            }
            if a.code().len() > 1 {
                assert(a.code()[1] == b.code()[1]);
            }
            if a.code().len() > 2 {
                assert(a.code()[2] == b.code()[2]);
            }
            if a.code().len() > 3 {
                assert(a.code()[3] == b.code()[3]);
            }
            if a.code().len() > 4 {
                assert(a.code()[4] == b.code()[4]);
            }
        }
    }
}

/// ALFRED's observation output types.
#[derive(Clone, Copy, Debug, PartialEq, Eq)]
pub enum OutputType {
    ObservationsByRealtimePeriod,
    ObservationsByVintageDateAll,
    ObservationsByVintageDateNewAndRevised,
    InitialReleaseOnly,
}

impl OutputType {
    /// The code that FRED expects for this value.
    pub open spec fn code(self) -> Seq<char> {
        match self {
            OutputType::ObservationsByRealtimePeriod => "1"@,
            OutputType::ObservationsByVintageDateAll => "2"@,
            OutputType::ObservationsByVintageDateNewAndRevised => "3"@,
            OutputType::InitialReleaseOnly => "4"@,
        }
    }

    /// The code that FRED expects for this value.
    pub fn as_str(self) -> (r: &'static str)
        ensures
            r@ == self.code(),
    {
        match self {
            OutputType::ObservationsByRealtimePeriod => "1",
            OutputType::ObservationsByVintageDateAll => "2",
            OutputType::ObservationsByVintageDateNewAndRevised => "3",
            OutputType::InitialReleaseOnly => "4",
        }
    }

    /// Law: different values are sent as different codes, so FRED can tell
    /// them apart.
    pub proof fn law_codes_distinct(a: OutputType, b: OutputType)
        requires
            a != b,
        ensures
            a.code() != b.code(),
    {
        reveal_strlit("1");
        reveal_strlit("2");
        reveal_strlit("3");
        reveal_strlit("4");
        if a.code() == b.code() {
            assert(a.code().len() == b.code().len());
            if a.code().len() > 0 {
                assert(a.code()[0] == b.code()[0]);
            }
            if a.code().len() > 1 {
                assert(a.code()[1] == b.code()[1]);
            }
            if a.code().len() > 2 {
                assert(a.code()[2] == b.code()[2]);
            }
            if a.code().len() > 3 {
                assert(a.code()[3] == b.code()[3]);
            }
            if a.code().len() > 4 {
                assert(a.code()[4] == b.code()[4]);
            }
        }
    }
}

/// How series search matches its text.
#[derive(Clone, Copy, Debug, PartialEq, Eq)]
pub enum SearchType {
    FullText,
    SeriesId,
}

impl SearchType {
    /// The code that FRED expects for this value.
    pub open spec fn code(self) -> Seq<char> {
        match self {
            SearchType::FullText => "full_text"@,
            SearchType::SeriesId => "series_id"@,
        }
    }

    /// The code that FRED expects for this value.
    pub fn as_str(self) -> (r: &'static str)
        ensures
            r@ == self.code(),
    {
        match self {
            SearchType::FullText => "full_text",
            SearchType::SeriesId => "series_id",
        }
    }

    /// Law: different values are sent as different codes, so FRED can tell
    /// them apart.
    pub proof fn law_codes_distinct(a: SearchType, b: SearchType)
        requires
            a != b,
        ensures
            a.code() != b.code(),
    {
        reveal_strlit("full_text");
        reveal_strlit("series_id");
        if a.code() == b.code() {
            assert(a.code().len() == b.code().len());
            if a.code().len() > 0 {
                assert(a.code()[0] == b.code()[0]);
            }
            if a.code().len() > 1 {
                assert(a.code()[1] == b.code()[1]);
            }
            if a.code().len() > 2 {
                assert(a.code()[2] == b.code()[2]);
            }
            if a.code().len() > 3 {
                assert(a.code()[3] == b.code()[3]);
            }
            if a.code().len() > 4 {
                assert(a.code()[4] == b.code()[4]);
            }
        }
    }
}

/// Parameters shared by most list endpoints.
#[derive(Clone, Debug)]
pub struct Pagination {
    pub limit: Option<u32>,
    pub offset: Option<u32>,
    pub sort_order: Option<SortOrder>,
}

impl Default for Pagination {
    fn default() -> (r: Self)
        ensures
            r.limit is None && r.offset is None && r.sort_order is None,
    {
        Pagination { limit: None, offset: None, sort_order: None }
    }
}

/// ALFRED real-time window.
#[derive(Clone, Debug)]
pub struct Realtime {
    pub start: Option<Date>,
    pub end: Option<Date>,
}

impl Default for Realtime {
    fn default() -> (r: Self)
        ensures
            r.start is None && r.end is None,
    {
        Realtime { start: None, end: None }
    }
}

/// The bounds of a window whose start and end are both given.
pub open spec fn window_dates(w: Realtime) -> ((int, int, int), (int, int, int)) {
    (w.start->0@, w.end->0@)
}

/// The sub-windows, of at most `years` calendar years each, into which the
/// window from `start` to `end` is split: the first runs from `start` to the
/// last day of its `years`-th calendar year, each next one starts on the
/// following 1 January, and the last ends on `end`. A window that lies
/// within `years` calendar years, or a split into zero years, is one piece.
pub open spec fn year_windows(start: (int, int, int), end: (int, int, int), years: nat) -> Seq<
    ((int, int, int), (int, int, int)),
>
    decreases end.0 - start.0,
{
    if years == 0 || end.0 < start.0 + years {
        seq![(start, end)]
    } else {
        seq![(start, (start.0 + years - 1, 12, 31))] + year_windows(
            (start.0 + years, 1, 1),
            end,
            years,
        )
    }
}

/// Law: the sub-windows of a window tile it. The first starts on the
/// window's start and the last ends on its end; each starts on or before its
/// own end and spans at most `years` calendar years; and each next one
/// starts on the day after the previous one ends, so no day of the window is
/// left out or fetched twice.
pub proof fn law_windows_tile_the_window(start: (int, int, int), end: (int, int, int), years: nat)
    requires
        valid_ymd(start.0, start.1, start.2),
        valid_ymd(end.0, end.1, end.2),
        date_le(start, end),
        years >= 1,
    ensures
        year_windows(start, end, years).len() >= 1,
        year_windows(start, end, years)[0].0 == start,
        year_windows(start, end, years).last().1 == end,
        forall|i: int|
            0 <= i < year_windows(start, end, years).len() ==> {
                let w = #[trigger] year_windows(start, end, years)[i];
                &&& valid_ymd(w.0.0, w.0.1, w.0.2)
                &&& valid_ymd(w.1.0, w.1.1, w.1.2)
                &&& date_le(w.0, w.1)
                &&& w.1.0 - w.0.0 < years
            },
        forall|i: int|
            0 <= i < year_windows(start, end, years).len() - 1 ==> year_windows(start, end, years)[i
                + 1].0 == next_day(#[trigger] year_windows(start, end, years)[i].1),
    decreases end.0 - start.0,
{
    let ws = year_windows(start, end, years);
    if end.0 >= start.0 + years {
        let last = start.0 + years - 1;
        let next = (last + 1, 1, 1);
        let rest = year_windows(next, end, years);
        law_windows_tile_the_window(next, end, years);
        assert(ws == seq![(start, (last, 12, 31))] + rest);
        assert(next_day((last, 12, 31)) == next);
        assert forall|i: int| 0 < i < ws.len() implies #[trigger] ws[i] == rest[i - 1] by {}
        assert forall|i: int| 0 <= i < ws.len() - 1 implies ws[i + 1].0 == next_day(
            #[trigger] ws[i].1,
        ) by {
            if i > 0 {
                assert(ws[i] == rest[i - 1]);
                assert(ws[i + 1] == rest[i]);
            }
        }
        assert(ws.last() == rest.last());
    }
}

impl Realtime {
    /// Splits the window into consecutive sub-windows of at most `years`
    /// calendar years each, as `year_windows` describes. A window with an
    /// open end, or a split into zero years, is returned as it is.
    pub fn windows(&self, years: u32) -> (r: Vec<Realtime>)
        ensures
            (self.start is None || self.end is None) ==> r@ == seq![*self],
            (self.start is Some && self.end is Some) ==> {
                let w = year_windows(self.start->0@, self.end->0@, years as nat);
                &&& r@.len() == w.len()
                &&& forall|i: int|
                    0 <= i < r@.len() ==> (#[trigger] r@[i]).start is Some && r@[i].end is Some
                        && window_dates(r@[i]) == w[i]
            },
    {
        match (self.start, self.end) {
            (Some(s), Some(e)) => {
                let ey: i64 = e.year() as i64;
                let n: i64 = years as i64;
                let ghost whole = year_windows(s@, e@, years as nat);
                if n == 0 {
                    let mut one: Vec<Realtime> = Vec::new();
                    one.push(Realtime { start: Some(s), end: Some(e) });
                    return one;
                }
                let mut out: Vec<Realtime> = Vec::new();
                let mut cur: Date = s;
                while ey >= cur.year() as i64 + n
                    invariant
                        n == years as i64,
                        n >= 1,
                        ey == e@.0,
                        valid_ymd(e@.0, e@.1, e@.2),
                        whole == year_windows(s@, e@, years as nat),
                        forall|i: int|
                            0 <= i < out@.len() ==> (#[trigger] out@[i]).start is Some
                                && out@[i].end is Some,
                        out@.map_values(|w: Realtime| window_dates(w)) + year_windows(
                            cur@,
                            e@,
                            years as nat,
                        ) == whole,
                    decreases ey - cur@.0,
                {
                    let cy: i64 = cur.year() as i64;
                    let last: i32 = (cy + n - 1) as i32;
                    let block_end = Date::from_ymd_opt(last, 12, 31).unwrap();
                    let next = Date::from_ymd_opt(last + 1, 1, 1).unwrap();
                    let ghost before = out@.map_values(|w: Realtime| window_dates(w));
                    let ghost piece = (cur@, block_end@);
                    assert(year_windows(cur@, e@, years as nat) == seq![piece] + year_windows(
                        next@,
                        e@,
                        years as nat,
                    ));
                    out.push(Realtime { start: Some(cur), end: Some(block_end) });
                    assert(out@.map_values(|w: Realtime| window_dates(w)) =~= before.push(piece));
                    assert(before.push(piece) + year_windows(next@, e@, years as nat) =~= before
                        + (seq![piece] + year_windows(next@, e@, years as nat)));
                    cur = next;
                }
                let ghost before = out@.map_values(|w: Realtime| window_dates(w));
                out.push(Realtime { start: Some(cur), end: Some(e) });
                assert(out@.map_values(|w: Realtime| window_dates(w)) =~= before.push(
                    (cur@, e@),
                ));
                assert(out@.map_values(|w: Realtime| window_dates(w)) =~= whole);
                assert forall|i: int| 0 <= i < out@.len() implies window_dates(#[trigger] out@[i])
                    == whole[i] by {
                    assert(out@.map_values(|w: Realtime| window_dates(w))[i] == window_dates(
                        out@[i],
                    ));
                }
                out
            },
            _ => {
                let mut one: Vec<Realtime> = Vec::new();
                one.push(Realtime { start: self.start, end: self.end });
                one
            },
        }
    }
}

/// Common real-time and pagination parameters for collection endpoints.
#[derive(Clone, Debug)]
pub struct ListOptions {
    pub realtime: Realtime,
    pub pagination: Pagination,
}

impl Default for ListOptions {
    fn default() -> (r: Self)
        ensures
            r.realtime.start is None && r.realtime.end is None,
            r.pagination.limit is None && r.pagination.offset is None
                && r.pagination.sort_order is None,
    {
        ListOptions { realtime: Realtime::default(), pagination: Pagination::default() }
    }
}

/// Parameters for series observations, including ALFRED vintage data.
#[derive(Clone, Debug)]
pub struct Observations {
    pub series_id: String,
    pub realtime: Realtime,
    pub observation_start: Option<Date>,
    pub observation_end: Option<Date>,
    pub units: Option<Units>,
    pub frequency: Option<Frequency>,
    pub aggregation_method: Option<AggregationMethod>,
    pub output_type: Option<OutputType>,
    pub vintage_dates: Vec<Date>,
    pub limit: Option<u32>,
    pub offset: Option<u32>,
    pub sort_order: Option<SortOrder>,
}

impl Observations {
    /// The parameters of a plain request for the observations of `series_id`.
    pub fn new(series_id: String) -> (r: Self)
        ensures
            r.series_id@ == series_id@,
            r.realtime.start is None && r.realtime.end is None,
            r.observation_start is None && r.observation_end is None,
            r.units is None && r.frequency is None,
            r.aggregation_method is None && r.output_type is None,
            r.vintage_dates@.len() == 0,
            r.limit is None && r.offset is None && r.sort_order is None,
    {
        Observations {
            series_id,
            realtime: Realtime::default(),
            observation_start: None,
            observation_end: None,
            units: None,
            frequency: None,
            aggregation_method: None,
            output_type: None,
            vintage_dates: Vec::new(),
            limit: None,
            offset: None,
            sort_order: None,
        }
    }
}

/// Parameters for series search and tag-search endpoints.
#[derive(Clone, Debug)]
pub struct Search {
    pub search_text: String,
    pub search_type: Option<SearchType>,
    pub realtime: Realtime,
    pub pagination: Pagination,
}

impl Search {
    /// The parameters of a plain search for `search_text`.
    pub fn new(search_text: String) -> (r: Self)
        ensures
            r.search_text@ == search_text@,
            r.search_type is None,
            r.realtime.start is None && r.realtime.end is None,
            r.pagination.limit is None && r.pagination.offset is None
                && r.pagination.sort_order is None,
    {
        Search {
            search_text,
            search_type: None,
            realtime: Realtime::default(),
            pagination: Pagination::default(),
        }
    }
}

/// `m` with the window's bounds, where they are given.
pub open spec fn with_realtime(m: Map<Seq<char>, Seq<char>>, value: Realtime) -> Map<
    Seq<char>,
    Seq<char>,
> {
    with_date(with_date(m, "realtime_start"@, value.start), "realtime_end"@, value.end)
}

/// `m` with `key` set to a number in decimal, where there is one.
pub open spec fn with_number(m: Map<Seq<char>, Seq<char>>, key: Seq<char>, value: Option<u32>) -> Map<
    Seq<char>,
    Seq<char>,
> {
    match value {
        Some(v) => m.insert(key, decimal(v as nat)),
        None => m,
    }
}

/// `m` with the pagination parameters that are given.
pub open spec fn with_pagination(m: Map<Seq<char>, Seq<char>>, value: Pagination) -> Map<
    Seq<char>,
    Seq<char>,
> {
    let m = with_number(with_number(m, "limit"@, value.limit), "offset"@, value.offset);
    match value.sort_order {
        Some(s) => m.insert("sort_order"@, s.code()),
        None => m,
    }
}

/// `m` with the real-time window and then the pagination of `value`.
pub open spec fn with_list_options(m: Map<Seq<char>, Seq<char>>, value: ListOptions) -> Map<
    Seq<char>,
    Seq<char>,
> {
    with_pagination(with_realtime(m, value.realtime), value.pagination)
}

/// Adds the real-time window's bounds that are given.
pub fn realtime(q: &mut Query, value: &Realtime)
    ensures
        final(q).entries() == with_realtime(old(q).entries(), *value),
{
    q.date("realtime_start", value.start);
    q.date("realtime_end", value.end);
}

/// Adds the pagination parameters that are given.
pub fn pagination(q: &mut Query, value: &Pagination)
    ensures
        final(q).entries() == with_pagination(old(q).entries(), *value),
{
    if let Some(v) = value.limit {
        q.put_number("limit", v as u64);
    }
    if let Some(v) = value.offset {
        q.put_number("offset", v as u64);
    }
    if let Some(v) = value.sort_order {
        q.put("sort_order", v.as_str().to_owned());
    }
}

/// Adds the real-time window and then the pagination of `value`.
pub fn list_options(q: &mut Query, value: &ListOptions)
    ensures
        final(q).entries() == with_list_options(old(q).entries(), *value),
{
    realtime(q, &value.realtime);
    pagination(q, &value.pagination);
}

/// The ISO text of a date, where there is one.
pub open spec fn date_text(d: Option<Date>) -> Option<Seq<char>> {
    match d {
        Some(x) => Some(iso_date_text(x@)),
        None => None,
    }
}

/// The decimal text of a number, where there is one.
pub open spec fn number_text(n: Option<u32>) -> Option<Seq<char>> {
    match n {
        Some(x) => Some(decimal(x as nat)),
        None => None,
    }
}

/// The lengths of the parameter names that the request builders use, and the
/// names of equal length that differ: together they tell all names apart.
pub proof fn lemma_keys_distinct()
    ensures
        "series_id"@.len() == 9,
        "realtime_start"@.len() == 14,
        "realtime_end"@.len() == 12,
        "observation_start"@.len() == 17,
        "observation_end"@.len() == 15,
        "units"@.len() == 5,
        "frequency"@.len() == 9,
        "aggregation_method"@.len() == 18,
        "output_type"@.len() == 11,
        "vintage_dates"@.len() == 13,
        "limit"@.len() == 5,
        "offset"@.len() == 6,
        "sort_order"@.len() == 10,
        "search_text"@.len() == 11,
        "search_type"@.len() == 11,
        "tag_names"@.len() == 9,
        "units"@ != "limit"@,
        "series_id"@ != "frequency"@,
        "series_id"@ != "tag_names"@,
        "frequency"@ != "tag_names"@,
        "output_type"@ != "search_text"@,
        "output_type"@ != "search_type"@,
        "search_text"@ != "search_type"@,
{
    reveal_strlit("series_id");
    reveal_strlit("realtime_start");
    reveal_strlit("realtime_end");
    reveal_strlit("observation_start");
    reveal_strlit("observation_end");
    reveal_strlit("units");
    reveal_strlit("frequency");
    reveal_strlit("aggregation_method");
    reveal_strlit("output_type");
    reveal_strlit("vintage_dates");
    reveal_strlit("limit");
    reveal_strlit("offset");
    reveal_strlit("sort_order");
    reveal_strlit("search_text");
    reveal_strlit("search_type");
    reveal_strlit("tag_names");
    assert("units"@[0] != "limit"@[0]);
    assert("series_id"@[0] != "frequency"@[0]);
    assert("series_id"@[0] != "tag_names"@[0]);
    assert("frequency"@[0] != "tag_names"@[0]);
    assert("output_type"@[0] != "search_text"@[0]);
    assert("output_type"@[0] != "search_type"@[0]);
    assert("search_text"@[8] != "search_type"@[8]);
}

/// Law: pagination sends `limit` and `offset` in decimal and `sort_order` as
/// its code, each exactly when it is given and whatever the others are, and
/// leaves every other parameter as it was.
pub proof fn law_pagination_parameters(m: Map<Seq<char>, Seq<char>>, v: Pagination)
    ensures
        with_pagination(m, v).get("limit"@) == (match v.limit {
            Some(l) => Some(decimal(l as nat)),
            None => m.get("limit"@),
        }),
        with_pagination(m, v).get("offset"@) == (match v.offset {
            Some(o) => Some(decimal(o as nat)),
            None => m.get("offset"@),
        }),
        with_pagination(m, v).get("sort_order"@) == (match v.sort_order {
            Some(s) => Some(s.code()),
            None => m.get("sort_order"@),
        }),
        forall|k: Seq<char>|
            k != "limit"@ && k != "offset"@ && k != "sort_order"@ ==> #[trigger] with_pagination(
                m,
                v,
            ).get(k) == m.get(k),
{
    lemma_keys_distinct();
}

/// Law: a real-time window sends `realtime_start` and `realtime_end` as the
/// ISO texts of its bounds, each exactly when it is given, and leaves every
/// other parameter as it was.
pub proof fn law_realtime_parameters(m: Map<Seq<char>, Seq<char>>, w: Realtime)
    ensures
        with_realtime(m, w).get("realtime_start"@) == (match w.start {
            Some(d) => Some(iso_date_text(d@)),
            None => m.get("realtime_start"@),
        }),
        with_realtime(m, w).get("realtime_end"@) == (match w.end {
            Some(d) => Some(iso_date_text(d@)),
            None => m.get("realtime_end"@),
        }),
        forall|k: Seq<char>|
            k != "realtime_start"@ && k != "realtime_end"@ ==> #[trigger] with_realtime(m, w).get(k)
                == m.get(k),
{
    lemma_keys_distinct();
}

/// Law: list options send the real-time bounds as ISO dates and the
/// pagination in decimal or as its code, each exactly when it is given, and
/// leave every other parameter as it was.
pub proof fn law_list_options_parameters(m: Map<Seq<char>, Seq<char>>, o: ListOptions)
    ensures
        with_list_options(m, o).get("realtime_start"@) == (match o.realtime.start {
            Some(d) => Some(iso_date_text(d@)),
            None => m.get("realtime_start"@),
        }),
        with_list_options(m, o).get("realtime_end"@) == (match o.realtime.end {
            Some(d) => Some(iso_date_text(d@)),
            None => m.get("realtime_end"@),
        }),
        with_list_options(m, o).get("limit"@) == (match o.pagination.limit {
            Some(l) => Some(decimal(l as nat)),
            None => m.get("limit"@),
        }),
        with_list_options(m, o).get("offset"@) == (match o.pagination.offset {
            Some(v) => Some(decimal(v as nat)),
            None => m.get("offset"@),
        }),
        with_list_options(m, o).get("sort_order"@) == (match o.pagination.sort_order {
            Some(v) => Some(v.code()),
            None => m.get("sort_order"@),
        }),
        forall|k: Seq<char>|
            k != "realtime_start"@ && k != "realtime_end"@ && k != "limit"@ && k != "offset"@ && k
                != "sort_order"@ ==> #[trigger] with_list_options(m, o).get(k) == m.get(k),
{
    lemma_keys_distinct();
    law_realtime_parameters(m, o.realtime);
    law_pagination_parameters(with_realtime(m, o.realtime), o.pagination);
}

} // verus!
