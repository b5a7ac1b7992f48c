use fred_wrapper::{
    AggregationMethod, Frequency, OutputType, SearchType, Seasonality, SortOrder, Units,
};
use std::collections::HashSet;

fn all_distinct(codes: &[&str]) -> bool {
    codes.iter().collect::<HashSet<_>>().len() == codes.len()
}

#[test]
fn frequency_codes() {
    let all = [
        Frequency::Daily, Frequency::Weekly, Frequency::Biweekly, Frequency::Monthly, Frequency::Quarterly, Frequency::Semiannual, Frequency::Annual, Frequency::WeeklyEndingFriday,
        Frequency::WeeklyEndingThursday, Frequency::WeeklyEndingWednesday, Frequency::WeeklyEndingTuesday, Frequency::WeeklyEndingMonday,
        Frequency::WeeklyEndingSunday, Frequency::WeeklyEndingSaturday, Frequency::BiweeklyEndingWednesday, Frequency::BiweeklyEndingMonday,
    ];
    let codes: Vec<&str> = all.iter().map(|f| f.as_str()).collect();
    assert_eq!(
        codes,
        ["d", "w", "bw", "m", "q", "sa", "a", "wef", "weth", "wew", "wetu", "wem", "wesu", "wesa", "bwew", "bwem"]
    );
    assert!(all_distinct(&codes));
}

#[test]
fn other_codes() {
    assert_eq!(AggregationMethod::Average.as_str(), "avg");
    assert_eq!(AggregationMethod::Sum.as_str(), "sum");
    assert_eq!(AggregationMethod::EndOfPeriod.as_str(), "eop");
    let units = [
        Units::Levels, Units::Change, Units::ChangeFromYearAgo, Units::PercentChange,
        Units::PercentChangeFromYearAgo, Units::CompoundedAnnualRate,
        Units::ContinuouslyCompoundedChange, Units::ContinuouslyCompoundedAnnualRate,
        Units::NaturalLog,
    ];
    let codes: Vec<&str> = units.iter().map(|u| u.as_str()).collect();
    assert_eq!(codes, ["lin", "chg", "ch1", "pch", "pc1", "pca", "cch", "cca", "log"]);
    assert!(all_distinct(&codes));
    assert_eq!(Seasonality::SeasonallyAdjusted.as_str(), "sa");
    assert_eq!(Seasonality::NotSeasonallyAdjusted.as_str(), "nsa");
    assert_eq!(Seasonality::SeasonallyAdjustedAnnualRate.as_str(), "saar");
    assert_eq!(Seasonality::NotSeasonallyAdjustedAnnualRate.as_str(), "nsaar");
    assert_eq!(SortOrder::Ascending.as_str(), "asc");
    assert_eq!(SortOrder::Descending.as_str(), "desc");
    assert_eq!(OutputType::ObservationsByRealtimePeriod.as_str(), "1");
    assert_eq!(OutputType::ObservationsByVintageDateAll.as_str(), "2");
    assert_eq!(OutputType::ObservationsByVintageDateNewAndRevised.as_str(), "3");
    assert_eq!(OutputType::InitialReleaseOnly.as_str(), "4");
    assert_eq!(SearchType::FullText.as_str(), "full_text");
    assert_eq!(SearchType::SeriesId.as_str(), "series_id");
}
