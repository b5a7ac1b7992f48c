use fred_wrapper::{Date, FredClient, Observations, Realtime, Units};

const KEY: &str = "abcdefghijklmnopqrstuvwxyz012345";

fn date(y: i32, m: u32, d: u32) -> Date {
    Date::from_ymd_opt(y, m, d).unwrap()
}

fn bounds(w: &Realtime) -> (String, String) {
    (w.start.unwrap().format_iso(), w.end.unwrap().format_iso())
}

#[test]
fn wide_window_is_split_into_calendar_year_blocks() {
    let w = Realtime { start: Some(date(1776, 7, 4)), end: Some(date(1790, 3, 1)) };
    let parts: Vec<(String, String)> = w.windows(5).iter().map(bounds).collect();
    let want = [
        ("1776-07-04", "1780-12-31"),
        ("1781-01-01", "1785-12-31"),
        ("1786-01-01", "1790-03-01"),
    ];
    assert_eq!(parts.len(), want.len());
    for (got, (s, e)) in parts.iter().zip(want.iter()) {
        assert_eq!((got.0.as_str(), got.1.as_str()), (*s, *e));
    }
}

#[test]
fn block_ending_exactly_on_a_year_end() {
    let w = Realtime { start: Some(date(2000, 1, 1)), end: Some(date(2001, 12, 31)) };
    let parts: Vec<(String, String)> = w.windows(1).iter().map(bounds).collect();
    assert_eq!(
        parts,
        vec![
            ("2000-01-01".to_string(), "2000-12-31".to_string()),
            ("2001-01-01".to_string(), "2001-12-31".to_string()),
        ]
    );
}

#[test]
fn narrow_or_open_windows_stay_whole() {
    let narrow = Realtime { start: Some(date(2010, 1, 1)), end: Some(date(2014, 12, 31)) };
    assert_eq!(narrow.windows(5).iter().map(bounds).collect::<Vec<_>>().len(), 1);
    assert_eq!(bounds(&narrow.windows(5)[0]), ("2010-01-01".into(), "2014-12-31".into()));

    let open = Realtime { start: Some(date(1776, 7, 4)), end: None };
    let parts = open.windows(5);
    assert_eq!(parts.len(), 1);
    assert_eq!(parts[0].start, Some(date(1776, 7, 4)));
    assert_eq!(parts[0].end, None);

    let unsplit = Realtime { start: Some(date(1900, 1, 1)), end: Some(date(2000, 1, 1)) };
    assert_eq!(unsplit.windows(0).len(), 1);
}

#[test]
fn consecutive_blocks_leave_no_day_out() {
    let w = Realtime { start: Some(date(1999, 12, 31)), end: Some(date(2031, 1, 1)) };
    let parts = w.windows(7);
    assert_eq!(parts.first().unwrap().start, w.start);
    assert_eq!(parts.last().unwrap().end, w.end);
    for pair in parts.windows(2) {
        let end = pair[0].end.unwrap();
        let next = pair[1].start.unwrap();
        assert_eq!((end.month(), end.day()), (12, 31));
        assert_eq!((next.year(), next.month(), next.day()), (end.year() + 1, 1, 1));
    }
}

#[test]
fn windowed_observations_are_one_request_per_block() {
    let c = FredClient::new(KEY.to_string()).unwrap();
    let mut p = Observations::new("CPIAUCSL".to_string());
    p.realtime = Realtime { start: Some(date(2010, 6, 1)), end: Some(date(2012, 2, 1)) };
    p.units = Some(Units::Levels);
    let reqs = c.series().observations_windowed(p, 1);
    let urls: Vec<String> = reqs
        .iter()
        .map(|r| c.request_url(r.geo, &r.endpoint, &r.query).unwrap())
        .collect();
    let url = |s: &str, e: &str| {
        format!(
            "https://api.stlouisfed.org/fred/series/observations?api_key={KEY}&file_type=json\
             &realtime_end={e}&realtime_start={s}&series_id=CPIAUCSL&units=lin"
        )
    };
    assert_eq!(
        urls,
        vec![
            url("2010-06-01", "2010-12-31"),
            url("2011-01-01", "2011-12-31"),
            url("2012-01-01", "2012-02-01"),
        ]
    );
}

#[test]
fn windowed_observations_without_an_end_are_one_request() {
    let c = FredClient::new(KEY.to_string()).unwrap();
    let p = Observations::new("UNRATE".to_string());
    let reqs = c.series().observations_windowed(p, 5);
    assert_eq!(reqs.len(), 1);
    assert_eq!(
        c.request_url(reqs[0].geo, &reqs[0].endpoint, &reqs[0].query).unwrap(),
        format!(
            "https://api.stlouisfed.org/fred/series/observations?api_key={KEY}&file_type=json\
             &series_id=UNRATE"
        )
    );
}
