use fred_wrapper::{
    AggregationMethod, ApiRequest, Date, FredClient, Frequency, ListOptions, Observations,
    OutputType, Pagination, Query, Realtime, Search, SearchType, SortOrder, Units,
};

const KEY: &str = "abcdefghijklmnopqrstuvwxyz012345";
const PREFIX: &str = "https://api.stlouisfed.org/fred/";

fn client() -> FredClient {
    FredClient::new(KEY.to_string()).unwrap()
}

fn url_of(req: &ApiRequest) -> String {
    client().request_url(req.geo, &req.endpoint, &req.query).unwrap()
}

fn date(y: i32, m: u32, d: u32) -> Date {
    Date::from_ymd_opt(y, m, d).unwrap()
}

fn expected(endpoint: &str, rest: &str) -> String {
    if rest.is_empty() {
        format!("{PREFIX}{endpoint}?api_key={KEY}&file_type=json")
    } else {
        format!("{PREFIX}{endpoint}?api_key={KEY}&file_type=json&{rest}")
    }
}

#[test]
fn series_get_with_window() {
    let c = client();
    let window = Realtime { start: Some(date(2020, 1, 1)), end: None };
    let req = c.series().get("UNRATE", window);
    assert!(!req.geo);
    assert_eq!(req.endpoint, "series");
    assert_eq!(url_of(&req), expected("series", "realtime_start=2020-01-01&series_id=UNRATE"));
}

#[test]
fn observations_with_every_parameter() {
    let c = client();
    let mut p = Observations::new("CPIAUCSL".to_string());
    p.realtime = Realtime { start: Some(date(1776, 7, 4)), end: Some(date(9999, 12, 31)) };
    p.observation_start = Some(date(2000, 2, 29));
    p.observation_end = Some(date(2001, 1, 1));
    p.units = Some(Units::PercentChangeFromYearAgo);
    p.frequency = Some(Frequency::Annual);
    p.aggregation_method = Some(AggregationMethod::EndOfPeriod);
    p.output_type = Some(OutputType::InitialReleaseOnly);
    p.vintage_dates = vec![date(2020, 1, 1), date(2021, 6, 30)];
    p.limit = Some(1000);
    p.offset = Some(0);
    p.sort_order = Some(SortOrder::Descending);
    let req = c.series().observations(p);
    assert_eq!(req.endpoint, "series/observations");
    assert_eq!(
        url_of(&req),
        expected(
            "series/observations",
            "aggregation_method=eop&frequency=a&limit=1000&observation_end=2001-01-01\
             &observation_start=2000-02-29&offset=0&output_type=4&realtime_end=9999-12-31\
             &realtime_start=1776-07-04&series_id=CPIAUCSL&sort_order=desc&units=pc1\
             &vintage_dates=2020-01-01%2C2021-06-30"
        )
    );
}

#[test]
fn plain_observations_send_only_the_series() {
    let req = client().series().observations(Observations::new("UNRATE".to_string()));
    assert_eq!(url_of(&req), expected("series/observations", "series_id=UNRATE"));
}

#[test]
fn one_vintage_date_has_no_comma() {
    let mut p = Observations::new("GDP".to_string());
    p.vintage_dates = vec![date(2019, 12, 31)];
    let req = client().series().observations(p);
    assert_eq!(url_of(&req), expected("series/observations", "series_id=GDP&vintage_dates=2019-12-31"));
}

#[test]
fn search_text_is_form_encoded() {
    let mut p = Search::new("consumer price & index/é".to_string());
    p.search_type = Some(SearchType::FullText);
    p.pagination = Pagination { limit: Some(5), offset: None, sort_order: Some(SortOrder::Ascending) };
    let req = client().series().search(p);
    assert_eq!(
        url_of(&req),
        expected(
            "series/search",
            "limit=5&search_text=consumer+price+%26+index%2F%C3%A9&search_type=full_text&sort_order=asc"
        )
    );
}

#[test]
fn search_tags_and_related_tags() {
    let p = Search::new("gdp".to_string());
    let req = client().series().search_tags(p.clone());
    assert_eq!(url_of(&req), expected("series/search/tags", "search_text=gdp"));
    let req = client().series().search_related_tags(p, "usa;quarterly");
    assert_eq!(
        url_of(&req),
        expected("series/search/related_tags", "search_text=gdp&tag_names=usa%3Bquarterly")
    );
}

#[test]
fn series_window_endpoints() {
    let c = client();
    let s = c.series();
    assert_eq!(url_of(&s.categories("X", Realtime::default())), expected("series/categories", "series_id=X"));
    assert_eq!(url_of(&s.release("X", Realtime::default())), expected("series/release", "series_id=X"));
    assert_eq!(url_of(&s.tags("X", Realtime::default())), expected("series/tags", "series_id=X"));
    assert_eq!(
        url_of(&s.vintage_dates("X", Realtime { start: None, end: Some(date(2024, 2, 29)) })),
        expected("series/vintagedates", "realtime_end=2024-02-29&series_id=X")
    );
}

#[test]
fn series_updates() {
    let mut options = ListOptions::default();
    options.pagination.limit = Some(10);
    let req = client().series().updates(Some("macro"), None, Some("202401011200"), options);
    assert_eq!(
        url_of(&req),
        expected("series/updates", "end_time=202401011200&filter_value=macro&limit=10")
    );
}

#[test]
fn raw_endpoints() {
    let c = client();
    let mut q = Query::new();
    q.put("z", "1".to_string());
    q.put("a", "2".to_string());
    let req = c.series().raw("observations", q);
    assert_eq!(req.endpoint, "series/observations");
    assert_eq!(url_of(&req), expected("series/observations", "a=2&z=1"));
    let req = c.category().raw("series", Query::new());
    assert_eq!(req.endpoint, "category/series");
    let req = c.release().raw("release/tables", Query::new());
    assert_eq!(req.endpoint, "release/tables");
    let req = c.source().raw("sources", Query::new());
    assert_eq!(req.endpoint, "sources");
    let req = c.tags().raw("tags", Query::new());
    assert_eq!(req.endpoint, "tags");
    let req = c.geofred().raw("series/data", Query::new());
    assert!(req.geo);
    assert_eq!(
        url_of(&req),
        format!("https://api.stlouisfed.org/geofred/series/data?api_key={KEY}&file_type=json")
    );
}

#[test]
fn raw_endpoint_with_its_own_query_and_fragment() {
    let req = client().series().raw("observations?series_id=GDP#top", Query::new());
    assert_eq!(
        url_of(&req),
        format!("{PREFIX}series/observations?series_id=GDP&api_key={KEY}&file_type=json#top")
    );
    let req = client().series().raw("observations?#top", Query::new());
    assert_eq!(url_of(&req), format!("{PREFIX}series/observations?api_key={KEY}&file_type=json#top"));
}

#[test]
fn category_endpoints() {
    let c = client();
    let cat = c.category();
    assert_eq!(url_of(&cat.get(None)), expected("category", ""));
    assert_eq!(url_of(&cat.get(Some(0))), expected("category", "category_id=0"));
    assert_eq!(
        url_of(&cat.children(125, Realtime::default())),
        expected("category/children", "category_id=125")
    );
    assert_eq!(
        url_of(&cat.related(32073, Realtime::default())),
        expected("category/related", "category_id=32073")
    );
    assert_eq!(
        url_of(&cat.series(18446744073709551615, ListOptions::default())),
        expected("category/series", "category_id=18446744073709551615")
    );
    assert_eq!(url_of(&cat.tags(125, ListOptions::default())), expected("category/tags", "category_id=125"));
    assert_eq!(
        url_of(&cat.related_tags(125, "services;quarterly", ListOptions::default())),
        expected("category/related_tags", "category_id=125&tag_names=services%3Bquarterly")
    );
}

#[test]
fn release_endpoints() {
    let c = client();
    let r = c.release();
    assert_eq!(url_of(&r.all(ListOptions::default())), expected("releases", ""));
    assert_eq!(url_of(&r.get(53, Realtime::default())), expected("release", "release_id=53"));
    assert_eq!(url_of(&r.dates(82, ListOptions::default())), expected("release/dates", "release_id=82"));
    assert_eq!(
        url_of(&r.all_dates(true, ListOptions::default())),
        expected("releases/dates", "include_release_dates_with_no_data=true")
    );
    assert_eq!(
        url_of(&r.all_dates(false, ListOptions::default())),
        expected("releases/dates", "include_release_dates_with_no_data=false")
    );
    assert_eq!(url_of(&r.series(51, ListOptions::default())), expected("release/series", "release_id=51"));
    assert_eq!(url_of(&r.sources(51, Realtime::default())), expected("release/sources", "release_id=51"));
    assert_eq!(url_of(&r.tags(86, ListOptions::default())), expected("release/tags", "release_id=86"));
    assert_eq!(
        url_of(&r.related_tags(86, "sa", ListOptions::default())),
        expected("release/related_tags", "release_id=86&tag_names=sa")
    );
    assert_eq!(
        url_of(&r.tables(53, Some(12886), false, Some(date(2009, 3, 1)))),
        expected(
            "release/tables",
            "element_id=12886&include_observation_values=false&observation_date=2009-03-01&release_id=53"
        )
    );
    assert_eq!(
        url_of(&r.tables(53, None, true, None)),
        expected("release/tables", "include_observation_values=true&release_id=53")
    );
}

#[test]
fn source_and_tag_endpoints() {
    let c = client();
    let mut options = ListOptions::default();
    options.realtime.start = Some(date(2013, 8, 14));
    options.pagination.offset = Some(20);
    assert_eq!(
        url_of(&c.source().all(options.clone())),
        expected("sources", "offset=20&realtime_start=2013-08-14")
    );
    assert_eq!(url_of(&c.source().get(1, Realtime::default())), expected("source", "source_id=1"));
    assert_eq!(url_of(&c.source().releases(1, ListOptions::default())), expected("source/releases", "source_id=1"));
    assert_eq!(url_of(&c.tags().get(ListOptions::default())), expected("tags", ""));
    assert_eq!(
        url_of(&c.tags().related("monetary aggregates;weekly", ListOptions::default())),
        expected("related_tags", "tag_names=monetary+aggregates%3Bweekly")
    );
    assert_eq!(url_of(&c.tags().series("slovenia", options)), expected("tags/series", "offset=20&realtime_start=2013-08-14&tag_names=slovenia"));
}

#[test]
fn long_parameter_values_are_sent_whole() {
    let c = client();
    let tags = "a".repeat(2_000_000);
    let req = c.tags().series(&tags, ListOptions::default());
    let url = url_of(&req);
    assert_eq!(url, expected("tags/series", &format!("tag_names={tags}")));
}
