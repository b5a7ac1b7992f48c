//! The FRED endpoints, grouped by resource as FRED's documentation groups
//! them. Each method describes its request: the endpoint and its parameters.
use vstd::prelude::*;
use crate::client::FredClient;
use crate::date::{iso_date_text, Date};
use crate::params::{
    date_text, law_pagination_parameters, law_realtime_parameters, lemma_keys_distinct,
    list_options, number_text, pagination, realtime, window_dates, with_list_options,
    with_pagination, with_realtime, year_windows, ListOptions, Observations, Pagination,
    Realtime, Search, Units, Frequency, AggregationMethod, OutputType, SortOrder,
};
use crate::query::{flag_text, with_date, Query};
use crate::text::{decimal, digit_char, joined, zero_padded};
use crate::date::year_text;
use crate::urls::{first_index_of, lemma_first_index, lemma_first_index_bound};

verus! {

/// One request to FRED: the base it goes to (GeoFRED or FRED), the endpoint
/// and the parameters.
pub struct ApiRequest {
    pub geo: bool,
    pub endpoint: String,
    pub query: Query,
}

/// No parameters at all.
pub open spec fn no_params() -> Map<Seq<char>, Seq<char>> {
    Map::empty()
}

/// Whether `r` is a FRED (not GeoFRED) request to `endpoint` with `params`.
pub open spec fn fred_request(r: ApiRequest, endpoint: Seq<char>, params: Map<Seq<char>, Seq<char>>) -> bool {
    !r.geo && r.endpoint@ == endpoint && r.query.entries() == params
}

/// `m` with `key` set to `value`, where there is one.
pub open spec fn with_text(m: Map<Seq<char>, Seq<char>>, key: Seq<char>, value: Option<Seq<char>>) -> Map<
    Seq<char>,
    Seq<char>,
> {
    match value {
        Some(v) => m.insert(key, v),
        None => m,
    }
}

/// The `vintage_dates` parameter: the dates in ISO form, separated by commas.
pub open spec fn dates_text(dates: Seq<Date>) -> Seq<char> {
    joined(dates.map_values(|d: Date| iso_date_text(d@)), ","@)
}

/// The parameters that identify a series.
pub open spec fn series_base(p: Observations) -> Map<Seq<char>, Seq<char>> {
    no_params().insert("series_id"@, p.series_id@)
}

/// The parameters of a series' observations that follow its real-time
/// window, added to `m`.
pub open spec fn with_observation_options(p: Observations, m: Map<Seq<char>, Seq<char>>) -> Map<
    Seq<char>,
    Seq<char>,
> {
    let m = with_date(with_date(m, "observation_start"@, p.observation_start), "observation_end"@, p.observation_end);
    let m = with_text(m, "units"@, match p.units { Some(v) => Some(v.code()), None => None });
    let m = with_text(m, "frequency"@, match p.frequency { Some(v) => Some(v.code()), None => None });
    let m = with_text(
        m,
        "aggregation_method"@,
        match p.aggregation_method { Some(v) => Some(v.code()), None => None },
    );
    let m = with_text(m, "output_type"@, match p.output_type { Some(v) => Some(v.code()), None => None });
    let m = if p.vintage_dates@.len() > 0 {
        m.insert("vintage_dates"@, dates_text(p.vintage_dates@))
    } else {
        m
    };
    with_pagination(m, Pagination { limit: p.limit, offset: p.offset, sort_order: p.sort_order })
}

/// The parameters of a series' observations.
pub open spec fn observations_params(p: Observations) -> Map<Seq<char>, Seq<char>> {
    with_observation_options(p, with_realtime(series_base(p), p.realtime))
}

/// The parameters of a series' observations over the real-time window from
/// `start` to `end` in place of `p.realtime`.
pub open spec fn observations_params_between(
    p: Observations,
    start: (int, int, int),
    end: (int, int, int),
) -> Map<Seq<char>, Seq<char>> {
    with_observation_options(
        p,
        series_base(p).insert("realtime_start"@, iso_date_text(start)).insert(
            "realtime_end"@,
            iso_date_text(end),
        ),
    )
}

/// The parameters of a search, with the tags that a related-tags search names.
pub open spec fn search_params(p: Search, tag_names: Option<Seq<char>>) -> Map<Seq<char>, Seq<char>> {
    let m = with_text(no_params().insert("search_text"@, p.search_text@), "tag_names"@, tag_names);
    let m = with_text(m, "search_type"@, match p.search_type { Some(v) => Some(v.code()), None => None });
    with_pagination(with_realtime(m, p.realtime), p.pagination)
}

/// A request with one identifying parameter and a real-time window.
fn window_request(endpoint: &str, key: &str, value: String, window: &Realtime) -> (r: ApiRequest)
    ensures
        fred_request(r, endpoint@, with_realtime(no_params().insert(key@, value@), *window)),
{
    let mut q = Query::new();
    q.put(key, value);
    realtime(&mut q, window);
    ApiRequest { geo: false, endpoint: endpoint.to_owned(), query: q }
}

/// A list request with optional identifying parameters, then list options.
fn list_request(
    endpoint: &str,
    first: Option<(&str, String)>,
    second: Option<(&str, String)>,
    options: &ListOptions,
) -> (r: ApiRequest)
    ensures
        fred_request(
            r,
            endpoint@,
            with_list_options(
                with_text(
                    with_text(
                        no_params(),
                        match first { Some(p) => p.0@, None => Seq::empty() },
                        match first { Some(p) => Some(p.1@), None => None },
                    ),
                    match second { Some(p) => p.0@, None => Seq::empty() },
                    match second { Some(p) => Some(p.1@), None => None },
                ),
                *options,
            ),
        ),
{
    let mut q = Query::new();
    if let Some((k, v)) = first {
        q.put(k, v);
    }
    if let Some((k, v)) = second {
        q.put(k, v);
    }
    list_options(&mut q, options);
    ApiRequest { geo: false, endpoint: endpoint.to_owned(), query: q }
}

/// A search request.
fn search_request(endpoint: &str, p: Search, tag_names: Option<&str>) -> (r: ApiRequest)
    ensures
        fred_request(
            r,
            endpoint@,
            search_params(p, match tag_names { Some(t) => Some(t@), None => None }),
        ),
{
    let mut q = Query::new();
    q.put("search_text", p.search_text);
    if let Some(t) = tag_names {
        q.put("tag_names", t.to_owned());
    }
    if let Some(v) = p.search_type {
        q.put("search_type", v.as_str().to_owned());
    }
    realtime(&mut q, &p.realtime);
    pagination(&mut q, &p.pagination);
    ApiRequest { geo: false, endpoint: endpoint.to_owned(), query: q }
}

/// The request for a series' observations over `window`.
fn observations_request(p: &Observations, window: &Realtime) -> (r: ApiRequest)
    ensures
        fred_request(r, "series/observations"@, with_observation_options(*p, with_realtime(series_base(*p), *window))),
{
    let mut q = Query::new();
    let dates_given = p.vintage_dates.len() > 0;
    let vintage = if dates_given {
        join_dates(&p.vintage_dates)
    } else {
        String::new()
    };
    q.put("series_id", p.series_id.clone());
    realtime(&mut q, window);
    q.date("observation_start", p.observation_start);
    q.date("observation_end", p.observation_end);
    if let Some(v) = p.units {
        q.put("units", v.as_str().to_owned());
    }
    if let Some(v) = p.frequency {
        q.put("frequency", v.as_str().to_owned());
    }
    if let Some(v) = p.aggregation_method {
        q.put("aggregation_method", v.as_str().to_owned());
    }
    if let Some(v) = p.output_type {
        q.put("output_type", v.as_str().to_owned());
    }
    if dates_given {
        q.put("vintage_dates", vintage);
    }
    pagination(&mut q, &Pagination { limit: p.limit, offset: p.offset, sort_order: p.sort_order });
    ApiRequest { geo: false, endpoint: "series/observations".to_owned(), query: q }
}

/// The dates in ISO form, separated by commas.
fn join_dates(dates: &Vec<Date>) -> (s: String)
    ensures
        s@ == dates_text(dates@),
{
    let mut s = String::new();
    let ghost texts = dates@.map_values(|d: Date| iso_date_text(d@));
    let mut i: usize = 0;
    while i < dates.len()
        invariant
            i <= dates@.len(),
            texts == dates@.map_values(|d: Date| iso_date_text(d@)),
            s@ == joined(texts.take(i as int), ","@),
        decreases dates@.len() - i,
    {
        let text = dates[i].format_iso();
        assert(texts.take(i + 1).drop_last() =~= texts.take(i as int));
        if i == 0 {
            assert(texts.take(1) =~= seq![texts[0]]);
            s = text;
        } else {
            s = s.concat(",");
            s = s.concat(text.as_str());
        }
        i = i + 1;
    }
    assert(texts.take(dates@.len() as int) =~= texts);
    s
}

/// FRED category endpoints.
pub struct CategoryApi<'a>(pub &'a FredClient);

/// FRED release endpoints.
pub struct ReleaseApi<'a>(pub &'a FredClient);

/// FRED series endpoints.
pub struct SeriesApi<'a>(pub &'a FredClient);

/// FRED source endpoints.
pub struct SourceApi<'a>(pub &'a FredClient);

/// FRED tag endpoints.
pub struct TagsApi<'a>(pub &'a FredClient);

/// GeoFRED map endpoints.
pub struct GeoFredApi<'a>(pub &'a FredClient);

impl FredClient {
    /// Access FRED category endpoints.
    pub fn category(&self) -> (r: CategoryApi<'_>)
        ensures
            r.0 == self,
    {
        CategoryApi(self)
    }

    /// Access FRED release endpoints.
    pub fn release(&self) -> (r: ReleaseApi<'_>)
        ensures
            r.0 == self,
    {
        ReleaseApi(self)
    }

    /// Access FRED series endpoints.
    pub fn series(&self) -> (r: SeriesApi<'_>)
        ensures
            r.0 == self,
    {
        SeriesApi(self)
    }

    /// Access FRED source endpoints.
    pub fn source(&self) -> (r: SourceApi<'_>)
        ensures
            r.0 == self,
    {
        SourceApi(self)
    }

    /// Access FRED tag endpoints.
    pub fn tags(&self) -> (r: TagsApi<'_>)
        ensures
            r.0 == self,
    {
        TagsApi(self)
    }

    /// Access GeoFRED map endpoints.
    pub fn geofred(&self) -> (r: GeoFredApi<'_>)
        ensures
            r.0 == self,
    {
        GeoFredApi(self)
    }
}

impl<'a> SeriesApi<'a> {
    /// Fetches metadata for one series; the answer's first `seriess` record.
    pub fn get(&self, series_id: &str, window: Realtime) -> (r: ApiRequest)
        ensures
            fred_request(r, "series"@, with_realtime(no_params().insert("series_id"@, series_id@), window)),
    {
        window_request("series", "series_id", series_id.to_owned(), &window)
    }

    /// Fetches observations, including ALFRED vintage data when requested.
    pub fn observations(&self, p: Observations) -> (r: ApiRequest)
        ensures
            fred_request(r, "series/observations"@, observations_params(p)),
    {
        observations_request(&p, &p.realtime)
    }

    /// Fetches observations over a wide real-time window in pieces: one
    /// request per sub-window of at most `window_years` calendar years (see
    /// `Realtime::windows`), in order, each with the other parameters of `p`.
    /// A window with an open end is fetched in one request.
    pub fn observations_windowed(&self, p: Observations, window_years: u32) -> (r: Vec<ApiRequest>)
        ensures
            (p.realtime.start is None || p.realtime.end is None) ==> r@.len() == 1 && fred_request(
                r@[0],
                "series/observations"@,
                observations_params(p),
            ),
            (p.realtime.start is Some && p.realtime.end is Some) ==> {
                let w = year_windows(p.realtime.start->0@, p.realtime.end->0@, window_years as nat);
                &&& r@.len() == w.len()
                &&& forall|i: int|
                    0 <= i < r@.len() ==> fred_request(
                        #[trigger] r@[i],
                        "series/observations"@,
                        observations_params_between(p, w[i].0, w[i].1),
                    )
            },
    {
        let windows = p.realtime.windows(window_years);
        let mut out: Vec<ApiRequest> = Vec::new();
        let mut i: usize = 0;
        while i < windows.len()
            invariant
                i <= windows@.len(),
                out@.len() == i,
                forall|j: int|
                    0 <= j < i ==> fred_request(
                        #[trigger] out@[j],
                        "series/observations"@,
                        with_observation_options(p, with_realtime(series_base(p), windows@[j])),
                    ),
            decreases windows@.len() - i,
        {
            let request = observations_request(&p, &windows[i]);
            out.push(request);
            i = i + 1;
        }
        proof {
            if p.realtime.start is Some && p.realtime.end is Some {
                let w = year_windows(p.realtime.start->0@, p.realtime.end->0@, window_years as nat);
                assert forall|j: int| 0 <= j < out@.len() implies fred_request(
                    #[trigger] out@[j],
                    "series/observations"@,
                    observations_params_between(p, w[j].0, w[j].1),
                ) by {
                    assert(window_dates(windows@[j]) == w[j]);
                    assert(with_realtime(series_base(p), windows@[j]) == series_base(p).insert(
                        "realtime_start"@,
                        iso_date_text(w[j].0),
                    ).insert("realtime_end"@, iso_date_text(w[j].1)));
                }
            }
        }
        out
    }

    /// Searches the FRED series catalogue; the answer's `seriess`.
    pub fn search(&self, p: Search) -> (r: ApiRequest)
        ensures
            fred_request(r, "series/search"@, search_params(p, None)),
    {
        search_request("series/search", p, None)
    }

    /// The categories of a series; the `categories` collection.
    pub fn categories(&self, series_id: &str, window: Realtime) -> (r: ApiRequest)
        ensures
            fred_request(r, "series/categories"@, with_realtime(no_params().insert("series_id"@, series_id@), window)),
    {
        window_request("series/categories", "series_id", series_id.to_owned(), &window)
    }

    /// The release of a series; the first record of the `releases` collection.
    pub fn release(&self, series_id: &str, window: Realtime) -> (r: ApiRequest)
        ensures
            fred_request(r, "series/release"@, with_realtime(no_params().insert("series_id"@, series_id@), window)),
    {
        window_request("series/release", "series_id", series_id.to_owned(), &window)
    }

    /// The tags of a series; the `tags` collection.
    pub fn tags(&self, series_id: &str, window: Realtime) -> (r: ApiRequest)
        ensures
            fred_request(r, "series/tags"@, with_realtime(no_params().insert("series_id"@, series_id@), window)),
    {
        window_request("series/tags", "series_id", series_id.to_owned(), &window)
    }

    /// The tags of the series that a search finds; the `tags` collection.
    pub fn search_tags(&self, p: Search) -> (r: ApiRequest)
        ensures
            fred_request(r, "series/search/tags"@, search_params(p, None)),
    {
        search_request("series/search/tags", p, None)
    }

    /// The tags related to `tag_names` among a search's series; the `tags` collection.
    pub fn search_related_tags(&self, p: Search, tag_names: &str) -> (r: ApiRequest)
        ensures
            fred_request(r, "series/search/related_tags"@, search_params(p, Some(tag_names@))),
    {
        search_request("series/search/related_tags", p, Some(tag_names))
    }

    /// Fetches recently updated series; the `seriess` collection.
    /// `filter_value` is FRED's `macro`, `regional`, or `all`.
    pub fn updates(
        &self,
        filter_value: Option<&str>,
        start_time: Option<&str>,
        end_time: Option<&str>,
        options: ListOptions,
    ) -> (r: ApiRequest)
        ensures
            fred_request(
                r,
                "series/updates"@,
                with_list_options(
                    with_text(
                        with_text(
                            with_text(
                                no_params(),
                                "filter_value"@,
                                match filter_value { Some(v) => Some(v@), None => None },
                            ),
                            "start_time"@,
                            match start_time { Some(v) => Some(v@), None => None },
                        ),
                        "end_time"@,
                        match end_time { Some(v) => Some(v@), None => None },
                    ),
                    options,
                ),
            ),
    {
        let mut q = Query::new();
        if let Some(v) = filter_value {
            q.put("filter_value", v.to_owned());
        }
        if let Some(v) = start_time {
            q.put("start_time", v.to_owned());
        }
        if let Some(v) = end_time {
            q.put("end_time", v.to_owned());
        }
        list_options(&mut q, &options);
        ApiRequest { geo: false, endpoint: "series/updates".to_owned(), query: q }
    }

    /// The vintage dates of a series; the answer's `vintage_dates`.
    pub fn vintage_dates(&self, series_id: &str, window: Realtime) -> (r: ApiRequest)
        ensures
            fred_request(r, "series/vintagedates"@, with_realtime(no_params().insert("series_id"@, series_id@), window)),
    {
        window_request("series/vintagedates", "series_id", series_id.to_owned(), &window)
    }

    /// Calls a remaining series endpoint, `series/<suffix>`, with the given query.
    pub fn raw(&self, suffix: &str, query: Query) -> (r: ApiRequest)
        ensures
            !r.geo,
            r.endpoint@ == "series/"@ + suffix@,
            r.query@ == query@,
    {
        ApiRequest { geo: false, endpoint: "series/".to_owned().concat(suffix), query }
    }
}

impl<'a> CategoryApi<'a> {
    /// Fetches one category, the root where `id` is `None`; the first record
    /// of the answer's `categories`.
    pub fn get(&self, id: Option<u64>) -> (r: ApiRequest)
        ensures
            fred_request(
                r,
                "category"@,
                with_text(no_params(), "category_id"@, match id { Some(v) => Some(decimal(v as nat)), None => None }),
            ),
    {
        let mut q = Query::new();
        if let Some(id) = id {
            q.put_number("category_id", id);
        }
        ApiRequest { geo: false, endpoint: "category".to_owned(), query: q }
    }

    /// Fetches child categories of `category_id`; the `categories` collection.
    pub fn children(&self, category_id: u64, window: Realtime) -> (r: ApiRequest)
        ensures
            fred_request(
                r,
                "category/children"@,
                with_realtime(no_params().insert("category_id"@, decimal(category_id as nat)), window),
            ),
    {
        window_request("category/children", "category_id", crate::text::decimal_text(category_id), &window)
    }

    /// Fetches categories related to `category_id`; the `categories` collection.
    pub fn related(&self, category_id: u64, window: Realtime) -> (r: ApiRequest)
        ensures
            fred_request(
                r,
                "category/related"@,
                with_realtime(no_params().insert("category_id"@, decimal(category_id as nat)), window),
            ),
    {
        window_request("category/related", "category_id", crate::text::decimal_text(category_id), &window)
    }

    /// Fetches series assigned to a category; the `seriess` collection.
    pub fn series(&self, category_id: u64, options: ListOptions) -> (r: ApiRequest)
        ensures
            fred_request(
                r,
                "category/series"@,
                with_list_options(no_params().insert("category_id"@, decimal(category_id as nat)), options),
            ),
    {
        list_request("category/series", Some(("category_id", crate::text::decimal_text(category_id))), None, &options)
    }

    /// The tags of a category's series; the `tags` collection.
    pub fn tags(&self, category_id: u64, options: ListOptions) -> (r: ApiRequest)
        ensures
            fred_request(
                r,
                "category/tags"@,
                with_list_options(no_params().insert("category_id"@, decimal(category_id as nat)), options),
            ),
    {
        list_request("category/tags", Some(("category_id", crate::text::decimal_text(category_id))), None, &options)
    }

    /// The tags related to `tag_names` within a category; the `tags` collection.
    pub fn related_tags(&self, category_id: u64, tag_names: &str, options: ListOptions) -> (r: ApiRequest)
        ensures
            fred_request(
                r,
                "category/related_tags"@,
                with_list_options(
                    no_params().insert("category_id"@, decimal(category_id as nat)).insert("tag_names"@, tag_names@),
                    options,
                ),
            ),
    {
        list_request(
            "category/related_tags",
            Some(("category_id", crate::text::decimal_text(category_id))),
            Some(("tag_names", tag_names.to_owned())),
            &options,
        )
    }

    /// Calls `category/<path>` with the given query.
    pub fn raw(&self, path: &str, query: Query) -> (r: ApiRequest)
        ensures
            !r.geo,
            r.endpoint@ == "category/"@ + path@,
            r.query@ == query@,
    {
        ApiRequest { geo: false, endpoint: "category/".to_owned().concat(path), query }
    }
}

impl<'a> ReleaseApi<'a> {
    /// Fetches all releases; the `releases` collection.
    pub fn all(&self, options: ListOptions) -> (r: ApiRequest)
        ensures
            fred_request(r, "releases"@, with_list_options(no_params(), options)),
    {
        list_request("releases", None, None, &options)
    }

    /// Fetches one release; the first record of the `releases` collection.
    pub fn get(&self, release_id: u64, window: Realtime) -> (r: ApiRequest)
        ensures
            fred_request(
                r,
                "release"@,
                with_realtime(no_params().insert("release_id"@, decimal(release_id as nat)), window),
            ),
    {
        window_request("release", "release_id", crate::text::decimal_text(release_id), &window)
    }

    /// The dates of a release; the `release_dates` collection.
    pub fn dates(&self, release_id: u64, options: ListOptions) -> (r: ApiRequest)
        ensures
            fred_request(
                r,
                "release/dates"@,
                with_list_options(no_params().insert("release_id"@, decimal(release_id as nat)), options),
            ),
    {
        list_request("release/dates", Some(("release_id", crate::text::decimal_text(release_id))), None, &options)
    }

    /// Fetches release dates across all releases; the `release_dates` collection.
    pub fn all_dates(&self, include_without_data: bool, options: ListOptions) -> (r: ApiRequest)
        ensures
            fred_request(
                r,
                "releases/dates"@,
                with_list_options(
                    no_params().insert("include_release_dates_with_no_data"@, flag_text(include_without_data)),
                    options,
                ),
            ),
    {
        let flag = if include_without_data {
            "true".to_owned()
        } else {
            "false".to_owned()
        };
        list_request("releases/dates", Some(("include_release_dates_with_no_data", flag)), None, &options)
    }

    /// The series of a release; the `seriess` collection.
    pub fn series(&self, release_id: u64, options: ListOptions) -> (r: ApiRequest)
        ensures
            fred_request(
                r,
                "release/series"@,
                with_list_options(no_params().insert("release_id"@, decimal(release_id as nat)), options),
            ),
    {
        list_request("release/series", Some(("release_id", crate::text::decimal_text(release_id))), None, &options)
    }

    /// The sources of a release; the `sources` collection.
    pub fn sources(&self, release_id: u64, window: Realtime) -> (r: ApiRequest)
        ensures
            fred_request(
                r,
                "release/sources"@,
                with_realtime(no_params().insert("release_id"@, decimal(release_id as nat)), window),
            ),
    {
        window_request("release/sources", "release_id", crate::text::decimal_text(release_id), &window)
    }

    /// The tags of a release's series; the `tags` collection.
    pub fn tags(&self, release_id: u64, options: ListOptions) -> (r: ApiRequest)
        ensures
            fred_request(
                r,
                "release/tags"@,
                with_list_options(no_params().insert("release_id"@, decimal(release_id as nat)), options),
            ),
    {
        list_request("release/tags", Some(("release_id", crate::text::decimal_text(release_id))), None, &options)
    }

    /// The tags related to `tag_names` within a release; the `tags` collection.
    pub fn related_tags(&self, release_id: u64, tag_names: &str, options: ListOptions) -> (r: ApiRequest)
        ensures
            fred_request(
                r,
                "release/related_tags"@,
                with_list_options(
                    no_params().insert("release_id"@, decimal(release_id as nat)).insert("tag_names"@, tag_names@),
                    options,
                ),
            ),
    {
        list_request(
            "release/related_tags",
            Some(("release_id", crate::text::decimal_text(release_id))),
            Some(("tag_names", tag_names.to_owned())),
            &options,
        )
    }

    /// Fetches the hierarchical release table response, whole.
    pub fn tables(
        &self,
        release_id: u64,
        element_id: Option<u64>,
        include_observation_values: bool,
        observation_date: Option<Date>,
    ) -> (r: ApiRequest)
        ensures
            fred_request(
                r,
                "release/tables"@,
                with_date(
                    with_text(
                        no_params().insert("release_id"@, decimal(release_id as nat)),
                        "element_id"@,
                        match element_id { Some(v) => Some(decimal(v as nat)), None => None },
                    ).insert("include_observation_values"@, flag_text(include_observation_values)),
                    "observation_date"@,
                    observation_date,
                ),
            ),
    {
        let mut q = Query::new();
        q.put_number("release_id", release_id);
        if let Some(id) = element_id {
            q.put_number("element_id", id);
        }
        q.put_flag("include_observation_values", include_observation_values);
        q.date("observation_date", observation_date);
        ApiRequest { geo: false, endpoint: "release/tables".to_owned(), query: q }
    }

    /// Calls the FRED endpoint `path` with the given query.
    pub fn raw(&self, path: &str, query: Query) -> (r: ApiRequest)
        ensures
            !r.geo,
            r.endpoint@ == path@,
            r.query@ == query@,
    {
        ApiRequest { geo: false, endpoint: path.to_owned(), query }
    }
}

impl<'a> SourceApi<'a> {
    /// Fetches all sources; the `sources` collection.
    pub fn all(&self, options: ListOptions) -> (r: ApiRequest)
        ensures
            fred_request(r, "sources"@, with_list_options(no_params(), options)),
    {
        list_request("sources", None, None, &options)
    }

    /// Fetches one source; the first record of the `sources` collection.
    pub fn get(&self, source_id: u64, window: Realtime) -> (r: ApiRequest)
        ensures
            fred_request(
                r,
                "source"@,
                with_realtime(no_params().insert("source_id"@, decimal(source_id as nat)), window),
            ),
    {
        window_request("source", "source_id", crate::text::decimal_text(source_id), &window)
    }

    /// The releases of a source; the `releases` collection.
    pub fn releases(&self, source_id: u64, options: ListOptions) -> (r: ApiRequest)
        ensures
            fred_request(
                r,
                "source/releases"@,
                with_list_options(no_params().insert("source_id"@, decimal(source_id as nat)), options),
            ),
    {
        list_request("source/releases", Some(("source_id", crate::text::decimal_text(source_id))), None, &options)
    }

    /// Calls the FRED endpoint `path` with the given query.
    pub fn raw(&self, path: &str, query: Query) -> (r: ApiRequest)
        ensures
            !r.geo,
            r.endpoint@ == path@,
            r.query@ == query@,
    {
        ApiRequest { geo: false, endpoint: path.to_owned(), query }
    }
}

impl<'a> TagsApi<'a> {
    /// Fetches tags; the `tags` collection.
    pub fn get(&self, options: ListOptions) -> (r: ApiRequest)
        ensures
            fred_request(r, "tags"@, with_list_options(no_params(), options)),
    {
        list_request("tags", None, None, &options)
    }

    /// The tags related to `tag_names`; the `tags` collection.
    pub fn related(&self, tag_names: &str, options: ListOptions) -> (r: ApiRequest)
        ensures
            fred_request(
                r,
                "related_tags"@,
                with_list_options(no_params().insert("tag_names"@, tag_names@), options),
            ),
    {
        list_request("related_tags", Some(("tag_names", tag_names.to_owned())), None, &options)
    }

    /// The series that carry `tag_names`; the `seriess` collection.
    pub fn series(&self, tag_names: &str, options: ListOptions) -> (r: ApiRequest)
        ensures
            fred_request(
                r,
                "tags/series"@,
                with_list_options(no_params().insert("tag_names"@, tag_names@), options),
            ),
    {
        list_request("tags/series", Some(("tag_names", tag_names.to_owned())), None, &options)
    }

    /// Calls the FRED endpoint `path` with the given query.
    pub fn raw(&self, path: &str, query: Query) -> (r: ApiRequest)
        ensures
            !r.geo,
            r.endpoint@ == path@,
            r.query@ == query@,
    {
        ApiRequest { geo: false, endpoint: path.to_owned(), query }
    }
}

impl<'a> GeoFredApi<'a> {
    /// Calls the GeoFRED endpoint `path` with the given query.
    pub fn raw(&self, path: &str, query: Query) -> (r: ApiRequest)
        ensures
            r.geo,
            r.endpoint@ == path@,
            r.query@ == query@,
    {
        ApiRequest { geo: true, endpoint: path.to_owned(), query }
    }
}

/// Whether `k` is one of the names an observations request can send.
pub open spec fn observations_key(k: Seq<char>) -> bool {
    ||| k == "series_id"@
    ||| k == "realtime_start"@
    ||| k == "realtime_end"@
    ||| k == "observation_start"@
    ||| k == "observation_end"@
    ||| k == "units"@
    ||| k == "frequency"@
    ||| k == "aggregation_method"@
    ||| k == "output_type"@
    ||| k == "vintage_dates"@
    ||| k == "limit"@
    ||| k == "offset"@
    ||| k == "sort_order"@
}

/// What the options after the real-time window add to `m`: each option under
/// its own name where it is given, and every other entry of `m` unchanged.
proof fn lemma_observation_options(p: Observations, m: Map<Seq<char>, Seq<char>>)
    ensures
        with_observation_options(p, m).get("observation_start"@) == (match p.observation_start {
            Some(d) => Some(iso_date_text(d@)),
            None => m.get("observation_start"@),
        }),
        with_observation_options(p, m).get("observation_end"@) == (match p.observation_end {
            Some(d) => Some(iso_date_text(d@)),
            None => m.get("observation_end"@),
        }),
        with_observation_options(p, m).get("units"@) == (match p.units {
            Some(v) => Some(v.code()),
            None => m.get("units"@),
        }),
        with_observation_options(p, m).get("frequency"@) == (match p.frequency {
            Some(v) => Some(v.code()),
            None => m.get("frequency"@),
        }),
        with_observation_options(p, m).get("aggregation_method"@) == (match p.aggregation_method {
            Some(v) => Some(v.code()),
            None => m.get("aggregation_method"@),
        }),
        with_observation_options(p, m).get("output_type"@) == (match p.output_type {
            Some(v) => Some(v.code()),
            None => m.get("output_type"@),
        }),
        with_observation_options(p, m).get("vintage_dates"@) == (if p.vintage_dates@.len() > 0 {
            Some(dates_text(p.vintage_dates@))
        } else {
            m.get("vintage_dates"@)
        }),
        with_observation_options(p, m).get("limit"@) == (match p.limit {
            Some(l) => Some(decimal(l as nat)),
            None => m.get("limit"@),
        }),
        with_observation_options(p, m).get("offset"@) == (match p.offset {
            Some(o) => Some(decimal(o as nat)),
            None => m.get("offset"@),
        }),
        with_observation_options(p, m).get("sort_order"@) == (match p.sort_order {
            Some(v) => Some(v.code()),
            None => m.get("sort_order"@),
        }),
        forall|k: Seq<char>|
            k != "observation_start"@ && k != "observation_end"@ && k != "units"@ && k
                != "frequency"@ && k != "aggregation_method"@ && k != "output_type"@ && k
                != "vintage_dates"@ && k != "limit"@ && k != "offset"@ && k != "sort_order"@
                ==> #[trigger] with_observation_options(p, m).get(k) == m.get(k),
{
    lemma_keys_distinct();
    let m1 = with_date(with_date(m, "observation_start"@, p.observation_start), "observation_end"@, p.observation_end);
    let m2 = with_text(m1, "units"@, match p.units { Some(v) => Some(v.code()), None => None });
    let m3 = with_text(m2, "frequency"@, match p.frequency { Some(v) => Some(v.code()), None => None });
    let m4 = with_text(
        m3,
        "aggregation_method"@,
        match p.aggregation_method { Some(v) => Some(v.code()), None => None },
    );
    let m5 = with_text(m4, "output_type"@, match p.output_type { Some(v) => Some(v.code()), None => None });
    let m6 = if p.vintage_dates@.len() > 0 {
        m5.insert("vintage_dates"@, dates_text(p.vintage_dates@))
    } else {
        m5
    };
    law_pagination_parameters(m6, Pagination { limit: p.limit, offset: p.offset, sort_order: p.sort_order });
}

/// Law: an observations request sends each parameter of `p` under its own
/// name, exactly when it is given and whatever the others are: the series,
/// the real-time bounds and the observation bounds as ISO dates, the codes of
/// units, frequency, aggregation method and output type, the vintage dates
/// when there are any, and the pagination in decimal or as its code; and it
/// sends nothing else.
pub proof fn law_observations_parameters(p: Observations)
    ensures
        observations_params(p).get("series_id"@) == Some(p.series_id@),
        observations_params(p).get("realtime_start"@) == date_text(p.realtime.start),
        observations_params(p).get("realtime_end"@) == date_text(p.realtime.end),
        observations_params(p).get("observation_start"@) == date_text(p.observation_start),
        observations_params(p).get("observation_end"@) == date_text(p.observation_end),
        observations_params(p).get("units"@) == (match p.units {
            Some(v) => Some(v.code()),
            None => None,
        }),
        observations_params(p).get("frequency"@) == (match p.frequency {
            Some(v) => Some(v.code()),
            None => None,
        }),
        observations_params(p).get("aggregation_method"@) == (match p.aggregation_method {
            Some(v) => Some(v.code()),
            None => None,
        }),
        observations_params(p).get("output_type"@) == (match p.output_type {
            Some(v) => Some(v.code()),
            None => None,
        }),
        observations_params(p).get("vintage_dates"@) == (if p.vintage_dates@.len() > 0 {
            Some(dates_text(p.vintage_dates@))
        } else {
            None
        }),
        observations_params(p).get("limit"@) == number_text(p.limit),
        observations_params(p).get("offset"@) == number_text(p.offset),
        observations_params(p).get("sort_order"@) == (match p.sort_order {
            Some(v) => Some(v.code()),
            None => None,
        }),
        forall|k: Seq<char>| !observations_key(k) ==> #[trigger] observations_params(p).get(k) is None,
{
    lemma_keys_distinct();
    let base = series_base(p);
    law_realtime_parameters(base, p.realtime);
    lemma_observation_options(p, with_realtime(base, p.realtime));
}

/// Law: the request for one sub-window sends the sub-window's bounds as
/// `realtime_start` and `realtime_end`, and every other parameter of `p` as a
/// whole-window request does.
pub proof fn law_observations_between_parameters(
    p: Observations,
    start: (int, int, int),
    end: (int, int, int),
)
    ensures
        observations_params_between(p, start, end).get("realtime_start"@) == Some(
            iso_date_text(start),
        ),
        observations_params_between(p, start, end).get("realtime_end"@) == Some(iso_date_text(end)),
        forall|k: Seq<char>|
            k != "realtime_start"@ && k != "realtime_end"@ ==> #[trigger] observations_params_between(
                p,
                start,
                end,
            ).get(k) == observations_params(p).get(k),
{
    lemma_keys_distinct();
    let base = series_base(p);
    let a = with_realtime(base, p.realtime);
    let b = base.insert("realtime_start"@, iso_date_text(start)).insert(
        "realtime_end"@,
        iso_date_text(end),
    );
    law_realtime_parameters(base, p.realtime);
    lemma_observation_options(p, a);
    lemma_observation_options(p, b);
    assert forall|k: Seq<char>| k != "realtime_start"@ && k != "realtime_end"@ implies #[trigger] observations_params_between(
        p,
        start,
        end,
    ).get(k) == observations_params(p).get(k) by {
        assert(a.get(k) == base.get(k));
        assert(b.get(k) == base.get(k));
    }
}

/// Law: a search sends its text as `search_text`, the related tags as
/// `tag_names` and the code of its type as `search_type` where they are
/// given, the bounds of its real-time window as ISO dates and its pagination,
/// each exactly when it is given and whatever the others are; and it sends
/// nothing else.
pub proof fn law_search_parameters(p: Search, tag_names: Option<Seq<char>>)
    ensures
        search_params(p, tag_names).get("search_text"@) == Some(p.search_text@),
        search_params(p, tag_names).get("tag_names"@) == tag_names,
        search_params(p, tag_names).get("search_type"@) == (match p.search_type {
            Some(v) => Some(v.code()),
            None => None,
        }),
        search_params(p, tag_names).get("realtime_start"@) == date_text(p.realtime.start),
        search_params(p, tag_names).get("realtime_end"@) == date_text(p.realtime.end),
        search_params(p, tag_names).get("limit"@) == number_text(p.pagination.limit),
        search_params(p, tag_names).get("offset"@) == number_text(p.pagination.offset),
        search_params(p, tag_names).get("sort_order"@) == (match p.pagination.sort_order {
            Some(v) => Some(v.code()),
            None => None,
        }),
        forall|k: Seq<char>|
            k != "search_text"@ && k != "tag_names"@ && k != "search_type"@ && k
                != "realtime_start"@ && k != "realtime_end"@ && k != "limit"@ && k != "offset"@
                && k != "sort_order"@ ==> #[trigger] search_params(p, tag_names).get(k) is None,
{
    lemma_keys_distinct();
    let m = with_text(no_params().insert("search_text"@, p.search_text@), "tag_names"@, tag_names);
    let m = with_text(m, "search_type"@, match p.search_type { Some(v) => Some(v.code()), None => None });
    law_realtime_parameters(m, p.realtime);
    law_pagination_parameters(with_realtime(m, p.realtime), p.pagination);
}

/// The fields of a text that commas separate, from left to right.
pub open spec fn comma_fields(s: Seq<char>) -> Seq<Seq<char>>
    decreases s.len(),
{
    let i = first_index_of(s, ',');
    if 0 <= i < s.len() {
        seq![s.take(i)] + comma_fields(s.skip(i + 1))
    } else {
        seq![s]
    }
}

/// Whether a text holds no comma.
pub open spec fn comma_free(s: Seq<char>) -> bool {
    forall|i: int| 0 <= i < s.len() ==> s[i] != ','
}

proof fn lemma_digit_not_comma(d: nat)
    requires
        d < 10,
    ensures
        digit_char(d) != ',',
        digit_char(d) != '-',
{
}

proof fn lemma_decimal_comma_free(n: nat)
    ensures
        comma_free(decimal(n)),
    decreases n,
{
    if n < 10 {
        lemma_digit_not_comma(n);
    } else {
        lemma_decimal_comma_free(n / 10);
        lemma_digit_not_comma(n % 10);
        assert forall|i: int| 0 <= i < decimal(n).len() implies decimal(n)[i] != ',' by {
            if i < decimal(n / 10).len() {
                assert(decimal(n)[i] == decimal(n / 10)[i]);
            }
        }
    }
}

proof fn lemma_padded_comma_free(s: Seq<char>, width: nat)
    requires
        comma_free(s),
    ensures
        comma_free(zero_padded(s, width)),
{
    if s.len() < width {
        let pad = Seq::new((width - s.len()) as nat, |i: int| '0');
        assert forall|i: int| 0 <= i < zero_padded(s, width).len() implies zero_padded(s, width)[i]
            != ',' by {
            if i >= pad.len() {
                assert(zero_padded(s, width)[i] == s[i - pad.len()]);
            }
        }
    }
}

/// No ISO date text holds a comma.
proof fn lemma_iso_comma_free(d: (int, int, int))
    ensures
        comma_free(iso_date_text(d)),
{
    let y = d.0;
    if 0 <= y <= 9999 {
        lemma_decimal_comma_free(y as nat);
        lemma_padded_comma_free(decimal(y as nat), 4);
    } else if y < 0 {
        lemma_decimal_comma_free((-y) as nat);
        lemma_padded_comma_free(decimal((-y) as nat), 4);
    } else {
        lemma_decimal_comma_free(y as nat);
        lemma_padded_comma_free(decimal(y as nat), 4);
    }
    lemma_decimal_comma_free(d.1 as nat);
    lemma_padded_comma_free(decimal(d.1 as nat), 2);
    lemma_decimal_comma_free(d.2 as nat);
    lemma_padded_comma_free(decimal(d.2 as nat), 2);
    let yt = year_text(y);
    assert(comma_free(yt)) by {
        if y < 0 || y > 9999 {
            let p = zero_padded(decimal(if y < 0 { (-y) as nat } else { y as nat }), 4);
            assert forall|i: int| 0 <= i < yt.len() implies yt[i] != ',' by {
                if i > 0 {
                    assert(yt[i] == p[i - 1]);
                }
            }
        }
    }
    let m = zero_padded(decimal(d.1 as nat), 2);
    let dd = zero_padded(decimal(d.2 as nat), 2);
    let t = iso_date_text(d);
    assert(t == yt + seq!['-'] + m + seq!['-'] + dd);
    assert forall|i: int| 0 <= i < t.len() implies t[i] != ',' by {
        let a = yt.len() as int;
        let b = a + 1 + m.len();
        if i < a {
            assert(t[i] == yt[i]);
        } else if i == a {
        } else if i < b {
            assert(t[i] == m[i - a - 1]);
        } else if i == b {
        } else {
            assert(t[i] == dd[i - b - 1]);
        }
    }
}

/// Splitting at commas a text, a comma and a comma-free text gives the
/// fields of the first text and then the last one.
proof fn lemma_fields_append(a: Seq<char>, b: Seq<char>)
    requires
        comma_free(b),
    ensures
        comma_fields(a + seq![','] + b) == comma_fields(a).push(b),
    decreases a.len(),
{
    let s = a + seq![','] + b;
    lemma_first_index_bound(a, ',');
    lemma_first_index_bound(b, ',');
    let i = first_index_of(a, ',');
    if i == a.len() {
        assert(s[a.len() as int] == ',');
        assert forall|j: int| 0 <= j < a.len() implies s[j] != ',' by {
            assert(s[j] == a[j]);
        }
        lemma_first_index(s, ',', a.len() as int);
        assert(s.take(a.len() as int) =~= a);
        assert(s.skip(a.len() as int + 1) =~= b);
        lemma_first_index(b, ',', b.len() as int);
        assert(comma_fields(b) == seq![b]);
        assert(comma_fields(a) == seq![a]);
        assert(comma_fields(s) =~= seq![a].push(b));
    } else {
        assert(s[i] == ',');
        assert forall|j: int| 0 <= j < i implies s[j] != ',' by {
            assert(s[j] == a[j]);
        }
        lemma_first_index(s, ',', i);
        let rest = a.skip(i + 1);
        assert(s.take(i) =~= a.take(i));
        assert(s.skip(i + 1) =~= rest + seq![','] + b);
        lemma_fields_append(rest, b);
        assert(comma_fields(a) == seq![a.take(i)] + comma_fields(rest));
        assert(comma_fields(s) =~= (seq![a.take(i)] + comma_fields(rest)).push(b));
    }
}

/// Splitting comma-free parts joined with commas gives back the parts.
proof fn lemma_fields_of_joined(parts: Seq<Seq<char>>)
    requires
        parts.len() > 0,
        forall|i: int| 0 <= i < parts.len() ==> comma_free(#[trigger] parts[i]),
    ensures
        comma_fields(joined(parts, ","@)) == parts,
    decreases parts.len(),
{
    reveal_strlit(",");
    assert(","@ =~= seq![',']);
    if parts.len() == 1 {
        lemma_first_index(parts[0], ',', parts[0].len() as int);
        assert(comma_fields(parts[0]) =~= parts);
    } else {
        let init = parts.drop_last();
        assert forall|i: int| 0 <= i < init.len() implies comma_free(#[trigger] init[i]) by {
            assert(init[i] == parts[i]);
        }
        lemma_fields_of_joined(init);
        assert(comma_free(parts.last()));
        lemma_fields_append(joined(init, ","@), parts.last());
        assert(joined(parts, ","@) == joined(init, ","@) + seq![','] + parts.last());
        assert(init.push(parts.last()) =~= parts);
    }
}

/// Law: the `vintage_dates` value of a non-empty list of dates splits at its
/// commas into exactly one field per date, in order, each the ISO text of
/// its date.
pub proof fn law_vintage_dates_fields(dates: Seq<Date>)
    requires
        dates.len() > 0,
    ensures
        comma_fields(dates_text(dates)).len() == dates.len(),
        forall|i: int|
            0 <= i < dates.len() ==> #[trigger] comma_fields(dates_text(dates))[i] == iso_date_text(
                dates[i]@,
            ),
{
    let texts = dates.map_values(|d: Date| iso_date_text(d@));
    assert forall|i: int| 0 <= i < texts.len() implies comma_free(#[trigger] texts[i]) by {
        lemma_iso_comma_free(dates[i]@);
    }
    lemma_fields_of_joined(texts);
}

} // verus!
