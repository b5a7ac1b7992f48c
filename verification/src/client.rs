//! The client's configuration, request URLs and the handling of answers.
use vstd::prelude::*;
use vstd::string::*;
use crate::error::{FredApiError, FredError};
use crate::query::{keys_ascending, Query};
use crate::text::is_ascii_alnum;
use crate::urls::{
    append_query_pair, form_encoded, form_plain, law_plain_text_encodes_as_itself, is_url_text,
    join_url, joined_url, lemma_with_query_pair_ascii, pair_fits, parse_url, parsed_url,
    query_pair_fits, url_too_long, with_query_pair, with_query_pairs,
};
use vstd::utf8::is_ascii_chars;

verus! {

/// The default FRED API base URL.
pub const FRED_BASE_URL: &'static str = "https://api.stlouisfed.org/fred/";

/// The GeoFRED API base URL.
pub const GEOFRED_BASE_URL: &'static str = "https://api.stlouisfed.org/geofred/";

/// FRED's API keys are 32 ASCII letters and digits.
pub open spec fn valid_api_key(key: Seq<char>) -> bool {
    key.len() == 32 && forall|i: int| 0 <= i < 32 ==> is_ascii_alnum(#[trigger] key[i])
}

/// HTTP statuses 200 to 299 are successful.
pub open spec fn is_success_status(status: u16) -> bool {
    200 <= status < 300
}

/// The pairs that every request sends before its own: the key and the format.
pub open spec fn request_pairs(api_key: Seq<char>, query: Seq<(Seq<char>, Seq<char>)>) -> Seq<
    (Seq<char>, Seq<char>),
> {
    seq![("api_key"@, api_key), ("file_type"@, "json"@)] + query
}

/// The URL of a request: the endpoint resolved against the base, then the
/// key, the format and the query's own pairs in their order.
pub open spec fn request_url_text(
    base: Seq<char>,
    endpoint: Seq<char>,
    api_key: Seq<char>,
    query: Seq<(Seq<char>, Seq<char>)>,
) -> Option<Seq<char>> {
    match joined_url(base, endpoint) {
        None => None,
        Some(joined) => with_query_pairs(joined, request_pairs(api_key, query)),
    }
}

/// Law: the API keys that `new` accepts (and then hands, with the production
/// URLs, to `with_urls`) are exactly the texts of 32 characters each of which
/// is an ASCII digit `0`-`9`, upper-case letter `A`-`Z` or lower-case letter
/// `a`-`z`; every other key is refused with `InvalidApiKey`.
pub proof fn law_api_key_format(key: Seq<char>)
    ensures
        valid_api_key(key) <==> key.len() == 32 && forall|i: int|
            0 <= i < 32 ==> {
                let c = #[trigger] key[i];
                ('0' <= c && c <= '9') || ('A' <= c && c <= 'Z') || ('a' <= c && c <= 'z')
            },
{
}

/// Law: every request's query begins with `api_key=<key>` and
/// `file_type=json`, written as they are, for any key that `new` accepts.
pub proof fn law_key_and_format_sent_verbatim(key: Seq<char>)
    requires
        valid_api_key(key),
    ensures
        form_encoded(key) == key,
        form_encoded("api_key"@) == "api_key"@,
        form_encoded("file_type"@) == "file_type"@,
        form_encoded("json"@) == "json"@,
{
    reveal_strlit("api_key");
    reveal_strlit("file_type");
    reveal_strlit("json");
    assert forall|i: int| 0 <= i < key.len() implies form_plain(#[trigger] key[i]) by {}
    law_plain_text_encodes_as_itself(key);
    law_plain_text_encodes_as_itself("api_key"@);
    law_plain_text_encodes_as_itself("file_type"@);
    law_plain_text_encodes_as_itself("json"@);
}

/// The configuration of a FRED/ALFRED client: the API key and the two base
/// URLs. The HTTP transport that carries its requests lives beside it.
#[derive(Debug)]
pub struct FredClient {
    api_key: String,
    fred_base: String,
    geofred_base: String,
}

impl Clone for FredClient {
    fn clone(&self) -> (r: Self)
        ensures
            r.key() == self.key(),
            r.fred_base() == self.fred_base(),
            r.geofred_base() == self.geofred_base(),
    {
        proof {
            use_type_invariant(self);
        }
        FredClient {
            api_key: self.api_key.clone(),
            fred_base: self.fred_base.clone(),
            geofred_base: self.geofred_base.clone(),
        }
    }
}

impl FredClient {
    #[verifier::type_invariant]
    spec fn bases_are_urls(self) -> bool {
        &&& is_url_text(self.fred_base@) && is_ascii_chars(self.fred_base@)
        &&& is_url_text(self.geofred_base@) && is_ascii_chars(self.geofred_base@)
    }

    /// The API key that every request carries.
    pub closed spec fn key(self) -> Seq<char> {
        self.api_key@
    }

    /// The base URL of the FRED endpoints.
    pub closed spec fn fred_base(self) -> Seq<char> {
        self.fred_base@
    }

    /// The base URL of the GeoFRED endpoints.
    pub closed spec fn geofred_base(self) -> Seq<char> {
        self.geofred_base@
    }

    /// The base URL that a request goes to.
    pub open spec fn base(self, geo: bool) -> Seq<char> {
        if geo {
            self.geofred_base()
        } else {
            self.fred_base()
        }
    }

    /// Creates a client with the production FRED and GeoFRED endpoints.
    /// The API key is checked for FRED's 32-character alphanumeric format.
    pub fn new(api_key: String) -> (r: Result<FredClient, FredError>)
        ensures
            !valid_api_key(api_key@) ==> r matches Err(FredError::InvalidApiKey),
            valid_api_key(api_key@) ==> Self::with_urls_outcome(
                r,
                api_key@,
                FRED_BASE_URL@,
                GEOFRED_BASE_URL@,
            ),
    {
        if !Self::is_valid_api_key(api_key.as_str()) {
            return Err(FredError::InvalidApiKey);
        }
        Self::with_urls(api_key, FRED_BASE_URL, GEOFRED_BASE_URL)
    }

    /// Whether `key` is in FRED's API key format.
    pub fn is_valid_api_key(key: &str) -> (b: bool)
        ensures
            b == valid_api_key(key@),
    {
        if key.unicode_len() != 32 {
            return false;
        }
        let mut i: usize = 0;
        while i < 32
            invariant
                key@.len() == 32,
                i <= 32,
                forall|j: int| 0 <= j < i ==> is_ascii_alnum(#[trigger] key@[j]),
            decreases 32 - i,
        {
            let c = key.get_char(i);
            if !(('0' <= c && c <= '9') || ('A' <= c && c <= 'Z') || ('a' <= c && c <= 'z')) {
                return false;
            }
            i = i + 1;
        }
        true
    }

    /// What `with_urls` returns for the given key and base URL texts.
    pub open spec fn with_urls_outcome(
        r: Result<FredClient, FredError>,
        api_key: Seq<char>,
        fred_base: Seq<char>,
        geofred_base: Seq<char>,
    ) -> bool {
        match (parsed_url(fred_base), parsed_url(geofred_base)) {
            (Some(fred), Some(geo)) => r matches Ok(c) && c.key() == api_key && c.fred_base()
                == fred && c.geofred_base() == geo,
            _ => r matches Err(FredError::Url(_)),
        }
    }

    /// Creates a client against custom bases. Useful for tests and proxies.
    pub fn with_urls(api_key: String, fred_base: &str, geofred_base: &str) -> (r: Result<
        FredClient,
        FredError,
    >)
        ensures
            Self::with_urls_outcome(r, api_key@, fred_base@, geofred_base@),
    {
        let fred = match parse_url(fred_base) {
            Ok(u) => u,
            Err(e) => return Err(FredError::Url(e)),
        };
        let geo = match parse_url(geofred_base) {
            Ok(u) => u,
            Err(e) => return Err(FredError::Url(e)),
        };
        Ok(FredClient { api_key, fred_base: fred, geofred_base: geo })
    }

    /// The API key that every request carries.
    pub fn api_key(&self) -> (r: &str)
        ensures
            r@ == self.key(),
    {
        self.api_key.as_str()
    }

    /// The URL of a request to `endpoint`, resolved against the GeoFRED base
    /// when `geo` holds and the FRED base otherwise, with `api_key`,
    /// `file_type=json` and then the query's parameters in key order.
    pub fn request_url(&self, geo: bool, endpoint: &str, query: &Query) -> (r: Result<
        String,
        FredError,
    >)
        ensures
            r is Ok <==> request_url_text(self.base(geo), endpoint@, self.key(), query@) is Some,
            r is Ok ==> r->Ok_0@ == request_url_text(
                self.base(geo),
                endpoint@,
                self.key(),
                query@,
            )->0,
            r is Err ==> r->Err_0 is Url,
    {
        proof {
            use_type_invariant(self);
        }
        let base = if geo {
            self.geofred_base.as_str()
        } else {
            self.fred_base.as_str()
        };
        let joined = match join_url(base, endpoint) {
            Ok(u) => u,
            Err(e) => return Err(FredError::Url(e)),
        };
        let ghost all = request_pairs(self.key(), query@);
        let ghost target = with_query_pairs(joined@, all);
        assert(base@ == self.base(geo));
        assert(target == request_url_text(self.base(geo), endpoint@, self.key(), query@));
        assert(all[0] == ("api_key"@, self.key()));
        assert(all.drop_first()[0] == ("file_type"@, "json"@));
        assert(all.drop_first().drop_first() =~= query@);
        let url = match append_checked(joined, "api_key", self.api_key.as_str()) {
            Ok(u) => u,
            Err(e) => return Err(e),
        };
        assert(target == with_query_pairs(url@, all.drop_first()));
        let mut url = match append_checked(url, "file_type", "json") {
            Ok(u) => u,
            Err(e) => return Err(e),
        };
        assert(target == with_query_pairs(url@, query@));
        assert(query@.skip(0) =~= query@);
        let pairs = query.pairs();
        let n = pairs.len();
        let mut i: usize = 0;
        while i < n
            invariant
                n == pairs@.len(),
                n == query@.len(),
                i <= n,
                pairs@.map_values(|p: (String, String)| (p.0@, p.1@)) == query@,
                is_url_text(url@),
                is_ascii_chars(url@),
                with_query_pairs(url@, query@.skip(i as int)) == target,
                target == request_url_text(self.base(geo), endpoint@, self.key(), query@),
            decreases n - i,
        {
            let ghost rest = query@.skip(i as int);
            let ghost cur = url@;
            assert(rest.len() > 0);
            assert(rest[0] == query@[i as int]);
            assert(rest.drop_first() =~= query@.skip(i + 1));
            assert(query@[i as int] == (pairs@[i as int].0@, pairs@[i as int].1@));
            url = match append_checked(url, pairs[i].0.as_str(), pairs[i].1.as_str()) {
                Ok(u) => u,
                Err(e) => {
                    assert(!pair_fits(cur, rest[0].0, rest[0].1));
                    assert(with_query_pairs(cur, rest) is None);
                    return Err(e);
                },
            };
            i = i + 1;
        }
        assert(query@.skip(n as int) =~= Seq::<(Seq<char>, Seq<char>)>::empty());
        Ok(url)
    }

    /// Checks FRED's answer: a successful status hands the body on to be
    /// decoded; otherwise FRED's own error body, where it sent one, or the
    /// status and body become the error.
    pub fn check_response(status: u16, body: String, api_error: Option<FredApiError>) -> (r:
        Result<String, FredError>)
        ensures
            is_success_status(status) ==> (r matches Ok(b) && b@ == body@),
            !is_success_status(status) && api_error is Some ==> (r matches Err(FredError::Api(e))
                && e == api_error->0),
            !is_success_status(status) && api_error is None ==> (r matches Err(
                FredError::Http { status: s, body: b },
            ) && s == status && b@ == body@),
    {
        if 200 <= status && status < 300 {
            Ok(body)
        } else {
            match api_error {
                Some(e) => Err(FredError::Api(e)),
                None => Err(FredError::Http { status, body }),
            }
        }
    }
}

/// Appends one pair to a URL text, or reports that the `url` crate could not.
fn append_checked(url: String, name: &str, value: &str) -> (r: Result<String, FredError>)
    requires
        is_url_text(url@),
        is_ascii_chars(url@),
    ensures
        pair_fits(url@, name@, value@) ==> (r matches Ok(u) && u@ == with_query_pair(
            url@,
            name@,
            value@,
        ) && is_url_text(u@) && is_ascii_chars(u@)),
        !pair_fits(url@, name@, value@) ==> r matches Err(FredError::Url(_)),
{
    if query_pair_fits(url.as_str(), name, value) {
        proof {
            lemma_with_query_pair_ascii(url@, name@, value@);
        }
        Ok(append_query_pair(url.as_str(), name, value))
    } else {
        Err(FredError::Url(url_too_long()))
    }
}

/// The first record of an answer that must hold one, or `EmptyResponse`.
pub fn first_record<T>(records: Vec<T>, resource: &'static str) -> (r: Result<T, FredError>)
    ensures
        records@.len() > 0 ==> (r matches Ok(x) && x == records@[0]),
        records@.len() == 0 ==> (r matches Err(FredError::EmptyResponse { resource: res })
            && res == resource),
{
    if records.len() == 0 {
        Err(FredError::EmptyResponse { resource })
    } else {
        let mut records = records;
        Ok(records.remove(0))
    }
}

/// FRED writes a missing observation as `"."`. The text of an observation's
/// value that is to be read as a number, or `None` where the value is missing.
pub fn missing_value(raw: Option<&str>) -> (r: Option<&str>)
    ensures
        r == (match raw {
            None => None,
            Some(s) => if s@ == "."@ {
                None
            } else {
                Some(s)
            },
        }),
{
    proof {
        reveal_strlit(".");
    }
    match raw {
        None => None,
        Some(s) => {
            if s.unicode_len() == 1 && s.get_char(0) == '.' {
                assert(s@ =~= "."@);
                None
            } else {
                Some(s)
            }
        },
    }
}

} // verus!
