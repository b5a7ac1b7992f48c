use fred_wrapper::{FredClient, FredError, FRED_BASE_URL, GEOFRED_BASE_URL};

const KEY: &str = "abcdefghijklmnopqrstuvwxyz012345";

#[test]
fn valid_key_is_accepted() {
    let client = FredClient::new(KEY.to_string()).unwrap();
    assert_eq!(client.api_key(), KEY);
}

#[test]
fn short_key_is_rejected() {
    let r = FredClient::new("abcdefghijklmnopqrstuvwxyz01234".to_string());
    assert!(matches!(r, Err(FredError::InvalidApiKey)));
}

#[test]
fn long_key_is_rejected() {
    let r = FredClient::new("abcdefghijklmnopqrstuvwxyz0123456".to_string());
    assert!(matches!(r, Err(FredError::InvalidApiKey)));
}

#[test]
fn key_with_punctuation_is_rejected() {
    let r = FredClient::new("abcdefghijklmnopqrstuvwxyz01234-".to_string());
    assert!(matches!(r, Err(FredError::InvalidApiKey)));
}

#[test]
fn key_with_non_ascii_is_rejected() {
    // 31 characters, 32 bytes.
    let r = FredClient::new("abcdefghijklmnopqrstuvwxyz0123é".to_string());
    assert!(matches!(r, Err(FredError::InvalidApiKey)));
}

#[test]
fn key_check_alone() {
    assert!(FredClient::is_valid_api_key(KEY));
    assert!(FredClient::is_valid_api_key("ABCDEFGHIJKLMNOPQRSTUVWXYZ012345"));
    assert!(!FredClient::is_valid_api_key(""));
    assert!(!FredClient::is_valid_api_key("abcdefghijklmnopqrstuvwxyz01234 "));
}

#[test]
fn invalid_base_url_is_a_url_error() {
    let r = FredClient::with_urls(KEY.to_string(), "not a url", GEOFRED_BASE_URL);
    assert!(matches!(r, Err(FredError::Url(_))));
    let r = FredClient::with_urls(KEY.to_string(), FRED_BASE_URL, "");
    assert!(matches!(r, Err(FredError::Url(_))));
}

#[test]
fn custom_bases_are_used() {
    let client =
        FredClient::with_urls(KEY.to_string(), "http://localhost:8080/fred/", "http://localhost:8080/geo/")
            .unwrap();
    let req = client.series().get("GDP", Default::default());
    let url = client.request_url(req.geo, &req.endpoint, &req.query).unwrap();
    assert_eq!(url, format!("http://localhost:8080/fred/series?api_key={KEY}&file_type=json&series_id=GDP"));
    let req = client.geofred().raw("shapes/file", fred_wrapper::Query::new());
    let url = client.request_url(req.geo, &req.endpoint, &req.query).unwrap();
    assert_eq!(url, format!("http://localhost:8080/geo/shapes/file?api_key={KEY}&file_type=json"));
}

#[test]
fn base_urls_are_normalized_by_parsing() {
    let client =
        FredClient::with_urls(KEY.to_string(), "HTTP://Example.COM:80/fred/../fred/", GEOFRED_BASE_URL)
            .unwrap();
    let req = client.category().get(None);
    let url = client.request_url(req.geo, &req.endpoint, &req.query).unwrap();
    assert_eq!(url, format!("http://example.com/fred/category?api_key={KEY}&file_type=json"));
}

#[test]
fn endpoint_resolution_follows_url_rules() {
    let client = FredClient::new(KEY.to_string()).unwrap();
    let req = client.release().raw("../geofred/series/group", fred_wrapper::Query::new());
    let url = client.request_url(req.geo, &req.endpoint, &req.query).unwrap();
    assert_eq!(url, format!("https://api.stlouisfed.org/geofred/series/group?api_key={KEY}&file_type=json"));
}
