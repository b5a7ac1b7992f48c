use fred_wrapper::{first_record, FredApiError, FredClient, FredError};

#[test]
fn success_hands_the_body_on() {
    for status in [200u16, 204, 299] {
        let r = FredClient::check_response(status, "{}".to_string(), None);
        assert_eq!(r.unwrap(), "{}");
    }
}

#[test]
fn fred_error_body_becomes_api_error() {
    let e = FredApiError { error_code: 400, error_message: "Bad Request.".to_string() };
    assert_eq!(e.code(), 400);
    assert_eq!(e.message(), "Bad Request.");
    let r = FredClient::check_response(400, "x".to_string(), Some(e.clone()));
    match r {
        Err(FredError::Api(got)) => assert_eq!(got, e),
        other => panic!("unexpected {other:?}"),
    }
}

#[test]
fn other_failures_keep_status_and_body() {
    for status in [199u16, 300, 404, 429, 500] {
        let r = FredClient::check_response(status, "oops".to_string(), None);
        match r {
            Err(FredError::Http { status: s, body }) => {
                assert_eq!(s, status);
                assert_eq!(body, "oops");
            }
            other => panic!("unexpected {other:?}"),
        }
    }
}

#[test]
fn success_ignores_an_error_body() {
    let e = FredApiError { error_code: 1, error_message: String::new() };
    assert!(FredClient::check_response(200, "b".to_string(), Some(e)).is_ok());
}

#[test]
fn first_record_of_a_list() {
    assert_eq!(first_record(vec![3, 4], "series").unwrap(), 3);
    match first_record::<u8>(vec![], "release") {
        Err(FredError::EmptyResponse { resource }) => assert_eq!(resource, "release"),
        other => panic!("unexpected {other:?}"),
    }
}
