use fred_wrapper::{Date, Query};

fn pairs(q: &Query) -> Vec<(String, String)> {
    q.pairs().clone()
}

#[test]
fn parameters_are_kept_in_key_order() {
    let mut q = Query::new();
    q.put("series_id", "GDP".to_string());
    q.put("limit", "5".to_string());
    q.put("api", "x".to_string());
    assert_eq!(
        pairs(&q),
        vec![
            ("api".to_string(), "x".to_string()),
            ("limit".to_string(), "5".to_string()),
            ("series_id".to_string(), "GDP".to_string()),
        ]
    );
}

#[test]
fn order_of_puts_does_not_matter() {
    let mut a = Query::new();
    a.put("b", "1".to_string());
    a.put("a", "2".to_string());
    a.put("c", "3".to_string());
    let mut b = Query::new();
    b.put("c", "3".to_string());
    b.put("a", "2".to_string());
    b.put("b", "1".to_string());
    assert_eq!(pairs(&a), pairs(&b));
}

#[test]
fn a_later_put_replaces_the_value() {
    let mut q = Query::new();
    q.put("limit", "5".to_string());
    q.put("limit", "7".to_string());
    assert_eq!(pairs(&q), vec![("limit".to_string(), "7".to_string())]);
}

#[test]
fn keys_compare_by_characters() {
    let mut q = Query::new();
    q.put("ab", "1".to_string());
    q.put("a", "2".to_string());
    q.put("B", "3".to_string());
    q.put("é", "4".to_string());
    q.put("", "5".to_string());
    let keys: Vec<String> = pairs(&q).into_iter().map(|p| p.0).collect();
    assert_eq!(keys, vec!["", "B", "a", "ab", "é"]);
}

#[test]
fn numbers_flags_and_dates() {
    let mut q = Query::new();
    q.put_number("n", 18446744073709551615);
    q.put_number("z", 0);
    q.put_flag("f", false);
    q.put_flag("t", true);
    q.date("d", Date::from_ymd_opt(2024, 2, 29));
    q.date("none", None);
    assert_eq!(
        pairs(&q),
        vec![
            ("d".to_string(), "2024-02-29".to_string()),
            ("f".to_string(), "false".to_string()),
            ("n".to_string(), "18446744073709551615".to_string()),
            ("t".to_string(), "true".to_string()),
            ("z".to_string(), "0".to_string()),
        ]
    );
}
