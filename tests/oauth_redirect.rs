use mail_engine::oauth::{parse_auth_code_and_state, parse_query_string, query_param, urlencoding_decode};

#[test]
fn redirect_with_code_and_state() {
    let req = "GET /callback?code=4%2F0Ab&state=xyz HTTP/1.1\r\nHost: localhost\r\n\r\n";
    assert_eq!(
        parse_auth_code_and_state(req),
        Ok(("4/0Ab".to_string(), "xyz".to_string()))
    );
}

#[test]
fn redirect_errors() {
    assert_eq!(parse_auth_code_and_state(""), Err("Empty request".to_string()));
    assert_eq!(parse_auth_code_and_state("GET\r\n"), Err("No path in request".to_string()));
    assert_eq!(
        parse_auth_code_and_state("GET /cb?error=access_denied&state=s HTTP/1.1\r\n"),
        Err("OAuth error: access_denied".to_string())
    );
    assert_eq!(
        parse_auth_code_and_state("GET /cb?state=s HTTP/1.1\r\n"),
        Err("No auth code in redirect".to_string())
    );
    assert_eq!(
        parse_auth_code_and_state("GET /cb?code=c HTTP/1.1\r\n"),
        Err("No state in redirect".to_string())
    );
}

#[test]
fn query_string_pairs_in_order_last_wins() {
    let params = parse_query_string("/cb?a=1&b=x+y&flag&a=2&c=p=q?ignored=1");
    assert_eq!(
        params,
        vec![
            ("a".to_string(), "1".to_string()),
            ("b".to_string(), "x y".to_string()),
            ("a".to_string(), "2".to_string()),
            ("c".to_string(), "p=q".to_string()),
        ]
    );
    assert_eq!(query_param(&params, "a"), Some("2".to_string()));
    assert_eq!(query_param(&params, "ignored"), None);
    assert!(parse_query_string("/no-query").is_empty());
}

#[test]
fn percent_decoding() {
    assert_eq!(urlencoding_decode("a%20b%2Fc"), "a b/c");
    assert_eq!(urlencoding_decode("caf%C3%A9"), "café");
    assert_eq!(urlencoding_decode("100%"), "100%");
    assert_eq!(urlencoding_decode("%zz+1"), "%zz 1");
    assert_eq!(urlencoding_decode("%FF"), "%FF");
}
