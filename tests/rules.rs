use http_cache_semantics::date::parse_http_date;
use http_cache_semantics::{parse_cache_control, CacheOptions, CachePolicy, Headers, RequestSnapshot, ResponseSnapshot};

const NOW: u64 = 1_700_000_000;

fn headers(pairs: &[(&str, &str)]) -> Headers {
    let mut h = Headers::new();
    for (k, v) in pairs {
        h.append(k.as_bytes(), v.as_bytes());
    }
    h
}

fn request(method: &str, pairs: &[(&str, &str)]) -> RequestSnapshot {
    RequestSnapshot { method: method.as_bytes().to_vec(), url: b"/".to_vec(), headers: headers(pairs) }
}

fn response(status: u16, pairs: &[(&str, &str)]) -> ResponseSnapshot {
    ResponseSnapshot { status, headers: headers(pairs) }
}

fn policy_with(o: CacheOptions, req: RequestSnapshot, res: ResponseSnapshot) -> CachePolicy {
    o.policy_for(&req, &res, NOW)
}

fn shared(shared: bool) -> CacheOptions {
    CacheOptions { shared, ..CacheOptions::default() }
}

fn header_text(h: &Headers, name: &str) -> Option<String> {
    h.get(name.as_bytes()).map(|v| String::from_utf8(v).unwrap())
}

fn directive(cc: &str, name: &str) -> Option<Option<String>> {
    parse_cache_control(cc.as_bytes())
        .lookup(name.as_bytes())
        .map(|v| v.map(|x| String::from_utf8(x).unwrap()))
}

#[test]
fn defaults_are_documented_values() {
    let o = CacheOptions::default();
    assert!(o.shared);
    assert!(!o.ignore_cargo_cult);
    assert!(o.trust_server_date);
    assert_eq!(o.cache_heuristic_permille, 100);
    assert_eq!(o.immutable_min_time_to_live, 86400);
}

#[test]
fn cache_control_parses_malformed_commas_and_spacing() {
    assert_eq!(directive(",,,,max-age =  456      ,", "max-age"), Some(Some("456".to_string())));
    assert_eq!(directive("  max-age = \"678\"      ", "max-age"), Some(Some("678".to_string())));
    assert_eq!(directive("Public, NO-CACHE", "no-cache"), Some(None));
    assert_eq!(directive("public", "private"), None);
    assert_eq!(directive("max-age=1, max-age=2", "max-age"), Some(Some("2".to_string())));
    assert_eq!(directive("foo=bar=baz", "foo"), Some(Some("bar=baz".to_string())));
    assert_eq!(directive("", "max-age"), None);
}

#[test]
fn directive_seconds_reads_numbers_only() {
    let d = parse_cache_control(b"max-age=abc, s-maxage=99999999999, min-fresh=-5, max-stale");
    assert_eq!(d.seconds(b"max-age"), None);
    assert_eq!(d.seconds(b"s-maxage"), Some(99999999999));
    assert_eq!(parse_cache_control(b"max-age=99999999999999999999").seconds(b"max-age"), Some(u64::MAX));
    assert_eq!(d.seconds(b"min-fresh"), None);
    assert_eq!(d.seconds(b"max-stale"), None);
    assert!(d.has(b"max-stale"));
}

#[test]
fn headers_are_case_insensitive_by_name() {
    let mut h = headers(&[("Content-Type", "text/html"), ("X-A", "1"), ("x-a", "2")]);
    assert_eq!(header_text(&h, "content-type").as_deref(), Some("text/html"));
    assert_eq!(header_text(&h, "x-a").as_deref(), Some("1"));
    h.set(b"X-a", b"3");
    assert_eq!(header_text(&h, "x-A").as_deref(), Some("3"));
    assert_eq!(h.fields.len(), 2);
    h.remove(b"CONTENT-TYPE");
    assert!(!h.has(b"content-type"));
    assert_eq!(h.fields.len(), 1);
}

#[test]
fn http_dates_are_read_as_epoch_seconds() {
    assert_eq!(parse_http_date(b"Sun, 06 Nov 1994 08:49:37 GMT"), Some(784111777));
    assert_eq!(parse_http_date(b"  Thu, 01 Jan 1970 00:00:00 GMT "), Some(0));
    assert_eq!(parse_http_date(b"Tue, 29 Feb 2000 00:00:00 GMT"), Some(951782400));
    assert_eq!(parse_http_date(b"Tue, 14 Nov 2023 22:13:20 GMT"), Some(NOW));
    assert_eq!(parse_http_date(b"Mon, 29 Feb 2100 00:00:00 GMT"), None);
    assert_eq!(parse_http_date(b"Fri, 31 Nov 2023 00:00:00 GMT"), None);
    assert_eq!(parse_http_date(b"Wed, 31 Dec 1969 23:59:59 GMT"), None);
    assert_eq!(parse_http_date(b"Sunday, 06-Nov-94 08:49:37 GMT"), Some(784111777));
    assert_eq!(parse_http_date(b"Wednesday, 01-Jan-celebrate 00:00:00 GMT"), None);
    assert_eq!(parse_http_date(b"Tuesday, 14-Nov-23 22:13:20 GMT"), Some(NOW));
    assert_eq!(parse_http_date(b"Sun Nov  6 08:49:37 1994"), Some(784111777));
    assert_eq!(parse_http_date(b"Tue Nov 14 22:13:20 2023"), Some(NOW));
    assert_eq!(parse_http_date(b"Sun Nov 06 08:49:37 GMT 1994"), None);
    assert_eq!(parse_http_date(b"Sun, 06 Nov 1994 08:49:37 UTC"), None);
    assert_eq!(parse_http_date(b"Sun, 06 Nov 1994 24:00:00 GMT"), None);
    assert_eq!(parse_http_date(b"yesterday!"), None);
}

#[test]
fn never_storable_statuses_ignore_freshness() {
    for status in [206u16, 303, 304, 401, 402, 403, 500, 502, 503, 504, 599] {
        let p = policy_with(shared(false), request("GET", &[]), response(status, &[("cache-control", "public, max-age=3600")]));
        assert!(!p.is_storable(), "status {}", status);
        assert_eq!(p.max_age(), 0);
    }
    for status in [200u16, 203, 204, 300, 301, 404, 405, 410, 414, 501] {
        let p = policy_with(shared(true), request("GET", &[]), response(status, &[("cache-control", "max-age=3600")]));
        assert!(p.is_storable(), "status {}", status);
        assert_eq!(p.max_age(), 3600);
    }
}

#[test]
fn no_store_in_response_beats_large_max_age() {
    let p = policy_with(shared(false), request("GET", &[]), response(200, &[("cache-control", "max-age=99999, no-store")]));
    assert!(!p.is_storable());
    assert!(p.is_stale(NOW));
}

#[test]
fn shared_cache_prefers_s_maxage() {
    let res = [("cache-control", "s-maxage=60, max-age=180")];
    assert_eq!(policy_with(shared(true), request("GET", &[]), response(200, &res)).max_age(), 60);
    assert_eq!(policy_with(shared(false), request("GET", &[]), response(200, &res)).max_age(), 180);
}

#[test]
fn max_stale_window_is_inclusive() {
    let p = policy_with(shared(false), request("GET", &[]), response(200, &[("cache-control", "max-age=100")]));
    let q = request("GET", &[("cache-control", "max-stale=30")]);
    assert!(p.is_stale(NOW + 110));
    assert!(p.satisfies_without_revalidation(&q, NOW + 130));
    assert!(!p.satisfies_without_revalidation(&q, NOW + 131));
    assert!(!p.satisfies_without_revalidation(&request("GET", &[("cache-control", "max-stale=abc")]), NOW + 110));
}

#[test]
fn vary_star_is_stale_at_every_moment() {
    let p = policy_with(shared(true), request("GET", &[]), response(200, &[("cache-control", "max-age=100000"), ("vary", "*")]));
    for t in [NOW, NOW + 1, NOW + 100] {
        assert!(p.is_stale(t));
    }
    assert_eq!(p.max_age(), 0);
    let q = request("GET", &[]);
    assert!(!p.request_matches(&q, true));
}

#[test]
fn snapshot_round_trip_keeps_answers() {
    let cases: Vec<(CacheOptions, RequestSnapshot, ResponseSnapshot)> = vec![
        (shared(true), request("GET", &[("host", "a")]), response(200, &[("cache-control", "max-age=100"), ("age", "10")])),
        (shared(false), request("POST", &[]), response(200, &[("cache-control", "private, max-age=7")])),
        (
            CacheOptions { trust_server_date: false, cache_heuristic_permille: 250, ..CacheOptions::default() },
            request("GET", &[("authorization", "x")]),
            response(301, &[("last-modified", "Mon, 07 Mar 2016 11:52:56 GMT"), ("date", "Tue, 14 Nov 2023 22:13:20 GMT")]),
        ),
        (shared(true), request("GET", &[]), response(503, &[])),
    ];
    for (o, q, r) in cases {
        let p = o.policy_for(&q, &r, NOW);
        let back = CachePolicy::from_snapshot(&p.to_snapshot()).unwrap();
        assert_eq!(back.is_storable(), p.is_storable());
        assert_eq!(back.max_age(), p.max_age());
        for t in [NOW, NOW + 5, NOW + 1000] {
            assert_eq!(back.time_to_live(t), p.time_to_live(t));
        }
        assert_eq!(back.to_snapshot(), p.to_snapshot());
    }
}

#[test]
fn snapshot_layout() {
    let p = policy_with(shared(true), request("GET", &[("host", "h")]), response(204, &[("etag", "e")]));
    let s = p.to_snapshot();
    let text: Vec<(String, String)> = s
        .into_iter()
        .map(|(k, v)| (String::from_utf8(k).unwrap(), String::from_utf8(v).unwrap()))
        .collect();
    let expected: Vec<(String, String)> = [
        ("shared", "1"),
        ("ignore-cargo-cult", "0"),
        ("trust-server-date", "1"),
        ("cache-heuristic-permille", "100"),
        ("immutable-min-time-to-live", "86400"),
        ("response-time", "1700000000"),
        ("status", "204"),
        ("method", "GET"),
        ("url", "/"),
        ("request-fields", "1"),
        ("host", "h"),
        ("etag", "e"),
    ]
    .iter()
    .map(|(k, v)| (k.to_string(), v.to_string()))
    .collect();
    assert_eq!(text, expected);
}

#[test]
fn heuristic_is_a_share_of_last_modified_age() {
    let res = [("date", "Tue, 14 Nov 2023 22:13:20 GMT"), ("last-modified", "Tue, 14 Nov 2023 21:56:40 GMT")];
    let p = policy_with(shared(true), request("GET", &[]), response(200, &res));
    assert_eq!(p.max_age(), 100);
    let o = CacheOptions { cache_heuristic_permille: 500, ..CacheOptions::default() };
    assert_eq!(policy_with(o, request("GET", &[]), response(200, &res)).max_age(), 500);
}

#[test]
fn immutable_floor_and_heuristic() {
    let p = policy_with(shared(true), request("GET", &[]), response(200, &[("cache-control", "immutable")]));
    assert_eq!(p.max_age(), 86400);
    let o = CacheOptions { immutable_min_time_to_live: 10, ..CacheOptions::default() };
    let res = [("cache-control", "immutable"), ("date", "Tue, 14 Nov 2023 22:13:20 GMT"), ("last-modified", "Tue, 14 Nov 2023 21:56:40 GMT")];
    assert_eq!(policy_with(o, request("GET", &[]), response(200, &res)).max_age(), 100);
}

#[test]
fn server_age_counts_only_when_trusted() {
    let res = [("date", "Tue, 14 Nov 2023 22:03:20 GMT"), ("age", "30"), ("cache-control", "max-age=100")];
    let trusting = policy_with(shared(true), request("GET", &[]), response(200, &res));
    // The `Date` ten minutes back does not age the response; `Age` does.
    assert_eq!(trusting.age(NOW), 30);
    assert_eq!(trusting.time_to_live(NOW), 70);
    assert!(!trusting.is_stale(NOW));
    assert!(trusting.is_stale(NOW + 70));
    let o = CacheOptions { trust_server_date: false, ..CacheOptions::default() };
    let local = policy_with(o, request("GET", &[]), response(200, &res));
    assert_eq!(local.age(NOW), 0);
    assert_eq!(local.age(NOW + 7), 7);
    assert!(!local.is_stale(NOW));
}

#[test]
fn time_to_live_goes_negative() {
    let p = policy_with(shared(true), request("GET", &[]), response(200, &[("cache-control", "max-age=10")]));
    assert_eq!(p.time_to_live(NOW), 10);
    assert_eq!(p.time_to_live(NOW + 25), -15);
    assert_eq!(p.time_to_live(NOW - 5), 10);
}

#[test]
fn response_headers_leave_policy_untouched() {
    let p = policy_with(
        shared(true),
        request("GET", &[]),
        response(200, &[("Connection", "close"), ("Warning", "110 - \"stale\""), ("x", "y"), ("cache-control", "max-age=5")]),
    );
    let h = p.response_headers(NOW + 3);
    assert_eq!(header_text(&h, "connection"), None);
    assert_eq!(header_text(&h, "warning"), None);
    assert_eq!(header_text(&h, "age").as_deref(), Some("3"));
    assert_eq!(header_text(&h, "x").as_deref(), Some("y"));
    assert_eq!(header_text(&p.response().headers, "warning").as_deref(), Some("110 - \"stale\""));
    let mut mine = headers(&[("te", "trailers"), ("age", "1")]);
    p.update_response_headers(&mut mine, NOW + 12);
    assert_eq!(header_text(&mine, "te"), None);
    assert_eq!(header_text(&mine, "age").as_deref(), Some("12"));
}

#[test]
fn fresh_request_is_left_alone_and_stale_one_gets_validators() {
    let p = policy_with(
        shared(true),
        request("GET", &[("host", "h")]),
        response(200, &[("cache-control", "max-age=5"), ("etag", "\"v1\""), ("last-modified", "Mon, 07 Mar 2016 11:52:56 GMT")]),
    );
    let mut q = request("GET", &[("host", "h"), ("te", "x")]);
    assert!(p.is_cached_response_fresh(&mut q, NOW + 1));
    assert_eq!(header_text(&q.headers, "te").as_deref(), Some("x"));
    assert!(!p.is_cached_response_fresh(&mut q, NOW + 10));
    assert_eq!(header_text(&q.headers, "te"), None);
    assert_eq!(header_text(&q.headers, "if-none-match").as_deref(), Some("\"v1\""));
    assert_eq!(header_text(&q.headers, "if-modified-since").as_deref(), Some("Mon, 07 Mar 2016 11:52:56 GMT"));
}

#[test]
fn unsafe_method_needs_strong_equal_tags() {
    let p = policy_with(
        shared(true),
        request("POST", &[]),
        response(200, &[("cache-control", "max-age=5"), ("etag", "W/\"v1\"")]),
    );
    let post = request("POST", &[]);
    let (valid, _) = p.is_cached_response_valid(&post, &response(200, &[("etag", "W/\"v1\"")]), NOW);
    assert!(!valid);
    let get = request("GET", &[]);
    let (valid, _) = p.is_cached_response_valid(&get, &response(200, &[("etag", "W/\"v1\"")]), NOW);
    assert!(valid);
    let (valid, _) = p.is_cached_response_valid(&get, &response(200, &[("etag", "\"v1\"")]), NOW);
    assert!(!valid);
}

#[test]
fn cargo_cult_option_sets_aside_only_pre_and_post_check() {
    let o = CacheOptions { ignore_cargo_cult: true, ..CacheOptions::default() };
    let p = policy_with(
        o,
        request("GET", &[]),
        response(200, &[("cache-control", "pre-check=0, post-check=0, no-store, public"), ("expires", "Thu, 01 Jan 1970 00:00:00 GMT")]),
    );
    assert!(!p.is_storable());
    assert!(p.response().headers.has(b"expires"));
    let p = policy_with(
        o,
        request("GET", &[("authorization", "x")]),
        response(200, &[("cache-control", "pre-check=0, post-check=0, must-revalidate, max-age=30")]),
    );
    assert!(p.is_storable());
    assert!(p.is_stale(NOW + 40));
    assert!(!p.satisfies_without_revalidation(&request("GET", &[("authorization", "x"), ("cache-control", "max-stale")]), NOW + 40));
    let p = policy_with(o, request("GET", &[]), response(200, &[("cache-control", "pre-check=0, post-check=0, max-age=30")]));
    assert!(p.is_storable());
    assert_eq!(p.max_age(), 30);
}
