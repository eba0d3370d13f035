use http_cache_semantics::{CacheOptions, CachePolicy, Headers, RequestSnapshot, ResponseSnapshot};

const NOW: u64 = 1_700_000_000;

fn headers(pairs: &[(&str, &str)]) -> Headers {
    let mut h = Headers::new();
    for (k, v) in pairs {
        h.append(k.as_bytes(), v.as_bytes());
    }
    h
}

fn request_to(method: &str, url: &str, pairs: &[(&str, &str)]) -> RequestSnapshot {
    RequestSnapshot { method: method.as_bytes().to_vec(), url: url.as_bytes().to_vec(), headers: headers(pairs) }
}

fn request(pairs: &[(&str, &str)]) -> RequestSnapshot {
    request_to("GET", "/", pairs)
}

fn response(status: u16, pairs: &[(&str, &str)]) -> ResponseSnapshot {
    ResponseSnapshot { status, headers: headers(pairs) }
}

fn policy(req: &RequestSnapshot, res: &ResponseSnapshot) -> CachePolicy {
    CacheOptions::default().policy_for(req, res, NOW)
}

fn header_text(h: &Headers, name: &str) -> Option<String> {
    h.get(name.as_bytes()).map(|v| String::from_utf8(v).unwrap())
}

const URL: &str = "/Protocols/rfc2616/rfc2616-sec14.html";
const ETAG: &str = "\"123456789\"";
const LAST_MODIFIED: &str = "Tue, 15 Nov 1994 12:45:26 GMT";

fn simple_request() -> RequestSnapshot {
    request_to("GET", URL, &[("host", "www.w3c.org"), ("connection", "close"), ("x-custom", "yes")])
}

fn simple_request_with(method: &str, url: &str, extra: &[(&str, &str)]) -> RequestSnapshot {
    let mut r = simple_request();
    r.method = method.as_bytes().to_vec();
    r.url = url.as_bytes().to_vec();
    for (k, v) in extra {
        r.headers.set(k.as_bytes(), v.as_bytes());
    }
    r
}

fn cacheable_response() -> ResponseSnapshot {
    response(200, &[("cache-control", "max-age=111")])
}

fn etagged_response() -> ResponseSnapshot {
    response(200, &[("etag", ETAG), ("cache-control", "max-age=111")])
}

fn weak_tagged_response() -> ResponseSnapshot {
    response(200, &[("etag", "W/\"123456789\""), ("cache-control", "max-age=111")])
}

fn last_modified_response() -> ResponseSnapshot {
    response(200, &[("last-modified", LAST_MODIFIED), ("cache-control", "max-age=111")])
}

fn multi_validator_response() -> ResponseSnapshot {
    response(200, &[("etag", ETAG), ("last-modified", LAST_MODIFIED), ("cache-control", "max-age=111")])
}

fn assert_headers_passed(h: &Headers) {
    assert_eq!(header_text(h, "connection"), None);
    assert_eq!(header_text(h, "x-custom").as_deref(), Some("yes"));
}

fn assert_no_validators(h: &Headers) {
    assert_eq!(header_text(h, "if-none-match"), None);
    assert_eq!(header_text(h, "if-modified-since"), None);
}

#[test]
fn test_ok_if_method_changes_to_head() {
    let p = policy(&simple_request(), &etagged_response());
    let h = p.revalidation_headers(&simple_request_with("GET", URL, &[("method", "HEAD")]));
    assert_headers_passed(&h);
    assert_eq!(header_text(&h, "if-none-match").as_deref(), Some(ETAG));
}

#[test]
fn test_not_if_method_mismatch_other_than_head() {
    let p = policy(&simple_request(), &etagged_response());
    let h = p.revalidation_headers(&simple_request_with("POST", URL, &[]));
    assert_headers_passed(&h);
    // The stored validators go along even where the stored response does not fit.
    assert_eq!(header_text(&h, "if-none-match").as_deref(), Some(ETAG));
}

#[test]
fn test_not_if_url_mismatch() {
    let p = policy(&simple_request(), &etagged_response());
    let h = p.revalidation_headers(&simple_request_with("GET", "/yomomma", &[]));
    assert_headers_passed(&h);
    // The stored validators go along even where the stored response does not fit.
    assert_eq!(header_text(&h, "if-none-match").as_deref(), Some(ETAG));
}

#[test]
fn test_not_if_host_mismatch() {
    let p = policy(&simple_request(), &etagged_response());
    let h = p.revalidation_headers(&simple_request_with("GET", URL, &[("host", "www.w4c.org")]));
    // The stored validators go along even where the stored response does not fit.
    assert_eq!(header_text(&h, "if-none-match").as_deref(), Some(ETAG));
}

#[test]
fn test_not_if_vary_fields_prevent() {
    let p = policy(&simple_request(), &response(200, &[("etag", ETAG), ("vary", "x-custom"), ("cache-control", "max-age=111")]));
    let h = p.revalidation_headers(&simple_request_with("GET", URL, &[("x-custom", "no")]));
    // The stored validators go along even where the stored response does not fit.
    assert_eq!(header_text(&h, "if-none-match").as_deref(), Some(ETAG));
}

#[test]
fn test_when_entity_tag_validator_is_present() {
    let p = policy(&simple_request(), &etagged_response());
    let h = p.revalidation_headers(&simple_request());
    assert_headers_passed(&h);
    assert_eq!(header_text(&h, "if-none-match").as_deref(), Some(ETAG));
}

#[test]
fn test_skips_weak_validators_on_post() {
    let post = simple_request_with("POST", URL, &[("if-none-match", "W/\"weak\", \"strong\", W/\"weak2\"")]);
    let p = policy(&post, &etagged_response());
    let h = p.revalidation_headers(&post);
    assert_eq!(header_text(&h, "if-none-match").as_deref(), Some("\"strong\", \"123456789\""));
    assert_eq!(header_text(&h, "if-modified-since"), None);
}

#[test]
fn test_skips_weak_validators_on_post_2() {
    let post = simple_request_with("POST", URL, &[("if-none-match", "W/\"weak\"")]);
    let p = policy(&post, &last_modified_response());
    let h = p.revalidation_headers(&post);
    assert_eq!(header_text(&h, "if-none-match"), None);
    assert_eq!(header_text(&h, "if-modified-since"), None);
}

#[test]
fn test_merges_validators() {
    let req = simple_request_with("GET", URL, &[("if-none-match", "W/\"weak\", \"strong\", W/\"weak2\"")]);
    let p = policy(&req, &etagged_response());
    let h = p.revalidation_headers(&req);
    assert_eq!(
        header_text(&h, "if-none-match").as_deref(),
        Some("W/\"weak\", \"strong\", W/\"weak2\", \"123456789\"")
    );
}

#[test]
fn test_when_last_modified_validator_is_present() {
    let p = policy(&simple_request(), &last_modified_response());
    let h = p.revalidation_headers(&simple_request());
    assert_headers_passed(&h);
    assert_eq!(header_text(&h, "if-modified-since").as_deref(), Some(LAST_MODIFIED));
    assert_eq!(header_text(&h, "warning"), None);
}

#[test]
fn test_not_without_validators() {
    let p = policy(&simple_request(), &cacheable_response());
    let h = p.revalidation_headers(&simple_request());
    assert_headers_passed(&h);
    assert_no_validators(&h);
}

#[test]
fn test_removes_warnings() {
    let p = policy(&request(&[]), &response(200, &[("warning", "199 test danger, 200 ok ok")]));
    assert_eq!(header_text(&p.response_headers(NOW), "warning").as_deref(), Some("200 ok ok"));
}

#[test]
fn test_must_contain_any_etag() {
    let p = policy(&simple_request(), &multi_validator_response());
    let h = p.revalidation_headers(&simple_request());
    assert_eq!(header_text(&h, "if-none-match").as_deref(), Some(ETAG));
}

#[test]
fn test_merges_etags() {
    let p = policy(&simple_request(), &etagged_response());
    let h = p.revalidation_headers(&simple_request_with("GET", URL, &[("host", "www.w3c.org"), ("if-none-match", "\"foo\", \"bar\"")]));
    assert_eq!(header_text(&h, "if-none-match").as_deref(), Some("\"foo\", \"bar\", \"123456789\""));
}

#[test]
fn test_should_send_the_last_modified_value() {
    let p = policy(&simple_request(), &multi_validator_response());
    let h = p.revalidation_headers(&simple_request());
    assert_eq!(header_text(&h, "if-modified-since").as_deref(), Some(LAST_MODIFIED));
}

#[test]
fn stored_last_modified_replaces_the_request_one() {
    let req = simple_request_with("GET", URL, &[("if-modified-since", "Mon, 07 Mar 2016 11:52:56 GMT")]);
    let p = policy(&simple_request(), &last_modified_response());
    let h = p.revalidation_headers(&req);
    assert_eq!(header_text(&h, "if-modified-since").as_deref(), Some(LAST_MODIFIED));
    let p = policy(&simple_request(), &etagged_response());
    let h = p.revalidation_headers(&simple_request_with("GET", "/elsewhere", &[]));
    assert_eq!(header_text(&h, "if-none-match").as_deref(), Some(ETAG));
    assert_eq!(header_text(&h, "if-modified-since"), None);
}

#[test]
fn test_should_not_send_the_last_modified_value_for_post() {
    let post = simple_request_with("POST", URL, &[("if-modified-since", "yesterday")]);
    let p = policy(&post, &last_modified_response());
    let h = p.revalidation_headers(&post);
    assert_eq!(header_text(&h, "if-modified-since"), None);
}

#[test]
fn test_should_not_send_the_last_modified_value_for_range_request() {
    let req = simple_request_with("GET", URL, &[("accept-ranges", "1-3")]);
    let p = policy(&req, &last_modified_response());
    let h = p.revalidation_headers(&req);
    // GET is safe, so the weak `Last-Modified` validator is still sent.
    assert_eq!(header_text(&h, "if-modified-since").as_deref(), Some(LAST_MODIFIED));
    let post = simple_request_with("POST", URL, &[("accept-ranges", "1-3")]);
    assert_eq!(header_text(&p.revalidation_headers(&post), "if-modified-since"), None);
}

#[test]
fn test_when_urls_match() {
    let p = policy(&request_to("GET", "/", &[]), &response(200, &[("cache-control", "max-age=2")]));
    assert_eq!(p.satisfies_without_revalidation(&request_to("GET", "/", &[]), NOW), true);
}

#[test]
fn test_when_expires_is_present() {
    let expires = "Tue, 14 Nov 2023 22:13:22 GMT";
    let p = policy(&request(&[]), &response(302, &[("expires", expires)]));
    assert_eq!(p.satisfies_without_revalidation(&request(&[]), NOW), true);
}

#[test]
fn test_not_when_urls_mismatch() {
    let p = policy(&request_to("GET", "/foo", &[]), &response(200, &[("cache-control", "max-age=2")]));
    assert_eq!(p.satisfies_without_revalidation(&request_to("GET", "/foo?bar", &[]), NOW), false);
}

#[test]
fn test_when_methods_match() {
    let p = policy(&request(&[]), &response(200, &[("cache-control", "'max-age=2")]));
    // `'max-age` is an unknown directive, so the response has no freshness.
    assert_eq!(p.satisfies_without_revalidation(&request(&[]), NOW), false);
    let p = policy(&request(&[]), &response(200, &[("cache-control", "max-age=2")]));
    assert_eq!(p.satisfies_without_revalidation(&request(&[]), NOW), true);
}

#[test]
fn test_not_when_hosts_mismatch() {
    let p = policy(&request(&[("host", "foo")]), &response(200, &[("cache-control", "max-age=2")]));
    assert_eq!(p.satisfies_without_revalidation(&request(&[("host", "foo")]), NOW), true);
    assert_eq!(p.satisfies_without_revalidation(&request(&[("host", "foofoo")]), NOW), false);
}

#[test]
fn test_when_methods_match_head() {
    let p = policy(&request_to("HEAD", "/", &[]), &response(200, &[("cache-control", "max-age=2")]));
    assert_eq!(p.satisfies_without_revalidation(&request_to("HEAD", "/", &[]), NOW), true);
}

#[test]
fn test_not_when_methods_mismatch() {
    let p = policy(&request_to("POST", "/", &[]), &response(200, &[("cache-control", "max-age=2")]));
    assert_eq!(p.satisfies_without_revalidation(&request_to("GET", "/", &[]), NOW), false);
}

#[test]
fn test_not_when_methods_mismatch_head() {
    let p = policy(&request_to("HEAD", "/", &[]), &response(200, &[("cache-control", "max-age=2")]));
    assert_eq!(p.satisfies_without_revalidation(&request_to("GET", "/", &[]), NOW), false);
}

#[test]
fn test_not_when_proxy_revalidating() {
    let p = policy(&request(&[]), &response(200, &[("cache-control", "max-age=2, proxy-revalidate ")]));
    assert_eq!(p.satisfies_without_revalidation(&request(&[]), NOW), false);
}

#[test]
fn test_when_not_a_proxy_revalidating() {
    let o = CacheOptions { shared: false, ..CacheOptions::default() };
    let p = o.policy_for(&request(&[]), &response(200, &[("cache-control", "max-age=2, proxy-revalidate ")]), NOW);
    assert_eq!(p.satisfies_without_revalidation(&request(&[]), NOW), true);
}

#[test]
fn test_not_when_no_cache_requesting() {
    let o = CacheOptions { shared: false, ..CacheOptions::default() };
    let p = o.policy_for(&request(&[]), &response(200, &[("cache-control", "max-age=2")]), NOW);
    assert_eq!(p.satisfies_without_revalidation(&request(&[("cache-control", "fine")]), NOW), true);
    assert_eq!(p.satisfies_without_revalidation(&request(&[("cache-control", "no-cache")]), NOW), false);
    assert_eq!(p.satisfies_without_revalidation(&request(&[("pragma", "no-cache")]), NOW), false);
}

fn revalidate(first: ResponseSnapshot, second: ResponseSnapshot) -> (bool, CachePolicy) {
    let p = policy(&simple_request(), &first);
    let mut req = simple_request();
    let fresh = p.is_cached_response_fresh(&mut req, NOW + 1000);
    assert!(!fresh);
    p.is_cached_response_valid(&req, &second, NOW + 1000)
}

fn with(mut r: ResponseSnapshot, pairs: &[(&str, &str)]) -> ResponseSnapshot {
    for (k, v) in pairs {
        r.headers.set(k.as_bytes(), v.as_bytes());
    }
    r
}

fn assert_updates(first: ResponseSnapshot, second: ResponseSnapshot) {
    let first = with(first, &[("foo", "stored"), ("x-other", "stored")]);
    let second = with(second, &[("foo", "updated")]);
    let expected_etag = header_text(&second.headers, "etag");
    let (valid, updated) = revalidate(first, second);
    assert!(valid);
    let h = updated.response_headers(NOW + 1000);
    assert_eq!(header_text(&h, "foo").as_deref(), Some("updated"));
    assert_eq!(header_text(&h, "etag"), expected_etag);
    assert_eq!(updated.response().status, 200);
    assert!(!updated.is_stale(NOW + 1000));
}

#[test]
fn test_matching_etags_are_updated() {
    assert_updates(etagged_response(), response(304, &[("etag", ETAG), ("cache-control", "max-age=111")]));
}

#[test]
fn test_matching_weak_etags_are_updated() {
    assert_updates(weak_tagged_response(), response(304, &[("etag", "W/\"123456789\""), ("cache-control", "max-age=111")]));
}

#[test]
fn test_matching_last_mod_are_updated() {
    assert_updates(last_modified_response(), response(304, &[("last-modified", LAST_MODIFIED), ("cache-control", "max-age=111")]));
}

#[test]
fn test_both_matching_are_updated() {
    assert_updates(
        multi_validator_response(),
        response(304, &[("etag", ETAG), ("last-modified", LAST_MODIFIED), ("cache-control", "max-age=111")]),
    );
}

#[test]
fn test_check_status() {
    let (valid, _) = revalidate(etagged_response(), response(200, &[("etag", ETAG)]));
    assert!(valid);
    let (valid, updated) = revalidate(etagged_response(), response(404, &[("etag", "\"other\"")]));
    assert!(!valid);
    assert_eq!(updated.response().status, 404);
}

#[test]
fn test_last_mod_ignored_if_etag_is_wrong() {
    let (valid, _) = revalidate(multi_validator_response(), response(200, &[("etag", "bad"), ("last-modified", LAST_MODIFIED)]));
    assert!(!valid);
}

#[test]
fn test_ignored_if_validator_is_missing() {
    let (valid, _) = revalidate(etagged_response(), response(200, &[]));
    assert!(!valid);
}

#[test]
fn test_skips_update_of_content_length() {
    let first = with(etagged_response(), &[("content-length", "1")]);
    let (valid, updated) = revalidate(first, response(304, &[("etag", ETAG), ("content-length", "2")]));
    assert!(valid);
    assert_eq!(header_text(&updated.response().headers, "content-length").as_deref(), Some("1"));
}

#[test]
fn test_ignored_if_validator_is_different() {
    let (valid, _) = revalidate(last_modified_response(), response(200, &[("last-modified", "Tue, 15 Nov 1994 12:45:27 GMT")]));
    assert!(!valid);
}

#[test]
fn test_ignored_if_validator_does_not_match() {
    let (valid, _) = revalidate(etagged_response(), response(200, &[("etag", "\"different\"")]));
    assert!(!valid);
}

#[test]
fn test_vary_basic() {
    let p = policy(&request(&[("weather", "nice")]), &response(200, &[("cache-control", "max-age=5"), ("vary", "weather")]));
    assert_eq!(p.satisfies_without_revalidation(&request(&[("weather", "nice")]), NOW), true);
    assert_eq!(p.satisfies_without_revalidation(&request(&[("weather", "bad")]), NOW), false);
}

#[test]
fn test_asterisks_does_not_match() {
    let p = policy(&request(&[("weather", "ok")]), &response(200, &[("cache-control", "max-age=5"), ("vary", "*")]));
    assert_eq!(p.satisfies_without_revalidation(&request(&[("weather", "ok")]), NOW), false);
}

#[test]
fn test_asterisks_is_stale() {
    let policy_one = policy(&request(&[("weather", "ok")]), &response(200, &[("cache-control", "public,max-age=99"), ("vary", "*")]));
    let policy_two = policy(&request(&[("weather", "ok")]), &response(200, &[("cache-control", "public,max-age=99"), ("vary", "weather")]));
    assert_eq!(policy_one.is_stale(NOW), true);
    assert_eq!(policy_two.is_stale(NOW), false);
}

#[test]
fn test_values_are_case_sensitive() {
    let p = policy(&request(&[("weather", "BAD")]), &response(200, &[("cache-control", "public,max-age=5"), ("vary", "Weather")]));
    assert_eq!(p.satisfies_without_revalidation(&request(&[("weather", "BAD")]), NOW), true);
    assert_eq!(p.satisfies_without_revalidation(&request(&[("weather", "bad")]), NOW), false);
}

#[test]
fn test_irrelevant_headers_ignored() {
    let p = policy(&request(&[("weather", "nice")]), &response(200, &[("cache-control", "max-age=5"), ("vary", "moon-phase")]));
    assert_eq!(p.satisfies_without_revalidation(&request(&[("weather", "bad")]), NOW), true);
    assert_eq!(p.satisfies_without_revalidation(&request(&[("weather", "shining")]), NOW), true);
    assert_eq!(p.satisfies_without_revalidation(&request(&[("moon-phase", "full")]), NOW), false);
}

#[test]
fn test_absence_is_meaningful() {
    let p = policy(&request(&[("weather", "nice")]), &response(200, &[("cache-control", "max-age=5"), ("vary", "moon-phase, weather")]));
    assert_eq!(p.satisfies_without_revalidation(&request(&[("weather", "nice")]), NOW), true);
    assert_eq!(p.satisfies_without_revalidation(&request(&[("weather", "nice"), ("moon-phase", "")]), NOW), false);
    assert_eq!(p.satisfies_without_revalidation(&request(&[]), NOW), false);
}

#[test]
fn test_all_values_must_match() {
    let p = policy(&request(&[("sun", "shining"), ("weather", "nice")]), &response(200, &[("cache-control", "max-age=5"), ("vary", "weather, sun")]));
    assert_eq!(p.satisfies_without_revalidation(&request(&[("sun", "shining"), ("weather", "nice")]), NOW), true);
    assert_eq!(p.satisfies_without_revalidation(&request(&[("sun", "shining"), ("weather", "bad")]), NOW), false);
}

#[test]
fn test_whitespace_is_okay() {
    let p = policy(&request(&[("sun", "shining"), ("weather", "nice")]), &response(200, &[("cache-control", "max-age=5"), ("vary", "    weather       ,     sun     ")]));
    assert_eq!(p.satisfies_without_revalidation(&request(&[("sun", "shining"), ("weather", "nice")]), NOW), true);
    assert_eq!(p.satisfies_without_revalidation(&request(&[("weather", "nice")]), NOW), false);
    assert_eq!(p.satisfies_without_revalidation(&request(&[("sun", "shining")]), NOW), false);
}

#[test]
fn test_order_is_irrelevant() {
    let stored = request(&[("sun", "shining"), ("weather", "nice")]);
    let policy_one = policy(&stored, &response(200, &[("cache-control", "max-age=5"), ("vary", "weather, sun")]));
    let policy_two = policy(&stored, &response(200, &[("cache-control", "max-age=5"), ("vary", "sun, weather")]));
    assert_eq!(policy_one.satisfies_without_revalidation(&request(&[("weather", "nice"), ("sun", "shining")]), NOW), true);
    assert_eq!(policy_one.satisfies_without_revalidation(&request(&[("sun", "shining"), ("weather", "nice")]), NOW), true);
    assert_eq!(policy_two.satisfies_without_revalidation(&request(&[("weather", "nice"), ("sun", "shining")]), NOW), true);
    assert_eq!(policy_two.satisfies_without_revalidation(&request(&[("sun", "shining"), ("weather", "nice")]), NOW), true);
}
