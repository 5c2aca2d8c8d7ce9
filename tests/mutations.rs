use rustformations::{
    decode_headers, header, render, request_header, substring, Filter, FilterConfig, HeaderMap,
    HeadersStatus, PerRouteConfig, PhaseError, RenderContext, RenderError, SubstringError,
};

fn rules(pairs: &[(&str, &str)]) -> Vec<(String, String)> {
    pairs.iter().map(|(k, v)| (k.to_string(), v.to_string())).collect()
}

fn raw(pairs: &[(&str, &str)]) -> Vec<(Vec<u8>, Vec<u8>)> {
    pairs.iter().map(|(k, v)| (k.as_bytes().to_vec(), v.as_bytes().to_vec())).collect()
}

fn host_headers() -> Vec<(Vec<u8>, Vec<u8>)> {
    raw(&[("host", "example.com"), ("x-donor", "thedonorvalue")])
}

fn global_filter(request: &[(&str, &str)], response: &[(&str, &str)]) -> Filter {
    FilterConfig::new(rules(request), rules(response), Vec::new()).new_http_filter()
}

fn args(a: &[&str]) -> Vec<String> {
    a.iter().map(|s| s.to_string()).collect()
}

fn map(pairs: &[(&str, &str)]) -> HeaderMap {
    let mut m = HeaderMap::new();
    for (k, v) in pairs {
        m.insert(k.to_string(), v.to_string());
    }
    m
}

#[test]
fn test_injected_functions() {
    let filter = global_filter(
        &[
            ("X-substring", "{{substring(\"ENVOYPROXY something\", 5, 10) }}"),
            ("X-substring-no-3rd", "{{substring(\"ENVOYPROXY something\", 5) }}"),
            ("X-donor-header-contents", "{{ header(\"x-donor\") }}"),
            ("X-donor-header-substringed", "{{ substring( header(\"x-donor\"), 0, 7)}}"),
        ],
        &[("X-Bar", "foo")],
    );
    let out = filter.on_request_headers(true, &host_headers(), &None);
    assert_eq!(out.status, HeadersStatus::Continue);
    assert_eq!(
        out.writes,
        rules(&[
            ("X-substring", "PROXY"),
            ("X-substring-no-3rd", "PROXY something"),
            ("X-donor-header-contents", "thedonorvalue"),
            ("X-donor-header-substringed", "thedono"),
        ])
    );
    let out = filter.on_response_headers(true, &host_headers(), &host_headers(), &None);
    assert_eq!(out.status, HeadersStatus::Continue);
    assert_eq!(out.writes, rules(&[("X-Bar", "foo")]));
    assert_eq!(out.writes[0].1.as_bytes(), b"foo");
}

#[test]
fn test_minininja_functionality() {
    let filter = global_filter(
        &[("X-if-truth", "{%- if true -%}supersuper{% endif %}")],
        &[("X-Bar", "foo")],
    );
    let out = filter.on_request_headers(false, &host_headers(), &None);
    assert_eq!(out.status, HeadersStatus::StopIteration);
    assert!(out.writes.is_empty());
    let out = filter.on_request_headers(true, &host_headers(), &None);
    assert_eq!(out.status, HeadersStatus::Continue);
    assert_eq!(out.writes, rules(&[("X-if-truth", "supersuper")]));
    let out = filter.on_response_headers(true, &host_headers(), &host_headers(), &None);
    assert_eq!(out.status, HeadersStatus::Continue);
    assert_eq!(out.writes, rules(&[("X-Bar", "foo")]));
}

#[test]
fn substring_two_arguments_cut_byte_range() {
    assert_eq!(substring("ENVOYPROXY something", &args(&["5", "10"])), Ok("PROXY".to_string()));
    assert_eq!(substring("abc", &args(&["1", "1"])), Ok(String::new()));
    assert_eq!(substring("abc", &args(&["0", "3"])), Ok("abc".to_string()));
}

#[test]
fn substring_one_argument_runs_to_end() {
    assert_eq!(substring("ENVOYPROXY something", &args(&["5"])), Ok("PROXY something".to_string()));
    assert_eq!(substring("abc", &args(&["3"])), Ok(String::new()));
}

#[test]
fn substring_without_or_with_many_arguments_keeps_input() {
    assert_eq!(substring("abcdef", &args(&[])), Ok("abcdef".to_string()));
    assert_eq!(substring("abcdef", &args(&["1", "2", "3"])), Ok("abcdef".to_string()));
}

#[test]
fn substring_unreadable_bounds_fall_back() {
    assert_eq!(substring("abcdef", &args(&["x", "2"])), Ok("ab".to_string()));
    assert_eq!(substring("abcdef", &args(&["2", "y"])), Ok("cdef".to_string()));
    assert_eq!(substring("abcdef", &args(&["+2", "-1"])), Ok("cdef".to_string()));
}

#[test]
fn substring_rejects_bad_ranges() {
    assert_eq!(substring("abc", &args(&["2", "1"])), Err(SubstringError::InvalidRange));
    assert_eq!(substring("abc", &args(&["0", "4"])), Err(SubstringError::InvalidRange));
    assert_eq!(substring("abc", &args(&["4"])), Err(SubstringError::InvalidRange));
    // "é" takes two bytes: offset 1 falls inside it.
    assert_eq!(substring("éa", &args(&["1"])), Err(SubstringError::InvalidRange));
    assert_eq!(substring("éa", &args(&["2"])), Ok("a".to_string()));
}

#[test]
fn header_lookups_default_to_empty() {
    let ctx = RenderContext::new(Some(map(&[("x-donor", "thedonorvalue")])), None);
    assert_eq!(header(&ctx, "x-donor"), "thedonorvalue");
    assert_eq!(header(&ctx, "x-missing"), "");
    assert_eq!(request_header(&ctx, "x-donor"), "");
    let ctx = RenderContext::new(None, Some(map(&[("x-req", "v")])));
    assert_eq!(header(&ctx, "x-req"), "");
    assert_eq!(request_header(&ctx, "x-req"), "v");
}

#[test]
fn header_map_insert_replaces() {
    let mut m = map(&[("a", "1"), ("b", "2")]);
    m.insert("a".to_string(), "3".to_string());
    assert_eq!(m.len(), 2);
    assert_eq!(m.get("a"), Some(&"3".to_string()));
    assert_eq!(m.get("c"), None);
}

#[test]
fn decode_headers_policy() {
    let mut pairs = raw(&[("a", "1"), ("a", "2")]);
    pairs.push((vec![0xff], vec![0xff]));
    let m = decode_headers(&pairs).unwrap();
    assert_eq!(m.len(), 1);
    assert_eq!(m.get("a"), Some(&"2".to_string()));
    let bad = vec![(b"a".to_vec(), vec![0xc3])];
    assert!(decode_headers(&bad).is_err());
}

#[test]
fn render_pure_literal_and_variables() {
    let ctx = RenderContext::new(Some(map(&[("host", "example.com")])), None);
    assert_eq!(render("foo", &ctx), Ok("foo".to_string()));
    assert_eq!(render("{{ headers.host }}", &ctx), Ok("example.com".to_string()));
    assert_eq!(render("{{ substring(\"abc\", 5) }}", &ctx), Err(RenderError::Failed));
    assert_eq!(render("{% if %}", &ctx), Err(RenderError::Failed));
}

#[test]
fn later_rule_wins() {
    let filter = global_filter(&[("X-A", "first"), ("X-A", "second")], &[]);
    let out = filter.on_request_headers(true, &host_headers(), &None);
    assert_eq!(out.writes, rules(&[("X-A", "first"), ("X-A", "second")]));
    assert_eq!(out.writes.last().unwrap().1, "second");
}

#[test]
fn failing_rule_is_skipped() {
    let filter = global_filter(&[("X-A", "{{ substring(\"abc\", 2, 1) }}"), ("X-B", "ok")], &[]);
    let out = filter.on_request_headers(true, &host_headers(), &None);
    assert_eq!(out.error, None);
    assert_eq!(out.writes, rules(&[("X-B", "ok")]));
}

fn routed_filter() -> Filter {
    let route = PerRouteConfig {
        request_headers_setter: rules(&[("X-Route", "{{ header(\"host\") }}")]),
        response_headers_setter: rules(&[("X-Route-Resp", "{{ request_header(\"x-donor\") }}")]),
    };
    FilterConfig::new(
        rules(&[("X-Global", "g")]),
        rules(&[("X-Global-Resp", "g")]),
        vec![("r1".to_string(), Some(route)), ("broken".to_string(), None)],
    )
    .new_http_filter()
}

#[test]
fn route_rules_replace_global_rules() {
    let filter = routed_filter();
    assert!(filter.needs_route());
    let route = Some(b"r1".to_vec());
    let out = filter.on_request_headers(true, &host_headers(), &route);
    assert_eq!(out.writes, rules(&[("X-Route", "example.com")]));
    let resp = raw(&[("server", "s")]);
    let out = filter.on_response_headers(true, &resp, &host_headers(), &route);
    assert_eq!(out.writes, rules(&[("X-Route-Resp", "thedonorvalue")]));
}

#[test]
fn route_errors_leave_headers_alone() {
    let filter = routed_filter();
    let out = filter.on_request_headers(true, &host_headers(), &None);
    assert_eq!(out.status, HeadersStatus::Continue);
    assert_eq!(out.error, Some(PhaseError::MissingRoute));
    assert!(out.writes.is_empty());
    let out = filter.on_request_headers(true, &host_headers(), &Some(b"broken".to_vec()));
    assert_eq!(out.error, Some(PhaseError::UnknownRoute));
    let out = filter.on_response_headers(true, &host_headers(), &host_headers(), &Some(vec![0xff]));
    assert_eq!(out.error, Some(PhaseError::UnknownRoute));
    assert!(out.writes.is_empty());
}

#[test]
fn no_route_rules_means_no_route_needed() {
    assert!(!global_filter(&[("a", "b")], &[]).needs_route());
}

#[test]
fn invalid_header_value_stops_phase() {
    let filter = global_filter(&[("X-A", "a")], &[("X-B", "b")]);
    let bad = vec![(b"k".to_vec(), vec![0xff])];
    let out = filter.on_request_headers(true, &bad, &None);
    assert_eq!(out.error, Some(PhaseError::InvalidHeaderValue));
    assert!(out.writes.is_empty());
    let out = filter.on_response_headers(true, &host_headers(), &bad, &None);
    assert_eq!(out.error, Some(PhaseError::InvalidHeaderValue));
}

#[test]
fn response_phase_ignores_end_of_stream() {
    let filter = global_filter(&[], &[("X-Bar", "foo")]);
    let a = filter.on_response_headers(false, &host_headers(), &host_headers(), &None);
    let b = filter.on_response_headers(true, &host_headers(), &host_headers(), &None);
    assert_eq!(a.status, HeadersStatus::Continue);
    assert_eq!(a.writes, b.writes);
    assert_eq!(a.writes, rules(&[("X-Bar", "foo")]));
}

#[test]
fn nested_call_on_donor_header() {
    let filter = global_filter(&[("X-donor-header-substringed", "{{ substring(header(\"x-donor\"), 0, 7)}}")], &[]);
    let out = filter.on_request_headers(true, &host_headers(), &None);
    assert_eq!(out.writes, rules(&[("X-donor-header-substringed", "thedono")]));
}
