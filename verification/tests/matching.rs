use inbound_policy::matching::{
    InvalidHost, MatchHeader, MatchHost, MatchPath, MatchQueryParam, MatchRequest,
};
use inbound_policy::request::Request;
use inbound_policy::routes::HttpRouteMatch;
use inbound_policy::specificity::{HostMatch, PathMatch, RequestMatch};
use inbound_policy::text::{chars_of, ends_with, find_char, is_under, starts_with};

fn s(text: &str) -> String {
    text.to_string()
}

#[test]
fn host_pattern_errors() {
    assert_eq!(MatchHost::parse(""), Err(InvalidHost::Empty));
    assert_eq!(MatchHost::parse("*"), Ok(MatchHost::Suffix { suffix: s("") }));
    assert_eq!(MatchHost::parse("**"), Err(InvalidHost::Wildcard));
    assert_eq!(MatchHost::parse("*."), Err(InvalidHost::Wildcard));
    assert_eq!(MatchHost::parse("foo.*.com"), Err(InvalidHost::Wildcard));
    assert_eq!(MatchHost::parse("*.foo.*"), Err(InvalidHost::Wildcard));
    assert_eq!(MatchHost::parse("*foo.com"), Err(InvalidHost::Wildcard));
    assert_eq!(MatchHost::parse("*.c"), Ok(MatchHost::Suffix { suffix: s("c") }));
    assert_eq!(MatchHost::parse("c"), Ok(MatchHost::Exact(s("c"))));
}

#[test]
fn exact_host_gives_its_length() {
    let m = MatchHost::Exact(s("foo.example.com"));
    assert_eq!(m.summarize_match(&s("foo.example.com")), Some(HostMatch::Exact(15)));
    assert_eq!(m.summarize_match(&s("bar.example.com")), None);
    assert_eq!(m.summarize_match(&s("example.com")), None);
}

#[test]
fn wildcard_host_needs_a_label_before_the_suffix() {
    let m = MatchHost::Suffix { suffix: s("example.com") };
    assert_eq!(m.summarize_match(&s("foo.example.com")), Some(HostMatch::Suffix(11)));
    assert_eq!(m.summarize_match(&s("a.b.example.com")), Some(HostMatch::Suffix(11)));
    assert_eq!(m.summarize_match(&s("example.com")), None);
    assert_eq!(m.summarize_match(&s(".example.com")), None);
    assert_eq!(m.summarize_match(&s("fooexample.com")), None);
    assert_eq!(m.summarize_match(&s("foo.example.org")), None);
}

#[test]
fn wildcard_alone_admits_every_host() {
    let m = MatchHost::Suffix { suffix: s("") };
    assert_eq!(m.summarize_match(&s("example.com")), Some(HostMatch::Suffix(0)));
    assert_eq!(m.summarize_match(&s("c")), Some(HostMatch::Suffix(0)));
    assert_eq!(m.summarize_match(&s("")), None);
}

#[test]
fn host_order() {
    let order = [
        HostMatch::Suffix(0),
        HostMatch::Suffix(3),
        HostMatch::Suffix(100),
        HostMatch::Exact(1),
        HostMatch::Exact(4),
    ];
    for i in 0..order.len() {
        for j in 0..order.len() {
            assert_eq!(order[i].lt(&order[j]), i < j, "{:?} < {:?}", order[i], order[j]);
            assert_eq!(order[i] < order[j], i < j, "{:?} < {:?}", order[i], order[j]);
            assert_eq!(order[i].cmp(&order[j]), i.cmp(&j), "{:?} and {:?}", order[i], order[j]);
        }
    }
    assert!(HostMatch::Suffix(100).lt(&HostMatch::Exact(1)));
    assert!(!HostMatch::Exact(1).lt(&HostMatch::Suffix(100)));
    assert!(HostMatch::Suffix(3).lt(&HostMatch::Suffix(4)));
    assert!(!HostMatch::Suffix(4).lt(&HostMatch::Suffix(4)));
    assert!(HostMatch::Exact(3).lt(&HostMatch::Exact(4)));
    assert!(!HostMatch::Exact(4).lt(&HostMatch::Exact(3)));
}

#[test]
fn path_order() {
    let order = [
        PathMatch::Any,
        PathMatch::Regex(0),
        PathMatch::Regex(9),
        PathMatch::Prefix(0),
        PathMatch::Prefix(1),
        PathMatch::Prefix(9),
        PathMatch::Exact(1),
        PathMatch::Exact(2),
    ];
    for i in 0..order.len() {
        for j in 0..order.len() {
            assert_eq!(order[i].lt(&order[j]), i < j, "{:?} < {:?}", order[i], order[j]);
            assert_eq!(order[i] < order[j], i < j, "{:?} < {:?}", order[i], order[j]);
            assert_eq!(order[i].cmp(&order[j]), i.cmp(&j), "{:?} and {:?}", order[i], order[j]);
        }
    }
}

#[test]
fn request_order_is_by_path_headers_query_method() {
    let base = RequestMatch::default();
    assert_eq!(
        base,
        RequestMatch { path_match: PathMatch::Any, headers: 0, query_params: 0, method: false }
    );
    let method = RequestMatch { method: true, ..base };
    let query = RequestMatch { query_params: 1, ..base };
    let headers = RequestMatch { headers: 1, ..base };
    let path = RequestMatch { path_match: PathMatch::Prefix(1), ..base };
    let order = [base, method, query, headers, path];
    for i in 0..order.len() {
        for j in 0..order.len() {
            assert_eq!(order[i].lt(&order[j]), i < j, "{:?} < {:?}", order[i], order[j]);
            assert_eq!(order[i] < order[j], i < j, "{:?} < {:?}", order[i], order[j]);
            assert_eq!(order[i].cmp(&order[j]), i.cmp(&j), "{:?} and {:?}", order[i], order[j]);
        }
    }
    // Three headers outrank two, whatever else the lesser one has.
    let two = RequestMatch { headers: 2, query_params: 7, method: true, ..base };
    let three = RequestMatch { headers: 3, ..base };
    assert!(two.lt(&three));
    assert!(!three.lt(&two));
}

#[test]
fn route_order_is_by_host_first() {
    let strong = RequestMatch { path_match: PathMatch::Exact(9), headers: 9, query_params: 9, method: true };
    let none = HttpRouteMatch { host: None, request: strong };
    let suffix = HttpRouteMatch { host: Some(HostMatch::Suffix(1)), request: RequestMatch::default() };
    let exact = HttpRouteMatch { host: Some(HostMatch::Exact(1)), request: RequestMatch::default() };
    let exact_strong = HttpRouteMatch { host: Some(HostMatch::Exact(1)), request: strong };
    let order = [none, suffix, exact, exact_strong];
    for i in 0..order.len() {
        for j in 0..order.len() {
            assert_eq!(order[i].lt(&order[j]), i < j, "{:?} < {:?}", order[i], order[j]);
            assert_eq!(order[i] < order[j], i < j, "{:?} < {:?}", order[i], order[j]);
            assert_eq!(order[i].cmp(&order[j]), i.cmp(&j), "{:?} and {:?}", order[i], order[j]);
        }
    }
}

#[test]
fn exact_path() {
    let m = MatchPath::Exact(s("/foo/bar"));
    assert_eq!(m.match_length(&s("/foo/bar")), Some(PathMatch::Exact(8)));
    assert_eq!(m.match_length(&s("/foo/bar/")), None);
    assert_eq!(m.match_length(&s("/foo")), None);
}

#[test]
fn prefix_path_ends_with_a_segment() {
    let m = MatchPath::Prefix(s("/foo"));
    assert_eq!(m.match_length(&s("/foo")), Some(PathMatch::Prefix(4)));
    assert_eq!(m.match_length(&s("/foo/")), Some(PathMatch::Prefix(4)));
    assert_eq!(m.match_length(&s("/foo/bar")), Some(PathMatch::Prefix(4)));
    assert_eq!(m.match_length(&s("/foobar")), None);
    assert_eq!(m.match_length(&s("/fo")), None);
    assert_eq!(m.match_length(&s("/bar/foo")), None);

    let m = MatchPath::Prefix(s("/foo/"));
    assert_eq!(m.match_length(&s("/foo/bar")), Some(PathMatch::Prefix(5)));
    assert_eq!(m.match_length(&s("/foo")), None);

    let m = MatchPath::Prefix(s("/"));
    assert_eq!(m.match_length(&s("/anything/at/all")), Some(PathMatch::Prefix(1)));
    assert_eq!(m.match_length(&s("/")), Some(PathMatch::Prefix(1)));

    let m = MatchPath::Prefix(s(""));
    assert_eq!(m.match_length(&s("/x")), Some(PathMatch::Prefix(0)));
    assert_eq!(m.match_length(&s("")), Some(PathMatch::Prefix(0)));
    assert_eq!(m.match_length(&s("x")), None);
}

#[test]
fn pattern_path_counts_characters() {
    let m = MatchPath::Regex(s("/caf.+"));
    // Six characters, seven bytes.
    assert_eq!(m.match_length(&s("/caf\u{e9}s")), Some(PathMatch::Regex(6)));
    assert_eq!(m.match_length(&s("/caf")), None);
    // The first match ends before the path does.
    let m = MatchPath::Regex(s("/a|/ab"));
    assert_eq!(m.match_length(&s("/ab")), None);
    assert_eq!(m.match_length(&s("/a")), Some(PathMatch::Regex(2)));
}

#[test]
fn cover_takes_only_the_whole_path() {
    assert_eq!(MatchPath::cover(Some((0, 4)), "/foo"), Some(PathMatch::Regex(4)));
    assert_eq!(MatchPath::cover(Some((0, 3)), "/foo"), None);
    assert_eq!(MatchPath::cover(Some((1, 4)), "/foo"), None);
    assert_eq!(MatchPath::cover(None, "/foo"), None);
    assert_eq!(MatchPath::cover(Some((0, 0)), ""), Some(PathMatch::Regex(0)));
    assert_eq!(MatchPath::cover(Some((0, 3)), "/\u{e9}"), Some(PathMatch::Regex(2)));
}

#[test]
fn header_matchers() {
    let headers = vec![(s("x-foo"), s("bar")), (s("x-foo"), s("baz")), (s("x-n"), s("42"))];
    assert!(MatchHeader::Exact(s("x-foo"), s("bar")).is_match(&headers));
    assert!(MatchHeader::Exact(s("x-foo"), s("baz")).is_match(&headers));
    assert!(!MatchHeader::Exact(s("x-foo"), s("42")).is_match(&headers));
    assert!(!MatchHeader::Exact(s("x-bar"), s("bar")).is_match(&headers));
    assert!(MatchHeader::Regex(s("x-n"), s("^[0-9]+$")).is_match(&headers));
    assert!(!MatchHeader::Regex(s("x-foo"), s("^[0-9]+$")).is_match(&headers));
    assert!(MatchHeader::Regex(s("x-foo"), s("z")).is_match(&headers));
    assert!(!MatchHeader::Regex(s("x-foo"), s("(")).is_match(&headers));
    assert!(!MatchHeader::Exact(s("x-foo"), s("bar")).is_match(&vec![]));
}

#[test]
fn query_param_matchers() {
    let params = vec![(s("a"), s("1")), (s("b"), s("two"))];
    assert!(MatchQueryParam::Exact(s("a"), s("1")).is_match(&params));
    assert!(!MatchQueryParam::Exact(s("a"), s("two")).is_match(&params));
    assert!(MatchQueryParam::Regex(s("b"), s("^t.o$")).is_match(&params));
    assert!(!MatchQueryParam::Regex(s("b"), s("^o")).is_match(&params));
}

#[test]
fn request_matcher_needs_every_part() {
    let m = MatchRequest {
        path: Some(MatchPath::Prefix(s("/api"))),
        headers: vec![MatchHeader::Exact(s("x-a"), s("1")), MatchHeader::Exact(s("x-b"), s("2"))],
        query_params: vec![MatchQueryParam::Exact(s("q"), s("v"))],
        method: Some(s("GET")),
    };
    let req = Request {
        method: s("GET"),
        host: None,
        path: s("/api/users"),
        query_params: vec![(s("q"), s("v"))],
        headers: vec![(s("x-b"), s("2")), (s("x-a"), s("1"))],
    };
    assert_eq!(
        m.summarize_match(&req),
        Some(RequestMatch { path_match: PathMatch::Prefix(4), headers: 2, query_params: 1, method: true })
    );
    assert_eq!(m.summarize_match(&Request { method: s("POST"), ..req.clone() }), None);
    assert_eq!(m.summarize_match(&Request { path: s("/apix"), ..req.clone() }), None);
    assert_eq!(m.summarize_match(&Request { query_params: vec![], ..req.clone() }), None);
    assert_eq!(
        m.summarize_match(&Request { headers: vec![(s("x-a"), s("1"))], ..req.clone() }),
        None
    );
    assert_eq!(
        MatchRequest::default().summarize_match(&req),
        Some(RequestMatch::default())
    );
}

#[test]
fn text_helpers() {
    let v = chars_of("a:b:c");
    assert_eq!(v, vec!['a', ':', 'b', ':', 'c']);
    assert_eq!(find_char(&v, ':'), Some(1));
    assert_eq!(find_char(&v, 'x'), None);
    assert!(starts_with(&v, &chars_of("a:")));
    assert!(starts_with(&v, &chars_of("")));
    assert!(!starts_with(&v, &chars_of("b")));
    assert!(!starts_with(&chars_of("a"), &v));
    assert!(ends_with(&v, &chars_of(":c")));
    assert!(!ends_with(&v, &chars_of(":b")));
    assert!(is_under(&chars_of("web.ns.svc"), &chars_of("ns.svc")));
    assert!(!is_under(&chars_of("ns.svc"), &chars_of("ns.svc")));
    assert!(!is_under(&chars_of("webns.svc"), &chars_of("ns.svc")));
}
