use inbound_policy::matching::{MatchHeader, MatchHost, MatchPath, MatchQueryParam, MatchRequest};
use inbound_policy::request::Request;
use inbound_policy::routes::{HttpRoute, HttpRouteMatch, HttpRoutes, HttpRule};
use inbound_policy::specificity::{HostMatch, PathMatch, RequestMatch};

#[derive(Copy, Clone, Debug, PartialEq, Eq)]
pub enum Policy {
    Expected,
    Unexpected,
}

impl Default for Policy {
    fn default() -> Self {
        Self::Unexpected
    }
}

/// The parts of an `http` request that routing reads.
fn plain(req: &http::Request<()>) -> Request {
    let mut query_params = Vec::new();
    if let Some(q) = req.uri().query() {
        for pair in q.split('&') {
            let mut kv = pair.splitn(2, '=');
            let k = kv.next().unwrap_or("").to_string();
            let v = kv.next().unwrap_or("").to_string();
            query_params.push((k, v));
        }
    }
    let mut headers = Vec::new();
    for (name, value) in req.headers().iter() {
        if let Ok(v) = value.to_str() {
            headers.push((name.as_str().to_string(), v.to_string()));
        }
    }
    Request {
        method: req.method().as_str().to_string(),
        host: req.uri().host().map(|h| h.to_string()),
        path: req.uri().path().to_string(),
        query_params,
        headers,
    }
}

fn path_rule(path: MatchPath, policy: Policy) -> HttpRule<Policy> {
    HttpRule {
        matches: vec![MatchRequest {
            path: Some(path),
            ..MatchRequest::default()
        }],
        policy,
    }
}

/// Given two equivalent routes, choose the explicit hostname match and not
/// the wildcard.
#[test]
fn hostname_precedence() {
    let rts = HttpRoutes(
        vec![
            HttpRoute {
                hosts: vec!["*.example.com".parse().unwrap()],
                rules: vec![HttpRule {
                    matches: vec![MatchRequest {
                        path: Some(MatchPath::Exact("/foo".to_string())),
                        ..MatchRequest::default()
                    }],
                    ..HttpRule::default()
                }],
            },
            HttpRoute {
                hosts: vec!["foo.example.com".parse().unwrap()],
                rules: vec![HttpRule {
                    matches: vec![MatchRequest {
                        path: Some(MatchPath::Exact("/foo".to_string())),
                        ..MatchRequest::default()
                    }],
                    policy: Policy::Expected,
                }],
            },
        ]
        .into(),
    );

    let req = http::Request::builder()
        .uri("http://foo.example.com/foo")
        .body(())
        .unwrap();
    let req = plain(&req);
    let (_, policy) = rts.find(&req).expect("must match");
    assert_eq!(*policy, Policy::Expected, "incorrect rule matched");
}

#[test]
fn path_length_precedence() {
    // Given two equivalent routes, choose the longer path match.
    let rts = HttpRoutes(
        vec![
            HttpRoute {
                rules: vec![HttpRule {
                    matches: vec![MatchRequest {
                        path: Some(MatchPath::Prefix("/foo".to_string())),
                        ..MatchRequest::default()
                    }],
                    ..HttpRule::default()
                }],
                ..HttpRoute::default()
            },
            HttpRoute {
                rules: vec![HttpRule {
                    matches: vec![MatchRequest {
                        path: Some(MatchPath::Exact("/foo/bar".to_string())),
                        ..MatchRequest::default()
                    }],
                    policy: Policy::Expected,
                }],
                ..HttpRoute::default()
            },
        ]
        .into(),
    );

    let req = http::Request::builder()
        .uri("http://foo.example.com/foo/bar")
        .body(())
        .unwrap();
    let req = plain(&req);
    let (_, policy) = rts.find(&req).expect("must match");
    assert_eq!(*policy, Policy::Expected, "incorrect rule matched");
}

/// Given two routes with header matches, use the one that matches more
/// headers.
#[test]
fn header_count_precedence() {
    let rts = HttpRoutes(
        vec![
            HttpRoute {
                rules: vec![HttpRule {
                    matches: vec![MatchRequest {
                        headers: vec![
                            MatchHeader::Exact("x-foo".parse().unwrap(), "bar".parse().unwrap()),
                            MatchHeader::Exact("x-baz".parse().unwrap(), "qux".parse().unwrap()),
                        ],
                        ..MatchRequest::default()
                    }],
                    ..HttpRule::default()
                }],
                ..HttpRoute::default()
            },
            HttpRoute {
                rules: vec![HttpRule {
                    matches: vec![MatchRequest {
                        headers: vec![
                            MatchHeader::Exact("x-foo".parse().unwrap(), "bar".parse().unwrap()),
                            MatchHeader::Exact("x-baz".parse().unwrap(), "qux".parse().unwrap()),
                            MatchHeader::Exact("x-biz".parse().unwrap(), "qyx".parse().unwrap()),
                        ],
                        ..MatchRequest::default()
                    }],
                    policy: Policy::Expected,
                }],
                ..HttpRoute::default()
            },
        ]
        .into(),
    );

    let req = http::Request::builder()
        .uri("http://www.example.com")
        .header("x-foo", "bar")
        .header("x-baz", "qux")
        .header("x-biz", "qyx")
        .body(())
        .unwrap();
    let req = plain(&req);
    let (_, policy) = rts.find(&req).expect("must match");
    assert_eq!(*policy, Policy::Expected, "incorrect rule matched");
}

/// Given two identical rules and routes, the first one declared is used.
#[test]
fn first_identical_wins() {
    let rts = HttpRoutes(
        vec![
            HttpRoute {
                rules: vec![
                    HttpRule {
                        policy: Policy::Expected,
                        ..HttpRule::default()
                    },
                    // Redundant rule.
                    HttpRule::default(),
                ],
                ..HttpRoute::default()
            },
            // Redundant unlabeled route.
            HttpRoute {
                rules: vec![HttpRule::default()],
                ..HttpRoute::default()
            },
        ]
        .into(),
    );

    let req = plain(&http::Request::builder().body(()).unwrap());
    let (_, policy) = rts.find(&req).expect("must match");
    assert_eq!(*policy, Policy::Expected, "incorrect rule matched");
}

fn get(uri: &str) -> Request {
    plain(&http::Request::builder().uri(uri).body(()).unwrap())
}

#[test]
fn exact_host_wins_when_declared_first() {
    let exact = HttpRoute {
        hosts: vec!["foo.example.com".parse().unwrap()],
        rules: vec![HttpRule {
            matches: vec![],
            policy: Policy::Expected,
        }],
    };
    let wildcard = HttpRoute {
        hosts: vec!["*.example.com".parse().unwrap()],
        // A far more specific rule does not make up for the weaker host.
        rules: vec![path_rule(MatchPath::Exact("/foo".to_string()), Policy::Unexpected)],
    };
    let rts = HttpRoutes(vec![exact, wildcard]);
    let (m, policy) = rts.find(&get("http://foo.example.com/foo")).expect("must match");
    assert_eq!(*policy, Policy::Expected);
    assert_eq!(
        m,
        HttpRouteMatch {
            host: Some(HostMatch::Exact(15)),
            request: RequestMatch::default(),
        }
    );
}

#[test]
fn any_host_match_outranks_a_route_without_hosts() {
    let rts = HttpRoutes(vec![
        HttpRoute {
            hosts: vec![],
            rules: vec![path_rule(MatchPath::Exact("/foo".to_string()), Policy::Unexpected)],
        },
        HttpRoute {
            hosts: vec!["*.example.com".parse().unwrap()],
            rules: vec![HttpRule {
                matches: vec![],
                policy: Policy::Expected,
            }],
        },
    ]);
    let (m, policy) = rts.find(&get("http://foo.example.com/foo")).expect("must match");
    assert_eq!(*policy, Policy::Expected);
    assert_eq!(m.host, Some(HostMatch::Suffix(11)));
}

#[test]
fn longer_wildcard_suffix_wins() {
    let rts = HttpRoutes(vec![
        HttpRoute {
            hosts: vec!["*.com".parse().unwrap(), "*.example.com".parse().unwrap()],
            rules: vec![HttpRule {
                matches: vec![],
                policy: Policy::Unexpected,
            }],
        },
        HttpRoute {
            hosts: vec!["*.b.example.com".parse().unwrap()],
            rules: vec![HttpRule {
                matches: vec![],
                policy: Policy::Expected,
            }],
        },
    ]);
    let (m, policy) = rts.find(&get("http://a.b.example.com/")).expect("must match");
    assert_eq!(*policy, Policy::Expected);
    assert_eq!(m.host, Some(HostMatch::Suffix(13)));
    let first = rts.0[0].find(&get("http://a.b.example.com/")).expect("must match");
    assert_eq!(first.0.host, Some(HostMatch::Suffix(11)));
}

#[test]
fn route_with_hosts_is_out_when_none_matches() {
    let rts = HttpRoutes(vec![HttpRoute {
        hosts: vec!["foo.example.com".parse().unwrap()],
        rules: vec![HttpRule {
            matches: vec![],
            policy: Policy::Expected,
        }],
    }]);
    assert!(rts.find(&get("http://bar.example.com/")).is_none());
    // A request that names no host matches no host matcher.
    assert!(rts.find(&get("/")).is_none());
    assert!(rts.find(&get("http://foo.example.com/")).is_some());
}

#[test]
fn empty_table_finds_nothing() {
    let rts: HttpRoutes<Policy> = HttpRoutes::default();
    assert!(rts.find(&get("http://foo.example.com/")).is_none());
    let rts: HttpRoutes<Policy> = HttpRoutes(vec![HttpRoute::default()]);
    assert!(rts.find(&get("http://foo.example.com/")).is_none());
}

#[test]
fn rule_takes_its_best_matcher() {
    let rule = HttpRule {
        matches: vec![
            MatchRequest {
                path: Some(MatchPath::Prefix("/foo".to_string())),
                ..MatchRequest::default()
            },
            MatchRequest {
                path: Some(MatchPath::Exact("/foo/bar".to_string())),
                ..MatchRequest::default()
            },
            MatchRequest {
                path: Some(MatchPath::Exact("/nope".to_string())),
                ..MatchRequest::default()
            },
        ],
        policy: Policy::Expected,
    };
    let m = rule.best_match(&get("/foo/bar")).expect("must match");
    assert_eq!(m.path_match, PathMatch::Exact(8));
    let m = rule.best_match(&get("/foo/baz")).expect("must match");
    assert_eq!(m.path_match, PathMatch::Prefix(4));
    assert_eq!(rule.best_match(&get("/other")), None);
}

#[test]
fn later_rule_wins_only_when_strictly_better() {
    let route = HttpRoute {
        hosts: vec![],
        rules: vec![
            path_rule(MatchPath::Prefix("/foo".to_string()), Policy::Unexpected),
            path_rule(MatchPath::Prefix("/foo/bar".to_string()), Policy::Expected),
            path_rule(MatchPath::Prefix("/foo/bar".to_string()), Policy::Unexpected),
        ],
    };
    let (m, policy) = route.find(&get("/foo/bar/baz")).expect("must match");
    assert_eq!(*policy, Policy::Expected);
    assert_eq!(m.host, None);
    assert_eq!(m.request.path_match, PathMatch::Prefix(8));
}

#[test]
fn pattern_must_cover_the_whole_path() {
    let rts = HttpRoutes(vec![HttpRoute {
        hosts: vec![],
        rules: vec![path_rule(MatchPath::Regex("/foo/[a-z]+".to_string()), Policy::Expected)],
    }]);
    let (m, policy) = rts.find(&get("/foo/bar")).expect("must match");
    assert_eq!(*policy, Policy::Expected);
    assert_eq!(m.request.path_match, PathMatch::Regex(8));
    // The pattern matches inside these paths, and not all of them.
    assert!(rts.find(&get("/foo/bar/1")).is_none());
    assert!(rts.find(&get("/x/foo/bar")).is_none());
    assert!(rts.find(&get("/foo/")).is_none());
}

#[test]
fn invalid_pattern_matches_nothing() {
    let rts = HttpRoutes(vec![HttpRoute {
        hosts: vec![],
        rules: vec![path_rule(MatchPath::Regex("/foo(".to_string()), Policy::Expected)],
    }]);
    assert!(rts.find(&get("/foo(")).is_none());
}

#[test]
fn prefix_outranks_pattern_and_exact_outranks_prefix() {
    let rts = HttpRoutes(vec![HttpRoute {
        hosts: vec![],
        rules: vec![
            path_rule(MatchPath::Regex("/foo/.*".to_string()), Policy::Unexpected),
            path_rule(MatchPath::Prefix("/foo".to_string()), Policy::Expected),
        ],
    }]);
    let (m, policy) = rts.find(&get("/foo/bar")).expect("must match");
    assert_eq!(*policy, Policy::Expected);
    assert_eq!(m.request.path_match, PathMatch::Prefix(4));

    let rts = HttpRoutes(vec![HttpRoute {
        hosts: vec![],
        rules: vec![
            path_rule(MatchPath::Prefix("/foo/bar".to_string()), Policy::Unexpected),
            path_rule(MatchPath::Exact("/foo/bar".to_string()), Policy::Expected),
        ],
    }]);
    let (_, policy) = rts.find(&get("/foo/bar")).expect("must match");
    assert_eq!(*policy, Policy::Expected);
}

#[test]
fn header_pattern_and_query_params() {
    let rule = HttpRule {
        matches: vec![MatchRequest {
            headers: vec![MatchHeader::Regex("x-id".to_string(), "^[0-9]+$".to_string())],
            query_params: vec![
                MatchQueryParam::Exact("a".to_string(), "1".to_string()),
                MatchQueryParam::Regex("b".to_string(), "^x".to_string()),
            ],
            method: Some("GET".to_string()),
            ..MatchRequest::default()
        }],
        policy: Policy::Expected,
    };
    let req = http::Request::builder()
        .uri("http://example.com/p?a=1&b=xyz")
        .header("x-id", "abc")
        .header("x-id", "123")
        .body(())
        .unwrap();
    let m = rule.best_match(&plain(&req)).expect("must match");
    assert_eq!(
        m,
        RequestMatch {
            path_match: PathMatch::Any,
            headers: 1,
            query_params: 2,
            method: true,
        }
    );

    let req = http::Request::builder()
        .uri("http://example.com/p?a=1&b=xyz")
        .header("x-id", "abc")
        .body(())
        .unwrap();
    assert_eq!(rule.best_match(&plain(&req)), None);

    let req = http::Request::builder()
        .uri("http://example.com/p?a=1&b=yx")
        .header("x-id", "123")
        .body(())
        .unwrap();
    assert_eq!(rule.best_match(&plain(&req)), None);

    let req = http::Request::builder()
        .method("POST")
        .uri("http://example.com/p?a=1&b=xyz")
        .header("x-id", "123")
        .body(())
        .unwrap();
    assert_eq!(rule.best_match(&plain(&req)), None);
}

#[test]
fn method_breaks_a_tie_last() {
    let with_method = HttpRule {
        matches: vec![MatchRequest {
            method: Some("GET".to_string()),
            ..MatchRequest::default()
        }],
        policy: Policy::Expected,
    };
    let rts = HttpRoutes(vec![HttpRoute {
        hosts: vec![],
        rules: vec![HttpRule::default(), with_method],
    }]);
    let (m, policy) = rts.find(&get("/")).expect("must match");
    assert_eq!(*policy, Policy::Expected);
    assert!(m.request.method);
}

#[test]
fn finding_twice_gives_the_same() {
    let rts = HttpRoutes(vec![
        HttpRoute {
            hosts: vec!["*.example.com".parse().unwrap()],
            rules: vec![
                path_rule(MatchPath::Prefix("/".to_string()), Policy::Unexpected),
                path_rule(MatchPath::Prefix("/foo".to_string()), Policy::Expected),
            ],
        },
        HttpRoute {
            hosts: vec![],
            rules: vec![HttpRule::default()],
        },
    ]);
    let req = get("http://foo.example.com/foo/bar");
    let a = rts.find(&req).map(|(m, p)| (m, *p));
    let b = rts.find(&req).map(|(m, p)| (m, *p));
    assert_eq!(a, b);
    assert_eq!(
        a,
        Some((
            HttpRouteMatch {
                host: Some(HostMatch::Suffix(11)),
                request: RequestMatch {
                    path_match: PathMatch::Prefix(4),
                    headers: 0,
                    query_params: 0,
                    method: false,
                },
            },
            Policy::Expected
        ))
    );
}

#[test]
fn host_matcher_is_read_from_text() {
    assert_eq!(
        "foo.example.com".parse::<MatchHost>(),
        Ok(MatchHost::Exact("foo.example.com".to_string()))
    );
    assert_eq!(
        MatchHost::parse("*.example.com"),
        Ok(MatchHost::Suffix {
            suffix: "example.com".to_string()
        })
    );
}
