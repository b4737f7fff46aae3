use mesh_core::matching::{
    Method, Request, RequestMatch, Response, ResponseClass, ResponseMatch,
};

fn request(method: Method, path: &str) -> Request {
    Request {
        method,
        path: path.to_string(),
    }
}

#[test]
fn empty_all_matches_everything() {
    let m = RequestMatch::All(Vec::new());
    assert!(m.is_match(&request(Method::Get, "/")));
    assert!(m.is_match(&request(Method::Delete, "/x/y")));
}

#[test]
fn empty_any_matches_nothing() {
    let m = RequestMatch::Any(Vec::new());
    assert!(!m.is_match(&request(Method::Get, "/")));
    assert!(!m.is_match(&request(Method::Delete, "/x/y")));
}

#[test]
fn not_negates_its_child() {
    let m = RequestMatch::Not(Box::new(RequestMatch::Method(Method::Get)));
    assert!(!m.is_match(&request(Method::Get, "/")));
    assert!(m.is_match(&request(Method::Post, "/")));
}

#[test]
fn path_pattern_uses_the_regex_engine() {
    // Anchors, alternation and character classes must all take
    // effect: a matcher that ignored its pattern would fail here.
    let m = RequestMatch::Path("^/users/[0-9]+$".to_string());
    assert!(m.is_match(&request(Method::Get, "/users/42")));
    assert!(!m.is_match(&request(Method::Get, "/users/42/posts")));
    assert!(!m.is_match(&request(Method::Get, "/users/alice")));
    assert!(!m.is_match(&request(Method::Get, "/admin/users/42")));

    let alt = RequestMatch::Path("^/(a|b)/c".to_string());
    assert!(alt.is_match(&request(Method::Get, "/b/c")));
    assert!(!alt.is_match(&request(Method::Get, "/d/c")));
}

#[test]
fn unanchored_pattern_matches_anywhere() {
    let m = RequestMatch::Path("users".to_string());
    assert!(m.is_match(&request(Method::Get, "/api/users/list")));
}

#[test]
fn invalid_pattern_matches_nothing() {
    let m = RequestMatch::Path("(unclosed".to_string());
    assert!(!m.is_match(&request(Method::Get, "/(unclosed")));
}

#[test]
fn composite_request_match() {
    let m = RequestMatch::All(vec![
        RequestMatch::Method(Method::Post),
        RequestMatch::Any(vec![
            RequestMatch::Path("^/api/".to_string()),
            RequestMatch::Path("^/internal/".to_string()),
        ]),
    ]);
    assert!(m.is_match(&request(Method::Post, "/api/write")));
    assert!(m.is_match(&request(Method::Post, "/internal/write")));
    assert!(!m.is_match(&request(Method::Get, "/api/write")));
    assert!(!m.is_match(&request(Method::Post, "/public/write")));
}

#[test]
fn status_range_is_inclusive() {
    let m = ResponseMatch::Status { min: 500, max: 599 };
    assert!(m.is_match(&Response { status: 500 }));
    assert!(m.is_match(&Response { status: 599 }));
    assert!(!m.is_match(&Response { status: 499 }));
    assert!(!m.is_match(&Response { status: 600 }));
}

#[test]
fn response_composites_mirror_request_ones() {
    assert!(ResponseMatch::All(Vec::new()).is_match(&Response { status: 200 }));
    assert!(!ResponseMatch::Any(Vec::new()).is_match(&Response { status: 200 }));
    let not = ResponseMatch::Not(Box::new(ResponseMatch::Status { min: 200, max: 299 }));
    assert!(!not.is_match(&Response { status: 204 }));
    assert!(not.is_match(&Response { status: 500 }));
}

#[test]
fn response_class_carries_failure_flag() {
    let c = ResponseClass::new(true, ResponseMatch::Status { min: 500, max: 599 });
    assert!(c.is_failure());
    assert!(c.is_match(&Response { status: 502 }));
    assert!(!c.is_match(&Response { status: 200 }));
}
