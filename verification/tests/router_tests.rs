use mesh_core::matching::{Method, Request, RequestMatch};
use mesh_core::profiles::{Route, Routes};
use mesh_core::router::{eligible, layer, GetRoutes, NameAddr, Service, Suffix};

fn request(method: Method, path: &str) -> Request {
    Request {
        method,
        path: path.to_string(),
    }
}

fn named_route(key: &str) -> Route {
    Route::new(
        vec![("rt".to_string(), key.to_string())],
        Vec::new(),
    )
}

/// A tiny inner "service": tests only compare these markers.
#[derive(Clone, Debug, PartialEq, Eq)]
struct Marker(&'static str);

type Stream = Vec<Routes>;

fn service(routes: Routes) -> Service<Stream, Marker> {
    let mut s: Service<Stream, Marker> = Service::new(None, Vec::new(), Route::default());
    s.update_routes(routes);
    s
}

#[test]
fn routing_default_fallback() {
    // An empty table sends every request to the default slot, and the
    // backing map holds exactly one slot.
    let mut s = service(Vec::new());
    assert_eq!(s.capacity(), 1);
    let req = request(Method::Get, "/anything");
    let i = s.dispatch(&req, Marker("default"));
    assert_eq!(i, 0);
    assert_eq!(s.service_at(i), &Marker("default"));
}

#[test]
fn routing_path_match_precedence() {
    // Both patterns match "/a/b"; the first in table order wins.
    let routes: Routes = vec![
        (RequestMatch::Path("^/a".to_string()), named_route("r1")),
        (RequestMatch::Path("^/a/b".to_string()), named_route("r2")),
    ];
    let mut s = service(routes);
    assert_eq!(s.capacity(), 3);
    let req = request(Method::Get, "/a/b");
    let i = s.dispatch(&req, Marker("r1"));
    assert_eq!(i, 0);
}

#[test]
fn routing_hot_swap() {
    // A table update rebuilds the cache: nothing specialized under
    // the old table survives, and the next dispatch uses the new one.
    let t1: Routes = vec![
        (RequestMatch::Path("^/a".to_string()), named_route("r1")),
        (RequestMatch::Path("^/b".to_string()), named_route("r2")),
    ];
    let mut s = service(t1);
    let req = request(Method::Get, "/a");
    let i = s.dispatch(&req, Marker("old-a"));
    assert_eq!(i, 0);
    assert!(s.has_service(0));

    let t2: Routes = vec![(RequestMatch::Path("^/a".to_string()), named_route("r3"))];
    s.update_routes(t2);
    assert_eq!(s.capacity(), 2);
    assert!(!s.has_service(0));
    assert!(!s.has_service(1));

    let i = s.dispatch(&req, Marker("new-a"));
    assert_eq!(i, 0);
    assert_eq!(s.service_at(0), &Marker("new-a"));
}

#[test]
fn dispatch_reuses_cached_service() {
    let routes: Routes = vec![(RequestMatch::Path("^/a".to_string()), named_route("r1"))];
    let mut s = service(routes);
    let req = request(Method::Get, "/a");
    let first = s.dispatch(&req, Marker("one"));
    let second = s.dispatch(&req, Marker("two"));
    assert_eq!(first, second);
    // The slot keeps the first specialized service.
    assert_eq!(s.service_at(second), &Marker("one"));
}

#[test]
fn method_match_is_exact() {
    let routes: Routes = vec![(RequestMatch::Method(Method::Post), named_route("posts"))];
    let mut s = service(routes);
    let post = s.dispatch(&request(Method::Post, "/x"), Marker("m"));
    assert_eq!(post, 0);
    let get = s.dispatch(&request(Method::Get, "/x"), Marker("m"));
    assert_eq!(get, 1); // the default slot
}

#[test]
fn route_at_returns_table_or_default() {
    let routes: Routes = vec![(RequestMatch::Method(Method::Get), named_route("gets"))];
    let s = service(routes);
    let table_route = s.route_at(0);
    assert_eq!(
        table_route.labels().get("rt").map(String::as_str),
        Some("gets")
    );
    let default_route = s.route_at(1);
    assert!(default_route.labels().is_empty());
}

#[test]
fn suffix_contains_names() {
    let s = Suffix::new("svc.cluster.local".to_string());
    assert!(s.contains("svc.cluster.local"));
    assert!(s.contains("web.svc.cluster.local"));
    assert!(!s.contains("websvc.cluster.local"));
    assert!(!s.contains("svc.cluster.локал"));
    assert!(!s.contains("cluster.local"));

    let root = Suffix::new(".".to_string());
    assert!(root.contains("anything.at.all"));
}

#[test]
fn eligibility_scans_all_suffixes() {
    let suffixes = vec![
        Suffix::new("example.com".to_string()),
        Suffix::new("svc.cluster.local".to_string()),
    ];
    assert!(eligible(&suffixes, "web.svc.cluster.local"));
    assert!(eligible(&suffixes, "example.com"));
    assert!(!eligible(&suffixes, "other.io"));
    assert!(!eligible(&Vec::new(), "web.svc.cluster.local"));
}

/// A route-table source for tests: always the same single stream.
#[derive(Clone)]
struct FixedSource;

impl GetRoutes for FixedSource {
    type RouteStream = Stream;

    fn get_routes(&self, dst: &NameAddr) -> Option<Stream> {
        assert_eq!(dst.port(), 8080);
        Some(Vec::new())
    }
}

struct Target(Option<NameAddr>);

impl mesh_core::router::CanGetDestination for Target {
    fn get_destination(&self) -> Option<&NameAddr> {
        self.0.as_ref()
    }
}

#[test]
fn stack_subscribes_only_eligible_destinations() {
    let l = layer(
        vec![Suffix::new("svc.cluster.local".to_string())],
        FixedSource,
    );
    let stack = l.bind();

    let eligible_target = Target(Some(NameAddr::new("web.svc.cluster.local".to_string(), 8080)));
    let s: Service<Stream, Marker> = stack.make(&eligible_target);
    assert!(s.has_route_stream());
    assert_eq!(s.capacity(), 1);

    let foreign_target = Target(Some(NameAddr::new("web.example.com".to_string(), 8080)));
    let s: Service<Stream, Marker> = stack.make(&foreign_target);
    assert!(!s.has_route_stream());

    let no_destination = Target(None);
    let s: Service<Stream, Marker> = stack.make(&no_destination);
    assert!(!s.has_route_stream());
}
