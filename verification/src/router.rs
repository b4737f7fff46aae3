//! Per-destination profile router.
//!
//! A [`Service`] owns an ordered route table, a default route, and a
//! slot cache of route-specialized inner services: slot `i` caches
//! the service specialized for route `i`, and the last slot the one
//! for the default route.  The cache capacity is therefore always
//! exactly the number of distinct keys recognition can produce, so no
//! eviction is ever needed, and replacing the table drops every
//! specialized service built from the old one.
use vstd::prelude::*;

use crate::matching::Request;
use crate::matching::RequestMatch;
use crate::matching::RequestView;
use crate::matching::spec_request_match;
use crate::profiles::Route;
use crate::profiles::Routes;

verus! {

// ===== destinations and discovery suffixes =====

/// The mathematical value of a destination authority.
#[verifier::ext_equal]
pub ghost struct NameAddrView {
    pub name: Seq<char>,
    pub port: u16,
}

/// A destination authority: a DNS-like name and a port.
#[derive(Debug)]
pub struct NameAddr {
    name: String,
    port: u16,
}

impl View for NameAddr {
    type V = NameAddrView;

    closed spec fn view(&self) -> NameAddrView {
        NameAddrView { name: self.name@, port: self.port }
    }
}

impl NameAddr {
    /// Pairs a name with a port.
    pub fn new(name: String, port: u16) -> (r: NameAddr)
        ensures
            r@ == (NameAddrView { name: name@, port }),
    {
        NameAddr { name, port }
    }

    /// The destination's name.
    pub fn name(&self) -> (r: &str)
        ensures
            r@ == self@.name,
    {
        self.name.as_str()
    }

    /// The destination's port.
    pub fn port(&self) -> (r: u16)
        ensures
            r == self@.port,
    {
        self.port
    }
}

/// Whether the DNS suffix `sfx` contains `name`: the root suffix
/// `"."` contains every name; otherwise `name` equals the suffix or
/// ends with it at a label boundary.
pub open spec fn spec_suffix_contains(sfx: Seq<char>, name: Seq<char>) -> bool {
    ||| sfx == seq!['.']
    ||| name == sfx
    ||| (name.len() > sfx.len() && name.subrange(name.len() - sfx.len(), name.len() as int) == sfx
        && name[name.len() - sfx.len() - 1] == '.')
}

/// A DNS suffix that limits which destinations participate in profile
/// discovery; `"."` is the root suffix and contains every name.
#[derive(Debug)]
pub struct Suffix {
    text: String,
}

impl View for Suffix {
    type V = Seq<char>;

    closed spec fn view(&self) -> Seq<char> {
        self.text@
    }
}

impl Clone for Suffix {
    /// A fresh suffix with the same text.
    fn clone(&self) -> (r: Self)
        ensures
            r@ == self@,
    {
        Suffix { text: self.text.clone() }
    }
}

/// Whether `name@.subrange(off, off + pat@.len())` equals `pat@`.
#[verifier::loop_isolation(false)]
fn str_eq_at(name: &str, off: usize, pat: &str) -> (r: bool)
    requires
        off + pat@.len() <= name@.len(),
        name@.len() <= usize::MAX,
    ensures
        r == (name@.subrange(off as int, off + pat@.len()) == pat@),
{
    let pn: usize = pat.unicode_len();
    let mut j: usize = 0;
    while j < pn
        invariant
            0 <= j <= pn,
            forall|t: int| 0 <= t < j ==> name@[off + t] == pat@[t],
        decreases pn - j,
    {
        if name.get_char(off + j) != pat.get_char(j) {
            proof {
                assert(name@.subrange(off as int, off + pat@.len())[j as int] != pat@[j as int]);
            }
            return false;
        }
        j = j + 1;
    }
    proof {
        assert(name@.subrange(off as int, off + pat@.len()) =~= pat@);
    }
    true
}

impl Suffix {
    /// Wraps a suffix string; `"."` is the root suffix.
    pub fn new(text: String) -> (r: Suffix)
        ensures
            r@ == text@,
    {
        Suffix { text }
    }

    /// Decides [`spec_suffix_contains`] for a name.
    pub fn contains(&self, name: &str) -> (r: bool)
        ensures
            r == spec_suffix_contains(self@, name@),
    {
        let sn: usize = self.text.as_str().unicode_len();
        let nn: usize = name.unicode_len();
        if sn == 1 && self.text.as_str().get_char(0) == '.' {
            proof {
                assert(self@ =~= seq!['.']);
            }
            return true;
        }
        proof {
            assert(self@ != seq!['.']);
        }
        if sn == nn {
            let r = str_eq_at(name, 0, self.text.as_str());
            proof {
                assert(name@.subrange(0, name@.len() as int) =~= name@);
            }
            r
        } else if sn < nn {
            if name.get_char(nn - sn - 1) != '.' {
                return false;
            }
            str_eq_at(name, nn - sn, self.text.as_str())
        } else {
            false
        }
    }
}

/// Whether some configured suffix contains the name: the eligibility
/// filter for profile discovery.
#[verifier::loop_isolation(false)]
pub fn eligible(suffixes: &Vec<Suffix>, name: &str) -> (r: bool)
    ensures
        r == exists|i: int|
            0 <= i < suffixes@.len() && spec_suffix_contains(#[trigger] suffixes@[i]@, name@),
{
    let mut i: usize = 0;
    while i < suffixes.len()
        invariant
            0 <= i <= suffixes@.len(),
            forall|j: int| 0 <= j < i ==> !spec_suffix_contains(#[trigger] suffixes@[j]@, name@),
        decreases suffixes@.len() - i,
    {
        if suffixes[i].contains(name) {
            return true;
        }
        i = i + 1;
    }
    false
}

/// A fresh vector of suffixes with the same texts.
fn clone_suffixes(v: &Vec<Suffix>) -> (r: Vec<Suffix>)
    ensures
        r@.len() == v@.len(),
        forall|i: int| 0 <= i < v@.len() ==> #[trigger] r@[i]@ == v@[i]@,
{
    let mut r: Vec<Suffix> = Vec::new();
    let mut i: usize = 0;
    while i < v.len()
        invariant
            0 <= i <= v@.len(),
            r@.len() == i,
            forall|j: int| 0 <= j < i ==> #[trigger] r@[j]@ == v@[j]@,
        decreases v@.len() - i,
    {
        r.push(v[i].clone());
        i = i + 1;
    }
    r
}

// ===== the capabilities the surrounding stack provides =====

/// Yields, per destination authority, a never-ending, infallible
/// stream of route tables; `None` when the destination is not
/// eligible for profile discovery.  The driver polls the stream.
pub trait GetRoutes {
    /// The driver's stream of route tables.
    type RouteStream;

    /// Subscribes to route tables for a destination.
    fn get_routes(&self, dst: &NameAddr) -> Option<Self::RouteStream>;
}

/// Target types that may be combined with a route; must be
/// deterministic and produce equal outputs for equal inputs.
pub trait WithRoute {
    /// The route-specialized target.
    type Output;

    /// Specializes the target for one route.
    fn with_route(self, route: Route) -> Self::Output;
}

/// Target types that may carry a destination authority discoverable
/// via [`GetRoutes`].
pub trait CanGetDestination {
    /// The destination, if the target has one.
    fn get_destination(&self) -> Option<&NameAddr>;
}

// ===== recognition =====

/// Recognizes requests against an ordered route table backed by a
/// default route.
#[derive(Debug)]
pub struct Recognize {
    routes: Routes,
    default_route: Route,
}

impl Recognize {
    /// The ordered route table.
    pub closed spec fn spec_routes(&self) -> Seq<(RequestMatch, Route)> {
        self.routes@
    }

    /// The default route.
    pub closed spec fn spec_default(&self) -> Route {
        self.default_route
    }

    /// Pairs a route table with its default route.
    pub fn new(routes: Routes, default_route: Route) -> (r: Recognize)
        ensures
            r.spec_routes() == routes@,
            r.spec_default() == default_route,
    {
        Recognize { routes, default_route }
    }

    /// How many slots recognition can produce: one per route, plus
    /// one for the default route.
    pub fn slot_count(&self) -> (n: usize)
        requires
            self.spec_routes().len() < usize::MAX,
        ensures
            n == self.spec_routes().len() + 1,
    {
        self.routes.len() + 1
    }

    /// Walks the routes in order; the first whose predicate matches
    /// the request wins, and a request no route matches falls through
    /// to the default slot, `routes.len()`.
    #[verifier::loop_isolation(false)]
    pub fn recognize(&self, req: &Request) -> (i: usize)
        ensures
            0 <= i <= self.spec_routes().len(),
            forall|j: int| 0 <= j < i ==> !spec_request_match(#[trigger] self.spec_routes()[j].0, req@),
            i < self.spec_routes().len() ==> spec_request_match(self.spec_routes()[i as int].0, req@),
    {
        let mut i: usize = 0;
        while i < self.routes.len()
            invariant
                0 <= i <= self.routes@.len(),
                forall|j: int| 0 <= j < i ==> !spec_request_match(#[trigger] self.routes@[j].0, req@),
            decreases self.routes@.len() - i,
        {
            if self.routes[i].0.is_match(req) {
                return i;
            }
            i = i + 1;
        }
        i
    }

    /// The route a slot stands for: route `i` of the table, or the
    /// default route for the last slot.
    pub fn route_at(&self, i: usize) -> (r: &Route)
        requires
            i <= self.spec_routes().len(),
        ensures
            i < self.spec_routes().len() ==> *r == self.spec_routes()[i as int].1,
            i == self.spec_routes().len() ==> *r == self.spec_default(),
    {
        if i < self.routes.len() {
            &self.routes[i].1
        } else {
            &self.default_route
        }
    }
}

/// The chosen route of a table for a request: the first match, or the
/// default.  This is what recognition followed by [`Recognize::route_at`]
/// yields.
pub open spec fn spec_chosen_route(
    routes: Seq<(RequestMatch, Route)>,
    default_route: Route,
    req: RequestView,
) -> Route
    decreases routes.len(),
{
    if routes.len() == 0 {
        default_route
    } else if spec_request_match(routes[0].0, req) {
        routes[0].1
    } else {
        spec_chosen_route(routes.drop_first(), default_route, req)
    }
}

/// Recognition picks exactly the chosen route: a slot index `i` that
/// satisfies [`Recognize::recognize`]'s contract names the first
/// matching route, or the default when none matches.
pub proof fn lemma_recognize_chooses_first(
    routes: Seq<(RequestMatch, Route)>,
    default_route: Route,
    req: RequestView,
    i: int,
)
    requires
        0 <= i <= routes.len(),
        forall|j: int| 0 <= j < i ==> !spec_request_match(#[trigger] routes[j].0, req),
        i < routes.len() ==> spec_request_match(routes[i].0, req),
    ensures
        spec_chosen_route(routes, default_route, req) == (if i < routes.len() {
            routes[i].1
        } else {
            default_route
        }),
    decreases routes.len(),
{
    if routes.len() == 0 {
    } else if spec_request_match(routes[0].0, req) {
        assert(i == 0);
    } else {
        assert(!spec_request_match(routes[0].0, req));
        assert(i >= 1);
        let tail = routes.drop_first();
        assert forall|j: int| 0 <= j < i - 1 implies !spec_request_match(
            (#[trigger] tail[j]).0,
            req,
        ) by {
            assert(tail[j] == routes[j + 1]);
        }
        lemma_recognize_chooses_first(tail, default_route, req, i - 1);
    }
}

// ===== the routing service =====

/// A vector of `n` empty slots.
fn empty_slots<S>(n: usize) -> (r: Vec<Option<S>>)
    ensures
        r@.len() == n,
        forall|i: int| 0 <= i < n ==> (#[trigger] r@[i]) is None,
{
    let mut r: Vec<Option<S>> = Vec::new();
    let mut i: usize = 0;
    while i < n
        invariant
            0 <= i <= n,
            r@.len() == i,
            forall|j: int| 0 <= j < i ==> (#[trigger] r@[j]) is None,
        decreases n - i,
    {
        r.push(None);
        i = i + 1;
    }
    r
}

/// The per-destination router: an ordered route table, a slot cache
/// of specialized inner services (`St` is the driver's route-table
/// stream, `S` its inner service type), and the default route the
/// table is rebuilt around on every update.
pub struct Service<St, S> {
    route_stream: Option<St>,
    router: Recognize,
    slots: Vec<Option<S>>,
    default_route: Route,
}

impl<St, S> Service<St, S> {
    /// The ordered route table.
    pub closed spec fn spec_routes(&self) -> Seq<(RequestMatch, Route)> {
        self.router.spec_routes()
    }

    /// The slot cache.
    pub closed spec fn spec_slots(&self) -> Seq<Option<S>> {
        self.slots@
    }

    /// The default route.
    pub closed spec fn spec_default(&self) -> Route {
        self.router.spec_default()
    }

    /// The subscription to route-table updates, if the destination
    /// was eligible.
    pub closed spec fn spec_stream(&self) -> Option<St> {
        self.route_stream
    }

    /// One slot per route plus the default slot; the stored default
    /// route is the one the recognizer was built around.
    pub closed spec fn wf(&self) -> bool {
        &&& self.spec_slots().len() == self.spec_routes().len() + 1
        &&& self.default_route@ == self.router.spec_default()@
    }

    /// Assembles a router service.
    pub fn new(route_stream: Option<St>, routes: Routes, default_route: Route) -> (s: Service<
        St,
        S,
    >)
        requires
            routes@.len() < usize::MAX,
        ensures
            s.wf(),
            s.spec_routes() == routes@,
            s.spec_default()@ == default_route@,
            forall|i: int| 0 <= i < s.spec_slots().len() ==> (#[trigger] s.spec_slots()[i]) is None,
            s.spec_stream() == route_stream,
    {
        let slots: Vec<Option<S>> = empty_slots(routes.len() + 1);
        let router = Recognize::new(routes, default_route.clone());
        Service { route_stream, router, slots, default_route }
    }

    /// How many slots the cache holds.
    pub fn capacity(&self) -> (n: usize)
        ensures
            n == self.spec_slots().len(),
    {
        self.slots.len()
    }

    /// Whether the service subscribed to route updates.
    pub fn has_route_stream(&self) -> (r: bool)
        ensures
            r == (self.spec_stream() is Some),
    {
        self.route_stream.is_some()
    }

    /// The subscription itself, for the driver to poll.
    pub fn route_stream_mut(&mut self) -> (r: &mut Option<St>)
        ensures
            *r == old(self).spec_stream(),
            final(self).spec_stream() == *final(r),
            final(self).spec_routes() == old(self).spec_routes(),
            final(self).spec_slots() == old(self).spec_slots(),
            final(self).spec_default() == old(self).spec_default(),
    {
        &mut self.route_stream
    }

    /// Replaces the route table, dropping every specialized service
    /// built from the old one: afterwards all slots are empty and the
    /// capacity is again `routes.len() + 1`.  Applying several queued
    /// updates in a row therefore leaves exactly the last one in
    /// force.
    pub fn update_routes(&mut self, routes: Routes)
        requires
            old(self).wf(),
            routes@.len() < usize::MAX,
        ensures
            final(self).wf(),
            final(self).spec_routes() == routes@,
            final(self).spec_slots().len() == routes@.len() + 1,
            forall|i: int|
                0 <= i < final(self).spec_slots().len() ==> (#[trigger] final(self).spec_slots()[i])
                    is None,
            final(self).spec_default()@ == old(self).spec_default()@,
            final(self).spec_stream() == old(self).spec_stream(),
    {
        let slots: Vec<Option<S>> = empty_slots(routes.len() + 1);
        self.router = Recognize::new(routes, self.default_route.clone());
        self.slots = slots;
    }

    /// Recognizes a request: the slot of the first matching route, or
    /// the default slot when none matches.
    pub fn recognize(&self, req: &Request) -> (i: usize)
        ensures
            0 <= i <= self.spec_routes().len(),
            forall|j: int| 0 <= j < i ==> !spec_request_match(#[trigger] self.spec_routes()[j].0, req@),
            i < self.spec_routes().len() ==> spec_request_match(self.spec_routes()[i as int].0, req@),
    {
        self.router.recognize(req)
    }

    /// The route a slot stands for.
    pub fn route_at(&self, i: usize) -> (r: &Route)
        requires
            i <= self.spec_routes().len(),
        ensures
            i < self.spec_routes().len() ==> *r == self.spec_routes()[i as int].1,
            i == self.spec_routes().len() ==> *r == self.spec_default(),
    {
        self.router.route_at(i)
    }

    /// Whether a slot already holds a specialized service.
    pub fn has_service(&self, i: usize) -> (r: bool)
        requires
            i < self.spec_slots().len(),
        ensures
            r == (self.spec_slots()[i as int] is Some),
    {
        self.slots[i].is_some()
    }

    /// Caches the specialized service for a slot.
    pub fn install(&mut self, i: usize, svc: S)
        requires
            i < old(self).spec_slots().len(),
        ensures
            final(self).spec_slots() == old(self).spec_slots().update(i as int, Some(svc)),
            final(self).spec_routes() == old(self).spec_routes(),
            final(self).spec_default() == old(self).spec_default(),
            final(self).spec_stream() == old(self).spec_stream(),
    {
        self.slots.set(i, Some(svc));
    }

    /// The cached service of a slot.
    pub fn service_at(&self, i: usize) -> (r: &S)
        requires
            i < self.spec_slots().len(),
            self.spec_slots()[i as int] is Some,
        ensures
            Some(*r) == self.spec_slots()[i as int],
    {
        self.slots[i].as_ref().unwrap()
    }

    /// Recognizes a request and fills its slot if it was empty: the
    /// request is served by the slot's cached service if one is
    /// there, else by `fresh` (which is then cached).  Returns the
    /// slot.
    pub fn dispatch(&mut self, req: &Request, fresh: S) -> (i: usize)
        requires
            old(self).wf(),
        ensures
            final(self).wf(),
            0 <= i <= old(self).spec_routes().len(),
            forall|j: int|
                0 <= j < i ==> !spec_request_match(#[trigger] old(self).spec_routes()[j].0, req@),
            i < old(self).spec_routes().len() ==> spec_request_match(
                old(self).spec_routes()[i as int].0,
                req@,
            ),
            final(self).spec_slots() == (if old(self).spec_slots()[i as int] is Some {
                old(self).spec_slots()
            } else {
                old(self).spec_slots().update(i as int, Some(fresh))
            }),
            final(self).spec_slots()[i as int] is Some,
            final(self).spec_routes() == old(self).spec_routes(),
            final(self).spec_default() == old(self).spec_default(),
            final(self).spec_stream() == old(self).spec_stream(),
    {
        let i = self.router.recognize(req);
        if !self.slots[i].is_some() {
            self.slots.set(i, Some(fresh));
        } else {
            proof {
                assert(self.slots@ =~= old(self).spec_slots());
            }
        }
        i
    }
}

/// After a route-table update no dispatch uses a specialized service
/// built from the old table: [`Service::update_routes`] leaves every
/// slot empty, and a dispatch that finds its slot empty both serves
/// and caches exactly the freshly materialized service — the slots
/// then hold nothing that predates the update.
pub proof fn lemma_update_clears_specializations<S>(slots: Seq<Option<S>>, i: int, fresh: S)
    requires
        0 <= i < slots.len(),
        forall|j: int| 0 <= j < slots.len() ==> (#[trigger] slots[j]) is None,
    ensures
        ({
            let after = if slots[i] is Some {
                slots
            } else {
                slots.update(i, Some(fresh))
            };
            &&& after[i] == Some(fresh)
            &&& after == slots.update(i, Some(fresh))
            &&& forall|j: int|
                0 <= j < after.len() && j != i ==> (#[trigger] after[j]) is None
        }),
{
}

// ===== assembling router services =====

/// The stack module that equips a target's service with profile
/// routing: it carries the discovery suffixes, the route-table
/// source, and the one default route every service shares.
pub struct Layer<G> {
    suffixes: Vec<Suffix>,
    get_routes: G,
    default_route: Route,
}

/// Builds the routing layer around a route-table source.
pub fn layer<G: GetRoutes>(suffixes: Vec<Suffix>, get_routes: G) -> (l: Layer<G>)
    ensures
        l.spec_suffixes() == suffixes@,
        l.spec_default()@ == (crate::profiles::RouteView {
            labels: Seq::<(Seq<char>, Seq<char>)>::empty(),
            response_classes: Seq::<crate::matching::ResponseClass>::empty(),
            retries: None,
            timeout: None,
        }),
{
    Layer { suffixes, get_routes, default_route: Route::default() }
}

impl<G> Layer<G> {
    /// The configured discovery suffixes.
    pub closed spec fn spec_suffixes(&self) -> Seq<Suffix> {
        self.suffixes@
    }

    /// The shared default route.
    pub closed spec fn spec_default(&self) -> Route {
        self.default_route
    }
}

impl<G: GetRoutes + Clone> Layer<G> {
    /// Binds the layer into a stack that can make router services.
    pub fn bind(&self) -> (s: Stack<G>)
        ensures
            s.spec_suffixes().len() == self.spec_suffixes().len(),
            forall|i: int|
                0 <= i < self.spec_suffixes().len() ==> #[trigger] s.spec_suffixes()[i]@
                    == self.spec_suffixes()[i]@,
            s.spec_default()@ == self.spec_default()@,
    {
        Stack {
            suffixes: clone_suffixes(&self.suffixes),
            get_routes: self.get_routes.clone(),
            default_route: self.default_route.clone(),
        }
    }
}

/// Makes one router [`Service`] per target.
pub struct Stack<G> {
    suffixes: Vec<Suffix>,
    get_routes: G,
    default_route: Route,
}

impl<G> Stack<G> {
    /// The configured discovery suffixes.
    pub closed spec fn spec_suffixes(&self) -> Seq<Suffix> {
        self.suffixes@
    }

    /// The shared default route.
    pub closed spec fn spec_default(&self) -> Route {
        self.default_route
    }
}

impl<G: GetRoutes> Stack<G> {
    /// Builds the router service for a target: an empty table over
    /// the default route, a single (default) slot, and — when the
    /// target's destination falls under a configured suffix — a
    /// subscription to its route tables.
    pub fn make<T: CanGetDestination, S>(&self, target: &T) -> (s: Service<G::RouteStream, S>)
        ensures
            s.wf(),
            s.spec_routes().len() == 0,
            s.spec_slots().len() == 1,
            s.spec_slots()[0] is None,
            s.spec_default()@ == self.spec_default()@,
    {
        let route_stream: Option<G::RouteStream> = match target.get_destination() {
            Some(dst) => {
                if eligible(&self.suffixes, dst.name()) {
                    self.get_routes.get_routes(dst)
                } else {
                    None
                }
            },
            None => None,
        };
        let routes: Routes = Vec::new();
        Service::new(route_stream, routes, self.default_route.clone())
    }
}

} // verus!
