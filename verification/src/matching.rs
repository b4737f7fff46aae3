//! Request and response match predicates.
//!
//! A profile route is guarded by a recursive [`RequestMatch`]
//! predicate over the request's method and URI path, and classified
//! by [`ResponseClass`] predicates over the response's status code.
use vstd::prelude::*;

verus! {

// ===== the modelled HTTP request and response =====

/// An HTTP request method; matched by exact equality.
#[derive(Clone, Copy, Debug, PartialEq, Eq, Structural)]
pub enum Method {
    Get,
    Head,
    Post,
    Put,
    Delete,
    Connect,
    Options,
    Trace,
    Patch,
}

/// The mathematical value of a request: what the predicates read.
#[verifier::ext_equal]
pub ghost struct RequestView {
    pub method: Method,
    pub path: Seq<char>,
}

/// The part of an HTTP request that routing reads: the method and the
/// URI path (not including the query).
#[derive(Debug)]
pub struct Request {
    pub method: Method,
    pub path: String,
}

impl View for Request {
    type V = RequestView;

    open spec fn view(&self) -> RequestView {
        RequestView { method: self.method, path: self.path@ }
    }
}

/// The part of an HTTP response that classification reads: the status
/// code.
#[derive(Clone, Copy, Debug)]
pub struct Response {
    pub status: u16,
}

// ===== path patterns, matched by the regex engine =====

/// Whether the regular expression `pattern` matches somewhere in
/// `text`; a pattern that does not compile matches nothing.  The
/// result is a function of the two strings alone.
pub uninterp spec fn pattern_matches(pattern: Seq<char>, text: Seq<char>) -> bool;

/// Relies on `regex::Regex::new` and `regex::Regex::is_match`: both
/// are deterministic, so whether the compiled `pattern` matches
/// `text` depends on the two strings alone (and a pattern that fails
/// to compile matches nothing).
#[verifier::external_body]
fn regex_is_match(pattern: &str, text: &str) -> (r: bool)
    ensures
        r == pattern_matches(pattern@, text@),
{
    match regex::Regex::new(pattern) {
        Ok(re) => re.is_match(text),
        Err(_) => false,
    }
}

// ===== request matching =====

/// A recursive predicate over a request, built from conjunction,
/// disjunction, negation, a path regular expression and an exact
/// method.
#[derive(Debug)]
pub enum RequestMatch {
    /// Every child matches; in particular `All([])` always matches.
    All(Vec<RequestMatch>),
    /// Some child matches; in particular `Any([])` never matches.
    Any(Vec<RequestMatch>),
    /// The child does not match.
    Not(Box<RequestMatch>),
    /// The regular expression matches the request's URI path.
    Path(String),
    /// The request has exactly this method.
    Method(Method),
}

/// What [`RequestMatch::is_match`] decides, over the request's value.
pub open spec fn spec_request_match(m: RequestMatch, req: RequestView) -> bool
    decreases m,
{
    match m {
        RequestMatch::All(ms) => forall|i: int|
            0 <= i < ms@.len() ==> spec_request_match(#[trigger] ms@[i], req),
        RequestMatch::Any(ms) => exists|i: int|
            0 <= i < ms@.len() && spec_request_match(#[trigger] ms@[i], req),
        RequestMatch::Not(b) => !spec_request_match(*b, req),
        RequestMatch::Path(p) => pattern_matches(p@, req.path),
        RequestMatch::Method(mm) => mm == req.method,
    }
}

impl RequestMatch {
    /// Decides the predicate on a request.
    #[verifier::loop_isolation(false)]
    pub fn is_match(&self, req: &Request) -> (r: bool)
        ensures
            r == spec_request_match(*self, req@),
        decreases *self,
    {
        match self {
            RequestMatch::Method(m) => *m == req.method,
            RequestMatch::Path(p) => regex_is_match(p.as_str(), req.path.as_str()),
            RequestMatch::Not(m) => !m.is_match(req),
            RequestMatch::All(ms) => {
                let mut i: usize = 0;
                while i < ms.len()
                    invariant
                        0 <= i <= ms@.len(),
                        forall|j: int| 0 <= j < i ==> spec_request_match(#[trigger] ms@[j], req@),
                    decreases ms@.len() - i,
                {
                    if !ms[i].is_match(req) {
                        return false;
                    }
                    i = i + 1;
                }
                true
            },
            RequestMatch::Any(ms) => {
                let mut i: usize = 0;
                while i < ms.len()
                    invariant
                        0 <= i <= ms@.len(),
                        forall|j: int| 0 <= j < i ==> !spec_request_match(#[trigger] ms@[j], req@),
                    decreases ms@.len() - i,
                {
                    if ms[i].is_match(req) {
                        return true;
                    }
                    i = i + 1;
                }
                false
            },
        }
    }
}

// ===== response matching and classification =====

/// A recursive predicate over a response, built from conjunction,
/// disjunction, negation and an inclusive status-code range.
#[derive(Debug)]
pub enum ResponseMatch {
    /// Every child matches; in particular `All([])` always matches.
    All(Vec<ResponseMatch>),
    /// Some child matches; in particular `Any([])` never matches.
    Any(Vec<ResponseMatch>),
    /// The child does not match.
    Not(Box<ResponseMatch>),
    /// The status code lies in `[min, max]`, both ends included.
    Status { min: u16, max: u16 },
}

/// What [`ResponseMatch::is_match`] decides, over the status code.
pub open spec fn spec_response_match(m: ResponseMatch, status: u16) -> bool
    decreases m,
{
    match m {
        ResponseMatch::All(ms) => forall|i: int|
            0 <= i < ms@.len() ==> spec_response_match(#[trigger] ms@[i], status),
        ResponseMatch::Any(ms) => exists|i: int|
            0 <= i < ms@.len() && spec_response_match(#[trigger] ms@[i], status),
        ResponseMatch::Not(b) => !spec_response_match(*b, status),
        ResponseMatch::Status { min, max } => min <= status && status <= max,
    }
}

impl ResponseMatch {
    /// Decides the predicate on a response.
    #[verifier::loop_isolation(false)]
    pub fn is_match(&self, rsp: &Response) -> (r: bool)
        ensures
            r == spec_response_match(*self, rsp.status),
        decreases *self,
    {
        match self {
            ResponseMatch::Status { min, max } => *min <= rsp.status && rsp.status <= *max,
            ResponseMatch::Not(m) => !m.is_match(rsp),
            ResponseMatch::All(ms) => {
                let mut i: usize = 0;
                while i < ms.len()
                    invariant
                        0 <= i <= ms@.len(),
                        forall|j: int|
                            0 <= j < i ==> spec_response_match(#[trigger] ms@[j], rsp.status),
                    decreases ms@.len() - i,
                {
                    if !ms[i].is_match(rsp) {
                        return false;
                    }
                    i = i + 1;
                }
                true
            },
            ResponseMatch::Any(ms) => {
                let mut i: usize = 0;
                while i < ms.len()
                    invariant
                        0 <= i <= ms@.len(),
                        forall|j: int|
                            0 <= j < i ==> !spec_response_match(#[trigger] ms@[j], rsp.status),
                    decreases ms@.len() - i,
                {
                    if ms[i].is_match(rsp) {
                        return true;
                    }
                    i = i + 1;
                }
                false
            },
        }
    }
}

/// Classifies responses, for retry and metric purposes: a response
/// matched by `match_` is a failure iff `is_failure` is set.
#[derive(Debug)]
pub struct ResponseClass {
    is_failure: bool,
    match_: ResponseMatch,
}

impl ResponseClass {
    /// What this class's predicate is.
    pub closed spec fn spec_match(&self) -> ResponseMatch {
        self.match_
    }

    /// Bundles a failure flag with a response predicate.
    pub fn new(is_failure: bool, match_: ResponseMatch) -> (r: ResponseClass)
        ensures
            r.is_failure() == is_failure,
            r.spec_match() == match_,
    {
        ResponseClass { is_failure, match_ }
    }

    /// Whether responses of this class count as failures.
    #[verifier::when_used_as_spec(spec_is_failure)]
    pub fn is_failure(&self) -> (r: bool)
        ensures
            r == self.spec_is_failure(),
    {
        self.is_failure
    }

    /// Whether responses of this class count as failures.
    pub closed spec fn spec_is_failure(&self) -> bool {
        self.is_failure
    }

    /// Decides the class's predicate on a response.
    pub fn is_match(&self, rsp: &Response) -> (r: bool)
        ensures
            r == spec_response_match(self.spec_match(), rsp.status),
    {
        self.match_.is_match(rsp)
    }
}

// ===== laws =====

/// The empty-composite identities: `All([])` matches every request,
/// `Any([])` matches none, and `Not` negates its child, for every
/// request value.
pub proof fn lemma_empty_composites(
    all: RequestMatch,
    any: RequestMatch,
    not: RequestMatch,
    inner: RequestMatch,
    req: RequestView,
)
    requires
        all matches RequestMatch::All(ms) && ms@.len() == 0,
        any matches RequestMatch::Any(ms) && ms@.len() == 0,
        not matches RequestMatch::Not(b) && *b == inner,
    ensures
        spec_request_match(all, req),
        !spec_request_match(any, req),
        spec_request_match(not, req) == !spec_request_match(inner, req),
{
}

/// The same identities for response predicates, for every status.
pub proof fn lemma_empty_response_composites(
    all: ResponseMatch,
    any: ResponseMatch,
    not: ResponseMatch,
    inner: ResponseMatch,
    status: u16,
)
    requires
        all matches ResponseMatch::All(ms) && ms@.len() == 0,
        any matches ResponseMatch::Any(ms) && ms@.len() == 0,
        not matches ResponseMatch::Not(b) && *b == inner,
    ensures
        spec_response_match(all, status),
        !spec_response_match(any, status),
        spec_response_match(not, status) == !spec_response_match(inner, status),
{
}

} // verus!
