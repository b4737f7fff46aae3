//! Router telemetry: error counters and their Prometheus rendering.
//!
//! An [`ErrorSensor`] counts router errors per direction and kind; a
//! [`Report`] renders the counters and the active-query gauge in
//! Prometheus exposition format.
use vstd::prelude::*;

verus! {

// ===== decimal rendering =====

/// The character of one decimal digit.
pub open spec fn digit_char(d: nat) -> char {
    if d == 0 {
        '0'
    } else if d == 1 {
        '1'
    } else if d == 2 {
        '2'
    } else if d == 3 {
        '3'
    } else if d == 4 {
        '4'
    } else if d == 5 {
        '5'
    } else if d == 6 {
        '6'
    } else if d == 7 {
        '7'
    } else if d == 8 {
        '8'
    } else {
        '9'
    }
}

/// The decimal digits of `n`, most significant first.
pub open spec fn spec_dec(n: nat) -> Seq<char>
    decreases n,
{
    if n < 10 {
        seq![digit_char(n)]
    } else {
        spec_dec(n / 10).push(digit_char(n % 10))
    }
}

/// One decimal digit as a string.
fn digit_str(d: u64) -> (s: &'static str)
    requires
        d < 10,
    ensures
        s@ == seq![digit_char(d as nat)],
{
    proof {
        reveal_strlit("0");
        reveal_strlit("1");
        reveal_strlit("2");
        reveal_strlit("3");
        reveal_strlit("4");
        reveal_strlit("5");
        reveal_strlit("6");
        reveal_strlit("7");
        reveal_strlit("8");
        reveal_strlit("9");
    }
    let s: &'static str = match d {
        0 => "0",
        1 => "1",
        2 => "2",
        3 => "3",
        4 => "4",
        5 => "5",
        6 => "6",
        7 => "7",
        8 => "8",
        _ => "9",
    };
    proof {
        assert(s@ =~= seq![digit_char(d as nat)]);
    }
    s
}

/// Renders `n` in decimal.
pub fn u64_to_dec(n: u64) -> (s: String)
    ensures
        s@ == spec_dec(n as nat),
    decreases n,
{
    if n < 10 {
        let s = String::from_str(digit_str(n));
        s
    } else {
        let mut s = u64_to_dec(n / 10);
        s.append(digit_str(n % 10));
        s
    }
}

// ===== error labels =====

/// Traffic direction of the proxy side a sensor observes.
#[derive(Clone, Copy, Debug, PartialEq, Eq, Structural)]
pub enum Direction {
    Inbound,
    Outbound,
}

/// The Prometheus label of a direction.
pub open spec fn spec_direction_label(d: Direction) -> Seq<char> {
    match d {
        Direction::Inbound => "direction=\"inbound\""@,
        Direction::Outbound => "direction=\"outbound\""@,
    }
}

impl Direction {
    /// The Prometheus label of this direction.
    pub fn label(&self) -> (s: String)
        ensures
            s@ == spec_direction_label(*self),
    {
        match self {
            Direction::Inbound => String::from_str("direction=\"inbound\""),
            Direction::Outbound => String::from_str("direction=\"outbound\""),
        }
    }
}

/// What went wrong in the router.
#[derive(Clone, Copy, Debug, PartialEq, Eq, Structural)]
pub enum ErrorKind {
    /// A route-level error.
    Route,
    /// The routing cache was full.
    Capacity,
    /// No route recognized the request.
    NotRecognized,
    /// The inner service failed.
    Inner,
}

/// The Prometheus label of an error kind.
pub open spec fn spec_kind_label(k: ErrorKind) -> Seq<char> {
    match k {
        ErrorKind::Route => "kind=\"route\""@,
        ErrorKind::Capacity => "kind=\"at_capacity\""@,
        ErrorKind::NotRecognized => "kind=\"route_not_recognized\""@,
        ErrorKind::Inner => "kind=\"inner\""@,
    }
}

impl ErrorKind {
    /// The Prometheus label of this kind.
    pub fn label(&self) -> (s: String)
        ensures
            s@ == spec_kind_label(*self),
    {
        match self {
            ErrorKind::Route => String::from_str("kind=\"route\""),
            ErrorKind::Capacity => String::from_str("kind=\"at_capacity\""),
            ErrorKind::NotRecognized => String::from_str("kind=\"route_not_recognized\""),
            ErrorKind::Inner => String::from_str("kind=\"inner\""),
        }
    }
}

/// One counter's label set: a direction and an error kind.
#[derive(Clone, Copy, Debug, PartialEq, Eq, Structural)]
pub struct ErrorLabels {
    pub direction: Direction,
    pub kind: ErrorKind,
}

/// The Prometheus rendering of a label set.
pub open spec fn spec_error_labels(l: ErrorLabels) -> Seq<char> {
    spec_direction_label(l.direction) + ","@ + spec_kind_label(l.kind)
}

impl ErrorLabels {
    /// The Prometheus rendering of this label set.
    pub fn label(&self) -> (s: String)
        ensures
            s@ == spec_error_labels(*self),
    {
        let mut s = self.direction.label();
        s.append(",");
        let kind = self.kind.label();
        s.append(kind.as_str());
        s
    }
}

// ===== counter scopes =====

/// A counter bumped by one, wrapping at the top.
pub open spec fn wrap_incr(n: u64) -> u64 {
    if n == u64::MAX {
        0
    } else {
        (n + 1) as u64
    }
}

/// `scopes` with the counter of `l` bumped: the first slot labelled
/// `l` is incremented, or a fresh slot `(l, 1)` is appended.
pub open spec fn spec_incr_scope(s: Seq<(ErrorLabels, u64)>, l: ErrorLabels) -> Seq<
    (ErrorLabels, u64),
>
    decreases s.len(),
{
    if s.len() == 0 {
        seq![(l, 1u64)]
    } else if s[0].0 == l {
        seq![(s[0].0, wrap_incr(s[0].1))] + s.drop_first()
    } else {
        seq![s[0]] + spec_incr_scope(s.drop_first(), l)
    }
}

/// Bumps the counter of `l`, appending a fresh slot on first use.
#[verifier::loop_isolation(false)]
fn incr_scope(scopes: &mut Vec<(ErrorLabels, u64)>, l: ErrorLabels)
    ensures
        final(scopes)@ == spec_incr_scope(old(scopes)@, l),
{
    let ghost orig: Seq<(ErrorLabels, u64)> = scopes@;
    let mut i: usize = 0;
    proof {
        assert(orig.take(0) =~= Seq::<(ErrorLabels, u64)>::empty());
        assert(orig.skip(0) =~= orig);
        assert(orig.take(0) + spec_incr_scope(orig.skip(0), l) =~= spec_incr_scope(orig, l));
    }
    while i < scopes.len()
        invariant
            0 <= i <= orig.len(),
            scopes@ == orig,
            forall|j: int| 0 <= j < i ==> (#[trigger] orig[j]).0 != l,
            spec_incr_scope(orig, l) == orig.take(i as int) + spec_incr_scope(
                orig.skip(i as int),
                l,
            ),
        decreases orig.len() - i,
    {
        if scopes[i].0 == l {
            let count: u64 = scopes[i].1;
            let bumped: u64 = if count == u64::MAX {
                0
            } else {
                count + 1
            };
            proof {
                assert(orig.skip(i as int)[0] == orig[i as int]);
                assert(orig.skip(i as int).drop_first() =~= orig.skip(i + 1));
                assert(spec_incr_scope(orig.skip(i as int), l) =~= seq![
                    (orig[i as int].0, wrap_incr(orig[i as int].1)),
                ] + orig.skip(i + 1));
            }
            scopes.set(i, (l, bumped));
            proof {
                assert(scopes@ =~= orig.take(i as int) + seq![
                    (orig[i as int].0, wrap_incr(orig[i as int].1)),
                ] + orig.skip(i + 1));
            }
            return ;
        }
        proof {
            assert(orig.skip(i as int)[0] == orig[i as int]);
            assert(orig.skip(i as int).drop_first() =~= orig.skip(i + 1));
            assert(orig.take(i as int).push(orig[i as int]) =~= orig.take(i + 1));
            assert(orig.take(i as int) + (seq![orig[i as int]] + spec_incr_scope(
                orig.skip(i + 1),
                l,
            )) =~= orig.take(i + 1) + spec_incr_scope(orig.skip(i + 1), l));
        }
        i = i + 1;
    }
    proof {
        assert(orig.skip(orig.len() as int) =~= Seq::<(ErrorLabels, u64)>::empty());
        assert(orig.take(orig.len() as int) =~= orig);
    }
    scopes.push((l, 1));
    proof {
        assert(scopes@ =~= orig + seq![(l, 1u64)]);
        assert(spec_incr_scope(orig, l) =~= orig + seq![(l, 1u64)]);
    }
}

// ===== sensors =====

/// Counts router errors for one direction.  Dropping a sensor drops
/// its counts from future reports.
#[derive(Debug)]
pub struct ErrorSensor {
    direction: Direction,
    scopes: Vec<(ErrorLabels, u64)>,
}

impl ErrorSensor {
    /// The direction this sensor observes.
    pub closed spec fn spec_direction(&self) -> Direction {
        self.direction
    }

    /// The per-label counters, in order of first use.
    pub closed spec fn spec_scopes(&self) -> Seq<(ErrorLabels, u64)> {
        self.scopes@
    }

    /// Counts a request that no route recognized.
    pub fn route_not_recognized(&mut self)
        ensures
            final(self).spec_scopes() == spec_incr_scope(
                old(self).spec_scopes(),
                ErrorLabels {
                    direction: old(self).spec_direction(),
                    kind: ErrorKind::NotRecognized,
                },
            ),
            final(self).spec_direction() == old(self).spec_direction(),
    {
        let l = ErrorLabels { direction: self.direction, kind: ErrorKind::NotRecognized };
        incr_scope(&mut self.scopes, l);
    }

    /// Counts a dispatch refused because the cache was full.
    pub fn at_capacity(&mut self)
        ensures
            final(self).spec_scopes() == spec_incr_scope(
                old(self).spec_scopes(),
                ErrorLabels { direction: old(self).spec_direction(), kind: ErrorKind::Capacity },
            ),
            final(self).spec_direction() == old(self).spec_direction(),
    {
        let l = ErrorLabels { direction: self.direction, kind: ErrorKind::Capacity };
        incr_scope(&mut self.scopes, l);
    }

    /// Counts a route-level error.
    pub fn route_error(&mut self)
        ensures
            final(self).spec_scopes() == spec_incr_scope(
                old(self).spec_scopes(),
                ErrorLabels { direction: old(self).spec_direction(), kind: ErrorKind::Route },
            ),
            final(self).spec_direction() == old(self).spec_direction(),
    {
        let l = ErrorLabels { direction: self.direction, kind: ErrorKind::Route };
        incr_scope(&mut self.scopes, l);
    }

    /// Counts an inner-service error.
    pub fn inner_error(&mut self)
        ensures
            final(self).spec_scopes() == spec_incr_scope(
                old(self).spec_scopes(),
                ErrorLabels { direction: old(self).spec_direction(), kind: ErrorKind::Inner },
            ),
            final(self).spec_direction() == old(self).spec_direction(),
    {
        let l = ErrorLabels { direction: self.direction, kind: ErrorKind::Inner };
        incr_scope(&mut self.scopes, l);
    }
}

/// Counts active Destination service queries.
#[derive(Debug)]
pub struct QueryCounter {
    active: u64,
}

impl QueryCounter {
    /// How many queries are active.
    pub closed spec fn spec_active(&self) -> u64 {
        self.active
    }

    /// A counter with no active queries.
    pub fn new() -> (r: QueryCounter)
        ensures
            r.spec_active() == 0,
    {
        QueryCounter { active: 0 }
    }

    /// How many queries are active.
    pub fn active_queries(&self) -> (n: u64)
        ensures
            n == self.spec_active(),
    {
        self.active
    }

    /// A query began.
    pub fn query_started(&mut self)
        requires
            old(self).spec_active() < u64::MAX,
        ensures
            final(self).spec_active() == old(self).spec_active() + 1,
    {
        self.active = self.active + 1;
    }

    /// A query ended.
    pub fn query_finished(&mut self)
        requires
            old(self).spec_active() > 0,
        ensures
            final(self).spec_active() == old(self).spec_active() - 1,
    {
        self.active = self.active - 1;
    }
}

/// The router's sensor registry: the active-query gauge, and a
/// factory for per-direction error sensors.
#[derive(Debug)]
pub struct Sensors {
    active_destination_queries: QueryCounter,
}

impl Sensors {
    /// How many Destination queries are active.
    pub closed spec fn spec_active(&self) -> u64 {
        self.active_destination_queries.spec_active()
    }

    /// A registry with no activity recorded.
    pub fn new() -> (r: Sensors)
        ensures
            r.spec_active() == 0,
    {
        Sensors { active_destination_queries: QueryCounter::new() }
    }

    /// A fresh error sensor for one direction.
    pub fn error_total(&self, direction: Direction) -> (s: ErrorSensor)
        ensures
            s.spec_direction() == direction,
            s.spec_scopes() == Seq::<(ErrorLabels, u64)>::empty(),
    {
        let scopes: Vec<(ErrorLabels, u64)> = Vec::new();
        ErrorSensor { direction, scopes }
    }

    /// The active-query counter.
    pub fn query_counter(&self) -> (r: &QueryCounter)
        ensures
            r.spec_active() == self.spec_active(),
    {
        &self.active_destination_queries
    }

    /// The active-query counter, for recording.
    pub fn query_counter_mut(&mut self) -> (r: &mut QueryCounter)
        ensures
            r.spec_active() == old(self).spec_active(),
            final(self).spec_active() == final(r).spec_active(),
    {
        &mut self.active_destination_queries
    }

    /// A snapshot for rendering.
    pub fn report(&self) -> (r: Report)
        ensures
            r.spec_active() == self.spec_active(),
    {
        Report { active_destination_queries: self.active_destination_queries.active }
    }
}

// ===== the Prometheus report =====

/// One rendered counter line.
pub open spec fn spec_scope_line(e: (ErrorLabels, u64)) -> Seq<char> {
    "router_error_total{"@ + spec_error_labels(e.0) + "} "@ + spec_dec(e.1 as nat) + "\n"@
}

/// All rendered counter lines, in scope order.
pub open spec fn spec_scope_lines(s: Seq<(ErrorLabels, u64)>) -> Seq<char>
    decreases s.len(),
{
    if s.len() == 0 {
        Seq::empty()
    } else {
        spec_scope_line(s[0]) + spec_scope_lines(s.drop_first())
    }
}

/// The full report: the error-counter family followed by the
/// active-query gauge.
pub open spec fn spec_report(scopes: Seq<(ErrorLabels, u64)>, active: u64) -> Seq<char> {
    "# HELP router_error_total Total number of router errors.\n"@
        + "# TYPE router_error_total counter\n"@ + spec_scope_lines(scopes)
        + "# HELP router_active_destination_queries Current number of active Destination service queries.\n"@
        + "# TYPE router_active_destination_queries gauge\n"@
        + "router_active_destination_queries "@ + spec_dec(active as nat) + "\n"@
}

/// Renders the metrics of a set of router sensors.
#[derive(Debug)]
pub struct Report {
    active_destination_queries: u64,
}

impl Report {
    /// The gauge value the report carries.
    pub closed spec fn spec_active(&self) -> u64 {
        self.active_destination_queries
    }

    /// Renders the error counters of `errors` and the active-query
    /// gauge in Prometheus exposition format.
    #[verifier::loop_isolation(false)]
    pub fn render(&self, errors: &ErrorSensor) -> (s: String)
        ensures
            s@ == spec_report(errors.spec_scopes(), self.spec_active()),
    {
        let ghost scopes: Seq<(ErrorLabels, u64)> = errors.spec_scopes();
        let mut s = String::from_str("# HELP router_error_total Total number of router errors.\n");
        s.append("# TYPE router_error_total counter\n");
        let mut i: usize = 0;
        let ghost head: Seq<char> = s@;
        while i < errors.scopes.len()
            invariant
                0 <= i <= scopes.len(),
                errors.scopes@ == scopes,
                s@ == head + spec_scope_lines(scopes.take(i as int)),
            decreases scopes.len() - i,
        {
            s.append("router_error_total{");
            let labels = errors.scopes[i].0.label();
            s.append(labels.as_str());
            s.append("} ");
            let count = u64_to_dec(errors.scopes[i].1);
            s.append(count.as_str());
            s.append("\n");
            proof {
                lemma_scope_lines_snoc(scopes, i as int);
            }
            i = i + 1;
        }
        proof {
            assert(scopes.take(scopes.len() as int) =~= scopes);
        }
        s.append(
            "# HELP router_active_destination_queries Current number of active Destination service queries.\n",
        );
        s.append("# TYPE router_active_destination_queries gauge\n");
        s.append("router_active_destination_queries ");
        let active = u64_to_dec(self.active_destination_queries);
        s.append(active.as_str());
        s.append("\n");
        s
    }
}

/// Rendering one more scope appends one more line.
proof fn lemma_scope_lines_snoc(s: Seq<(ErrorLabels, u64)>, i: int)
    requires
        0 <= i < s.len(),
    ensures
        spec_scope_lines(s.take(i + 1)) == spec_scope_lines(s.take(i)) + spec_scope_line(s[i]),
    decreases i,
{
    if i == 0 {
        assert(s.take(1)[0] == s[0]);
        assert(s.take(1).drop_first() =~= Seq::<(ErrorLabels, u64)>::empty());
        assert(s.take(0) =~= Seq::<(ErrorLabels, u64)>::empty());
        assert(spec_scope_lines(s.take(1)) =~= spec_scope_lines(s.take(0)) + spec_scope_line(s[0]));
    } else {
        lemma_scope_lines_snoc(s.drop_first(), i - 1);
        assert(s.take(i + 1)[0] == s[0]);
        assert(s.take(i + 1).drop_first() =~= s.drop_first().take(i));
        assert(s.take(i)[0] == s[0]);
        assert(s.take(i).drop_first() =~= s.drop_first().take(i - 1));
        assert(s.drop_first()[i - 1] == s[i]);
        assert(spec_scope_lines(s.take(i + 1)) =~= spec_scope_line(s[0]) + spec_scope_lines(
            s.drop_first().take(i),
        ));
        assert(spec_scope_line(s[0]) + (spec_scope_lines(s.drop_first().take(i - 1))
            + spec_scope_line(s[i])) =~= (spec_scope_line(s[0]) + spec_scope_lines(
            s.drop_first().take(i - 1),
        )) + spec_scope_line(s[i]));
    }
}

} // verus!
