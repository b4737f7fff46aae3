//! Profile routes: labelled, classified request-handling
//! configurations.
//!
//! A [`Route`] bundles a key-sorted label map, an ordered list of
//! response classes, and optional retry and timeout policy.  A
//! profile is an ordered list of `(RequestMatch, Route)` pairs whose
//! order defines match precedence.
use vstd::prelude::*;

use crate::matching::RequestMatch;
use crate::matching::ResponseClass;
use crate::order::lemma_seq_char_lt_irrefl;
use crate::order::lemma_seq_char_lt_trans;
use crate::order::lemma_seq_char_lt_total;
use crate::order::seq_char_lt;
use crate::order::str_lt;
use std::sync::Arc;
use vstd::pervasive::VecAdditionalExecFns;

verus! {

// ===== label sequences as mathematics =====

/// The values of a sequence of owned label pairs.
pub open spec fn pair_views(s: Seq<(String, String)>) -> Seq<(Seq<char>, Seq<char>)> {
    Seq::new(s.len(), |i: int| (s[i].0@, s[i].1@))
}

/// The map a sequence of label pairs denotes: for a repeated key, the
/// later pair wins.
pub open spec fn label_map(s: Seq<(Seq<char>, Seq<char>)>) -> Map<Seq<char>, Seq<char>>
    decreases s.len(),
{
    if s.len() == 0 {
        Map::empty()
    } else {
        label_map(s.drop_last()).insert(s.last().0, s.last().1)
    }
}

/// Keys strictly ascend from each pair to the next.
pub open spec fn sorted_unique(s: Seq<(Seq<char>, Seq<char>)>) -> bool {
    forall|i: int| 0 <= i && i + 1 < s.len() ==> seq_char_lt(#[trigger] s[i].0, s[i + 1].0)
}

/// No two pairs share a key.
pub open spec fn distinct_keys(s: Seq<(Seq<char>, Seq<char>)>) -> bool {
    forall|i: int, j: int| 0 <= i < j < s.len() ==> (#[trigger] s[i]).0 != (#[trigger] s[j]).0
}

/// Some pair carries the key `k`.
pub open spec fn has_key(s: Seq<(Seq<char>, Seq<char>)>, k: Seq<char>) -> bool {
    exists|i: int| 0 <= i < s.len() && (#[trigger] s[i]).0 == k
}

/// In a sorted sequence every earlier key precedes every later key.
pub proof fn lemma_sorted_pairwise(s: Seq<(Seq<char>, Seq<char>)>, i: int, j: int)
    requires
        sorted_unique(s),
        0 <= i < j < s.len(),
    ensures
        seq_char_lt(s[i].0, s[j].0),
    decreases j - i,
{
    if j == i + 1 {
    } else {
        lemma_sorted_pairwise(s, i, j - 1);
        lemma_seq_char_lt_trans(s[i].0, s[j - 1].0, s[j].0);
    }
}

/// A sorted sequence has pairwise distinct keys.
pub proof fn lemma_sorted_distinct(s: Seq<(Seq<char>, Seq<char>)>)
    requires
        sorted_unique(s),
    ensures
        distinct_keys(s),
{
    assert forall|i: int, j: int| 0 <= i < j < s.len() implies (#[trigger] s[i]).0 != (
    #[trigger] s[j]).0 by {
        lemma_sorted_pairwise(s, i, j);
        lemma_seq_char_lt_irrefl(s[i].0);
    }
}

/// The denoted map contains exactly the keys the sequence carries.
pub proof fn lemma_label_map_contains(s: Seq<(Seq<char>, Seq<char>)>, k: Seq<char>)
    ensures
        label_map(s).contains_key(k) <==> has_key(s, k),
    decreases s.len(),
{
    if s.len() == 0 {
    } else {
        lemma_label_map_contains(s.drop_last(), k);
        if k == s.last().0 {
            assert(s[s.len() - 1].0 == k);
        } else {
            if has_key(s.drop_last(), k) {
                let i = choose|i: int| 0 <= i < s.drop_last().len() && s.drop_last()[i].0 == k;
                assert(s[i].0 == k);
            }
            if has_key(s, k) {
                let i = choose|i: int| 0 <= i < s.len() && s[i].0 == k;
                assert(i < s.len() - 1);
                assert(s.drop_last()[i].0 == k);
            }
        }
    }
}

/// With distinct keys, the denoted map sends each key to its pair's
/// value.
pub proof fn lemma_label_map_get(s: Seq<(Seq<char>, Seq<char>)>, i: int)
    requires
        distinct_keys(s),
        0 <= i < s.len(),
    ensures
        label_map(s).contains_key(s[i].0),
        label_map(s)[s[i].0] == s[i].1,
    decreases s.len(),
{
    if i == s.len() - 1 {
    } else {
        assert forall|a: int, b: int|
            0 <= a < b < s.drop_last().len() implies (#[trigger] s.drop_last()[a]).0 != (
        #[trigger] s.drop_last()[b]).0 by {
            assert(s[a].0 != s[b].0);
        }
        lemma_label_map_get(s.drop_last(), i);
        assert(s.drop_last()[i] == s[i]);
        assert(s[i].0 != s.last().0);
    }
}

/// Inserting a fresh key anywhere in the sequence inserts it into the
/// denoted map.
pub proof fn lemma_label_map_insert_at(
    s: Seq<(Seq<char>, Seq<char>)>,
    p: int,
    kv: (Seq<char>, Seq<char>),
)
    requires
        0 <= p <= s.len(),
        !has_key(s, kv.0),
    ensures
        label_map(s.insert(p, kv)) == label_map(s).insert(kv.0, kv.1),
    decreases s.len(),
{
    let t = s.insert(p, kv);
    if p == s.len() {
        assert(t.drop_last() =~= s);
        assert(t.last() == kv);
    } else {
        assert(t.last() == s.last());
        assert(t.drop_last() =~= s.drop_last().insert(p, kv));
        assert forall|i: int| 0 <= i < s.drop_last().len() implies (#[trigger] s.drop_last()[
        i]).0 != kv.0 by {
            assert(s[i].0 != kv.0);
        }
        lemma_label_map_insert_at(s.drop_last(), p, kv);
        assert(s[s.len() - 1].0 != kv.0);
        assert(label_map(s.drop_last()).insert(kv.0, kv.1).insert(s.last().0, s.last().1)
            =~= label_map(s.drop_last()).insert(s.last().0, s.last().1).insert(kv.0, kv.1));
    }
}

/// Overwriting the value at one pair overwrites that key in the
/// denoted map.
pub proof fn lemma_label_map_update(s: Seq<(Seq<char>, Seq<char>)>, p: int, v: Seq<char>)
    requires
        distinct_keys(s),
        0 <= p < s.len(),
    ensures
        label_map(s.update(p, (s[p].0, v))) == label_map(s).insert(s[p].0, v),
    decreases s.len(),
{
    let t = s.update(p, (s[p].0, v));
    if p == s.len() - 1 {
        assert(t.drop_last() =~= s.drop_last());
        assert(t.last() == (s[p].0, v));
        assert(label_map(s.drop_last()).insert(s[p].0, v) =~= label_map(s.drop_last()).insert(
            s.last().0,
            s.last().1,
        ).insert(s[p].0, v));
    } else {
        assert(t.last() == s.last());
        assert(t.drop_last() =~= s.drop_last().update(p, (s[p].0, v)));
        assert forall|a: int, b: int|
            0 <= a < b < s.drop_last().len() implies (#[trigger] s.drop_last()[a]).0 != (
        #[trigger] s.drop_last()[b]).0 by {
            assert(s[a].0 != s[b].0);
        }
        assert(s.drop_last()[p] == s[p]);
        lemma_label_map_update(s.drop_last(), p, v);
        assert(s[p].0 != s[s.len() - 1].0);
        assert(label_map(s.drop_last()).insert(s[p].0, v).insert(s.last().0, s.last().1)
            =~= label_map(s.drop_last()).insert(s.last().0, s.last().1).insert(s[p].0, v));
    }
}

/// Labels round-trip as a key-sorted map regardless of input order: a
/// sorted sequence is determined by the map it denotes, so any two
/// inputs that denote the same map (in particular, any two orderings
/// of the same distinct-keyed pairs) yield the same sorted labels.
pub proof fn lemma_sorted_canonical(x: Seq<(Seq<char>, Seq<char>)>, y: Seq<(Seq<char>, Seq<char>)>)
    requires
        sorted_unique(x),
        sorted_unique(y),
        label_map(x) == label_map(y),
    ensures
        x == y,
    decreases x.len() + y.len(),
{
    lemma_sorted_distinct(x);
    lemma_sorted_distinct(y);
    if x.len() == 0 && y.len() == 0 {
        assert(x =~= y);
    } else if x.len() == 0 {
        assert(label_map(y).contains_key(y.last().0));
        assert(!label_map(x).contains_key(y.last().0));
    } else if y.len() == 0 {
        assert(label_map(x).contains_key(x.last().0));
        assert(!label_map(y).contains_key(x.last().0));
    } else {
        let kx = x.last().0;
        let ky = y.last().0;
        // The largest key of the shared map ends both sequences.
        if kx != ky {
            assert(label_map(x).contains_key(kx));
            lemma_label_map_contains(y, kx);
            let i = choose|i: int| 0 <= i < y.len() && y[i].0 == kx;
            assert(i < y.len() - 1);
            lemma_sorted_pairwise(y, i, y.len() - 1);
            assert(seq_char_lt(kx, ky));
            assert(label_map(y).contains_key(ky));
            lemma_label_map_contains(x, ky);
            let j = choose|j: int| 0 <= j < x.len() && x[j].0 == ky;
            assert(j < x.len() - 1);
            lemma_sorted_pairwise(x, j, x.len() - 1);
            assert(seq_char_lt(ky, kx));
            lemma_seq_char_lt_trans(kx, ky, kx);
            lemma_seq_char_lt_irrefl(kx);
            assert(false);
        }
        // Equal values at that key.
        lemma_label_map_get(x, x.len() - 1);
        lemma_label_map_get(y, y.len() - 1);
        assert(x.last().1 == y.last().1);
        // Dropping the last pair removes the key from both maps.
        lemma_label_map_contains(x.drop_last(), kx);
        assert forall|i: int| 0 <= i < x.drop_last().len() implies (#[trigger] x.drop_last()[
        i]).0 != kx by {
            assert(x[i].0 != x[x.len() - 1].0);
        }
        assert(!label_map(x.drop_last()).contains_key(kx));
        assert(label_map(x.drop_last()) =~= label_map(x).remove(kx));
        lemma_label_map_contains(y.drop_last(), ky);
        assert forall|i: int| 0 <= i < y.drop_last().len() implies (#[trigger] y.drop_last()[
        i]).0 != ky by {
            assert(y[i].0 != y[y.len() - 1].0);
        }
        assert(!label_map(y.drop_last()).contains_key(ky));
        assert(label_map(y.drop_last()) =~= label_map(y).remove(ky));
        lemma_sorted_canonical(x.drop_last(), y.drop_last());
        assert(x.len() == y.len());
        assert forall|i: int| 0 <= i < x.len() implies x[i] == y[i] by {
            if i < x.len() - 1 {
                assert(x.drop_last()[i] == y.drop_last()[i]);
            } else {
                assert(x[i].0 =~= y[i].0);
                assert(x[i].1 =~= y[i].1);
                assert(x[i] =~= y[i]);
            }
        }
        assert(x =~= y);
    }
}

// ===== the shared label map =====

#[verifier::external_type_specification]
#[verifier::external_body]
#[verifier::reject_recursive_types(K)]
#[verifier::reject_recursive_types(V)]
#[verifier::reject_recursive_types(S)]
pub struct ExIndexMap<K, V, S>(indexmap::IndexMap<K, V, S>);

/// The key/value pairs an insertion-ordered label map holds, in
/// insertion order.
pub uninterp spec fn label_entries(m: indexmap::IndexMap<String, String>) -> Seq<
    (Seq<char>, Seq<char>),
>;

/// Relies on `indexmap::IndexMap::insert` (via `extend` on a fresh
/// map): inserting pairwise-distinct keys appends each pair in order,
/// so the map holds exactly the given pairs.
#[verifier::external_body]
fn index_map_from_pairs(pairs: Vec<(String, String)>) -> (m: indexmap::IndexMap<String, String>)
    requires
        distinct_keys(pair_views(pairs@)),
    ensures
        label_entries(m) == pair_views(pairs@),
{
    let mut m = indexmap::IndexMap::new();
    m.extend(pairs);
    m
}

/// Relies on `indexmap::IndexMap::new`: a fresh map holds no pairs.
#[verifier::external_body]
fn index_map_empty() -> (m: indexmap::IndexMap<String, String>)
    ensures
        label_entries(m) == Seq::<(Seq<char>, Seq<char>)>::empty(),
{
    indexmap::IndexMap::new()
}

/// A route's labels: a key-sorted map, shared by reference among
/// clones of the same route.
#[derive(Debug)]
pub struct Labels {
    entries: Arc<indexmap::IndexMap<String, String>>,
}

impl View for Labels {
    type V = Seq<(Seq<char>, Seq<char>)>;

    closed spec fn view(&self) -> Seq<(Seq<char>, Seq<char>)> {
        label_entries(*self.entries)
    }
}

impl Clone for Labels {
    /// Clones share the same underlying table.
    fn clone(&self) -> (r: Self)
        ensures
            r@ == self@,
    {
        Labels { entries: self.entries.clone() }
    }
}

// ===== response classes and retry policy =====

/// A route's ordered response classes, shared by reference among
/// clones of the same route.
#[derive(Debug)]
pub struct ResponseClasses {
    classes: Arc<Vec<ResponseClass>>,
}

impl View for ResponseClasses {
    type V = Seq<ResponseClass>;

    closed spec fn view(&self) -> Seq<ResponseClass> {
        self.classes@
    }
}

impl ResponseClasses {
    /// How many classes there are.
    pub fn len(&self) -> (n: usize)
        ensures
            n == self@.len(),
    {
        self.classes.len()
    }

    /// Whether there are no classes at all.
    pub fn is_empty(&self) -> (r: bool)
        ensures
            r == (self@.len() == 0),
    {
        self.classes.is_empty()
    }

    /// The class at position `i`.
    pub fn get(&self, i: usize) -> (r: &ResponseClass)
        requires
            i < self@.len(),
        ensures
            *r == self@[i as int],
    {
        &self.classes[i]
    }

    /// The shared table itself, for drivers that format labels.
    pub fn as_vec(&self) -> (r: &Arc<Vec<ResponseClass>>)
        ensures
            (**r)@ == self@,
    {
        &self.classes
    }
}

impl Clone for ResponseClasses {
    /// Clones share the same underlying table.
    fn clone(&self) -> (r: Self)
        ensures
            r@ == self@,
    {
        ResponseClasses { classes: self.classes.clone() }
    }
}

#[verifier::external_type_specification]
#[verifier::external_body]
pub struct ExBudget(tower_retry::budget::Budget);

/// Retry policy: a token-bucket budget, shared by reference among
/// clones of the same route.
#[derive(Debug)]
#[verifier::ext_equal]
pub struct Retries {
    budget: Arc<tower_retry::budget::Budget>,
}

impl Retries {
    /// The shared budget.
    pub closed spec fn spec_budget(&self) -> Arc<tower_retry::budget::Budget> {
        self.budget
    }

    /// The shared budget.
    pub fn budget(&self) -> (r: &Arc<tower_retry::budget::Budget>)
        ensures
            *r == self.spec_budget(),
    {
        &self.budget
    }
}

impl Clone for Retries {
    /// Clones share the same budget.
    fn clone(&self) -> (r: Self)
        ensures
            r == *self,
    {
        let r = Retries { budget: self.budget.clone() };
        proof {
            assert(r =~= *self);
        }
        r
    }
}

// ===== routes =====

/// The mathematical value of a route.
#[verifier::ext_equal]
pub ghost struct RouteView {
    /// Key-sorted label pairs.
    pub labels: Seq<(Seq<char>, Seq<char>)>,
    /// Ordered response classes.
    pub response_classes: Seq<ResponseClass>,
    /// Optional retry policy.
    pub retries: Option<Retries>,
    /// Optional dispatch timeout, in nanoseconds.
    pub timeout: Option<u64>,
}

/// A named, labelled request-handling configuration with optional
/// retry and timeout policy.
#[derive(Debug)]
pub struct Route {
    labels: Labels,
    response_classes: ResponseClasses,
    retries: Option<Retries>,
    timeout: Option<u64>,
}

impl View for Route {
    type V = RouteView;

    closed spec fn view(&self) -> RouteView {
        RouteView {
            labels: self.labels@,
            response_classes: self.response_classes@,
            retries: self.retries,
            timeout: self.timeout,
        }
    }
}

/// Places `(k, v)` into a key-sorted run of pairs: an existing key's
/// value is overwritten, a fresh key is inserted in order.
#[verifier::loop_isolation(false)]
fn insert_label(acc: &mut Vec<(String, String)>, k: String, v: String)
    requires
        sorted_unique(pair_views(old(acc)@)),
    ensures
        sorted_unique(pair_views(final(acc)@)),
        label_map(pair_views(final(acc)@)) == label_map(pair_views(old(acc)@)).insert(k@, v@),
{
    let ghost pv: Seq<(Seq<char>, Seq<char>)> = pair_views(acc@);
    let mut p: usize = 0;
    while p < acc.len() && str_lt(acc[p].0.as_str(), k.as_str())
        invariant
            0 <= p <= acc@.len(),
            forall|j: int| 0 <= j < p ==> seq_char_lt(#[trigger] pv[j].0, k@),
        decreases acc@.len() - p,
    {
        p = p + 1;
    }
    proof {
        lemma_sorted_distinct(pv);
    }
    if p < acc.len() && acc[p].0 == k {
        proof {
            assert(pv[p as int].0 == k@);
            lemma_label_map_update(pv, p as int, v@);
        }
        acc.set(p, (k, v));
        proof {
            assert(pair_views(acc@) =~= pv.update(p as int, (k@, v@)));
            assert(pv.update(p as int, (k@, v@)) == pv.update(p as int, (pv[p as int].0, v@)));
            assert forall|i: int| 0 <= i && i + 1 < pair_views(acc@).len() implies seq_char_lt(
                (#[trigger] pair_views(acc@)[i]).0,
                pair_views(acc@)[i + 1].0,
            ) by {
                assert(pair_views(acc@)[i].0 == pv[i].0);
                assert(pair_views(acc@)[i + 1].0 == pv[i + 1].0);
            }
        }
        return ;
    }
    proof {
        if p < pv.len() {
            assert(!seq_char_lt(pv[p as int].0, k@));
            assert(pv[p as int].0 != k@);
            if !seq_char_lt(k@, pv[p as int].0) {
                lemma_seq_char_lt_total(pv[p as int].0, k@);
            }
            assert(seq_char_lt(k@, pv[p as int].0));
        }
        assert forall|i: int| 0 <= i < pv.len() implies (#[trigger] pv[i]).0 != k@ by {
            if i < p {
                lemma_seq_char_lt_irrefl(k@);
            } else if i == p {
            } else {
                lemma_sorted_pairwise(pv, p as int, i);
                lemma_seq_char_lt_trans(k@, pv[p as int].0, pv[i].0);
                lemma_seq_char_lt_irrefl(k@);
            }
        }
        assert(!has_key(pv, k@));
        lemma_label_map_insert_at(pv, p as int, (k@, v@));
    }
    acc.insert(p, (k, v));
    proof {
        let pv2 = pair_views(acc@);
        assert(pv2 =~= pv.insert(p as int, (k@, v@)));
        assert forall|i: int| 0 <= i && i + 1 < pv2.len() implies seq_char_lt(
            (#[trigger] pv2[i]).0,
            pv2[i + 1].0,
        ) by {
            if i + 1 < p {
                assert(pv2[i] == pv[i] && pv2[i + 1] == pv[i + 1]);
            } else if i + 1 == p {
                assert(pv2[i] == pv[i] && pv2[i + 1] == (k@, v@));
            } else if i == p {
                assert(pv2[i] == (k@, v@) && pv2[i + 1] == pv[i]);
            } else {
                assert(pv2[i] == pv[i - 1] && pv2[i + 1] == pv[i]);
            }
        }
    }
}

impl Route {
    /// Gathers labels into a key-sorted map — for a repeated key the
    /// later pair wins — and pairs them with the given response
    /// classes; no retry policy and no timeout yet.
    #[verifier::loop_isolation(false)]
    pub fn new(label_pairs: Vec<(String, String)>, response_classes: Vec<ResponseClass>) -> (r:
        Route)
        ensures
            sorted_unique(r@.labels),
            label_map(r@.labels) == label_map(pair_views(label_pairs@)),
            r@.response_classes == response_classes@,
            r@.retries is None,
            r@.timeout is None,
    {
        let mut acc: Vec<(String, String)> = Vec::new();
        let mut i: usize = 0;
        proof {
            assert(pair_views(acc@) =~= Seq::<(Seq<char>, Seq<char>)>::empty());
            assert(pair_views(label_pairs@.subrange(0, 0)) =~= Seq::<
                (Seq<char>, Seq<char>),
            >::empty());
        }
        while i < label_pairs.len()
            invariant
                0 <= i <= label_pairs@.len(),
                sorted_unique(pair_views(acc@)),
                label_map(pair_views(acc@)) == label_map(
                    pair_views(label_pairs@.subrange(0, i as int)),
                ),
            decreases label_pairs@.len() - i,
        {
            let k: String = label_pairs[i].0.clone();
            let v: String = label_pairs[i].1.clone();
            insert_label(&mut acc, k, v);
            proof {
                let prefix = pair_views(label_pairs@.subrange(0, i + 1));
                assert(prefix.drop_last() =~= pair_views(label_pairs@.subrange(0, i as int)));
                assert(prefix.last() == (label_pairs@[i as int].0@, label_pairs@[i as int].1@));
            }
            i = i + 1;
        }
        proof {
            assert(label_pairs@.subrange(0, label_pairs@.len() as int) =~= label_pairs@);
            lemma_sorted_distinct(pair_views(acc@));
        }
        let ghost acc_view: Seq<(Seq<char>, Seq<char>)> = pair_views(acc@);
        let labels = Labels { entries: Arc::new(index_map_from_pairs(acc)) };
        Route {
            labels,
            response_classes: ResponseClasses { classes: Arc::new(response_classes) },
            retries: None,
            timeout: None,
        }
    }

    /// The shared, key-sorted label table.
    pub fn labels(&self) -> (r: &Arc<indexmap::IndexMap<String, String>>)
        ensures
            label_entries(**r) == self@.labels,
    {
        &self.labels.entries
    }

    /// The shared response classes.
    pub fn response_classes(&self) -> (r: &ResponseClasses)
        ensures
            r@ == self@.response_classes,
    {
        &self.response_classes
    }

    /// The retry policy, if one was set.
    pub fn retries(&self) -> (r: Option<&Retries>)
        ensures
            r is Some <==> self@.retries is Some,
            r matches Some(rt) ==> self@.retries == Some(*rt),
    {
        self.retries.as_ref()
    }

    /// The dispatch timeout in nanoseconds, if one was set.
    pub fn timeout(&self) -> (r: Option<u64>)
        ensures
            r == self@.timeout,
    {
        self.timeout
    }

    /// Installs a retry policy around the given shared budget.
    pub fn set_retries(&mut self, budget: Arc<tower_retry::budget::Budget>)
        ensures
            final(self)@.retries matches Some(rt) && rt.spec_budget() == budget,
            final(self)@.labels == old(self)@.labels,
            final(self)@.response_classes == old(self)@.response_classes,
            final(self)@.timeout == old(self)@.timeout,
    {
        self.retries = Some(Retries { budget });
    }

    /// Installs a dispatch timeout, in nanoseconds.
    pub fn set_timeout(&mut self, timeout: u64)
        ensures
            final(self)@.timeout == Some(timeout),
            final(self)@.labels == old(self)@.labels,
            final(self)@.response_classes == old(self)@.response_classes,
            final(self)@.retries == old(self)@.retries,
    {
        self.timeout = Some(timeout);
    }
}

impl Default for Route {
    /// The default route: no labels, no classes, no retries, no
    /// timeout.
    fn default() -> (r: Route)
        ensures
            r@ == (RouteView {
                labels: Seq::<(Seq<char>, Seq<char>)>::empty(),
                response_classes: Seq::<ResponseClass>::empty(),
                retries: None,
                timeout: None,
            }),
    {
        let empty_classes: Vec<ResponseClass> = Vec::new();
        let r = Route {
            labels: Labels { entries: Arc::new(index_map_empty()) },
            response_classes: ResponseClasses { classes: Arc::new(empty_classes) },
            retries: None,
            timeout: None,
        };
        proof {
            assert(r@ =~= (RouteView {
                labels: Seq::<(Seq<char>, Seq<char>)>::empty(),
                response_classes: Seq::<ResponseClass>::empty(),
                retries: None,
                timeout: None,
            }));
        }
        r
    }
}

impl Clone for Route {
    /// Clones share the same label, class and budget tables.
    fn clone(&self) -> (r: Self)
        ensures
            r@ == self@,
    {
        let retries: Option<Retries> = match &self.retries {
            Some(rt) => Some(rt.clone()),
            None => None,
        };
        let r = Route {
            labels: self.labels.clone(),
            response_classes: self.response_classes.clone(),
            retries,
            timeout: self.timeout,
        };
        proof {
            assert(r@ =~= self@);
        }
        r
    }
}

/// An ordered route table: match precedence is table order.
pub type Routes = Vec<(RequestMatch, Route)>;

} // verus!
