//! Identity daemon: keeps a workload certificate fresh.
//!
//! The daemon is an explicit three-state machine (`ShouldRefresh`,
//! `Pending`, `Waiting`): it issues a Certify request, awaits the
//! response, and sleeps until the next refresh is due.  A driver
//! performs each returned [`Action`] (load a token, send the RPC, run
//! the trust-anchor verification, publish to the watch, arm a timer)
//! and feeds the outcome back to [`Daemon::step`] as an [`Event`].
//! Every decision the daemon takes is captured by the spec function
//! [`spec_step`], which `step` is proved to follow exactly.
use vstd::prelude::*;

verus! {

// ===== refresh scheduling =====

/// Clamp `target` into the inclusive interval `[min, max]`.
pub open spec fn clamp_delay(min: u64, max: u64, target: u64) -> u64 {
    if target < min {
        min
    } else if max < target {
        max
    } else {
        target
    }
}

/// The delay before the next certificate refresh, in nanoseconds:
/// seven tenths of the certificate lifetime that remains at `now`,
/// clamped into `[min, max]`.  An expiry at or before `now` (or the
/// epoch placeholder `0`) yields the floor `min`.
pub open spec fn spec_refresh_delay(min: u64, max: u64, now: u64, expiry: u64) -> u64 {
    if expiry <= now {
        min
    } else {
        clamp_delay(min, max, (((expiry - now) * 7) / 10) as u64)
    }
}

// ===== validated workload names =====

/// Whether `c` may appear in a workload name: lower-case ASCII
/// letters, digits, `-` and the label separator `.`.
pub open spec fn is_name_char(c: char) -> bool {
    ('a' <= c && c <= 'z') || ('0' <= c && c <= '9') || c == '-' || c == '.'
}

/// A valid DNS-like workload name: non-empty, label-safe characters
/// only, and no empty labels (no leading, trailing or doubled `.`).
pub open spec fn valid_name(s: Seq<char>) -> bool {
    &&& s.len() > 0
    &&& forall|i: int| 0 <= i < s.len() ==> is_name_char(#[trigger] s[i])
    &&& s[0] != '.'
    &&& s[s.len() - 1] != '.'
    &&& forall|i: int| 0 < i < s.len() ==> !(#[trigger] s[i] == '.' && s[i - 1] == '.')
}

/// The error returned when a workload name fails validation.
#[derive(Debug)]
pub struct InvalidName;

/// A DNS-like workload identifier, validated on construction.
#[derive(Debug)]
pub struct Name {
    text: String,
}

impl View for Name {
    type V = Seq<char>;

    closed spec fn view(&self) -> Seq<char> {
        self.text@
    }
}

impl Name {
    /// Valid `Name` values always hold a valid name.
    pub open spec fn wf(&self) -> bool {
        valid_name(self@)
    }

    /// Validates `text` and wraps it; rejects exactly the strings
    /// that are not valid workload names.
    pub fn parse(text: String) -> (r: Result<Name, InvalidName>)
        ensures
            r is Ok <==> valid_name(text@),
            r matches Ok(n) ==> n@ == text@ && n.wf(),
    {
        let len: usize = text.as_str().unicode_len();
        if len == 0 {
            return Err(InvalidName);
        }
        let mut i: usize = 0;
        let mut prev_dot: bool = true;  // a dot at position 0 is an empty label
        while i < len
            invariant
                0 < len == text@.len(),
                0 <= i <= len,
                forall|j: int| 0 <= j < i ==> is_name_char(#[trigger] text@[j]),
                forall|j: int| 0 < j < i ==> !(#[trigger] text@[j] == '.' && text@[j - 1] == '.'),
                i > 0 ==> text@[0] != '.',
                prev_dot == (if i == 0 { true } else { text@[i - 1] == '.' }),
            decreases len - i,
        {
            let c: char = text.as_str().get_char(i);
            let name_char: bool = ('a' <= c && c <= 'z') || ('0' <= c && c <= '9') || c == '-'
                || c == '.';
            if !name_char {
                return Err(InvalidName);
            }
            if c == '.' && prev_dot {
                return Err(InvalidName);
            }
            prev_dot = c == '.';
            i = i + 1;
        }
        if prev_dot {
            return Err(InvalidName);
        }
        Ok(Name { text })
    }

    /// The name as a string slice.
    pub fn as_str(&self) -> (r: &str)
        ensures
            r@ == self@,
    {
        self.text.as_str()
    }

    /// A fresh `Name` holding the same text.
    pub fn duplicate(&self) -> (r: Name)
        ensures
            r@ == self@,
    {
        Name { text: self.text.clone() }
    }
}

// ===== opaque certificate artifacts, modelled as plain bytes =====

/// A private key, kept as opaque bytes.
#[derive(Debug)]
pub struct Key {
    pub material: Vec<u8>,
}

impl View for Key {
    type V = Seq<u8>;

    open spec fn view(&self) -> Seq<u8> {
        self.material@
    }
}

impl Key {
    /// A fresh `Key` holding the same material.
    pub fn duplicate(&self) -> (r: Key)
        ensures
            r@ == self@,
    {
        Key { material: clone_bytes(&self.material) }
    }
}

/// A certificate signing request, kept as opaque DER bytes.
#[derive(Debug)]
pub struct Csr {
    pub der: Vec<u8>,
}

impl View for Csr {
    type V = Seq<u8>;

    open spec fn view(&self) -> Seq<u8> {
        self.der@
    }
}

/// The configured root certificates, kept as opaque bytes; the
/// verification they perform is the driver's concern.
#[derive(Debug)]
pub struct TrustAnchors {
    pub roots_pem: Vec<u8>,
}

impl View for TrustAnchors {
    type V = Seq<u8>;

    open spec fn view(&self) -> Seq<u8> {
        self.roots_pem@
    }
}

impl TrustAnchors {
    /// A fresh `TrustAnchors` holding the same roots.
    pub fn duplicate(&self) -> (r: TrustAnchors)
        ensures
            r@ == self@,
    {
        TrustAnchors { roots_pem: clone_bytes(&self.roots_pem) }
    }
}

/// A handle from which the driver reads short-lived bearer tokens.
#[derive(Debug)]
pub struct TokenSource {
    pub path: String,
}

/// The mathematical value of a certificate: the bundled leaf,
/// intermediate chain, subject name and expiry instant.
#[verifier::ext_equal]
pub ghost struct CrtView {
    pub name: Seq<char>,
    pub leaf: Seq<u8>,
    pub chain: Seq<Seq<u8>>,
    pub expiry: u64,
}

/// A leaf certificate with its intermediate chain and expiry, in
/// nanoseconds since the epoch.
#[derive(Debug)]
pub struct Crt {
    pub name: Name,
    pub leaf: Vec<u8>,
    pub intermediates: Vec<Vec<u8>>,
    pub expiry: u64,
}

impl View for Crt {
    type V = CrtView;

    open spec fn view(&self) -> CrtView {
        CrtView {
            name: self.name@,
            leaf: self.leaf@,
            chain: self.intermediates.deep_view(),
            expiry: self.expiry,
        }
    }
}

impl Crt {
    /// Bundles a response's certificate material with the local name
    /// and the expiry instant it was reported with.
    pub fn new(name: Name, leaf: Vec<u8>, intermediates: Vec<Vec<u8>>, expiry: u64) -> (r: Crt)
        ensures
            r@ == (CrtView { name: name@, leaf: leaf@, chain: intermediates.deep_view(), expiry }),
    {
        Crt { name, leaf, intermediates, expiry }
    }

    /// A fresh `Crt` holding the same material.
    pub fn duplicate(&self) -> (r: Crt)
        ensures
            r@ == self@,
    {
        let r = Crt {
            name: self.name.duplicate(),
            leaf: clone_bytes(&self.leaf),
            intermediates: clone_byte_chunks(&self.intermediates),
            expiry: self.expiry,
        };
        proof {
            assert(r@ =~= self@);
        }
        r
    }
}

/// The mathematical value of a verified key/certificate pair.
#[verifier::ext_equal]
pub ghost struct CrtKeyView {
    pub key: Seq<u8>,
    pub crt: CrtView,
}

/// A `(Key, Crt)` pair that the driver has verified against the
/// configured trust anchors; the only artifact consumers ever see.
#[derive(Debug)]
pub struct CrtKey {
    pub key: Key,
    pub crt: Crt,
}

impl View for CrtKey {
    type V = CrtKeyView;

    open spec fn view(&self) -> CrtKeyView {
        CrtKeyView { key: self.key@, crt: self.crt@ }
    }
}

impl CrtKey {
    /// A fresh `CrtKey` holding the same material.
    pub fn duplicate(&self) -> (r: CrtKey)
        ensures
            r@ == self@,
    {
        let r = CrtKey { key: self.key.duplicate(), crt: self.crt.duplicate() };
        proof {
            assert(r@ =~= self@);
        }
        r
    }
}

/// A fresh byte vector holding the same bytes.
fn clone_bytes(v: &Vec<u8>) -> (r: Vec<u8>)
    ensures
        r@ == v@,
{
    let r = v.clone();
    proof {
        assert(r@ =~= v@);
    }
    r
}

/// A fresh vector of byte vectors holding the same bytes.
fn clone_byte_chunks(v: &Vec<Vec<u8>>) -> (r: Vec<Vec<u8>>)
    ensures
        r.deep_view() == v.deep_view(),
{
    let mut r: Vec<Vec<u8>> = Vec::new();
    let mut i: usize = 0;
    while i < v.len()
        invariant
            0 <= i <= v.len(),
            r@.len() == i,
            forall|j: int| 0 <= j < i ==> #[trigger] r@[j]@ == v@[j]@,
        decreases v.len() - i,
    {
        r.push(clone_bytes(&v[i]));
        i = i + 1;
    }
    proof {
        assert(r.deep_view() =~~= v.deep_view());
    }
    r
}

// ===== the certify RPC, as plain values =====

/// The mathematical value of a certify request.
#[verifier::ext_equal]
pub ghost struct CertifyRequestView {
    pub identity: Seq<char>,
    pub token: Seq<u8>,
    pub csr: Seq<u8>,
}

/// The unary Certify request: the workload's identity, a bearer
/// token, and the certificate signing request.
#[derive(Debug)]
pub struct CertifyRequest {
    pub identity: String,
    pub token: Vec<u8>,
    pub certificate_signing_request: Vec<u8>,
}

impl View for CertifyRequest {
    type V = CertifyRequestView;

    open spec fn view(&self) -> CertifyRequestView {
        CertifyRequestView {
            identity: self.identity@,
            token: self.token@,
            csr: self.certificate_signing_request@,
        }
    }
}

/// The Certify response: the signed leaf, its intermediate chain,
/// and an optional expiry instant (nanoseconds since the epoch).
#[derive(Debug)]
pub struct CertifyResponse {
    pub leaf_certificate: Vec<u8>,
    pub intermediate_certificates: Vec<Vec<u8>>,
    pub valid_until: Option<u64>,
}

// ===== configuration =====

/// The mathematical value of an identity configuration.
#[verifier::ext_equal]
pub ghost struct ConfigView {
    pub svc_addr: Seq<char>,
    pub trust_anchors: Seq<u8>,
    pub key: Seq<u8>,
    pub csr: Seq<u8>,
    pub local_name: Seq<char>,
    pub token_path: Seq<char>,
    pub min_refresh: u64,
    pub max_refresh: u64,
}

/// Static configuration of the identity daemon.  `min_refresh` and
/// `max_refresh` are nanoseconds; a valid configuration has
/// `0 < min_refresh <= max_refresh`.
#[derive(Debug)]
pub struct Config {
    pub svc_addr: String,
    pub trust_anchors: TrustAnchors,
    pub key: Key,
    pub csr: Csr,
    pub local_name: Name,
    pub token: TokenSource,
    pub min_refresh: u64,
    pub max_refresh: u64,
}

impl View for Config {
    type V = ConfigView;

    open spec fn view(&self) -> ConfigView {
        ConfigView {
            svc_addr: self.svc_addr@,
            trust_anchors: self.trust_anchors@,
            key: self.key@,
            csr: self.csr@,
            local_name: self.local_name@,
            token_path: self.token.path@,
            min_refresh: self.min_refresh,
            max_refresh: self.max_refresh,
        }
    }
}

impl Config {
    /// The configuration invariant: a valid local name and strictly
    /// positive refresh bounds in the right order.
    pub open spec fn wf(&self) -> bool {
        &&& self.local_name.wf()
        &&& 0 < self.min_refresh <= self.max_refresh
    }

    /// The delay before the next refresh, against a certificate that
    /// expires at `expiry` (`0` when none has been stored yet).
    /// Returns nanoseconds; the driver arms the timer.
    pub fn refresh(&self, now: u64, expiry: u64) -> (d: u64)
        ensures
            d == spec_refresh_delay(self.min_refresh, self.max_refresh, now, expiry),
    {
        if expiry <= now {
            return self.min_refresh;
        }
        let remaining: u64 = expiry - now;
        let scaled: u128 = (remaining as u128) * 7 / 10;
        proof {
            assert(scaled <= remaining) by (nonlinear_arith)
                requires
                    scaled == (remaining as u128) * 7 / 10,
                    remaining <= u64::MAX,
            ;
        }
        let target: u64 = scaled as u64;
        if target < self.min_refresh {
            self.min_refresh
        } else if self.max_refresh < target {
            self.max_refresh
        } else {
            target
        }
    }
}

// ===== the daemon state machine =====

/// The daemon's three working states, plus the terminal marker it
/// reaches when the watch has lost all observers.
#[derive(Clone, Copy, Debug, PartialEq, Eq, Structural)]
pub enum DaemonState {
    /// Transient: a fresh Certify request is to be built and issued.
    ShouldRefresh,
    /// A Certify RPC is in flight.
    Pending,
    /// Sleeping until the refresh delay fires.
    Waiting,
    /// All observers of the watch are gone; the daemon is finished.
    Done,
}

/// The mathematical value of an event.
#[verifier::ext_equal]
pub ghost enum EventView {
    DelayFired,
    TokenLoaded { token: Seq<u8> },
    TokenFailed,
    CertifyFailed,
    ResponseMissingExpiry,
    CertifyInvalid,
    Certified { crt_key: CrtKeyView },
    PublishRejected,
}

/// What the driver observed while performing the daemon's last
/// action; the input of [`Daemon::step`].
#[derive(Debug)]
pub enum Event {
    /// The armed refresh delay fired.
    DelayFired,
    /// A bearer token was read from the token source.
    TokenLoaded { token: Vec<u8> },
    /// The token source failed; treated like an RPC failure.
    TokenFailed,
    /// The Certify RPC failed.
    CertifyFailed,
    /// The Certify response carried no usable `valid_until`.
    ResponseMissingExpiry,
    /// The trust anchors rejected the response's certificate.
    CertifyInvalid,
    /// The trust anchors accepted the response: a verified pair.
    Certified { crt_key: CrtKey },
    /// Publishing to the watch failed: all observers are gone.
    PublishRejected,
}

impl View for Event {
    type V = EventView;

    open spec fn view(&self) -> EventView {
        match self {
            Event::DelayFired => EventView::DelayFired,
            Event::TokenLoaded { token } => EventView::TokenLoaded { token: token@ },
            Event::TokenFailed => EventView::TokenFailed,
            Event::CertifyFailed => EventView::CertifyFailed,
            Event::ResponseMissingExpiry => EventView::ResponseMissingExpiry,
            Event::CertifyInvalid => EventView::CertifyInvalid,
            Event::Certified { crt_key } => EventView::Certified { crt_key: crt_key@ },
            Event::PublishRejected => EventView::PublishRejected,
        }
    }
}

/// The mathematical value of an action.
#[verifier::ext_equal]
pub ghost enum ActionView {
    LoadToken,
    Issue { request: CertifyRequestView },
    Sleep { delay: u64 },
    StoreAndSleep { crt_key: CrtKeyView, delay: u64 },
    Stop,
}

/// What the driver must do next; the output of [`Daemon::step`].
/// Delays are nanoseconds.
#[derive(Debug)]
pub enum Action {
    /// Read a bearer token from the token source.
    LoadToken,
    /// Issue the Certify RPC.
    Issue { request: CertifyRequest },
    /// Arm the refresh delay.
    Sleep { delay: u64 },
    /// Publish the pair to the watch, then arm the refresh delay; if
    /// publishing fails, feed back [`Event::PublishRejected`].
    StoreAndSleep { crt_key: CrtKey, delay: u64 },
    /// The daemon is finished; drop it.
    Stop,
}

impl View for Action {
    type V = ActionView;

    open spec fn view(&self) -> ActionView {
        match self {
            Action::LoadToken => ActionView::LoadToken,
            Action::Issue { request } => ActionView::Issue { request: request@ },
            Action::Sleep { delay } => ActionView::Sleep { delay: *delay },
            Action::StoreAndSleep { crt_key, delay } => ActionView::StoreAndSleep {
                crt_key: crt_key@,
                delay: *delay,
            },
            Action::Stop => ActionView::Stop,
        }
    }
}

/// The mathematical value of the daemon.
#[verifier::ext_equal]
pub ghost struct DaemonView {
    pub config: ConfigView,
    pub state: DaemonState,
    /// Expiry of the stored certificate, `0` before the first success.
    pub expiry: u64,
    /// The most recently successfully certified pair, if any.
    pub published: Option<CrtKeyView>,
}

/// Which events may arrive in which state.
pub open spec fn event_fits(state: DaemonState, ev: EventView) -> bool {
    match ev {
        EventView::DelayFired => state == DaemonState::Waiting,
        EventView::TokenLoaded { .. } => state == DaemonState::ShouldRefresh,
        EventView::TokenFailed => state == DaemonState::ShouldRefresh,
        EventView::CertifyFailed => state == DaemonState::Pending,
        EventView::ResponseMissingExpiry => state == DaemonState::Pending,
        EventView::CertifyInvalid => state == DaemonState::Pending,
        EventView::Certified { .. } => state == DaemonState::Pending,
        EventView::PublishRejected => state == DaemonState::Waiting,
    }
}

/// The daemon's entire decision table: the state and action that
/// follow an event observed at instant `now`.
///
/// RPC failures, missing expiries and rejected certificates are
/// non-fatal: the stored expiry and published pair are retained and a
/// refresh delay is re-armed against the old expiry.  Only a
/// successful certification stores a new pair, and only a rejected
/// publish stops the daemon.
pub open spec fn spec_step(d: DaemonView, ev: EventView, now: u64) -> (DaemonView, ActionView) {
    let retry_delay = spec_refresh_delay(d.config.min_refresh, d.config.max_refresh, now, d.expiry);
    match ev {
        EventView::DelayFired => (
            DaemonView { state: DaemonState::ShouldRefresh, ..d },
            ActionView::LoadToken,
        ),
        EventView::TokenLoaded { token } => (
            DaemonView { state: DaemonState::Pending, ..d },
            ActionView::Issue {
                request: CertifyRequestView {
                    identity: d.config.local_name,
                    token,
                    csr: d.config.csr,
                },
            },
        ),
        EventView::TokenFailed => (
            DaemonView { state: DaemonState::Waiting, ..d },
            ActionView::Sleep { delay: retry_delay },
        ),
        EventView::CertifyFailed => (
            DaemonView { state: DaemonState::Waiting, ..d },
            ActionView::Sleep { delay: retry_delay },
        ),
        EventView::ResponseMissingExpiry => (
            DaemonView { state: DaemonState::Waiting, ..d },
            ActionView::Sleep { delay: retry_delay },
        ),
        EventView::CertifyInvalid => (
            DaemonView { state: DaemonState::Waiting, ..d },
            ActionView::Sleep { delay: retry_delay },
        ),
        EventView::Certified { crt_key } => (
            DaemonView {
                state: DaemonState::Waiting,
                expiry: crt_key.crt.expiry,
                published: Some(crt_key),
                ..d
            },
            ActionView::StoreAndSleep {
                crt_key,
                delay: spec_refresh_delay(
                    d.config.min_refresh,
                    d.config.max_refresh,
                    now,
                    crt_key.crt.expiry,
                ),
            },
        ),
        EventView::PublishRejected => (
            DaemonView { state: DaemonState::Done, ..d },
            ActionView::Stop,
        ),
    }
}

/// Drives certificate refreshes.  The driver owns the timer, the RPC
/// client, the trust-anchor verification and the watch; the daemon
/// owns every decision between them.
#[derive(Debug)]
pub struct Daemon {
    config: Config,
    state: DaemonState,
    expiry: u64,
    published: Option<CrtKey>,
}

/// The view of an optional verified pair.
pub open spec fn option_crt_key_view(o: Option<CrtKey>) -> Option<CrtKeyView> {
    match o {
        Some(ck) => Some(ck@),
        None => None,
    }
}

impl View for Daemon {
    type V = DaemonView;

    closed spec fn view(&self) -> DaemonView {
        DaemonView {
            config: self.config@,
            state: self.state,
            expiry: self.expiry,
            published: option_crt_key_view(self.published),
        }
    }
}

impl Daemon {
    /// The configuration invariant carries over to the daemon.
    pub open spec fn wf(&self) -> bool {
        0 < self@.config.min_refresh <= self@.config.max_refresh
    }

    /// The daemon's current state.
    pub fn state(&self) -> (s: DaemonState)
        ensures
            s == self@.state,
    {
        self.state
    }

    /// The stored certificate expiry (`0` before the first success).
    pub fn expiry(&self) -> (e: u64)
        ensures
            e == self@.expiry,
    {
        self.expiry
    }

    /// The most recently successfully certified pair, if any.
    pub fn published(&self) -> (r: &Option<CrtKey>)
        ensures
            option_crt_key_view(*r) == self@.published,
    {
        &self.published
    }

    /// Builds the candidate key/certificate pair out of a Certify
    /// response: `None` exactly when the response lacks an expiry.
    /// The driver verifies the pair against the trust anchors.
    pub fn crt_of_response(&self, rsp: CertifyResponse) -> (r: Option<(Key, Crt)>)
        ensures
            r is Some <==> rsp.valid_until is Some,
            r matches Some(kc) ==> {
                &&& kc.0@ == self@.config.key
                &&& kc.1@ == (CrtView {
                    name: self@.config.local_name,
                    leaf: rsp.leaf_certificate@,
                    chain: rsp.intermediate_certificates.deep_view(),
                    expiry: rsp.valid_until->0,
                })
            },
    {
        match rsp.valid_until {
            None => None,
            Some(expiry) => {
                let crt = Crt::new(
                    self.config.local_name.duplicate(),
                    rsp.leaf_certificate,
                    rsp.intermediate_certificates,
                    expiry,
                );
                Some((self.config.key.duplicate(), crt))
            },
        }
    }

    /// Performs one transition of the state machine: the new daemon
    /// value and the returned action are exactly what [`spec_step`]
    /// prescribes.
    pub fn step(&mut self, ev: Event, now: u64) -> (a: Action)
        requires
            event_fits(old(self)@.state, ev@),
        ensures
            final(self)@ == spec_step(old(self)@, ev@, now).0,
            a@ == spec_step(old(self)@, ev@, now).1,
    {
        match ev {
            Event::DelayFired => {
                self.state = DaemonState::ShouldRefresh;
                Action::LoadToken
            },
            Event::TokenLoaded { token } => {
                self.state = DaemonState::Pending;
                let request = CertifyRequest {
                    identity: self.config.local_name.as_str().to_owned(),
                    token,
                    certificate_signing_request: clone_bytes(&self.config.csr.der),
                };
                Action::Issue { request }
            },
            Event::TokenFailed => {
                self.state = DaemonState::Waiting;
                Action::Sleep { delay: self.config.refresh(now, self.expiry) }
            },
            Event::CertifyFailed => {
                self.state = DaemonState::Waiting;
                Action::Sleep { delay: self.config.refresh(now, self.expiry) }
            },
            Event::ResponseMissingExpiry => {
                self.state = DaemonState::Waiting;
                Action::Sleep { delay: self.config.refresh(now, self.expiry) }
            },
            Event::CertifyInvalid => {
                self.state = DaemonState::Waiting;
                Action::Sleep { delay: self.config.refresh(now, self.expiry) }
            },
            Event::Certified { crt_key } => {
                self.state = DaemonState::Waiting;
                self.expiry = crt_key.crt.expiry;
                let delay: u64 = self.config.refresh(now, self.expiry);
                let stored = crt_key.duplicate();
                self.published = Some(stored);
                Action::StoreAndSleep { crt_key, delay }
            },
            Event::PublishRejected => {
                self.state = DaemonState::Done;
                Action::Stop
            },
        }
    }
}

/// What a subscriber sees of the local identity: the validated name
/// and the trust anchors.  The driver pairs it with the watch that
/// carries the published `CrtKey`.
#[derive(Debug)]
pub struct Local {
    name: Name,
    trust_anchors: TrustAnchors,
}

impl Local {
    /// The local workload name.
    pub fn name(&self) -> (r: &Name)
        ensures
            r@ == self@.0,
    {
        &self.name
    }

    /// The configured trust anchors.
    pub fn trust_anchors(&self) -> (r: &TrustAnchors)
        ensures
            r@ == self@.1,
    {
        &self.trust_anchors
    }
}

impl View for Local {
    type V = (Seq<char>, Seq<u8>);

    closed spec fn view(&self) -> (Seq<char>, Seq<u8>) {
        (self.name@, self.trust_anchors@)
    }
}

/// Builds the subscriber handle and the daemon out of a
/// configuration.  The daemon starts in `ShouldRefresh` with no
/// stored certificate: the driver's first move is to load a token and
/// feed [`Event::TokenLoaded`] (or [`Event::TokenFailed`]).
pub fn new(config: Config) -> (r: (Local, Daemon))
    ensures
        r.0@ == (config.local_name@, config.trust_anchors@),
        r.1@ == (DaemonView {
            config: config@,
            state: DaemonState::ShouldRefresh,
            expiry: 0,
            published: None,
        }),
{
    let local = Local {
        name: config.local_name.duplicate(),
        trust_anchors: config.trust_anchors.duplicate(),
    };
    let daemon = Daemon { config, state: DaemonState::ShouldRefresh, expiry: 0, published: None };
    proof {
        assert(daemon@ =~= (DaemonView {
            config: daemon.config@,
            state: DaemonState::ShouldRefresh,
            expiry: 0,
            published: None,
        }));
    }
    (local, daemon)
}

// ===== laws =====

/// Every scheduled delay lies between the configured bounds: for any
/// instant and any stored expiry, `min_refresh <= delay <= max_refresh`.
pub proof fn lemma_refresh_delay_bounds(min: u64, max: u64, now: u64, expiry: u64)
    requires
        0 < min <= max,
    ensures
        min <= spec_refresh_delay(min, max, now, expiry) <= max,
{
}

/// After a successful certification whose certificate expires at `t`,
/// the daemon stores the pair and schedules the next refresh at
/// exactly `clamp(((t - now) * 7) / 10, min_refresh, max_refresh)`
/// (and `min_refresh` when `t` is not in the future).
pub proof fn lemma_certified_schedule(d: DaemonView, ck: CrtKeyView, now: u64)
    ensures
        ({
            let (d2, a) = spec_step(d, EventView::Certified { crt_key: ck }, now);
            &&& d2.published == Some(ck)
            &&& d2.expiry == ck.crt.expiry
            &&& a == (ActionView::StoreAndSleep {
                crt_key: ck,
                delay: spec_refresh_delay(
                    d.config.min_refresh,
                    d.config.max_refresh,
                    now,
                    ck.crt.expiry,
                ),
            })
        }),
{
}

/// A run of the daemon: the state after folding a sequence of
/// timestamped events through [`spec_step`].
pub open spec fn run_events(d: DaemonView, evs: Seq<(EventView, u64)>) -> DaemonView
    decreases evs.len(),
{
    if evs.len() == 0 {
        d
    } else {
        run_events(spec_step(d, evs[0].0, evs[0].1).0, evs.drop_first())
    }
}

/// The most recently certified pair over a run: the last `Certified`
/// event's pair, or `prev` if the run certifies nothing.
pub open spec fn last_certified(
    prev: Option<CrtKeyView>,
    evs: Seq<(EventView, u64)>,
) -> Option<CrtKeyView>
    decreases evs.len(),
{
    if evs.len() == 0 {
        prev
    } else {
        let next = match evs[0].0 {
            EventView::Certified { crt_key } => Some(crt_key),
            _ => prev,
        };
        last_certified(next, evs.drop_first())
    }
}

/// The watch, observed at any instant, holds the most recently
/// successfully certified pair, or none if no certification has
/// succeeded yet: after any run of events, the daemon's published
/// value is exactly [`last_certified`] of that run.
pub proof fn lemma_watch_holds_latest(d: DaemonView, evs: Seq<(EventView, u64)>)
    ensures
        run_events(d, evs).published == last_certified(d.published, evs),
    decreases evs.len(),
{
    if evs.len() == 0 {
    } else {
        lemma_watch_holds_latest(spec_step(d, evs[0].0, evs[0].1).0, evs.drop_first());
    }
}

} // verus!


