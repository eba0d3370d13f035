//! The cache policy: options, the request and response it was built from, and
//! the storability and freshness rules evaluated over them.
use vstd::prelude::*;
use crate::date::{http_date, parse_http_date};
use crate::directives::{
    directive_seconds, parse_cache_control, parse_directives, CacheDirectives, DirectivesView,
    DELTA_SECONDS_CAP,
};
use crate::headers::{has_header, header_get, FieldsView, Headers};
use crate::names::{
    AGE, AUTHORIZATION, CACHE_CONTROL, DATE, EXPIRES, GET, HEAD, IMMUTABLE, LAST_MODIFIED,
    MAX_AGE, MUST_REVALIDATE, NO_CACHE, NO_STORE, POST, POST_CHECK, PRAGMA, PRE_CHECK, PRIVATE,
    PUBLIC, SET_COOKIE, S_MAXAGE, VARY,
};
use crate::text::{ASTERISK, COMMA, bytes_eq, capped_number, copy_bytes, split, split_bytes, trim, trim_bytes, views};

verus! {

/// Configuration that holds for every policy built with it.
#[derive(Clone, Copy, Debug)]
pub struct CacheOptions {
    /// Evaluate as a shared cache (a proxy): `private` responses are not
    /// stored and `s-maxage` is honoured. `false` means a single-user cache.
    pub shared: bool,
    /// Treat the response's meaningless `pre-check` and `post-check`
    /// directives as absent.
    pub ignore_cargo_cult: bool,
    /// Use the response's `Date` (and `Age`) rather than only the local clock.
    pub trust_server_date: bool,
    /// Share of the time since `Last-Modified` used as a fallback freshness
    /// lifetime, in thousandths (100 is 10%).
    pub cache_heuristic_permille: u32,
    /// Seconds an `immutable` response stays fresh when nothing more
    /// specific says otherwise.
    pub immutable_min_time_to_live: u32,
}

impl Default for CacheOptions {
    fn default() -> (r: CacheOptions)
        ensures
            r.shared,
            !r.ignore_cargo_cult,
            r.trust_server_date,
            r.cache_heuristic_permille == 100,
            r.immutable_min_time_to_live == 86400,
    {
        CacheOptions {
            shared: true,
            ignore_cargo_cult: false,
            trust_server_date: true,
            cache_heuristic_permille: 100,
            immutable_min_time_to_live: 86400,
        }
    }
}

/// The parts of a request that caching looks at.
pub struct RequestSnapshot {
    /// Uppercase method, such as `GET`.
    pub method: Vec<u8>,
    pub url: Vec<u8>,
    pub headers: Headers,
}

/// The parts of a response that caching looks at.
pub struct ResponseSnapshot {
    pub status: u16,
    pub headers: Headers,
}

pub ghost struct RequestView {
    pub method: Seq<u8>,
    pub url: Seq<u8>,
    pub headers: FieldsView,
}

pub ghost struct ResponseView {
    pub status: u16,
    pub headers: FieldsView,
}

impl View for RequestSnapshot {
    type V = RequestView;

    open spec fn view(&self) -> RequestView {
        RequestView { method: self.method@, url: self.url@, headers: self.headers@ }
    }
}

impl View for ResponseSnapshot {
    type V = ResponseView;

    open spec fn view(&self) -> ResponseView {
        ResponseView { status: self.status, headers: self.headers@ }
    }
}

impl RequestSnapshot {
    pub fn duplicate(&self) -> (r: RequestSnapshot)
        ensures
            r@ == self@,
    {
        RequestSnapshot {
            method: copy_bytes(self.method.as_slice()),
            url: copy_bytes(self.url.as_slice()),
            headers: self.headers.duplicate(),
        }
    }
}

impl ResponseSnapshot {
    pub fn duplicate(&self) -> (r: ResponseSnapshot)
        ensures
            r@ == self@,
    {
        ResponseSnapshot { status: self.status, headers: self.headers.duplicate() }
    }
}

/// What a policy consists of: the options, the request and response as
/// stored, and the second at which the response was received.
pub ghost struct PolicyView {
    pub options: CacheOptions,
    pub request: RequestView,
    pub response: ResponseView,
    pub response_time: u64,
}

// ---------------------------------------------------------------------------
// Directives of a message.

/// Directives from `Cache-Control`; without that header, a `Pragma` that
/// carries `no-cache` counts as `Cache-Control: no-cache`.
pub open spec fn message_directives(h: FieldsView) -> DirectivesView {
    match header_get(h, CACHE_CONTROL@) {
        Some(v) => parse_directives(v),
        None => match header_get(h, PRAGMA@) {
            Some(p) => if parse_directives(p).contains_key(NO_CACHE@) {
                Map::empty().insert(NO_CACHE@, None)
            } else {
                Map::empty()
            },
            None => Map::empty(),
        },
    }
}

pub open spec fn request_directives(q: RequestView) -> DirectivesView {
    message_directives(q.headers)
}

/// The response's directives; with `ignore_cargo_cult`, without the
/// meaningless `pre-check` and `post-check`.
pub open spec fn response_directives(o: CacheOptions, r: ResponseView) -> DirectivesView {
    let d = message_directives(r.headers);
    if o.ignore_cargo_cult {
        d.remove(PRE_CHECK@).remove(POST_CHECK@)
    } else {
        d
    }
}

pub open spec fn req_dirs(p: PolicyView) -> DirectivesView {
    request_directives(p.request)
}

pub open spec fn res_dirs(p: PolicyView) -> DirectivesView {
    response_directives(p.options, p.response)
}

// ---------------------------------------------------------------------------
// Status tables.

/// Statuses whose responses may be stored without an explicit freshness
/// signal.
pub open spec fn cacheable_by_default(s: u16) -> bool {
    s == 200 || s == 203 || s == 204 || s == 206 || s == 300 || s == 301 || s == 404 || s == 405
        || s == 410 || s == 414 || s == 501
}

/// Statuses this cache knows how to store at all.
pub open spec fn understood_status(s: u16) -> bool {
    s == 200 || s == 203 || s == 204 || s == 300 || s == 301 || s == 302 || s == 307 || s == 308
        || s == 404 || s == 405 || s == 410 || s == 414 || s == 501
}

pub fn is_cacheable_by_default(s: u16) -> (r: bool)
    ensures
        r == cacheable_by_default(s),
{
    s == 200 || s == 203 || s == 204 || s == 206 || s == 300 || s == 301 || s == 404 || s == 405
        || s == 410 || s == 414 || s == 501
}

pub fn is_understood_status(s: u16) -> (r: bool)
    ensures
        r == understood_status(s),
{
    s == 200 || s == 203 || s == 204 || s == 300 || s == 301 || s == 302 || s == 307 || s == 308
        || s == 404 || s == 405 || s == 410 || s == 414 || s == 501
}

// ---------------------------------------------------------------------------
// Storability.

/// `max-age`, `s-maxage` (shared caches only) or `Expires`.
pub open spec fn explicit_expiration(p: PolicyView) -> bool {
    (p.options.shared && directive_seconds(res_dirs(p), S_MAXAGE@) is Some) || directive_seconds(
        res_dirs(p),
        MAX_AGE@,
    ) is Some || has_header(p.response.headers, EXPIRES@)
}

/// Whether the response may be stored. Of the methods, GET and HEAD
/// qualify, and POST where the response sets an explicit expiration
/// (`max-age`, `s-maxage` on a shared cache, or `Expires`); other methods
/// (PUT, DELETE, OPTIONS, TRACE, ...) never do, as HTTP defines no caching
/// for them. The status must be one this cache understands; `no-store` in
/// either message forbids storage; on a shared cache `private`,
/// `Set-Cookie` and `Authorization` forbid it unless the response overrides
/// them; and the response needs a freshness signal or a status cacheable by
/// default.
pub open spec fn storable(p: PolicyView) -> bool {
    let rd = res_dirs(p);
    let qd = req_dirs(p);
    let shared = p.options.shared;
    let m = p.request.method;
    &&& !qd.contains_key(NO_STORE@) && !rd.contains_key(NO_STORE@)
    &&& m == GET@ || m == HEAD@ || (m == POST@ && explicit_expiration(p))
    &&& understood_status(p.response.status)
    &&& !shared || !rd.contains_key(PRIVATE@) || rd.contains_key(PUBLIC@)
    &&& !shared || !has_header(p.response.headers, SET_COOKIE@) || rd.contains_key(PUBLIC@)
        || rd.contains_key(IMMUTABLE@)
    &&& !shared || !has_header(p.request.headers, AUTHORIZATION@) || rd.contains_key(PUBLIC@)
        || rd.contains_key(S_MAXAGE@) || rd.contains_key(MAX_AGE@) || rd.contains_key(
        MUST_REVALIDATE@,
    )
    &&& has_header(p.response.headers, EXPIRES@) || directive_seconds(rd, MAX_AGE@) is Some || (
    shared && directive_seconds(rd, S_MAXAGE@) is Some) || rd.contains_key(PUBLIC@)
        || cacheable_by_default(p.response.status)
}

// ---------------------------------------------------------------------------
// Freshness.

/// A date header of `h`, read as seconds since the epoch.
pub open spec fn header_date(h: FieldsView, name: Seq<u8>) -> Option<int> {
    match header_get(h, name) {
        Some(v) => http_date(v),
        None => None,
    }
}

/// The `Age` the server asserted, when readable; else 0.
pub open spec fn asserted_age(p: PolicyView) -> nat {
    match header_get(p.response.headers, AGE@) {
        Some(v) => match capped_number(trim(v), DELTA_SECONDS_CAP as nat) {
            Some(n) => n,
            None => 0,
        },
        None => 0,
    }
}

/// How old the response already was when received: its asserted `Age`
/// when the server is trusted, else 0.
pub open spec fn initial_age(p: PolicyView) -> nat {
    if p.options.trust_server_date {
        asserted_age(p)
    } else {
        0
    }
}

pub open spec fn sat_u64(x: int) -> nat {
    if x > u64::MAX {
        u64::MAX as nat
    } else if x < 0 {
        0
    } else {
        x as nat
    }
}

/// Seconds since the response was generated, as of `now` (saturating).
pub open spec fn age(p: PolicyView, now: u64) -> nat {
    let resident: int = if now > p.response_time {
        now - p.response_time
    } else {
        0
    };
    sat_u64(resident + initial_age(p))
}

/// The time base for `Expires` and `Last-Modified`: the server's `Date`
/// when trusted and readable, else the moment of receipt.
pub open spec fn date_time(p: PolicyView) -> int {
    if p.options.trust_server_date {
        match header_date(p.response.headers, DATE@) {
            Some(d) => d,
            None => p.response_time as int,
        }
    } else {
        p.response_time as int
    }
}

/// The fallback lifetime: a share of the time since `Last-Modified`.
pub open spec fn heuristic_lifetime(p: PolicyView) -> nat {
    match header_date(p.response.headers, LAST_MODIFIED@) {
        Some(lm) => if date_time(p) > lm {
            sat_u64((date_time(p) - lm) * p.options.cache_heuristic_permille / 1000)
        } else {
            0
        },
        None => 0,
    }
}

/// `Expires` minus the time base, not below 0, when `Expires` is readable.
pub open spec fn expires_lifetime(p: PolicyView) -> Option<nat> {
    match header_date(p.response.headers, EXPIRES@) {
        Some(e) => Some(
            if e > date_time(p) {
                (e - date_time(p)) as nat
            } else {
                0
            },
        ),
        None => None,
    }
}

/// The `Vary` value split into trimmed field names.
pub open spec fn vary_fields(v: Seq<u8>) -> Seq<Seq<u8>> {
    split(v, COMMA).map_values(|s: Seq<u8>| trim(s))
}

pub open spec fn star() -> Seq<u8> {
    seq![ASTERISK]
}

/// `Vary` names `*`: no later request can be matched.
pub open spec fn vary_is_star(p: PolicyView) -> bool {
    match header_get(p.response.headers, VARY@) {
        Some(v) => vary_fields(v).contains(star()),
        None => false,
    }
}

/// Conditions under which the response has no freshness at all.
pub open spec fn lifetime_suppressed(p: PolicyView) -> bool {
    !storable(p) || res_dirs(p).contains_key(NO_CACHE@) || vary_is_star(p)
}

/// The freshness lifetime in seconds.
pub open spec fn max_age(p: PolicyView) -> nat {
    let rd = res_dirs(p);
    if lifetime_suppressed(p) {
        0
    } else if p.options.shared && directive_seconds(rd, S_MAXAGE@) is Some {
        directive_seconds(rd, S_MAXAGE@)->0
    } else if directive_seconds(rd, MAX_AGE@) is Some {
        directive_seconds(rd, MAX_AGE@)->0
    } else if rd.contains_key(IMMUTABLE@) {
        if p.options.immutable_min_time_to_live >= heuristic_lifetime(p) {
            p.options.immutable_min_time_to_live as nat
        } else {
            heuristic_lifetime(p)
        }
    } else if expires_lifetime(p) is Some {
        expires_lifetime(p)->0
    } else {
        heuristic_lifetime(p)
    }
}

/// Stale once the age has reached the freshness lifetime.
pub open spec fn is_stale(p: PolicyView, now: u64) -> bool {
    max_age(p) <= age(p, now)
}

pub open spec fn time_to_live(p: PolicyView, now: u64) -> int {
    max_age(p) - age(p, now)
}

// ---------------------------------------------------------------------------
// The policy.

/// Decides storage and reuse for one stored response.
pub struct CachePolicy {
    pub(crate) options: CacheOptions,
    pub(crate) request: RequestSnapshot,
    pub(crate) response: ResponseSnapshot,
    pub(crate) response_time: u64,
    pub(crate) request_directives: CacheDirectives,
    pub(crate) response_directives: CacheDirectives,
}

impl View for CachePolicy {
    type V = PolicyView;

    open(crate) spec fn view(&self) -> PolicyView {
        PolicyView {
            options: self.options,
            request: self.request@,
            response: self.response@,
            response_time: self.response_time,
        }
    }
}

/// The directives of a message's headers.
pub fn read_message_directives(h: &Headers) -> (r: CacheDirectives)
    ensures
        r@ == message_directives(h@),
{
    match h.get(&CACHE_CONTROL) {
        Some(v) => parse_cache_control(v.as_slice()),
        None => match h.get(&PRAGMA) {
            Some(p) => {
                let d = parse_cache_control(p.as_slice());
                if d.has(&NO_CACHE) {
                    let mut entries: Vec<(Vec<u8>, Option<Vec<u8>>)> = Vec::new();
                    entries.push((copy_bytes(&NO_CACHE), None));
                    let r = CacheDirectives { entries };
                    proof {
                        let e = crate::directives::entry_views(r.entries@);
                        assert(e.len() == 1);
                        assert(e[0] == (NO_CACHE@, None::<Seq<u8>>));
                        assert(e.drop_last() =~= Seq::<crate::directives::EntryView>::empty());
                        assert(crate::directives::entries_map(e.drop_last())
                            =~= Map::<Seq<u8>, Option<Seq<u8>>>::empty());
                        assert(r@ =~= Map::<Seq<u8>, Option<Seq<u8>>>::empty().insert(
                            NO_CACHE@,
                            None,
                        ));
                    }
                    r
                } else {
                    CacheDirectives::empty()
                }
            },
            None => CacheDirectives::empty(),
        },
    }
}

fn read_response_directives(o: CacheOptions, r: &ResponseSnapshot) -> (d: CacheDirectives)
    ensures
        d@ == response_directives(o, r@),
{
    let mut d = read_message_directives(&r.headers);
    if o.ignore_cargo_cult {
        d.remove(&PRE_CHECK);
        d.remove(&POST_CHECK);
    }
    d
}

/// A date header read as seconds since the epoch.
pub fn read_header_date(h: &Headers, name: &[u8]) -> (r: Option<u64>)
    ensures
        r matches Some(n) ==> header_date(h@, name@) == Some(n as int),
        r is None ==> header_date(h@, name@) is None,
{
    match h.get(name) {
        Some(v) => parse_http_date(v.as_slice()),
        None => None,
    }
}

impl CacheOptions {
    /// Builds the policy for `response`, received at `now` (seconds since
    /// the epoch) in answer to `request`.
    pub fn policy_for(
        &self,
        request: &RequestSnapshot,
        response: &ResponseSnapshot,
        now: u64,
    ) -> (r: CachePolicy)
        ensures
            r@ == (PolicyView {
                options: *self,
                request: request@,
                response: response@,
                response_time: now,
            }),
    {
        CachePolicy::assemble(*self, request.duplicate(), response.duplicate(), now)
    }
}

impl CachePolicy {
    #[verifier::type_invariant]
    spec fn directives_match(self) -> bool {
        &&& self.request_directives@ == request_directives(self.request@)
        &&& self.response_directives@ == response_directives(self.options, self.response@)
    }

    /// A policy over a request and a response as they are to be stored.
    pub(crate) fn assemble(
        options: CacheOptions,
        request: RequestSnapshot,
        response: ResponseSnapshot,
        response_time: u64,
    ) -> (r: CachePolicy)
        ensures
            r@ == (PolicyView {
                options,
                request: request@,
                response: response@,
                response_time,
            }),
    {
        let request_directives = read_message_directives(&request.headers);
        let response_directives = read_response_directives(options, &response);
        CachePolicy {
            options,
            request,
            response,
            response_time,
            request_directives,
            response_directives,
        }
    }

    pub fn options(&self) -> (r: CacheOptions)
        ensures
            r == self@.options,
    {
        self.options
    }

    pub fn request(&self) -> (r: &RequestSnapshot)
        ensures
            r@ == self@.request,
    {
        &self.request
    }

    pub fn response(&self) -> (r: &ResponseSnapshot)
        ensures
            r@ == self@.response,
    {
        &self.response
    }

    pub fn response_time(&self) -> (r: u64)
        ensures
            r == self@.response_time,
    {
        self.response_time
    }

    pub(crate) fn response_directives(&self) -> (r: &CacheDirectives)
        ensures
            r@ == res_dirs(self@),
    {
        proof {
            use_type_invariant(self);
        }
        &self.response_directives
    }

    pub(crate) fn request_directives(&self) -> (r: &CacheDirectives)
        ensures
            r@ == req_dirs(self@),
    {
        proof {
            use_type_invariant(self);
        }
        &self.request_directives
    }

    fn has_explicit_expiration(&self) -> (r: bool)
        ensures
            r == explicit_expiration(self@),
    {
        let rd = self.response_directives();
        (self.options.shared && rd.seconds(&S_MAXAGE).is_some()) || rd.seconds(&MAX_AGE).is_some()
            || self.response.headers.has(&EXPIRES)
    }

    /// Whether the response may be stored at all.
    pub fn is_storable(&self) -> (r: bool)
        ensures
            r == storable(self@),
    {
        let rd = self.response_directives();
        let qd = self.request_directives();
        let shared = self.options.shared;
        let m = self.request.method.as_slice();
        if qd.has(&NO_STORE) || rd.has(&NO_STORE) {
            return false;
        }
        if !(bytes_eq(m, &GET) || bytes_eq(m, &HEAD) || (bytes_eq(m, &POST)
            && self.has_explicit_expiration())) {
            return false;
        }
        if !is_understood_status(self.response.status) {
            return false;
        }
        let public = rd.has(&PUBLIC);
        if shared && rd.has(&PRIVATE) && !public {
            return false;
        }
        if shared && self.response.headers.has(&SET_COOKIE) && !public && !rd.has(&IMMUTABLE) {
            return false;
        }
        if shared && self.request.headers.has(&AUTHORIZATION) && !public && !rd.has(&S_MAXAGE)
            && !rd.has(&MAX_AGE) && !rd.has(&MUST_REVALIDATE) {
            return false;
        }
        self.response.headers.has(&EXPIRES) || rd.seconds(&MAX_AGE).is_some() || (shared
            && rd.seconds(&S_MAXAGE).is_some()) || public || is_cacheable_by_default(
            self.response.status,
        )
    }

    fn initial_age(&self) -> (r: u64)
        ensures
            r == initial_age(self@),
    {
        if !self.options.trust_server_date {
            return 0;
        }
        let asserted: u64 = match self.response.headers.get(&AGE) {
            Some(v) => match crate::text::parse_number(
                trim_bytes(v.as_slice()).as_slice(),
                DELTA_SECONDS_CAP,
            ) {
                Some(n) => n,
                None => 0,
            },
            None => 0,
        };
        asserted
    }

    /// Seconds since the response was generated, as of `now`.
    pub fn age(&self, now: u64) -> (r: u64)
        ensures
            r == age(self@, now),
    {
        let resident: u64 = if now > self.response_time {
            now - self.response_time
        } else {
            0
        };
        resident.saturating_add(self.initial_age())
    }

    fn date_time(&self) -> (r: u64)
        ensures
            r == date_time(self@),
    {
        if self.options.trust_server_date {
            match read_header_date(&self.response.headers, &DATE) {
                Some(d) => d,
                None => self.response_time,
            }
        } else {
            self.response_time
        }
    }

    fn heuristic_lifetime(&self) -> (r: u64)
        ensures
            r == heuristic_lifetime(self@),
    {
        match read_header_date(&self.response.headers, &LAST_MODIFIED) {
            Some(lm) => {
                let dt = self.date_time();
                if dt > lm {
                    let span: u128 = (dt - lm) as u128;
                    let share: u128 = self.options.cache_heuristic_permille as u128;
                    assert(span * share <= 0xffff_ffff_ffff_ffff * 0xffff_ffffu128)
                        by (nonlinear_arith)
                        requires
                            span <= 0xffff_ffff_ffff_ffff,
                            share <= 0xffff_ffff,
                    ;
                    let v: u128 = span * share / 1000;
                    if v > u64::MAX as u128 {
                        u64::MAX
                    } else {
                        v as u64
                    }
                } else {
                    0
                }
            },
            None => 0,
        }
    }

    fn vary_is_star(&self) -> (r: bool)
        ensures
            r == vary_is_star(self@),
    {
        match self.response.headers.get(&VARY) {
            Some(v) => {
                let parts = split_bytes(v.as_slice(), COMMA);
                let ghost fields = vary_fields(v@);
                let mut i: usize = 0;
                while i < parts.len()
                    invariant
                        i <= parts@.len(),
                        views(parts@) == split(v@, COMMA),
                        fields == vary_fields(v@),
                        header_get(self@.response.headers, VARY@) == Some(v@),
                        forall|j: int| 0 <= j < i ==> fields[j] != star(),
                    decreases parts@.len() - i,
                {
                    let t = trim_bytes(parts[i].as_slice());
                    assert(fields[i as int] == t@);
                    if t.len() == 1 && t[0] == ASTERISK {
                        assert(t@ =~= star());
                        assert(fields.contains(star()));
                        return true;
                    }
                    assert(t@ != star());
                    i += 1;
                }
                false
            },
            None => false,
        }
    }

    /// The freshness lifetime in seconds.
    pub fn max_age(&self) -> (r: u64)
        ensures
            r == max_age(self@),
    {
        let rd = self.response_directives();
        if !self.is_storable() || rd.has(&NO_CACHE) || self.vary_is_star() {
            return 0;
        }
        if self.options.shared {
            match rd.seconds(&S_MAXAGE) {
                Some(n) => {
                    return n;
                },
                None => {},
            }
        }
        match rd.seconds(&MAX_AGE) {
            Some(n) => {
                return n;
            },
            None => {},
        }
        if rd.has(&IMMUTABLE) {
            let h = self.heuristic_lifetime();
            let floor = self.options.immutable_min_time_to_live as u64;
            return if floor >= h {
                floor
            } else {
                h
            };
        }
        match read_header_date(&self.response.headers, &EXPIRES) {
            Some(e) => {
                let dt = self.date_time();
                if e > dt {
                    e - dt
                } else {
                    0
                }
            },
            None => self.heuristic_lifetime(),
        }
    }

    /// Whether the response is stale at `now`: its age has reached its
    /// freshness lifetime.
    pub fn is_stale(&self, now: u64) -> (r: bool)
        ensures
            r == is_stale(self@, now),
    {
        self.max_age() <= self.age(now)
    }

    /// Seconds until the response becomes stale; 0 or less once it is.
    pub fn time_to_live(&self, now: u64) -> (r: i128)
        ensures
            r == time_to_live(self@, now),
    {
        self.max_age() as i128 - self.age(now) as i128
    }
}

} // verus!
