//! Whether a stored response answers a new request: the request must be for
//! the same resource, agree on the fields that `Vary` names, and accept the
//! response's freshness.
use vstd::prelude::*;
use crate::directives::{directive_seconds, DirectivesView};
use crate::headers::{header_get, FieldsView, Headers};
use crate::names::{HEAD, HOST, MAX_AGE, MAX_STALE, MIN_FRESH, MUST_REVALIDATE, NO_CACHE, PROXY_REVALIDATE, VARY};
use crate::policy::{
    age, is_stale, max_age, read_message_directives, request_directives, res_dirs, star,
    time_to_live, vary_fields, CachePolicy, PolicyView, RequestSnapshot, RequestView,
};
use crate::text::{ASTERISK, COMMA, bytes_eq, split, split_bytes, trim_bytes, views};

verus! {

/// The fields of `h` agree with those of `stored` on every field that the
/// `Vary` value `v` names (absent on both sides counts as agreeing); a `*`
/// among the names agrees with nothing.
pub open spec fn vary_agrees(stored: FieldsView, v: Seq<u8>, h: FieldsView) -> bool {
    let f = vary_fields(v);
    &&& !f.contains(star())
    &&& forall|i: int|
        0 <= i < f.len() ==> (#[trigger] f[i]).len() == 0 || header_get(stored, f[i])
            == header_get(h, f[i])
}

/// The new request's fields `h` agree with the stored request on the fields
/// that the stored response's `Vary` names.
pub open spec fn vary_matches(p: PolicyView, h: FieldsView) -> bool {
    match header_get(p.response.headers, VARY@) {
        None => true,
        Some(v) => vary_agrees(p.request.headers, v, h),
    }
}

/// Same URL, same `Host` (both absent counts), same method (or any method
/// when `allow_head` and the stored request was `HEAD`), and `Vary` agrees.
pub open spec fn request_matches(p: PolicyView, q: RequestView, allow_head: bool) -> bool {
    &&& p.request.url == q.url
    &&& header_get(p.request.headers, HOST@) == header_get(q.headers, HOST@)
    &&& p.request.method == q.method || (allow_head && p.request.method == HEAD@)
    &&& vary_matches(p, q.headers)
}

/// A stale response is acceptable: the request carries `max-stale` (bare,
/// or with a number of seconds not yet exceeded past the lifetime) and the
/// response does not demand `must-revalidate`.
pub open spec fn stale_allowed(p: PolicyView, qd: DirectivesView, now: u64) -> bool {
    &&& qd.contains_key(MAX_STALE@)
    &&& !res_dirs(p).contains_key(MUST_REVALIDATE@)
    &&& match qd[MAX_STALE@] {
        None => true,
        Some(_) => match directive_seconds(qd, MAX_STALE@) {
            Some(n) => age(p, now) <= max_age(p) + n,
            None => false,
        },
    }
}

/// Everything that reuse asks of `q` apart from freshness: no `no-cache`,
/// its `max-age` and `min-fresh` met, no `proxy-revalidate` on a shared
/// cache, and the request matching the stored one.
pub open spec fn reuse_conditions(p: PolicyView, q: RequestView, now: u64) -> bool {
    let qd = request_directives(q);
    &&& !qd.contains_key(NO_CACHE@)
    &&& match directive_seconds(qd, MAX_AGE@) {
        Some(n) => age(p, now) <= n,
        None => true,
    }
    &&& match directive_seconds(qd, MIN_FRESH@) {
        Some(n) => time_to_live(p, now) >= n,
        None => true,
    }
    &&& !(p.options.shared && res_dirs(p).contains_key(PROXY_REVALIDATE@))
    &&& request_matches(p, q, false)
}

/// The stored response may be used for `q` without asking the origin.
pub open spec fn satisfies_without_revalidation(p: PolicyView, q: RequestView, now: u64) -> bool {
    &&& reuse_conditions(p, q, now)
    &&& !is_stale(p, now) || stale_allowed(p, request_directives(q), now)
}

fn same_field(a: &Headers, b: &Headers, name: &[u8]) -> (r: bool)
    ensures
        r == (header_get(a@, name@) == header_get(b@, name@)),
{
    let x = a.get(name);
    let y = b.get(name);
    match (x, y) {
        (Some(u), Some(v)) => bytes_eq(u.as_slice(), v.as_slice()),
        (None, None) => true,
        _ => false,
    }
}

impl CachePolicy {
    /// Whether `h` agrees with the stored request on the fields that the
    /// stored response's `Vary` names.
    pub fn vary_matches(&self, h: &Headers) -> (r: bool)
        ensures
            r == vary_matches(self@, h@),
    {
        let stored = self.request();
        match self.response().headers.get(&VARY) {
            None => true,
            Some(v) => {
                let parts = split_bytes(v.as_slice(), COMMA);
                let ghost f = vary_fields(v@);
                let mut i: usize = 0;
                while i < parts.len()
                    invariant
                        i <= parts@.len(),
                        views(parts@) == split(v@, COMMA),
                        f == vary_fields(v@),
                        header_get(self@.response.headers, VARY@) == Some(v@),
                        stored@ == self@.request,
                        forall|j: int| 0 <= j < i ==> f[j] != star(),
                        forall|j: int|
                            0 <= j < i ==> (#[trigger] f[j]).len() == 0 || header_get(
                                self@.request.headers,
                                f[j],
                            ) == header_get(h@, f[j]),
                    decreases parts@.len() - i,
                {
                    let t = trim_bytes(parts[i].as_slice());
                    assert(f[i as int] == t@);
                    if t.len() == 1 && t[0] == ASTERISK {
                        assert(t@ =~= star());
                        assert(f.contains(star()));
                        return false;
                    }
                    assert(t@ != star());
                    if t.len() > 0 && !same_field(&stored.headers, h, t.as_slice()) {
                        return false;
                    }
                    i += 1;
                }
                assert(!f.contains(star()));
                true
            },
        }
    }

    /// Whether `q` asks for what the stored request asked for.
    pub fn request_matches(&self, q: &RequestSnapshot, allow_head: bool) -> (r: bool)
        ensures
            r == request_matches(self@, q@, allow_head),
    {
        let stored = self.request();
        bytes_eq(stored.url.as_slice(), q.url.as_slice()) && same_field(
            &stored.headers,
            &q.headers,
            &HOST,
        ) && (bytes_eq(stored.method.as_slice(), q.method.as_slice()) || (allow_head
            && bytes_eq(stored.method.as_slice(), &HEAD))) && self.vary_matches(&q.headers)
    }

    /// Whether the stored response may answer `q` at `now` without
    /// revalidation.
    pub fn satisfies_without_revalidation(&self, q: &RequestSnapshot, now: u64) -> (r: bool)
        ensures
            r == satisfies_without_revalidation(self@, q@, now),
    {
        let qd = read_message_directives(&q.headers);
        if qd.has(&NO_CACHE) {
            return false;
        }
        let a = self.age(now);
        match qd.seconds(&MAX_AGE) {
            Some(n) => {
                if a > n {
                    return false;
                }
            },
            None => {},
        }
        match qd.seconds(&MIN_FRESH) {
            Some(n) => {
                if self.time_to_live(now) < n as i128 {
                    return false;
                }
            },
            None => {},
        }
        if self.options().shared && self.response_directives().has(&PROXY_REVALIDATE) {
            return false;
        }
        if self.is_stale(now) {
            let allowed = match qd.lookup(&MAX_STALE) {
                None => false,
                Some(value) => {
                    if self.response_directives().has(&MUST_REVALIDATE) {
                        false
                    } else {
                        match value {
                            None => true,
                            Some(_) => match qd.seconds(&MAX_STALE) {
                                Some(n) => a as u128 <= self.max_age() as u128 + n as u128,
                                None => false,
                            },
                        }
                    }
                },
            };
            if !allowed {
                return false;
            }
        }
        self.request_matches(q, false)
    }
}

} // verus!
