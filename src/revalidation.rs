//! Revalidation with the origin server: the conditional request to send, and
//! the policy that follows from the origin's answer.
use vstd::prelude::*;
use crate::filter::{
    dropped, filter_field, is_weak_tag, strip_hop_by_hop, with_filtered_list,
    without_hop_by_hop,
};
use crate::headers::{header_get, header_set, header_without, FieldsView, Headers};
use crate::names::{
    CONTENT_ENCODING, CONTENT_LENGTH, CONTENT_RANGE, ETAG, GET, HEAD, IF_MODIFIED_SINCE,
    IF_NONE_MATCH, IF_RANGE, LAST_MODIFIED, OPTIONS,
    TRACE, TRANSFER_ENCODING,
};
use crate::policy::{
    CacheOptions, CachePolicy, PolicyView, RequestSnapshot,
    RequestView, ResponseSnapshot, ResponseView,
};
use crate::text::{COMMA, SPACE, append_bytes, bytes_eq, copy_bytes, trim, trim_bytes};

verus! {

/// Methods that do not change the resource.
pub open spec fn safe_method(m: Seq<u8>) -> bool {
    m == GET@ || m == HEAD@ || m == OPTIONS@ || m == TRACE@
}

/// `a, b`: a list value with one more entry.
pub open spec fn list_append(a: Seq<u8>, b: Seq<u8>) -> Seq<u8> {
    a + seq![COMMA, SPACE] + b
}

/// The request headers to send to the origin to revalidate the stored
/// response for `q`: the request's own fields without hop-by-hop ones and
/// `If-Range`, plus `If-None-Match` with the stored `ETag` joined to any
/// tags the request already lists, and `If-Modified-Since` set to the stored
/// `Last-Modified`. For an unsafe method, which may not use weak
/// validators, `If-Modified-Since` is left out and weak tags are dropped
/// from `If-None-Match`. Without validators nothing conditional is added.
pub open spec fn revalidation_headers(p: PolicyView, q: RequestView) -> FieldsView {
    let h0 = header_without(without_hop_by_hop(q.headers), IF_RANGE@);
    let h1 = match header_get(p.response.headers, ETAG@) {
        Some(e) => header_set(
            h0,
            IF_NONE_MATCH@,
            match header_get(h0, IF_NONE_MATCH@) {
                Some(x) => list_append(x, e),
                None => e,
            },
        ),
        None => h0,
    };
    if !safe_method(q.method) {
        with_filtered_list(header_without(h1, IF_MODIFIED_SINCE@), IF_NONE_MATCH@, true)
    } else {
        match header_get(p.response.headers, LAST_MODIFIED@) {
            Some(lm) => header_set(h1, IF_MODIFIED_SINCE@, lm),
            None => h1,
        }
    }
}

/// The new response carries the stored response's validator. Entity tags
/// decide where both have one: they must be equal (surrounding whitespace
/// aside), and for an unsafe method both strong as well. Else
/// `Last-Modified` must be present on both and equal.
pub open spec fn validators_match(prev: FieldsView, new: FieldsView, method: Seq<u8>) -> bool {
    match (header_get(prev, ETAG@), header_get(new, ETAG@)) {
        (Some(a), Some(b)) => trim(a) == trim(b) && (safe_method(method) || (!is_weak_tag(a)
            && !is_weak_tag(b))),
        _ => match (header_get(prev, LAST_MODIFIED@), header_get(new, LAST_MODIFIED@)) {
            (Some(a), Some(b)) => a == b,
            _ => false,
        },
    }
}

/// Field `name` as the earlier response `prev` had it (or absent, as it was).
pub open spec fn keep_field(h: FieldsView, prev: FieldsView, name: Seq<u8>) -> FieldsView {
    match header_get(prev, name) {
        Some(v) => header_set(h, name, v),
        None => header_without(h, name),
    }
}

/// The new response's fields, except those describing the body, which stay
/// as the stored response had them.
pub open spec fn merged_headers(prev: FieldsView, new: FieldsView) -> FieldsView {
    keep_field(
        keep_field(
            keep_field(keep_field(new, prev, CONTENT_LENGTH@), prev, CONTENT_ENCODING@),
            prev,
            TRANSFER_ENCODING@,
        ),
        prev,
        CONTENT_RANGE@,
    )
}

/// Whether the stored body is still valid after the origin answered `r`.
pub open spec fn revalidation_valid(p: PolicyView, q: RequestView, r: ResponseView) -> bool {
    r.status == 304 || validators_match(p.response.headers, r.headers, q.method)
}

/// The response the new policy is built from.
pub open spec fn revalidated_response(p: PolicyView, q: RequestView, r: ResponseView) -> ResponseView {
    if revalidation_valid(p, q, r) {
        ResponseView {
            status: if r.status == 304 {
                p.response.status
            } else {
                r.status
            },
            headers: merged_headers(p.response.headers, r.headers),
        }
    } else {
        r
    }
}

/// The policy after revalidation: a fresh policy over `q` and the revalidated
/// response, received at `now`.
pub open spec fn revalidated_policy(p: PolicyView, q: RequestView, r: ResponseView, now: u64) -> PolicyView {
    PolicyView {
        options: p.options,
        request: q,
        response: revalidated_response(p, q, r),
        response_time: now,
    }
}

fn is_safe_method(m: &[u8]) -> (r: bool)
    ensures
        r == safe_method(m@),
{
    bytes_eq(m, &GET) || bytes_eq(m, &HEAD) || bytes_eq(m, &OPTIONS) || bytes_eq(m, &TRACE)
}

fn weak_tag(t: &[u8]) -> (r: bool)
    ensures
        r == is_weak_tag(t@),
{
    dropped(t, true)
}

fn tags_match(a: &[u8], b: &[u8], method: &[u8]) -> (r: bool)
    ensures
        r == (trim(a@) == trim(b@) && (safe_method(method@) || (!is_weak_tag(a@) && !is_weak_tag(
            b@,
        )))),
{
    bytes_eq(trim_bytes(a).as_slice(), trim_bytes(b).as_slice()) && (is_safe_method(method) || (
    !weak_tag(a) && !weak_tag(b)))
}

fn validators_agree(prev: &Headers, new: &Headers, method: &[u8]) -> (r: bool)
    ensures
        r == validators_match(prev@, new@, method@),
{
    match (prev.get(&ETAG), new.get(&ETAG)) {
        (Some(a), Some(b)) => tags_match(a.as_slice(), b.as_slice(), method),
        _ => match (prev.get(&LAST_MODIFIED), new.get(&LAST_MODIFIED)) {
            (Some(a), Some(b)) => bytes_eq(a.as_slice(), b.as_slice()),
            _ => false,
        },
    }
}

fn keep_stored_field(h: &mut Headers, prev: &Headers, name: &[u8])
    ensures
        final(h)@ == keep_field(old(h)@, prev@, name@),
{
    match prev.get(name) {
        Some(v) => h.set(name, v.as_slice()),
        None => h.remove(name),
    }
}

impl CachePolicy {
    /// Headers for a conditional request that revalidates the stored
    /// response; see `revalidation_headers`.
    pub fn revalidation_headers(&self, q: &RequestSnapshot) -> (r: Headers)
        ensures
            r@ == revalidation_headers(self@, q@),
    {
        let mut h = q.headers.duplicate();
        strip_hop_by_hop(&mut h);
        h.remove(&IF_RANGE);
        let stored = self.response();
        match stored.headers.get(&ETAG) {
            Some(e) => {
                let merged = match h.get(&IF_NONE_MATCH) {
                    Some(x) => {
                        let mut m = copy_bytes(x.as_slice());
                        m.push(COMMA);
                        m.push(SPACE);
                        append_bytes(&mut m, e.as_slice());
                        assert(m@ =~= list_append(x@, e@));
                        m
                    },
                    None => e,
                };
                h.set(&IF_NONE_MATCH, merged.as_slice());
            },
            None => {},
        }
        if !is_safe_method(q.method.as_slice()) {
            h.remove(&IF_MODIFIED_SINCE);
            filter_field(&mut h, &IF_NONE_MATCH, true);
        } else {
            match stored.headers.get(&LAST_MODIFIED) {
                Some(lm) => h.set(&IF_MODIFIED_SINCE, lm.as_slice()),
                None => {},
            }
        }
        h
    }

    /// Decides whether the stored response may be served from the cache as
    /// it is. If so, returns `true` and leaves `q` alone; if not, returns
    /// `false` and replaces `q`'s headers with those to send to the origin.
    pub fn is_cached_response_fresh(&self, q: &mut RequestSnapshot, now: u64) -> (r: bool)
        ensures
            r == crate::matching::satisfies_without_revalidation(self@, old(q)@, now),
            r ==> final(q)@ == old(q)@,
            !r ==> final(q)@ == (RequestView {
                headers: revalidation_headers(self@, old(q)@),
                ..old(q)@
            }),
    {
        if self.satisfies_without_revalidation(q, now) {
            return true;
        }
        let h = self.revalidation_headers(q);
        q.headers = h;
        false
    }

    /// Takes the origin's answer `r` to the revalidation request `q`,
    /// received at `now`. Returns whether the stored body is still valid, and
    /// the policy to keep from now on; this policy is left as it is.
    pub fn is_cached_response_valid(
        &self,
        q: &RequestSnapshot,
        r: &ResponseSnapshot,
        now: u64,
    ) -> (out: (bool, CachePolicy))
        ensures
            out.0 == revalidation_valid(self@, q@, r@),
            out.1@ == revalidated_policy(self@, q@, r@, now),
    {
        let stored = self.response();
        let valid = r.status == 304 || validators_agree(
            &stored.headers,
            &r.headers,
            q.method.as_slice(),
        );
        let base = if valid {
            let mut h = r.headers.duplicate();
            keep_stored_field(&mut h, &stored.headers, &CONTENT_LENGTH);
            keep_stored_field(&mut h, &stored.headers, &CONTENT_ENCODING);
            keep_stored_field(&mut h, &stored.headers, &TRANSFER_ENCODING);
            keep_stored_field(&mut h, &stored.headers, &CONTENT_RANGE);
            ResponseSnapshot {
                status: if r.status == 304 {
                    stored.status
                } else {
                    r.status
                },
                headers: h,
            }
        } else {
            r.duplicate()
        };
        let options: CacheOptions = self.options();
        (valid, options.policy_for(q, &base, now))
    }
}

} // verus!
