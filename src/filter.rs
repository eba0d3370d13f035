//! Header clean-up: hop-by-hop fields, transient `Warning` entries, weak
//! entity tags, and the `Age` of a response served from the cache.
use vstd::prelude::*;
use crate::headers::{header_get, header_set, header_without, FieldsView, Headers};
use crate::names::{
    AGE, CONNECTION, DATE, KEEP_ALIVE, PROXY_AUTHENTICATION, PROXY_AUTHORIZATION, TE, TRAILER,
    TRANSFER_ENCODING, UPGRADE, WARNING,
};
use crate::policy::{age, CachePolicy};
use crate::text::{
    COMMA, SPACE, TAB, bytes_eq, copy_bytes, decimal, format_decimal, join, join_bytes, lower, lowercase, split,
    split_bytes, trim, trim_bytes, trim_start, views,
};

verus! {

/// Fields that describe one connection and are never passed on.
pub open spec fn is_hop_by_hop(name: Seq<u8>) -> bool {
    let n = lower(name);
    n == DATE@ || n == CONNECTION@ || n == KEEP_ALIVE@ || n == PROXY_AUTHENTICATION@ || n
        == PROXY_AUTHORIZATION@ || n == TE@ || n == TRAILER@ || n == TRANSFER_ENCODING@ || n
        == UPGRADE@
}

/// `h` without its hop-by-hop fields, the others in their order.
pub open spec fn without_hop_by_hop(h: FieldsView) -> FieldsView
    decreases h.len(),
{
    if h.len() == 0 {
        h
    } else if is_hop_by_hop(h.last().0) {
        without_hop_by_hop(h.drop_last())
    } else {
        without_hop_by_hop(h.drop_last()).push(h.last())
    }
}

/// A `Warning` entry with a 1xx code (a `1` and two more digits): it
/// describes the response's freshness at the time and does not survive
/// caching.
pub open spec fn is_transient_warning(e: Seq<u8>) -> bool {
    let s = trim_start(e);
    s.len() >= 3 && s[0] == 49 && 48 <= s[1] <= 57 && 48 <= s[2] <= 57
}

/// An entity tag marked weak: it starts with `W/` (bytes 87, 47).
pub open spec fn is_weak_tag(e: Seq<u8>) -> bool {
    let s = trim_start(e);
    s.len() >= 2 && s[0] == 87 && s[1] == 47
}

pub open spec fn dropped_entry(e: Seq<u8>, etags: bool) -> bool {
    if etags {
        is_weak_tag(e)
    } else {
        is_transient_warning(e)
    }
}

pub open spec fn kept_entries(parts: Seq<Seq<u8>>, etags: bool) -> Seq<Seq<u8>>
    decreases parts.len(),
{
    if parts.len() == 0 {
        parts
    } else if dropped_entry(parts.last(), etags) {
        kept_entries(parts.drop_last(), etags)
    } else {
        kept_entries(parts.drop_last(), etags).push(parts.last())
    }
}

/// A comma-separated list without its weak tags (`etags`) or transient
/// warnings (otherwise); `None` when no entry is left.
pub open spec fn filtered_list(v: Seq<u8>, etags: bool) -> Option<Seq<u8>> {
    let k = kept_entries(split(v, COMMA), etags);
    if k.len() == 0 {
        None
    } else {
        Some(trim(join(k, COMMA)))
    }
}

/// `name` replaced by its filtered list, or removed when nothing is left.
pub open spec fn with_filtered_list(h: FieldsView, name: Seq<u8>, etags: bool) -> FieldsView {
    match header_get(h, name) {
        None => h,
        Some(v) => match filtered_list(v, etags) {
            None => header_without(h, name),
            Some(k) => header_set(h, name, k),
        },
    }
}

/// The headers of a stored response as served at a given age.
pub open spec fn served_headers(h: FieldsView, age: nat) -> FieldsView {
    header_set(with_filtered_list(without_hop_by_hop(h), WARNING@, false), AGE@, decimal(age))
}

fn hop_by_hop(name: &[u8]) -> (r: bool)
    ensures
        r == is_hop_by_hop(name@),
{
    let n = lowercase(name);
    let n = n.as_slice();
    bytes_eq(n, &DATE) || bytes_eq(n, &CONNECTION) || bytes_eq(n, &KEEP_ALIVE) || bytes_eq(
        n,
        &PROXY_AUTHENTICATION,
    ) || bytes_eq(n, &PROXY_AUTHORIZATION) || bytes_eq(n, &TE) || bytes_eq(n, &TRAILER)
        || bytes_eq(n, &TRANSFER_ENCODING) || bytes_eq(n, &UPGRADE)
}

/// Removes the hop-by-hop fields.
pub fn strip_hop_by_hop(h: &mut Headers)
    ensures
        final(h)@ == without_hop_by_hop(old(h)@),
{
    let ghost s = h@;
    let mut kept = Headers::new();
    let mut i: usize = 0;
    assert(s.take(0) =~= Seq::<(Seq<u8>, Seq<u8>)>::empty());
    while i < h.fields.len()
        invariant
            i <= h.fields@.len(),
            s == h@,
            kept@ == without_hop_by_hop(s.take(i as int)),
        decreases h.fields@.len() - i,
    {
        assert(s.take(i + 1).drop_last() =~= s.take(i as int));
        assert(s.take(i + 1).last() == s[i as int]);
        let n = &h.fields[i].0;
        let v = &h.fields[i].1;
        if !hop_by_hop(n.as_slice()) {
            kept.append(n.as_slice(), v.as_slice());
        }
        i += 1;
    }
    assert(s.take(s.len() as int) =~= s);
    *h = kept;
}

/// Index of the first byte that is not whitespace.
pub fn skip_spaces(e: &[u8]) -> (a: usize)
    ensures
        a <= e@.len(),
        trim_start(e@) == e@.subrange(a as int, e@.len() as int),
{
    let mut a: usize = 0;
    assert(e@.subrange(0, e@.len() as int) =~= e@);
    while a < e.len() && (e[a] == SPACE || e[a] == TAB)
        invariant
            a <= e@.len(),
            trim_start(e@) == trim_start(e@.subrange(a as int, e@.len() as int)),
        decreases e@.len() - a,
    {
        assert(e@.subrange(a as int, e@.len() as int).drop_first() =~= e@.subrange(
            a + 1,
            e@.len() as int,
        ));
        a += 1;
    }
    a
}

pub fn dropped(e: &[u8], etags: bool) -> (r: bool)
    ensures
        r == dropped_entry(e@, etags),
{
    let a = skip_spaces(e);
    let n = e.len() - a;
    if etags {
        n >= 2 && e[a] == 87 && e[a + 1] == 47
    } else {
        n >= 3 && e[a] == 49 && 48 <= e[a + 1] && e[a + 1] <= 57 && 48 <= e[a + 2] && e[a + 2]
            <= 57
    }
}

/// Filters a comma-separated list; see `filtered_list`.
pub fn filter_list(v: &[u8], etags: bool) -> (r: Option<Vec<u8>>)
    ensures
        crate::headers::opt_view(r) == filtered_list(v@, etags),
{
    let parts = split_bytes(v, COMMA);
    let ghost p = views(parts@);
    let mut kept: Vec<Vec<u8>> = Vec::new();
    let mut i: usize = 0;
    assert(p.take(0) =~= Seq::<Seq<u8>>::empty());
    assert(views(kept@) =~= kept_entries(p.take(0), etags));
    while i < parts.len()
        invariant
            i <= parts@.len(),
            p == views(parts@),
            views(kept@) == kept_entries(p.take(i as int), etags),
        decreases parts@.len() - i,
    {
        assert(p.take(i + 1).drop_last() =~= p.take(i as int));
        assert(p.take(i + 1).last() == p[i as int]);
        if !dropped(parts[i].as_slice(), etags) {
            let ghost before = views(kept@);
            kept.push(copy_bytes(parts[i].as_slice()));
            assert(views(kept@) =~= before.push(p[i as int]));
        }
        i += 1;
    }
    assert(p.take(p.len() as int) =~= p);
    if kept.len() == 0 {
        None
    } else {
        let joined = join_bytes(&kept, COMMA);
        Some(trim_bytes(joined.as_slice()))
    }
}

/// Replaces field `name` by its filtered list; see `with_filtered_list`.
pub fn filter_field(h: &mut Headers, name: &[u8], etags: bool)
    ensures
        final(h)@ == with_filtered_list(old(h)@, name@, etags),
{
    match h.get(name) {
        None => {},
        Some(v) => match filter_list(v.as_slice(), etags) {
            None => h.remove(name),
            Some(k) => h.set(name, k.as_slice()),
        },
    }
}

impl CachePolicy {
    /// Prepares `headers` to be sent with the stored response at `now`:
    /// hop-by-hop fields go, 1xx warnings go, and `Age` is set.
    pub fn update_response_headers(&self, headers: &mut Headers, now: u64)
        ensures
            final(headers)@ == served_headers(old(headers)@, age(self@, now)),
    {
        let a = self.age(now);
        strip_hop_by_hop(headers);
        filter_field(headers, &WARNING, false);
        let text = format_decimal(a);
        headers.set(&AGE, text.as_slice());
    }

    /// The stored response's headers as served at `now`. The stored response
    /// itself is left as it is.
    pub fn response_headers(&self, now: u64) -> (r: Headers)
        ensures
            r@ == served_headers(self@.response.headers, age(self@, now)),
    {
        let mut h = self.response().headers.duplicate();
        self.update_response_headers(&mut h, now);
        h
    }
}

} // verus!
