//! A policy as a flat list of string pairs, for storing it away and
//! rebuilding it later.
//!
//! The list holds, in this order: `shared`, `ignore-cargo-cult` and
//! `trust-server-date` as `1` or `0`; `cache-heuristic-permille`,
//! `immutable-min-time-to-live`, `response-time` and `status` in decimal;
//! `method` and `url`; `request-fields`, the number of request header fields
//! that follow; then the request's header fields and the response's header
//! fields, each as a name and value pair.
use vstd::prelude::*;
use crate::headers::{fields_view, FieldsView, Headers};
use crate::policy::{CacheOptions, CachePolicy, PolicyView, RequestSnapshot, RequestView, ResponseSnapshot, ResponseView};
use crate::text::{
    all_digits, bytes_eq, capped_number, copy_bytes, decimal, digits_value, format_decimal,
    lemma_decimal_digits, parse_number,
};

verus! {

/// `shared`
pub const SHARED_KEY: [u8; 6] = [115, 104, 97, 114, 101, 100];

/// `ignore-cargo-cult`
pub const CARGO_CULT_KEY: [u8; 17] = [105, 103, 110, 111, 114, 101, 45, 99, 97, 114, 103, 111, 45, 99, 117, 108, 116];

/// `trust-server-date`
pub const TRUST_DATE_KEY: [u8; 17] = [116, 114, 117, 115, 116, 45, 115, 101, 114, 118, 101, 114, 45, 100, 97, 116, 101];

/// `cache-heuristic-permille`
pub const HEURISTIC_KEY: [u8; 24] = [99, 97, 99, 104, 101, 45, 104, 101, 117, 114, 105, 115, 116, 105, 99, 45, 112, 101, 114, 109, 105, 108, 108, 101];

/// `immutable-min-time-to-live`
pub const IMMUTABLE_TTL_KEY: [u8; 26] = [105, 109, 109, 117, 116, 97, 98, 108, 101, 45, 109, 105, 110, 45, 116, 105, 109, 101, 45, 116, 111, 45, 108, 105, 118, 101];

/// `response-time`
pub const RESPONSE_TIME_KEY: [u8; 13] = [114, 101, 115, 112, 111, 110, 115, 101, 45, 116, 105, 109, 101];

/// `status`
pub const STATUS_KEY: [u8; 6] = [115, 116, 97, 116, 117, 115];

/// `method`
pub const METHOD_KEY: [u8; 6] = [109, 101, 116, 104, 111, 100];

/// `url`
pub const URL_KEY: [u8; 3] = [117, 114, 108];

/// `request-fields`
pub const REQUEST_FIELDS_KEY: [u8; 14] = [114, 101, 113, 117, 101, 115, 116, 45, 102, 105, 101, 108, 100, 115];

pub open spec fn flag_text(b: bool) -> Seq<u8> {
    if b {
        seq![49u8]
    } else {
        seq![48u8]
    }
}

pub open spec fn read_flag(v: Seq<u8>) -> Option<bool> {
    if v == seq![49u8] {
        Some(true)
    } else if v == seq![48u8] {
        Some(false)
    } else {
        None
    }
}

/// The entries before the header fields.
pub open spec fn snapshot_head(p: PolicyView) -> FieldsView {
    seq![
        (SHARED_KEY@, flag_text(p.options.shared)),
        (CARGO_CULT_KEY@, flag_text(p.options.ignore_cargo_cult)),
        (TRUST_DATE_KEY@, flag_text(p.options.trust_server_date)),
        (HEURISTIC_KEY@, decimal(p.options.cache_heuristic_permille as nat)),
        (IMMUTABLE_TTL_KEY@, decimal(p.options.immutable_min_time_to_live as nat)),
        (RESPONSE_TIME_KEY@, decimal(p.response_time as nat)),
        (STATUS_KEY@, decimal(p.response.status as nat)),
        (METHOD_KEY@, p.request.method),
        (URL_KEY@, p.request.url),
        (REQUEST_FIELDS_KEY@, decimal(p.request.headers.len())),
    ]
}

/// The snapshot of a policy.
pub open spec fn snapshot_of(p: PolicyView) -> FieldsView {
    snapshot_head(p) + p.request.headers + p.response.headers
}

pub open spec fn keys_in_place(s: FieldsView) -> bool {
    &&& s.len() >= 10
    &&& s[0].0 == SHARED_KEY@ && s[1].0 == CARGO_CULT_KEY@ && s[2].0 == TRUST_DATE_KEY@
    &&& s[3].0 == HEURISTIC_KEY@ && s[4].0 == IMMUTABLE_TTL_KEY@ && s[5].0 == RESPONSE_TIME_KEY@
    &&& s[6].0 == STATUS_KEY@ && s[7].0 == METHOD_KEY@ && s[8].0 == URL_KEY@
    &&& s[9].0 == REQUEST_FIELDS_KEY@
}

/// The policy a snapshot describes; `None` for a list not laid out as
/// `snapshot_of` lays it out. Numbers too large for their field read as its
/// largest value.
pub open spec fn policy_of_snapshot(s: FieldsView) -> Option<PolicyView> {
    if keys_in_place(s) && read_flag(s[0].1) is Some && read_flag(s[1].1) is Some && read_flag(
        s[2].1,
    ) is Some && capped_number(s[3].1, u32::MAX as nat) is Some && capped_number(
        s[4].1,
        u32::MAX as nat,
    ) is Some && capped_number(s[5].1, u64::MAX as nat) is Some && capped_number(
        s[6].1,
        u16::MAX as nat,
    ) is Some && s[9].1.len() > 0 && all_digits(s[9].1) && digits_value(s[9].1) <= s.len()
        - 10 {
        let n: int = digits_value(s[9].1) as int;
        Some(
            PolicyView {
                options: CacheOptions {
                    shared: read_flag(s[0].1)->0,
                    ignore_cargo_cult: read_flag(s[1].1)->0,
                    trust_server_date: read_flag(s[2].1)->0,
                    cache_heuristic_permille: capped_number(s[3].1, u32::MAX as nat)->0 as u32,
                    immutable_min_time_to_live: capped_number(s[4].1, u32::MAX as nat)->0 as u32,
                },
                request: RequestView {
                    method: s[7].1,
                    url: s[8].1,
                    headers: s.subrange(10, 10 + n),
                },
                response: ResponseView {
                    status: capped_number(s[6].1, u16::MAX as nat)->0 as u16,
                    headers: s.subrange(10 + n, s.len() as int),
                },
                response_time: capped_number(s[5].1, u64::MAX as nat)->0 as u64,
            },
        )
    } else {
        None
    }
}

/// A number written in decimal reads back as itself.
pub proof fn lemma_decimal_reads_back(n: nat, cap: nat)
    requires
        n <= cap,
    ensures
        capped_number(decimal(n), cap) == Some(n),
{
    lemma_decimal_digits(n);
}

fn flag_bytes(b: bool) -> (r: Vec<u8>)
    ensures
        r@ == flag_text(b),
{
    let mut v: Vec<u8> = Vec::new();
    v.push(if b {
        49
    } else {
        48
    });
    assert(v@ =~= flag_text(b));
    v
}

fn parse_flag(v: &[u8]) -> (r: Option<bool>)
    ensures
        r == read_flag(v@),
{
    if v.len() == 1 && v[0] == 49 {
        assert(v@ =~= seq![49u8]);
        Some(true)
    } else if v.len() == 1 && v[0] == 48 {
        assert(v@ =~= seq![48u8]);
        Some(false)
    } else {
        assert(v@ != seq![49u8]);
        assert(v@ != seq![48u8]);
        None
    }
}

fn push_entry(s: &mut Vec<(Vec<u8>, Vec<u8>)>, k: &[u8], v: Vec<u8>)
    ensures
        fields_view(final(s)@) == fields_view(old(s)@).push((k@, v@)),
{
    s.push((copy_bytes(k), v));
    assert(fields_view(s@) =~= fields_view(old(s)@).push((k@, v@)));
}

fn push_fields(s: &mut Vec<(Vec<u8>, Vec<u8>)>, h: &Headers)
    ensures
        fields_view(final(s)@) == fields_view(old(s)@) + h@,
{
    let mut i: usize = 0;
    while i < h.fields.len()
        invariant
            i <= h.fields@.len(),
            fields_view(s@) == fields_view(old(s)@) + h@.take(i as int),
        decreases h.fields@.len() - i,
    {
        let ghost before = fields_view(s@);
        push_entry(s, h.fields[i].0.as_slice(), copy_bytes(h.fields[i].1.as_slice()));
        assert(fields_view(s@) =~= fields_view(old(s)@) + h@.take(i + 1));
        i += 1;
    }
    assert(h@.take(h@.len() as int) =~= h@);
}

fn fields_range(s: &Vec<(Vec<u8>, Vec<u8>)>, a: usize, b: usize) -> (r: Headers)
    requires
        a <= b <= s@.len(),
    ensures
        r@ == fields_view(s@).subrange(a as int, b as int),
{
    let mut r = Headers::new();
    let mut i: usize = a;
    while i < b
        invariant
            a <= i <= b <= s@.len(),
            r@ == fields_view(s@).subrange(a as int, i as int),
        decreases b - i,
    {
        r.append(s[i].0.as_slice(), s[i].1.as_slice());
        assert(r@ =~= fields_view(s@).subrange(a as int, i + 1));
        i += 1;
    }
    r
}

impl CachePolicy {
    /// The policy as a flat list of string pairs; see the module text.
    pub fn to_snapshot(&self) -> (r: Vec<(Vec<u8>, Vec<u8>)>)
        ensures
            fields_view(r@) == snapshot_of(self@),
    {
        let o = self.options();
        let q = self.request();
        let res = self.response();
        let mut s: Vec<(Vec<u8>, Vec<u8>)> = Vec::new();
        push_entry(&mut s, &SHARED_KEY, flag_bytes(o.shared));
        push_entry(&mut s, &CARGO_CULT_KEY, flag_bytes(o.ignore_cargo_cult));
        push_entry(&mut s, &TRUST_DATE_KEY, flag_bytes(o.trust_server_date));
        push_entry(&mut s, &HEURISTIC_KEY, format_decimal(o.cache_heuristic_permille as u64));
        push_entry(&mut s, &IMMUTABLE_TTL_KEY, format_decimal(o.immutable_min_time_to_live as u64));
        push_entry(&mut s, &RESPONSE_TIME_KEY, format_decimal(self.response_time()));
        push_entry(&mut s, &STATUS_KEY, format_decimal(res.status as u64));
        push_entry(&mut s, &METHOD_KEY, copy_bytes(q.method.as_slice()));
        push_entry(&mut s, &URL_KEY, copy_bytes(q.url.as_slice()));
        push_entry(&mut s, &REQUEST_FIELDS_KEY, format_decimal(q.headers.fields.len() as u64));
        assert(fields_view(s@) =~= snapshot_head(self@));
        push_fields(&mut s, &q.headers);
        push_fields(&mut s, &res.headers);
        assert(fields_view(s@) =~= snapshot_of(self@));
        s
    }

    /// Rebuilds a policy from `to_snapshot`'s list; `None` where the list is
    /// not laid out that way.
    pub fn from_snapshot(s: &Vec<(Vec<u8>, Vec<u8>)>) -> (r: Option<CachePolicy>)
        ensures
            r matches Some(c) ==> policy_of_snapshot(fields_view(s@)) == Some(c@),
            r is None ==> policy_of_snapshot(fields_view(s@)) is None,
    {
        let ghost v = fields_view(s@);
        if s.len() < 10 {
            return None;
        }
        assert(forall|i: int| 0 <= i < s@.len() ==> #[trigger] v[i] == (s@[i].0@, s@[i].1@));
        if !(bytes_eq(s[0].0.as_slice(), &SHARED_KEY) && bytes_eq(s[1].0.as_slice(), &CARGO_CULT_KEY)
            && bytes_eq(s[2].0.as_slice(), &TRUST_DATE_KEY) && bytes_eq(
            s[3].0.as_slice(),
            &HEURISTIC_KEY,
        ) && bytes_eq(s[4].0.as_slice(), &IMMUTABLE_TTL_KEY) && bytes_eq(
            s[5].0.as_slice(),
            &RESPONSE_TIME_KEY,
        ) && bytes_eq(s[6].0.as_slice(), &STATUS_KEY) && bytes_eq(s[7].0.as_slice(), &METHOD_KEY)
            && bytes_eq(s[8].0.as_slice(), &URL_KEY) && bytes_eq(
            s[9].0.as_slice(),
            &REQUEST_FIELDS_KEY,
        )) {
            return None;
        }
        let shared = parse_flag(s[0].1.as_slice());
        let cargo = parse_flag(s[1].1.as_slice());
        let trust = parse_flag(s[2].1.as_slice());
        let heuristic = parse_number(s[3].1.as_slice(), u32::MAX as u64);
        let ttl = parse_number(s[4].1.as_slice(), u32::MAX as u64);
        let time = parse_number(s[5].1.as_slice(), u64::MAX);
        let status = parse_number(s[6].1.as_slice(), u16::MAX as u64);
        let count = parse_number(s[9].1.as_slice(), u64::MAX);
        match (shared, cargo, trust, heuristic, ttl, time, status, count) {
            (
                Some(shared),
                Some(cargo),
                Some(trust),
                Some(heuristic),
                Some(ttl),
                Some(time),
                Some(status),
                Some(count),
            ) => {
                if count > (s.len() - 10) as u64 {
                    return None;
                }
                let n = count as usize;
                let options = CacheOptions {
                    shared,
                    ignore_cargo_cult: cargo,
                    trust_server_date: trust,
                    cache_heuristic_permille: heuristic as u32,
                    immutable_min_time_to_live: ttl as u32,
                };
                let request = RequestSnapshot {
                    method: copy_bytes(s[7].1.as_slice()),
                    url: copy_bytes(s[8].1.as_slice()),
                    headers: fields_range(s, 10, 10 + n),
                };
                let response = ResponseSnapshot {
                    status: status as u16,
                    headers: fields_range(s, 10 + n, s.len()),
                };
                Some(CachePolicy::assemble(options, request, response, time))
            },
            _ => None,
        }
    }
}

} // verus!
