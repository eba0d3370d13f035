//! Properties that hold of every policy, proved over the models that the
//! library's functions are specified by.
use vstd::prelude::*;
use crate::directives::directive_seconds;
use crate::headers::{has_header, header_get, header_set, lemma_set_get, same_name, FieldsView};
use crate::matching::{
    request_matches, reuse_conditions, satisfies_without_revalidation, vary_agrees,
};
use crate::names::{
    AUTHORIZATION, GET, HEAD, MAX_AGE, MAX_STALE, MUST_REVALIDATE, NO_STORE, POST_CHECK, PRE_CHECK,
    PRIVATE, SET_COOKIE, S_MAXAGE, AGE, CACHE_CONTROL, DATE, EXPIRES, LAST_MODIFIED, PRAGMA, VARY,
};
use crate::policy::{
    age, is_stale, lifetime_suppressed, max_age, message_directives, req_dirs,
    request_directives, res_dirs, star, storable, time_to_live, vary_fields, vary_is_star,
    PolicyView, RequestView, ResponseView,
};
use crate::text::{lemma_decimal_digits, lower};
use crate::snapshot::{
    flag_text, lemma_decimal_reads_back, policy_of_snapshot, read_flag, snapshot_head, snapshot_of,
};

verus! {

/// Statuses stored by default.
pub open spec fn stored_by_default_status(s: u16) -> bool {
    s == 200 || s == 203 || s == 204 || s == 300 || s == 301 || s == 404 || s == 405 || s == 410
        || s == 414 || s == 501
}

/// Statuses never stored: partial content, the other redirects, not
/// modified, authentication failures, and server errors other than 501.
pub open spec fn never_stored_status(s: u16) -> bool {
    s == 206 || s == 303 || s == 304 || (401 <= s <= 403) || (500 <= s <= 599 && s != 501)
}

/// A GET or HEAD response with a status stored by default is storable, as
/// long as nothing forbids it: no `no-store`, and for a shared cache no
/// `private`, `Set-Cookie` or `Authorization`.
pub proof fn lemma_default_statuses_storable(p: PolicyView)
    requires
        stored_by_default_status(p.response.status),
        p.request.method == GET@ || p.request.method == HEAD@,
        !req_dirs(p).contains_key(NO_STORE@),
        !res_dirs(p).contains_key(NO_STORE@),
        p.options.shared ==> !res_dirs(p).contains_key(PRIVATE@) && !has_header(
            p.response.headers,
            SET_COOKIE@,
        ) && !has_header(p.request.headers, AUTHORIZATION@),
    ensures
        storable(p),
{
}

/// A response with one of these statuses is never storable and has no
/// freshness, whatever directives it carries.
pub proof fn lemma_never_stored_statuses(p: PolicyView)
    requires
        never_stored_status(p.response.status),
    ensures
        !storable(p),
        max_age(p) == 0,
{
}

/// `no-store` in the request or in the response forbids storage and leaves
/// no freshness, whatever else either carries and whatever the options.
pub proof fn lemma_no_store_not_storable(p: PolicyView)
    requires
        request_directives(p.request).contains_key(NO_STORE@) || message_directives(
            p.response.headers,
        ).contains_key(NO_STORE@),
    ensures
        !storable(p),
        max_age(p) == 0,
{
    assert(NO_STORE@ != PRE_CHECK@) by {
        assert(NO_STORE@.len() != PRE_CHECK@.len());
    }
    assert(NO_STORE@ != POST_CHECK@) by {
        assert(NO_STORE@.len() != POST_CHECK@.len());
    }
}

/// A single-user cache takes `max-age` and ignores `s-maxage`.
pub proof fn lemma_private_cache_uses_max_age(p: PolicyView, n: nat)
    requires
        !p.options.shared,
        directive_seconds(res_dirs(p), MAX_AGE@) == Some(n),
    ensures
        max_age(p) == if lifetime_suppressed(p) {
            0
        } else {
            n
        },
{
}

/// A shared cache takes `s-maxage` over `max-age`.
pub proof fn lemma_shared_cache_uses_s_maxage(p: PolicyView, n: nat)
    requires
        p.options.shared,
        directive_seconds(res_dirs(p), S_MAXAGE@) == Some(n),
    ensures
        max_age(p) == if lifetime_suppressed(p) {
            0
        } else {
            n
        },
{
}

/// With `max-stale=n` on the request, a stale response is reused exactly
/// when it is at most `n` seconds past its lifetime and does not carry
/// `must-revalidate`; the other conditions of reuse stay as they are.
pub proof fn lemma_max_stale_window(p: PolicyView, q: RequestView, now: u64, n: nat)
    requires
        directive_seconds(request_directives(q), MAX_STALE@) == Some(n),
    ensures
        is_stale(p, now) ==> (satisfies_without_revalidation(p, q, now) == (reuse_conditions(
            p,
            q,
            now,
        ) && !res_dirs(p).contains_key(MUST_REVALIDATE@) && age(p, now) <= max_age(p) + n)),
        !is_stale(p, now) ==> satisfies_without_revalidation(p, q, now) == reuse_conditions(
            p,
            q,
            now,
        ),
{
}

/// A response with `must-revalidate` is never reused stale, whatever
/// `max-stale` the request allows and whatever the options.
pub proof fn lemma_must_revalidate_ignores_max_stale(p: PolicyView, q: RequestView, now: u64)
    requires
        message_directives(p.response.headers).contains_key(MUST_REVALIDATE@),
    ensures
        satisfies_without_revalidation(p, q, now) ==> !is_stale(p, now),
{
    assert(MUST_REVALIDATE@ != PRE_CHECK@) by {
        assert(MUST_REVALIDATE@.len() != PRE_CHECK@.len());
    }
    assert(MUST_REVALIDATE@ != POST_CHECK@) by {
        assert(MUST_REVALIDATE@.len() != POST_CHECK@.len());
    }
}

/// `Vary: *` makes the response stale at every moment and matches no
/// request.
pub proof fn lemma_vary_star_always_stale(p: PolicyView, q: RequestView, now: u64, allow_head: bool)
    requires
        vary_is_star(p),
    ensures
        max_age(p) == 0,
        is_stale(p, now),
        !request_matches(p, q, allow_head),
{
}

/// Two `Vary` values that name the same fields, in any order and with any
/// whitespace, agree on exactly the same requests.
pub proof fn lemma_vary_order_irrelevant(stored: FieldsView, v1: Seq<u8>, v2: Seq<u8>, h: FieldsView)
    requires
        vary_fields(v1).to_set() == vary_fields(v2).to_set(),
    ensures
        vary_agrees(stored, v1, h) == vary_agrees(stored, v2, h),
{
    if vary_agrees(stored, v1, h) {
        lemma_vary_agrees_by_set(stored, v1, v2, h);
    }
    if vary_agrees(stored, v2, h) {
        lemma_vary_agrees_by_set(stored, v2, v1, h);
    }
}

proof fn lemma_vary_agrees_by_set(stored: FieldsView, v1: Seq<u8>, v2: Seq<u8>, h: FieldsView)
    requires
        vary_fields(v1).to_set() == vary_fields(v2).to_set(),
        vary_agrees(stored, v1, h),
    ensures
        vary_agrees(stored, v2, h),
{
    let f1 = vary_fields(v1);
    let f2 = vary_fields(v2);
    assert(!f2.contains(crate::policy::star())) by {
        if f2.contains(crate::policy::star()) {
            assert(f2.to_set().contains(crate::policy::star()));
            assert(f1.to_set().contains(crate::policy::star()));
        }
    }
    assert forall|i: int| 0 <= i < f2.len() implies (#[trigger] f2[i]).len() == 0 || header_get(
        stored,
        f2[i],
    ) == header_get(h, f2[i]) by {
        assert(f2.to_set().contains(f2[i]));
        assert(f1.to_set().contains(f2[i]));
        let j = choose|j: int| 0 <= j < f1.len() && f1[j] == f2[i];
        assert(f1[j].len() == 0 || header_get(stored, f1[j]) == header_get(h, f1[j]));
    }
}

/// `p` with its response's `Vary` set to `v`.
pub open spec fn with_vary(p: PolicyView, v: Seq<u8>) -> PolicyView {
    PolicyView {
        response: ResponseView {
            status: p.response.status,
            headers: header_set(p.response.headers, VARY@, v),
        },
        ..p
    }
}

proof fn lemma_not_vary(name: Seq<u8>)
    requires
        name.len() > 0,
        name[0] != 118u8,
        65 > name[0] || name[0] > 90,
    ensures
        !same_name(VARY@, name),
{
    assert(lower(VARY@)[0] != lower(name)[0]);
}

/// Two policies whose responses differ only in a `Vary` value that names
/// the same fields, in another order or with other whitespace, agree on
/// storability, freshness and reuse for every request.
pub proof fn lemma_vary_order_policies(p: PolicyView, v1: Seq<u8>, v2: Seq<u8>, q: RequestView, now: u64)
    requires
        vary_fields(v1).to_set() == vary_fields(v2).to_set(),
    ensures
        storable(with_vary(p, v1)) == storable(with_vary(p, v2)),
        max_age(with_vary(p, v1)) == max_age(with_vary(p, v2)),
        is_stale(with_vary(p, v1), now) == is_stale(with_vary(p, v2), now),
        satisfies_without_revalidation(with_vary(p, v1), q, now) == satisfies_without_revalidation(
            with_vary(p, v2),
            q,
            now,
        ),
{
    let h = p.response.headers;
    let names = seq![
        CACHE_CONTROL@,
        PRAGMA@,
        EXPIRES@,
        SET_COOKIE@,
        AGE@,
        DATE@,
        LAST_MODIFIED@,
    ];
    assert forall|i: int|
        0 <= i < names.len() implies header_get(header_set(h, VARY@, v1), #[trigger] names[i])
        == header_get(header_set(h, VARY@, v2), names[i]) by {
        lemma_not_vary(names[i]);
        lemma_set_get(h, VARY@, v1, names[i]);
        lemma_set_get(h, VARY@, v2, names[i]);
    }
    assert(names[0] == CACHE_CONTROL@ && names[1] == PRAGMA@ && names[2] == EXPIRES@ && names[3]
        == SET_COOKIE@ && names[4] == AGE@ && names[5] == DATE@ && names[6] == LAST_MODIFIED@);
    lemma_set_get(h, VARY@, v1, VARY@);
    lemma_set_get(h, VARY@, v2, VARY@);
    lemma_vary_order_irrelevant(p.request.headers, v1, v2, q.headers);
    assert(vary_fields(v1).contains(star()) == vary_fields(v2).contains(star())) by {
        assert(vary_fields(v1).to_set().contains(star()) == vary_fields(v1).contains(star()));
        assert(vary_fields(v2).to_set().contains(star()) == vary_fields(v2).contains(star()));
    }
}

/// A policy rebuilt from its snapshot is the same policy, so it answers
/// storability, lifetime and time to live alike.
pub proof fn lemma_snapshot_round_trip(p: PolicyView, now: u64)
    ensures
        policy_of_snapshot(snapshot_of(p)) == Some(p),
        storable(policy_of_snapshot(snapshot_of(p))->0) == storable(p),
        max_age(policy_of_snapshot(snapshot_of(p))->0) == max_age(p),
        time_to_live(policy_of_snapshot(snapshot_of(p))->0, now) == time_to_live(p, now),
{
    let s = snapshot_of(p);
    let hd = snapshot_head(p);
    let n: int = p.request.headers.len() as int;
    assert(forall|i: int| 0 <= i < 10 ==> s[i] == hd[i]);
    lemma_decimal_reads_back(p.options.cache_heuristic_permille as nat, u32::MAX as nat);
    lemma_decimal_reads_back(p.options.immutable_min_time_to_live as nat, u32::MAX as nat);
    lemma_decimal_reads_back(p.response_time as nat, u64::MAX as nat);
    lemma_decimal_reads_back(p.response.status as nat, u16::MAX as nat);
    lemma_decimal_digits(n as nat);
    assert(s.subrange(10, 10 + n) =~= p.request.headers);
    assert(s.subrange(10 + n, s.len() as int) =~= p.response.headers);
    assert(seq![48u8] != seq![49u8]) by {
        assert(seq![48u8][0] != seq![49u8][0]);
    }
    assert(read_flag(flag_text(true)) == Some(true));
    assert(read_flag(flag_text(false)) == Some(false));
    let r = policy_of_snapshot(s)->0;
    assert(r.options == p.options);
    assert(r.request == p.request);
    assert(r.response == p.response);
}

} // verus!
