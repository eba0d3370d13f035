//! Cache-Control (and Pragma) values read into a map from lowercase directive
//! name to optional value.
use vstd::prelude::*;
use crate::text::{
    COMMA, EQUALS, QUOTE, capped_number, copy_bytes, copy_range, lower, lowercase, parse_number, split, split_bytes, trim,
    trim_bytes, views,
};

verus! {

/// A directive name with its value, if it had `=value`.
pub type EntryView = (Seq<u8>, Option<Seq<u8>>);

pub type DirectivesView = Map<Seq<u8>, Option<Seq<u8>>>;

/// Parsed directives in the order they appeared. A name that appears more
/// than once takes its last value.
pub struct CacheDirectives {
    pub entries: Vec<(Vec<u8>, Option<Vec<u8>>)>,
}

pub open spec fn entry_view(e: (Vec<u8>, Option<Vec<u8>>)) -> EntryView {
    (e.0@, match e.1 {
        Some(v) => Some(v@),
        None => None,
    })
}

pub open spec fn entry_views(s: Seq<(Vec<u8>, Option<Vec<u8>>)>) -> Seq<EntryView> {
    s.map_values(|e: (Vec<u8>, Option<Vec<u8>>)| entry_view(e))
}

/// Entries folded into a map, later entries overriding earlier ones.
pub open spec fn entries_map(s: Seq<EntryView>) -> DirectivesView
    decreases s.len(),
{
    if s.len() == 0 {
        Map::empty()
    } else {
        entries_map(s.drop_last()).insert(s.last().0, s.last().1)
    }
}

impl View for CacheDirectives {
    type V = DirectivesView;

    open spec fn view(&self) -> DirectivesView {
        entries_map(entry_views(self.entries@))
    }
}

/// Index of the first `b` in `s`.
pub open spec fn first_index(s: Seq<u8>, b: u8) -> Option<int>
    decreases s.len(),
{
    if s.len() == 0 {
        None
    } else if s[0] == b {
        Some(0)
    } else {
        match first_index(s.drop_first(), b) {
            Some(i) => Some(i + 1),
            None => None,
        }
    }
}

/// One surrounding pair of double quotes removed, as far as present.
pub open spec fn unquote(v: Seq<u8>) -> Seq<u8> {
    let a = if v.len() > 0 && v[0] == QUOTE {
        v.drop_first()
    } else {
        v
    };
    if a.len() > 0 && a.last() == QUOTE {
        a.drop_last()
    } else {
        a
    }
}

/// One comma-separated segment read as a directive: blank segments are
/// skipped, the name is lowercased, whitespace around `=` and quotes around
/// the value are dropped.
pub open spec fn directive_of(seg: Seq<u8>) -> Option<EntryView> {
    let t = trim(seg);
    if t.len() == 0 {
        None
    } else {
        match first_index(t, EQUALS) {
            None => Some((lower(t), None)),
            Some(k) => Some(
                (
                    lower(trim(t.subrange(0, k))),
                    Some(unquote(trim(t.subrange(k + 1, t.len() as int)))),
                ),
            ),
        }
    }
}

pub open spec fn directives_map(segs: Seq<Seq<u8>>) -> DirectivesView
    decreases segs.len(),
{
    if segs.len() == 0 {
        Map::empty()
    } else {
        let m = directives_map(segs.drop_last());
        match directive_of(segs.last()) {
            Some(e) => m.insert(e.0, e.1),
            None => m,
        }
    }
}

/// The directives of a Cache-Control value.
pub open spec fn parse_directives(s: Seq<u8>) -> DirectivesView {
    directives_map(split(s, COMMA))
}

/// Largest number of seconds that a delta-seconds value is read as: larger
/// values, which no 64-bit count can hold, read as this one.
pub const DELTA_SECONDS_CAP: u64 = 18446744073709551615;

/// The value of directive `name` read as delta-seconds; `None` when the
/// directive is absent, has no value, or its value is not a number.
pub open spec fn directive_seconds(m: DirectivesView, name: Seq<u8>) -> Option<nat> {
    if m.contains_key(name) && m[name] is Some {
        capped_number(m[name]->0, DELTA_SECONDS_CAP as nat)
    } else {
        None
    }
}

pub open spec fn entries_without(s: Seq<EntryView>, name: Seq<u8>) -> Seq<EntryView>
    decreases s.len(),
{
    if s.len() == 0 {
        s
    } else if s.last().0 == name {
        entries_without(s.drop_last(), name)
    } else {
        entries_without(s.drop_last(), name).push(s.last())
    }
}

proof fn lemma_entries_without(s: Seq<EntryView>, name: Seq<u8>)
    ensures
        entries_map(entries_without(s, name)) == entries_map(s).remove(name),
    decreases s.len(),
{
    if s.len() > 0 {
        lemma_entries_without(s.drop_last(), name);
        if s.last().0 != name {
            let w = entries_without(s.drop_last(), name).push(s.last());
            assert(w.drop_last() =~= entries_without(s.drop_last(), name));
        }
        assert(entries_map(entries_without(s, name)) =~= entries_map(s).remove(name));
    }
}

proof fn lemma_first_index(s: Seq<u8>, b: u8, k: int)
    requires
        0 <= k <= s.len(),
        forall|j: int| 0 <= j < k ==> s[j] != b,
    ensures
        k < s.len() && s[k] == b ==> first_index(s, b) == Some(k),
        k == s.len() ==> first_index(s, b) is None,
    decreases k,
{
    if k > 0 {
        lemma_first_index(s.drop_first(), b, k - 1);
    }
}

fn find_byte(s: &[u8], b: u8) -> (r: Option<usize>)
    ensures
        r matches Some(k) ==> first_index(s@, b) == Some(k as int) && k < s@.len(),
        r is None ==> first_index(s@, b) is None,
{
    let mut i: usize = 0;
    while i < s.len()
        invariant
            i <= s@.len(),
            forall|j: int| 0 <= j < i ==> s@[j] != b,
        decreases s@.len() - i,
    {
        if s[i] == b {
            proof {
                lemma_first_index(s@, b, i as int);
            }
            return Some(i);
        }
        i += 1;
    }
    proof {
        lemma_first_index(s@, b, i as int);
    }
    None
}

fn unquote_bytes(v: &[u8]) -> (r: Vec<u8>)
    ensures
        r@ == unquote(v@),
{
    let mut a: usize = 0;
    let mut b: usize = v.len();
    if b > 0 && v[0] == QUOTE {
        a = 1;
    }
    if b > a && v[b - 1] == QUOTE {
        b = b - 1;
    }
    let r = copy_range(v, a, b);
    proof {
        let a1 = if v@.len() > 0 && v@[0] == QUOTE {
            v@.drop_first()
        } else {
            v@
        };
        assert(a1 =~= v@.subrange(a as int, v@.len() as int));
        if a1.len() > 0 && a1.last() == QUOTE {
            assert(a1.drop_last() =~= v@.subrange(a as int, b as int));
        } else {
            assert(a1 =~= v@.subrange(a as int, b as int));
        }
    }
    r
}

fn read_directive(seg: &[u8]) -> (r: Option<(Vec<u8>, Option<Vec<u8>>)>)
    ensures
        match r {
            Some(e) => directive_of(seg@) == Some(entry_view(e)),
            None => directive_of(seg@) is None,
        },
{
    let t = trim_bytes(seg);
    if t.len() == 0 {
        return None;
    }
    match find_byte(t.as_slice(), EQUALS) {
        None => Some((lowercase(t.as_slice()), None)),
        Some(k) => {
            let name_part = copy_range(t.as_slice(), 0, k);
            let value_part = copy_range(t.as_slice(), k + 1, t.len());
            let name = lowercase(trim_bytes(name_part.as_slice()).as_slice());
            let value = unquote_bytes(trim_bytes(value_part.as_slice()).as_slice());
            Some((name, Some(value)))
        },
    }
}

/// Reads a Cache-Control value. Never fails: anything unreadable yields
/// fewer directives.
pub fn parse_cache_control(s: &[u8]) -> (r: CacheDirectives)
    ensures
        r@ == parse_directives(s@),
{
    let parts = split_bytes(s, COMMA);
    let ghost segs = views(parts@);
    let mut entries: Vec<(Vec<u8>, Option<Vec<u8>>)> = Vec::new();
    let mut i: usize = 0;
    assert(segs.take(0) =~= Seq::<Seq<u8>>::empty());
    assert(entry_views(entries@) =~= Seq::<EntryView>::empty());
    while i < parts.len()
        invariant
            i <= parts@.len(),
            segs == views(parts@),
            entries_map(entry_views(entries@)) == directives_map(segs.take(i as int)),
        decreases parts@.len() - i,
    {
        assert(segs.take(i + 1).drop_last() =~= segs.take(i as int));
        assert(segs.take(i + 1).last() == parts@[i as int]@);
        let d = read_directive(parts[i].as_slice());
        match d {
            Some(e) => {
                let ghost before = entry_views(entries@);
                entries.push(e);
                assert(entry_views(entries@).drop_last() =~= before);
            },
            None => {},
        }
        i += 1;
    }
    assert(segs.take(parts@.len() as int) =~= segs);
    CacheDirectives { entries }
}

impl CacheDirectives {
    pub fn empty() -> (r: CacheDirectives)
        ensures
            r@ == Map::<Seq<u8>, Option<Seq<u8>>>::empty(),
    {
        let r = CacheDirectives { entries: Vec::new() };
        assert(entry_views(r.entries@) =~= Seq::<EntryView>::empty());
        r
    }

    /// The value of directive `name`: the outer `None` when it is absent.
    pub fn lookup(&self, name: &[u8]) -> (r: Option<Option<Vec<u8>>>)
        ensures
            r is Some == self@.contains_key(name@),
            r matches Some(v) ==> self@[name@] == match v {
                Some(x) => Some(x@),
                None => None::<Seq<u8>>,
            },
    {
        let ghost e = entry_views(self.entries@);
        let mut i: usize = self.entries.len();
        assert(e.take(e.len() as int) =~= e);
        while i > 0
            invariant
                i <= self.entries@.len(),
                e == entry_views(self.entries@),
                entries_map(e).contains_key(name@) == entries_map(e.take(i as int)).contains_key(
                    name@,
                ),
                entries_map(e).contains_key(name@) ==> entries_map(e)[name@] == entries_map(
                    e.take(i as int),
                )[name@],
            decreases i,
        {
            assert(e.take(i as int).drop_last() =~= e.take(i - 1));
            assert(e.take(i as int).last() == e[i - 1]);
            if crate::text::bytes_eq(self.entries[i - 1].0.as_slice(), name) {
                let v = match &self.entries[i - 1].1 {
                    Some(x) => Some(copy_bytes(x.as_slice())),
                    None => None,
                };
                return Some(v);
            }
            i -= 1;
        }
        None
    }

    pub fn has(&self, name: &[u8]) -> (r: bool)
        ensures
            r == self@.contains_key(name@),
    {
        self.lookup(name).is_some()
    }

    /// The value of `name` read as delta-seconds.
    pub fn seconds(&self, name: &[u8]) -> (r: Option<u64>)
        ensures
            r matches Some(n) ==> directive_seconds(self@, name@) == Some(n as nat),
            r is None ==> directive_seconds(self@, name@) is None,
    {
        match self.lookup(name) {
            Some(Some(v)) => parse_number(v.as_slice(), DELTA_SECONDS_CAP),
            _ => None,
        }
    }

    /// Drops directive `name`.
    pub fn remove(&mut self, name: &[u8])
        ensures
            final(self)@ == old(self)@.remove(name@),
    {
        let ghost e = entry_views(self.entries@);
        let mut kept: Vec<(Vec<u8>, Option<Vec<u8>>)> = Vec::new();
        let mut i: usize = 0;
        assert(e.take(0) =~= Seq::<EntryView>::empty());
        assert(entry_views(kept@) =~= entries_without(e.take(0), name@));
        while i < self.entries.len()
            invariant
                i <= self.entries@.len(),
                e == entry_views(self.entries@),
                entry_views(kept@) == entries_without(e.take(i as int), name@),
            decreases self.entries@.len() - i,
        {
            assert(e.take(i + 1).drop_last() =~= e.take(i as int));
            assert(e.take(i + 1).last() == e[i as int]);
            if !crate::text::bytes_eq(self.entries[i].0.as_slice(), name) {
                let n = copy_bytes(self.entries[i].0.as_slice());
                let v = match &self.entries[i].1 {
                    Some(x) => Some(copy_bytes(x.as_slice())),
                    None => None,
                };
                kept.push((n, v));
                assert(entry_views(kept@) =~= entries_without(e.take(i as int), name@).push(e[i as int]));
            }
            i += 1;
        }
        assert(e.take(e.len() as int) =~= e);
        proof {
            lemma_entries_without(e, name@);
        }
        self.entries = kept;
    }
}

} // verus!
