//! An ordered list of header fields with case-insensitive names.
use vstd::prelude::*;
use crate::text::{copy_bytes, eq_ignore_case, lower};

verus! {

/// Header fields in the order they were given. Names compare without regard
/// to ASCII case; values compare byte for byte.
pub struct Headers {
    pub fields: Vec<(Vec<u8>, Vec<u8>)>,
}

/// A header list as name and value byte strings.
pub type FieldsView = Seq<(Seq<u8>, Seq<u8>)>;

pub open spec fn fields_view(f: Seq<(Vec<u8>, Vec<u8>)>) -> FieldsView {
    f.map_values(|x: (Vec<u8>, Vec<u8>)| (x.0@, x.1@))
}

impl View for Headers {
    type V = FieldsView;

    open spec fn view(&self) -> FieldsView {
        fields_view(self.fields@)
    }
}

pub open spec fn same_name(a: Seq<u8>, b: Seq<u8>) -> bool {
    lower(a) == lower(b)
}

/// The value of the first field called `name`.
pub open spec fn header_get(h: FieldsView, name: Seq<u8>) -> Option<Seq<u8>>
    decreases h.len(),
{
    if h.len() == 0 {
        None
    } else if same_name(h[0].0, name) {
        Some(h[0].1)
    } else {
        header_get(h.drop_first(), name)
    }
}

pub open spec fn has_header(h: FieldsView, name: Seq<u8>) -> bool {
    header_get(h, name) is Some
}

/// `h` without any field called `name`, the others in their order.
pub open spec fn header_without(h: FieldsView, name: Seq<u8>) -> FieldsView
    decreases h.len(),
{
    if h.len() == 0 {
        h
    } else if same_name(h.last().0, name) {
        header_without(h.drop_last(), name)
    } else {
        header_without(h.drop_last(), name).push(h.last())
    }
}

/// `h` with `name` set to `value`: earlier fields of that name go, the new
/// field comes last.
pub open spec fn header_set(h: FieldsView, name: Seq<u8>, value: Seq<u8>) -> FieldsView {
    header_without(h, name).push((name, value))
}

pub open spec fn opt_view(o: Option<Vec<u8>>) -> Option<Seq<u8>> {
    match o {
        Some(v) => Some(v@),
        None => None,
    }
}

/// No field answers to `name` once `name` is removed.
pub proof fn lemma_without_absent(h: FieldsView, name: Seq<u8>, other: Seq<u8>)
    requires
        same_name(name, other),
    ensures
        header_get(header_without(h, name), other) is None,
    decreases h.len(),
{
    if h.len() > 0 {
        lemma_without_absent(h.drop_last(), name, other);
        if !same_name(h.last().0, name) {
            lemma_get_push_other(header_without(h.drop_last(), name), h.last(), other);
        }
    }
}

/// Setting `name` leaves every other name as it was, and `name` reads back
/// as the value set.
pub proof fn lemma_set_get(h: FieldsView, name: Seq<u8>, value: Seq<u8>, other: Seq<u8>)
    ensures
        same_name(name, other) ==> header_get(header_set(h, name, value), other) == Some(value),
        !same_name(name, other) ==> header_get(header_set(h, name, value), other) == header_get(
            header_without(h, name),
            other,
        ),
{
    lemma_get_push_other(header_without(h, name), (name, value), other);
    if same_name(name, other) {
        lemma_without_absent(h, name, other);
    }
}

/// A field pushed at the end is found only where no earlier field matches.
pub proof fn lemma_get_push_other(h: FieldsView, f: (Seq<u8>, Seq<u8>), name: Seq<u8>)
    ensures
        header_get(h.push(f), name) == (if (header_get(h, name) is Some) {
            header_get(h, name)
        } else if same_name(f.0, name) {
            Some(f.1)
        } else {
            None
        }),
    decreases h.len(),
{
    let hp = h.push(f);
    if h.len() > 0 {
        assert(hp.drop_first() =~= h.drop_first().push(f));
        assert(hp[0] == h[0]);
        lemma_get_push_other(h.drop_first(), f, name);
        if !same_name(h[0].0, name) {
            assert(header_get(hp, name) == header_get(h.drop_first().push(f), name));
            assert(header_get(h, name) == header_get(h.drop_first(), name));
        }
    } else {
        assert(hp.drop_first() =~= h);
        assert(hp[0] == f);
        assert(header_get(h, name) is None);
        assert(header_get(hp, name) == (if same_name(f.0, name) { Some(f.1) } else { header_get(h, name) }));
    }
}

/// Other names keep their value when `name` is removed.
pub proof fn lemma_without_other(h: FieldsView, name: Seq<u8>, other: Seq<u8>)
    requires
        !same_name(name, other),
    ensures
        header_get(header_without(h, name), other) == header_get(h, other),
    decreases h.len(),
{
    if h.len() > 0 {
        lemma_without_other(h.drop_last(), name, other);
        lemma_get_push_other(h.drop_last(), h.last(), other);
        assert(h.drop_last().push(h.last()) =~= h);
        if !same_name(h.last().0, name) {
            lemma_get_push_other(header_without(h.drop_last(), name), h.last(), other);
        }
    }
}

impl Headers {
    pub fn new() -> (r: Headers)
        ensures
            r@ == Seq::<(Seq<u8>, Seq<u8>)>::empty(),
    {
        let r = Headers { fields: Vec::new() };
        assert(r@ =~= Seq::<(Seq<u8>, Seq<u8>)>::empty());
        r
    }

    /// A copy of the value of the first field called `name`.
    pub fn get(&self, name: &[u8]) -> (r: Option<Vec<u8>>)
        ensures
            opt_view(r) == header_get(self@, name@),
    {
        let mut i: usize = 0;
        assert(self@.skip(0) =~= self@);
        while i < self.fields.len()
            invariant
                i <= self.fields@.len(),
                header_get(self@, name@) == header_get(self@.skip(i as int), name@),
            decreases self.fields@.len() - i,
        {
            let ghost rest = self@.skip(i as int);
            assert(rest[0] == (self.fields@[i as int].0@, self.fields@[i as int].1@));
            if eq_ignore_case(self.fields[i].0.as_slice(), name) {
                let v = &self.fields[i].1;
                return Some(copy_bytes(v.as_slice()));
            }
            assert(rest.drop_first() =~= self@.skip(i + 1));
            i += 1;
        }
        None
    }

    pub fn has(&self, name: &[u8]) -> (r: bool)
        ensures
            r == has_header(self@, name@),
    {
        let v = self.get(name);
        v.is_some()
    }

    /// Removes every field called `name`.
    pub fn remove(&mut self, name: &[u8])
        ensures
            final(self)@ == header_without(old(self)@, name@),
    {
        let ghost h = self@;
        let mut kept: Vec<(Vec<u8>, Vec<u8>)> = Vec::new();
        let mut i: usize = 0;
        assert(h.take(0) =~= Seq::<(Seq<u8>, Seq<u8>)>::empty());
        assert(fields_view(kept@) =~= header_without(h.take(0), name@));
        while i < self.fields.len()
            invariant
                i <= self.fields@.len(),
                h == fields_view(self.fields@),
                fields_view(kept@) == header_without(h.take(i as int), name@),
            decreases self.fields@.len() - i,
        {
            assert(h.take(i + 1).drop_last() =~= h.take(i as int));
            assert(h.take(i + 1).last() == h[i as int]);
            let n = &self.fields[i].0;
            let v = &self.fields[i].1;
            if !eq_ignore_case(n.as_slice(), name) {
                let f = (copy_bytes(n.as_slice()), copy_bytes(v.as_slice()));
                kept.push(f);
                assert(fields_view(kept@) =~= header_without(h.take(i as int), name@).push(h[i as int]));
            }
            i += 1;
        }
        assert(h.take(h.len() as int) =~= h);
        self.fields = kept;
    }

    /// Sets `name` to `value`, replacing any earlier fields of that name.
    pub fn set(&mut self, name: &[u8], value: &[u8])
        ensures
            final(self)@ == header_set(old(self)@, name@, value@),
    {
        self.remove(name);
        self.fields.push((copy_bytes(name), copy_bytes(value)));
        assert(self@ =~= header_set(old(self)@, name@, value@));
    }

    /// Adds a field after the others, keeping earlier fields of that name.
    pub fn append(&mut self, name: &[u8], value: &[u8])
        ensures
            final(self)@ == old(self)@.push((name@, value@)),
    {
        self.fields.push((copy_bytes(name), copy_bytes(value)));
        assert(self@ =~= old(self)@.push((name@, value@)));
    }

    /// A field-by-field copy.
    pub fn duplicate(&self) -> (r: Headers)
        ensures
            r@ == self@,
    {
        let mut r = Headers::new();
        let mut i: usize = 0;
        while i < self.fields.len()
            invariant
                i <= self.fields@.len(),
                r@ == self@.take(i as int),
            decreases self.fields@.len() - i,
        {
            let n = &self.fields[i].0;
            let v = &self.fields[i].1;
            r.append(n.as_slice(), v.as_slice());
            assert(r@ =~= self@.take(i + 1));
            i += 1;
        }
        assert(self@.take(self@.len() as int) =~= self@);
        r
    }
}

} // verus!
