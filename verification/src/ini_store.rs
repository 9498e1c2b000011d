//! INI documents of the `rust-ini` crate (`ini::Ini`), held as an outside
//! collection. Their contents are modelled as the list of section entries the
//! crate keeps, in insertion order: each entry is the section's name (`None`
//! for the general section) and the list of its key/value entries, again in
//! the order the crate keeps them. The wrappers below state what each method
//! used here does to that list, as the crate's source (and the source of
//! `ordered-multimap`, which it stores sections and keys in) shows.
use vstd::prelude::*;
use ini::{Ini, Properties};
use crate::text::{opt_view, strip_prefix, strip_prefix_spec};


verus! {

#[verifier::external_type_specification]
#[verifier::external_body]
pub struct ExIni(Ini);

#[verifier::external_type_specification]
#[verifier::external_body]
pub struct ExProperties(Properties);

/// The key/value entries of a `Properties`, in the order the crate iterates them.
pub uninterp spec fn properties_entries(p: Properties) -> Seq<(Seq<char>, Seq<char>)>;

/// The section entries of an `Ini`, in the order the crate keeps them.
pub uninterp spec fn ini_sections(ini: Ini) -> Seq<(Option<Seq<char>>, Seq<(Seq<char>, Seq<char>)>)>;

/// The section entries that `Ini::load_from_str` builds from a text, or `None` when it
/// reports a parse error.
pub uninterp spec fn ini_parse(text: Seq<char>) -> Option<Seq<(Option<Seq<char>>, Seq<(Seq<char>, Seq<char>)>)>>;

// ---------------------------------------------------------------------------
// The model and the operations on it
// ---------------------------------------------------------------------------

/// View of an optional string slice.
pub open spec fn opt_str_view(o: Option<&str>) -> Option<Seq<char>> {
    match o {
        Some(s) => Some(s@),
        None => None,
    }
}

/// Views of a list of string pairs.
pub open spec fn pairs_view(v: Seq<(String, String)>) -> Seq<(Seq<char>, Seq<char>)> {
    v.map_values(|e: (String, String)| (e.0@, e.1@))
}

/// Views of a list of optional names.
pub open spec fn names_view(v: Seq<Option<String>>) -> Seq<Option<Seq<char>>> {
    v.map_values(|o: Option<String>| opt_view(o))
}

/// The properties of the first section entry called `name` (`Ini::section`).
pub open spec fn first_section(
    m: Seq<(Option<Seq<char>>, Seq<(Seq<char>, Seq<char>)>)>,
    name: Option<Seq<char>>,
) -> Option<Seq<(Seq<char>, Seq<char>)>>
    decreases m.len(),
{
    if m.len() == 0 {
        None
    } else if m[0].0 == name {
        Some(m[0].1)
    } else {
        first_section(m.drop_first(), name)
    }
}

/// The distinct section names, each where it first occurs (`Ini::sections`).
pub open spec fn section_names(m: Seq<(Option<Seq<char>>, Seq<(Seq<char>, Seq<char>)>)>) -> Seq<
    Option<Seq<char>>,
>
    decreases m.len(),
{
    if m.len() == 0 {
        Seq::empty()
    } else {
        let r = section_names(m.drop_last());
        if r.contains(m.last().0) {
            r
        } else {
            r.push(m.last().0)
        }
    }
}

/// The value of the first entry with key `k` (`Properties::get`).
pub open spec fn first_value(p: Seq<(Seq<char>, Seq<char>)>, k: Seq<char>) -> Option<Seq<char>>
    decreases p.len(),
{
    if p.len() == 0 {
        None
    } else if p[0].0 == k {
        Some(p[0].1)
    } else {
        first_value(p.drop_first(), k)
    }
}

/// The entries without those of key `k`.
pub open spec fn remove_key(p: Seq<(Seq<char>, Seq<char>)>, k: Seq<char>) -> Seq<(Seq<char>, Seq<char>)>
    decreases p.len(),
{
    if p.len() == 0 {
        p
    } else if p[0].0 == k {
        remove_key(p.drop_first(), k)
    } else {
        seq![p[0]] + remove_key(p.drop_first(), k)
    }
}

/// `Properties::insert`: every entry of key `k` goes, and `(k, v)` is added at the end.
pub open spec fn props_set(p: Seq<(Seq<char>, Seq<char>)>, k: Seq<char>, v: Seq<char>) -> Seq<
    (Seq<char>, Seq<char>),
> {
    remove_key(p, k).push((k, v))
}

/// `Ini::delete`: every section entry called `name` goes.
pub open spec fn remove_named(
    m: Seq<(Option<Seq<char>>, Seq<(Seq<char>, Seq<char>)>)>,
    name: Option<Seq<char>>,
) -> Seq<(Option<Seq<char>>, Seq<(Seq<char>, Seq<char>)>)>
    decreases m.len(),
{
    if m.len() == 0 {
        m
    } else if m[0].0 == name {
        remove_named(m.drop_first(), name)
    } else {
        seq![m[0]] + remove_named(m.drop_first(), name)
    }
}

/// `Ini::set_to`: the first section entry called `name` gets `(k, v)` by `Properties::insert`;
/// when there is none, a new entry holding only `(k, v)` is added at the end.
pub open spec fn section_set(
    m: Seq<(Option<Seq<char>>, Seq<(Seq<char>, Seq<char>)>)>,
    name: Option<Seq<char>>,
    k: Seq<char>,
    v: Seq<char>,
) -> Seq<(Option<Seq<char>>, Seq<(Seq<char>, Seq<char>)>)>
    decreases m.len(),
{
    if m.len() == 0 {
        seq![(name, seq![(k, v)])]
    } else if m[0].0 == name {
        seq![(name, props_set(m[0].1, k, v))] + m.drop_first()
    } else {
        seq![m[0]] + section_set(m.drop_first(), name, k, v)
    }
}

/// Sets each pair of `pairs`, in order, in the section called `name`.
pub open spec fn section_set_all(
    m: Seq<(Option<Seq<char>>, Seq<(Seq<char>, Seq<char>)>)>,
    name: Option<Seq<char>>,
    pairs: Seq<(Seq<char>, Seq<char>)>,
) -> Seq<(Option<Seq<char>>, Seq<(Seq<char>, Seq<char>)>)>
    decreases pairs.len(),
{
    if pairs.len() == 0 {
        m
    } else {
        section_set(section_set_all(m, name, pairs.drop_last()), name, pairs.last().0, pairs.last().1)
    }
}

// ---------------------------------------------------------------------------
// Facts about the operations
// ---------------------------------------------------------------------------

/// No entry of `remove_key(p, k)` has key `k`; other keys keep their first value.
pub proof fn lemma_remove_key(p: Seq<(Seq<char>, Seq<char>)>, k: Seq<char>, q: Seq<(Seq<char>, Seq<char>)>, k2: Seq<char>)
    ensures
        first_value(remove_key(p, k) + q, k) == first_value(q, k),
        k2 != k ==> first_value(remove_key(p, k) + q, k2) == first_value(p + q, k2),
    decreases p.len(),
{
    if p.len() > 0 {
        lemma_remove_key(p.drop_first(), k, q, k2);
        assert((p + q).drop_first() =~= p.drop_first() + q);
        if p[0].0 != k {
            assert((seq![p[0]] + remove_key(p.drop_first(), k) + q).drop_first() =~= remove_key(
                p.drop_first(),
                k,
            ) + q);
        }
    } else {
        assert(remove_key(p, k) + q =~= q);
        assert(p + q =~= q);
    }
}

/// After `props_set(p, k, v)`, key `k` reads `v` and every other key reads as before.
pub proof fn lemma_props_set(p: Seq<(Seq<char>, Seq<char>)>, k: Seq<char>, v: Seq<char>, k2: Seq<char>)
    ensures
        first_value(props_set(p, k, v), k) == Some(v),
        k2 != k ==> first_value(props_set(p, k, v), k2) == first_value(p, k2),
{
    let q = seq![(k, v)];
    lemma_remove_key(p, k, q, k2);
    assert(props_set(p, k, v) =~= remove_key(p, k) + q);
    assert(q.drop_first() =~= Seq::<(Seq<char>, Seq<char>)>::empty());
    if k2 != k {
        lemma_first_value_append(p, q, k2);
        assert(first_value(q.drop_first(), k2) is None);
    }
}

/// Looking a key up in `p + q` finds it in `p` when `p` has it, else in `q`.
pub proof fn lemma_first_value_append(p: Seq<(Seq<char>, Seq<char>)>, q: Seq<(Seq<char>, Seq<char>)>, k: Seq<char>)
    ensures
        first_value(p + q, k) == match first_value(p, k) {
            Some(x) => Some(x),
            None => first_value(q, k),
        },
    decreases p.len(),
{
    if p.len() > 0 {
        assert((p + q).drop_first() =~= p.drop_first() + q);
        lemma_first_value_append(p.drop_first(), q, k);
    } else {
        assert(p + q =~= q);
    }
}

/// After `section_set(m, name, k, v)`, the first section called `name` is its old
/// properties (none if there was no such section) with `(k, v)` set, and every other
/// name finds what it found before.
pub proof fn lemma_section_set(
    m: Seq<(Option<Seq<char>>, Seq<(Seq<char>, Seq<char>)>)>,
    name: Option<Seq<char>>,
    k: Seq<char>,
    v: Seq<char>,
    other: Option<Seq<char>>,
)
    ensures
        first_section(section_set(m, name, k, v), name) == Some(
            props_set(
                match first_section(m, name) {
                    Some(p) => p,
                    None => Seq::empty(),
                },
                k,
                v,
            ),
        ),
        other != name ==> first_section(section_set(m, name, k, v), other) == first_section(m, other),
    decreases m.len(),
{
    if m.len() == 0 {
        let e: Seq<(Seq<char>, Seq<char>)> = Seq::empty();
        assert(props_set(e, k, v) =~= seq![(k, v)]);
        let one: Seq<(Option<Seq<char>>, Seq<(Seq<char>, Seq<char>)>)> = seq![(name, seq![(k, v)])];
        assert(one.drop_first() =~= m);
    } else if m[0].0 == name {
        assert((seq![(name, props_set(m[0].1, k, v))] + m.drop_first()).drop_first() =~= m.drop_first());
    } else {
        lemma_section_set(m.drop_first(), name, k, v, other);
        assert((seq![m[0]] + section_set(m.drop_first(), name, k, v)).drop_first() =~= section_set(
            m.drop_first(),
            name,
            k,
            v,
        ));
    }
}

/// After `remove_named(m, name)`, no section is called `name`, and every other name
/// finds what it found before.
pub proof fn lemma_remove_named(
    m: Seq<(Option<Seq<char>>, Seq<(Seq<char>, Seq<char>)>)>,
    name: Option<Seq<char>>,
    other: Option<Seq<char>>,
)
    ensures
        first_section(remove_named(m, name), name) is None,
        other != name ==> first_section(remove_named(m, name), other) == first_section(m, other),
    decreases m.len(),
{
    if m.len() > 0 {
        lemma_remove_named(m.drop_first(), name, other);
        if m[0].0 != name {
            assert((seq![m[0]] + remove_named(m.drop_first(), name)).drop_first() =~= remove_named(
                m.drop_first(),
                name,
            ));
        }
    }
}

// ---------------------------------------------------------------------------
// Trusted wrappers of the crate's methods
// ---------------------------------------------------------------------------

/// `Ini::load_from_str`: the parsed document, whose contents are the name `ini_parse` of the
/// text, or the message of the parse error (`LINE:COLUMN MESSAGE`, which is not stated).
#[verifier::external_body]
pub(crate) fn ini_load_from_str(text: &str) -> (r: Result<Ini, String>)
    ensures
        r is Ok <==> ini_parse(text@) is Some,
        r matches Ok(ini) ==> ini_parse(text@) == Some(ini_sections(ini)),
{
    Ini::load_from_str(text).map_err(|e| e.to_string())
}

/// A file's text without the byte order mark it may begin with.
pub open spec fn without_bom(text: Seq<char>) -> Seq<char> {
    match strip_prefix_spec(text, "\u{feff}"@) {
        Some(rest) => rest,
        None => text,
    }
}

/// The document in a file's text, as `Ini::load_from_file` reads it: a byte order mark at
/// the start is skipped, the rest parsed; on a parse error, its message.
pub fn load_ini_text(text: &str) -> (r: Result<Ini, String>)
    ensures
        r is Ok <==> ini_parse(without_bom(text@)) is Some,
        r matches Ok(ini) ==> ini_parse(without_bom(text@)) == Some(ini_sections(ini)),
{
    match strip_prefix(text, "\u{feff}") {
        Some(rest) => ini_load_from_str(rest),
        None => ini_load_from_str(text),
    }
}

/// `Ini::sections`: the distinct section names, in the order of their first entry. (The
/// crate's key list holds each name once, at the place it was first added; nothing in
/// its interface replaces an existing section name, so that is first-occurrence order.)
#[verifier::external_body]
pub(crate) fn ini_section_names(ini: &Ini) -> (r: Vec<Option<String>>)
    ensures
        names_view(r@) == section_names(ini_sections(*ini)),
{
    ini.sections().map(|n| n.map(|s| s.to_string())).collect()
}

/// `Ini::section`: the properties of the first section entry with that name.
#[verifier::external_body]
pub(crate) fn ini_section<'a>(ini: &'a Ini, name: Option<&str>) -> (r: Option<&'a Properties>)
    ensures
        match r {
            Some(p) => first_section(ini_sections(*ini), opt_str_view(name)) == Some(
                properties_entries(*p),
            ),
            None => first_section(ini_sections(*ini), opt_str_view(name)) is None,
        },
{
    ini.section(name)
}

/// `Properties::iter`: the key/value entries, in order, copied out.
#[verifier::external_body]
pub(crate) fn properties_pairs(p: &Properties) -> (r: Vec<(String, String)>)
    ensures
        pairs_view(r@) == properties_entries(*p),
{
    p.iter().map(|(k, v)| (k.to_string(), v.to_string())).collect()
}

/// `Properties::get`: the value of the first entry with that key.
#[verifier::external_body]
pub(crate) fn properties_get(p: &Properties, key: &str) -> (r: Option<String>)
    ensures
        opt_view(r) == first_value(properties_entries(*p), key@),
{
    p.get(key).map(|v| v.to_string())
}

/// `Ini::delete`: removes every section entry with that name.
#[verifier::external_body]
pub(crate) fn ini_delete(ini: &mut Ini, name: &str)
    ensures
        ini_sections(*final(ini)) == remove_named(ini_sections(*old(ini)), Some(name@)),
{
    ini.delete(Some(name));
}

/// `Ini::set_to`: sets `key` to `value` in the first section entry with that name, or in a
/// new one added at the end.
#[verifier::external_body]
pub(crate) fn ini_set(ini: &mut Ini, section: &str, key: &str, value: &str)
    ensures
        ini_sections(*final(ini)) == section_set(ini_sections(*old(ini)), Some(section@), key@, value@),
{
    ini.set_to(Some(section), key.to_string(), value.to_string());
}

} // verus!
