//! Switching profiles in the shared files: remembering the selected profile
//! under a marker key in `[default]`, reading it back, and making a profile
//! the `[default]` one.
use vstd::prelude::*;
use vstd::string::*;
use ini::Ini;
use crate::assoc::{assoc_map, dedup_last, lemma_dedup_last, keys_unique};
use crate::ini_store::{
    first_section, first_value, ini_delete, ini_section, ini_sections, ini_set, lemma_props_set,
    lemma_remove_named, lemma_section_set, pairs_view, properties_get, properties_pairs,
    remove_named, section_set, section_set_all,
};
use crate::profiles::{ini_model, lemma_profile_records_finite, map_get, profile_records, values_insert};
use crate::summary::{get_aws_profiles, lemma_listing_complete};
use crate::text::{opt_view, str_eq, strings_view, trim, trim_spec};

verus! {

/// The key in `[default]` under which the selected profile is remembered.
pub open spec fn selected_profile_key() -> Seq<char> {
    "awsx_selected_profile"@
}

/// The section that holds the default profile.
pub open spec fn default_section() -> Option<Seq<char>> {
    Some("default"@)
}

/// A remembered profile: the stored text without surrounding white space, none when
/// nothing is left.
pub open spec fn parse_persisted_profile_spec(contents: Seq<char>) -> Option<Seq<char>> {
    let p = trim_spec(contents);
    if p.len() == 0 {
        None
    } else {
        Some(p)
    }
}

/// The remembered profile of a stored marker value.
pub fn parse_persisted_profile(contents: &str) -> (r: Option<String>)
    ensures
        opt_view(r) == parse_persisted_profile_spec(contents@),
{
    let profile = trim(contents);
    if profile.is_empty() {
        None
    } else {
        Some(profile.to_owned())
    }
}

/// The value of key `k` in the first section called `name`.
pub open spec fn section_value(
    m: Seq<(Option<Seq<char>>, Seq<(Seq<char>, Seq<char>)>)>,
    name: Option<Seq<char>>,
    k: Seq<char>,
) -> Option<Seq<char>> {
    match first_section(m, name) {
        Some(p) => first_value(p, k),
        None => None,
    }
}

/// The profile a document remembers as selected.
pub open spec fn selected_profile_spec(m: Seq<(Option<Seq<char>>, Seq<(Seq<char>, Seq<char>)>)>) -> Option<
    Seq<char>,
> {
    match section_value(m, default_section(), selected_profile_key()) {
        Some(v) => parse_persisted_profile_spec(v),
        None => None,
    }
}

/// The profile `ini` remembers as selected.
pub fn get_selected_profile(ini: &Ini) -> (r: Option<String>)
    ensures
        opt_view(r) == selected_profile_spec(ini_sections(*ini)),
{
    match ini_section(ini, Some("default")) {
        Some(section) => match properties_get(section, "awsx_selected_profile") {
            Some(value) => parse_persisted_profile(value.as_str()),
            None => None,
        },
        None => None,
    }
}

/// Remembers `profile_name` as selected in `ini`.
pub fn set_selected_profile(ini: &mut Ini, profile_name: &str)
    ensures
        ini_sections(*final(ini)) == section_set(
            ini_sections(*old(ini)),
            default_section(),
            selected_profile_key(),
            profile_name@,
        ),
{
    ini_set(ini, "default", "awsx_selected_profile", profile_name);
}

/// Remembers `profile_name` as selected in both shared documents.
pub fn persist_active_profile(config: &mut Ini, credentials: &mut Ini, profile_name: &str)
    ensures
        ini_sections(*final(config)) == section_set(
            ini_sections(*old(config)),
            default_section(),
            selected_profile_key(),
            profile_name@,
        ),
        ini_sections(*final(credentials)) == section_set(
            ini_sections(*old(credentials)),
            default_section(),
            selected_profile_key(),
            profile_name@,
        ),
{
    set_selected_profile(config, profile_name);
    set_selected_profile(credentials, profile_name);
}

/// The remembered profile, given what `credentials` and `config` remember: the one they
/// agree on, or the only one remembered; none when they disagree.
pub open spec fn persisted_candidate(credentials: Option<Seq<char>>, config: Option<Seq<char>>) -> Option<Seq<char>> {
    match (credentials, config) {
        (Some(a), Some(b)) => if a != b {
            None
        } else {
            Some(a)
        },
        (Some(a), None) => Some(a),
        (None, Some(b)) => Some(b),
        (None, None) => None,
    }
}

/// What a document that may be missing remembers.
pub open spec fn remembered(m: Option<Seq<(Option<Seq<char>>, Seq<(Seq<char>, Seq<char>)>)>>) -> Option<Seq<char>> {
    match m {
        Some(m) => selected_profile_spec(m),
        None => None,
    }
}

/// The remembered profile, kept only when it is one of the profiles `exists` allows.
pub open spec fn persisted_profile_spec(
    config: Option<Seq<(Option<Seq<char>>, Seq<(Seq<char>, Seq<char>)>)>>,
    credentials: Option<Seq<(Option<Seq<char>>, Seq<(Seq<char>, Seq<char>)>)>>,
    exists: Set<Seq<char>>,
) -> Option<Seq<char>> {
    match persisted_candidate(remembered(credentials), remembered(config)) {
        Some(p) => if exists.contains(p) {
            Some(p)
        } else {
            None
        },
        None => None,
    }
}

fn contains_string(v: &[String], s: &str) -> (r: bool)
    ensures
        r == strings_view(v@).contains(s@),
{
    let mut i: usize = 0;
    while i < v.len()
        invariant
            i <= v@.len(),
            forall|j: int| 0 <= j < i ==> v@[j]@ != s@,
        decreases v.len() - i,
    {
        if str_eq(v[i].as_str(), s) {
            assert(strings_view(v@)[i as int] == s@);
            return true;
        }
        i = i + 1;
    }
    assert forall|j: int| 0 <= j < strings_view(v@).len() implies strings_view(v@)[j] != s@ by {
        assert(strings_view(v@)[j] == v@[j]@);
    }
    false
}

/// The remembered profile of the shared documents, if it is among `available_profiles`.
pub fn read_persisted_profile(config: Option<&Ini>, credentials: Option<&Ini>, available_profiles: &[String]) -> (r:
    Option<String>)
    ensures
        opt_view(r) == persisted_profile_spec(
            ini_model(config),
            ini_model(credentials),
            strings_view(available_profiles@).to_set(),
        ),
{
    let credentials_profile = match credentials {
        Some(ini) => get_selected_profile(ini),
        None => None,
    };
    let config_profile = match config {
        Some(ini) => get_selected_profile(ini),
        None => None,
    };
    let candidate = match (credentials_profile, config_profile) {
        (Some(a), Some(b)) => if !str_eq(a.as_str(), b.as_str()) {
            None
        } else {
            Some(a)
        },
        (Some(a), None) => Some(a),
        (None, Some(b)) => Some(b),
        (None, None) => None,
    };
    match candidate {
        Some(p) => if contains_string(available_profiles, p.as_str()) {
            Some(p)
        } else {
            None
        },
        None => None,
    }
}

/// The remembered profile of the shared documents, if it is a profile they define.
pub fn get_persisted_profile(config: Option<&Ini>, credentials: Option<&Ini>) -> (r: Option<String>)
    ensures
        opt_view(r) == persisted_profile_spec(
            ini_model(config),
            ini_model(credentials),
            profile_records(ini_model(config), ini_model(credentials)).dom(),
        ),
{
    let profiles = get_aws_profiles(config, credentials);
    proof {
        lemma_profile_records_finite(ini_model(config), ini_model(credentials));
        lemma_listing_complete(
            strings_view(profiles@),
            profile_records(ini_model(config), ini_model(credentials)).dom(),
        );
        assert(strings_view(profiles@).to_set() =~= profile_records(ini_model(config), ini_model(credentials)).dom());
    }
    read_persisted_profile(config, credentials, profiles.as_slice())
}

// ---------------------------------------------------------------------------
// Making a profile the default one
// ---------------------------------------------------------------------------

/// The document after the section called `section` is copied into `[default]`: the old
/// `[default]` goes, its keys are set anew from that section (each key once, with the
/// last of its values), and the remembered selection, if `[default]` had one, is kept.
/// `None` when there is no such section.
pub open spec fn copy_into_default_spec(
    m: Seq<(Option<Seq<char>>, Seq<(Seq<char>, Seq<char>)>)>,
    section: Seq<char>,
) -> Option<Seq<(Option<Seq<char>>, Seq<(Seq<char>, Seq<char>)>)>> {
    match first_section(m, Some(section)) {
        None => None,
        Some(src) => {
            let marker = section_value(m, default_section(), selected_profile_key());
            let cleared = remove_named(m, default_section());
            let copied = section_set_all(cleared, default_section(), dedup_last(src));
            Some(
                match marker {
                    Some(v) => section_set(copied, default_section(), selected_profile_key(), v),
                    None => copied,
                },
            )
        },
    }
}

fn dedup_pairs(pairs: &Vec<(String, String)>) -> (r: Vec<(String, String)>)
    ensures
        pairs_view(r@) == dedup_last(pairs_view(pairs@)),
{
    let ghost p = pairs_view(pairs@);
    let mut out: Vec<(String, String)> = Vec::new();
    assert(pairs_view(out@) =~= dedup_last(p.take(0)));
    let mut i: usize = 0;
    while i < pairs.len()
        invariant
            i <= pairs@.len(),
            p == pairs_view(pairs@),
            pairs_view(out@) == dedup_last(p.take(i as int)),
            keys_unique(pairs_view(out@)),
        decreases pairs.len() - i,
    {
        assert(p.take(i + 1).drop_last() =~= p.take(i as int));
        values_insert(&mut out, pairs[i].0.clone(), pairs[i].1.clone());
        proof {
            lemma_dedup_last(p.take(i + 1));
        }
        i = i + 1;
    }
    assert(p.take(pairs.len() as int) =~= p);
    out
}

/// Copies the section called `section_name` into `[default]` (see
/// `copy_into_default_spec`); false, with `conf` unchanged, when there is no such section.
fn copy_section_into_default(conf: &mut Ini, section_name: &str) -> (r: bool)
    ensures
        r == copy_into_default_spec(ini_sections(*old(conf)), section_name@) is Some,
        r ==> copy_into_default_spec(ini_sections(*old(conf)), section_name@) == Some(ini_sections(*final(conf))),
        !r ==> ini_sections(*final(conf)) == ini_sections(*old(conf)),
{
    let source = match ini_section(conf, Some(section_name)) {
        Some(section) => properties_pairs(section),
        None => {
            return false;
        },
    };
    let source_data = dedup_pairs(&source);
    let marker = match ini_section(conf, Some("default")) {
        Some(section) => properties_get(section, "awsx_selected_profile"),
        None => None,
    };
    let ghost m0 = ini_sections(*conf);
    ini_delete(conf, "default");
    let ghost q = pairs_view(source_data@);
    let mut i: usize = 0;
    while i < source_data.len()
        invariant
            i <= source_data@.len(),
            q == pairs_view(source_data@),
            ini_sections(*conf) == section_set_all(remove_named(m0, default_section()), default_section(), q.take(i as int)),
        decreases source_data.len() - i,
    {
        assert(q.take(i + 1).drop_last() =~= q.take(i as int));
        ini_set(conf, "default", source_data[i].0.as_str(), source_data[i].1.as_str());
        i = i + 1;
    }
    assert(q.take(source_data.len() as int) =~= q);
    if let Some(marker_value) = marker {
        ini_set(conf, "default", "awsx_selected_profile", marker_value.as_str());
    }
    true
}

/// What switching to a profile leaves to be written: each shared document in which
/// the profile's section was found, with that section copied into `[default]`.
pub struct DefaultProfileUpdate {
    pub config: Option<Ini>,
    pub credentials: Option<Ini>,
}

/// The contents of a document that may be missing.
pub open spec fn owned_model(o: Option<Ini>) -> Option<Seq<(Option<Seq<char>>, Seq<(Seq<char>, Seq<char>)>)>> {
    match o {
        Some(ini) => Some(ini_sections(ini)),
        None => None,
    }
}

/// The section of `config` that holds profile `name`: `profile NAME`.
pub open spec fn config_section_name(name: Seq<char>) -> Seq<char> {
    "profile "@ + name
}

/// The update of a document that may be missing: `None` when it is missing or lacks
/// the section.
pub open spec fn update_document(
    m: Option<Seq<(Option<Seq<char>>, Seq<(Seq<char>, Seq<char>)>)>>,
    section: Seq<char>,
) -> Option<Seq<(Option<Seq<char>>, Seq<(Seq<char>, Seq<char>)>)>> {
    match m {
        Some(m) => copy_into_default_spec(m, section),
        None => None,
    }
}

/// Whether switching to `profile_name` rewrites `[default]`: not for `default` itself, where
/// the shared files are neither read nor written.
pub fn switch_rewrites_default(profile_name: &str) -> (r: bool)
    ensures
        r == (profile_name@ != "default"@),
{
    !str_eq(profile_name, "default")
}

/// Makes `profile_name` the default profile in the shared documents that were read
/// (`None` for one that could not be): `config` takes the settings of its section
/// `profile NAME`, `credentials` those of its section `NAME`. A document comes back
/// only when it changed and is to be written. Nothing changes for `default` itself.
pub fn update_default_profile(config: Option<Ini>, credentials: Option<Ini>, profile_name: &str) -> (r:
    DefaultProfileUpdate)
    ensures
        profile_name@ == "default"@ ==> r.config is None && r.credentials is None,
        profile_name@ != "default"@ ==> owned_model(r.config) == update_document(
            owned_model(config),
            config_section_name(profile_name@),
        ),
        profile_name@ != "default"@ ==> owned_model(r.credentials) == update_document(
            owned_model(credentials),
            profile_name@,
        ),
{
    if !switch_rewrites_default(profile_name) {
        return DefaultProfileUpdate { config: None, credentials: None };
    }
    let config_out = match config {
        Some(mut conf) => {
            let mut section_name: String = "profile ".to_owned();
            section_name.append(profile_name);
            if copy_section_into_default(&mut conf, section_name.as_str()) {
                Some(conf)
            } else {
                None
            }
        },
        None => None,
    };
    let credentials_out = match credentials {
        Some(mut conf) => {
            if copy_section_into_default(&mut conf, profile_name) {
                Some(conf)
            } else {
                None
            }
        },
        None => None,
    };
    DefaultProfileUpdate { config: config_out, credentials: credentials_out }
}

/// What switching reports once the updated documents were written: success for
/// `default`, or when at least one document was written; otherwise an error naming the
/// profile.
pub fn update_default_profile_outcome(profile_name: &str, config_written: bool, credentials_written: bool) -> (r:
    Result<(), String>)
    ensures
        r is Ok <==> (profile_name@ == "default"@ || config_written || credentials_written),
        r matches Err(e) ==> e@ == "Could not find profile '"@ + profile_name@
            + "' in configuration files to persist."@,
{
    if str_eq(profile_name, "default") || config_written || credentials_written {
        Ok(())
    } else {
        let mut e: String = "Could not find profile '".to_owned();
        e.append(profile_name);
        e.append("' in configuration files to persist.");
        Err(e)
    }
}

// ---------------------------------------------------------------------------
// Laws
// ---------------------------------------------------------------------------

/// Setting `k` in the first section called `name` changes what that section reads for
/// `k` and nothing else it reads.
pub proof fn lemma_section_value_set(
    m: Seq<(Option<Seq<char>>, Seq<(Seq<char>, Seq<char>)>)>,
    name: Option<Seq<char>>,
    k: Seq<char>,
    v: Seq<char>,
    k2: Seq<char>,
)
    ensures
        section_value(section_set(m, name, k, v), name, k2) == if k2 == k {
            Some(v)
        } else {
            section_value(m, name, k2)
        },
{
    lemma_section_set(m, name, k, v, name);
    let old_props = match first_section(m, name) {
        Some(p) => p,
        None => Seq::empty(),
    };
    lemma_props_set(old_props, k, v, k2);
}

/// Setting the pairs `q`, in order, in section `name`: a key of `q` reads its last value
/// there, and any other key reads as before.
pub proof fn lemma_section_value_set_all(
    m: Seq<(Option<Seq<char>>, Seq<(Seq<char>, Seq<char>)>)>,
    name: Option<Seq<char>>,
    q: Seq<(Seq<char>, Seq<char>)>,
    k: Seq<char>,
    other: Option<Seq<char>>,
)
    ensures
        section_value(section_set_all(m, name, q), name, k) == if assoc_map(q).contains_key(k) {
            Some(assoc_map(q)[k])
        } else {
            section_value(m, name, k)
        },
        other != name ==> first_section(section_set_all(m, name, q), other) == first_section(m, other),
    decreases q.len(),
{
    if q.len() > 0 {
        let prev = section_set_all(m, name, q.drop_last());
        lemma_section_value_set_all(m, name, q.drop_last(), k, other);
        lemma_section_value_set(prev, name, q.last().0, q.last().1, k);
        lemma_section_set(prev, name, q.last().0, q.last().1, other);
    }
}

/// Switching: once a section is copied into `[default]`, every key reads there the
/// last value the section gives it, the remembered selection (when there was one)
/// reads as before, and no other key reads at all; every other section is untouched.
pub proof fn lemma_copy_into_default(
    m: Seq<(Option<Seq<char>>, Seq<(Seq<char>, Seq<char>)>)>,
    section: Seq<char>,
    k: Seq<char>,
    other: Option<Seq<char>>,
)
    requires
        first_section(m, Some(section)) is Some,
    ensures
        ({
            let src = first_section(m, Some(section))->0;
            let marker = section_value(m, default_section(), selected_profile_key());
            let updated = copy_into_default_spec(m, section)->0;
            &&& section_value(updated, default_section(), k) == if k == selected_profile_key()
                && marker is Some {
                marker
            } else {
                map_get(assoc_map(src), k)
            }
            &&& other != default_section() ==> first_section(updated, other) == first_section(m, other)
        }),
{
    let src = first_section(m, Some(section))->0;
    let marker = section_value(m, default_section(), selected_profile_key());
    let cleared = remove_named(m, default_section());
    let q = dedup_last(src);
    let copied = section_set_all(cleared, default_section(), q);
    lemma_dedup_last(src);
    lemma_remove_named(m, default_section(), other);
    lemma_section_value_set_all(cleared, default_section(), q, k, other);
    if let Some(v) = marker {
        lemma_section_value_set(copied, default_section(), selected_profile_key(), v, k);
        lemma_section_set(copied, default_section(), selected_profile_key(), v, other);
    }
}

/// Remembering a selection and reading it back: once `profile` is remembered in both
/// documents, each of them remembers it (without surrounding white space), and the
/// remembered profile read back is that one whenever it is among the profiles allowed.
pub proof fn lemma_persist_then_read(
    config: Seq<(Option<Seq<char>>, Seq<(Seq<char>, Seq<char>)>)>,
    credentials: Seq<(Option<Seq<char>>, Seq<(Seq<char>, Seq<char>)>)>,
    profile: Seq<char>,
    exists: Set<Seq<char>>,
)
    ensures
        ({
            let config2 = section_set(config, default_section(), selected_profile_key(), profile);
            let credentials2 = section_set(credentials, default_section(), selected_profile_key(), profile);
            &&& selected_profile_spec(config2) == parse_persisted_profile_spec(profile)
            &&& selected_profile_spec(credentials2) == parse_persisted_profile_spec(profile)
            &&& persisted_profile_spec(Some(config2), Some(credentials2), exists) == match parse_persisted_profile_spec(
                profile,
            ) {
                Some(p) => if exists.contains(p) {
                    Some(p)
                } else {
                    None
                },
                None => None,
            }
        }),
{
    lemma_section_value_set(config, default_section(), selected_profile_key(), profile, selected_profile_key());
    lemma_section_value_set(credentials, default_section(), selected_profile_key(), profile, selected_profile_key());
}

/// A remembered profile is only ever given when it is allowed and when no document
/// remembers a different one.
pub proof fn lemma_persisted_profile_agrees(
    config: Option<Seq<(Option<Seq<char>>, Seq<(Seq<char>, Seq<char>)>)>>,
    credentials: Option<Seq<(Option<Seq<char>>, Seq<(Seq<char>, Seq<char>)>)>>,
    exists: Set<Seq<char>>,
)
    ensures
        persisted_profile_spec(config, credentials, exists) matches Some(p) ==> {
            &&& exists.contains(p)
            &&& remembered(config) matches Some(c) ==> c == p
            &&& remembered(credentials) matches Some(c) ==> c == p
            &&& remembered(config) is Some || remembered(credentials) is Some
        },
{
}

/// Remembering a selection touches nothing else: every other key of every section
/// reads as before.
pub proof fn lemma_persist_keeps_other_settings(
    m: Seq<(Option<Seq<char>>, Seq<(Seq<char>, Seq<char>)>)>,
    profile: Seq<char>,
    name: Option<Seq<char>>,
    k: Seq<char>,
)
    requires
        name != default_section() || k != selected_profile_key(),
    ensures
        section_value(section_set(m, default_section(), selected_profile_key(), profile), name, k)
            == section_value(m, name, k),
{
    if name == default_section() {
        lemma_section_value_set(m, default_section(), selected_profile_key(), profile, k);
    } else {
        lemma_section_set(m, default_section(), selected_profile_key(), profile, name);
    }
}

} // verus!
