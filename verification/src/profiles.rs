//! Profiles as the shared AWS files define them: collecting the records of
//! every profile from `config` and `credentials`, and summarising each one
//! (account, kind of authentication, region, details).
use vstd::prelude::*;
use vstd::string::*;
use ini::Ini;
use crate::assoc::{assoc_map, pairs_insert, lemma_pairs_insert_shape, has_key, keys_unique, lemma_assoc_map_dom, lemma_assoc_map_index, lemma_assoc_map_update, lemma_assoc_map_insert_at, lemma_assoc_push_unique};
use crate::ini_store::{
    ini_section, ini_section_names, ini_sections, properties_pairs, first_section, section_names, pairs_view, names_view,
};
use crate::text::{opt_view, compare_names, name_lt, lemma_name_order, str_eq, strip_prefix, strip_prefix_spec, trim, trim_spec};

verus! {

// ---------------------------------------------------------------------------
// Records
// ---------------------------------------------------------------------------

/// What is known of one profile: its settings (a key given twice keeps its later
/// value) and whether any of them is a static credential.
pub struct RecordView {
    pub values: Map<Seq<char>, Seq<char>>,
    pub has_static_credentials: bool,
}

/// A profile's settings as read from the shared files.
pub struct ProfileRecord {
    pub values: Vec<(String, String)>,
    pub has_static_credentials: bool,
}

impl View for ProfileRecord {
    type V = RecordView;

    open spec fn view(&self) -> RecordView {
        RecordView {
            values: assoc_map(pairs_view(self.values@)),
            has_static_credentials: self.has_static_credentials,
        }
    }
}

impl ProfileRecord {
    /// Each setting occurs once.
    pub open spec fn wf(&self) -> bool {
        keys_unique(pairs_view(self.values@))
    }
}

/// A record with no settings.
pub open spec fn empty_record() -> RecordView {
    RecordView { values: Map::empty(), has_static_credentials: false }
}

/// The keys that hold static credentials.
pub open spec fn is_static_key(k: Seq<char>) -> bool {
    ||| k == "aws_access_key_id"@
    ||| k == "aws_secret_access_key"@
    ||| k == "aws_session_token"@
}

/// The record after one more setting is read.
pub open spec fn record_add(r: RecordView, k: Seq<char>, v: Seq<char>) -> RecordView {
    RecordView {
        values: r.values.insert(k, v),
        has_static_credentials: r.has_static_credentials || is_static_key(k),
    }
}

/// The record after the settings `props` are read, in order.
pub open spec fn record_add_all(r: RecordView, props: Seq<(Seq<char>, Seq<char>)>) -> RecordView
    decreases props.len(),
{
    if props.len() == 0 {
        r
    } else {
        let prev = record_add_all(r, props.drop_last());
        record_add(prev, props.last().0, props.last().1)
    }
}

/// The profile a section stands for: in `config` (`strip` set) the section `default` and
/// sections named `profile NAME`; in `credentials` every section, under its own name.
pub open spec fn normalize_profile_name_spec(section: Seq<char>, strip: bool) -> Option<Seq<char>> {
    if strip {
        if section == "default"@ {
            Some(section)
        } else {
            strip_prefix_spec(section, "profile "@)
        }
    } else {
        Some(section)
    }
}

/// The records after the section called `name` of document `m` is read.
pub open spec fn merge_section(
    records: Map<Seq<char>, RecordView>,
    m: Seq<(Option<Seq<char>>, Seq<(Seq<char>, Seq<char>)>)>,
    name: Option<Seq<char>>,
    strip: bool,
) -> Map<Seq<char>, RecordView> {
    match name {
        None => records,
        Some(n) => match normalize_profile_name_spec(n, strip) {
            None => records,
            Some(p) => if trim_spec(p).len() == 0 {
                records
            } else {
                match first_section(m, Some(n)) {
                    None => records,
                    Some(props) => {
                        let old = if records.contains_key(p) {
                            records[p]
                        } else {
                            empty_record()
                        };
                        records.insert(p, record_add_all(old, props))
                    },
                }
            },
        },
    }
}

/// The records after the sections `names` of document `m` are read, in order.
pub open spec fn merge_names(
    records: Map<Seq<char>, RecordView>,
    m: Seq<(Option<Seq<char>>, Seq<(Seq<char>, Seq<char>)>)>,
    names: Seq<Option<Seq<char>>>,
    strip: bool,
) -> Map<Seq<char>, RecordView>
    decreases names.len(),
{
    if names.len() == 0 {
        records
    } else {
        merge_section(merge_names(records, m, names.drop_last(), strip), m, names.last(), strip)
    }
}

/// The records after every section of document `m` is read, each distinct section name
/// once, in the order the names first occur.
pub open spec fn merge_document(
    records: Map<Seq<char>, RecordView>,
    m: Seq<(Option<Seq<char>>, Seq<(Seq<char>, Seq<char>)>)>,
    strip: bool,
) -> Map<Seq<char>, RecordView> {
    merge_names(records, m, section_names(m), strip)
}

/// The contents of a document that may be missing.
pub open spec fn ini_model(o: Option<&Ini>) -> Option<Seq<(Option<Seq<char>>, Seq<(Seq<char>, Seq<char>)>)>> {
    match o {
        Some(ini) => Some(ini_sections(*ini)),
        None => None,
    }
}

/// Every profile of `config` and then `credentials`, with its record.
pub open spec fn profile_records(
    config: Option<Seq<(Option<Seq<char>>, Seq<(Seq<char>, Seq<char>)>)>>,
    credentials: Option<Seq<(Option<Seq<char>>, Seq<(Seq<char>, Seq<char>)>)>>,
) -> Map<Seq<char>, RecordView> {
    let from_config = match config {
        Some(m) => merge_document(Map::empty(), m, true),
        None => Map::empty(),
    };
    match credentials {
        Some(m) => merge_document(from_config, m, false),
        None => from_config,
    }
}

/// Records listed by name.
pub open spec fn records_pairs(v: Seq<(String, ProfileRecord)>) -> Seq<(Seq<char>, RecordView)> {
    v.map_values(|e: (String, ProfileRecord)| (e.0@, e.1@))
}

/// Records are kept sorted by name, as a `BTreeMap<String, _>` keeps them, and each is
/// well formed.
pub open spec fn records_wf(v: Seq<(String, ProfileRecord)>) -> bool {
    &&& forall|i: int, j: int| 0 <= i < j < v.len() ==> name_lt(#[trigger] v[i].0@, #[trigger] v[j].0@)
    &&& forall|i: int| 0 <= i < v.len() ==> (#[trigger] v[i]).1.wf()
}

/// The map of the records.
pub open spec fn records_map(v: Seq<(String, ProfileRecord)>) -> Map<Seq<char>, RecordView> {
    assoc_map(records_pairs(v))
}

/// Sorted names are distinct.
pub proof fn lemma_records_unique(v: Seq<(String, ProfileRecord)>)
    requires
        records_wf(v),
    ensures
        keys_unique(records_pairs(v)),
{
    assert forall|i: int, j: int| 0 <= i < j < records_pairs(v).len() implies records_pairs(v)[i].0
        != records_pairs(v)[j].0 by {
        lemma_name_order(v[i].0@, v[j].0@, v[i].0@);
        assert(name_lt(v[i].0@, v[j].0@));
    }
}

fn find_pair(values: &Vec<(String, String)>, k: &str) -> (r: Option<usize>)
    ensures
        r matches Some(i) ==> i < values@.len() && pairs_view(values@)[i as int].0 == k@,
        r is None ==> !has_key(pairs_view(values@), k@),
{
    let mut i: usize = 0;
    while i < values.len()
        invariant
            i <= values@.len(),
            forall|j: int| 0 <= j < i ==> pairs_view(values@)[j].0 != k@,
        decreases values.len() - i,
    {
        if str_eq(values[i].0.as_str(), k) {
            return Some(i);
        }
        i = i + 1;
    }
    None
}

/// `HashMap::insert` on the settings: a present key gets the new value, a new key is added.
pub(crate) fn values_insert(values: &mut Vec<(String, String)>, k: String, v: String)
    requires
        keys_unique(pairs_view(old(values)@)),
    ensures
        keys_unique(pairs_view(final(values)@)),
        assoc_map(pairs_view(final(values)@)) == assoc_map(pairs_view(old(values)@)).insert(k@, v@),
        pairs_view(final(values)@) == pairs_insert(pairs_view(old(values)@), k@, v@),
{
    proof {
        lemma_pairs_insert_shape(pairs_view(values@), k@, v@);
    }
    match find_pair(values, k.as_str()) {
        Some(i) => {
            proof {
                lemma_assoc_map_update(pairs_view(values@), i as int, v@);
            }
            values.set(i, (k, v));
            assert(pairs_view(values@) =~= pairs_view(old(values)@).update(
                i as int,
                (pairs_view(old(values)@)[i as int].0, v@),
            ));
        },
        None => {
            proof {
                lemma_assoc_push_unique(pairs_view(values@), k@, v@);
            }
            let ghost pair = (k@, v@);
            values.push((k, v));
            assert(pairs_view(values@) =~= pairs_view(old(values)@).push(pair));
        },
    }
}

/// The value of setting `k`, if the record has it.
pub open spec fn map_get(m: Map<Seq<char>, Seq<char>>, k: Seq<char>) -> Option<Seq<char>> {
    if m.contains_key(k) {
        Some(m[k])
    } else {
        None
    }
}

pub(crate) fn record_get<'a>(rec: &'a ProfileRecord, k: &str) -> (r: Option<&'a String>)
    requires
        rec.wf(),
    ensures
        match r {
            Some(s) => map_get(rec@.values, k@) == Some(s@),
            None => map_get(rec@.values, k@) is None,
        },
{
    proof {
        lemma_assoc_map_dom(pairs_view(rec.values@), k@);
    }
    match find_pair(&rec.values, k) {
        Some(i) => {
            proof {
                lemma_assoc_map_index(pairs_view(rec.values@), i as int);
            }
            Some(&rec.values[i].1)
        },
        None => None,
    }
}

pub(crate) fn record_has(rec: &ProfileRecord, k: &str) -> (r: bool)
    requires
        rec.wf(),
    ensures
        r == rec@.values.contains_key(k@),
{
    proof {
        lemma_assoc_map_dom(pairs_view(rec.values@), k@);
    }
    find_pair(&rec.values, k).is_some()
}

fn static_key(k: &str) -> (r: bool)
    ensures
        r == is_static_key(k@),
{
    str_eq(k, "aws_access_key_id") || str_eq(k, "aws_secret_access_key") || str_eq(
        k,
        "aws_session_token",
    )
}

/// Reads the settings `pairs`, in order, into `rec`.
fn merge_properties(rec: &mut ProfileRecord, pairs: &Vec<(String, String)>)
    requires
        old(rec).wf(),
    ensures
        final(rec).wf(),
        final(rec)@ == record_add_all(old(rec)@, pairs_view(pairs@)),
{
    let ghost props = pairs_view(pairs@);
    let mut i: usize = 0;
    while i < pairs.len()
        invariant
            i <= pairs@.len(),
            props == pairs_view(pairs@),
            rec.wf(),
            rec@ == record_add_all(old(rec)@, props.take(i as int)),
        decreases pairs.len() - i,
    {
        assert(props.take(i + 1).drop_last() =~= props.take(i as int));
        if static_key(pairs[i].0.as_str()) {
            rec.has_static_credentials = true;
        }
        values_insert(&mut rec.values, pairs[i].0.clone(), pairs[i].1.clone());
        i = i + 1;
    }
    assert(props.take(pairs.len() as int) =~= props);
}

/// Where `name` is, or would go, among the sorted records.
pub(crate) fn find_record(records: &Vec<(String, ProfileRecord)>, name: &str) -> (r: (bool, usize))
    requires
        records_wf(records@),
    ensures
        r.1 <= records@.len(),
        r.0 ==> r.1 < records@.len() && records@[r.1 as int].0@ == name@,
        !r.0 ==> forall|j: int| 0 <= j < r.1 ==> name_lt(#[trigger] records@[j].0@, name@),
        !r.0 ==> forall|j: int| r.1 <= j < records@.len() ==> name_lt(name@, #[trigger] records@[j].0@),
{
    let mut i: usize = 0;
    while i < records.len()
        invariant
            records_wf(records@),
            i <= records@.len(),
            forall|j: int| 0 <= j < i ==> name_lt(#[trigger] records@[j].0@, name@),
        decreases records.len() - i,
    {
        let c = compare_names(records[i].0.as_str(), name);
        if c == 0 {
            return (true, i);
        }
        if c > 0 {
            assert forall|j: int| i <= j < records@.len() implies name_lt(name@, #[trigger] records@[j].0@) by {
                if j > i {
                    assert(name_lt(records@[i as int].0@, records@[j].0@));
                    lemma_name_order(name@, records@[i as int].0@, records@[j].0@);
                }
            }
            return (false, i);
        }
        i = i + 1;
    }
    (false, i)
}

/// Reads the settings `pairs` into the record of profile `name`, adding the profile
/// where it sorts if it is new.
fn merge_into_records(records: &mut Vec<(String, ProfileRecord)>, name: &str, pairs: &Vec<(String, String)>)
    requires
        records_wf(old(records)@),
    ensures
        records_wf(final(records)@),
        records_map(final(records)@) == ({
            let m = records_map(old(records)@);
            let prev = if m.contains_key(name@) {
                m[name@]
            } else {
                empty_record()
            };
            m.insert(name@, record_add_all(prev, pairs_view(pairs@)))
        }),
{
    let ghost old_pairs = records_pairs(records@);
    proof {
        lemma_records_unique(records@);
        lemma_assoc_map_dom(old_pairs, name@);
    }
    let (found, idx) = find_record(records, name);
    if found {
        proof {
            lemma_assoc_map_index(old_pairs, idx as int);
        }
        let (n, mut rec) = records.remove(idx);
        assert(rec.wf());
        merge_properties(&mut rec, pairs);
        let ghost newrec = rec@;
        records.insert(idx, (n, rec));
        proof {
            lemma_assoc_map_update(old_pairs, idx as int, newrec);
            assert(records_pairs(records@) =~= old_pairs.update(idx as int, (old_pairs[idx as int].0, newrec)));
            assert forall|i: int, j: int| 0 <= i < j < records@.len() implies name_lt(
                #[trigger] records@[i].0@,
                #[trigger] records@[j].0@,
            ) by {
                assert(records@[i].0 == old(records)@[i].0);
                assert(records@[j].0 == old(records)@[j].0);
            }
            assert forall|i: int| 0 <= i < records@.len() implies (#[trigger] records@[i]).1.wf() by {
                if i != idx {
                    assert(records@[i] == old(records)@[i]);
                }
            }
        }
    } else {
        proof {
            assert(!has_key(old_pairs, name@)) by {
                if has_key(old_pairs, name@) {
                    let j = choose|j: int| 0 <= j < old_pairs.len() && old_pairs[j].0 == name@;
                    if j < idx {
                        assert(name_lt(records@[j].0@, name@));
                    } else {
                        assert(name_lt(name@, records@[j].0@));
                    }
                    lemma_name_order(name@, name@, name@);
                }
            }
        }
        let mut rec = ProfileRecord { values: Vec::new(), has_static_credentials: false };
        assert(rec@.values =~= Map::empty());
        merge_properties(&mut rec, pairs);
        let ghost newrec = rec@;
        let n: String = name.to_owned();
        records.insert(idx, (n, rec));
        proof {
            lemma_assoc_map_insert_at(old_pairs, idx as int, name@, newrec);
            assert(records_pairs(records@) =~= old_pairs.insert(idx as int, (name@, newrec)));
            assert forall|i: int, j: int| 0 <= i < j < records@.len() implies name_lt(
                #[trigger] records@[i].0@,
                #[trigger] records@[j].0@,
            ) by {
                if j < idx {
                    assert(records@[i] == old(records)@[i]);
                    assert(records@[j] == old(records)@[j]);
                } else if j == idx {
                    assert(records@[i] == old(records)@[i]);
                } else if i < idx {
                    assert(records@[i] == old(records)@[i]);
                    assert(records@[j] == old(records)@[j - 1]);
                    lemma_name_order(records@[i].0@, name@, records@[j].0@);
                } else if i == idx {
                    assert(records@[j] == old(records)@[j - 1]);
                } else {
                    assert(records@[i] == old(records)@[i - 1]);
                    assert(records@[j] == old(records)@[j - 1]);
                }
            }
            assert forall|i: int| 0 <= i < records@.len() implies (#[trigger] records@[i]).1.wf() by {
                if i < idx {
                    assert(records@[i] == old(records)@[i]);
                } else if i > idx {
                    assert(records@[i] == old(records)@[i - 1]);
                }
            }
        }
    }
}


/// The profile that a section stands for (see `normalize_profile_name_spec`).
fn normalize_profile_name<'a>(section_name: &'a str, strip_profile_prefix: bool) -> (r: Option<&'a str>)
    ensures
        match r {
            Some(p) => normalize_profile_name_spec(section_name@, strip_profile_prefix) == Some(p@),
            None => normalize_profile_name_spec(section_name@, strip_profile_prefix) is None,
        },
{
    if strip_profile_prefix {
        if str_eq(section_name, "default") {
            Some(section_name)
        } else {
            strip_prefix(section_name, "profile ")
        }
    } else {
        Some(section_name)
    }
}

/// Reads every section of `conf` into `profiles`.
fn merge_ini_sections(conf: &Ini, strip_profile_prefix: bool, profiles: &mut Vec<(String, ProfileRecord)>)
    requires
        records_wf(old(profiles)@),
    ensures
        records_wf(final(profiles)@),
        records_map(final(profiles)@) == merge_document(
            records_map(old(profiles)@),
            ini_sections(*conf),
            strip_profile_prefix,
        ),
{
    let names = ini_section_names(conf);
    let ghost m = ini_sections(*conf);
    let ghost nv = names_view(names@);
    let mut i: usize = 0;
    while i < names.len()
        invariant
            i <= names@.len(),
            m == ini_sections(*conf),
            nv == names_view(names@),
            nv == section_names(m),
            records_wf(profiles@),
            records_map(profiles@) == merge_names(
                records_map(old(profiles)@),
                m,
                nv.take(i as int),
                strip_profile_prefix,
            ),
        decreases names.len() - i,
    {
        assert(nv.take(i + 1).drop_last() =~= nv.take(i as int));
        assert(nv[i as int] == opt_view(names@[i as int]));
        match &names[i] {
            None => {},
            Some(section_name) => {
                match normalize_profile_name(section_name.as_str(), strip_profile_prefix) {
                    None => {},
                    Some(profile_name) => {
                        if trim(profile_name).is_empty() {
                        } else {
                            match ini_section(conf, Some(section_name.as_str())) {
                                None => {},
                                Some(section) => {
                                    let pairs = properties_pairs(section);
                                    merge_into_records(profiles, profile_name, &pairs);
                                },
                            }
                        }
                    },
                }
            },
        }
        i = i + 1;
    }
    assert(nv.take(names.len() as int) =~= nv);
}

/// Every profile of `config` and then `credentials`, sorted by name.
pub fn collect_profile_records(config: Option<&Ini>, credentials: Option<&Ini>) -> (r: Vec<(String, ProfileRecord)>)
    ensures
        records_wf(r@),
        records_map(r@) == profile_records(ini_model(config), ini_model(credentials)),
{
    let mut profiles: Vec<(String, ProfileRecord)> = Vec::new();
    assert(records_map(profiles@) =~= Map::empty());
    if let Some(config) = config {
        merge_ini_sections(config, true, &mut profiles);
    }
    if let Some(credentials) = credentials {
        merge_ini_sections(credentials, false, &mut profiles);
    }
    profiles
}

/// Reading sections keeps the set of profiles finite.
pub proof fn lemma_merge_names_finite(
    records: Map<Seq<char>, RecordView>,
    m: Seq<(Option<Seq<char>>, Seq<(Seq<char>, Seq<char>)>)>,
    names: Seq<Option<Seq<char>>>,
    strip: bool,
)
    requires
        records.dom().finite(),
    ensures
        merge_names(records, m, names, strip).dom().finite(),
    decreases names.len(),
{
    if names.len() > 0 {
        lemma_merge_names_finite(records, m, names.drop_last(), strip);
    }
}

/// There are finitely many profiles.
pub proof fn lemma_profile_records_finite(
    config: Option<Seq<(Option<Seq<char>>, Seq<(Seq<char>, Seq<char>)>)>>,
    credentials: Option<Seq<(Option<Seq<char>>, Seq<(Seq<char>, Seq<char>)>)>>,
)
    ensures
        profile_records(config, credentials).dom().finite(),
{
    let e: Map<Seq<char>, RecordView> = Map::empty();
    assert(e.dom() =~= Set::empty());
    let from_config = match config {
        Some(m) => {
            lemma_merge_names_finite(e, m, section_names(m), true);
            merge_document(e, m, true)
        },
        None => e,
    };
    if let Some(m) = credentials {
        lemma_merge_names_finite(from_config, m, section_names(m), false);
    }
}


// ---------------------------------------------------------------------------
// Which profiles there are, and whose settings win
// ---------------------------------------------------------------------------

/// Document `m` has a section called `name`.
pub open spec fn has_section(m: Seq<(Option<Seq<char>>, Seq<(Seq<char>, Seq<char>)>)>, name: Seq<char>) -> bool {
    exists|i: int| 0 <= i < m.len() && m[i].0 == Some(name)
}

/// A `config` document defines profile `n`: by its section `default` (for `default`), or by
/// a section `profile n`.
pub open spec fn config_defines(m: Seq<(Option<Seq<char>>, Seq<(Seq<char>, Seq<char>)>)>, n: Seq<char>) -> bool {
    ||| (n == "default"@ && has_section(m, "default"@))
    ||| has_section(m, "profile "@ + n)
}

/// Section `name` of document `m` gives profile `p` a record.
pub open spec fn section_defines(m: Seq<(Option<Seq<char>>, Seq<(Seq<char>, Seq<char>)>)>, name: Option<Seq<char>>, strip: bool, p: Seq<char>) -> bool {
    &&& name matches Some(s)
    &&& normalize_profile_name_spec(s, strip) == Some(p)
    &&& trim_spec(p).len() != 0
    &&& first_section(m, Some(s)) is Some
}

/// The distinct section names are the names of the sections, each once.
proof fn lemma_section_names(m: Seq<(Option<Seq<char>>, Seq<(Seq<char>, Seq<char>)>)>)
    ensures
        section_names(m).no_duplicates(),
        forall|x: Option<Seq<char>>| section_names(m).contains(x) <==> exists|i: int| 0 <= i < m.len() && m[i].0 == x,
    decreases m.len(),
{
    if m.len() > 0 {
        let prev = m.drop_last();
        lemma_section_names(prev);
        let r = section_names(prev);
        assert forall|x: Option<Seq<char>>| section_names(m).contains(x) <==> exists|i: int| 0 <= i < m.len() && m[i].0 == x by {
            if section_names(m).contains(x) {
                if r.contains(x) {
                    let i = choose|i: int| 0 <= i < prev.len() && prev[i].0 == x;
                    assert(m[i] == prev[i]);
                } else {
                    assert(section_names(m) == r.push(m.last().0));
                    let j = choose|j: int| 0 <= j < section_names(m).len() && section_names(m)[j] == x;
                    if j < r.len() {
                        assert(r[j] == x);
                    }
                    assert(m[m.len() - 1].0 == x);
                }
            }
            if exists|i: int| 0 <= i < m.len() && m[i].0 == x {
                let i = choose|i: int| 0 <= i < m.len() && m[i].0 == x;
                if i < m.len() - 1 {
                    assert(prev[i] == m[i]);
                    assert(r.contains(x));
                    if !r.contains(m.last().0) {
                        assert(section_names(m)[r.index_of(x)] == x);
                    }
                } else if !r.contains(m.last().0) {
                    assert(section_names(m)[r.len() as int] == x);
                }
            }
        }
        if !r.contains(m.last().0) {
            assert forall|a: int, b: int| 0 <= a < b < section_names(m).len() implies section_names(m)[a]
                != section_names(m)[b] by {
                if b == r.len() {
                    assert(section_names(m)[a] == r[a]);
                }
            }
        }
    }
}

/// A document has a first section called `x` exactly when it has a section called `x`.
proof fn lemma_first_section_exists(m: Seq<(Option<Seq<char>>, Seq<(Seq<char>, Seq<char>)>)>, x: Option<Seq<char>>)
    ensures
        first_section(m, x) is Some <==> exists|i: int| 0 <= i < m.len() && m[i].0 == x,
    decreases m.len(),
{
    if m.len() > 0 {
        lemma_first_section_exists(m.drop_first(), x);
        if exists|i: int| 0 <= i < m.len() && m[i].0 == x {
            let i = choose|i: int| 0 <= i < m.len() && m[i].0 == x;
            if i > 0 && m[0].0 != x {
                assert(m.drop_first()[i - 1] == m[i]);
            }
        }
        if m[0].0 != x && first_section(m, x) is Some {
            let j = choose|j: int| 0 <= j < m.drop_first().len() && m.drop_first()[j].0 == x;
            assert(m[j + 1] == m.drop_first()[j]);
        }
    }
}

/// Reading the sections `names` gives profile `p` a record exactly when it had one, or one
/// of the sections defines it.
proof fn lemma_merge_names_dom(
    records: Map<Seq<char>, RecordView>,
    m: Seq<(Option<Seq<char>>, Seq<(Seq<char>, Seq<char>)>)>,
    names: Seq<Option<Seq<char>>>,
    strip: bool,
    p: Seq<char>,
)
    ensures
        merge_names(records, m, names, strip).contains_key(p) <==> (records.contains_key(p) || exists|i: int|
            0 <= i < names.len() && section_defines(m, #[trigger] names[i], strip, p)),
    decreases names.len(),
{
    if names.len() > 0 {
        let prev = names.drop_last();
        lemma_merge_names_dom(records, m, prev, strip, p);
        if exists|i: int| 0 <= i < names.len() && section_defines(m, #[trigger] names[i], strip, p) {
            let i = choose|i: int| 0 <= i < names.len() && section_defines(m, #[trigger] names[i], strip, p);
            if i < prev.len() {
                assert(prev[i] == names[i]);
            }
        }
        if exists|i: int| 0 <= i < prev.len() && section_defines(m, #[trigger] prev[i], strip, p) {
            let i = choose|i: int| 0 <= i < prev.len() && section_defines(m, #[trigger] prev[i], strip, p);
            assert(names[i] == prev[i]);
        }
        if section_defines(m, names.last(), strip, p) {
            assert(section_defines(m, names[names.len() - 1], strip, p));
        }
    }
}

/// The sections of a document that define profile `n`.
proof fn lemma_document_defines(m: Seq<(Option<Seq<char>>, Seq<(Seq<char>, Seq<char>)>)>, strip: bool, n: Seq<char>)
    ensures
        (exists|i: int| 0 <= i < section_names(m).len() && section_defines(m, #[trigger] section_names(m)[i], strip, n))
            <==> (trim_spec(n).len() != 0 && if strip {
            config_defines(m, n)
        } else {
            has_section(m, n)
        }),
{
    reveal_strlit("default");
    reveal_strlit("profile ");
    lemma_section_names(m);
    let names = section_names(m);
    if exists|i: int| 0 <= i < names.len() && section_defines(m, #[trigger] names[i], strip, n) {
        let i = choose|i: int| 0 <= i < names.len() && section_defines(m, #[trigger] names[i], strip, n);
        let s = names[i]->Some_0;
        assert(names.contains(Some(s)));
        let k = choose|k: int| 0 <= k < m.len() && m[k].0 == Some(s);
        if strip && s != "default"@ {
            assert(s =~= "profile "@ + n);
        }
    }
    if trim_spec(n).len() != 0 && if strip {
        config_defines(m, n)
    } else {
        has_section(m, n)
    } {
        let s = if !strip {
            n
        } else if n == "default"@ && has_section(m, "default"@) {
            n
        } else {
            "profile "@ + n
        };
        assert(has_section(m, s));
        let k = choose|k: int| 0 <= k < m.len() && m[k].0 == Some(s);
        lemma_first_section_exists(m, Some(s));
        assert(names.contains(Some(s)));
        let i = names.index_of(Some(s));
        if strip && s != n {
            assert(s.len() != "default"@.len());
            assert(s.subrange(0, 8) =~= "profile "@);
            assert(s.subrange(8, s.len() as int) =~= n);
        }
        assert(section_defines(m, names[i], strip, n));
    }
}

/// The profiles are the names that are not blank and that the `config` document defines
/// (by its section `default`, or by a section `profile NAME`) or that name a section of the
/// `credentials` document.
pub proof fn lemma_profile_membership(config: Option<Seq<(Option<Seq<char>>, Seq<(Seq<char>, Seq<char>)>)>>, credentials: Option<Seq<(Option<Seq<char>>, Seq<(Seq<char>, Seq<char>)>)>>, n: Seq<char>)
    ensures
        profile_records(config, credentials).contains_key(n) <==> (trim_spec(n).len() != 0 && (
            (config matches Some(c) && config_defines(c, n)) || (credentials matches Some(k) && has_section(k, n)))),
{
    let e: Map<Seq<char>, RecordView> = Map::empty();
    let from_config = match config {
        Some(m) => merge_document(e, m, true),
        None => e,
    };
    if let Some(m) = config {
        lemma_merge_names_dom(e, m, section_names(m), true, n);
        lemma_document_defines(m, true, n);
    }
    if let Some(m) = credentials {
        lemma_merge_names_dom(from_config, m, section_names(m), false, n);
        lemma_document_defines(m, false, n);
    }
}

/// Reading settings onto a record keeps its other settings and lets the settings read win.
proof fn lemma_record_add_all_values(r: RecordView, props: Seq<(Seq<char>, Seq<char>)>)
    ensures
        record_add_all(r, props).values == r.values.union_prefer_right(record_add_all(empty_record(), props).values),
    decreases props.len(),
{
    if props.len() == 0 {
        assert(r.values.union_prefer_right(Map::empty()) =~= r.values);
    } else {
        lemma_record_add_all_values(r, props.drop_last());
        let a = r.values;
        let b = record_add_all(empty_record(), props.drop_last()).values;
        assert(a.union_prefer_right(b).insert(props.last().0, props.last().1) =~= a.union_prefer_right(
            b.insert(props.last().0, props.last().1),
        ));
    }
}

/// Reading the distinct `credentials` sections `names` changes only the record of the
/// profile a section names, onto which that section's settings are read.
proof fn lemma_merge_names_plain_at(
    records: Map<Seq<char>, RecordView>,
    m: Seq<(Option<Seq<char>>, Seq<(Seq<char>, Seq<char>)>)>,
    names: Seq<Option<Seq<char>>>,
    p: Seq<char>,
)
    requires
        names.no_duplicates(),
    ensures
        (names.contains(Some(p)) && trim_spec(p).len() != 0 && first_section(m, Some(p)) is Some) ==> (merge_names(
            records,
            m,
            names,
            false,
        ).contains_key(p) && merge_names(records, m, names, false)[p] == record_add_all(
            if records.contains_key(p) {
                records[p]
            } else {
                empty_record()
            },
            first_section(m, Some(p))->Some_0,
        )),
        !(names.contains(Some(p)) && trim_spec(p).len() != 0 && first_section(m, Some(p)) is Some) ==> (merge_names(
            records,
            m,
            names,
            false,
        ).contains_key(p) == records.contains_key(p) && (records.contains_key(p) ==> merge_names(
            records,
            m,
            names,
            false,
        )[p] == records[p])),
    decreases names.len(),
{
    if names.len() > 0 {
        let prev = names.drop_last();
        assert(prev.no_duplicates());
        lemma_merge_names_plain_at(records, m, prev, p);
        if names.last() == Some(p) {
            assert(!prev.contains(Some(p))) by {
                if prev.contains(Some(p)) {
                    let j = choose|j: int| 0 <= j < prev.len() && prev[j] == Some(p);
                    assert(names[j] == names[names.len() - 1]);
                }
            }
        }
        assert(names.contains(Some(p)) <==> (prev.contains(Some(p)) || names.last() == Some(p))) by {
            if names.contains(Some(p)) {
                let j = choose|j: int| 0 <= j < names.len() && names[j] == Some(p);
                if j < prev.len() {
                    assert(prev[j] == names[j]);
                }
            }
            if prev.contains(Some(p)) {
                let j = choose|j: int| 0 <= j < prev.len() && prev[j] == Some(p);
                assert(names[j] == prev[j]);
            }
            if names.last() == Some(p) {
                assert(names[names.len() - 1] == Some(p));
            }
        }
    }
}

/// A profile that the `credentials` document defines keeps the settings `config` gives it,
/// and takes the value `credentials` gives for every setting both files make.
pub proof fn lemma_credentials_values_win(config: Option<Seq<(Option<Seq<char>>, Seq<(Seq<char>, Seq<char>)>)>>, credentials: Seq<(Option<Seq<char>>, Seq<(Seq<char>, Seq<char>)>)>, p: Seq<char>)
    requires
        profile_records(None, Some(credentials)).contains_key(p),
    ensures
        profile_records(config, Some(credentials)).contains_key(p),
        profile_records(config, Some(credentials))[p].values == (if profile_records(config, None).contains_key(p) {
            profile_records(config, None)[p].values
        } else {
            Map::empty()
        }).union_prefer_right(profile_records(None, Some(credentials))[p].values),
        forall|k: Seq<char>| #[trigger] profile_records(None, Some(credentials))[p].values.contains_key(k)
            ==> profile_records(config, Some(credentials))[p].values[k] == profile_records(
            None,
            Some(credentials),
        )[p].values[k],
{
    let e: Map<Seq<char>, RecordView> = Map::empty();
    let from_config = profile_records(config, None);
    lemma_section_names(credentials);
    lemma_merge_names_plain_at(e, credentials, section_names(credentials), p);
    lemma_merge_names_plain_at(from_config, credentials, section_names(credentials), p);
    let props = first_section(credentials, Some(p))->Some_0;
    let base = if from_config.contains_key(p) {
        from_config[p]
    } else {
        empty_record()
    };
    lemma_record_add_all_values(base, props);
}

} // verus!
