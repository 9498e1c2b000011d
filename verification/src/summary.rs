//! One summary per profile: the account it works in, how it authenticates,
//! its region, and short details; and the order profiles are listed in.
use vstd::prelude::*;
use vstd::string::*;
use vstd::utf8::{encode_utf8, is_ascii_chars, is_ascii_chars_encode_utf8};
use ini::Ini;
use crate::assoc::{lemma_assoc_map_dom, lemma_assoc_map_index, lemma_assoc_map_len};
use crate::ini_store::{ini_load_from_str, ini_parse, ini_sections};
use crate::profiles::{
    collect_profile_records, find_record, ini_model, map_get, profile_records, record_get, record_has,
    records_map, records_pairs, records_wf, config_defines, has_section, lemma_profile_membership,
    lemma_profile_records_finite, lemma_records_unique, ProfileRecord, RecordView,
};
use crate::text::{opt_view, name_lt, lemma_name_order, split_nth, split_nth_field, str_eq, strip_prefix, strip_prefix_spec, strings_view, trim_spec};

verus! {

// ---------------------------------------------------------------------------
// Account ids
// ---------------------------------------------------------------------------

/// An ASCII decimal digit.
pub open spec fn is_ascii_digit(c: char) -> bool {
    '0' <= c && c <= '9'
}

/// An AWS account id: twelve bytes long, all of them ASCII digits.
pub open spec fn is_account_id_spec(s: Seq<char>) -> bool {
    &&& encode_utf8(s).len() == 12
    &&& forall|i: int| 0 <= i < s.len() ==> is_ascii_digit(#[trigger] s[i])
}

/// The account id in an ARN: its fifth `:`-separated field, when that is an account id.
pub open spec fn account_id_from_arn_spec(arn: Seq<char>) -> Option<Seq<char>> {
    match split_nth(arn, ':', 4) {
        Some(f) => if is_account_id_spec(f) {
            Some(f)
        } else {
            None
        },
        None => None,
    }
}

/// The account id a profile names itself: `sso_account_id` (or, without it,
/// `aws_account_id`) when it is a valid id; otherwise the one in `role_arn`; otherwise
/// the one in `mfa_serial`.
pub open spec fn explicit_account_id_spec(values: Map<Seq<char>, Seq<char>>) -> Option<Seq<char>> {
    let direct = match map_get(values, "sso_account_id"@) {
        Some(v) => Some(v),
        None => map_get(values, "aws_account_id"@),
    };
    let checked = match direct {
        Some(v) => if is_account_id_spec(v) {
            Some(v)
        } else {
            None
        },
        None => None,
    };
    match checked {
        Some(v) => Some(v),
        None => {
            let from_role = match map_get(values, "role_arn"@) {
                Some(a) => account_id_from_arn_spec(a),
                None => None,
            };
            match from_role {
                Some(v) => Some(v),
                None => match map_get(values, "mfa_serial"@) {
                    Some(a) => account_id_from_arn_spec(a),
                    None => None,
                },
            }
        },
    }
}

/// The account of profile `name`: its own explicit id, or else the account of its
/// `source_profile`; a profile met a second time on the way (`visited`), or one that does
/// not exist, gives none.
pub open spec fn resolve_account_id_spec(
    name: Seq<char>,
    records: Map<Seq<char>, RecordView>,
    visited: Set<Seq<char>>,
) -> Option<Seq<char>>
    decreases records.dom().difference(visited).len(),
    when records.dom().finite()
{
    if visited.contains(name) || !records.contains_key(name) {
        None
    } else {
        match explicit_account_id_spec(records[name].values) {
            Some(a) => Some(a),
            None => match map_get(records[name].values, "source_profile"@) {
                Some(src) => {
                    proof {
                        assert(records.dom().difference(visited.insert(name)) =~= records.dom().difference(
                            visited,
                        ).remove(name));
                    }
                    resolve_account_id_spec(src, records, visited.insert(name))
                },
                None => None,
            },
        }
    }
}

fn is_account_id(value: &str) -> (r: bool)
    ensures
        r == is_account_id_spec(value@),
{
    let n = value.unicode_len();
    let mut i: usize = 0;
    while i < n
        invariant
            n == value@.len(),
            i <= n,
            forall|j: int| 0 <= j < i ==> is_ascii_digit(#[trigger] value@[j]),
        decreases n - i,
    {
        let c = value.get_char(i);
        if !('0' <= c && c <= '9') {
            return false;
        }
        i = i + 1;
    }
    proof {
        assert(is_ascii_chars(value@));
        is_ascii_chars_encode_utf8(value@);
    }
    n == 12
}

fn extract_account_id_from_arn(arn: &str) -> (r: Option<String>)
    ensures
        opt_view(r) == account_id_from_arn_spec(arn@),
{
    match split_nth_field(arn, ':', 4) {
        Some(account_id) => if is_account_id(account_id) {
            Some(account_id.to_owned())
        } else {
            None
        },
        None => None,
    }
}

fn explicit_account_id(profile: &ProfileRecord) -> (r: Option<String>)
    requires
        profile.wf(),
    ensures
        opt_view(r) == explicit_account_id_spec(profile@.values),
{
    let direct = match record_get(profile, "sso_account_id") {
        Some(v) => Some(v),
        None => record_get(profile, "aws_account_id"),
    };
    if let Some(v) = direct {
        if is_account_id(v.as_str()) {
            return Some(v.clone());
        }
    }
    let from_role = match record_get(profile, "role_arn") {
        Some(arn) => extract_account_id_from_arn(arn.as_str()),
        None => None,
    };
    if from_role.is_some() {
        return from_role;
    }
    match record_get(profile, "mfa_serial") {
        Some(arn) => extract_account_id_from_arn(arn.as_str()),
        None => None,
    }
}

fn vec_contains(v: &Vec<String>, s: &str) -> (r: bool)
    ensures
        r == strings_view(v@).contains(s@),
{
    let mut i: usize = 0;
    while i < v.len()
        invariant
            i <= v@.len(),
            forall|j: int| 0 <= j < i ==> v@[j]@ != s@,
        decreases v.len() - i,
    {
        if str_eq(v[i].as_str(), s) {
            assert(strings_view(v@)[i as int] == s@);
            return true;
        }
        i = i + 1;
    }
    assert forall|j: int| 0 <= j < strings_view(v@).len() implies strings_view(v@)[j] != s@ by {
        assert(strings_view(v@)[j] == v@[j]@);
    }
    false
}

/// The account of profile `profile_name`, following `source_profile` links and
/// stopping at the first profile met twice.
fn resolve_account_id(profile_name: &str, records: &Vec<(String, ProfileRecord)>) -> (r: Option<String>)
    requires
        records_wf(records@),
    ensures
        opt_view(r) == resolve_account_id_spec(profile_name@, records_map(records@), Set::empty()),
{
    let ghost map = records_map(records@);
    proof {
        lemma_records_unique(records@);
        lemma_assoc_map_len(records_pairs(records@));
    }
    let mut visited: Vec<String> = Vec::new();
    let ghost mut vis: Set<Seq<char>> = Set::empty();
    let mut current: String = profile_name.to_owned();
    loop
        invariant
            records_wf(records@),
            map == records_map(records@),
            map.dom().finite(),
            vis.finite(),
            forall|s: Seq<char>| vis.contains(s) <==> strings_view(visited@).contains(s),
            resolve_account_id_spec(profile_name@, map, Set::empty()) == resolve_account_id_spec(
                current@,
                map,
                vis,
            ),
        decreases map.dom().difference(vis).len(),
    {
        if vec_contains(&visited, current.as_str()) {
            return None;
        }
        let ghost before = vis;
        let ghost cur = current@;
        let ghost old_view = strings_view(visited@);
        visited.push(current.clone());
        proof {
            vis = vis.insert(cur);
            assert(strings_view(visited@) =~= old_view.push(cur));
            assert forall|s: Seq<char>| vis.contains(s) <==> strings_view(visited@).contains(s) by {
                if strings_view(visited@).contains(s) {
                    let j = choose|j: int| 0 <= j < strings_view(visited@).len() && strings_view(visited@)[j] == s;
                    if j < old_view.len() {
                        assert(old_view[j] == s);
                    }
                }
                if old_view.contains(s) {
                    let j = choose|j: int| 0 <= j < old_view.len() && old_view[j] == s;
                    assert(strings_view(visited@)[j] == s);
                }
                if s == cur {
                    assert(strings_view(visited@)[old_view.len() as int] == s);
                }
            }
        }
        let (found, idx) = find_record(records, current.as_str());
        proof {
            lemma_records_unique(records@);
            lemma_assoc_map_dom(records_pairs(records@), cur);
            if found {
                lemma_assoc_map_index(records_pairs(records@), idx as int);
            } else if map.contains_key(cur) {
                let j = choose|j: int| 0 <= j < records_pairs(records@).len() && records_pairs(records@)[j].0 == cur;
                if j < idx {
                    assert(name_lt(records@[j].0@, cur));
                } else {
                    assert(name_lt(cur, records@[j].0@));
                }
                lemma_name_order(cur, cur, cur);
            }
        }
        if !found {
            return None;
        }
        let rec = &records[idx].1;
        assert(rec.wf());
        match explicit_account_id(rec) {
            Some(a) => {
                return Some(a);
            },
            None => {},
        }
        match record_get(rec, "source_profile") {
            Some(src) => {
                proof {
                    assert(map.dom().difference(vis) =~= map.dom().difference(before).remove(cur));
                }
                current = src.clone();
            },
            None => {
                return None;
            },
        }
    }
}

// ---------------------------------------------------------------------------
// Kind of authentication and details
// ---------------------------------------------------------------------------

/// How a profile authenticates: `sso`, `role`, `process`, `static`, `source` or `config`,
/// by the first of these settings it has.
pub open spec fn auth_type_spec(r: RecordView) -> Seq<char> {
    if r.values.contains_key("sso_account_id"@) || r.values.contains_key("sso_role_name"@)
        || r.values.contains_key("sso_start_url"@) || r.values.contains_key("sso_session"@) {
        "sso"@
    } else if r.values.contains_key("role_arn"@) {
        "role"@
    } else if r.values.contains_key("credential_process"@) {
        "process"@
    } else if r.has_static_credentials {
        "static"@
    } else if r.values.contains_key("source_profile"@) {
        "source"@
    } else {
        "config"@
    }
}

fn auth_type_for(profile: &ProfileRecord) -> (r: &'static str)
    requires
        profile.wf(),
    ensures
        r@ == auth_type_spec(profile@),
{
    if record_has(profile, "sso_account_id") || record_has(profile, "sso_role_name") || record_has(
        profile,
        "sso_start_url",
    ) || record_has(profile, "sso_session") {
        "sso"
    } else if record_has(profile, "role_arn") {
        "role"
    } else if record_has(profile, "credential_process") {
        "process"
    } else if profile.has_static_credentials {
        "static"
    } else if record_has(profile, "source_profile") {
        "source"
    } else {
        "config"
    }
}

/// The role named by a role ARN: its sixth `:`-separated field without the `role/`
/// prefix, or the whole ARN when it has no such field.
pub open spec fn role_label_spec(arn: Seq<char>) -> Seq<char> {
    match split_nth(arn, ':', 5) {
        Some(resource) => match strip_prefix_spec(resource, "role/"@) {
            Some(label) => label,
            None => arn,
        },
        None => arn,
    }
}

/// A one-element list when `b` holds, else an empty one.
pub open spec fn detail_if(b: bool, d: Seq<char>) -> Seq<Seq<char>> {
    if b {
        seq![d]
    } else {
        Seq::empty()
    }
}

/// The details listed for a profile, in this order: `role=`, `source=`, `sso_role=`,
/// `output=`, `credential_process`, `mfa`, `static_creds`, each where it applies.
pub open spec fn details_spec(r: RecordView) -> Seq<Seq<char>> {
    let v = r.values;
    detail_if(v.contains_key("role_arn"@), "role="@ + role_label_spec(v["role_arn"@]))
        + detail_if(v.contains_key("source_profile"@), "source="@ + v["source_profile"@])
        + detail_if(v.contains_key("sso_role_name"@), "sso_role="@ + v["sso_role_name"@])
        + detail_if(v.contains_key("output"@), "output="@ + v["output"@])
        + detail_if(v.contains_key("credential_process"@), "credential_process"@)
        + detail_if(v.contains_key("mfa_serial"@), "mfa"@)
        + detail_if(r.has_static_credentials, "static_creds"@)
}

fn labelled(label: &str, value: &str) -> (r: String)
    ensures
        r@ == label@ + value@,
{
    let mut s: String = label.to_owned();
    s.append(value);
    s
}

fn push_detail(details: &mut Vec<String>, b: bool, d: String)
    ensures
        strings_view(final(details)@) == strings_view(old(details)@) + detail_if(b, d@),
{
    if b {
        details.push(d);
        assert(strings_view(details@) =~= strings_view(old(details)@) + detail_if(b, d@));
    } else {
        assert(strings_view(details@) =~= strings_view(old(details)@) + detail_if(b, d@));
    }
}

fn details_for(profile: &ProfileRecord) -> (r: Vec<String>)
    requires
        profile.wf(),
    ensures
        strings_view(r@) == details_spec(profile@),
{
    let ghost v = profile@.values;
    let mut details: Vec<String> = Vec::new();
    assert(strings_view(details@) =~= Seq::<Seq<char>>::empty());
    if let Some(role_arn) = record_get(profile, "role_arn") {
        let role_label = match split_nth_field(role_arn.as_str(), ':', 5) {
            Some(resource) => match strip_prefix(resource, "role/") {
                Some(label) => label,
                None => role_arn.as_str(),
            },
            None => role_arn.as_str(),
        };
        assert(role_label@ == role_label_spec(v["role_arn"@]));
        push_detail(&mut details, true, labelled("role=", role_label));
    }
    let ghost d1 = strings_view(details@);
    assert(d1 =~= detail_if(v.contains_key("role_arn"@), "role="@ + role_label_spec(v["role_arn"@])));
    if let Some(source_profile) = record_get(profile, "source_profile") {
        push_detail(&mut details, true, labelled("source=", source_profile.as_str()));
    }
    let ghost d2 = strings_view(details@);
    assert(d2 =~= d1 + detail_if(v.contains_key("source_profile"@), "source="@ + v["source_profile"@]));
    if let Some(sso_role_name) = record_get(profile, "sso_role_name") {
        push_detail(&mut details, true, labelled("sso_role=", sso_role_name.as_str()));
    }
    let ghost d3 = strings_view(details@);
    assert(d3 =~= d2 + detail_if(v.contains_key("sso_role_name"@), "sso_role="@ + v["sso_role_name"@]));
    if let Some(output) = record_get(profile, "output") {
        push_detail(&mut details, true, labelled("output=", output.as_str()));
    }
    let ghost d4 = strings_view(details@);
    assert(d4 =~= d3 + detail_if(v.contains_key("output"@), "output="@ + v["output"@]));
    let has_process = record_has(profile, "credential_process");
    push_detail(&mut details, has_process, "credential_process".to_owned());
    let has_mfa = record_has(profile, "mfa_serial");
    push_detail(&mut details, has_mfa, "mfa".to_owned());
    push_detail(&mut details, profile.has_static_credentials, "static_creds".to_owned());
    details
}

// ---------------------------------------------------------------------------
// Summaries and their order
// ---------------------------------------------------------------------------

/// What `--list` shows of one profile.
#[derive(Debug, Clone, PartialEq, Eq)]
pub struct AwsProfileSummary {
    pub name: String,
    pub account_id: Option<String>,
    pub auth_type: String,
    pub region: Option<String>,
    pub details: Vec<String>,
}

/// The mathematical content of a summary.
pub struct ProfileSummaryView {
    pub name: Seq<char>,
    pub account_id: Option<Seq<char>>,
    pub auth_type: Seq<char>,
    pub region: Option<Seq<char>>,
    pub details: Seq<Seq<char>>,
}

impl View for AwsProfileSummary {
    type V = ProfileSummaryView;

    open spec fn view(&self) -> ProfileSummaryView {
        ProfileSummaryView {
            name: self.name@,
            account_id: opt_view(self.account_id),
            auth_type: self.auth_type@,
            region: opt_view(self.region),
            details: strings_view(self.details@),
        }
    }
}

/// The summary of profile `name` among `records`.
pub open spec fn summary_spec(name: Seq<char>, records: Map<Seq<char>, RecordView>) -> ProfileSummaryView {
    let r = records[name];
    ProfileSummaryView {
        name: name,
        account_id: resolve_account_id_spec(name, records, Set::empty()),
        auth_type: auth_type_spec(r),
        region: map_get(r.values, "region"@),
        details: details_spec(r),
    }
}

/// Profiles are listed with `default` first and the others by name.
pub open spec fn listed_before(a: Seq<char>, b: Seq<char>) -> bool {
    ||| (a == "default"@ && b != "default"@)
    ||| (a != "default"@ && b != "default"@ && name_lt(a, b))
}

/// `names` lists each profile of `profiles` once, in listing order.
pub open spec fn profile_listing(names: Seq<Seq<char>>, profiles: Set<Seq<char>>) -> bool {
    &&& names.len() == profiles.len()
    &&& forall|i: int| 0 <= i < names.len() ==> profiles.contains(#[trigger] names[i])
    &&& forall|i: int, j: int| 0 <= i < j < names.len() ==> listed_before(#[trigger] names[i], #[trigger] names[j])
}

/// `names` lists each profile of `profiles` once, by name.
pub open spec fn sorted_listing(names: Seq<Seq<char>>, profiles: Set<Seq<char>>) -> bool {
    &&& names.len() == profiles.len()
    &&& forall|i: int| 0 <= i < names.len() ==> profiles.contains(#[trigger] names[i])
    &&& forall|i: int, j: int| 0 <= i < j < names.len() ==> name_lt(#[trigger] names[i], #[trigger] names[j])
}

/// The names of some summaries.
pub open spec fn summary_names(s: Seq<AwsProfileSummary>) -> Seq<Seq<char>> {
    s.map_values(|x: AwsProfileSummary| x.name@)
}

/// `s` holds one summary for each profile of `records`, in listing order.
pub open spec fn summaries_of(s: Seq<AwsProfileSummary>, records: Map<Seq<char>, RecordView>) -> bool {
    &&& profile_listing(summary_names(s), records.dom())
    &&& forall|i: int| 0 <= i < s.len() ==> (#[trigger] s[i])@ == summary_spec(s[i].name@, records)
}

fn summary_for(records: &Vec<(String, ProfileRecord)>, idx: usize) -> (r: AwsProfileSummary)
    requires
        records_wf(records@),
        idx < records@.len(),
    ensures
        r@ == summary_spec(records@[idx as int].0@, records_map(records@)),
{
    proof {
        lemma_records_unique(records@);
        lemma_assoc_map_index(records_pairs(records@), idx as int);
    }
    let name = records[idx].0.as_str();
    let rec = &records[idx].1;
    assert(rec.wf());
    let region = match record_get(rec, "region") {
        Some(r) => Some(r.clone()),
        None => None,
    };
    AwsProfileSummary {
        name: name.to_owned(),
        account_id: resolve_account_id(name, records),
        auth_type: auth_type_for(rec).to_owned(),
        region: region,
        details: details_for(rec),
    }
}

/// One summary per record, `default` first and the others by name.
pub fn build_profile_summaries(records: &Vec<(String, ProfileRecord)>) -> (r: Vec<AwsProfileSummary>)
    requires
        records_wf(records@),
    ensures
        summaries_of(r@, records_map(records@)),
{
    let ghost map = records_map(records@);
    proof {
        lemma_records_unique(records@);
        lemma_assoc_map_len(records_pairs(records@));
        reveal_strlit("default");
    }
    let mut summaries: Vec<AwsProfileSummary> = Vec::new();
    let (found, idx) = find_record(records, "default");
    proof {
        if !found {
            assert forall|j: int| 0 <= j < records@.len() implies records@[j].0@ != "default"@ by {
                if j < idx {
                    assert(name_lt(records@[j].0@, "default"@));
                } else {
                    assert(name_lt("default"@, records@[j].0@));
                }
                lemma_name_order(records@[j].0@, "default"@, records@[j].0@);
            }
        } else {
            assert forall|j: int| 0 <= j < records@.len() && j != idx implies records@[j].0@ != "default"@ by {
                if j < idx {
                    assert(name_lt(records@[j].0@, records@[idx as int].0@));
                } else {
                    assert(name_lt(records@[idx as int].0@, records@[j].0@));
                }
                lemma_name_order(records@[j].0@, records@[idx as int].0@, records@[j].0@);
            }
        }
    }
    if found {
        summaries.push(summary_for(records, idx));
        proof {
            lemma_assoc_map_index(records_pairs(records@), idx as int);
        }
    }
    let mut i: usize = 0;
    while i < records.len()
        invariant
            records_wf(records@),
            map == records_map(records@),
            map.dom().len() == records@.len(),
            i <= records@.len(),
            found ==> idx < records@.len() && records@[idx as int].0@ == "default"@,
            found ==> forall|j: int| 0 <= j < records@.len() && j != idx ==> records@[j].0@ != "default"@,
            !found ==> forall|j: int| 0 <= j < records@.len() ==> records@[j].0@ != "default"@,
            summaries@.len() == (if found { 1int } else { 0int }) + i - (if found && idx < i { 1int } else { 0int }),
            forall|p: int| 0 <= p < summaries@.len() ==> map.dom().contains(#[trigger] summaries@[p].name@),
            forall|p: int| 0 <= p < summaries@.len() ==> (#[trigger] summaries@[p])@ == summary_spec(summaries@[p].name@, map),
            forall|p: int| 0 <= p < summaries@.len() ==> (#[trigger] summaries@[p]).name@ == "default"@ || exists|j: int|
                0 <= j < i && records@[j].0@ == summaries@[p].name@ && records@[j].0@ != "default"@,
            forall|p: int, q: int| 0 <= p < q < summaries@.len() ==> listed_before(
                #[trigger] summaries@[p].name@,
                #[trigger] summaries@[q].name@,
            ),
        decreases records.len() - i,
    {
        if !str_eq(records[i].0.as_str(), "default") {
            let ghost before = summaries@;
            let s = summary_for(records, i);
            proof {
                lemma_records_unique(records@);
                lemma_assoc_map_index(records_pairs(records@), i as int);
            }
            summaries.push(s);
            proof {
                assert forall|p: int, q: int| 0 <= p < q < summaries@.len() implies listed_before(
                    #[trigger] summaries@[p].name@,
                    #[trigger] summaries@[q].name@,
                ) by {
                    if q == summaries@.len() - 1 {
                        assert(summaries@[p] == before[p]);
                        if before[p].name@ != "default"@ {
                            let j = choose|j: int|
                                0 <= j < i && records@[j].0@ == before[p].name@ && records@[j].0@ != "default"@;
                            assert(name_lt(records@[j].0@, records@[i as int].0@));
                        }
                    } else {
                        assert(summaries@[p] == before[p]);
                        assert(summaries@[q] == before[q]);
                    }
                }
                assert forall|p: int| 0 <= p < summaries@.len() implies (#[trigger] summaries@[p]).name@ == "default"@
                    || exists|j: int| 0 <= j < i + 1 && records@[j].0@ == summaries@[p].name@ && records@[j].0@ != "default"@ by {
                    if p < summaries@.len() - 1 {
                        assert(summaries@[p] == before[p]);
                    } else {
                        assert(records@[i as int].0@ == summaries@[p].name@);
                    }
                }
            }
        }
        i = i + 1;
    }
    proof {
        assert(summary_names(summaries@).len() == summaries@.len());
        assert forall|p: int| 0 <= p < summary_names(summaries@).len() implies map.dom().contains(
            #[trigger] summary_names(summaries@)[p],
        ) by {
            assert(summary_names(summaries@)[p] == summaries@[p].name@);
        }
        assert forall|p: int, q: int| 0 <= p < q < summary_names(summaries@).len() implies listed_before(
            #[trigger] summary_names(summaries@)[p],
            #[trigger] summary_names(summaries@)[q],
        ) by {
            assert(summary_names(summaries@)[p] == summaries@[p].name@);
            assert(summary_names(summaries@)[q] == summaries@[q].name@);
        }
    }
    summaries
}

/// The summary of every profile in the shared `config` and `credentials` documents
/// (either may be missing): `default` first, the others by name.
pub fn get_aws_profile_summaries(config: Option<&Ini>, credentials: Option<&Ini>) -> (r: Vec<AwsProfileSummary>)
    ensures
        summaries_of(r@, profile_records(ini_model(config), ini_model(credentials))),
{
    let records = collect_profile_records(config, credentials);
    build_profile_summaries(&records)
}

/// The name of every profile in the shared `config` and `credentials` documents, in
/// the order of `get_aws_profile_summaries`.
pub fn get_aws_profiles(config: Option<&Ini>, credentials: Option<&Ini>) -> (r: Vec<String>)
    ensures
        profile_listing(strings_view(r@), profile_records(ini_model(config), ini_model(credentials)).dom()),
{
    let summaries = get_aws_profile_summaries(config, credentials);
    let mut names: Vec<String> = Vec::new();
    let mut i: usize = 0;
    while i < summaries.len()
        invariant
            i <= summaries@.len(),
            strings_view(names@) == summary_names(summaries@).take(i as int),
        decreases summaries.len() - i,
    {
        let ghost before = names@;
        let n = summaries[i].name.clone();
        assert(n@ == summaries@[i as int].name@);
        names.push(n);
        assert(names@ == before.push(n));
        assert(summary_names(summaries@)[i as int] == summaries@[i as int].name@);
        assert(strings_view(names@) =~= strings_view(before).push(n@));
        assert(summary_names(summaries@).take(i + 1) =~= summary_names(summaries@).take(i as int).push(n@));
        assert(strings_view(names@) =~= summary_names(summaries@).take(i + 1));
        i = i + 1;
    }
    assert(summary_names(summaries@).take(summaries@.len() as int) =~= summary_names(summaries@));
    names
}

/// The profiles of a document read as a `config` file, sorted by name.
pub fn config_profile_names(conf: &Ini) -> (r: Vec<String>)
    ensures
        sorted_listing(strings_view(r@), profile_records(Some(ini_sections(*conf)), None).dom()),
{
    let records = collect_profile_records(Some(conf), None);
    let ghost map = records_map(records@);
    proof {
        lemma_records_unique(records@);
        lemma_assoc_map_len(records_pairs(records@));
    }
    let mut names: Vec<String> = Vec::new();
    let mut i: usize = 0;
    while i < records.len()
        invariant
            i <= records@.len(),
            records_wf(records@),
            map == records_map(records@),
            strings_view(names@) == records_pairs(records@).map_values(|e: (Seq<char>, RecordView)| e.0).take(i as int),
        decreases records.len() - i,
    {
        let ghost before = names@;
        let n = records[i].0.clone();
        assert(n@ == records@[i as int].0@);
        names.push(n);
        assert(names@ == before.push(n));
        assert(records_pairs(records@)[i as int].0 == records@[i as int].0@);
        assert(strings_view(names@) =~= strings_view(before).push(n@));
        assert(records_pairs(records@).map_values(|e: (Seq<char>, RecordView)| e.0).take(i + 1)
            =~= records_pairs(records@).map_values(|e: (Seq<char>, RecordView)| e.0).take(i as int).push(n@));
        assert(strings_view(names@) =~= records_pairs(records@).map_values(|e: (Seq<char>, RecordView)| e.0).take(i + 1));
        i = i + 1;
    }
    proof {
        let ks = records_pairs(records@).map_values(|e: (Seq<char>, RecordView)| e.0);
        assert(ks.take(records@.len() as int) =~= ks);
        assert forall|p: int| 0 <= p < ks.len() implies map.dom().contains(#[trigger] ks[p]) by {
            lemma_assoc_map_index(records_pairs(records@), p);
        }
        assert forall|p: int, q: int| 0 <= p < q < ks.len() implies name_lt(#[trigger] ks[p], #[trigger] ks[q]) by {
            assert(name_lt(records@[p].0@, records@[q].0@));
        }
    }
    names
}

/// The profiles of an INI text read as a `config` file, sorted by name; none when the
/// text does not parse.
pub fn parse_ini_content(content: &str) -> (r: Vec<String>)
    ensures
        match ini_parse(content@) {
            Some(m) => sorted_listing(strings_view(r@), profile_records(Some(m), None).dom()),
            None => r@.len() == 0,
        },
{
    match ini_load_from_str(content) {
        Ok(conf) => config_profile_names(&conf),
        Err(_) => Vec::new(),
    }
}

/// A listing names every profile: a profile is in the listing exactly when it is one
/// of the profiles listed.
pub proof fn lemma_listing_complete(names: Seq<Seq<char>>, profiles: Set<Seq<char>>)
    requires
        profile_listing(names, profiles),
        profiles.finite(),
    ensures
        forall|p: Seq<char>| profiles.contains(p) <==> names.contains(p),
{
    reveal_strlit("default");
    assert(names.no_duplicates()) by {
        assert forall|i: int, j: int| 0 <= i < names.len() && 0 <= j < names.len() && i != j implies names[i]
            != names[j] by {
            let (a, b) = if i < j {
                (i, j)
            } else {
                (j, i)
            };
            assert(listed_before(names[a], names[b]));
            lemma_name_order(names[a], names[b], names[a]);
        }
    }
    names.unique_seq_to_set();
    assert(names.to_set().subset_of(profiles)) by {
        assert forall|p: Seq<char>| names.to_set().contains(p) implies profiles.contains(p) by {
            let i = choose|i: int| 0 <= i < names.len() && names[i] == p;
            assert(profiles.contains(names[i]));
        }
    }
    vstd::set_lib::lemma_subset_equality(names.to_set(), profiles);
    assert forall|p: Seq<char>| profiles.contains(p) <==> names.contains(p) by {
        assert(names.to_set().contains(p) == names.contains(p));
    }
}

/// A name is never listed before itself, and of two names at most one is listed before
/// the other.
proof fn lemma_listed_before_strict(a: Seq<char>, b: Seq<char>)
    ensures
        !listed_before(a, a),
        listed_before(a, b) ==> !listed_before(b, a),
{
    lemma_name_order(a, b, a);
}

/// Dropping the first name of a listing lists the other profiles.
proof fn lemma_listing_rest(names: Seq<Seq<char>>, profiles: Set<Seq<char>>)
    requires
        profile_listing(names, profiles),
        profiles.finite(),
        names.len() > 0,
    ensures
        profile_listing(names.drop_first(), profiles.remove(names[0])),
        profiles.remove(names[0]).finite(),
{
    assert(profiles.contains(names[0]));
    let rest = names.drop_first();
    assert forall|i: int| 0 <= i < rest.len() implies profiles.remove(names[0]).contains(#[trigger] rest[i]) by {
        assert(rest[i] == names[i + 1]);
        assert(profiles.contains(names[i + 1]));
        assert(listed_before(names[0], names[i + 1]));
        lemma_listed_before_strict(names[0], names[0]);
    }
    assert forall|i: int, j: int| 0 <= i < j < rest.len() implies listed_before(#[trigger] rest[i], #[trigger] rest[j]) by {
        assert(rest[i] == names[i + 1]);
        assert(rest[j] == names[j + 1]);
    }
}

/// A set of profiles has one listing.
pub proof fn lemma_listing_unique(a: Seq<Seq<char>>, b: Seq<Seq<char>>, profiles: Set<Seq<char>>)
    requires
        profile_listing(a, profiles),
        profile_listing(b, profiles),
        profiles.finite(),
    ensures
        a == b,
    decreases a.len(),
{
    if a.len() == 0 {
        assert(a =~= b);
    } else {
        lemma_listing_complete(a, profiles);
        lemma_listing_complete(b, profiles);
        assert(profiles.contains(a[0]));
        assert(profiles.contains(b[0]));
        assert(b.contains(a[0]));
        assert(a.contains(b[0]));
        if a[0] != b[0] {
            let k = choose|k: int| 0 <= k < b.len() && b[k] == a[0];
            let m = choose|m: int| 0 <= m < a.len() && a[m] == b[0];
            assert(listed_before(b[0], b[k]));
            assert(listed_before(a[0], a[m]));
            lemma_listed_before_strict(a[0], b[0]);
        }
        lemma_listing_rest(a, profiles);
        lemma_listing_rest(b, profiles);
        lemma_listing_unique(a.drop_first(), b.drop_first(), profiles.remove(a[0]));
        assert forall|i: int| 0 <= i < a.len() implies a[i] == b[i] by {
            if i > 0 {
                assert(a[i] == a.drop_first()[i - 1]);
                assert(b[i] == b.drop_first()[i - 1]);
            }
        }
        assert(a =~= b);
    }
}

/// The profiles `get_aws_profiles` lists for two documents are the names of the summaries
/// `get_aws_profile_summaries` gives for them, in the same order.
pub proof fn lemma_profiles_are_summary_names(
    config: Option<&Ini>,
    credentials: Option<&Ini>,
    names: Seq<Seq<char>>,
    summaries: Seq<AwsProfileSummary>,
)
    requires
        profile_listing(names, profile_records(ini_model(config), ini_model(credentials)).dom()),
        summaries_of(summaries, profile_records(ini_model(config), ini_model(credentials))),
    ensures
        names == summary_names(summaries),
{
    lemma_profile_records_finite(ini_model(config), ini_model(credentials));
    lemma_listing_unique(
        names,
        summary_names(summaries),
        profile_records(ini_model(config), ini_model(credentials)).dom(),
    );
}

/// A listing of the profiles of two documents (as `get_aws_profiles` gives it) names
/// exactly the names that are not blank and that `config` defines (by its section
/// `default`, or by a section `profile NAME`) or that name a section of `credentials`.
pub proof fn lemma_listed_profiles(
    config: Option<&Ini>,
    credentials: Option<&Ini>,
    names: Seq<Seq<char>>,
    n: Seq<char>,
)
    requires
        profile_listing(names, profile_records(ini_model(config), ini_model(credentials)).dom()),
    ensures
        names.contains(n) <==> (trim_spec(n).len() != 0 && (
            (ini_model(config) matches Some(c) && config_defines(c, n))
            || (ini_model(credentials) matches Some(k) && has_section(k, n)))),
{
    lemma_profile_records_finite(ini_model(config), ini_model(credentials));
    lemma_listing_complete(names, profile_records(ini_model(config), ini_model(credentials)).dom());
    lemma_profile_membership(ini_model(config), ini_model(credentials), n);
}

/// An account that a profile resolves to is the account id that some profile names
/// explicitly (itself, or one reached through `source_profile` links).
pub proof fn lemma_resolved_account_is_explicit(
    name: Seq<char>,
    records: Map<Seq<char>, RecordView>,
    visited: Set<Seq<char>>,
)
    requires
        records.dom().finite(),
    ensures
        resolve_account_id_spec(name, records, visited) matches Some(a) ==> exists|q: Seq<char>|
            records.contains_key(q) && explicit_account_id_spec(#[trigger] records[q].values) == Some(a),
    decreases records.dom().difference(visited).len(),
{
    if !visited.contains(name) && records.contains_key(name) {
        if let Some(a) = explicit_account_id_spec(records[name].values) {
            assert(records.contains_key(name) && explicit_account_id_spec(records[name].values) == Some(a));
        } else if let Some(src) = map_get(records[name].values, "source_profile"@) {
            assert(records.dom().difference(visited.insert(name)) =~= records.dom().difference(visited).remove(
                name,
            ));
            assert(records.dom().difference(visited).contains(name));
            lemma_resolved_account_is_explicit(src, records, visited.insert(name));
        }
    }
}


// ---------------------------------------------------------------------------
// What the summary of a profile shows
// ---------------------------------------------------------------------------

/// The records of the profiles of two shared documents.
pub open spec fn shared_records(config: Option<&Ini>, credentials: Option<&Ini>) -> Map<Seq<char>, RecordView> {
    profile_records(ini_model(config), ini_model(credentials))
}

/// The settings of the profile summarised at `i`.
pub open spec fn summarised_values(
    config: Option<&Ini>,
    credentials: Option<&Ini>,
    s: Seq<AwsProfileSummary>,
    i: int,
) -> Map<Seq<char>, Seq<char>> {
    shared_records(config, credentials)[s[i].name@].values
}

/// A summarised profile is one of the profiles, and its summary is `summary_spec` of it.
proof fn lemma_summary_at(config: Option<&Ini>, credentials: Option<&Ini>, s: Seq<AwsProfileSummary>, i: int)
    requires
        summaries_of(s, shared_records(config, credentials)),
        0 <= i < s.len(),
    ensures
        shared_records(config, credentials).contains_key(s[i].name@),
        shared_records(config, credentials).dom().finite(),
        s[i]@ == summary_spec(s[i].name@, shared_records(config, credentials)),
{
    lemma_profile_records_finite(ini_model(config), ini_model(credentials));
    assert(summary_names(s)[i] == s[i].name@);
}

/// A summary shows as its region exactly the profile's `region` setting, and none when the
/// profile has no such setting.
pub proof fn lemma_summary_region(config: Option<&Ini>, credentials: Option<&Ini>, s: Seq<AwsProfileSummary>, i: int)
    requires
        summaries_of(s, shared_records(config, credentials)),
        0 <= i < s.len(),
    ensures
        opt_view(s[i].region) == if summarised_values(config, credentials, s, i).contains_key("region"@) {
            Some(summarised_values(config, credentials, s, i)["region"@])
        } else {
            None
        },
{
    lemma_summary_at(config, credentials, s, i);
}

/// A sequence joined to another holds what either holds.
proof fn lemma_add_contains(a: Seq<Seq<char>>, b: Seq<Seq<char>>, x: Seq<char>)
    ensures
        (a + b).contains(x) <==> (a.contains(x) || b.contains(x)),
{
    if (a + b).contains(x) {
        let k = choose|k: int| 0 <= k < (a + b).len() && (a + b)[k] == x;
        if k < a.len() {
            assert(a[k] == x);
        } else {
            assert(b[k - a.len()] == x);
        }
    }
    if a.contains(x) {
        let k = choose|k: int| 0 <= k < a.len() && a[k] == x;
        assert((a + b)[k] == x);
    }
    if b.contains(x) {
        let k = choose|k: int| 0 <= k < b.len() && b[k] == x;
        assert((a + b)[a.len() + k] == x);
    }
}

/// What a detail of a profile can be: each holds exactly when its setting is there.
proof fn lemma_details_contain(r: RecordView, x: Seq<char>)
    ensures
        details_spec(r).contains(x) <==> {
            let v = r.values;
            ||| (v.contains_key("role_arn"@) && x == "role="@ + role_label_spec(v["role_arn"@]))
            ||| (v.contains_key("source_profile"@) && x == "source="@ + v["source_profile"@])
            ||| (v.contains_key("sso_role_name"@) && x == "sso_role="@ + v["sso_role_name"@])
            ||| (v.contains_key("output"@) && x == "output="@ + v["output"@])
            ||| (v.contains_key("credential_process"@) && x == "credential_process"@)
            ||| (v.contains_key("mfa_serial"@) && x == "mfa"@)
            ||| (r.has_static_credentials && x == "static_creds"@)
        },
{
    let v = r.values;
    let d1 = detail_if(v.contains_key("role_arn"@), "role="@ + role_label_spec(v["role_arn"@]));
    let d2 = detail_if(v.contains_key("source_profile"@), "source="@ + v["source_profile"@]);
    let d3 = detail_if(v.contains_key("sso_role_name"@), "sso_role="@ + v["sso_role_name"@]);
    let d4 = detail_if(v.contains_key("output"@), "output="@ + v["output"@]);
    let d5 = detail_if(v.contains_key("credential_process"@), "credential_process"@);
    let d6 = detail_if(v.contains_key("mfa_serial"@), "mfa"@);
    let d7 = detail_if(r.has_static_credentials, "static_creds"@);
    lemma_add_contains(d1, d2, x);
    lemma_add_contains(d1 + d2, d3, x);
    lemma_add_contains(d1 + d2 + d3, d4, x);
    lemma_add_contains(d1 + d2 + d3 + d4, d5, x);
    lemma_add_contains(d1 + d2 + d3 + d4 + d5, d6, x);
    lemma_add_contains(d1 + d2 + d3 + d4 + d5 + d6, d7, x);
    assert(d1.contains(x) <==> (v.contains_key("role_arn"@) && x == "role="@ + role_label_spec(v["role_arn"@]))) by {
        if v.contains_key("role_arn"@) { assert(d1[0] == "role="@ + role_label_spec(v["role_arn"@])); }
    }
    assert(d2.contains(x) <==> (v.contains_key("source_profile"@) && x == "source="@ + v["source_profile"@])) by {
        if v.contains_key("source_profile"@) { assert(d2[0] == "source="@ + v["source_profile"@]); }
    }
    assert(d3.contains(x) <==> (v.contains_key("sso_role_name"@) && x == "sso_role="@ + v["sso_role_name"@])) by {
        if v.contains_key("sso_role_name"@) { assert(d3[0] == "sso_role="@ + v["sso_role_name"@]); }
    }
    assert(d4.contains(x) <==> (v.contains_key("output"@) && x == "output="@ + v["output"@])) by {
        if v.contains_key("output"@) { assert(d4[0] == "output="@ + v["output"@]); }
    }
    assert(d5.contains(x) <==> (v.contains_key("credential_process"@) && x == "credential_process"@)) by {
        if v.contains_key("credential_process"@) { assert(d5[0] == "credential_process"@); }
    }
    assert(d6.contains(x) <==> (v.contains_key("mfa_serial"@) && x == "mfa"@)) by {
        if v.contains_key("mfa_serial"@) { assert(d6[0] == "mfa"@); }
    }
    assert(d7.contains(x) <==> (r.has_static_credentials && x == "static_creds"@)) by {
        if r.has_static_credentials { assert(d7[0] == "static_creds"@); }
    }
}

/// A summary lists among its details the role (`role=`), the source profile (`source=`),
/// the SSO role (`sso_role=`) and the output format (`output=`) of every one of these
/// settings the profile has, whatever its other settings.
pub proof fn lemma_summary_details_labelled(
    config: Option<&Ini>,
    credentials: Option<&Ini>,
    s: Seq<AwsProfileSummary>,
    i: int,
)
    requires
        summaries_of(s, shared_records(config, credentials)),
        0 <= i < s.len(),
    ensures
        summarised_values(config, credentials, s, i).contains_key("role_arn"@) ==> s[i]@.details.contains(
            "role="@ + role_label_spec(summarised_values(config, credentials, s, i)["role_arn"@]),
        ),
        summarised_values(config, credentials, s, i).contains_key("source_profile"@) ==> s[i]@.details.contains(
            "source="@ + summarised_values(config, credentials, s, i)["source_profile"@],
        ),
        summarised_values(config, credentials, s, i).contains_key("sso_role_name"@) ==> s[i]@.details.contains(
            "sso_role="@ + summarised_values(config, credentials, s, i)["sso_role_name"@],
        ),
        summarised_values(config, credentials, s, i).contains_key("output"@) ==> s[i]@.details.contains(
            "output="@ + summarised_values(config, credentials, s, i)["output"@],
        ),
{
    lemma_summary_at(config, credentials, s, i);
    let r = shared_records(config, credentials)[s[i].name@];
    let v = r.values;
    lemma_details_contain(r, "role="@ + role_label_spec(v["role_arn"@]));
    lemma_details_contain(r, "source="@ + v["source_profile"@]);
    lemma_details_contain(r, "sso_role="@ + v["sso_role_name"@]);
    lemma_details_contain(r, "output="@ + v["output"@]);
}

/// A summary lists `credential_process` exactly when the profile has that setting, `mfa`
/// exactly when it has an `mfa_serial`, and `static_creds` exactly when it holds static
/// credentials, whatever its kind of authentication.
pub proof fn lemma_summary_details_flags(
    config: Option<&Ini>,
    credentials: Option<&Ini>,
    s: Seq<AwsProfileSummary>,
    i: int,
)
    requires
        summaries_of(s, shared_records(config, credentials)),
        0 <= i < s.len(),
    ensures
        s[i]@.details.contains("credential_process"@) <==> summarised_values(config, credentials, s, i).contains_key(
            "credential_process"@,
        ),
        s[i]@.details.contains("mfa"@) <==> summarised_values(config, credentials, s, i).contains_key("mfa_serial"@),
        s[i]@.details.contains("static_creds"@) <==> shared_records(config, credentials)[s[i].name@].has_static_credentials,
{
    lemma_summary_at(config, credentials, s, i);
    let r = shared_records(config, credentials)[s[i].name@];
    let v = r.values;
    reveal_strlit("role=");
    reveal_strlit("source=");
    reveal_strlit("sso_role=");
    reveal_strlit("output=");
    reveal_strlit("credential_process");
    reveal_strlit("mfa");
    reveal_strlit("static_creds");
    lemma_details_contain(r, "credential_process"@);
    lemma_details_contain(r, "mfa"@);
    lemma_details_contain(r, "static_creds"@);
    assert(("role="@ + role_label_spec(v["role_arn"@]))[0] == 'r');
    assert(("source="@ + v["source_profile"@])[0] == 's');
    assert(("source="@ + v["source_profile"@])[1] == 'o');
    assert(("sso_role="@ + v["sso_role_name"@])[0] == 's');
    assert(("sso_role="@ + v["sso_role_name"@])[1] == 's');
    assert(("output="@ + v["output"@])[0] == 'o');
    assert("credential_process"@[0] == 'c');
    assert("mfa"@[0] == 'm');
    assert("static_creds"@[0] == 's');
    assert("static_creds"@[1] == 't');
}


// ---------------------------------------------------------------------------
// Which account a summary shows
// ---------------------------------------------------------------------------

/// The profile's `sso_account_id`, or without one its `aws_account_id`, is a valid account
/// id.
pub open spec fn gives_direct_account(v: Map<Seq<char>, Seq<char>>) -> bool {
    if v.contains_key("sso_account_id"@) {
        is_account_id_spec(v["sso_account_id"@])
    } else {
        v.contains_key("aws_account_id"@) && is_account_id_spec(v["aws_account_id"@])
    }
}

/// The ARN in setting `key` has a valid account id as its fifth `:`-separated field.
pub open spec fn gives_arn_account(v: Map<Seq<char>, Seq<char>>, key: Seq<char>) -> bool {
    v.contains_key(key) && (split_nth(v[key], ':', 4) matches Some(f) && is_account_id_spec(f))
}

/// The fifth `:`-separated field of the ARN in setting `key`.
pub open spec fn arn_field(v: Map<Seq<char>, Seq<char>>, key: Seq<char>) -> Seq<char> {
    split_nth(v[key], ':', 4)->Some_0
}

/// The profile names an account itself, directly or in its `role_arn` or `mfa_serial`.
pub open spec fn names_account(v: Map<Seq<char>, Seq<char>>) -> bool {
    gives_direct_account(v) || gives_arn_account(v, "role_arn"@) || gives_arn_account(v, "mfa_serial"@)
}

/// The account shown for a profile is the one it names itself, whatever its
/// `source_profile` leads to: its valid `sso_account_id` (or, without one, its valid
/// `aws_account_id`); failing that, the account in its `role_arn`, whatever its
/// `mfa_serial` holds; failing that, the account in its `mfa_serial`.
pub proof fn lemma_summary_account_named(
    config: Option<&Ini>,
    credentials: Option<&Ini>,
    s: Seq<AwsProfileSummary>,
    i: int,
)
    requires
        summaries_of(s, shared_records(config, credentials)),
        0 <= i < s.len(),
    ensures
        ({
            let v = summarised_values(config, credentials, s, i);
            v.contains_key("sso_account_id"@) && is_account_id_spec(v["sso_account_id"@]) ==> opt_view(s[i].account_id)
                == Some(v["sso_account_id"@])
        }),
        ({
            let v = summarised_values(config, credentials, s, i);
            !v.contains_key("sso_account_id"@) && v.contains_key("aws_account_id"@) && is_account_id_spec(
                v["aws_account_id"@],
            ) ==> opt_view(s[i].account_id) == Some(v["aws_account_id"@])
        }),
        ({
            let v = summarised_values(config, credentials, s, i);
            !gives_direct_account(v) && gives_arn_account(v, "role_arn"@) ==> opt_view(s[i].account_id) == Some(
                arn_field(v, "role_arn"@),
            )
        }),
        ({
            let v = summarised_values(config, credentials, s, i);
            !gives_direct_account(v) && !gives_arn_account(v, "role_arn"@) && gives_arn_account(v, "mfa_serial"@)
                ==> opt_view(s[i].account_id) == Some(arn_field(v, "mfa_serial"@))
        }),
{
    lemma_summary_at(config, credentials, s, i);
    let v = summarised_values(config, credentials, s, i);
    assert(names_account(v) ==> explicit_account_id_spec(v) is Some);
}

/// Resolving skips a profile `a` that names no account and leads to `b`: once `b` has been
/// met, meeting `a` as well changes nothing.
proof fn lemma_resolve_skips_unnamed(
    records: Map<Seq<char>, RecordView>,
    a: Seq<char>,
    b: Seq<char>,
    x: Seq<char>,
    vis: Set<Seq<char>>,
)
    requires
        records.dom().finite(),
        records.contains_key(a),
        explicit_account_id_spec(records[a].values) is None,
        map_get(records[a].values, "source_profile"@) == Some(b),
        !vis.contains(a),
        vis.contains(b),
    ensures
        resolve_account_id_spec(x, records, vis.insert(a)) == resolve_account_id_spec(x, records, vis),
    decreases records.dom().difference(vis).len(),
{
    if x == a {
        assert(records.dom().difference(vis.insert(a)) =~= records.dom().difference(vis).remove(a));
    } else if !vis.contains(x) && records.contains_key(x) {
        assert(records.dom().difference(vis.insert(x)) =~= records.dom().difference(vis).remove(x));
        assert(records.dom().difference(vis.insert(a).insert(x)) =~= records.dom().difference(vis.insert(a)).remove(x));
        assert(records.dom().difference(vis).contains(x));
        if explicit_account_id_spec(records[x].values) is None {
            if let Some(y) = map_get(records[x].values, "source_profile"@) {
                lemma_resolve_skips_unnamed(records, a, b, y, vis.insert(x));
                assert(vis.insert(a).insert(x) =~= vis.insert(x).insert(a));
            }
        }
    }
}

/// A profile that names no account shows the account of its `source_profile` (the one the
/// summary of that profile shows), and none when it has no `source_profile`, when that
/// profile does not exist, or when it is the profile itself.
pub proof fn lemma_summary_account_from_source(
    config: Option<&Ini>,
    credentials: Option<&Ini>,
    s: Seq<AwsProfileSummary>,
    i: int,
    j: int,
)
    requires
        summaries_of(s, shared_records(config, credentials)),
        0 <= i < s.len(),
        0 <= j < s.len(),
    ensures
        ({
            let v = summarised_values(config, credentials, s, i);
            !names_account(v) && !v.contains_key("source_profile"@) ==> s[i].account_id is None
        }),
        ({
            let v = summarised_values(config, credentials, s, i);
            !names_account(v) && v.contains_key("source_profile"@) && (v["source_profile"@] == s[i].name@
                || !shared_records(config, credentials).contains_key(v["source_profile"@])) ==> s[i].account_id is None
        }),
        ({
            let v = summarised_values(config, credentials, s, i);
            !names_account(v) && v.contains_key("source_profile"@) && v["source_profile"@] != s[i].name@
                && s[j].name@ == v["source_profile"@] ==> opt_view(s[i].account_id) == opt_view(s[j].account_id)
        }),
{
    lemma_summary_at(config, credentials, s, i);
    lemma_summary_at(config, credentials, s, j);
    let records = shared_records(config, credentials);
    let name = s[i].name@;
    let v = records[name].values;
    assert(!names_account(v) ==> explicit_account_id_spec(v) is None);
    if !names_account(v) && v.contains_key("source_profile"@) {
        let src = v["source_profile"@];
        let e: Set<Seq<char>> = Set::empty();
        assert(records.dom().difference(e.insert(name)) =~= records.dom().difference(e).remove(name));
        assert(resolve_account_id_spec(name, records, e) == resolve_account_id_spec(src, records, e.insert(name)));
        if src == name || !records.contains_key(src) {
            assert(resolve_account_id_spec(src, records, e.insert(name)) is None);
        }
        if src == name {
            assert(e.insert(name).contains(src));
        } else if records.contains_key(src) {
            assert(!e.insert(name).contains(src));
            assert(records.dom().difference(e.insert(src)) =~= records.dom().difference(e).remove(src));
            assert(records.dom().difference(e.insert(name).insert(src)) =~= records.dom().difference(
                e.insert(name),
            ).remove(src));
            if explicit_account_id_spec(records[src].values) is None {
                if let Some(y) = map_get(records[src].values, "source_profile"@) {
                    lemma_resolve_skips_unnamed(records, name, src, y, e.insert(src));
                    assert(e.insert(src).insert(name) =~= e.insert(name).insert(src));
                    assert(resolve_account_id_spec(src, records, e) == resolve_account_id_spec(y, records, e.insert(src)));
                    assert(resolve_account_id_spec(src, records, e.insert(name)) == resolve_account_id_spec(
                        y,
                        records,
                        e.insert(name).insert(src),
                    ));
                } else {
                    assert(resolve_account_id_spec(src, records, e) is None);
                    assert(resolve_account_id_spec(src, records, e.insert(name)) is None);
                }
            } else {
                assert(resolve_account_id_spec(src, records, e) == explicit_account_id_spec(records[src].values));
                assert(resolve_account_id_spec(src, records, e.insert(name)) == explicit_account_id_spec(
                    records[src].values,
                ));
            }
        }
    }
}


/// The profile has one of the settings of single sign-on.
pub open spec fn has_sso_setting(v: Map<Seq<char>, Seq<char>>) -> bool {
    v.contains_key("sso_account_id"@) || v.contains_key("sso_role_name"@) || v.contains_key("sso_start_url"@)
        || v.contains_key("sso_session"@)
}

/// A summary's kind of authentication: `sso` for a profile with any setting of single
/// sign-on; else `role` for one with a `role_arn`; else `process` for one with a
/// `credential_process`; else `static` for one holding static credentials; else `source`
/// for one with a `source_profile`; else `config`.
pub proof fn lemma_summary_auth_type(config: Option<&Ini>, credentials: Option<&Ini>, s: Seq<AwsProfileSummary>, i: int)
    requires
        summaries_of(s, shared_records(config, credentials)),
        0 <= i < s.len(),
    ensures
        ({
            let r = shared_records(config, credentials)[s[i].name@];
            let v = r.values;
            &&& has_sso_setting(v) ==> s[i].auth_type@ == "sso"@
            &&& !has_sso_setting(v) && v.contains_key("role_arn"@) ==> s[i].auth_type@ == "role"@
            &&& !has_sso_setting(v) && !v.contains_key("role_arn"@) && v.contains_key("credential_process"@)
                ==> s[i].auth_type@ == "process"@
            &&& !has_sso_setting(v) && !v.contains_key("role_arn"@) && !v.contains_key("credential_process"@)
                && r.has_static_credentials ==> s[i].auth_type@ == "static"@
            &&& !has_sso_setting(v) && !v.contains_key("role_arn"@) && !v.contains_key("credential_process"@)
                && !r.has_static_credentials && v.contains_key("source_profile"@) ==> s[i].auth_type@ == "source"@
            &&& !has_sso_setting(v) && !v.contains_key("role_arn"@) && !v.contains_key("credential_process"@)
                && !r.has_static_credentials && !v.contains_key("source_profile"@) ==> s[i].auth_type@ == "config"@
        }),
{
    lemma_summary_at(config, credentials, s, i);
}

} // verus!
