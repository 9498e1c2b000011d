//! The `--list` table: one header line and one line per profile, the first
//! four columns padded to the width of their widest cell.
use vstd::prelude::*;
use vstd::string::*;
use vstd::utf8::{encode_utf8, is_ascii_chars, is_ascii_chars_encode_utf8};
use crate::summary::{AwsProfileSummary, ProfileSummaryView};
use crate::text::{opt_view, join, join_spec, pad_right_spec, push_padded, strings_view};

verus! {

/// The length in bytes that `str::len` reports for a string.
pub open spec fn str_len_spec(s: Seq<char>) -> nat {
    (encode_utf8(s).len() as usize) as nat
}

/// `-` in place of a missing value.
pub open spec fn or_dash(o: Option<Seq<char>>) -> Seq<char> {
    match o {
        Some(s) => s,
        None => "-"@,
    }
}

/// The five cells of a profile's line: name, account, type, region, details.
pub open spec fn summary_columns(s: ProfileSummaryView) -> Seq<Seq<char>> {
    seq![
        s.name,
        or_dash(s.account_id),
        s.auth_type,
        or_dash(s.region),
        if s.details.len() == 0 {
            "-"@
        } else {
            join_spec(s.details, ", "@)
        },
    ]
}

/// The header cells.
pub open spec fn header_columns() -> Seq<Seq<char>> {
    seq!["PROFILE"@, "ACCOUNT"@, "TYPE"@, "REGION"@, "DETAILS"@]
}

/// The larger of two widths.
pub open spec fn max_nat(a: nat, b: nat) -> nat {
    if a >= b {
        a
    } else {
        b
    }
}

/// The width of column `c`: the byte length of its widest cell among `rows`, and at
/// least `init`.
pub open spec fn column_width(rows: Seq<Seq<Seq<char>>>, c: int, init: nat) -> nat
    decreases rows.len(),
{
    if rows.len() == 0 {
        init
    } else {
        max_nat(column_width(rows.drop_last(), c, init), str_len_spec(rows.last()[c]))
    }
}

/// The widths of the four padded columns, the header counting too.
pub open spec fn table_widths(rows: Seq<Seq<Seq<char>>>) -> Seq<nat> {
    Seq::new(4, |c: int| column_width(rows, c, str_len_spec(header_columns()[c])))
}

/// One line of the table: the first four cells padded to their widths, then the last,
/// two spaces between cells.
pub open spec fn table_row(cols: Seq<Seq<char>>, widths: Seq<nat>) -> Seq<char> {
    pad_right_spec(cols[0], widths[0]) + "  "@ + pad_right_spec(cols[1], widths[1]) + "  "@
        + pad_right_spec(cols[2], widths[2]) + "  "@ + pad_right_spec(cols[3], widths[3]) + "  "@
        + cols[4]
}

/// The text `--list` prints for these summaries.
pub open spec fn profile_table(summaries: Seq<ProfileSummaryView>) -> Seq<char> {
    if summaries.len() == 0 {
        "No AWS profiles found in ~/.aws/config or ~/.aws/credentials"@
    } else {
        let rows = summaries.map_values(|s: ProfileSummaryView| summary_columns(s));
        let widths = table_widths(rows);
        join_spec(
            seq![table_row(header_columns(), widths)] + rows.map_values(
                |r: Seq<Seq<char>>| table_row(r, widths),
            ),
            "\n"@,
        )
    }
}

/// The views of some summaries.
pub open spec fn summaries_view(s: Seq<AwsProfileSummary>) -> Seq<ProfileSummaryView> {
    s.map_values(|x: AwsProfileSummary| x@)
}

fn format_profile_row(columns: &Vec<String>, widths: &Vec<usize>) -> (r: String)
    requires
        columns@.len() == 5,
        widths@.len() == 4,
    ensures
        r@ == table_row(strings_view(columns@), widths@.map_values(|w: usize| w as nat)),
{
    let mut out = String::new();
    push_padded(&mut out, columns[0].as_str(), widths[0]);
    out.append("  ");
    push_padded(&mut out, columns[1].as_str(), widths[1]);
    out.append("  ");
    push_padded(&mut out, columns[2].as_str(), widths[2]);
    out.append("  ");
    push_padded(&mut out, columns[3].as_str(), widths[3]);
    out.append("  ");
    out.append(columns[4].as_str());
    let ghost cols = strings_view(columns@);
    let ghost ws = widths@.map_values(|w: usize| w as nat);
    assert(cols[0] == columns@[0]@ && cols[1] == columns@[1]@ && cols[2] == columns@[2]@);
    assert(cols[3] == columns@[3]@ && cols[4] == columns@[4]@);
    assert(ws[0] == widths@[0] as nat && ws[1] == widths@[1] as nat);
    assert(ws[2] == widths@[2] as nat && ws[3] == widths@[3] as nat);
    assert(out@ =~= table_row(cols, ws));
    out
}

fn or_dash_string(o: &Option<String>) -> (r: String)
    ensures
        r@ == or_dash(opt_view(*o)),
{
    match o {
        Some(s) => s.clone(),
        None => "-".to_owned(),
    }
}

fn summary_row(summary: &AwsProfileSummary) -> (r: Vec<String>)
    ensures
        strings_view(r@) == summary_columns(summary@),
{
    let details = if summary.details.len() == 0 {
        "-".to_owned()
    } else {
        join(&summary.details, ", ")
    };
    let r = vec![
        summary.name.clone(),
        or_dash_string(&summary.account_id),
        summary.auth_type.clone(),
        or_dash_string(&summary.region),
        details,
    ];
    assert(strings_view(r@) =~= summary_columns(summary@));
    r
}

/// The `--list` table of `summaries`: a header and one line per profile, the first four
/// columns padded to their widest cell; a notice when there are no profiles.
pub fn format_profile_summaries(summaries: &[AwsProfileSummary]) -> (r: String)
    ensures
        r@ == profile_table(summaries_view(summaries@)),
{
    if summaries.len() == 0 {
        return "No AWS profiles found in ~/.aws/config or ~/.aws/credentials".to_owned();
    }
    let headers: Vec<String> = vec![
        "PROFILE".to_owned(),
        "ACCOUNT".to_owned(),
        "TYPE".to_owned(),
        "REGION".to_owned(),
        "DETAILS".to_owned(),
    ];
    assert(strings_view(headers@) =~= header_columns());
    let ghost views = summaries_view(summaries@);
    let ghost all_rows = views.map_values(|s: ProfileSummaryView| summary_columns(s));
    let mut rows: Vec<Vec<String>> = Vec::new();
    let mut i: usize = 0;
    while i < summaries.len()
        invariant
            i <= summaries@.len(),
            views == summaries_view(summaries@),
            all_rows == views.map_values(|s: ProfileSummaryView| summary_columns(s)),
            rows@.len() == i,
            forall|j: int| 0 <= j < i ==> strings_view(#[trigger] rows@[j]@) == all_rows[j],
        decreases summaries.len() - i,
    {
        let row = summary_row(&summaries[i]);
        rows.push(row);
        i = i + 1;
    }
    let mut widths: Vec<usize> = Vec::new();
    let mut c: usize = 0;
    while c < 4
        invariant
            c <= 4,
            widths@.len() == c,
            rows@.len() == summaries@.len(),
            strings_view(headers@) == header_columns(),
            headers@.len() == 5,
            forall|j: int| 0 <= j < rows@.len() ==> strings_view(#[trigger] rows@[j]@) == all_rows[j],
            all_rows.len() == rows@.len(),
            forall|j: int| 0 <= j < all_rows.len() ==> (#[trigger] all_rows[j]).len() == 5,
            forall|d: int| 0 <= d < c ==> #[trigger] widths@[d] as nat == table_widths(all_rows)[d],
        decreases 4 - c,
    {
        assert(strings_view(headers@)[c as int] == headers@[c as int]@);
        let mut w: usize = headers[c].as_str().len();
        let mut k: usize = 0;
        assert(headers@[c as int]@ == header_columns()[c as int]);
        assert(all_rows.take(0) =~= Seq::<Seq<Seq<char>>>::empty());
        while k < rows.len()
            invariant
                c < 4,
                k <= rows@.len(),
                rows@.len() == all_rows.len(),
                forall|j: int| 0 <= j < rows@.len() ==> strings_view(#[trigger] rows@[j]@) == all_rows[j],
                forall|j: int| 0 <= j < all_rows.len() ==> (#[trigger] all_rows[j]).len() == 5,
                w as nat == column_width(all_rows.take(k as int), c as int, str_len_spec(header_columns()[c as int])),
            decreases rows.len() - k,
        {
            assert(all_rows.take(k + 1).drop_last() =~= all_rows.take(k as int));
            assert(strings_view(rows@[k as int]@)[c as int] == rows@[k as int]@[c as int]@);
            let cell_len = rows[k][c].as_str().len();
            if cell_len > w {
                w = cell_len;
            }
            k = k + 1;
        }
        assert(all_rows.take(rows@.len() as int) =~= all_rows);
        widths.push(w);
        c = c + 1;
    }
    let ghost ws = widths@.map_values(|w: usize| w as nat);
    assert(ws =~= table_widths(all_rows));
    let mut lines: Vec<String> = Vec::new();
    lines.push(format_profile_row(&headers, &widths));
    let ghost all_lines = seq![table_row(header_columns(), ws)] + all_rows.map_values(
        |r: Seq<Seq<char>>| table_row(r, ws),
    );
    let mut j: usize = 0;
    while j < rows.len()
        invariant
            j <= rows@.len(),
            rows@.len() == all_rows.len(),
            widths@.len() == 4,
            ws == widths@.map_values(|w: usize| w as nat),
            all_lines == seq![table_row(header_columns(), ws)] + all_rows.map_values(
                |r: Seq<Seq<char>>| table_row(r, ws),
            ),
            forall|q: int| 0 <= q < rows@.len() ==> strings_view(#[trigger] rows@[q]@) == all_rows[q],
            forall|q: int| 0 <= q < all_rows.len() ==> (#[trigger] all_rows[q]).len() == 5,
            strings_view(lines@) == all_lines.take(j + 1),
        decreases rows.len() - j,
    {
        let line = format_profile_row(&rows[j], &widths);
        let ghost before = lines@;
        lines.push(line);
        assert(strings_view(lines@) =~= strings_view(before).push(line@));
        assert(all_lines[j + 1] == table_row(all_rows[j as int], ws));
        assert(all_lines.take(j + 2) =~= all_lines.take(j + 1).push(all_lines[j + 1]));
        j = j + 1;
    }
    assert(all_lines.take(rows@.len() + 1int) =~= all_lines);
    join(&lines, "\n")
}

/// A column is as wide as its widest cell: at least `init` and the byte length of every
/// cell, and equal to one of them.
pub proof fn lemma_column_width(rows: Seq<Seq<Seq<char>>>, c: int, init: nat)
    ensures
        init <= column_width(rows, c, init),
        forall|r: int| 0 <= r < rows.len() ==> str_len_spec(#[trigger] rows[r][c]) <= column_width(rows, c, init),
        column_width(rows, c, init) == init || exists|r: int|
            0 <= r < rows.len() && column_width(rows, c, init) == str_len_spec(#[trigger] rows[r][c]),
    decreases rows.len(),
{
    if rows.len() > 0 {
        let t = rows.drop_last();
        lemma_column_width(t, c, init);
        assert forall|r: int| 0 <= r < rows.len() implies str_len_spec(#[trigger] rows[r][c]) <= column_width(
            rows,
            c,
            init,
        ) by {
            if r < rows.len() - 1 {
                assert(rows[r] == t[r]);
            }
        }
        if column_width(rows, c, init) != init && column_width(rows, c, init) != str_len_spec(rows.last()[c]) {
            let r = choose|r: int| 0 <= r < t.len() && column_width(t, c, init) == str_len_spec(#[trigger] t[r][c]);
            assert(rows[r] == t[r]);
        }
    }
}

/// Columns line up: in the line of every profile, each of the first four cells that is
/// plain ASCII takes exactly its column's width once padded.
pub proof fn lemma_table_aligned(summaries: Seq<ProfileSummaryView>, r: int, c: int)
    requires
        0 <= r < summaries.len(),
        0 <= c < 4,
        is_ascii_chars(summary_columns(summaries[r])[c]),
        summary_columns(summaries[r])[c].len() <= usize::MAX,
    ensures
        ({
            let rows = summaries.map_values(|s: ProfileSummaryView| summary_columns(s));
            pad_right_spec(rows[r][c], table_widths(rows)[c]).len() == table_widths(rows)[c]
        }),
{
    let rows = summaries.map_values(|s: ProfileSummaryView| summary_columns(s));
    let cell = rows[r][c];
    is_ascii_chars_encode_utf8(cell);
    lemma_column_width(rows, c, str_len_spec(header_columns()[c]));
    assert(str_len_spec(cell) == cell.len());
}

} // verus!
