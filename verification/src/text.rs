//! Character-level helpers on `str`: equality, prefixes, Unicode white space
//! and trimming, field splitting, padding and joining, and the byte order
//! in which `String`s sort.
use vstd::prelude::*;
use vstd::string::*;
use vstd::utf8::*;

verus! {

// ---------------------------------------------------------------------------
// Equality and prefixes
// ---------------------------------------------------------------------------

/// Whether two string slices hold the same characters.
pub fn str_eq(a: &str, b: &str) -> (r: bool)
    ensures
        r == (a@ == b@),
{
    let x: String = a.to_owned();
    let y: String = b.to_owned();
    x == y
}

/// `s` begins with `p`.
pub open spec fn has_prefix(s: Seq<char>, p: Seq<char>) -> bool {
    p.len() <= s.len() && s.subrange(0, p.len() as int) == p
}

/// What `str::strip_prefix` gives: the rest of `s` after `p`, when `s` begins with `p`.
pub open spec fn strip_prefix_spec(s: Seq<char>, p: Seq<char>) -> Option<Seq<char>> {
    if has_prefix(s, p) {
        Some(s.subrange(p.len() as int, s.len() as int))
    } else {
        None
    }
}

/// The rest of `s` after the prefix `p`, or `None` when `s` does not begin with `p`.
pub fn strip_prefix<'a>(s: &'a str, p: &str) -> (r: Option<&'a str>)
    ensures
        r matches Some(t) ==> strip_prefix_spec(s@, p@) == Some(t@),
        r is None ==> strip_prefix_spec(s@, p@) is None,
{
    let n = s.unicode_len();
    let m = p.unicode_len();
    if m > n {
        return None;
    }
    let mut i: usize = 0;
    while i < m
        invariant
            n == s@.len(),
            m == p@.len(),
            m <= n,
            i <= m,
            forall|j: int| 0 <= j < i ==> s@[j] == p@[j],
        decreases m - i,
    {
        if s.get_char(i) != p.get_char(i) {
            assert(s@.subrange(0, m as int)[i as int] != p@[i as int]);
            return None;
        }
        i = i + 1;
    }
    assert(s@.subrange(0, m as int) =~= p@);
    Some(s.substring_char(m, n))
}

// ---------------------------------------------------------------------------
// White space and trimming
// ---------------------------------------------------------------------------

/// The characters of the Unicode property `White_Space`, which `char::is_whitespace`
/// and `str::trim` go by.
pub open spec fn is_white_space(c: char) -> bool {
    ||| ('\u{9}' <= c && c <= '\u{d}')
    ||| c == ' '
    ||| c == '\u{85}'
    ||| c == '\u{a0}'
    ||| c == '\u{1680}'
    ||| ('\u{2000}' <= c && c <= '\u{200a}')
    ||| c == '\u{2028}'
    ||| c == '\u{2029}'
    ||| c == '\u{202f}'
    ||| c == '\u{205f}'
    ||| c == '\u{3000}'
}

/// Whether `c` is Unicode white space.
pub fn white_space(c: char) -> (r: bool)
    ensures
        r == is_white_space(c),
{
    ('\u{9}' <= c && c <= '\u{d}') || c == ' ' || c == '\u{85}' || c == '\u{a0}' || c
        == '\u{1680}' || ('\u{2000}' <= c && c <= '\u{200a}') || c == '\u{2028}' || c
        == '\u{2029}' || c == '\u{202f}' || c == '\u{205f}' || c == '\u{3000}'
}

/// First position at or after `i` that does not hold white space.
pub open spec fn skip_white_space(s: Seq<char>, i: int) -> int
    decreases s.len() - i,
{
    if 0 <= i < s.len() && is_white_space(s[i]) {
        skip_white_space(s, i + 1)
    } else {
        i
    }
}

/// Going back from `j`, but not below `lo`, the end of `s` once trailing white space is cut.
pub open spec fn cut_white_space(s: Seq<char>, j: int, lo: int) -> int
    decreases j - lo,
{
    if lo < j && j <= s.len() && is_white_space(s[j - 1]) {
        cut_white_space(s, j - 1, lo)
    } else {
        j
    }
}

/// `s` with leading and then trailing white space removed, as `str::trim` gives it.
pub open spec fn trim_spec(s: Seq<char>) -> Seq<char> {
    let a = skip_white_space(s, 0);
    let b = cut_white_space(s, s.len() as int, a);
    s.subrange(a, b)
}

/// `s` without leading and trailing white space (`str::trim`).
pub fn trim(s: &str) -> (r: &str)
    ensures
        r@ == trim_spec(s@),
{
    let n = s.unicode_len();
    let mut a: usize = 0;
    while a < n && white_space(s.get_char(a))
        invariant
            n == s@.len(),
            a <= n,
            skip_white_space(s@, 0) == skip_white_space(s@, a as int),
        decreases n - a,
    {
        a = a + 1;
    }
    let mut b: usize = n;
    while b > a && white_space(s.get_char(b - 1))
        invariant
            n == s@.len(),
            a <= b <= n,
            skip_white_space(s@, 0) == a,
            cut_white_space(s@, n as int, a as int) == cut_white_space(s@, b as int, a as int),
        decreases b,
    {
        b = b - 1;
    }
    s.substring_char(a, b)
}

// ---------------------------------------------------------------------------
// Splitting on a separator
// ---------------------------------------------------------------------------

/// Position of the first `sep` at or after `i`, or the length of `s` when there is none.
pub open spec fn next_sep(s: Seq<char>, sep: char, i: int) -> int
    decreases s.len() - i,
{
    if i < 0 || i >= s.len() {
        s.len() as int
    } else if s[i] == sep {
        i
    } else {
        next_sep(s, sep, i + 1)
    }
}

/// Field `n` (counting from 0) of the part of `s` that starts at `from`, fields being
/// separated by `sep`: what `split(sep).nth(n)` yields.
pub open spec fn split_nth_from(s: Seq<char>, sep: char, n: nat, from: int) -> Option<Seq<char>>
    decreases s.len() - from, n,
{
    if from < 0 || from > s.len() {
        None
    } else {
        let e = next_sep(s, sep, from);
        if n == 0 {
            Some(s.subrange(from, e))
        } else if e >= s.len() || e < from {
            None
        } else {
            split_nth_from(s, sep, (n - 1) as nat, e + 1)
        }
    }
}

/// Field `n` (counting from 0) of `s` split on `sep`: `s.split(sep).nth(n)`.
pub open spec fn split_nth(s: Seq<char>, sep: char, n: nat) -> Option<Seq<char>> {
    split_nth_from(s, sep, n, 0)
}

/// Field `n` of `s` split on `sep`, as `s.split(sep).nth(n)` gives it.
pub fn split_nth_field<'a>(s: &'a str, sep: char, n: usize) -> (r: Option<&'a str>)
    ensures
        r matches Some(t) ==> split_nth(s@, sep, n as nat) == Some(t@),
        r is None ==> split_nth(s@, sep, n as nat) is None,
{
    let len = s.unicode_len();
    let mut from: usize = 0;
    let mut k: usize = n;
    loop
        invariant
            len == s@.len(),
            from <= len,
            split_nth(s@, sep, n as nat) == split_nth_from(s@, sep, k as nat, from as int),
        decreases len - from, k,
    {
        let mut e: usize = from;
        while e < len && s.get_char(e) != sep
            invariant
                len == s@.len(),
                from <= e <= len,
                next_sep(s@, sep, from as int) == next_sep(s@, sep, e as int),
            decreases len - e,
        {
            e = e + 1;
        }
        if k == 0 {
            return Some(s.substring_char(from, e));
        }
        if e >= len {
            return None;
        }
        from = e + 1;
        k = k - 1;
    }
}

// ---------------------------------------------------------------------------
// Building strings
// ---------------------------------------------------------------------------

/// `n` spaces.
pub open spec fn spaces(n: nat) -> Seq<char> {
    Seq::new(n, |i: int| ' ')
}

/// `s` padded on the right with spaces to `width` characters, as `format!("{:<width$}", s)`
/// pads a string: by its count of characters, never cutting it.
pub open spec fn pad_right_spec(s: Seq<char>, width: nat) -> Seq<char> {
    if s.len() < width {
        s + spaces((width - s.len()) as nat)
    } else {
        s
    }
}

/// Appends `s` padded on the right with spaces to `width` characters.
pub fn push_padded(out: &mut String, s: &str, width: usize)
    ensures
        final(out)@ == old(out)@ + pad_right_spec(s@, width as nat),
{
    out.append(s);
    let n = s.unicode_len();
    let mut i: usize = n;
    proof {
        reveal_strlit(" ");
    }
    while i < width
        invariant
            n == s@.len(),
            n <= i <= width || (i == n && n >= width),
            out@ == old(out)@ + s@ + spaces((i - n) as nat),
        decreases width - i,
    {
        proof {
            reveal_strlit(" ");
        }
        out.append(" ");
        assert(spaces((i + 1 - n) as nat) =~= spaces((i - n) as nat) + seq![' ']);
        i = i + 1;
    }
    assert(out@ =~= old(out)@ + pad_right_spec(s@, width as nat));
}

/// The elements of `parts` with `sep` between each two of them.
pub open spec fn join_spec(parts: Seq<Seq<char>>, sep: Seq<char>) -> Seq<char>
    decreases parts.len(),
{
    if parts.len() == 0 {
        Seq::empty()
    } else if parts.len() == 1 {
        parts[0]
    } else {
        join_spec(parts.drop_last(), sep) + sep + parts.last()
    }
}

/// View of an optional string.
pub open spec fn opt_view(o: Option<String>) -> Option<Seq<char>> {
    match o {
        Some(s) => Some(s@),
        None => None,
    }
}

/// The views of a vector of strings.
pub open spec fn strings_view(v: Seq<String>) -> Seq<Seq<char>> {
    v.map_values(|s: String| s@)
}

/// `parts` joined with `sep`, as `[String]::join` gives it.
pub fn join(parts: &Vec<String>, sep: &str) -> (r: String)
    ensures
        r@ == join_spec(strings_view(parts@), sep@),
{
    let mut out = String::new();
    let ghost views = strings_view(parts@);
    let mut i: usize = 0;
    while i < parts.len()
        invariant
            i <= parts.len(),
            views == strings_view(parts@),
            views.len() == parts@.len(),
            out@ == join_spec(views.take(i as int), sep@),
        decreases parts.len() - i,
    {
        assert(views.take(i + 1).drop_last() =~= views.take(i as int));
        if i > 0 {
            out.append(sep);
        } else {
            assert(views.take(1) =~= seq![views[0]]);
        }
        out.append(parts[i].as_str());
        i = i + 1;
    }
    assert(views.take(parts.len() as int) =~= views);
    out
}

// ---------------------------------------------------------------------------
// Byte order of strings
// ---------------------------------------------------------------------------

/// Lexicographic order of byte sequences from position `i` on.
pub open spec fn bytes_lt_from(a: Seq<u8>, b: Seq<u8>, i: int) -> bool
    decreases a.len() - i,
{
    if i < 0 {
        false
    } else if i >= a.len() {
        i < b.len()
    } else if i >= b.len() {
        false
    } else if a[i] < b[i] {
        true
    } else if a[i] > b[i] {
        false
    } else {
        bytes_lt_from(a, b, i + 1)
    }
}

/// The order of `Ord` on strings: lexicographic on their UTF-8 bytes.
pub open spec fn name_lt(a: Seq<char>, b: Seq<char>) -> bool {
    bytes_lt_from(encode_utf8(a), encode_utf8(b), 0)
}

proof fn lemma_bytes_lt_from_irreflexive(a: Seq<u8>, i: int)
    requires
        0 <= i,
    ensures
        !bytes_lt_from(a, a, i),
    decreases a.len() - i,
{
    if i < a.len() {
        lemma_bytes_lt_from_irreflexive(a, i + 1);
    }
}

proof fn lemma_bytes_lt_from_transitive(a: Seq<u8>, b: Seq<u8>, c: Seq<u8>, i: int)
    requires
        0 <= i,
        bytes_lt_from(a, b, i),
        bytes_lt_from(b, c, i),
    ensures
        bytes_lt_from(a, c, i),
    decreases a.len() - i,
{
    if i < a.len() && i < b.len() && i < c.len() && a[i] == b[i] && b[i] == c[i] {
        lemma_bytes_lt_from_transitive(a, b, c, i + 1);
    }
}

proof fn lemma_bytes_lt_from_total(a: Seq<u8>, b: Seq<u8>, i: int)
    requires
        0 <= i <= a.len(),
        i <= b.len(),
        a.subrange(0, i) == b.subrange(0, i),
        !bytes_lt_from(a, b, i),
        !bytes_lt_from(b, a, i),
    ensures
        a == b,
    decreases a.len() - i,
{
    if i < a.len() {
        assert(a.subrange(0, i + 1) =~= a.subrange(0, i).push(a[i]));
        assert(b.subrange(0, i + 1) =~= b.subrange(0, i).push(b[i]));
        lemma_bytes_lt_from_total(a, b, i + 1);
    } else {
        assert(a =~= a.subrange(0, i));
        assert(b =~= b.subrange(0, i));
    }
}

/// The order of names is a strict total order.
pub proof fn lemma_name_order(a: Seq<char>, b: Seq<char>, c: Seq<char>)
    ensures
        !name_lt(a, a),
        name_lt(a, b) && name_lt(b, c) ==> name_lt(a, c),
        a != b ==> name_lt(a, b) || name_lt(b, a),
        name_lt(a, b) ==> !name_lt(b, a),
{
    lemma_bytes_lt_from_irreflexive(encode_utf8(a), 0);
    if name_lt(a, b) && name_lt(b, c) {
        lemma_bytes_lt_from_transitive(encode_utf8(a), encode_utf8(b), encode_utf8(c), 0);
    }
    if name_lt(a, b) && name_lt(b, a) {
        lemma_bytes_lt_from_transitive(encode_utf8(a), encode_utf8(b), encode_utf8(a), 0);
    }
    if a != b && !name_lt(a, b) && !name_lt(b, a) {
        assert(encode_utf8(a).subrange(0, 0) =~= encode_utf8(b).subrange(0, 0));
        lemma_bytes_lt_from_total(encode_utf8(a), encode_utf8(b), 0);
        encode_utf8_decode_utf8(a);
        encode_utf8_decode_utf8(b);
    }
}

/// Compares two strings as `Ord` on `str` does: negative, zero or positive when `a` sorts
/// before, with, or after `b`.
pub fn compare_names(a: &str, b: &str) -> (r: i8)
    ensures
        r < 0 <==> name_lt(a@, b@),
        r == 0 <==> a@ == b@,
        r > 0 <==> name_lt(b@, a@),
{
    let x: &[u8] = a.as_bytes();
    let y: &[u8] = b.as_bytes();
    let ghost ea = encode_utf8(a@);
    let ghost eb = encode_utf8(b@);
    assert(x@ == ea && y@ == eb);
    proof {
        lemma_name_order(a@, b@, a@);
        lemma_name_order(b@, a@, b@);
    }
    let mut i: usize = 0;
    while i < x.len() && i < y.len()
        invariant
            x@ == ea,
            y@ == eb,
            i <= x@.len(),
            i <= y@.len(),
            ea.subrange(0, i as int) == eb.subrange(0, i as int),
            bytes_lt_from(ea, eb, 0) == bytes_lt_from(ea, eb, i as int),
            bytes_lt_from(eb, ea, 0) == bytes_lt_from(eb, ea, i as int),
            name_lt(a@, b@) ==> !name_lt(b@, a@),
            !name_lt(a@, a@),
            name_lt(a@, b@) == bytes_lt_from(ea, eb, 0),
            name_lt(b@, a@) == bytes_lt_from(eb, ea, 0),
        decreases x.len() - i,
    {
        if x[i] < y[i] {
            return -1;
        }
        if x[i] > y[i] {
            return 1;
        }
        assert(ea.subrange(0, i + 1) =~= ea.subrange(0, i as int).push(ea[i as int]));
        assert(eb.subrange(0, i + 1) =~= eb.subrange(0, i as int).push(eb[i as int]));
        i = i + 1;
    }
    if x.len() < y.len() {
        -1
    } else if y.len() < x.len() {
        1
    } else {
        proof {
            assert(ea =~= ea.subrange(0, i as int));
            assert(eb =~= eb.subrange(0, i as int));
            encode_utf8_decode_utf8(a@);
            encode_utf8_decode_utf8(b@);
        }
        0
    }
}

} // verus!
