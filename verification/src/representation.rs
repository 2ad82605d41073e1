//! Reading the repository-representation manifests: line splitting, trimming,
//! capability fields, represented crates and workspace members, all over the
//! manifests' text as characters.
use vstd::prelude::*;
use vstd::string::{StrSliceExecFns, StringExecFns};
use crate::text::starts_with_at;

verus! {

// ---------------------------------------------------------------------------
// Characters and substrings
// ---------------------------------------------------------------------------

/// The Unicode `White_Space` characters, which `char::is_whitespace` and
/// `str::trim` recognise.
pub open spec fn is_space(c: char) -> bool {
    ||| c == '\t' || c == '\n' || c == '\x0B' || c == '\x0C' || c == '\r' || c == ' '
    ||| c == '\u{85}' || c == '\u{A0}' || c == '\u{1680}'
    ||| ('\u{2000}' <= c && c <= '\u{200A}')
    ||| c == '\u{2028}' || c == '\u{2029}' || c == '\u{202F}' || c == '\u{205F}' || c == '\u{3000}'
}

pub(crate) fn is_space_char(c: char) -> (b: bool)
    ensures
        b == is_space(c),
{
    c == '\t' || c == '\n' || c == '\x0B' || c == '\x0C' || c == '\r' || c == ' ' || c == '\u{85}'
        || c == '\u{A0}' || c == '\u{1680}' || ('\u{2000}' <= c && c <= '\u{200A}') || c == '\u{2028}'
        || c == '\u{2029}' || c == '\u{202F}' || c == '\u{205F}' || c == '\u{3000}'
}

/// `s` without leading white space.
pub open spec fn trim_start(s: Seq<char>) -> Seq<char>
    decreases s.len(),
{
    if s.len() > 0 && is_space(s[0]) { trim_start(s.drop_first()) } else { s }
}

/// `s` without trailing white space.
pub open spec fn trim_end(s: Seq<char>) -> Seq<char>
    decreases s.len(),
{
    if s.len() > 0 && is_space(s.last()) { trim_end(s.drop_last()) } else { s }
}

/// `s` without leading and trailing white space (`str::trim`).
pub open spec fn trim(s: Seq<char>) -> Seq<char> {
    trim_end(trim_start(s))
}

/// `s` without leading and trailing copies of `c` (`str::trim_matches` with a character).
pub open spec fn trim_char(s: Seq<char>, c: char) -> Seq<char> {
    trim_char_end(trim_char_start(s, c), c)
}

pub open spec fn trim_char_start(s: Seq<char>, c: char) -> Seq<char>
    decreases s.len(),
{
    if s.len() > 0 && s[0] == c { trim_char_start(s.drop_first(), c) } else { s }
}

pub open spec fn trim_char_end(s: Seq<char>, c: char) -> Seq<char>
    decreases s.len(),
{
    if s.len() > 0 && s.last() == c { trim_char_end(s.drop_last(), c) } else { s }
}

/// `s` with `prefix` removed, if it starts with it (`str::strip_prefix`).
pub open spec fn strip_prefix(s: Seq<char>, prefix: Seq<char>) -> Option<Seq<char>> {
    if prefix.len() <= s.len() && s.subrange(0, prefix.len() as int) == prefix {
        Some(s.subrange(prefix.len() as int, s.len() as int))
    } else {
        None
    }
}

/// The first position at or after `i` where `pat` occurs in `s`.
pub open spec fn find_from(s: Seq<char>, pat: Seq<char>, i: int) -> Option<int>
    decreases s.len() + 1 - i,
{
    if i < 0 || i + pat.len() > s.len() {
        None
    } else if s.subrange(i, i + pat.len()) == pat {
        Some(i)
    } else {
        find_from(s, pat, i + 1)
    }
}

/// Whether `pat` occurs in `s` (`str::contains`).
pub open spec fn occurs(s: Seq<char>, pat: Seq<char>) -> bool {
    find_from(s, pat, 0) is Some
}

/// Non-overlapping occurrences of the nonempty `pat` in `s` from `i` on,
/// scanned left to right (`str::matches(..).count()`).
pub open spec fn count_from(s: Seq<char>, pat: Seq<char>, i: int) -> nat
    decreases s.len() + 1 - i,
{
    if pat.len() == 0 || i < 0 || i > s.len() {
        0
    } else {
        match find_from(s, pat, i) {
            Some(f) => if f >= i && f + pat.len() <= s.len() { 1 + count_from(s, pat, f + pat.len()) } else { 0 },
            None => 0,
        }
    }
}

pub(crate) proof fn lemma_find_from_bounds(s: Seq<char>, pat: Seq<char>, i: int)
    ensures
        find_from(s, pat, i) matches Some(f) ==> i <= f && f + pat.len() <= s.len()
            && s.subrange(f, f + pat.len()) == pat,
    decreases s.len() + 1 - i,
{
    if i < 0 || i + pat.len() > s.len() {
    } else if s.subrange(i, i + pat.len()) == pat {
    } else {
        lemma_find_from_bounds(s, pat, i + 1);
    }
}

/// The first occurrence of `pat` in `s` at or after `from`.
pub(crate) fn find_str(s: &str, n: usize, pat: &str, m: usize, from: usize) -> (r: Option<usize>)
    requires
        n == s@.len(),
        m == pat@.len(),
        from <= n,
    ensures
        r matches Some(f) ==> find_from(s@, pat@, from as int) == Some(f as int),
        r is None ==> find_from(s@, pat@, from as int) is None,
{
    if m == 0 {
        proof {
            assert(s@.subrange(from as int, from as int) =~= pat@);
        }
        return Some(from);
    }
    let mut i = from;
    while i <= n && m <= n - i
        invariant
            n == s@.len(),
            m == pat@.len(),
            m > 0,
            from <= i <= n,
            find_from(s@, pat@, from as int) == find_from(s@, pat@, i as int),
        decreases n - i,
    {
        if starts_with_at(s, n, i, pat, m) {
            return Some(i);
        }
        i = i + 1;
    }
    None
}

/// Whether `pat` occurs in `s`.
pub fn contains_text(s: &str, pat: &str) -> (b: bool)
    ensures
        b == occurs(s@, pat@),
{
    let n = s.unicode_len();
    let m = pat.unicode_len();
    find_str(s, n, pat, m, 0).is_some()
}

/// How many times `pat` occurs in `s`, without overlaps, as `str::matches`
/// counts them; the empty pattern matches at each of the `len + 1` character
/// boundaries.
pub fn count_occurrences(s: &str, pat: &str) -> (c: usize)
    requires
        pat@.len() == 0 ==> s@.len() < usize::MAX,
    ensures
        c == if pat@.len() == 0 { s@.len() + 1 } else { count_from(s@, pat@, 0) },
{
    let n = s.unicode_len();
    let m = pat.unicode_len();
    if m == 0 {
        return n + 1;
    }
    let mut c: usize = 0;
    let mut i: usize = 0;
    while i <= n
        invariant
            n == s@.len(),
            m == pat@.len(),
            m > 0,
            i <= n + 1,
            c <= i,
            i <= n ==> c + count_from(s@, pat@, i as int) == count_from(s@, pat@, 0),
            i > n ==> c == count_from(s@, pat@, 0),
        decreases n + 1 - i,
    {
        match find_str(s, n, pat, m, i) {
            Some(f) => {
                proof {
                    lemma_find_from_bounds(s@, pat@, i as int);
                }
                c = c + 1;
                if f + m > n {
                    return c;
                }
                i = f + m;
            },
            None => {
                return c;
            },
        }
    }
    c
}

fn trim_bounds(s: &str, n: usize) -> (r: (usize, usize))
    requires
        n == s@.len(),
    ensures
        r.0 <= r.1 <= n,
        s@.subrange(r.0 as int, r.1 as int) == trim(s@),
{
    assert(s@.subrange(0, n as int) =~= s@);
    let mut a: usize = 0;
    while a < n && is_space_char(s.get_char(a))
        invariant
            n == s@.len(),
            a <= n,
            trim_start(s@) == trim_start(s@.subrange(a as int, n as int)),
        decreases n - a,
    {
        proof {
            let t = s@.subrange(a as int, n as int);
            assert(t.drop_first() =~= s@.subrange(a + 1, n as int));
        }
        a = a + 1;
    }
    proof {
        let t = s@.subrange(a as int, n as int);
        assert(trim_start(t) == t);
    }
    let mut b: usize = n;
    while b > a && is_space_char(s.get_char(b - 1))
        invariant
            n == s@.len(),
            a <= b <= n,
            trim(s@) == trim_end(s@.subrange(a as int, b as int)),
        decreases b - a,
    {
        proof {
            let t = s@.subrange(a as int, b as int);
            assert(t.drop_last() =~= s@.subrange(a as int, b - 1));
        }
        b = b - 1;
    }
    (a, b)
}

/// `s` without leading and trailing white space.
pub fn trim_text(s: &str) -> (t: &str)
    ensures
        t@ == trim(s@),
{
    let n = s.unicode_len();
    let (a, b) = trim_bounds(s, n);
    s.substring_char(a, b)
}

fn trim_char_text(s: &str, c: char) -> (t: &str)
    ensures
        t@ == trim_char(s@, c),
{
    let n = s.unicode_len();
    assert(s@.subrange(0, n as int) =~= s@);
    let mut a: usize = 0;
    while a < n && s.get_char(a) == c
        invariant
            n == s@.len(),
            a <= n,
            trim_char_start(s@, c) == trim_char_start(s@.subrange(a as int, n as int), c),
        decreases n - a,
    {
        proof {
            let t = s@.subrange(a as int, n as int);
            assert(t.drop_first() =~= s@.subrange(a + 1, n as int));
        }
        a = a + 1;
    }
    proof {
        let t = s@.subrange(a as int, n as int);
        assert(trim_char_start(t, c) == t);
    }
    let mut b: usize = n;
    while b > a && s.get_char(b - 1) == c
        invariant
            n == s@.len(),
            a <= b <= n,
            trim_char(s@, c) == trim_char_end(s@.subrange(a as int, b as int), c),
        decreases b - a,
    {
        proof {
            let t = s@.subrange(a as int, b as int);
            assert(t.drop_last() =~= s@.subrange(a as int, b - 1));
        }
        b = b - 1;
    }
    s.substring_char(a, b)
}

// ---------------------------------------------------------------------------
// Lines
// ---------------------------------------------------------------------------

/// End of the line that starts at `i`: the next `\n`, or the end of `s`.
pub open spec fn line_end(s: Seq<char>, i: int) -> int
    decreases s.len() - i,
{
    if i < 0 || i >= s.len() {
        s.len() as int
    } else if s[i] == '\n' {
        i
    } else {
        line_end(s, i + 1)
    }
}

/// The line starting at `i`, without its `\n` and without a `\r` before it.
pub open spec fn line_at(s: Seq<char>, i: int) -> Seq<char> {
    let e = line_end(s, i);
    let raw = s.subrange(i, e);
    if e < s.len() && raw.len() > 0 && raw.last() == '\r' { raw.drop_last() } else { raw }
}

/// The lines of `s` from position `i` on, as `str::lines` yields them.
pub open spec fn lines_from(s: Seq<char>, i: int) -> Seq<Seq<char>>
    decreases s.len() + 1 - i,
{
    if i < 0 || i >= s.len() {
        Seq::empty()
    } else {
        let e = line_end(s, i);
        if e < i || e > s.len() {
            Seq::empty()
        } else {
            seq![line_at(s, i)] + lines_from(s, e + 1)
        }
    }
}

/// The lines of `s` (`str::lines`).
pub open spec fn lines(s: Seq<char>) -> Seq<Seq<char>> {
    lines_from(s, 0)
}

proof fn lemma_line_end_bounds(s: Seq<char>, i: int)
    requires
        0 <= i <= s.len(),
    ensures
        i <= line_end(s, i) <= s.len(),
        line_end(s, i) < s.len() ==> s[line_end(s, i)] == '\n',
        forall|k: int| i <= k < line_end(s, i) ==> s[k] != '\n',
    decreases s.len() - i,
{
    if i >= s.len() {
    } else if s[i] == '\n' {
    } else {
        lemma_line_end_bounds(s, i + 1);
    }
}

/// The line of `s` starting at `i`, and where it ends.
pub(crate) fn next_line(s: &str, n: usize, i: usize) -> (r: (&str, usize))
    requires
        n == s@.len(),
        i < n,
    ensures
        r.0@ == line_at(s@, i as int),
        r.1 == line_end(s@, i as int),
        i <= r.1 <= n,
        lines_from(s@, i as int) == seq![r.0@] + lines_from(s@, r.1 + 1),
{
    proof {
        lemma_line_end_bounds(s@, i as int);
    }
    let mut e = i;
    while e < n && s.get_char(e) != '\n'
        invariant
            n == s@.len(),
            i <= e <= n,
            line_end(s@, i as int) == line_end(s@, e as int),
        decreases n - e,
    {
        e = e + 1;
    }
    let end = if e < n && e > i && s.get_char(e - 1) == '\r' { e - 1 } else { e };
    proof {
        let raw = s@.subrange(i as int, e as int);
        if e < n && e > i && s@[e - 1] == '\r' {
            assert(raw.drop_last() =~= s@.subrange(i as int, end as int));
        }
    }
    (s.substring_char(i, end), e)
}

// ---------------------------------------------------------------------------
// Manifest queries
// ---------------------------------------------------------------------------

/// The value of a `crate: <name>` line, trimmed.
pub open spec fn crate_of(line: Seq<char>) -> Option<Seq<char>> {
    match strip_prefix(trim(line), "crate: "@) {
        Some(v) => Some(trim(v)),
        None => None,
    }
}

/// The crate names that the `crate:` lines of `ls` declare, in order.
pub open spec fn crate_values(ls: Seq<Seq<char>>) -> Seq<Seq<char>>
    decreases ls.len(),
{
    if ls.len() == 0 {
        Seq::empty()
    } else {
        let rest = crate_values(ls.drop_first());
        match crate_of(ls[0]) {
            Some(v) => seq![v] + rest,
            None => rest,
        }
    }
}

fn strip_prefix_text<'a>(s: &'a str, prefix: &str) -> (r: Option<&'a str>)
    ensures
        match strip_prefix(s@, prefix@) {
            Some(v) => r matches Some(t) && t@ == v,
            None => r is None,
        },
{
    let n = s.unicode_len();
    let m = prefix.unicode_len();
    if m <= n && starts_with_at(s, n, 0, prefix, m) {
        Some(s.substring_char(m, n))
    } else {
        None
    }
}

/// Some string of `v` reads `c`.
pub open spec fn in_views(v: Seq<String>, c: Seq<char>) -> bool {
    exists|j: int| 0 <= j < v.len() && (#[trigger] v[j])@ == c
}

fn views_contain(v: &Vec<String>, t: &String) -> (b: bool)
    ensures
        b == in_views(v@, t@),
{
    let mut j: usize = 0;
    while j < v.len()
        invariant
            j <= v@.len(),
            forall|k: int| 0 <= k < j ==> (#[trigger] v@[k])@ != t@,
        decreases v@.len() - j,
    {
        if v[j] == *t {
            return true;
        }
        j = j + 1;
    }
    false
}

/// The crates that the `crate:` lines of a manifest name, each once, in the
/// order of their first mention.
#[verifier::spinoff_prover]
pub fn represented_crates(text: &str) -> (out: Vec<String>)
    ensures
        forall|i: int, j: int| 0 <= i < j < out@.len() ==> (#[trigger] out@[i])@ != (#[trigger] out@[j])@,
        forall|c: Seq<char>| in_views(out@, c) <==> crate_values(lines(text@)).contains(c),
{
    let n = text.unicode_len();
    let mut out: Vec<String> = Vec::new();
    let mut i: usize = 0;
    while i < n
        invariant
            n == text@.len(),
            i <= n,
            forall|a: int, b: int| 0 <= a < b < out@.len() ==> (#[trigger] out@[a])@ != (#[trigger] out@[b])@,
            forall|c: Seq<char>| (in_views(out@, c) || crate_values(lines_from(text@, i as int)).contains(c))
                <==> crate_values(lines(text@)).contains(c),
        decreases n - i,
    {
        let ghost ls = lines_from(text@, i as int);
        let ghost old_out = out@;
        assert(forall|c: Seq<char>| #![trigger in_views(old_out, c)] (in_views(old_out, c) || crate_values(ls).contains(c))
            <==> crate_values(lines(text@)).contains(c));
        let (line, e) = next_line(text, n, i);
        let next = if e < n { e + 1 } else { n };
        let ghost rest_lines = lines_from(text@, next as int);
        proof {
            assert(lines_from(text@, e + 1) == rest_lines);
            assert(ls[0] == line@);
            assert(ls.drop_first() =~= rest_lines);
        }
        let t = trim_text(line);
        match strip_prefix_text(t, "crate: ") {
            Some(v) => {
                let name = trim_text(v).to_string();
                if !views_contain(&out, &name) {
                    out.push(name);
                    proof {
                        assert forall|c: Seq<char>| in_views(out@, c) <==> (in_views(old_out, c) || c == name@) by {
                            if in_views(out@, c) {
                                let j = choose|j: int| 0 <= j < out@.len() && (#[trigger] out@[j])@ == c;
                                if j < old_out.len() {
                                    assert(old_out[j] == out@[j]);
                                }
                            }
                            if in_views(old_out, c) {
                                let j = choose|j: int| 0 <= j < old_out.len() && (#[trigger] old_out[j])@ == c;
                                assert(out@[j] == old_out[j]);
                            }
                            if c == name@ {
                                assert(out@[old_out.len() as int]@ == c);
                            }
                        }
                    }
                }
                proof {
                    assert(crate_of(line@) == Some(name@));
                    let rest = crate_values(rest_lines);
                    assert(crate_values(ls) == seq![name@] + rest);
                    assert forall|c: Seq<char>| #[trigger] in_views(out@, c) <==> (in_views(old_out, c) || c == name@) by {}
                    assert forall|c: Seq<char>| #[trigger] (seq![name@] + rest).contains(c) <==> (c == name@ || rest.contains(c)) by {
                        if (seq![name@] + rest).contains(c) && c != name@ {
                            let k = choose|k: int| 0 <= k < (seq![name@] + rest).len() && (seq![name@] + rest)[k] == c;
                            assert(rest[k - 1] == c);
                        }
                        if c == name@ {
                            assert((seq![name@] + rest)[0] == c);
                        }
                        if rest.contains(c) {
                            let k = choose|k: int| 0 <= k < rest.len() && rest[k] == c;
                            assert((seq![name@] + rest)[k + 1] == c);
                        }
                    }
                    assert forall|c: Seq<char>| (in_views(out@, c) || crate_values(rest_lines).contains(c))
                        <==> crate_values(lines(text@)).contains(c) by {
                        assert((in_views(old_out, c) || crate_values(ls).contains(c)) <==> crate_values(lines(text@)).contains(c));
                        assert(in_views(out@, c) <==> (in_views(old_out, c) || c == name@));
                        assert((seq![name@] + rest).contains(c) <==> (c == name@ || rest.contains(c)));
                    }
                }
            },
            None => {
                proof {
                    assert(crate_of(line@) is None);
                    assert(crate_values(ls) == crate_values(rest_lines));
                    assert forall|c: Seq<char>| (in_views(out@, c) || crate_values(rest_lines).contains(c))
                        <==> crate_values(lines(text@)).contains(c) by {
                        assert(in_views(old_out, c) == in_views(out@, c));
                        assert((in_views(old_out, c) || crate_values(ls).contains(c)) <==> crate_values(lines(text@)).contains(c));
                    }
                }
            },
        }
        i = next;
    }
    proof {
        assert(crate_values(lines_from(text@, i as int)) =~= Seq::<Seq<char>>::empty());
    }
    out
}

/// The value of the first line of `ls` that reads `<prefix><value>` once trimmed.
pub open spec fn first_field(ls: Seq<Seq<char>>, prefix: Seq<char>) -> Option<Seq<char>>
    decreases ls.len(),
{
    if ls.len() == 0 {
        None
    } else {
        match strip_prefix(trim(ls[0]), prefix) {
            Some(v) => Some(v),
            None => first_field(ls.drop_first(), prefix),
        }
    }
}

/// The part of `s` before the first occurrence of `pat`, or all of `s`.
pub open spec fn before_first(s: Seq<char>, pat: Seq<char>) -> Seq<char> {
    match find_from(s, pat, 0) {
        Some(g) => s.subrange(0, g),
        None => s,
    }
}

/// The part of `s` between the first and the second occurrence of `pat`
/// (`s.split(pat).nth(1)`); `None` when `pat` does not occur.
pub open spec fn second_piece(s: Seq<char>, pat: Seq<char>) -> Option<Seq<char>> {
    match find_from(s, pat, 0) {
        None => None,
        Some(f) => Some(before_first(s.subrange(f + pat.len(), s.len() as int), pat)),
    }
}

/// The text that marks the entry of capability `id`.
pub open spec fn capability_marker(id: Seq<char>) -> Seq<char> {
    "  - id: "@ + id
}

/// What `capability_field` finds: within the entry of `id` (up to the next
/// entry), the value of the first `<field>: <value>` line.
pub open spec fn capability_field_spec(text: Seq<char>, id: Seq<char>, field: Seq<char>) -> Option<Seq<char>> {
    match second_piece(text, capability_marker(id)) {
        None => None,
        Some(entry) => first_field(lines(before_first(entry, "\n  - id:"@)), field + ": "@),
    }
}

/// A match found in `s` is found at the same place in `s` followed by more text.
proof fn lemma_find_from_extend(s: Seq<char>, t: Seq<char>, pat: Seq<char>, i: int)
    requires
        0 <= i,
        find_from(s, pat, i) is Some,
    ensures
        find_from(s + t, pat, i) == find_from(s, pat, i),
    decreases s.len() + 1 - i,
{
    assert(i + pat.len() <= s.len());
    assert((s + t).subrange(i, i + pat.len()) =~= s.subrange(i, i + pat.len()));
    if s.subrange(i, i + pat.len()) != pat {
        lemma_find_from_extend(s, t, pat, i + 1);
    }
}

/// A capability's field comes from its own entry only. When the first entry
/// of `id` is followed by the lines `body`, and then by the next entry (the
/// separator `\n  - id:` and anything after it, `tail`), the field is the
/// first `<field>: <value>` line of `body`, whatever `tail` holds: a field of a
/// later entry is never returned. (`body` holds no separator, and `id`'s
/// marker does not recur before the next entry begins.)
pub proof fn law_capability_field_own_entry(
    head: Seq<char>,
    id: Seq<char>,
    body: Seq<char>,
    tail: Seq<char>,
    field: Seq<char>,
)
    requires
        find_from(head + capability_marker(id), capability_marker(id), 0) == Some(head.len() as int),
        find_from(body + "\n  - id:"@, "\n  - id:"@, 0) == Some(body.len() as int),
        match find_from(body + "\n  - id:"@ + tail, capability_marker(id), 0) {
            Some(q) => q >= body.len() + "\n  - id:"@.len(),
            None => true,
        },
    ensures
        capability_field_spec(head + capability_marker(id) + body + "\n  - id:"@ + tail, id, field)
            == first_field(lines(body), field + ": "@),
{
    let m = capability_marker(id);
    let sep = "\n  - id:"@;
    let after = body + sep + tail;
    let text = head + m + body + sep + tail;
    assert(text =~= (head + m) + after);
    lemma_find_from_extend(head + m, after, m, 0);
    assert(text.subrange((head.len() + m.len()) as int, text.len() as int) =~= after);
    let entry = before_first(after, m);
    match find_from(after, m, 0) {
        Some(q) => {
            lemma_find_from_bounds(after, m, 0);
            let mid = after.subrange((body.len() + sep.len()) as int, q);
            assert(entry =~= (body + sep) + mid);
            lemma_find_from_extend(body + sep, mid, sep, 0);
        },
        None => {
            assert(entry =~= (body + sep) + tail);
            lemma_find_from_extend(body + sep, tail, sep, 0);
        },
    }
    assert(before_first(entry, sep) =~= body);
}

fn first_field_of(block: &str, prefix: &str) -> (r: Option<String>)
    ensures
        match first_field(lines(block@), prefix@) {
            Some(v) => r matches Some(t) && t@ == v,
            None => r is None,
        },
{
    let n = block.unicode_len();
    let mut i: usize = 0;
    while i < n
        invariant
            n == block@.len(),
            i <= n,
            first_field(lines(block@), prefix@) == first_field(lines_from(block@, i as int), prefix@),
        decreases n - i,
    {
        let ghost ls = lines_from(block@, i as int);
        let (line, e) = next_line(block, n, i);
        let next = if e < n { e + 1 } else { n };
        proof {
            assert(lines_from(block@, e + 1) == lines_from(block@, next as int));
            assert(ls[0] == line@);
            assert(ls.drop_first() =~= lines_from(block@, next as int));
        }
        let t = trim_text(line);
        match strip_prefix_text(t, prefix) {
            Some(v) => {
                return Some(v.to_string());
            },
            None => {},
        }
        i = next;
    }
    None
}

/// The value of `field` in the entry of capability `id` of a capabilities
/// manifest; `None` when the entry or the field is missing.
pub fn capability_field(text: &str, id: &str, field: &str) -> (r: Option<String>)
    ensures
        match capability_field_spec(text@, id@, field@) {
            Some(v) => r matches Some(t) && t@ == v,
            None => r is None,
        },
{
    let mut marker_text = String::new();
    marker_text.append("  - id: ");
    marker_text.append(id);
    let marker = marker_text.as_str();
    let n = text.unicode_len();
    let m = marker.unicode_len();
    let f = match find_str(text, n, marker, m, 0) {
        Some(f) => f,
        None => {
            return None;
        },
    };
    proof {
        lemma_find_from_bounds(text@, marker@, 0);
    }
    let rest = text.substring_char(f + m, n);
    let rn = rest.unicode_len();
    let entry = match find_str(rest, rn, marker, m, 0) {
        Some(g) => {
            proof {
                lemma_find_from_bounds(rest@, marker@, 0);
            }
            rest.substring_char(0, g)
        },
        None => rest,
    };
    let sep = "\n  - id:";
    let en = entry.unicode_len();
    let sn = sep.unicode_len();
    let block = match find_str(entry, en, sep, sn, 0) {
        Some(k) => {
            proof {
                lemma_find_from_bounds(entry@, sep@, 0);
            }
            entry.substring_char(0, k)
        },
        None => entry,
    };
    let mut prefix = String::new();
    prefix.append(field);
    prefix.append(": ");
    first_field_of(block, prefix.as_str())
}

/// The workspace member that a manifest line lists, if it is a quoted path
/// under `crates/`: the line trimmed, then stripped of commas and quotes.
pub open spec fn member_of(line: Seq<char>) -> Option<Seq<char>> {
    let t = trim(line);
    if t.len() > 0 && t[0] == '"' && occurs(t, "crates/"@) {
        Some(trim_char(trim_char(t, ','), '"'))
    } else {
        None
    }
}

/// The members that the lines of `ls` list, in order.
pub open spec fn members_of(ls: Seq<Seq<char>>) -> Seq<Seq<char>>
    decreases ls.len(),
{
    if ls.len() == 0 {
        Seq::empty()
    } else {
        let rest = members_of(ls.drop_first());
        match member_of(ls[0]) {
            Some(v) => seq![v] + rest,
            None => rest,
        }
    }
}

/// The workspace members listed in a workspace manifest, in order.
pub fn workspace_members(manifest: &str) -> (out: Vec<String>)
    ensures
        out@.map_values(|s: String| s@) == members_of(lines(manifest@)),
{
    let n = manifest.unicode_len();
    let mut out: Vec<String> = Vec::new();
    let mut i: usize = 0;
    while i < n
        invariant
            n == manifest@.len(),
            i <= n,
            out@.map_values(|s: String| s@) + members_of(lines_from(manifest@, i as int)) == members_of(lines(manifest@)),
        decreases n - i,
    {
        let ghost ls = lines_from(manifest@, i as int);
        let ghost before = out@.map_values(|s: String| s@);
        let (line, e) = next_line(manifest, n, i);
        let next = if e < n { e + 1 } else { n };
        proof {
            assert(lines_from(manifest@, e + 1) == lines_from(manifest@, next as int));
            assert(ls[0] == line@);
            assert(ls.drop_first() =~= lines_from(manifest@, next as int));
        }
        let t = trim_text(line);
        let tn = t.unicode_len();
        if tn > 0 && t.get_char(0) == '"' && contains_text(t, "crates/") {
            let v = trim_char_text(trim_char_text(t, ','), '"');
            out.push(v.to_string());
            proof {
                assert(member_of(line@) == Some(v@));
                assert(out@.map_values(|s: String| s@) =~= before.push(v@));
                assert(before.push(v@) + members_of(lines_from(manifest@, next as int))
                    =~= before + (seq![v@] + members_of(lines_from(manifest@, next as int))));
            }
        } else {
            proof {
                assert(member_of(line@) is None);
            }
        }
        i = next;
    }
    proof {
        assert(members_of(lines_from(manifest@, i as int)) =~= Seq::<Seq<char>>::empty());
        assert(out@.map_values(|s: String| s@) + Seq::<Seq<char>>::empty() =~= out@.map_values(|s: String| s@));
    }
    out
}

} // verus!
