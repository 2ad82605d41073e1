//! Monitoring backend: the telemetry providers' identities and the dashboard
//! server's request decoding: request line, routing, body and parameters.
use vstd::prelude::*;
use vstd::string::StrSliceExecFns;
use crate::text::{replace_all, replace_str};
use crate::representation::{find_from, find_str, is_space, is_space_char, lemma_find_from_bounds, line_at, next_line};

verus! {

/// Synthetic telemetry: fixed nodes and topics, generated metrics.
pub struct DemoDataProvider;

/// Telemetry meant to come from running nodes; it still reuses the synthetic
/// node and topic tables.
pub struct LiveNrosDataProvider {}

impl DemoDataProvider {
    /// Whether the figures are synthetic (always, for this provider).
    pub fn is_simulated(&self) -> (b: bool)
        ensures
            b,
    {
        true
    }

    /// The provider's label, as shown on the dashboard.
    pub fn name(&self) -> (s: &'static str)
        ensures
            s@ == "DemoDataProvider (SIMULATED — pseudo_rand)"@,
    {
        "DemoDataProvider (SIMULATED — pseudo_rand)"
    }
}

impl LiveNrosDataProvider {
    pub fn new() -> (p: Self) {
        LiveNrosDataProvider {}
    }

    /// Whether the figures are synthetic: this provider reports itself as live.
    pub fn is_simulated(&self) -> (b: bool)
        ensures
            !b,
    {
        false
    }

    /// The provider's label, as shown on the dashboard.
    pub fn name(&self) -> (s: &'static str)
        ensures
            s@ == "LiveNrosDataProvider (SCAFFOLDED — would use real NROS stats)"@,
    {
        "LiveNrosDataProvider (SCAFFOLDED — would use real NROS stats)"
    }
}

/// What a query value decodes to: each `%20`, then each `+`, becomes a space.
pub open spec fn url_decoded(s: Seq<char>) -> Seq<char> {
    replace_all(replace_all(s, "%20"@, " "@), "+"@, " "@)
}

/// Minimal decoding of a query value: `%20` and `+` stand for a space.
pub fn url_decode(s: &str) -> (r: String)
    ensures
        r@ == url_decoded(s@),
{
    proof {
        reveal_strlit("%20");
        reveal_strlit("+");
    }
    let once = replace_str(s, "%20", " ");
    replace_str(once.as_str(), "+", " ")
}

// ---------------------------------------------------------------------------
// Request decoding
// ---------------------------------------------------------------------------

/// The pieces of `s` between occurrences of `c` (`str::split` with a
/// character): always at least one, possibly empty.
pub open spec fn split_on(s: Seq<char>, c: char) -> Seq<Seq<char>>
    decreases s.len(),
{
    if s.len() == 0 {
        seq![Seq::<char>::empty()]
    } else if s.last() == c {
        split_on(s.drop_last(), c).push(Seq::<char>::empty())
    } else {
        let p = split_on(s.drop_last(), c);
        p.update(p.len() - 1, p.last().push(s.last()))
    }
}

proof fn lemma_split_on_nonempty(s: Seq<char>, c: char)
    ensures
        split_on(s, c).len() >= 1,
    decreases s.len(),
{
    if s.len() > 0 {
        lemma_split_on_nonempty(s.drop_last(), c);
    }
}

/// Splits `s` at every `c`.
pub fn split_char<'a>(s: &'a str, c: char) -> (out: Vec<&'a str>)
    ensures
        out@.map_values(|x: &str| x@) == split_on(s@, c),
{
    let n = s.unicode_len();
    let mut out: Vec<&'a str> = Vec::new();
    let mut a: usize = 0;
    let mut i: usize = 0;
    proof {
        assert(s@.take(0) =~= Seq::<char>::empty());
        assert(out@.map_values(|x: &str| x@).push(s@.subrange(0, 0)) =~= seq![Seq::<char>::empty()]);
    }
    while i < n
        invariant
            n == s@.len(),
            a <= i <= n,
            out@.map_values(|x: &str| x@).push(s@.subrange(a as int, i as int)) == split_on(s@.take(i as int), c),
        decreases n - i,
    {
        let ch = s.get_char(i);
        let ghost before = out@.map_values(|x: &str| x@);
        proof {
            assert(s@.take(i + 1).drop_last() =~= s@.take(i as int));
            assert(s@.take(i + 1).last() == ch);
            lemma_split_on_nonempty(s@.take(i as int), c);
        }
        if ch == c {
            out.push(s.substring_char(a, i));
            proof {
                assert(out@.map_values(|x: &str| x@) =~= before.push(s@.subrange(a as int, i as int)));
                assert(s@.subrange(i + 1, i + 1) =~= Seq::<char>::empty());
            }
            a = i + 1;
        } else {
            proof {
                assert(s@.subrange(a as int, i + 1) =~= s@.subrange(a as int, i as int).push(ch));
                assert(before.push(s@.subrange(a as int, i + 1)) =~= before.push(s@.subrange(a as int, i as int)).update(
                    before.len() as int, s@.subrange(a as int, i as int).push(ch)));
            }
        }
        i = i + 1;
    }
    proof {
        assert(s@.take(n as int) =~= s@);
    }
    out.push(s.substring_char(a, n));
    out
}

/// A `key=value` pair split at its first `=` (`str::split_once`).
pub open spec fn split_pair(seg: Seq<char>) -> Option<(Seq<char>, Seq<char>)> {
    match find_from(seg, "="@, 0) {
        Some(p) => Some((seg.subrange(0, p), seg.subrange(p + 1, seg.len() as int))),
        None => None,
    }
}

/// The value the last pair named `key` among `segs` gives, if any: when
/// pairs are gathered into a map, a later pair replaces an earlier one.
pub open spec fn value_for(segs: Seq<Seq<char>>, key: Seq<char>) -> Option<Seq<char>>
    decreases segs.len(),
{
    if segs.len() == 0 {
        None
    } else {
        match split_pair(segs.last()) {
            Some((k, v)) => if k == key { Some(v) } else { value_for(segs.drop_last(), key) },
            None => value_for(segs.drop_last(), key),
        }
    }
}

fn str_equal(a: &str, b: &str) -> (r: bool)
    ensures
        r == (a@ == b@),
{
    let a = a.to_owned();
    let b = b.to_owned();
    a == b
}

/// The value of the last `key=value` pair named `key` in `text`, with pairs
/// separated by `&`.
pub fn pair_value<'a>(text: &'a str, key: &str) -> (r: Option<&'a str>)
    ensures
        match value_for(split_on(text@, '&'), key@) {
            Some(v) => r matches Some(x) && x@ == v,
            None => r is None,
        },
{
    let segs = split_char(text, '&');
    let ghost sv = segs@.map_values(|x: &str| x@);
    let mut found: Option<&'a str> = None;
    let mut i: usize = 0;
    proof {
        reveal_strlit("=");
        assert(sv.take(0) =~= Seq::<Seq<char>>::empty());
    }
    while i < segs.len()
        invariant
            sv == segs@.map_values(|x: &str| x@),
            sv == split_on(text@, '&'),
            i <= segs@.len(),
            match value_for(sv.take(i as int), key@) {
                Some(v) => found matches Some(x) && x@ == v,
                None => found is None,
            },
        decreases segs.len() - i,
    {
        let seg = segs[i];
        let m = seg.unicode_len();
        proof {
            reveal_strlit("=");
            assert(sv.take(i + 1).drop_last() =~= sv.take(i as int));
            assert(sv.take(i + 1).last() == seg@);
        }
        match find_str(seg, m, "=", 1, 0) {
            Some(p) => {
                proof {
                    lemma_find_from_bounds(seg@, "="@, 0);
                }
                let k = seg.substring_char(0, p);
                if str_equal(k, key) {
                    found = Some(seg.substring_char(p + 1, m));
                }
            },
            None => {},
        }
        i = i + 1;
    }
    proof {
        assert(sv.take(segs@.len() as int) =~= sv);
    }
    found
}

/// Where the white space from `i` on ends.
pub open spec fn skip_space(s: Seq<char>, i: int) -> int
    decreases s.len() - i,
{
    if i < 0 || i >= s.len() || !is_space(s[i]) { i } else { skip_space(s, i + 1) }
}

/// Where the run of non-space characters from `i` on ends.
pub open spec fn skip_word(s: Seq<char>, i: int) -> int
    decreases s.len() - i,
{
    if i < 0 || i >= s.len() || is_space(s[i]) { i } else { skip_word(s, i + 1) }
}

/// The next white-space-separated word at or after `i`, and where it ends
/// (`str::split_whitespace`).
pub open spec fn word_at(s: Seq<char>, i: int) -> Option<(Seq<char>, int)> {
    let a = skip_space(s, i);
    if a >= s.len() {
        None
    } else {
        let b = skip_word(s, a);
        Some((s.subrange(a, b), b))
    }
}

proof fn lemma_skip_bounds(s: Seq<char>, i: int)
    requires
        0 <= i <= s.len(),
    ensures
        i <= skip_space(s, i) <= s.len(),
        i <= skip_word(s, i) <= s.len(),
    decreases s.len() - i,
{
    if i < s.len() {
        lemma_skip_bounds(s, i + 1);
    }
}

fn word_from<'a>(s: &'a str, n: usize, i: usize) -> (r: Option<(&'a str, usize)>)
    requires
        n == s@.len(),
        i <= n,
    ensures
        match word_at(s@, i as int) {
            Some((w, e)) => r matches Some((x, e2)) && x@ == w && e2 == e && e2 <= n,
            None => r is None,
        },
{
    let mut a = i;
    while a < n && is_space_at(s, a)
        invariant
            n == s@.len(),
            i <= a <= n,
            skip_space(s@, i as int) == skip_space(s@, a as int),
        decreases n - a,
    {
        a = a + 1;
    }
    if a >= n {
        return None;
    }
    let mut b = a;
    while b < n && !is_space_at(s, b)
        invariant
            n == s@.len(),
            a <= b <= n,
            skip_word(s@, a as int) == skip_word(s@, b as int),
        decreases n - b,
    {
        b = b + 1;
    }
    Some((s.substring_char(a, b), b))
}

fn is_space_at(s: &str, i: usize) -> (b: bool)
    requires
        i < s@.len(),
    ensures
        b == is_space(s@[i as int]),
{
    is_space_char(s.get_char(i))
}

/// The first line of a request, empty for an empty request.
pub open spec fn first_line(req: Seq<char>) -> Seq<char> {
    if req.len() == 0 { Seq::<char>::empty() } else { line_at(req, 0) }
}

/// The request's method: the first word of its first line, `GET` if there is none.
pub open spec fn request_method(req: Seq<char>) -> Seq<char> {
    match word_at(first_line(req), 0) {
        Some((m, _)) => m,
        None => "GET"@,
    }
}

/// The request's target path: the second word of its first line, `/` if there is none.
pub open spec fn request_path(req: Seq<char>) -> Seq<char> {
    match word_at(first_line(req), 0) {
        Some((_, e)) => match word_at(first_line(req), e) {
            Some((p, _)) => p,
            None => "/"@,
        },
        None => "/"@,
    }
}

/// The method and target path of an HTTP request.
pub fn request_target(request: &str) -> (r: (String, String))
    ensures
        r.0@ == request_method(request@),
        r.1@ == request_path(request@),
{
    let n = request.unicode_len();
    let line: &str = if n == 0 {
        proof {
            reveal_strlit("");
        }
        ""
    } else {
        next_line(request, n, 0).0
    };
    assert(line@ == first_line(request@));
    let ln = line.unicode_len();
    match word_from(line, ln, 0) {
        Some((m, e)) => {
            let path = match word_from(line, ln, e) {
                Some((p, _)) => p.to_owned(),
                None => "/".to_owned(),
            };
            (m.to_owned(), path)
        },
        None => ("GET".to_owned(), "/".to_owned()),
    }
}

/// What the dashboard server answers a request with.
#[derive(Debug, Clone, Copy, PartialEq, Eq, Structural)]
pub enum Route {
    Index,
    Status,
    Nodes,
    Topics,
    Tf,
    Metrics,
    Stream,
    Params,
    NotFound,
}

/// The target path without its query: the part before the first `?`.
pub open spec fn path_base(path: Seq<char>) -> Seq<char> {
    split_on(path, '?')[0]
}

/// The query of a target path: the part after the first `?` and before any
/// second one; empty without a `?`.
pub open spec fn path_query(path: Seq<char>) -> Seq<char> {
    if split_on(path, '?').len() > 1 { split_on(path, '?')[1] } else { Seq::<char>::empty() }
}

/// The route for a method and the base of a path.
pub open spec fn route_of(method: Seq<char>, path: Seq<char>) -> Route {
    let base = path_base(path);
    let get = method == "GET"@;
    if get && (base == "/"@ || base == "/index.html"@) {
        Route::Index
    } else if get && base == "/api/status"@ {
        Route::Status
    } else if get && base == "/api/nodes"@ {
        Route::Nodes
    } else if get && base == "/api/topics"@ {
        Route::Topics
    } else if get && base == "/api/tf"@ {
        Route::Tf
    } else if get && base == "/api/metrics"@ {
        Route::Metrics
    } else if get && base == "/api/stream"@ {
        Route::Stream
    } else if (get || method == "POST"@) && base == "/api/params"@ {
        Route::Params
    } else {
        Route::NotFound
    }
}

/// Routes a request by its method and target path.
pub fn route(method: &str, path: &str) -> (r: Route)
    ensures
        r == route_of(method@, path@),
{
    let parts = split_char(path, '?');
    proof {
        lemma_split_on_nonempty(path@, '?');
    }
    let base = parts[0];
    let get = str_equal(method, "GET");
    if get && (str_equal(base, "/") || str_equal(base, "/index.html")) {
        Route::Index
    } else if get && str_equal(base, "/api/status") {
        Route::Status
    } else if get && str_equal(base, "/api/nodes") {
        Route::Nodes
    } else if get && str_equal(base, "/api/topics") {
        Route::Topics
    } else if get && str_equal(base, "/api/tf") {
        Route::Tf
    } else if get && str_equal(base, "/api/metrics") {
        Route::Metrics
    } else if get && str_equal(base, "/api/stream") {
        Route::Stream
    } else if (get || str_equal(method, "POST")) && str_equal(base, "/api/params") {
        Route::Params
    } else {
        Route::NotFound
    }
}

/// The request body: the text after the first blank line (`\r\n\r\n`) and
/// before any further one; empty where there is no blank line.
pub open spec fn request_body(req: Seq<char>) -> Seq<char> {
    match find_from(req, "\r\n\r\n"@, 0) {
        None => Seq::<char>::empty(),
        Some(f) => match find_from(req, "\r\n\r\n"@, f + 4) {
            Some(g) => req.subrange(f + 4, g),
            None => req.subrange(f + 4, req.len() as int),
        },
    }
}

/// The body of an HTTP request.
pub fn request_body_of<'a>(request: &'a str) -> (r: &'a str)
    ensures
        r@ == request_body(request@),
{
    proof {
        reveal_strlit("\r\n\r\n");
        reveal_strlit("");
    }
    let n = request.unicode_len();
    match find_str(request, n, "\r\n\r\n", 4, 0) {
        None => "",
        Some(f) => {
            proof {
                lemma_find_from_bounds(request@, "\r\n\r\n"@, 0);
            }
            match find_str(request, n, "\r\n\r\n", 4, f + 4) {
                Some(g) => {
                    proof {
                        lemma_find_from_bounds(request@, "\r\n\r\n"@, f + 4);
                    }
                    request.substring_char(f + 4, g)
                },
                None => request.substring_char(f + 4, n),
            }
        },
    }
}

/// The value of the parameter `name` of a parameter request: from the path's
/// query, URL-decoded, if it names it; else from the body, or from the query
/// when the body is empty, as given; else `default`.
pub open spec fn param_of(request: Seq<char>, path: Seq<char>, name: Seq<char>, default: Seq<char>) -> Seq<char> {
    let query = path_query(path);
    let body = request_body(request);
    let combined = if body.len() > 0 { body } else { query };
    match value_for(split_on(query, '&'), name) {
        Some(v) => url_decoded(v),
        None => match value_for(split_on(combined, '&'), name) {
            Some(v) => v,
            None => default,
        },
    }
}

fn param_value(query: &str, combined: &str, name: &str, default: &str) -> (r: String)
    ensures
        r@ == (match value_for(split_on(query@, '&'), name@) {
            Some(v) => url_decoded(v),
            None => match value_for(split_on(combined@, '&'), name@) {
                Some(v) => v,
                None => default@,
            },
        }),
{
    match pair_value(query, name) {
        Some(v) => url_decode(v),
        None => match pair_value(combined, name) {
            Some(v) => v.to_owned(),
            None => default.to_owned(),
        },
    }
}

/// The node, parameter key and value a parameter request names, with the
/// defaults `velocity_controller`, `max_speed` and `2.0`.
pub fn param_request(request: &str, path: &str) -> (r: (String, String, String))
    ensures
        r.0@ == param_of(request@, path@, "node"@, "velocity_controller"@),
        r.1@ == param_of(request@, path@, "key"@, "max_speed"@),
        r.2@ == param_of(request@, path@, "value"@, "2.0"@),
{
    let parts = split_char(path, '?');
    proof {
        reveal_strlit("");
    }
    let query: &str = if parts.len() > 1 { parts[1] } else { "" };
    let body = request_body_of(request);
    let combined: &str = if body.unicode_len() > 0 { body } else { query };
    assert(query@ == path_query(path@));
    (
        param_value(query, combined, "node", "velocity_controller"),
        param_value(query, combined, "key", "max_speed"),
        param_value(query, combined, "value", "2.0"),
    )
}

} // verus!
