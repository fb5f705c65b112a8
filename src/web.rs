//! Where a script given by URL is fetched from: GitHub and Gist pages are
//! turned into the URLs of their raw text.
use vstd::prelude::*;

verus! {

/// The seq of `s` from `i` on starts with `p`.
pub open spec fn starts_at(s: Seq<char>, p: Seq<char>, i: int) -> bool {
    0 <= i && i + p.len() <= s.len() && s.subrange(i, i + p.len()) == p
}

pub open spec fn contains(s: Seq<char>, p: Seq<char>) -> bool {
    exists|i: int| starts_at(s, p, i)
}

/// The index of the first `\n` from `i` on, or the length.
pub open spec fn line_end(s: Seq<char>, i: int) -> int
    decreases s.len() - i,
{
    if i < 0 || i >= s.len() || s[i] == '\n' {
        i
    } else {
        line_end(s, i + 1)
    }
}

/// The line that starts at `i`, without its line ending (`\n` or `\r\n`).
pub open spec fn line_at(s: Seq<char>, i: int) -> Seq<char> {
    let e = line_end(s, i);
    if e < s.len() && e > i && s[e - 1] == '\r' {
        s.subrange(i, e - 1)
    } else {
        s.subrange(i, e)
    }
}

/// The index of the first `"` in `l` from `i` on, or the length.
pub open spec fn quote_from(l: Seq<char>, i: int) -> int
    decreases l.len() - i,
{
    if i < 0 || i >= l.len() || l[i] == '"' {
        i
    } else {
        quote_from(l, i + 1)
    }
}

/// The text of `l` between its first `"` and the next one (or the end), if it has a `"`.
pub open spec fn quoted_part(l: Seq<char>) -> Option<Seq<char>> {
    let q = quote_from(l, 0);
    if q >= l.len() {
        None
    } else {
        Some(l.subrange(q + 1, quote_from(l, q + 1)))
    }
}

pub open spec fn raw_marker() -> Seq<char> {
    seq!['/', 'r', 'a', 'w', '/']
}

pub open spec fn gist_raw_host() -> Seq<char> {
    "https://gist.githubusercontent.com"@
}

/// The raw URL that a Gist page gives from its line at `i` on: the first line
/// that holds `/raw/` decides; its quoted part is a path on the raw host.
pub open spec fn raw_gist_url_from(html: Seq<char>, i: int) -> Option<Seq<char>>
    decreases html.len() + 1 - i,
    via raw_gist_url_decreases
{
    if i < 0 || i >= html.len() {
        None
    } else if contains(line_at(html, i), raw_marker()) {
        match quoted_part(line_at(html, i)) {
            Some(p) => Some(gist_raw_host() + p),
            None => None,
        }
    } else {
        raw_gist_url_from(html, line_end(html, i) + 1)
    }
}

/// Relies on str::chars: the characters of `s` in order.
#[verifier::external_body]
fn chars_of(s: &str) -> (r: Vec<char>)
    ensures
        r@ == s@,
{
    s.chars().collect()
}

/// Relies on String's FromIterator<char>: the string of these characters.
#[verifier::external_body]
fn string_of(cs: &[char]) -> (r: String)
    ensures
        r@ == cs@,
{
    cs.iter().collect()
}

proof fn lemma_line_end_bounds(s: Seq<char>, i: int)
    requires
        0 <= i <= s.len(),
    ensures
        i <= line_end(s, i) <= s.len(),
        line_end(s, i) < s.len() ==> s[line_end(s, i)] == '\n',
        forall|k: int| i <= k < line_end(s, i) ==> s[k] != '\n',
    decreases s.len() - i,
{
    if i < s.len() && s[i] != '\n' {
        lemma_line_end_bounds(s, i + 1);
    }
}

proof fn lemma_quote_from_bounds(l: Seq<char>, i: int)
    requires
        0 <= i <= l.len(),
    ensures
        i <= quote_from(l, i) <= l.len(),
    decreases l.len() - i,
{
    if i < l.len() && l[i] != '"' {
        lemma_quote_from_bounds(l, i + 1);
    }
}

#[via_fn]
proof fn raw_gist_url_decreases(html: Seq<char>, i: int) {
    if 0 <= i < html.len() {
        lemma_line_end_bounds(html, i);
    }
}

/// Whether `p` occurs in `s[from..to]`.
fn occurs_in(s: &Vec<char>, from: usize, to: usize, p: &Vec<char>) -> (r: bool)
    requires
        from <= to <= s@.len(),
    ensures
        r == contains(s@.subrange(from as int, to as int), p@),
{
    let ghost l = s@.subrange(from as int, to as int);
    if p.len() > to - from {
        assert forall|i: int| !starts_at(l, p@, i) by {}
        return false;
    }
    let mut i: usize = from;
    while i <= to - p.len()
        invariant
            from <= i,
            p@.len() <= to - from,
            to <= s@.len(),
            l == s@.subrange(from as int, to as int),
            forall|k: int| 0 <= k < i - from ==> !starts_at(l, p@, k),
        decreases to - i + 1,
    {
        let mut j: usize = 0;
        while j < p.len() && s[i + j] == p[j]
            invariant
                j <= p@.len(),
                i + p@.len() <= to,
                to <= s@.len(),
                forall|k: int| 0 <= k < j ==> s@[i + k] == p@[k],
            decreases p@.len() - j,
        {
            j = j + 1;
        }
        if j == p.len() {
            assert(l.subrange(i - from, i - from + p@.len()) =~= p@);
            assert(starts_at(l, p@, i - from));
            return true;
        }
        assert(!starts_at(l, p@, i - from)) by {
            if starts_at(l, p@, i - from) {
                assert(l.subrange(i - from, i - from + p@.len())[j as int] == p@[j as int]);
            }
        }
        i = i + 1;
    }
    assert forall|k: int| !starts_at(l, p@, k) by {
        if 0 <= k && k < i - from {
        }
    }
    false
}

/// The raw URL of a Gist from the HTML of its page: the quoted part of the
/// first line that holds `/raw/`, as a path on the Gist raw host. None where no
/// line holds `/raw/`, or that line has no `"`.
pub fn get_raw_gist_url(html: &str) -> (r: Option<String>)
    ensures
        match raw_gist_url_from(html@, 0) {
            Some(u) => r is Some && r->Some_0@ == u,
            None => r is None,
        },
{
    let s = chars_of(html);
    let n = s.len();
    let marker: Vec<char> = vec!['/', 'r', 'a', 'w', '/'];
    assert(marker@ =~= raw_marker());
    let mut i: usize = 0;
    while i < n
        invariant
            n == s@.len(),
            s@ == html@,
            marker@ == raw_marker(),
            i <= n,
            raw_gist_url_from(html@, 0) == raw_gist_url_from(html@, i as int),
        decreases n - i,
    {
        let mut e: usize = i;
        while e < n && s[e] != '\n'
            invariant
                i <= e <= n,
                n == s@.len(),
                line_end(s@, i as int) == line_end(s@, e as int),
            decreases n - e,
        {
            e = e + 1;
        }
        proof {
            lemma_line_end_bounds(s@, i as int);
        }
        assert(line_end(s@, e as int) == e);
        let stop: usize = if e < n && e > i && s[e - 1] == '\r' { e - 1 } else { e };
        let ghost l = line_at(s@, i as int);
        assert(l == s@.subrange(i as int, stop as int));
        if occurs_in(&s, i, stop, &marker) {
            let mut q: usize = i;
            while q < stop && s[q] != '"'
                invariant
                    i <= q <= stop,
                    stop <= n,
                    n == s@.len(),
                    l == s@.subrange(i as int, stop as int),
                    quote_from(l, 0) == quote_from(l, q - i),
                decreases stop - q,
            {
                assert(l[q - i] == s@[q as int]);
                q = q + 1;
            }
            if q >= stop {
                assert(quote_from(l, q - i) == q - i);
                return None;
            }
            assert(l[q - i] == s@[q as int]);
            assert(quote_from(l, q - i) == q - i);
            let mut q2: usize = q + 1;
            while q2 < stop && s[q2] != '"'
                invariant
                    i <= q < stop,
                    q + 1 <= q2 <= stop,
                    stop <= n,
                    n == s@.len(),
                    l == s@.subrange(i as int, stop as int),
                    quote_from(l, q + 1 - i) == quote_from(l, q2 - i),
                decreases stop - q2,
            {
                assert(l[q2 - i] == s@[q2 as int]);
                q2 = q2 + 1;
            }
            proof {
                if q2 < stop {
                    assert(l[q2 - i] == s@[q2 as int]);
                }
                assert(quote_from(l, q2 - i) == q2 - i);
            }
            let mut url = chars_of("https://gist.githubusercontent.com");
            assert(url@ == gist_raw_host());
            let mut k: usize = q + 1;
            let ghost host = url@;
            while k < q2
                invariant
                    q + 1 <= k <= q2,
                    q2 <= n,
                    n == s@.len(),
                    url@ == host + s@.subrange(q + 1, k as int),
                decreases q2 - k,
            {
                url.push(s[k]);
                k = k + 1;
            }
            assert(line_at(s@, i as int).subrange(q + 1 - i, q2 - i) =~= s@.subrange(q + 1, q2 as int));
            return Some(string_of(url.as_slice()));
        }
        assert(raw_gist_url_from(html@, i as int) == raw_gist_url_from(html@, e + 1));
        if e >= n {
            assert(raw_gist_url_from(html@, e + 1) is None);
            i = n;
        } else {
            i = e + 1;
        }
    }
    None
}

/// `s` with every occurrence of the non-empty `from` replaced by `to`,
/// found from left to right without overlaps.
pub open spec fn replaced(s: Seq<char>, from: Seq<char>, to: Seq<char>) -> Seq<char>
    decreases s.len(),
{
    if s.len() == 0 || from.len() == 0 {
        s
    } else if starts_at(s, from, 0) {
        to + replaced(s.subrange(from.len() as int, s.len() as int), from, to)
    } else {
        seq![s[0]] + replaced(s.subrange(1, s.len() as int), from, to)
    }
}

/// Relies on str::replace: every match of `from`, found from left to right
/// without overlaps, is replaced by `to`.
#[verifier::external_body]
fn replace_all(s: &str, from: &str, to: &str) -> (r: String)
    requires
        from@.len() > 0,
    ensures
        r@ == replaced(s@, from@, to@),
{
    s.replace(from, to)
}

pub open spec fn gist_host() -> Seq<char> {
    "gist.github.com"@
}

pub open spec fn github_host() -> Seq<char> {
    "github.com"@
}

pub open spec fn github_raw_host() -> Seq<char> {
    "raw.githubusercontent.com"@
}

/// The URL to fetch the raw text behind `url` from, given the HTML of the
/// page at `url` where it is a Gist: a Gist's raw URL is read from its page,
/// and a URL that starts with `github.com` gets the raw host for each
/// `github.com` in it. None for a Gist without its page or without a raw link.
pub open spec fn raw_url_of(url: Seq<char>, gist_html: Option<Seq<char>>) -> Option<Seq<char>> {
    let base = if contains(url, gist_host()) {
        match gist_html {
            Some(h) => raw_gist_url_from(h, 0),
            None => None,
        }
    } else {
        Some(url)
    };
    match base {
        Some(b) => if starts_at(b, github_host(), 0) {
            Some(replaced(b, github_host(), github_raw_host()))
        } else {
            Some(b)
        },
        None => None,
    }
}

/// Whether `url` names a Gist, whose page must be fetched to find its raw URL.
pub fn is_gist_url(url: &str) -> (r: bool)
    ensures
        r == contains(url@, gist_host()),
{
    let s = chars_of(url);
    let host = chars_of("gist.github.com");
    let r = occurs_in(&s, 0, s.len(), &host);
    assert(s@.subrange(0, s@.len() as int) =~= s@);
    r
}

/// The URL of the raw text behind `url`; `gist_html` is the page at `url`,
/// where that was fetched.
pub fn generate_url(url: &str, gist_html: Option<&str>) -> (r: Option<String>)
    ensures
        match raw_url_of(url@, match gist_html { Some(h) => Some(h@), None => None }) {
            Some(u) => r is Some && r->Some_0@ == u,
            None => r is None,
        },
{
    let base: String = if is_gist_url(url) {
        match gist_html {
            Some(h) => match get_raw_gist_url(h) {
                Some(u) => u,
                None => return None,
            },
            None => return None,
        }
    } else {
        String::from_str(url)
    };
    let b = chars_of(base.as_str());
    let gh = chars_of("github.com");
    proof {
        reveal_strlit("github.com");
    }
    let mut starts = b.len() >= gh.len();
    let mut k: usize = 0;
    while starts && k < gh.len()
        invariant
            starts ==> b@.len() >= gh@.len(),
            k <= gh@.len(),
            starts ==> forall|j: int| 0 <= j < k ==> b@[j] == gh@[j],
            !starts ==> !starts_at(b@, gh@, 0),
        decreases gh@.len() - k,
    {
        if b[k] != gh[k] {
            starts = false;
            assert(!starts_at(b@, gh@, 0)) by {
                if starts_at(b@, gh@, 0) {
                    assert(b@.subrange(0, gh@.len() as int)[k as int] == b@[k as int]);
                }
            }
        }
        k = k + 1;
    }
    if starts {
        assert(b@.subrange(0, gh@.len() as int) =~= gh@);
        Some(replace_all(base.as_str(), "github.com", "raw.githubusercontent.com"))
    } else {
        Some(base)
    }
}

} // verus!
