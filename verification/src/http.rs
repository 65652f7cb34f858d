//! HTTP/1.1 request parsing: the request line, the header block, and the
//! derived predicates the server consults.
use vstd::prelude::*;
use crate::time::{rfc2822_timestamp, parse_if_mod_by};

verus! {

/// The whitespace trimmed from header values.
pub open spec fn is_ws(c: char) -> bool {
    c == ' ' || c == '\t' || c == '\r' || c == '\n'
}

/// `s` with leading whitespace removed.
pub open spec fn trim_front(s: Seq<char>) -> Seq<char>
    decreases s.len(),
{
    if s.len() > 0 && is_ws(s[0]) {
        trim_front(s.drop_first())
    } else {
        s
    }
}

/// `s` with trailing whitespace removed.
pub open spec fn trim_back(s: Seq<char>) -> Seq<char>
    decreases s.len(),
{
    if s.len() > 0 && is_ws(s.last()) {
        trim_back(s.drop_last())
    } else {
        s
    }
}

/// `s` with surrounding whitespace removed.
pub open spec fn spec_trim(s: Seq<char>) -> Seq<char> {
    trim_back(trim_front(s))
}

/// The index of the first occurrence of `c` in `s`, or -1 if there is none.
pub open spec fn index_of(s: Seq<char>, c: char) -> int
    decreases s.len(),
{
    if s.len() == 0 {
        -1
    } else if s[0] == c {
        0
    } else {
        if index_of(s.drop_first(), c) == -1 {
            -1
        } else {
            index_of(s.drop_first(), c) + 1
        }
    }
}

/// What `index_of` finds: the first occurrence, or none at all.
pub proof fn lemma_index_of(s: Seq<char>, c: char)
    ensures
        index_of(s, c) == -1 ==> forall|j: int| 0 <= j < s.len() ==> s[j] != c,
        index_of(s, c) != -1 ==> {
            &&& 0 <= index_of(s, c) < s.len()
            &&& s[index_of(s, c)] == c
            &&& forall|j: int| 0 <= j < index_of(s, c) ==> s[j] != c
        },
    decreases s.len(),
{
    if s.len() > 0 && s[0] != c {
        lemma_index_of(s.drop_first(), c);
        let sub = s.drop_first();
        assert(forall|j: int| 1 <= j < s.len() ==> s[j] == sub[j - 1]);
    }
}

/// `n` occurs at position `i` of `h`.
pub open spec fn contains_at(h: Seq<char>, n: Seq<char>, i: int) -> bool {
    0 <= i <= h.len() - n.len() && h.subrange(i, i + n.len()) == n
}

/// `n` occurs in `h` as a contiguous run.
pub open spec fn spec_contains(h: Seq<char>, n: Seq<char>) -> bool {
    exists|i: int| contains_at(h, n, i)
}

/// Whether `n` starts at position `i` of `h`.
fn match_at(h: &str, n: &str, i: usize, hl: usize, nl: usize) -> (r: bool)
    requires
        hl == h@.len(),
        nl == n@.len(),
        i + nl <= hl,
    ensures
        r == (h@.subrange(i as int, i + n@.len()) == n@),
{
    let mut j: usize = 0;
    while j < nl
        invariant
            hl == h@.len(),
            nl == n@.len(),
            i + nl <= hl,
            j <= nl,
            forall|t: int| 0 <= t < j ==> h@[i + t] == n@[t],
        decreases nl - j,
    {
        if h.get_char(i + j) != n.get_char(j) {
            proof {
                assert(h@.subrange(i as int, i + n@.len())[j as int] != n@[j as int]);
            }
            return false;
        }
        j = j + 1;
    }
    proof {
        assert(h@.subrange(i as int, i + n@.len()) =~= n@);
    }
    true
}

/// Whether `n` occurs anywhere in `h`.
pub fn contains_str(h: &str, n: &str) -> (r: bool)
    ensures
        r == spec_contains(h@, n@),
{
    let hl = h.unicode_len();
    let nl = n.unicode_len();
    if nl > hl {
        return false;
    }
    if nl == 0 {
        proof {
            assert(h@.subrange(0, 0) =~= n@);
            assert(contains_at(h@, n@, 0));
        }
        return true;
    }
    let mut i: usize = 0;
    while i <= hl - nl
        invariant
            hl == h@.len(),
            nl == n@.len(),
            1 <= nl <= hl,
            i <= hl - nl + 1,
            forall|k: int| 0 <= k < i ==> !contains_at(h@, n@, k),
        decreases hl - nl + 1 - i,
    {
        if match_at(h, n, i, hl, nl) {
            proof {
                assert(contains_at(h@, n@, i as int));
            }
            return true;
        }
        i = i + 1;
    }
    proof {
        assert forall|k: int| !contains_at(h@, n@, k) by {
            if 0 <= k <= h@.len() - n@.len() {
                assert(!contains_at(h@, n@, k));
            }
        }
    }
    false
}

/// Whether two strings hold the same characters.
pub fn str_eq(a: &str, b: &str) -> (r: bool)
    ensures
        r == (a@ == b@),
{
    let al = a.unicode_len();
    let bl = b.unicode_len();
    if al != bl {
        return false;
    }
    let r = match_at(a, b, 0, al, bl);
    proof {
        assert(a@.subrange(0, a@.len() as int) =~= a@);
    }
    r
}

/// The first index of `c` in `s`, scanned from the front.
pub fn find_char(s: &str, c: char) -> (r: Option<usize>)
    ensures
        r matches Some(i) ==> i == index_of(s@, c),
        r is None ==> index_of(s@, c) == -1,
{
    let len = s.unicode_len();
    let mut i: usize = 0;
    while i < len
        invariant
            len == s@.len(),
            i <= len,
            forall|j: int| 0 <= j < i ==> s@[j] != c,
        decreases len - i,
    {
        if s.get_char(i) == c {
            proof {
                lemma_index_of(s@, c);
            }
            return Some(i);
        }
        i = i + 1;
    }
    proof {
        lemma_index_of(s@, c);
    }
    None
}

/// `s` with surrounding whitespace removed.
pub fn trim_str(s: &str) -> (r: String)
    ensures
        r@ == spec_trim(s@),
{
    let len = s.unicode_len();
    proof {
        assert(s@.subrange(0, len as int) =~= s@);
    }
    let mut a: usize = 0;
    while a < len && is_ws_char(s.get_char(a))
        invariant
            len == s@.len(),
            a <= len,
            trim_front(s@) == trim_front(s@.subrange(a as int, len as int)),
        decreases len - a,
    {
        proof {
            assert(s@.subrange(a as int, len as int).drop_first() =~= s@.subrange(
                a + 1 as int, len as int));
        }
        a = a + 1;
    }
    proof {
        if a < len {
            assert(trim_front(s@.subrange(a as int, len as int)) == s@.subrange(
                a as int, len as int));
        } else {
            assert(s@.subrange(a as int, len as int) =~= Seq::<char>::empty());
        }
    }
    let mut b: usize = len;
    while b > a && is_ws_char(s.get_char(b - 1))
        invariant
            len == s@.len(),
            a <= b <= len,
            trim_front(s@) == trim_front(s@.subrange(a as int, len as int)),
            trim_back(s@.subrange(a as int, len as int)) == trim_back(s@.subrange(
                a as int, b as int)),
        decreases b,
    {
        proof {
            assert(s@.subrange(a as int, b as int).drop_last() =~= s@.subrange(
                a as int, b - 1 as int));
            assert(s@.subrange(a as int, b as int).last() == s@[b - 1]);
        }
        b = b - 1;
    }
    proof {
        if b > a {
            assert(trim_back(s@.subrange(a as int, b as int)) == s@.subrange(a as int, b as int));
        } else {
            assert(s@.subrange(a as int, b as int) =~= Seq::<char>::empty());
        }
        assert(trim_front(s@) == s@.subrange(a as int, len as int) || a == len);
    }
    let out = s.substring_char(a, b).to_owned();
    proof {
        assert(out@ == spec_trim(s@));
    }
    out
}

/// Whether `c` is trimmed whitespace.
fn is_ws_char(c: char) -> (r: bool)
    ensures
        r == is_ws(c),
{
    c == ' ' || c == '\t' || c == '\r' || c == '\n'
}

/// The request headers as received: a case-sensitive mapping from name to
/// value in which a repeated name overwrites the earlier value.
#[derive(Debug)]
pub struct Headers {
    pairs: Vec<(String, String)>,
}

/// The value the latest insertion gave `name`, if any.
pub open spec fn lookup(hs: Seq<(Seq<char>, Seq<char>)>, name: Seq<char>) -> Option<Seq<char>>
    decreases hs.len(),
{
    if hs.len() == 0 {
        None
    } else if hs.last().0 == name {
        Some(hs.last().1)
    } else {
        lookup(hs.drop_last(), name)
    }
}

/// Whether the headers advertise gzip: the `Accept-Encoding` value contains
/// the substring `gzip`; absent means no.
pub open spec fn spec_accepts_gzip(hs: Seq<(Seq<char>, Seq<char>)>) -> bool {
    match lookup(hs, "Accept-Encoding"@) {
        Some(v) => spec_contains(v, "gzip"@),
        None => false,
    }
}

/// Whether the connection persists: the `Connection` value contains
/// `keep-alive`; absent defaults to yes.
pub open spec fn spec_keep_alive(hs: Seq<(Seq<char>, Seq<char>)>) -> bool {
    match lookup(hs, "Connection"@) {
        Some(v) => spec_contains(v, "keep-alive"@),
        None => true,
    }
}

impl View for Headers {
    type V = Seq<(Seq<char>, Seq<char>)>;

    closed spec fn view(&self) -> Seq<(Seq<char>, Seq<char>)> {
        self.pairs.deep_view()
    }
}

impl Headers {
    /// The stored value of `name`, set by the latest header line for it.
    pub fn get(&self, name: &str) -> (r: Option<String>)
        ensures
            match lookup(self@, name@) {
                Some(v) => r matches Some(s) && s@ == v,
                None => r is None,
            },
    {
        let mut i: usize = self.pairs.len();
        proof {
            assert(self.pairs.deep_view().take(i as int) =~= self.pairs.deep_view());
        }
        while i > 0
            invariant
                i <= self.pairs@.len(),
                lookup(self@, name@) == lookup(self.pairs.deep_view().take(i as int), name@),
            decreases i,
        {
            let pair = &self.pairs[i - 1];
            if str_eq(pair.0.as_str(), name) {
                proof {
                    assert(self.pairs.deep_view().take(i as int).last() == (
                    self.pairs@[i - 1].0@,
                    self.pairs@[i - 1].1@,
                    ));
                }
                return Some(pair.1.clone());
            }
            proof {
                assert(self.pairs.deep_view().take(i as int).drop_last() =~= self.pairs.deep_view()
                    .take(i - 1 as int));
            }
            i = i - 1;
        }
        proof {
            assert(self.pairs.deep_view().take(0) =~= Seq::<(Seq<char>, Seq<char>)>::empty());
        }
        None
    }

    /// Whether the request advertises gzip support.
    pub fn accept_encoding_gzip(&self) -> (r: bool)
        ensures
            r == spec_accepts_gzip(self@),
    {
        match self.get("Accept-Encoding") {
            Some(encoding) => contains_str(encoding.as_str(), "gzip"),
            None => false,
        }
    }

    /// The `If-Modified-Since` header parsed as an RFC 2822 instant; a parse
    /// failure or an absent header yields `None`.
    pub fn if_modified_since(&self) -> (r: Option<i64>)
        ensures
            r == match lookup(self@, "If-Modified-Since"@) {
                Some(v) => rfc2822_timestamp(v),
                None => None::<i64>,
            },
    {
        match self.get("If-Modified-Since") {
            Some(date_str) => parse_if_mod_by(date_str.as_str()),
            None => None,
        }
    }

    /// Whether the client asked to keep the connection; absent defaults to
    /// keeping it.
    pub fn connection_keep_alive(&self) -> (r: bool)
        ensures
            r == spec_keep_alive(self@),
    {
        match self.get("Connection") {
            Some(value) => contains_str(value.as_str(), "keep-alive"),
            None => true,
        }
    }
}

/// One parsed request, consumed once by the connection handler.
pub enum Request {
    /// The peer closed cleanly before a request line.
    EndRequests(),
    Get(String, Headers),
    Head(String, Headers),
    /// `None` is the asterisk form `OPTIONS *`.
    Options(Option<String>, Headers),
}

/// A request the server refuses, with the status to answer.
pub struct BadRequest {
    pub code: &'static str,
    pub reason: &'static str,
}

/// The name-value pair one header line yields: the text before the first
/// colon, and the text after it with surrounding whitespace trimmed. A line
/// without a colon yields nothing.
pub open spec fn header_pair(l: Seq<char>) -> Option<(Seq<char>, Seq<char>)> {
    let k = index_of(l, ':');
    if k == -1 {
        None
    } else {
        Some((l.subrange(0, k), spec_trim(l.subrange(k + 1, l.len() as int))))
    }
}

/// The mapping a block of header lines builds, later lines overwriting.
pub open spec fn spec_parse_headers(ls: Seq<Seq<char>>) -> Seq<(Seq<char>, Seq<char>)>
    decreases ls.len(),
{
    if ls.len() == 0 {
        Seq::empty()
    } else {
        match header_pair(ls.last()) {
            Some(p) => spec_parse_headers(ls.drop_last()).push(p),
            None => spec_parse_headers(ls.drop_last()),
        }
    }
}

/// Parse a block of header lines: each line splits at its first colon; lines
/// without one are ignored.
pub fn parse_headers(lines: &Vec<String>) -> (h: Headers)
    ensures
        h@ == spec_parse_headers(lines.deep_view()),
{
    let mut pairs: Vec<(String, String)> = Vec::new();
    let mut i: usize = 0;
    while i < lines.len()
        invariant
            i <= lines@.len(),
            pairs.deep_view() == spec_parse_headers(lines.deep_view().take(i as int)),
        decreases lines@.len() - i,
    {
        let line = &lines[i];
        let llen = line.as_str().unicode_len();
        match find_char(line.as_str(), ':') {
            Some(k) => {
                proof {
                    lemma_index_of(line@, ':');
                }
                let name = line.as_str().substring_char(0, k).to_owned();
                let value = trim_str(line.as_str().substring_char(k + 1, llen));
                pairs.push((name, value));
            },
            None => {},
        }
        proof {
            assert(lines.deep_view().take(i + 1 as int).drop_last() =~= lines.deep_view().take(
                i as int));
            assert(lines.deep_view().take(i + 1 as int).last() == lines@[i as int]@);
            assert(pairs.deep_view() =~= spec_parse_headers(lines.deep_view().take(i + 1 as int)));
        }
        i = i + 1;
    }
    proof {
        assert(lines.deep_view().take(lines@.len() as int) =~= lines.deep_view());
    }
    Headers { pairs }
}

/// The method named by a request line: the text before the first space.
pub open spec fn spec_method(s: Seq<char>) -> Seq<char> {
    s.subrange(0, index_of(s, ' '))
}

/// The URL named by a request line: the text between the first space and the
/// next one, or the rest of the line if there is no second space.
pub open spec fn spec_url(s: Seq<char>) -> Seq<char> {
    let rest = s.subrange(index_of(s, ' ') + 1, s.len() as int);
    if index_of(rest, ' ') == -1 {
        rest
    } else {
        rest.subrange(0, index_of(rest, ' '))
    }
}

/// Split a request line into method and URL at its first two spaces; a line
/// without a space is not understood.
pub fn parse_request_line(input: &String) -> (r: Result<(String, String), BadRequest>)
    ensures
        match r {
            Ok(p) => index_of(input@, ' ') != -1 && p.0@ == spec_method(input@) && p.1@
                == spec_url(input@),
            Err(b) => index_of(input@, ' ') == -1 && b.code@ == "400"@ && b.reason@
                == "Request line not understood"@,
        },
{
    let s = input.as_str();
    let len = s.unicode_len();
    match find_char(s, ' ') {
        None => Err(BadRequest { code: "400", reason: "Request line not understood" }),
        Some(i) => {
            proof {
                lemma_index_of(s@, ' ');
            }
            let method = s.substring_char(0, i).to_owned();
            let rest = s.substring_char(i + 1, len);
            let url = match find_char(rest, ' ') {
                None => rest.to_owned(),
                Some(j) => {
                    proof {
                        lemma_index_of(rest@, ' ');
                    }
                    rest.substring_char(0, j).to_owned()
                },
            };
            Ok((method, url))
        },
    }
}

/// Parse one request: the request line, then the header block. `GET`, `HEAD`
/// and `OPTIONS` yield their variants, `OPTIONS *` the asterisk form; any
/// other method is refused with 405, a malformed request line with 400.
pub fn parse_request(request_line: &String, header_lines: &Vec<String>) -> (r: Result<
    Request,
    BadRequest,
>)
    ensures
        ({
            let m = spec_method(request_line@);
            let u = spec_url(request_line@);
            let hs = spec_parse_headers(header_lines.deep_view());
            match r {
                Ok(q) => index_of(request_line@, ' ') != -1 && match q {
                    Request::EndRequests() => false,
                    Request::Get(url, h) => m == "GET"@ && url@ == u && h@ == hs,
                    Request::Head(url, h) => m == "HEAD"@ && url@ == u && h@ == hs,
                    Request::Options(url, h) => m == "OPTIONS"@ && h@ == hs && match url {
                        None => u == "*"@,
                        Some(target) => u != "*"@ && target@ == u,
                    },
                },
                Err(b) => if index_of(request_line@, ' ') == -1 {
                    b.code@ == "400"@ && b.reason@ == "Request line not understood"@
                } else {
                    m != "GET"@ && m != "HEAD"@ && m != "OPTIONS"@ && b.code@ == "405"@
                        && b.reason@ == "Method not supported"@
                },
            }
        }),
{
    match parse_request_line(request_line) {
        Err(b) => Err(b),
        Ok((method, url)) => {
            if str_eq(method.as_str(), "GET") {
                let headers = parse_headers(header_lines);
                Ok(Request::Get(url, headers))
            } else if str_eq(method.as_str(), "HEAD") {
                let headers = parse_headers(header_lines);
                Ok(Request::Head(url, headers))
            } else if str_eq(method.as_str(), "OPTIONS") {
                let headers = parse_headers(header_lines);
                if str_eq(url.as_str(), "*") {
                    Ok(Request::Options(None, headers))
                } else {
                    Ok(Request::Options(Some(url), headers))
                }
            } else {
                Err(BadRequest { code: "405", reason: "Method not supported" })
            }
        },
    }
}

} // verus!
