//! The serving rules: what response each request earns, and the exact bytes
//! of a response head.
use vstd::prelude::*;
use crate::content::HandleInfo;
use crate::http::{Request, spec_keep_alive};
use crate::time::rfc2822_string;

verus! {

/// The decimal digit `d` as a character.
pub open spec fn digit_char(d: int) -> char {
    if d == 0 {
        '0'
    } else if d == 1 {
        '1'
    } else if d == 2 {
        '2'
    } else if d == 3 {
        '3'
    } else if d == 4 {
        '4'
    } else if d == 5 {
        '5'
    } else if d == 6 {
        '6'
    } else if d == 7 {
        '7'
    } else if d == 8 {
        '8'
    } else {
        '9'
    }
}

/// The decimal rendering of a non-negative value, most significant digit
/// first and without leading zeroes.
pub open spec fn dec_digits(v: int) -> Seq<char>
    decreases v,
{
    if v < 10 {
        seq![digit_char(v)]
    } else {
        dec_digits(v / 10).push(digit_char(v % 10))
    }
}

/// The decimal digit `d` as a one-character string.
fn digit_str(d: u64) -> (r: &'static str)
    requires
        d < 10,
    ensures
        r@ == seq![digit_char(d as int)],
{
    if d == 0 {
        proof {
            reveal_strlit("0");
        }
        "0"
    } else if d == 1 {
        proof {
            reveal_strlit("1");
        }
        "1"
    } else if d == 2 {
        proof {
            reveal_strlit("2");
        }
        "2"
    } else if d == 3 {
        proof {
            reveal_strlit("3");
        }
        "3"
    } else if d == 4 {
        proof {
            reveal_strlit("4");
        }
        "4"
    } else if d == 5 {
        proof {
            reveal_strlit("5");
        }
        "5"
    } else if d == 6 {
        proof {
            reveal_strlit("6");
        }
        "6"
    } else if d == 7 {
        proof {
            reveal_strlit("7");
        }
        "7"
    } else if d == 8 {
        proof {
            reveal_strlit("8");
        }
        "8"
    } else {
        proof {
            reveal_strlit("9");
        }
        "9"
    }
}

/// Render a length in decimal.
pub fn u64_dec(v: u64) -> (r: String)
    ensures
        r@ == dec_digits(v as int),
    decreases v,
{
    if v < 10 {
        digit_str(v).to_owned()
    } else {
        let mut s = u64_dec(v / 10);
        s.append(digit_str(v % 10));
        proof {
            assert(s@ =~= dec_digits(v as int));
        }
        s
    }
}

/// The `Connection` header line of a response.
pub open spec fn connection_line(keep_alive: bool) -> Seq<char> {
    if keep_alive {
        "Connection: keep-alive\n"@
    } else {
        "Connection: close\n"@
    }
}

/// The caller-supplied header lines, each `name: value` on its own line.
pub open spec fn headers_text(hs: Seq<(Seq<char>, Seq<char>)>) -> Seq<char>
    decreases hs.len(),
{
    if hs.len() == 0 {
        Seq::empty()
    } else {
        headers_text(hs.drop_last()) + hs.last().0 + ": "@ + hs.last().1 + "\n"@
    }
}

/// The whole response head: the status line, the three always-present
/// headers, the caller's headers, and the blank terminating line.
pub open spec fn spec_response_head(
    code: Seq<char>,
    reason: Seq<char>,
    hs: Seq<(Seq<char>, Seq<char>)>,
    keep_alive: bool,
    date: Seq<char>,
) -> Seq<char> {
    "HTTP/1.1 "@ + code + " "@ + reason + "\n"@ + connection_line(keep_alive) + "Date: "@ + date
        + "\n"@ + "Server: rust-http2-server\n"@ + headers_text(hs) + "\n"@
}

/// Build a response head: status line, connection policy, date, server name,
/// the given headers, and a blank line. The entity, if any, follows these
/// bytes on the wire.
pub fn write_response(
    code: &str,
    reason: &str,
    headers: &Vec<(String, String)>,
    keep_alive: bool,
    date: &str,
) -> (out: String)
    ensures
        out@ == spec_response_head(code@, reason@, headers.deep_view(), keep_alive, date@),
{
    let mut out = String::new();
    out.append("HTTP/1.1 ");
    out.append(code);
    out.append(" ");
    out.append(reason);
    out.append("\n");
    if keep_alive {
        out.append("Connection: keep-alive\n");
    } else {
        out.append("Connection: close\n");
    }
    out.append("Date: ");
    out.append(date);
    out.append("\n");
    out.append("Server: rust-http2-server\n");
    let ghost prefix = out@;
    let mut i: usize = 0;
    while i < headers.len()
        invariant
            i <= headers@.len(),
            out@ == prefix + headers_text(headers.deep_view().take(i as int)),
        decreases headers@.len() - i,
    {
        let pair = &headers[i];
        out.append(pair.0.as_str());
        out.append(": ");
        out.append(pair.1.as_str());
        out.append("\n");
        proof {
            assert(headers.deep_view().take(i + 1 as int).drop_last() =~= headers.deep_view().take(
                i as int));
            assert(headers.deep_view().take(i + 1 as int).last() == (
            headers@[i as int].0@,
            headers@[i as int].1@,
            ));
            assert(out@ =~= prefix + headers_text(headers.deep_view().take(i + 1 as int)));
        }
        i = i + 1;
    }
    out.append("\n");
    proof {
        assert(headers.deep_view().take(headers@.len() as int) =~= headers.deep_view());
        assert(out@ =~= spec_response_head(code@, reason@, headers.deep_view(), keep_alive,
            date@));
    }
    out
}

/// The headers a 200 response to GET or HEAD carries: the content length,
/// the last modification in RFC 2822 form, and the encoding when the served
/// variant is gzipped.
pub open spec fn get_headers(h: HandleInfo) -> Seq<(Seq<char>, Seq<char>)> {
    let base = seq![
        ("Content-Length"@, dec_digits(h.content_length as int)),
        ("Last-Modified"@, rfc2822_string(h.mod_timestamp)),
    ];
    if h.gzipped {
        base.push(("Content-Encoding"@, "gzip"@))
    } else {
        base
    }
}

/// Answer a GET or HEAD once the lookup is done. An absent resource earns
/// 404 with no body; a resource no newer than `If-Modified-Since` earns a
/// bare 304 line; anything else earns 200 with the entity streamed after the
/// head unless `suppress_entity` (HEAD) holds. The second result says
/// whether the entity follows.
pub fn handle_get(
    found: Option<HandleInfo>,
    if_mod_since: Option<i64>,
    suppress_entity: bool,
    keep_alive: bool,
    date: &str,
) -> (r: (String, bool))
    requires
        found matches Some(h) ==> h.wf(),
    ensures
        match found {
            None => r.0@ == spec_response_head("404"@, "Not Found"@,
                Seq::<(Seq<char>, Seq<char>)>::empty(), keep_alive, date@) && r.1 == false,
            Some(h) => if if_mod_since matches Some(t) && t >= h.mod_timestamp {
                r.0@ == "HTTP/1.1 304 Not Modified\n"@ && r.1 == false
            } else {
                r.0@ == spec_response_head("200"@, "OK"@, get_headers(h), keep_alive, date@)
                    && r.1 == !suppress_entity
            },
        },
{
    match found {
        None => {
            let empty: Vec<(String, String)> = Vec::new();
            proof {
                assert(empty.deep_view() =~= Seq::<(Seq<char>, Seq<char>)>::empty());
            }
            (write_response("404", "Not Found", &empty, keep_alive, date), false)
        },
        Some(h) => {
            match if_mod_since {
                Some(t) => {
                    if h.is_older_or_equal(t) {
                        return ("HTTP/1.1 304 Not Modified\n".to_owned(), false);
                    }
                },
                None => {},
            }
            let mut hs: Vec<(String, String)> = Vec::new();
            hs.push(("Content-Length".to_owned(), u64_dec(h.content_length)));
            hs.push(("Last-Modified".to_owned(), crate::time::to_rfc2822(h.mod_timestamp)));
            if h.gzipped {
                hs.push(("Content-Encoding".to_owned(), "gzip".to_owned()));
            }
            proof {
                assert(hs.deep_view() =~= get_headers(h));
            }
            (write_response("200", "OK", &hs, keep_alive, date), !suppress_entity)
        },
    }
}

/// The headers an OPTIONS response carries.
pub open spec fn options_headers() -> Seq<(Seq<char>, Seq<char>)> {
    seq![("Allow"@, "OPTIONS, GET, HEAD"@), ("Content-Length"@, "0"@)]
}

/// Answer an OPTIONS request. The asterisk form always earns 200 with the
/// allowed methods; a URL form earns the same when the resource exists, else
/// 404. The connection always closes after OPTIONS.
pub fn handle_options(asterisk: bool, resource_found: bool, date: &str) -> (r: String)
    ensures
        asterisk || resource_found ==> r@ == spec_response_head("200"@, "OK"@, options_headers(),
            false, date@),
        !asterisk && !resource_found ==> r@ == spec_response_head("404"@, "Not Found"@,
            Seq::<(Seq<char>, Seq<char>)>::empty(), false, date@),
{
    if asterisk || resource_found {
        let mut hs: Vec<(String, String)> = Vec::new();
        hs.push(("Allow".to_owned(), "OPTIONS, GET, HEAD".to_owned()));
        hs.push(("Content-Length".to_owned(), "0".to_owned()));
        proof {
            assert(hs.deep_view() =~= options_headers());
        }
        write_response("200", "OK", &hs, false, date)
    } else {
        let empty: Vec<(String, String)> = Vec::new();
        proof {
            assert(empty.deep_view() =~= Seq::<(Seq<char>, Seq<char>)>::empty());
        }
        write_response("404", "Not Found", &empty, false, date)
    }
}

/// Answer a refused request: its status and reason, an empty header list,
/// and a closed connection.
pub fn handle_bad_request(code: &str, reason: &str, date: &str) -> (r: String)
    ensures
        r@ == spec_response_head(code@, reason@, Seq::<(Seq<char>, Seq<char>)>::empty(), false,
            date@),
{
    let empty: Vec<(String, String)> = Vec::new();
    proof {
        assert(empty.deep_view() =~= Seq::<(Seq<char>, Seq<char>)>::empty());
    }
    write_response(code, reason, &empty, false, date)
}

/// Whether the connection persists after answering `req`: only a GET or
/// HEAD whose headers ask to keep it; OPTIONS and a closed peer end it.
pub fn keep_alive_after(req: &Request) -> (r: bool)
    ensures
        req matches Request::EndRequests() ==> r == false,
        req matches Request::Get(u, h) ==> r == spec_keep_alive(h@),
        req matches Request::Head(u, h) ==> r == spec_keep_alive(h@),
        req matches Request::Options(u, h) ==> r == false,
{
    match req {
        Request::EndRequests() => false,
        Request::Get(_, h) => h.connection_keep_alive(),
        Request::Head(_, h) => h.connection_keep_alive(),
        Request::Options(_, _) => false,
    }
}

} // verus!
