//! A minimal request parser over one string: a single method, two
//! protocol versions, and a rudimentary header pass. The full wire
//! parser lives in `http1_1`; this one stays for line-oriented checks
//! against it.

use vstd::prelude::*;
use crate::headers::Headers;
use crate::strutil::{lines_spec, lines_vec, str_eq, substr, views};

verus! {

/// The one method this parser reads.
#[derive(Debug, PartialEq, Eq, Structural)]
pub enum HTTPMethod {
    Get,
}

/// The two protocol versions this parser reads.
#[derive(Debug, PartialEq, Eq, Structural)]
pub enum HTTPVersion {
    V1_1,
    V2_2,
}

/// Why a header line was refused.
#[derive(Debug, PartialEq, Eq, Structural)]
pub enum HeaderParseError {
    MissingHeaderName,
    MissingValue,
}

/// Why a request was refused.
#[derive(Debug, PartialEq)]
pub enum RequestParseError {
    UnsupportedVersion(String),
    MissingVersion,
    NotHTTP,
    UnsupportedMethod(String),
    MissingMethod,
    MissingPath,
    MalformedHeaders,
    MalformedVersion,
}

/// A carriage return or a line feed.
pub open spec fn is_newline_spec(c: char) -> bool {
    c == '\r' || c == '\n'
}

/// True iff `c` ends a line.
pub fn is_newline(c: &char) -> (r: bool)
    ensures
        r == is_newline_spec(*c),
{
    matches!(*c, '\r' | '\n')
}

/// The kinds of boundary `take_until` stops at.
#[derive(Clone, Copy)]
pub enum Boundary {
    SlashOrNewline,
    Newline,
    Colon,
    Space,
}

/// Whether `c` is a boundary of the given kind.
pub open spec fn at_boundary(k: Boundary, c: char) -> bool {
    match k {
        Boundary::SlashOrNewline => c == '/' || is_newline_spec(c),
        Boundary::Newline => is_newline_spec(c),
        Boundary::Colon => c == ':',
        Boundary::Space => c == ' ',
    }
}

/// The first position at or after `from` holding a boundary of kind
/// `k`, or the length when none does.
pub open spec fn boundary_idx(s: Seq<char>, from: int, k: Boundary) -> int
    decreases s.len() - from,
{
    if from < 0 || from >= s.len() {
        s.len() as int
    } else if at_boundary(k, s[from]) {
        from
    } else {
        boundary_idx(s, from + 1, k)
    }
}

proof fn lemma_boundary_idx(s: Seq<char>, from: int, k: Boundary)
    requires
        0 <= from <= s.len(),
    ensures
        from <= boundary_idx(s, from, k) <= s.len(),
        boundary_idx(s, from, k) < s.len() ==> at_boundary(k, s[boundary_idx(s, from, k)]),
        forall|j: int| from <= j < boundary_idx(s, from, k) ==> !at_boundary(k, #[trigger] s[j]),
    decreases s.len() - from,
{
    if from < s.len() && !at_boundary(k, s[from]) {
        lemma_boundary_idx(s, from + 1, k);
    }
}

/// Where the scan stands after taking up to a boundary: just past the
/// boundary it consumed, or the end.
pub open spec fn after_boundary(s: Seq<char>, from: int, k: Boundary) -> int {
    if boundary_idx(s, from, k) < s.len() {
        boundary_idx(s, from, k) + 1
    } else {
        s.len() as int
    }
}

/// Collects the characters from `from` up to the first boundary of
/// kind `k`, consuming the boundary itself as an iterator's
/// `take_while` would; hands back the piece and the scan's new
/// position.
pub fn take_until(s: &str, from: usize, k: Boundary) -> (r: (String, usize))
    requires
        from <= s@.len(),
    ensures
        r.0@ == s@.subrange(from as int, boundary_idx(s@, from as int, k)),
        r.1 == after_boundary(s@, from as int, k),
{
    proof {
        lemma_boundary_idx(s@, from as int, k);
    }
    let n = s.unicode_len();
    let mut i: usize = from;
    while i < n && !boundary_exec(k, s.get_char(i))
        invariant
            from <= i <= n,
            n == s@.len(),
            forall|j: int| from <= j < i ==> !at_boundary(k, #[trigger] s@[j]),
        decreases n - i,
    {
        i = i + 1;
    }
    proof {
        lemma_boundary_idx(s@, from as int, k);
        let b = boundary_idx(s@, from as int, k);
        if b < i {
            assert(!at_boundary(k, s@[b]));
        }
        if i < b {
            assert(!at_boundary(k, s@[i as int]));
        }
    }
    let piece = substr(s, from, i);
    if i < n {
        (piece, i + 1)
    } else {
        (piece, n)
    }
}

fn boundary_exec(k: Boundary, c: char) -> (r: bool)
    ensures
        r == at_boundary(k, c),
{
    match k {
        Boundary::SlashOrNewline => c == '/' || is_newline(&c),
        Boundary::Newline => is_newline(&c),
        Boundary::Colon => c == ':',
        Boundary::Space => c == ' ',
    }
}

/// `Ok` exactly for the empty string, as the header pass uses it.
pub fn err_if_empty<E>(err: E, s: String) -> (r: Result<String, E>)
    ensures
        s@.len() == 0 ==> (r matches Ok(v) && v@ == s@),
        s@.len() > 0 ==> (r matches Err(e) && e == err),
{
    if s.as_str().is_empty() {
        Ok(s)
    } else {
        Err(err)
    }
}

/// The version token this parser accepts after `HTTP/`.
pub open spec fn legacy_version_of(s: Seq<char>) -> Option<HTTPVersion> {
    if s == "1.1"@ {
        Some(HTTPVersion::V1_1)
    } else if s == "2.2"@ {
        Some(HTTPVersion::V2_2)
    } else {
        None
    }
}

/// The protocol piece of a version string: up to the first `/` or line
/// end.
pub open spec fn protocol_piece(s: Seq<char>) -> Seq<char> {
    s.subrange(0, boundary_idx(s, 0, Boundary::SlashOrNewline))
}

/// The version piece: from past the protocol's boundary to the line
/// end.
pub open spec fn version_piece(s: Seq<char>) -> Seq<char> {
    let from = after_boundary(s, 0, Boundary::SlashOrNewline);
    s.subrange(from, boundary_idx(s, from, Boundary::Newline))
}

impl HTTPVersion {
    /// Reads a version string such as `HTTP/1.1`: the piece before the
    /// first `/` must be `HTTP`, and the piece after it one of the two
    /// versions; each piece missing or unknown is its own failure.
    pub fn from_str(value: &str) -> (r: Result<HTTPVersion, RequestParseError>)
        ensures
            r is Ok <==> protocol_piece(value@) == "HTTP"@ && legacy_version_of(
                version_piece(value@),
            ) is Some,
            match r {
                Ok(v) => protocol_piece(value@) == "HTTP"@ && legacy_version_of(
                    version_piece(value@),
                ) == Some(v),
                Err(e) => {
                    &&& (value@.len() == 0 ==> e == RequestParseError::MissingVersion)
                    &&& (value@.len() > 0 && protocol_piece(value@).len() == 0 ==> e
                        == RequestParseError::MissingVersion)
                    &&& (value@.len() > 0 && protocol_piece(value@).len() > 0 && protocol_piece(
                        value@,
                    ) != "HTTP"@ ==> e == RequestParseError::NotHTTP)
                    &&& (value@.len() > 0 && protocol_piece(value@) == "HTTP"@
                        && version_piece(value@).len() == 0 ==> e
                        == RequestParseError::MissingVersion)
                    &&& (value@.len() > 0 && protocol_piece(value@) == "HTTP"@
                        && version_piece(value@).len() > 0 && legacy_version_of(
                        version_piece(value@),
                    ) is None ==> (e matches RequestParseError::UnsupportedVersion(t) && t@
                        == version_piece(value@)))
                },
            },
    {
        proof {
            reveal_strlit("HTTP");
            reveal_strlit("1.1");
            reveal_strlit("2.2");
        }
        if value.unicode_len() == 0 {
            return Err(RequestParseError::MissingVersion);
        }
        let (protocol, pos) = take_until(value, 0, Boundary::SlashOrNewline);
        if protocol.as_str().is_empty() {
            return Err(RequestParseError::MissingVersion);
        }
        if !str_eq(protocol.as_str(), "HTTP") {
            return Err(RequestParseError::NotHTTP);
        }
        let (version, _) = take_until(value, pos, Boundary::Newline);
        if version.as_str().is_empty() {
            Err(RequestParseError::MissingVersion)
        } else if str_eq(version.as_str(), "1.1") {
            Ok(HTTPVersion::V1_1)
        } else if str_eq(version.as_str(), "2.2") {
            Ok(HTTPVersion::V2_2)
        } else {
            Err(RequestParseError::UnsupportedVersion(version))
        }
    }
}

impl HTTPMethod {
    /// Reads the one method token this parser knows.
    pub fn from_str(s: &str) -> (r: Result<HTTPMethod, RequestParseError>)
        ensures
            match r {
                Ok(m) => s@ == "GET"@ && m == HTTPMethod::Get,
                Err(e) => s@ != "GET"@ && (e matches RequestParseError::UnsupportedMethod(t) && t@
                    == s@),
            },
    {
        if str_eq(s, "GET") {
            Ok(HTTPMethod::Get)
        } else {
            Err(RequestParseError::UnsupportedMethod(s.to_owned()))
        }
    }
}

/// A line passes the header pass only when the piece before the first
/// `:` is empty; whatever follows the `:` must be empty too. The pass
/// keeps the header map it built up to the first refusal.
pub open spec fn header_pass_ok(line: Seq<char>) -> bool {
    let name_end = boundary_idx(line, 0, Boundary::Colon);
    name_end == 0 && after_boundary(line, 0, Boundary::Colon) == line.len()
}

/// Runs the header pass over every line of `s`: each line's piece
/// before the first `:` must be empty, and nothing may follow — so on
/// success the map it builds holds at most the one empty-name,
/// empty-value pair, one insertion per line.
pub fn parse_http1_1_headers(s: &str) -> (r: Result<Headers, HeaderParseError>)
    ensures
        r is Ok <==> forall|j: int|
            0 <= j < lines_spec(s@).len() ==> header_pass_ok(#[trigger] lines_spec(s@)[j]),
        r matches Ok(h) ==> {
            &&& h.wf()
            &&& (lines_spec(s@).len() == 0 ==> h.pairs() == Seq::<(Seq<char>, Seq<char>)>::empty())
            &&& (lines_spec(s@).len() > 0 ==> h.pairs() == seq![
                (Seq::<char>::empty(), Seq::<char>::empty()),
            ])
        },
{
    let mut headers = Headers::new();
    let lines = lines_vec(s);
    let n = lines.len();
    for i in 0..n
        invariant
            n == lines@.len(),
            views(lines@) == lines_spec(s@),
            headers.wf(),
            i == 0 ==> headers.pairs() == Seq::<(Seq<char>, Seq<char>)>::empty(),
            i > 0 ==> headers.pairs() == seq![(Seq::<char>::empty(), Seq::<char>::empty())],
            forall|j: int| 0 <= j < i ==> header_pass_ok(#[trigger] lines_spec(s@)[j]),
    {
        let line = lines[i].as_str();
        proof {
            assert(line@ == lines_spec(s@)[i as int]);
        }
        let (name, pos) = take_until(line, 0, Boundary::Colon);
        let header_name = match err_if_empty(HeaderParseError::MissingHeaderName, name) {
            Ok(v) => v,
            Err(e) => {
                return Err(e);
            },
        };
        let rest = substr(line, pos, line.unicode_len());
        let header_value = match err_if_empty(HeaderParseError::MissingValue, rest) {
            Ok(v) => v,
            Err(e) => {
                return Err(e);
            },
        };
        let ghost oldpairs = headers.pairs();
        headers.insert(header_name, header_value);
        proof {
            lemma_boundary_idx(line@, 0, Boundary::Colon);
            assert(boundary_idx(line@, 0, Boundary::Colon) == 0);
            assert(after_boundary(line@, 0, Boundary::Colon) == line@.len());
            assert(header_pass_ok(lines_spec(s@)[i as int]));
            assert(header_name@ =~= Seq::<char>::empty());
            assert(header_value@ =~= Seq::<char>::empty());
            if i == 0 {
                assert(!crate::headers::pairs_contain(oldpairs, header_name@));
                assert(headers.pairs() == oldpairs.push((header_name@, header_value@)));
                assert(headers.pairs() =~= seq![(Seq::<char>::empty(), Seq::<char>::empty())]);
            } else {
                assert(oldpairs[0].0 =~= Seq::<char>::empty());
                assert(crate::headers::has_key_at(oldpairs, header_name@, 0));
                crate::headers::lemma_key_at(oldpairs, header_name@, 0);
                assert(headers.pairs() == oldpairs.update(0, (header_name@, header_value@)));
                assert(headers.pairs() =~= seq![(Seq::<char>::empty(), Seq::<char>::empty())]);
            }
        }
    }
    Ok(headers)
}

/// The method token: everything before the first space.
pub open spec fn method_tok(s: Seq<char>) -> Seq<char> {
    s.subrange(0, boundary_idx(s, 0, Boundary::Space))
}

/// Where the path token starts: past the method's space.
pub open spec fn path_from(s: Seq<char>) -> int {
    after_boundary(s, 0, Boundary::Space)
}

/// The path token: from past the method's space to the next space.
pub open spec fn path_tok(s: Seq<char>) -> Seq<char> {
    s.subrange(path_from(s), boundary_idx(s, path_from(s), Boundary::Space))
}

/// Where the version token starts: past the path's space.
pub open spec fn version_from(s: Seq<char>) -> int {
    after_boundary(s, path_from(s), Boundary::Space)
}

/// The version token: from past the path's space to the line end.
pub open spec fn version_tok(s: Seq<char>) -> Seq<char> {
    s.subrange(version_from(s), boundary_idx(s, version_from(s), Boundary::Newline))
}

/// Where the header text starts: past the version's line end.
pub open spec fn rest_from(s: Seq<char>) -> int {
    after_boundary(s, version_from(s), Boundary::Newline)
}

/// The header text: everything after the start line.
pub open spec fn rest_of(s: Seq<char>) -> Seq<char> {
    s.subrange(rest_from(s), s.len() as int)
}

/// A request string this parser accepts: the method token is `GET`,
/// the path and version tokens are present, the version token holds no
/// space, reads as `HTTP/` plus a known version, and every line of the
/// rest passes the header pass.
pub open spec fn request_ok(s: Seq<char>) -> bool {
    &&& method_tok(s) == "GET"@
    &&& path_tok(s).len() > 0
    &&& version_tok(s).len() > 0
    &&& !version_tok(s).contains(' ')
    &&& protocol_piece(version_tok(s)) == "HTTP"@
    &&& legacy_version_of(version_piece(version_tok(s))) is Some
    &&& forall|j: int|
        0 <= j < lines_spec(rest_of(s)).len() ==> header_pass_ok(
            #[trigger] lines_spec(rest_of(s))[j],
        )
}

/// A parsed request: the pieces of the start line and the header map.
#[derive(Debug)]
pub struct Request {
    pub method: HTTPMethod,
    pub path: String,
    pub http_version: HTTPVersion,
    pub headers: Headers,
}

impl Request {
    /// Reads a whole request string: a method token, a path token, a
    /// version token — each space-separated and required — then the
    /// header pass over the rest. Succeeds exactly on the strings
    /// `request_ok` accepts.
    pub fn from_str(s: &str) -> (r: Result<Request, RequestParseError>)
        ensures
            r is Ok <==> request_ok(s@),
            r matches Ok(req) ==> {
                &&& req.method == HTTPMethod::Get
                &&& req.path@ == path_tok(s@)
                &&& Some(req.http_version) == legacy_version_of(version_piece(version_tok(s@)))
            },
            r matches Err(e) ==> {
                &&& (method_tok(s@).len() == 0 ==> e == RequestParseError::MissingMethod)
                &&& (method_tok(s@).len() > 0 && method_tok(s@) != "GET"@ ==> (e matches
                    RequestParseError::UnsupportedMethod(t) && t@ == method_tok(s@)))
                &&& (method_tok(s@) == "GET"@ && path_tok(s@).len() == 0 ==> e
                    == RequestParseError::MissingPath)
                &&& (method_tok(s@) == "GET"@ && path_tok(s@).len() > 0 && version_tok(
                    s@,
                ).len() == 0 ==> e == RequestParseError::MissingVersion)
                &&& (method_tok(s@) == "GET"@ && path_tok(s@).len() > 0 && version_tok(
                    s@,
                ).len() > 0 && version_tok(s@).contains(' ') ==> e
                    == RequestParseError::MalformedHeaders)
                &&& (method_tok(s@) == "GET"@ && path_tok(s@).len() > 0 && version_tok(
                    s@,
                ).len() > 0 && !version_tok(s@).contains(' ') && !(protocol_piece(
                    version_tok(s@),
                ) == "HTTP"@ && legacy_version_of(version_piece(version_tok(s@))) is Some) ==> (e
                    == RequestParseError::MissingVersion || e == RequestParseError::NotHTTP || e
                    is UnsupportedVersion))
                &&& (method_tok(s@) == "GET"@ && path_tok(s@).len() > 0 && version_tok(
                    s@,
                ).len() > 0 && !version_tok(s@).contains(' ') && protocol_piece(version_tok(s@))
                    == "HTTP"@ && legacy_version_of(version_piece(version_tok(s@))) is Some ==> e
                    == RequestParseError::MalformedHeaders)
            },
    {
        proof {
            reveal_strlit("GET");
        }
        let n = s.unicode_len();
        let (method, pos1) = take_until(s, 0, Boundary::Space);
        if method.as_str().is_empty() {
            return Err(RequestParseError::MissingMethod);
        }
        let parsed_method = match HTTPMethod::from_str(method.as_str()) {
            Ok(m) => m,
            Err(e) => {
                return Err(e);
            },
        };
        let (path, pos2) = take_until(s, pos1, Boundary::Space);
        if path.as_str().is_empty() {
            return Err(RequestParseError::MissingPath);
        }
        let (http_version_string, pos3) = take_until(s, pos2, Boundary::Newline);
        if http_version_string.as_str().is_empty() {
            return Err(RequestParseError::MissingVersion);
        }
        if crate::strutil::contains_char(http_version_string.as_str(), ' ') {
            return Err(RequestParseError::MalformedHeaders);
        }
        let http_version = match HTTPVersion::from_str(http_version_string.as_str()) {
            Ok(v) => v,
            Err(e) => {
                return Err(e);
            },
        };
        let rest = substr(s, pos3, n);
        proof {
            assert(pos3 == rest_from(s@));
            assert(rest@ == rest_of(s@));
        }
        let headers = match parse_http1_1_headers(rest.as_str()) {
            Ok(h) => h,
            Err(_) => {
                return Err(RequestParseError::MalformedHeaders);
            },
        };
        Ok(Request { method: parsed_method, path, http_version, headers })
    }
}

} // verus!
