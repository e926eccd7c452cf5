//! Wire-level request types: method, version, path form, parse errors,
//! and the parsed request head.

use vstd::prelude::*;
use vstd::string::StringExecFns;
use crate::headers::Headers;
use crate::strutil::{
    dec_rep, dec_val, find_idx, lemma_find_idx, split_first, str_eq, u64_numeral, parse_u64,
    u64_to_dec, starts_with, contains_char,
};

verus! {

/// The nine request methods of the closed set.
#[derive(Debug, PartialEq, Eq, Structural, Clone, Copy)]
pub enum HTTPMethod {
    Get,
    Post,
    Put,
    Patch,
    Delete,
    Connect,
    Options,
    Trace,
    Head,
}

/// The upper-case wire token of a method.
pub open spec fn method_name(m: HTTPMethod) -> Seq<char> {
    match m {
        HTTPMethod::Get => "GET"@,
        HTTPMethod::Post => "POST"@,
        HTTPMethod::Put => "PUT"@,
        HTTPMethod::Patch => "PATCH"@,
        HTTPMethod::Delete => "DELETE"@,
        HTTPMethod::Connect => "CONNECT"@,
        HTTPMethod::Options => "OPTIONS"@,
        HTTPMethod::Trace => "TRACE"@,
        HTTPMethod::Head => "HEAD"@,
    }
}

/// The method a wire token names, if any.
pub open spec fn parse_method_spec(s: Seq<char>) -> Option<HTTPMethod> {
    if s == "GET"@ {
        Some(HTTPMethod::Get)
    } else if s == "POST"@ {
        Some(HTTPMethod::Post)
    } else if s == "PUT"@ {
        Some(HTTPMethod::Put)
    } else if s == "PATCH"@ {
        Some(HTTPMethod::Patch)
    } else if s == "DELETE"@ {
        Some(HTTPMethod::Delete)
    } else if s == "CONNECT"@ {
        Some(HTTPMethod::Connect)
    } else if s == "OPTIONS"@ {
        Some(HTTPMethod::Options)
    } else if s == "TRACE"@ {
        Some(HTTPMethod::Trace)
    } else if s == "HEAD"@ {
        Some(HTTPMethod::Head)
    } else {
        None
    }
}

proof fn reveal_method_literals()
    ensures
        "GET"@ =~= seq!['G', 'E', 'T'],
        "POST"@ =~= seq!['P', 'O', 'S', 'T'],
        "PUT"@ =~= seq!['P', 'U', 'T'],
        "PATCH"@ =~= seq!['P', 'A', 'T', 'C', 'H'],
        "DELETE"@ =~= seq!['D', 'E', 'L', 'E', 'T', 'E'],
        "CONNECT"@ =~= seq!['C', 'O', 'N', 'N', 'E', 'C', 'T'],
        "OPTIONS"@ =~= seq!['O', 'P', 'T', 'I', 'O', 'N', 'S'],
        "TRACE"@ =~= seq!['T', 'R', 'A', 'C', 'E'],
        "HEAD"@ =~= seq!['H', 'E', 'A', 'D'],
{
    reveal_strlit("GET");
    reveal_strlit("POST");
    reveal_strlit("PUT");
    reveal_strlit("PATCH");
    reveal_strlit("DELETE");
    reveal_strlit("CONNECT");
    reveal_strlit("OPTIONS");
    reveal_strlit("TRACE");
    reveal_strlit("HEAD");
}

/// Parsing the rendered token of any method gives the method back.
pub proof fn lemma_method_round_trip(m: HTTPMethod)
    ensures
        parse_method_spec(method_name(m)) == Some(m),
{
    reveal_method_literals();
}

impl HTTPMethod {
    /// Reads an upper-case wire token.
    pub fn from_str(s: &str) -> (r: Result<HTTPMethod, ()>)
        ensures
            match r {
                Ok(m) => parse_method_spec(s@) == Some(m),
                Err(_) => parse_method_spec(s@) is None,
            },
    {
        if str_eq(s, "GET") {
            Ok(HTTPMethod::Get)
        } else if str_eq(s, "POST") {
            Ok(HTTPMethod::Post)
        } else if str_eq(s, "PUT") {
            Ok(HTTPMethod::Put)
        } else if str_eq(s, "PATCH") {
            Ok(HTTPMethod::Patch)
        } else if str_eq(s, "DELETE") {
            Ok(HTTPMethod::Delete)
        } else if str_eq(s, "CONNECT") {
            Ok(HTTPMethod::Connect)
        } else if str_eq(s, "OPTIONS") {
            Ok(HTTPMethod::Options)
        } else if str_eq(s, "TRACE") {
            Ok(HTTPMethod::Trace)
        } else if str_eq(s, "HEAD") {
            Ok(HTTPMethod::Head)
        } else {
            Err(())
        }
    }

    /// The upper-case wire token, as the display form shows it.
    pub fn render(&self) -> (r: String)
        ensures
            r@ == method_name(*self),
    {
        match self {
            HTTPMethod::Get => String::from_str("GET"),
            HTTPMethod::Post => String::from_str("POST"),
            HTTPMethod::Put => String::from_str("PUT"),
            HTTPMethod::Patch => String::from_str("PATCH"),
            HTTPMethod::Delete => String::from_str("DELETE"),
            HTTPMethod::Connect => String::from_str("CONNECT"),
            HTTPMethod::Options => String::from_str("OPTIONS"),
            HTTPMethod::Trace => String::from_str("TRACE"),
            HTTPMethod::Head => String::from_str("HEAD"),
        }
    }
}

/// The protocol versions the data model knows. Only 0.9, 1.0 and 1.1
/// have a start-line form; 2 and 3 are placeholders.
#[derive(Debug, PartialEq, Eq, Structural, Clone, Copy)]
pub enum HTTPVersion {
    V0_9,
    V1_0,
    V1_1,
    V2,
    V3,
}

/// The start-line token of a version, for every version.
pub open spec fn version_name(v: HTTPVersion) -> Seq<char> {
    match v {
        HTTPVersion::V0_9 => "HTTP/0.9"@,
        HTTPVersion::V1_0 => "HTTP/1.0"@,
        HTTPVersion::V1_1 => "HTTP/1.1"@,
        HTTPVersion::V2 => "HTTP/2"@,
        HTTPVersion::V3 => "HTTP/3"@,
    }
}

/// The version a start-line token names: only 0.9, 1.0 and 1.1 have one.
pub open spec fn parse_version_spec(s: Seq<char>) -> Option<HTTPVersion> {
    if s == "HTTP/0.9"@ {
        Some(HTTPVersion::V0_9)
    } else if s == "HTTP/1.0"@ {
        Some(HTTPVersion::V1_0)
    } else if s == "HTTP/1.1"@ {
        Some(HTTPVersion::V1_1)
    } else {
        None
    }
}

proof fn reveal_version_literals()
    ensures
        "HTTP/0.9"@ =~= seq!['H', 'T', 'T', 'P', '/', '0', '.', '9'],
        "HTTP/1.0"@ =~= seq!['H', 'T', 'T', 'P', '/', '1', '.', '0'],
        "HTTP/1.1"@ =~= seq!['H', 'T', 'T', 'P', '/', '1', '.', '1'],
{
    reveal_strlit("HTTP/0.9");
    reveal_strlit("HTTP/1.0");
    reveal_strlit("HTTP/1.1");
}

/// Parsing the rendered token of any wire-serialized version gives the
/// version back.
pub proof fn lemma_version_round_trip(v: HTTPVersion)
    requires
        v == HTTPVersion::V0_9 || v == HTTPVersion::V1_0 || v == HTTPVersion::V1_1,
    ensures
        parse_version_spec(version_name(v)) == Some(v),
{
    reveal_version_literals();
}

/// What kind of connection an outside stream runs over. The streams
/// themselves live with the accept loop, outside the library.
#[derive(Debug, Clone, Copy)]
pub enum SyncableStreamType {
    Tcp,
    Quic,
}

/// Why a request failed to parse.
#[derive(Debug)]
pub enum RequestParseError {
    InvalidStartLine(&'static str),
    InvalidHeader(String),
    MissingHostHeader,
    BodyParseError(String),
    UnsupportedVersion(String),
}

/// The display form of a parse error: a fixed prelude, then the detail
/// line for the failure.
pub open spec fn error_message(e: RequestParseError) -> Seq<char> {
    "Failed to parse request.\n=>"@ + match e {
        RequestParseError::BodyParseError(reason) => "Could not parse body: "@ + reason@,
        RequestParseError::InvalidStartLine(reason) => "Start line is invalid: "@ + reason@,
        RequestParseError::MissingHostHeader =>
            "The Host header must be passed in HTTP/1.1 requests"@,
        RequestParseError::InvalidHeader(line) => "The following header was invalid: \""@ + line@
            + seq!['"'],
        RequestParseError::UnsupportedVersion(v) => "Unsupported version \""@ + v@ + seq!['"'],
    }
}

impl RequestParseError {
    /// The human description of the failure.
    pub fn message(&self) -> (r: String)
        ensures
            r@ == error_message(*self),
    {
        let mut out = String::from_str("Failed to parse request.\n=>");
        match self {
            RequestParseError::BodyParseError(reason) => {
                out.append("Could not parse body: ");
                out.append(reason.as_str());
            },
            RequestParseError::InvalidStartLine(reason) => {
                out.append("Start line is invalid: ");
                out.append(reason);
            },
            RequestParseError::MissingHostHeader => {
                out.append("The Host header must be passed in HTTP/1.1 requests");
            },
            RequestParseError::InvalidHeader(line) => {
                out.append("The following header was invalid: \"");
                out.append(line.as_str());
                crate::strutil::push_char(&mut out, '"');
            },
            RequestParseError::UnsupportedVersion(v) => {
                out.append("Unsupported version \"");
                out.append(v.as_str());
                crate::strutil::push_char(&mut out, '"');
            },
        }
        out
    }
}

impl HTTPVersion {
    /// Reads a start-line version token.
    pub fn from_str(s: &str) -> (r: Result<HTTPVersion, RequestParseError>)
        ensures
            match r {
                Ok(v) => parse_version_spec(s@) == Some(v),
                Err(e) => parse_version_spec(s@) is None && (e matches
                    RequestParseError::UnsupportedVersion(t) && t@ == s@),
            },
    {
        if str_eq(s, "HTTP/0.9") {
            Ok(HTTPVersion::V0_9)
        } else if str_eq(s, "HTTP/1.0") {
            Ok(HTTPVersion::V1_0)
        } else if str_eq(s, "HTTP/1.1") {
            Ok(HTTPVersion::V1_1)
        } else {
            Err(RequestParseError::UnsupportedVersion(s.to_owned()))
        }
    }

    /// The display form of a version, for every version.
    pub fn render(&self) -> (r: String)
        ensures
            r@ == version_name(*self),
    {
        match self {
            HTTPVersion::V0_9 => String::from_str("HTTP/0.9"),
            HTTPVersion::V1_0 => String::from_str("HTTP/1.0"),
            HTTPVersion::V1_1 => String::from_str("HTTP/1.1"),
            HTTPVersion::V2 => String::from_str("HTTP/2"),
            HTTPVersion::V3 => String::from_str("HTTP/3"),
        }
    }
}

/// The four request-target shapes.
#[derive(Debug, PartialEq)]
pub enum Path {
    OriginForm(String),
    AbsoluteForm(String),
    AuthorityForm(String, u16),
    Asterisk,
}

/// The ghost shape of a `Path`.
pub enum PathV {
    Origin(Seq<char>),
    Absolute(Seq<char>),
    Authority(Seq<char>, u16),
    Ast,
}

impl View for Path {
    type V = PathV;

    open spec fn view(&self) -> PathV {
        match self {
            Path::OriginForm(s) => PathV::Origin(s@),
            Path::AbsoluteForm(s) => PathV::Absolute(s@),
            Path::AuthorityForm(h, p) => PathV::Authority(h@, *p),
            Path::Asterisk => PathV::Ast,
        }
    }
}

impl Clone for Path {
    /// An equal path.
    fn clone(&self) -> (r: Self)
        ensures
            r@ == self@,
    {
        match self {
            Path::OriginForm(s) => Path::OriginForm(s.clone()),
            Path::AbsoluteForm(s) => Path::AbsoluteForm(s.clone()),
            Path::AuthorityForm(h, p) => Path::AuthorityForm(h.clone(), *p),
            Path::Asterisk => Path::Asterisk,
        }
    }
}

/// How a request-target token is classified: a leading `/` makes an
/// origin form, a `http://` prefix an absolute form, a `:` with a valid
/// port an authority form, and `*` the asterisk form.
pub open spec fn parse_path_spec(s: Seq<char>) -> Option<PathV> {
    if s.len() > 0 && s[0] == '/' {
        Some(PathV::Origin(s))
    } else if "http://"@.is_prefix_of(s) {
        Some(PathV::Absolute(s))
    } else if s.contains(':') {
        let host = s.subrange(0, find_idx(s, ':'));
        let port = s.subrange(find_idx(s, ':') + 1, s.len() as int);
        if u64_numeral(port) && dec_val(port) <= u16::MAX {
            Some(PathV::Authority(host, dec_val(port) as u16))
        } else {
            None
        }
    } else if s == "*"@ {
        Some(PathV::Ast)
    } else {
        None
    }
}

impl Path {
    /// Classifies a request-target token.
    pub fn from_str(s: &str) -> (r: Result<Path, ()>)
        ensures
            match r {
                Ok(p) => parse_path_spec(s@) == Some(p@),
                Err(_) => parse_path_spec(s@) is None,
            },
    {
        let n = s.unicode_len();
        if n > 0 && s.get_char(0) == '/' {
            Ok(Path::OriginForm(s.to_owned()))
        } else if starts_with(s, "http://") {
            Ok(Path::AbsoluteForm(s.to_owned()))
        } else if contains_char(s, ':') {
            proof {
                lemma_find_idx(s@, ':');
            }
            match split_first(s, ':') {
                Some((host, port)) => {
                    match parse_u64(port.as_str()) {
                        Some(v) if v <= u16::MAX as u64 => Ok(
                            Path::AuthorityForm(host, v as u16),
                        ),
                        _ => Err(()),
                    }
                },
                None => Err(()),
            }
        } else if str_eq(s, "*") {
            Ok(Path::Asterisk)
        } else {
            Err(())
        }
    }

    /// The display form: the raw token for origin and absolute forms,
    /// `host:port` for the authority form, `*` for the asterisk.
    pub fn render(&self) -> (r: String)
        ensures
            r@ == path_render(self@),
    {
        match self {
            Path::OriginForm(s) => s.clone(),
            Path::AbsoluteForm(s) => s.clone(),
            Path::AuthorityForm(h, p) => {
                let mut out = h.clone();
                out.append(":");
                let digits = u64_to_dec(*p as u64);
                out.append(digits.as_str());
                proof {
                    reveal_strlit(":");
                    assert(":"@ =~= seq![':']);
                    assert(out@ =~= h@ + seq![':'] + dec_rep(*p as int));
                }
                out
            },
            Path::Asterisk => String::from_str("*"),
        }
    }
}

/// The display form of a path shape.
pub open spec fn path_render(p: PathV) -> Seq<char> {
    match p {
        PathV::Origin(s) => s,
        PathV::Absolute(s) => s,
        PathV::Authority(h, port) => h + seq![':'] + dec_rep(port as int),
        PathV::Ast => "*"@,
    }
}

/// Everything of a request up to the first empty line.
#[derive(Debug)]
pub struct RequestHead {
    pub method: HTTPMethod,
    pub path: Path,
    pub version: HTTPVersion,
    pub headers: Headers,
}

impl RequestHead {
    /// True exactly for the methods that carry a body: PUT, POST, PATCH.
    pub fn should_read_body(&self) -> (r: bool)
        ensures
            r == (self.method == HTTPMethod::Put || self.method == HTTPMethod::Post || self.method
                == HTTPMethod::Patch),
    {
        matches!(self.method, HTTPMethod::Put | HTTPMethod::Post | HTTPMethod::Patch)
    }
}

/// A parsed request: the head and the raw body bytes that were framed
/// for it. The connection I/O that produced both lives outside the
/// library.
pub struct Request {
    pub head: RequestHead,
    pub body: Vec<u8>,
}

/// The body length the headers advertise, the raw value trimmed.
pub open spec fn advertised_len(h: Headers) -> int {
    dec_val(crate::strutil::trim_spec(h.value_of("content-length"@)))
}

/// The media-type pair the headers advertise.
pub open spec fn advertised_mime(h: Headers) -> (crate::mime::MainMimeType,
    crate::mime::SubMimeType,
) {
    crate::mime::mime_pair(
        crate::content_type::ct_media(h.value_of("content-type"@)),
    ).unwrap()
}

/// The framed body: the advertised prefix of the raw bytes.
pub open spec fn framed_body(h: Headers, body: Seq<u8>) -> Seq<u8> {
    body.subrange(0, advertised_len(h))
}

impl Request {
    /// A request over bytes already read off the connection.
    pub fn new(head: RequestHead, body: Vec<u8>) -> (r: Request)
        ensures
            r.head == head,
            r.body == body,
    {
        Request { head, body }
    }

    /// Reads the framed body as text: the headers must frame a `text`
    /// body whose bytes arrived in full and decode as UTF-8.
    pub fn read_body_text(&self) -> (r: Result<String, RequestParseError>)
        requires
            self.head.headers.wf(),
        ensures
            match r {
                Ok(s) => {
                    &&& crate::content_type::mime_info_ok(self.head.headers)
                    &&& advertised_mime(self.head.headers).0 == crate::mime::MainMimeType::Text
                    &&& advertised_len(self.head.headers) <= self.body@.len()
                    &&& vstd::utf8::valid_utf8(framed_body(self.head.headers, self.body@))
                    &&& s@ == vstd::utf8::decode_utf8(framed_body(self.head.headers, self.body@))
                },
                Err(e) => {
                    &&& (crate::content_type::mime_info_ok(self.head.headers) ==> (advertised_mime(
                        self.head.headers,
                    ).0 != crate::mime::MainMimeType::Text || advertised_len(self.head.headers)
                        > self.body@.len() || !vstd::utf8::valid_utf8(
                        framed_body(self.head.headers, self.body@),
                    )))
                    &&& (crate::content_type::mime_info_ok(self.head.headers) ==> e
                        is BodyParseError)
                },
            },
    {
        let mime_info = match crate::content_type::parse_mime_info(&self.head.headers) {
            Ok(i) => i,
            Err(e) => {
                return Err(e);
            },
        };
        match crate::body::parse_body_text(&mime_info, self.body.as_slice()) {
            Ok(s) => Ok(s),
            Err(e) => {
                let mut msg = String::from_str("Failed to parse body due to '");
                msg.append(e.as_str());
                msg.append("'");
                Err(RequestParseError::BodyParseError(msg))
            },
        }
    }

    /// Reads the framed body as JSON: the headers must frame an
    /// `application/json` body whose bytes arrived in full and decode
    /// as UTF-8; given all that, reading succeeds exactly when the
    /// decoded text is one JSON document by serde_json's grammar.
    pub fn read_body_json(&self) -> (r: Result<crate::body::Json, RequestParseError>)
        requires
            self.head.headers.wf(),
        ensures
            r is Ok ==> {
                &&& crate::content_type::mime_info_ok(self.head.headers)
                &&& advertised_mime(self.head.headers) == (
                    crate::mime::MainMimeType::Application,
                    crate::mime::SubMimeType::JSON,
                )
                &&& advertised_len(self.head.headers) <= self.body@.len()
                &&& vstd::utf8::valid_utf8(framed_body(self.head.headers, self.body@))
            },
            crate::content_type::mime_info_ok(self.head.headers) && advertised_mime(
                self.head.headers,
            ) == (crate::mime::MainMimeType::Application, crate::mime::SubMimeType::JSON)
                && advertised_len(self.head.headers) <= self.body@.len()
                && vstd::utf8::valid_utf8(framed_body(self.head.headers, self.body@)) ==> (r
                is Ok <==> crate::body::is_json_doc(
                vstd::utf8::decode_utf8(framed_body(self.head.headers, self.body@)),
            )),
            r matches Err(e) ==> (crate::content_type::mime_info_ok(self.head.headers) ==> e
                is BodyParseError),
    {
        let mime_info = match crate::content_type::parse_mime_info(&self.head.headers) {
            Ok(i) => i,
            Err(e) => {
                return Err(e);
            },
        };
        match crate::body::parse_body_json(&mime_info, self.body.as_slice()) {
            Ok(v) => Ok(v),
            Err(e) => {
                let mut msg = String::from_str("Failed to parse body due to '");
                msg.append(e.as_str());
                msg.append("'");
                Err(RequestParseError::BodyParseError(msg))
            },
        }
    }
}

} // verus!
