//! Body-framing metadata read from the headers: content length, media
//! type, charset, multipart boundary, and the content-encoding list.

use vstd::prelude::*;
use vstd::string::StringExecFns;
use crate::headers::Headers;
use crate::mime::{MainMimeType, MimeType, mime_pair};
use crate::request::RequestParseError;
use crate::strutil::{
    dec_val, parse_u64, split_char, split_spec, str_eq, trim, trim_spec, u64_numeral, views,
};

verus! {

/// The transfer codings a `Content-Encoding` header may advertise.
#[derive(Debug, PartialEq, Eq, Structural, Clone, Copy)]
pub enum ContentEncoding {
    Gzip,
    Compress,
    Deflate,
    Br,
    Zstd,
}

/// The coding one token names, if any.
pub open spec fn enc_parse(s: Seq<char>) -> Option<ContentEncoding> {
    if s == "gzip"@ {
        Some(ContentEncoding::Gzip)
    } else if s == "compress"@ {
        Some(ContentEncoding::Compress)
    } else if s == "deflate"@ {
        Some(ContentEncoding::Deflate)
    } else if s == "br"@ {
        Some(ContentEncoding::Br)
    } else if s == "zstd"@ {
        Some(ContentEncoding::Zstd)
    } else {
        None
    }
}

impl ContentEncoding {
    /// Reads one coding token. Use `parse_content_encoding` for a whole
    /// `Content-Encoding` header, which may list several.
    pub fn from_str(s: &str) -> (r: Result<ContentEncoding, RequestParseError>)
        ensures
            match r {
                Ok(e) => enc_parse(s@) == Some(e),
                Err(e) => enc_parse(s@) is None && e is BodyParseError,
            },
    {
        if str_eq(s, "gzip") {
            Ok(ContentEncoding::Gzip)
        } else if str_eq(s, "compress") {
            Ok(ContentEncoding::Compress)
        } else if str_eq(s, "deflate") {
            Ok(ContentEncoding::Deflate)
        } else if str_eq(s, "br") {
            Ok(ContentEncoding::Br)
        } else if str_eq(s, "zstd") {
            Ok(ContentEncoding::Zstd)
        } else {
            let mut msg = String::from_str("Invalid content encoding '");
            msg.append(s);
            msg.append("'");
            Err(RequestParseError::BodyParseError(msg))
        }
    }
}

/// Every comma-separated piece of `s`, once trimmed, names a coding.
pub open spec fn enc_list_ok(s: Seq<char>) -> bool {
    forall|i: int|
        0 <= i < split_spec(s, ',').len() ==> enc_parse(
            trim_spec(#[trigger] split_spec(s, ',')[i]),
        ) is Some
}

/// The codings a `Content-Encoding` value lists, in order.
pub open spec fn enc_list(s: Seq<char>) -> Seq<ContentEncoding> {
    split_spec(s, ',').map_values(|p: Seq<char>| enc_parse(trim_spec(p)).unwrap())
}

/// Reads a comma-separated, whitespace-tolerant list of codings, in the
/// order they were applied.
pub fn parse_content_encoding(s: &str) -> (r: Result<Vec<ContentEncoding>, RequestParseError>)
    ensures
        match r {
            Ok(v) => enc_list_ok(s@) && v@ == enc_list(s@),
            Err(e) => !enc_list_ok(s@) && e is BodyParseError,
        },
{
    let pieces = split_char(s, ',');
    let mut out: Vec<ContentEncoding> = Vec::new();
    let n = pieces.len();
    for i in 0..n
        invariant
            n == pieces@.len(),
            views(pieces@) == split_spec(s@, ','),
            out@.len() == i,
            forall|j: int|
                0 <= j < i ==> enc_parse(trim_spec(#[trigger] split_spec(s@, ',')[j])) is Some,
            forall|j: int|
                0 <= j < i ==> out@[j] == enc_parse(
                    trim_spec(#[trigger] split_spec(s@, ',')[j]),
                ).unwrap(),
    {
        proof {
            assert(pieces@[i as int]@ == split_spec(s@, ',')[i as int]);
        }
        let piece = trim(pieces[i].as_str());
        match ContentEncoding::from_str(piece.as_str()) {
            Ok(e) => {
                out.push(e);
            },
            Err(e) => {
                proof {
                    assert(enc_parse(trim_spec(split_spec(s@, ',')[i as int])) is None);
                }
                return Err(e);
            },
        }
    }
    proof {
        assert(out@ =~= enc_list(s@));
    }
    Ok(out)
}

/// Body-framing metadata taken from the headers.
#[derive(Debug)]
pub struct MimeParseInfo {
    pub length: u64,
    pub boundary: Option<String>,
    pub content_type: MimeType,
    pub charset: Option<String>,
    pub encoding: Vec<ContentEncoding>,
}

struct ContentTypeInfo {
    content_type: MimeType,
    charset: Option<String>,
    boundary: Option<String>,
}

/// The view of an optional owned string.
pub open spec fn opt_view(o: Option<String>) -> Option<Seq<char>> {
    match o {
        Some(s) => Some(s@),
        None => None,
    }
}

/// The media-type token of a `Content-Type` value: what stands before
/// the first `;`, trimmed, as a consumer of untrimmed header values
/// must read it.
pub open spec fn ct_media(s: Seq<char>) -> Seq<char> {
    trim_spec(split_spec(s, ';')[0])
}

/// The parameter pieces of a `Content-Type` value.
pub open spec fn ct_params(s: Seq<char>) -> Seq<Seq<char>> {
    split_spec(s, ';').drop_first()
}

/// A parameter has exactly one `=`.
pub open spec fn param_wellformed(p: Seq<char>) -> bool {
    split_spec(p, '=').len() == 2
}

/// The parameter's name, trimmed.
pub open spec fn param_key(p: Seq<char>) -> Seq<char> {
    trim_spec(split_spec(p, '=')[0])
}

/// The parameter's value, kept as written.
pub open spec fn param_val(p: Seq<char>) -> Seq<char> {
    split_spec(p, '=')[1]
}

/// Only `boundaryString` and `charset` parameters are recognized.
pub open spec fn param_known(p: Seq<char>) -> bool {
    param_key(p) == "boundaryString"@ || param_key(p) == "charset"@
}

/// Every parameter is well-formed and recognized.
pub open spec fn params_ok(ps: Seq<Seq<char>>) -> bool {
    forall|i: int|
        0 <= i < ps.len() ==> param_wellformed(#[trigger] ps[i]) && param_known(ps[i])
}

/// The value of the last parameter named `name`, if any.
pub open spec fn param_value(ps: Seq<Seq<char>>, name: Seq<char>) -> Option<Seq<char>>
    decreases ps.len(),
{
    if ps.len() == 0 {
        None
    } else if param_wellformed(ps.last()) && param_key(ps.last()) == name {
        Some(param_val(ps.last()))
    } else {
        param_value(ps.drop_last(), name)
    }
}

/// A `Content-Type` value the parser accepts: a recognized media type,
/// recognized parameters, and a boundary wherever the type is multipart.
pub open spec fn ct_ok(s: Seq<char>) -> bool {
    &&& mime_pair(ct_media(s)) is Some
    &&& params_ok(ct_params(s))
    &&& (mime_pair(ct_media(s)).unwrap().0 == MainMimeType::Multipart ==> param_value(
        ct_params(s),
        "boundaryString"@,
    ) is Some)
}

fn parse_content_type(content_type: &str) -> (r: Result<ContentTypeInfo, RequestParseError>)
    ensures
        match r {
            Ok(info) => {
                &&& ct_ok(content_type@)
                &&& mime_pair(ct_media(content_type@)) == Some(
                    (info.content_type.main_type, info.content_type.sub_type),
                )
                &&& info.content_type.original@ == ct_media(content_type@)
                &&& opt_view(info.charset) == param_value(ct_params(content_type@), "charset"@)
                &&& opt_view(info.boundary) == param_value(
                    ct_params(content_type@),
                    "boundaryString"@,
                )
            },
            Err(e) => !ct_ok(content_type@) && (e is InvalidHeader || e is BodyParseError),
        },
{
    let pieces = split_char(content_type, ';');
    let media = trim(pieces[0].as_str());
    let mime = match MimeType::from_str(media.as_str()) {
        Ok(m) => m,
        Err(_) => {
            let mut msg = String::from_str("Invalid or unsupported MIME type ");
            msg.append(media.as_str());
            return Err(RequestParseError::InvalidHeader(msg));
        },
    };
    let ghost params = ct_params(content_type@);
    let mut charset: Option<String> = None;
    let mut boundary: Option<String> = None;
    let n = pieces.len();
    let mut i: usize = 1;
    while i < n
        invariant
            1 <= i <= n,
            n == pieces@.len(),
            views(pieces@) == split_spec(content_type@, ';'),
            params == ct_params(content_type@),
            params.len() == n - 1,
            forall|j: int|
                0 <= j < i - 1 ==> param_wellformed(#[trigger] params[j]) && param_known(
                    params[j],
                ),
            opt_view(charset) == param_value(params.subrange(0, i - 1), "charset"@),
            opt_view(boundary) == param_value(params.subrange(0, i - 1), "boundaryString"@),
        decreases n - i,
    {
        proof {
            assert(params[i - 1] == views(pieces@)[i as int]);
        }
        let kv = split_char(pieces[i].as_str(), '=');
        if kv.len() != 2 {
            return Err(
                RequestParseError::InvalidHeader(
                    String::from_str("Malformed parameter in Content-Type header"),
                ),
            );
        }
        let key = trim(kv[0].as_str());
        let ghost prev_charset = charset;
        let ghost prev_boundary = boundary;
        if str_eq(key.as_str(), "boundaryString") {
            boundary = Some(kv[1].clone());
        } else if str_eq(key.as_str(), "charset") {
            charset = Some(kv[1].clone());
        } else {
            let mut msg = String::from_str("Unexpected parameter: '");
            msg.append(key.as_str());
            msg.append("'");
            return Err(RequestParseError::InvalidHeader(msg));
        }
        proof {
            reveal_strlit("boundaryString");
            reveal_strlit("charset");
            assert("boundaryString"@.len() != "charset"@.len());
            let pref = params.subrange(0, i as int);
            assert(pref.drop_last() =~= params.subrange(0, i - 1));
            assert(pref.last() == params[i - 1]);
        }
        i = i + 1;
    }
    proof {
        assert(params.subrange(0, params.len() as int) =~= params);
    }
    if matches!(mime.main_type, MainMimeType::Multipart) && boundary.is_none() {
        let mut msg = String::from_str(
            "boundaryString is required for multipart/* MIME types. MIME type: ",
        );
        msg.append(mime.original.as_str());
        return Err(RequestParseError::BodyParseError(msg));
    }
    Ok(ContentTypeInfo { content_type: mime, charset, boundary })
}

/// The headers carry everything the body reader needs: a numeric
/// `content-length` and an acceptable `content-type`, with any
/// `content-encoding` list readable.
pub open spec fn mime_info_ok(h: Headers) -> bool {
    &&& h.contains_key("content-length"@)
    &&& u64_numeral(trim_spec(h.value_of("content-length"@)))
    &&& (h.contains_key("content-encoding"@) ==> enc_list_ok(h.value_of("content-encoding"@)))
    &&& h.contains_key("content-type"@)
    &&& ct_ok(h.value_of("content-type"@))
}

/// Reads the body-framing metadata out of the (lower-cased) headers:
/// succeeds exactly when `mime_info_ok` holds, and then returns the
/// parsed length, media type, charset, boundary and encoding list.
pub fn parse_mime_info(headers: &Headers) -> (r: Result<MimeParseInfo, RequestParseError>)
    requires
        headers.wf(),
    ensures
        match r {
            Ok(info) => {
                &&& mime_info_ok(*headers)
                &&& info.length == dec_val(trim_spec(headers.value_of("content-length"@)))
                &&& (headers.contains_key("content-encoding"@) ==> info.encoding@ == enc_list(
                    headers.value_of("content-encoding"@),
                ))
                &&& (!headers.contains_key("content-encoding"@) ==> info.encoding@ == Seq::<
                    ContentEncoding,
                >::empty())
                &&& {
                    let ct = headers.value_of("content-type"@);
                    &&& mime_pair(ct_media(ct)) == Some(
                        (info.content_type.main_type, info.content_type.sub_type),
                    )
                    &&& info.content_type.original@ == ct_media(ct)
                    &&& opt_view(info.charset) == param_value(ct_params(ct), "charset"@)
                    &&& opt_view(info.boundary) == param_value(ct_params(ct), "boundaryString"@)
                }
            },
            Err(e) => {
                &&& !mime_info_ok(*headers)
                &&& (!headers.contains_key("content-length"@) ==> e is BodyParseError)
                &&& (headers.contains_key("content-length"@) && !u64_numeral(
                    trim_spec(headers.value_of("content-length"@)),
                ) ==> e is InvalidHeader)
            },
        },
{
    let content_length = match headers.get("content-length") {
        None => {
            return Err(
                RequestParseError::BodyParseError(String::from_str("Missing content-length")),
            );
        },
        Some(v) => v,
    };
    let trimmed_length = trim(content_length.as_str());
    let length = match parse_u64(trimmed_length.as_str()) {
        Some(v) => v,
        None => {
            let mut msg = content_length.clone();
            msg.append(" is not a valid integer");
            return Err(RequestParseError::InvalidHeader(msg));
        },
    };
    let encoding: Vec<ContentEncoding> = match headers.get("content-encoding") {
        None => Vec::new(),
        Some(enc) => match parse_content_encoding(enc.as_str()) {
            Ok(v) => v,
            Err(e) => {
                return Err(e);
            },
        },
    };
    let content_type = match headers.get("content-type") {
        None => {
            return Err(
                RequestParseError::BodyParseError(String::from_str("Missing content-type")),
            );
        },
        Some(v) => v,
    };
    let info = match parse_content_type(content_type.as_str()) {
        Ok(i) => i,
        Err(e) => {
            return Err(e);
        },
    };
    proof {
        assert(encoding@.len() == 0 ==> encoding@ =~= Seq::<ContentEncoding>::empty());
    }
    Ok(
        MimeParseInfo {
            length,
            content_type: info.content_type,
            boundary: info.boundary,
            charset: info.charset,
            encoding,
        },
    )
}

} // verus!
