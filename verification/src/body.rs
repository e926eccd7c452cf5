//! Reading a framed body as text or as JSON.
//!
//! The body arrives as plain bytes, already taken off the connection by
//! the caller; everything here is a function of those bytes and of the
//! parsed `MimeParseInfo`.

use vstd::prelude::*;
use vstd::string::StringExecFns;
use vstd::utf8::{decode_utf8, valid_utf8};
use crate::content_type::{ContentEncoding, MimeParseInfo};
use crate::mime::{MainMimeType, SubMimeType};
use crate::strutil::{dec_rep, u64_to_dec};

verus! {

/// An arbitrary JSON document.
pub type Json = serde_json::Value;

#[verifier::external_type_specification]
#[verifier::external_body]
pub struct ExValue(serde_json::Value);

#[verifier::external_type_specification]
#[verifier::external_body]
pub struct ExJsonError(serde_json::Error);

/// Whether serde_json reads a text as one JSON document. The grammar
/// is serde_json's own and a function of the text alone; the name lets
/// callers be exact about when body parsing succeeds.
pub uninterp spec fn is_json_doc(s: Seq<char>) -> bool;

/// Relies on `serde_json::from_str::<Value>`: reads the text as one
/// JSON document, succeeding exactly on the texts its grammar accepts
/// — a deterministic function of the text, named `is_json_doc`.
#[verifier::external_body]
fn json_from_str(s: &str) -> (r: Result<serde_json::Value, serde_json::Error>)
    ensures
        r is Ok <==> is_json_doc(s@),
{
    serde_json::from_str::<serde_json::Value>(s)
}

/// Relies on the `Display` of `serde_json::Error`: the parse failure's
/// own description.
#[verifier::external_body]
fn json_err_msg(e: &serde_json::Error) -> String {
    e.to_string()
}

/// Relies on `serde_json::Value::get`: the member of a JSON object
/// under the key, where the value is an object holding it.
#[verifier::external_body]
pub fn json_get<'a>(v: &'a serde_json::Value, key: &str) -> Option<&'a serde_json::Value> {
    v.get(key)
}

/// Relies on `serde_json::Value::as_str`: the text of a JSON string
/// value, owned; nothing for the other value kinds.
#[verifier::external_body]
pub fn json_as_str(v: &serde_json::Value) -> Option<String> {
    match v.as_str() {
        Some(s) => Some(s.to_string()),
        None => None,
    }
}

/// Relies on `String::from_utf8`: succeeds exactly on valid UTF-8 and
/// decodes the bytes.
#[verifier::external_body]
fn string_from_utf8(v: Vec<u8>) -> (r: Option<String>)
    ensures
        r matches Some(s) ==> valid_utf8(v@) && s@ == decode_utf8(v@),
        r is None ==> !valid_utf8(v@),
{
    String::from_utf8(v).ok()
}

/// Turns body bytes into text. The advertised encodings are reported by
/// the caller but not applied: the bytes are read as UTF-8 as they are.
pub fn decode_body(encoding: &[ContentEncoding], body: Vec<u8>) -> (r: Result<
    String,
    &'static str,
>)
    ensures
        r matches Ok(s) ==> valid_utf8(body@) && s@ == decode_utf8(body@),
        r matches Err(m) ==> !valid_utf8(body@) && m@ == "Failed to decode bytes as UTF-8"@,
{
    match string_from_utf8(body) {
        Some(s) => Ok(s),
        None => Err("Failed to decode bytes as UTF-8"),
    }
}

/// The complaint for a body shorter than its advertised length.
pub open spec fn short_read_msg(expected: int, actual: int) -> Seq<char> {
    "Content-Length ("@ + dec_rep(expected) + ") is greater than the actual length ("@ + dec_rep(
        actual,
    ) + ")"@
}

/// The first `length` bytes of `body`: exactly the advertised length, or
/// the complaint when fewer arrived.
pub fn read_body(length: u64, body: &[u8]) -> (r: Result<Vec<u8>, String>)
    ensures
        match r {
            Ok(v) => length <= body@.len() && v@ == body@.subrange(0, length as int),
            Err(m) => body@.len() < length && m@ == short_read_msg(
                length as int,
                body@.len() as int,
            ),
        },
{
    if (body.len() as u64) < length {
        let mut msg = String::from_str("Content-Length (");
        let expected = u64_to_dec(length);
        msg.append(expected.as_str());
        msg.append(") is greater than the actual length (");
        let actual = u64_to_dec(body.len() as u64);
        msg.append(actual.as_str());
        msg.append(")");
        return Err(msg);
    }
    let l = match usize::try_from(length) {
        Ok(l) => l,
        Err(_) => {
            proof {
                assert(false);
            }
            0
        },
    };
    let mut out: Vec<u8> = Vec::new();
    for i in 0..l
        invariant
            l == length,
            l <= body@.len(),
            out@ =~= body@.subrange(0, i as int),
    {
        out.push(body[i]);
        proof {
            assert(out@ =~= body@.subrange(0, i + 1));
        }
    }
    Ok(out)
}

/// The framed prefix of the body, as the advertised length frames it.
pub open spec fn framed(info: MimeParseInfo, body: Seq<u8>) -> Seq<u8> {
    body.subrange(0, info.length as int)
}

/// Reads the body as text: the media type must be in the `text` family,
/// the advertised length must be available, and the framed bytes must be
/// UTF-8.
pub fn parse_body_text(parse_info: &MimeParseInfo, body: &[u8]) -> (r: Result<String, String>)
    ensures
        match r {
            Ok(s) => {
                &&& parse_info.content_type.main_type == MainMimeType::Text
                &&& parse_info.length <= body@.len()
                &&& valid_utf8(framed(*parse_info, body@))
                &&& s@ == decode_utf8(framed(*parse_info, body@))
            },
            Err(m) => {
                &&& (parse_info.content_type.main_type != MainMimeType::Text || parse_info.length
                    > body@.len() || !valid_utf8(framed(*parse_info, body@)))
                &&& (parse_info.content_type.main_type != MainMimeType::Text ==> m@
                    == "Not a text document"@)
            },
        },
{
    if !matches!(parse_info.content_type.main_type, MainMimeType::Text) {
        return Err(String::from_str("Not a text document"));
    }
    let bytes = match read_body(parse_info.length, body) {
        Ok(b) => b,
        Err(e) => {
            return Err(e);
        },
    };
    match decode_body(parse_info.encoding.as_slice(), bytes) {
        Ok(s) => Ok(s),
        Err(e) => Err(e.to_owned()),
    }
}

/// Reads the body as JSON: the media type must be `application/json`,
/// the advertised length available, and the framed bytes UTF-8; given
/// all that, parsing succeeds exactly when the decoded text is one
/// JSON document by serde_json's grammar.
pub fn parse_body_json(parse_info: &MimeParseInfo, body: &[u8]) -> (r: Result<Json, String>)
    ensures
        r is Ok ==> {
            &&& parse_info.content_type.main_type == MainMimeType::Application
            &&& parse_info.content_type.sub_type == SubMimeType::JSON
            &&& parse_info.length <= body@.len()
            &&& valid_utf8(framed(*parse_info, body@))
        },
        parse_info.content_type.main_type == MainMimeType::Application
            && parse_info.content_type.sub_type == SubMimeType::JSON && parse_info.length
            <= body@.len() && valid_utf8(framed(*parse_info, body@)) ==> (r is Ok <==> is_json_doc(
            decode_utf8(framed(*parse_info, body@)),
        )),
        r matches Err(m) ==> {
            &&& (!(parse_info.content_type.main_type == MainMimeType::Application
                && parse_info.content_type.sub_type == SubMimeType::JSON) ==> m@ == "Not JSON"@)
            &&& (parse_info.content_type.main_type == MainMimeType::Application
                && parse_info.content_type.sub_type == SubMimeType::JSON && parse_info.length
                > body@.len() ==> m@ == short_read_msg(parse_info.length as int, body@.len() as int))
            &&& (parse_info.content_type.main_type == MainMimeType::Application
                && parse_info.content_type.sub_type == SubMimeType::JSON && parse_info.length
                <= body@.len() && !valid_utf8(framed(*parse_info, body@)) ==> m@
                == "Failed to decode bytes as UTF-8"@)
        },
{
    if !(matches!(parse_info.content_type.main_type, MainMimeType::Application) && matches!(
        parse_info.content_type.sub_type,
        SubMimeType::JSON,
    )) {
        return Err(String::from_str("Not JSON"));
    }
    let content_bytes = match read_body(parse_info.length, body) {
        Ok(b) => b,
        Err(e) => {
            return Err(e);
        },
    };
    let content = match decode_body(parse_info.encoding.as_slice(), content_bytes) {
        Ok(s) => s,
        Err(e) => {
            return Err(e.to_owned());
        },
    };
    match json_from_str(content.as_str()) {
        Ok(v) => Ok(v),
        Err(reason) => {
            let mut msg = String::from_str("Failed to decode JSON because: '");
            msg.append(json_err_msg(&reason).as_str());
            msg.append("'");
            Err(msg)
        },
    }
}

} // verus!
