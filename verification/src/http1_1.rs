//! The HTTP/1.x head parser: start line and header lines, up to the
//! first empty line. The body is never read here; the caller keeps the
//! rest of the stream for the lazy body reader.

use vstd::prelude::*;
use crate::headers::{Headers, all_lower_keys};
use crate::request::{
    HTTPMethod, HTTPVersion, Path, RequestHead, RequestParseError, parse_method_spec,
    parse_path_spec, parse_version_spec, PathV,
};
use crate::strutil::{
    find_idx, lemma_find_idx, lines_spec, lines_vec, lower_seq, split_first, split_spec,
    split_char, to_lower, views,
};

verus! {

/// The space-separated pieces of a start line.
pub open spec fn start_segs(line: Seq<char>) -> Seq<Seq<char>> {
    split_spec(line, ' ')
}

/// A start line the parser accepts: two pieces (method and path, an
/// HTTP/0.9 request) or three (method, path, version), each piece
/// readable.
pub open spec fn start_line_ok(line: Seq<char>) -> bool {
    let segs = start_segs(line);
    if segs.len() == 2 {
        parse_method_spec(segs[0]) is Some && parse_path_spec(segs[1]) is Some
    } else if segs.len() == 3 {
        parse_method_spec(segs[0]) is Some && parse_path_spec(segs[1]) is Some
            && parse_version_spec(segs[2]) is Some
    } else {
        false
    }
}

/// The method of an accepted start line.
pub open spec fn start_line_method(line: Seq<char>) -> HTTPMethod {
    parse_method_spec(start_segs(line)[0]).unwrap()
}

/// The path shape of an accepted start line.
pub open spec fn start_line_path(line: Seq<char>) -> PathV {
    parse_path_spec(start_segs(line)[1]).unwrap()
}

/// The version of an accepted start line: 0.9 where the version piece
/// is absent.
pub open spec fn start_line_version(line: Seq<char>) -> HTTPVersion {
    if start_segs(line).len() == 2 {
        HTTPVersion::V0_9
    } else {
        parse_version_spec(start_segs(line)[2]).unwrap()
    }
}

struct StartLine {
    method: HTTPMethod,
    path: Path,
    version: HTTPVersion,
}

fn parse_start_line(line: &str) -> (r: Result<StartLine, RequestParseError>)
    ensures
        match r {
            Ok(sl) => {
                &&& start_line_ok(line@)
                &&& sl.method == start_line_method(line@)
                &&& sl.path@ == start_line_path(line@)
                &&& sl.version == start_line_version(line@)
            },
            Err(e) => {
                &&& !start_line_ok(line@)
                &&& e matches RequestParseError::InvalidStartLine(m) && {
                    let segs = start_segs(line@);
                    &&& (segs.len() <= 1 ==> m@ == "Too few segments"@)
                    &&& (segs.len() > 3 ==> m@ == "Too many segments"@)
                    &&& (segs.len() == 3 && parse_version_spec(segs[2]) is None ==> m@
                        == "Invalid HTTP version"@)
                    &&& ((segs.len() == 2 || (segs.len() == 3 && parse_version_spec(
                        segs[2],
                    ) is Some)) && parse_method_spec(segs[0]) is None ==> m@
                        == "Invalid method"@)
                    &&& ((segs.len() == 2 || (segs.len() == 3 && parse_version_spec(
                        segs[2],
                    ) is Some)) && parse_method_spec(segs[0]) is Some && parse_path_spec(
                        segs[1],
                    ) is None ==> m@ == "Invalid path"@)
                }
            },
        },
{
    let segments = split_char(line, ' ');
    if segments.len() <= 1 {
        return Err(RequestParseError::InvalidStartLine("Too few segments"));
    }
    if segments.len() > 3 {
        return Err(RequestParseError::InvalidStartLine("Too many segments"));
    }
    let version = if segments.len() == 2 {
        HTTPVersion::V0_9
    } else {
        match HTTPVersion::from_str(segments[2].as_str()) {
            Ok(v) => v,
            Err(_) => {
                return Err(RequestParseError::InvalidStartLine("Invalid HTTP version"));
            },
        }
    };
    let method = match HTTPMethod::from_str(segments[0].as_str()) {
        Ok(m) => m,
        Err(_) => {
            return Err(RequestParseError::InvalidStartLine("Invalid method"));
        },
    };
    let path = match Path::from_str(segments[1].as_str()) {
        Ok(p) => p,
        Err(_) => {
            return Err(RequestParseError::InvalidStartLine("Invalid path"));
        },
    };
    Ok(StartLine { method, path, version })
}

/// A header line has a `:` somewhere.
pub open spec fn header_line_ok(line: Seq<char>) -> bool {
    find_idx(line, ':') < line.len()
}

/// The lower-cased name of a header line.
pub open spec fn header_name(line: Seq<char>) -> Seq<char> {
    lower_seq(line.subrange(0, find_idx(line, ':')))
}

/// The raw value of a header line: everything after the first `:`,
/// untrimmed.
pub open spec fn header_value(line: Seq<char>) -> Seq<char> {
    line.subrange(find_idx(line, ':') + 1, line.len() as int)
}

/// The value the header lines leave under the lower-cased name `k`:
/// the last line with that name wins.
pub open spec fn headers_value(lines: Seq<Seq<char>>, k: Seq<char>) -> Option<Seq<char>>
    decreases lines.len(),
{
    if lines.len() == 0 {
        None
    } else if header_line_ok(lines.last()) && header_name(lines.last()) == k {
        Some(header_value(lines.last()))
    } else {
        headers_value(lines.drop_last(), k)
    }
}

/// Reads the header lines `lines[lo .. hi]` into a map from lower-cased
/// names to raw values, the last line of a name winning; fails on the
/// first line without a `:`, naming its position among the headers.
pub fn parse_headers(lines: &Vec<String>, lo: usize, hi: usize) -> (r: Result<
    Headers,
    RequestParseError,
>)
    requires
        lo <= hi <= lines@.len(),
    ensures
        match r {
            Ok(h) => {
                &&& forall|j: int|
                    lo <= j < hi ==> header_line_ok(#[trigger] views(lines@)[j])
                &&& h.wf()
                &&& all_lower_keys(h.pairs())
                &&& forall|k: Seq<char>|
                    #[trigger] h.contains_key(k) <==> headers_value(
                        views(lines@).subrange(lo as int, hi as int),
                        k,
                    ) is Some
                &&& forall|k: Seq<char>|
                    #[trigger] h.contains_key(k) ==> Some(h.value_of(k)) == headers_value(
                        views(lines@).subrange(lo as int, hi as int),
                        k,
                    )
            },
            Err(e) => {
                &&& exists|j: int|
                    lo <= j < hi && !header_line_ok(#[trigger] views(lines@)[j])
                &&& e is InvalidHeader
            },
        },
{
    let mut headers = Headers::new();
    let ghost all = views(lines@);
    let mut i: usize = lo;
    while i < hi
        invariant
            lo <= i <= hi <= lines@.len(),
            all == views(lines@),
            headers.wf(),
            all_lower_keys(headers.pairs()),
            forall|j: int| lo <= j < i ==> header_line_ok(#[trigger] all[j]),
            forall|k: Seq<char>|
                #[trigger] headers.contains_key(k) <==> headers_value(
                    all.subrange(lo as int, i as int),
                    k,
                ) is Some,
            forall|k: Seq<char>|
                #[trigger] headers.contains_key(k) ==> Some(headers.value_of(k)) == headers_value(
                    all.subrange(lo as int, i as int),
                    k,
                ),
        decreases hi - i,
    {
        let line = lines[i].as_str();
        proof {
            lemma_find_idx(line@, ':');
        }
        match split_first(line, ':') {
            None => {
                proof {
                    assert(all[i as int] == line@);
                    assert(!header_line_ok(all[i as int]));
                }
                let line_no = crate::strutil::u64_to_dec((i - lo) as u64);
                return Err(RequestParseError::InvalidHeader(line_no));
            },
            Some((name, value)) => {
                let low = to_lower(name.as_str());
                proof {
                    crate::response::lemma_lower_seq_idem(name@);
                }
                headers.insert(low, value);
                proof {
                    let sub = all.subrange(lo as int, i + 1);
                    assert(sub.drop_last() =~= all.subrange(lo as int, i as int));
                    assert(sub.last() == all[i as int]);
                    assert(header_line_ok(all[i as int]));
                    assert(header_name(all[i as int]) == lower_seq(name@));
                    assert forall|k: Seq<char>| #[trigger] headers.contains_key(k)
                        <==> headers_value(sub, k) is Some by {}
                    assert forall|k: Seq<char>| #[trigger] headers.contains_key(k) implies Some(
                        headers.value_of(k),
                    ) == headers_value(sub, k) by {}
                }
            },
        }
        i = i + 1;
    }
    Ok(headers)
}

/// Where the header lines end: the first empty line at or after `from`,
/// or the end of the lines.
pub open spec fn first_empty_from(lines: Seq<Seq<char>>, from: int) -> int
    decreases lines.len() - from,
{
    if from < 0 || from >= lines.len() {
        lines.len() as int
    } else if lines[from].len() == 0 {
        from
    } else {
        first_empty_from(lines, from + 1)
    }
}

proof fn lemma_first_empty_from(lines: Seq<Seq<char>>, from: int)
    requires
        0 <= from <= lines.len(),
    ensures
        from <= first_empty_from(lines, from) <= lines.len(),
        first_empty_from(lines, from) < lines.len() ==> lines[first_empty_from(
            lines,
            from,
        )].len() == 0,
        forall|j: int| from <= j < first_empty_from(lines, from) ==> (#[trigger] lines[j]).len()
            != 0,
    decreases lines.len() - from,
{
    if from < lines.len() && lines[from].len() != 0 {
        lemma_first_empty_from(lines, from + 1);
    }
}

/// The lines of a request head and where its headers end.
pub open spec fn head_lines(s: Seq<char>) -> Seq<Seq<char>> {
    lines_spec(s)
}

/// A request head the parser accepts: a readable start line, readable
/// header lines up to the first empty line, and a `host` header
/// wherever the version is 1.1.
pub open spec fn req_head_ok(s: Seq<char>) -> bool {
    let lines = head_lines(s);
    let end = first_empty_from(lines, 1);
    &&& lines.len() > 0
    &&& start_line_ok(lines[0])
    &&& forall|j: int| 1 <= j < end ==> header_line_ok(#[trigger] lines[j])
    &&& (start_line_version(lines[0]) == HTTPVersion::V1_1 ==> headers_value(
        lines.subrange(1, end),
        "host"@,
    ) is Some)
}

/// Parses a request head: start line, then headers up to the first
/// empty line; an HTTP/1.1 head must name a host. Succeeds exactly on
/// the heads `req_head_ok` accepts, with the parsed method, path shape,
/// version and header map stated piece by piece.
pub fn parse_req(req: &str) -> (r: Result<RequestHead, RequestParseError>)
    ensures
        match r {
            Ok(h) => {
                let lines = head_lines(req@);
                let end = first_empty_from(lines, 1);
                &&& req_head_ok(req@)
                &&& h.method == start_line_method(lines[0])
                &&& h.path@ == start_line_path(lines[0])
                &&& h.version == start_line_version(lines[0])
                &&& h.headers.wf()
                &&& all_lower_keys(h.headers.pairs())
                &&& forall|k: Seq<char>|
                    #[trigger] h.headers.contains_key(k) <==> headers_value(
                        lines.subrange(1, end),
                        k,
                    ) is Some
                &&& forall|k: Seq<char>|
                    #[trigger] h.headers.contains_key(k) ==> Some(h.headers.value_of(k))
                        == headers_value(lines.subrange(1, end), k)
            },
            Err(e) => {
                let lines = head_lines(req@);
                &&& !req_head_ok(req@)
                &&& (lines.len() == 0 ==> (e matches RequestParseError::InvalidStartLine(m) && m@
                    == "Missing start line"@))
                &&& (lines.len() > 0 && !start_line_ok(lines[0]) ==> e is InvalidStartLine)
                &&& (lines.len() > 0 && start_line_ok(lines[0]) && (exists|j: int|
                    1 <= j < first_empty_from(lines, 1) && !header_line_ok(
                        #[trigger] lines[j],
                    )) ==> e is InvalidHeader)
                &&& (lines.len() > 0 && start_line_ok(lines[0]) && (forall|j: int|
                    1 <= j < first_empty_from(lines, 1) ==> header_line_ok(#[trigger] lines[j]))
                    ==> e is MissingHostHeader)
            },
        },
{
    let lines = lines_vec(req);
    let k = lines.len();
    if k == 0 {
        return Err(RequestParseError::InvalidStartLine("Missing start line"));
    }
    let sl = match parse_start_line(lines[0].as_str()) {
        Ok(sl) => sl,
        Err(e) => {
            return Err(e);
        },
    };
    let ghost lviews = views(lines@);
    proof {
        lemma_first_empty_from(lviews, 1);
    }
    let mut end: usize = 1;
    while end < k && !lines[end].as_str().is_empty()
        invariant
            1 <= end <= k,
            k == lines@.len(),
            lviews == views(lines@),
            forall|j: int| 1 <= j < end ==> (#[trigger] lviews[j]).len() != 0,
        decreases k - end,
    {
        end = end + 1;
    }
    proof {
        assert(end == first_empty_from(lviews, 1)) by {
            let f = first_empty_from(lviews, 1);
            if f < end {
                assert(lviews[f].len() != 0);
            }
            if end < f {
                assert(lviews[end as int].len() != 0);
            }
        }
    }
    let headers = match parse_headers(&lines, 1, end) {
        Ok(h) => h,
        Err(e) => {
            return Err(e);
        },
    };
    if matches!(sl.version, HTTPVersion::V1_1) && !headers.has("host") {
        return Err(RequestParseError::MissingHostHeader);
    }
    Ok(RequestHead { method: sl.method, path: sl.path, version: sl.version, headers })
}

} // verus!
