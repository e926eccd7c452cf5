//! The response value, its builder, and the header post-processing that
//! guarantees the Content-Length and charset invariants.

use vstd::prelude::*;
use vstd::string::StringExecFns;
use vstd::utf8::encode_utf8;
use crate::headers::{Headers, all_lower_keys, pairs_contain, pairs_value};
use crate::request::{HTTPVersion, version_name};
use crate::status::{ResponseStatus, code_spec, phrase_spec};
use crate::strutil::{
    contains_sub, dec_rep, has_sub, join_char, lower_seq, push_char, split_char, split_spec,
    substr, title_case, title_word, to_lower, to_upper_char, u64_to_dec,
    upper_char, views,
};

verus! {

/// Lowering is idempotent.
pub proof fn lemma_lower_seq_idem(s: Seq<char>)
    ensures
        lower_seq(lower_seq(s)) == lower_seq(s),
{
    assert(lower_seq(lower_seq(s)) =~= lower_seq(s));
}

/// The byte length of a string, as the executable `str::len` counts it.
pub open spec fn byte_len(s: Seq<char>) -> int {
    (encode_utf8(s).len() as usize) as int
}

/// What the charset rule makes of a Content-Type value: left alone when
/// it mentions a charset anywhere, appended `; charset=UTF-8` otherwise.
pub open spec fn charset_amended(v: Seq<char>) -> Seq<char> {
    if has_sub(v, "charset"@) {
        v
    } else {
        v + "; charset=UTF-8"@
    }
}

/// The value of the last given pair whose lower-cased key is `k`, if
/// one is.
pub open spec fn last_given(ps: Seq<(String, String)>, k: Seq<char>) -> Option<Seq<char>>
    decreases ps.len(),
{
    if ps.len() == 0 {
        None
    } else if lower_seq(ps.last().0@) == k {
        Some(ps.last().1@)
    } else {
        last_given(ps.drop_last(), k)
    }
}

/// A complete response: version, status, lower-cased headers, body. The
/// connection it is written to is owned by the caller, outside the
/// library.
#[derive(Debug)]
pub struct Response {
    pub version: HTTPVersion,
    pub status: ResponseStatus,
    pub headers: Headers,
    pub body: String,
}

/// Post-processing after construction: a non-empty body gets a
/// `content-length` header if none was set, and a present `content-type`
/// without a charset parameter is appended `; charset=UTF-8`. An empty
/// body changes nothing.
pub fn ensure_headers(res: &mut Response)
    requires
        old(res).headers.wf(),
    ensures
        final(res).version == old(res).version,
        final(res).status == old(res).status,
        final(res).body == old(res).body,
        final(res).headers.wf(),
        old(res).body@.len() == 0 ==> final(res).headers == old(res).headers,
        old(res).body@.len() > 0 ==> {
            &&& final(res).headers.contains_key("content-length"@)
            &&& (!old(res).headers.contains_key("content-length"@) ==> final(res).headers.value_of("content-length"@) == dec_rep(byte_len(old(res).body@)))
            &&& (old(res).headers.contains_key("content-length"@) ==> final(res).headers.value_of("content-length"@) == old(res).headers.value_of(
                "content-length"@,
            ))
            &&& final(res).headers.contains_key("content-type"@) == old(res).headers.contains_key("content-type"@)
            &&& (old(res).headers.contains_key("content-type"@) ==> final(res).headers.value_of("content-type"@) == charset_amended(
                old(res).headers.value_of("content-type"@),
            ))
            &&& forall|k: Seq<char>|
                k != "content-length"@ && k != "content-type"@ ==> #[trigger] final(res).headers.contains_key(k) == old(res).headers.contains_key(k)
            &&& forall|k: Seq<char>|
                k != "content-length"@ && k != "content-type"@ && old(res).headers.contains_key(
                    k,
                ) ==> #[trigger] final(res).headers.value_of(k) == old(res).headers.value_of(k)
        },
        all_lower_keys(old(res).headers.pairs()) ==> all_lower_keys(final(res).headers.pairs()),
{
    if !res.body.as_str().is_empty() {
        proof {
            reveal_strlit("Content-Length");
            reveal_strlit("content-length");
            reveal_strlit("Content-Type");
            reveal_strlit("content-type");
            assert(lower_seq("Content-Length"@) =~= "content-length"@);
            assert(lower_seq("Content-Type"@) =~= "content-type"@);
            assert("content-length"@.len() != "content-type"@.len());
        }
        let blen = res.body.as_str().len();
        res.insert_if_absent(String::from_str("Content-Length"), u64_to_dec(blen as u64));
        let ct = res.get_header_ref("content-type");
        match ct {
            Some(v) => {
                if !contains_sub(v.as_str(), "charset") {
                    let mut amended = v.clone();
                    amended.append("; charset=UTF-8");
                    res.set_header(String::from_str("Content-Type"), amended);
                } else {
                    proof {
                        assert(charset_amended(old(res).headers.value_of("content-type"@))
                            == old(res).headers.value_of("content-type"@));
                    }
                }
            },
            None => {},
        }
    }
}

impl Response {
    /// A response from its parts, with the header invariants applied.
    pub fn new(version: HTTPVersion, status: ResponseStatus, headers: Headers, body: String) -> (r:
        Response)
        requires
            headers.wf(),
        ensures
            r.version == version,
            r.status == status,
            r.body == body,
            r.headers.wf(),
            body@.len() == 0 ==> r.headers == headers,
            body@.len() > 0 ==> {
                &&& r.headers.contains_key("content-length"@)
                &&& (!headers.contains_key("content-length"@) ==> r.headers.value_of(
                    "content-length"@,
                ) == dec_rep(byte_len(body@)))
                &&& (headers.contains_key("content-length"@) ==> r.headers.value_of(
                    "content-length"@,
                ) == headers.value_of("content-length"@))
                &&& r.headers.contains_key("content-type"@) == headers.contains_key(
                    "content-type"@,
                )
                &&& (headers.contains_key("content-type"@) ==> r.headers.value_of(
                    "content-type"@,
                ) == charset_amended(headers.value_of("content-type"@)))
                &&& forall|k: Seq<char>|
                    k != "content-length"@ && k != "content-type"@ ==> #[trigger] r.headers.contains_key(
                        k,
                    ) == headers.contains_key(k)
                &&& forall|k: Seq<char>|
                    k != "content-length"@ && k != "content-type"@ && headers.contains_key(k)
                        ==> #[trigger] r.headers.value_of(k) == headers.value_of(k)
            },
            all_lower_keys(headers.pairs()) ==> all_lower_keys(r.headers.pairs()),
    {
        let mut obj = Response { version, status, headers, body };
        ensure_headers(&mut obj);
        obj
    }

    /// The response's protocol version.
    pub fn version(&self) -> (r: HTTPVersion)
        ensures
            r == self.version,
    {
        self.version
    }

    /// The response's status.
    pub fn status(&self) -> (r: &ResponseStatus)
        ensures
            r == self.status,
    {
        &self.status
    }

    /// The response's header map.
    pub fn headers(&self) -> (r: &Headers)
        ensures
            r == self.headers,
    {
        &self.headers
    }

    /// The response's body text.
    pub fn body(&self) -> (r: &str)
        ensures
            r@ == self.body@,
    {
        self.body.as_str()
    }

    /// Stores a header under the lower-cased key; hands back the value
    /// it displaced, if any.
    pub fn set_header(&mut self, k: String, v: String) -> (r: Option<String>)
        requires
            old(self).headers.wf(),
        ensures
            final(self).version == old(self).version,
            final(self).status == old(self).status,
            final(self).body == old(self).body,
            final(self).headers.wf(),
            final(self).headers.contains_key(lower_seq(k@)),
            final(self).headers.value_of(lower_seq(k@)) == v@,
            match r {
                Some(prev) => old(self).headers.contains_key(lower_seq(k@)) && prev@ == old(self).headers.value_of(lower_seq(k@)),
                None => !old(self).headers.contains_key(lower_seq(k@)),
            },
            forall|k2: Seq<char>|
                k2 != lower_seq(k@) ==> #[trigger] final(self).headers.contains_key(k2) == old(self).headers.contains_key(k2),
            forall|k2: Seq<char>|
                k2 != lower_seq(k@) && old(self).headers.contains_key(k2) ==> #[trigger] final(self).headers.value_of(k2) == old(self).headers.value_of(k2),
            all_lower_keys(old(self).headers.pairs()) ==> all_lower_keys(
                final(self).headers.pairs(),
            ),
    {
        let low = to_lower(k.as_str());
        let prev = match self.headers.get(low.as_str()) {
            Some(p) => Some(p.clone()),
            None => None,
        };
        self.headers.insert(low, v);
        proof {
            lemma_lower_seq_idem(k@);
        }
        prev
    }

    /// The value stored under the lower-cased key, cloned out.
    pub fn get_header(&self, k: String) -> (r: Option<String>)
        requires
            self.headers.wf(),
        ensures
            match r {
                Some(v) => self.headers.contains_key(lower_seq(k@)) && v@ == self.headers.value_of(
                    lower_seq(k@),
                ),
                None => !self.headers.contains_key(lower_seq(k@)),
            },
    {
        let low = to_lower(k.as_str());
        match self.headers.get(low.as_str()) {
            Some(v) => Some(v.clone()),
            None => None,
        }
    }

    /// The value stored under an already-lower-case key, borrowed.
    fn get_header_ref(&self, k: &str) -> (r: Option<&String>)
        requires
            self.headers.wf(),
        ensures
            match r {
                Some(v) => self.headers.contains_key(k@) && v@ == self.headers.value_of(k@),
                None => !self.headers.contains_key(k@),
            },
    {
        self.headers.get(k)
    }

    /// Stores every given pair under its lower-cased key: the last pair
    /// with a key decides its value, and keys outside the given pairs
    /// stay as they were.
    pub fn extend_headers(&mut self, headers: Vec<(String, String)>)
        requires
            old(self).headers.wf(),
        ensures
            final(self).version == old(self).version,
            final(self).status == old(self).status,
            final(self).body == old(self).body,
            final(self).headers.wf(),
            forall|k: Seq<char>|
                (#[trigger] last_given(headers@, k)) is Some ==> final(self).headers.contains_key(
                    k,
                ) && Some(final(self).headers.value_of(k)) == last_given(headers@, k),
            forall|k: Seq<char>|
                (#[trigger] last_given(headers@, k)) is None ==> final(self).headers.contains_key(
                    k,
                ) == old(self).headers.contains_key(k) && (old(self).headers.contains_key(k)
                    ==> final(self).headers.value_of(k) == old(self).headers.value_of(k)),
            all_lower_keys(old(self).headers.pairs()) ==> all_lower_keys(
                final(self).headers.pairs(),
            ),
    {
        let n = headers.len();
        let mut i: usize = 0;
        proof {
            assert forall|k: Seq<char>| #[trigger] last_given(
                headers@.subrange(0, 0),
                k,
            ) is None by {
                assert(headers@.subrange(0, 0).len() == 0);
            }
        }
        while i < n
            invariant
                i <= n == headers@.len(),
                self.version == old(self).version,
                self.status == old(self).status,
                self.body == old(self).body,
                self.headers.wf(),
                all_lower_keys(old(self).headers.pairs()) ==> all_lower_keys(
                    self.headers.pairs(),
                ),
                forall|k: Seq<char>|
                    (#[trigger] last_given(headers@.subrange(0, i as int), k)) is Some
                        ==> self.headers.contains_key(k) && Some(self.headers.value_of(k))
                        == last_given(headers@.subrange(0, i as int), k),
                forall|k: Seq<char>|
                    (#[trigger] last_given(headers@.subrange(0, i as int), k)) is None
                        ==> self.headers.contains_key(k) == old(self).headers.contains_key(k) && (
                    old(self).headers.contains_key(k) ==> self.headers.value_of(k) == old(
                        self,
                    ).headers.value_of(k)),
            decreases n - i,
        {
            let low = to_lower(headers[i].0.as_str());
            let v = headers[i].1.clone();
            let ghost entrypairs = self.headers.pairs();
            let ghost entryh = self.headers;
            proof {
                lemma_lower_seq_idem(headers@[i as int].0@);
            }
            self.headers.insert(low, v);
            proof {
                let pre = headers@.subrange(0, i + 1);
                assert(pre.drop_last() =~= headers@.subrange(0, i as int));
                assert(pre.last() == headers@[i as int]);
                let lk = lower_seq(headers@[i as int].0@);
                assert(last_given(pre, lk) == Some(headers@[i as int].1@));
                assert forall|k2: Seq<char>| lk != k2 implies #[trigger] last_given(pre, k2)
                    == last_given(headers@.subrange(0, i as int), k2) by {}
                assert forall|k2: Seq<char>| (#[trigger] last_given(pre, k2)) is Some implies
                    self.headers.contains_key(k2) && Some(self.headers.value_of(k2)) == last_given(
                    pre,
                    k2,
                ) by {
                    if lk != k2 {
                        assert(last_given(headers@.subrange(0, i as int), k2) is Some);
                        assert(entryh.contains_key(k2));
                        assert(Some(entryh.value_of(k2)) == last_given(
                            headers@.subrange(0, i as int),
                            k2,
                        ));
                        assert(self.headers.contains_key(k2));
                        assert(self.headers.value_of(k2) == entryh.value_of(k2));
                    }
                }
                assert forall|k2: Seq<char>| (#[trigger] last_given(pre, k2)) is None implies
                    self.headers.contains_key(k2) == old(self).headers.contains_key(k2) && (old(
                    self,
                ).headers.contains_key(k2) ==> self.headers.value_of(k2) == old(
                    self,
                ).headers.value_of(k2)) by {
                    assert(lk != k2);
                    assert(last_given(headers@.subrange(0, i as int), k2) is None);
                    assert(self.headers.contains_key(k2) == entryh.contains_key(k2));
                    if old(self).headers.contains_key(k2) {
                        assert(entryh.value_of(k2) == old(self).headers.value_of(k2));
                        assert(self.headers.value_of(k2) == entryh.value_of(k2));
                    }
                }
            }
            i = i + 1;
        }
        proof {
            assert forall|k: Seq<char>| #[trigger] last_given(headers@, k) == last_given(
                headers@.subrange(0, n as int),
                k,
            ) by {
                assert(headers@.subrange(0, n as int) =~= headers@);
            }
        }
    }

    /// Stores a header under the lower-cased key only when it is absent.
    pub fn insert_if_absent(&mut self, k: String, v: String)
        requires
            old(self).headers.wf(),
        ensures
            final(self).version == old(self).version,
            final(self).status == old(self).status,
            final(self).body == old(self).body,
            final(self).headers.wf(),
            final(self).headers.contains_key(lower_seq(k@)),
            old(self).headers.contains_key(lower_seq(k@)) ==> final(self).headers == old(self).headers,
            !old(self).headers.contains_key(lower_seq(k@)) ==> final(self).headers.value_of(
                lower_seq(k@),
            ) == v@,
            forall|k2: Seq<char>|
                k2 != lower_seq(k@) ==> #[trigger] final(self).headers.contains_key(k2) == old(self).headers.contains_key(k2),
            forall|k2: Seq<char>|
                k2 != lower_seq(k@) && old(self).headers.contains_key(k2) ==> #[trigger] final(self).headers.value_of(k2) == old(self).headers.value_of(k2),
            all_lower_keys(old(self).headers.pairs()) ==> all_lower_keys(
                final(self).headers.pairs(),
            ),
    {
        let low = to_lower(k.as_str());
        self.headers.insert_if_absent(low, v);
        proof {
            lemma_lower_seq_idem(k@);
        }
    }
}

/// A header name as the wire shows it: each `-`-separated segment
/// capitalized.
pub fn title_case_header(s: &str) -> (r: String)
    ensures
        r@ == title_case(s@),
{
    let words = split_char(s, '-');
    let ghost titled = split_spec(s@, '-').map_values(|w: Seq<char>| title_word(w));
    let mut out = String::new();
    let k = words.len();
    for i in 0..k
        invariant
            k == words@.len(),
            views(words@) == split_spec(s@, '-'),
            titled == split_spec(s@, '-').map_values(|w: Seq<char>| title_word(w)),
            titled.len() == k,
            i == 0 ==> out@ =~= Seq::<char>::empty(),
            i >= 1 ==> out@ =~= join_char(titled.subrange(0, i as int), '-'),
    {
        let ghost prev = out@;
        if i != 0 {
            push_char(&mut out, '-');
        }
        let w = words[i].as_str();
        proof {
            assert(w@ == views(words@)[i as int]);
        }
        let wlen = w.unicode_len();
        if wlen > 0 {
            let first = upper_char(w.get_char(0));
            push_char(&mut out, first);
            let rest = substr(w, 1, wlen);
            out.append(rest.as_str());
        }
        proof {
            if i == 0 {
                assert(out@ =~= title_word(views(words@)[0]));
                assert(join_char(titled.subrange(0, 1), '-') == titled.subrange(0, 1)[0]);
                assert(out@ =~= join_char(titled.subrange(0, 1), '-'));
            } else {
                assert(out@ =~= prev + seq!['-'] + title_word(views(words@)[i as int]));
                let sub = titled.subrange(0, i + 1);
                assert(sub.drop_last() =~= titled.subrange(0, i as int));
                assert(sub.last() == titled[i as int]);
                assert(join_char(sub, '-') == join_char(sub.drop_last(), '-') + seq!['-']
                    + sub.last());
                assert(out@ =~= join_char(titled.subrange(0, i + 1), '-'));
            }
        }
    }
    proof {
        assert(titled.subrange(0, k as int) =~= titled);
    }
    out
}

/// One serialized header line.
pub open spec fn header_line(k: Seq<char>, v: Seq<char>) -> Seq<char> {
    title_case(k) + ": "@ + v + "\r\n"@
}

/// The serialized header lines, in stored order.
pub open spec fn headers_block(pairs: Seq<(Seq<char>, Seq<char>)>) -> Seq<char>
    decreases pairs.len(),
{
    if pairs.len() == 0 {
        Seq::empty()
    } else {
        headers_block(pairs.drop_last()) + header_line(pairs.last().0, pairs.last().1)
    }
}

/// The full HTTP/1.x wire form: status line, title-cased header lines,
/// a blank line, the body.
pub open spec fn serialized_http1_x(r: Response) -> Seq<char> {
    version_name(r.version) + seq![' '] + dec_rep(code_spec(r.status) as int) + seq![' ']
        + phrase_spec(r.status) + "\r\n"@ + headers_block(r.headers.pairs()) + "\r\n"@ + r.body@
}

/// An HTTP/0.9 response serializes to its body alone.
pub fn format_http0_9(res: &Response) -> (r: &String)
    ensures
        r@ == res.body@,
{
    &res.body
}

/// Serializes a response for HTTP/1.0 or HTTP/1.1.
pub fn format_http1_x(res: &Response) -> (r: String)
    ensures
        r@ == serialized_http1_x(*res),
{
    let mut out = res.version.render();
    push_char(&mut out, ' ');
    let code = u64_to_dec(res.status.to_code() as u64);
    out.append(code.as_str());
    push_char(&mut out, ' ');
    let phrase = res.status.reason_phrase();
    out.append(phrase.as_str());
    out.append("\r\n");
    let ghost status_line = out@;
    let n = res.headers.len();
    for i in 0..n
        invariant
            n == res.headers.pairs().len(),
            out@ =~= status_line + headers_block(res.headers.pairs().subrange(0, i as int)),
    {
        let ghost prev = out@;
        let (k, v) = res.headers.pair_at(i);
        let titled = title_case_header(k.as_str());
        out.append(titled.as_str());
        out.append(": ");
        out.append(v.as_str());
        out.append("\r\n");
        proof {
            let pairs = res.headers.pairs();
            let sub = pairs.subrange(0, i + 1);
            assert(sub.drop_last() =~= pairs.subrange(0, i as int));
            assert(sub.last() == pairs[i as int]);
            assert(out@ =~= prev + header_line(pairs[i as int].0, pairs[i as int].1));
            assert(out@ =~= status_line + headers_block(sub));
        }
    }
    proof {
        assert(res.headers.pairs().subrange(0, n as int) =~= res.headers.pairs());
    }
    out.append("\r\n");
    out.append(res.body.as_str());
    proof {
        assert(out@ =~= serialized_http1_x(*res));
    }
    out
}

impl Response {
    /// The wire form of the response, for the versions that have one:
    /// the bare body for HTTP/0.9, the full message for HTTP/1.0 and
    /// HTTP/1.1.
    pub fn format(&self) -> (r: String)
        requires
            self.version == HTTPVersion::V0_9 || self.version == HTTPVersion::V1_0 || self.version
                == HTTPVersion::V1_1,
        ensures
            self.version == HTTPVersion::V0_9 ==> r@ == self.body@,
            self.version != HTTPVersion::V0_9 ==> r@ == serialized_http1_x(*self),
    {
        match self.version {
            HTTPVersion::V0_9 => format_http0_9(self).clone(),
            _ => format_http1_x(self),
        }
    }
}

/// A substring of either part is a substring of the whole.
pub proof fn lemma_has_sub_extend(a: Seq<char>, b: Seq<char>, p: Seq<char>)
    ensures
        has_sub(a, p) ==> has_sub(a + b, p),
        has_sub(b, p) ==> has_sub(a + b, p),
{
    if has_sub(a, p) {
        let w = choose|w: int|
            0 <= w <= a.len() - p.len() && #[trigger] a.subrange(w, w + p.len() as int) == p;
        assert((a + b).subrange(w, w + p.len() as int) =~= a.subrange(w, w + p.len() as int));
        assert(has_sub(a + b, p));
    }
    if has_sub(b, p) {
        let w = choose|w: int|
            0 <= w <= b.len() - p.len() && #[trigger] b.subrange(w, w + p.len() as int) == p;
        let w2 = a.len() + w;
        assert((a + b).subrange(w2 as int, w2 + p.len() as int) =~= b.subrange(
            w,
            w + p.len() as int,
        ));
        assert(has_sub(a + b, p));
    }
}

/// Every stored header's line occurs in the serialized header block.
pub proof fn lemma_headers_block_line(pairs: Seq<(Seq<char>, Seq<char>)>, i: int)
    requires
        0 <= i < pairs.len(),
    ensures
        has_sub(headers_block(pairs), header_line(pairs[i].0, pairs[i].1)),
    decreases pairs.len(),
{
    let line = header_line(pairs[i].0, pairs[i].1);
    if i == pairs.len() - 1 {
        assert(line.subrange(0, 0 + line.len() as int) =~= line);
        assert(has_sub(line, line));
        lemma_has_sub_extend(headers_block(pairs.drop_last()), line, line);
    } else {
        lemma_headers_block_line(pairs.drop_last(), i);
        lemma_has_sub_extend(
            headers_block(pairs.drop_last()),
            header_line(pairs.last().0, pairs.last().1),
            line,
        );
    }
}

proof fn lemma_title_content_length()
    ensures
        title_case("content-length"@) == "Content-Length"@,
{
    reveal_strlit("content-length");
    reveal_strlit("Content-Length");
    let s = "content-length"@;
    crate::strutil::lemma_find_idx(s, '-');
    let f = crate::strutil::find_idx(s, '-');
    assert(s[7] == '-');
    assert(f == 7) by {
        if f < 7 {
            assert(s[f] == '-');
        }
        if f > 7 {
            assert(s[7] != '-');
        }
    }
    let head = s.subrange(0, 7);
    let tail = s.subrange(8, 14);
    crate::strutil::lemma_find_idx(tail, '-');
    let g = crate::strutil::find_idx(tail, '-');
    assert(g == 6) by {
        if g < 6 {
            assert(tail[g] == '-');
        }
    }
    assert(split_spec(tail, '-') == seq![tail]);
    assert(split_spec(s, '-') =~~= seq![head, tail]);
    let titled = split_spec(s, '-').map_values(|w: Seq<char>| title_word(w));
    assert(titled =~~= seq![title_word(head), title_word(tail)]);
    assert(titled.drop_last() =~~= seq![title_word(head)]);
    assert(join_char(titled, '-') == join_char(titled.drop_last(), '-') + seq!['-'] + title_word(
        tail,
    ));
    assert(join_char(titled.drop_last(), '-') == title_word(head));
    assert(title_case(s) =~= title_word(head) + seq!['-'] + title_word(tail));
    assert(title_word(head) =~= seq![to_upper_char(head[0])] + head.drop_first());
    assert(title_word(tail) =~= seq![to_upper_char(tail[0])] + tail.drop_first());
    assert(title_case(s) =~= "Content-Length"@);
}

/// Response header casing: a built response stores every header key
/// lower-case — `ResponseBuilder::build` ensures `all_lower_keys` — and
/// the wire form carries each stored header as one line under its
/// title-cased name.
pub proof fn lemma_header_casing(r: Response, i: int)
    requires
        all_lower_keys(r.headers.pairs()),
        0 <= i < r.headers.pairs().len(),
    ensures
        lower_seq((r.headers.pairs()[i]).0) == r.headers.pairs()[i].0,
        has_sub(
            serialized_http1_x(r),
            title_case(r.headers.pairs()[i].0) + ": "@ + r.headers.pairs()[i].1 + "\r\n"@,
        ),
{
    let pairs = r.headers.pairs();
    lemma_headers_block_line(pairs, i);
    let line = header_line(pairs[i].0, pairs[i].1);
    let status_part = version_name(r.version) + seq![' '] + dec_rep(code_spec(r.status) as int)
        + seq![' '] + phrase_spec(r.status) + "\r\n"@;
    lemma_has_sub_extend(status_part, headers_block(pairs), line);
    assert(serialized_http1_x(r) =~= (status_part + headers_block(pairs)) + ("\r\n"@ + r.body@));
    lemma_has_sub_extend(status_part + headers_block(pairs), "\r\n"@ + r.body@, line);
}

/// The serialized line of a `content-length` header.
proof fn lemma_cl_header_line(v: Seq<char>)
    ensures
        header_line("content-length"@, v) == "Content-Length: "@ + v + "\r\n"@,
{
    lemma_title_content_length();
    reveal_strlit("Content-Length");
    reveal_strlit("Content-Length: ");
    reveal_strlit(": ");
    assert(header_line("content-length"@, v) =~= "Content-Length: "@ + v + "\r\n"@);
}

/// Content-Length invariant: a response whose headers carry the body's
/// byte length under `content-length` — as building with a non-empty
/// body and no such header of one's own guarantees — serializes with a
/// `Content-Length` line holding exactly that length.
pub proof fn lemma_content_length_invariant(r: Response)
    requires
        r.headers.wf(),
        r.headers.contains_key("content-length"@),
        r.headers.value_of("content-length"@) == dec_rep(byte_len(r.body@)),
    ensures
        has_sub(
            serialized_http1_x(r),
            "Content-Length: "@ + dec_rep(byte_len(r.body@)) + "\r\n"@,
        ),
{
    let pairs = r.headers.pairs();
    let w = choose|w: int| crate::headers::has_key_at(pairs, "content-length"@, w);
    crate::headers::lemma_key_at(pairs, "content-length"@, w);
    lemma_headers_block_line(pairs, w);
    lemma_cl_header_line(dec_rep(byte_len(r.body@)));
    let line = header_line(pairs[w].0, pairs[w].1);
    let status_part = version_name(r.version) + seq![' '] + dec_rep(code_spec(r.status) as int)
        + seq![' '] + phrase_spec(r.status) + "\r\n"@;
    lemma_has_sub_extend(status_part, headers_block(pairs), line);
    assert(serialized_http1_x(r) =~= (status_part + headers_block(pairs)) + ("\r\n"@ + r.body@));
    lemma_has_sub_extend(status_part + headers_block(pairs), "\r\n"@ + r.body@, line);
}

/// Charset injection: post-processing leaves a content-type that names
/// a charset untouched, and makes any other end with `; charset=UTF-8`.
pub proof fn lemma_charset_injection(v: Seq<char>)
    ensures
        has_sub(v, "charset"@) ==> charset_amended(v) == v,
        !has_sub(v, "charset"@) ==> {
            let a = charset_amended(v);
            let suffix = "; charset=UTF-8"@;
            a.len() >= suffix.len() && a.subrange(a.len() - suffix.len(), a.len() as int)
                == suffix
        },
{
    if !has_sub(v, "charset"@) {
        let a = charset_amended(v);
        let suffix = "; charset=UTF-8"@;
        assert(a.subrange(a.len() - suffix.len(), a.len() as int) =~= suffix);
    }
}

/// Accumulates the parts of a response; `build` finalizes them.
pub struct ResponseBuilder {
    version: Option<HTTPVersion>,
    status: Option<ResponseStatus>,
    headers: Option<Headers>,
    body: Option<String>,
}

impl ResponseBuilder {
    /// The version set so far.
    pub closed spec fn spec_version(&self) -> Option<HTTPVersion> {
        self.version
    }

    /// The status set so far.
    pub closed spec fn spec_status(&self) -> Option<ResponseStatus> {
        self.status
    }

    /// The header map set so far.
    pub closed spec fn spec_headers(&self) -> Option<Headers> {
        self.headers
    }

    /// The body set so far.
    pub closed spec fn spec_body(&self) -> Option<String> {
        self.body
    }

    /// The headers that `build` will hand on: what was set, or none.
    pub open spec fn built_pairs(&self) -> Seq<(Seq<char>, Seq<char>)> {
        match self.spec_headers() {
            Some(h) => h.pairs(),
            None => Seq::empty(),
        }
    }

    /// The body that `build` will hand on: what was set, or empty.
    pub open spec fn built_body(&self) -> Seq<char> {
        match self.spec_body() {
            Some(b) => b@,
            None => Seq::empty(),
        }
    }

    /// A set header map is well-formed with lower-case keys.
    pub open spec fn wf(&self) -> bool {
        match self.spec_headers() {
            Some(h) => h.wf() && all_lower_keys(h.pairs()),
            None => true,
        }
    }
}

impl Default for ResponseBuilder {
    /// A builder with nothing set.
    fn default() -> (r: Self)
        ensures
            r.wf(),
            r.spec_version() is None,
            r.spec_status() is None,
            r.spec_headers() is None,
            r.spec_body() is None,
    {
        ResponseBuilder { version: None, status: None, headers: None, body: None }
    }
}

impl ResponseBuilder {
    /// Sets the protocol version.
    pub fn version(self, version: HTTPVersion) -> (r: Self)
        ensures
            r.spec_version() == Some(version),
            r.spec_status() == self.spec_status(),
            r.spec_headers() == self.spec_headers(),
            r.spec_body() == self.spec_body(),
    {
        ResponseBuilder {
            version: Some(version),
            status: self.status,
            headers: self.headers,
            body: self.body,
        }
    }

    /// Sets the status.
    pub fn status(self, status: ResponseStatus) -> (r: Self)
        ensures
            r.spec_status() == Some(status),
            r.spec_version() == self.spec_version(),
            r.spec_headers() == self.spec_headers(),
            r.spec_body() == self.spec_body(),
    {
        ResponseBuilder {
            version: self.version,
            status: Some(status),
            headers: self.headers,
            body: self.body,
        }
    }

    /// Sets the whole header map, lowering every key; on keys that
    /// collide once lowered, one of the colliding values is kept.
    pub fn headers(self, headers: Headers) -> (r: Self)
        requires
            headers.wf(),
        ensures
            r.wf(),
            r.spec_version() == self.spec_version(),
            r.spec_status() == self.spec_status(),
            r.spec_body() == self.spec_body(),
            r.spec_headers() is Some,
            forall|j: int|
                0 <= j < headers.pairs().len() ==> pairs_contain(
                    r.built_pairs(),
                    lower_seq((#[trigger] headers.pairs()[j]).0),
                ),
            forall|k: Seq<char>|
                #[trigger] pairs_contain(r.built_pairs(), k) ==> exists|j: int|
                    0 <= j < headers.pairs().len() && lower_seq(
                        (#[trigger] headers.pairs()[j]).0,
                    ) == k && pairs_value(r.built_pairs(), k) == headers.pairs()[j].1,
    {
        let mut lowered = Headers::new();
        let n = headers.len();
        for i in 0..n
            invariant
                n == headers.pairs().len(),
                headers.wf(),
                lowered.wf(),
                all_lower_keys(lowered.pairs()),
                forall|j: int|
                    0 <= j < i ==> lowered.contains_key(
                        lower_seq((#[trigger] headers.pairs()[j]).0),
                    ),
                forall|k: Seq<char>|
                    #[trigger] lowered.contains_key(k) ==> exists|j: int|
                        0 <= j < i && lower_seq((#[trigger] headers.pairs()[j]).0) == k
                            && lowered.value_of(k) == headers.pairs()[j].1,
        {
            let (k, v) = headers.pair_at(i);
            let low = to_lower(k.as_str());
            proof {
                lemma_lower_seq_idem(k@);
            }
            lowered.insert(low, v.clone());
        }
        proof {
            assert forall|k: Seq<char>| #[trigger] pairs_contain(
                lowered.pairs(),
                k,
            ) implies exists|j: int|
                0 <= j < headers.pairs().len() && lower_seq((#[trigger] headers.pairs()[j]).0)
                    == k && pairs_value(lowered.pairs(), k) == headers.pairs()[j].1 by {
                assert(lowered.contains_key(k));
            }
        }
        ResponseBuilder {
            version: self.version,
            status: self.status,
            headers: Some(lowered),
            body: self.body,
        }
    }

    /// Sets the body.
    pub fn body(self, body: String) -> (r: Self)
        ensures
            r.spec_body() == Some(body),
            r.spec_version() == self.spec_version(),
            r.spec_status() == self.spec_status(),
            r.spec_headers() == self.spec_headers(),
    {
        ResponseBuilder {
            version: self.version,
            status: self.status,
            headers: self.headers,
            body: Some(body),
        }
    }

    /// Stores one header under the lower-cased key, overwriting any
    /// earlier value under it.
    pub fn header(self, key: &str, value: &str) -> (r: Self)
        requires
            self.wf(),
        ensures
            r.wf(),
            r.spec_version() == self.spec_version(),
            r.spec_status() == self.spec_status(),
            r.spec_body() == self.spec_body(),
            r.spec_headers() is Some,
            pairs_contain(r.built_pairs(), lower_seq(key@)),
            pairs_value(r.built_pairs(), lower_seq(key@)) == value@,
            forall|k2: Seq<char>|
                k2 != lower_seq(key@) ==> #[trigger] pairs_contain(r.built_pairs(), k2)
                    == pairs_contain(self.built_pairs(), k2),
            forall|k2: Seq<char>|
                k2 != lower_seq(key@) && pairs_contain(self.built_pairs(), k2)
                    ==> #[trigger] pairs_value(r.built_pairs(), k2) == pairs_value(
                    self.built_pairs(),
                    k2,
                ),
    {
        let ghost oldpairs = self.built_pairs();
        let mut h = match self.headers {
            Some(h) => h,
            None => Headers::new(),
        };
        proof {
            assert(h.pairs() =~= oldpairs);
        }
        let low = to_lower(key);
        proof {
            lemma_lower_seq_idem(key@);
        }
        h.insert(low, value.to_owned());
        proof {
            assert forall|k2: Seq<char>| k2 != lower_seq(key@) implies #[trigger] pairs_contain(
                h.pairs(),
                k2,
            ) == pairs_contain(oldpairs, k2) by {
                assert(h.contains_key(k2) == pairs_contain(h.pairs(), k2));
            }
            assert forall|k2: Seq<char>|
                k2 != lower_seq(key@) && pairs_contain(oldpairs, k2) implies #[trigger] pairs_value(
                h.pairs(),
                k2,
            ) == pairs_value(oldpairs, k2) by {
                assert(h.value_of(k2) == pairs_value(h.pairs(), k2));
            }
        }
        ResponseBuilder {
            version: self.version,
            status: self.status,
            headers: Some(h),
            body: self.body,
        }
    }

    /// Sets the status to 200 OK.
    pub fn ok(self) -> (r: Self)
        ensures
            r.spec_status() == Some(ResponseStatus::OK),
            r.spec_version() == self.spec_version(),
            r.spec_headers() == self.spec_headers(),
            r.spec_body() == self.spec_body(),
    {
        self.status(ResponseStatus::OK)
    }

    /// Sets the status to 400 Bad Request.
    pub fn bad_request(self) -> (r: Self)
        ensures
            r.spec_status() == Some(ResponseStatus::BadRequest),
            r.spec_version() == self.spec_version(),
            r.spec_headers() == self.spec_headers(),
            r.spec_body() == self.spec_body(),
    {
        self.status(ResponseStatus::BadRequest)
    }

    /// Sets the status to 401 Unauthorized.
    pub fn unauthorised(self) -> (r: Self)
        ensures
            r.spec_status() == Some(ResponseStatus::Unauthorized),
            r.spec_version() == self.spec_version(),
            r.spec_headers() == self.spec_headers(),
            r.spec_body() == self.spec_body(),
    {
        self.status(ResponseStatus::Unauthorized)
    }

    /// Sets the status to 404 Not Found.
    pub fn not_found(self) -> (r: Self)
        ensures
            r.spec_status() == Some(ResponseStatus::NotFound),
            r.spec_version() == self.spec_version(),
            r.spec_headers() == self.spec_headers(),
            r.spec_body() == self.spec_body(),
    {
        self.status(ResponseStatus::NotFound)
    }

    /// Sets the status to 500 Internal Server Error.
    pub fn internal_error(self) -> (r: Self)
        ensures
            r.spec_status() == Some(ResponseStatus::InternalServerError),
            r.spec_version() == self.spec_version(),
            r.spec_headers() == self.spec_headers(),
            r.spec_body() == self.spec_body(),
    {
        self.status(ResponseStatus::InternalServerError)
    }

    /// A builder that inherits the request's protocol version, as an
    /// error response must answer in kind.
    pub fn from_request(req: &crate::request::Request) -> (r: Self)
        ensures
            r.wf(),
            r.spec_version() == Some(req.head.version),
            r.spec_status() is None,
            r.spec_headers() is None,
            r.spec_body() is None,
    {
        ResponseBuilder { version: Some(req.head.version), status: None, headers: None, body: None }
    }

    /// Finalizes: fails exactly when the version or the status is
    /// missing; otherwise builds the response, headers defaulting to
    /// none and the body to empty, and post-processes the headers. Every
    /// header key of the result is lower-case.
    pub fn build(self) -> (r: Result<Response, &'static str>)
        requires
            self.wf(),
        ensures
            match r {
                Ok(resp) => {
                    &&& self.spec_version() is Some
                    &&& self.spec_status() is Some
                    &&& resp.version == self.spec_version().unwrap()
                    &&& resp.status == self.spec_status().unwrap()
                    &&& resp.body@ == self.built_body()
                    &&& resp.headers.wf()
                    &&& all_lower_keys(resp.headers.pairs())
                    &&& (self.built_body().len() == 0 ==> resp.headers.pairs()
                        == self.built_pairs())
                    &&& (self.built_body().len() > 0 ==> {
                        &&& resp.headers.contains_key("content-length"@)
                        &&& (!pairs_contain(self.built_pairs(), "content-length"@)
                            ==> resp.headers.value_of("content-length"@) == dec_rep(
                            byte_len(self.built_body()),
                        ))
                        &&& (pairs_contain(self.built_pairs(), "content-length"@)
                            ==> resp.headers.value_of("content-length"@) == pairs_value(
                            self.built_pairs(),
                            "content-length"@,
                        ))
                        &&& resp.headers.contains_key("content-type"@) == pairs_contain(
                            self.built_pairs(),
                            "content-type"@,
                        )
                        &&& (pairs_contain(self.built_pairs(), "content-type"@)
                            ==> resp.headers.value_of("content-type"@) == charset_amended(
                            pairs_value(self.built_pairs(), "content-type"@),
                        ))
                    })
                },
                Err(m) => {
                    &&& (self.spec_version() is None || self.spec_status() is None)
                    &&& (self.spec_version() is None ==> m@
                        == "Can't construct a Response without a version"@)
                    &&& (self.spec_version() is Some ==> m@
                        == "Can't construct a Response without a status"@)
                },
            },
    {
        let version = match self.version {
            Some(v) => v,
            None => {
                return Err("Can't construct a Response without a version");
            },
        };
        let status = match self.status {
            Some(s) => s,
            None => {
                return Err("Can't construct a Response without a status");
            },
        };
        let headers = match self.headers {
            Some(h) => h,
            None => Headers::new(),
        };
        let body = match self.body {
            Some(b) => b,
            None => String::new(),
        };
        Ok(Response::new(version, status, headers, body))
    }
}

} // verus!
