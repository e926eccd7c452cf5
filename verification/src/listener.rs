//! The pure part of the per-connection work: the listener's
//! configuration, and the reassembly of the head lines the accept loop
//! read off the socket. The accept loop, the sockets and their
//! timeouts live outside the library and hand the bytes in as plain
//! strings.

use vstd::prelude::*;
use vstd::string::StringExecFns;

verus! {

/// The listener's one setting: the per-connection read/write timeout
/// in seconds, or none.
#[derive(Debug, Clone, Copy)]
pub struct ListenerConfig {
    pub timeout_secs: Option<u64>,
}

impl Default for ListenerConfig {
    /// A 10 second timeout.
    fn default() -> (r: Self)
        ensures
            r.timeout_secs == Some(10u64),
    {
        ListenerConfig { timeout_secs: Some(10) }
    }
}

/// The lines rejoined for the parser: each line closed with CRLF.
pub open spec fn crlf_joined(lines: Seq<Seq<char>>) -> Seq<char>
    decreases lines.len(),
{
    if lines.len() == 0 {
        Seq::empty()
    } else {
        crlf_joined(lines.drop_last()) + lines.last() + "\r\n"@
    }
}

/// Rejoins the head lines the accept loop read, closing each with
/// CRLF, so the parser sees the head as it stood on the wire.
pub fn join_head_lines(lines: &Vec<String>) -> (r: String)
    ensures
        r@ == crlf_joined(crate::strutil::views(lines@)),
{
    let ghost all = crate::strutil::views(lines@);
    let mut out = String::new();
    let n = lines.len();
    for i in 0..n
        invariant
            n == lines@.len(),
            all == crate::strutil::views(lines@),
            out@ =~= crlf_joined(all.subrange(0, i as int)),
    {
        out.append(lines[i].as_str());
        out.append("\r\n");
        proof {
            let sub = all.subrange(0, i + 1);
            assert(sub.drop_last() =~= all.subrange(0, i as int));
            assert(sub.last() == all[i as int]);
            assert(out@ =~= crlf_joined(sub));
        }
    }
    proof {
        assert(all.subrange(0, n as int) =~= all);
    }
    out
}

} // verus!
