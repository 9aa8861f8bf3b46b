//! Classification of play requests before they reach the source resolver.
//!
//! A request that already names a URL is handed to the resolver unmodified;
//! any other text is sent as a search term, marked by a prepended search
//! prefix. The resolver itself performs network I/O and lives outside this
//! crate; only the shape of what it is given is decided here.

use vstd::prelude::*;
use vstd::string::*;

use crate::errors::VoiceError;

verus! {

/// A query is treated as a direct URL when it opens with a recognized
/// URL scheme prefix.
pub open spec fn is_url_query(q: Seq<char>) -> bool {
    q.len() >= 4 && q.subrange(0, 4) == "http"@
}

/// The search marker prepended to non-URL queries, as a sequence of
/// characters.
pub open spec fn search_marker() -> Seq<char> {
    "ytsearch:"@
}

/// Decides whether a raw play request names a URL directly.
///
/// The same answer also tells the embedding whether to suppress the
/// outbound reply's link preview (done only for URL requests).
pub fn classify_query(q: &str) -> (r: bool)
    ensures
        r == is_url_query(q@),
{
    proof {
        reveal_strlit("http");
    }
    let n = q.unicode_len();
    if n < 4 {
        return false;
    }
    let r = q.get_char(0) == 'h' && q.get_char(1) == 't' && q.get_char(2) == 't' && q.get_char(3)
        == 'p';
    proof {
        assert(q@.subrange(0, 4)[0] == q@[0]);
        assert(q@.subrange(0, 4)[1] == q@[1]);
        assert(q@.subrange(0, 4)[2] == q@[2]);
        assert(q@.subrange(0, 4)[3] == q@[3]);
        if r {
            assert(q@.subrange(0, 4) =~= "http"@);
        }
    }
    r
}

/// Builds the exact text handed to the source resolver: a URL query is
/// passed through unmodified, anything else gets the search marker
/// prepended.
pub fn resolver_request(q: &str) -> (r: String)
    ensures
        is_url_query(q@) ==> r@ == q@,
        !is_url_query(q@) ==> r@ == search_marker() + q@,
{
    if classify_query(q) {
        q.to_owned()
    } else {
        let mut r = String::from_str("ytsearch:");
        r.append(q);
        r
    }
}

/// Decides where a play command should connect: the invoker's own voice
/// channel when they are in one, and a refusal otherwise.
pub fn connect_target(channel: Option<u64>) -> (r: Result<u64, VoiceError>)
    ensures
        match channel {
            Some(ch) => r == Ok::<u64, VoiceError>(ch),
            None => r == Err::<u64, VoiceError>(VoiceError::NotInVoiceChannel),
        },
{
    match channel {
        Some(ch) => Ok(ch),
        None => Err(VoiceError::NotInVoiceChannel),
    }
}

} // verus!
