//! The node's address as the gRPC client wants it.

use vstd::prelude::*;
use vstd::string::{StrSliceExecFns, StringExecFns};

verus! {

/// How long the client waits for the node's answer to one request, in milliseconds.
pub const REQUEST_TIMEOUT_MS: u64 = 500_000;

/// The client reconnects by itself when the connection drops.
pub const RECONNECT: bool = true;

/// `text` with every occurrence of `pattern` taken out, found from the left
/// and never overlapping. Nothing is taken out for an empty pattern.
pub open spec fn without_all(text: Seq<char>, pattern: Seq<char>) -> Seq<char>
    decreases text.len(),
{
    if pattern.len() == 0 || text.len() < pattern.len() {
        text
    } else if pattern.is_prefix_of(text) {
        without_all(text.skip(pattern.len() as int), pattern)
    } else {
        seq![text[0]] + without_all(text.drop_first(), pattern)
    }
}

/// The address handed to the gRPC client: as given where it names the gRPC
/// scheme already; else with that scheme in front and every `http://` and
/// `https://` taken out.
pub open spec fn grpc_url_of(url: Seq<char>) -> Seq<char> {
    if "grpc://"@.is_prefix_of(url) {
        url
    } else {
        "grpc://"@ + without_all(without_all(url, "http://"@), "https://"@)
    }
}

/// Whether `pattern` stands in `text` at position `at`.
fn stands_at(text: &str, pattern: &str, at: usize, text_len: usize, pattern_len: usize) -> (r: bool)
    requires
        text_len == text@.len(),
        pattern_len == pattern@.len(),
        at + pattern_len <= text_len,
    ensures
        r == pattern@.is_prefix_of(text@.skip(at as int)),
{
    let mut j: usize = 0;
    while j < pattern_len
        invariant
            j <= pattern_len,
            text_len == text@.len(),
            pattern_len == pattern@.len(),
            at + pattern_len <= text_len,
            forall|k: int| 0 <= k < j ==> text@[at + k] == pattern@[k],
        decreases pattern_len - j,
    {
        if text.get_char(at + j) != pattern.get_char(j) {
            assert(text@.skip(at as int)[j as int] != pattern@[j as int]);
            return false;
        }
        j += 1;
    }
    assert(pattern@ =~= text@.skip(at as int).subrange(0, pattern@.len() as int));
    true
}

/// Takes every occurrence of `pattern` out of `text`.
pub fn strip_all(text: &str, pattern: &str) -> (out: String)
    ensures
        out@ == without_all(text@, pattern@),
{
    let text_len = text.unicode_len();
    let pattern_len = pattern.unicode_len();
    let mut out = String::new();
    let mut i: usize = 0;
    proof {
        assert(text@.skip(0) =~= text@);
        assert(out@ + without_all(text@, pattern@) =~= without_all(text@, pattern@));
    }
    while i < text_len
        invariant
            i <= text_len,
            text_len == text@.len(),
            pattern_len == pattern@.len(),
            out@ + without_all(text@.skip(i as int), pattern@) == without_all(text@, pattern@),
        decreases text_len - i,
    {
        let ghost rest = text@.skip(i as int);
        if pattern_len == 0 || text_len - i < pattern_len {
            out.append(text.substring_char(i, text_len));
            proof {
                assert(text@.subrange(i as int, text_len as int) =~= rest);
                assert(text@.skip(text_len as int) =~= Seq::<char>::empty());
                assert(out@ + without_all(text@.skip(text_len as int), pattern@) =~= out@);
            }
            i = text_len;
        } else if stands_at(text, pattern, i, text_len, pattern_len) {
            proof {
                assert(rest.skip(pattern_len as int) =~= text@.skip(i + pattern_len));
            }
            i += pattern_len;
        } else {
            let ghost before = out@;
            out.append(text.substring_char(i, i + 1));
            proof {
                assert(text@.subrange(i as int, i + 1) =~= seq![rest[0]]);
                assert(rest.drop_first() =~= text@.skip(i + 1));
                assert(out@ + without_all(text@.skip(i + 1), pattern@) =~= before + (seq![rest[0]]
                    + without_all(rest.drop_first(), pattern@)));
            }
            i += 1;
        }
    }
    proof {
        assert(text@.skip(i as int) =~= Seq::<char>::empty());
        assert(out@ + Seq::<char>::empty() =~= out@);
    }
    out
}

/// Whether `text` begins with `prefix`.
pub fn begins_with(text: &str, prefix: &str) -> (r: bool)
    ensures
        r == prefix@.is_prefix_of(text@),
{
    let text_len = text.unicode_len();
    let prefix_len = prefix.unicode_len();
    if prefix_len > text_len {
        false
    } else {
        assert(text@.skip(0) =~= text@);
        stands_at(text, prefix, 0, text_len, prefix_len)
    }
}

/// Puts the node's address into the form the gRPC client wants.
pub fn grpc_url(url: &str) -> (out: String)
    ensures
        out@ == grpc_url_of(url@),
{
    if begins_with(url, "grpc://") {
        url.to_owned()
    } else {
        let plain = strip_all(url, "http://");
        let bare = strip_all(plain.as_str(), "https://");
        let mut out = String::from_str("grpc://");
        out.append(bare.as_str());
        out
    }
}

/// Taking a pattern out leaves a text no longer than it was, and leaves it
/// as it was where the pattern is longer than the text.
pub proof fn without_all_never_grows(text: Seq<char>, pattern: Seq<char>)
    ensures
        without_all(text, pattern).len() <= text.len(),
        text.len() < pattern.len() ==> without_all(text, pattern) == text,
    decreases text.len(),
{
    if pattern.len() != 0 && text.len() >= pattern.len() {
        if pattern.is_prefix_of(text) {
            without_all_never_grows(text.skip(pattern.len() as int), pattern);
        } else {
            without_all_never_grows(text.drop_first(), pattern);
        }
    }
}

/// The address handed to the client always names the gRPC scheme.
pub proof fn grpc_url_names_the_scheme(url: Seq<char>)
    ensures
        "grpc://"@.is_prefix_of(grpc_url_of(url)),
{
    if !"grpc://"@.is_prefix_of(url) {
        let rest = without_all(without_all(url, "http://"@), "https://"@);
        assert(("grpc://"@ + rest).subrange(0, "grpc://"@.len() as int) =~= "grpc://"@);
    }
}

} // verus!
