//! The host and project path of a git remote's address.

use regex::Regex;
use vstd::prelude::*;

verus! {

/// An SSH remote: `git@<host>:<path>.git`.
pub const SSH_ORIGIN: &'static str = r"git@([a-zA-Z0-9\.]+):(.*)\.git$";

/// An HTTP(S) remote: `http(s)://<host>/<path>`.
pub const HTTP_ORIGIN: &'static str = r"https?://([a-zA-Z0-9\.]+)/(.*)$";

/// The first two capture groups of the leftmost match of `pattern` in
/// `text`, where the pattern compiles, matches, and both groups take part.
pub uninterp spec fn first_two_groups(pattern: Seq<char>, text: Seq<char>) -> Option<(Seq<char>, Seq<char>)>;

/// A pair of strings as a pair of character sequences.
pub open spec fn pair_view(p: Option<(String, String)>) -> Option<(Seq<char>, Seq<char>)> {
    match p {
        Some((a, b)) => Some((a@, b@)),
        None => None,
    }
}

/// Relies on `regex::Regex::new` and `Regex::captures`: the text of the
/// first two groups of the leftmost match, if any.
#[verifier::external_body]
fn capture_two(pattern: &str, text: &str) -> (r: Option<(String, String)>)
    ensures
        pair_view(r) == first_two_groups(pattern@, text@),
{
    let caps = Regex::new(pattern).ok()?.captures(text)?;
    Some((caps.get(1)?.as_str().to_string(), caps.get(2)?.as_str().to_string()))
}

/// The host and path of a remote's address: as an SSH address where it is
/// one, else as an HTTP(S) address, else none.
pub open spec fn origin_parts(origin: Seq<char>) -> Option<(Seq<char>, Seq<char>)> {
    match first_two_groups(SSH_ORIGIN@, origin) {
        Some(p) => Some(p),
        None => first_two_groups(HTTP_ORIGIN@, origin),
    }
}

/// The host and path of a remote's address, SSH form tried first.
pub fn parse_origin(origin: &String) -> (r: Option<(String, String)>)
    ensures
        pair_view(r) == origin_parts(origin@),
{
    match capture_two(SSH_ORIGIN, origin.as_str()) {
        Some(p) => Some(p),
        None => capture_two(HTTP_ORIGIN, origin.as_str()),
    }
}

} // verus!
