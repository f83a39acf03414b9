//! Reading record keys and web addresses out of AT-Protocol URIs.
use vstd::prelude::*;

verus! {

/// What matching the regular expression `pattern` against `text` gives: `None` when the
/// pattern does not compile, else the groups of the leftmost match (group 0 the whole match,
/// `None` for a group that took no part), or `Some(None)` when nothing matches.
pub uninterp spec fn capture_groups_of(pattern: Seq<char>, text: Seq<char>) -> Option<
    Option<Seq<Option<Seq<char>>>>,
>;

pub open spec fn groups_view(g: Option<Option<Vec<Option<String>>>>) -> Option<
    Option<Seq<Option<Seq<char>>>>,
> {
    match g {
        Some(Some(v)) => Some(
            Some(
                v@.map_values(
                    |m: Option<String>|
                        match m {
                            Some(s) => Some(s@),
                            None => None,
                        },
                ),
            ),
        ),
        Some(None) => Some(None),
        None => None,
    }
}

/// Relies on regex::Regex::new and Regex::captures: compiles `pattern` and gives the text of
/// each capture group of the leftmost match in `text`.
#[verifier::external_body]
fn capture_groups(pattern: &str, text: &str) -> (r: Option<Option<Vec<Option<String>>>>)
    ensures
        groups_view(r) == capture_groups_of(pattern@, text@),
{
    match regex::Regex::new(pattern) {
        Ok(re) => Some(
            re.captures(text).map(
                |caps| caps.iter().map(|m| m.map(|m| m.as_str().to_owned())).collect(),
            ),
        ),
        Err(_) => None,
    }
}

/// A post record's URI: the record key is what follows the collection name.
pub const POST_URI_PATTERN: &'static str = "at://did:plc:.+?/app.bsky.feed.post/(.+)";

/// A repost record's URI.
pub const REPOST_URI_PATTERN: &'static str = "at://did:plc:.+?/app.bsky.feed.repost/(.+)";

/// A post URI, split into its authority and its record key.
pub const POST_AUTHORITY_PATTERN: &'static str = "^at://(.+?)/app.bsky.feed.post/(.+?)$";

/// Group `i` of a match, when the pattern compiled, matched and the group took part.
pub open spec fn group(g: Option<Option<Seq<Option<Seq<char>>>>>, i: int) -> Option<Seq<char>> {
    match g {
        Some(Some(groups)) => if 0 <= i < groups.len() {
            groups[i]
        } else {
            None
        },
        _ => None,
    }
}

fn group_text(g: &Option<Option<Vec<Option<String>>>>, i: usize) -> (r: Option<String>)
    ensures
        match group(groups_view(*g), i as int) {
            Some(s) => r matches Some(x) && x@ == s,
            None => r is None,
        },
{
    match g {
        Some(Some(groups)) => {
            if i < groups.len() {
                match &groups[i] {
                    Some(s) => Some(s.clone()),
                    None => None,
                }
            } else {
                None
            }
        },
        _ => None,
    }
}

/// The record key of a post URI; `None` when `uri` is not one.
pub fn uri_to_post_rkey(uri: &str) -> (r: Option<String>)
    ensures
        match group(capture_groups_of(POST_URI_PATTERN@, uri@), 1) {
            Some(s) => r matches Some(x) && x@ == s,
            None => r is None,
        },
{
    let g = capture_groups(POST_URI_PATTERN, uri);
    group_text(&g, 1)
}

/// The record key of a repost URI; `None` when `uri` is not one.
pub fn uri_to_repost_rkey(uri: &str) -> (r: Option<String>)
    ensures
        match group(capture_groups_of(REPOST_URI_PATTERN@, uri@), 1) {
            Some(s) => r matches Some(x) && x@ == s,
            None => r is None,
        },
{
    let g = capture_groups(REPOST_URI_PATTERN, uri);
    group_text(&g, 1)
}

/// The web address of the post at the AT-URI `at_uri`; `None` when it is not a post URI.
pub fn to_external_uri(at_uri: &str) -> (r: Option<String>)
    ensures
        ({
            let g = capture_groups_of(POST_AUTHORITY_PATTERN@, at_uri@);
            match (group(g, 1), group(g, 2)) {
                (Some(authority), Some(rkey)) => r matches Some(x) && x@
                    == "https://bsky.app/profile/"@ + authority + "/post/"@ + rkey,
                _ => r is None,
            }
        }),
{
    let g = capture_groups(POST_AUTHORITY_PATTERN, at_uri);
    match (group_text(&g, 1), group_text(&g, 2)) {
        (Some(authority), Some(rkey)) => {
            let mut s = String::from_str("https://bsky.app/profile/");
            s.append(authority.as_str());
            s.append("/post/");
            s.append(rkey.as_str());
            Some(s)
        },
        _ => None,
    }
}

} // verus!
