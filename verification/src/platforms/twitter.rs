use crate::downloader::PlatformDownloader;
use crate::downloader_error::DownloaderError;
use crate::text::{
    char_views, chars_of, contains, lemma_split_nonempty, occurs, split, split_at_each, string_of,
};
use vstd::prelude::*;

verus! {

/// What searching `text` for the regular expression `pattern` gives: `None`
/// where `pattern` does not compile, else whether some part of `text`
/// matches it.
pub uninterp spec fn regex_search(pattern: Seq<char>, text: Seq<char>) -> Option<bool>;

/// `regex::Regex::new` on `pattern`, then `Regex::is_match` on `text`. The
/// first returns an error for a pattern that is invalid or compiles to more
/// than the default size limit; the second says whether there is a match
/// anywhere in `text`. The result is named, not described.
#[verifier::external_body]
fn search(pattern: &str, text: &str) -> (found: Option<bool>)
    ensures
        found == regex_search(pattern@, text@),
{
    match regex::Regex::new(pattern) {
        Ok(expression) => Some(expression.is_match(text)),
        Err(_) => None,
    }
}

/// The pattern of the address of a post.
pub open spec fn post_pattern() -> Seq<char> {
    r"https:\/\/(twitter|x).com\/.+\/status\/\d+(\?.*)?"@
}

/// What marks an intercepted request as the one for the variant manifest.
pub open spec fn manifest_mark() -> Seq<char> {
    "tag="@
}

/// The address of the variant manifest that an intercepted request shows:
/// the request's address up to its first question mark, where the address
/// holds the mark; else none.
pub open spec fn manifest_address(request: Seq<char>) -> Option<Seq<char>> {
    if occurs(request, manifest_mark()) {
        Some(split(request, '?').first())
    } else {
        None
    }
}

/// What the discovery holds after a request has been intercepted, `slot`
/// being what it held before: the first request that shows the manifest's
/// address fills the empty slot, and a slot that is filled stays as it is.
pub open spec fn intercepted(slot: Seq<char>, request: Seq<char>) -> Seq<char> {
    if slot.len() == 0 && manifest_address(request) is Some {
        manifest_address(request).unwrap()
    } else {
        slot
    }
}

/// The number of times the interception is looked at before giving up.
pub const DISCOVERY_POLLS: u32 = 100;

/// What to do after looking at the interception once more.
#[derive(Debug, Clone, Copy, PartialEq, Eq, Structural)]
pub enum PollDecision {
    /// The manifest's address is there.
    Found,
    /// Wait one interval and look again.
    Wait,
    /// Give up: the discovery has timed out.
    TimedOut,
}

/// Downloads posts of the platform.
pub struct TwitterDownloader {}

/// Whether a search result says that the address is a post of the platform.
pub fn verdict(found: Option<bool>) -> (valid: Result<(), DownloaderError>)
    ensures
        valid is Ok <==> found == Some(true),
        valid is Err ==> valid == Err::<(), DownloaderError>(
            DownloaderError::UnsupportedPlatformError,
        ),
{
    match found {
        Some(true) => Ok(()),
        _ => Err(DownloaderError::UnsupportedPlatformError),
    }
}

impl PlatformDownloader for TwitterDownloader {
    /// An address is taken where some part of it matches the pattern of a
    /// post.
    open spec fn takes(url: Seq<char>) -> bool {
        regex_search(post_pattern(), url) == Some(true)
    }

    fn validate_url(url: &str) -> (valid: Result<(), DownloaderError>) {
        verdict(search(r"https:\/\/(twitter|x).com\/.+\/status\/\d+(\?.*)?", url))
    }
}

impl TwitterDownloader {
    /// The address of the variant manifest that the intercepted request for
    /// `request_url` shows, if it shows one.
    pub fn manifest_address_of(request_url: &str) -> (address: Option<String>)
        ensures
            match address {
                Some(found) => manifest_address(request_url@) == Some(found@),
                None => manifest_address(request_url@) is None,
            },
    {
        let request = chars_of(request_url);
        if !contains(&request, &chars_of("tag=")) {
            return None;
        }
        let parts = split_at_each(&request, '?');
        proof {
            lemma_split_nonempty(request@, '?');
        }
        assert(parts@[0]@ == char_views(parts@)[0]);
        Some(string_of(&parts[0]))
    }

    /// What the discovery holds after the request for `request_url` has been
    /// intercepted, `slot` being what it held before.
    pub fn intercept(slot: &str, request_url: &str) -> (kept: String)
        ensures
            kept@ == intercepted(slot@, request_url@),
    {
        if slot.is_empty() {
            match TwitterDownloader::manifest_address_of(request_url) {
                Some(address) => address,
                None => slot.to_owned(),
            }
        } else {
            slot.to_owned()
        }
    }

    /// What to do after the interception has been looked at `polls` times,
    /// the last look having found the address or not.
    pub fn poll_decision(found: bool, polls: u32) -> (decision: PollDecision)
        ensures
            decision == if found {
                PollDecision::Found
            } else if polls < DISCOVERY_POLLS {
                PollDecision::Wait
            } else {
                PollDecision::TimedOut
            },
    {
        if found {
            PollDecision::Found
        } else if polls < DISCOVERY_POLLS {
            PollDecision::Wait
        } else {
            PollDecision::TimedOut
        }
    }
}

} // verus!
