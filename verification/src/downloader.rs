use crate::downloader_error::DownloaderError;
use crate::platforms::twitter::TwitterDownloader;
use crate::text::{chars_of, starts_with, string_of, trimmed_end, trim_end_of};
use vstd::prelude::*;

verus! {

/// The coarse quality that a caller asks for.
#[derive(Debug, Clone, Copy, PartialEq, Eq, Structural)]
pub enum PreferredResolution {
    High,
    Medium,
    Low,
}

/// The position, in a list of `len` tiers ordered from best to worst, that a
/// preference stands for. No preference means the best tier; `Medium` of an
/// even number of tiers is the first tier of the worse half.
pub open spec fn selected_index(len: nat, preference: Option<PreferredResolution>) -> nat {
    match preference {
        None | Some(PreferredResolution::High) => 0,
        Some(PreferredResolution::Medium) => len / 2,
        Some(PreferredResolution::Low) => (len - 1) as nat,
    }
}

/// Maps a preference to an index into a non-empty tier list of length `len`.
pub fn select(len: usize, preference: Option<PreferredResolution>) -> (index: usize)
    requires
        len > 0,
    ensures
        index == selected_index(len as nat, preference),
        index < len,
{
    match preference {
        None | Some(PreferredResolution::High) => 0,
        Some(PreferredResolution::Medium) => len / 2,
        Some(PreferredResolution::Low) => len - 1,
    }
}

/// What a platform offers: it says which addresses are posts of its own.
pub trait PlatformDownloader {
    /// Whether the platform takes `url` for a post of its own.
    spec fn takes(url: Seq<char>) -> bool;

    /// Accepts the addresses that the platform takes, and rejects every other
    /// as unsupported.
    fn validate_url(url: &str) -> (valid: Result<(), DownloaderError>)
        ensures
            valid is Ok <==> Self::takes(url@),
            valid is Err ==> valid == Err::<(), DownloaderError>(
                DownloaderError::UnsupportedPlatformError,
            ),
    ;
}

/// The platforms that are known.
#[derive(Debug, Clone, Copy, PartialEq, Eq, Structural)]
pub enum Platform {
    Twitter,
}

/// A well-formed address: not empty, and of the secure scheme.
pub open spec fn well_formed(url: Seq<char>) -> bool {
    url.len() > 0 && "https://"@.is_prefix_of(url)
}

/// Whether `url` is a well-formed address.
pub fn is_url(url: &str) -> (valid: bool)
    ensures
        valid == well_formed(url@),
{
    let text = chars_of(url);
    text.len() > 0 && starts_with(&text, &chars_of("https://"))
}

/// Finds the platform that a request is for. White space at the end of the
/// input does not count. An input that is no well-formed address is invalid;
/// an address that no platform takes for its own is unsupported.
pub fn route(input: &str) -> (routed: Result<(String, Platform), DownloaderError>)
    ensures
        match routed {
            Ok((url, platform)) => {
                &&& url@ == trimmed_end(input@)
                &&& well_formed(url@)
                &&& TwitterDownloader::takes(url@)
                &&& platform == Platform::Twitter
            },
            Err(e) => if !well_formed(trimmed_end(input@)) {
                e == DownloaderError::InvalidInputError
            } else {
                !TwitterDownloader::takes(trimmed_end(input@)) && e
                    == DownloaderError::UnsupportedPlatformError
            },
        },
{
    let url = string_of(&trim_end_of(&chars_of(input)));
    if !is_url(url.as_str()) {
        return Err(DownloaderError::InvalidInputError);
    }
    match TwitterDownloader::validate_url(url.as_str()) {
        Ok(_) => Ok((url, Platform::Twitter)),
        Err(_) => Err(DownloaderError::UnsupportedPlatformError),
    }
}

/// Where a download request stands.
#[derive(Debug, Clone, Copy, PartialEq, Eq, Structural)]
pub enum DownloadStage {
    Idle,
    ManifestDiscovered,
    VariantResolved,
    TierSelected,
    TracksExpanded,
    SegmentsFetched,
    Assembled,
    Failed(DownloaderError),
}

/// The stage that follows `stage` once its step has come out as `outcome`.
/// A success leads one stage on; a failure ends the request with its kind.
/// `Assembled` and `Failed` are final.
pub open spec fn following(stage: DownloadStage, outcome: Result<(), DownloaderError>)
    -> DownloadStage {
    match stage {
        DownloadStage::Assembled | DownloadStage::Failed(_) => stage,
        _ => match outcome {
            Err(kind) => DownloadStage::Failed(kind),
            Ok(_) => match stage {
                DownloadStage::Idle => DownloadStage::ManifestDiscovered,
                DownloadStage::ManifestDiscovered => DownloadStage::VariantResolved,
                DownloadStage::VariantResolved => DownloadStage::TierSelected,
                DownloadStage::TierSelected => DownloadStage::TracksExpanded,
                DownloadStage::TracksExpanded => DownloadStage::SegmentsFetched,
                _ => DownloadStage::Assembled,
            },
        },
    }
}

/// The stage after `outcomes`, one per step, starting from `Idle`.
pub open spec fn stage_after(outcomes: Seq<Result<(), DownloaderError>>) -> DownloadStage
    decreases outcomes.len(),
{
    if outcomes.len() == 0 {
        DownloadStage::Idle
    } else {
        following(stage_after(outcomes.drop_last()), outcomes.last())
    }
}

impl DownloadStage {
    /// Whether the request has ended.
    pub fn is_final(&self) -> (ended: bool)
        ensures
            ended == (*self == DownloadStage::Assembled || *self is Failed),
    {
        match self {
            DownloadStage::Assembled | DownloadStage::Failed(_) => true,
            _ => false,
        }
    }

    /// The stage that follows once the step of this stage has come out as
    /// `outcome`.
    pub fn advance(self, outcome: Result<(), DownloaderError>) -> (next: DownloadStage)
        ensures
            next == following(self, outcome),
    {
        match self {
            DownloadStage::Assembled | DownloadStage::Failed(_) => self,
            _ => match outcome {
                Err(kind) => DownloadStage::Failed(kind),
                Ok(_) => match self {
                    DownloadStage::Idle => DownloadStage::ManifestDiscovered,
                    DownloadStage::ManifestDiscovered => DownloadStage::VariantResolved,
                    DownloadStage::VariantResolved => DownloadStage::TierSelected,
                    DownloadStage::TierSelected => DownloadStage::TracksExpanded,
                    DownloadStage::TracksExpanded => DownloadStage::SegmentsFetched,
                    _ => DownloadStage::Assembled,
                },
            },
        }
    }
}

/// A request fails with the kind of the first of its six steps that failed,
/// whatever follows.
pub proof fn lemma_first_failure_ends_request(outcomes: Seq<Result<(), DownloaderError>>, at: int)
    requires
        0 <= at < outcomes.len(),
        at < 6,
        outcomes[at] is Err,
        forall|k: int| 0 <= k < at ==> (#[trigger] outcomes[k]) is Ok,
    ensures
        stage_after(outcomes) == DownloadStage::Failed(outcomes[at]->Err_0),
    decreases outcomes.len(),
{
    lemma_stage_of_successes(outcomes.take(at));
    assert(outcomes.take(at + 1).drop_last() =~= outcomes.take(at));
    if outcomes.len() == at + 1 {
        assert(outcomes.take(at + 1) =~= outcomes);
    } else {
        lemma_first_failure_ends_request(outcomes.drop_last(), at);
    }
}

/// The stage after `n` successes.
pub open spec fn stage_number(n: nat) -> DownloadStage {
    if n == 0 {
        DownloadStage::Idle
    } else if n == 1 {
        DownloadStage::ManifestDiscovered
    } else if n == 2 {
        DownloadStage::VariantResolved
    } else if n == 3 {
        DownloadStage::TierSelected
    } else if n == 4 {
        DownloadStage::TracksExpanded
    } else if n == 5 {
        DownloadStage::SegmentsFetched
    } else {
        DownloadStage::Assembled
    }
}

/// Steps that all succeed lead through the stages in order, one per step,
/// and to `Assembled` from the sixth on.
pub proof fn lemma_stage_of_successes(outcomes: Seq<Result<(), DownloaderError>>)
    requires
        forall|k: int| 0 <= k < outcomes.len() ==> (#[trigger] outcomes[k]) is Ok,
    ensures
        stage_after(outcomes) == stage_number(outcomes.len()),
    decreases outcomes.len(),
{
    if outcomes.len() > 0 {
        lemma_stage_of_successes(outcomes.drop_last());
    }
}

} // verus!
