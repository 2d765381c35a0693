use crate::downloader::{select, selected_index, PreferredResolution};
use crate::downloader_error::DownloaderError;
use crate::playlist::manifest::{track_addresses, track_addresses_of, track_lines};
use crate::playlist::master_playlist::{MasterPlaylist, Tier};
use crate::text::{char_views, chars_of, string_of};
use vstd::prelude::*;

verus! {

/// The tiers that a variant manifest describes. Its first track line is the
/// audio track, which all tiers share; each further track line is the video
/// track of one tier, in the manifest's own order. Labels are empty.
pub open spec fn tiers(text: Seq<char>) -> Seq<Tier> {
    let addresses = track_addresses(text);
    Seq::new(
        (addresses.len() - 1) as nat,
        |i: int|
            Tier {
                resolution: Seq::<char>::empty(),
                video_url: addresses[i + 1],
                audio_url: addresses[0],
            },
    )
}

/// The quality tiers of one post, best first.
pub struct VariantPlaylist {
    pub master_playlists: Vec<MasterPlaylist>,
}

impl View for VariantPlaylist {
    type V = Seq<Tier>;

    open spec fn view(&self) -> Seq<Tier> {
        self.master_playlists@.map_values(|tier: MasterPlaylist| tier@)
    }
}

impl VariantPlaylist {
    /// A variant playlist holds at least one tier.
    pub open spec fn wf(&self) -> bool {
        self.master_playlists@.len() > 0
    }

    /// Resolves the text of a variant manifest into its tiers. An empty text
    /// is a failed fetch; a text with fewer than two track lines describes no
    /// tier.
    pub fn from_manifest(manifest_text: &str) -> (resolved: Result<
        VariantPlaylist,
        DownloaderError,
    >)
        ensures
            match resolved {
                Ok(playlist) => {
                    &&& manifest_text@.len() > 0
                    &&& track_lines(manifest_text@).len() >= 2
                    &&& playlist.wf()
                    &&& playlist@ == tiers(manifest_text@)
                    &&& forall|i: int|
                        0 <= i < playlist.master_playlists@.len() ==> {
                            &&& (#[trigger] playlist.master_playlists@[i]).video_track() is None
                            &&& playlist.master_playlists@[i].audio_track() is None
                        }
                },
                Err(e) => if manifest_text@.len() == 0 {
                    e == DownloaderError::FetchError
                } else {
                    track_lines(manifest_text@).len() < 2 && e
                        == DownloaderError::NoMasterPlaylistError
                },
            },
    {
        let text = chars_of(manifest_text);
        if text.len() == 0 {
            return Err(DownloaderError::FetchError);
        }
        let addresses = track_addresses_of(&text);
        assert(char_views(addresses@).len() == track_lines(manifest_text@).len());
        if addresses.len() < 2 {
            return Err(DownloaderError::NoMasterPlaylistError);
        }
        let audio = string_of(&addresses[0]);
        assert(audio@ == char_views(addresses@)[0]);
        let mut master_playlists: Vec<MasterPlaylist> = Vec::new();
        let mut i: usize = 1;
        while i < addresses.len()
            invariant
                1 <= i <= addresses.len(),
                char_views(addresses@) == track_addresses(manifest_text@),
                audio@ == track_addresses(manifest_text@)[0],
                master_playlists@.len() == i - 1,
                forall|k: int|
                    0 <= k < i - 1 ==> {
                        &&& (#[trigger] master_playlists@[k])@ == tiers(manifest_text@)[k]
                        &&& master_playlists@[k].video_track() is None
                        &&& master_playlists@[k].audio_track() is None
                    },
            decreases addresses.len() - i,
        {
            let video = string_of(&addresses[i]);
            assert(video@ == char_views(addresses@)[i as int]);
            match MasterPlaylist::from_urls(video.as_str(), audio.as_str()) {
                Ok(tier) => {
                    master_playlists.push(tier);
                },
                Err(_) => {},
            }
            i += 1;
        }
        let playlist = VariantPlaylist { master_playlists };
        assert(playlist@ =~= tiers(manifest_text@));
        Ok(playlist)
    }

    /// The number of tiers.
    pub fn len(&self) -> (n: usize)
        ensures
            n == self@.len(),
    {
        self.master_playlists.len()
    }

    /// The index of the tier that `preference` stands for: the first for
    /// `High` or no preference, the last for `Low`, and for `Medium` the one
    /// at half the length, rounded down.
    pub fn select(&self, preference: Option<PreferredResolution>) -> (index: usize)
        requires
            self.wf(),
        ensures
            index == selected_index(self@.len(), preference),
            index < self@.len(),
    {
        select(self.master_playlists.len(), preference)
    }

    /// Hands out the tier that `preference` stands for. A playlist without
    /// tiers has none to give.
    pub fn into_tier(self, preference: Option<PreferredResolution>) -> (chosen: Result<
        MasterPlaylist,
        DownloaderError,
    >)
        ensures
            match chosen {
                Ok(tier) => self.wf() && tier == self.master_playlists@[selected_index(
                    self@.len(),
                    preference,
                ) as int],
                Err(e) => !self.wf() && e == DownloaderError::NoMasterPlaylistError,
            },
    {
        if self.master_playlists.len() == 0 {
            return Err(DownloaderError::NoMasterPlaylistError);
        }
        let index = self.select(preference);
        let mut tiers = self.master_playlists;
        Ok(tiers.swap_remove(index))
    }
}

} // verus!
