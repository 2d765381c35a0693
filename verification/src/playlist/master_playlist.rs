use crate::downloader_error::DownloaderError;
use crate::playlist::manifest::{track_addresses, track_name};
use crate::playlist::media_playlist::MediaPlaylist;
use crate::segments::vacant;
use vstd::prelude::*;

verus! {

/// What a tier is, as plain values.
pub ghost struct Tier {
    pub resolution: Seq<char>,
    pub video_url: Seq<char>,
    pub audio_url: Seq<char>,
}

/// One quality tier: a label, the addresses of its video and audio manifests,
/// and, once the tier has been chosen and expanded, its two tracks.
pub struct MasterPlaylist {
    pub resolution: String,
    video_media_playlist: Option<MediaPlaylist>,
    audio_media_playlist: Option<MediaPlaylist>,
    video_media_url: String,
    audio_media_url: String,
}

impl View for MasterPlaylist {
    type V = Tier;

    closed spec fn view(&self) -> Tier {
        Tier {
            resolution: self.resolution@,
            video_url: self.video_media_url@,
            audio_url: self.audio_media_url@,
        }
    }
}

/// A track as `MediaPlaylist::from_manifest` leaves it: named after its
/// manifest's address, with the segment addresses of `text` and vacant slots.
pub open spec fn fresh_track(track: MediaPlaylist, address: Seq<char>, text: Seq<char>) -> bool {
    &&& track.wf()
    &&& track.name() == track_name(address)
    &&& track.urls() == track_addresses(text)
    &&& track.slots() == vacant(track_addresses(text).len())
    &&& !track.failed()
}

impl MasterPlaylist {
    /// The video track, once expanded.
    pub closed spec fn video_track(&self) -> Option<MediaPlaylist> {
        self.video_media_playlist
    }

    /// The audio track, once expanded.
    pub closed spec fn audio_track(&self) -> Option<MediaPlaylist> {
        self.audio_media_playlist
    }

    /// A tier with an empty label and no track expanded yet. Never fails.
    pub fn from_urls(video_url: &str, audio_url: &str) -> (tier: Result<Self, DownloaderError>)
        ensures
            tier is Ok,
            tier.unwrap()@ == (Tier {
                resolution: Seq::<char>::empty(),
                video_url: video_url@,
                audio_url: audio_url@,
            }),
            tier.unwrap().video_track() is None,
            tier.unwrap().audio_track() is None,
    {
        Ok(
            MasterPlaylist {
                resolution: String::new(),
                video_media_playlist: None,
                audio_media_playlist: None,
                video_media_url: video_url.to_owned(),
                audio_media_url: audio_url.to_owned(),
            },
        )
    }

    /// The tier's label.
    pub fn label(&self) -> (label: &String)
        ensures
            label@ == self@.resolution,
    {
        &self.resolution
    }

    /// The address of the video manifest.
    pub fn video_media_url(&self) -> (url: &String)
        ensures
            url@ == self@.video_url,
    {
        &self.video_media_url
    }

    /// The address of the audio manifest.
    pub fn audio_media_url(&self) -> (url: &String)
        ensures
            url@ == self@.audio_url,
    {
        &self.audio_media_url
    }

    /// Expands both tracks from the texts of the tier's two media manifests.
    /// A manifest that lists no segment is a failure: then nothing changes.
    pub fn expand(&mut self, video_manifest: &str, audio_manifest: &str) -> (done: Result<
        (),
        DownloaderError,
    >)
        ensures
            final(self)@ == old(self)@,
            match done {
                Ok(_) => {
                    &&& track_addresses(video_manifest@).len() > 0
                    &&& track_addresses(audio_manifest@).len() > 0
                    &&& final(self).video_track() is Some
                    &&& final(self).audio_track() is Some
                    &&& fresh_track(
                        final(self).video_track().unwrap(),
                        old(self)@.video_url,
                        video_manifest@,
                    )
                    &&& fresh_track(
                        final(self).audio_track().unwrap(),
                        old(self)@.audio_url,
                        audio_manifest@,
                    )
                },
                Err(e) => {
                    &&& e == DownloaderError::FetchError
                    &&& (track_addresses(video_manifest@).len() == 0 || track_addresses(
                        audio_manifest@,
                    ).len() == 0)
                    &&& final(self).video_track() == old(self).video_track()
                    &&& final(self).audio_track() == old(self).audio_track()
                },
            },
    {
        let video = MediaPlaylist::from_manifest(self.video_media_url.as_str(), video_manifest);
        let audio = MediaPlaylist::from_manifest(self.audio_media_url.as_str(), audio_manifest);
        if video.segment_count() == 0 || audio.segment_count() == 0 {
            return Err(DownloaderError::FetchError);
        }
        self.video_media_playlist = Some(video);
        self.audio_media_playlist = Some(audio);
        Ok(())
    }

    /// Hands out the two expanded tracks, video first, and leaves the tier
    /// without them; `None`, and no change, where the tier is not expanded.
    pub fn take_tracks(&mut self) -> (tracks: Option<(MediaPlaylist, MediaPlaylist)>)
        ensures
            final(self)@ == old(self)@,
            match tracks {
                Some((video, audio)) => {
                    &&& old(self).video_track() == Some(video)
                    &&& old(self).audio_track() == Some(audio)
                    &&& final(self).video_track() is None
                    &&& final(self).audio_track() is None
                },
                None => {
                    &&& (old(self).video_track() is None || old(self).audio_track() is None)
                    &&& final(self).video_track() == old(self).video_track()
                    &&& final(self).audio_track() == old(self).audio_track()
                },
            },
    {
        if self.video_media_playlist.is_none() || self.audio_media_playlist.is_none() {
            return None;
        }
        let video = self.video_media_playlist.take();
        let audio = self.audio_media_playlist.take();
        Some((video.unwrap(), audio.unwrap()))
    }
}

} // verus!
