use crate::downloader_error::DownloaderError;
use crate::playlist::manifest::{track_addresses, track_addresses_of, track_name, track_name_of};
use crate::segments::{joined, vacant, SegmentSlots};
use crate::text::{chars_of, string_of, string_views, strings_of};
use vstd::prelude::*;

verus! {

/// One track of a tier: its name, the addresses of its segments in playing
/// order, and one slot per segment for the bytes that are fetched.
pub struct MediaPlaylist {
    pub name: String,
    urls: Vec<String>,
    slots: SegmentSlots,
}

impl MediaPlaylist {
    /// The track's name.
    pub closed spec fn name(&self) -> Seq<char> {
        self.name@
    }

    /// The segment addresses, in playing order.
    pub closed spec fn urls(&self) -> Seq<Seq<char>> {
        string_views(self.urls@)
    }

    /// The slots, one per segment, each holding what has been fetched.
    pub closed spec fn slots(&self) -> Seq<Option<Seq<u8>>> {
        self.slots@
    }

    /// Whether a transfer of this track has failed.
    pub closed spec fn failed(&self) -> bool {
        self.slots.failed()
    }

    /// Whether every segment has arrived and none has failed.
    pub closed spec fn ready(&self) -> bool {
        self.slots.ready()
    }

    /// Slot `i` belongs to segment `i`: there are as many slots as addresses.
    pub open spec fn wf(&self) -> bool {
        self.slots().len() == self.urls().len()
    }

    /// What `ready` means in terms of the slots.
    pub proof fn lemma_ready(&self)
        ensures
            self.ready() == (!self.failed() && crate::segments::all_filled(self.slots())),
    {
    }

    /// The absolute segment addresses that a media manifest lists, in source
    /// order. Lines that name no segment, and subtitle lines, are left out; a
    /// manifest without segment lines gives the empty list.
    pub fn parse(manifest_text: &str) -> (urls: Vec<String>)
        ensures
            string_views(urls@) == track_addresses(manifest_text@),
    {
        let text = chars_of(manifest_text);
        let addresses = track_addresses_of(&text);
        strings_of(&addresses)
    }

    /// The track that the manifest at `manifest_url` describes, with every
    /// slot vacant.
    pub fn from_manifest(manifest_url: &str, manifest_text: &str) -> (track: MediaPlaylist)
        ensures
            track.wf(),
            track.name() == track_name(manifest_url@),
            track.urls() == track_addresses(manifest_text@),
            track.slots() == vacant(track_addresses(manifest_text@).len()),
            !track.failed(),
    {
        let address = chars_of(manifest_url);
        let name = string_of(&track_name_of(&address));
        let urls = MediaPlaylist::parse(manifest_text);
        let slots = SegmentSlots::new(urls.len());
        MediaPlaylist { name, urls, slots }
    }

    /// The track's name.
    pub fn track_name(&self) -> (name: &String)
        ensures
            name@ == self.name(),
    {
        &self.name
    }

    /// The number of segments.
    pub fn segment_count(&self) -> (n: usize)
        ensures
            n == self.urls().len(),
    {
        self.urls.len()
    }

    /// The address of segment `index`.
    pub fn segment_url(&self, index: usize) -> (url: &String)
        requires
            index < self.urls().len(),
        ensures
            url@ == self.urls()[index as int],
    {
        &self.urls[index]
    }

    /// Puts the bytes of segment `index` into its slot, whenever they arrive.
    pub fn store(&mut self, index: usize, bytes: Vec<u8>)
        requires
            old(self).wf(),
            index < old(self).urls().len(),
        ensures
            final(self).wf(),
            final(self).name() == old(self).name(),
            final(self).urls() == old(self).urls(),
            final(self).slots() == old(self).slots().update(index as int, Some(bytes@)),
            final(self).failed() == old(self).failed(),
    {
        self.slots.store(index, bytes);
    }

    /// Records that the transfer of some segment failed.
    pub fn mark_failed(&mut self)
        ensures
            final(self).name() == old(self).name(),
            final(self).urls() == old(self).urls(),
            final(self).slots() == old(self).slots(),
            final(self).failed(),
    {
        self.slots.mark_failed();
    }

    /// The bytes of the whole track, segment 0 first, once every segment has
    /// arrived. One failed or missing segment fails the track.
    pub fn get_byte_data(&self) -> (track: Result<Vec<u8>, DownloaderError>)
        ensures
            match track {
                Ok(bytes) => self.ready() && bytes@ == joined(self.slots()),
                Err(e) => !self.ready() && e == DownloaderError::FetchError,
            },
    {
        self.slots.join()
    }
}

} // verus!
