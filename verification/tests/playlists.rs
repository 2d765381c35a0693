use vid_downloader::downloader::{select, PreferredResolution};
use vid_downloader::downloader_error::DownloaderError;
use vid_downloader::playlist::master_playlist::MasterPlaylist;
use vid_downloader::playlist::media_playlist::MediaPlaylist;
use vid_downloader::playlist::variant_playlist::VariantPlaylist;

const ORIGIN: &str = "https://video.twimg.com";

fn variant_manifest() -> String {
    [
        "#EXTM3U",
        "#EXT-X-VERSION:6",
        "#EXT-X-MEDIA:NAME=\"Audio\",TYPE=AUDIO,GROUP-ID=\"audio-128000\",URI=\"/ext_tw_video/17/pu/pl/mp4a/128000/aud.m3u8\"",
        "#EXT-X-MEDIA:NAME=\"English\",TYPE=SUBTITLES,GROUP-ID=\"subs\",URI=\"/ext_tw_video/17/pu/pl/subs/en.m3u8\"",
        "#EXT-X-STREAM-INF:BANDWIDTH=2000000,RESOLUTION=1280x720,CODECS=\"avc1.640020\",AUDIO=\"audio-128000\"",
        "/ext_tw_video/17/pu/pl/avc1/1280x720/hi.m3u8",
        "#EXT-X-STREAM-INF:BANDWIDTH=800000,RESOLUTION=640x360,CODECS=\"avc1.4d001f\",AUDIO=\"audio-128000\"",
        "/ext_tw_video/17/pu/pl/avc1/640x360/mid.m3u8",
        "#EXT-X-STREAM-INF:BANDWIDTH=300000,RESOLUTION=480x270,CODECS=\"avc1.4d001e\",AUDIO=\"audio-128000\"",
        "/ext_tw_video/17/pu/pl/avc1/480x270/low.m3u8",
        "",
    ]
    .join("\n")
}

fn video_manifest() -> String {
    [
        "#EXTM3U",
        "#EXT-X-MAP:URI=\"/ext_tw_video/17/pu/vid/avc1/0/0/480x270/init.mp4\"",
        "#EXTINF:3.000,",
        "/ext_tw_video/17/pu/vid/avc1/0/3000/480x270/a.m4s",
        "#EXTINF:3.000,",
        "/ext_tw_video/17/pu/vid/avc1/3000/6000/480x270/b.m4s",
        "#EXT-X-ENDLIST",
    ]
    .join("\n")
}

fn audio_manifest() -> String {
    [
        "#EXTM3U",
        "#EXT-X-MAP:URI=\"/ext_tw_video/17/pu/aud/mp4a/0/0/128000/init.mp4\"",
        "/ext_tw_video/17/pu/aud/mp4a/0/3000/128000/c.m4s",
    ]
    .join("\r\n")
}

#[test]
fn medium_of_five_tiers_is_the_third() {
    assert_eq!(select(5, Some(PreferredResolution::Medium)), 2);
}

#[test]
fn medium_of_four_tiers_is_the_third() {
    assert_eq!(select(4, Some(PreferredResolution::Medium)), 2);
}

#[test]
fn high_and_no_preference_are_the_first_tier() {
    assert_eq!(select(7, Some(PreferredResolution::High)), 0);
    assert_eq!(select(7, None), 0);
    assert_eq!(select(1, None), 0);
}

#[test]
fn low_is_the_last_tier() {
    assert_eq!(select(7, Some(PreferredResolution::Low)), 6);
    assert_eq!(select(1, Some(PreferredResolution::Low)), 0);
    assert_eq!(select(1, Some(PreferredResolution::Medium)), 0);
}

#[test]
fn media_parser_leaves_out_the_subtitle_line() {
    let text = [
        "#EXT-X-MEDIA:TYPE=SUBTITLES,URI=\"/ext_tw_video/1/pu/subs/en.vtt\"",
        "/ext_tw_video/1/pu/vid/0/3000/first.m4s",
        "#EXTINF:3.000,",
        "#EXT-X-MAP:URI=\"/amplify_video/1/vid/second.mp4\"",
    ]
    .join("\n");
    let urls = MediaPlaylist::parse(&text);
    assert_eq!(
        urls,
        vec![
            format!("{ORIGIN}/ext_tw_video/1/pu/vid/0/3000/first.m4s"),
            format!("{ORIGIN}/amplify_video/1/vid/second.mp4"),
        ]
    );
}

#[test]
fn media_parser_gives_nothing_for_a_text_without_segments() {
    assert!(MediaPlaylist::parse("").is_empty());
    assert!(MediaPlaylist::parse("#EXTM3U\n#EXT-X-ENDLIST\n").is_empty());
    assert!(MediaPlaylist::parse("TYPE=SUBTITLES /ext_tw_video/x").is_empty());
}

#[test]
fn media_parser_takes_the_last_quoted_run() {
    let urls = MediaPlaylist::parse("A=\"one\",B=\"/x_video/two\"\"\r\nC=\"/x_video/three\",D=4\n");
    assert_eq!(urls, vec![format!("{ORIGIN}/x_video/two"), format!("{ORIGIN},D=4")]);
}

#[test]
fn resolver_needs_two_track_lines() {
    let none = VariantPlaylist::from_manifest("#EXTM3U\n#EXT-X-VERSION:6\n");
    assert_eq!(none.err(), Some(DownloaderError::NoMasterPlaylistError));
    let one = VariantPlaylist::from_manifest("#EXTM3U\nURI=\"/ext_tw_video/1/pl/aud.m3u8\"\n");
    assert_eq!(one.err(), Some(DownloaderError::NoMasterPlaylistError));
    let subtitle = VariantPlaylist::from_manifest(
        "URI=\"/ext_tw_video/1/pl/aud.m3u8\"\nTYPE=SUBTITLES,URI=\"/ext_tw_video/1/pl/en.m3u8\"\n",
    );
    assert_eq!(subtitle.err(), Some(DownloaderError::NoMasterPlaylistError));
}

#[test]
fn resolver_takes_an_empty_text_for_a_failed_fetch() {
    assert_eq!(VariantPlaylist::from_manifest("").err(), Some(DownloaderError::FetchError));
}

#[test]
fn resolver_keeps_every_tier_in_source_order() {
    let playlist = VariantPlaylist::from_manifest(&variant_manifest()).ok().unwrap();
    assert_eq!(playlist.len(), 3);
    let videos: Vec<&str> =
        playlist.master_playlists.iter().map(|tier| tier.video_media_url().as_str()).collect();
    assert_eq!(
        videos,
        vec![
            "https://video.twimg.com/ext_tw_video/17/pu/pl/avc1/1280x720/hi.m3u8",
            "https://video.twimg.com/ext_tw_video/17/pu/pl/avc1/640x360/mid.m3u8",
            "https://video.twimg.com/ext_tw_video/17/pu/pl/avc1/480x270/low.m3u8",
        ]
    );
    for tier in playlist.master_playlists.iter() {
        assert_eq!(
            tier.audio_media_url(),
            "https://video.twimg.com/ext_tw_video/17/pu/pl/mp4a/128000/aud.m3u8"
        );
        assert_eq!(tier.resolution, "");
        assert_eq!(tier.label(), "");
    }
    assert_eq!(playlist.select(None), 0);
    assert_eq!(playlist.select(Some(PreferredResolution::Medium)), 1);
    assert_eq!(playlist.select(Some(PreferredResolution::Low)), 2);
}

#[test]
fn a_playlist_hands_out_the_chosen_tier() {
    let low = VariantPlaylist::from_manifest(&variant_manifest())
        .ok()
        .unwrap()
        .into_tier(Some(PreferredResolution::Low))
        .ok()
        .unwrap();
    assert_eq!(
        low.video_media_url(),
        "https://video.twimg.com/ext_tw_video/17/pu/pl/avc1/480x270/low.m3u8"
    );
    let medium = VariantPlaylist::from_manifest(&variant_manifest())
        .ok()
        .unwrap()
        .into_tier(Some(PreferredResolution::Medium))
        .ok()
        .unwrap();
    assert_eq!(
        medium.video_media_url(),
        "https://video.twimg.com/ext_tw_video/17/pu/pl/avc1/640x360/mid.m3u8"
    );
    let high =
        VariantPlaylist::from_manifest(&variant_manifest()).ok().unwrap().into_tier(None).ok().unwrap();
    assert_eq!(
        high.video_media_url(),
        "https://video.twimg.com/ext_tw_video/17/pu/pl/avc1/1280x720/hi.m3u8"
    );
    let empty = VariantPlaylist { master_playlists: Vec::new() };
    assert_eq!(
        empty.into_tier(Some(PreferredResolution::Low)).err(),
        Some(DownloaderError::NoMasterPlaylistError)
    );
}

#[test]
fn tier_from_urls_holds_both_addresses() {
    let mut tier = MasterPlaylist::from_urls("https://v/a.m3u8", "https://v/b.m3u8").ok().unwrap();
    assert_eq!(tier.video_media_url(), "https://v/a.m3u8");
    assert_eq!(tier.audio_media_url(), "https://v/b.m3u8");
    assert_eq!(tier.resolution, "");
    assert!(tier.take_tracks().is_none());
}

#[test]
fn expanding_a_tier_names_and_fills_both_tracks() {
    let playlist = VariantPlaylist::from_manifest(&variant_manifest()).ok().unwrap();
    let index = playlist.select(Some(PreferredResolution::Low));
    let mut tiers = playlist.master_playlists;
    let mut tier = tiers.swap_remove(index);
    assert_eq!(tier.expand(&video_manifest(), &audio_manifest()), Ok(()));
    let (video, audio) = tier.take_tracks().unwrap();
    assert!(tier.take_tracks().is_none());
    assert_eq!(video.name, "low");
    assert_eq!(video.track_name(), "low");
    assert_eq!(audio.name, "aud");
    assert_eq!(video.segment_count(), 3);
    assert_eq!(audio.segment_count(), 2);
    assert_eq!(
        video.segment_url(0),
        "https://video.twimg.com/ext_tw_video/17/pu/vid/avc1/0/0/480x270/init.mp4"
    );
    assert_eq!(
        video.segment_url(2),
        "https://video.twimg.com/ext_tw_video/17/pu/vid/avc1/3000/6000/480x270/b.m4s"
    );
    assert_eq!(
        audio.segment_url(1),
        "https://video.twimg.com/ext_tw_video/17/pu/aud/mp4a/0/3000/128000/c.m4s"
    );
}

#[test]
fn expanding_fails_where_a_manifest_lists_no_segment() {
    let mut tier = MasterPlaylist::from_urls("https://v/a.m3u8", "https://v/b.m3u8").ok().unwrap();
    assert_eq!(tier.expand(&video_manifest(), "#EXTM3U\n"), Err(DownloaderError::FetchError));
    assert!(tier.take_tracks().is_none());
    assert_eq!(tier.expand("", &audio_manifest()), Err(DownloaderError::FetchError));
    assert!(tier.take_tracks().is_none());
}

#[test]
fn track_name_is_the_last_path_segment_without_extension() {
    let track = MediaPlaylist::from_manifest("https://video.twimg.com/a/b/name.v2.m3u8", "");
    assert_eq!(track.name, "name");
    let bare = MediaPlaylist::from_manifest("plain", "");
    assert_eq!(bare.name, "plain");
    let slash = MediaPlaylist::from_manifest("https://host/dir/", "");
    assert_eq!(slash.name, "");
}
