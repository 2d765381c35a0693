use vid_downloader::downloader::{is_url, route, DownloadStage, Platform, PlatformDownloader};
use vid_downloader::downloader_error::DownloaderError;
use vid_downloader::platforms::twitter::{verdict, PollDecision, TwitterDownloader, DISCOVERY_POLLS};

#[test]
fn an_address_is_not_empty_and_secure() {
    assert!(is_url("https://x.com"));
    assert!(is_url("https://"));
    assert!(!is_url(""));
    assert!(!is_url("http://x.com"));
    assert!(!is_url("https:/"));
    assert!(!is_url(" https://x.com"));
}

#[test]
fn posts_of_the_platform_are_valid() {
    assert_eq!(TwitterDownloader::validate_url("https://twitter.com/someone/status/12345"), Ok(()));
    assert_eq!(TwitterDownloader::validate_url("https://x.com/someone/status/1?s=20"), Ok(()));
    assert_eq!(
        TwitterDownloader::validate_url("see https://x.com/a/status/9 please"),
        Ok(())
    );
}

#[test]
fn other_addresses_are_unsupported() {
    for url in [
        "https://example.com/someone/status/12345",
        "https://twitter.com/someone/status/",
        "https://twitter.com//status/1",
        "https://x.com/someone/likes/1",
        "",
    ] {
        assert_eq!(
            TwitterDownloader::validate_url(url),
            Err(DownloaderError::UnsupportedPlatformError)
        );
    }
}

#[test]
fn verdict_accepts_a_match_only() {
    assert_eq!(verdict(Some(true)), Ok(()));
    assert_eq!(verdict(Some(false)), Err(DownloaderError::UnsupportedPlatformError));
    assert_eq!(verdict(None), Err(DownloaderError::UnsupportedPlatformError));
}

#[test]
fn routing_trims_the_end_and_names_the_platform() {
    assert_eq!(
        route("https://x.com/someone/status/77 \r\n"),
        Ok((String::from("https://x.com/someone/status/77"), Platform::Twitter))
    );
    assert_eq!(
        route("https://twitter.com/a/status/1\u{2003}\t"),
        Ok((String::from("https://twitter.com/a/status/1"), Platform::Twitter))
    );
}

#[test]
fn routing_rejects_what_is_no_address() {
    assert_eq!(route(""), Err(DownloaderError::InvalidInputError));
    assert_eq!(route("  \n"), Err(DownloaderError::InvalidInputError));
    assert_eq!(route("x.com/someone/status/77"), Err(DownloaderError::InvalidInputError));
    assert_eq!(route(" https://x.com/someone/status/77"), Err(DownloaderError::InvalidInputError));
}

#[test]
fn routing_rejects_an_unknown_platform() {
    assert_eq!(
        route("https://example.org/watch?v=1\n"),
        Err(DownloaderError::UnsupportedPlatformError)
    );
}

#[test]
fn interception_keeps_the_address_up_to_the_query() {
    assert_eq!(
        TwitterDownloader::manifest_address_of(
            "https://video.twimg.com/ext_tw_video/1/pu/pl/x.m3u8?tag=12&container=fmp4"
        ),
        Some(String::from("https://video.twimg.com/ext_tw_video/1/pu/pl/x.m3u8"))
    );
    assert_eq!(
        TwitterDownloader::manifest_address_of("https://video.twimg.com/tag=3/x.m3u8"),
        Some(String::from("https://video.twimg.com/tag=3/x.m3u8"))
    );
    assert_eq!(
        TwitterDownloader::manifest_address_of("https://video.twimg.com/ext_tw_video/1/x.m3u8?v=2"),
        None
    );
    assert_eq!(TwitterDownloader::manifest_address_of("?tag="), Some(String::new()));
}

#[test]
fn the_first_matching_request_fills_the_slot() {
    assert_eq!(
        TwitterDownloader::intercept("", "https://video.twimg.com/amplify_video/2/pl/m.m3u8?tag=14"),
        "https://video.twimg.com/amplify_video/2/pl/m.m3u8"
    );
    assert_eq!(TwitterDownloader::intercept("", "https://video.twimg.com/a/tag=1"), "https://video.twimg.com/a/tag=1");
}

#[test]
fn a_filled_slot_is_kept() {
    assert_eq!(
        TwitterDownloader::intercept("https://first", "https://video.twimg.com/x.m3u8?tag=14"),
        "https://first"
    );
    assert_eq!(TwitterDownloader::intercept("https://first", "https://other/no-mark"), "https://first");
}

#[test]
fn a_request_without_the_mark_leaves_the_slot_empty() {
    assert_eq!(TwitterDownloader::intercept("", "https://video.twimg.com/x.m3u8?v=2"), "");
    assert_eq!(TwitterDownloader::intercept("", ""), "");
    assert_eq!(TwitterDownloader::intercept("", "?tag="), "");
}

#[test]
fn discovery_gives_up_after_its_polls() {
    assert_eq!(TwitterDownloader::poll_decision(true, 0), PollDecision::Found);
    assert_eq!(TwitterDownloader::poll_decision(true, DISCOVERY_POLLS), PollDecision::Found);
    assert_eq!(TwitterDownloader::poll_decision(false, 0), PollDecision::Wait);
    assert_eq!(TwitterDownloader::poll_decision(false, 99), PollDecision::Wait);
    assert_eq!(TwitterDownloader::poll_decision(false, 100), PollDecision::TimedOut);
    assert_eq!(TwitterDownloader::poll_decision(false, u32::MAX), PollDecision::TimedOut);
}

#[test]
fn six_successes_assemble_a_request() {
    let mut stage = DownloadStage::Idle;
    let expected = [
        DownloadStage::ManifestDiscovered,
        DownloadStage::VariantResolved,
        DownloadStage::TierSelected,
        DownloadStage::TracksExpanded,
        DownloadStage::SegmentsFetched,
        DownloadStage::Assembled,
    ];
    for next in expected {
        assert!(!stage.is_final());
        stage = stage.advance(Ok(()));
        assert_eq!(stage, next);
    }
    assert!(stage.is_final());
    assert_eq!(stage.advance(Err(DownloaderError::IOError)), DownloadStage::Assembled);
}

#[test]
fn a_failure_ends_a_request_with_its_kind() {
    let stage = DownloadStage::Idle.advance(Ok(())).advance(Err(DownloaderError::NoMasterPlaylistError));
    assert_eq!(stage, DownloadStage::Failed(DownloaderError::NoMasterPlaylistError));
    assert!(stage.is_final());
    assert_eq!(stage.advance(Ok(())), stage);
    assert_eq!(stage.advance(Err(DownloaderError::MuxError)), stage);
    assert_eq!(
        DownloadStage::SegmentsFetched.advance(Err(DownloaderError::MuxError)),
        DownloadStage::Failed(DownloaderError::MuxError)
    );
}

#[test]
fn every_failure_has_its_own_message() {
    let kinds = [
        DownloaderError::InvalidInputError,
        DownloaderError::UnsupportedPlatformError,
        DownloaderError::FetchError,
        DownloaderError::NoMasterPlaylistError,
        DownloaderError::IOError,
        DownloaderError::MuxError,
    ];
    assert_eq!(DownloaderError::InvalidInputError.message(), "invalid input");
    assert_eq!(DownloaderError::MuxError.message(), "muxer failed");
    for (i, a) in kinds.iter().enumerate() {
        for (j, b) in kinds.iter().enumerate() {
            assert_eq!(a.message() == b.message(), i == j);
        }
    }
}
