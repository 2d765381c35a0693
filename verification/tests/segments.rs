use vid_downloader::downloader_error::DownloaderError;
use vid_downloader::playlist::media_playlist::MediaPlaylist;
use vid_downloader::segments::SegmentSlots;

fn contents() -> Vec<Vec<u8>> {
    vec![vec![1, 2, 3], vec![], vec![4], vec![5, 6]]
}

fn filled(order: &[usize]) -> Result<Vec<u8>, DownloaderError> {
    let contents = contents();
    let mut slots = SegmentSlots::new(contents.len());
    for &i in order {
        slots.store(i, contents[i].clone());
    }
    slots.join()
}

#[test]
fn joined_bytes_follow_the_list_whatever_the_completion_order() {
    let expected: Vec<u8> = vec![1, 2, 3, 4, 5, 6];
    assert_eq!(filled(&[0, 1, 2, 3]), Ok(expected.clone()));
    assert_eq!(filled(&[3, 2, 1, 0]), Ok(expected.clone()));
    assert_eq!(filled(&[2, 0, 3, 1]), Ok(expected.clone()));
    assert_eq!(filled(&[1, 3, 1, 0, 2, 3]), Ok(expected));
}

#[test]
fn a_missing_segment_fails_the_track() {
    assert_eq!(filled(&[0, 1, 3]), Err(DownloaderError::FetchError));
    assert_eq!(filled(&[]), Err(DownloaderError::FetchError));
}

#[test]
fn a_failed_transfer_fails_the_track() {
    let contents = contents();
    let mut slots = SegmentSlots::new(contents.len());
    for (i, chunk) in contents.into_iter().enumerate() {
        slots.store(i, chunk);
    }
    assert!(slots.is_complete());
    slots.mark_failed();
    assert_eq!(slots.join(), Err(DownloaderError::FetchError));
}

#[test]
fn no_slot_is_trivially_complete() {
    let slots = SegmentSlots::new(0);
    assert_eq!(slots.len(), 0);
    assert!(slots.is_complete());
    assert_eq!(slots.join(), Ok(Vec::new()));
}

#[test]
fn a_later_store_replaces_the_slot_only() {
    let mut slots = SegmentSlots::new(2);
    assert!(!slots.is_complete());
    slots.store(1, vec![9]);
    slots.store(0, vec![7]);
    slots.store(1, vec![8, 8]);
    assert_eq!(slots.join(), Ok(vec![7, 8, 8]));
}

#[test]
fn track_bytes_come_out_in_segment_order() {
    let text = "/ext_tw_video/1/a.m4s\n/ext_tw_video/1/b.m4s\n/ext_tw_video/1/c.m4s";
    let mut track = MediaPlaylist::from_manifest("https://video.twimg.com/x/t.m3u8", text);
    assert_eq!(track.segment_count(), 3);
    assert_eq!(track.get_byte_data(), Err(DownloaderError::FetchError));
    track.store(2, b"cc".to_vec());
    track.store(0, b"a".to_vec());
    assert_eq!(track.get_byte_data(), Err(DownloaderError::FetchError));
    track.store(1, b"bbb".to_vec());
    assert_eq!(track.get_byte_data(), Ok(b"abbbcc".to_vec()));
    track.mark_failed();
    assert_eq!(track.get_byte_data(), Err(DownloaderError::FetchError));
}
