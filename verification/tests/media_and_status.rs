use putioarr::media::MediaType;
use putioarr::putio::PutIOTransfer;
use putioarr::transmission::{TransmissionConfig, TransmissionTorrent, TransmissionTorrentStatus};

fn now_secs() -> i64 {
    chrono::Utc::now().timestamp()
}

fn now_nanos() -> u32 {
    chrono::Utc::now().timestamp_subsec_nanos()
}

#[test]
fn test_media_type_from_file_type_str_video() {
    assert_eq!(MediaType::from_file_type_str("VIDEO"), Some(MediaType::Video));
}

#[test]
fn test_media_type_from_file_type_str_audio() {
    assert_eq!(MediaType::from_file_type_str("AUDIO"), Some(MediaType::Audio));
}

#[test]
fn test_media_type_from_file_type_str_unknown() {
    assert_eq!(MediaType::from_file_type_str("PDF"), None);
    assert_eq!(MediaType::from_file_type_str("FOLDER"), None);
    assert_eq!(MediaType::from_file_type_str(""), None);
}

#[test]
fn test_media_type_from_file_name_video_extensions() {
    for ext in &["mkv", "mp4", "avi", "mov", "wmv", "flv", "webm", "m4v", "ts"] {
        let name = format!("movie.{}", ext);
        assert_eq!(
            MediaType::from_file_name(&name),
            Some(MediaType::Video),
            "Expected Video for extension: {}",
            ext
        );
    }
}

#[test]
fn test_media_type_from_file_name_audio_extensions() {
    for ext in &["flac", "mp3", "aac", "ogg", "opus", "wav", "m4a"] {
        let name = format!("song.{}", ext);
        assert_eq!(
            MediaType::from_file_name(&name),
            Some(MediaType::Audio),
            "Expected Audio for extension: {}",
            ext
        );
    }
}

#[test]
fn test_media_type_from_file_name_subtitle_extensions() {
    for ext in &["srt", "sub", "ass", "ssa", "vtt"] {
        let name = format!("subtitle.{}", ext);
        assert_eq!(
            MediaType::from_file_name(&name),
            Some(MediaType::Subtitle),
            "Expected Subtitle for extension: {}",
            ext
        );
    }
}

#[test]
fn test_media_type_from_file_name_unknown_extension() {
    assert_eq!(MediaType::from_file_name("file.pdf"), None);
    assert_eq!(MediaType::from_file_name("file.txt"), None);
    assert_eq!(MediaType::from_file_name("file"), None);
}

#[test]
fn test_media_type_from_file_name_case_insensitive() {
    assert_eq!(MediaType::from_file_name("Movie.MKV"), Some(MediaType::Video));
    assert_eq!(MediaType::from_file_name("Song.MP3"), Some(MediaType::Audio));
}

#[test]
fn test_putio_transfer_is_downloadable_with_file_id() {
    let t = PutIOTransfer {
        id: 1,
        hash: None,
        name: None,
        size: None,
        downloaded: None,
        finished_at: None,
        estimated_time: None,
        status: "COMPLETED".to_string(),
        started_at: None,
        error_message: None,
        file_id: Some(42),
        userfile_exists: false,
    };
    assert!(t.is_downloadable());
}

#[test]
fn test_putio_transfer_not_downloadable_without_file_id() {
    let t = PutIOTransfer {
        id: 1,
        hash: None,
        name: None,
        size: None,
        downloaded: None,
        finished_at: None,
        estimated_time: None,
        status: "DOWNLOADING".to_string(),
        started_at: None,
        error_message: None,
        file_id: None,
        userfile_exists: false,
    };
    assert!(!t.is_downloadable());
}

fn make_transfer(status: &str, finished_at: Option<&str>) -> PutIOTransfer {
    PutIOTransfer {
        id: 1,
        hash: Some("abcdef1234567890".to_string()),
        name: Some("Test Torrent".to_string()),
        size: Some(1000),
        downloaded: Some(500),
        finished_at: finished_at.map(|s| s.to_string()),
        estimated_time: Some(60),
        status: status.to_string(),
        started_at: Some("2024-01-01T00:00:00".to_string()),
        error_message: None,
        file_id: Some(42),
        userfile_exists: false,
    }
}

#[test]
fn test_status_mapping_downloading() {
    let status = TransmissionTorrentStatus::from("DOWNLOADING".to_string());
    assert_eq!(status, TransmissionTorrentStatus::Downloading);
}

#[test]
fn test_status_mapping_completed() {
    let status = TransmissionTorrentStatus::from("COMPLETED".to_string());
    assert_eq!(status, TransmissionTorrentStatus::Stopped);
}

#[test]
fn test_status_mapping_seeding() {
    let status = TransmissionTorrentStatus::from("SEEDING".to_string());
    assert_eq!(status, TransmissionTorrentStatus::Seeding);
}

#[test]
fn test_status_mapping_error() {
    let status = TransmissionTorrentStatus::from("ERROR".to_string());
    assert_eq!(status, TransmissionTorrentStatus::Stopped);
}

#[test]
fn test_status_mapping_in_queue() {
    let status = TransmissionTorrentStatus::from("IN_QUEUE".to_string());
    assert_eq!(status, TransmissionTorrentStatus::Queued);
}

#[test]
fn test_status_mapping_case_insensitive() {
    let status = TransmissionTorrentStatus::from("downloading".to_string());
    assert_eq!(status, TransmissionTorrentStatus::Downloading);
}

#[test]
fn test_status_mapping_unknown_defaults_to_checkwait() {
    let status = TransmissionTorrentStatus::from("UNKNOWN_STATUS".to_string());
    assert_eq!(status, TransmissionTorrentStatus::CheckWait);
}

#[test]
fn test_torrent_conversion_is_finished_when_finished_at_set() {
    let transfer = make_transfer("COMPLETED", Some("2024-01-02T10:00:00"));
    let torrent = TransmissionTorrent::from(&transfer, now_secs(), now_nanos());
    assert!(torrent.is_finished);
}

#[test]
fn test_torrent_conversion_not_finished_when_no_finished_at() {
    let transfer = make_transfer("DOWNLOADING", None);
    let torrent = TransmissionTorrent::from(&transfer, now_secs(), now_nanos());
    assert!(!torrent.is_finished);
}

#[test]
fn test_torrent_conversion_left_until_done() {
    let transfer = make_transfer("DOWNLOADING", None);
    let torrent = TransmissionTorrent::from(&transfer, now_secs(), now_nanos());
    assert_eq!(torrent.left_until_done, 500); // size(1000) - downloaded(500)
}

#[test]
fn test_torrent_conversion_left_until_done_never_negative() {
    let mut transfer = make_transfer("COMPLETED", Some("2024-01-02T00:00:00"));
    transfer.downloaded = Some(2000); // more than size
    let torrent = TransmissionTorrent::from(&transfer, now_secs(), now_nanos());
    assert_eq!(torrent.left_until_done, 0);
}

#[test]
fn test_torrent_conversion_default_name_when_missing() {
    let mut transfer = make_transfer("DOWNLOADING", None);
    transfer.name = None;
    let torrent = TransmissionTorrent::from(&transfer, now_secs(), now_nanos());
    assert_eq!(torrent.name, "Unknown");
}

#[test]
fn test_transmission_config_defaults() {
    let config = TransmissionConfig::default();
    assert_eq!(config.rpc_version, "18");
    assert_eq!(config.version, "14.0.0");
    assert!(config.seed_ratio_limited);
    assert!(!config.idle_seeding_limit_enabled);
}
