use std::path::Path;

use base64::Engine;

use putioarr::categories::{app_matches_category, app_to_category, CategoryMap};
use putioarr::config::{Config, PutioConfig};
use putioarr::media::{extension, MediaType};
use putioarr::orchestration::{
    after_downloads, cleanup_for, resume_at_startup, Cleanup, DownloadDoneStatus, PathKind, SeedingAction,
    SeedingEvent, SeedingWatch, SeenTransfers, MAX_BACKOFF,
};
use putioarr::putio::{FileResponse, ListFileResponse, PutIOTransfer};
use putioarr::rpc::{
    handle_torrent_add, handle_torrent_get, handle_torrent_remove, plan_magnet,
    plan_torrent_upload, rpc_method, topic_hash, validate_user, AddError, AddSource, Removal,
    RpcMethod, TorrentAddArgs,
};
use putioarr::text::join_path;
use putioarr::transfer::{
    file_targets, gather_targets, DownloadTarget, FetchedEntry, ListingPlan, ListingRequest, TargetType, Transfer,
    TransferError, TransferMessage,
};
use putioarr::transmission::{TransmissionTorrent, TransmissionTorrentStatus};

fn transfer(id: u64, hash: Option<&str>, file_id: Option<i64>) -> PutIOTransfer {
    PutIOTransfer {
        id,
        hash: hash.map(|s| s.to_string()),
        name: Some(format!("Transfer {}", id)),
        size: Some(1000),
        downloaded: Some(1000),
        finished_at: None,
        estimated_time: None,
        status: "DOWNLOADING".to_string(),
        started_at: None,
        error_message: None,
        file_id,
        userfile_exists: true,
    }
}

fn file(id: i64, name: &str, file_type: &str) -> FileResponse {
    FileResponse {
        content_type: "application/octet-stream".to_string(),
        id,
        name: name.to_string(),
        file_type: file_type.to_string(),
    }
}

fn config() -> Config {
    Config {
        bind_address: "0.0.0.0".to_string(),
        download_directory: "/data/downloads".to_string(),
        download_workers: 4,
        loglevel: "info".to_string(),
        orchestration_workers: 10,
        password: "secret".to_string(),
        polling_interval: 10,
        port: 9091,
        skip_directories: vec!["sample".to_string(), "extras".to_string()],
        uid: 1000,
        username: "putio".to_string(),
        putio: PutioConfig { api_key: "key".to_string() },
        sonarr: None,
        radarr: None,
        whisparr: None,
        lidarr: None,
    }
}

#[test]
fn join_path_matches_std_path_join() {
    let cases = [
        ("/data", "tv"),
        ("/data/", "tv"),
        ("", "tv"),
        ("/data", "/abs"),
        ("/data", ""),
        ("rel", "a b/c"),
        ("/data", "ünïcödé"),
    ];
    for (base, part) in cases {
        let expected = Path::new(base).join(part).to_string_lossy().to_string();
        assert_eq!(join_path(base, part), expected, "join {:?} {:?}", base, part);
    }
}

#[test]
fn extension_matches_std_path_extension() {
    let cases = [
        "movie.mkv", "file", ".bashrc", "a.b.c", "file.", "dir/file.mp4", "dir.d/file",
        "dir/file.mp4/", "dir/file.mp4/.", "..", "a/..", "/", ".", "", "./x.srt", "x.tar.gz",
        "Émission.MKV", "a//b.c//",
    ];
    for c in cases {
        let expected = Path::new(c).extension().and_then(|e| e.to_str());
        assert_eq!(extension(c), expected, "extension of {:?}", c);
    }
}

#[test]
fn media_type_prefers_putio_file_type_then_extension() {
    assert_eq!(MediaType::from_file_name("dir/Show.S01E01.WEBM"), Some(MediaType::Video));
    assert_eq!(MediaType::from_file_name("album/track.FLAC"), Some(MediaType::Audio));
    assert_eq!(MediaType::from_file_name(".mkv"), None);
    assert_eq!(MediaType::from_file_name("notes.nfo"), None);
}

#[test]
fn category_map_reads_back_what_was_recorded() {
    let mut m = CategoryMap::new();
    assert_eq!(m.get("abcd"), None);
    m.insert("abcd".to_string(), "tv".to_string());
    m.insert("ef01".to_string(), "music".to_string());
    m.insert("abcd".to_string(), "movies".to_string());
    assert_eq!(m.get("abcd"), Some("movies".to_string()));
    assert_eq!(m.get("ef01"), Some("music".to_string()));
    assert_eq!(m.pairs().len(), 2);
}

#[test]
fn app_names_map_to_categories() {
    assert_eq!(app_to_category("sonarr"), "tv");
    assert_eq!(app_to_category("radarr"), "movies");
    assert_eq!(app_to_category("lidarr"), "music");
    assert_eq!(app_to_category("whisparr"), "whisparr");
}

fn top_request(category: Option<&str>) -> ListingRequest {
    let mut categories = CategoryMap::new();
    if let Some(c) = category {
        categories.insert("abcdef".to_string(), c.to_string());
    }
    let t = Transfer::from(&transfer(7, Some("abcdef"), Some(99)));
    let mut t = t;
    t.name = "www.UIndex.org    -    For.All.Mankind.S05E03".to_string();
    t.get_download_targets("/downloads", &categories).unwrap()
}

#[test]
fn single_file_goes_into_directory_named_after_torrent() {
    let req = top_request(Some("tv"));
    let listing = ListFileResponse {
        files: vec![],
        parent: file(99, "For.All.Mankind.S05E03.mkv", "VIDEO"),
    };
    match req.plan(&listing, &config().skip_directories) {
        ListingPlan::File { wrapper, file } => {
            let targets = file_targets(wrapper, file, "https://put.io/x".to_string());
            assert_eq!(targets.len(), 2);
            assert_eq!(targets[0].to, "/downloads/tv/www.UIndex.org    -    For.All.Mankind.S05E03");
            assert_eq!(targets[0].target_type, TargetType::Directory);
            assert!(targets[0].top_level);
            assert_eq!(
                targets[1].to,
                "/downloads/tv/www.UIndex.org    -    For.All.Mankind.S05E03/For.All.Mankind.S05E03.mkv"
            );
            assert_eq!(targets[1].from.as_deref(), Some("https://put.io/x"));
            assert_eq!(targets[1].media_type, Some(MediaType::Video));
            assert_eq!(targets[1].transfer_hash, "abcdef");
        }
        other => panic!("unexpected plan {:?}", other),
    }
}

#[test]
fn folder_is_named_after_torrent_and_children_go_inside() {
    let req = top_request(None);
    let listing = ListFileResponse {
        files: vec![file(1, "a.mkv", "VIDEO"), file(2, "Sample", "FOLDER")],
        parent: file(99, "For.All.Mankind.S05E03", "FOLDER"),
    };
    match req.plan(&listing, &config().skip_directories) {
        ListingPlan::Folder { directory, children } => {
            assert_eq!(directory.to, "/downloads/www.UIndex.org    -    For.All.Mankind.S05E03");
            assert!(directory.top_level);
            assert_eq!(children.len(), 2);
            assert_eq!(children[1].file_id, 2);
            assert_eq!(children[1].base_path, directory.to);
            assert!(!children[1].top_level);
            let skipped = ListFileResponse { files: vec![], parent: file(2, "Sample", "FOLDER") };
            assert!(matches!(
                children[1].plan(&skipped, &config().skip_directories),
                ListingPlan::SkippedFolder
            ));
            let nfo = ListFileResponse { files: vec![], parent: file(1, "info.nfo", "TEXT") };
            match children[0].plan(&nfo, &config().skip_directories) {
                ListingPlan::File { wrapper, file } => {
                    assert!(wrapper.is_none());
                    assert_eq!(
                        file.to,
                        "/downloads/www.UIndex.org    -    For.All.Mankind.S05E03/info.nfo"
                    );
                    assert_eq!(file.media_type, None);
                    let targets = file_targets(wrapper, file, "https://put.io/n".to_string());
                    assert_eq!(targets.len(), 1);
                    assert_eq!(targets[0].target_type, TargetType::File);
                    assert_eq!(targets[0].media_type, None);
                }
                other => panic!("unexpected plan {:?}", other),
            }
            let sub = ListFileResponse { files: vec![], parent: file(1, "a.en.SRT", "TEXT") };
            match children[0].plan(&sub, &config().skip_directories) {
                ListingPlan::File { wrapper, file } => {
                    assert!(wrapper.is_none());
                    assert_eq!(
                        file.to,
                        "/downloads/www.UIndex.org    -    For.All.Mankind.S05E03/a.en.SRT"
                    );
                    assert_eq!(file.media_type, Some(MediaType::Subtitle));
                }
                other => panic!("unexpected plan {:?}", other),
            }
        }
        other => panic!("unexpected plan {:?}", other),
    }
}

#[test]
fn transfer_without_file_id_has_no_targets() {
    let t = Transfer::from(&transfer(3, None, None));
    assert_eq!(t.name, "Transfer 3");
    assert_eq!(
        t.get_download_targets("/d", &CategoryMap::new()).unwrap_err(),
        TransferError::MissingFileId
    );
}

fn target(to: &str, kind: TargetType, top: bool) -> DownloadTarget {
    DownloadTarget {
        from: None,
        to: to.to_string(),
        target_type: kind,
        top_level: top,
        transfer_hash: "abcd".to_string(),
        media_type: if kind == TargetType::File { Some(MediaType::Video) } else { None },
    }
}

#[test]
fn import_needs_every_file_confirmed() {
    let mut t = Transfer::from(&transfer(1, Some("abcd"), Some(5)));
    assert!(!t.is_imported(&vec![]));
    t.targets = Some(vec![
        target("/d/x", TargetType::Directory, true),
        target("/d/x/a.mkv", TargetType::File, false),
        target("/d/x/b.mkv", TargetType::File, false),
    ]);
    assert!(t.is_imported(&vec![vec![], vec![false, true], vec![true]]));
    assert!(!t.is_imported(&vec![vec![], vec![false, true], vec![false, false]]));
    assert_eq!(t.get_top_level().unwrap().to, "/d/x");
    // Files that are not media are downloaded but never imported.
    let mut nfo = target("/d/x/info.nfo", TargetType::File, false);
    nfo.media_type = None;
    t.targets.as_mut().unwrap().push(nfo);
    assert!(t.is_imported(&vec![vec![], vec![true], vec![true], vec![]]));
}

#[test]
fn poll_queues_each_new_downloadable_transfer_once() {
    let mut seen = SeenTransfers::new();
    let list = vec![
        transfer(1, Some("a"), Some(10)),
        transfer(2, Some("b"), None),
        transfer(3, Some("c"), Some(30)),
        transfer(1, Some("a"), Some(10)),
    ];
    assert_eq!(seen.poll(&list), vec![0, 2]);
    seen.retain_active(&list);
    assert!(seen.contains(1) && seen.contains(3) && !seen.contains(2));
    assert_eq!(seen.poll(&list), Vec::<usize>::new());
    let later = vec![transfer(3, Some("c"), Some(30))];
    seen.retain_active(&later);
    assert!(!seen.contains(1));
    let again = vec![transfer(1, Some("a"), Some(10))];
    assert_eq!(seen.poll(&again), vec![0]);
}

#[test]
fn startup_resumes_only_imported_transfers() {
    let mut seen = SeenTransfers::new();
    let targets = || {
        vec![target("/d/x", TargetType::Directory, true), target("/d/x/a.mkv", TargetType::File, false)]
    };
    let t = Transfer::from(&transfer(7, Some("abcd"), Some(5)));
    let not_yet = resume_at_startup(&mut seen, t, Some(targets()), &vec![vec![], vec![false]]);
    assert!(not_yet.is_none());
    assert!(!seen.contains(7));
    let t = Transfer::from(&transfer(7, Some("abcd"), Some(5)));
    assert!(resume_at_startup(&mut seen, t, None, &vec![]).is_none());
    assert!(!seen.contains(7));
    let t = Transfer::from(&transfer(7, Some("abcd"), Some(5)));
    match resume_at_startup(&mut seen, t, Some(targets()), &vec![vec![], vec![false, true]]) {
        Some(TransferMessage::Imported(t)) => {
            assert_eq!(t.transfer_id, 7);
            assert_eq!(t.targets.as_ref().unwrap().len(), 2);
            assert_eq!(t.get_top_level().unwrap().to, "/d/x");
        }
        other => panic!("unexpected {:?}", other),
    }
    assert!(seen.contains(7));
    // A transfer found imported at start-up is not queued while put.io lists it.
    let list = vec![transfer(7, Some("abcd"), Some(5))];
    assert_eq!(seen.poll(&list), Vec::<usize>::new());
}

#[test]
fn queued_transfer_waits_for_a_poll_without_it() {
    let mut seen = SeenTransfers::new();
    let with = vec![transfer(1, Some("a"), Some(10))];
    let without = vec![transfer(2, Some("b"), Some(20))];
    let mut queued = vec![];
    for list in [&with, &with, &with, &without, &with] {
        let q = seen.poll(list);
        queued.push(q.iter().map(|&i| list[i].id).collect::<Vec<u64>>());
        seen.retain_active(list);
    }
    assert_eq!(queued, vec![vec![1], vec![], vec![], vec![2], vec![1]]);
}

#[test]
fn applications_consulted_by_category() {
    assert!(app_matches_category("sonarr", None));
    assert!(app_matches_category("sonarr", Some("tv")));
    assert!(!app_matches_category("radarr", Some("tv")));
    assert!(app_matches_category("lidarr", Some("music")));
    assert!(app_matches_category("whisparr", Some("whisparr")));
}

#[test]
fn downloads_move_on_only_when_all_succeeded() {
    let t = Transfer::from(&transfer(1, Some("abcd"), Some(5)));
    let targets = vec![target("/d/x", TargetType::Directory, true)];
    match after_downloads(t, targets, &vec![DownloadDoneStatus::Success]) {
        Some(TransferMessage::Downloaded(t)) => assert_eq!(t.targets.unwrap().len(), 1),
        other => panic!("unexpected {:?}", other),
    }
    let t = Transfer::from(&transfer(1, Some("abcd"), Some(5)));
    assert!(after_downloads(t, vec![], &vec![DownloadDoneStatus::Success, DownloadDoneStatus::Failed])
        .is_none());
}

#[test]
fn cleanup_removes_directories_and_files_only() {
    assert_eq!(cleanup_for(PathKind::Directory), Cleanup::RemoveDirectory);
    assert_eq!(cleanup_for(PathKind::File), Cleanup::RemoveFile);
    assert_eq!(cleanup_for(PathKind::Other), Cleanup::Keep);
    assert_eq!(cleanup_for(PathKind::Missing), Cleanup::Keep);
}

#[test]
fn seeding_watch_backs_off_and_resets() {
    let mut w = SeedingWatch::new(10);
    assert_eq!(w.step(&SeedingEvent::CheckFailed, Some(4)), SeedingAction::Wait(10));
    assert_eq!(w.backoff, 20);
    for _ in 0..10 {
        w.step(&SeedingEvent::CheckFailed, Some(4));
    }
    assert_eq!(w.backoff, MAX_BACKOFF);
    assert_eq!(w.step(&SeedingEvent::Status("SEEDING".to_string()), Some(4)), SeedingAction::Wait(10));
    assert_eq!(w.backoff, 10);
    assert_eq!(
        w.step(&SeedingEvent::Status("COMPLETED".to_string()), Some(4)),
        SeedingAction::Finish { delete_file: Some(4) }
    );
    assert_eq!(
        w.step(&SeedingEvent::Status("seeding".to_string()), None),
        SeedingAction::Finish { delete_file: None }
    );
}

#[test]
fn rpc_methods_and_credentials() {
    assert_eq!(rpc_method("torrent-get"), RpcMethod::TorrentGet);
    assert_eq!(rpc_method("session-get"), RpcMethod::SessionGet);
    assert_eq!(rpc_method("queue-move-top"), RpcMethod::QueueMoveTop);
    assert_eq!(rpc_method("torrent-verify"), RpcMethod::Unknown);
    let c = config();
    assert!(validate_user(&c, "putio", Some("secret")));
    assert!(!validate_user(&c, "putio", None));
    assert!(!validate_user(&c, "sonarr", Some("secret")));
    assert!(!validate_user(&c, "putio", Some("wrong")));
}

#[test]
fn torrent_get_shows_each_app_its_own_category() {
    let mut cats = CategoryMap::new();
    cats.insert("aaaa".to_string(), "tv".to_string());
    cats.insert("bbbb".to_string(), "music".to_string());
    let mut done = transfer(1, Some("aaaa"), Some(10));
    done.status = "COMPLETED".to_string();
    done.finished_at = Some("2024-01-02T00:00:00".to_string());
    done.started_at = Some("2024-01-01T00:00:00".to_string());
    let list = vec![done, transfer(2, Some("bbbb"), Some(20)), transfer(3, None, None)];
    let tv = handle_torrent_get(&list, &cats, Some("tv"), "/data", 1704070800, 0);
    assert_eq!(tv.len(), 1);
    assert_eq!(tv[0].id, 1);
    assert_eq!(tv[0].download_dir, "/data/tv");
    assert_eq!(tv[0].status, TransmissionTorrentStatus::Seeding);
    assert!(!tv[0].is_finished);
    assert_eq!(tv[0].seconds_downloading, 3600);
    let all = handle_torrent_get(&list, &cats, None, "/data", 1704070800, 0);
    assert_eq!(all.len(), 3);
    assert_eq!(all[1].download_dir, "/data/music");
    assert_eq!(all[2].download_dir, "/data");
}

#[test]
fn torrent_conversion_counts_seconds_since_start() {
    let mut t = transfer(1, Some("aaaa"), Some(10));
    t.started_at = Some("2024-01-01T00:00:00".to_string());
    assert_eq!(TransmissionTorrent::from(&t, 1704067200 + 90, 0).seconds_downloading, 90);
    assert_eq!(TransmissionTorrent::from(&t, 1704067200 - 2, 5).seconds_downloading, -1);
    t.started_at = Some("not a date".to_string());
    assert_eq!(TransmissionTorrent::from(&t, 1704067200, 0).seconds_downloading, 0);
}

fn chrono_seconds(start: &str, now_secs: i64, now_nanos: u32) -> i64 {
    let start = chrono::NaiveDateTime::parse_from_str(start, "%FT%T").unwrap().and_utc();
    let now = chrono::DateTime::from_timestamp(now_secs, now_nanos).unwrap();
    (now - start).num_seconds()
}

#[test]
fn torrent_conversion_counts_seconds_as_chrono_does() {
    let mut t = transfer(1, Some("aaaa"), Some(10));
    let cases: Vec<(&str, i64, u32)> = vec![
        ("2024-01-01T00:00:00", 1704067200 + 90, 0),
        ("2024-01-01T00:00:00", 1704067200 - 2, 5),
        ("2024-01-01T00:00:00", 1704067200 - 2, 0),
        ("2016-12-31T23:59:60", 1483228800, 0),
        ("2016-12-31T23:59:60", 1483228800, 500_000_000),
        ("2016-12-31T12:30:60", 1483228800 + 3600, 0),
        ("2016-12-31T12:30:60", 1483183859, 0),
        ("2016-12-31T12:30:60", 1483183859, 999_999_999),
        ("2016-12-31T12:30:60", 1483183800, 1),
        ("1969-12-31T23:59:60", 100, 7),
    ];
    for (start, secs, nanos) in cases {
        t.started_at = Some(start.to_string());
        assert_eq!(
            TransmissionTorrent::from(&t, secs, nanos).seconds_downloading,
            chrono_seconds(start, secs, nanos),
            "start {} now {}.{}",
            start,
            secs,
            nanos
        );
    }
    t.started_at = Some("2016-12-31T23:59:60".to_string());
    assert_eq!(TransmissionTorrent::from(&t, 1483228800 + 10, 0).seconds_downloading, 10);
}

#[test]
fn torrent_remove_selects_by_hash() {
    let mut a = transfer(1, Some("aaaa"), Some(10));
    a.userfile_exists = false;
    let b = transfer(2, Some("bbbb"), Some(20));
    let c = transfer(3, None, None);
    let list = vec![a, b, c];
    let ids = vec!["aaaa".to_string(), "bbbb".to_string()];
    assert_eq!(
        handle_torrent_remove(&ids, true, &list),
        vec![
            Removal { transfer_id: 1, delete_file: None },
            Removal { transfer_id: 2, delete_file: Some(20) }
        ]
    );
    assert_eq!(
        handle_torrent_remove(&ids, false, &list),
        vec![
            Removal { transfer_id: 1, delete_file: None },
            Removal { transfer_id: 2, delete_file: None }
        ]
    );
}

#[test]
fn magnet_add_records_lowercase_hash() {
    let url = "magnet:?xt=urn:btih:08ADA5A7A6183AAE1E09D831DF6748D566095A10&dn=Sintel".to_string();
    let plan = plan_magnet(url.clone(), Some("tv".to_string()));
    assert_eq!(plan.category_hash.as_deref(), Some("08ada5a7a6183aae1e09d831df6748d566095a10"));
    assert!(matches!(plan.source, AddSource::Magnet(ref u) if *u == url));
    let mut cats = CategoryMap::new();
    plan.record(&mut cats);
    assert_eq!(cats.get("08ada5a7a6183aae1e09d831df6748d566095a10"), Some("tv".to_string()));
    let no_category = plan_magnet(url.clone(), None);
    assert!(no_category.category_hash.is_none());
    let not_magnet = plan_magnet("https://example.com/a.torrent".to_string(), Some("tv".to_string()));
    assert!(not_magnet.category_hash.is_none());
    let bad_length = plan_magnet(format!("{}&xl=", url), Some("tv".to_string()));
    assert!(bad_length.category_hash.is_none());
    let good_length = plan_magnet(format!("{}&xl=1234", url), Some("tv".to_string()));
    assert!(good_length.category_hash.is_some());
}

#[test]
fn magnet_category_follows_first_length_parameter() {
    // Only the first `xl=` that the length pattern matches is read.
    let url = "magnet:?xt=urn:btih:ab12&xl=5&xl=".to_string();
    assert!(magnet_url::Magnet::new(&url).is_ok());
    let plan = plan_magnet(url, Some("tv".to_string()));
    assert_eq!(plan.category_hash.as_deref(), Some("ab12"));
    let mut cats = CategoryMap::new();
    plan.record(&mut cats);
    assert_eq!(cats.get("ab12"), Some("tv".to_string()));
    // An `xl=` that the pattern skips does not count.
    let skipped = plan_magnet("magnet:?xt=urn:btih:AB12&xl=5x&xl=7".to_string(), Some("tv".to_string()));
    assert_eq!(skipped.category_hash.as_deref(), Some("ab12"));
    // The first matched value overflows: left alone.
    let big = plan_magnet(
        "magnet:?xt=urn:btih:ab12&xl=99999999999999999999999&xl=5".to_string(),
        Some("tv".to_string()),
    );
    assert!(big.category_hash.is_none());
}

#[test]
fn magnet_length_followed_by_other_characters() {
    // A letter ends the digits without a match: the crate reads no length.
    let accented = "magnet:?xt=urn:btih:ab&xl=1\u{e9}".to_string();
    assert!(magnet_url::Magnet::new(&accented).unwrap().xl.is_none());
    assert_eq!(plan_magnet(accented, Some("tv".to_string())).category_hash.as_deref(), Some("ab"));
    // A no-break space is white space and completes the match.
    let spaced = "magnet:?xt=urn:btih:ab&xl=1\u{a0}".to_string();
    assert_eq!(magnet_url::Magnet::new(&spaced).unwrap().xl, Some(1));
    assert_eq!(plan_magnet(spaced, Some("tv".to_string())).category_hash.as_deref(), Some("ab"));
    // A non-ASCII digit would join the digits the crate parses: left alone.
    let wide = "magnet:?xt=urn:btih:ab&xl=1\u{663}".to_string();
    assert!(plan_magnet(wide, Some("tv".to_string())).category_hash.is_none());
}

#[test]
fn magnet_topic_hash_strips_prefix_and_lowercases() {
    assert_eq!(topic_hash("urn:btih:ABCdef"), "abcdef");
    assert_eq!(topic_hash("ABC"), "abc");
}

#[test]
fn gathering_follows_the_fetched_listings() {
    let req = top_request(Some("tv"));
    let table = fetched_table();
    let targets = gather_targets(&req, &table, &config().skip_directories, 5).unwrap();
    assert_eq!(targets.len(), 3);
    let dir = "/downloads/tv/www.UIndex.org    -    For.All.Mankind.S05E03";
    assert_eq!(targets[0].to, dir);
    assert_eq!(targets[0].target_type, TargetType::Directory);
    assert_eq!(targets[1].to, format!("{}/a.mkv", dir));
    assert_eq!(targets[1].from.as_deref(), Some("https://put.io/a"));
    assert_eq!(targets[1].media_type, Some(MediaType::Video));
    assert_eq!(targets[2].to, format!("{}/info.nfo", dir));
    assert_eq!(targets[2].media_type, None);
    assert!(targets.iter().all(|t| t.transfer_hash == "abcdef"));
    // A missing listing, or too little depth, gathers nothing.
    let mut partial = fetched_table();
    partial.remove(0);
    assert!(gather_targets(&req, &partial, &config().skip_directories, 5).is_none());
    assert!(gather_targets(&req, &table, &config().skip_directories, 1).is_none());
}

fn fetched_table() -> Vec<FetchedEntry> {
    vec![
        FetchedEntry {
            file_id: 1,
            listing: ListFileResponse { files: vec![], parent: file(1, "a.mkv", "VIDEO") },
            url: Some("https://put.io/a".to_string()),
        },
        FetchedEntry {
            file_id: 2,
            listing: ListFileResponse { files: vec![], parent: file(2, "info.nfo", "TEXT") },
            url: Some("https://put.io/n".to_string()),
        },
        FetchedEntry {
            file_id: 3,
            listing: ListFileResponse { files: vec![], parent: file(3, "Sample", "FOLDER") },
            url: None,
        },
        FetchedEntry {
            file_id: 99,
            listing: ListFileResponse {
                files: vec![file(1, "a.mkv", "VIDEO"), file(2, "info.nfo", "TEXT"), file(3, "Sample", "FOLDER")],
                parent: file(99, "Show", "FOLDER"),
            },
            url: None,
        },
    ]
}

#[test]
fn top_level_file_that_is_not_media_is_skipped() {
    let req = top_request(None);
    let listing = ListFileResponse { files: vec![], parent: file(99, "readme.txt", "TEXT") };
    assert!(matches!(req.plan(&listing, &config().skip_directories), ListingPlan::SkippedFile));
}

#[test]
fn deeply_nested_upload_is_not_read() {
    let mut deep = vec![b'l'; 200];
    deep.extend(vec![b'e'; 200]);
    assert!(!putioarr::bencode::nesting_fits(&deep));
    let plan = plan_torrent_upload(deep.clone(), Some("movies".to_string()));
    assert!(plan.category_hash.is_none());
    assert!(matches!(plan.source, AddSource::Upload(ref b) if *b == deep));
    let mut shallow = vec![b'l'; 64];
    shallow.extend(vec![b'e'; 64]);
    assert!(putioarr::bencode::nesting_fits(&shallow));
    assert!(putioarr::bencode::nesting_fits(&torrent_bytes()));
    // Strings are skipped by their length, so their bytes do not nest.
    assert!(putioarr::bencode::nesting_fits(b"d3:lll3:dddi5ee"));
    let mut tagged = b"l".to_vec();
    tagged.extend(b"+70:");
    tagged.extend(vec![b'l'; 70]);
    tagged.extend(b"e");
    assert!(putioarr::bencode::nesting_fits(&tagged));
}

fn torrent_bytes() -> Vec<u8> {
    let mut b = b"d8:announce18:http://tracker/ann4:infod6:lengthi10e4:name8:file.mkv12:piece lengthi16384e6:pieces20:".to_vec();
    b.extend_from_slice(&[0xffu8; 20]);
    b.extend_from_slice(b"ee");
    b
}

#[test]
fn upload_records_info_hash_of_torrent() {
    let bytes = torrent_bytes();
    let expected = lava_torrent::torrent::v1::Torrent::read_from_bytes(&bytes)
        .unwrap()
        .info_hash()
        .to_lowercase();
    let plan = plan_torrent_upload(bytes.clone(), Some("movies".to_string()));
    assert_eq!(plan.category_hash, Some(expected));
    assert!(plan_torrent_upload(b"not a torrent".to_vec(), Some("movies".to_string()))
        .category_hash
        .is_none());
}

#[test]
fn torrent_add_decodes_metainfo_or_uses_magnet() {
    let bytes = torrent_bytes();
    let b64 = base64::engine::general_purpose::STANDARD.encode(&bytes);
    let args = TorrentAddArgs { metainfo: Some(b64), filename: None, tv_category: None };
    let plan = handle_torrent_add(&args, Some("music")).unwrap();
    assert_eq!(plan.category.as_deref(), Some("music"));
    assert!(matches!(plan.source, AddSource::Upload(ref b) if *b == bytes));
    let bad = TorrentAddArgs { metainfo: Some("%%%".to_string()), filename: None, tv_category: None };
    assert_eq!(handle_torrent_add(&bad, None).unwrap_err(), AddError::InvalidMetainfo);
    let magnet = TorrentAddArgs {
        metainfo: None,
        filename: Some("magnet:?xt=urn:btih:abc123&dn=x".to_string()),
        tv_category: Some("tv".to_string()),
    };
    let plan = handle_torrent_add(&magnet, Some("music")).unwrap();
    assert_eq!(plan.category.as_deref(), Some("tv"));
    assert_eq!(plan.category_hash.as_deref(), Some("abc123"));
}
