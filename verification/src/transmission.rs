//! The Transmission RPC view of put.io transfers: torrent status codes,
//! torrent records and the session configuration.

use vstd::prelude::*;
use vstd::std_specs::convert::FromSpecImpl;
use crate::putio::PutIOTransfer;
use crate::text::{ascii_uppercase, ascii_upper_char, is_ascii_text, same_text, to_uppercase, unicode_uppercase};
use crate::transfer::{copy_opt_text, opt_text};

verus! {

/// Transmission's torrent states.
#[derive(PartialEq, Eq, Structural, Debug, Clone, Copy)]
pub enum TransmissionTorrentStatus {
    Stopped,
    CheckWait,
    Check,
    Queued,
    Downloading,
    SeedingWait,
    Seeding,
}

/// Transmission state for an upper-cased put.io status; unknown ones count
/// as waiting to be checked.
pub open spec fn status_for_upper(s: Seq<char>) -> TransmissionTorrentStatus {
    if s == "STOPPED"@ || s == "COMPLETED"@ || s == "ERROR"@ {
        TransmissionTorrentStatus::Stopped
    } else if s == "CHECKWAIT"@ || s == "PREPARING_DOWNLOAD"@ {
        TransmissionTorrentStatus::CheckWait
    } else if s == "CHECK"@ || s == "COMPLETING"@ {
        TransmissionTorrentStatus::Check
    } else if s == "QUEUED"@ || s == "IN_QUEUE"@ {
        TransmissionTorrentStatus::Queued
    } else if s == "DOWNLOADING"@ {
        TransmissionTorrentStatus::Downloading
    } else if s == "SEEDINGWAIT"@ {
        TransmissionTorrentStatus::SeedingWait
    } else if s == "SEEDING"@ {
        TransmissionTorrentStatus::Seeding
    } else {
        TransmissionTorrentStatus::CheckWait
    }
}

/// Transmission state of a put.io status, whatever its case.
pub open spec fn status_for(s: Seq<char>) -> TransmissionTorrentStatus {
    status_for_upper(unicode_uppercase(s))
}

/// Maps a put.io transfer status to a Transmission torrent state.
pub fn status_from_text(value: &str) -> (r: TransmissionTorrentStatus)
    ensures
        r == status_for(value@),
        is_ascii_text(value@) ==> r == status_for_upper(ascii_uppercase(value@)),
{
    let up = to_uppercase(value);
    let s = up.as_str();
    if same_text(s, "STOPPED") || same_text(s, "COMPLETED") || same_text(s, "ERROR") {
        TransmissionTorrentStatus::Stopped
    } else if same_text(s, "CHECKWAIT") || same_text(s, "PREPARING_DOWNLOAD") {
        TransmissionTorrentStatus::CheckWait
    } else if same_text(s, "CHECK") || same_text(s, "COMPLETING") {
        TransmissionTorrentStatus::Check
    } else if same_text(s, "QUEUED") || same_text(s, "IN_QUEUE") {
        TransmissionTorrentStatus::Queued
    } else if same_text(s, "DOWNLOADING") {
        TransmissionTorrentStatus::Downloading
    } else if same_text(s, "SEEDINGWAIT") {
        TransmissionTorrentStatus::SeedingWait
    } else if same_text(s, "SEEDING") {
        TransmissionTorrentStatus::Seeding
    } else {
        TransmissionTorrentStatus::CheckWait
    }
}

impl From<String> for TransmissionTorrentStatus {
    fn from(value: String) -> (r: TransmissionTorrentStatus) {
        status_from_text(value.as_str())
    }
}

impl FromSpecImpl<String> for TransmissionTorrentStatus {
    open spec fn obeys_from_spec() -> bool {
        true
    }

    open spec fn from_spec(value: String) -> TransmissionTorrentStatus {
        status_for(value@)
    }
}

/// For ASCII text the status does not depend on letter case: two spellings
/// that differ only in case map to the same state.
pub proof fn law_status_ignores_case(a: Seq<char>, b: Seq<char>)
    requires
        is_ascii_text(a),
        is_ascii_text(b),
        a.len() == b.len(),
        forall|i: int| 0 <= i < a.len() ==> ascii_upper_char(#[trigger] a[i]) == ascii_upper_char(b[i]),
    ensures
        status_for_upper(ascii_uppercase(a)) == status_for_upper(ascii_uppercase(b)),
{
    assert(ascii_uppercase(a) =~= ascii_uppercase(b));
}

/// Largest absolute Unix time, in seconds, of the clock reading that a
/// torrent is converted at: well inside chrono's years -262143 to 262142.
pub const TIMESTAMP_BOUND: i64 = 8_000_000_000_000;

/// What chrono's `(now - start).num_seconds()` gives, where `start` is the
/// instant that `NaiveDateTime::parse_from_str(s, "%FT%T")` reads from `s`,
/// taken as UTC, and `now` the instant `now_secs` seconds and `now_nanos`
/// nanoseconds after the Unix epoch; `None` when `s` does not parse.
pub uninterp spec fn seconds_since_start(s: Seq<char>, now_secs: i64, now_nanos: u32) -> Option<int>;

/// Calls `chrono::NaiveDateTime::parse_from_str(s, "%FT%T")`, takes the
/// result as UTC (`and_utc()`, which is what `Utc.from_local_datetime(..)
/// .single()` gives), and subtracts it from the instant that
/// `DateTime::from_timestamp(now_secs, now_nanos)` builds, counting whole
/// seconds with `num_seconds()`. The result is named `seconds_since_start`.
/// The instant is left out where `from_timestamp` gives none (beyond
/// chrono's range, or nanoseconds of a second or more).
#[verifier::external_body]
fn seconds_since(s: &str, now_secs: i64, now_nanos: u32) -> (r: Option<i64>)
    requires
        -TIMESTAMP_BOUND <= now_secs <= TIMESTAMP_BOUND,
        now_nanos < 1_000_000_000,
    ensures
        match r {
            Some(v) => seconds_since_start(s@, now_secs, now_nanos) == Some(v as int),
            None => seconds_since_start(s@, now_secs, now_nanos) is None,
        },
{
    let now = chrono::DateTime::from_timestamp(now_secs, now_nanos).unwrap();
    match chrono::NaiveDateTime::parse_from_str(s, "%FT%T") {
        Ok(t) => Some((now - t.and_utc()).num_seconds()),
        Err(_) => None,
    }
}

/// A put.io transfer presented as a Transmission torrent (without its seed
/// ratio limit, always 0).
#[derive(Debug)]
pub struct TransmissionTorrent {
    pub id: u64,
    pub hash_string: Option<String>,
    pub name: String,
    pub download_dir: String,
    pub total_size: i64,
    pub left_until_done: i64,
    pub is_finished: bool,
    pub eta: i64,
    pub status: TransmissionTorrentStatus,
    pub seconds_downloading: i64,
    pub error_string: Option<String>,
    pub downloaded_ever: i64,
    pub seed_ratio_mode: u32,
    pub seed_idle_limit: u64,
    pub seed_idle_mode: u32,
    pub file_count: u32,
}

pub struct TransmissionTorrentView {
    pub id: u64,
    pub hash_string: Option<Seq<char>>,
    pub name: Seq<char>,
    pub download_dir: Seq<char>,
    pub total_size: i64,
    pub left_until_done: i64,
    pub is_finished: bool,
    pub eta: i64,
    pub status: TransmissionTorrentStatus,
    pub seconds_downloading: i64,
    pub error_string: Option<Seq<char>>,
    pub downloaded_ever: i64,
    pub seed_ratio_mode: u32,
    pub seed_idle_limit: u64,
    pub seed_idle_mode: u32,
    pub file_count: u32,
}

impl View for TransmissionTorrent {
    type V = TransmissionTorrentView;

    open spec fn view(&self) -> TransmissionTorrentView {
        TransmissionTorrentView {
            id: self.id,
            hash_string: opt_text(self.hash_string),
            name: self.name@,
            download_dir: self.download_dir@,
            total_size: self.total_size,
            left_until_done: self.left_until_done,
            is_finished: self.is_finished,
            eta: self.eta,
            status: self.status,
            seconds_downloading: self.seconds_downloading,
            error_string: opt_text(self.error_string),
            downloaded_ever: self.downloaded_ever,
            seed_ratio_mode: self.seed_ratio_mode,
            seed_idle_limit: self.seed_idle_limit,
            seed_idle_mode: self.seed_idle_mode,
            file_count: self.file_count,
        }
    }
}

pub open spec fn or_zero(o: Option<i64>) -> int {
    match o {
        Some(v) => v as int,
        None => 0,
    }
}

/// Whether the conversion of `t` stays within `i64` (its remaining size).
pub open spec fn convertible(t: PutIOTransfer) -> bool {
    i64::MIN <= or_zero(t.size) - or_zero(t.downloaded) <= i64::MAX
}

/// Seconds a transfer has been downloading at the given instant: 0 without
/// a start time or with one that does not parse (the start is then the
/// instant itself, or the instant truncated to its second, and less than a
/// second has passed).
pub open spec fn seconds_downloading_of(t: PutIOTransfer, now_secs: i64, now_nanos: u32) -> int {
    match t.started_at {
        Some(s) => match seconds_since_start(s@, now_secs, now_nanos) {
            Some(v) => v,
            None => 0,
        },
        None => 0,
    }
}

/// The torrent record of a put.io transfer at the given time.
pub open spec fn torrent_of(t: PutIOTransfer, now_secs: i64, now_nanos: u32) -> TransmissionTorrentView {
    let left = or_zero(t.size) - or_zero(t.downloaded);
    TransmissionTorrentView {
        id: t.id,
        hash_string: opt_text(t.hash),
        name: match t.name {
            Some(n) => n@,
            None => "Unknown"@,
        },
        download_dir: Seq::<char>::empty(),
        total_size: or_zero(t.size) as i64,
        left_until_done: (if left > 0 {
            left
        } else {
            0
        }) as i64,
        is_finished: t.finished_at is Some,
        eta: or_zero(t.estimated_time) as i64,
        status: status_for(t.status@),
        seconds_downloading: seconds_downloading_of(t, now_secs, now_nanos) as i64,
        error_string: opt_text(t.error_message),
        downloaded_ever: or_zero(t.downloaded) as i64,
        seed_ratio_mode: 0,
        seed_idle_limit: 0,
        seed_idle_mode: 0,
        file_count: 1,
    }
}

impl TransmissionTorrent {
    /// The torrent record of a put.io transfer, at the instant `now_secs`
    /// seconds and `now_nanos` nanoseconds after the Unix epoch.
    pub fn from(t: &PutIOTransfer, now_secs: i64, now_nanos: u32) -> (r: TransmissionTorrent)
        requires
            convertible(*t),
            -TIMESTAMP_BOUND <= now_secs <= TIMESTAMP_BOUND,
            now_nanos < 1_000_000_000,
        ensures
            r@ == torrent_of(*t, now_secs, now_nanos),
    {
        let seconds_downloading: i64 = match &t.started_at {
            Some(s) => match seconds_since(s.as_str(), now_secs, now_nanos) {
                Some(v) => v,
                None => 0,
            },
            None => 0,
        };
        let size = match t.size {
            Some(v) => v,
            None => 0,
        };
        let downloaded = match t.downloaded {
            Some(v) => v,
            None => 0,
        };
        let left = size - downloaded;
        let name = match &t.name {
            Some(n) => n.clone(),
            None => String::from_str("Unknown"),
        };
        TransmissionTorrent {
            id: t.id,
            hash_string: copy_opt_text(&t.hash),
            name,
            download_dir: String::new(),
            total_size: size,
            left_until_done: if left > 0 {
                left
            } else {
                0
            },
            is_finished: t.finished_at.is_some(),
            eta: match t.estimated_time {
                Some(v) => v,
                None => 0,
            },
            status: status_from_text(t.status.as_str()),
            seconds_downloading,
            error_string: copy_opt_text(&t.error_message),
            downloaded_ever: downloaded,
            seed_ratio_mode: 0,
            seed_idle_limit: 0,
            seed_idle_mode: 0,
            file_count: 1,
        }
    }
}

/// Transmission session settings reported to the *arr applications
/// (without the seed ratio limit, always 1).
#[derive(Debug)]
pub struct TransmissionConfig {
    pub rpc_version: String,
    pub version: String,
    pub download_dir: String,
    pub seed_ratio_limited: bool,
    pub idle_seeding_limit: u64,
    pub idle_seeding_limit_enabled: bool,
}

impl Default for TransmissionConfig {
    fn default() -> (r: TransmissionConfig)
        ensures
            r.rpc_version@ == "18"@,
            r.version@ == "14.0.0"@,
            r.download_dir@ == "/"@,
            r.seed_ratio_limited,
            r.idle_seeding_limit == 100,
            !r.idle_seeding_limit_enabled,
    {
        TransmissionConfig {
            rpc_version: String::from_str("18"),
            version: String::from_str("14.0.0"),
            download_dir: String::from_str("/"),
            seed_ratio_limited: true,
            idle_seeding_limit: 100,
            idle_seeding_limit_enabled: false,
        }
    }
}

impl TransmissionConfig {
    /// The default settings with the proxy's download directory.
    pub fn for_download_dir(download_dir: &str) -> (r: TransmissionConfig)
        ensures
            r.rpc_version@ == "18"@,
            r.version@ == "14.0.0"@,
            r.download_dir@ == download_dir@,
            r.seed_ratio_limited,
            r.idle_seeding_limit == 100,
            !r.idle_seeding_limit_enabled,
    {
        TransmissionConfig { download_dir: String::from_str(download_dir), ..TransmissionConfig::default() }
    }
}

} // verus!

verus! {

/// The sizes reported for a transfer: the total is put.io's size (0 when it
/// gives none), the amount downloaded is put.io's (0 when none), what is
/// left is never negative, and when put.io's figures are consistent (the
/// downloaded amount between 0 and the size) the total minus what is left is
/// exactly what was downloaded.
pub proof fn law_torrent_sizes(t: PutIOTransfer, now_secs: i64, now_nanos: u32)
    requires
        convertible(t),
    ensures
        torrent_of(t, now_secs, now_nanos).total_size == match t.size {
            Some(v) => v,
            None => 0,
        },
        torrent_of(t, now_secs, now_nanos).downloaded_ever == match t.downloaded {
            Some(v) => v,
            None => 0,
        },
        torrent_of(t, now_secs, now_nanos).left_until_done >= 0,
        ({
            let size: int = match t.size {
                Some(v) => v as int,
                None => 0,
            };
            let done: int = match t.downloaded {
                Some(v) => v as int,
                None => 0,
            };
            0 <= done <= size ==> torrent_of(t, now_secs, now_nanos).total_size - torrent_of(
                t,
                now_secs,
                now_nanos,
            ).left_until_done == done
        }),
        torrent_of(t, now_secs, now_nanos).id == t.id,
        torrent_of(t, now_secs, now_nanos).is_finished == (t.finished_at is Some),
        torrent_of(t, now_secs, now_nanos).file_count == 1,
{
}

/// How each put.io status reads as a Transmission state, whatever its
/// case for ASCII text: `STOPPED`, `COMPLETED` and `ERROR` are stopped,
/// `CHECKWAIT` and `PREPARING_DOWNLOAD` wait to be checked, `CHECK` and
/// `COMPLETING` are being checked, `QUEUED` and `IN_QUEUE` are queued,
/// `DOWNLOADING`, `SEEDINGWAIT` and `SEEDING` are themselves; each state
/// other than waiting to be checked comes from those statuses only, and any
/// other status waits to be checked.
pub proof fn law_status_table(s: Seq<char>)
    ensures
        status_for_upper("STOPPED"@) == TransmissionTorrentStatus::Stopped,
        status_for_upper("COMPLETED"@) == TransmissionTorrentStatus::Stopped,
        status_for_upper("ERROR"@) == TransmissionTorrentStatus::Stopped,
        status_for_upper("CHECKWAIT"@) == TransmissionTorrentStatus::CheckWait,
        status_for_upper("PREPARING_DOWNLOAD"@) == TransmissionTorrentStatus::CheckWait,
        status_for_upper("CHECK"@) == TransmissionTorrentStatus::Check,
        status_for_upper("COMPLETING"@) == TransmissionTorrentStatus::Check,
        status_for_upper("QUEUED"@) == TransmissionTorrentStatus::Queued,
        status_for_upper("IN_QUEUE"@) == TransmissionTorrentStatus::Queued,
        status_for_upper("DOWNLOADING"@) == TransmissionTorrentStatus::Downloading,
        status_for_upper("SEEDINGWAIT"@) == TransmissionTorrentStatus::SeedingWait,
        status_for_upper("SEEDING"@) == TransmissionTorrentStatus::Seeding,
        (status_for_upper(s) == TransmissionTorrentStatus::Stopped) == (s == "STOPPED"@ || s
            == "COMPLETED"@ || s == "ERROR"@),
        (status_for_upper(s) == TransmissionTorrentStatus::Check) == (s == "CHECK"@ || s
            == "COMPLETING"@),
        (status_for_upper(s) == TransmissionTorrentStatus::Queued) == (s == "QUEUED"@ || s
            == "IN_QUEUE"@),
        (status_for_upper(s) == TransmissionTorrentStatus::Downloading) == (s == "DOWNLOADING"@),
        (status_for_upper(s) == TransmissionTorrentStatus::SeedingWait) == (s == "SEEDINGWAIT"@),
        (status_for_upper(s) == TransmissionTorrentStatus::Seeding) == (s == "SEEDING"@),
{
    reveal_strlit("STOPPED");
    reveal_strlit("COMPLETED");
    reveal_strlit("ERROR");
    reveal_strlit("CHECKWAIT");
    reveal_strlit("PREPARING_DOWNLOAD");
    reveal_strlit("CHECK");
    reveal_strlit("COMPLETING");
    reveal_strlit("QUEUED");
    reveal_strlit("IN_QUEUE");
    reveal_strlit("DOWNLOADING");
    reveal_strlit("SEEDINGWAIT");
    reveal_strlit("SEEDING");
    assert("COMPLETED"@.len() != "STOPPED"@.len());
    assert("ERROR"@.len() != "STOPPED"@.len());
    assert("ERROR"@.len() != "COMPLETED"@.len());
    assert("CHECKWAIT"@.len() != "STOPPED"@.len());
    assert("CHECKWAIT"@[1] != "COMPLETED"@[1]);
    assert("CHECKWAIT"@.len() != "ERROR"@.len());
    assert("PREPARING_DOWNLOAD"@.len() != "STOPPED"@.len());
    assert("PREPARING_DOWNLOAD"@.len() != "COMPLETED"@.len());
    assert("PREPARING_DOWNLOAD"@.len() != "ERROR"@.len());
    assert("PREPARING_DOWNLOAD"@.len() != "CHECKWAIT"@.len());
    assert("CHECK"@.len() != "STOPPED"@.len());
    assert("CHECK"@.len() != "COMPLETED"@.len());
    assert("CHECK"@[0] != "ERROR"@[0]);
    assert("CHECK"@.len() != "CHECKWAIT"@.len());
    assert("CHECK"@.len() != "PREPARING_DOWNLOAD"@.len());
    assert("COMPLETING"@.len() != "STOPPED"@.len());
    assert("COMPLETING"@.len() != "COMPLETED"@.len());
    assert("COMPLETING"@.len() != "ERROR"@.len());
    assert("COMPLETING"@.len() != "CHECKWAIT"@.len());
    assert("COMPLETING"@.len() != "PREPARING_DOWNLOAD"@.len());
    assert("COMPLETING"@.len() != "CHECK"@.len());
    assert("QUEUED"@.len() != "STOPPED"@.len());
    assert("QUEUED"@.len() != "COMPLETED"@.len());
    assert("QUEUED"@.len() != "ERROR"@.len());
    assert("QUEUED"@.len() != "CHECKWAIT"@.len());
    assert("QUEUED"@.len() != "PREPARING_DOWNLOAD"@.len());
    assert("QUEUED"@.len() != "CHECK"@.len());
    assert("QUEUED"@.len() != "COMPLETING"@.len());
    assert("IN_QUEUE"@.len() != "STOPPED"@.len());
    assert("IN_QUEUE"@.len() != "COMPLETED"@.len());
    assert("IN_QUEUE"@.len() != "ERROR"@.len());
    assert("IN_QUEUE"@.len() != "CHECKWAIT"@.len());
    assert("IN_QUEUE"@.len() != "PREPARING_DOWNLOAD"@.len());
    assert("IN_QUEUE"@.len() != "CHECK"@.len());
    assert("IN_QUEUE"@.len() != "COMPLETING"@.len());
    assert("IN_QUEUE"@.len() != "QUEUED"@.len());
    assert("DOWNLOADING"@.len() != "STOPPED"@.len());
    assert("DOWNLOADING"@.len() != "COMPLETED"@.len());
    assert("DOWNLOADING"@.len() != "ERROR"@.len());
    assert("DOWNLOADING"@.len() != "CHECKWAIT"@.len());
    assert("DOWNLOADING"@.len() != "PREPARING_DOWNLOAD"@.len());
    assert("DOWNLOADING"@.len() != "CHECK"@.len());
    assert("DOWNLOADING"@.len() != "COMPLETING"@.len());
    assert("DOWNLOADING"@.len() != "QUEUED"@.len());
    assert("DOWNLOADING"@.len() != "IN_QUEUE"@.len());
    assert("SEEDINGWAIT"@.len() != "STOPPED"@.len());
    assert("SEEDINGWAIT"@.len() != "COMPLETED"@.len());
    assert("SEEDINGWAIT"@.len() != "ERROR"@.len());
    assert("SEEDINGWAIT"@.len() != "CHECKWAIT"@.len());
    assert("SEEDINGWAIT"@.len() != "PREPARING_DOWNLOAD"@.len());
    assert("SEEDINGWAIT"@.len() != "CHECK"@.len());
    assert("SEEDINGWAIT"@.len() != "COMPLETING"@.len());
    assert("SEEDINGWAIT"@.len() != "QUEUED"@.len());
    assert("SEEDINGWAIT"@.len() != "IN_QUEUE"@.len());
    assert("SEEDINGWAIT"@[0] != "DOWNLOADING"@[0]);
    assert("SEEDING"@[1] != "STOPPED"@[1]);
    assert("SEEDING"@.len() != "COMPLETED"@.len());
    assert("SEEDING"@.len() != "ERROR"@.len());
    assert("SEEDING"@.len() != "CHECKWAIT"@.len());
    assert("SEEDING"@.len() != "PREPARING_DOWNLOAD"@.len());
    assert("SEEDING"@.len() != "CHECK"@.len());
    assert("SEEDING"@.len() != "COMPLETING"@.len());
    assert("SEEDING"@.len() != "QUEUED"@.len());
    assert("SEEDING"@.len() != "IN_QUEUE"@.len());
    assert("SEEDING"@.len() != "DOWNLOADING"@.len());
    assert("SEEDING"@.len() != "SEEDINGWAIT"@.len());
}

} // verus!
