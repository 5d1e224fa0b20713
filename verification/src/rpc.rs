//! The Transmission RPC requests that the *arr applications send: which
//! method was called, who may call, which torrents each application sees,
//! what a torrent-add records and what a torrent-remove deletes.

use vstd::prelude::*;
use base64::Engine;
use crate::bencode::{nesting_fits, nesting_fits_spec};
use crate::categories::CategoryMap;
use crate::config::Config;
use crate::putio::PutIOTransfer;
use crate::text::{
    chars_of, is_numeric, is_white_space, same_text, to_lowercase, unicode_lowercase, unicode_numeric,
    unicode_white_space,
};
use crate::transfer::{copy_opt_text, opt_text};
use crate::transmission::{
    convertible, torrent_of, TransmissionTorrent, TransmissionTorrentStatus,
    TransmissionTorrentView, TIMESTAMP_BOUND,
};

verus! {

/// The Transmission RPC methods the proxy answers.
#[derive(PartialEq, Eq, Structural, Debug, Clone, Copy)]
pub enum RpcMethod {
    SessionGet,
    TorrentGet,
    TorrentSet,
    QueueMoveTop,
    TorrentRemove,
    TorrentAdd,
    Unknown,
}

pub open spec fn method_named(name: Seq<char>) -> RpcMethod {
    if name == "session-get"@ {
        RpcMethod::SessionGet
    } else if name == "torrent-get"@ {
        RpcMethod::TorrentGet
    } else if name == "torrent-set"@ {
        RpcMethod::TorrentSet
    } else if name == "queue-move-top"@ {
        RpcMethod::QueueMoveTop
    } else if name == "torrent-remove"@ {
        RpcMethod::TorrentRemove
    } else if name == "torrent-add"@ {
        RpcMethod::TorrentAdd
    } else {
        RpcMethod::Unknown
    }
}

/// The method a request names.
pub fn rpc_method(name: &str) -> (r: RpcMethod)
    ensures
        r == method_named(name@),
{
    if same_text(name, "session-get") {
        RpcMethod::SessionGet
    } else if same_text(name, "torrent-get") {
        RpcMethod::TorrentGet
    } else if same_text(name, "torrent-set") {
        RpcMethod::TorrentSet
    } else if same_text(name, "queue-move-top") {
        RpcMethod::QueueMoveTop
    } else if same_text(name, "torrent-remove") {
        RpcMethod::TorrentRemove
    } else if same_text(name, "torrent-add") {
        RpcMethod::TorrentAdd
    } else {
        RpcMethod::Unknown
    }
}

/// Basic-auth credentials are accepted when both the user name and a
/// password are given and equal the configured ones.
pub fn validate_user(config: &Config, user: &str, password: Option<&str>) -> (r: bool)
    ensures
        r == (password is Some && user@ == config.username@ && password->0@ == config.password@),
{
    match password {
        None => false,
        Some(p) => same_text(user, config.username.as_str()) && same_text(p, config.password.as_str()),
    }
}

// ---------------------------------------------------------------------------
// torrent-get
// ---------------------------------------------------------------------------

pub open spec fn opt_str(o: Option<&str>) -> Option<Seq<char>> {
    match o {
        Some(s) => Some(s@),
        None => None,
    }
}

/// The category recorded for a transfer's hash.
pub open spec fn category_of_transfer(t: PutIOTransfer, cats: Map<Seq<char>, Seq<char>>) -> Option<
    Seq<char>,
> {
    match t.hash {
        Some(h) => if cats.contains_key(h@) {
            Some(cats[h@])
        } else {
            None
        },
        None => None,
    }
}

/// Whether an application asking for `category` sees the transfer: without
/// a category it sees every transfer, with one only those added under it.
pub open spec fn visible_to(
    t: PutIOTransfer,
    cats: Map<Seq<char>, Seq<char>>,
    category: Option<Seq<char>>,
) -> bool {
    match category {
        None => true,
        Some(c) => category_of_transfer(t, cats) == Some(c),
    }
}

/// The torrent reported for a transfer: its download directory is the
/// download directory, followed by `/` and the category when it has one;
/// a transfer that put.io reports finished and stopped is reported as
/// seeding and unfinished, so that the application keeps polling until the
/// local download is imported.
pub open spec fn reported_torrent(
    t: PutIOTransfer,
    cats: Map<Seq<char>, Seq<char>>,
    base: Seq<char>,
    now_secs: i64,
    now_nanos: u32,
) -> TransmissionTorrentView {
    let tt = torrent_of(t, now_secs, now_nanos);
    let held = tt.is_finished && tt.status == TransmissionTorrentStatus::Stopped;
    TransmissionTorrentView {
        download_dir: match category_of_transfer(t, cats) {
            Some(c) => base + "/"@ + c,
            None => base,
        },
        status: if held {
            TransmissionTorrentStatus::Seeding
        } else {
            tt.status
        },
        is_finished: if held {
            false
        } else {
            tt.is_finished
        },
        ..tt
    }
}

/// The torrents reported, in put.io's order.
pub open spec fn reported_torrents(
    ts: Seq<PutIOTransfer>,
    cats: Map<Seq<char>, Seq<char>>,
    category: Option<Seq<char>>,
    base: Seq<char>,
    now_secs: i64,
    now_nanos: u32,
) -> Seq<TransmissionTorrentView>
    decreases ts.len(),
{
    if ts.len() == 0 {
        Seq::<TransmissionTorrentView>::empty()
    } else {
        let r = reported_torrents(ts.drop_last(), cats, category, base, now_secs, now_nanos);
        if visible_to(ts.last(), cats, category) {
            r.push(reported_torrent(ts.last(), cats, base, now_secs, now_nanos))
        } else {
            r
        }
    }
}

/// Answers torrent-get: the put.io transfers that the asking application
/// may see, as Transmission torrents, at the given instant.
pub fn handle_torrent_get(
    transfers: &Vec<PutIOTransfer>,
    categories: &CategoryMap,
    category: Option<&str>,
    download_base: &str,
    now_secs: i64,
    now_nanos: u32,
) -> (r: Vec<TransmissionTorrent>)
    requires
        forall|i: int| 0 <= i < transfers@.len() ==> convertible(#[trigger] transfers@[i]),
        -TIMESTAMP_BOUND <= now_secs <= TIMESTAMP_BOUND,
        now_nanos < 1_000_000_000,
    ensures
        r@.map_values(|t: TransmissionTorrent| t@) == reported_torrents(
            transfers@,
            categories@,
            opt_str(category),
            download_base@,
            now_secs,
            now_nanos,
        ),
{
    let mut out: Vec<TransmissionTorrent> = Vec::new();
    let mut i: usize = 0;
    while i < transfers.len()
        invariant
            i <= transfers@.len(),
            forall|k: int| 0 <= k < transfers@.len() ==> convertible(#[trigger] transfers@[k]),
            -TIMESTAMP_BOUND <= now_secs <= TIMESTAMP_BOUND,
            now_nanos < 1_000_000_000,
            out@.map_values(|t: TransmissionTorrent| t@) == reported_torrents(
                transfers@.take(i as int),
                categories@,
                opt_str(category),
                download_base@,
                now_secs,
                now_nanos,
            ),
        decreases transfers.len() - i,
    {
        assert(transfers@.take(i + 1).drop_last() =~= transfers@.take(i as int));
        let t = &transfers[i];
        let cat = match &t.hash {
            Some(h) => categories.get(h.as_str()),
            None => None,
        };
        let visible = match category {
            None => true,
            Some(c) => match &cat {
                Some(tc) => same_text(tc.as_str(), c),
                None => false,
            },
        };
        if visible {
            let mut tt = TransmissionTorrent::from(t, now_secs, now_nanos);
            tt.download_dir = match &cat {
                Some(c) => {
                    let sep = "/";
                    proof {
                        reveal_strlit("/");
                    }
                    String::from_str(download_base).concat(sep).concat(c.as_str())
                },
                None => String::from_str(download_base),
            };
            if tt.is_finished && tt.status == TransmissionTorrentStatus::Stopped {
                tt.status = TransmissionTorrentStatus::Seeding;
                tt.is_finished = false;
            }
            out.push(tt);
        }
        assert(out@.map_values(|t: TransmissionTorrent| t@) =~= reported_torrents(
            transfers@.take(i + 1),
            categories@,
            opt_str(category),
            download_base@,
            now_secs,
            now_nanos,
        ));
        i += 1;
    }
    assert(transfers@.take(transfers@.len() as int) =~= transfers@);
    out
}

/// An application asking under a category sees only the transfers added
/// under that category, and no transfer is ever reported as finished and
/// stopped (the state in which an application would import before the
/// local download is done).
pub proof fn law_torrent_get_per_category(
    ts: Seq<PutIOTransfer>,
    cats: Map<Seq<char>, Seq<char>>,
    category: Option<Seq<char>>,
    base: Seq<char>,
    now_secs: i64,
    now_nanos: u32,
)
    ensures
        forall|i: int|
            0 <= i < reported_torrents(ts, cats, category, base, now_secs, now_nanos).len() ==> {
                let r = #[trigger] reported_torrents(ts, cats, category, base, now_secs, now_nanos)[i];
                &&& category matches Some(c) ==> (r.hash_string is Some && cats.contains_key(
                    r.hash_string->0,
                ) && cats[r.hash_string->0] == c && r.download_dir == base + "/"@ + c)
                &&& !(r.is_finished && r.status == TransmissionTorrentStatus::Stopped)
            },
    decreases ts.len(),
{
    if ts.len() > 0 {
        law_torrent_get_per_category(ts.drop_last(), cats, category, base, now_secs, now_nanos);
        let prev = reported_torrents(ts.drop_last(), cats, category, base, now_secs, now_nanos);
        let all = reported_torrents(ts, cats, category, base, now_secs, now_nanos);
        assert forall|i: int| 0 <= i < all.len() implies {
            let r = #[trigger] all[i];
            &&& category matches Some(c) ==> (r.hash_string is Some && cats.contains_key(
                r.hash_string->0,
            ) && cats[r.hash_string->0] == c && r.download_dir == base + "/"@ + c)
            &&& !(r.is_finished && r.status == TransmissionTorrentStatus::Stopped)
        } by {
            if i < prev.len() {
                assert(all[i] == prev[i]);
            }
        }
    }
}

// ---------------------------------------------------------------------------
// torrent-remove
// ---------------------------------------------------------------------------

/// A put.io transfer to remove, and the put.io file to delete with it.
#[derive(PartialEq, Eq, Structural, Debug, Clone, Copy)]
pub struct Removal {
    pub transfer_id: u64,
    pub delete_file: Option<i64>,
}

/// The id a transfer is matched against: its hash, or `no_hash`.
pub open spec fn hash_or_placeholder(t: PutIOTransfer) -> Seq<char> {
    match t.hash {
        Some(h) => h@,
        None => "no_hash"@,
    }
}

pub open spec fn removal_of(t: PutIOTransfer, delete_local_data: bool) -> Removal {
    Removal {
        transfer_id: t.id,
        delete_file: if t.userfile_exists && delete_local_data {
            t.file_id
        } else {
            None
        },
    }
}

/// Removals for the transfers whose hash is among `ids`, in put.io's order.
pub open spec fn removals(ids: Seq<Seq<char>>, delete_local_data: bool, ts: Seq<PutIOTransfer>) -> Seq<
    Removal,
>
    decreases ts.len(),
{
    if ts.len() == 0 {
        Seq::<Removal>::empty()
    } else {
        let r = removals(ids, delete_local_data, ts.drop_last());
        if ids.contains(hash_or_placeholder(ts.last())) {
            r.push(removal_of(ts.last(), delete_local_data))
        } else {
            r
        }
    }
}

/// Whether a torrent-remove names the transfer (by its hash, or `no_hash`).
pub fn removal_requested(ids: &Vec<String>, t: &PutIOTransfer) -> (r: bool)
    ensures
        r == crate::transfer::text_views(ids@).contains(hash_or_placeholder(*t)),
{
    let ghost idv = crate::transfer::text_views(ids@);
    let key = match &t.hash {
        Some(h) => h.clone(),
        None => String::from_str("no_hash"),
    };
    let listed = crate::text::contains_text(ids, key.as_str());
    proof {
        if listed {
            let k = choose|k: int| 0 <= k < ids@.len() && ids@[k]@ == key@;
            assert(idv[k] == key@);
        }
        if idv.contains(key@) {
            let k = choose|k: int| 0 <= k < idv.len() && idv[k] == key@;
            assert(ids@[k]@ == key@);
        }
    }
    listed
}

/// Answers torrent-remove: which put.io transfers to remove and which of
/// their files to delete. A file is deleted only when local data is to be
/// deleted and put.io still holds the transfer's file.
pub fn handle_torrent_remove(ids: &Vec<String>, delete_local_data: bool, transfers: &Vec<PutIOTransfer>) -> (r:
    Vec<Removal>)
    requires
        forall|i: int|
            0 <= i < transfers@.len() && #[trigger] transfers@[i].userfile_exists && delete_local_data
                && crate::transfer::text_views(ids@).contains(hash_or_placeholder(transfers@[i]))
                ==> transfers@[i].file_id is Some,
    ensures
        r@ == removals(crate::transfer::text_views(ids@), delete_local_data, transfers@),
{
    let ghost idv = crate::transfer::text_views(ids@);
    let mut out: Vec<Removal> = Vec::new();
    let mut i: usize = 0;
    while i < transfers.len()
        invariant
            i <= transfers@.len(),
            idv == crate::transfer::text_views(ids@),
            out@ == removals(idv, delete_local_data, transfers@.take(i as int)),
        decreases transfers.len() - i,
    {
        assert(transfers@.take(i + 1).drop_last() =~= transfers@.take(i as int));
        let t = &transfers[i];
        if removal_requested(ids, t) {
            let delete_file = if t.userfile_exists && delete_local_data {
                t.file_id
            } else {
                None
            };
            out.push(Removal { transfer_id: t.id, delete_file });
        }
        i += 1;
    }
    assert(transfers@.take(transfers@.len() as int) =~= transfers@);
    out
}

// ---------------------------------------------------------------------------
// torrent-add
// ---------------------------------------------------------------------------

/// What base64 decoding (the standard alphabet, with padding) gives for a
/// text; `None` when it is not valid base64.
pub uninterp spec fn base64_decoded(s: Seq<char>) -> Option<Seq<u8>>;

#[verifier::external_type_specification]
#[verifier::external_body]
pub struct ExDecodeError(base64::DecodeError);

/// Calls `base64::engine::general_purpose::STANDARD.decode`. Its outcome is
/// named `base64_decoded`.
#[verifier::external_body]
fn decode_base64(s: &str) -> (r: Result<Vec<u8>, base64::DecodeError>)
    ensures
        match r {
            Ok(v) => base64_decoded(s@) == Some(v@),
            Err(_) => base64_decoded(s@) is None,
        },
{
    base64::engine::general_purpose::STANDARD.decode(s)
}

/// The info hash (lower-case hex SHA-1 of the info dictionary) that
/// lava_torrent computes for a .torrent file; `None` when the bytes do not
/// read as a torrent.
pub uninterp spec fn torrent_info_hash_of(bytes: Seq<u8>) -> Option<Seq<char>>;

/// Calls `lava_torrent::torrent::v1::Torrent::read_from_bytes` and, when the
/// bytes read as a torrent, its `info_hash`. The outcome is named
/// `torrent_info_hash_of`. The crate's bencode reader (and the copying,
/// dropping and re-encoding of what it read) recurses once per level of
/// nesting with no bound of its own, so data that nests deeper than
/// `MAX_NESTING` is left out: it could exhaust the stack.
#[verifier::external_body]
fn torrent_info_hash(bytes: &[u8]) -> (r: Option<String>)
    requires
        nesting_fits_spec(bytes@),
    ensures
        opt_text(r) == torrent_info_hash_of(bytes@),
{
    match lava_torrent::torrent::v1::Torrent::read_from_bytes(bytes) {
        Ok(t) => Some(t.info_hash()),
        Err(_) => None,
    }
}

/// The exact-topic hash (`xt` field) that `magnet_url::Magnet::new` (2.0)
/// reads from a URL: `None` when the URL is refused, `Some(None)` when it
/// holds no topic.
pub uninterp spec fn magnet_topic(url: Seq<char>) -> Option<Option<Seq<char>>>;

pub open spec fn has_prefix(s: Seq<char>, p: Seq<char>) -> bool {
    p.len() <= s.len() && s.subrange(0, p.len() as int) == p
}

pub open spec fn is_ascii_digit(c: char) -> bool {
    48 <= (c as u32) && (c as u32) <= 57
}

/// ASCII characters in the regex class `\s`.
pub open spec fn is_ascii_space(c: char) -> bool {
    let n = c as u32;
    (9 <= n && n <= 13) || n == 32
}

/// End of the run of ASCII digits that starts at `k`.
pub open spec fn digit_run_end(s: Seq<char>, k: int) -> int
    decreases s.len() - k,
{
    if 0 <= k < s.len() && is_ascii_digit(s[k]) {
        digit_run_end(s, k + 1)
    } else {
        k
    }
}

/// Value of a string of ASCII digits.
pub open spec fn decimal_value(s: Seq<char>) -> nat
    decreases s.len(),
{
    if s.len() == 0 {
        0
    } else {
        decimal_value(s.drop_last()) * 10 + ((s.last() as u32) - 48) as nat
    }
}

pub open spec fn xl_at(s: Seq<char>, i: int) -> bool {
    0 <= i && i + 3 <= s.len() && s[i] == 'x' && s[i + 1] == 'l' && s[i + 2] == '='
}

/// A non-ASCII character of a number category: the Unicode class `\d` of
/// the crate's pattern (decimal digits, `Nd`) lies within these, so such a
/// character may extend the digits that the crate then parses as a `u64`.
pub open spec fn wide_numeric(c: char) -> bool {
    (c as u32) >= 128 && unicode_numeric(c)
}

/// Whether the crate's pattern `xl=(\d*)(&|$|\s)` is settled at an `xl=`
/// found at `i`. Take the run of ASCII digits after it: the pattern matches
/// there when the run ends the text or is followed by `&` or by white space
/// (`\s` is Unicode's White_Space); a non-ASCII numeric character leaves it
/// open whether `\d` goes on. Any other character ends the digits without a
/// match, and the crate looks further on.
pub open spec fn xl_decides(s: Seq<char>, i: int) -> bool {
    let j = digit_run_end(s, i + 3);
    j == s.len() || s[j] == '&' || is_ascii_space(s[j]) || wide_numeric(s[j]) || ((s[j] as u32)
        >= 128 && unicode_white_space(s[j]))
}

/// At an `xl=` where the pattern is settled, the match is one that the crate
/// reads as a `u64` (it unwraps that parse): ASCII digits, at least one, not
/// followed by a non-ASCII numeric character, with a value that fits.
pub open spec fn xl_match_safe(s: Seq<char>, i: int) -> bool {
    let j = digit_run_end(s, i + 3);
    &&& (j == s.len() || !wide_numeric(s[j]))
    &&& j > i + 3
    &&& decimal_value(s.subrange(i + 3, j)) <= u64::MAX
}

/// Scanning from `i`, the first `xl=` where the pattern is settled (the one
/// the crate reads) is one it reads without panicking; true when there is
/// none.
pub open spec fn xl_safe_from(s: Seq<char>, i: int) -> bool
    decreases s.len() - i,
{
    if i < 0 || i >= s.len() {
        true
    } else if xl_at(s, i) && xl_decides(s, i) {
        xl_match_safe(s, i)
    } else {
        xl_safe_from(s, i + 1)
    }
}

/// The `xl=` parameter that `Magnet::new` reads from a URL, if any, is one it
/// reads without panicking.
pub open spec fn magnet_length_safe(s: Seq<char>) -> bool {
    xl_safe_from(s, 0)
}

/// Calls `magnet_url::Magnet::new` and keeps the `xt` field. The outcome is
/// named `magnet_topic`; the crate refuses exactly the URLs that do not
/// start with `magnet:?`. The crate unwraps the parse of the first `xl=`
/// value its pattern matches, so URLs where that parse could fail are left
/// out.
#[verifier::external_body]
fn parse_magnet_topic(url: &str) -> (r: Option<Option<String>>)
    requires
        magnet_length_safe(url@),
    ensures
        match r {
            Some(xt) => magnet_topic(url@) == Some(opt_text(xt)),
            None => magnet_topic(url@) is None,
        },
        (r is None) == !has_prefix(url@, "magnet:?"@),
{
    match magnet_url::Magnet::new(url) {
        Ok(m) => Some(m.xt),
        Err(_) => None,
    }
}

proof fn lemma_digit_run(s: Seq<char>, k: int)
    requires
        0 <= k <= s.len(),
    ensures
        k <= digit_run_end(s, k) <= s.len(),
        forall|m: int| k <= m < digit_run_end(s, k) ==> is_ascii_digit(#[trigger] s[m]),
        digit_run_end(s, k) < s.len() ==> !is_ascii_digit(s[digit_run_end(s, k)]),
    decreases s.len() - k,
{
    if k < s.len() && is_ascii_digit(s[k]) {
        lemma_digit_run(s, k + 1);
    }
}

proof fn lemma_decimal_grows(s: Seq<char>, k: int)
    requires
        0 <= k <= s.len(),
        forall|m: int| 0 <= m < s.len() ==> is_ascii_digit(#[trigger] s[m]),
    ensures
        decimal_value(s.subrange(0, k)) <= decimal_value(s),
    decreases s.len() - k,
{
    if k < s.len() {
        lemma_decimal_grows(s, k + 1);
        let t = s.subrange(0, k + 1);
        assert(t.drop_last() =~= s.subrange(0, k));
    } else {
        assert(s.subrange(0, k) =~= s);
    }
}

/// Whether the ASCII digits `v[lo..hi]` make a value that fits in a `u64`.
fn digits_fit_u64(v: &Vec<char>, lo: usize, hi: usize) -> (r: bool)
    requires
        lo <= hi <= v@.len(),
        forall|m: int| lo <= m < hi ==> is_ascii_digit(#[trigger] v@[m]),
    ensures
        r == (decimal_value(v@.subrange(lo as int, hi as int)) <= u64::MAX),
{
    let ghost d = v@.subrange(lo as int, hi as int);
    let mut acc: u64 = 0;
    let mut k = lo;
    assert(d.subrange(0, 0) =~= Seq::<char>::empty());
    while k < hi
        invariant
            lo <= k <= hi <= v@.len(),
            d == v@.subrange(lo as int, hi as int),
            forall|m: int| lo <= m < hi ==> is_ascii_digit(#[trigger] v@[m]),
            acc as nat == decimal_value(d.subrange(0, k - lo)),
        decreases hi - k,
    {
        assert(d.subrange(0, k + 1 - lo).drop_last() =~= d.subrange(0, k - lo));
        assert(d[k - lo] == v@[k as int]);
        let digit = ((v[k] as u32) - 48) as u64;
        let next = match acc.checked_mul(10) {
            Some(t) => t.checked_add(digit),
            None => None,
        };
        match next {
            Some(n) => {
                acc = n;
            },
            None => {
                proof {
                    assert forall|m: int| 0 <= m < d.len() implies is_ascii_digit(#[trigger] d[m]) by {
                        assert(d[m] == v@[lo + m]);
                    }
                    lemma_decimal_grows(d, k + 1 - lo);
                }
                return false;
            },
        }
        k += 1;
    }
    assert(d.subrange(0, hi - lo) =~= d);
    true
}

/// Whether the `xl=` parameter that `Magnet::new` reads from the URL, if any,
/// is one it reads without panicking.
fn check_magnet_length(url: &str) -> (r: bool)
    ensures
        r == magnet_length_safe(url@),
{
    let v = chars_of(url);
    let n = v.len();
    let mut i: usize = 0;
    while i < n
        invariant
            n == v@.len(),
            v@ == url@,
            i <= n,
            xl_safe_from(v@, 0) == xl_safe_from(v@, i as int),
        decreases n - i,
    {
        if n - i >= 3 && v[i] == 'x' && v[i + 1] == 'l' && v[i + 2] == '=' {
            let mut j = i + 3;
            proof {
                lemma_digit_run(v@, i + 3);
            }
            while j < n && (v[j] as u32) >= 48 && (v[j] as u32) <= 57
                invariant
                    n == v@.len(),
                    i + 3 <= j <= n,
                    j <= digit_run_end(v@, i + 3),
                    digit_run_end(v@, j as int) == digit_run_end(v@, i + 3),
                    forall|m: int| i + 3 <= m < j ==> is_ascii_digit(#[trigger] v@[m]),
                decreases n - j,
            {
                proof {
                    assert(is_ascii_digit(v@[j as int]));
                    assert(digit_run_end(v@, j as int) == digit_run_end(v@, j + 1));
                    lemma_digit_run(v@, j + 1);
                }
                j += 1;
            }
            proof {
                lemma_digit_run(v@, j as int);
                assert(xl_at(v@, i as int));
            }
            let (decides, wide_digit) = if j == n {
                (true, false)
            } else if (v[j] as u32) >= 128 {
                let numeric = is_numeric(v[j]);
                (numeric || is_white_space(v[j]), numeric)
            } else {
                (v[j] == '&' || ((v[j] as u32) >= 9 && (v[j] as u32) <= 13) || (v[j] as u32) == 32, false)
            };
            if decides {
                let safe = !wide_digit && j > i + 3 && digits_fit_u64(&v, i + 3, j);
                return safe;
            }
        }
        i += 1;
    }
    true
}

/// `s` without a leading `prefix`, or `s` itself.
pub open spec fn without_prefix(s: Seq<char>, prefix: Seq<char>) -> Seq<char> {
    if has_prefix(s, prefix) {
        s.subrange(prefix.len() as int, s.len() as int)
    } else {
        s
    }
}

fn strip_prefix<'a>(s: &'a str, prefix: &str) -> (r: &'a str)
    ensures
        r@ == without_prefix(s@, prefix@),
{
    let n = s.unicode_len();
    let p = prefix.unicode_len();
    if p <= n && same_text(s.substring_char(0, p), prefix) {
        s.substring_char(p, n)
    } else {
        s
    }
}

/// The arguments of a torrent-add request: a base64 .torrent file
/// (`metainfo`) or a magnet link (`filename`), and the category the
/// application asked for (`tvCategory`).
#[derive(Debug)]
pub struct TorrentAddArgs {
    pub metainfo: Option<String>,
    pub filename: Option<String>,
    pub tv_category: Option<String>,
}

/// What a torrent-add hands to put.io.
#[derive(Debug)]
pub enum AddSource {
    /// The bytes of a .torrent file to upload.
    Upload(Vec<u8>),
    /// A magnet link to add.
    Magnet(String),
}

/// What a torrent-add does: hand `source` to put.io and, once put.io took
/// it, record `category` under `category_hash`.
#[derive(Debug)]
pub struct AddPlan {
    pub source: AddSource,
    pub category: Option<String>,
    pub category_hash: Option<String>,
}

/// Why a torrent-add is refused.
#[derive(PartialEq, Eq, Structural, Debug, Clone, Copy)]
pub enum AddError {
    /// `metainfo` is not valid base64.
    InvalidMetainfo,
}

/// The category of a torrent-add: the one in the request, or else the one
/// of the URL it came to.
pub open spec fn resolved_category(tv_category: Option<Seq<char>>, url_category: Option<Seq<char>>) -> Option<
    Seq<char>,
> {
    match tv_category {
        Some(c) => Some(c),
        None => url_category,
    }
}

/// The hash a .torrent file's category is recorded under: its info hash,
/// lower-cased, when there is a category and the file nests at most
/// `MAX_NESTING` deep and reads as a torrent.
pub open spec fn upload_hash(bytes: Seq<u8>, category: Option<Seq<char>>) -> Option<Seq<char>> {
    if category is Some && nesting_fits_spec(bytes) {
        match torrent_info_hash_of(bytes) {
            Some(h) => Some(unicode_lowercase(h)),
            None => None,
        }
    } else {
        None
    }
}

/// The hash a magnet link's category is recorded under: its topic without
/// `urn:btih:`, lower-cased, when there is a category and the link reads as
/// a magnet with a topic.
pub open spec fn magnet_hash(url: Seq<char>, category: Option<Seq<char>>) -> Option<Seq<char>> {
    if category is Some && magnet_length_safe(url) {
        match magnet_topic(url) {
            Some(Some(xt)) => Some(unicode_lowercase(without_prefix(xt, "urn:btih:"@))),
            _ => None,
        }
    } else {
        None
    }
}

/// Plans the upload of a decoded .torrent file.
pub fn plan_torrent_upload(bytes: Vec<u8>, category: Option<String>) -> (r: AddPlan)
    ensures
        r.source matches AddSource::Upload(b) && b@ == bytes@,
        r.category == category,
        opt_text(r.category_hash) == upload_hash(bytes@, opt_text(category)),
{
    let category_hash = if category.is_some() && nesting_fits(bytes.as_slice()) {
        match torrent_info_hash(bytes.as_slice()) {
            Some(h) => Some(to_lowercase(h.as_str())),
            None => None,
        }
    } else {
        None
    };
    AddPlan { source: AddSource::Upload(bytes), category, category_hash }
}

/// The hash a magnet link's exact topic names, as put.io reports it: the
/// topic without a leading `urn:btih:`, lower-cased.
pub fn topic_hash(xt: &str) -> (r: String)
    ensures
        r@ == unicode_lowercase(without_prefix(xt@, "urn:btih:"@)),
{
    to_lowercase(strip_prefix(xt, "urn:btih:"))
}

/// Plans the addition of a magnet link.
pub fn plan_magnet(url: String, category: Option<String>) -> (r: AddPlan)
    ensures
        r.source matches AddSource::Magnet(u) && u@ == url@,
        r.category == category,
        opt_text(r.category_hash) == magnet_hash(url@, opt_text(category)),
{
    let category_hash = if category.is_some() && check_magnet_length(url.as_str()) {
        match parse_magnet_topic(url.as_str()) {
            Some(Some(xt)) => Some(topic_hash(xt.as_str())),
            _ => None,
        }
    } else {
        None
    };
    AddPlan { source: AddSource::Magnet(url), category, category_hash }
}

/// Answers torrent-add: a .torrent file when the request has `metainfo`,
/// else the magnet link in `filename`; refused when the .torrent file is
/// not valid base64.
pub fn handle_torrent_add(args: &TorrentAddArgs, url_category: Option<&str>) -> (r: Result<
    AddPlan,
    AddError,
>)
    requires
        args.metainfo is Some || args.filename is Some,
    ensures
        ({
            let category = resolved_category(opt_text(args.tv_category), opt_str(url_category));
            match args.metainfo {
                Some(m) => match base64_decoded(m@) {
                    Some(bytes) => r matches Ok(p) && p.source matches AddSource::Upload(b) && b@
                        == bytes && opt_text(p.category) == category && opt_text(p.category_hash)
                        == upload_hash(bytes, category),
                    None => r == Err::<AddPlan, AddError>(AddError::InvalidMetainfo),
                },
                None => r matches Ok(p) && p.source matches AddSource::Magnet(u) && u@
                    == args.filename->0@ && opt_text(p.category) == category && opt_text(
                    p.category_hash,
                ) == magnet_hash(args.filename->0@, category),
            }
        }),
{
    let category = match &args.tv_category {
        Some(c) => Some(c.clone()),
        None => match url_category {
            Some(c) => Some(String::from_str(c)),
            None => None,
        },
    };
    match &args.metainfo {
        Some(m) => match decode_base64(m.as_str()) {
            Ok(bytes) => Ok(plan_torrent_upload(bytes, category)),
            Err(_) => Err(AddError::InvalidMetainfo),
        },
        None => {
            let url = args.filename.as_ref().unwrap().clone();
            Ok(plan_magnet(url, category))
        },
    }
}

impl AddPlan {
    /// Records the category once put.io accepted the torrent.
    pub fn record(&self, categories: &mut CategoryMap)
        ensures
            final(categories)@ == match (self.category_hash, self.category) {
                (Some(h), Some(c)) => old(categories)@.insert(h@, c@),
                _ => old(categories)@,
            },
    {
        match (&self.category_hash, &self.category) {
            (Some(h), Some(c)) => categories.insert(h.clone(), c.clone()),
            _ => {},
        }
    }
}

} // verus!

verus! {

/// Once a torrent-add recorded category `c` under hash `h`, a torrent-get
/// under `c` shows the transfer with that hash, placed in the category's
/// download directory, while a torrent-get under any other category does
/// not show it.
pub proof fn law_added_category_routes_torrent_get(
    cats: Map<Seq<char>, Seq<char>>,
    h: Seq<char>,
    c: Seq<char>,
    other: Seq<char>,
    t: PutIOTransfer,
    base: Seq<char>,
    now_secs: i64,
    now_nanos: u32,
)
    requires
        t.hash is Some,
        t.hash->0@ == h,
    ensures
        visible_to(t, cats.insert(h, c), Some(c)),
        reported_torrent(t, cats.insert(h, c), base, now_secs, now_nanos).download_dir == base
            + "/"@ + c,
        other != c ==> !visible_to(t, cats.insert(h, c), Some(other)),
{
}

} // verus!
