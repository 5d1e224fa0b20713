//! Decisions of the download system: which put.io transfers to queue, when a
//! transfer's downloads are complete, what to remove once it is imported, and
//! how to wait while put.io still seeds it.

use vstd::prelude::*;
use crate::putio::PutIOTransfer;
use crate::text::same_text;
use crate::transfer::{all_files_imported, DownloadTarget, Transfer, TransferMessage};

verus! {

/// The ids of the transfers listed by put.io.
pub open spec fn transfer_ids(ts: Seq<PutIOTransfer>) -> Seq<u64> {
    ts.map_values(|t: PutIOTransfer| t.id)
}

/// Ids seen after a poll of `ts`: each downloadable transfer not seen yet is
/// added, in list order.
pub open spec fn poll_seen(seen: Seq<u64>, ts: Seq<PutIOTransfer>) -> Seq<u64>
    decreases ts.len(),
{
    if ts.len() == 0 {
        seen
    } else {
        let s = poll_seen(seen, ts.drop_last());
        let t = ts.last();
        if !s.contains(t.id) && t.file_id is Some {
            s.push(t.id)
        } else {
            s
        }
    }
}

/// Positions in `ts` of the transfers that a poll queues for download.
pub open spec fn poll_queue(seen: Seq<u64>, ts: Seq<PutIOTransfer>) -> Seq<int>
    decreases ts.len(),
{
    if ts.len() == 0 {
        Seq::<int>::empty()
    } else {
        let s = poll_seen(seen, ts.drop_last());
        let q = poll_queue(seen, ts.drop_last());
        let t = ts.last();
        if !s.contains(t.id) && t.file_id is Some {
            q.push(ts.len() - 1)
        } else {
            q
        }
    }
}

/// The seen ids that are still in `active`, in order.
pub open spec fn keep_active(seen: Seq<u64>, active: Seq<u64>) -> Seq<u64>
    decreases seen.len(),
{
    if seen.len() == 0 {
        seen
    } else {
        let r = keep_active(seen.drop_last(), active);
        if active.contains(seen.last()) {
            r.push(seen.last())
        } else {
            r
        }
    }
}

/// Ids of the put.io transfers already handed to the download system.
pub struct SeenTransfers {
    ids: Vec<u64>,
}

impl View for SeenTransfers {
    type V = Seq<u64>;

    closed spec fn view(&self) -> Seq<u64> {
        self.ids@
    }
}

fn holds_id(ids: &Vec<u64>, id: u64) -> (r: bool)
    ensures
        r == ids@.contains(id),
{
    let mut i: usize = 0;
    while i < ids.len()
        invariant
            i <= ids@.len(),
            forall|k: int| 0 <= k < i ==> ids@[k] != id,
        decreases ids.len() - i,
    {
        if ids[i] == id {
            return true;
        }
        i += 1;
    }
    false
}

fn lists_id(ts: &Vec<PutIOTransfer>, id: u64) -> (r: bool)
    ensures
        r == transfer_ids(ts@).contains(id),
{
    let mut i: usize = 0;
    while i < ts.len()
        invariant
            i <= ts@.len(),
            forall|k: int| 0 <= k < i ==> ts@[k].id != id,
        decreases ts.len() - i,
    {
        if ts[i].id == id {
            assert(transfer_ids(ts@)[i as int] == id);
            return true;
        }
        i += 1;
    }
    proof {
        if transfer_ids(ts@).contains(id) {
            let k = choose|k: int| 0 <= k < transfer_ids(ts@).len() && transfer_ids(ts@)[k] == id;
            assert(ts@[k].id == id);
        }
    }
    false
}

impl SeenTransfers {
    /// Nothing seen yet.
    pub fn new() -> (r: SeenTransfers)
        ensures
            r@ == Seq::<u64>::empty(),
    {
        SeenTransfers { ids: Vec::new() }
    }

    pub fn contains(&self, id: u64) -> (r: bool)
        ensures
            r == self@.contains(id),
    {
        holds_id(&self.ids, id)
    }

    /// Notes a transfer as handed on (at start-up, one already imported).
    pub fn record(&mut self, id: u64)
        ensures
            final(self)@ == old(self)@.push(id),
    {
        self.ids.push(id);
    }

    /// One poll of put.io's transfer list: returns the positions of the
    /// downloadable transfers not seen before, in order, and notes them as
    /// seen.
    pub fn poll(&mut self, transfers: &Vec<PutIOTransfer>) -> (r: Vec<usize>)
        ensures
            final(self)@ == poll_seen(old(self)@, transfers@),
            r@.map_values(|i: usize| i as int) == poll_queue(old(self)@, transfers@),
    {
        let ghost seen0 = self@;
        let mut queue: Vec<usize> = Vec::new();
        let mut i: usize = 0;
        while i < transfers.len()
            invariant
                i <= transfers@.len(),
                self@ == poll_seen(seen0, transfers@.take(i as int)),
                queue@.map_values(|u: usize| u as int) == poll_queue(seen0, transfers@.take(i as int)),
            decreases transfers.len() - i,
        {
            let ghost pre = transfers@.take(i as int);
            assert(transfers@.take(i + 1).drop_last() =~= pre);
            let t = &transfers[i];
            if !self.contains(t.id) && t.is_downloadable() {
                queue.push(i);
                self.ids.push(t.id);
            }
            assert(queue@.map_values(|u: usize| u as int) =~= poll_queue(seen0, transfers@.take(i + 1)));
            i += 1;
        }
        assert(transfers@.take(transfers@.len() as int) =~= transfers@);
        queue
    }

    /// Forgets the transfers that put.io no longer lists.
    pub fn retain_active(&mut self, transfers: &Vec<PutIOTransfer>)
        ensures
            final(self)@ == keep_active(old(self)@, transfer_ids(transfers@)),
    {
        let ghost active = transfer_ids(transfers@);
        let mut kept: Vec<u64> = Vec::new();
        let mut i: usize = 0;
        while i < self.ids.len()
            invariant
                i <= self.ids@.len(),
                kept@ == keep_active(self.ids@.take(i as int), active),
                active == transfer_ids(transfers@),
            decreases self.ids.len() - i,
        {
            assert(self.ids@.take(i + 1).drop_last() =~= self.ids@.take(i as int));
            let id = self.ids[i];
            if lists_id(transfers, id) {
                kept.push(id);
            }
            i += 1;
        }
        assert(self.ids@.take(self.ids@.len() as int) =~= self.ids@);
        self.ids = kept;
    }
}

proof fn lemma_poll_seen_grows(seen: Seq<u64>, ts: Seq<PutIOTransfer>, x: u64)
    requires
        seen.contains(x),
    ensures
        poll_seen(seen, ts).contains(x),
    decreases ts.len(),
{
    if ts.len() > 0 {
        lemma_poll_seen_grows(seen, ts.drop_last(), x);
        let s = poll_seen(seen, ts.drop_last());
        if !s.contains(ts.last().id) && ts.last().file_id is Some {
            let k = choose|k: int| 0 <= k < s.len() && s[k] == x;
            assert(s.push(ts.last().id)[k] == x);
        }
    }
}

/// Each queued position names a downloadable transfer whose id was not seen
/// before and is seen afterwards.
proof fn lemma_poll_queue(seen: Seq<u64>, ts: Seq<PutIOTransfer>)
    ensures
        forall|k: int|
            0 <= k < poll_queue(seen, ts).len() ==> {
                let q = #[trigger] poll_queue(seen, ts)[k];
                &&& 0 <= q < ts.len()
                &&& ts[q].file_id is Some
                &&& !seen.contains(ts[q].id)
                &&& poll_seen(seen, ts).contains(ts[q].id)
            },
    decreases ts.len(),
{
    if ts.len() > 0 {
        let pre = ts.drop_last();
        lemma_poll_queue(seen, pre);
        let s = poll_seen(seen, pre);
        let t = ts.last();
        assert forall|k: int| 0 <= k < poll_queue(seen, ts).len() implies {
            let q = #[trigger] poll_queue(seen, ts)[k];
            &&& 0 <= q < ts.len()
            &&& ts[q].file_id is Some
            &&& !seen.contains(ts[q].id)
            &&& poll_seen(seen, ts).contains(ts[q].id)
        } by {
            let q = poll_queue(seen, ts)[k];
            if k < poll_queue(seen, pre).len() {
                assert(poll_queue(seen, pre)[k] == q);
                assert(pre[q] == ts[q]);
                lemma_poll_seen_grows(s, seq![t], ts[q].id);
                if !s.contains(t.id) && t.file_id is Some {
                    let j = choose|j: int| 0 <= j < s.len() && s[j] == ts[q].id;
                    assert(s.push(t.id)[j] == ts[q].id);
                }
            } else {
                assert(q == ts.len() - 1);
                if seen.contains(t.id) {
                    lemma_poll_seen_grows(seen, pre, t.id);
                }
                assert(s.push(t.id)[s.len() as int] == t.id);
            }
        }
    }
}

proof fn lemma_keep_active(seen: Seq<u64>, active: Seq<u64>, x: u64)
    ensures
        keep_active(seen, active).contains(x) == (seen.contains(x) && active.contains(x)),
    decreases seen.len(),
{
    if seen.len() > 0 {
        let pre = seen.drop_last();
        lemma_keep_active(pre, active, x);
        let r = keep_active(pre, active);
        if active.contains(seen.last()) {
            if r.push(seen.last()).contains(x) {
                let k = choose|k: int| 0 <= k < r.push(seen.last()).len() && r.push(seen.last())[k] == x;
                if k < r.len() {
                    assert(r[k] == x);
                }
            }
            if r.contains(x) {
                let k = choose|k: int| 0 <= k < r.len() && r[k] == x;
                assert(r.push(seen.last())[k] == x);
            }
            assert(r.push(seen.last())[r.len() as int] == seen.last());
        }
        if seen.contains(x) {
            let k = choose|k: int| 0 <= k < seen.len() && seen[k] == x;
            if k < pre.len() {
                assert(pre[k] == x);
            }
        }
        if pre.contains(x) {
            let k = choose|k: int| 0 <= k < pre.len() && pre[k] == x;
            assert(seen[k] == x);
        }
    }
}

/// A transfer is handed to the download system once: after the poll that
/// queued it (and the pruning against the same list), a later poll does not
/// queue it again while put.io still lists it.
pub proof fn law_transfer_queued_once(
    seen: Seq<u64>,
    first: Seq<PutIOTransfer>,
    second: Seq<PutIOTransfer>,
    k: int,
)
    requires
        0 <= k < poll_queue(seen, first).len(),
    ensures
        ({
            let id = first[poll_queue(seen, first)[k]].id;
            let next = keep_active(poll_seen(seen, first), transfer_ids(first));
            forall|j: int|
                0 <= j < poll_queue(next, second).len() ==> second[#[trigger] poll_queue(
                    next,
                    second,
                )[j]].id != id
        }),
{
    lemma_poll_queue(seen, first);
    let q = poll_queue(seen, first)[k];
    let id = first[q].id;
    let next = keep_active(poll_seen(seen, first), transfer_ids(first));
    assert(transfer_ids(first)[q] == id);
    lemma_keep_active(poll_seen(seen, first), transfer_ids(first), id);
    lemma_poll_queue(next, second);
}

/// The seen ids after a run of successful polls, each a poll of the listed
/// transfers followed by forgetting those put.io no longer lists.
pub open spec fn seen_after_polls(seen: Seq<u64>, polls: Seq<Seq<PutIOTransfer>>) -> Seq<u64>
    decreases polls.len(),
{
    if polls.len() == 0 {
        seen
    } else {
        let s = seen_after_polls(seen, polls.drop_last());
        keep_active(poll_seen(s, polls.last()), transfer_ids(polls.last()))
    }
}

/// The positions that poll `i` of a run queues.
pub open spec fn queued_at(seen: Seq<u64>, polls: Seq<Seq<PutIOTransfer>>, i: int) -> Seq<int> {
    poll_queue(seen_after_polls(seen, polls.take(i)), polls[i])
}

proof fn lemma_seen_after_step(seen: Seq<u64>, polls: Seq<Seq<PutIOTransfer>>, i: int)
    requires
        0 <= i < polls.len(),
    ensures
        seen_after_polls(seen, polls.take(i + 1)) == keep_active(
            poll_seen(seen_after_polls(seen, polls.take(i)), polls[i]),
            transfer_ids(polls[i]),
        ),
{
    assert(polls.take(i + 1).drop_last() =~= polls.take(i));
    assert(polls.take(i + 1).last() == polls[i]);
}

/// An id that is seen stays seen through every poll that lists it.
proof fn lemma_seen_kept(seen: Seq<u64>, polls: Seq<Seq<PutIOTransfer>>, a: int, b: int, x: u64)
    requires
        0 <= a <= b <= polls.len(),
        seen_after_polls(seen, polls.take(a)).contains(x),
        forall|i: int| a <= i < b ==> transfer_ids(#[trigger] polls[i]).contains(x),
    ensures
        seen_after_polls(seen, polls.take(b)).contains(x),
    decreases b - a,
{
    if a < b {
        let s = seen_after_polls(seen, polls.take(a));
        lemma_seen_after_step(seen, polls, a);
        lemma_poll_seen_grows(s, polls[a], x);
        assert(transfer_ids(polls[a]).contains(x));
        lemma_keep_active(poll_seen(s, polls[a]), transfer_ids(polls[a]), x);
        lemma_seen_kept(seen, polls, a + 1, b, x);
    }
}

/// Over any run of polls, a transfer is queued only when put.io lists it with
/// a file, and once queued it is not queued again as long as every poll in
/// between lists it: a second queue of the same transfer needs a poll that
/// did not list it. The same holds from the start for an id already seen
/// (one found imported at start-up).
pub proof fn law_transfer_queued_once_over_polls(
    seen: Seq<u64>,
    polls: Seq<Seq<PutIOTransfer>>,
    a: int,
    b: int,
    x: u64,
)
    requires
        0 <= a < b < polls.len(),
        forall|i: int| a < i < b ==> transfer_ids(#[trigger] polls[i]).contains(x),
    ensures
        forall|j: int|
            0 <= j < queued_at(seen, polls, a).len() ==> {
                let q = #[trigger] queued_at(seen, polls, a)[j];
                0 <= q < polls[a].len() && polls[a][q].file_id is Some
            },
        (exists|j: int|
            0 <= j < queued_at(seen, polls, a).len() && polls[a][#[trigger] queued_at(
                seen,
                polls,
                a,
            )[j]].id == x) ==> forall|j: int|
            0 <= j < queued_at(seen, polls, b).len() ==> polls[b][#[trigger] queued_at(
                seen,
                polls,
                b,
            )[j]].id != x,
        (seen.contains(x) && forall|i: int| 0 <= i < b ==> transfer_ids(#[trigger] polls[i]).contains(x))
            ==> forall|j: int|
            0 <= j < queued_at(seen, polls, b).len() ==> polls[b][#[trigger] queued_at(
                seen,
                polls,
                b,
            )[j]].id != x,
{
    let sa = seen_after_polls(seen, polls.take(a));
    let sb = seen_after_polls(seen, polls.take(b));
    lemma_poll_queue(sa, polls[a]);
    lemma_poll_queue(sb, polls[b]);
    if exists|j: int|
        0 <= j < queued_at(seen, polls, a).len() && polls[a][#[trigger] queued_at(seen, polls, a)[j]].id
            == x {
        let j = choose|j: int|
            0 <= j < queued_at(seen, polls, a).len() && polls[a][#[trigger] queued_at(
                seen,
                polls,
                a,
            )[j]].id == x;
        let q = queued_at(seen, polls, a)[j];
        assert(transfer_ids(polls[a])[q] == x);
        lemma_seen_after_step(seen, polls, a);
        lemma_keep_active(poll_seen(sa, polls[a]), transfer_ids(polls[a]), x);
        lemma_seen_kept(seen, polls, a + 1, b, x);
    }
    if seen.contains(x) && forall|i: int| 0 <= i < b ==> transfer_ids(#[trigger] polls[i]).contains(x) {
        assert(polls.take(0) =~= Seq::<Seq<PutIOTransfer>>::empty());
        lemma_seen_kept(seen, polls, 0, b, x);
    }
}

/// How a file download ended.
#[derive(PartialEq, Eq, Structural, Debug, Clone, Copy)]
pub enum DownloadDoneStatus {
    Success,
    Failed,
}

/// Whether every download of a transfer succeeded.
pub fn all_succeeded(statuses: &Vec<DownloadDoneStatus>) -> (r: bool)
    ensures
        r == forall|i: int| 0 <= i < statuses@.len() ==> statuses@[i] == DownloadDoneStatus::Success,
{
    let mut i: usize = 0;
    while i < statuses.len()
        invariant
            i <= statuses@.len(),
            forall|k: int| 0 <= k < i ==> statuses@[k] == DownloadDoneStatus::Success,
        decreases statuses.len() - i,
    {
        if statuses[i] == DownloadDoneStatus::Failed {
            return false;
        }
        i += 1;
    }
    true
}

/// After the downloads of a queued transfer: when all succeeded, the
/// transfer with its targets moves on to wait for its import; otherwise it
/// is dropped (put.io still lists it, so it is not queued again until it
/// leaves the list).
pub fn after_downloads(
    transfer: Transfer,
    targets: Vec<DownloadTarget>,
    statuses: &Vec<DownloadDoneStatus>,
) -> (r: Option<TransferMessage>)
    ensures
        (r is Some) == forall|i: int|
            0 <= i < statuses@.len() ==> statuses@[i] == DownloadDoneStatus::Success,
        r matches Some(m) ==> m matches TransferMessage::Downloaded(t) && t.name == transfer.name
            && t.file_id == transfer.file_id && t.hash == transfer.hash && t.transfer_id
            == transfer.transfer_id && t.targets == Some(targets),
{
    if all_succeeded(statuses) {
        Some(TransferMessage::Downloaded(Transfer { targets: Some(targets), ..transfer }))
    } else {
        None
    }
}

/// At start-up, what becomes of a downloadable transfer that put.io still
/// lists. With its targets known and every file target imported by one of
/// the applications, it moves on to seeding, carrying its targets, and is
/// noted as seen; otherwise (targets unknown, or not imported yet) nothing
/// happens and the monitoring polls will queue it. `verdicts[i]` holds the
/// applications' answers for target `i`.
pub fn resume_at_startup(
    seen: &mut SeenTransfers,
    transfer: Transfer,
    targets: Option<Vec<DownloadTarget>>,
    verdicts: &Vec<Vec<bool>>,
) -> (r: Option<TransferMessage>)
    requires
        targets is Some ==> verdicts@.len() == targets->0@.len(),
    ensures
        match targets {
            Some(v) => if all_files_imported(v@, verdicts@) {
                &&& r matches Some(m) && m matches TransferMessage::Imported(t) && t.name == transfer.name
                    && t.file_id == transfer.file_id && t.hash == transfer.hash && t.transfer_id
                    == transfer.transfer_id && t.targets == Some(v)
                &&& final(seen)@ == old(seen)@.push(transfer.transfer_id)
            } else {
                r is None && final(seen)@ == old(seen)@
            },
            None => r is None && final(seen)@ == old(seen)@,
        },
{
    match targets {
        None => None,
        Some(v) => {
            let t = Transfer { targets: Some(v), ..transfer };
            if t.is_imported(verdicts) {
                seen.record(t.transfer_id);
                Some(TransferMessage::Imported(t))
            } else {
                None
            }
        },
    }
}

/// What the local disk holds at a transfer's top-level target.
#[derive(PartialEq, Eq, Structural, Debug, Clone, Copy)]
pub enum PathKind {
    Directory,
    File,
    Other,
    Missing,
}

/// How to clean up an imported transfer's top-level target.
#[derive(PartialEq, Eq, Structural, Debug, Clone, Copy)]
pub enum Cleanup {
    RemoveDirectory,
    RemoveFile,
    Keep,
}

/// Directories are removed with their contents, files alone; anything else
/// is left in place.
pub fn cleanup_for(kind: PathKind) -> (r: Cleanup)
    ensures
        r == match kind {
            PathKind::Directory => Cleanup::RemoveDirectory,
            PathKind::File => Cleanup::RemoveFile,
            _ => Cleanup::Keep,
        },
{
    match kind {
        PathKind::Directory => Cleanup::RemoveDirectory,
        PathKind::File => Cleanup::RemoveFile,
        _ => Cleanup::Keep,
    }
}

/// Upper bound, in seconds, of the wait after failed status checks.
pub const MAX_BACKOFF: u64 = 300;

/// Waiting for put.io to stop seeding an imported transfer.
#[derive(PartialEq, Eq, Structural, Debug, Clone, Copy)]
pub struct SeedingWatch {
    pub polling_interval: u64,
    /// Seconds to wait after the next failed status check.
    pub backoff: u64,
}

/// Outcome of one status check of the transfer on put.io.
#[derive(Debug)]
pub enum SeedingEvent {
    Status(String),
    CheckFailed,
}

/// What to do after a status check.
#[derive(PartialEq, Eq, Structural, Debug, Clone, Copy)]
pub enum SeedingAction {
    /// Sleep this many seconds, then check again.
    Wait(u64),
    /// Seeding is over: remove the transfer from put.io and, when it has
    /// one, delete its file there.
    Finish { delete_file: Option<i64> },
}

/// Backoff after a failed check: doubled, at most `MAX_BACKOFF`.
pub open spec fn next_backoff(backoff: u64) -> u64 {
    if 2 * backoff <= MAX_BACKOFF {
        (2 * backoff) as u64
    } else {
        MAX_BACKOFF
    }
}

/// The watch after a sequence of checks; `true` stands for a failed check,
/// `false` for one that found the transfer still seeding.
pub open spec fn watch_after(start: SeedingWatch, failures: Seq<bool>) -> SeedingWatch
    decreases failures.len(),
{
    if failures.len() == 0 {
        start
    } else {
        let w = watch_after(start, failures.drop_last());
        if failures.last() {
            SeedingWatch { backoff: next_backoff(w.backoff), ..w }
        } else {
            SeedingWatch { backoff: w.polling_interval, ..w }
        }
    }
}

impl SeedingWatch {
    /// The watch starts with the polling interval as its backoff.
    pub fn new(polling_interval: u64) -> (r: SeedingWatch)
        ensures
            r.polling_interval == polling_interval,
            r.backoff == polling_interval,
    {
        SeedingWatch { polling_interval, backoff: polling_interval }
    }

    /// One check: a failed check waits the current backoff and doubles it
    /// (up to `MAX_BACKOFF`); a successful one resets the backoff and either
    /// waits a polling interval while put.io still reports `SEEDING`, or ends
    /// the watch.
    pub fn step(&mut self, event: &SeedingEvent, file_id: Option<i64>) -> (r: SeedingAction)
        requires
            event is CheckFailed ==> 2 * old(self).backoff <= u64::MAX,
        ensures
            final(self).polling_interval == old(self).polling_interval,
            match event {
                SeedingEvent::CheckFailed => r == SeedingAction::Wait(old(self).backoff)
                    && final(self).backoff == next_backoff(old(self).backoff),
                SeedingEvent::Status(s) => final(self).backoff == old(self).polling_interval && r
                    == if s@ == "SEEDING"@ {
                    SeedingAction::Wait(old(self).polling_interval)
                } else {
                    SeedingAction::Finish { delete_file: file_id }
                },
            },
    {
        match event {
            SeedingEvent::CheckFailed => {
                let wait = self.backoff;
                let doubled = self.backoff * 2;
                self.backoff = if doubled <= MAX_BACKOFF {
                    doubled
                } else {
                    MAX_BACKOFF
                };
                SeedingAction::Wait(wait)
            },
            SeedingEvent::Status(s) => {
                self.backoff = self.polling_interval;
                if same_text(s.as_str(), "SEEDING") {
                    SeedingAction::Wait(self.polling_interval)
                } else {
                    SeedingAction::Finish { delete_file: file_id }
                }
            },
        }
    }
}

/// The wait between checks never grows past the larger of the polling
/// interval and `MAX_BACKOFF`: it is the polling interval or at most
/// `MAX_BACKOFF`, whatever the sequence of checks.
pub proof fn law_backoff_bounded(polling_interval: u64, failures: Seq<bool>)
    ensures
        ({
            let w = watch_after(SeedingWatch { polling_interval, backoff: polling_interval }, failures);
            &&& w.polling_interval == polling_interval
            &&& (w.backoff == polling_interval || w.backoff <= MAX_BACKOFF)
        }),
    decreases failures.len(),
{
    if failures.len() > 0 {
        law_backoff_bounded(polling_interval, failures.drop_last());
    }
}

/// A successful check always restores the polling interval as the backoff.
pub proof fn law_backoff_reset(start: SeedingWatch, failures: Seq<bool>)
    requires
        failures.len() > 0,
        !failures.last(),
    ensures
        watch_after(start, failures).backoff == start.polling_interval,
    decreases failures.len(),
{
    lemma_polling_kept(start, failures.drop_last());
}

proof fn lemma_polling_kept(start: SeedingWatch, failures: Seq<bool>)
    ensures
        watch_after(start, failures).polling_interval == start.polling_interval,
    decreases failures.len(),
{
    if failures.len() > 0 {
        lemma_polling_kept(start, failures.drop_last());
    }
}

} // verus!
