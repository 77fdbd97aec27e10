//! Watch-history sync: the shared status (running flag and progress) and the
//! two jobs that drive it, each as a state machine. The caller performs each
//! command (network, database, sleeping) and feeds back what happened.
use vstd::prelude::*;

use crate::models::{opt_view, SyncProgress, SyncResult};
use crate::text::{decimal, owned, push_decimal, push_str};

verus! {

/* ------------------------------- value builders ------------------------------- */

/// `p` has exactly these field values.
pub open spec fn progress_is(
    p: SyncProgress,
    phase: Seq<char>,
    processed: u64,
    total: u64,
    new_count: u64,
    total_retained: u64,
    message: Option<Seq<char>>,
) -> bool {
    &&& p.phase@ == phase
    &&& p.processed == processed
    &&& p.total == total
    &&& p.new_count == new_count
    &&& p.total_retained == total_retained
    &&& opt_view(p.message) == message
}

/// `r` has exactly these field values.
pub open spec fn result_is(
    r: SyncResult,
    status: Seq<char>,
    new_count: u64,
    seen_count: u64,
    total_retained: u64,
    message: Option<Seq<char>>,
) -> bool {
    &&& r.status@ == status
    &&& r.new_count == new_count
    &&& r.seen_count == seen_count
    &&& r.total_retained == total_retained
    &&& opt_view(r.message) == message
}

fn some_text(s: &str) -> (r: Option<String>)
    ensures
        opt_view(r) == Some(s@),
{
    Some(owned(s))
}

fn make_progress(
    phase: &str,
    processed: u64,
    total: u64,
    new_count: u64,
    total_retained: u64,
    message: Option<String>,
) -> (p: SyncProgress)
    ensures
        progress_is(p, phase@, processed, total, new_count, total_retained, opt_view(message)),
{
    SyncProgress { phase: owned(phase), processed, total, new_count, total_retained, message }
}

fn make_result(
    status: &str,
    new_count: u64,
    seen_count: u64,
    total_retained: u64,
    message: Option<String>,
) -> (r: SyncResult)
    ensures
        result_is(r, status@, new_count, seen_count, total_retained, opt_view(message)),
{
    SyncResult { status: owned(status), new_count, seen_count, total_retained, message }
}

fn copy_text(o: &Option<String>) -> (r: Option<String>)
    ensures
        r == *o,
{
    match o {
        Some(s) => Some(s.clone()),
        None => None,
    }
}

fn copy_progress(p: &SyncProgress) -> (r: SyncProgress)
    ensures
        r == *p,
{
    SyncProgress {
        phase: p.phase.clone(),
        processed: p.processed,
        total: p.total,
        new_count: p.new_count,
        total_retained: p.total_retained,
        message: copy_text(&p.message),
    }
}

/* --------------------------------- shared status -------------------------------- */

/// Whether a sync or push is running, and the last progress it reported.
pub struct SyncStatus {
    pub running: bool,
    pub progress: Option<SyncProgress>,
}

impl SyncStatus {
    /// Idle, with no progress reported yet.
    pub fn new() -> (s: SyncStatus)
        ensures
            !s.running,
            s.progress is None,
    {
        SyncStatus { running: false, progress: None }
    }
}

pub fn is_syncing(status: &SyncStatus) -> (r: bool)
    ensures
        r == status.running,
{
    status.running
}

pub fn sync_progress(status: &SyncStatus) -> (r: Option<SyncProgress>)
    ensures
        r == status.progress,
{
    match &status.progress {
        Some(p) => Some(copy_progress(p)),
        None => None,
    }
}

pub fn set_progress(status: &mut SyncStatus, p: SyncProgress)
    ensures
        final(status).running == old(status).running,
        final(status).progress == Some(p),
{
    status.progress = Some(p);
}

/// Publishes each update in turn; the last one stays.
pub fn publish_all(status: &mut SyncStatus, updates: Vec<SyncProgress>)
    ensures
        final(status).running == old(status).running,
        updates@.len() == 0 ==> final(status).progress == old(status).progress,
        updates@.len() > 0 ==> final(status).progress == Some(updates@.last()),
{
    let n = updates.len();
    let ghost all = updates@;
    for p in it: updates
        invariant
            status.running == old(status).running,
            it.seq() == all,
            n == all.len(),
            it.index() == 0 ==> status.progress == old(status).progress,
            it.index() > 0 ==> status.progress == Some(all[it.index() - 1]),
    {
        set_progress(status, p);
    }
}

/// The answer when a job does not start.
pub open spec fn is_skipped(r: SyncResult, message: Seq<char>) -> bool {
    result_is(r, "skipped"@, 0, 0, 0, Some(message))
}

/// Starts a job: refused when not signed in or when another job runs;
/// otherwise marks the status running and publishes `first`.
pub fn begin_job(status: &mut SyncStatus, connected: bool, first: SyncProgress) -> (r: Option<
    SyncResult,
>)
    ensures
        !connected ==> (r matches Some(res) && is_skipped(res, "Not connected"@)) && *final(status)
            == *old(status),
        connected && old(status).running ==> (r matches Some(res) && is_skipped(
            res,
            "Sync already running"@,
        )) && *final(status) == *old(status),
        connected && !old(status).running ==> r is None && final(status).running
            && final(status).progress == Some(first),
{
    if !connected {
        return Some(make_result("skipped", 0, 0, 0, some_text("Not connected")));
    }
    if status.running {
        return Some(make_result("skipped", 0, 0, 0, some_text("Sync already running")));
    }
    status.running = true;
    status.progress = Some(first);
    None
}

/// Ends a job: not running any more, with `last` as the final progress.
pub fn end_job(status: &mut SyncStatus, last: SyncProgress)
    ensures
        !final(status).running,
        final(status).progress == Some(last),
{
    status.running = false;
    status.progress = Some(last);
}

/* ---------------------------- pulling remote history ---------------------------- */

pub open spec fn min_int(a: int, b: int) -> int {
    if a <= b {
        a
    } else {
        b
    }
}

pub open spec fn max_int(a: int, b: int) -> int {
    if a >= b {
        a
    } else {
        b
    }
}

/// Chunk size for bulk video lookups.
pub const CHUNK: usize = 100;

/// The `i`-th chunk of at most 100 ids.
pub open spec fn chunk(ids: Seq<String>, i: int) -> Seq<String> {
    ids.subrange(min_int(100 * i, ids.len() as int), min_int(100 * (i + 1), ids.len() as int))
}

/// Number of chunks that `n` ids make.
pub open spec fn chunk_count(n: nat) -> nat {
    if n == 0 {
        0
    } else {
        ((n - 1) as nat / 100 + 1) as nat
    }
}

/// Chunks `0..k` one after the other.
pub open spec fn chunks_upto(ids: Seq<String>, k: nat) -> Seq<String>
    decreases k,
{
    if k == 0 {
        Seq::empty()
    } else {
        chunks_upto(ids, (k - 1) as nat) + chunk(ids, k - 1)
    }
}

/// The chunks, one after the other, are the whole list again, and none
/// holds more than 100 ids.
pub proof fn lemma_chunks_cover(ids: Seq<String>)
    ensures
        chunks_upto(ids, chunk_count(ids.len())) == ids,
        forall|i: int| 0 <= i ==> #[trigger] chunk(ids, i).len() <= 100,
{
    lemma_chunks_prefix(ids, chunk_count(ids.len()));
    assert(min_int((100 * chunk_count(ids.len())) as int, ids.len() as int) == ids.len());
    assert(ids.subrange(0, ids.len() as int) =~= ids);
}

/// Ids are looked up 100 at a time: every chunk that is not the last holds
/// exactly 100 ids, and there are just enough chunks for all of them.
pub proof fn lemma_chunk_sizes(ids: Seq<String>, i: int)
    ensures
        0 <= i && 100 * (i + 1) <= ids.len() ==> chunk(ids, i).len() == 100,
        ids.len() > 0 ==> 100 * (chunk_count(ids.len()) - 1) < ids.len() <= 100 * chunk_count(
            ids.len(),
        ),
        ids.len() == 0 ==> chunk_count(ids.len()) == 0,
{
    if ids.len() > 0 {
        let m = (ids.len() - 1) as int;
        vstd::arithmetic::div_mod::lemma_fundamental_div_mod(m, 100);
        assert(0 <= m % 100 < 100);
    }
}

proof fn lemma_chunks_prefix(ids: Seq<String>, k: nat)
    ensures
        chunks_upto(ids, k) == ids.subrange(0, min_int((100 * k) as int, ids.len() as int)),
    decreases k,
{
    if k == 0 {
        assert(ids.subrange(0, 0) =~= Seq::<String>::empty());
    } else {
        lemma_chunks_prefix(ids, (k - 1) as nat);
        let a = min_int(100 * (k - 1), ids.len() as int);
        let b = min_int((100 * k) as int, ids.len() as int);
        assert(ids.subrange(0, a) + ids.subrange(a, b) =~= ids.subrange(0, b));
    }
}

pub enum HistoryPhase {
    /// Waiting for the remote history.
    Fetching,
    /// Waiting for the ids that are not cached locally.
    Listing,
    /// Waiting for the current chunk to be fetched and cached.
    Hydrating,
    /// Waiting for the entry at `processed` to be saved.
    Saving,
    Done,
}

pub enum HistoryEvent {
    Fetched { total: u64, total_retained: u64 },
    FetchFailed { message: String },
    Listed { uncached: Vec<String> },
    ChunkCached,
    EntrySaved { cached: bool, inserted: bool },
}

pub enum HistoryCommand {
    /// Fetch the account's remote watch history.
    FetchRemote,
    /// Report which fetched video ids have no cached summary.
    ListUncached,
    /// Fetch these videos in bulk and cache them.
    FetchChunk { ids: Vec<String> },
    /// Save the remote entry at this index (if its video is cached).
    SaveEntry { index: u64 },
    /// Write the sync log and hand back this result.
    Finish { result: SyncResult },
}

pub struct HistoryStep {
    /// Progress to publish, in order.
    pub updates: Vec<SyncProgress>,
    pub command: HistoryCommand,
}

/// A running pull of the remote watch history into the local library.
pub struct HistorySync {
    pub phase: HistoryPhase,
    pub total: u64,
    pub total_retained: u64,
    pub uncached: Vec<String>,
    pub next_chunk: usize,
    pub processed: u64,
    pub new_count: u64,
    pub seen_count: u64,
}

pub open spec fn fetching_msg() -> Seq<char> {
    "Fetching history from PMVHaven…"@
}

pub open spec fn loading_msg() -> Seq<char> {
    "Loading video details…"@
}

pub open spec fn saving_msg() -> Seq<char> {
    "Saving to library…"@
}

impl HistorySync {
    pub open spec fn wf(&self) -> bool {
        &&& self.new_count + self.seen_count <= self.processed <= self.total
        &&& (self.phase is Fetching || self.phase is Listing) ==> self.processed == 0
            && self.uncached@.len() == 0
        &&& self.phase is Fetching ==> self.total == 0
        &&& (self.phase is Listing || self.phase is Hydrating) ==> self.total > 0
        &&& self.phase is Hydrating ==> self.processed == 0 && 100 * self.next_chunk
            < self.uncached@.len()
        &&& self.phase is Saving ==> self.processed < self.total
        &&& self.phase is Done ==> self.processed == self.total
    }

    /// How far the pull is from its end: the phase first (fetching,
    /// listing, hydrating, saving, done), then the work left in it.
    pub open spec fn rank(&self) -> nat {
        match self.phase {
            HistoryPhase::Fetching => 4,
            HistoryPhase::Listing => 3,
            HistoryPhase::Hydrating => 2,
            HistoryPhase::Saving => 1,
            HistoryPhase::Done => 0,
        }
    }

    pub open spec fn work(&self) -> nat {
        match self.phase {
            HistoryPhase::Hydrating => (chunk_count(self.uncached@.len()) - self.next_chunk) as nat,
            HistoryPhase::Saving => (self.total - self.processed) as nat,
            _ => 0,
        }
    }

    /// `self` is strictly closer to the end than `before`.
    pub open spec fn closer_than(&self, before: HistorySync) -> bool {
        self.rank() < before.rank() || (self.rank() == before.rank() && self.work() < before.work())
    }

    /// The event answers the command last handed out.
    pub open spec fn expects(&self, ev: HistoryEvent) -> bool {
        match self.phase {
            HistoryPhase::Fetching => ev is Fetched || ev is FetchFailed,
            HistoryPhase::Listing => ev is Listed,
            HistoryPhase::Hydrating => ev is ChunkCached,
            HistoryPhase::Saving => ev is EntrySaved,
            HistoryPhase::Done => false,
        }
    }

    /// A new pull: publish "fetching", then fetch the remote history.
    pub fn start() -> (r: (HistorySync, HistoryStep))
        ensures
            pull_started(r.0, r.1),
    {
        let s = HistorySync {
            phase: HistoryPhase::Fetching,
            total: 0,
            total_retained: 0,
            uncached: Vec::new(),
            next_chunk: 0,
            processed: 0,
            new_count: 0,
            seen_count: 0,
        };
        let mut updates = Vec::new();
        updates.push(
            make_progress("fetching", 0, 0, 0, 0, some_text("Fetching history from PMVHaven…")),
        );
        (s, HistoryStep { updates, command: HistoryCommand::FetchRemote })
    }

    fn chunk_ids(&self, i: usize) -> (r: Vec<String>)
        requires
            100 * i < self.uncached@.len(),
        ensures
            r@ == chunk(self.uncached@, i as int),
    {
        let len = self.uncached.len();
        let lo = 100 * i;
        let hi = if i + 1 > len / 100 {
            len
        } else {
            100 * (i + 1)
        };
        let mut out: Vec<String> = Vec::new();
        let mut k = lo;
        while k < hi
            invariant
                lo <= k <= hi <= len == self.uncached@.len(),
                out@ == self.uncached@.subrange(lo as int, k as int),
            decreases hi - k,
        {
            out.push(self.uncached[k].clone());
            k += 1;
            assert(out@ =~= self.uncached@.subrange(lo as int, k as int));
        }
        out
    }

    /// Hydration progress after chunk `i` is cached.
    pub open spec fn hydrated_after(&self, i: int) -> u64 {
        min_int(100 * (i + 1), self.uncached@.len() as int) as u64
    }

    /// Feeds back the outcome of the last command.
    pub fn step(&mut self, ev: HistoryEvent) -> (r: HistoryStep)
        requires
            old(self).wf(),
            old(self).expects(ev),
        ensures
            pull_moves(*old(self), ev, *final(self), r),
    {
        let mut updates: Vec<SyncProgress> = Vec::new();
        match ev {
            HistoryEvent::FetchFailed { message } => {
                self.phase = HistoryPhase::Done;
                updates.push(make_progress("done", 0, 0, 0, 0, Some(message.clone())));
                let result = make_result("error", 0, 0, 0, Some(message));
                HistoryStep { updates, command: HistoryCommand::Finish { result } }
            },
            HistoryEvent::Fetched { total, total_retained } => {
                self.total_retained = total_retained;
                updates.push(
                    make_progress(
                        "fetching",
                        0,
                        total,
                        0,
                        total_retained,
                        some_text("Fetching history from PMVHaven…"),
                    ),
                );
                if total == 0 {
                    self.phase = HistoryPhase::Done;
                    updates.push(make_progress("done", 0, 0, 0, total_retained, None));
                    let result = make_result("ok", 0, 0, total_retained, None);
                    HistoryStep { updates, command: HistoryCommand::Finish { result } }
                } else {
                    self.total = total;
                    self.phase = HistoryPhase::Listing;
                    updates.push(
                        make_progress(
                            "hydrating",
                            0,
                            total,
                            0,
                            total_retained,
                            some_text("Loading video details…"),
                        ),
                    );
                    HistoryStep { updates, command: HistoryCommand::ListUncached }
                }
            },
            HistoryEvent::Listed { uncached } => {
                self.uncached = uncached;
                if self.uncached.len() == 0 {
                    self.phase = HistoryPhase::Saving;
                    updates.push(
                        make_progress(
                            "saving",
                            0,
                            self.total,
                            0,
                            self.total_retained,
                            some_text("Saving to library…"),
                        ),
                    );
                    HistoryStep { updates, command: HistoryCommand::SaveEntry { index: 0 } }
                } else {
                    self.phase = HistoryPhase::Hydrating;
                    self.next_chunk = 0;
                    let ids = self.chunk_ids(0);
                    HistoryStep { updates, command: HistoryCommand::FetchChunk { ids } }
                }
            },
            HistoryEvent::ChunkCached => {
                let i = self.next_chunk;
                let len = self.uncached.len();
                let done_count: usize = if i + 1 > len / 100 {
                    len
                } else {
                    100 * (i + 1)
                };
                let shown_total: u64 = if self.total >= len as u64 {
                    self.total
                } else {
                    len as u64
                };
                updates.push(
                    make_progress(
                        "hydrating",
                        done_count as u64,
                        shown_total,
                        0,
                        self.total_retained,
                        some_text("Loading video details…"),
                    ),
                );
                if i + 1 <= len / 100 && 100 * (i + 1) < len {
                    self.next_chunk = i + 1;
                    let ids = self.chunk_ids(i + 1);
                    HistoryStep { updates, command: HistoryCommand::FetchChunk { ids } }
                } else {
                    self.phase = HistoryPhase::Saving;
                    updates.push(
                        make_progress(
                            "saving",
                            0,
                            self.total,
                            0,
                            self.total_retained,
                            some_text("Saving to library…"),
                        ),
                    );
                    HistoryStep { updates, command: HistoryCommand::SaveEntry { index: 0 } }
                }
            },
            HistoryEvent::EntrySaved { cached, inserted } => {
                if cached {
                    if inserted {
                        self.new_count = self.new_count + 1;
                    } else {
                        self.seen_count = self.seen_count + 1;
                    }
                }
                self.processed = self.processed + 1;
                if self.processed < self.total {
                    HistoryStep {
                        updates,
                        command: HistoryCommand::SaveEntry { index: self.processed },
                    }
                } else {
                    self.phase = HistoryPhase::Done;
                    updates.push(
                        make_progress(
                            "done",
                            self.processed,
                            self.total,
                            self.new_count,
                            self.total_retained,
                            None,
                        ),
                    );
                    let result = make_result(
                        "ok",
                        self.new_count,
                        self.seen_count,
                        self.total_retained,
                        None,
                    );
                    HistoryStep { updates, command: HistoryCommand::Finish { result } }
                }
            },
        }
    }
}

/* ------------------------------ pushing local history ----------------------------- */

/// What `HistorySync::start` hands back: publish "fetching", then fetch the
/// remote history.
pub open spec fn pull_started(s: HistorySync, out: HistoryStep) -> bool {
    &&& s.wf()
    &&& s.phase is Fetching
    &&& s.new_count == 0 && s.seen_count == 0
    &&& out.updates@.len() == 1
    &&& progress_is(out.updates@[0], "fetching"@, 0, 0, 0, 0, Some(fetching_msg()))
    &&& out.command is FetchRemote
}

/// One step of a pull: from `before`, on event `ev`, to `after`, handing out
/// `out`.
pub open spec fn pull_moves(before: HistorySync, ev: HistoryEvent, after: HistorySync, out: HistoryStep) -> bool {
    &&& after.wf()
    &&& after.total_retained == (match ev {
        HistoryEvent::Fetched { total_retained, .. } => total_retained,
        _ => before.total_retained,
    })
    &&& before.processed <= after.processed
    &&& before.new_count <= after.new_count
    &&& before.seen_count <= after.seen_count
    // every step brings the pull closer to its end, so every run ends,
    // and the end is reached exactly when the result is handed back
    &&& after.closer_than(before)
    // the ids to hydrate are set once, when listed; an entry is counted only
    // when it is saved
    &&& !(ev is Listed) ==> after.uncached@ == before.uncached@
    &&& !(ev is EntrySaved) ==> after.processed == before.processed
    &&& (out.command is Finish) == (after.phase is Done)
    // a failed fetch ends the pull with an error
    &&& ev matches HistoryEvent::FetchFailed { message } ==> {
        &&& after.phase is Done
        &&& out.updates@.len() == 1
        &&& progress_is(out.updates@[0], "done"@, 0, 0, 0, 0, Some(message@))
        &&& out.command matches HistoryCommand::Finish { result } && result_is(
            result,
            "error"@,
            0,
            0,
            0,
            Some(message@),
        )
    }
    // an empty remote history ends the pull at once
    &&& ev matches HistoryEvent::Fetched { total, total_retained } ==> total == 0 ==> {
        &&& after.phase is Done
        &&& out.updates@.len() == 2
        &&& progress_is(
            out.updates@[0],
            "fetching"@,
            0,
            0,
            0,
            total_retained,
            Some(fetching_msg()),
        )
        &&& progress_is(out.updates@[1], "done"@, 0, 0, 0, total_retained, None)
        &&& out.command matches HistoryCommand::Finish { result } && result_is(
            result,
            "ok"@,
            0,
            0,
            total_retained,
            None,
        )
    }
    // otherwise list the ids that still need their details
    &&& ev matches HistoryEvent::Fetched { total, total_retained } ==> total > 0 ==> {
        &&& after.phase is Listing
        &&& after.total == total
        &&& out.updates@.len() == 2
        &&& progress_is(
            out.updates@[0],
            "fetching"@,
            0,
            total,
            0,
            total_retained,
            Some(fetching_msg()),
        )
        &&& progress_is(
            out.updates@[1],
            "hydrating"@,
            0,
            total,
            0,
            total_retained,
            Some(loading_msg()),
        )
        &&& out.command is ListUncached
    }
    // nothing to hydrate: start saving; else fetch the first chunk
    &&& ev matches HistoryEvent::Listed { uncached } ==> {
        &&& after.uncached@ == uncached@
        &&& after.total == before.total
        &&& uncached@.len() == 0 ==> {
            &&& after.phase is Saving
            &&& out.updates@.len() == 1
            &&& progress_is(
                out.updates@[0],
                "saving"@,
                0,
                before.total,
                0,
                before.total_retained,
                Some(saving_msg()),
            )
            &&& out.command matches HistoryCommand::SaveEntry { index } && index == 0
        }
        &&& uncached@.len() > 0 ==> {
            &&& after.phase is Hydrating
            &&& after.next_chunk == 0
            &&& out.updates@.len() == 0
            &&& out.command matches HistoryCommand::FetchChunk { ids } && ids@ == chunk(
                uncached@,
                0,
            )
        }
    }
    // a chunk is cached: report it, then the next chunk or start saving
    &&& ev is ChunkCached ==> {
        let i = before.next_chunk as int;
        let n = before.uncached@.len() as int;
        &&& after.uncached@ == before.uncached@
        &&& after.total == before.total
        &&& out.updates@.len() >= 1
        &&& progress_is(
            out.updates@[0],
            "hydrating"@,
            before.hydrated_after(i),
            max_int(before.total as int, n) as u64,
            0,
            before.total_retained,
            Some(loading_msg()),
        )
        &&& 100 * (i + 1) < n ==> {
            &&& after.phase is Hydrating
            &&& after.next_chunk == i + 1
            &&& out.updates@.len() == 1
            &&& out.command matches HistoryCommand::FetchChunk { ids } && ids@ == chunk(
                before.uncached@,
                i + 1,
            )
        }
        &&& 100 * (i + 1) >= n ==> {
            &&& after.phase is Saving
            &&& out.updates@.len() == 2
            &&& progress_is(
                out.updates@[1],
                "saving"@,
                0,
                before.total,
                0,
                before.total_retained,
                Some(saving_msg()),
            )
            &&& out.command matches HistoryCommand::SaveEntry { index } && index == 0
        }
    }
    // an entry is handled: count it, then the next entry or finish
    &&& ev matches HistoryEvent::EntrySaved { cached, inserted } ==> {
        let p = (before.processed + 1) as u64;
        let nw = (before.new_count + if cached && inserted {
            1int
        } else {
            0int
        }) as u64;
        let sn = (before.seen_count + if cached && !inserted {
            1int
        } else {
            0int
        }) as u64;
        &&& after.processed == p
        &&& after.new_count == nw
        &&& after.seen_count == sn
        &&& after.total == before.total
        &&& p < before.total ==> {
            &&& after.phase is Saving
            &&& out.updates@.len() == 0
            &&& out.command matches HistoryCommand::SaveEntry { index } && index == p
        }
        &&& p == before.total ==> {
            &&& after.phase is Done
            &&& out.updates@.len() == 1
            &&& progress_is(
                out.updates@[0],
                "done"@,
                p,
                before.total,
                nw,
                before.total_retained,
                None,
            )
            &&& out.command matches HistoryCommand::Finish { result } && result_is(
                result,
                "ok"@,
                nw,
                sn,
                before.total_retained,
                None,
            )
        }
    }
}

pub enum PushPhase {
    /// Waiting for the progress push of entry `index`.
    Pushing,
    /// Waiting for the view of entry `index` to be recorded.
    Recording,
    /// Waiting for the short pause after a progress report.
    Pausing,
    Done,
}

pub enum PushEvent {
    Pushed { ok: bool },
    ViewRecorded,
    Paused,
}

pub enum PushCommand {
    /// Push the watch progress of the local entry at this index.
    Push { index: u64 },
    /// Record a remote view of the entry at this index.
    RecordView { index: u64 },
    /// Sleep briefly (40 ms) before going on.
    Pause,
    /// End the job and hand back this result.
    Finish { result: SyncResult },
}

pub struct PushStep {
    pub updates: Vec<SyncProgress>,
    pub command: PushCommand,
}

/// A running upload of the local history, one entry after another.
pub struct HistoryPush {
    pub phase: PushPhase,
    pub count: u64,
    pub total: u64,
    pub index: u64,
    pub pushed: u64,
    pub failed: u64,
}

/// "Pushed {n}…"
pub open spec fn pushed_so_far_msg(n: u64) -> Seq<char> {
    "Pushed "@ + decimal(n as nat) + "…"@
}

/// "Pushed {p}, failed {f}"
pub open spec fn push_summary_msg(p: u64, f: u64) -> Seq<char> {
    "Pushed "@ + decimal(p as nat) + ", failed "@ + decimal(f as nat)
}

/// The result a finished push reports.
pub open spec fn push_result_is(r: SyncResult, pushed: u64, failed: u64, total: u64) -> bool {
    result_is(
        r,
        if failed == 0 {
            "ok"@
        } else {
            "partial"@
        },
        pushed,
        failed,
        total,
        Some(push_summary_msg(pushed, failed)),
    )
}

fn pushed_so_far(n: u64) -> (r: String)
    ensures
        r@ == pushed_so_far_msg(n),
{
    let mut s = owned("Pushed ");
    push_decimal(&mut s, n);
    push_str(&mut s, "…");
    s
}

fn push_summary(p: u64, f: u64) -> (r: String)
    ensures
        r@ == push_summary_msg(p, f),
{
    let mut s = owned("Pushed ");
    push_decimal(&mut s, p);
    push_str(&mut s, ", failed ");
    push_decimal(&mut s, f);
    s
}

/// The duration sent with a progress push: at least one second.
pub fn push_duration(duration_seconds: u32) -> (r: u32)
    ensures
        r == if duration_seconds >= 1 {
            duration_seconds
        } else {
            1
        },
{
    if duration_seconds >= 1 {
        duration_seconds
    } else {
        1
    }
}

impl HistoryPush {
    pub open spec fn wf(&self) -> bool {
        &&& self.pushed + self.failed == if self.phase is Pushing {
            self.index as int
        } else if self.phase is Done {
            self.count as int
        } else {
            self.index + 1
        }
        &&& self.phase is Recording ==> self.pushed >= 1
        &&& !(self.phase is Done) ==> self.index < self.count
        &&& self.count <= self.total
    }

    /// How far the push is from its end: three steps per entry left
    /// (push, record, pause), fewer once the current entry is under way.
    pub open spec fn remaining(&self) -> nat {
        match self.phase {
            PushPhase::Pushing => (3 * (self.count - self.index)) as nat,
            PushPhase::Recording => (3 * (self.count - self.index) - 1) as nat,
            PushPhase::Pausing => (3 * (self.count - self.index) - 2) as nat,
            PushPhase::Done => 0,
        }
    }

    pub open spec fn expects(&self, ev: PushEvent) -> bool {
        match self.phase {
            PushPhase::Pushing => ev is Pushed,
            PushPhase::Recording => ev is ViewRecorded,
            PushPhase::Pausing => ev is Paused,
            PushPhase::Done => false,
        }
    }

    /// The report shown after entry `i`, and the final report and result.
    pub open spec fn report_after(&self, p: SyncProgress) -> bool {
        progress_is(
            p,
            "pushing"@,
            (self.index + 1) as u64,
            self.total,
            self.pushed,
            self.total,
            Some(pushed_so_far_msg(self.pushed)),
        )
    }

    pub open spec fn finished(&self, step: PushStep) -> bool {
        &&& self.phase is Done
        &&& step.updates@.len() == 1
        &&& progress_is(
            step.updates@[0],
            "done"@,
            self.count,
            self.total,
            self.pushed,
            self.total,
            None,
        )
        &&& step.command matches PushCommand::Finish { result } && push_result_is(
            result,
            self.pushed,
            self.failed,
            self.total,
        )
    }

    /// A new push of `count` local entries, out of `total` in the library
    /// (the count shown is the larger of the two).
    pub fn start(count: u64, total: u64) -> (r: (HistoryPush, PushStep))
        ensures
            push_started(count, total, r.0, r.1),
    {
        let shown = if total >= count {
            total
        } else {
            count
        };
        let mut s = HistoryPush {
            phase: PushPhase::Pushing,
            count,
            total: shown,
            index: 0,
            pushed: 0,
            failed: 0,
        };
        if count == 0 {
            s.phase = PushPhase::Done;
            let step = s.finish();
            (s, step)
        } else {
            (s, PushStep { updates: Vec::new(), command: PushCommand::Push { index: 0 } })
        }
    }

    fn finish(&self) -> (r: PushStep)
        requires
            self.phase is Done,
        ensures
            self.finished(r),
    {
        let mut updates = Vec::new();
        updates.push(make_progress("done", self.count, self.total, self.pushed, self.total, None));
        let status = if self.failed == 0 {
            "ok"
        } else {
            "partial"
        };
        let result = make_result(
            status,
            self.pushed,
            self.failed,
            self.total,
            Some(push_summary(self.pushed, self.failed)),
        );
        PushStep { updates, command: PushCommand::Finish { result } }
    }

    /// Moves past entry `index`: the next push, or the end.
    fn advance(&mut self) -> (r: PushStep)
        requires
            old(self).wf(),
            old(self).phase is Pausing,
        ensures
            final(self).wf(),
            final(self).pushed == old(self).pushed,
            final(self).failed == old(self).failed,
            final(self).count == old(self).count,
            final(self).total == old(self).total,
            old(self).index + 1 < old(self).count ==> final(self).phase is Pushing
                && final(self).index == old(self).index + 1 && r.updates@.len() == 0
                && (r.command matches PushCommand::Push { index } && index == old(self).index + 1),
            old(self).index + 1 >= old(self).count ==> final(self).finished(r),
    {
        if self.index + 1 < self.count {
            self.index = self.index + 1;
            self.phase = PushPhase::Pushing;
            PushStep { updates: Vec::new(), command: PushCommand::Push { index: self.index } }
        } else {
            self.phase = PushPhase::Done;
            self.finish()
        }
    }

    /// After entry `index` is handled: report and pause every fifth entry
    /// (0, 5, 10, ...), then move on.
    fn after_entry(&mut self) -> (r: PushStep)
        requires
            old(self).wf(),
            old(self).phase is Pausing,
        ensures
            final(self).wf(),
            final(self).pushed == old(self).pushed,
            final(self).failed == old(self).failed,
            final(self).count == old(self).count,
            final(self).total == old(self).total,
            old(self).index % 5 == 0 ==> final(self).phase is Pausing && final(self).index
                == old(self).index && r.updates@.len() == 1 && old(self).report_after(
                r.updates@[0],
            ) && r.command is Pause,
            old(self).index % 5 != 0 && old(self).index + 1 < old(self).count
                ==> final(self).phase is Pushing && final(self).index == old(self).index + 1
                && r.updates@.len() == 0 && (r.command matches PushCommand::Push { index }
                && index == old(self).index + 1),
            old(self).index % 5 != 0 && old(self).index + 1 >= old(self).count
                ==> final(self).finished(r),
    {
        if self.index % 5 == 0 {
            let mut updates = Vec::new();
            updates.push(
                make_progress(
                    "pushing",
                    self.index + 1,
                    self.total,
                    self.pushed,
                    self.total,
                    Some(pushed_so_far(self.pushed)),
                ),
            );
            PushStep { updates, command: PushCommand::Pause }
        } else {
            self.advance()
        }
    }

    /// Feeds back the outcome of the last command.
    pub fn step(&mut self, ev: PushEvent) -> (r: PushStep)
        requires
            old(self).wf(),
            old(self).expects(ev),
        ensures
            push_moves(*old(self), ev, *final(self), r),
    {
        match ev {
            PushEvent::Pushed { ok } => {
                if ok {
                    self.pushed = self.pushed + 1;
                    self.phase = PushPhase::Recording;
                    PushStep {
                        updates: Vec::new(),
                        command: PushCommand::RecordView { index: self.index },
                    }
                } else {
                    self.failed = self.failed + 1;
                    self.phase = PushPhase::Pausing;
                    self.after_entry()
                }
            },
            PushEvent::ViewRecorded => {
                self.phase = PushPhase::Pausing;
                self.after_entry()
            },
            PushEvent::Paused => { self.advance() },
        }
    }
}

/// What `HistoryPush::start` hands back for `count` entries out of `total`.
pub open spec fn push_started(count: u64, total: u64, s: HistoryPush, out: PushStep) -> bool {
    &&& s.wf()
    &&& s.count == count
    &&& s.total == if total >= count {
        total
    } else {
        count
    }
    &&& s.pushed == 0 && s.failed == 0
    &&& count > 0 ==> s.phase is Pushing && s.index == 0 && out.updates@.len() == 0 && (
    out.command matches PushCommand::Push { index } && index == 0)
    &&& count == 0 ==> s.finished(out)
}

/// One step of a push: from `before`, on event `ev`, to `after`, handing out
/// `out`.
pub open spec fn push_moves(before: HistoryPush, ev: PushEvent, after: HistoryPush, out: PushStep) -> bool {
    &&& after.wf()
    &&& after.count == before.count
    &&& after.total == before.total
    // every step brings the push closer to its end, so every run ends,
    // and the end is reached exactly when the result is handed back
    &&& after.remaining() < before.remaining()
    &&& (out.command is Finish) == (after.phase is Done)
    // a successful push records a view of the same entry
    &&& ev matches PushEvent::Pushed { ok } ==> ok ==> {
        &&& after.pushed == before.pushed + 1
        &&& after.failed == before.failed
        &&& after.phase is Recording
        &&& after.index == before.index
        &&& out.updates@.len() == 0
        &&& out.command matches PushCommand::RecordView { index } && index == before.index
    }
    &&& ev matches PushEvent::Pushed { ok } ==> !ok ==> after.failed == before.failed + 1
        && after.pushed == before.pushed
    // otherwise the entry is done with: report and pause after every fifth
    // entry (0, 5, 10, ...), then go on to the next entry or finish
    &&& !(ev matches PushEvent::Pushed { ok } && ok) ==> ({
        let handled = HistoryPush { phase: PushPhase::Pausing, failed: after.failed, ..before };
        &&& after.pushed == before.pushed
        &&& ev is Paused ==> after.failed == before.failed
        &&& ev is ViewRecorded ==> after.failed == before.failed
        &&& (ev is Paused || handled.index % 5 != 0) ==> (if handled.index + 1 < handled.count {
            &&& after.phase is Pushing
            &&& after.index == handled.index + 1
            &&& out.updates@.len() == 0
            &&& out.command matches PushCommand::Push { index } && index == handled.index + 1
        } else {
            after.finished(out)
        })
        &&& !(ev is Paused) && handled.index % 5 == 0 ==> {
            &&& after.phase is Pausing
            &&& after.index == handled.index
            &&& out.updates@.len() == 1
            &&& handled.report_after(out.updates@[0])
            &&& out.command is Pause
        }
    })
}

/// The indices of the entries a run of steps asked to push, in order.
pub open spec fn pushed_indices(outs: Seq<PushStep>) -> Seq<u64>
    decreases outs.len(),
{
    if outs.len() == 0 {
        Seq::empty()
    } else {
        let before = pushed_indices(outs.drop_last());
        match outs.last().command {
            PushCommand::Push { index } => before.push(index),
            _ => before,
        }
    }
}

/// How many entries a push in state `s` has asked for so far.
pub open spec fn push_asked(s: HistoryPush) -> nat {
    if s.phase is Done {
        s.count as nat
    } else {
        (s.index + 1) as nat
    }
}

/// `0, 1, ..., n - 1`.
pub open spec fn first_indices(n: nat) -> Seq<u64> {
    Seq::new(n, |j: int| j as u64)
}

/// A run of a push: the state and step `start` handed back, then each event
/// answered the command before it and each step followed from the last state.
pub open spec fn push_run(
    count: u64,
    total: u64,
    states: Seq<HistoryPush>,
    events: Seq<PushEvent>,
    outs: Seq<PushStep>,
) -> bool {
    &&& states.len() == outs.len() == events.len() + 1
    &&& push_started(count, total, states[0], outs[0])
    &&& forall|i: int| 0 <= i < events.len() ==> #[trigger] push_link(states, events, outs, i)
}

/// Step `i` of a run: event `i` answers state `i`, which it moves to state
/// `i + 1` while handing out step `i + 1`.
pub open spec fn push_link(
    states: Seq<HistoryPush>,
    events: Seq<PushEvent>,
    outs: Seq<PushStep>,
    i: int,
) -> bool {
    states[i].expects(events[i]) && push_moves(states[i], events[i], states[i + 1], outs[i + 1])
}

proof fn lemma_push_prefix(
    count: u64,
    total: u64,
    states: Seq<HistoryPush>,
    events: Seq<PushEvent>,
    outs: Seq<PushStep>,
    n: int,
)
    requires
        push_run(count, total, states, events, outs),
        0 <= n < states.len(),
    ensures
        states[n].wf(),
        states[n].count == count,
        pushed_indices(outs.take(n + 1)) == first_indices(push_asked(states[n])),
        states[n].remaining() + n <= 3 * count,
    decreases n,
{
    if n == 0 {
        let t = outs.take(1);
        assert(t.drop_last() =~= Seq::<PushStep>::empty());
        assert(t.last() == outs[0]);
        assert(pushed_indices(t.drop_last()) =~= Seq::<u64>::empty());
        if count > 0 {
            assert(outs[0].command matches PushCommand::Push { index } && index == 0);
            assert(first_indices(1) =~= seq![0u64]);
            assert(pushed_indices(t) =~= seq![0u64]);
        } else {
            assert(first_indices(0) =~= Seq::<u64>::empty());
        }
    } else {
        lemma_push_prefix(count, total, states, events, outs, n - 1);
        let a = states[n - 1];
        let b = states[n];
        let ev = events[n - 1];
        assert(push_link(states, events, outs, n - 1));
        assert(a.expects(ev) && push_moves(a, ev, b, outs[n]));
        let t = outs.take(n + 1);
        assert(t.drop_last() =~= outs.take(n));
        assert(t.last() == outs[n]);
        if b.phase is Pushing {
            assert(b.index == a.index + 1);
            assert(outs[n].command matches PushCommand::Push { index } && index == b.index);
            assert(first_indices(push_asked(b)) =~= first_indices(push_asked(a)).push(b.index));
        } else {
            assert(!(outs[n].command is Push));
            if b.phase is Done {
                assert(a.index + 1 == count);
            }
            assert(push_asked(b) == push_asked(a));
        }
    }
}

/// Over any run of a push, the entries are asked for one after another,
/// each once: the indices handed out so far are 0, 1, 2, ... . A run lasts at
/// most three steps per entry; once it ends, the indices were exactly
/// `0..count` and every entry was counted once, as pushed or failed.
pub proof fn lemma_push_run(
    count: u64,
    total: u64,
    states: Seq<HistoryPush>,
    events: Seq<PushEvent>,
    outs: Seq<PushStep>,
)
    requires
        push_run(count, total, states, events, outs),
    ensures
        forall|n: int|
            0 <= n < states.len() ==> pushed_indices(#[trigger] outs.take(n + 1))
                == first_indices(push_asked(states[n])),
        events.len() <= 3 * count,
        states.last().phase is Done ==> pushed_indices(outs) == first_indices(count as nat)
            && states.last().pushed + states.last().failed == count,
{
    assert forall|n: int| 0 <= n < states.len() implies pushed_indices(#[trigger] outs.take(n + 1))
        == first_indices(push_asked(states[n])) by {
        lemma_push_prefix(count, total, states, events, outs, n);
    }
    let last = states.len() - 1;
    lemma_push_prefix(count, total, states, events, outs, last);
    assert(outs.take(last + 1) =~= outs);
}

/// The indices of the remote entries a run of steps asked to save, in order.
pub open spec fn saved_indices(outs: Seq<HistoryStep>) -> Seq<u64>
    decreases outs.len(),
{
    if outs.len() == 0 {
        Seq::empty()
    } else {
        let before = saved_indices(outs.drop_last());
        match outs.last().command {
            HistoryCommand::SaveEntry { index } => before.push(index),
            _ => before,
        }
    }
}

/// The ids a run of steps asked to fetch and cache, chunk after chunk.
pub open spec fn fetched_ids(outs: Seq<HistoryStep>) -> Seq<String>
    decreases outs.len(),
{
    if outs.len() == 0 {
        Seq::empty()
    } else {
        let before = fetched_ids(outs.drop_last());
        match outs.last().command {
            HistoryCommand::FetchChunk { ids } => before + ids@,
            _ => before,
        }
    }
}

/// How many entries a pull in state `s` has asked to save so far.
pub open spec fn save_asked(s: HistorySync) -> nat {
    if s.phase is Saving {
        (s.processed + 1) as nat
    } else {
        s.processed as nat
    }
}

/// How many chunks of ids a pull in state `s` has asked to fetch so far.
pub open spec fn chunks_asked(s: HistorySync) -> nat {
    match s.phase {
        HistoryPhase::Hydrating => (s.next_chunk + 1) as nat,
        HistoryPhase::Saving | HistoryPhase::Done => chunk_count(s.uncached@.len()),
        _ => 0,
    }
}

/// A run of a pull: the state and step `start` handed back, then each event
/// answered the command before it and each step followed from the last state.
pub open spec fn pull_run(
    states: Seq<HistorySync>,
    events: Seq<HistoryEvent>,
    outs: Seq<HistoryStep>,
) -> bool {
    &&& states.len() == outs.len() == events.len() + 1
    &&& pull_started(states[0], outs[0])
    &&& forall|i: int| 0 <= i < events.len() ==> #[trigger] pull_link(states, events, outs, i)
}

/// Step `i` of a run: event `i` answers state `i`, which it moves to state
/// `i + 1` while handing out step `i + 1`.
pub open spec fn pull_link(
    states: Seq<HistorySync>,
    events: Seq<HistoryEvent>,
    outs: Seq<HistoryStep>,
    i: int,
) -> bool {
    states[i].expects(events[i]) && pull_moves(states[i], events[i], states[i + 1], outs[i + 1])
}

proof fn lemma_last_chunk(n: nat, i: nat)
    requires
        100 * i < n <= 100 * (i + 1),
    ensures
        chunk_count(n) == i + 1,
{
    let m = (n - 1) as nat;
    assert(m / 100 == i) by (nonlinear_arith)
        requires
            100 * i <= m < 100 * (i + 1),
    ;
}

proof fn lemma_pull_prefix(
    states: Seq<HistorySync>,
    events: Seq<HistoryEvent>,
    outs: Seq<HistoryStep>,
    n: int,
)
    requires
        pull_run(states, events, outs),
        0 <= n < states.len(),
    ensures
        states[n].wf(),
        saved_indices(outs.take(n + 1)) == first_indices(save_asked(states[n])),
        fetched_ids(outs.take(n + 1)) == chunks_upto(states[n].uncached@, chunks_asked(states[n])),
    decreases n,
{
    if n == 0 {
        let t = outs.take(1);
        assert(t.drop_last() =~= Seq::<HistoryStep>::empty());
        assert(t.last() == outs[0]);
        assert(saved_indices(t.drop_last()) =~= Seq::<u64>::empty());
        assert(fetched_ids(t.drop_last()) =~= Seq::<String>::empty());
        assert(first_indices(0) =~= Seq::<u64>::empty());
    } else {
        lemma_pull_prefix(states, events, outs, n - 1);
        let a = states[n - 1];
        let b = states[n];
        let ev = events[n - 1];
        let out = outs[n];
        assert(pull_link(states, events, outs, n - 1));
        assert(a.expects(ev) && pull_moves(a, ev, b, out));
        let t = outs.take(n + 1);
        assert(t.drop_last() =~= outs.take(n));
        assert(t.last() == out);
        let before_ids = fetched_ids(outs.take(n));
        match ev {
            HistoryEvent::Listed { uncached } => {
                assert(chunks_upto(a.uncached@, 0) =~= Seq::<String>::empty());
                if uncached@.len() == 0 {
                    assert(first_indices(1) =~= first_indices(0).push(0));
                } else {
                    assert(chunks_upto(b.uncached@, 1) =~= chunks_upto(b.uncached@, 0) + chunk(
                        b.uncached@,
                        0,
                    ));
                    assert(chunks_upto(b.uncached@, 0) =~= Seq::<String>::empty());
                    assert(fetched_ids(t) =~= before_ids + chunk(b.uncached@, 0));
                }
            },
            HistoryEvent::ChunkCached => {
                let i = a.next_chunk as int;
                let len = a.uncached@.len();
                if 100 * (i + 1) < len {
                    assert(fetched_ids(t) =~= before_ids + chunk(a.uncached@, i + 1));
                } else {
                    lemma_last_chunk(len, i as nat);
                    assert(first_indices(1) =~= first_indices(0).push(0));
                }
            },
            HistoryEvent::EntrySaved { .. } => {
                if b.phase is Saving {
                    assert(first_indices(save_asked(b)) =~= first_indices(save_asked(a)).push(
                        b.processed,
                    ));
                }
            },
            _ => {},
        }
    }
}

/// Over any run of a pull, the remote entries are asked to be saved one
/// after another, each once (indices 0, 1, 2, ...), and the ids without
/// cached details are fetched chunk after chunk, each chunk once. Once the
/// run ends, the saved indices were exactly `0..total` and the fetched ids
/// exactly the listed ones.
pub proof fn lemma_pull_run(
    states: Seq<HistorySync>,
    events: Seq<HistoryEvent>,
    outs: Seq<HistoryStep>,
)
    requires
        pull_run(states, events, outs),
    ensures
        forall|n: int|
            0 <= n < states.len() ==> saved_indices(#[trigger] outs.take(n + 1)) == first_indices(
                save_asked(states[n]),
            ) && fetched_ids(outs.take(n + 1)) == chunks_upto(
                states[n].uncached@,
                chunks_asked(states[n]),
            ),
        states.last().phase is Done ==> saved_indices(outs) == first_indices(
            states.last().total as nat,
        ) && fetched_ids(outs) == states.last().uncached@,
{
    assert forall|n: int| 0 <= n < states.len() implies saved_indices(
        #[trigger] outs.take(n + 1),
    ) == first_indices(save_asked(states[n])) && fetched_ids(outs.take(n + 1)) == chunks_upto(
        states[n].uncached@,
        chunks_asked(states[n]),
    ) by {
        lemma_pull_prefix(states, events, outs, n);
    }
    let last = states.len() - 1;
    lemma_pull_prefix(states, events, outs, last);
    lemma_chunks_cover(states[last].uncached@);
    assert(outs.take(last + 1) =~= outs);
}

/// At the end of a push every entry was counted once, as pushed or failed,
/// and the status is "ok" exactly when none failed.
pub proof fn lemma_push_accounts_for_all(p: HistoryPush, step: PushStep)
    requires
        p.wf(),
        p.finished(step),
    ensures
        p.pushed + p.failed == p.count,
        step.command matches PushCommand::Finish { result } && (result.status@ == "ok"@
            <==> p.failed == 0),
{
    reveal_strlit("ok");
    reveal_strlit("partial");
    assert("ok"@.len() != "partial"@.len());
}

/// A finished pull never reports more new and seen entries than the remote
/// history holds.
pub proof fn lemma_pull_counts_bounded(s: HistorySync)
    requires
        s.wf(),
    ensures
        s.new_count + s.seen_count <= s.total,
{
}

/// A pull that has ended has handled every entry of the remote history,
/// each once (entries are saved in order, one per step).
pub proof fn lemma_finished_pull_handled_all(s: HistorySync)
    requires
        s.wf(),
        s.phase is Done,
    ensures
        s.processed == s.total,
        s.new_count + s.seen_count <= s.processed,
{
}

} // verus!
