//! The registry of transfers in flight and the decisions taken while one
//! streams: when to publish progress, how fast it goes, when it was cancelled.
use vstd::prelude::*;

verus! {

/// Where a transfer stands.
#[derive(Clone, Copy, Debug, PartialEq, Eq, Structural)]
pub enum TransferStatus {
    Downloading,
    Completed,
    Error,
}

impl TransferStatus {
    /// The name under which the presentation layer knows this status.
    pub fn as_str(&self) -> (r: &'static str)
        ensures
            *self == TransferStatus::Downloading ==> r@ == "downloading"@,
            *self == TransferStatus::Completed ==> r@ == "completed"@,
            *self == TransferStatus::Error ==> r@ == "error"@,
    {
        match self {
            TransferStatus::Downloading => "downloading",
            TransferStatus::Completed => "completed",
            TransferStatus::Error => "error",
        }
    }
}

/// A snapshot of one transfer: its id, the whole percentage done (0 while the
/// size is unknown), the bytes so far, the advertised size, the status and
/// the last measured speed in kilobytes per second.
#[derive(Clone, Debug, PartialEq, Eq)]
pub struct DownloadProgress {
    pub trainer_id: String,
    pub progress: u32,
    pub downloaded_bytes: u64,
    pub total_bytes: Option<u64>,
    pub status: TransferStatus,
    pub speed: Option<u64>,
}

/// The whole percentage of `total` that `done` bytes make, at most 100; 0
/// when the size is unknown.
pub open spec fn percent_of(done: u64, total: Option<u64>) -> u32 {
    match total {
        None => 0,
        Some(t) => if done >= t { 100 } else { ((done as int * 100) / (t as int)) as u32 },
    }
}

/// Kilobytes per second for `bytes` moved in `elapsed_ms` milliseconds.
pub open spec fn speed_kbps(bytes: u64, elapsed_ms: u64) -> u64 {
    ((bytes as int * 1000) / (elapsed_ms as int) / 1024) as u64
}

/// Least number of milliseconds between two published snapshots.
pub const NOTIFY_INTERVAL_MS: u64 = 200;

/// Least number of milliseconds between two speed measurements.
pub const SPEED_INTERVAL_MS: u64 = 1000;

pub fn percent(done: u64, total: Option<u64>) -> (r: u32)
    ensures
        r == percent_of(done, total),
        r <= 100,
{
    match total {
        None => 0,
        Some(t) => {
            if done >= t {
                100
            } else {
                let p = (done as u128 * 100) / (t as u128);
                proof {
                    assert(done as int * 100 < t as int * 100) by (nonlinear_arith)
                        requires done < t;
                    assert((done as int * 100) / (t as int) <= 100) by (nonlinear_arith)
                        requires done < t, t > 0, done as int * 100 < t as int * 100;
                }
                p as u32
            }
        },
    }
}

fn speed(bytes: u64, elapsed_ms: u64) -> (r: u64)
    requires
        elapsed_ms > 0,
    ensures
        r == speed_kbps(bytes, elapsed_ms),
{
    let s = (bytes as u128 * 1000) / (elapsed_ms as u128) / 1024;
    proof {
        assert((bytes as int * 1000) / (elapsed_ms as int) <= bytes as int * 1000) by (nonlinear_arith)
            requires elapsed_ms > 0, bytes >= 0;
        assert((bytes as int * 1000) / (elapsed_ms as int) / 1024 <= bytes as int) by (nonlinear_arith)
            requires (bytes as int * 1000) / (elapsed_ms as int) <= bytes as int * 1000,
                (bytes as int * 1000) / (elapsed_ms as int) >= 0;
    }
    s as u64
}

impl DownloadProgress {
    /// A copy of this snapshot.
    pub fn snapshot(&self) -> (r: DownloadProgress)
        ensures
            r == *self,
    {
        DownloadProgress {
            trainer_id: self.trainer_id.clone(),
            progress: self.progress,
            downloaded_bytes: self.downloaded_bytes,
            total_bytes: self.total_bytes,
            status: self.status,
            speed: self.speed,
        }
    }
}

pub open spec fn ids_of(s: Seq<DownloadProgress>) -> Seq<Seq<char>> {
    s.map_values(|p: DownloadProgress| p.trainer_id@)
}

/// The transfers in flight, each under its own id. Meant to be shared behind
/// one lock, held only for the length of one call.
pub struct TransferTracker {
    entries: Vec<DownloadProgress>,
    model: Ghost<Map<Seq<char>, DownloadProgress>>,
}

impl TransferTracker {
    /// The transfers in flight, by id.
    pub closed spec fn view(&self) -> Map<Seq<char>, DownloadProgress> {
        self.model@
    }

    /// Each id is held once, and the entries are exactly the model's.
    pub closed spec fn wf(&self) -> bool {
        &&& forall|i: int, j: int| 0 <= i < j < self.entries@.len()
            ==> self.entries@[i].trainer_id@ != self.entries@[j].trainer_id@
        &&& forall|i: int| 0 <= i < self.entries@.len()
            ==> #[trigger] self.model@.contains_key(self.entries@[i].trainer_id@)
                && self.model@[self.entries@[i].trainer_id@] == self.entries@[i]
        &&& forall|k: Seq<char>| #[trigger] self.model@.contains_key(k)
            ==> exists|i: int| 0 <= i < self.entries@.len() && #[trigger] self.entries@[i].trainer_id@ == k
    }

    /// The ids of the entries are distinct and are exactly the transfers in
    /// flight.
    proof fn lemma_view_len(&self)
        requires
            self.wf(),
        ensures
            ids_of(self.entries@).no_duplicates(),
            ids_of(self.entries@).to_set() == self@.dom(),
            self@.dom().len() == self.entries@.len(),
    {
        let ids = ids_of(self.entries@);
        assert forall|i: int, j: int| 0 <= i < ids.len() && 0 <= j < ids.len() && i != j
            implies ids[i] != ids[j] by {
            if i < j {
                assert(self.entries@[i].trainer_id@ != self.entries@[j].trainer_id@);
            } else {
                assert(self.entries@[j].trainer_id@ != self.entries@[i].trainer_id@);
            }
        };
        assert forall|k: Seq<char>| ids.to_set().contains(k) <==> self@.contains_key(k) by {
            if self@.contains_key(k) {
                let j = choose|j: int| 0 <= j < self.entries@.len() && #[trigger] self.entries@[j].trainer_id@ == k;
                assert(ids[j] == k);
            }
            if ids.to_set().contains(k) {
                let j = choose|j: int| 0 <= j < ids.len() && ids[j] == k;
                assert(self.model@.contains_key(self.entries@[j].trainer_id@));
            }
        };
        assert(ids.to_set() =~= self@.dom());
        ids.unique_seq_to_set();
    }

    /// An empty registry.
    pub fn new() -> (r: TransferTracker)
        ensures
            r.wf(),
            r@ == Map::<Seq<char>, DownloadProgress>::empty(),
    {
        TransferTracker { entries: Vec::new(), model: Ghost(Map::empty()) }
    }

    fn find(&self, id: &str) -> (r: Option<usize>)
        requires
            self.wf(),
        ensures
            r is Some ==> r->0 < self.entries@.len() && self.entries@[r->0 as int].trainer_id@ == id@,
            r is None ==> !self@.contains_key(id@),
    {
        let key = String::from_str(id);
        let mut i: usize = 0;
        while i < self.entries.len()
            invariant
                self.wf(),
                key@ == id@,
                i <= self.entries@.len(),
                forall|j: int| 0 <= j < i ==> self.entries@[j].trainer_id@ != id@,
            decreases self.entries@.len() - i,
        {
            if self.entries[i].trainer_id == key {
                return Some(i);
            }
            i = i + 1;
        }
        proof {
            if self@.contains_key(id@) {
                let j = choose|j: int| 0 <= j < self.entries@.len() && #[trigger] self.entries@[j].trainer_id@ == id@;
                assert(self.entries@[j].trainer_id@ == id@);
            }
        }
        None
    }

    /// Whether a transfer is in flight under `id`.
    pub fn contains(&self, id: &str) -> (r: bool)
        requires
            self.wf(),
        ensures
            r == self@.contains_key(id@),
    {
        match self.find(id) {
            Some(i) => {
                assert(self@.contains_key(self.entries@[i as int].trainer_id@));
                true
            },
            None => false,
        }
    }

    /// Records `p` as the latest snapshot of its transfer, replacing the one
    /// before it if there was one.
    #[verifier::spinoff_prover]
    pub fn upsert(&mut self, p: DownloadProgress)
        requires
            old(self).wf(),
        ensures
            final(self).wf(),
            final(self)@ == old(self)@.insert(p.trainer_id@, p),
    {
        let ghost old_model = self.model@;
        let ghost k = p.trainer_id@;
        match self.find(p.trainer_id.as_str()) {
            Some(i) => {
                let ghost old_entries = self.entries@;
                self.entries.set(i, p);
                self.model = Ghost(old_model.insert(k, p));
                assert forall|i2: int| 0 <= i2 < self.entries@.len()
                    implies #[trigger] self.model@.contains_key(self.entries@[i2].trainer_id@)
                        && self.model@[self.entries@[i2].trainer_id@] == self.entries@[i2] by {
                    if i2 != i {
                        assert(old_entries[i2] == self.entries@[i2]);
                        assert(old_entries[i2].trainer_id@ != old_entries[i as int].trainer_id@);
                    }
                };
                assert forall|i2: int, j2: int| 0 <= i2 < j2 < self.entries@.len()
                    implies self.entries@[i2].trainer_id@ != self.entries@[j2].trainer_id@ by {
                    if i2 != i && j2 != i {
                        assert(old_entries[i2] == self.entries@[i2]);
                    }
                };
                assert forall|kk: Seq<char>| #[trigger] self.model@.contains_key(kk)
                    implies exists|j: int| 0 <= j < self.entries@.len() && #[trigger] self.entries@[j].trainer_id@ == kk by {
                    if kk == k {
                        assert(self.entries@[i as int].trainer_id@ == kk);
                    } else {
                        let j = choose|j: int| 0 <= j < old_entries.len() && #[trigger] old_entries[j].trainer_id@ == kk;
                        assert(self.entries@[j].trainer_id@ == kk);
                    }
                };
                assert(self.wf());
            },
            None => {
                let ghost old_entries = self.entries@;
                self.entries.push(p);
                self.model = Ghost(old_model.insert(k, p));
                assert forall|i2: int| 0 <= i2 < old_entries.len()
                    implies old_entries[i2].trainer_id@ != k by {
                    assert(old_model.contains_key(old_entries[i2].trainer_id@));
                };
                assert forall|i2: int| 0 <= i2 < self.entries@.len()
                    implies #[trigger] self.model@.contains_key(self.entries@[i2].trainer_id@)
                        && self.model@[self.entries@[i2].trainer_id@] == self.entries@[i2] by {
                    if i2 < old_entries.len() {
                        assert(old_entries[i2] == self.entries@[i2]);
                    }
                };
                assert forall|i2: int, j2: int| 0 <= i2 < j2 < self.entries@.len()
                    implies self.entries@[i2].trainer_id@ != self.entries@[j2].trainer_id@ by {
                    assert(self.entries@[i2] == old_entries[i2]);
                };
                assert forall|kk: Seq<char>| #[trigger] self.model@.contains_key(kk)
                    implies exists|j: int| 0 <= j < self.entries@.len() && #[trigger] self.entries@[j].trainer_id@ == kk by {
                    if kk == k {
                        assert(self.entries@[old_entries.len() as int].trainer_id@ == kk);
                    } else {
                        let j = choose|j: int| 0 <= j < old_entries.len() && #[trigger] old_entries[j].trainer_id@ == kk;
                        assert(self.entries@[j].trainer_id@ == kk);
                    }
                };
                assert(self.wf());
            },
        }
    }

    /// Drops the transfer under `id`, telling whether it was in flight.
    #[verifier::spinoff_prover]
    pub fn remove(&mut self, id: &str) -> (r: bool)
        requires
            old(self).wf(),
        ensures
            final(self).wf(),
            r == old(self)@.contains_key(id@),
            final(self)@ == old(self)@.remove(id@),
    {
        let ghost old_model = self.model@;
        match self.find(id) {
            Some(i) => {
                let ghost old_entries = self.entries@;
                self.entries.remove(i);
                self.model = Ghost(old_model.remove(id@));
                assert(old_model.contains_key(old_entries[i as int].trainer_id@));
                assert forall|i2: int, j2: int| 0 <= i2 < j2 < self.entries@.len()
                    implies self.entries@[i2].trainer_id@ != self.entries@[j2].trainer_id@ by {
                    let a = if i2 < i { i2 } else { i2 + 1 };
                    let b = if j2 < i { j2 } else { j2 + 1 };
                    assert(self.entries@[i2] == old_entries[a]);
                    assert(self.entries@[j2] == old_entries[b]);
                };
                assert forall|i2: int| 0 <= i2 < self.entries@.len()
                    implies #[trigger] self.model@.contains_key(self.entries@[i2].trainer_id@)
                        && self.model@[self.entries@[i2].trainer_id@] == self.entries@[i2] by {
                    let a = if i2 < i { i2 } else { i2 + 1 };
                    assert(self.entries@[i2] == old_entries[a]);
                    if a < i {
                        assert(old_entries[a].trainer_id@ != old_entries[i as int].trainer_id@);
                    } else {
                        assert(old_entries[i as int].trainer_id@ != old_entries[a].trainer_id@);
                    }
                    assert(old_entries[a].trainer_id@ != id@);
                    assert(old_model.contains_key(old_entries[a].trainer_id@));
                    assert(old_model[old_entries[a].trainer_id@] == old_entries[a]);
                };
                assert forall|kk: Seq<char>| #[trigger] self.model@.contains_key(kk)
                    implies exists|j: int| 0 <= j < self.entries@.len() && #[trigger] self.entries@[j].trainer_id@ == kk by {
                    let j = choose|j: int| 0 <= j < old_entries.len() && #[trigger] old_entries[j].trainer_id@ == kk;
                    assert(j != i);
                    let jj = if j < i { j } else { j - 1 };
                    assert(self.entries@[jj] == old_entries[j]);
                };
                true
            },
            None => {
                assert(self.model@ =~= old_model.remove(id@));
                false
            },
        }
    }

    /// A snapshot of every transfer in flight, each once.
    pub fn get_active_downloads(&self) -> (r: Vec<DownloadProgress>)
        requires
            self.wf(),
        ensures
            r@.len() == self@.dom().len(),
            ids_of(r@).no_duplicates(),
            ids_of(r@).to_set() == self@.dom(),
            forall|i: int| 0 <= i < r@.len() ==> self@[#[trigger] r@[i].trainer_id@] == r@[i],
    {
        let mut r: Vec<DownloadProgress> = Vec::new();
        let mut n: usize = 0;
        while n < self.entries.len()
            invariant
                n <= self.entries@.len(),
                r@ == self.entries@.subrange(0, n as int),
            decreases self.entries@.len() - n,
        {
            r.push(self.entries[n].snapshot());
            n = n + 1;
            assert(r@ =~= self.entries@.subrange(0, n as int));
        }
        proof {
            assert(r@ =~= self.entries@);
            self.lemma_view_len();
            assert forall|i: int| 0 <= i < r@.len() implies self@[#[trigger] r@[i].trainer_id@] == r@[i] by {
                assert(self.model@.contains_key(self.entries@[i].trainer_id@));
            };
        }
        r
    }

    /// Drops the transfer under `id`, telling whether it was in flight. The
    /// stream of that transfer notices at its next chunk and stops.
    pub fn cancel_download(&mut self, id: &str) -> (r: bool)
        requires
            old(self).wf(),
        ensures
            final(self).wf(),
            r == old(self)@.contains_key(id@),
            final(self)@ == old(self)@.remove(id@),
    {
        self.remove(id)
    }

    /// Empties the registry, telling how many transfers it held.
    pub fn clear_all_downloads(&mut self) -> (r: usize)
        requires
            old(self).wf(),
        ensures
            final(self).wf(),
            r == old(self)@.dom().len(),
            final(self)@ == Map::<Seq<char>, DownloadProgress>::empty(),
    {
        proof { self.lemma_view_len(); }
        let n = self.entries.len();
        self.entries = Vec::new();
        self.model = Ghost(Map::empty());
        n
    }
}

/// Milliseconds from `since` to `now`; 0 if the clock reads earlier.
pub open spec fn elapsed_ms(now: u64, since: u64) -> u64 {
    if now >= since { (now - since) as u64 } else { 0 }
}

fn elapsed(now: u64, since: u64) -> (r: u64)
    ensures
        r == elapsed_ms(now, since),
{
    if now >= since { now - since } else { 0 }
}

/// The snapshot of a transfer with these figures.
pub open spec fn progress_of(
    id: Seq<char>,
    done: u64,
    total: Option<u64>,
    status: TransferStatus,
    speed: Option<u64>,
    p: DownloadProgress,
) -> bool {
    &&& p.trainer_id@ == id
    &&& p.downloaded_bytes == done
    &&& p.total_bytes == total
    &&& p.status == status
    &&& p.speed == speed
    &&& p.progress == if status == TransferStatus::Completed { 100 } else { percent_of(done, total) }
}

/// What the streaming loop does after a chunk.
#[derive(Clone, Debug, PartialEq, Eq)]
pub enum ChunkOutcome {
    /// Keep reading; nothing to publish yet.
    Continue,
    /// Publish this snapshot, then keep reading.
    Publish(DownloadProgress),
    /// The transfer was cancelled: stop reading and discard what was written.
    Cancelled,
}

/// The running figures of one streaming transfer. Times are milliseconds on
/// a clock that the caller reads.
#[derive(Clone, Debug)]
pub struct DownloadSession {
    pub transfer_id: String,
    pub total_bytes: Option<u64>,
    pub downloaded_bytes: u64,
    pub last_notify_ms: u64,
    pub last_speed_ms: u64,
    pub last_speed_bytes: u64,
}

impl DownloadSession {
    /// The bytes counted at the last speed measurement are among those
    /// received so far.
    pub open spec fn wf(&self) -> bool {
        self.last_speed_bytes <= self.downloaded_bytes
    }

    /// Starts tracking a transfer under `transfer_id` whose advertised size
    /// is `total_bytes`: registers its first snapshot, which is also to be
    /// published.
    pub fn begin(tracker: &mut TransferTracker, transfer_id: &str, total_bytes: Option<u64>, now_ms: u64)
        -> (r: (DownloadSession, DownloadProgress))
        requires
            old(tracker).wf(),
        ensures
            final(tracker).wf(),
            progress_of(transfer_id@, 0, total_bytes, TransferStatus::Downloading, None, r.1),
            final(tracker)@ == old(tracker)@.insert(transfer_id@, r.1),
            r.0.transfer_id@ == transfer_id@,
            r.0.total_bytes == total_bytes,
            r.0.downloaded_bytes == 0,
            r.0.last_notify_ms == now_ms,
            r.0.last_speed_ms == now_ms,
            r.0.last_speed_bytes == 0,
            r.0.wf(),
    {
        let first = DownloadProgress {
            trainer_id: String::from_str(transfer_id),
            progress: percent(0, total_bytes),
            downloaded_bytes: 0,
            total_bytes,
            status: TransferStatus::Downloading,
            speed: None,
        };
        tracker.upsert(first.snapshot());
        let session = DownloadSession {
            transfer_id: String::from_str(transfer_id),
            total_bytes,
            downloaded_bytes: 0,
            last_notify_ms: now_ms,
            last_speed_ms: now_ms,
            last_speed_bytes: 0,
        };
        (session, first)
    }

    /// Takes in a chunk of `len` bytes that arrived at `now_ms`. A transfer
    /// no longer in the registry was cancelled. Otherwise the speed is
    /// measured again once a second has passed since the last measurement,
    /// and a snapshot is registered and published once 200 ms have passed
    /// since the last one.
    pub fn on_chunk(&mut self, tracker: &mut TransferTracker, len: u64, now_ms: u64) -> (r: ChunkOutcome)
        requires
            old(tracker).wf(),
            old(self).wf(),
            old(self).downloaded_bytes + len <= u64::MAX,
        ensures
            final(tracker).wf(),
            final(self).wf(),
            !old(tracker)@.contains_key(old(self).transfer_id@) ==> {
                &&& r is Cancelled
                &&& *final(self) == *old(self)
                &&& final(tracker)@ == old(tracker)@
            },
            old(tracker)@.contains_key(old(self).transfer_id@) ==> {
                let s = *old(self);
                let done = (s.downloaded_bytes + len) as u64;
                let since_speed = elapsed_ms(now_ms, s.last_speed_ms);
                let measured = since_speed >= SPEED_INTERVAL_MS;
                let speed = if measured {
                    Some(speed_kbps((done - s.last_speed_bytes) as u64, since_speed))
                } else {
                    None
                };
                let publish = elapsed_ms(now_ms, s.last_notify_ms) >= NOTIFY_INTERVAL_MS;
                &&& final(self).transfer_id == s.transfer_id
                &&& final(self).total_bytes == s.total_bytes
                &&& final(self).downloaded_bytes == done
                &&& final(self).last_speed_ms == if measured { now_ms } else { s.last_speed_ms }
                &&& final(self).last_speed_bytes == if measured { done } else { s.last_speed_bytes }
                &&& final(self).last_notify_ms == if publish { now_ms } else { s.last_notify_ms }
                &&& publish ==> r is Publish
                    && progress_of(s.transfer_id@, done, s.total_bytes, TransferStatus::Downloading, speed, r->Publish_0)
                    && final(tracker)@ == old(tracker)@.insert(s.transfer_id@, r->Publish_0)
                &&& !publish ==> r is Continue && final(tracker)@ == old(tracker)@
            },
    {
        if !tracker.contains(self.transfer_id.as_str()) {
            return ChunkOutcome::Cancelled;
        }
        self.downloaded_bytes = self.downloaded_bytes + len;
        let since_speed = elapsed(now_ms, self.last_speed_ms);
        let mut current_speed: Option<u64> = None;
        if since_speed >= SPEED_INTERVAL_MS {
            current_speed = Some(speed(self.downloaded_bytes - self.last_speed_bytes, since_speed));
            self.last_speed_ms = now_ms;
            self.last_speed_bytes = self.downloaded_bytes;
        }
        if elapsed(now_ms, self.last_notify_ms) >= NOTIFY_INTERVAL_MS {
            let p = DownloadProgress {
                trainer_id: self.transfer_id.clone(),
                progress: percent(self.downloaded_bytes, self.total_bytes),
                downloaded_bytes: self.downloaded_bytes,
                total_bytes: self.total_bytes,
                status: TransferStatus::Downloading,
                speed: current_speed,
            };
            tracker.upsert(p.snapshot());
            self.last_notify_ms = now_ms;
            ChunkOutcome::Publish(p)
        } else {
            ChunkOutcome::Continue
        }
    }

    /// Ends a transfer whose last byte was written and flushed: drops it from
    /// the registry and gives the completed snapshot to publish.
    pub fn finish(&self, tracker: &mut TransferTracker) -> (r: DownloadProgress)
        requires
            old(tracker).wf(),
        ensures
            final(tracker).wf(),
            final(tracker)@ == old(tracker)@.remove(self.transfer_id@),
            progress_of(self.transfer_id@, self.downloaded_bytes, self.total_bytes,
                TransferStatus::Completed, None, r),
    {
        tracker.remove(self.transfer_id.as_str());
        DownloadProgress {
            trainer_id: self.transfer_id.clone(),
            progress: 100,
            downloaded_bytes: self.downloaded_bytes,
            total_bytes: self.total_bytes,
            status: TransferStatus::Completed,
            speed: None,
        }
    }

    /// Ends a transfer that failed or was cancelled: drops it from the
    /// registry and gives the error snapshot to publish.
    pub fn fail(&self, tracker: &mut TransferTracker) -> (r: DownloadProgress)
        requires
            old(tracker).wf(),
        ensures
            final(tracker).wf(),
            final(tracker)@ == old(tracker)@.remove(self.transfer_id@),
            progress_of(self.transfer_id@, self.downloaded_bytes, self.total_bytes,
                TransferStatus::Error, None, r),
    {
        tracker.remove(self.transfer_id.as_str());
        DownloadProgress {
            trainer_id: self.transfer_id.clone(),
            progress: percent(self.downloaded_bytes, self.total_bytes),
            downloaded_bytes: self.downloaded_bytes,
            total_bytes: self.total_bytes,
            status: TransferStatus::Error,
            speed: None,
        }
    }
}

/// The registry after registering each snapshot of `ps` in turn, as `begin`
/// and `on_chunk` do, starting from `m`.
pub open spec fn after_starts(m: Map<Seq<char>, DownloadProgress>, ps: Seq<DownloadProgress>) -> Map<Seq<char>, DownloadProgress>
    decreases ps.len(),
{
    if ps.len() == 0 {
        m
    } else {
        after_starts(m, ps.drop_last()).insert(ps.last().trainer_id@, ps.last())
    }
}

/// The registry after dropping each id of `ids` in turn, as `finish`, `fail`
/// and `cancel_download` do, starting from `m`.
pub open spec fn after_ends(m: Map<Seq<char>, DownloadProgress>, ids: Seq<Seq<char>>) -> Map<Seq<char>, DownloadProgress>
    decreases ids.len(),
{
    if ids.len() == 0 {
        m
    } else {
        after_ends(m, ids.drop_last()).remove(ids.last())
    }
}

proof fn lemma_after_starts_dom(m: Map<Seq<char>, DownloadProgress>, ps: Seq<DownloadProgress>)
    ensures
        after_starts(m, ps).dom() == m.dom().union(ids_of(ps).to_set()),
    decreases ps.len(),
{
    if ps.len() > 0 {
        lemma_after_starts_dom(m, ps.drop_last());
        assert(ids_of(ps.drop_last()) =~= ids_of(ps).drop_last());
        assert(ids_of(ps).to_set() =~= ids_of(ps.drop_last()).to_set().insert(ps.last().trainer_id@)) by {
            assert forall|k: Seq<char>| ids_of(ps).to_set().contains(k)
                <==> ids_of(ps.drop_last()).to_set().insert(ps.last().trainer_id@).contains(k) by {
                if ids_of(ps).to_set().contains(k) {
                    let j = choose|j: int| 0 <= j < ids_of(ps).len() && ids_of(ps)[j] == k;
                    if j < ps.len() - 1 {
                        assert(ids_of(ps.drop_last())[j] == k);
                    }
                }
                if ids_of(ps.drop_last()).to_set().contains(k) {
                    let j = choose|j: int| 0 <= j < ids_of(ps.drop_last()).len() && ids_of(ps.drop_last())[j] == k;
                    assert(ids_of(ps)[j] == k);
                }
                if k == ps.last().trainer_id@ {
                    assert(ids_of(ps)[ps.len() - 1] == k);
                }
            };
        };
        assert(after_starts(m, ps).dom() =~= m.dom().union(ids_of(ps).to_set()));
    } else {
        assert(ids_of(ps).to_set() =~= Set::<Seq<char>>::empty());
        assert(m.dom().union(Set::<Seq<char>>::empty()) =~= m.dom());
    }
}

proof fn lemma_after_ends_dom(m: Map<Seq<char>, DownloadProgress>, ids: Seq<Seq<char>>)
    ensures
        after_ends(m, ids).dom() == m.dom().difference(ids.to_set()),
    decreases ids.len(),
{
    if ids.len() > 0 {
        lemma_after_ends_dom(m, ids.drop_last());
        assert forall|k: Seq<char>| ids.to_set().contains(k)
            <==> ids.drop_last().to_set().insert(ids.last()).contains(k) by {
            if ids.to_set().contains(k) {
                let j = choose|j: int| 0 <= j < ids.len() && ids[j] == k;
                if j < ids.len() - 1 {
                    assert(ids.drop_last()[j] == k);
                }
            }
            if ids.drop_last().to_set().contains(k) {
                let j = choose|j: int| 0 <= j < ids.drop_last().len() && ids.drop_last()[j] == k;
                assert(ids[j] == k);
            }
        };
        assert(after_ends(m, ids).dom() =~= m.dom().difference(ids.to_set()));
    } else {
        assert(m.dom().difference(ids.to_set()) =~= m.dom());
    }
}

/// Transfers are begun (their snapshots `started` registered in turn) on an
/// empty registry, and then the transfers under `ended` finish, fail or are
/// cancelled. A snapshot of the registry taken then, as
/// `get_active_downloads` gives it, lists exactly the transfers begun and not
/// ended, each once, with its latest figures.
pub proof fn lemma_snapshot_lists_unfinished(
    started: Seq<DownloadProgress>,
    ended: Seq<Seq<char>>,
    snapshot: Seq<DownloadProgress>,
)
    requires
        ({
            let m = after_ends(after_starts(Map::empty(), started), ended);
            &&& ids_of(snapshot).no_duplicates()
            &&& ids_of(snapshot).to_set() == m.dom()
            &&& forall|i: int| 0 <= i < snapshot.len() ==> m[#[trigger] snapshot[i].trainer_id@] == snapshot[i]
        }),
    ensures
        ids_of(snapshot).no_duplicates(),
        ids_of(snapshot).to_set() == ids_of(started).to_set().difference(ended.to_set()),
        forall|i: int| 0 <= i < snapshot.len()
            ==> after_starts(Map::empty(), started)[#[trigger] snapshot[i].trainer_id@] == snapshot[i],
{
    let begun = after_starts(Map::<Seq<char>, DownloadProgress>::empty(), started);
    lemma_after_starts_dom(Map::empty(), started);
    lemma_after_ends_dom(begun, ended);
    assert(Map::<Seq<char>, DownloadProgress>::empty().dom().union(ids_of(started).to_set())
        =~= ids_of(started).to_set());
    assert forall|i: int| 0 <= i < snapshot.len()
        implies begun[#[trigger] snapshot[i].trainer_id@] == snapshot[i] by {
        let m = after_ends(begun, ended);
        assert(ids_of(snapshot)[i] == snapshot[i].trainer_id@);
        assert(m.dom().contains(snapshot[i].trainer_id@));
        lemma_after_ends_keeps(begun, ended, snapshot[i].trainer_id@);
    };
}

proof fn lemma_after_ends_keeps(m: Map<Seq<char>, DownloadProgress>, ids: Seq<Seq<char>>, k: Seq<char>)
    requires
        after_ends(m, ids).contains_key(k),
    ensures
        m.contains_key(k),
        after_ends(m, ids)[k] == m[k],
    decreases ids.len(),
{
    if ids.len() > 0 {
        lemma_after_ends_keeps(m, ids.drop_last(), k);
    }
}

} // verus!
