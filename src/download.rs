//! The download engine's decisions: where a task's file is staged, and how
//! one download episode counts bytes, enforces the size cap and reports
//! progress and speed. The streaming itself is done by the caller, which
//! writes each chunk this module accepts.
use vstd::prelude::*;
use crate::security::{MAX_DOWNLOAD_SIZE, format_speed, sanitize_filename, sanitized, speed_text};

verus! {

/// Least time between two telemetry updates, in milliseconds.
pub const TICK_MS: u64 = 500;

/// Overall time allowed for the upstream request, in seconds.
pub const HTTP_TIMEOUT_SECS: u64 = 600;

/// A sanitised name that can stand as a directory: not empty, `.` or `..`.
pub open spec fn is_dir_name(s: Seq<char>) -> bool {
    s.len() > 0 && s != "."@ && s != ".."@
}

/// The staging directory `<root>/<account>/<bundle>/<version>`, each
/// component sanitised.
pub open spec fn task_dir(root: Seq<char>, account_hash: Seq<char>, bundle_id: Seq<char>, version: Seq<char>) -> Seq<char> {
    root + "/"@ + sanitized(account_hash) + "/"@ + sanitized(bundle_id) + "/"@ + sanitized(version)
}

fn is_dir_name_exec(s: &String) -> (r: bool)
    ensures
        r == is_dir_name(s@),
{
    let dot = String::from_str(".");
    let dots = String::from_str("..");
    !s.as_str().is_empty() && !(*s == dot) && !(*s == dots)
}

/// The directory a task's archive is staged in; fails when a sanitised
/// component is empty, `.` or `..`.
pub fn build_task_dir(packages_root: &str, account_hash: &str, bundle_id: &str, version: &str) -> (r: Result<String, String>)
    ensures
        r.is_ok() == (is_dir_name(sanitized(account_hash@)) && is_dir_name(sanitized(bundle_id@))
            && is_dir_name(sanitized(version@))),
        r matches Ok(d) ==> d@ == task_dir(packages_root@, account_hash@, bundle_id@, version@),
{
    let a = sanitize_filename(account_hash);
    let b = sanitize_filename(bundle_id);
    let v = sanitize_filename(version);
    if !is_dir_name_exec(&a) || !is_dir_name_exec(&b) || !is_dir_name_exec(&v) {
        return Err(String::from_str("Invalid path component"));
    }
    let mut d = String::from_str(packages_root);
    d.append("/");
    d.append(a.as_str());
    d.append("/");
    d.append(b.as_str());
    d.append("/");
    d.append(v.as_str());
    Ok(d)
}

/// The staged archive's path: `<dir>/<task_id>.ipa`.
pub fn build_ipa_path(dir: &str, task_id: &str) -> (r: String)
    ensures
        r@ == dir@ + "/"@ + task_id@ + ".ipa"@,
{
    let mut p = String::from_str(dir);
    p.append("/");
    p.append(task_id);
    p.append(".ipa");
    p
}

/// Percent complete: `total / length` rounded to the nearest percent and
/// capped at 100; zero when the length is unknown.
pub open spec fn progress_of(total: nat, length: nat) -> nat {
    if length == 0 {
        0
    } else {
        let p = (200 * total + length) / (2 * length);
        if p > 100 { 100 } else { p }
    }
}

proof fn lemma_progress_monotone(a: nat, b: nat, length: nat)
    requires
        a <= b,
    ensures
        progress_of(a, length) <= progress_of(b, length),
{
    if length > 0 {
        vstd::arithmetic::div_mod::lemma_div_is_ordered((200 * a + length) as int, (200 * b + length) as int, (2 * length) as int);
    }
}

/// One download episode: from the request to the end of the body.
pub struct Episode {
    /// Declared length, zero when unknown.
    pub content_length: u64,
    /// Bytes accepted so far.
    pub downloaded: u64,
    /// Time of the last telemetry update, in milliseconds.
    pub last_tick_ms: u64,
    /// Bytes accepted at the last telemetry update.
    pub last_bytes: u64,
    /// Progress reported at the last telemetry update.
    pub progress: u8,
    /// Bytes accepted so far, in order: what the file holds.
    pub written: Ghost<Seq<u8>>,
}

/// Telemetry for the task record.
pub struct Telemetry {
    pub progress: u8,
    pub speed: String,
}

/// What to do with a chunk of the body.
pub enum ChunkStep {
    /// The running total passed the size cap: the download fails.
    Exceeded,
    /// Append the chunk to the file, and update the record if telemetry is due.
    Write { telemetry: Option<Telemetry> },
}

impl Episode {
    /// The episode's invariant: the counters agree with what was written,
    /// the cap holds and progress matches the last update.
    pub open spec fn wf(&self) -> bool {
        &&& self.downloaded == self.written@.len()
        &&& self.downloaded <= MAX_DOWNLOAD_SIZE
        &&& self.content_length <= MAX_DOWNLOAD_SIZE
        &&& self.last_bytes <= self.downloaded
        &&& self.progress == progress_of(self.last_bytes as nat, self.content_length as nat)
    }

    /// The state after accepting `chunk` at `now_ms`.
    pub open spec fn step(self, chunk: Seq<u8>, now_ms: u64) -> Episode {
        let total = self.downloaded + chunk.len();
        if total > MAX_DOWNLOAD_SIZE {
            self
        } else if now_ms >= self.last_tick_ms && now_ms - self.last_tick_ms >= TICK_MS {
            Episode {
                content_length: self.content_length,
                downloaded: total as u64,
                last_tick_ms: now_ms,
                last_bytes: total as u64,
                progress: progress_of(total as nat, self.content_length as nat) as u8,
                written: Ghost(self.written@ + chunk),
            }
        } else {
            Episode {
                downloaded: total as u64,
                written: Ghost(self.written@ + chunk),
                ..self
            }
        }
    }

    /// Opens an episode for a response of declared length `content_length`
    /// (zero when unknown); refuses one declared above the size cap.
    pub fn start(content_length: u64, now_ms: u64) -> (r: Result<Episode, String>)
        ensures
            r.is_ok() == (content_length <= MAX_DOWNLOAD_SIZE),
            r matches Ok(e) ==> e.wf() && e.content_length == content_length && e.downloaded == 0
                && e.written@ == Seq::<u8>::empty() && e.progress == 0 && e.last_tick_ms == now_ms,
    {
        if content_length > MAX_DOWNLOAD_SIZE {
            return Err(String::from_str("File too large"));
        }
        proof {
            if content_length > 0 {
                vstd::arithmetic::div_mod::lemma_basic_div(content_length as int, 2 * content_length as int);
            }
        }
        Ok(Episode {
            content_length,
            downloaded: 0,
            last_tick_ms: now_ms,
            last_bytes: 0,
            progress: 0,
            written: Ghost(Seq::empty()),
        })
    }

    /// Accepts a chunk of the body received at `now_ms`: refuses it when the
    /// running total would pass the cap; else counts it and, once at least
    /// `TICK_MS` passed since the last update, reports progress and the
    /// speed over that interval.
    pub fn on_chunk(&mut self, chunk: &[u8], now_ms: u64) -> (r: ChunkStep)
        requires
            old(self).wf(),
        ensures
            final(self).wf(),
            *final(self) == old(self).step(chunk@, now_ms),
            (r is Exceeded) == (old(self).downloaded + chunk@.len() > MAX_DOWNLOAD_SIZE),
            r matches ChunkStep::Write { telemetry: Some(t) } ==> t.progress == final(self).progress
                && t.speed@ == speed_text(((final(self).downloaded - old(self).last_bytes) * 1000 / (now_ms
                - old(self).last_tick_ms)) as nat),
            r matches ChunkStep::Write { telemetry: None } ==> final(self).last_tick_ms == old(self).last_tick_ms,
            final(self).progress >= old(self).progress,
            final(self).progress <= 100,
    {
        if chunk.len() as u64 > MAX_DOWNLOAD_SIZE - self.downloaded {
            return ChunkStep::Exceeded;
        }
        let total: u64 = self.downloaded + chunk.len() as u64;
        self.downloaded = total;
        self.written = Ghost(self.written@ + chunk@);
        if now_ms >= self.last_tick_ms && now_ms - self.last_tick_ms >= TICK_MS {
            let elapsed = now_ms - self.last_tick_ms;
            let bps = (total - self.last_bytes) * 1000 / elapsed;
            let speed = format_speed(bps);
            let progress: u64 = if self.content_length == 0 {
                0
            } else {
                let p = (200 * total + self.content_length) / (2 * self.content_length);
                if p > 100 { 100 } else { p }
            };
            proof {
                lemma_progress_monotone(self.last_bytes as nat, total as nat, self.content_length as nat);
            }
            self.last_tick_ms = now_ms;
            self.last_bytes = total;
            self.progress = progress as u8;
            ChunkStep::Write { telemetry: Some(Telemetry { progress: progress as u8, speed }) }
        } else {
            ChunkStep::Write { telemetry: None }
        }
    }
}

/// The bytes of `chunks`, one after the other.
pub open spec fn concat(chunks: Seq<Seq<u8>>) -> Seq<u8>
    decreases chunks.len(),
{
    if chunks.len() == 0 {
        Seq::empty()
    } else {
        concat(chunks.drop_last()) + chunks.last()
    }
}

/// The episode after accepting `chunks`, the i-th at `times[i]`.
pub open spec fn run(e: Episode, chunks: Seq<Seq<u8>>, times: Seq<u64>) -> Episode
    decreases chunks.len(),
{
    if chunks.len() == 0 || times.len() != chunks.len() {
        e
    } else {
        run(e, chunks.drop_last(), times.drop_last()).step(chunks.last(), times.last())
    }
}

proof fn lemma_step_wf(e: Episode, chunk: Seq<u8>, now_ms: u64)
    requires
        e.wf(),
    ensures
        e.step(chunk, now_ms).wf(),
        e.step(chunk, now_ms).progress >= e.progress,
        e.step(chunk, now_ms).content_length == e.content_length,
{
    let total = e.downloaded + chunk.len();
    if total <= MAX_DOWNLOAD_SIZE {
        lemma_progress_monotone(e.last_bytes as nat, total as nat, e.content_length as nat);
        if e.content_length > 0 {
            assert(progress_of(total as nat, e.content_length as nat) <= 100);
        }
    }
}

/// A download without pause: from a fresh episode, any chunks whose total
/// stays within the cap are all accepted, the file holds exactly their
/// bytes in order, and reported progress never goes down.
pub proof fn lemma_download_writes_all(e: Episode, chunks: Seq<Seq<u8>>, times: Seq<u64>)
    requires
        e.wf(),
        e.downloaded == 0,
        times.len() == chunks.len(),
        concat(chunks).len() <= MAX_DOWNLOAD_SIZE,
    ensures
        run(e, chunks, times).wf(),
        run(e, chunks, times).written@ == concat(chunks),
        run(e, chunks, times).downloaded == concat(chunks).len(),
        run(e, chunks, times).progress >= e.progress,
    decreases chunks.len(),
{
    if chunks.len() > 0 {
        let prev = chunks.drop_last();
        assert(concat(prev).len() <= concat(chunks).len());
        lemma_download_writes_all(e, prev, times.drop_last());
        let r = run(e, prev, times.drop_last());
        lemma_step_wf(r, chunks.last(), times.last());
        assert(e.written@ =~= Seq::<u8>::empty());
    } else {
        assert(e.written@ =~= Seq::<u8>::empty());
    }
}

/// Reported progress never goes down within an episode, whatever arrives.
pub proof fn lemma_progress_never_drops(e: Episode, chunks: Seq<Seq<u8>>, times: Seq<u64>)
    requires
        e.wf(),
    ensures
        run(e, chunks, times).wf(),
        run(e, chunks, times).progress >= e.progress,
        run(e, chunks, times).progress <= 100,
    decreases chunks.len(),
{
    if chunks.len() > 0 && times.len() == chunks.len() {
        lemma_progress_never_drops(e, chunks.drop_last(), times.drop_last());
        lemma_step_wf(run(e, chunks.drop_last(), times.drop_last()), chunks.last(), times.last());
    }
    if run(e, chunks, times).content_length > 0 {
        let r = run(e, chunks, times);
        assert(progress_of(r.last_bytes as nat, r.content_length as nat) <= 100);
    }
}

/// Pause then resume: whatever an earlier episode wrote, a resumed
/// download is a new episode that starts from an empty file, so the file
/// ends up holding exactly the new episode's bytes.
pub proof fn lemma_resume_starts_over(resumed: Episode, chunks: Seq<Seq<u8>>, times: Seq<u64>)
    requires
        resumed.wf(),
        resumed.downloaded == 0,
        times.len() == chunks.len(),
        concat(chunks).len() <= MAX_DOWNLOAD_SIZE,
    ensures
        resumed.written@ == Seq::<u8>::empty(),
        run(resumed, chunks, times).written@ == concat(chunks),
{
    assert(resumed.written@ =~= Seq::<u8>::empty());
    lemma_download_writes_all(resumed, chunks, times);
}

} // verus!
