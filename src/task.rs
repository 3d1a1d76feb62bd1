//! The download task record, its lifecycle and its client and disk
//! projections.
use vstd::prelude::*;
use crate::error::AppError;
use crate::security::{is_valid_download_url, validate_download_url};

verus! {

/// Shortest account hash accepted, in characters.
pub const MIN_ACCOUNT_HASH_LEN: usize = 8;

/// Where a task stands.
#[derive(Clone, Copy, Debug, PartialEq, Eq, Structural)]
pub enum TaskStatus {
    Queued,
    Downloading,
    Paused,
    Injecting,
    Completed,
    Failed,
}

/// What happens to a task.
#[derive(Clone, Copy, Debug, PartialEq, Eq, Structural)]
pub enum TaskEvent {
    /// A worker starts a download episode.
    Start,
    /// The user pauses the download.
    Pause,
    /// The user resumes a paused download: a new episode is queued.
    Resume,
    /// All bytes arrived; `has_sinfs` tells whether licenses are injected next.
    BytesDone { has_sinfs: bool },
    /// License injection finished.
    Injected,
    /// A fatal error.
    Fail,
}

/// The lifecycle: the status an event leads to, or `None` where the event
/// is not allowed.
pub open spec fn next_status(s: TaskStatus, e: TaskEvent) -> Option<TaskStatus> {
    match e {
        TaskEvent::Start => if s == TaskStatus::Queued { Some(TaskStatus::Downloading) } else { None },
        TaskEvent::Pause => if s == TaskStatus::Downloading { Some(TaskStatus::Paused) } else { None },
        TaskEvent::Resume => if s == TaskStatus::Paused { Some(TaskStatus::Queued) } else { None },
        TaskEvent::BytesDone { has_sinfs } => if s == TaskStatus::Downloading {
            Some(if has_sinfs { TaskStatus::Injecting } else { TaskStatus::Completed })
        } else {
            None
        },
        TaskEvent::Injected => if s == TaskStatus::Injecting { Some(TaskStatus::Completed) } else { None },
        TaskEvent::Fail => Some(TaskStatus::Failed),
    }
}

/// The lifecycle as one function.
pub fn transition(s: TaskStatus, e: TaskEvent) -> (r: Option<TaskStatus>)
    ensures
        r == next_status(s, e),
{
    match e {
        TaskEvent::Start => if s == TaskStatus::Queued { Some(TaskStatus::Downloading) } else { None },
        TaskEvent::Pause => if s == TaskStatus::Downloading { Some(TaskStatus::Paused) } else { None },
        TaskEvent::Resume => if s == TaskStatus::Paused { Some(TaskStatus::Queued) } else { None },
        TaskEvent::BytesDone { has_sinfs } => if s == TaskStatus::Downloading {
            Some(if has_sinfs { TaskStatus::Injecting } else { TaskStatus::Completed })
        } else {
            None
        },
        TaskEvent::Injected => if s == TaskStatus::Injecting { Some(TaskStatus::Completed) } else { None },
        TaskEvent::Fail => Some(TaskStatus::Failed),
    }
}

/// The name each status has on the wire.
pub open spec fn status_name(s: TaskStatus) -> Seq<char> {
    match s {
        TaskStatus::Queued => "queued"@,
        TaskStatus::Downloading => "downloading"@,
        TaskStatus::Paused => "paused"@,
        TaskStatus::Injecting => "injecting"@,
        TaskStatus::Completed => "completed"@,
        TaskStatus::Failed => "failed"@,
    }
}

impl TaskStatus {
    /// The status's wire name.
    pub fn as_str(&self) -> (r: String)
        ensures
            r@ == status_name(*self),
    {
        match self {
            TaskStatus::Queued => String::from_str("queued"),
            TaskStatus::Downloading => String::from_str("downloading"),
            TaskStatus::Paused => String::from_str("paused"),
            TaskStatus::Injecting => String::from_str("injecting"),
            TaskStatus::Completed => String::from_str("completed"),
            TaskStatus::Failed => String::from_str("failed"),
        }
    }

    /// The status a wire name stands for.
    pub fn from_name(s: &str) -> (r: Option<TaskStatus>)
        ensures
            r matches Some(t) ==> status_name(t) == s@,
            r is None ==> forall|t: TaskStatus| status_name(t) != s@,
    {
        let v = String::from_str(s);
        if v == String::from_str("queued") {
            Some(TaskStatus::Queued)
        } else if v == String::from_str("downloading") {
            Some(TaskStatus::Downloading)
        } else if v == String::from_str("paused") {
            Some(TaskStatus::Paused)
        } else if v == String::from_str("injecting") {
            Some(TaskStatus::Injecting)
        } else if v == String::from_str("completed") {
            Some(TaskStatus::Completed)
        } else if v == String::from_str("failed") {
            Some(TaskStatus::Failed)
        } else {
            None
        }
    }
}

/// The application a task downloads.
#[derive(Debug, Clone)]
pub struct Software {
    pub name: String,
    pub version: String,
    pub bundle_id: String,
    pub artwork_url: String,
}

/// Two descriptors say the same.
pub open spec fn same_software(a: Software, b: Software) -> bool {
    a.name@ == b.name@ && a.version@ == b.version@ && a.bundle_id@ == b.bundle_id@ && a.artwork_url@ == b.artwork_url@
}

impl Software {
    /// A copy of the descriptor.
    pub fn duplicate(&self) -> (r: Software)
        ensures
            same_software(r, *self),
    {
        Software {
            name: self.name.clone(),
            version: self.version.clone(),
            bundle_id: self.bundle_id.clone(),
            artwork_url: self.artwork_url.clone(),
        }
    }
}

/// A license blob: its id and base64 text.
#[derive(Debug, Clone)]
pub struct Sinf {
    pub id: i64,
    pub sinf: String,
}

/// What a client sends to create a task.
#[derive(Debug, Clone)]
pub struct CreateDownloadRequest {
    pub software: Software,
    pub account_hash: String,
    pub download_url: String,
    pub sinfs: Vec<Sinf>,
    pub itunes_metadata: Option<String>,
}

/// A download task.
#[derive(Debug, Clone)]
pub struct DownloadTask {
    pub id: String,
    pub software: Software,
    pub account_hash: String,
    pub download_url: String,
    pub sinfs: Vec<Sinf>,
    pub itunes_metadata: Option<String>,
    pub status: TaskStatus,
    pub progress: u8,
    pub speed: String,
    pub error: Option<String>,
    pub file_path: Option<String>,
    pub created_at: String,
}

/// The task as a client sees it: no URL, licenses or metadata, and
/// whether its file is on disk.
#[derive(Debug, Clone)]
pub struct SanitizedTask {
    pub id: String,
    pub software: Software,
    pub account_hash: String,
    pub status: TaskStatus,
    pub progress: u8,
    pub speed: String,
    pub error: Option<String>,
    pub file_path: Option<String>,
    pub created_at: String,
    pub file_exists: bool,
}

/// The task as it is kept on disk: a completed task, without secrets.
#[derive(Debug, Clone)]
pub struct PersistedTask {
    pub id: String,
    pub software: Software,
    pub account_hash: String,
    pub status: TaskStatus,
    pub progress: u8,
    pub speed: String,
    pub error: Option<String>,
    pub file_path: String,
    pub created_at: String,
}

pub open spec fn opt_view(o: Option<String>) -> Option<Seq<char>> {
    match o {
        Some(s) => Some(s@),
        None => None,
    }
}

fn opt_clone(o: &Option<String>) -> (r: Option<String>)
    ensures
        opt_view(r) == opt_view(*o),
{
    match o {
        Some(s) => Some(s.clone()),
        None => None,
    }
}

/// The URL, licenses and metadata are gone.
pub open spec fn secrets_cleared(t: DownloadTask) -> bool {
    t.download_url@.len() == 0 && t.sinfs@.len() == 0 && t.itunes_metadata is None
}

/// What every task record keeps: progress is a percentage; a task being
/// injected or completed has its file and full progress; a completed task
/// holds no secrets.
pub open spec fn task_wf(t: DownloadTask) -> bool {
    &&& t.progress <= 100
    &&& (t.status == TaskStatus::Injecting || t.status == TaskStatus::Completed) ==> t.file_path is Some && t.progress == 100
    &&& t.status == TaskStatus::Completed ==> secrets_cleared(t)
}

/// Speed shown while no bytes are flowing.
pub open spec fn idle_speed() -> Seq<char> {
    "0 B/s"@
}

/// Message stored on a failed task; causes are not shown to clients.
pub open spec fn failure_message() -> Seq<char> {
    "Download failed"@
}

/// `b` is `a` with only the status, progress, speed, error and file path
/// possibly changed and secrets possibly cleared.
pub open spec fn same_identity(a: DownloadTask, b: DownloadTask) -> bool {
    a.id@ == b.id@ && same_software(a.software, b.software) && a.account_hash@ == b.account_hash@
        && a.created_at@ == b.created_at@
}

/// `b` keeps `a`'s secrets.
pub open spec fn same_secrets(a: DownloadTask, b: DownloadTask) -> bool {
    a.download_url@ == b.download_url@ && a.sinfs@ == b.sinfs@ && opt_view(a.itunes_metadata) == opt_view(b.itunes_metadata)
}

/// The names of the software fields a create request leaves empty,
/// joined by `", "`.
pub open spec fn missing_fields(r: CreateDownloadRequest) -> Seq<char> {
    join_names(seq![
        (r.software.name@.len() == 0, "software.name"@),
        (r.software.version@.len() == 0, "software.version"@),
        (r.software.bundle_id@.len() == 0, "software.bundleID"@),
    ])
}

/// The names flagged in `items`, joined by `", "`.
pub open spec fn join_names(items: Seq<(bool, Seq<char>)>) -> Seq<char>
    decreases items.len(),
{
    if items.len() == 0 {
        Seq::empty()
    } else {
        let prev = join_names(items.drop_last());
        let (flag, name) = items.last();
        if !flag {
            prev
        } else if prev.len() == 0 {
            name
        } else {
            prev + ", "@ + name
        }
    }
}

fn add_name(out: &mut Vec<char>, flag: bool, name: &str)
    ensures
        final(out)@ == (if !flag {
            old(out)@
        } else if old(out)@.len() == 0 {
            name@
        } else {
            old(out)@ + ", "@ + name@
        }),
{
    if flag {
        if out.len() == 0 {
            crate::text::push_str(out, name);
            assert(out@ =~= name@);
        } else {
            crate::text::push_str(out, ", ");
            crate::text::push_str(out, name);
        }
    }
}

/// Checks a create request: the URL must be an acceptable `https` URL
/// (message "Invalid download URL"), the software's name, version and
/// bundle id must be present (the missing ones are listed), and the
/// account hash must have at least eight characters.
pub fn validate_create_request(r: &CreateDownloadRequest) -> (res: Result<(), AppError>)
    ensures
        res.is_ok() == (is_valid_download_url(r.download_url@) && missing_fields(*r).len() == 0
            && r.account_hash@.len() >= MIN_ACCOUNT_HASH_LEN),
        !is_valid_download_url(r.download_url@) ==> (res matches Err(AppError::BadRequest(m))
            && m@ == "Invalid download URL"@),
        is_valid_download_url(r.download_url@) && missing_fields(*r).len() > 0 ==> (res matches Err(
            AppError::MissingFields(m)) && m@ == missing_fields(*r)),
        is_valid_download_url(r.download_url@) && missing_fields(*r).len() == 0 && r.account_hash@.len()
            < MIN_ACCOUNT_HASH_LEN ==> (res matches Err(AppError::BadRequest(m)) && m@ == "Invalid accountHash"@),
{
    if let Err(m) = validate_download_url(r.download_url.as_str()) {
        return Err(AppError::BadRequest(m));
    }
    let ghost items = seq![
        (r.software.name@.len() == 0, "software.name"@),
        (r.software.version@.len() == 0, "software.version"@),
        (r.software.bundle_id@.len() == 0, "software.bundleID"@),
    ];
    let mut names: Vec<char> = Vec::new();
    assert(join_names(items.take(0)) == names@);
    add_name(&mut names, r.software.name.as_str().is_empty(), "software.name");
    assert(items.take(1).drop_last() =~= items.take(0));
    assert(join_names(items.take(1)) == names@);
    add_name(&mut names, r.software.version.as_str().is_empty(), "software.version");
    assert(items.take(2).drop_last() =~= items.take(1));
    assert(join_names(items.take(2)) == names@);
    add_name(&mut names, r.software.bundle_id.as_str().is_empty(), "software.bundleID");
    assert(items.take(3).drop_last() =~= items.take(2));
    assert(items.take(3) =~= items);
    assert(join_names(items) == names@);
    if names.len() > 0 {
        return Err(AppError::MissingFields(crate::text::string_of(&names)));
    }
    if r.account_hash.as_str().unicode_len() < MIN_ACCOUNT_HASH_LEN {
        return Err(AppError::BadRequest(String::from_str("Invalid accountHash")));
    }
    Ok(())
}

fn copy_sinfs(v: &Vec<Sinf>) -> (r: Vec<Sinf>)
    ensures
        r@.len() == v@.len(),
        forall|i: int| 0 <= i < v@.len() ==> #[trigger] r@[i].id == v@[i].id && r@[i].sinf@ == v@[i].sinf@,
{
    let mut r: Vec<Sinf> = Vec::new();
    let mut i: usize = 0;
    while i < v.len()
        invariant
            i <= v@.len(),
            r@.len() == i,
            forall|k: int| 0 <= k < i ==> #[trigger] r@[k].id == v@[k].id && r@[k].sinf@ == v@[k].sinf@,
        decreases v.len() - i,
    {
        r.push(Sinf { id: v[i].id, sinf: v[i].sinf.clone() });
        i = i + 1;
    }
    r
}

/// Builds the record of a new task from a request, with the id and
/// creation time the caller chose. The task starts queued, at zero
/// progress, with no error and no file.
pub fn new_task(req: CreateDownloadRequest, id: String, created_at: String) -> (t: DownloadTask)
    ensures
        t.id@ == id@,
        t.created_at@ == created_at@,
        same_software(t.software, req.software),
        t.account_hash@ == req.account_hash@,
        t.download_url@ == req.download_url@,
        t.sinfs@ == req.sinfs@,
        opt_view(t.itunes_metadata) == opt_view(req.itunes_metadata),
        t.status == TaskStatus::Queued,
        t.progress == 0,
        t.speed@ == idle_speed(),
        t.error is None,
        t.file_path is None,
        task_wf(t),
{
    DownloadTask {
        id,
        software: req.software,
        account_hash: req.account_hash,
        download_url: req.download_url,
        sinfs: req.sinfs,
        itunes_metadata: req.itunes_metadata,
        status: TaskStatus::Queued,
        progress: 0,
        speed: String::from_str("0 B/s"),
        error: None,
        file_path: None,
        created_at,
    }
}

/// `c` shows `t` to a client.
pub open spec fn shows(c: SanitizedTask, t: DownloadTask, file_exists: bool) -> bool {
    c.id@ == t.id@ && same_software(c.software, t.software) && c.account_hash@ == t.account_hash@
        && c.status == t.status && c.progress == t.progress && c.speed@ == t.speed@
        && opt_view(c.error) == opt_view(t.error) && opt_view(c.file_path) == opt_view(t.file_path)
        && c.created_at@ == t.created_at@ && c.file_exists == file_exists
}

/// `p` is the disk form of the completed task `t`.
pub open spec fn persists(p: PersistedTask, t: DownloadTask) -> bool {
    p.id@ == t.id@ && same_software(p.software, t.software) && p.account_hash@ == t.account_hash@
        && p.status == t.status && p.progress == t.progress && p.speed@ == t.speed@
        && opt_view(p.error) == opt_view(t.error) && Some(p.file_path@) == opt_view(t.file_path)
        && p.created_at@ == t.created_at@
}

impl DownloadTask {
    /// The projection sent to clients: every field but the download URL,
    /// the licenses and the metadata, plus whether the file exists.
    pub fn sanitize(&self, file_exists: bool) -> (r: SanitizedTask)
        ensures
            shows(r, *self, file_exists),
    {
        SanitizedTask {
            id: self.id.clone(),
            software: self.software.duplicate(),
            account_hash: self.account_hash.clone(),
            status: self.status,
            progress: self.progress,
            speed: self.speed.clone(),
            error: opt_clone(&self.error),
            file_path: opt_clone(&self.file_path),
            created_at: self.created_at.clone(),
            file_exists,
        }
    }

    /// The projection kept on disk; only a completed task with a file
    /// has one.
    pub fn to_persisted(&self) -> (r: Option<PersistedTask>)
        ensures
            r is Some == (self.status == TaskStatus::Completed && self.file_path is Some),
            r matches Some(p) ==> persists(p, *self),
    {
        if self.status != TaskStatus::Completed {
            return None;
        }
        match &self.file_path {
            Some(f) => Some(PersistedTask {
                id: self.id.clone(),
                software: self.software.duplicate(),
                account_hash: self.account_hash.clone(),
                status: self.status,
                progress: self.progress,
                speed: self.speed.clone(),
                error: opt_clone(&self.error),
                file_path: f.clone(),
                created_at: self.created_at.clone(),
            }),
            None => None,
        }
    }

    fn clear_secrets(&mut self)
        ensures
            secrets_cleared(*final(self)),
            same_identity(*old(self), *final(self)),
            final(self).status == old(self).status,
            final(self).progress == old(self).progress,
            final(self).speed@ == old(self).speed@,
            opt_view(final(self).error) == opt_view(old(self).error),
            opt_view(final(self).file_path) == opt_view(old(self).file_path),
    {
        self.download_url = String::new();
        self.sinfs = Vec::new();
        self.itunes_metadata = None;
    }

    /// A worker starts a download episode on a queued task: it is now
    /// downloading, at zero progress and idle speed, with no error.
    pub fn begin_episode(&mut self) -> (ok: bool)
        requires
            task_wf(*old(self)),
        ensures
            ok == (next_status(old(self).status, TaskEvent::Start) is Some),
            task_wf(*final(self)),
            same_identity(*old(self), *final(self)),
            same_secrets(*old(self), *final(self)),
            opt_view(final(self).file_path) == opt_view(old(self).file_path),
            ok ==> final(self).status == TaskStatus::Downloading && final(self).progress == 0
                && final(self).speed@ == idle_speed() && final(self).error is None,
            !ok ==> *final(self) == *old(self),
    {
        if self.status != TaskStatus::Queued {
            return false;
        }
        self.status = TaskStatus::Downloading;
        self.progress = 0;
        self.speed = String::from_str("0 B/s");
        self.error = None;
        true
    }

    /// Pauses a downloading task.
    pub fn pause(&mut self) -> (ok: bool)
        requires
            task_wf(*old(self)),
        ensures
            ok == (old(self).status == TaskStatus::Downloading),
            task_wf(*final(self)),
            ok ==> *final(self) == (DownloadTask { status: TaskStatus::Paused, ..*old(self) }),
            !ok ==> *final(self) == *old(self),
    {
        if self.status != TaskStatus::Downloading {
            return false;
        }
        self.status = TaskStatus::Paused;
        true
    }

    /// Queues a new episode for a paused task.
    pub fn resume(&mut self) -> (ok: bool)
        requires
            task_wf(*old(self)),
        ensures
            ok == (old(self).status == TaskStatus::Paused),
            task_wf(*final(self)),
            ok ==> *final(self) == (DownloadTask { status: TaskStatus::Queued, ..*old(self) }),
            !ok ==> *final(self) == *old(self),
    {
        if self.status != TaskStatus::Paused {
            return false;
        }
        self.status = TaskStatus::Queued;
        true
    }

    /// Records telemetry of a downloading task.
    pub fn record_progress(&mut self, progress: u8, speed: String) -> (ok: bool)
        requires
            task_wf(*old(self)),
            progress <= 100,
        ensures
            ok == (old(self).status == TaskStatus::Downloading),
            task_wf(*final(self)),
            ok ==> *final(self) == (DownloadTask { progress, speed, ..*old(self) }),
            !ok ==> *final(self) == *old(self),
    {
        if self.status != TaskStatus::Downloading {
            return false;
        }
        self.progress = progress;
        self.speed = speed;
        true
    }

    /// All bytes of a downloading task with a staged file arrived: it moves
    /// on to injection when it has licenses, else it completes. Either way
    /// progress is 100, and a completed task loses its secrets.
    pub fn finish_bytes(&mut self) -> (ok: bool)
        requires
            task_wf(*old(self)),
        ensures
            ok == (old(self).status == TaskStatus::Downloading && old(self).file_path is Some),
            task_wf(*final(self)),
            same_identity(*old(self), *final(self)),
            opt_view(final(self).file_path) == opt_view(old(self).file_path),
            ok ==> Some(final(self).status) == next_status(
                old(self).status, TaskEvent::BytesDone { has_sinfs: old(self).sinfs@.len() > 0 })
                && final(self).progress == 100,
            ok && final(self).status == TaskStatus::Injecting ==> same_secrets(*old(self), *final(self)),
            !ok ==> *final(self) == *old(self),
    {
        if self.status != TaskStatus::Downloading || self.file_path.is_none() {
            return false;
        }
        self.progress = 100;
        if self.sinfs.len() > 0 {
            self.status = TaskStatus::Injecting;
        } else {
            self.status = TaskStatus::Completed;
            self.clear_secrets();
        }
        true
    }

    /// License injection of a task finished: it completes and loses its
    /// secrets.
    pub fn finish_injection(&mut self) -> (ok: bool)
        requires
            task_wf(*old(self)),
        ensures
            ok == (old(self).status == TaskStatus::Injecting),
            task_wf(*final(self)),
            same_identity(*old(self), *final(self)),
            opt_view(final(self).file_path) == opt_view(old(self).file_path),
            ok ==> final(self).status == TaskStatus::Completed && final(self).progress == 100
                && secrets_cleared(*final(self)),
            !ok ==> *final(self) == *old(self),
    {
        if self.status != TaskStatus::Injecting {
            return false;
        }
        self.status = TaskStatus::Completed;
        self.progress = 100;
        self.clear_secrets();
        true
    }

    /// A fatal error: the task fails with the generic message.
    pub fn fail(&mut self)
        requires
            task_wf(*old(self)),
        ensures
            task_wf(*final(self)),
            *final(self) == (DownloadTask { status: TaskStatus::Failed, error: final(self).error, ..*old(self) }),
            final(self).error matches Some(e) && e@ == failure_message(),
    {
        self.status = TaskStatus::Failed;
        self.error = Some(String::from_str("Download failed"));
    }

    /// Records where the task's file is staged.
    pub fn set_file_path(&mut self, path: String)
        requires
            task_wf(*old(self)),
        ensures
            task_wf(*final(self)),
            *final(self) == (DownloadTask { file_path: Some(path), ..*old(self) }),
    {
        self.file_path = Some(path);
    }
}

/// Brings back a task read from disk: only a completed record with an id
/// and a file path is restored, as completed at full progress and idle
/// speed, without secrets.
pub fn restore_task(p: PersistedTask) -> (r: Option<DownloadTask>)
    ensures
        r is Some == (p.status == TaskStatus::Completed && p.id@.len() > 0 && p.file_path@.len() > 0),
        r matches Some(t) ==> task_wf(t) && t.status == TaskStatus::Completed && t.progress == 100
            && t.speed@ == idle_speed() && secrets_cleared(t) && t.id@ == p.id@
            && same_software(t.software, p.software) && t.account_hash@ == p.account_hash@
            && opt_view(t.file_path) == Some(p.file_path@) && t.created_at@ == p.created_at@
            && opt_view(t.error) == opt_view(p.error),
{
    if p.status != TaskStatus::Completed || p.id.as_str().is_empty() || p.file_path.as_str().is_empty() {
        return None;
    }
    Some(DownloadTask {
        id: p.id,
        software: p.software,
        account_hash: p.account_hash,
        download_url: String::new(),
        sinfs: Vec::new(),
        itunes_metadata: None,
        status: TaskStatus::Completed,
        progress: 100,
        speed: String::from_str("0 B/s"),
        error: p.error,
        file_path: Some(p.file_path),
        created_at: p.created_at,
    })
}

} // verus!
