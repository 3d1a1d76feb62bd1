//! The registry of tasks: lookups, ownership checks, lifecycle steps by
//! id, what is persisted, and which staged files are orphans.
use vstd::prelude::*;
use crate::error::AppError;
use crate::security::{path_within_base, within, pieces, split_pieces};
use crate::task::{DownloadTask, PersistedTask, TaskEvent, TaskStatus, MIN_ACCOUNT_HASH_LEN, next_status, persists, same_identity, same_secrets, task_wf};

verus! {

/// The tasks known to the server, at most one per id.
pub struct TaskStore {
    pub tasks: Vec<DownloadTask>,
}

/// No two tasks share an id.
pub open spec fn unique_ids(ts: Seq<DownloadTask>) -> bool {
    forall|i: int, j: int| 0 <= i < ts.len() && 0 <= j < ts.len() && i != j ==> #[trigger] ts[i].id@ != #[trigger] ts[j].id@
}

/// The position of the task with id `id`, if any.
pub open spec fn has_id(ts: Seq<DownloadTask>, id: Seq<char>) -> bool {
    exists|i: int| 0 <= i < ts.len() && #[trigger] ts[i].id@ == id
}

/// A task that is written to disk: completed, with a file inside the root.
pub open spec fn is_persistable(t: DownloadTask, root: Seq<char>) -> bool {
    t.status == TaskStatus::Completed && (t.file_path matches Some(f) && within(f@, root))
}

pub open spec fn views(v: Seq<String>) -> Seq<Seq<char>> {
    v.map_values(|s: String| s@)
}

/// The entries of `files` that are not in `known`, in order.
pub open spec fn unknown(files: Seq<Seq<char>>, known: Seq<Seq<char>>) -> Seq<Seq<char>>
    decreases files.len(),
{
    if files.len() == 0 {
        files
    } else if known.contains(files.last()) {
        unknown(files.drop_last(), known)
    } else {
        unknown(files.drop_last(), known).push(files.last())
    }
}

/// The entries of `files` that lie inside `root` and are not in `known`,
/// in order.
pub open spec fn orphans(files: Seq<Seq<char>>, known: Seq<Seq<char>>, root: Seq<char>) -> Seq<Seq<char>>
    decreases files.len(),
{
    if files.len() == 0 {
        files
    } else if known.contains(files.last()) || !within(files.last(), root) {
        orphans(files.drop_last(), known, root)
    } else {
        orphans(files.drop_last(), known, root).push(files.last())
    }
}

fn same_string(a: &String, b: &str) -> (r: bool)
    ensures
        r == (a@ == b@),
{
    *a == String::from_str(b)
}

fn contains_string(v: &Vec<String>, s: &String) -> (r: bool)
    ensures
        r == views(v@).contains(s@),
{
    let mut i: usize = 0;
    while i < v.len()
        invariant
            i <= v@.len(),
            forall|k: int| 0 <= k < i ==> v@[k]@ != s@,
        decreases v.len() - i,
    {
        if v[i] == *s {
            assert(views(v@)[i as int] == s@);
            return true;
        }
        i = i + 1;
    }
    assert(!views(v@).contains(s@)) by {
        if views(v@).contains(s@) {
            let k = choose|k: int| 0 <= k < views(v@).len() && views(v@)[k] == s@;
            assert(v@[k]@ == s@);
        }
    }
    false
}

/// The files a startup sweep deletes: those inside `root` that no known
/// task references. Nothing outside the root is ever listed.
pub fn orphan_files(files: &Vec<String>, known: &Vec<String>, root: &str) -> (r: Vec<String>)
    ensures
        views(r@) == orphans(views(files@), views(known@), root@),
        forall|k: int| 0 <= k < r@.len() ==> within(#[trigger] r@[k]@, root@),
{
    let mut r: Vec<String> = Vec::new();
    let mut i: usize = 0;
    while i < files.len()
        invariant
            i <= files@.len(),
            views(r@) == orphans(views(files@).take(i as int), views(known@), root@),
            forall|k: int| 0 <= k < r@.len() ==> within(#[trigger] r@[k]@, root@),
        decreases files.len() - i,
    {
        assert(views(files@).take(i + 1).drop_last() =~= views(files@).take(i as int));
        assert(views(files@)[i as int] == files@[i as int]@);
        if !contains_string(known, &files[i]) && path_within_base(files[i].as_str(), root) {
            let ghost before = r@;
            let f = files[i].clone();
            r.push(f);
            assert(views(r@) =~= orphans(views(files@).take(i as int), views(known@), root@).push(files@[i as int]@));
            assert forall|k: int| 0 <= k < r@.len() implies within(#[trigger] r@[k]@, root@) by {
                if k < before.len() {
                    assert(r@[k] == before[k]);
                }
            }
        }
        i = i + 1;
    }
    assert(views(files@).take(files@.len() as int) =~= views(files@));
    r
}

proof fn lemma_orphans_unknown(files: Seq<Seq<char>>, known: Seq<Seq<char>>, root: Seq<char>)
    requires
        forall|k: int| 0 <= k < files.len() ==> within(#[trigger] files[k], root),
    ensures
        orphans(files, known, root) == unknown(files, known),
    decreases files.len(),
{
    if files.len() > 0 {
        lemma_orphans_unknown(files.drop_last(), known, root);
        assert(within(files[files.len() - 1], root));
    }
}

proof fn lemma_unknown(files: Seq<Seq<char>>, known: Seq<Seq<char>>)
    ensures
        forall|f: Seq<char>| #[trigger] unknown(files, known).contains(f) <==> files.contains(f) && !known.contains(f),
    decreases files.len(),
{
    if files.len() > 0 {
        lemma_unknown(files.drop_last(), known);
        assert forall|f: Seq<char>| #[trigger] files.contains(f) <==> files.drop_last().contains(f) || f == files.last() by {
            if files.contains(f) {
                let k = choose|k: int| 0 <= k < files.len() && files[k] == f;
                if k < files.len() - 1 {
                    assert(files.drop_last()[k] == f);
                }
            }
            if files.drop_last().contains(f) {
                let k = choose|k: int| 0 <= k < files.drop_last().len() && files.drop_last()[k] == f;
                assert(files[k] == f);
            }
            if f == files.last() {
                assert(files[files.len() - 1] == f);
            }
        }
        let u = unknown(files.drop_last(), known);
        assert forall|f: Seq<char>| #[trigger] u.push(files.last()).contains(f) <==> u.contains(f) || f == files.last() by {
            if u.push(files.last()).contains(f) {
                let k = choose|k: int| 0 <= k < u.len() + 1 && u.push(files.last())[k] == f;
                if k < u.len() {
                    assert(u[k] == f);
                }
            }
            if u.contains(f) {
                let k = choose|k: int| 0 <= k < u.len() && u[k] == f;
                assert(u.push(files.last())[k] == f);
            }
            if f == files.last() {
                assert(u.push(files.last())[u.len() as int] == f);
            }
        }
    }
}

/// The startup sweep keeps exactly the referenced files: when every file
/// found lies inside the root, the files that remain after deleting the
/// orphans are those both present and known, which are all the known
/// ones when every known file is present.
pub proof fn lemma_sweep_keeps_known(files: Seq<Seq<char>>, known: Seq<Seq<char>>, root: Seq<char>)
    requires
        forall|k: int| 0 <= k < files.len() ==> within(#[trigger] files[k], root),
    ensures
        files.to_set().difference(orphans(files, known, root).to_set()) == files.to_set().intersect(known.to_set()),
        known.to_set().subset_of(files.to_set()) ==> files.to_set().difference(orphans(files, known, root).to_set())
            == known.to_set(),
{
    lemma_orphans_unknown(files, known, root);
    lemma_unknown(files, known);
    assert(files.to_set().difference(unknown(files, known).to_set()) =~= files.to_set().intersect(known.to_set()));
    if known.to_set().subset_of(files.to_set()) {
        assert(files.to_set().intersect(known.to_set()) =~= known.to_set());
    }
}

/// The account hashes of a comma separated list, empty entries dropped.
pub fn parse_account_hashes(param: &str) -> (r: Vec<String>)
    ensures
        views(r@) == pieces(param@, ','),
{
    let cs = crate::text::chars_of(param);
    let ps = split_pieces(&cs, ',');
    let mut r: Vec<String> = Vec::new();
    let mut i: usize = 0;
    while i < ps.len()
        invariant
            i <= ps@.len(),
            ps@.len() == pieces(cs@, ',').len(),
            forall|k: int| 0 <= k < ps@.len() ==> (#[trigger] ps@[k])@ == pieces(cs@, ',')[k],
            views(r@) == pieces(cs@, ',').take(i as int),
        decreases ps.len() - i,
    {
        let ghost prev = r@;
        let piece = crate::text::string_of(&ps[i]);
        assert(piece@ == pieces(cs@, ',')[i as int]);
        r.push(piece);
        assert(r@ == prev.push(piece));
        assert(views(r@) =~= views(prev).push(piece@));
        assert(pieces(cs@, ',').take(i + 1) =~= pieces(cs@, ',').take(i as int).push(pieces(cs@, ',')[i as int]));
        i = i + 1;
    }
    assert(pieces(cs@, ',').take(ps@.len() as int) =~= pieces(cs@, ','));
    r
}

/// An account hash given by a client is well formed: eight characters or more.
pub fn require_account_hash(hash: &str) -> (r: Result<(), AppError>)
    ensures
        r.is_ok() == (hash@.len() >= MIN_ACCOUNT_HASH_LEN),
        r matches Err(e) ==> (e matches AppError::BadRequest(m) && m@ == "Missing or invalid accountHash parameter"@),
{
    if hash.unicode_len() < MIN_ACCOUNT_HASH_LEN {
        Err(AppError::BadRequest(String::from_str("Missing or invalid accountHash parameter")))
    } else {
        Ok(())
    }
}

/// Ownership: the stored hash and the given one are the same text.
pub fn verify_ownership(task_hash: &str, hash: &str) -> (r: Result<(), AppError>)
    ensures
        r.is_ok() == (task_hash@ == hash@),
        r matches Err(e) ==> e == AppError::AccessDenied,
{
    if String::from_str(task_hash) == String::from_str(hash) {
        Ok(())
    } else {
        Err(AppError::AccessDenied)
    }
}

impl TaskStore {
    /// The registry's invariant: every record is well formed and ids are unique.
    pub open spec fn wf(&self) -> bool {
        unique_ids(self.tasks@) && forall|i: int| 0 <= i < self.tasks@.len() ==> task_wf(#[trigger] self.tasks@[i])
    }

    /// An empty registry.
    pub fn new() -> (r: TaskStore)
        ensures
            r.wf(),
            r.tasks@.len() == 0,
    {
        TaskStore { tasks: Vec::new() }
    }

    /// The position of the task with id `id`.
    pub fn find(&self, id: &str) -> (r: Option<usize>)
        ensures
            r matches Some(i) ==> i < self.tasks@.len() && self.tasks@[i as int].id@ == id@,
            r is None ==> !has_id(self.tasks@, id@),
    {
        let mut i: usize = 0;
        while i < self.tasks.len()
            invariant
                i <= self.tasks@.len(),
                forall|k: int| 0 <= k < i ==> #[trigger] self.tasks@[k].id@ != id@,
            decreases self.tasks.len() - i,
        {
            if same_string(&self.tasks[i].id, id) {
                return Some(i);
            }
            i = i + 1;
        }
        None
    }

    /// The task with id `id`.
    pub fn get(&self, id: &str) -> (r: Option<&DownloadTask>)
        ensures
            r matches Some(t) ==> t.id@ == id@ && self.tasks@.contains(*t),
            r is None ==> !has_id(self.tasks@, id@),
    {
        match self.find(id) {
            Some(i) => Some(&self.tasks[i]),
            None => None,
        }
    }

    /// Adds a well-formed task; refuses one whose id is taken.
    pub fn insert(&mut self, t: DownloadTask) -> (ok: bool)
        requires
            old(self).wf(),
            task_wf(t),
        ensures
            final(self).wf(),
            ok == !has_id(old(self).tasks@, t.id@),
            ok ==> final(self).tasks@ == old(self).tasks@.push(t),
            !ok ==> final(self).tasks@ == old(self).tasks@,
    {
        if self.find(t.id.as_str()).is_some() {
            return false;
        }
        self.tasks.push(t);
        true
    }

    /// Removes the task with id `id` and hands it back.
    pub fn remove(&mut self, id: &str) -> (r: Option<DownloadTask>)
        requires
            old(self).wf(),
        ensures
            final(self).wf(),
            r is Some == has_id(old(self).tasks@, id@),
            r matches Some(t) ==> t.id@ == id@ && !has_id(final(self).tasks@, id@)
                && exists|i: int| 0 <= i < old(self).tasks@.len() && old(self).tasks@[i] == t
                    && final(self).tasks@ == old(self).tasks@.remove(i),
            r is None ==> final(self).tasks@ == old(self).tasks@,
    {
        match self.find(id) {
            Some(i) => {
                let ghost before = self.tasks@;
                let t = self.tasks.remove(i);
                assert(!has_id(self.tasks@, id@)) by {
                    if has_id(self.tasks@, id@) {
                        let k = choose|k: int| 0 <= k < self.tasks@.len() && #[trigger] self.tasks@[k].id@ == id@;
                        if k < i {
                            assert(before[k].id@ == before[i as int].id@);
                        } else {
                            assert(before[k + 1].id@ == before[i as int].id@);
                        }
                    }
                }
                Some(t)
            },
            None => None,
        }
    }

    /// Runs one lifecycle step on the task at `i`, keeping the invariant.
    fn apply(&mut self, i: usize, e: TaskEvent) -> (ok: bool)
        requires
            old(self).wf(),
            i < old(self).tasks@.len(),
            e == TaskEvent::Pause || e == TaskEvent::Resume || e == TaskEvent::Start,
        ensures
            final(self).wf(),
            final(self).tasks@.len() == old(self).tasks@.len(),
            ok == (next_status(old(self).tasks@[i as int].status, e) is Some),
            forall|k: int| 0 <= k < old(self).tasks@.len() && k != i ==> final(self).tasks@[k] == old(self).tasks@[k],
            same_identity(old(self).tasks@[i as int], final(self).tasks@[i as int]),
            same_secrets(old(self).tasks@[i as int], final(self).tasks@[i as int]),
            ok ==> Some(final(self).tasks@[i as int].status) == next_status(old(self).tasks@[i as int].status, e),
            !ok ==> final(self).tasks@ == old(self).tasks@,
            ok && e == TaskEvent::Start ==> final(self).tasks@[i as int].progress == 0,
            ok && e != TaskEvent::Start ==> final(self).tasks@[i as int] == (DownloadTask {
                status: final(self).tasks@[i as int].status,
                ..old(self).tasks@[i as int]
            }),
    {
        let ghost before = self.tasks@;
        let mut t = self.tasks.remove(i);
        let ok = if e == TaskEvent::Pause {
            t.pause()
        } else if e == TaskEvent::Resume {
            t.resume()
        } else {
            t.begin_episode()
        };
        self.tasks.insert(i, t);
        assert(self.tasks@ =~= before.update(i as int, t));
        if !ok {
            assert(self.tasks@ =~= before);
        }
        assert(unique_ids(self.tasks@)) by {
            assert forall|a: int, b: int| 0 <= a < self.tasks@.len() && 0 <= b < self.tasks@.len() && a != b
                implies #[trigger] self.tasks@[a].id@ != #[trigger] self.tasks@[b].id@ by {
                assert(self.tasks@[a].id@ == before[a].id@);
                assert(self.tasks@[b].id@ == before[b].id@);
            }
        }
        ok
    }

    /// Pauses the task with id `id`; succeeds only while it is downloading.
    pub fn pause_task(&mut self, id: &str) -> (ok: bool)
        requires
            old(self).wf(),
        ensures
            final(self).wf(),
            ok == exists|i: int| 0 <= i < old(self).tasks@.len() && #[trigger] old(self).tasks@[i].id@ == id@
                && old(self).tasks@[i].status == TaskStatus::Downloading,
            ok ==> exists|i: int| 0 <= i < old(self).tasks@.len() && #[trigger] old(self).tasks@[i].id@ == id@
                && final(self).tasks@ == old(self).tasks@.update(i, DownloadTask { status: TaskStatus::Paused, ..old(self).tasks@[i] }),
            !ok ==> final(self).tasks@ == old(self).tasks@,
    {
        match self.find(id) {
            Some(i) => {
                let ghost before = self.tasks@;
                let ok = self.apply(i, TaskEvent::Pause);
                proof {
                    if ok {
                        assert(self.tasks@ =~= before.update(i as int, DownloadTask { status: TaskStatus::Paused, ..before[i as int] }));
                    } else {
                        assert forall|k: int| 0 <= k < before.len() && #[trigger] before[k].id@ == id@
                            implies before[k].status != TaskStatus::Downloading by {
                            if k != i {
                                assert(before[k].id@ == before[i as int].id@);
                            }
                        }
                    }
                }
                ok
            },
            None => false,
        }
    }

    /// Queues a new episode for the paused task with id `id`; succeeds
    /// only while it is paused.
    pub fn resume_task(&mut self, id: &str) -> (ok: bool)
        requires
            old(self).wf(),
        ensures
            final(self).wf(),
            ok == exists|i: int| 0 <= i < old(self).tasks@.len() && #[trigger] old(self).tasks@[i].id@ == id@
                && old(self).tasks@[i].status == TaskStatus::Paused,
            ok ==> exists|i: int| 0 <= i < old(self).tasks@.len() && #[trigger] old(self).tasks@[i].id@ == id@
                && final(self).tasks@ == old(self).tasks@.update(i, DownloadTask { status: TaskStatus::Queued, ..old(self).tasks@[i] }),
            !ok ==> final(self).tasks@ == old(self).tasks@,
    {
        match self.find(id) {
            Some(i) => {
                let ghost before = self.tasks@;
                let ok = self.apply(i, TaskEvent::Resume);
                proof {
                    if ok {
                        assert(self.tasks@ =~= before.update(i as int, DownloadTask { status: TaskStatus::Queued, ..before[i as int] }));
                    } else {
                        assert forall|k: int| 0 <= k < before.len() && #[trigger] before[k].id@ == id@
                            implies before[k].status != TaskStatus::Paused by {
                            if k != i {
                                assert(before[k].id@ == before[i as int].id@);
                            }
                        }
                    }
                }
                ok
            },
            None => false,
        }
    }

    /// Finds the task `id` for a client holding `account_hash`: the hash
    /// must be well formed, the task must exist and the hash must be its own.
    pub fn authorize(&self, id: &str, account_hash: &str) -> (r: Result<usize, AppError>)
        requires
            self.wf(),
        ensures
            account_hash@.len() < MIN_ACCOUNT_HASH_LEN ==> (r matches Err(AppError::BadRequest(_))),
            account_hash@.len() >= MIN_ACCOUNT_HASH_LEN && !has_id(self.tasks@, id@) ==> (r matches Err(AppError::NotFound(_))),
            r matches Err(AppError::AccessDenied) ==> account_hash@.len() >= MIN_ACCOUNT_HASH_LEN && has_id(self.tasks@, id@),
            r matches Ok(i) ==> i < self.tasks@.len() && self.tasks@[i as int].id@ == id@
                && self.tasks@[i as int].account_hash@ == account_hash@ && account_hash@.len() >= MIN_ACCOUNT_HASH_LEN,
            account_hash@.len() >= MIN_ACCOUNT_HASH_LEN && has_id(self.tasks@, id@) && !(exists|i: int|
                0 <= i < self.tasks@.len() && #[trigger] self.tasks@[i].id@ == id@ && self.tasks@[i].account_hash@ == account_hash@)
                ==> r == Err::<usize, AppError>(AppError::AccessDenied),
            account_hash@.len() >= MIN_ACCOUNT_HASH_LEN && has_id(self.tasks@, id@) ==> (r is Ok <==> exists|i: int|
                0 <= i < self.tasks@.len() && #[trigger] self.tasks@[i].id@ == id@ && self.tasks@[i].account_hash@ == account_hash@),
    {
        require_account_hash(account_hash)?;
        match self.find(id) {
            None => Err(AppError::NotFound(String::from_str("Download not found"))),
            Some(i) => {
                match verify_ownership(self.tasks[i].account_hash.as_str(), account_hash) {
                    Ok(()) => Ok(i),
                    Err(e) => {
                        proof {
                            assert forall|k: int| 0 <= k < self.tasks@.len() && #[trigger] self.tasks@[k].id@ == id@
                                implies self.tasks@[k].account_hash@ != account_hash@ by {
                                if k != i {
                                    assert(self.tasks@[k].id@ == self.tasks@[i as int].id@);
                                }
                            }
                        }
                        Err(e)
                    },
                }
            },
        }
    }

    /// Positions of the tasks owned by any of `hashes`, in order.
    pub fn owned_by(&self, hashes: &Vec<String>) -> (r: Vec<usize>)
        ensures
            forall|k: int| 0 <= k < r@.len() ==> #[trigger] r@[k] < self.tasks@.len()
                && views(hashes@).contains(self.tasks@[r@[k] as int].account_hash@),
            forall|i: int| 0 <= i < self.tasks@.len() && views(hashes@).contains(#[trigger] self.tasks@[i].account_hash@)
                ==> r@.contains(i as usize),
            forall|a: int, b: int| 0 <= a < b < r@.len() ==> #[trigger] r@[a] < #[trigger] r@[b],
    {
        let mut r: Vec<usize> = Vec::new();
        let mut i: usize = 0;
        while i < self.tasks.len()
            invariant
                i <= self.tasks@.len(),
                forall|k: int| 0 <= k < r@.len() ==> #[trigger] r@[k] < i
                    && views(hashes@).contains(self.tasks@[r@[k] as int].account_hash@),
                forall|j: int| 0 <= j < i && views(hashes@).contains(#[trigger] self.tasks@[j].account_hash@)
                    ==> r@.contains(j as usize),
                forall|a: int, b: int| 0 <= a < b < r@.len() ==> #[trigger] r@[a] < #[trigger] r@[b],
            decreases self.tasks.len() - i,
        {
            if contains_string(hashes, &self.tasks[i].account_hash) {
                let ghost prev = r@;
                r.push(i);
                assert(r@[r@.len() - 1] == i);
                assert forall|j: int| 0 <= j <= i && views(hashes@).contains(#[trigger] self.tasks@[j].account_hash@)
                    implies r@.contains(j as usize) by {
                    if j < i {
                        let k = choose|k: int| 0 <= k < prev.len() && prev[k] == j as usize;
                        assert(r@[k] == j as usize);
                    } else {
                        assert(r@[r@.len() - 1] == j as usize);
                    }
                }
            }
            i = i + 1;
        }
        r
    }

    /// The records written to disk: every completed task whose file lies
    /// inside `packages_root`, in the disk form, which holds no URL,
    /// licenses or metadata.
    pub fn persisted_records(&self, packages_root: &str) -> (r: Vec<PersistedTask>)
        ensures
            forall|k: int| 0 <= k < r@.len() ==> (#[trigger] r@[k]).status == TaskStatus::Completed
                && within(r@[k].file_path@, packages_root@)
                && exists|i: int| 0 <= i < self.tasks@.len() && persists(r@[k], #[trigger] self.tasks@[i]),
            forall|i: int| 0 <= i < self.tasks@.len() && is_persistable(#[trigger] self.tasks@[i], packages_root@)
                ==> exists|k: int| 0 <= k < r@.len() && persists(#[trigger] r@[k], self.tasks@[i]),
    {
        let mut r: Vec<PersistedTask> = Vec::new();
        let mut i: usize = 0;
        while i < self.tasks.len()
            invariant
                i <= self.tasks@.len(),
                forall|k: int| 0 <= k < r@.len() ==> (#[trigger] r@[k]).status == TaskStatus::Completed
                    && within(r@[k].file_path@, packages_root@)
                    && exists|j: int| 0 <= j < self.tasks@.len() && persists(r@[k], #[trigger] self.tasks@[j]),
                forall|j: int| 0 <= j < i && is_persistable(#[trigger] self.tasks@[j], packages_root@)
                    ==> exists|k: int| 0 <= k < r@.len() && persists(#[trigger] r@[k], self.tasks@[j]),
            decreases self.tasks.len() - i,
        {
            match self.tasks[i].to_persisted() {
                Some(p) => {
                    if path_within_base(p.file_path.as_str(), packages_root) {
                        let ghost before = r@;
                        r.push(p);
                        proof {
                            assert(persists(r@[r@.len() - 1], self.tasks@[i as int]));
                            assert forall|j: int| 0 <= j <= i && is_persistable(#[trigger] self.tasks@[j], packages_root@)
                                implies exists|k: int| 0 <= k < r@.len() && persists(#[trigger] r@[k], self.tasks@[j]) by {
                                if j < i {
                                    let k = choose|k: int| 0 <= k < before.len() && persists(#[trigger] before[k], self.tasks@[j]);
                                    assert(r@[k] == before[k]);
                                } else {
                                    assert(persists(r@[r@.len() - 1], self.tasks@[j]));
                                }
                            }
                        }
                    }
                },
                None => {},
            }
            i = i + 1;
        }
        r
    }
}

} // verus!
