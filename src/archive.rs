//! Rewriting an application archive with licenses injected: the entries
//! the plan replaces are dropped, every other entry is copied as stored
//! (without recompression) in the order it had, and the plan's entries
//! are appended uncompressed.
use vstd::prelude::*;
use std::io::Cursor;
use zip::{ZipArchive, ZipWriter};
use crate::injection::{InjectionPlan, InjectionSource, entries_view, sinf_bytes, build_manifest_path,
    build_info_path, choose_source, find_bundle_name, plan_injection, first_bundle, manifest_path, info_path,
    plan_entries, license_entries, metadata_path, sinf_path};
use crate::plist::{get_string, get_string_array, metadata_to_inject, plist_string, plist_strings,
    xml_to_binary_plist};
use crate::store::views;
use crate::task::Sinf;

verus! {

#[verifier::external_type_specification]
#[verifier::external_body]
#[verifier::reject_recursive_types(T)]
pub struct ExCursor<T>(Cursor<T>);

#[verifier::external_type_specification]
#[verifier::external_body]
#[verifier::reject_recursive_types(R)]
pub struct ExZipArchive<R>(ZipArchive<R>);

/// An archive read from memory.
pub type Archive = ZipArchive<Cursor<Vec<u8>>>;

/// An archive being written to memory. The writer type's generic bound
/// cannot be declared to the verifier, so it is held here opaquely.
#[verifier::external_body]
pub struct ArchiveWriter {
    inner: ZipWriter<Cursor<Vec<u8>>>,
}

/// One entry of an archive: its name, its decompressed contents, its
/// stored (raw) bytes, its compression method code and its CRC-32.
pub type ZipEntry = (Seq<char>, Seq<u8>, Seq<u8>, u16, u32);

/// Compression method code of an uncompressed entry.
pub const STORED: u16 = 0;

/// Whether bytes open as an archive (its central directory reads).
pub uninterp spec fn zip_opens(bytes: Seq<u8>) -> bool;

/// The entries of the archive held in `bytes`, in order.
pub uninterp spec fn zip_entries(bytes: Seq<u8>) -> Seq<ZipEntry>;

/// Whether entry `i` of the archive held in `bytes` decompresses.
pub uninterp spec fn zip_entry_reads(bytes: Seq<u8>, i: int) -> bool;

/// The bytes an open archive was read from.
pub uninterp spec fn archive_source(a: Archive) -> Seq<u8>;

/// The entries written so far, in order.
pub uninterp spec fn written(w: ArchiveWriter) -> Seq<ZipEntry>;

/// Whether copying entry `i` of the archive in `src` as stored succeeds
/// after the entries `prior` were written.
pub uninterp spec fn zip_copy_ok(prior: Seq<ZipEntry>, src: Seq<u8>, i: int) -> bool;

/// Whether appending an uncompressed entry succeeds after the entries
/// `prior` were written.
pub uninterp spec fn zip_store_ok(prior: Seq<ZipEntry>, path: Seq<char>, data: Seq<u8>) -> bool;

/// Whether finishing an archive holding `entries` succeeds.
pub uninterp spec fn zip_finish_ok(entries: Seq<ZipEntry>) -> bool;

/// The CRC-32 the writer records for uncompressed `data`.
pub uninterp spec fn stored_crc(data: Seq<u8>) -> u32;

/// The bytes that standard base64 text decodes to; `None` for text that
/// is not valid standard base64.
pub uninterp spec fn base64_decoded(text: Seq<char>) -> Option<Seq<u8>>;

/// The entries of an open archive.
pub open spec fn entries_of(a: Archive) -> Seq<ZipEntry> {
    zip_entries(archive_source(a))
}

/// The names of a list of entries.
pub open spec fn names_of(es: Seq<ZipEntry>) -> Seq<Seq<char>> {
    es.map_values(|e: ZipEntry| e.0)
}

/// The decompressed contents of a list of entries.
pub open spec fn contents_of(es: Seq<ZipEntry>) -> Seq<Seq<u8>> {
    es.map_values(|e: ZipEntry| e.1)
}

/// The names of an open archive's entries, in order.
pub open spec fn archive_entries(a: Archive) -> Seq<Seq<char>> {
    names_of(entries_of(a))
}

/// The entry an uncompressed append writes.
pub open spec fn stored_entry(f: (Seq<char>, Seq<u8>)) -> ZipEntry {
    (f.0, f.1, f.1, STORED, stored_crc(f.1))
}

/// Relies on `zip::ZipArchive::new`: reads the central directory of an
/// archive held in memory.
#[verifier::external_body]
pub fn open_archive(bytes: Vec<u8>) -> (r: Result<Archive, String>)
    ensures
        r is Ok == zip_opens(bytes@),
        r matches Ok(a) ==> archive_source(a) == bytes@,
{
    ZipArchive::new(Cursor::new(bytes)).map_err(|e| e.to_string())
}

/// Relies on `zip::ZipArchive::len`: the number of entries.
#[verifier::external_body]
fn archive_len(a: &Archive) -> (r: usize)
    ensures
        r == entries_of(*a).len(),
{
    a.len()
}

/// Relies on `zip::ZipArchive::name_for_index`: the name of entry `i`.
#[verifier::external_body]
fn entry_name(a: &Archive, i: usize) -> (r: String)
    requires
        i < entries_of(*a).len(),
    ensures
        r@ == entries_of(*a)[i as int].0,
{
    a.name_for_index(i).map(String::from).unwrap_or_default()
}

/// Relies on `zip::ZipArchive::by_index` and `Read::read_to_end`: the
/// decompressed contents of entry `i`.
#[verifier::external_body]
fn entry_bytes(a: &mut Archive, i: usize) -> (r: Result<Vec<u8>, String>)
    requires
        i < entries_of(*old(a)).len(),
    ensures
        archive_source(*final(a)) == archive_source(*old(a)),
        r is Ok == zip_entry_reads(archive_source(*old(a)), i as int),
        r matches Ok(b) ==> b@ == entries_of(*old(a))[i as int].1,
{
    let mut f = a.by_index(i).map_err(|e| e.to_string())?;
    let mut buf: Vec<u8> = Vec::new();
    std::io::Read::read_to_end(&mut f, &mut buf).map_err(|e| e.to_string())?;
    Ok(buf)
}

/// Relies on `zip::ZipWriter::new`: an empty archive in memory.
#[verifier::external_body]
fn new_writer() -> (r: ArchiveWriter)
    ensures
        written(r) == Seq::<ZipEntry>::empty(),
{
    ArchiveWriter { inner: ZipWriter::new(Cursor::new(Vec::new())) }
}

/// Relies on `zip::ZipArchive::by_index_raw` and
/// `zip::ZipWriter::raw_copy_file`: copies entry `i` as stored, with its
/// name, raw bytes, method and CRC.
#[verifier::external_body]
fn copy_entry(w: &mut ArchiveWriter, a: &mut Archive, i: usize) -> (r: Result<(), String>)
    requires
        i < entries_of(*old(a)).len(),
    ensures
        archive_source(*final(a)) == archive_source(*old(a)),
        r is Ok == zip_copy_ok(written(*old(w)), archive_source(*old(a)), i as int),
        r is Ok ==> written(*final(w)) == written(*old(w)).push(entries_of(*old(a))[i as int]),
{
    let f = a.by_index_raw(i).map_err(|e| e.to_string())?;
    w.inner.raw_copy_file(f).map_err(|e| e.to_string())
}

/// Relies on `zip::ZipWriter::start_file` with the Stored method and
/// `Write::write_all`: appends an uncompressed entry.
#[verifier::external_body]
fn add_stored_entry(w: &mut ArchiveWriter, path: &str, data: &[u8]) -> (r: Result<(), String>)
    ensures
        r is Ok == zip_store_ok(written(*old(w)), path@, data@),
        r is Ok ==> written(*final(w)) == written(*old(w)).push((path@, data@, data@, STORED, stored_crc(data@))),
{
    let options = zip::write::SimpleFileOptions::default().compression_method(zip::CompressionMethod::Stored);
    w.inner.start_file(path, options).map_err(|e| e.to_string())?;
    std::io::Write::write_all(&mut w.inner, data).map_err(|e| e.to_string())
}

/// Relies on `zip::ZipWriter::finish`: writes the central directory and
/// hands back the archive's bytes, which read back as the entries written.
#[verifier::external_body]
fn finish_writer(w: ArchiveWriter) -> (r: Result<Vec<u8>, String>)
    ensures
        r is Ok == zip_finish_ok(written(w)),
        r matches Ok(b) ==> zip_opens(b@) && zip_entries(b@) == written(w),
{
    w.inner.finish().map(|c| c.into_inner()).map_err(|e| e.to_string())
}

/// Relies on base64's `STANDARD` engine `decode`.
#[verifier::external_body]
fn decode_base64(text: &str) -> (r: Option<Vec<u8>>)
    ensures
        match r {
            Some(b) => base64_decoded(text@) == Some(b@),
            None => base64_decoded(text@) is None,
        },
{
    base64::Engine::decode(&base64::engine::general_purpose::STANDARD, text).ok()
}

/// The names of all entries of an archive, in order.
pub fn read_entry_names(a: &Archive) -> (r: Vec<String>)
    ensures
        views(r@) == archive_entries(*a),
{
    let n = archive_len(a);
    let mut v: Vec<String> = Vec::new();
    let mut i: usize = 0;
    while i < n
        invariant
            n == entries_of(*a).len(),
            i <= n,
            views(v@) == archive_entries(*a).take(i as int),
        decreases n - i,
    {
        let name = entry_name(a, i);
        let ghost prev = v@;
        v.push(name);
        assert(views(v@) =~= views(prev).push(name@));
        assert(archive_entries(*a).take(i + 1) =~= archive_entries(*a).take(i as int).push(archive_entries(*a)[i as int]));
        i = i + 1;
    }
    assert(archive_entries(*a).take(n as int) =~= archive_entries(*a));
    v
}

/// The position of the first entry named `path`.
pub fn position_of(names: &Vec<String>, path: &String) -> (r: Option<usize>)
    ensures
        r matches Some(i) ==> i < names@.len() && names@[i as int]@ == path@
            && forall|k: int| 0 <= k < i ==> names@[k]@ != path@,
        r is None ==> !views(names@).contains(path@),
{
    let mut i: usize = 0;
    while i < names.len()
        invariant
            i <= names@.len(),
            forall|k: int| 0 <= k < i ==> names@[k]@ != path@,
        decreases names.len() - i,
    {
        if names[i] == *path {
            return Some(i);
        }
        i = i + 1;
    }
    assert(!views(names@).contains(path@)) by {
        if views(names@).contains(path@) {
            let k = choose|k: int| 0 <= k < views(names@).len() && views(names@)[k] == path@;
            assert(names@[k]@ == path@);
        }
    }
    None
}

/// The licenses decoded from base64, in order, with their ids.
pub open spec fn decoded_all(sinfs: Seq<Sinf>) -> Option<Seq<Seq<u8>>>
    decreases sinfs.len(),
{
    if sinfs.len() == 0 {
        Some(Seq::empty())
    } else {
        match (decoded_all(sinfs.drop_last()), base64_decoded(sinfs.last().sinf@)) {
            (Some(prev), Some(b)) => Some(prev.push(b)),
            _ => None,
        }
    }
}

/// Decodes each license's base64 text; fails if any is not valid base64.
pub fn decode_sinfs(sinfs: &Vec<Sinf>) -> (r: Result<Vec<(i64, Vec<u8>)>, String>)
    ensures
        r is Ok == decoded_all(sinfs@) is Some,
        r matches Ok(v) ==> Some(sinf_bytes(v@)) == decoded_all(sinfs@) && v@.len() == sinfs@.len()
            && forall|i: int| 0 <= i < v@.len() ==> (#[trigger] v@[i]).0 == sinfs@[i].id,
{
    let mut v: Vec<(i64, Vec<u8>)> = Vec::new();
    let mut i: usize = 0;
    while i < sinfs.len()
        invariant
            i <= sinfs@.len(),
            v@.len() == i,
            Some(sinf_bytes(v@)) == decoded_all(sinfs@.take(i as int)),
            forall|k: int| 0 <= k < i ==> (#[trigger] v@[k]).0 == sinfs@[k].id,
        decreases sinfs.len() - i,
    {
        assert(sinfs@.take(i + 1).drop_last() =~= sinfs@.take(i as int));
        match decode_base64(sinfs[i].sinf.as_str()) {
            Some(b) => {
                let ghost prev = v@;
                let e = (sinfs[i].id, b);
                v.push(e);
                assert(v@ == prev.push(e));
                assert(sinf_bytes(v@) =~= sinf_bytes(prev).push(b@));
            },
            None => {
                proof {
                    lemma_decoded_all_prefix(sinfs@, i as int + 1);
                }
                return Err(String::from_str("Decode sinf failed"));
            },
        }
        i = i + 1;
    }
    assert(sinfs@.take(sinfs@.len() as int) =~= sinfs@);
    Ok(v)
}

/// Once a prefix fails to decode, the whole list fails.
proof fn lemma_decoded_all_prefix(s: Seq<Sinf>, k: int)
    requires
        0 <= k <= s.len(),
        decoded_all(s.take(k)) is None,
    ensures
        decoded_all(s) is None,
    decreases s.len() - k,
{
    if k < s.len() {
        assert(s.take(k + 1).drop_last() =~= s.take(k));
        lemma_decoded_all_prefix(s, k + 1);
    } else {
        assert(s.take(k) =~= s);
    }
}

/// The metadata entry's bytes: the base64 text decoded, then re-encoded
/// as a binary property list when possible.
pub fn decode_metadata(b64: &str) -> (r: Result<Vec<u8>, String>)
    ensures
        r is Ok == base64_decoded(b64@) is Some,
        r matches Ok(m) ==> m@ == metadata_to_inject(base64_decoded(b64@)->Some_0),
{
    match decode_base64(b64) {
        Some(xml) => Ok(xml_to_binary_plist(xml.as_slice())),
        None => Err(String::from_str("Decode metadata failed")),
    }
}

/// The injection source given the bundle's manifest and info property
/// lists (each absent when the archive lacks it): the manifest's
/// `SinfPaths` when present, else `Info.plist`'s `CFBundleExecutable`.
pub fn source_from_plists(manifest: Option<&Vec<u8>>, info: Option<&Vec<u8>>) -> (r: Result<InjectionSource, String>)
    ensures
        ({
            let paths = match manifest { Some(m) => plist_strings(m@, "SinfPaths"@), None => None };
            let exec = match info { Some(i) => plist_string(i@, "CFBundleExecutable"@), None => None };
            &&& paths matches Some(ps) ==> (r matches Ok(InjectionSource::Manifest { sinf_paths })
                && views(sinf_paths@) == ps)
            &&& paths is None && exec is Some ==> (r matches Ok(InjectionSource::Info { bundle_executable })
                && bundle_executable@ == exec->Some_0)
            &&& paths is None && exec is None ==> r is Err
        }),
{
    let paths = match manifest {
        Some(m) => get_string_array(m.as_slice(), "SinfPaths"),
        None => None,
    };
    let exec = match info {
        Some(i) => get_string(i.as_slice(), "CFBundleExecutable"),
        None => None,
    };
    choose_source(paths, exec)
}

/// The entries of `es` whose names are not in `targets`, in order.
pub open spec fn kept_entries(es: Seq<ZipEntry>, targets: Seq<Seq<char>>) -> Seq<ZipEntry>
    decreases es.len(),
{
    if es.len() == 0 {
        es
    } else if targets.contains(es.last().0) {
        kept_entries(es.drop_last(), targets)
    } else {
        kept_entries(es.drop_last(), targets).push(es.last())
    }
}

/// The paths a plan writes.
pub open spec fn targets_of(files: Seq<(Seq<char>, Seq<u8>)>) -> Seq<Seq<char>> {
    files.map_values(|f: (Seq<char>, Seq<u8>)| f.0)
}

/// The entries appended for a plan's files, in order.
pub open spec fn stored_entries(files: Seq<(Seq<char>, Seq<u8>)>) -> Seq<ZipEntry> {
    files.map_values(|f: (Seq<char>, Seq<u8>)| stored_entry(f))
}

/// Copying, as stored, the entries among the first `n` of the archive in
/// `src` whose names are not in `targets`: the entries written, or `None`
/// once a copy fails.
pub open spec fn copy_run(src: Seq<u8>, targets: Seq<Seq<char>>, n: nat) -> Option<Seq<ZipEntry>>
    decreases n,
{
    if n == 0 {
        Some(Seq::empty())
    } else {
        match copy_run(src, targets, (n - 1) as nat) {
            None => None,
            Some(p) => {
                let e = zip_entries(src)[n - 1];
                if targets.contains(e.0) {
                    Some(p)
                } else if zip_copy_ok(p, src, n - 1) {
                    Some(p.push(e))
                } else {
                    None
                }
            },
        }
    }
}

/// Appending the first `k` files uncompressed after `prior`: the entries
/// written, or `None` once an append fails.
pub open spec fn store_run(prior: Seq<ZipEntry>, files: Seq<(Seq<char>, Seq<u8>)>, k: nat) -> Option<Seq<ZipEntry>>
    decreases k,
{
    if k == 0 {
        Some(prior)
    } else {
        match store_run(prior, files, (k - 1) as nat) {
            None => None,
            Some(p) => if zip_store_ok(p, files[k - 1].0, files[k - 1].1) {
                Some(p.push(stored_entry(files[k - 1])))
            } else {
                None
            },
        }
    }
}

/// The entries of the rewritten archive, or `None` when a step fails:
/// the kept entries of `src`, then the plan's files.
pub open spec fn rewritten(src: Seq<u8>, files: Seq<(Seq<char>, Seq<u8>)>) -> Option<Seq<ZipEntry>> {
    match copy_run(src, targets_of(files), zip_entries(src).len()) {
        Some(p) => store_run(p, files, files.len()),
        None => None,
    }
}

proof fn lemma_copy_run_fails(src: Seq<u8>, targets: Seq<Seq<char>>, k: nat, n: nat)
    requires
        k <= n,
        copy_run(src, targets, k) is None,
    ensures
        copy_run(src, targets, n) is None,
    decreases n - k,
{
    if k < n {
        lemma_copy_run_fails(src, targets, k, (n - 1) as nat);
    }
}

proof fn lemma_store_run_fails(prior: Seq<ZipEntry>, files: Seq<(Seq<char>, Seq<u8>)>, k: nat, n: nat)
    requires
        k <= n,
        store_run(prior, files, k) is None,
    ensures
        store_run(prior, files, n) is None,
    decreases n - k,
{
    if k < n {
        lemma_store_run_fails(prior, files, k, (n - 1) as nat);
    }
}

proof fn lemma_copy_run_value(src: Seq<u8>, targets: Seq<Seq<char>>, n: nat)
    requires
        n <= zip_entries(src).len(),
        copy_run(src, targets, n) is Some,
    ensures
        copy_run(src, targets, n)->Some_0 == kept_entries(zip_entries(src).take(n as int), targets),
    decreases n,
{
    if n > 0 {
        lemma_copy_run_value(src, targets, (n - 1) as nat);
        assert(zip_entries(src).take(n as int).drop_last() =~= zip_entries(src).take(n - 1));
    } else {
        assert(zip_entries(src).take(0) =~= Seq::<ZipEntry>::empty());
    }
}

proof fn lemma_store_run_value(prior: Seq<ZipEntry>, files: Seq<(Seq<char>, Seq<u8>)>, k: nat)
    requires
        k <= files.len(),
        store_run(prior, files, k) is Some,
    ensures
        store_run(prior, files, k)->Some_0 == prior + stored_entries(files.take(k as int)),
    decreases k,
{
    if k > 0 {
        lemma_store_run_value(prior, files, (k - 1) as nat);
        assert(stored_entries(files.take(k as int)) =~= stored_entries(files.take(k - 1)).push(stored_entry(files[k - 1])));
        assert(prior + stored_entries(files.take(k as int)) =~= (prior + stored_entries(files.take(k - 1))).push(stored_entry(files[k - 1])));
    } else {
        assert(prior + stored_entries(files.take(0)) =~= prior);
    }
}

/// Rewritten entries, when every step succeeds: the kept entries, then
/// the plan's files.
proof fn lemma_rewritten_value(src: Seq<u8>, files: Seq<(Seq<char>, Seq<u8>)>)
    requires
        rewritten(src, files) is Some,
    ensures
        rewritten(src, files)->Some_0 == kept_entries(zip_entries(src), targets_of(files)) + stored_entries(files),
{
    let n = zip_entries(src).len();
    lemma_copy_run_value(src, targets_of(files), n);
    assert(zip_entries(src).take(n as int) =~= zip_entries(src));
    let p = copy_run(src, targets_of(files), n)->Some_0;
    lemma_store_run_value(p, files, files.len());
    assert(files.take(files.len() as int) =~= files);
}

/// Writes the rewritten archive's entries: every entry of `a` whose name
/// the plan does not write, copied as stored in order, then the plan's
/// files uncompressed. Succeeds exactly when every copy and append does.
pub fn write_entries(w: &mut ArchiveWriter, a: &mut Archive, names: &Vec<String>, plan: &InjectionPlan) -> (r: Result<(), String>)
    requires
        views(names@) == archive_entries(*old(a)),
        written(*old(w)) == Seq::<ZipEntry>::empty(),
    ensures
        archive_source(*final(a)) == archive_source(*old(a)),
        r is Ok == rewritten(archive_source(*old(a)), entries_view(plan.files@)) is Some,
        r is Ok ==> written(*final(w)) == rewritten(archive_source(*old(a)), entries_view(plan.files@))->Some_0,
        r is Ok ==> written(*final(w)) == kept_entries(entries_of(*old(a)), targets_of(entries_view(plan.files@)))
            + stored_entries(entries_view(plan.files@)),
{
    let ghost src = archive_source(*a);
    let ghost fs = entries_view(plan.files@);
    let ghost targets = targets_of(fs);
    let mut paths: Vec<String> = Vec::new();
    let mut j: usize = 0;
    while j < plan.files.len()
        invariant
            j <= plan.files@.len(),
            fs == entries_view(plan.files@),
            targets == targets_of(fs),
            views(paths@) == targets.take(j as int),
        decreases plan.files.len() - j,
    {
        let ghost prev = paths@;
        let p = plan.files[j].0.clone();
        paths.push(p);
        assert(views(paths@) =~= views(prev).push(p@));
        assert(targets.take(j + 1) =~= targets.take(j as int).push(targets[j as int]));
        j = j + 1;
    }
    assert(targets.take(plan.files@.len() as int) =~= targets);
    let n = names.len();
    assert(views(names@).len() == names@.len());
    assert(names_of(zip_entries(src)).len() == zip_entries(src).len());
    let mut i: usize = 0;
    while i < n
        invariant
            n == names@.len(),
            n == zip_entries(src).len(),
            views(names@) == names_of(zip_entries(src)),
            src == archive_source(*old(a)),
            fs == entries_view(plan.files@),
            targets == targets_of(fs),
            archive_source(*a) == src,
            views(paths@) == targets,
            i <= n,
            copy_run(src, targets, i as nat) == Some(written(*w)),
        decreases n - i,
    {
        assert(views(names@)[i as int] == names@[i as int]@);
        assert(names_of(zip_entries(src))[i as int] == zip_entries(src)[i as int].0);
        let pos = position_of(&paths, &names[i]);
        proof {
            if let Some(j) = pos {
                assert(views(paths@)[j as int] == paths@[j as int]@);
                assert(targets.contains(zip_entries(src)[i as int].0));
            }
        }
        if pos.is_none() {
            match copy_entry(w, a, i) {
                Ok(()) => {},
                Err(e) => {
                    proof {
                        lemma_copy_run_fails(src, targets, (i + 1) as nat, zip_entries(src).len());
                    }
                    return Err(e);
                },
            }
        }
        i = i + 1;
    }
    let ghost copied = written(*w);
    let mut k: usize = 0;
    while k < plan.files.len()
        invariant
            k <= plan.files@.len(),
            n == zip_entries(src).len(),
            src == archive_source(*old(a)),
            targets == targets_of(fs),
            archive_source(*a) == src,
            fs == entries_view(plan.files@),
            copy_run(src, targets, n as nat) == Some(copied),
            store_run(copied, fs, k as nat) == Some(written(*w)),
        decreases plan.files.len() - k,
    {
        assert(fs[k as int] == (plan.files@[k as int].0@, plan.files@[k as int].1@));
        match add_stored_entry(w, plan.files[k].0.as_str(), plan.files[k].1.as_slice()) {
            Ok(()) => {},
            Err(e) => {
                proof {
                    lemma_store_run_fails(copied, fs, (k + 1) as nat, fs.len());
                }
                return Err(e);
            },
        }
        k = k + 1;
    }
    proof {
        lemma_rewritten_value(src, fs);
    }
    Ok(())
}

/// Rewrites an archive with the plan applied, in the order `write_entries`
/// gives; the bytes returned read back as those entries.
pub fn rewrite_archive(a: &mut Archive, names: &Vec<String>, plan: &InjectionPlan) -> (r: Result<Vec<u8>, String>)
    requires
        views(names@) == archive_entries(*old(a)),
    ensures
        archive_source(*final(a)) == archive_source(*old(a)),
        r is Ok == (rewritten(archive_source(*old(a)), entries_view(plan.files@)) is Some
            && zip_finish_ok(rewritten(archive_source(*old(a)), entries_view(plan.files@))->Some_0)),
        r matches Ok(b) ==> zip_opens(b@) && zip_entries(b@) == kept_entries(entries_of(*old(a)),
            targets_of(entries_view(plan.files@))) + stored_entries(entries_view(plan.files@)),
{
    let mut w = new_writer();
    write_entries(&mut w, a, names, plan)?;
    finish_writer(w)
}

/// `i` is the first position of `p` in `names`.
pub open spec fn is_first(names: Seq<Seq<char>>, p: Seq<char>, i: int) -> bool {
    0 <= i < names.len() && names[i] == p && forall|k: int| 0 <= k < i ==> names[k] != p
}

/// The first position of `p` in `names`, if any.
pub open spec fn first_index(names: Seq<Seq<char>>, p: Seq<char>) -> Option<int> {
    if exists|i: int| is_first(names, p, i) {
        Some(choose|i: int| is_first(names, p, i))
    } else {
        None
    }
}

/// The contents of the first entry named `p` in the archive in `src`.
pub open spec fn entry_of(src: Seq<u8>, p: Seq<char>) -> Option<Seq<u8>> {
    match first_index(names_of(zip_entries(src)), p) {
        Some(i) => Some(zip_entries(src)[i].1),
        None => None,
    }
}

/// The first entry named `p`, if there is one, decompresses.
pub open spec fn reads_if_present(src: Seq<u8>, p: Seq<char>) -> bool {
    match first_index(names_of(zip_entries(src)), p) {
        Some(i) => zip_entry_reads(src, i),
        None => true,
    }
}

/// The bundle of the archive in `src`.
pub open spec fn archive_bundle(src: Seq<u8>) -> Option<Seq<char>> {
    first_bundle(names_of(zip_entries(src)))
}

/// The `SinfPaths` of bundle `b`'s manifest, if it has them.
pub open spec fn manifest_paths(src: Seq<u8>, b: Seq<char>) -> Option<Seq<Seq<char>>> {
    match entry_of(src, manifest_path(b)) {
        Some(m) => plist_strings(m, "SinfPaths"@),
        None => None,
    }
}

/// The `CFBundleExecutable` of bundle `b`'s info list, if it names one.
pub open spec fn info_executable(src: Seq<u8>, b: Seq<char>) -> Option<Seq<char>> {
    match entry_of(src, info_path(b)) {
        Some(i) => plist_string(i, "CFBundleExecutable"@),
        None => None,
    }
}

/// Where the licenses go: to the listed paths, pairwise, when the
/// manifest lists some; else the first license to
/// `SC_Info/<executable>.sinf`.
pub open spec fn licenses_for(b: Seq<char>, paths: Option<Seq<Seq<char>>>, exec: Option<Seq<char>>, sinfs: Seq<Seq<u8>>) -> Seq<(Seq<char>, Seq<u8>)> {
    match paths {
        Some(ps) => {
            let n = if sinfs.len() < ps.len() { sinfs.len() } else { ps.len() };
            Seq::new(n, |i: int| (ps[i], sinfs[i]))
        },
        None => match exec {
            Some(e) => if sinfs.len() > 0 { seq![(sinf_path(b, e), sinfs[0])] } else { Seq::empty() },
            None => Seq::empty(),
        },
    }
}

/// The metadata entry's bytes for the given base64 text.
pub open spec fn metadata_entry(meta: Option<Seq<char>>) -> Option<Seq<u8>> {
    match meta {
        Some(m) => Some(metadata_to_inject(base64_decoded(m)->Some_0)),
        None => None,
    }
}

/// The archive in `src` and the request allow a plan: a bundle is found,
/// its manifest and info lists read where present and give targets, and
/// the licenses and metadata decode.
pub open spec fn plan_ready(src: Seq<u8>, sinfs: Seq<Sinf>, meta: Option<Seq<char>>) -> bool {
    match archive_bundle(src) {
        None => false,
        Some(b) => reads_if_present(src, manifest_path(b)) && reads_if_present(src, info_path(b))
            && (manifest_paths(src, b) is Some || info_executable(src, b) is Some)
            && decoded_all(sinfs) is Some
            && (match meta { Some(m) => base64_decoded(m) is Some, None => true }),
    }
}

/// The files to write into the archive in `src`: the licenses at their
/// targets, then the metadata if given.
pub open spec fn injection_plan(src: Seq<u8>, sinfs: Seq<Sinf>, meta: Option<Seq<char>>) -> Seq<(Seq<char>, Seq<u8>)> {
    let b = archive_bundle(src)->Some_0;
    let lic = licenses_for(b, manifest_paths(src, b), info_executable(src, b), decoded_all(sinfs)->Some_0);
    match metadata_entry(meta) {
        Some(m) => lic.push((metadata_path(), m)),
        None => lic,
    }
}

proof fn lemma_first_unique(names: Seq<Seq<char>>, p: Seq<char>, i: int, j: int)
    requires
        is_first(names, p, i),
        is_first(names, p, j),
    ensures
        i == j,
{
}

/// The contents of the first entry named `path`, if there is one.
fn read_named_entry(a: &mut Archive, names: &Vec<String>, path: &String) -> (r: Result<Option<Vec<u8>>, String>)
    requires
        views(names@) == archive_entries(*old(a)),
    ensures
        archive_source(*final(a)) == archive_source(*old(a)),
        r is Ok == reads_if_present(archive_source(*old(a)), path@),
        r matches Ok(o) ==> match o {
            Some(b) => entry_of(archive_source(*old(a)), path@) == Some(b@),
            None => entry_of(archive_source(*old(a)), path@) is None,
        },
{
    let ghost src = archive_source(*a);
    let ghost ns = names_of(zip_entries(src));
    match position_of(names, path) {
        Some(i) => {
            assert(views(names@)[i as int] == names@[i as int]@);
            assert(is_first(ns, path@, i as int)) by {
                assert forall|k: int| 0 <= k < i implies ns[k] != path@ by {
                    assert(views(names@)[k] == names@[k]@);
                }
            }
            proof {
                let c = choose|c: int| is_first(ns, path@, c);
                lemma_first_unique(ns, path@, i as int, c);
            }
            let b = entry_bytes(a, i)?;
            Ok(Some(b))
        },
        None => {
            assert(!exists|i: int| is_first(ns, path@, i)) by {
                if exists|i: int| is_first(ns, path@, i) {
                    let i = choose|i: int| is_first(ns, path@, i);
                    assert(views(names@)[i] == path@);
                }
            }
            Ok(None)
        },
    }
}

/// Everything an injection needs from an archive and a request: the
/// entry names and the plan. Succeeds exactly when `plan_ready` holds,
/// and then plans `injection_plan`.
pub fn plan_for_archive(a: &mut Archive, sinfs: &Vec<Sinf>, itunes_metadata_b64: Option<&str>) -> (r: Result<(Vec<String>, InjectionPlan), String>)
    ensures
        archive_source(*final(a)) == archive_source(*old(a)),
        r is Ok == plan_ready(archive_source(*old(a)), sinfs@,
            match itunes_metadata_b64 { Some(m) => Some(m@), None => None }),
        r matches Ok((names, plan)) ==> views(names@) == archive_entries(*old(a))
            && entries_view(plan.files@) == injection_plan(archive_source(*old(a)), sinfs@,
                match itunes_metadata_b64 { Some(m) => Some(m@), None => None }),
{
    let ghost src = archive_source(*a);
    let ghost mv = match itunes_metadata_b64 { Some(m) => Some(m@), None => None::<Seq<char>> };
    let names = read_entry_names(a);
    let bundle = find_bundle_name(&names)?;
    let ghost b = bundle@;
    let manifest_name = build_manifest_path(bundle.as_str());
    let info_name = build_info_path(bundle.as_str());
    let manifest = read_named_entry(a, &names, &manifest_name)?;
    let info = read_named_entry(a, &names, &info_name)?;
    let source = source_from_plists(manifest.as_ref(), info.as_ref())?;
    let sinf_data = decode_sinfs(sinfs)?;
    let metadata = match itunes_metadata_b64 {
        Some(m) => Some(decode_metadata(m)?),
        None => None,
    };
    let plan = plan_injection(bundle.as_str(), &source, &sinf_data, metadata.as_ref());
    proof {
        let data = sinf_bytes(sinf_data@);
        let lic = licenses_for(b, manifest_paths(src, b), info_executable(src, b), data);
        match source {
            InjectionSource::Manifest { sinf_paths } => {
                assert(license_entries(b, source, data) =~= lic) by {
                    let ps = manifest_paths(src, b)->Some_0;
                    assert forall|i: int| 0 <= i < ps.len() implies #[trigger] ps[i] == sinf_paths@[i]@ by {
                        assert(views(sinf_paths@)[i] == sinf_paths@[i]@);
                    }
                }
            },
            InjectionSource::Info { bundle_executable } => {
                assert(license_entries(b, source, data) =~= lic);
            },
        }
        let md = match metadata { Some(m) => Some(m@), None => None::<Seq<u8>> };
        assert(md == metadata_entry(mv));
    }
    Ok((names, plan))
}

/// Injects licenses and optional metadata into the archive `ipa`.
/// Succeeds exactly when the archive opens, a plan can be made, and the
/// rewrite (when the plan is not empty) succeeds. Hands back `None` when
/// there is nothing to write, else the new archive: the entries not
/// replaced, copied as stored in order, then the plan's files, stored.
pub fn inject_archive(ipa: Vec<u8>, sinfs: &Vec<Sinf>, itunes_metadata_b64: Option<&str>) -> (r: Result<Option<Vec<u8>>, String>)
    ensures
        ({
            let mv = match itunes_metadata_b64 { Some(m) => Some(m@), None => None };
            let fs = injection_plan(ipa@, sinfs@, mv);
            &&& r is Ok == (zip_opens(ipa@) && plan_ready(ipa@, sinfs@, mv) && (fs.len() == 0
                || (rewritten(ipa@, fs) is Some && zip_finish_ok(rewritten(ipa@, fs)->Some_0))))
            &&& r matches Ok(None) ==> fs.len() == 0
            &&& r matches Ok(Some(out)) ==> zip_opens(out@)
                && zip_entries(out@) == kept_entries(zip_entries(ipa@), targets_of(fs)) + stored_entries(fs)
        }),
{
    let ghost src = ipa@;
    let mut a = open_archive(ipa)?;
    let (names, plan) = plan_for_archive(&mut a, sinfs, itunes_metadata_b64)?;
    if plan.files.len() == 0 {
        return Ok(None);
    }
    let out = rewrite_archive(&mut a, &names, &plan)?;
    Ok(Some(out))
}

} // verus!
