//! License injection planning: finding the application bundle inside an
//! archive, choosing where licenses go, and listing the entries to write.
use vstd::prelude::*;
use crate::security::{span, span_exec, slice};
use crate::store::views;

verus! {

/// Where the license target paths come from.
#[derive(Debug, Clone)]
pub enum InjectionSource {
    /// The bundle's `SC_Info/Manifest.plist` lists `SinfPaths`.
    Manifest { sinf_paths: Vec<String> },
    /// The bundle's `Info.plist` names its executable.
    Info { bundle_executable: String },
}

/// The entries to add to an archive, in order, each stored uncompressed.
#[derive(Debug, Clone)]
pub struct InjectionPlan {
    pub files: Vec<(String, Vec<u8>)>,
}

/// Archive path of the purchase metadata.
pub open spec fn metadata_path() -> Seq<char> {
    "iTunesMetadata.plist"@
}

/// The bundle an archive path belongs to: `Payload/<name>.app/...` gives
/// `<name>` (not empty, without `/`).
pub open spec fn bundle_of(p: Seq<char>) -> Option<Seq<char>> {
    if p.len() >= 8 && p.take(8) == "Payload/"@ {
        let rest = p.skip(8);
        let k = span(rest, 4);
        let comp = rest.take(k as int);
        if k < rest.len() && comp.len() > 4 && comp.skip(comp.len() - 4) == ".app"@ {
            Some(comp.take(comp.len() - 4))
        } else {
            None
        }
    } else {
        None
    }
}

/// `Payload/<bundle>.app/SC_Info/Manifest.plist`.
pub open spec fn manifest_path(bundle: Seq<char>) -> Seq<char> {
    "Payload/"@ + bundle + ".app/SC_Info/Manifest.plist"@
}

/// `Payload/<bundle>.app/Info.plist`.
pub open spec fn info_path(bundle: Seq<char>) -> Seq<char> {
    "Payload/"@ + bundle + ".app/Info.plist"@
}

/// `Payload/<bundle>.app/SC_Info/<executable>.sinf`.
pub open spec fn sinf_path(bundle: Seq<char>, executable: Seq<char>) -> Seq<char> {
    "Payload/"@ + bundle + ".app/SC_Info/"@ + executable + ".sinf"@
}

/// The bundle name of an archive path, if it lies inside a bundle.
pub fn extract_bundle_name(path: &str) -> (r: Option<String>)
    ensures
        match r {
            Some(n) => bundle_of(path@) == Some(n@),
            None => bundle_of(path@) is None,
        },
{
    let cs = crate::text::chars_of(path);
    if cs.len() < 8 {
        return None;
    }
    let head = slice(&cs, 0, 8);
    assert(head@ =~= cs@.take(8));
    if crate::text::string_of(&head) != String::from_str("Payload/") {
        return None;
    }
    let rest = slice(&cs, 8, cs.len());
    assert(rest@ =~= cs@.skip(8));
    let k = span_exec(&rest, 4);
    if k >= rest.len() || k <= 4 {
        return None;
    }
    let comp = slice(&rest, 0, k);
    assert(comp@ =~= rest@.take(k as int));
    let tail = slice(&comp, k - 4, k);
    assert(tail@ =~= comp@.skip(comp@.len() - 4));
    if crate::text::string_of(&tail) != String::from_str(".app") {
        return None;
    }
    let name = slice(&comp, 0, k - 4);
    assert(name@ =~= comp@.take(comp@.len() - 4));
    Some(crate::text::string_of(&name))
}

/// The bundle of an archive: that of the first entry inside one.
pub open spec fn first_bundle(names: Seq<Seq<char>>) -> Option<Seq<char>>
    decreases names.len(),
{
    if names.len() == 0 {
        None
    } else {
        match first_bundle(names.drop_last()) {
            Some(b) => Some(b),
            None => bundle_of(names.last()),
        }
    }
}

/// Finds the bundle name from the archive's entry names, in order.
pub fn find_bundle_name(names: &Vec<String>) -> (r: Result<String, String>)
    ensures
        match r {
            Ok(b) => first_bundle(views(names@)) == Some(b@),
            Err(_) => first_bundle(views(names@)) is None,
        },
{
    let ghost vs = views(names@);
    let mut i: usize = 0;
    while i < names.len()
        invariant
            i <= names@.len(),
            vs == views(names@),
            first_bundle(vs.take(i as int)) is None,
        decreases names.len() - i,
    {
        assert(vs.take(i + 1).drop_last() =~= vs.take(i as int));
        match extract_bundle_name(names[i].as_str()) {
            Some(b) => {
                proof {
                    lemma_first_bundle_prefix(vs, i as int + 1);
                }
                return Ok(b);
            },
            None => {},
        }
        i = i + 1;
    }
    assert(vs.take(names@.len() as int) =~= vs);
    Err(String::from_str("Could not read bundle name"))
}

/// Once a prefix of the names finds a bundle, the whole list finds the same.
proof fn lemma_first_bundle_prefix(names: Seq<Seq<char>>, k: int)
    requires
        0 <= k <= names.len(),
        first_bundle(names.take(k)) is Some,
    ensures
        first_bundle(names) == first_bundle(names.take(k)),
    decreases names.len() - k,
{
    if k < names.len() {
        assert(names.take(k + 1).drop_last() =~= names.take(k));
        lemma_first_bundle_prefix(names, k + 1);
    } else {
        assert(names.take(k) =~= names);
    }
}

/// `Payload/<bundle>.app/SC_Info/Manifest.plist` for a bundle.
pub fn build_manifest_path(bundle: &str) -> (r: String)
    ensures
        r@ == manifest_path(bundle@),
{
    let mut s = String::from_str("Payload/");
    s.append(bundle);
    s.append(".app/SC_Info/Manifest.plist");
    s
}

/// `Payload/<bundle>.app/Info.plist` for a bundle.
pub fn build_info_path(bundle: &str) -> (r: String)
    ensures
        r@ == info_path(bundle@),
{
    let mut s = String::from_str("Payload/");
    s.append(bundle);
    s.append(".app/Info.plist");
    s
}

/// Chooses the license targets: the manifest's `SinfPaths` when the
/// manifest has them, else the executable named by `Info.plist`, else
/// nothing can be injected.
pub fn choose_source(manifest_sinf_paths: Option<Vec<String>>, info_executable: Option<String>) -> (r: Result<InjectionSource, String>)
    ensures
        manifest_sinf_paths matches Some(ps) ==> (r matches Ok(InjectionSource::Manifest { sinf_paths }) && sinf_paths@ == ps@),
        manifest_sinf_paths is None && info_executable is Some ==> (r matches Ok(InjectionSource::Info { bundle_executable })
            && bundle_executable@ == info_executable->Some_0@),
        manifest_sinf_paths is None && info_executable is None ==> r is Err,
{
    match manifest_sinf_paths {
        Some(ps) => Ok(InjectionSource::Manifest { sinf_paths: ps }),
        None => match info_executable {
            Some(e) => Ok(InjectionSource::Info { bundle_executable: e }),
            None => Err(String::from_str("Could not read manifest or info plist")),
        },
    }
}

pub open spec fn entry_view(e: (String, Vec<u8>)) -> (Seq<char>, Seq<u8>) {
    (e.0@, e.1@)
}

/// The path and bytes of each entry.
pub open spec fn entries_view(v: Seq<(String, Vec<u8>)>) -> Seq<(Seq<char>, Seq<u8>)> {
    v.map_values(|e: (String, Vec<u8>)| entry_view(e))
}

/// The bytes of each license.
pub open spec fn sinf_bytes(v: Seq<(i64, Vec<u8>)>) -> Seq<Seq<u8>> {
    v.map_values(|s: (i64, Vec<u8>)| s.1@)
}

/// The license entries of a plan: for a manifest, the i-th license goes
/// to the i-th listed path, as far as both lists go; for `Info.plist`,
/// the first license goes to `SC_Info/<executable>.sinf`.
pub open spec fn license_entries(bundle: Seq<char>, source: InjectionSource, sinfs: Seq<Seq<u8>>) -> Seq<(Seq<char>, Seq<u8>)> {
    match source {
        InjectionSource::Manifest { sinf_paths } => {
            let n = if sinfs.len() < sinf_paths@.len() { sinfs.len() } else { sinf_paths@.len() };
            Seq::new(n, |i: int| (sinf_paths@[i]@, sinfs[i]))
        },
        InjectionSource::Info { bundle_executable } => if sinfs.len() > 0 {
            seq![(sinf_path(bundle, bundle_executable@), sinfs[0])]
        } else {
            Seq::empty()
        },
    }
}

/// The whole plan: the license entries, then the metadata if given.
pub open spec fn plan_entries(bundle: Seq<char>, source: InjectionSource, sinfs: Seq<Seq<u8>>, metadata: Option<Seq<u8>>) -> Seq<(Seq<char>, Seq<u8>)> {
    match metadata {
        Some(m) => license_entries(bundle, source, sinfs).push((metadata_path(), m)),
        None => license_entries(bundle, source, sinfs),
    }
}

fn copy_bytes(v: &Vec<u8>) -> (r: Vec<u8>)
    ensures
        r@ == v@,
{
    let mut r: Vec<u8> = Vec::new();
    let mut i: usize = 0;
    while i < v.len()
        invariant
            i <= v@.len(),
            r@ == v@.take(i as int),
        decreases v.len() - i,
    {
        r.push(v[i]);
        i = i + 1;
        assert(r@ =~= v@.take(i as int));
    }
    assert(v@.take(v@.len() as int) =~= v@);
    r
}

/// Lists the entries to write into the archive of bundle `bundle_name`:
/// licenses (id and bytes, in input order) at the targets `source` gives,
/// then `iTunesMetadata.plist` when metadata is given.
pub fn plan_injection(bundle_name: &str, source: &InjectionSource, sinfs: &Vec<(i64, Vec<u8>)>, metadata: Option<&Vec<u8>>) -> (r: InjectionPlan)
    ensures
        entries_view(r.files@) == plan_entries(bundle_name@, *source,
            sinf_bytes(sinfs@), match metadata { Some(m) => Some(m@), None => None }),
{
    let ghost data = sinf_bytes(sinfs@);
    let mut files: Vec<(String, Vec<u8>)> = Vec::new();
    match source {
        InjectionSource::Manifest { sinf_paths } => {
            let n = if sinfs.len() < sinf_paths.len() { sinfs.len() } else { sinf_paths.len() };
            let mut i: usize = 0;
            while i < n
                invariant
                    i <= n,
                    n <= sinfs@.len(),
                    n <= sinf_paths@.len(),
                    data == sinf_bytes(sinfs@),
                    files@.len() == i,
                    entries_view(files@) == Seq::new(i as nat, |k: int| (sinf_paths@[k]@, data[k])),
                decreases n - i,
            {
                let ghost prev = files@;
                let entry = (sinf_paths[i].clone(), copy_bytes(&sinfs[i].1));
                files.push(entry);
                assert(files@ == prev.push(entry));
                assert(entry_view(entry) == (sinf_paths@[i as int]@, data[i as int]));
                assert forall|k: int| 0 <= k < i implies #[trigger] entries_view(files@)[k]
                    == (sinf_paths@[k]@, data[k]) by {
                    assert(files@[k] == prev[k]);
                    assert(entries_view(prev)[k] == Seq::new(i as nat, |k: int| (sinf_paths@[k]@, data[k]))[k]);
                }
                assert(entries_view(files@) =~= Seq::new((i + 1) as nat, |k: int| (sinf_paths@[k]@, data[k])));
                i = i + 1;
            }
            assert(license_entries(bundle_name@, *source, data) == Seq::new(n as nat, |k: int| (sinf_paths@[k]@, data[k])));
        },
        InjectionSource::Info { bundle_executable } => {
            if sinfs.len() > 0 {
                let mut p = String::from_str("Payload/");
                p.append(bundle_name);
                p.append(".app/SC_Info/");
                p.append(bundle_executable.as_str());
                p.append(".sinf");
                files.push((p, copy_bytes(&sinfs[0].1)));
                assert(entries_view(files@) =~= license_entries(bundle_name@, *source, data));
            } else {
                assert(entries_view(files@) =~= license_entries(bundle_name@, *source, data));
            }
        },
    }
    let ghost lic = files@;
    match metadata {
        Some(m) => {
            files.push((String::from_str("iTunesMetadata.plist"), copy_bytes(m)));
            assert(files@ == lic.push(files@[lic.len() as int]));
            assert(entries_view(files@) =~= entries_view(lic).push((metadata_path(), m@)));
        },
        None => {},
    }
    InjectionPlan { files }
}

} // verus!
