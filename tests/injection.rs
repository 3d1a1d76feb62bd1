use std::io::{Cursor, Read, Write};

use asspp::archive::{decode_metadata, decode_sinfs, inject_archive, open_archive, plan_for_archive, read_entry_names};
use asspp::injection::{
    choose_source, extract_bundle_name, find_bundle_name, plan_injection, InjectionSource,
};
use asspp::plist::{get_string, get_string_array, xml_to_binary_plist};
use asspp::task::Sinf;

fn manifest_xml(paths: &[&str]) -> Vec<u8> {
    let items: String = paths.iter().map(|p| format!("<string>{}</string>", p)).collect();
    format!(
        "<?xml version=\"1.0\" encoding=\"UTF-8\"?>\n<plist version=\"1.0\"><dict><key>SinfPaths</key><array>{}</array></dict></plist>",
        items
    )
    .into_bytes()
}

fn info_xml(exec: &str) -> Vec<u8> {
    format!(
        "<?xml version=\"1.0\" encoding=\"UTF-8\"?>\n<plist version=\"1.0\"><dict><key>CFBundleExecutable</key><string>{}</string><key>CFBundleVersion</key><string>1</string></dict></plist>",
        exec
    )
    .into_bytes()
}

fn build_ipa(entries: &[(&str, Vec<u8>)]) -> Vec<u8> {
    let mut w = zip::ZipWriter::new(Cursor::new(Vec::new()));
    let opts = zip::write::SimpleFileOptions::default().compression_method(zip::CompressionMethod::Deflated);
    for (name, data) in entries {
        w.start_file(*name, opts).unwrap();
        w.write_all(data).unwrap();
    }
    w.finish().unwrap().into_inner()
}

fn read_entry(bytes: &[u8], name: &str) -> Option<(Vec<u8>, zip::CompressionMethod, u32)> {
    let mut a = zip::ZipArchive::new(Cursor::new(bytes.to_vec())).unwrap();
    let mut f = a.by_name(name).ok()?;
    let mut buf = Vec::new();
    f.read_to_end(&mut buf).unwrap();
    Some((buf, f.compression(), f.crc32()))
}

fn names_of(bytes: &[u8]) -> Vec<String> {
    let a = zip::ZipArchive::new(Cursor::new(bytes.to_vec())).unwrap();
    a.file_names().map(String::from).collect::<Vec<_>>()
}

#[test]
fn bundle_names() {
    assert_eq!(extract_bundle_name("Payload/App.app/Info.plist"), Some("App".to_string()));
    assert_eq!(extract_bundle_name("Payload/My App.app/"), Some("My App".to_string()));
    assert_eq!(extract_bundle_name("Payload/App.app"), None);
    assert_eq!(extract_bundle_name("Payload/.app/x"), None);
    assert_eq!(extract_bundle_name("Other/App.app/x"), None);
    assert_eq!(extract_bundle_name("Payload/App/x"), None);
    let names = vec!["META-INF/x".to_string(), "Payload/B.app/x".to_string(), "Payload/C.app/y".to_string()];
    assert_eq!(find_bundle_name(&names), Ok("B".to_string()));
    assert!(find_bundle_name(&vec!["x".to_string()]).is_err());
}

#[test]
fn planning() {
    let sinfs = vec![(0i64, b"one".to_vec()), (1i64, b"two".to_vec())];
    let manifest = InjectionSource::Manifest { sinf_paths: vec!["Payload/App.app/SC_Info/App.sinf".into()] };
    let plan = plan_injection("App", &manifest, &sinfs, Some(&b"meta".to_vec()));
    assert_eq!(
        plan.files,
        vec![
            ("Payload/App.app/SC_Info/App.sinf".to_string(), b"one".to_vec()),
            ("iTunesMetadata.plist".to_string(), b"meta".to_vec()),
        ]
    );
    let info = InjectionSource::Info { bundle_executable: "Exec".into() };
    let plan = plan_injection("App", &info, &sinfs, None);
    assert_eq!(plan.files, vec![("Payload/App.app/SC_Info/Exec.sinf".to_string(), b"one".to_vec())]);
    assert!(plan_injection("App", &info, &vec![], None).files.is_empty());
    assert!(matches!(choose_source(None, Some("E".into())), Ok(InjectionSource::Info { .. })));
    assert!(matches!(choose_source(Some(vec![]), Some("E".into())), Ok(InjectionSource::Manifest { .. })));
    assert!(choose_source(None, None).is_err());
}

#[test]
fn plist_lookups() {
    let m = manifest_xml(&["a", "b"]);
    assert_eq!(get_string_array(&m, "SinfPaths"), Some(vec!["a".to_string(), "b".to_string()]));
    assert_eq!(get_string_array(&m, "Other"), None);
    let i = info_xml("App");
    assert_eq!(get_string(&i, "CFBundleExecutable"), Some("App".to_string()));
    assert_eq!(get_string(&i, "SinfPaths"), None);
    assert_eq!(get_string(b"not a plist", "x"), None);
    let bin = xml_to_binary_plist(&i);
    assert!(bin.starts_with(b"bplist"));
    assert_eq!(get_string(&bin, "CFBundleExecutable"), Some("App".to_string()));
    assert_eq!(xml_to_binary_plist(b"garbage"), b"garbage".to_vec());
}

#[test]
fn base64_decoding() {
    let v = decode_sinfs(&vec![Sinf { id: 7, sinf: "aGVsbG8=".into() }]).unwrap();
    assert_eq!(v, vec![(7, b"hello".to_vec())]);
    assert!(decode_sinfs(&vec![Sinf { id: 7, sinf: "***".into() }]).is_err());
    assert!(decode_metadata("!!").is_err());
    let meta = decode_metadata("PD94bWwgdmVyc2lvbj0iMS4wIj8+PHBsaXN0IHZlcnNpb249IjEuMCI+PGRpY3Q+PC9kaWN0PjwvcGxpc3Q+").unwrap();
    assert!(meta.starts_with(b"bplist"));
}

#[test]
fn injection_with_manifest() {
    let ipa = build_ipa(&[
        ("Payload/App.app/Info.plist", info_xml("App")),
        ("Payload/App.app/SC_Info/Manifest.plist", manifest_xml(&["Payload/App.app/SC_Info/App.sinf"])),
        ("Payload/App.app/App", vec![7u8; 300]),
    ]);
    let a = open_archive(ipa.clone()).unwrap();
    assert_eq!(read_entry_names(&a).len(), 3);
    let sinfs = vec![Sinf { id: 0, sinf: "aGVsbG8=".into() }];
    let out = inject_archive(ipa.clone(), &sinfs, None).unwrap().unwrap();
    let (body, method, _) = read_entry(&out, "Payload/App.app/SC_Info/App.sinf").unwrap();
    assert_eq!(body, b"hello".to_vec());
    assert_eq!(method, zip::CompressionMethod::Stored);
    assert_eq!(read_entry(&out, "Payload/App.app/App"), read_entry(&ipa, "Payload/App.app/App"));
    assert_eq!(names_of(&out).len(), 4);
    let mut arch = zip::ZipArchive::new(Cursor::new(out.clone())).unwrap();
    let f = arch.by_name("Payload/App.app/SC_Info/App.sinf").unwrap();
    assert_eq!((f.compressed_size(), f.size()), (5, 5));
    drop(f);
    let copied = arch.by_name("Payload/App.app/App").unwrap();
    let (c_size, c_crc) = (copied.compressed_size(), copied.crc32());
    drop(copied);
    let mut orig = zip::ZipArchive::new(Cursor::new(ipa)).unwrap();
    let o = orig.by_name("Payload/App.app/App").unwrap();
    assert_eq!((c_size, c_crc), (o.compressed_size(), o.crc32()));
}

#[test]
fn injection_fallback_via_info() {
    let ipa = build_ipa(&[
        ("Payload/App.app/Info.plist", info_xml("App")),
        ("Payload/App.app/App", vec![9u8; 100]),
        ("Payload/App.app/SC_Info/App.sinf", b"old".to_vec()),
    ]);
    let sinfs = vec![Sinf { id: 0, sinf: "aGVsbG8=".into() }, Sinf { id: 1, sinf: "d29ybGQ=".into() }];
    let out = inject_archive(ipa.clone(), &sinfs, Some("PD94bWwgdmVyc2lvbj0iMS4wIj8+PHBsaXN0IHZlcnNpb249IjEuMCI+PGRpY3Q+PC9kaWN0PjwvcGxpc3Q+"))
        .unwrap()
        .unwrap();
    let (body, method, _) = read_entry(&out, "Payload/App.app/SC_Info/App.sinf").unwrap();
    assert_eq!(body, b"hello".to_vec());
    assert_eq!(method, zip::CompressionMethod::Stored);
    assert_eq!(read_entry(&out, "Payload/App.app/Info.plist"), read_entry(&ipa, "Payload/App.app/Info.plist"));
    assert_eq!(read_entry(&out, "Payload/App.app/App"), read_entry(&ipa, "Payload/App.app/App"));
    let (meta, _, _) = read_entry(&out, "iTunesMetadata.plist").unwrap();
    assert!(meta.starts_with(b"bplist"));
    assert_eq!(
        names_of(&out),
        vec![
            "Payload/App.app/Info.plist".to_string(),
            "Payload/App.app/App".to_string(),
            "Payload/App.app/SC_Info/App.sinf".to_string(),
            "iTunesMetadata.plist".to_string(),
        ]
    );
}

#[test]
fn injection_without_source_fails() {
    let ipa = build_ipa(&[("Payload/App.app/App", vec![1u8; 10])]);
    let sinfs = vec![Sinf { id: 0, sinf: "aGVsbG8=".into() }];
    assert!(inject_archive(ipa, &sinfs, None).is_err());
    assert!(inject_archive(b"not a zip".to_vec(), &sinfs, None).is_err());
}

#[test]
fn planning_from_archive() {
    let ipa = build_ipa(&[
        ("Payload/App.app/SC_Info/Manifest.plist", manifest_xml(&["Payload/App.app/SC_Info/A.sinf", "Payload/App.app/SC_Info/B.sinf"])),
        ("Payload/App.app/Info.plist", info_xml("Exec")),
    ]);
    let mut a = open_archive(ipa).unwrap();
    let sinfs = vec![Sinf { id: 0, sinf: "aGVsbG8=".into() }, Sinf { id: 1, sinf: "d29ybGQ=".into() }, Sinf { id: 2, sinf: "eA==".into() }];
    let (names, plan) = plan_for_archive(&mut a, &sinfs, None).unwrap();
    assert_eq!(names.len(), 2);
    assert_eq!(
        plan.files,
        vec![
            ("Payload/App.app/SC_Info/A.sinf".to_string(), b"hello".to_vec()),
            ("Payload/App.app/SC_Info/B.sinf".to_string(), b"world".to_vec()),
        ]
    );
}
