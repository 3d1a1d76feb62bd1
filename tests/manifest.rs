use asspp::manifest::{build_manifest, get_base_url, install_resource_url, install_urls, white_png, ICON_LEN};
use asspp::task::Software;

#[test]
fn base_url_choice() {
    assert_eq!(get_base_url("  https://cdn.example.com/// ", None, Some("ignored")), "https://cdn.example.com");
    assert_eq!(get_base_url("", Some("https"), Some("host.example:8443")), "https://host.example:8443");
    assert_eq!(get_base_url("", Some("ftp"), Some("h<script>.x")), "http://hscript.x");
    assert_eq!(get_base_url(" / ", None, None), "http://localhost");
}

#[test]
fn install_links() {
    let (install, manifest) = install_urls("https://a.b", "t1");
    assert_eq!(manifest, "https://a.b/api/install/t1/manifest.plist");
    assert_eq!(
        install,
        "itms-services://?action=download-manifest&url=https%3A%2F%2Fa.b%2Fapi%2Finstall%2Ft1%2Fmanifest.plist"
    );
    assert_eq!(install_resource_url("http://h", "x", "payload.ipa"), "http://h/api/install/x/payload.ipa");
}

#[test]
fn manifest_document() {
    let sw = Software {
        name: "Tom & Jerry".into(),
        version: "1.0".into(),
        bundle_id: "com.x.y".into(),
        artwork_url: String::new(),
    };
    let xml = build_manifest(&sw, "http://h/p.ipa", "http://h/s.png", "http://h/l.png");
    assert!(xml.contains("<string>software-package</string>"));
    assert!(xml.contains("<string>http://h/p.ipa</string>"));
    assert!(xml.contains("<string>display-image</string>"));
    assert!(xml.contains("<string>full-size-image</string>"));
    assert!(xml.contains("<key>bundle-identifier</key>\n        <string>com.x.y</string>"));
    assert!(xml.contains("<key>bundle-version</key>\n        <string>1.0</string>"));
    assert!(xml.contains("<string>Tom &amp; Jerry</string>"));
    let parsed = plist::Value::from_reader_xml(std::io::Cursor::new(xml.as_bytes())).unwrap();
    let items = parsed.as_dictionary().unwrap().get("items").unwrap().as_array().unwrap();
    assert_eq!(items.len(), 1);
}

#[test]
fn fallback_icon() {
    let png = white_png();
    assert_eq!(png.len(), ICON_LEN);
    assert_eq!(png.len(), 70);
    assert_eq!(&png[..8], b"\x89PNG\r\n\x1a\n");
    assert_eq!(&png[png.len() - 8..], &[73, 69, 78, 68, 174, 66, 96, 130]);
}
