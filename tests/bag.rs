use asspp::bag::{bag_url, extract_plist, validate_guid};

#[test]
fn guid_validation() {
    assert!(validate_guid("A1B2C3D4E5F6"));
    assert!(!validate_guid(""));
    assert!(!validate_guid("abc-def"));
    assert!(!validate_guid(&"a".repeat(65)));
    assert!(validate_guid(&"a".repeat(64)));
}

#[test]
fn bag_urls() {
    assert_eq!(bag_url("ABC"), "https://init.itunes.apple.com/bag.xml?guid=ABC");
}

#[test]
fn plist_extraction() {
    let body = "<html><plist version=\"1.0\"><dict/></plist>\n<plist>x</plist>";
    assert_eq!(extract_plist(body), Some("<plist version=\"1.0\"><dict/></plist>".to_string()));
    assert_eq!(extract_plist("no list here"), None);
    assert_eq!(extract_plist("<plist> unterminated"), None);
    assert_eq!(extract_plist("</plist><plist/>"), None);
}
