use asspp::security::{dirs_to_prune, format_speed, path_within_base, sanitize_filename, validate_download_url, MAX_DOWNLOAD_SIZE};

#[test]
fn sanitize_keeps_allowed_and_squashes_runs() {
    assert_eq!(sanitize_filename("My App 2.0"), "My_App_2.0");
    assert_eq!(sanitize_filename("a  //  b"), "a_b");
    assert_eq!(sanitize_filename("  hello  "), "hello");
    assert_eq!(sanitize_filename("com.x.y"), "com.x.y");
    assert_eq!(sanitize_filename("___"), "");
    assert_eq!(sanitize_filename("é"), "");
    assert_eq!(sanitize_filename(""), "");
}

#[test]
fn sanitize_is_idempotent_and_in_alphabet() {
    for s in ["My App 2.0", "../../etc/passwd", "a\u{0}b", "x__y", "  --..__ ", "日本語アプリ v1"] {
        let once = sanitize_filename(s);
        assert_eq!(sanitize_filename(&once), once);
        assert!(once.chars().all(|c| c.is_ascii_alphanumeric() || c == '.' || c == '_' || c == '-'));
    }
}

#[test]
fn sanitize_caps_length() {
    let long = "a".repeat(500);
    assert_eq!(sanitize_filename(&long).len(), 200);
}

#[test]
fn path_within_base_laws() {
    assert!(path_within_base("b", "b"));
    assert!(!path_within_base("b/../..", "b"));
    assert!(path_within_base("/data/packages/abc/x.ipa", "/data/packages"));
    assert!(path_within_base("/data/packages/", "/data/packages"));
    assert!(!path_within_base("/data/packagesX/x.ipa", "/data/packages"));
    assert!(!path_within_base("/data/packages/../secret", "/data/packages"));
    assert!(!path_within_base("data/packages/a", "/data/packages"));
    assert!(path_within_base("/anything", "/"));
}

#[test]
fn download_urls() {
    assert!(validate_download_url("https://example.com/app.ipa").is_ok());
    assert!(validate_download_url("HTTPS://Example.com:443/a?b#c").is_ok());
    assert!(validate_download_url("https://8.8.8.8/a").is_ok());
    assert!(validate_download_url("https://[2001:db8::1]/a").is_ok());
    for bad in [
        "http://example.com/app.ipa",
        "ftp://example.com",
        "https://",
        "https://localhost/a",
        "https://LOCALHOST:8080/a",
        "https://127.0.0.1/a",
        "https://10.1.2.3/a",
        "https://172.16.0.1/a",
        "https://172.31.255.255/a",
        "https://192.168.1.1/a",
        "https://169.254.169.254/latest",
        "https://0.0.0.0/",
        "https://127.1/",
        "https://[::1]/",
        "https://[fe80::1]/",
        "https://user@example.com/",
        "https://example.com:abc/",
        "",
    ] {
        assert_eq!(validate_download_url(bad), Err("Invalid download URL".to_string()), "{}", bad);
    }
    assert!(validate_download_url("https://172.32.0.1/a").is_ok());
}

#[test]
fn speed_formatting() {
    assert_eq!(format_speed(0), "0 B/s");
    assert_eq!(format_speed(1023), "1023 B/s");
    assert_eq!(format_speed(1024), "1.0 KB/s");
    assert_eq!(format_speed(1536), "1.5 KB/s");
    assert_eq!(format_speed(1258291), "1.2 MB/s");
    assert_eq!(format_speed(3 * 1073741824), "3.0 GB/s");
}

#[test]
fn size_cap_is_four_gib() {
    assert_eq!(MAX_DOWNLOAD_SIZE, 4 * 1024 * 1024 * 1024);
}

#[test]
fn pruning_stops_at_root() {
    let dirs = dirs_to_prune("/data/packages/acct1234/com.x.y/1.0/t.ipa", "/data/packages");
    assert_eq!(
        dirs,
        vec![
            "/data/packages/acct1234/com.x.y/1.0".to_string(),
            "/data/packages/acct1234/com.x.y".to_string(),
            "/data/packages/acct1234".to_string(),
        ]
    );
    assert!(dirs_to_prune("/elsewhere/t.ipa", "/data/packages").is_empty());
}
