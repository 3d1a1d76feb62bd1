use asspp::download::{build_ipa_path, build_task_dir, ChunkStep, Episode, TICK_MS};
use asspp::security::MAX_DOWNLOAD_SIZE;

#[test]
fn staging_paths() {
    let dir = build_task_dir("/root/packages", "abcdefgh", "com.x.y", "1.0").unwrap();
    assert_eq!(dir, "/root/packages/abcdefgh/com.x.y/1.0");
    assert_eq!(build_ipa_path(&dir, "task-1"), "/root/packages/abcdefgh/com.x.y/1.0/task-1.ipa");
    assert_eq!(build_task_dir("/r", "a b/c", "com x", "1 0").unwrap(), "/r/a_b_c/com_x/1_0");
    assert!(build_task_dir("/r", "..", "com.x.y", "1.0").is_err());
    assert!(build_task_dir("/r", "abcdefgh", "///", "1.0").is_err());
    assert!(build_task_dir("/r", "abcdefgh", "com.x.y", ".").is_err());
}

fn written(e: &mut Episode, chunks: &[Vec<u8>], times: &[u64], file: &mut Vec<u8>, progress: &mut Vec<u8>) {
    for (c, t) in chunks.iter().zip(times) {
        match e.on_chunk(c, *t) {
            ChunkStep::Exceeded => panic!("cap"),
            ChunkStep::Write { telemetry } => {
                file.extend_from_slice(c);
                if let Some(tel) = telemetry {
                    progress.push(tel.progress);
                }
            }
        }
    }
}

#[test]
fn full_download_writes_every_byte() {
    let mut e = Episode::start(100, 0).unwrap();
    let chunks = vec![vec![b'A'; 30], vec![b'A'; 30], vec![b'A'; 40]];
    let mut file = Vec::new();
    let mut progress = Vec::new();
    written(&mut e, &chunks, &[600, 1200, 1800], &mut file, &mut progress);
    assert_eq!(file.len(), 100);
    assert_eq!(e.downloaded, 100);
    assert_eq!(progress, vec![30, 60, 100]);
    assert!(progress.windows(2).all(|w| w[0] <= w[1]));
}

#[test]
fn telemetry_waits_for_the_tick() {
    let mut e = Episode::start(1000, 0).unwrap();
    match e.on_chunk(&[0u8; 100], TICK_MS - 1) {
        ChunkStep::Write { telemetry } => assert!(telemetry.is_none()),
        ChunkStep::Exceeded => panic!(),
    }
    match e.on_chunk(&[0u8; 400], 1000) {
        ChunkStep::Write { telemetry: Some(t) } => {
            assert_eq!(t.progress, 50);
            assert_eq!(t.speed, "500 B/s");
        }
        _ => panic!(),
    }
    assert_eq!(e.progress, 50);
}

#[test]
fn unknown_length_reports_zero_progress() {
    let mut e = Episode::start(0, 0).unwrap();
    match e.on_chunk(&[1u8; 2048], 1000) {
        ChunkStep::Write { telemetry: Some(t) } => {
            assert_eq!(t.progress, 0);
            assert_eq!(t.speed, "2.0 KB/s");
        }
        _ => panic!(),
    }
}

#[test]
fn size_cap_is_enforced() {
    assert!(Episode::start(MAX_DOWNLOAD_SIZE + 1, 0).is_err());
    assert!(Episode::start(MAX_DOWNLOAD_SIZE, 0).is_ok());
    let mut e = Episode::start(0, 0).unwrap();
    e.downloaded = MAX_DOWNLOAD_SIZE - 1;
    assert!(matches!(e.on_chunk(&[0u8; 2], 1), ChunkStep::Exceeded));
    assert_eq!(e.downloaded, MAX_DOWNLOAD_SIZE - 1);
}

#[test]
fn resumed_download_holds_only_second_episode() {
    let mut first = Episode::start(10000, 0).unwrap();
    let mut file = Vec::new();
    let mut progress = Vec::new();
    written(&mut first, &vec![vec![1u8; 1000]; 5], &[200, 400, 600, 800, 1000], &mut file, &mut progress);
    assert_eq!(file.len(), 5000);
    // pause: the worker stops; resume: a new episode truncates the file
    file.clear();
    let mut second = Episode::start(10000, 2000).unwrap();
    assert_eq!(second.downloaded, 0);
    let mut progress2 = Vec::new();
    let times: Vec<u64> = (1..=10).map(|i| 2000 + 600 * i).collect();
    written(&mut second, &vec![vec![2u8; 1000]; 10], &times, &mut file, &mut progress2);
    assert_eq!(file.len(), 10000);
    assert!(file.iter().all(|b| *b == 2));
    assert_eq!(*progress2.last().unwrap(), 100);
}
