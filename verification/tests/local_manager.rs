use ridgeback::ai::LocalModelStatus;
use ridgeback::ai_config::LocalModelConfig;
use ridgeback::local_manager::{
    detected_status, download_total, inference_device, local_max_tokens, select_download_files,
    should_repaint, HfFileEntry, LocalModelManager,
};

fn entry(path: &str, size: Option<u64>, kind: Option<&str>, lfs: Option<u64>) -> HfFileEntry {
    HfFileEntry {
        path: path.to_string(),
        size,
        entry_type: kind.map(|k| k.to_string()),
        lfs_size: lfs,
    }
}

#[test]
fn download_takes_model_files_only() {
    let files = vec![
        entry("config.json", Some(700), Some("file"), None),
        entry("README.md", Some(5000), Some("file"), None),
        entry("model-00001.safetensors", Some(100), Some("file"), Some(4_000_000)),
        entry("model.safetensors.index.json", Some(30), None, None),
        entry("onnx", None, Some("directory"), None),
        entry("tokenizer.json", None, Some("file"), None),
        entry("merges.txt", Some(10), Some("file"), None),
        entry(".gitattributes", Some(1), Some("file"), None),
        entry("weights.safetensors", Some(1), Some("directory"), None),
    ];
    let picked = select_download_files(&files);
    let names: Vec<&str> = picked.iter().map(|f| f.path.as_str()).collect();
    assert_eq!(
        names,
        vec!["config.json", "model-00001.safetensors", "model.safetensors.index.json", "tokenizer.json", "merges.txt"]
    );
    assert_eq!(download_total(&picked), 700 + 4_000_000 + 30 + 0 + 10);
}

#[test]
fn repaint_every_quarter_megabyte() {
    assert!(should_repaint(262_144, 100, 1_000_000));
    assert!(should_repaint(262_200, 100, 1_000_000));
    assert!(!should_repaint(262_400, 100, 1_000_000));
    assert!(should_repaint(500_000, 10, 500_000));
}

#[test]
fn status_from_disk() {
    match detected_status(Some(("2024-05-01".to_string(), 42)), true, 7) {
        LocalModelStatus::Downloaded { date, size_bytes } => {
            assert_eq!(date, "2024-05-01");
            assert_eq!(size_bytes, 42);
        }
        other => panic!("unexpected {:?}", other),
    }
    match detected_status(None, true, 7) {
        LocalModelStatus::Downloaded { date, size_bytes } => {
            assert_eq!(date, "unknown");
            assert_eq!(size_bytes, 7);
        }
        other => panic!("unexpected {:?}", other),
    }
    assert!(matches!(detected_status(None, false, 7), LocalModelStatus::NotDownloaded));
}

#[test]
fn device_and_token_choices() {
    assert_eq!(inference_device("auto", false, true), "cuda");
    assert_eq!(inference_device("auto", true, true), "metal");
    assert_eq!(inference_device("auto", false, false), "cpu");
    assert_eq!(inference_device("cpu", true, true), "cpu");
    assert_eq!(local_max_tokens(256), 128);
    assert_eq!(local_max_tokens(64), 64);
}

#[test]
fn manager_lifecycle() {
    let mut m = LocalModelManager::new(LocalModelConfig::default());
    assert!(matches!(m.status(), LocalModelStatus::NotDownloaded));
    assert!(!m.is_downloading());
    assert_eq!(m.download_progress(), None);
    assert!(m.begin_download());
    assert!(!m.begin_download());
    m.downloaded_bytes = 10;
    m.total_bytes = 100;
    assert_eq!(m.download_progress(), Some((10, 100)));
    assert!(matches!(
        m.status(),
        LocalModelStatus::Downloading { downloaded_bytes: 10, total_bytes: 100 }
    ));
    m.finish_download(Ok(("today".to_string(), 100)));
    assert!(!m.is_downloading());
    assert!(matches!(m.status(), LocalModelStatus::Downloaded { size_bytes: 100, .. }));
    m.set_status(LocalModelStatus::Running);
    assert!(m.is_running());
    m.delete_model();
    assert!(!m.is_running());
    assert!(matches!(m.status(), LocalModelStatus::NotDownloaded));
    m.begin_download();
    m.finish_download(Err("network".to_string()));
    match m.status() {
        LocalModelStatus::Error(e) => assert_eq!(e, "network"),
        other => panic!("unexpected {:?}", other),
    }
}
