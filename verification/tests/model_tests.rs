use typingsucks::model::{
    choose_model_path, downloaded_names, find_model, models, preferred_model_files,
    model_destination, scan_dirs_from, scan_probe, scanned_model, scanned_models, ModelPathError, MIN_MODEL_SIZE,
};

#[test]
fn catalog_has_twelve_models() {
    let all = models();
    assert_eq!(all.len(), 12);
    assert_eq!(all[0].name, "tiny");
    assert_eq!(all[11].name, "large-v3-turbo");
    assert_eq!(all[11].size_mb, 1600);
    for m in &all {
        assert_eq!(m.filename, format!("ggml-{}.bin", m.name));
        assert_eq!(
            m.url,
            format!("https://huggingface.co/ggerganov/whisper.cpp/resolve/main/{}", m.filename)
        );
    }
}

#[test]
fn finds_models_by_name() {
    let m = find_model("base.en").unwrap();
    assert_eq!(m.filename, "ggml-base.en.bin");
    assert_eq!(m.size_mb, 142);
    assert_eq!(find_model("small").unwrap().size_mb, 466);
    assert!(find_model("huge").is_none());
    assert!(find_model("Base").is_none());
}

#[test]
fn configured_path_wins() {
    let present = vec![true; 12];
    assert_eq!(
        choose_model_path("/m/my.bin", true, "/models", &present).unwrap(),
        "/m/my.bin"
    );
    match choose_model_path("/m/my.bin", false, "/models", &present) {
        Err(ModelPathError::ConfiguredMissing(p)) => assert_eq!(p, "/m/my.bin"),
        other => panic!("unexpected {:?}", other),
    }
}

#[test]
fn prefers_larger_models() {
    let mut present = vec![false; 12];
    present[9] = true; // ggml-base.bin
    present[11] = true; // ggml-tiny.bin
    assert_eq!(
        choose_model_path("", false, "/d/models", &present).unwrap(),
        "/d/models/ggml-base.bin"
    );
    present[0] = true;
    assert_eq!(
        choose_model_path("", false, "/d/models", &present).unwrap(),
        "/d/models/ggml-large-v3-turbo.bin"
    );
    assert_eq!(preferred_model_files()[4], "ggml-medium.en.bin");
}

#[test]
fn no_model_found() {
    let present = vec![false; 12];
    match choose_model_path("", false, "/d", &present) {
        Err(e) => {
            assert!(matches!(e, ModelPathError::NotFound));
            assert_eq!(
                e.message(),
                "No whisper model found. Download one first:\n  typingsucks model download base"
            );
        }
        Ok(p) => panic!("unexpected {}", p),
    }
    assert_eq!(
        ModelPathError::ConfiguredMissing("/x".to_string()).message(),
        "Configured model path does not exist: /x"
    );
}

#[test]
fn downloaded_names_in_catalog_order() {
    let mut present = vec![false; 12];
    present[3] = true;
    present[0] = true;
    assert_eq!(downloaded_names(&present), vec!["tiny".to_string(), "base.en".to_string()]);
}

#[test]
fn scan_directories_under_home() {
    assert_eq!(
        scan_dirs_from(Some("/home/a".to_string())),
        vec![
            "/home/a/whisper.cpp/models".to_string(),
            "/home/a/.cache/whisper".to_string(),
            "/home/a/.cache/whisper-cpp".to_string(),
        ]
    );
    assert!(scan_dirs_from(None).is_empty());
}

#[test]
fn scanned_models_need_fifty_mib() {
    assert_eq!(MIN_MODEL_SIZE, 52_428_800);
    assert!(scanned_model("tiny", "/p", Some(MIN_MODEL_SIZE - 1)).is_none());
    assert!(scanned_model("tiny", "/p", None).is_none());
    let m = scanned_model("tiny", "/p/ggml-tiny.bin", Some(77_691_713)).unwrap();
    assert_eq!(m.name, "tiny");
    assert_eq!(m.path, "/p/ggml-tiny.bin");
    assert_eq!(m.size_mb, 74);
    assert_eq!(scanned_model("x", "/y", Some(MIN_MODEL_SIZE)).unwrap().size_mb, 50);
}

#[test]
fn scanned_models_follow_directories_then_catalog() {
    let dirs = vec!["/h/a".to_string(), "/h/b".to_string()];
    let mut first = vec![None; 12];
    let mut second = vec![None; 12];
    // large-v3-turbo in the first directory, base and an unreadable tiny.en in the second,
    // and a stub small in the first that is too short to count.
    first[11] = Some(Some(1_624_555_275));
    first[4] = Some(Some(1_000));
    second[2] = Some(Some(147_951_465));
    second[1] = Some(None);
    let found = scanned_models(&dirs, &vec![first, second]);
    assert_eq!(found.len(), 2);
    assert_eq!(found[0].name, "large-v3-turbo");
    assert_eq!(found[0].path, "/h/a/ggml-large-v3-turbo.bin");
    assert_eq!(found[0].size_mb, 1549);
    assert_eq!(found[1].name, "base");
    assert_eq!(found[1].path, "/h/b/ggml-base.bin");
    assert_eq!(found[1].size_mb, 141);
    assert!(scanned_models(&Vec::new(), &Vec::new()).is_empty());
}

#[test]
fn disk_lookups_run() {
    // Whatever the disk holds, the answers keep to the catalog.
    for name in typingsucks::model::list_downloaded() {
        assert!(find_model(&name).is_some());
    }
    for m in typingsucks::model::scan_for_models() {
        assert!(find_model(&m.name).is_some());
        assert!(m.size_mb >= 50);
    }
}

#[test]
fn scan_probes_skip_what_is_missing_or_already_imported() {
    assert_eq!(scan_probe(true, true, false, Some(7)), Some(Some(7)));
    assert_eq!(scan_probe(true, true, false, None), Some(None));
    assert_eq!(scan_probe(false, true, false, Some(7)), None);
    assert_eq!(scan_probe(true, false, false, Some(7)), None);
    assert_eq!(scan_probe(true, true, true, Some(7)), None);
}

#[test]
fn model_destinations() {
    let (m, p) = model_destination("base.en", "/d/models").unwrap();
    assert_eq!(m.name, "base.en");
    assert_eq!(p, "/d/models/ggml-base.en.bin");
    assert!(model_destination("huge", "/d").is_none());
}
