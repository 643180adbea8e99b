use immersive_scene::package::{
    archive_order, default_package_file_name, plan_package, sanitize_archive_name,
    validate_archive_path, validate_manifest_for_packaging, ExportElement, ExportManifest,
    ExportSoundSet, PackageError, PathFault, SourceStatus,
};

fn element(file_name: &str, archive_path: &str) -> ExportElement {
    ExportElement {
        file_name: file_name.to_string(),
        archive_path: archive_path.to_string(),
        channel_name: None,
        channel_type: "ambient".to_string(),
        volume_db_bits: (-2.0f64).to_bits(),
    }
}

fn manifest(version: i32, name: &str, elements: Vec<ExportElement>) -> ExportManifest {
    ExportManifest {
        format_version: version,
        soundset: ExportSoundSet { name: name.to_string(), description: "Nature ambience".to_string() },
        channels: Vec::new(),
        elements,
        moods: Vec::new(),
    }
}

#[test]
fn valid_folder_is_packaged_in_archive_path_order() {
    let m = manifest(1, "Forest Set", vec![element("wind.wav", "audio/wind.wav"), element("rain.wav", "audio/rain.wav")]);
    let order = plan_package(&m, &vec![SourceStatus::File, SourceStatus::File]).unwrap();
    assert_eq!(order, vec![1, 0]);
}

#[test]
fn unsupported_version_is_rejected() {
    let m = manifest(999, "Bad Version", vec![element("rain.wav", "audio/rain.wav")]);
    assert_eq!(validate_manifest_for_packaging(&m), Err(PackageError::UnsupportedFormatVersion(999)));
    assert_eq!(
        plan_package(&m, &vec![SourceStatus::File]),
        Err(PackageError::UnsupportedFormatVersion(999))
    );
}

#[test]
fn blank_names_are_rejected() {
    let m = manifest(1, " \t", vec![]);
    assert_eq!(validate_manifest_for_packaging(&m), Err(PackageError::EmptySoundSetName));
    let m = manifest(1, "Set", vec![element("a.wav", "audio/a.wav"), element("b.wav", "  ")]);
    assert_eq!(validate_manifest_for_packaging(&m), Err(PackageError::EmptyArchivePath(1)));
    let m = manifest(1, "Set", vec![element("\u{3000}", "audio/a.wav")]);
    assert_eq!(validate_manifest_for_packaging(&m), Err(PackageError::EmptyFileName(0)));
    let m = manifest(1, "Set", vec![element("a.wav", "audio/a.wav")]);
    assert_eq!(validate_manifest_for_packaging(&m), Ok(()));
}

#[test]
fn missing_referenced_file_is_rejected() {
    let m = manifest(1, "Missing File", vec![element("rain.wav", "audio/rain.wav")]);
    assert_eq!(plan_package(&m, &vec![SourceStatus::Missing]), Err(PackageError::MissingSourceFile(0)));
    assert_eq!(plan_package(&m, &vec![SourceStatus::NotAFile]), Err(PackageError::SourceNotAFile(0)));
}

#[test]
fn escaping_archive_path_is_rejected() {
    let m = manifest(1, "Unsafe Path", vec![element("escape.wav", "../escape.wav")]);
    assert_eq!(
        plan_package(&m, &vec![SourceStatus::File]),
        Err(PackageError::UnsafeArchivePath(0, PathFault::ParentSegment))
    );
}

#[test]
fn archive_path_rules() {
    assert_eq!(validate_archive_path("audio/rain.wav"), Ok(()));
    assert_eq!(validate_archive_path("./audio/rain.wav"), Ok(()));
    assert_eq!(validate_archive_path("audio/..rain.wav"), Ok(()));
    assert_eq!(validate_archive_path("audio/rain..wav"), Ok(()));
    assert_eq!(validate_archive_path("../escape.wav"), Err(PathFault::ParentSegment));
    assert_eq!(validate_archive_path("audio/../../x"), Err(PathFault::ParentSegment));
    assert_eq!(validate_archive_path("audio/.."), Err(PathFault::ParentSegment));
    assert_eq!(validate_archive_path(".."), Err(PathFault::ParentSegment));
    assert_eq!(validate_archive_path("/etc/passwd"), Err(PathFault::NotRelative));
}

#[test]
fn default_output_name_is_sanitized() {
    assert_eq!(default_package_file_name("Forest Set"), "Forest-Set.zip");
    assert_eq!(sanitize_archive_name("Forest Set"), "Forest-Set");
    assert_eq!(sanitize_archive_name("--My_Set 2--"), "My_Set-2");
    assert_eq!(sanitize_archive_name("Café au lait!"), "Caf--au-lait");
    assert_eq!(sanitize_archive_name("***"), "soundset-export");
    assert_eq!(sanitize_archive_name(""), "soundset-export");
    assert_eq!(default_package_file_name("!!"), "soundset-export.zip");
}

#[test]
fn equal_archive_paths_keep_manifest_order() {
    let els = vec![
        element("b", "audio/b.wav"),
        element("a2", "audio/a.wav"),
        element("c", "audio/B.wav"),
        element("a1", "audio/a.wav"),
        element("z", "audio/ab.wav"),
    ];
    assert_eq!(archive_order(&els), vec![2, 1, 3, 4, 0]);
    assert!(archive_order(&Vec::new()).is_empty());
}
