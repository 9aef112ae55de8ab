use pg_vectors_setup::install::{install_plan, is_schema_file, InstallStep, ScratchEntry, ARCHIVE_URL, SCRATCH_DIR};
use pg_vectors_setup::layout::{
    data_dir, extension_dir, installation_dir, join_path, library_dir, library_file, password_file, storage_dir,
    version_dir, PG_VERSION,
};
use pg_vectors_setup::settings::{exact_version_requirement, server_settings};

fn entry(name: &str, is_file: bool) -> ScratchEntry {
    ScratchEntry { name: name.to_string(), is_file }
}

fn copy(from: &str, to: &str) -> InstallStep {
    InstallStep::Copy { from: from.to_string(), to: to.to_string() }
}

#[test]
fn join_inserts_one_separator() {
    assert_eq!(join_path("/work", "data"), "/work/data");
    assert_eq!(join_path("/work/", "data"), "/work/data");
    assert_eq!(join_path("", "data"), "data");
    assert_eq!(join_path("/", "data"), "/data");
}

#[test]
fn storage_layout() {
    let storage = storage_dir("/work");
    assert_eq!(storage, "/work/data");
    assert_eq!(password_file(&storage), "/work/data/.pgpass");
    assert_eq!(installation_dir(&storage), "/work/data/pg");
    assert_eq!(data_dir(&storage), "/work/data/pg_data");
}

#[test]
fn installation_tree_is_version_qualified() {
    assert_eq!(PG_VERSION, "16.3.0");
    assert_eq!(version_dir("/work/data/pg"), "/work/data/pg/16.3.0");
    assert_eq!(library_dir("/work/data/pg"), "/work/data/pg/16.3.0/lib");
    assert_eq!(extension_dir("/work/data/pg"), "/work/data/pg/16.3.0/share/extension");
    assert_eq!(library_file("/work/data/pg"), "/work/data/pg/16.3.0/lib/vectors.so");
}

#[test]
fn version_requirement_pins_exact_version() {
    assert_eq!(exact_version_requirement("16.3.0"), "=16.3.0");
    let req = semver::VersionReq::parse("=16.3.0").unwrap();
    assert!(req.matches(&semver::Version::new(16, 3, 0)));
    assert!(!req.matches(&semver::Version::new(16, 3, 1)));
}

#[test]
fn settings_for_storage_dir() {
    let s = server_settings("/work/data", None).unwrap();
    assert_eq!(s.installation_dir, "/work/data/pg");
    assert_eq!(s.data_dir, "/work/data/pg_data");
    assert_eq!(s.password_file, "/work/data/.pgpass");
    assert_eq!(s.password, None);
    assert!(!s.temporary);
    assert_eq!(s.version, semver::VersionReq::parse("=16.3.0").unwrap());
}

#[test]
fn settings_keep_stored_password() {
    let s = server_settings("/work/data", Some("SECRET-REDACTED".to_string())).unwrap();
    assert_eq!(s.password, Some("SECRET-REDACTED".to_string()));
}

#[test]
fn schema_files_are_regular_files_with_prefix() {
    assert!(is_schema_file(&entry("vectors--0.3.0.sql", true)));
    assert!(is_schema_file(&entry("vectors--0.2.1--0.3.0.sql", true)));
    assert!(!is_schema_file(&entry("vectors--0.3.0.sql", false)));
    assert!(!is_schema_file(&entry("vectors.control", true)));
    assert!(!is_schema_file(&entry("vectors-0.3.0.sql", true)));
    assert!(!is_schema_file(&entry("", true)));
}

#[test]
fn install_plan_copies_library_schemas_control_then_cleans_up() {
    let entries = vec![
        entry("vectors.so", true),
        entry("vectors--0.3.0.sql", true),
        entry("README.md", true),
        entry("vectors--old", false),
        entry("vectors--0.2.1--0.3.0.sql", true),
        entry("vectors.control", true),
    ];
    let plan = install_plan("/w/pg", SCRATCH_DIR, &entries);
    assert_eq!(
        plan,
        vec![
            copy("vectors/vectors.so", "/w/pg/16.3.0/lib/vectors.so"),
            copy("vectors/vectors--0.3.0.sql", "/w/pg/16.3.0/share/extension/vectors--0.3.0.sql"),
            copy(
                "vectors/vectors--0.2.1--0.3.0.sql",
                "/w/pg/16.3.0/share/extension/vectors--0.2.1--0.3.0.sql"
            ),
            copy("vectors/vectors.control", "/w/pg/16.3.0/share/extension/vectors.control"),
            InstallStep::RemoveDir { path: "vectors".to_string() },
        ]
    );
}

#[test]
fn install_plan_of_empty_scratch_dir() {
    let plan = install_plan("/w/pg", "tmp/unpacked", &Vec::new());
    assert_eq!(
        plan,
        vec![
            copy("tmp/unpacked/vectors.so", "/w/pg/16.3.0/lib/vectors.so"),
            copy("tmp/unpacked/vectors.control", "/w/pg/16.3.0/share/extension/vectors.control"),
            InstallStep::RemoveDir { path: "tmp/unpacked".to_string() },
        ]
    );
}

#[test]
fn archive_is_the_pg16_release() {
    assert!(ARCHIVE_URL.ends_with("vectors-pg16_x86_64-unknown-linux-gnu_0.3.0.zip"));
}
