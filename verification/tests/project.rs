use rho::project::{
    check_relative_project_path, collect_changed_paths, display_path, ensure_editable_content_size,
    ensure_editable_file, ensure_editable_file_size, ignored_project_directory,
    relative_project_path, stable_project_key, ProjectError, ProjectRestoreResponse,
    ProjectSessionStore, MAX_EDITABLE_FILE_BYTES,
};

#[test]
fn windows_extended_paths_are_user_readable_and_stable() {
    assert_eq!(
        display_path(r"\\?\E:\YuNotebooks\project"),
        "E:/YuNotebooks/project"
    );
    assert_eq!(
        display_path(r"\\?\UNC\server\share\project"),
        "//server/share/project"
    );
    assert_eq!(
        stable_project_key(r"\\?\E:\YuNotebooks\project"),
        stable_project_key(r"E:\YuNotebooks\project")
    );
}

#[test]
fn project_session_key_is_sixteen_hex_digits() {
    let key = stable_project_key("E:/YuNotebooks/project");
    assert_eq!(key.len(), 16);
    assert!(key.chars().all(|c| c.is_ascii_hexdigit() && !c.is_ascii_uppercase()));
    assert_ne!(key, stable_project_key("E:/YuNotebooks/other"));
}

#[test]
fn stable_key_is_fnv1a_of_the_display_path() {
    // FNV-1a 64 of the empty string is its offset basis.
    assert_eq!(stable_project_key(""), "cbf29ce484222325");
    // FNV-1a 64 of "a".
    assert_eq!(stable_project_key("a"), "af63dc4c8601ec8c");
}

#[test]
fn session_path_uses_the_stable_key() {
    let store = ProjectSessionStore::with_data_dir("/data");
    assert_eq!(store.index_path, "/data/project-sessions/index.json");
    let path = store.session_path("E:/p");
    assert_eq!(
        path,
        format!("/data/project-sessions/projects/{}.json", stable_project_key("E:/p"))
    );
}

#[test]
fn editable_files_follow_name_and_extension() {
    assert!(ensure_editable_file("/p/analysis.R").is_ok());
    assert!(ensure_editable_file("/p/DESCRIPTION").is_ok());
    assert!(ensure_editable_file("/p/data.CSV").is_ok());
    assert_eq!(
        ensure_editable_file("/p/image.png"),
        Err(ProjectError::Unsupported("image.png".to_string()))
    );
}

#[test]
fn oversized_files_and_content_are_rejected() {
    assert!(ensure_editable_file_size(MAX_EDITABLE_FILE_BYTES).is_ok());
    assert_eq!(
        ensure_editable_file_size(MAX_EDITABLE_FILE_BYTES + 1),
        Err(ProjectError::FileTooLarge(MAX_EDITABLE_FILE_BYTES + 1))
    );
    assert!(ensure_editable_content_size(&"x".repeat(1024)).is_ok());
}

#[test]
fn relative_paths_must_stay_inside_the_project() {
    assert_eq!(check_relative_project_path("   "), Err(ProjectError::EmptyPath));
    assert!(check_relative_project_path("R/analysis.R").is_ok());
    assert!(check_relative_project_path("../outside.R").is_err());
    assert!(check_relative_project_path("/etc/passwd").is_err());
    assert_eq!(
        relative_project_path("/p", "/p/R/analysis.R"),
        Ok("R/analysis.R".to_string())
    );
    assert_eq!(
        relative_project_path("/p", "/other/analysis.R"),
        Err(ProjectError::NotUnderRoot)
    );
}

#[test]
fn ignored_directories_are_not_listed() {
    assert!(ignored_project_directory(".git"));
    assert!(ignored_project_directory("Node_Modules"));
    assert!(!ignored_project_directory("R"));
}

#[test]
fn changed_paths_keep_only_project_files() {
    let changed = collect_changed_paths(
        "/p",
        &vec!["/p/R/a.R".to_string(), "/elsewhere/b.R".to_string()],
    );
    assert_eq!(changed, vec!["R/a.R".to_string()]);
}

#[test]
fn restore_responses_carry_their_status() {
    assert_eq!(ProjectRestoreResponse::cancelled().status, "cancelled");
    let unavailable = ProjectRestoreResponse::unavailable("/p".to_string(), "missing".to_string());
    assert_eq!(unavailable.status, "unavailable");
    assert_eq!(unavailable.unavailable.unwrap().reason, "missing");
}

#[test]
fn project_errors_read_as_the_user_sees_them() {
    assert_eq!(
        ProjectError::FileTooLarge(8_388_609).message(),
        "Project file is too large for the source editor: 8388609 bytes (limit: 8388608 bytes)"
    );
    assert_eq!(
        ProjectError::ParentRootOrPrefix.message(),
        "Project file path contains a parent, root or drive prefix"
    );
}
