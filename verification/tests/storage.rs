use lionclip::storage::{database_path_from, DataPathError, StoragePaths};

#[test]
fn xdg_data_home_override_is_respected_exactly() {
    assert_eq!(
        database_path_from(Some("/tmp/custom-data"), Some("/home/user")),
        Ok("/tmp/custom-data/lionclip/lionclip.db".to_owned())
    );
}

#[test]
fn home_fallback_uses_standard_local_share_path() {
    assert_eq!(
        database_path_from(None, Some("/home/user")),
        Ok("/home/user/.local/share/lionclip/lionclip.db".to_owned())
    );
}

#[test]
fn empty_xdg_override_uses_home_fallback() {
    assert_eq!(
        database_path_from(Some(""), Some("/home/user")),
        Ok("/home/user/.local/share/lionclip/lionclip.db".to_owned())
    );
}

#[test]
fn relative_paths_cannot_resolve_against_the_working_directory() {
    assert_eq!(
        database_path_from(Some("relative"), Some("also-relative")),
        Err(DataPathError)
    );
}

#[test]
fn a_trailing_separator_is_not_doubled() {
    assert_eq!(
        database_path_from(Some("/data/"), None),
        Ok("/data/lionclip/lionclip.db".to_owned())
    );
    assert_eq!(
        database_path_from(None, Some("/home/user/")),
        Ok("/home/user/.local/share/lionclip/lionclip.db".to_owned())
    );
}

#[test]
fn storage_paths_share_one_root() {
    let paths = StoragePaths::from_environment(None, Some("/home/user")).unwrap();
    assert_eq!(paths.root(), "/home/user/.local/share/lionclip");
    assert_eq!(paths.database(), "/home/user/.local/share/lionclip/lionclip.db");
    assert_eq!(paths.blobs(), "/home/user/.local/share/lionclip/blobs");
    assert_eq!(paths.thumbnails(), "/home/user/.local/share/lionclip/thumbnails");
    assert_eq!(
        StoragePaths::for_root("/r".into()).database(),
        "/r/lionclip.db"
    );
    assert!(StoragePaths::from_environment(None, None).is_err());
    assert_eq!(
        DataPathError.message(),
        "neither XDG_DATA_HOME nor HOME provides a usable data directory"
    );
}
