use nyanpasu_core::config::runtime_store::{
    artifact_epoch, artifact_epochs, highest_epoch, installed_commit, open_directory,
    remove_socket_artifact, validate_directory_metadata, DirectoryMetadata, DirectoryStep,
    RuntimeCommitDurability, RuntimeConfigBackup, RuntimeConfigStore, SocketMetadata,
    StagedRuntimeConfig,
};
use nyanpasu_core::error::Error;
use nyanpasu_core::io::atomic_fs::{
    is_reparse_point, platform_error_number, remove_regular_file, replace_again,
    validate_absent_regular_target, validate_existing_regular_target,
    verify_windows_directory_acl, private_descriptor, Artifact, AtomicFsError, DACL_PROTECTED,
};
use nyanpasu_core::io::error::{IoError, IoKind};
use nyanpasu_core::platform::Platform;

fn store() -> RuntimeConfigStore {
    RuntimeConfigStore::open(Some("/run/nyanpasu".into())).unwrap()
}

fn plain() -> Artifact {
    Artifact { symlink: false, regular: true, reparse_point: false }
}

fn link() -> Artifact {
    Artifact { symlink: true, regular: false, reparse_point: false }
}

fn missing() -> IoError {
    IoError::new(IoKind::NotFound, "gone".into())
}

fn denied() -> IoError {
    IoError::new(IoKind::PermissionDenied, "denied".into())
}

#[test]
fn artifacts_are_named_by_their_epoch() {
    let store = store();
    assert_eq!(store.dir(), "/run/nyanpasu");
    assert_eq!(store.runtime_path(4), "/run/nyanpasu/config-4.yaml");
    assert_eq!(store.pid_path(4), "/run/nyanpasu/core-4.pid");
    assert_eq!(store.socket_path(4), "/run/nyanpasu/core-4.sock");
    assert_eq!(store.backup_path(4, 2), "/run/nyanpasu/config-4.yaml.backup-2");
    assert_eq!(store.staged_path(4, 9, 1), "/run/nyanpasu/.config-4.yaml.tmp-9-1");
    assert!(store.lock_path().starts_with("/run/nyanpasu/"));
    assert!(RuntimeConfigStore::open(None).is_err());
}

#[test]
fn names_tell_their_epoch() {
    for name in [
        "config-12.yaml",
        "core-12.pid",
        "core-12.sock",
        "config-12.yaml.backup-3",
        ".config-12.yaml.tmp-9-1",
        "core-12.pid.tmp-7",
    ] {
        assert_eq!(artifact_epoch(name), Some(12), "{name}");
    }
    for name in ["config-noise.yaml.tmp", "config-.yaml", "core-1.txt", "notes"] {
        assert_eq!(artifact_epoch(name), None, "{name}");
    }
}

#[test]
fn epochs_go_on_after_the_highest_artifact() {
    let names: Vec<String> = ["core-9.sock", "config-7.yaml", "config-noise.yaml.tmp", "core-7.pid"]
        .map(|s| s.to_owned())
        .to_vec();
    let epochs = artifact_epochs(&names);
    assert_eq!(epochs, [7, 9]);
    assert_eq!(highest_epoch(&epochs), 9);
    assert_eq!(highest_epoch(&Vec::new()), 0);
}

#[test]
fn cleanup_is_scoped_to_its_epoch() {
    let store = store();
    assert!(store.is_left_behind(1, "config-1.yaml.backup-3"));
    assert!(store.is_left_behind(1, ".config-1.yaml.tmp-9-1"));
    assert!(store.is_left_behind(1, "core-1.pid.tmp-9"));
    assert!(!store.is_left_behind(1, "config-12.yaml.backup-3"));
    assert!(!store.is_left_behind(1, "config-1.yaml"));
}

#[test]
fn only_staged_files_are_installed() {
    let store = store();
    let staged = StagedRuntimeConfig::new(store.staged_path(3, 9, 1));
    assert_eq!(staged.path(), "/run/nyanpasu/.config-3.yaml.tmp-9-1");
    assert!(store.validate_staged(&staged, 3, Ok(plain())).is_ok());
    assert!(matches!(
        store.validate_staged(&staged, 4, Ok(plain())),
        Err(Error::UnsafeRuntimeArtifact(_))
    ));
    assert!(matches!(
        store.validate_staged(&staged, 3, Ok(link())),
        Err(Error::UnsafeRuntimeArtifact(_))
    ));
    assert!(matches!(store.validate_staged(&staged, 3, Err(denied())), Err(Error::Io(_))));
    let elsewhere = StagedRuntimeConfig::new("/tmp/.config-3.yaml.tmp-9-1".into());
    assert!(matches!(
        store.validate_staged(&elsewhere, 3, Ok(plain())),
        Err(Error::UnsafeRuntimeArtifact(p)) if p == "/tmp/.config-3.yaml.tmp-9-1"
    ));
}

#[test]
fn files_in_another_verbatim_directory_are_refused() {
    let staged = StagedRuntimeConfig::new("\\\\?\\C:\\other\\.config-3.yaml.tmp-9-1".into());
    assert!(matches!(
        store().validate_staged(&staged, 3, Ok(plain())),
        Err(Error::UnsafeRuntimeArtifact(_))
    ));
}

#[test]
fn commits_say_whether_they_outlive_a_crash() {
    let sure = installed_commit("/run/config-1.yaml".into(), Ok(()));
    assert_eq!(sure.durability(), &RuntimeCommitDurability::Durable);
    assert_eq!(sure.durability_warning(), None);
    let unsure = installed_commit("/run/config-1.yaml".into(), Err(denied()));
    assert_eq!(unsure.path(), "/run/config-1.yaml");
    assert!(unsure.durability_warning().unwrap().contains("denied"));
    let backup = RuntimeConfigBackup::new("/run/b".into(), 3);
    assert_eq!((backup.path(), backup.epoch()), ("/run/b", 3));
}

#[test]
fn directories_are_reached_without_a_detour() {
    let good = DirectoryMetadata { symlink: false, directory: true, reparse_point: false };
    let bad = DirectoryMetadata { symlink: true, ..good };
    assert!(validate_directory_metadata("/run", good).is_ok());
    assert!(matches!(
        validate_directory_metadata("/run", bad),
        Err(Error::UnsafeRuntimeArtifact(p)) if p == "/run"
    ));
    assert!(matches!(open_directory("/run", Ok(good)), DirectoryStep::Use));
    assert!(matches!(open_directory("/run", Err(missing())), DirectoryStep::Create));
    assert!(matches!(open_directory("/run", Ok(bad)), DirectoryStep::Fail(_)));
    assert!(matches!(open_directory("/run", Err(denied())), DirectoryStep::Fail(Error::Io(_))));
}

#[test]
fn sockets_and_plain_files_are_removed_at_the_place_of_a_socket() {
    let socket =
        SocketMetadata { symlink: false, reparse_point: false, socket: true, regular: false };
    let file = SocketMetadata { socket: false, regular: true, ..socket };
    assert!(remove_socket_artifact(Platform::Unix, "/s", Ok(socket)).unwrap());
    assert!(remove_socket_artifact(Platform::Unix, "/s", Ok(file)).unwrap());
    let link = SocketMetadata { symlink: true, ..file };
    let detour = SocketMetadata { reparse_point: true, ..socket };
    let directory = SocketMetadata { regular: false, ..file };
    for found in [link, detour, directory] {
        assert!(matches!(
            remove_socket_artifact(Platform::Unix, "/s", Ok(found)),
            Err(Error::UnsafeRuntimeArtifact(p)) if p == "/s"
        ));
    }
    assert!(remove_socket_artifact(Platform::Windows, "/s", Ok(file)).unwrap());
    assert!(!remove_socket_artifact(Platform::Unix, "/s", Err(missing())).unwrap());
    assert!(remove_socket_artifact(Platform::Unix, "/s", Err(denied())).is_err());
}

#[test]
fn files_are_created_only_where_nothing_stands() {
    assert!(validate_absent_regular_target("/f", Err(missing())).is_ok());
    assert!(matches!(
        validate_absent_regular_target("/f", Ok(plain())),
        Err(AtomicFsError::Io(e))
            if e.kind == IoKind::AlreadyExists && e.message == "runtime artifact already exists: /f"
    ));
    assert!(matches!(
        validate_absent_regular_target("/f", Ok(link())),
        Err(AtomicFsError::UnsafePath(p)) if p == "/f"
    ));
    assert!(validate_existing_regular_target("/f", Ok(plain())).is_ok());
    assert!(validate_existing_regular_target("/f", Err(missing())).is_err());
    assert!(remove_regular_file("/f", Ok(plain())).unwrap());
    assert!(!remove_regular_file("/f", Err(missing())).unwrap());
    assert!(remove_regular_file("/f", Ok(link())).is_err());
    assert_eq!(
        AtomicFsError::UnsafePath("/f".into()).message(),
        "unsafe filesystem artifact: /f"
    );
}

#[test]
fn private_directories_name_no_broad_principal() {
    assert!(verify_windows_directory_acl("/d", DACL_PROTECTED, private_descriptor()).is_ok());
    assert!(verify_windows_directory_acl("/d", 0, private_descriptor()).is_err());
    assert!(verify_windows_directory_acl("/d", DACL_PROTECTED, "D:P(A;;FA;;;WD)").is_err());
    assert!(is_reparse_point(0x410) && !is_reparse_point(0x10));
    assert_eq!(platform_error_number(0x8007_0005), Some(5));
    assert_eq!(platform_error_number(0x8000_4005), None);
}

#[test]
fn contended_files_are_replaced_again() {
    let contended = AtomicFsError::Io(IoError {
        kind: IoKind::Other,
        code: Some(32),
        message: "in use".into(),
    });
    assert!(replace_again(0, &contended));
    assert!(!replace_again(19, &contended));
    assert!(!replace_again(0, &AtomicFsError::Io(missing())));
}
