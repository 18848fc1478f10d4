use sfx_instant::archiver::{
    fresh_zip_name, issue_message, validate_archive_inputs, validate_pack_inputs,
    validate_unpack_inputs, ArchiveIssue, PackIssue, TempNameSearch, UnpackIssue,
};
use sfx_instant::installer::{
    installer_plan, probe_archive, resolve_install_paths, InstallAbort, InstallAction,
};

#[test]
fn archiver_reports_every_violation_as_its_own_line() {
    let issues = validate_archive_inputs(false, false, true, false);
    assert_eq!(
        issues,
        vec![
            ArchiveIssue::SourceNotDirectory,
            ArchiveIssue::WorkspaceNotDirectory,
            ArchiveIssue::DestinationExists,
        ]
    );
    assert_eq!(issue_message(&issues[0]), "Source is not directory");
    assert_eq!(issue_message(&issues[1]), "Workspace is not directory");
    assert_eq!(issue_message(&issues[2]), "Destination already exist");
}

#[test]
fn archiver_rejects_non_directory_source() {
    assert_eq!(
        validate_archive_inputs(false, true, false, false),
        vec![ArchiveIssue::SourceNotDirectory]
    );
}

#[test]
fn archiver_rejects_non_directory_workspace() {
    assert_eq!(
        validate_archive_inputs(true, false, false, false),
        vec![ArchiveIssue::WorkspaceNotDirectory]
    );
}

#[test]
fn archiver_rejects_existing_unforced_destination() {
    assert_eq!(
        validate_archive_inputs(true, true, true, false),
        vec![ArchiveIssue::DestinationExists]
    );
    assert_eq!(validate_archive_inputs(true, true, true, true), vec![]);
    assert_eq!(validate_archive_inputs(true, true, false, false), vec![]);
}

#[test]
fn temp_name_search_is_fatal_after_the_budget() {
    let mut search = TempNameSearch::new();
    for _ in 0..15 {
        assert!(!search.collision());
    }
    assert!(search.collision());
    assert!(search.collision());
}

#[test]
fn fresh_zip_names_have_the_archive_suffix() {
    let a = fresh_zip_name();
    let b = fresh_zip_name();
    assert_eq!(a.len(), 40);
    assert!(a.ends_with(".zip"));
    assert!(b.ends_with(".zip"));
    assert_ne!(a, b);
}

#[test]
fn pack_validation_collects_all_violations() {
    let issues = validate_pack_inputs(false, false, true, true, false, Some((true, false)));
    assert_eq!(
        issues,
        vec![
            PackIssue::SourceMissing,
            PackIssue::TempZipExists,
            PackIssue::DestinationExists,
            PackIssue::SourceNotDirectory,
            PackIssue::EntryPointAbsolute,
            PackIssue::EntryPointMissing,
        ]
    );
}

#[test]
fn pack_validation_force_yields_on_existence_only() {
    assert_eq!(
        validate_pack_inputs(false, false, true, true, true, None),
        vec![PackIssue::SourceNotDirectory]
    );
    assert_eq!(validate_pack_inputs(true, true, false, false, false, Some((false, true))), vec![]);
}

#[test]
fn unpack_validation_wants_an_empty_directory() {
    assert_eq!(
        validate_unpack_inputs(true, false, false, false, false),
        vec![UnpackIssue::DestinationNotDirectory]
    );
    assert_eq!(
        validate_unpack_inputs(true, true, false, true, false),
        vec![UnpackIssue::DestinationNotEmpty, UnpackIssue::TempZipExists]
    );
    assert_eq!(validate_unpack_inputs(true, true, true, false, false), vec![]);
    assert_eq!(validate_unpack_inputs(true, false, false, true, true), vec![]);
}

#[test]
fn probe_wants_marker_then_app_id() {
    assert_eq!(probe_archive(None, None), Err(InstallAbort::NotAnArchive));
    assert_eq!(
        probe_archive(None, Some(String::from("Acme.App"))),
        Err(InstallAbort::NotAnArchive)
    );
    assert_eq!(
        probe_archive(Some(String::from("m")), None),
        Err(InstallAbort::NoAppId)
    );
    assert_eq!(
        probe_archive(Some(String::from("m")), Some(String::from("Acme.App"))),
        Ok(String::from("Acme.App"))
    );
}

#[test]
fn resolves_per_user_install_paths() {
    let app_id = String::from("Acme.App");
    let paths =
        resolve_install_paths(Some(String::from("/Users/u/AppData/Local")), &app_id).unwrap();
    assert_eq!(paths.root_app_path, "/Users/u/AppData/Local/Acme.App");
    assert_eq!(
        paths.installer_workspace_path,
        "/Users/u/AppData/Local/Acme.App/.sfx_instant_installer_workspace"
    );
    assert_eq!(paths.app_dir_path, "/Users/u/AppData/Local/Acme.App/.sfx_app");
}

#[test]
fn missing_local_app_data_aborts() {
    let app_id = String::from("Acme.App");
    assert_eq!(
        resolve_install_paths(None, &app_id).map(|_| ()),
        Err(InstallAbort::NoLocalAppData)
    );
}

/// A little simulator of the install-relevant directories, mirroring how
/// the carrier's surroundings perform the plan.
struct SimDirs {
    app_dir: Option<Vec<u8>>,
    workspace: Option<Option<Vec<u8>>>,
}

fn run_plan(dirs: &mut SimDirs, payload: &[u8]) {
    for action in installer_plan() {
        match action {
            InstallAction::RemoveAppDir => dirs.app_dir = None,
            InstallAction::RemoveWorkspace => dirs.workspace = None,
            InstallAction::CreateWorkspace => dirs.workspace = Some(None),
            InstallAction::StagePayload => {
                if dirs.workspace.is_some() {
                    dirs.workspace = Some(Some(payload.to_vec()));
                }
            }
            InstallAction::UnpackPayload => {
                if let Some(Some(staged)) = &dirs.workspace {
                    dirs.app_dir = Some(staged.clone());
                }
            }
        }
    }
}

#[test]
fn installing_twice_leaves_the_same_app_dir_and_no_workspace() {
    let payload: Vec<u8> = (0..100u8).collect();
    let mut dirs = SimDirs {
        app_dir: Some(vec![9, 9, 9]),
        workspace: Some(Some(vec![1])),
    };
    run_plan(&mut dirs, payload.as_slice());
    assert_eq!(dirs.app_dir, Some(payload.clone()));
    assert!(dirs.workspace.is_none());
    let first = dirs.app_dir.clone();
    run_plan(&mut dirs, payload.as_slice());
    assert_eq!(dirs.app_dir, first);
    assert!(dirs.workspace.is_none());
}
