//! The installer workflow's decisions: probing the running carrier for a
//! payload, resolving the per-user install paths, and the fixed plan of
//! filesystem steps whose replay is idempotent.

use vstd::prelude::*;
use vstd::string::StringExecFns;

verus! {

/// Why an installer run terminates without installing. None of these has
/// side effects; a probe-negative is a normal outcome, not a fault.
#[derive(PartialEq, Eq, Structural, Clone, Copy, Debug)]
pub enum InstallAbort {
    /// The running carrier bears no archive marker: nothing to install.
    NotAnArchive,
    /// The carrier is marked as an archive but names no application.
    NoAppId,
    /// The per-user application-data root is not defined.
    NoLocalAppData,
}

/// Probes the carrier's own metadata: the archive marker must be present,
/// and then the app id; either absent aborts the run, marker first.
pub fn probe_archive(marker: Option<String>, app_id: Option<String>) -> (r: Result<
    String,
    InstallAbort,
>)
    ensures
        match r {
            Ok(id) => marker is Some && app_id == Some(id),
            Err(InstallAbort::NotAnArchive) => marker is None,
            Err(InstallAbort::NoAppId) => marker is Some && app_id is None,
            Err(InstallAbort::NoLocalAppData) => false,
        },
{
    match marker {
        None => Err(InstallAbort::NotAnArchive),
        Some(_) => match app_id {
            None => Err(InstallAbort::NoAppId),
            Some(id) => Ok(id),
        },
    }
}

/// A path joined to a child with the path separator.
pub open spec fn joined(base: Seq<char>, child: Seq<char>) -> Seq<char> {
    base + "/"@ + child
}

/// The directory name of the transient installer workspace under the
/// application root.
pub open spec fn workspace_subpath_chars() -> Seq<char> {
    ".sfx_instant_installer_workspace"@
}

/// The directory name of the final install target under the application
/// root.
pub open spec fn app_dir_subpath_chars() -> Seq<char> {
    ".sfx_app"@
}

/// Joins a child onto a base path.
pub fn join_path(base: &String, child: &str) -> (r: String)
    ensures
        r@ == joined(base@, child@),
{
    base.clone().concat("/").concat(child)
}

/// The three paths of one install: the application root under the per-user
/// data root, the transient workspace, and the final install target.
pub struct InstallPaths {
    pub root_app_path: String,
    pub installer_workspace_path: String,
    pub app_dir_path: String,
}

/// Resolves the install paths from the per-user application-data root:
/// root_app_path is the app id under that root, and the workspace and the
/// install target are its children. No root defined is a fatal
/// precondition failure.
pub fn resolve_install_paths(local_app_data: Option<String>, app_id: &String) -> (r: Result<
    InstallPaths,
    InstallAbort,
>)
    ensures
        match r {
            Ok(p) => local_app_data is Some && p.root_app_path@ == joined(
                local_app_data->Some_0@,
                app_id@,
            ) && p.installer_workspace_path@ == joined(
                p.root_app_path@,
                workspace_subpath_chars(),
            ) && p.app_dir_path@ == joined(p.root_app_path@, app_dir_subpath_chars()),
            Err(InstallAbort::NoLocalAppData) => local_app_data is None,
            Err(InstallAbort::NotAnArchive) => false,
            Err(InstallAbort::NoAppId) => false,
        },
{
    match local_app_data {
        None => Err(InstallAbort::NoLocalAppData),
        Some(root) => {
            let root_app_path = join_path(&root, app_id.as_str());
            let installer_workspace_path = join_path(
                &root_app_path,
                ".sfx_instant_installer_workspace",
            );
            let app_dir_path = join_path(&root_app_path, ".sfx_app");
            Ok(
                InstallPaths {
                    root_app_path,
                    installer_workspace_path,
                    app_dir_path,
                },
            )
        },
    }
}

/// One filesystem step of an install run, in the model where the workspace
/// and the install target are the only install-relevant locations.
#[derive(PartialEq, Eq, Structural, Clone, Copy, Debug)]
pub enum InstallAction {
    /// Forcibly remove the install target, present or not.
    RemoveAppDir,
    /// Forcibly remove the workspace, present or not.
    RemoveWorkspace,
    /// Create the workspace, empty.
    CreateWorkspace,
    /// Materialize the embedded payload as a staged archive in the
    /// workspace.
    StagePayload,
    /// Unpack the staged archive into the install target.
    UnpackPayload,
}

/// What the install-relevant directories hold: the install target as the
/// payload whose unpacked tree is there, and the workspace as absent,
/// empty, or holding a staged archive.
pub struct InstallDirs {
    pub app_dir: Option<Seq<u8>>,
    pub workspace: Option<Option<Seq<u8>>>,
}

/// The effect of one step on the directories. Staging and unpacking only
/// act on a workspace, or a staged archive, that is actually there.
pub open spec fn apply_action(d: InstallDirs, a: InstallAction, payload: Seq<u8>) -> InstallDirs {
    match a {
        InstallAction::RemoveAppDir => InstallDirs { app_dir: None, workspace: d.workspace },
        InstallAction::RemoveWorkspace => InstallDirs { app_dir: d.app_dir, workspace: None },
        InstallAction::CreateWorkspace => InstallDirs {
            app_dir: d.app_dir,
            workspace: Some(None),
        },
        InstallAction::StagePayload => match d.workspace {
            Some(_) => InstallDirs { app_dir: d.app_dir, workspace: Some(Some(payload)) },
            None => d,
        },
        InstallAction::UnpackPayload => match d.workspace {
            Some(Some(p)) => InstallDirs { app_dir: Some(p), workspace: d.workspace },
            _ => d,
        },
    }
}

/// The effect of a sequence of steps, applied in order.
pub open spec fn apply_actions(
    d: InstallDirs,
    actions: Seq<InstallAction>,
    payload: Seq<u8>,
) -> InstallDirs
    decreases actions.len(),
{
    if actions.len() == 0 {
        d
    } else {
        apply_actions(apply_action(d, actions[0], payload), actions.skip(1), payload)
    }
}

/// The fixed plan of one install run: reset both directories to a clean
/// slate, recreate the workspace, stage the payload, unpack it, and remove
/// the workspace again.
pub open spec fn installer_actions() -> Seq<InstallAction> {
    seq![
        InstallAction::RemoveAppDir,
        InstallAction::RemoveWorkspace,
        InstallAction::CreateWorkspace,
        InstallAction::StagePayload,
        InstallAction::UnpackPayload,
        InstallAction::RemoveWorkspace,
    ]
}

/// The plan of one install run, for the carrier's surroundings to perform
/// step by step, strictly in order.
pub fn installer_plan() -> (v: Vec<InstallAction>)
    ensures
        v@ == installer_actions(),
{
    let mut v: Vec<InstallAction> = Vec::new();
    v.push(InstallAction::RemoveAppDir);
    v.push(InstallAction::RemoveWorkspace);
    v.push(InstallAction::CreateWorkspace);
    v.push(InstallAction::StagePayload);
    v.push(InstallAction::UnpackPayload);
    v.push(InstallAction::RemoveWorkspace);
    proof {
        assert(v@ =~= installer_actions());
    }
    v
}

/// Law: one install run, from any prior state, leaves exactly the payload's
/// tree in the install target and no workspace behind; running it again
/// changes nothing — reinstalling under the same identity is idempotent,
/// because every run first erases the prior state.
pub proof fn lemma_install_idempotent(d: InstallDirs, payload: Seq<u8>)
    ensures
        ({
            let once = apply_actions(d, installer_actions(), payload);
            &&& once.app_dir == Some(payload)
            &&& once.workspace is None
            &&& apply_actions(once, installer_actions(), payload) == once
        }),
{
    lemma_install_run(d, payload);
    let once = apply_actions(d, installer_actions(), payload);
    lemma_install_run(once, payload);
}

/// One install run ends with the payload installed and the workspace gone.
proof fn lemma_install_run(d: InstallDirs, payload: Seq<u8>)
    ensures
        apply_actions(d, installer_actions(), payload) == (InstallDirs {
            app_dir: Some(payload),
            workspace: None,
        }),
{
    let s0 = installer_actions();
    let s1 = s0.skip(1);
    let s2 = s1.skip(1);
    let s3 = s2.skip(1);
    let s4 = s3.skip(1);
    let s5 = s4.skip(1);
    let s6 = s5.skip(1);
    assert(s6 =~= Seq::<InstallAction>::empty());
    let d1 = apply_action(d, InstallAction::RemoveAppDir, payload);
    let d2 = apply_action(d1, InstallAction::RemoveWorkspace, payload);
    let d3 = apply_action(d2, InstallAction::CreateWorkspace, payload);
    let d4 = apply_action(d3, InstallAction::StagePayload, payload);
    let d5 = apply_action(d4, InstallAction::UnpackPayload, payload);
    let d6 = apply_action(d5, InstallAction::RemoveWorkspace, payload);
    assert(apply_actions(d, s0, payload) == apply_actions(d1, s1, payload));
    assert(apply_actions(d1, s1, payload) == apply_actions(d2, s2, payload));
    assert(apply_actions(d2, s2, payload) == apply_actions(d3, s3, payload));
    assert(apply_actions(d3, s3, payload) == apply_actions(d4, s4, payload));
    assert(apply_actions(d4, s4, payload) == apply_actions(d5, s5, payload));
    assert(apply_actions(d5, s5, payload) == apply_actions(d6, s6, payload));
    assert(d6 == (InstallDirs { app_dir: Some(payload), workspace: None }));
}

} // verus!
