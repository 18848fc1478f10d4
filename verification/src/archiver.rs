//! The archiver workflow's decisions: input validation with every violation
//! reported together, and the bounded search for a collision-free temporary
//! archive name inside the workspace.

use vstd::prelude::*;
use vstd::string::StringExecFns;

verus! {

/// How many temporary-name collisions the archiver tolerates before it
/// gives up as unlucky.
pub const UNLUCKY_LIMIT: u32 = 15;

/// One violated packaging precondition.
#[derive(PartialEq, Eq, Structural, Clone, Copy, Debug)]
pub enum ArchiveIssue {
    /// The source to package is not a directory.
    SourceNotDirectory,
    /// The workspace for the temporary archive is not a directory.
    WorkspaceNotDirectory,
    /// The destination exists and overwriting was not forced.
    DestinationExists,
}

/// Every violated packaging precondition, in a fixed order: source, then
/// workspace, then destination.
pub open spec fn archive_issues(
    source_is_dir: bool,
    workspace_is_dir: bool,
    destination_exists: bool,
    force: bool,
) -> Seq<ArchiveIssue> {
    (if !source_is_dir {
        seq![ArchiveIssue::SourceNotDirectory]
    } else {
        Seq::empty()
    }) + (if !workspace_is_dir {
        seq![ArchiveIssue::WorkspaceNotDirectory]
    } else {
        Seq::empty()
    }) + (if destination_exists && !force {
        seq![ArchiveIssue::DestinationExists]
    } else {
        Seq::empty()
    })
}

/// Validates the packaging inputs up front: all violations are collected
/// and reported together, not fail-fast. An empty result licenses the run.
pub fn validate_archive_inputs(
    source_is_dir: bool,
    workspace_is_dir: bool,
    destination_exists: bool,
    force: bool,
) -> (issues: Vec<ArchiveIssue>)
    ensures
        issues@ == archive_issues(source_is_dir, workspace_is_dir, destination_exists, force),
{
    let mut issues: Vec<ArchiveIssue> = Vec::new();
    if !source_is_dir {
        issues.push(ArchiveIssue::SourceNotDirectory);
    }
    if !workspace_is_dir {
        issues.push(ArchiveIssue::WorkspaceNotDirectory);
    }
    if destination_exists && !force {
        issues.push(ArchiveIssue::DestinationExists);
    }
    proof {
        assert(issues@ =~= archive_issues(
            source_is_dir,
            workspace_is_dir,
            destination_exists,
            force,
        ));
    }
    issues
}

/// The diagnostic line for one violated precondition.
pub fn issue_message(issue: &ArchiveIssue) -> (r: String)
    ensures
        r@ == match issue {
            ArchiveIssue::SourceNotDirectory => "Source is not directory"@,
            ArchiveIssue::WorkspaceNotDirectory => "Workspace is not directory"@,
            ArchiveIssue::DestinationExists => "Destination already exist"@,
        },
{
    match issue {
        ArchiveIssue::SourceNotDirectory => String::from_str("Source is not directory"),
        ArchiveIssue::WorkspaceNotDirectory => String::from_str("Workspace is not directory"),
        ArchiveIssue::DestinationExists => String::from_str("Destination already exist"),
    }
}

/// One violated precondition of the archive/extract-only packing workflow.
#[derive(PartialEq, Eq, Structural, Clone, Copy, Debug)]
pub enum PackIssue {
    /// The source to pack does not exist.
    SourceMissing,
    /// The temporary archive name already exists.
    TempZipExists,
    /// The destination already exists.
    DestinationExists,
    /// The source exists but is not a directory.
    SourceNotDirectory,
    /// The entry point was given as an absolute path.
    EntryPointAbsolute,
    /// The entry point does not exist inside the source.
    EntryPointMissing,
}

/// Every violated packing precondition, in a fixed order. Existence
/// violations yield to `force`; the directory test and the entry-point
/// tests do not.
pub open spec fn pack_issues(
    source_exists: bool,
    source_is_dir: bool,
    temp_zip_exists: bool,
    destination_exists: bool,
    force: bool,
    entry_point: Option<(bool, bool)>,
) -> Seq<PackIssue> {
    (if !source_exists && !force {
        seq![PackIssue::SourceMissing]
    } else {
        Seq::empty()
    }) + (if temp_zip_exists && !force {
        seq![PackIssue::TempZipExists]
    } else {
        Seq::empty()
    }) + (if destination_exists && !force {
        seq![PackIssue::DestinationExists]
    } else {
        Seq::empty()
    }) + (if !source_is_dir {
        seq![PackIssue::SourceNotDirectory]
    } else {
        Seq::empty()
    }) + (match entry_point {
        Some((is_absolute, _)) => if is_absolute {
            seq![PackIssue::EntryPointAbsolute]
        } else {
            Seq::empty()
        },
        None => Seq::empty(),
    }) + (match entry_point {
        Some((_, exists_in_source)) => if !exists_in_source {
            seq![PackIssue::EntryPointMissing]
        } else {
            Seq::empty()
        },
        None => Seq::empty(),
    })
}

/// Validates the packing inputs of the archive/extract-only workflow, all
/// violations collected together. `entry_point` carries, for a requested
/// entry point, whether it is an absolute path and whether it exists inside
/// the source.
pub fn validate_pack_inputs(
    source_exists: bool,
    source_is_dir: bool,
    temp_zip_exists: bool,
    destination_exists: bool,
    force: bool,
    entry_point: Option<(bool, bool)>,
) -> (issues: Vec<PackIssue>)
    ensures
        issues@ == pack_issues(
            source_exists,
            source_is_dir,
            temp_zip_exists,
            destination_exists,
            force,
            entry_point,
        ),
{
    let mut issues: Vec<PackIssue> = Vec::new();
    if !source_exists && !force {
        issues.push(PackIssue::SourceMissing);
    }
    if temp_zip_exists && !force {
        issues.push(PackIssue::TempZipExists);
    }
    if destination_exists && !force {
        issues.push(PackIssue::DestinationExists);
    }
    if !source_is_dir {
        issues.push(PackIssue::SourceNotDirectory);
    }
    if let Some((is_absolute, exists_in_source)) = entry_point {
        if is_absolute {
            issues.push(PackIssue::EntryPointAbsolute);
        }
        if !exists_in_source {
            issues.push(PackIssue::EntryPointMissing);
        }
    }
    proof {
        assert(issues@ =~= pack_issues(
            source_exists,
            source_is_dir,
            temp_zip_exists,
            destination_exists,
            force,
            entry_point,
        ));
    }
    issues
}

/// One violated precondition of the archive/extract-only unpacking
/// workflow.
#[derive(PartialEq, Eq, Structural, Clone, Copy, Debug)]
pub enum UnpackIssue {
    /// The destination exists and is not a directory.
    DestinationNotDirectory,
    /// The destination is a directory but not empty.
    DestinationNotEmpty,
    /// The temporary archive name already exists.
    TempZipExists,
}

/// Every violated unpacking precondition, in a fixed order; all yield to
/// `force`. An existing destination must be an empty directory.
pub open spec fn unpack_issues(
    destination_exists: bool,
    destination_is_dir: bool,
    destination_is_empty: bool,
    temp_zip_exists: bool,
    force: bool,
) -> Seq<UnpackIssue> {
    (if destination_exists && !force {
        if !destination_is_dir {
            seq![UnpackIssue::DestinationNotDirectory]
        } else if !destination_is_empty {
            seq![UnpackIssue::DestinationNotEmpty]
        } else {
            Seq::empty()
        }
    } else {
        Seq::empty()
    }) + (if temp_zip_exists && !force {
        seq![UnpackIssue::TempZipExists]
    } else {
        Seq::empty()
    })
}

/// Validates the unpacking inputs of the archive/extract-only workflow.
pub fn validate_unpack_inputs(
    destination_exists: bool,
    destination_is_dir: bool,
    destination_is_empty: bool,
    temp_zip_exists: bool,
    force: bool,
) -> (issues: Vec<UnpackIssue>)
    ensures
        issues@ == unpack_issues(
            destination_exists,
            destination_is_dir,
            destination_is_empty,
            temp_zip_exists,
            force,
        ),
{
    let mut issues: Vec<UnpackIssue> = Vec::new();
    if destination_exists && !force {
        if !destination_is_dir {
            issues.push(UnpackIssue::DestinationNotDirectory);
        } else if !destination_is_empty {
            issues.push(UnpackIssue::DestinationNotEmpty);
        }
    }
    if temp_zip_exists && !force {
        issues.push(UnpackIssue::TempZipExists);
    }
    proof {
        assert(issues@ =~= unpack_issues(
            destination_exists,
            destination_is_dir,
            destination_is_empty,
            temp_zip_exists,
            force,
        ));
    }
    issues
}

/// Relies on uuid::Uuid::new_v4 and its Display form: a freshly drawn
/// random identifier, rendered hyphenated as exactly 36 characters. Nothing
/// is assumed about which identifier comes back.
#[verifier::external_body]
fn random_identifier() -> (s: String)
    ensures
        s@.len() == 36,
{
    uuid::Uuid::new_v4().to_string()
}

/// Draws a candidate name for the temporary archive: a random identifier
/// with the archive suffix. Each call may yield a different name.
pub fn fresh_zip_name() -> (name: String)
    ensures
        name@.len() == 40,
        name@.subrange(36, 40) == ".zip"@,
{
    let id = random_identifier();
    let name = id.concat(".zip");
    proof {
        reveal_strlit(".zip");
        assert(name@.subrange(36, 40) =~= ".zip"@);
    }
    name
}

/// The bounded retry for a collision-free temporary name: an explicit
/// collision counter with a typed exhaustion verdict.
pub struct TempNameSearch {
    /// How many candidate names were found already taken.
    pub attempts: u32,
}

impl TempNameSearch {
    /// A fresh search: no collision seen yet.
    pub fn new() -> (s: TempNameSearch)
        ensures
            s.attempts == 0,
    {
        TempNameSearch { attempts: 0 }
    }

    /// Notes that the current candidate name already exists. The verdict is
    /// fatal — all guesses used up, the unlucky error — exactly when the
    /// collision count passes the budget; the count never moves past it.
    pub fn collision(&mut self) -> (fatal: bool)
        ensures
            final(self).attempts == if old(self).attempts <= UNLUCKY_LIMIT {
                (old(self).attempts + 1) as u32
            } else {
                old(self).attempts
            },
            fatal == (final(self).attempts > UNLUCKY_LIMIT),
    {
        if self.attempts <= UNLUCKY_LIMIT {
            self.attempts = self.attempts + 1;
        }
        self.attempts > UNLUCKY_LIMIT
    }
}

} // verus!
