use vstd::prelude::*;

use crate::text::{append_str, chars_of, copy_string, has_prefix, starts_with_chars, string_from_chars};

verus! {

/// What a file operation changed, kept so that it can be undone.
#[derive(Debug)]
pub enum FsRollbackSnapshotData {
    Rename { source_path: String, target_path: String },
    WriteText { file_path: String, previous_content: Option<String> },
}

#[derive(Debug)]
pub struct FsRollbackSnapshot {
    pub operation_id: String,
    pub created_at_ms: u128,
    pub data: FsRollbackSnapshotData,
}

/// A change to the file tree.
#[derive(Debug)]
pub enum FsChange {
    RenameFile { from: String, to: String },
    WriteFile { path: String, content: String },
    RemoveFileIfExists { path: String },
}

/// The file tree as a map from path to content.
pub type Files = Map<Seq<char>, Seq<char>>;

pub open spec fn after_fs_change(files: Files, change: FsChange) -> Files {
    match change {
        FsChange::RenameFile { from, to } => if files.contains_key(from@) {
            files.remove(from@).insert(to@, files[from@])
        } else {
            files
        },
        FsChange::WriteFile { path, content } => files.insert(path@, content@),
        FsChange::RemoveFileIfExists { path } => files.remove(path@),
    }
}

pub open spec fn content_at(files: Files, path: Seq<char>) -> Option<Seq<char>> {
    if files.contains_key(path) {
        Some(files[path])
    } else {
        None
    }
}

pub open spec fn opt_text(o: Option<String>) -> Option<Seq<char>> {
    match o {
        Some(s) => Some(s@),
        None => None,
    }
}

/// The snapshot recorded before renaming `source_path` to `target_path`.
pub fn rename_snapshot(
    operation_id: String,
    created_at_ms: u128,
    source_path: String,
    target_path: String,
) -> (r: FsRollbackSnapshot)
    ensures
        r.operation_id@ == operation_id@,
        r.created_at_ms == created_at_ms,
        r.data matches FsRollbackSnapshotData::Rename { source_path: s, target_path: t } && s@
            == source_path@ && t@ == target_path@,
{
    FsRollbackSnapshot {
        operation_id,
        created_at_ms,
        data: FsRollbackSnapshotData::Rename { source_path, target_path },
    }
}

/// The snapshot recorded before writing `file_path`, holding its content
/// then (`None` when the file did not exist).
pub fn write_text_snapshot(
    operation_id: String,
    created_at_ms: u128,
    file_path: String,
    previous_content: Option<String>,
) -> (r: FsRollbackSnapshot)
    ensures
        r.operation_id@ == operation_id@,
        r.created_at_ms == created_at_ms,
        r.data matches FsRollbackSnapshotData::WriteText { file_path: p, previous_content: c }
            && p@ == file_path@ && opt_text(c) == opt_text(previous_content),
{
    FsRollbackSnapshot {
        operation_id,
        created_at_ms,
        data: FsRollbackSnapshotData::WriteText { file_path, previous_content },
    }
}

/// The change that undoes a snapshot, and the detail reported for it.
#[derive(Debug)]
pub struct FsRollbackStep {
    pub change: FsChange,
    pub detail: String,
}

/// The change that undoes `data`, or `None` when a rename cannot be undone
/// because its target is gone or its source is occupied again.
pub open spec fn spec_undo(
    data: FsRollbackSnapshotData,
    source_exists: bool,
    target_exists: bool,
) -> Option<FsChange> {
    match data {
        FsRollbackSnapshotData::Rename { source_path, target_path } => if !target_exists
            || source_exists {
            None
        } else {
            Some(FsChange::RenameFile { from: target_path, to: source_path })
        },
        FsRollbackSnapshotData::WriteText { file_path, previous_content } => match previous_content {
            Some(c) => Some(FsChange::WriteFile { path: file_path, content: c }),
            None => Some(FsChange::RemoveFileIfExists { path: file_path }),
        },
    }
}

pub open spec fn same_change(a: FsChange, b: FsChange) -> bool {
    match (a, b) {
        (FsChange::RenameFile { from: f1, to: t1 }, FsChange::RenameFile { from: f2, to: t2 }) => f1@
            == f2@ && t1@ == t2@,
        (
            FsChange::WriteFile { path: p1, content: c1 },
            FsChange::WriteFile { path: p2, content: c2 },
        ) => p1@ == p2@ && c1@ == c2@,
        (FsChange::RemoveFileIfExists { path: p1 }, FsChange::RemoveFileIfExists { path: p2 }) => p1@
            == p2@,
        _ => false,
    }
}

/// Undoes a file operation from its snapshot; `source_exists` and
/// `target_exists` tell, for a rename, whether its two paths exist now.
pub fn rollback_fs_operation(
    snapshot: FsRollbackSnapshot,
    source_exists: bool,
    target_exists: bool,
) -> (r: Result<FsRollbackStep, String>)
    ensures
        r is Ok <==> spec_undo(snapshot.data, source_exists, target_exists) is Some,
        r matches Ok(step) ==> same_change(
            step.change,
            spec_undo(snapshot.data, source_exists, target_exists)->Some_0,
        ),
        r matches Err(m) ==> (snapshot.data matches FsRollbackSnapshotData::Rename {
            source_path,
            target_path,
        } && (if !target_exists {
            m@ == "rollback failed: target path missing ("@ + target_path@ + ")"@
        } else {
            m@ == "rollback failed: source path already exists ("@ + source_path@ + ")"@
        })),
{
    match snapshot.data {
        FsRollbackSnapshotData::Rename { source_path, target_path } => {
            if !target_exists {
                let mut m: Vec<char> = Vec::new();
                append_str(&mut m, "rollback failed: target path missing (");
                append_str(&mut m, target_path.as_str());
                append_str(&mut m, ")");
                return Err(string_from_chars(&m));
            }
            if source_exists {
                let mut m: Vec<char> = Vec::new();
                append_str(&mut m, "rollback failed: source path already exists (");
                append_str(&mut m, source_path.as_str());
                append_str(&mut m, ")");
                return Err(string_from_chars(&m));
            }
            let mut d: Vec<char> = Vec::new();
            append_str(&mut d, "renamed ");
            append_str(&mut d, target_path.as_str());
            append_str(&mut d, " back to ");
            append_str(&mut d, source_path.as_str());
            Ok(
                FsRollbackStep {
                    change: FsChange::RenameFile { from: target_path, to: source_path },
                    detail: string_from_chars(&d),
                },
            )
        },
        FsRollbackSnapshotData::WriteText { file_path, previous_content } => {
            let mut d: Vec<char> = Vec::new();
            append_str(&mut d, "restored file ");
            append_str(&mut d, file_path.as_str());
            let change = match previous_content {
                Some(c) => FsChange::WriteFile { path: file_path, content: c },
                None => FsChange::RemoveFileIfExists { path: file_path },
            };
            Ok(FsRollbackStep { change, detail: string_from_chars(&d) })
        },
    }
}

/// Operation ids of file operations start with `fsop-`; all others belong
/// to sidecar operations.
pub fn is_fs_operation_id(operation_id: &str) -> (r: bool)
    ensures
        r == has_prefix(operation_id@, "fsop-"@),
{
    let id = chars_of(operation_id);
    let prefix = chars_of("fsop-");
    starts_with_chars(&id, &prefix)
}

/// Renaming a file and then rolling the rename back from its snapshot puts
/// the file tree back as it was, provided nothing else touched the two paths
/// in between: the rollback succeeds, and the file is at its old path again.
pub proof fn lemma_rename_rollback_restores_files(
    files: Files,
    source_path: String,
    target_path: String,
    snapshot: FsRollbackSnapshot,
)
    requires
        files.contains_key(source_path@),
        !files.contains_key(target_path@),
        source_path@ != target_path@,
        snapshot.data matches FsRollbackSnapshotData::Rename { source_path: s, target_path: t }
            && s@ == source_path@ && t@ == target_path@,
    ensures
        ({
            let renamed = after_fs_change(
                files,
                FsChange::RenameFile { from: source_path, to: target_path },
            );
            let undo = spec_undo(
                snapshot.data,
                renamed.contains_key(source_path@),
                renamed.contains_key(target_path@),
            );
            &&& undo is Some
            &&& after_fs_change(renamed, undo->Some_0) == files
        }),
{
    let renamed = after_fs_change(files, FsChange::RenameFile { from: source_path, to: target_path });
    assert(renamed.contains_key(target_path@));
    assert(!renamed.contains_key(source_path@));
    let undo = spec_undo(
        snapshot.data,
        renamed.contains_key(source_path@),
        renamed.contains_key(target_path@),
    );
    assert(after_fs_change(renamed, undo->Some_0) =~= files);
}

/// Writing a file and then rolling the write back from its snapshot puts the
/// file tree back as it was: the old content returns, or the file is removed
/// when it did not exist before.
pub proof fn lemma_write_rollback_restores_files(
    files: Files,
    file_path: String,
    content: String,
    snapshot: FsRollbackSnapshot,
    source_exists: bool,
    target_exists: bool,
)
    requires
        snapshot.data matches FsRollbackSnapshotData::WriteText { file_path: p, previous_content: c }
            && p@ == file_path@ && opt_text(c) == content_at(files, file_path@),
    ensures
        ({
            let written = after_fs_change(
                files,
                FsChange::WriteFile { path: file_path, content },
            );
            let undo = spec_undo(snapshot.data, source_exists, target_exists);
            &&& undo is Some
            &&& after_fs_change(written, undo->Some_0) == files
        }),
{
    let written = after_fs_change(files, FsChange::WriteFile { path: file_path, content });
    let undo = spec_undo(snapshot.data, source_exists, target_exists);
    assert(after_fs_change(written, undo->Some_0) =~= files);
}

} // verus!
