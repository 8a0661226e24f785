//! The replication planner: turns a resolved batch into the ordered list of
//! filesystem actions that replicate it under the mirror root.

use vstd::prelude::*;

verus! {

use crate::normalize::{Discard, RawNotification};
use crate::ops::{EntryKind, OperationKind};
use crate::paths::{translatable, translate, translate_spec};
use crate::resolve::{has_fatal, resolve, resolved_value, ResolvedBatch};

/// One planned action on the mirror tree. The plan carries no filesystem
/// state: whether a delete removes a tree or a single entry is decided at
/// execution time from the target's metadata (see `delete_action`).
#[derive(Debug, Clone, PartialEq, Eq)]
pub enum ApplyStep {
    /// Recursively create the directory `target` and any missing ancestors.
    CreateDir { target: String },
    /// Copy the file at `source` over `target`.
    CopyFile { source: String, target: String },
    /// Remove `target`.
    Delete { target: String },
    /// The operation's path does not lie under the source root (or is not a
    /// normal absolute path); it is skipped with a warning.
    Skip { path: String },
}

/// The action that one resolved operation demands: a skip when the path
/// cannot be re-rooted, otherwise a directory creation, a file copy or a
/// delete on the translated target.
pub open spec fn step_for(
    path: Seq<char>,
    entry_kind: Option<EntryKind>,
    kind: OperationKind,
    source_root: Seq<char>,
    mirror_root: Seq<char>,
    step: ApplyStep,
) -> bool {
    if !translatable(source_root, path) {
        step matches ApplyStep::Skip { path: p } && p@ == path
    } else {
        let target = translate_spec(source_root, mirror_root, path);
        match kind {
            OperationKind::Delete => step matches ApplyStep::Delete { target: t } && t@ == target,
            _ => {
                if entry_kind == Some(EntryKind::Directory) {
                    step matches ApplyStep::CreateDir { target: t } && t@ == target
                } else {
                    step matches ApplyStep::CopyFile { source: s, target: t } && s@ == path && t@
                        == target
                }
            },
        }
    }
}

/// Plans the mirror action for one resolved operation.
pub fn plan_entry(
    path: &String,
    entry_kind: &Option<EntryKind>,
    kind: OperationKind,
    source_root: &str,
    mirror_root: &str,
) -> (r: ApplyStep)
    ensures
        step_for(path@, *entry_kind, kind, source_root@, mirror_root@, r),
{
    match translate(path.as_str(), source_root, mirror_root) {
        None => ApplyStep::Skip { path: path.clone() },
        Some(target) => match kind {
            OperationKind::Delete => ApplyStep::Delete { target },
            _ => match entry_kind {
                Some(EntryKind::Directory) => ApplyStep::CreateDir { target },
                _ => ApplyStep::CopyFile { source: path.clone(), target },
            },
        },
    }
}

/// Plans the whole batch, one action per resolved entry, in the batch's key
/// order (ascending paths).
pub fn plan_batch(rb: &ResolvedBatch, source_root: &str, mirror_root: &str) -> (r: Vec<ApplyStep>)
    ensures
        r@.len() == rb.entry_seq().len(),
        forall|i: int|
            0 <= i < r@.len() ==> step_for(
                rb.entry_seq()[i].path@,
                rb.entry_seq()[i].entry_kind,
                rb.entry_seq()[i].kind,
                source_root@,
                mirror_root@,
                #[trigger] r@[i],
            ),
{
    let n = rb.len();
    let mut steps: Vec<ApplyStep> = Vec::new();
    let mut i: usize = 0;
    while i < n
        invariant
            i <= n,
            n == rb.entry_seq().len(),
            steps@.len() == i,
            forall|j: int|
                0 <= j < i ==> step_for(
                    rb.entry_seq()[j].path@,
                    rb.entry_seq()[j].entry_kind,
                    rb.entry_seq()[j].kind,
                    source_root@,
                    mirror_root@,
                    #[trigger] steps@[j],
                ),
        decreases n - i,
    {
        let e = rb.get(i);
        let step = plan_entry(&e.path, &e.entry_kind, e.kind, source_root, mirror_root);
        steps.push(step);
        i = i + 1;
    }
    steps
}

/// How a planned delete is carried out once the target's metadata is known:
/// a directory is removed with all its contents, any other entry singly, and
/// a target whose metadata cannot be read (it no longer exists) is skipped
/// with a warning rather than failing the batch.
#[derive(Clone, Copy, Debug, PartialEq, Eq, Structural)]
pub enum DeleteAction {
    RemoveTree,
    RemoveEntry,
    SkipMissing,
}

/// Decides the delete dispatch from the metadata lookup's outcome:
/// `Some(is_dir)` when the target's metadata was read, `None` when it could
/// not be.
pub fn delete_action(metadata_is_dir: Option<bool>) -> (r: DeleteAction)
    ensures
        r == match metadata_is_dir {
            Some(true) => DeleteAction::RemoveTree,
            Some(false) => DeleteAction::RemoveEntry,
            None => DeleteAction::SkipMissing,
        },
{
    match metadata_is_dir {
        Some(true) => DeleteAction::RemoveTree,
        Some(false) => DeleteAction::RemoveEntry,
        None => DeleteAction::SkipMissing,
    }
}

/// The pure core of one drain cycle: the drained batch is resolved
/// (normalized, deduplicated per path, last write winning) and the resolved
/// operations are planned in key order. A fatally malformed notification
/// aborts the cycle instead.
pub fn plan_events(batch: &Vec<RawNotification>, source_root: &str, mirror_root: &str) -> (r:
    Result<(ResolvedBatch, Vec<ApplyStep>), Discard>)
    ensures
        r is Ok <==> !has_fatal(batch@),
        r matches Err(d) ==> d == Discard::UnspecifiedKind,
        r matches Ok(pair) ==> {
            &&& pair.0.wf()
            &&& forall|p: Seq<char>|
                #[trigger] pair.0.lookup(p) == resolved_value(batch@, p)
            &&& pair.1@.len() == pair.0.entry_seq().len()
            &&& forall|i: int|
                0 <= i < pair.1@.len() ==> step_for(
                    pair.0.entry_seq()[i].path@,
                    pair.0.entry_seq()[i].entry_kind,
                    pair.0.entry_seq()[i].kind,
                    source_root@,
                    mirror_root@,
                    #[trigger] pair.1@[i],
                )
        },
{
    match resolve(batch) {
        Ok(rb) => {
            let steps = plan_batch(&rb, source_root, mirror_root);
            Ok((rb, steps))
        },
        Err(d) => Err(d),
    }
}

} // verus!
