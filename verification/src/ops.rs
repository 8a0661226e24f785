//! The operation model: what happened to a path.

use vstd::prelude::*;

verus! {

use vstd::std_specs::cmp::PartialOrdSpec;

/// The kind of filesystem entry a notification reported, ordered
/// (File < Directory < Symlink < Other) purely so that values have a stable,
/// deterministic sort key; the order carries no further meaning.
#[derive(Clone, Copy, Debug, PartialEq, Eq, Structural)]
pub enum EntryKind {
    File,
    Directory,
    Symlink,
    Other,
}

/// The kind of change to replicate, ordered (Create < Update < Delete) for
/// determinism only.
#[derive(Clone, Copy, Debug, PartialEq, Eq, Structural)]
pub enum OperationKind {
    Create,
    Update,
    Delete,
}

/// Sort key of an `EntryKind`, fixing the total order File < Directory <
/// Symlink < Other.
pub open spec fn entry_kind_rank_spec(k: EntryKind) -> int {
    match k {
        EntryKind::File => 1,
        EntryKind::Directory => 2,
        EntryKind::Symlink => 3,
        EntryKind::Other => 4,
    }
}

/// Sort key of an `OperationKind`, fixing the total order Create < Update <
/// Delete.
pub open spec fn operation_kind_rank_spec(k: OperationKind) -> int {
    match k {
        OperationKind::Create => 1,
        OperationKind::Update => 2,
        OperationKind::Delete => 3,
    }
}

pub fn entry_kind_rank(k: EntryKind) -> (r: usize)
    ensures
        r == entry_kind_rank_spec(k),
{
    match k {
        EntryKind::File => 1,
        EntryKind::Directory => 2,
        EntryKind::Symlink => 3,
        EntryKind::Other => 4,
    }
}

pub fn operation_kind_rank(k: OperationKind) -> (r: usize)
    ensures
        r == operation_kind_rank_spec(k),
{
    match k {
        OperationKind::Create => 1,
        OperationKind::Update => 2,
        OperationKind::Delete => 3,
    }
}

impl PartialOrd for EntryKind {
    /// Orders entry kinds by their rank.
    fn partial_cmp(&self, other: &Self) -> (r: Option<core::cmp::Ordering>) {
        let a = entry_kind_rank(*self);
        let b = entry_kind_rank(*other);
        if a < b {
            Some(core::cmp::Ordering::Less)
        } else if a == b {
            Some(core::cmp::Ordering::Equal)
        } else {
            Some(core::cmp::Ordering::Greater)
        }
    }
}

impl vstd::std_specs::cmp::PartialOrdSpecImpl for EntryKind {
    open spec fn obeys_partial_cmp_spec() -> bool {
        true
    }

    open spec fn partial_cmp_spec(&self, other: &Self) -> Option<core::cmp::Ordering> {
        if entry_kind_rank_spec(*self) < entry_kind_rank_spec(*other) {
            Some(core::cmp::Ordering::Less)
        } else if entry_kind_rank_spec(*self) == entry_kind_rank_spec(*other) {
            Some(core::cmp::Ordering::Equal)
        } else {
            Some(core::cmp::Ordering::Greater)
        }
    }
}

impl PartialOrd for OperationKind {
    /// Orders operation kinds by their rank.
    fn partial_cmp(&self, other: &Self) -> (r: Option<core::cmp::Ordering>) {
        let a = operation_kind_rank(*self);
        let b = operation_kind_rank(*other);
        if a < b {
            Some(core::cmp::Ordering::Less)
        } else if a == b {
            Some(core::cmp::Ordering::Equal)
        } else {
            Some(core::cmp::Ordering::Greater)
        }
    }
}

impl vstd::std_specs::cmp::PartialOrdSpecImpl for OperationKind {
    open spec fn obeys_partial_cmp_spec() -> bool {
        true
    }

    open spec fn partial_cmp_spec(&self, other: &Self) -> Option<core::cmp::Ordering> {
        if operation_kind_rank_spec(*self) < operation_kind_rank_spec(*other) {
            Some(core::cmp::Ordering::Less)
        } else if operation_kind_rank_spec(*self) == operation_kind_rank_spec(*other) {
            Some(core::cmp::Ordering::Equal)
        } else {
            Some(core::cmp::Ordering::Greater)
        }
    }
}

/// One canonical operation: the net thing that happened to `path`.
/// `entry_kind` is `None` only when the upstream notification did not report
/// the entry's kind (possible for any operation, and expected for deletes).
#[derive(Debug, Clone, PartialEq, Eq)]
pub struct Operation {
    pub path: String,
    pub kind: OperationKind,
    pub entry_kind: Option<EntryKind>,
}

} // verus!
