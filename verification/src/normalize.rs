//! The event normalizer: turns one raw change notification into zero or one
//! canonical operation, or a reason to discard it.

use vstd::prelude::*;

verus! {

use crate::ops::{EntryKind, Operation, OperationKind};
use crate::paths::{is_probe_path, path_names_probe};

/// The change kind a notification's change tag reports.
#[derive(Clone, Copy, Debug, PartialEq, Eq, Structural)]
pub enum ChangeKind {
    /// Reserved "any kind, unspecified" value: an input-contract breach.
    Any,
    /// A pure read; irrelevant to replication.
    Access,
    Create,
    Modify,
    Remove,
    /// "Some other, unspecified change": marked noise by the upstream source.
    Other,
}

/// One typed tag of a raw notification. Tag kinds the engine does not read
/// are represented by `Source` (provenance) and `Ignored` (everything else).
#[derive(Debug, Clone)]
pub enum RawTag {
    Path { path: String, entry_kind: Option<EntryKind> },
    Change { kind: ChangeKind },
    Source,
    Ignored,
}

/// One raw change notification: an unordered bag of typed tags, kept in
/// arrival order.
#[derive(Debug, Clone)]
pub struct RawNotification {
    pub tags: Vec<RawTag>,
}

/// Why a raw notification yields no operation.
#[derive(Clone, Copy, Debug, PartialEq, Eq, Structural)]
pub enum Discard {
    /// The notification carries an unspecified-other change tag: known noise.
    IrrelevantKind,
    /// The notification reports a pure read.
    AccessOnly,
    /// The notification's path names the reserved editor-probe file.
    EditorProbe,
    /// After all tags, path or change kind was still missing; a routine
    /// outcome, e.g. for provenance-only records.
    Incomplete,
    /// A reserved "any, unspecified" change kind: a fatal input-contract
    /// violation, not mere noise.
    UnspecifiedKind,
}

impl Discard {
    /// Only an unspecified change kind is a protocol violation that must
    /// stop the whole engine; every other discard is routine.
    pub open spec fn spec_is_fatal(self) -> bool {
        self matches Discard::UnspecifiedKind
    }

    /// Decides `spec_is_fatal`.
    pub fn is_fatal(&self) -> (r: bool)
        ensures
            r == self.spec_is_fatal(),
    {
        match self {
            Discard::UnspecifiedKind => true,
            _ => false,
        }
    }
}

/// The tag is an unspecified-other change tag.
pub open spec fn is_other_change(t: RawTag) -> bool {
    t matches RawTag::Change { kind: ChangeKind::Other }
}

/// Some tag of the notification is an unspecified-other change tag.
pub open spec fn has_other_change(tags: Seq<RawTag>) -> bool {
    exists|i: int| 0 <= i < tags.len() && is_other_change(#[trigger] tags[i])
}

/// Left-to-right scan of the tags, accumulating the latest path tag and the
/// latest change kind, stopping early on a probe path, an access change or a
/// reserved "any" change; succeeds only if both accumulators were filled.
pub open spec fn scan_tags(
    tags: Seq<RawTag>,
    path_acc: Option<(Seq<char>, Option<EntryKind>)>,
    kind_acc: Option<OperationKind>,
) -> Result<(Seq<char>, Option<EntryKind>, OperationKind), Discard>
    decreases tags.len(),
{
    if tags.len() == 0 {
        match (path_acc, kind_acc) {
            (Some(pe), Some(k)) => Ok((pe.0, pe.1, k)),
            _ => Err(Discard::Incomplete),
        }
    } else {
        let rest = tags.drop_first();
        match tags[0] {
            RawTag::Path { path, entry_kind } => if is_probe_path(path@) {
                Err(Discard::EditorProbe)
            } else {
                scan_tags(rest, Some((path@, entry_kind)), kind_acc)
            },
            RawTag::Change { kind } => match kind {
                ChangeKind::Any => Err(Discard::UnspecifiedKind),
                ChangeKind::Access => Err(Discard::AccessOnly),
                ChangeKind::Create => scan_tags(rest, path_acc, Some(OperationKind::Create)),
                ChangeKind::Modify => scan_tags(rest, path_acc, Some(OperationKind::Update)),
                ChangeKind::Remove => scan_tags(rest, path_acc, Some(OperationKind::Delete)),
                ChangeKind::Other => scan_tags(rest, path_acc, kind_acc),
            },
            RawTag::Source => scan_tags(rest, path_acc, kind_acc),
            RawTag::Ignored => scan_tags(rest, path_acc, kind_acc),
        }
    }
}

/// What one raw notification amounts to: a notification with any
/// unspecified-other change tag is noise; otherwise its tags are scanned in
/// order.
pub open spec fn normalize_spec(tags: Seq<RawTag>) -> Result<
    (Seq<char>, Option<EntryKind>, OperationKind),
    Discard,
> {
    if has_other_change(tags) {
        Err(Discard::IrrelevantKind)
    } else {
        scan_tags(tags, None, None)
    }
}

/// The view of the executable path accumulator.
pub open spec fn path_acc_view(a: Option<(String, Option<EntryKind>)>) -> Option<
    (Seq<char>, Option<EntryKind>),
> {
    match a {
        Some(pe) => Some((pe.0@, pe.1)),
        None => None,
    }
}

/// Converts one raw notification into the operation it denotes, or the
/// reason it denotes none.
pub fn normalize(raw: &RawNotification) -> (r: Result<Operation, Discard>)
    ensures
        r matches Ok(op) ==> normalize_spec(raw.tags@) == Ok::<_, Discard>(
            (op.path@, op.entry_kind, op.kind),
        ),
        r matches Err(d) ==> normalize_spec(raw.tags@) == Err::<
            (Seq<char>, Option<EntryKind>, OperationKind),
            _,
        >(d),
{
    let n = raw.tags.len();
    let mut i: usize = 0;
    while i < n
        invariant
            i <= n,
            n == raw.tags@.len(),
            forall|j: int| 0 <= j < i ==> !is_other_change(#[trigger] raw.tags@[j]),
        decreases n - i,
    {
        if let RawTag::Change { kind: ChangeKind::Other } = &raw.tags[i] {
            assert(is_other_change(raw.tags@[i as int]));
            return Err(Discard::IrrelevantKind);
        }
        i = i + 1;
    }
    assert(!has_other_change(raw.tags@));
    let mut path_acc: Option<(String, Option<EntryKind>)> = None;
    let mut kind_acc: Option<OperationKind> = None;
    let mut i: usize = 0;
    proof {
        assert(raw.tags@.subrange(0, n as int) =~= raw.tags@);
    }
    while i < n
        invariant
            i <= n,
            n == raw.tags@.len(),
            !has_other_change(raw.tags@),
            scan_tags(raw.tags@.subrange(i as int, n as int), path_acc_view(path_acc), kind_acc)
                == scan_tags(raw.tags@, None, None),
        decreases n - i,
    {
        proof {
            let s = raw.tags@.subrange(i as int, n as int);
            assert(s.drop_first() =~= raw.tags@.subrange(i + 1, n as int));
            assert(s[0] == raw.tags@[i as int]);
        }
        match &raw.tags[i] {
            RawTag::Path { path, entry_kind } => {
                if path_names_probe(path.as_str()) {
                    return Err(Discard::EditorProbe);
                }
                path_acc = Some((path.clone(), *entry_kind));
            },
            RawTag::Change { kind } => {
                match kind {
                    ChangeKind::Any => {
                        return Err(Discard::UnspecifiedKind);
                    },
                    ChangeKind::Access => {
                        return Err(Discard::AccessOnly);
                    },
                    ChangeKind::Create => {
                        kind_acc = Some(OperationKind::Create);
                    },
                    ChangeKind::Modify => {
                        kind_acc = Some(OperationKind::Update);
                    },
                    ChangeKind::Remove => {
                        kind_acc = Some(OperationKind::Delete);
                    },
                    ChangeKind::Other => {},
                }
            },
            RawTag::Source => {},
            RawTag::Ignored => {},
        }
        i = i + 1;
    }
    proof {
        assert(raw.tags@.subrange(n as int, n as int) =~= Seq::<RawTag>::empty());
    }
    match (path_acc, kind_acc) {
        (Some(pe), Some(k)) => Ok(Operation { path: pe.0, kind: k, entry_kind: pe.1 }),
        _ => Err(Discard::Incomplete),
    }
}

/// A tag on which the scan stops with an error no matter what came before:
/// a probe-named path, a pure read, or the reserved "any" change kind.
pub open spec fn tag_forces_discard(t: RawTag) -> bool {
    ||| (t matches RawTag::Path { path, .. } && is_probe_path(path@))
    ||| t matches RawTag::Change { kind: ChangeKind::Access }
    ||| t matches RawTag::Change { kind: ChangeKind::Any }
}

proof fn lemma_scan_err_at(
    tags: Seq<RawTag>,
    path_acc: Option<(Seq<char>, Option<EntryKind>)>,
    kind_acc: Option<OperationKind>,
    i: int,
)
    requires
        0 <= i < tags.len(),
        tag_forces_discard(tags[i]),
    ensures
        scan_tags(tags, path_acc, kind_acc) is Err,
    decreases i,
{
    let rest = tags.drop_first();
    if i > 0 {
        assert(rest[i - 1] == tags[i]);
        match tags[0] {
            RawTag::Path { path, entry_kind } => {
                if !is_probe_path(path@) {
                    lemma_scan_err_at(rest, Some((path@, entry_kind)), kind_acc, i - 1);
                }
            },
            RawTag::Change { kind } => match kind {
                ChangeKind::Any => {},
                ChangeKind::Access => {},
                ChangeKind::Create => {
                    lemma_scan_err_at(rest, path_acc, Some(OperationKind::Create), i - 1);
                },
                ChangeKind::Modify => {
                    lemma_scan_err_at(rest, path_acc, Some(OperationKind::Update), i - 1);
                },
                ChangeKind::Remove => {
                    lemma_scan_err_at(rest, path_acc, Some(OperationKind::Delete), i - 1);
                },
                ChangeKind::Other => {
                    lemma_scan_err_at(rest, path_acc, kind_acc, i - 1);
                },
            },
            RawTag::Source => {
                lemma_scan_err_at(rest, path_acc, kind_acc, i - 1);
            },
            RawTag::Ignored => {
                lemma_scan_err_at(rest, path_acc, kind_acc, i - 1);
            },
        }
    }
}

/// Noise filtering: a notification carrying a path tag whose final segment
/// is the reserved editor-probe name never yields an operation, whatever its
/// change kind.
pub proof fn lemma_probe_path_discarded(tags: Seq<RawTag>, i: int)
    requires
        0 <= i < tags.len(),
        tags[i] matches RawTag::Path { path, .. } && is_probe_path(path@),
    ensures
        normalize_spec(tags) is Err,
{
    if !has_other_change(tags) {
        lemma_scan_err_at(tags, None, None, i);
    }
}

/// Discard of read events: a notification carrying an access change tag
/// never yields an operation.
pub proof fn lemma_access_discarded(tags: Seq<RawTag>, i: int)
    requires
        0 <= i < tags.len(),
        tags[i] matches RawTag::Change { kind: ChangeKind::Access },
    ensures
        normalize_spec(tags) is Err,
{
    if !has_other_change(tags) {
        lemma_scan_err_at(tags, None, None, i);
    }
}

} // verus!
