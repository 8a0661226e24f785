use warudo::apply::{delete_action, plan_batch, plan_events, ApplyStep, DeleteAction};
use warudo::normalize::{ChangeKind, Discard, RawNotification, RawTag};
use warudo::ops::{EntryKind, OperationKind};
use warudo::resolve::resolve;

fn path_tag(p: &str, entry_kind: Option<EntryKind>) -> RawTag {
    RawTag::Path { path: p.to_string(), entry_kind }
}

fn change_tag(kind: ChangeKind) -> RawTag {
    RawTag::Change { kind }
}

fn notif(p: &str, entry_kind: Option<EntryKind>, kind: ChangeKind) -> RawNotification {
    RawNotification { tags: vec![path_tag(p, entry_kind), change_tag(kind)] }
}

#[test]
fn last_write_wins_create_then_delete() {
    let batch = vec![
        notif("/src/a.txt", Some(EntryKind::File), ChangeKind::Create),
        notif("/src/a.txt", None, ChangeKind::Remove),
    ];
    let rb = resolve(&batch).expect("no fatal notification");
    assert_eq!(rb.entries.len(), 1);
    assert_eq!(rb.entries[0].path, "/src/a.txt");
    assert_eq!(rb.entries[0].kind, OperationKind::Delete);
    assert_eq!(rb.entries[0].entry_kind, None);
}

#[test]
fn entries_come_out_in_path_order_not_arrival_order() {
    let batch = vec![
        notif("/src/z.txt", Some(EntryKind::File), ChangeKind::Create),
        notif("/src/a.txt", Some(EntryKind::File), ChangeKind::Create),
        notif("/src/m.txt", Some(EntryKind::File), ChangeKind::Modify),
    ];
    let rb = resolve(&batch).expect("no fatal notification");
    assert_eq!(rb.entries.len(), 3);
    assert_eq!(rb.entries[0].path, "/src/a.txt");
    assert_eq!(rb.entries[1].path, "/src/m.txt");
    assert_eq!(rb.entries[2].path, "/src/z.txt");
}

#[test]
fn discarded_notifications_do_not_reach_the_batch() {
    let batch = vec![
        notif("/src/a.txt", Some(EntryKind::File), ChangeKind::Create),
        notif("/src/b.txt", Some(EntryKind::File), ChangeKind::Access),
        notif("/src/4913", Some(EntryKind::File), ChangeKind::Create),
        RawNotification { tags: vec![RawTag::Source] },
    ];
    let rb = resolve(&batch).expect("no fatal notification");
    assert_eq!(rb.entries.len(), 1);
    assert_eq!(rb.entries[0].path, "/src/a.txt");
}

#[test]
fn fatal_notification_aborts_the_whole_batch() {
    let batch = vec![
        notif("/src/a.txt", Some(EntryKind::File), ChangeKind::Create),
        notif("/src/b.txt", Some(EntryKind::File), ChangeKind::Any),
    ];
    assert_eq!(resolve(&batch).err(), Some(Discard::UnspecifiedKind));
}

#[test]
fn create_is_planned_as_copy_into_the_mirror() {
    let batch = vec![notif("/src/f.txt", Some(EntryKind::File), ChangeKind::Create)];
    let (_, steps) = plan_events(&batch, "/src", "/dst").expect("no fatal notification");
    assert_eq!(
        steps,
        vec![ApplyStep::CopyFile { source: "/src/f.txt".to_string(), target: "/dst/f.txt".to_string() }]
    );
}

#[test]
fn directory_then_nested_file_plans_directory_first() {
    let batch = vec![
        notif("/src/d/f.txt", Some(EntryKind::File), ChangeKind::Create),
        notif("/src/d", Some(EntryKind::Directory), ChangeKind::Create),
    ];
    let (_, steps) = plan_events(&batch, "/src", "/dst").expect("no fatal notification");
    assert_eq!(steps.len(), 2);
    assert_eq!(steps[0], ApplyStep::CreateDir { target: "/dst/d".to_string() });
    assert_eq!(
        steps[1],
        ApplyStep::CopyFile { source: "/src/d/f.txt".to_string(), target: "/dst/d/f.txt".to_string() }
    );
}

#[test]
fn update_of_directory_is_planned_as_directory_creation() {
    let batch = vec![notif("/src/d", Some(EntryKind::Directory), ChangeKind::Modify)];
    let (_, steps) = plan_events(&batch, "/src", "/dst").expect("no fatal notification");
    assert_eq!(steps, vec![ApplyStep::CreateDir { target: "/dst/d".to_string() }]);
}

#[test]
fn update_without_entry_kind_is_planned_as_copy() {
    let batch = vec![notif("/src/f.txt", None, ChangeKind::Modify)];
    let (_, steps) = plan_events(&batch, "/src", "/dst").expect("no fatal notification");
    assert_eq!(
        steps,
        vec![ApplyStep::CopyFile { source: "/src/f.txt".to_string(), target: "/dst/f.txt".to_string() }]
    );
}

#[test]
fn delete_is_planned_against_the_translated_target() {
    let batch = vec![notif("/src/ghost.txt", None, ChangeKind::Remove)];
    let (_, steps) = plan_events(&batch, "/src", "/dst").expect("no fatal notification");
    assert_eq!(steps, vec![ApplyStep::Delete { target: "/dst/ghost.txt".to_string() }]);
}

#[test]
fn delete_of_missing_target_is_skipped_not_an_error() {
    assert_eq!(delete_action(None), DeleteAction::SkipMissing);
}

#[test]
fn delete_dispatches_on_target_metadata() {
    assert_eq!(delete_action(Some(true)), DeleteAction::RemoveTree);
    assert_eq!(delete_action(Some(false)), DeleteAction::RemoveEntry);
}

#[test]
fn path_outside_the_source_root_is_skipped() {
    let batch = vec![notif("/elsewhere/f.txt", Some(EntryKind::File), ChangeKind::Create)];
    let (_, steps) = plan_events(&batch, "/src", "/dst").expect("no fatal notification");
    assert_eq!(steps, vec![ApplyStep::Skip { path: "/elsewhere/f.txt".to_string() }]);
}

#[test]
fn plan_batch_follows_key_order_of_the_resolved_batch() {
    let batch = vec![
        notif("/src/b", Some(EntryKind::Directory), ChangeKind::Create),
        notif("/src/a.txt", Some(EntryKind::File), ChangeKind::Create),
        notif("/src/c.txt", None, ChangeKind::Remove),
    ];
    let rb = resolve(&batch).expect("no fatal notification");
    let steps = plan_batch(&rb, "/src", "/dst");
    assert_eq!(steps.len(), 3);
    assert_eq!(
        steps[0],
        ApplyStep::CopyFile { source: "/src/a.txt".to_string(), target: "/dst/a.txt".to_string() }
    );
    assert_eq!(steps[1], ApplyStep::CreateDir { target: "/dst/b".to_string() });
    assert_eq!(steps[2], ApplyStep::Delete { target: "/dst/c.txt".to_string() });
}

#[test]
fn plan_events_reports_the_fatal_discard() {
    let batch = vec![notif("/src/a.txt", None, ChangeKind::Any)];
    assert_eq!(plan_events(&batch, "/src", "/dst").err(), Some(Discard::UnspecifiedKind));
}
