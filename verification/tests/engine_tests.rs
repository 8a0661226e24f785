use warudo::buffer::{ActivityClock, NotificationBuffer};
use warudo::debounce::{next_action, SchedulerAction, POLL_INTERVAL_MS, QUIET_PERIOD_MS};
use warudo::intake::{intake_step, IntakeAction, IntakeEvent};
use warudo::normalize::{ChangeKind, RawNotification, RawTag};
use warudo::ops::{entry_kind_rank, operation_kind_rank, EntryKind, OperationKind};
use warudo::paths::{is_normal_path, path_names_probe, starts_under, str_lt, translate};

fn notif(p: &str) -> RawNotification {
    RawNotification {
        tags: vec![
            RawTag::Path { path: p.to_string(), entry_kind: Some(EntryKind::File) },
            RawTag::Change { kind: ChangeKind::Create },
        ],
    }
}

#[test]
fn translation_rebases_a_path_onto_the_mirror_root() {
    assert_eq!(translate("/a/x/y.txt", "/a", "/b"), Some("/b/x/y.txt".to_string()));
}

#[test]
fn translation_handles_nested_roots_and_trailing_slash_mirror() {
    assert_eq!(translate("/a/b/c/d", "/a/b", "/m"), Some("/m/c/d".to_string()));
    assert_eq!(translate("/a/x", "/a", "/b/"), Some("/b/x".to_string()));
}

#[test]
fn translation_refuses_paths_outside_the_source_root() {
    assert_eq!(translate("/c/x", "/a", "/b"), None);
    assert_eq!(translate("/a", "/a", "/b"), None);
    assert_eq!(translate("/ab/x", "/a", "/b"), None);
}

#[test]
fn translation_refuses_paths_that_are_not_in_normal_form() {
    assert_eq!(translate("/a//x", "/a", "/b"), None);
    assert_eq!(translate("/a/./x", "/a", "/b"), None);
    assert_eq!(translate("/a/../x", "/a", "/b"), None);
    assert_eq!(translate("/a/x/", "/a", "/b"), None);
    assert_eq!(translate("/a/x", "a", "/b"), None);
}

#[test]
fn normal_form_check() {
    assert!(is_normal_path("/a/b.txt"));
    assert!(is_normal_path("/a/..b/c"));
    assert!(!is_normal_path("/"));
    assert!(!is_normal_path(""));
    assert!(!is_normal_path("rel/a"));
    assert!(!is_normal_path("/a//b"));
    assert!(!is_normal_path("/a/./b"));
    assert!(!is_normal_path("/a/.."));
    assert!(!is_normal_path("/a/"));
}

#[test]
fn ancestry_check() {
    assert!(starts_under("/a", "/a/x"));
    assert!(!starts_under("/a", "/ab"));
    assert!(!starts_under("/a", "/a"));
    assert!(!starts_under("/a/x", "/a"));
}

#[test]
fn string_order_is_lexicographic() {
    assert!(str_lt("/a", "/b"));
    assert!(str_lt("/a", "/a/b"));
    assert!(str_lt("", "/"));
    assert!(!str_lt("/b", "/a"));
    assert!(!str_lt("/a", "/a"));
}

#[test]
fn probe_name_detection() {
    assert!(path_names_probe("/watched/4913"));
    assert!(path_names_probe("/4913"));
    assert!(path_names_probe("4913"));
    assert!(!path_names_probe("/watched/49131"));
    assert!(!path_names_probe("/watched/x4913"));
    assert!(!path_names_probe("/4913/file"));
    assert!(!path_names_probe("913"));
}

#[test]
fn buffer_drains_everything_once_in_arrival_order() {
    let mut buf = NotificationBuffer::new();
    assert!(buf.is_empty());
    buf.append(notif("/src/a"));
    buf.append(notif("/src/b"));
    assert_eq!(buf.len(), 2);
    let drained = buf.drain_and_clear();
    assert_eq!(drained.len(), 2);
    assert!(matches!(&drained[0].tags[0], RawTag::Path { path, .. } if path == "/src/a"));
    assert!(matches!(&drained[1].tags[0], RawTag::Path { path, .. } if path == "/src/b"));
    assert!(buf.is_empty());
    assert_eq!(buf.drain_and_clear().len(), 0);
}

#[test]
fn activity_clock_keeps_the_latest_mark() {
    let mut clock = ActivityClock::new(5);
    assert_eq!(clock.last_activity(), 5);
    clock.mark_activity(40);
    clock.mark_activity(90);
    assert_eq!(clock.last_activity(), 90);
}

#[test]
fn scheduler_sleeps_until_the_deadline_while_activity_is_recent() {
    let last: u64 = 1_000;
    for now in [1_000u64, 1_050, 1_099] {
        assert_eq!(
            next_action(now, last),
            Some(SchedulerAction::SleepUntil { deadline_ms: last + QUIET_PERIOD_MS })
        );
    }
}

#[test]
fn scheduler_drains_exactly_once_the_quiet_period_has_elapsed() {
    let last: u64 = 1_000;
    assert_eq!(next_action(last + QUIET_PERIOD_MS, last), Some(SchedulerAction::Drain));
    assert_eq!(next_action(last + QUIET_PERIOD_MS + 1, last), Some(SchedulerAction::Drain));
}

#[test]
fn fresh_arrivals_push_the_deadline_back() {
    let now: u64 = 2_000;
    assert_eq!(next_action(now, 1_000), Some(SchedulerAction::Drain));
    assert_eq!(
        next_action(now, 1_950),
        Some(SchedulerAction::SleepUntil { deadline_ms: 2_050 })
    );
}

#[test]
fn scheduler_surfaces_deadline_overflow_instead_of_wrapping() {
    assert_eq!(next_action(0, u64::MAX - 50), None);
    assert!(next_action(0, u64::MAX - QUIET_PERIOD_MS).is_some());
}

#[test]
fn engine_constants_are_the_documented_ones() {
    assert_eq!(QUIET_PERIOD_MS, 100);
    assert_eq!(POLL_INTERVAL_MS, 50);
}

#[test]
fn malformed_input_aborts_the_engine() {
    assert_eq!(intake_step(IntakeEvent::Malformed), IntakeAction::AbortProtocolViolation);
}

#[test]
fn intake_decisions_for_the_other_events() {
    assert_eq!(intake_step(IntakeEvent::Decoded), IntakeAction::AppendAndMark);
    assert_eq!(intake_step(IntakeEvent::ReadError), IntakeAction::LogAndContinue);
    assert_eq!(intake_step(IntakeEvent::EndOfInput), IntakeAction::StopCleanly);
}

#[test]
fn entry_kinds_order_file_dir_symlink_other() {
    assert!(entry_kind_rank(EntryKind::File) < entry_kind_rank(EntryKind::Directory));
    assert!(entry_kind_rank(EntryKind::Directory) < entry_kind_rank(EntryKind::Symlink));
    assert!(entry_kind_rank(EntryKind::Symlink) < entry_kind_rank(EntryKind::Other));
    assert!(EntryKind::File < EntryKind::Directory);
    assert!(EntryKind::Directory < EntryKind::Symlink);
    assert!(EntryKind::Symlink < EntryKind::Other);
}

#[test]
fn operation_kinds_order_create_update_delete() {
    assert!(operation_kind_rank(OperationKind::Create) < operation_kind_rank(OperationKind::Update));
    assert!(operation_kind_rank(OperationKind::Update) < operation_kind_rank(OperationKind::Delete));
    assert!(OperationKind::Create < OperationKind::Update);
    assert!(OperationKind::Update < OperationKind::Delete);
}
