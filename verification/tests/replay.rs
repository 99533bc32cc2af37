use yo::date::Date;
use yo::db::{apply, reindex, Project};
use yo::entry::{EntryKind, LogEntry, Parameter, SetKind};
use yo::error::{ApplyError, ReplayError};
use yo::item::{ItemId, Size, Status};

fn date_at(secs: i64) -> Date {
    Date::new(secs, 0).unwrap()
}

fn entry(kind: EntryKind, secs: i64) -> LogEntry {
    LogEntry {
        id: ItemId(uuid::Uuid::new_v4().as_u128()),
        userid: "ada".to_string(),
        date: date_at(secs),
        entry_kind: kind,
    }
}

#[test]
fn replay_is_deterministic() {
    let a = ItemId(1);
    let entries = vec![
        entry(EntryKind::Create { id: a }, 100),
        entry(
            EntryKind::Assign {
                kind: SetKind::Item(a),
                params: vec![Parameter::Title("one".to_string())],
            },
            200,
        ),
        entry(
            EntryKind::Log {
                id: a,
                params: vec![Parameter::Spent(Size::Hour(3))],
            },
            300,
        ),
    ];
    let p1 = reindex(&entries).unwrap();
    let p2 = reindex(&entries).unwrap();
    assert_eq!(p1, p2);
}

#[test]
fn last_write_wins_on_the_title() {
    let a = ItemId(7);
    let entries = vec![
        entry(EntryKind::Create { id: a }, 100),
        entry(
            EntryKind::Assign {
                kind: SetKind::Item(a),
                params: vec![Parameter::Title("x".to_string())],
            },
            200,
        ),
        entry(
            EntryKind::Assign {
                kind: SetKind::Item(a),
                params: vec![Parameter::Title("y".to_string())],
            },
            300,
        ),
    ];
    let p = reindex(&entries).unwrap();
    assert_eq!(p.items.len(), 1);
    assert_eq!(p.items[0].title.as_deref(), Some("y"));
}

#[test]
fn later_parameter_in_one_list_wins() {
    let a = ItemId(7);
    let entries = vec![
        entry(EntryKind::Create { id: a }, 100),
        entry(
            EntryKind::Assign {
                kind: SetKind::Item(a),
                params: vec![
                    Parameter::Title("x".to_string()),
                    Parameter::Title("y".to_string()),
                ],
            },
            200,
        ),
    ];
    let p = reindex(&entries).unwrap();
    assert_eq!(p.items[0].title.as_deref(), Some("y"));
}

#[test]
fn missing_create_fails_at_the_exact_position() {
    let a = ItemId(1);
    let b = ItemId(2);
    let entries = vec![
        entry(EntryKind::Create { id: a }, 100),
        entry(
            EntryKind::Assign {
                kind: SetKind::Item(b),
                params: vec![Parameter::Title("x".to_string())],
            },
            200,
        ),
    ];
    let e = reindex(&entries).unwrap_err();
    assert!(matches!(
        e,
        ReplayError::Apply { index: 1, error: ApplyError::ItemNotFound }
    ));
}

#[test]
fn duplicate_create_is_rejected_and_state_unchanged() {
    let a = ItemId(1);
    let e1 = entry(EntryKind::Create { id: a }, 100);
    let e2 = entry(EntryKind::Create { id: a }, 200);
    let mut p = Project::default();
    apply(&mut p, &e1).unwrap();
    let before = p.clone();
    let err = apply(&mut p, &e2).unwrap_err();
    assert!(matches!(err, ApplyError::DuplicateItem));
    assert_eq!(p, before);
}

#[test]
fn end_to_end_scenario_accumulates_hours_and_remaining() {
    let a = ItemId(42);
    let entries = vec![
        entry(EntryKind::Create { id: a }, 100),
        entry(
            EntryKind::Assign {
                kind: SetKind::Item(a),
                params: vec![Parameter::Title("Fix bug".to_string())],
            },
            200,
        ),
        entry(
            EntryKind::Log {
                id: a,
                params: vec![Parameter::Spent(Size::Hour(2))],
            },
            300,
        ),
        entry(
            EntryKind::Log {
                id: a,
                params: vec![
                    Parameter::Spent(Size::Hour(3)),
                    Parameter::Remaining(Size::StoryPoint(1)),
                ],
            },
            400,
        ),
    ];
    let p = reindex(&entries).unwrap();
    assert_eq!(p.items.len(), 1);
    let it = &p.items[0];
    assert_eq!(it.id, a);
    assert_eq!(it.title.as_deref(), Some("Fix bug"));
    assert_eq!(it.hours_spent, 5);
    assert_eq!(it.remaining, Some(Size::StoryPoint(1)));
    assert_eq!(it.log.len(), 2);
    assert_eq!(it.log[0].spent, 2);
    assert_eq!(it.log[0].remaining, None);
    assert_eq!(it.log[1].spent, 3);
    assert_eq!(it.log[1].remaining, Some(Size::StoryPoint(1)));
}

#[test]
fn project_set_changes_details_and_leaves_items_alone() {
    let a = ItemId(1);
    let entries = vec![
        entry(EntryKind::Create { id: a }, 100),
        entry(
            EntryKind::Assign {
                kind: SetKind::Item(a),
                params: vec![Parameter::Title("untouched".to_string())],
            },
            200,
        ),
    ];
    let mut p = reindex(&entries).unwrap();
    let items_before = p.items.clone();
    let set_project = entry(
        EntryKind::Assign {
            kind: SetKind::Project,
            params: vec![Parameter::Title("Demo".to_string())],
        },
        300,
    );
    apply(&mut p, &set_project).unwrap();
    assert_eq!(p.details.title(), "Demo");
    assert_eq!(p.items, items_before);
}

#[test]
fn negative_spent_deltas_are_ordinary_corrections() {
    let a = ItemId(1);
    let entries = vec![
        entry(EntryKind::Create { id: a }, 100),
        entry(
            EntryKind::Log {
                id: a,
                params: vec![Parameter::Spent(Size::Hour(5))],
            },
            200,
        ),
        entry(
            EntryKind::Log {
                id: a,
                params: vec![Parameter::Spent(Size::Hour(-2))],
            },
            300,
        ),
    ];
    let p = reindex(&entries).unwrap();
    assert_eq!(p.items[0].hours_spent, 3);
}

#[test]
fn create_uses_entry_metadata_for_the_new_item() {
    let a = ItemId(9);
    let e = LogEntry {
        id: ItemId(1),
        userid: "grace".to_string(),
        date: date_at(777),
        entry_kind: EntryKind::Create { id: a },
    };
    let mut p = Project::default();
    apply(&mut p, &e).unwrap();
    let it = &p.items[0];
    assert_eq!(it.id, a);
    assert_eq!(it.created_at, date_at(777));
    assert_eq!(it.created_by.0, "grace");
    assert_eq!(it.status, Status::New);
    assert_eq!(it.title, None);
    assert_eq!(it.hours_spent, 0);
    assert_eq!(it.log.len(), 0);
}

#[test]
fn log_entry_ignores_foreign_parameters_in_the_projection() {
    let a = ItemId(1);
    let entries = vec![
        entry(EntryKind::Create { id: a }, 100),
        entry(
            EntryKind::Log {
                id: a,
                params: vec![
                    Parameter::Title("not a log field".to_string()),
                    Parameter::Spent(Size::Hour(1)),
                ],
            },
            200,
        ),
    ];
    let p = reindex(&entries).unwrap();
    assert_eq!(p.items[0].title, None);
    assert_eq!(p.items[0].hours_spent, 1);
}
