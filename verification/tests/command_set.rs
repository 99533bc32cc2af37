use yo::commands::{
    CommandError, Create, Details, Init, List, Reindex, ResetDb, SetCommand, Version,
};
use yo::context::{join_args, Context, UserInput};
use yo::date::Date;
use yo::db::{apply, reindex, Project};
use yo::entry::{EntryKind, LogEntry, Parameter, SetKind};
use yo::item::{ItemId, Size};

fn ctx_with_args(args: &str) -> Context {
    Context::new(
        "0.1.0".to_string(),
        "mezeipetister".to_string(),
        "/tmp/demo".to_string(),
        Some("/tmp/demo".to_string()),
        vec!["yo".to_string(), args.to_string()],
        args.to_string(),
    )
}

fn input_for(args: &str) -> UserInput {
    let ctx = ctx_with_args(args);
    UserInput::new(&ctx, ItemId(uuid::Uuid::new_v4().as_u128()), Date::new(1000, 0).unwrap())
}

#[test]
fn new_command() {
    let c = input_for("ls");
    println!("{:?}", c);
    assert_eq!(1, 1);
}

#[test]
fn user_input_splits_command_word_and_parameters() {
    let c = input_for("set 0 title Hello bello");
    assert_eq!(c.cmd_str.as_deref(), Some("set"));
    assert_eq!(c.param_str.as_deref(), Some("0 title Hello bello"));
    assert_eq!(c.param_id().as_deref(), Some("0"));
    assert_eq!(c.params_raw.as_str(), "set 0 title Hello bello");
    let empty = input_for("");
    assert_eq!(empty.cmd_str, None);
    assert_eq!(empty.param_str, None);
}

#[test]
fn version_reports_the_context_version() {
    let ctx = ctx_with_args("version");
    assert_eq!(Version.procedure(&ctx), "0.1.0");
    assert_eq!(Version.name(), "version");
}

#[test]
fn init_refuses_an_existing_project() {
    let ctx = ctx_with_args("init");
    assert!(matches!(
        Init.procedure(&ctx),
        Err(CommandError::AlreadyProject)
    ));
    let outside = Context::new(
        "0.1.0".to_string(),
        "mezeipetister".to_string(),
        "/tmp/elsewhere".to_string(),
        None,
        vec![],
        "init".to_string(),
    );
    assert_eq!(Init.procedure(&outside).unwrap(), "Ok");
}

#[test]
fn resetdb_empties_the_project() {
    let mut p = Project::default();
    let e = LogEntry {
        id: ItemId(1),
        userid: "ada".to_string(),
        date: Date::new(0, 0).unwrap(),
        entry_kind: EntryKind::Create { id: ItemId(2) },
    };
    apply(&mut p, &e).unwrap();
    assert_eq!(p.items.len(), 1);
    let msg = ResetDb.procedure(&mut p);
    assert_eq!(msg, "Database reseted");
    assert_eq!(p.items.len(), 0);
}

#[test]
fn reindex_command_replaces_the_state() {
    let e = LogEntry {
        id: ItemId(1),
        userid: "ada".to_string(),
        date: Date::new(0, 0).unwrap(),
        entry_kind: EntryKind::Create { id: ItemId(2) },
    };
    let mut p = Project::default();
    let msg = Reindex.procedure(&mut p, &vec![e]).unwrap();
    assert_eq!(msg, "Reindex done");
    assert_eq!(p.items.len(), 1);
}

#[test]
fn ls_lists_positions_and_titles() {
    let mut p = Project::default();
    assert_eq!(List.procedure(&p), "Project is empty");
    let entries = vec![
        LogEntry {
            id: ItemId(1),
            userid: "ada".to_string(),
            date: Date::new(0, 0).unwrap(),
            entry_kind: EntryKind::Create { id: ItemId(10) },
        },
        LogEntry {
            id: ItemId(2),
            userid: "ada".to_string(),
            date: Date::new(1, 0).unwrap(),
            entry_kind: EntryKind::Assign {
                kind: SetKind::Item(ItemId(10)),
                params: vec![Parameter::Title("first".to_string())],
            },
        },
        LogEntry {
            id: ItemId(3),
            userid: "ada".to_string(),
            date: Date::new(2, 0).unwrap(),
            entry_kind: EntryKind::Create { id: ItemId(11) },
        },
    ];
    p = reindex(&entries).unwrap();
    assert_eq!(List.procedure(&p), "0 first\n1 -");
}

#[test]
fn details_shows_one_item_or_says_why_not() {
    let entries = vec![
        LogEntry {
            id: ItemId(1),
            userid: "ada".to_string(),
            date: Date::new(0, 0).unwrap(),
            entry_kind: EntryKind::Create { id: ItemId(10) },
        },
        LogEntry {
            id: ItemId(2),
            userid: "ada".to_string(),
            date: Date::new(1, 0).unwrap(),
            entry_kind: EntryKind::Assign {
                kind: SetKind::Item(ItemId(10)),
                params: vec![Parameter::Title("first".to_string())],
            },
        },
    ];
    let p = reindex(&entries).unwrap();
    let shown = Details.procedure(&p, &input_for("details 0")).unwrap();
    assert_eq!(
        shown,
        "title: first\ndescription: -\nowner: -\nduedate: -\nstatus: new"
    );
    assert!(matches!(
        Details.procedure(&p, &input_for("details")),
        Err(CommandError::NoPosition)
    ));
    assert!(matches!(
        Details.procedure(&p, &input_for("details x")),
        Err(CommandError::NotANumber)
    ));
    assert!(matches!(
        Details.procedure(&p, &input_for("details 5")),
        Err(CommandError::NoItemFound)
    ));
}

#[test]
fn create_command_applies_and_names_the_position() {
    let mut p = Project::default();
    let new_id = ItemId(uuid::Uuid::new_v4().as_u128());
    let (msg, e) = Create
        .procedure(&mut p, &input_for("create"), new_id)
        .unwrap();
    assert_eq!(msg, "Created: 0");
    assert!(matches!(e.entry_kind, EntryKind::Create { id } if id == new_id));
    assert_eq!(p.items.len(), 1);
    assert_eq!(p.items[0].id, new_id);
}

#[test]
fn set_command_translates_a_position_to_the_item_id() {
    let mut p = Project::default();
    let new_id = ItemId(uuid::Uuid::new_v4().as_u128());
    Create
        .procedure(&mut p, &input_for("create"), new_id)
        .unwrap();
    let (msg, e) = SetCommand
        .procedure(&mut p, &input_for("set 0 title Hello bello"))
        .unwrap();
    assert_eq!(msg, "Ok");
    assert!(matches!(
        &e.entry_kind,
        EntryKind::Assign { kind: SetKind::Item(id), .. } if *id == new_id
    ));
    assert_eq!(p.items[0].title.as_deref(), Some("Hello bello"));

    let (_, e2) = SetCommand
        .procedure(&mut p, &input_for("set project title Demo"))
        .unwrap();
    assert!(matches!(
        &e2.entry_kind,
        EntryKind::Assign { kind: SetKind::Project, .. }
    ));
    assert_eq!(p.details.title(), "Demo");

    assert!(matches!(
        SetCommand.procedure(&mut p, &input_for("set 9 title x")),
        Err(CommandError::NoItemFound)
    ));
    assert!(matches!(
        SetCommand.procedure(&mut p, &input_for("set 0 size nonsense")),
        Err(CommandError::Decode(_))
    ));
}

#[test]
fn set_command_logs_work_against_an_item() {
    let mut p = Project::default();
    let new_id = ItemId(uuid::Uuid::new_v4().as_u128());
    Create
        .procedure(&mut p, &input_for("create"), new_id)
        .unwrap();
    let (_, e) = SetCommand
        .procedure(&mut p, &input_for("log 0 spent 2h; message first pass"))
        .unwrap();
    assert!(matches!(&e.entry_kind, EntryKind::Log { .. }));
    assert_eq!(p.items[0].hours_spent, 2);
    assert_eq!(p.items[0].log.len(), 1);
    assert_eq!(p.items[0].log[0].message.as_str(), "first pass");
    assert_eq!(p.items[0].log[0].remaining, None);
    let _ = SetCommand
        .procedure(&mut p, &input_for("log 0 spent 3h; remaining 1p"))
        .unwrap();
    assert_eq!(p.items[0].hours_spent, 5);
    assert_eq!(p.items[0].remaining, Some(Size::StoryPoint(1)));
}

#[test]
fn join_args_builds_the_command_text() {
    assert_eq!(join_args(&vec![]), "");
    assert_eq!(join_args(&vec!["yo".to_string()]), "");
    assert_eq!(
        join_args(&vec![
            "yo".to_string(),
            "set".to_string(),
            "0".to_string(),
            "title".to_string(),
            "x".to_string(),
        ]),
        "set 0 title x"
    );
}

#[test]
fn context_getters_hand_back_what_was_given() {
    let ctx = ctx_with_args("ls");
    assert_eq!(ctx.username(), "mezeipetister");
    assert_eq!(ctx.current_dir(), "/tmp/demo");
    assert_eq!(ctx.current_project_path().map(|p| p.as_str()), Some("/tmp/demo"));
    assert!(ctx.is_project_path());
    assert_eq!(ctx.yo_version(), "0.1.0");
    assert_eq!(ctx.args(), "ls");
    assert_eq!(ctx.args_raw().len(), 2);
}

#[test]
fn get_item_id_by_pos_follows_creation_order() {
    let mut p = Project::default();
    Create.procedure(&mut p, &input_for("create"), ItemId(5)).unwrap();
    Create.procedure(&mut p, &input_for("create"), ItemId(6)).unwrap();
    assert_eq!(p.get_item_id_by_pos(0), Some(ItemId(5)));
    assert_eq!(p.get_item_id_by_pos(1), Some(ItemId(6)));
    assert_eq!(p.get_item_id_by_pos(2), None);
}
