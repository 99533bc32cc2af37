use yo::date::Date;
use yo::entry::{decode_entry, encode_entry, EntryKind, LogEntry, Parameter, SetKind};
use yo::error::DecodeError;
use yo::item::{ItemId, ItemKind, Priority, Size, Status, UserId};

fn now_date() -> (Date, String) {
    let n = chrono::Utc::now();
    let secs = n.timestamp();
    let nanos = n.timestamp_subsec_nanos();
    let d = Date::new(secs, nanos).unwrap();
    let text = chrono::DateTime::<chrono::Utc>::from_timestamp(secs, nanos)
        .unwrap()
        .to_rfc3339();
    (d, text)
}

fn fresh_id() -> ItemId {
    ItemId(uuid::Uuid::new_v4().as_u128())
}

#[test]
fn parse_size() {
    assert_eq!(Size::from_str("3h").unwrap(), Size::Hour(3));
    assert_eq!(Size::from_str("3p").unwrap(), Size::StoryPoint(3));
    assert_eq!(Size::from_str("3m").is_err(), true);
    assert_eq!(Size::from_str("h").is_err(), true);
    assert_eq!(Size::from_str("3").is_err(), true);
    assert_eq!(Size::from_str("").is_err(), true);
    assert_eq!(Size::from_str("3hp").is_err(), true);
}

#[test]
fn size_to_string() {
    assert_eq!(Size::Hour(3).encode().as_str(), "3h");
    assert_eq!(Size::Hour(-3).encode().as_str(), "-3h");
    assert_eq!(Size::Hour(20).encode().as_str(), "20h");
    assert_eq!(Size::StoryPoint(2).encode().as_str(), "2p");
    assert_eq!(Size::StoryPoint(-2).encode().as_str(), "-2p");
}

#[test]
fn entry_to_string() {
    let id = fresh_id();
    let (date, date_text) = now_date();
    let entry = LogEntry {
        id,
        userid: "mezeipetister".to_string(),
        date,
        entry_kind: EntryKind::Create { id },
    };
    let t = format!(
        "{} {} {} CREATE {}",
        id.encode(),
        date_text,
        "mezeipetister",
        id.encode()
    );
    assert_eq!(t, encode_entry(&entry));

    let entry = LogEntry {
        id,
        userid: "mezeipetister".to_string(),
        date,
        entry_kind: EntryKind::Assign {
            kind: SetKind::Item(id),
            params: vec![
                Parameter::Title("Hello bello".to_string()),
                Parameter::Priority(Priority::I),
            ],
        },
    };
    let t = format!(
        "{} {} {} SET {} title Hello bello; priority 1",
        id.encode(),
        date_text,
        "mezeipetister",
        id.encode()
    );
    assert_eq!(t, encode_entry(&entry));

    let entry = LogEntry {
        id,
        userid: "mezeipetister".to_string(),
        date,
        entry_kind: EntryKind::Assign {
            kind: SetKind::Project,
            params: vec![
                Parameter::Title("Hello bello".to_string()),
                Parameter::Priority(Priority::I),
            ],
        },
    };
    let t = format!(
        "{} {} {} SET {} title Hello bello; priority 1",
        id.encode(),
        date_text,
        "mezeipetister",
        "project"
    );
    assert_eq!(t, encode_entry(&entry));

    let entry = LogEntry {
        id,
        userid: "mezeipetister".to_string(),
        date,
        entry_kind: EntryKind::Log {
            id,
            params: vec![
                Parameter::Spent(Size::Hour(2)),
                Parameter::Remaining(Size::StoryPoint(4)),
            ],
        },
    };
    let t = format!(
        "{} {} {} LOG {} spent 2h; remaining 4p",
        id.encode(),
        date_text,
        "mezeipetister",
        id.encode()
    );
    assert_eq!(t, encode_entry(&entry));
}

#[test]
fn prama_parse() {
    assert_eq!(
        Parameter::from_str("size 2p").unwrap(),
        Parameter::Size(Size::StoryPoint(2))
    );
    assert_eq!(
        Parameter::from_str("title hello bello dolla").unwrap(),
        Parameter::Title("hello bello dolla".to_string())
    );
    let n = chrono::Utc::now();
    let d = Date::new(n.timestamp(), n.timestamp_subsec_nanos()).unwrap();
    assert_eq!(
        Parameter::from_str(&format!("duedate {}", n.to_rfc3339())).unwrap(),
        Parameter::Duedate(d)
    );
}

#[test]
fn log_entry_write_parse() {
    let id = fresh_id();
    let (date, _) = now_date();
    let entry = LogEntry {
        id,
        userid: "mezeipetister".to_string(),
        date,
        entry_kind: EntryKind::Create { id },
    };
    let result = decode_entry(&encode_entry(&entry)).unwrap();
    assert_eq!(entry, result);

    let entry = LogEntry {
        id,
        userid: "mezeipetister".to_string(),
        date,
        entry_kind: EntryKind::Assign {
            kind: SetKind::Item(id),
            params: vec![
                Parameter::Title("Hello bello".to_string()),
                Parameter::Priority(Priority::I),
            ],
        },
    };
    let result = decode_entry(&encode_entry(&entry)).unwrap();
    assert_eq!(entry, result);

    let entry = LogEntry {
        id,
        userid: "mezeipetister".to_string(),
        date,
        entry_kind: EntryKind::Assign {
            kind: SetKind::Project,
            params: vec![Parameter::Title("Hello bello".to_string())],
        },
    };
    let result = decode_entry(&encode_entry(&entry)).unwrap();
    assert_eq!(entry, result);

    let entry = LogEntry {
        id,
        userid: "mezeipetister".to_string(),
        date,
        entry_kind: EntryKind::Log {
            id,
            params: vec![
                Parameter::Spent(Size::Hour(2)),
                Parameter::Remaining(Size::StoryPoint(4)),
            ],
        },
    };
    let result = decode_entry(&encode_entry(&entry)).unwrap();
    assert_eq!(entry, result);
}

#[test]
fn quantity_decode_encode_is_identity_on_canonical_text() {
    for text in ["3h", "-3h", "20h", "2p", "-2p"] {
        let q = Size::from_str(text).unwrap();
        assert_eq!(q.encode().as_str(), text);
    }
}

#[test]
fn invalid_quantity_text_fails_with_malformed_quantity() {
    for text in ["3m", "h", "3", "", "3hp"] {
        let e = Size::from_str(text).unwrap_err();
        assert!(matches!(e, DecodeError::MalformedQuantity));
    }
}

#[test]
fn entry_round_trip_all_kinds_and_empty_params() {
    let a = fresh_id();
    let b = fresh_id();
    let (date, _) = now_date();
    let cases: Vec<LogEntry> = vec![
        LogEntry {
            id: a,
            userid: "ada".to_string(),
            date,
            entry_kind: EntryKind::Create { id: b },
        },
        LogEntry {
            id: a,
            userid: "ada".to_string(),
            date,
            entry_kind: EntryKind::Assign {
                kind: SetKind::Item(b),
                params: vec![],
            },
        },
        LogEntry {
            id: a,
            userid: "ada".to_string(),
            date,
            entry_kind: EntryKind::Assign {
                kind: SetKind::Project,
                params: vec![
                    Parameter::Title("Demo".to_string()),
                    Parameter::Description("a longer text".to_string()),
                ],
            },
        },
        LogEntry {
            id: a,
            userid: "ada".to_string(),
            date,
            entry_kind: EntryKind::Assign {
                kind: SetKind::Item(b),
                params: vec![
                    Parameter::Size(Size::StoryPoint(8)),
                    Parameter::Remaining(Size::Hour(-4)),
                    Parameter::Priority(Priority::II),
                    Parameter::Owner(UserId("grace".to_string())),
                    Parameter::Duedate(Date::new(1700000000, 0).unwrap()),
                    Parameter::Kind(ItemKind::UserStory),
                    Parameter::Status(Status::InProgress),
                ],
            },
        },
        LogEntry {
            id: a,
            userid: "ada".to_string(),
            date,
            entry_kind: EntryKind::Log { id: b, params: vec![] },
        },
        LogEntry {
            id: a,
            userid: "ada".to_string(),
            date,
            entry_kind: EntryKind::Log {
                id: b,
                params: vec![
                    Parameter::Spent(Size::Hour(2)),
                    Parameter::Message("fixed the build".to_string()),
                ],
            },
        },
    ];
    for entry in cases {
        let line = encode_entry(&entry);
        assert_eq!(decode_entry(&line).unwrap(), entry);
    }
}

#[test]
fn decode_is_case_insensitive_on_the_verb() {
    let a = fresh_id();
    let (date, _) = now_date();
    let entry = LogEntry {
        id: a,
        userid: "ada".to_string(),
        date,
        entry_kind: EntryKind::Create { id: a },
    };
    let line = encode_entry(&entry);
    let lowered = line.replace("CREATE", "create");
    assert_eq!(decode_entry(&lowered).unwrap(), entry);
    let mixed = line.replace("CREATE", "CrEaTe");
    assert_eq!(decode_entry(&mixed).unwrap(), entry);
}

#[test]
fn decode_tolerates_trailing_separator_and_blank_segments() {
    let a = fresh_id();
    let (date, _) = now_date();
    let entry = LogEntry {
        id: a,
        userid: "ada".to_string(),
        date,
        entry_kind: EntryKind::Assign {
            kind: SetKind::Item(a),
            params: vec![Parameter::Title("x".to_string())],
        },
    };
    let line = encode_entry(&entry);
    let with_trailing = format!("{};", line);
    assert_eq!(decode_entry(&with_trailing).unwrap(), entry);
}

#[test]
fn decode_error_priority_and_variants() {
    let a = fresh_id();
    let hex = a.encode();
    let ts = "2023-05-01T10:00:00+00:00";
    assert!(matches!(
        decode_entry("a b"),
        Err(DecodeError::MissingField)
    ));
    assert!(matches!(
        decode_entry(&format!("nothex {ts} ada CREATE {hex}")),
        Err(DecodeError::InvalidId)
    ));
    assert!(matches!(
        decode_entry(&format!("{hex} notadate ada CREATE {hex}")),
        Err(DecodeError::InvalidTimestamp)
    ));
    assert!(matches!(
        decode_entry(&format!("{hex} {ts} ada FROB {hex}")),
        Err(DecodeError::InvalidVerb)
    ));
    assert!(matches!(
        decode_entry(&format!("{hex} {ts} ada SET {hex} colour red")),
        Err(DecodeError::UnknownParameterKey(k)) if k == "colour"
    ));
    assert!(matches!(
        decode_entry(&format!("{hex} {ts} ada SET {hex} size 3x")),
        Err(DecodeError::MalformedQuantity)
    ));
    assert!(matches!(
        decode_entry(&format!("{hex} {ts} ada SET {hex} priority 9")),
        Err(DecodeError::MalformedPriority)
    ));
    assert!(matches!(
        decode_entry(&format!("{hex} {ts} ada SET {hex} kind story")),
        Err(DecodeError::MalformedKind)
    ));
    assert!(matches!(
        decode_entry(&format!("{hex} {ts} ada SET {hex} status paused")),
        Err(DecodeError::MalformedStatus)
    ));
    assert!(matches!(
        decode_entry(&format!("{hex} {ts} ada SET {hex} duedate tomorrow")),
        Err(DecodeError::MalformedTimestamp)
    ));
}

#[test]
fn canonical_line_decodes_to_expected_fields() {
    let line = "000102030405060708090a0b0c0d0e0f 1970-01-02T00:00:00+00:00 ada SET project title Demo";
    let e = decode_entry(line).unwrap();
    assert_eq!(e.id, ItemId(0x000102030405060708090a0b0c0d0e0f));
    assert_eq!(e.date.secs, 86400);
    assert_eq!(e.date.nanos, 0);
    assert_eq!(e.userid, "ada");
    assert!(matches!(
        &e.entry_kind,
        EntryKind::Assign { kind: SetKind::Project, params }
            if params.len() == 1 && params[0] == Parameter::Title("Demo".to_string())
    ));
}

#[test]
fn timestamp_codec_writes_the_epoch_exactly() {
    let d = Date::new(0, 0).unwrap();
    assert_eq!(d.encode().as_str(), "1970-01-01T00:00:00+00:00");
    let d = Date::new(86400, 500_000_000).unwrap();
    assert_eq!(d.encode().as_str(), "1970-01-02T00:00:00.500+00:00");
}

#[test]
fn date_rejects_out_of_range_timestamps() {
    assert!(Date::new(-62167219200, 0).is_some());
    assert!(Date::new(-62167219201, 0).is_none());
    assert!(Date::new(253402300799, 0).is_some());
    assert!(Date::new(253402300800, 0).is_none());
    assert!(Date::new(0, 1_000_000_000).is_none());
    assert!(Date::new(59, 1_500_000_000).is_some());
    assert!(Date::new(60, 1_500_000_000).is_none());
    assert!(Date::new(-62167219200 + 59, 1_500_000_000).is_some());
    assert!(Date::new(-62167219200 + 58, 1_500_000_000).is_none());
}

#[test]
fn timestamps_before_the_epoch_are_carried() {
    let n = chrono::DateTime::parse_from_rfc3339("1969-07-20T20:17:00+00:00").unwrap();
    let d = Date::new(n.timestamp(), n.timestamp_subsec_nanos()).unwrap();
    assert!(d.secs < 0);
    assert_eq!(d.encode().as_str(), "1969-07-20T20:17:00+00:00");
    assert_eq!(
        Parameter::from_str("duedate 1969-07-20T20:17:00+00:00").unwrap(),
        Parameter::Duedate(d)
    );
    let line = format!(
        "{} 1969-07-20T20:17:00+00:00 ada SET project title Landing",
        ItemId(7).encode()
    );
    let e = decode_entry(&line).unwrap();
    assert_eq!(e.date, d);
    assert_eq!(decode_entry(&encode_entry(&e)).unwrap(), e);
}

#[test]
fn item_id_codec_round_trips_and_pads() {
    let id = ItemId(0xdeadbeef);
    assert_eq!(id.encode().as_str(), "000000000000000000000000deadbeef");
    assert_eq!(ItemId::from_str(&id.encode()).unwrap(), id);
    assert_eq!(
        ItemId::from_str("000000000000000000000000DEADBEEF").unwrap(),
        id
    );
    assert!(ItemId::from_str("deadbeef").is_err());
}

#[test]
fn value_codecs_emit_their_fixed_tokens() {
    assert_eq!(Priority::I.encode().as_str(), "1");
    assert_eq!(Priority::II.encode().as_str(), "2");
    assert_eq!(Priority::III.encode().as_str(), "3");
    assert_eq!(Priority::from_str("2").unwrap(), Priority::II);
    assert!(Priority::from_str("4").is_err());
    assert_eq!(ItemKind::BacklogItem.encode().as_str(), "backlog_item");
    assert_eq!(
        ItemKind::from_str("milestone").unwrap(),
        ItemKind::Milestone
    );
    assert!(ItemKind::from_str("story").is_err());
    assert_eq!(Status::InProgress.encode().as_str(), "progress");
    assert_eq!(Status::from_str("inprogress").unwrap(), Status::InProgress);
    assert_eq!(Status::from_str("new").unwrap(), Status::New);
    assert_eq!(Status::from_str("done").unwrap(), Status::Done);
    assert!(Status::from_str("paused").is_err());
}
