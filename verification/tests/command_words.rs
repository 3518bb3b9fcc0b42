use linear_cli::commands::{
    find_relation_id, format_relation_type, generate_branch_name, normalize_initiative_status,
    normalize_project_health, normalize_state_type, parse_relation_kind, parse_reminder_delay,
    relation_endpoints, DueFilter, RelationKind, TimeCommands, UserCommands,
};
use linear_cli::json::JsonValue;

fn rel_record(id: &str, rel_type: &str, other_key: &str, other_id: &str) -> JsonValue {
    JsonValue::Obj(vec![
        ("id".to_string(), JsonValue::Str(id.to_string())),
        ("type".to_string(), JsonValue::Str(rel_type.to_string())),
        (
            other_key.to_string(),
            JsonValue::Obj(vec![("id".to_string(), JsonValue::Str(other_id.to_string()))]),
        ),
    ])
}

#[test]
fn test_parse_relation_kind_spellings() {
    assert_eq!(parse_relation_kind("blocks"), Ok(RelationKind::Blocks));
    assert_eq!(parse_relation_kind("Blocked-By"), Ok(RelationKind::BlockedBy));
    assert_eq!(parse_relation_kind("blocked_by"), Ok(RelationKind::BlockedBy));
    assert_eq!(parse_relation_kind("duplicates"), Ok(RelationKind::Duplicate));
    assert_eq!(parse_relation_kind("duplicate-of"), Ok(RelationKind::DuplicateOf));
    assert_eq!(parse_relation_kind("relates-to"), Ok(RelationKind::Related));
    assert_eq!(parse_relation_kind("related"), Ok(RelationKind::Related));
    let err = parse_relation_kind("owns").unwrap_err();
    assert_eq!(
        err.message,
        "Invalid relation 'owns'. Use blocks, blocked-by, duplicates, duplicate-of, or relates-to."
    );
}

#[test]
fn test_relation_kind_to_type() {
    assert_eq!(relation_kind_word(RelationKind::Blocks), "blocks");
    assert_eq!(relation_kind_word(RelationKind::BlockedBy), "blocks");
    assert_eq!(relation_kind_word(RelationKind::Duplicate), "duplicate");
    assert_eq!(relation_kind_word(RelationKind::DuplicateOf), "duplicate");
    assert_eq!(relation_kind_word(RelationKind::Related), "related");
}

fn relation_kind_word(kind: RelationKind) -> &'static str {
    linear_cli::commands::relation_kind_to_type(kind)
}

#[test]
fn test_format_relation_type_directions() {
    assert_eq!(format_relation_type("blocks", false), "blocks");
    assert_eq!(format_relation_type("blocks", true), "blocked-by");
    assert_eq!(format_relation_type("duplicate", false), "duplicates");
    assert_eq!(format_relation_type("duplicate", true), "duplicate-of");
    assert_eq!(format_relation_type("related", false), "relates-to");
    assert_eq!(format_relation_type("related", true), "relates-to");
    assert_eq!(format_relation_type("custom", true), "custom");
}

#[test]
fn test_normalize_initiative_status_words() {
    assert_eq!(normalize_initiative_status("planned"), Ok("Planned".to_string()));
    assert_eq!(normalize_initiative_status("ACTIVE"), Ok("Active".to_string()));
    assert_eq!(normalize_initiative_status("Completed"), Ok("Completed".to_string()));
    let err = normalize_initiative_status("paused").unwrap_err();
    assert_eq!(err.message, "Invalid status 'paused'. Use planned, active, or completed.");
}

#[test]
fn test_normalize_project_health_spellings() {
    assert_eq!(normalize_project_health("onTrack"), Ok("onTrack"));
    assert_eq!(normalize_project_health("on-track"), Ok("onTrack"));
    assert_eq!(normalize_project_health("AT_RISK"), Ok("atRisk"));
    assert_eq!(normalize_project_health("offtrack"), Ok("offTrack"));
    let err = normalize_project_health("fine").unwrap_err();
    assert_eq!(err.message, "Invalid health 'fine'. Use onTrack, atRisk, or offTrack.");
}

#[test]
fn test_normalize_state_type_words() {
    assert_eq!(normalize_state_type("backlog"), Ok("backlog"));
    assert_eq!(normalize_state_type("Unstarted"), Ok("unstarted"));
    assert_eq!(normalize_state_type("started"), Ok("started"));
    assert_eq!(normalize_state_type("completed"), Ok("completed"));
    assert_eq!(normalize_state_type("canceled"), Ok("canceled"));
    assert_eq!(normalize_state_type("cancelled"), Ok("canceled"));
    let err = normalize_state_type("paused").unwrap_err();
    assert_eq!(
        err.message,
        "Invalid state type 'paused'. Use backlog, unstarted, started, completed, or canceled."
    );
}

#[test]
fn test_relation_endpoints_swap() {
    let pair = |k| relation_endpoints(k, "a".to_string(), "b".to_string());
    assert_eq!(pair(RelationKind::Blocks), ("a".to_string(), "b".to_string()));
    assert_eq!(pair(RelationKind::Duplicate), ("a".to_string(), "b".to_string()));
    assert_eq!(pair(RelationKind::Related), ("a".to_string(), "b".to_string()));
    // The inverse words store the relation from the target's side.
    assert_eq!(pair(RelationKind::BlockedBy), ("b".to_string(), "a".to_string()));
    assert_eq!(pair(RelationKind::DuplicateOf), ("b".to_string(), "a".to_string()));
}

#[test]
fn test_find_relation_id_directions() {
    let relations = vec![
        rel_record("r1", "blocks", "relatedIssue", "t1"),
        rel_record("r2", "duplicate", "relatedIssue", "t1"),
    ];
    let inverse = vec![
        rel_record("i1", "blocks", "issue", "t1"),
        rel_record("i2", "related", "issue", "t1"),
    ];
    // Direct words search this issue's outgoing records.
    assert_eq!(
        find_relation_id(&relations, &inverse, RelationKind::Blocks, "t1"),
        Some("r1".to_string())
    );
    assert_eq!(
        find_relation_id(&relations, &inverse, RelationKind::Duplicate, "t1"),
        Some("r2".to_string())
    );
    // Inverse words search the records pointing at it.
    assert_eq!(
        find_relation_id(&relations, &inverse, RelationKind::BlockedBy, "t1"),
        Some("i1".to_string())
    );
    // The symmetric word falls back from one side to the other.
    assert_eq!(
        find_relation_id(&relations, &inverse, RelationKind::Related, "t1"),
        Some("i2".to_string())
    );
    // The far issue must match.
    assert_eq!(find_relation_id(&relations, &inverse, RelationKind::Blocks, "t9"), None);
}

#[test]
fn test_parse_reminder_delay_units() {
    assert_eq!(parse_reminder_delay("2h"), Ok(120));
    assert_eq!(parse_reminder_delay("1d2h30m"), Ok(1590));
    assert_eq!(parse_reminder_delay("45"), Ok(45));
    assert_eq!(parse_reminder_delay("2h30"), Ok(150));
    assert_eq!(parse_reminder_delay(" 1H "), Ok(60));
}

#[test]
fn test_parse_reminder_delay_rejections() {
    let empty = parse_reminder_delay("").unwrap_err();
    assert_eq!(empty.message, "Invalid delay: empty");
    assert_eq!(parse_reminder_delay("   ").unwrap_err().message, "Invalid delay: empty");
    assert_eq!(parse_reminder_delay("0h").unwrap_err().message, "Invalid delay '0h'");
    assert_eq!(parse_reminder_delay("abc").unwrap_err().message, "Invalid delay 'abc'");
    assert_eq!(parse_reminder_delay("5x").unwrap_err().message, "Invalid delay '5x'");
    assert_eq!(parse_reminder_delay("m").unwrap_err().message, "Invalid delay 'm'");
    // A unit count too large to read spoils the string...
    assert!(parse_reminder_delay("99999999999999999999999h").is_err());
    // ...but an oversized bare trailing run is dropped, as an unreadable
    // count falls back to zero there.
    assert_eq!(parse_reminder_delay("5m99999999999999999999999"), Ok(5));
}

#[test]
fn test_generate_branch_name_slugs() {
    assert_eq!(
        generate_branch_name("ENG-123", "Fix the parser bug"),
        "eng-123/fix-the-parser-bug"
    );
    // Punctuation runs collapse to single dashes; trailing ones go.
    assert_eq!(generate_branch_name("ENG-1", "Hello,  World!!"), "eng-1/hello-world");
    // Leading punctuation leaves no leading dash.
    assert_eq!(generate_branch_name("A-1", "...x"), "a-1/x");
    assert_eq!(generate_branch_name("A-1", ""), "a-1/");
}

#[test]
fn test_generate_branch_name_caps_at_fifty_bytes() {
    let long = "a".repeat(60);
    assert_eq!(
        generate_branch_name("X-1", &long),
        format!("x-1/{}", "a".repeat(50))
    );
    // A cut that lands on the separator leaves no trailing dash.
    let split = format!("{} b", "a".repeat(49));
    assert_eq!(
        generate_branch_name("X-1", &split),
        format!("x-1/{}", "a".repeat(49))
    );
}

#[test]
fn test_command_enums_hold_their_data() {
    let cmd = TimeCommands::Log { issue: "ENG-1".to_string(), duration: "2h".to_string() };
    match cmd {
        TimeCommands::Log { issue, duration } => {
            assert_eq!(issue, "ENG-1");
            assert_eq!(duration, "2h");
        },
        TimeCommands::List { .. } => panic!("wrong variant"),
    }
    assert_eq!(UserCommands::Me, UserCommands::Me);
    assert_eq!(DueFilter::ThisWeek, DueFilter::ThisWeek);
    assert_ne!(DueFilter::Today, DueFilter::NoDue);
}
