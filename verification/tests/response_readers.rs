use linear_cli::api::{
    find_label_id, find_team_id, find_user_id, is_issue_identifier, pick_first_node_id,
    resolve_cycle_from, resolve_labels_from, resolve_project_status_from, resolve_state_from,
    viewer_id_from,
};
use linear_cli::json::JsonValue;

fn s(text: &str) -> JsonValue {
    JsonValue::Str(text.to_string())
}

fn obj(pairs: Vec<(&str, JsonValue)>) -> JsonValue {
    JsonValue::Obj(pairs.into_iter().map(|(k, v)| (k.to_string(), v)).collect())
}

#[test]
fn test_is_issue_identifier_shapes() {
    assert!(is_issue_identifier("ENG-123"));
    assert!(is_issue_identifier("a_1-9"));
    assert!(!is_issue_identifier("ENG-"));
    assert!(!is_issue_identifier("-123"));
    assert!(!is_issue_identifier("ENG123"));
    assert!(!is_issue_identifier("EN G-12"));
    assert!(!is_issue_identifier("ENG-12a"));
    assert!(!is_issue_identifier(""));
}

#[test]
fn test_find_team_id_key_without_id_falls_to_name() {
    // The first key match has no id: the name pass decides.
    let teams = vec![
        obj(vec![("key", s("ENG"))]),
        obj(vec![("id", s("by-name")), ("name", s("eng"))]),
    ];
    assert_eq!(find_team_id(&teams, "eng"), Some("by-name".to_string()));
}

#[test]
fn test_find_user_id_skips_nodes_without_id() {
    let users = vec![
        obj(vec![("name", s("Alex"))]),
        obj(vec![("id", s("u2")), ("name", s("alex"))]),
    ];
    assert_eq!(find_user_id(&users, "Alex"), Some("u2".to_string()));
    assert_eq!(find_user_id(&users, "nobody"), None);
}

#[test]
fn test_find_label_id_by_name() {
    let labels = vec![obj(vec![("id", s("l1")), ("name", s("Bug"))])];
    assert_eq!(find_label_id(&labels, "bug"), Some("l1".to_string()));
    assert_eq!(find_label_id(&labels, "feature"), None);
}

fn cycles_response(team_null: bool, cycles: Vec<JsonValue>) -> JsonValue {
    if team_null {
        obj(vec![("data", obj(vec![("team", JsonValue::Null)]))])
    } else {
        obj(vec![(
            "data",
            obj(vec![(
                "team",
                obj(vec![
                    ("id", s("t1")),
                    ("cycles", obj(vec![("nodes", JsonValue::Arr(cycles))])),
                ]),
            )]),
        )])
    }
}

#[test]
fn test_resolve_cycle_by_number_then_name() {
    let cycles = || vec![
        obj(vec![("id", s("c1")), ("name", s("Sprint 2")), ("number", JsonValue::Int(1))]),
        obj(vec![("id", s("c2")), ("name", s("Sprint 1")), ("number", JsonValue::Int(2))]),
    ];
    // A numeric input matches the cycle number, not a name containing it.
    assert_eq!(resolve_cycle_from(&cycles_response(false, cycles()), "2"), Ok("c2".to_string()));
    // A non-numeric input matches by name.
    assert_eq!(
        resolve_cycle_from(&cycles_response(false, cycles()), "sprint 1"),
        Ok("c2".to_string())
    );
    let err = resolve_cycle_from(&cycles_response(false, cycles()), "9").unwrap_err();
    assert_eq!(err.code, 2);
    assert_eq!(err.message, "Cycle not found: 9");
}

#[test]
fn test_resolve_cycle_number_beats_earlier_name() {
    // A cycle NAMED "7" stands before the cycle NUMBERED 7: the numeric
    // reading wins over any name match, wherever each stands.
    let cycles = vec![
        obj(vec![("id", s("named")), ("name", s("7")), ("number", JsonValue::Int(1))]),
        obj(vec![("id", s("numbered")), ("name", s("Sprint")), ("number", JsonValue::Int(7))]),
    ];
    assert_eq!(
        resolve_cycle_from(&cycles_response(false, cycles), "7"),
        Ok("numbered".to_string())
    );
}

#[test]
fn test_resolve_cycle_null_team() {
    let err = resolve_cycle_from(&cycles_response(true, vec![]), "1").unwrap_err();
    assert_eq!(err.message, "Team not found for cycle lookup");
}

#[test]
fn test_resolve_state_by_name() {
    let response = obj(vec![(
        "data",
        obj(vec![(
            "team",
            obj(vec![(
                "states",
                obj(vec![(
                    "nodes",
                    JsonValue::Arr(vec![
                        obj(vec![("id", s("st1")), ("name", s("In Progress"))]),
                        obj(vec![("id", s("st2")), ("name", s("Done"))]),
                    ]),
                )]),
            )]),
        )]),
    )]);
    assert_eq!(resolve_state_from(&response, "done"), Ok("st2".to_string()));
    let err = resolve_state_from(&response, "archived").unwrap_err();
    assert_eq!(err.code, 2);
    assert_eq!(err.message, "State not found: archived");
}

fn statuses_response(nodes: Vec<JsonValue>) -> JsonValue {
    obj(vec![(
        "data",
        obj(vec![("projectStatuses", obj(vec![("nodes", JsonValue::Arr(nodes))]))]),
    )])
}

#[test]
fn test_resolve_project_status_type_beats_name() {
    let nodes = || vec![
        obj(vec![("id", s("p1")), ("name", s("started")), ("type", s("paused"))]),
        obj(vec![("id", s("p2")), ("name", s("Going")), ("type", s("started"))]),
    ];
    // "started" matches p2's type before p1's name.
    assert_eq!(
        resolve_project_status_from(&statuses_response(nodes()), "started"),
        Ok("p2".to_string())
    );
    // "going" only matches a name.
    assert_eq!(
        resolve_project_status_from(&statuses_response(nodes()), "GOING"),
        Ok("p2".to_string())
    );
    let err = resolve_project_status_from(&statuses_response(nodes()), "unknown").unwrap_err();
    assert_eq!(err.message, "Project status not found: unknown");
}

fn labels_response(nodes: Vec<JsonValue>) -> JsonValue {
    obj(vec![(
        "data",
        obj(vec![(
            "team",
            obj(vec![("labels", obj(vec![("nodes", JsonValue::Arr(nodes))]))]),
        )]),
    )])
}

#[test]
fn test_resolve_labels_mixed_batch() {
    let nodes = vec![
        obj(vec![("id", s("l1")), ("name", s("Bug"))]),
        obj(vec![("id", s("l2")), ("name", s("Feature"))]),
    ];
    let uuid = "550e8400-e29b-41d4-a716-446655440000";
    let labels = vec!["bug".to_string(), uuid.to_string(), "FEATURE".to_string()];
    assert_eq!(
        resolve_labels_from(&labels_response(nodes), &labels),
        Ok(vec!["l1".to_string(), uuid.to_string(), "l2".to_string()])
    );
}

#[test]
fn test_resolve_labels_empty_batch() {
    assert_eq!(resolve_labels_from(&labels_response(vec![]), &[]), Ok(vec![]));
}

#[test]
fn test_resolve_labels_first_failure_names_label() {
    let nodes = vec![obj(vec![("id", s("l1")), ("name", s("Bug"))])];
    let labels = vec!["bug".to_string(), "missing".to_string(), "also-missing".to_string()];
    let err = resolve_labels_from(&labels_response(nodes), &labels).unwrap_err();
    assert_eq!(err.code, 2);
    assert_eq!(err.message, "Label not found: missing");
}

#[test]
fn test_viewer_id() {
    let response = obj(vec![("data", obj(vec![("viewer", obj(vec![("id", s("me-id"))]))]))]);
    assert_eq!(viewer_id_from(&response), Ok("me-id".to_string()));
    let broken = obj(vec![("data", obj(vec![("viewer", JsonValue::Null)]))]);
    let err = viewer_id_from(&broken).unwrap_err();
    assert_eq!(err.message, "Could not fetch current user ID");
}

#[test]
fn test_pick_first_node_id() {
    let response = obj(vec![(
        "data",
        obj(vec![(
            "projects",
            obj(vec![(
                "nodes",
                JsonValue::Arr(vec![
                    obj(vec![("id", s("pr1")), ("name", s("Roadmap"))]),
                    obj(vec![("id", s("pr2")), ("name", s("Other"))]),
                ]),
            )]),
        )]),
    )]);
    assert_eq!(
        pick_first_node_id(&response, &["data", "projects", "nodes"]),
        Some("pr1".to_string())
    );
    let empty = obj(vec![(
        "data",
        obj(vec![("projects", obj(vec![("nodes", JsonValue::Arr(vec![]))]))]),
    )]);
    assert_eq!(pick_first_node_id(&empty, &["data", "projects", "nodes"]), None);
}
