use linear_cli::api::{
    team_resolver_config, user_resolver_config, IssueAction, IssueResolution, NameAction,
    NameResolution, ResolveAction, Resolution,
};
use linear_cli::cache::{Cache, CacheOptions, CacheType};
use linear_cli::json::JsonValue;

const NOW: u64 = 1_000_000;

fn s(text: &str) -> JsonValue {
    JsonValue::Str(text.to_string())
}

fn team_node(id: &str, key: &str, name: &str) -> JsonValue {
    JsonValue::Obj(vec![
        ("id".to_string(), s(id)),
        ("key".to_string(), s(key)),
        ("name".to_string(), s(name)),
    ])
}

/// A filtered-query response carrying the given team nodes.
fn filtered_teams(nodes: Vec<JsonValue>) -> JsonValue {
    JsonValue::Obj(vec![(
        "data".to_string(),
        JsonValue::Obj(vec![(
            "teams".to_string(),
            JsonValue::Obj(vec![("nodes".to_string(), JsonValue::Arr(nodes))]),
        )]),
    )])
}

/// A paginated response carrying the given team nodes and page info.
fn team_page(nodes: Vec<JsonValue>, has_next: bool, cursor: Option<&str>) -> JsonValue {
    let mut info = vec![("hasNextPage".to_string(), JsonValue::Bool(has_next))];
    if let Some(c) = cursor {
        info.push(("endCursor".to_string(), s(c)));
    }
    JsonValue::Obj(vec![(
        "data".to_string(),
        JsonValue::Obj(vec![(
            "teams".to_string(),
            JsonValue::Obj(vec![
                ("nodes".to_string(), JsonValue::Arr(nodes)),
                ("pageInfo".to_string(), JsonValue::Obj(info)),
            ]),
        )]),
    )])
}

const ENG_ID: &str = "11111111-1111-1111-1111-111111111111";

#[test]
fn test_resolution_short_circuit() {
    // A canonical-shape input resolves with zero network calls: the very
    // first action is the answer.
    let cache = Cache::new();
    let uuid = "550e8400-e29b-41d4-a716-446655440000";
    let (_r, action) =
        Resolution::start(team_resolver_config(uuid), uuid, &CacheOptions::default(), &cache, NOW);
    assert_eq!(action, ResolveAction::Done(uuid.to_string()));
}

#[test]
fn test_resolution_cache_hit() {
    let mut cache = Cache::new();
    cache.set(
        CacheType::Teams,
        JsonValue::Arr(vec![team_node(ENG_ID, "ENG", "Engineering")]),
        3600,
        NOW,
    );
    let (_r, action) = Resolution::start(
        team_resolver_config("eng"),
        "eng",
        &CacheOptions::default(),
        &cache,
        NOW,
    );
    assert_eq!(action, ResolveAction::Done(ENG_ID.to_string()));
}

#[test]
fn test_resolution_expired_cache_misses() {
    let mut cache = Cache::new();
    cache.set(
        CacheType::Teams,
        JsonValue::Arr(vec![team_node(ENG_ID, "ENG", "Engineering")]),
        10,
        NOW,
    );
    let (_r, action) = Resolution::start(
        team_resolver_config("eng"),
        "eng",
        &CacheOptions::default(),
        &cache,
        NOW + 11,
    );
    assert_eq!(action, ResolveAction::RunFiltered);
}

#[test]
fn test_resolution_filtered_hit_never_writes_cache() {
    // A server-side-filtered result resolves the call but is never
    // written back: the cache stays empty.
    let cache = Cache::new();
    let (mut r, action) = Resolution::start(
        team_resolver_config("eng"),
        "eng",
        &CacheOptions::default(),
        &cache,
        NOW,
    );
    assert_eq!(action, ResolveAction::RunFiltered);
    let action = r.on_filtered(filtered_teams(vec![team_node(ENG_ID, "ENG", "Engineering")]));
    assert_eq!(action, ResolveAction::Done(ENG_ID.to_string()));
    assert_eq!(cache.get(CacheType::Teams, NOW), None);
}

#[test]
fn test_resolution_full_fetch_end_to_end() {
    // Empty cache, filtered query misses, the one full-fetch page holds
    // Engineering: "eng" resolves to its id and the cache ends up holding
    // exactly that one-element collection under the teams bucket.
    let mut cache = Cache::new();
    let (mut r, action) = Resolution::start(
        team_resolver_config("eng"),
        "eng",
        &CacheOptions::default(),
        &cache,
        NOW,
    );
    assert_eq!(action, ResolveAction::RunFiltered);
    let action = r.on_filtered(filtered_teams(vec![]));
    assert_eq!(action, ResolveAction::RunPage);
    let action = r.on_page(team_page(vec![team_node(ENG_ID, "ENG", "Engineering")], false, None));
    assert_eq!(action, ResolveAction::Finish);
    let result = r.finish(&mut cache, NOW);
    assert_eq!(result, Ok(ENG_ID.to_string()));
    assert_eq!(
        cache.get(CacheType::Teams, NOW),
        Some(&JsonValue::Arr(vec![team_node(ENG_ID, "ENG", "Engineering")]))
    );
}

#[test]
fn test_resolution_full_fetch_walks_pages_and_caches_everything() {
    let mut cache = Cache::new();
    let other = || team_node("22222222-2222-2222-2222-222222222222", "OPS", "Operations");
    let (mut r, _) = Resolution::start(
        team_resolver_config("engineering"),
        "engineering",
        &CacheOptions::default(),
        &cache,
        NOW,
    );
    let action = r.on_filtered(filtered_teams(vec![]));
    assert_eq!(action, ResolveAction::RunPage);
    let action = r.on_page(team_page(vec![other()], true, Some("c1")));
    assert_eq!(action, ResolveAction::RunPage);
    let action = r.on_page(team_page(vec![team_node(ENG_ID, "ENG", "Engineering")], false, None));
    assert_eq!(action, ResolveAction::Finish);
    // Matched by name this time; the cache holds the complete collection.
    assert_eq!(r.finish(&mut cache, NOW), Ok(ENG_ID.to_string()));
    assert_eq!(
        cache.get(CacheType::Teams, NOW),
        Some(&JsonValue::Arr(vec![other(), team_node(ENG_ID, "ENG", "Engineering")]))
    );
}

#[test]
fn test_resolution_not_found_message() {
    let mut cache = Cache::new();
    let (mut r, _) = Resolution::start(
        team_resolver_config("nope"),
        "nope",
        &CacheOptions::default(),
        &cache,
        NOW,
    );
    r.on_filtered(filtered_teams(vec![]));
    r.on_page(team_page(vec![], false, None));
    let err = r.finish(&mut cache, NOW).expect_err("no match anywhere");
    assert_eq!(err.code, 2);
    assert_eq!(
        err.message,
        "Team not found: nope. Use linear-cli t list to see available teams."
    );
    // The complete (empty) fetch was still cached.
    assert_eq!(cache.get(CacheType::Teams, NOW), Some(&JsonValue::Arr(vec![])));
}

#[test]
fn test_resolution_no_cache_bypasses_write() {
    let mut cache = Cache::new();
    let opts = CacheOptions { no_cache: true, ttl_seconds: None };
    let (mut r, action) =
        Resolution::start(team_resolver_config("eng"), "eng", &opts, &cache, NOW);
    assert_eq!(action, ResolveAction::RunFiltered);
    r.on_filtered(filtered_teams(vec![]));
    r.on_page(team_page(vec![team_node(ENG_ID, "ENG", "Engineering")], false, None));
    assert_eq!(r.finish(&mut cache, NOW), Ok(ENG_ID.to_string()));
    assert_eq!(cache.get(CacheType::Teams, NOW), None);
}

#[test]
fn test_resolution_team_key_beats_name() {
    // One team is named "eng", another has the key ENG: the key match
    // wins.
    let cache = Cache::new();
    let by_name = team_node("33333333-3333-3333-3333-333333333333", "OTH", "eng");
    let by_key = team_node(ENG_ID, "ENG", "Engineering");
    let (mut r, _) = Resolution::start(
        team_resolver_config("eng"),
        "eng",
        &CacheOptions::default(),
        &cache,
        NOW,
    );
    let action = r.on_filtered(filtered_teams(vec![by_name, by_key]));
    assert_eq!(action, ResolveAction::Done(ENG_ID.to_string()));
}

#[test]
fn test_resolution_user_matches_email() {
    let cache = Cache::new();
    let user = JsonValue::Obj(vec![
        ("id".to_string(), s("44444444-4444-4444-4444-444444444444")),
        ("name".to_string(), s("Alex Doe")),
        ("email".to_string(), s("alex@example.com")),
    ]);
    let (mut r, action) = Resolution::start(
        user_resolver_config("ALEX@EXAMPLE.COM"),
        "ALEX@EXAMPLE.COM",
        &CacheOptions::default(),
        &cache,
        NOW,
    );
    assert_eq!(action, ResolveAction::RunFiltered);
    let response = JsonValue::Obj(vec![(
        "data".to_string(),
        JsonValue::Obj(vec![(
            "users".to_string(),
            JsonValue::Obj(vec![("nodes".to_string(), JsonValue::Arr(vec![user]))]),
        )]),
    )]);
    let action = r.on_filtered(response);
    assert_eq!(
        action,
        ResolveAction::Done("44444444-4444-4444-4444-444444444444".to_string())
    );
}

fn search_page(nodes: Vec<JsonValue>, has_next: bool, cursor: Option<&str>) -> JsonValue {
    let mut info = vec![("hasNextPage".to_string(), JsonValue::Bool(has_next))];
    if let Some(c) = cursor {
        info.push(("endCursor".to_string(), s(c)));
    }
    JsonValue::Obj(vec![(
        "data".to_string(),
        JsonValue::Obj(vec![(
            "searchIssues".to_string(),
            JsonValue::Obj(vec![
                ("nodes".to_string(), JsonValue::Arr(nodes)),
                ("pageInfo".to_string(), JsonValue::Obj(info)),
            ]),
        )]),
    )])
}

fn issue_node(id: &str, identifier: &str) -> JsonValue {
    JsonValue::Obj(vec![
        ("id".to_string(), s(id)),
        ("identifier".to_string(), s(identifier)),
    ])
}

#[test]
fn test_issue_resolution_uuid_passthrough() {
    let uuid = "550e8400-e29b-41d4-a716-446655440000";
    let (_m, action) = IssueResolution::start(uuid, false);
    assert_eq!(action, IssueAction::Done(uuid.to_string()));
}

#[test]
fn test_issue_resolution_invalid_format_fails_fast() {
    let (_m, action) = IssueResolution::start("not an identifier", false);
    match action {
        IssueAction::Failed(e) => {
            assert_eq!(e.code, 1);
            assert_eq!(
                e.message,
                "Invalid issue identifier 'not an identifier'. Use an identifier like ENG-123 or a UUID."
            );
        },
        _ => panic!("malformed input must fail before any query"),
    }
}

#[test]
fn test_issue_resolution_finds_match_case_insensitively() {
    let (mut m, action) = IssueResolution::start("eng-123", false);
    assert_eq!(action, IssueAction::RunSearch);
    let action = m.on_page(search_page(
        vec![issue_node("wrong", "ENG-1234"), issue_node(ENG_ID, "ENG-123")],
        false,
        None,
    ));
    assert_eq!(action, IssueAction::Done(ENG_ID.to_string()));
}

#[test]
fn test_issue_resolution_follows_cursor_then_widens_to_archived() {
    let (mut m, action) = IssueResolution::start("ENG-9", false);
    assert_eq!(action, IssueAction::RunSearch);
    assert!(!m.include_archived);
    // First page: no match, more pages available.
    let action = m.on_page(search_page(vec![issue_node("x", "ENG-1")], true, Some("c1")));
    assert_eq!(action, IssueAction::RunSearch);
    assert_eq!(m.after, Some("c1".to_string()));
    // Second page ends the un-archived round: the walk restarts over
    // archived issues.
    let action = m.on_page(search_page(vec![], false, None));
    assert_eq!(action, IssueAction::RunSearch);
    assert!(m.include_archived);
    assert_eq!(m.after, None);
    // The archived round finds it.
    let action = m.on_page(search_page(vec![issue_node(ENG_ID, "ENG-9")], false, None));
    assert_eq!(action, IssueAction::Done(ENG_ID.to_string()));
}

#[test]
fn test_issue_resolution_repeated_cursor_ends_round() {
    let (mut m, _) = IssueResolution::start("ENG-9", false);
    let action = m.on_page(search_page(vec![], true, Some("c1")));
    assert_eq!(action, IssueAction::RunSearch);
    assert_eq!(m.after, Some("c1".to_string()));
    // The server advertises more but repeats the cursor just used: the
    // round ends defensively and the walk widens to archived issues.
    let action = m.on_page(search_page(vec![], true, Some("c1")));
    assert_eq!(action, IssueAction::RunSearch);
    assert!(m.include_archived);
    assert_eq!(m.after, None);
    // The archived round advances once, then repeats: that is final.
    let action = m.on_page(search_page(vec![], true, Some("c2")));
    assert_eq!(action, IssueAction::RunSearch);
    let action = m.on_page(search_page(vec![], true, Some("c2")));
    match action {
        IssueAction::Failed(e) => assert_eq!(e.message, "Issue not found: ENG-9"),
        _ => panic!("a repeated cursor must not loop"),
    }
}

#[test]
fn test_name_resolution_uuid_passthrough() {
    let uuid = "550e8400-e29b-41d4-a716-446655440000";
    let (_m, action) = NameResolution::start("Project", uuid, false);
    assert_eq!(action, NameAction::Done(uuid.to_string()));
}

fn project_nodes_response(ids: &[&str]) -> JsonValue {
    JsonValue::Obj(vec![(
        "data".to_string(),
        JsonValue::Obj(vec![(
            "projects".to_string(),
            JsonValue::Obj(vec![(
                "nodes".to_string(),
                JsonValue::Arr(
                    ids.iter()
                        .map(|id| JsonValue::Obj(vec![("id".to_string(), s(id))]))
                        .collect(),
                ),
            )]),
        )]),
    )])
}

#[test]
fn test_name_resolution_widens_once_to_archived() {
    const PATH: &[&str] = &["data", "projects", "nodes"];
    let (mut m, action) = NameResolution::start("Project", "Roadmap", false);
    assert_eq!(action, NameAction::RunLookup);
    assert!(!m.include_archived);
    // A miss over current entities asks once more, over archived ones.
    let action = m.on_response(project_nodes_response(&[]), PATH);
    assert_eq!(action, NameAction::RunLookup);
    assert!(m.include_archived);
    // The archived lookup decides.
    let action = m.on_response(project_nodes_response(&["pr9"]), PATH);
    assert_eq!(action, NameAction::Done("pr9".to_string()));
}

#[test]
fn test_name_resolution_archived_miss_is_final() {
    const PATH: &[&str] = &["data", "initiatives", "nodes"];
    let (mut m, _) = NameResolution::start("Initiative", "Growth", true);
    let action = m.on_response(project_nodes_response(&[]), PATH);
    match action {
        NameAction::Failed(e) => {
            assert_eq!(e.code, 2);
            assert_eq!(e.message, "Initiative not found: Growth");
        },
        _ => panic!("an archived-round miss is final"),
    }
}

#[test]
fn test_issue_resolution_not_found_after_both_rounds() {
    let (mut m, _) = IssueResolution::start("ENG-9", true);
    let action = m.on_page(search_page(vec![], false, None));
    match action {
        IssueAction::Failed(e) => {
            assert_eq!(e.code, 2);
            assert_eq!(e.message, "Issue not found: ENG-9");
        },
        _ => panic!("an archived-round miss is final"),
    }
}
