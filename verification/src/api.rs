//! The identifier resolver: from a human-supplied name, key, email or
//! composite identifier to the service's canonical identifier.
//!
//! Resolution runs as a small state machine per call: a shape
//! short-circuit first, then a cache probe, then a server-side filtered
//! query, then a full paginated fetch whose complete collection — and
//! only that — may be written back to the cache. The caller performs the
//! network requests the machine asks for and feeds the responses back in.

use vstd::prelude::*;

use crate::cache::{Cache, CacheOptions, CacheType};
use crate::error::CliError;
use crate::json::{path_view, spec_get, spec_get_path, JsonValue};
use crate::pagination::{
    cursor_view, feed_continues, page_cursor, page_nodes, PaginationOptions, Paginator,
};
use crate::text::{is_digit, seq_ieq, uuid_shape};

verus! {

use vstd::string::StringExecFns;

/// A word character of a composite identifier's prefix.
pub open spec fn is_word_char(c: char) -> bool {
    ||| 48 <= c as u32 <= 57
    ||| 65 <= c as u32 <= 90
    ||| 97 <= c as u32 <= 122
    ||| c == '_'
}

/// The composite issue-identifier shape `PREFIX-NUMBER`: a non-empty
/// prefix of word characters, one dash, a non-empty run of digits.
pub open spec fn issue_identifier_shape(s: Seq<char>) -> bool {
    exists|i: int|
        #![auto]
        0 < i && i + 1 < s.len() && s[i] == '-' && (forall|k: int|
            0 <= k < i ==> is_word_char(s[k])) && (forall|k: int|
            i < k < s.len() ==> is_digit(s[k]))
}

/// Whether `value` is a composite issue identifier such as a key-number
/// pair: letters, digits or underscores, a dash, then digits.
#[verifier::loop_isolation(false)]
pub fn is_issue_identifier(value: &str) -> (r: bool)
    ensures
        r == issue_identifier_shape(value@),
{
    let chars = crate::text::chars_vec(value);
    let n = chars.len();
    // Find the first dash.
    let mut dash: usize = 0;
    while dash < n && chars[dash] != '-'
        invariant
            chars@ == value@,
            n == chars.len(),
            dash <= n,
            forall|k: int| 0 <= k < dash ==> value@[k] != '-',
        decreases n - dash,
    {
        dash = dash + 1;
    }
    if dash == n {
        proof {
            assert(!issue_identifier_shape(value@)) by {
                if issue_identifier_shape(value@) {
                    let w = choose|w: int|
                        #![auto]
                        0 < w && w + 1 < value@.len() && value@[w] == '-' && (forall|k: int|
                            0 <= k < w ==> is_word_char(value@[k])) && (forall|k: int|
                            w < k < value@.len() ==> is_digit(value@[k]));
                    assert(value@[w] != '-');
                }
            }
        }
        return false;
    }
    if dash == 0 || dash + 1 >= n {
        proof {
            assert(!issue_identifier_shape(value@)) by {
                if issue_identifier_shape(value@) {
                    let w = choose|w: int|
                        #![auto]
                        0 < w && w + 1 < value@.len() && value@[w] == '-' && (forall|k: int|
                            0 <= k < w ==> is_word_char(value@[k])) && (forall|k: int|
                            w < k < value@.len() ==> is_digit(value@[k]));
                    if w < dash {
                        assert(value@[w] != '-');
                    } else if w == dash {
                        assert(false);
                    } else {
                        assert(is_word_char(value@[dash as int]));
                        assert(value@[dash as int] == '-');
                        assert(('-' as u32) == 45);
                    }
                }
            }
        }
        return false;
    }
    // Check the prefix.
    let mut k: usize = 0;
    while k < dash
        invariant
            chars@ == value@,
            n == chars.len(),
            dash < n,
            k <= dash,
            value@[dash as int] == '-',
            forall|q: int| 0 <= q < dash ==> value@[q] != '-',
            forall|q: int| 0 <= q < k ==> is_word_char(value@[q]),
        decreases dash - k,
    {
        let c = chars[k];
        let code = c as u32;
        let word = (48 <= code && code <= 57) || (65 <= code && code <= 90) || (97 <= code && code
            <= 122) || c == '_';
        if !word {
            proof {
                assert(!issue_identifier_shape(value@)) by {
                    if issue_identifier_shape(value@) {
                        let w = choose|w: int|
                            #![auto]
                            0 < w && w + 1 < value@.len() && value@[w] == '-' && (forall|q: int|
                                0 <= q < w ==> is_word_char(value@[q])) && (forall|q: int|
                                w < q < value@.len() ==> is_digit(value@[q]));
                        if w < dash {
                            assert(value@[w] != '-');
                        } else {
                            assert(is_word_char(value@[k as int]));
                        }
                    }
                }
            }
            return false;
        }
        k = k + 1;
    }
    // Check the number.
    let mut q: usize = dash + 1;
    while q < n
        invariant
            chars@ == value@,
            n == chars.len(),
            0 < dash < n,
            dash + 1 <= q <= n,
            value@[dash as int] == '-',
            forall|t: int| 0 <= t < dash ==> value@[t] != '-',
            forall|t: int| 0 <= t < dash ==> is_word_char(value@[t]),
            forall|t: int| dash < t < q ==> is_digit(value@[t]),
        decreases n - q,
    {
        let c = chars[q];
        let code = c as u32;
        if code < 48 || code > 57 {
            proof {
                assert(!issue_identifier_shape(value@)) by {
                    if issue_identifier_shape(value@) {
                        let w = choose|w: int|
                            #![auto]
                            0 < w && w + 1 < value@.len() && value@[w] == '-' && (forall|t: int|
                                0 <= t < w ==> is_word_char(value@[t])) && (forall|t: int|
                                w < t < value@.len() ==> is_digit(value@[t]));
                        if w < dash {
                            assert(value@[w] != '-');
                        } else if w == dash {
                            assert(is_digit(value@[q as int]));
                        } else {
                            assert(is_word_char(value@[dash as int]));
                            assert(('-' as u32) == 45);
                        }
                    }
                }
            }
            return false;
        }
        q = q + 1;
    }
    proof {
        assert(issue_identifier_shape(value@)) by {
            assert(0 < dash && dash + 1 < value@.len() && value@[dash as int] == '-' && (forall|
                t: int,
            |
                0 <= t < dash ==> is_word_char(value@[t])) && (forall|t: int|
                dash < t < value@.len() ==> is_digit(value@[t])));
        }
    }
    true
}

/// The string under `key` in a response node, when present.
pub open spec fn node_str(v: JsonValue, key: Seq<char>) -> Option<Seq<char>> {
    match spec_get(v, key) {
        Option::Some(f) => match f {
            JsonValue::Str(s) => Option::Some(s@),
            _ => Option::None,
        },
        _ => Option::None,
    }
}

/// The string under `key`, or empty when absent or not a string.
pub open spec fn node_str_or_empty(v: JsonValue, key: Seq<char>) -> Seq<char> {
    match node_str(v, key) {
        Option::Some(s) => s,
        Option::None => Seq::empty(),
    }
}

/// The per-node matching rules the resolvers scan with.
#[derive(Debug, Clone, Copy, PartialEq, Eq, Structural)]
pub enum NodeRule {
    /// A team's key, case-insensitively.
    TeamKey,
    /// A team's name, case-insensitively.
    TeamName,
    /// A user's name or email (absent ones read as empty), with an id.
    UserNameOrEmail,
    /// A label's name (absent reads as empty), with an id.
    LabelNameWithId,
    /// A label's name, present and case-insensitively equal.
    LabelName,
    /// An issue's composite identifier (absent reads as empty), with an id.
    IssueIdentifier,
    /// A cycle's number, exactly, with an id.
    CycleNumber,
    /// A cycle's name, case-insensitively, with an id.
    CycleName,
    /// A workflow state's name, with an id.
    StateNameWithId,
    /// A project status's type, case-insensitively.
    StatusType,
    /// A project status's name, case-insensitively.
    StatusName,
}

/// Whether one response node satisfies a matching rule for `input`
/// (`num` carries the numeric reading of the input, for cycles).
pub open spec fn node_rule_holds(
    rule: NodeRule,
    n: JsonValue,
    input: Seq<char>,
    num: Option<i64>,
) -> bool {
    match rule {
        NodeRule::TeamKey => node_str(n, "key"@) matches Option::Some(k) && seq_ieq(k, input),
        NodeRule::TeamName => node_str(n, "name"@) matches Option::Some(m) && seq_ieq(m, input),
        NodeRule::UserNameOrEmail => (seq_ieq(node_str_or_empty(n, "name"@), input) || seq_ieq(
            node_str_or_empty(n, "email"@),
            input,
        )) && node_str(n, "id"@) is Some,
        NodeRule::LabelNameWithId => seq_ieq(node_str_or_empty(n, "name"@), input) && node_str(
            n,
            "id"@,
        ) is Some,
        NodeRule::LabelName => node_str(n, "name"@) matches Option::Some(m) && seq_ieq(m, input),
        NodeRule::IssueIdentifier => seq_ieq(node_str_or_empty(n, "identifier"@), input)
            && node_str(n, "id"@) is Some,
        NodeRule::CycleNumber => node_str(n, "id"@) is Some && (num matches Option::Some(x)
            && spec_get(n, "number"@) == Option::Some(JsonValue::Int(x))),
        NodeRule::CycleName => node_str(n, "id"@) is Some && (node_str(n, "name"@)
            matches Option::Some(m) && seq_ieq(m, input)),
        NodeRule::StateNameWithId => (node_str(n, "name"@) matches Option::Some(m) && seq_ieq(
            m,
            input,
        )) && node_str(n, "id"@) is Some,
        NodeRule::StatusType => node_str(n, "type"@) matches Option::Some(t) && seq_ieq(t, input),
        NodeRule::StatusName => node_str(n, "name"@) matches Option::Some(m) && seq_ieq(m, input),
    }
}

/// The first node of `nodes` satisfying `rule`.
pub open spec fn first_node(
    nodes: Seq<JsonValue>,
    rule: NodeRule,
    input: Seq<char>,
    num: Option<i64>,
) -> Option<JsonValue>
    decreases nodes.len(),
{
    if nodes.len() == 0 {
        Option::None
    } else if node_rule_holds(rule, nodes[0], input, num) {
        Option::Some(nodes[0])
    } else {
        first_node(nodes.drop_first(), rule, input, num)
    }
}

proof fn lemma_first_node_found(
    nodes: Seq<JsonValue>,
    rule: NodeRule,
    input: Seq<char>,
    num: Option<i64>,
    j: int,
)
    requires
        0 <= j < nodes.len(),
        forall|k: int| 0 <= k < j ==> !node_rule_holds(rule, nodes[k], input, num),
        node_rule_holds(rule, nodes[j], input, num),
    ensures
        first_node(nodes, rule, input, num) == Option::Some(nodes[j]),
    decreases j,
{
    if j > 0 {
        lemma_first_node_found(nodes.drop_first(), rule, input, num, j - 1);
    }
}

proof fn lemma_first_node_missing(
    nodes: Seq<JsonValue>,
    rule: NodeRule,
    input: Seq<char>,
    num: Option<i64>,
)
    requires
        forall|k: int| 0 <= k < nodes.len() ==> !node_rule_holds(rule, nodes[k], input, num),
    ensures
        first_node(nodes, rule, input, num) is None,
    decreases nodes.len(),
{
    if nodes.len() > 0 {
        lemma_first_node_missing(nodes.drop_first(), rule, input, num);
    }
}

/// Whether the string under `key` equals `input` up to ASCII case,
/// reading an absent or non-string field as empty.
fn field_ieq_or_empty(n: &JsonValue, key: &str, input: &str) -> (r: bool)
    ensures
        r == seq_ieq(node_str_or_empty(*n, key@), input@),
{
    match n.get(key) {
        Option::Some(f) => match f.as_str() {
            Option::Some(s) => crate::text::str_ieq(s, input),
            Option::None => input.is_empty(),
        },
        Option::None => input.is_empty(),
    }
}

/// Whether the string under `key` is present and equals `input` up to
/// ASCII case.
fn field_ieq(n: &JsonValue, key: &str, input: &str) -> (r: bool)
    ensures
        r == (node_str(*n, key@) matches Option::Some(s) && seq_ieq(s, input@)),
{
    match n.get(key) {
        Option::Some(f) => match f.as_str() {
            Option::Some(s) => crate::text::str_ieq(s, input),
            Option::None => false,
        },
        Option::None => false,
    }
}

/// Whether the node carries a string `id`.
fn has_id(n: &JsonValue) -> (r: bool)
    ensures
        r == (node_str(*n, "id"@) is Some),
{
    match n.get("id") {
        Option::Some(f) => match f.as_str() {
            Option::Some(_) => true,
            Option::None => false,
        },
        Option::None => false,
    }
}

/// Test one node against a rule.
fn node_rule_exec(rule: NodeRule, n: &JsonValue, input: &str, num: Option<i64>) -> (r: bool)
    ensures
        r == node_rule_holds(rule, *n, input@, num),
{
    match rule {
        NodeRule::TeamKey => field_ieq(n, "key", input),
        NodeRule::TeamName => field_ieq(n, "name", input),
        NodeRule::UserNameOrEmail => (field_ieq_or_empty(n, "name", input) || field_ieq_or_empty(
            n,
            "email",
            input,
        )) && has_id(n),
        NodeRule::LabelNameWithId => field_ieq_or_empty(n, "name", input) && has_id(n),
        NodeRule::LabelName => field_ieq(n, "name", input),
        NodeRule::IssueIdentifier => field_ieq_or_empty(n, "identifier", input) && has_id(n),
        NodeRule::CycleNumber => has_id(n) && match num {
            Option::Some(x) => match n.get("number") {
                Option::Some(f) => match f.as_i64() {
                    Option::Some(v) => v == x,
                    Option::None => false,
                },
                Option::None => false,
            },
            Option::None => false,
        },
        NodeRule::CycleName => has_id(n) && field_ieq(n, "name", input),
        NodeRule::StateNameWithId => field_ieq(n, "name", input) && has_id(n),
        NodeRule::StatusType => field_ieq(n, "type", input),
        NodeRule::StatusName => field_ieq(n, "name", input),
    }
}

/// The index of the first node satisfying `rule`, scanning in order.
#[verifier::loop_isolation(false)]
fn find_first_node(nodes: &Vec<JsonValue>, rule: NodeRule, input: &str, num: Option<i64>) -> (r:
    Option<usize>)
    ensures
        match first_node(nodes@, rule, input@, num) {
            Option::Some(n) => r matches Option::Some(j) && j < nodes@.len()
                && nodes@[j as int] == n && node_rule_holds(rule, n, input@, num),
            Option::None => r is None,
        },
{
    let mut j: usize = 0;
    while j < nodes.len()
        invariant
            j <= nodes.len(),
            forall|k: int| 0 <= k < j ==> !node_rule_holds(rule, nodes@[k], input@, num),
        decreases nodes.len() - j,
    {
        if node_rule_exec(rule, &nodes[j], input, num) {
            proof {
                lemma_first_node_found(nodes@, rule, input@, num, j as int);
            }
            return Option::Some(j);
        }
        j = j + 1;
    }
    proof {
        lemma_first_node_missing(nodes@, rule, input@, num);
    }
    Option::None
}

/// Take the string `id` out of a node known to have one.
fn node_id(n: &JsonValue) -> (r: Option<String>)
    ensures
        match node_str(*n, "id"@) {
            Option::Some(id) => r matches Option::Some(s) && s@ == id,
            Option::None => r is None,
        },
{
    match n.get("id") {
        Option::Some(f) => match f.as_str() {
            Option::Some(s) => Option::Some(s.to_owned()),
            Option::None => Option::None,
        },
        Option::None => Option::None,
    }
}

/// The kind-specific matching rule of the generic resolver.
#[derive(Debug, Clone, Copy, PartialEq, Eq, Structural)]
pub enum MatcherKind {
    /// Teams match by key first, then by name.
    TeamKeyThenName,
    /// Users match by name or email.
    UserNameThenEmail,
    /// Labels match by name.
    LabelByName,
}

/// The id a collection resolves `input` to, under teams' key-then-name
/// rule.
pub open spec fn spec_find_team_id(nodes: Seq<JsonValue>, team: Seq<char>) -> Option<Seq<char>> {
    let by_name = match first_node(nodes, NodeRule::TeamName, team, Option::None) {
        Option::Some(n) => node_str(n, "id"@),
        Option::None => Option::None,
    };
    match first_node(nodes, NodeRule::TeamKey, team, Option::None) {
        Option::Some(n) => match node_str(n, "id"@) {
            Option::Some(id) => Option::Some(id),
            Option::None => by_name,
        },
        Option::None => by_name,
    }
}

/// The id a collection resolves `input` to, under users' name-or-email
/// rule.
pub open spec fn spec_find_user_id(nodes: Seq<JsonValue>, user: Seq<char>) -> Option<Seq<char>> {
    match first_node(nodes, NodeRule::UserNameOrEmail, user, Option::None) {
        Option::Some(n) => node_str(n, "id"@),
        Option::None => Option::None,
    }
}

/// The id a collection resolves `input` to, under labels' name rule.
pub open spec fn spec_find_label_id(nodes: Seq<JsonValue>, label: Seq<char>) -> Option<Seq<char>> {
    match first_node(nodes, NodeRule::LabelNameWithId, label, Option::None) {
        Option::Some(n) => node_str(n, "id"@),
        Option::None => Option::None,
    }
}

/// What a matcher resolves `input` to over a collection.
pub open spec fn spec_matcher(kind: MatcherKind, nodes: Seq<JsonValue>, input: Seq<char>)
    -> Option<Seq<char>> {
    match kind {
        MatcherKind::TeamKeyThenName => spec_find_team_id(nodes, input),
        MatcherKind::UserNameThenEmail => spec_find_user_id(nodes, input),
        MatcherKind::LabelByName => spec_find_label_id(nodes, input),
    }
}

/// Find a team id in a collection: by key, then by name, both
/// case-insensitively.
pub fn find_team_id(teams: &Vec<JsonValue>, team: &str) -> (r: Option<String>)
    ensures
        match spec_find_team_id(teams@, team@) {
            Option::Some(id) => r matches Option::Some(s) && s@ == id,
            Option::None => r is None,
        },
{
    match find_first_node(teams, NodeRule::TeamKey, team, Option::None) {
        Option::Some(j) => {
            match node_id(&teams[j]) {
                Option::Some(id) => {
                    return Option::Some(id);
                },
                Option::None => {},
            }
        },
        Option::None => {},
    }
    match find_first_node(teams, NodeRule::TeamName, team, Option::None) {
        Option::Some(j) => node_id(&teams[j]),
        Option::None => Option::None,
    }
}

/// Find a user id in a collection: by name or email, case-insensitively.
pub fn find_user_id(users: &Vec<JsonValue>, user: &str) -> (r: Option<String>)
    ensures
        match spec_find_user_id(users@, user@) {
            Option::Some(id) => r matches Option::Some(s) && s@ == id,
            Option::None => r is None,
        },
{
    match find_first_node(users, NodeRule::UserNameOrEmail, user, Option::None) {
        Option::Some(j) => node_id(&users[j]),
        Option::None => Option::None,
    }
}

/// Find a label id in a collection: by name, case-insensitively.
pub fn find_label_id(labels: &Vec<JsonValue>, label: &str) -> (r: Option<String>)
    ensures
        match spec_find_label_id(labels@, label@) {
            Option::Some(id) => r matches Option::Some(s) && s@ == id,
            Option::None => r is None,
        },
{
    match find_first_node(labels, NodeRule::LabelNameWithId, label, Option::None) {
        Option::Some(j) => node_id(&labels[j]),
        Option::None => Option::None,
    }
}

/// Dispatch a matcher over a collection.
pub fn apply_matcher(kind: MatcherKind, nodes: &Vec<JsonValue>, input: &str) -> (r: Option<String>)
    ensures
        match spec_matcher(kind, nodes@, input@) {
            Option::Some(id) => r matches Option::Some(s) && s@ == id,
            Option::None => r is None,
        },
{
    match kind {
        MatcherKind::TeamKeyThenName => find_team_id(nodes, input),
        MatcherKind::UserNameThenEmail => find_user_id(nodes, input),
        MatcherKind::LabelByName => find_label_id(nodes, input),
    }
}

/// Configuration for generic id resolution: which cache bucket, which
/// query documents and extraction paths, which matching rule, and what to
/// say when nothing matches.
pub struct ResolverConfig<'a> {
    pub cache_type: CacheType,
    pub filtered_query: &'a str,
    pub filtered_var_name: &'a str,
    pub filtered_nodes_path: &'a [&'a str],
    pub paginated_query: &'a str,
    pub paginated_nodes_path: &'a [&'a str],
    pub paginated_page_info_path: &'a [&'a str],
    pub not_found_msg: String,
    pub matcher: MatcherKind,
}

/// The filtered team query: key or name, matched server-side.
pub const TEAM_FILTERED_QUERY: &'static str = r#"
    query($team: String!) {
        teams(first: 50, filter: { or: [{ key: { eqIgnoreCase: $team } }, { name: { eqIgnoreCase: $team } }] }) {
            nodes { id key name }
        }
    }
"#;

/// The paginated team query for the full fetch.
pub const TEAM_PAGINATED_QUERY: &'static str = r#"
    query($first: Int, $after: String) {
        teams(first: $first, after: $after) {
            nodes { id key name }
            pageInfo { hasNextPage endCursor }
        }
    }
"#;

/// The resolver configuration for teams: key or name, case-insensitively.
pub fn team_resolver_config(team: &str) -> (r: ResolverConfig<'static>)
    ensures
        r.cache_type == CacheType::Teams,
        r.matcher == MatcherKind::TeamKeyThenName,
        r.filtered_query@ == TEAM_FILTERED_QUERY@,
        r.filtered_var_name@ == "team"@,
        path_view(r.filtered_nodes_path@) == seq!["data"@, "teams"@, "nodes"@],
        r.paginated_query@ == TEAM_PAGINATED_QUERY@,
        path_view(r.paginated_nodes_path@) == seq!["data"@, "teams"@, "nodes"@],
        path_view(r.paginated_page_info_path@) == seq!["data"@, "teams"@, "pageInfo"@],
        r.not_found_msg@ == "Team not found: "@ + team@
            + ". Use linear-cli t list to see available teams."@,
{
    let mut msg = String::from_str("Team not found: ");
    msg.append(team);
    msg.append(". Use linear-cli t list to see available teams.");
    let nodes_path: &[&str] = &["data", "teams", "nodes"];
    let page_info_path: &[&str] = &["data", "teams", "pageInfo"];
    proof {
        assert(path_view(nodes_path@) =~= seq!["data"@, "teams"@, "nodes"@]);
        assert(path_view(page_info_path@) =~= seq!["data"@, "teams"@, "pageInfo"@]);
    }
    ResolverConfig {
        cache_type: CacheType::Teams,
        filtered_query: TEAM_FILTERED_QUERY,
        filtered_var_name: "team",
        filtered_nodes_path: nodes_path,
        paginated_query: TEAM_PAGINATED_QUERY,
        paginated_nodes_path: nodes_path,
        paginated_page_info_path: page_info_path,
        not_found_msg: msg,
        matcher: MatcherKind::TeamKeyThenName,
    }
}

/// The filtered user query: name or email, matched server-side.
pub const USER_FILTERED_QUERY: &'static str = r#"
    query($user: String!) {
        users(first: 50, filter: { or: [{ name: { eqIgnoreCase: $user } }, { email: { eqIgnoreCase: $user } }] }) {
            nodes { id name email }
        }
    }
"#;

/// The paginated user query for the full fetch.
pub const USER_PAGINATED_QUERY: &'static str = r#"
    query($first: Int, $after: String) {
        users(first: $first, after: $after) {
            nodes { id name email }
            pageInfo { hasNextPage endCursor }
        }
    }
"#;

/// The resolver configuration for users: name or email,
/// case-insensitively.
pub fn user_resolver_config(user: &str) -> (r: ResolverConfig<'static>)
    ensures
        r.cache_type == CacheType::Users,
        r.matcher == MatcherKind::UserNameThenEmail,
        r.filtered_query@ == USER_FILTERED_QUERY@,
        r.filtered_var_name@ == "user"@,
        path_view(r.filtered_nodes_path@) == seq!["data"@, "users"@, "nodes"@],
        r.paginated_query@ == USER_PAGINATED_QUERY@,
        path_view(r.paginated_nodes_path@) == seq!["data"@, "users"@, "nodes"@],
        path_view(r.paginated_page_info_path@) == seq!["data"@, "users"@, "pageInfo"@],
        r.not_found_msg@ == "User not found: "@ + user@,
{
    let mut msg = String::from_str("User not found: ");
    msg.append(user);
    let nodes_path: &[&str] = &["data", "users", "nodes"];
    let page_info_path: &[&str] = &["data", "users", "pageInfo"];
    proof {
        assert(path_view(nodes_path@) =~= seq!["data"@, "users"@, "nodes"@]);
        assert(path_view(page_info_path@) =~= seq!["data"@, "users"@, "pageInfo"@]);
    }
    ResolverConfig {
        cache_type: CacheType::Users,
        filtered_query: USER_FILTERED_QUERY,
        filtered_var_name: "user",
        filtered_nodes_path: nodes_path,
        paginated_query: USER_PAGINATED_QUERY,
        paginated_nodes_path: nodes_path,
        paginated_page_info_path: page_info_path,
        not_found_msg: msg,
        matcher: MatcherKind::UserNameThenEmail,
    }
}

/// The filtered label query: name, matched server-side.
pub const LABEL_FILTERED_QUERY: &'static str = r#"
    query($label: String!) {
        issueLabels(first: 50, filter: { name: { eqIgnoreCase: $label } }) {
            nodes { id name }
        }
    }
"#;

/// The paginated label query for the full fetch.
pub const LABEL_PAGINATED_QUERY: &'static str = r#"
    query($first: Int, $after: String) {
        issueLabels(first: $first, after: $after) {
            nodes { id name }
            pageInfo { hasNextPage endCursor }
        }
    }
"#;

/// The resolver configuration for labels: name, case-insensitively.
pub fn label_resolver_config(label: &str) -> (r: ResolverConfig<'static>)
    ensures
        r.cache_type == CacheType::Labels,
        r.matcher == MatcherKind::LabelByName,
        r.filtered_query@ == LABEL_FILTERED_QUERY@,
        r.filtered_var_name@ == "label"@,
        path_view(r.filtered_nodes_path@) == seq!["data"@, "issueLabels"@, "nodes"@],
        r.paginated_query@ == LABEL_PAGINATED_QUERY@,
        path_view(r.paginated_nodes_path@) == seq!["data"@, "issueLabels"@, "nodes"@],
        path_view(r.paginated_page_info_path@) == seq!["data"@, "issueLabels"@, "pageInfo"@],
        r.not_found_msg@ == "Label not found: "@ + label@,
{
    let mut msg = String::from_str("Label not found: ");
    msg.append(label);
    let nodes_path: &[&str] = &["data", "issueLabels", "nodes"];
    let page_info_path: &[&str] = &["data", "issueLabels", "pageInfo"];
    proof {
        assert(path_view(nodes_path@) =~= seq!["data"@, "issueLabels"@, "nodes"@]);
        assert(path_view(page_info_path@) =~= seq!["data"@, "issueLabels"@, "pageInfo"@]);
    }
    ResolverConfig {
        cache_type: CacheType::Labels,
        filtered_query: LABEL_FILTERED_QUERY,
        filtered_var_name: "label",
        filtered_nodes_path: nodes_path,
        paginated_query: LABEL_PAGINATED_QUERY,
        paginated_nodes_path: nodes_path,
        paginated_page_info_path: page_info_path,
        not_found_msg: msg,
        matcher: MatcherKind::LabelByName,
    }
}

/// Where a resolution stands.
#[derive(Debug, Clone, Copy, PartialEq, Eq, Structural)]
pub enum ResolvePhase {
    /// Waiting for the filtered query's response.
    Filtered,
    /// Walking the full paginated fetch.
    Paging,
    /// The full fetch is complete; only the finish step remains.
    Exhausted,
}

/// What the caller is to do next.
#[derive(Debug, PartialEq)]
pub enum ResolveAction {
    /// Resolution succeeded with this canonical id.
    Done(String),
    /// Run the configured filtered query and feed the response to
    /// [`Resolution::on_filtered`].
    RunFiltered,
    /// Fetch the page the embedded paginator asks for and feed it to
    /// [`Resolution::on_page`].
    RunPage,
    /// The full fetch is complete: call [`Resolution::finish`].
    Finish,
}

/// What the cache probe of a resolution yields: the matched id out of a
/// fresh, unexpired collection in the right bucket — unless the call
/// bypasses the cache.
pub open spec fn cache_probe_spec(
    cache: Cache,
    bucket: CacheType,
    matcher: MatcherKind,
    opts: CacheOptions,
    input: Seq<char>,
    now: u64,
) -> Option<Seq<char>> {
    if opts.no_cache {
        Option::None
    } else {
        match cache.lookup(bucket, Option::None, now) {
            Option::Some(payload) => match payload {
                JsonValue::Arr(items) => spec_matcher(matcher, items@, input),
                _ => Option::None,
            },
            Option::None => Option::None,
        }
    }
}

/// One resolution in progress. The caller performs the queries that the
/// returned [`ResolveAction`]s ask for; every decision in between is
/// made here.
pub struct Resolution<'a> {
    pub config: ResolverConfig<'a>,
    pub input: String,
    pub no_cache: bool,
    pub ttl_seconds: u64,
    pub pager: Paginator,
    pub phase: ResolvePhase,
}

impl<'a> Resolution<'a> {
    /// The machine's phase agrees with its paginator.
    pub open spec fn wf(self) -> bool {
        &&& self.phase is Paging ==> (!self.pager.done && self.pager.limit is None
            && self.pager.wf())
        &&& self.phase is Exhausted ==> self.pager.done
    }

    /// Start resolving `input`: an input already in canonical shape is
    /// returned at once, unresolved and without any request; otherwise
    /// the cache bucket is probed (unless bypassed), and on a miss the
    /// filtered query is asked for.
    pub fn start(
        config: ResolverConfig<'a>,
        input: &str,
        cache_opts: &CacheOptions,
        cache: &Cache,
        now: u64,
    ) -> (r: (Resolution<'a>, ResolveAction))
        ensures
            r.0.config == config,
            r.0.input@ == input@,
            r.0.no_cache == cache_opts.no_cache,
            r.0.ttl_seconds == crate::cache::spec_effective_ttl(*cache_opts),
            r.0.wf(),
            uuid_shape(input@) ==> (r.1 matches ResolveAction::Done(s) && s@ == input@),
            !uuid_shape(input@) ==> match cache_probe_spec(
                *cache,
                config.cache_type,
                config.matcher,
                *cache_opts,
                input@,
                now,
            ) {
                Option::Some(id) => r.1 matches ResolveAction::Done(s) && s@ == id,
                Option::None => r.1 is RunFiltered && r.0.phase is Filtered,
            },
    {
        let ttl_seconds = cache_opts.effective_ttl_seconds();
        let resolution = Resolution {
            config,
            input: input.to_owned(),
            no_cache: cache_opts.no_cache,
            ttl_seconds,
            pager: Paginator::new(&PaginationOptions::default(), 250),
            phase: ResolvePhase::Filtered,
        };
        if crate::text::is_uuid(input) {
            return (resolution, ResolveAction::Done(input.to_owned()));
        }
        if !cache_opts.no_cache {
            match cache.get(resolution.config.cache_type, now) {
                Option::Some(payload) => {
                    match payload.as_array() {
                        Option::Some(items) => {
                            match apply_matcher(resolution.config.matcher, items, input) {
                                Option::Some(id) => {
                                    return (resolution, ResolveAction::Done(id));
                                },
                                Option::None => {},
                            }
                        },
                        Option::None => {},
                    }
                },
                Option::None => {},
            }
        }
        (resolution, ResolveAction::RunFiltered)
    }

    /// Consume the filtered query's response: return a match at once, or
    /// begin the full paginated fetch. The filtered result is never
    /// written to the cache.
    pub fn on_filtered(&mut self, response: JsonValue) -> (r: ResolveAction)
        requires
            old(self).phase is Filtered,
            old(self).wf(),
        ensures
            final(self).config == old(self).config,
            final(self).input == old(self).input,
            final(self).no_cache == old(self).no_cache,
            final(self).ttl_seconds == old(self).ttl_seconds,
            final(self).wf(),
            match spec_matcher(
                old(self).config.matcher,
                page_nodes(response, path_view(old(self).config.filtered_nodes_path@)),
                old(self).input@,
            ) {
                Option::Some(id) => r matches ResolveAction::Done(s) && s@ == id && final(self).phase == old(self).phase,
                Option::None => r is RunPage && final(self).phase is Paging && final(self).pager.items@.len() == 0 && final(self).pager.after is None,
            },
    {
        let nodes: Vec<JsonValue> = match crate::json::take_path(
            response,
            self.config.filtered_nodes_path,
        ) {
            Option::Some(v) => match v {
                JsonValue::Arr(items) => items,
                _ => Vec::new(),
            },
            Option::None => Vec::new(),
        };
        match apply_matcher(self.config.matcher, &nodes, self.input.as_str()) {
            Option::Some(id) => ResolveAction::Done(id),
            Option::None => {
                self.pager = Paginator::new(
                    &PaginationOptions {
                        all: true,
                        limit: Option::None,
                        page_size: Option::Some(250),
                        after: Option::None,
                    },
                    250,
                );
                self.phase = ResolvePhase::Paging;
                ResolveAction::RunPage
            },
        }
    }

    /// Consume one page of the full fetch: keep walking while the server
    /// reports more, then ask for the finish step.
    pub fn on_page(&mut self, response: JsonValue) -> (r: ResolveAction)
        requires
            old(self).phase is Paging,
            old(self).wf(),
        ensures
            final(self).config == old(self).config,
            final(self).input == old(self).input,
            final(self).no_cache == old(self).no_cache,
            final(self).ttl_seconds == old(self).ttl_seconds,
            final(self).wf(),
            final(self).pager.items@ == old(self).pager.items@ + page_nodes(
                response,
                path_view(old(self).config.paginated_nodes_path@),
            ),
            ({
                let cont = feed_continues(
                    response,
                    path_view(old(self).config.paginated_page_info_path@),
                    cursor_view(old(self).pager.after),
                );
                &&& cont ==> r is RunPage && final(self).phase is Paging && cursor_view(
                    final(self).pager.after,
                ) == page_cursor(
                    response,
                    path_view(old(self).config.paginated_page_info_path@),
                )
                &&& !cont ==> r is Finish && final(self).phase is Exhausted
            }),
    {
        let ghost nodes = page_nodes(response, path_view(self.config.paginated_nodes_path@));
        self.pager.feed_page(
            response,
            self.config.paginated_nodes_path,
            self.config.paginated_page_info_path,
        );
        proof {
            assert(nodes.take(nodes.len() as int) =~= nodes);
        }
        if self.pager.is_done() {
            self.phase = ResolvePhase::Exhausted;
            ResolveAction::Finish
        } else {
            ResolveAction::RunPage
        }
    }

    /// Conclude after the full fetch: write the complete, unfiltered
    /// collection — and nothing else is ever written — to the cache
    /// unless this call bypasses it, then match one last time. A miss at
    /// this point is final.
    pub fn finish(self, cache: &mut Cache, now: u64) -> (r: Result<String, CliError>)
        requires
            self.phase is Exhausted,
            self.wf(),
        ensures
            !self.no_cache ==> (final(cache).stored(self.config.cache_type, Option::None)
                matches Option::Some(e) && {
                &&& e.bucket == self.config.cache_type
                &&& e.secondary is None
                &&& e.payload matches JsonValue::Arr(v) && v@ == self.pager.items@
                &&& e.written_at == now
                &&& e.ttl_seconds == self.ttl_seconds
            }),
            !self.no_cache ==> forall|b: CacheType, s: Option<Seq<char>>|
                (b, s) != (self.config.cache_type, Option::<Seq<char>>::None) ==> final(cache).stored(b, s) == old(cache).stored(b, s),
            self.no_cache ==> *final(cache) == *old(cache),
            match spec_matcher(self.config.matcher, self.pager.items@, self.input@) {
                Option::Some(id) => r matches Result::Ok(s) && s@ == id,
                Option::None => r matches Result::Err(e) && e.code == 2 && e.message@
                    == self.config.not_found_msg@ && e.details is None && e.retry_after is None,
            },
    {
        let id_opt = apply_matcher(self.config.matcher, &self.pager.items, self.input.as_str());
        let Resolution { config, input: _, no_cache, ttl_seconds, pager, phase: _ } = self;
        if !no_cache {
            cache.set(config.cache_type, JsonValue::Arr(pager.into_items()), ttl_seconds, now);
        }
        match id_opt {
            Option::Some(id) => Result::Ok(id),
            Option::None => Result::Err(CliError::new(2, config.not_found_msg.as_str())),
        }
    }
}

/// The extraction path of the issue search's nodes.
pub open spec fn search_nodes_path() -> Seq<Seq<char>> {
    seq!["data"@, "searchIssues"@, "nodes"@]
}

/// The extraction path of the issue search's page info.
pub open spec fn search_page_info_path() -> Seq<Seq<char>> {
    seq!["data"@, "searchIssues"@, "pageInfo"@]
}

/// What the caller of an issue resolution is to do next.
#[derive(Debug, PartialEq)]
pub enum IssueAction {
    /// Resolution succeeded with this canonical id.
    Done(String),
    /// Run the search query with the machine's current cursor and
    /// archived flag, and feed the response to
    /// [`IssueResolution::on_page`].
    RunSearch,
    /// Resolution failed: a malformed identifier, or no match anywhere.
    Failed(CliError),
}

/// Resolving a composite issue identifier through the search connection:
/// pages are walked for a case-insensitive identifier match, and when the
/// un-archived search is exhausted the walk is repeated over archived
/// issues before giving up.
pub struct IssueResolution {
    pub issue: String,
    pub include_archived: bool,
    pub after: Option<String>,
    pub active: bool,
}

impl IssueResolution {
    /// Start resolving `issue`: canonical shapes pass through unresolved
    /// and without any request, anything that is not a composite
    /// identifier fails fast without querying a server it can never
    /// match, and everything else begins the search.
    pub fn start(issue: &str, include_archived: bool) -> (r: (IssueResolution, IssueAction))
        ensures
            uuid_shape(issue@) ==> (r.1 matches IssueAction::Done(s) && s@ == issue@
                && !r.0.active),
            !uuid_shape(issue@) && !issue_identifier_shape(issue@) ==> (r.1
                matches IssueAction::Failed(e) && e.code == 1 && e.message@
                == "Invalid issue identifier '"@ + issue@
                + "'. Use an identifier like ENG-123 or a UUID."@ && !r.0.active),
            !uuid_shape(issue@) && issue_identifier_shape(issue@) ==> ({
                &&& r.1 is RunSearch
                &&& r.0.active
                &&& r.0.issue@ == issue@
                &&& r.0.include_archived == include_archived
                &&& r.0.after is None
            }),
    {
        let machine = IssueResolution {
            issue: issue.to_owned(),
            include_archived,
            after: Option::None,
            active: false,
        };
        if crate::text::is_uuid(issue) {
            return (machine, IssueAction::Done(issue.to_owned()));
        }
        if !is_issue_identifier(issue) {
            let mut msg = String::from_str("Invalid issue identifier '");
            msg.append(issue);
            msg.append("'. Use an identifier like ENG-123 or a UUID.");
            return (machine, IssueAction::Failed(CliError::new(1, msg.as_str())));
        }
        (IssueResolution { active: true, ..machine }, IssueAction::RunSearch)
    }

    /// Consume one search page: a node whose identifier matches ends the
    /// walk; otherwise the walk follows the cursor — but never a cursor
    /// that failed to change, which ends the round defensively — widens
    /// once to archived issues, and then fails with the identifier named.
    pub fn on_page(&mut self, response: JsonValue) -> (r: IssueAction)
        requires
            old(self).active,
        ensures
            final(self).issue == old(self).issue,
            ({
                let nodes = page_nodes(response, search_nodes_path());
                let hit = match first_node(
                    nodes,
                    NodeRule::IssueIdentifier,
                    old(self).issue@,
                    Option::None,
                ) {
                    Option::Some(n) => node_str(n, "id"@),
                    Option::None => Option::<Seq<char>>::None,
                };
                let more = feed_continues(
                    response,
                    search_page_info_path(),
                    cursor_view(old(self).after),
                );
                &&& hit matches Option::Some(id) ==> (r matches IssueAction::Done(s) && s@ == id
                    && !final(self).active)
                &&& hit is None && more ==> ({
                    &&& r is RunSearch
                    &&& final(self).active
                    &&& cursor_view(final(self).after) == crate::pagination::page_cursor(
                        response,
                        search_page_info_path(),
                    )
                    &&& final(self).include_archived == old(self).include_archived
                })
                &&& hit is None && !more && !old(self).include_archived ==> ({
                    &&& r is RunSearch
                    &&& final(self).active
                    &&& final(self).after is None
                    &&& final(self).include_archived == true
                })
                &&& hit is None && !more && old(self).include_archived ==> (r
                    matches IssueAction::Failed(e) && e.code == 2 && e.message@
                    == "Issue not found: "@ + old(self).issue@ && !final(self).active)
            }),
    {
        let info_path: Vec<&str> = vec!["data", "searchIssues", "pageInfo"];
        let (has_next, cursor): (bool, Option<String>) = match crate::json::get_path(
            &response,
            info_path.as_slice(),
        ) {
            Option::Some(info) => {
                let hn = match info.get("hasNextPage") {
                    Option::Some(v) => match v.as_bool() {
                        Option::Some(b) => b,
                        Option::None => false,
                    },
                    Option::None => false,
                };
                let cur = match info.get("endCursor") {
                    Option::Some(v) => match v.as_str() {
                        Option::Some(s) => Option::Some(s.to_owned()),
                        Option::None => Option::None,
                    },
                    Option::None => Option::None,
                };
                (hn, cur)
            },
            Option::None => (false, Option::None),
        };
        proof {
            assert(path_view(info_path@) =~= search_page_info_path());
        }
        let nodes_path: Vec<&str> = vec!["data", "searchIssues", "nodes"];
        let nodes: Vec<JsonValue> = match crate::json::take_path(response, nodes_path.as_slice()) {
            Option::Some(v) => match v {
                JsonValue::Arr(items) => items,
                _ => Vec::new(),
            },
            Option::None => Vec::new(),
        };
        proof {
            assert(path_view(nodes_path@) =~= search_nodes_path());
        }
        match find_first_node(&nodes, NodeRule::IssueIdentifier, self.issue.as_str(), Option::None)
        {
            Option::Some(j) => {
                match node_id(&nodes[j]) {
                    Option::Some(id) => {
                        self.active = false;
                        return IssueAction::Done(id);
                    },
                    Option::None => {
                        return unreached();
                    },
                }
            },
            Option::None => {},
        }
        let advances = has_next && match (&cursor, &self.after) {
            (Option::Some(c), Option::Some(p)) => !crate::text::str_eq(c.as_str(), p.as_str()),
            (Option::Some(_), Option::None) => true,
            (Option::None, _) => false,
        };
        if advances {
            self.after = cursor;
            return IssueAction::RunSearch;
        }
        if !self.include_archived {
            self.include_archived = true;
            self.after = Option::None;
            return IssueAction::RunSearch;
        }
        self.active = false;
        let mut msg = String::from_str("Issue not found: ");
        msg.append(self.issue.as_str());
        IssueAction::Failed(CliError::new(2, msg.as_str()))
    }
}

/// What the caller of a name resolution is to do next.
#[derive(Debug, PartialEq)]
pub enum NameAction {
    /// Resolution succeeded with this canonical id.
    Done(String),
    /// Run the filtered name lookup with the machine's current archived
    /// flag and feed the response to [`NameResolution::on_response`].
    RunLookup,
    /// No match, current or archived: resolution failed.
    Failed(CliError),
}

/// Resolving a project or initiative name through its filtered query:
/// one lookup over current entities, then — on a miss — one more over
/// archived ones before giving up. The entity kind only names the
/// failure.
pub struct NameResolution {
    pub kind: String,
    pub name: String,
    pub include_archived: bool,
    pub active: bool,
}

impl NameResolution {
    /// Start resolving `name` for the entity kind called `kind`: a
    /// canonical shape passes through unresolved and without any
    /// request; anything else asks for the filtered lookup.
    pub fn start(kind: &str, name: &str, include_archived: bool) -> (r: (
        NameResolution,
        NameAction,
    ))
        ensures
            uuid_shape(name@) ==> (r.1 matches NameAction::Done(s) && s@ == name@
                && !r.0.active),
            !uuid_shape(name@) ==> ({
                &&& r.1 is RunLookup
                &&& r.0.active
                &&& r.0.kind@ == kind@
                &&& r.0.name@ == name@
                &&& r.0.include_archived == include_archived
            }),
    {
        let machine = NameResolution {
            kind: kind.to_owned(),
            name: name.to_owned(),
            include_archived,
            active: false,
        };
        if crate::text::is_uuid(name) {
            return (machine, NameAction::Done(name.to_owned()));
        }
        (NameResolution { active: true, ..machine }, NameAction::RunLookup)
    }

    /// Consume one lookup response: the first returned node decides; a
    /// miss widens once to archived entities and is otherwise final,
    /// naming the kind and the input.
    pub fn on_response(&mut self, response: JsonValue, nodes_path: &[&str]) -> (r: NameAction)
        requires
            old(self).active,
        ensures
            final(self).kind == old(self).kind,
            final(self).name == old(self).name,
            match spec_first_node_id(response, path_view(nodes_path@)) {
                Option::Some(id) => r matches NameAction::Done(s) && s@ == id
                    && !final(self).active,
                Option::None => if !old(self).include_archived {
                    r is RunLookup && final(self).active && final(self).include_archived
                } else {
                    r matches NameAction::Failed(e) && e.code == 2 && e.message@
                        == old(self).kind@ + " not found: "@ + old(self).name@
                        && !final(self).active
                },
            },
    {
        match pick_first_node_id(&response, nodes_path) {
            Option::Some(id) => {
                self.active = false;
                NameAction::Done(id)
            },
            Option::None => {
                if !self.include_archived {
                    self.include_archived = true;
                    NameAction::RunLookup
                } else {
                    self.active = false;
                    let mut msg = self.kind.clone();
                    msg.append(" not found: ");
                    msg.append(self.name.as_str());
                    NameAction::Failed(CliError::new(2, msg.as_str()))
                }
            },
        }
    }
}

/// The current viewer's id inside a dedicated viewer query's response.
pub open spec fn spec_viewer_id(response: JsonValue) -> Option<Seq<char>> {
    match spec_get_path(response, seq!["data"@, "viewer"@, "id"@]) {
        Option::Some(v) => match v {
            JsonValue::Str(s) => Option::Some(s@),
            _ => Option::None,
        },
        Option::None => Option::None,
    }
}

/// Read the current viewer's id out of the viewer query's response; the
/// literal `me` resolves through this instead of the generic path.
pub fn viewer_id_from(response: &JsonValue) -> (r: Result<String, CliError>)
    ensures
        match spec_viewer_id(*response) {
            Option::Some(id) => r matches Result::Ok(s) && s@ == id,
            Option::None => r matches Result::Err(e) && e.code == 1 && e.message@
                == "Could not fetch current user ID"@ && e.details is None && e.retry_after
                is None,
        },
{
    let path: Vec<&str> = vec!["data", "viewer", "id"];
    proof {
        assert(path_view(path@) =~= seq!["data"@, "viewer"@, "id"@]);
    }
    match crate::json::get_path(response, path.as_slice()) {
        Option::Some(v) => match v.as_str() {
            Option::Some(s) => Result::Ok(s.to_owned()),
            Option::None => Result::Err(CliError::new(1, "Could not fetch current user ID")),
        },
        Option::None => Result::Err(CliError::new(1, "Could not fetch current user ID")),
    }
}

/// The id of the first node a single filtered query returned.
pub open spec fn spec_first_node_id(response: JsonValue, path: Seq<Seq<char>>) -> Option<
    Seq<char>,
> {
    let nodes = page_nodes(response, path);
    if nodes.len() > 0 {
        node_str(nodes[0], "id"@)
    } else {
        Option::None
    }
}

/// The id of the first node under `path`, as project and initiative
/// resolution read their filtered responses.
pub fn pick_first_node_id(response: &JsonValue, path: &[&str]) -> (r: Option<String>)
    ensures
        match spec_first_node_id(*response, path_view(path@)) {
            Option::Some(id) => r matches Option::Some(s) && s@ == id,
            Option::None => r is None,
        },
{
    match crate::json::get_path(response, path) {
        Option::Some(v) => match v.as_array() {
            Option::Some(nodes) => {
                if nodes.len() > 0 {
                    node_id(&nodes[0])
                } else {
                    Option::None
                }
            },
            Option::None => Option::None,
        },
        Option::None => Option::None,
    }
}

/// The cycle collection inside a team's cycle query response.
pub open spec fn cycle_nodes(response: JsonValue) -> Seq<JsonValue> {
    match spec_get_path(response, seq!["data"@, "team"@, "cycles"@, "nodes"@]) {
        Option::Some(v) => match v {
            JsonValue::Arr(items) => items@,
            _ => Seq::empty(),
        },
        Option::None => Seq::empty(),
    }
}

/// The cycle node cycle resolution settles on: the first whose number
/// matches the input's numeric reading, else the first whose name
/// matches; a match anywhere by number beats every match by name.
pub open spec fn spec_cycle_pick(nodes: Seq<JsonValue>, cycle: Seq<char>, num: Option<i64>)
    -> Option<JsonValue> {
    match first_node(nodes, NodeRule::CycleNumber, cycle, num) {
        Option::Some(n) => Option::Some(n),
        Option::None => first_node(nodes, NodeRule::CycleName, cycle, num),
    }
}

/// Resolve a cycle within a team's cycle listing: by cycle number first
/// when the input reads as one, then by name case-insensitively. A null
/// team fails before any matching.
pub fn resolve_cycle_from(response: &JsonValue, cycle: &str) -> (r: Result<String, CliError>)
    ensures
        ({
            let team = spec_get_path(*response, seq!["data"@, "team"@]);
            let missing_team = team is None || team == Option::Some(JsonValue::Null);
            let hit = match spec_cycle_pick(
                cycle_nodes(*response),
                cycle@,
                crate::text::parse_i64_spec(cycle@),
            ) {
                Option::Some(n) => node_str(n, "id"@),
                Option::None => Option::<Seq<char>>::None,
            };
            &&& missing_team ==> (r matches Result::Err(e) && e.code == 2 && e.message@
                == "Team not found for cycle lookup"@)
            &&& !missing_team ==> (match hit {
                Option::Some(id) => r matches Result::Ok(s) && s@ == id,
                Option::None => r matches Result::Err(e) && e.code == 2 && e.message@
                    == "Cycle not found: "@ + cycle@,
            })
        }),
{
    let team_path: Vec<&str> = vec!["data", "team"];
    proof {
        assert(path_view(team_path@) =~= seq!["data"@, "team"@]);
    }
    let missing = match crate::json::get_path(response, team_path.as_slice()) {
        Option::Some(t) => t.is_null(),
        Option::None => true,
    };
    if missing {
        return Result::Err(CliError::new(2, "Team not found for cycle lookup"));
    }
    let nodes_path: Vec<&str> = vec!["data", "team", "cycles", "nodes"];
    proof {
        assert(path_view(nodes_path@) =~= seq!["data"@, "team"@, "cycles"@, "nodes"@]);
    }
    let empty: Vec<JsonValue> = Vec::new();
    let cycles: &Vec<JsonValue> = match crate::json::get_path(response, nodes_path.as_slice()) {
        Option::Some(v) => match v.as_array() {
            Option::Some(items) => items,
            Option::None => &empty,
        },
        Option::None => &empty,
    };
    let num = crate::text::parse_i64(cycle);
    let found = match find_first_node(cycles, NodeRule::CycleNumber, cycle, num) {
        Option::Some(j) => Option::Some(j),
        Option::None => find_first_node(cycles, NodeRule::CycleName, cycle, num),
    };
    match found {
        Option::Some(j) => match node_id(&cycles[j]) {
            Option::Some(id) => Result::Ok(id),
            Option::None => unreached(),
        },
        Option::None => {
            let mut msg = String::from_str("Cycle not found: ");
            msg.append(cycle);
            Result::Err(CliError::new(2, msg.as_str()))
        },
    }
}

/// The workflow-state collection inside a team's state query response.
pub open spec fn state_nodes(response: JsonValue) -> Seq<JsonValue> {
    match spec_get_path(response, seq!["data"@, "team"@, "states"@, "nodes"@]) {
        Option::Some(v) => match v {
            JsonValue::Arr(items) => items@,
            _ => Seq::empty(),
        },
        Option::None => Seq::empty(),
    }
}

/// Resolve a workflow state within a team's listing: by name,
/// case-insensitively.
pub fn resolve_state_from(response: &JsonValue, state: &str) -> (r: Result<String, CliError>)
    ensures
        ({
            let hit = match first_node(
                state_nodes(*response),
                NodeRule::StateNameWithId,
                state@,
                Option::None,
            ) {
                Option::Some(n) => node_str(n, "id"@),
                Option::None => Option::<Seq<char>>::None,
            };
            &&& hit matches Option::Some(id) ==> (r matches Result::Ok(s) && s@ == id)
            &&& hit is None ==> (r matches Result::Err(e) && e.code == 2 && e.message@
                == "State not found: "@ + state@)
        }),
{
    let nodes_path: Vec<&str> = vec!["data", "team", "states", "nodes"];
    proof {
        assert(path_view(nodes_path@) =~= seq!["data"@, "team"@, "states"@, "nodes"@]);
    }
    let empty: Vec<JsonValue> = Vec::new();
    let states: &Vec<JsonValue> = match crate::json::get_path(response, nodes_path.as_slice()) {
        Option::Some(v) => match v.as_array() {
            Option::Some(items) => items,
            Option::None => &empty,
        },
        Option::None => &empty,
    };
    match find_first_node(states, NodeRule::StateNameWithId, state, Option::None) {
        Option::Some(j) => match node_id(&states[j]) {
            Option::Some(id) => Result::Ok(id),
            Option::None => unreached(),
        },
        Option::None => {
            let mut msg = String::from_str("State not found: ");
            msg.append(state);
            Result::Err(CliError::new(2, msg.as_str()))
        },
    }
}

/// The status collection inside the project-status query response.
pub open spec fn status_nodes(response: JsonValue) -> Seq<JsonValue> {
    match spec_get_path(response, seq!["data"@, "projectStatuses"@, "nodes"@]) {
        Option::Some(v) => match v {
            JsonValue::Arr(items) => items@,
            _ => Seq::empty(),
        },
        Option::None => Seq::empty(),
    }
}

/// The status node project-status resolution settles on: the first whose
/// type matches, else the first whose name matches.
pub open spec fn spec_status_pick(nodes: Seq<JsonValue>, status: Seq<char>) -> Option<JsonValue> {
    match first_node(nodes, NodeRule::StatusType, status, Option::None) {
        Option::Some(n) => Option::Some(n),
        Option::None => first_node(nodes, NodeRule::StatusName, status, Option::None),
    }
}

/// Resolve a project status: by status type first, then by name, both
/// case-insensitively.
pub fn resolve_project_status_from(response: &JsonValue, status: &str) -> (r: Result<
    String,
    CliError,
>)
    ensures
        ({
            let hit = match spec_status_pick(status_nodes(*response), status@) {
                Option::Some(n) => node_str(n, "id"@),
                Option::None => Option::<Seq<char>>::None,
            };
            &&& hit matches Option::Some(id) ==> (r matches Result::Ok(s) && s@ == id)
            &&& hit is None ==> (r matches Result::Err(e) && e.code == 2 && e.message@
                == "Project status not found: "@ + status@)
        }),
{
    let nodes_path: Vec<&str> = vec!["data", "projectStatuses", "nodes"];
    proof {
        assert(path_view(nodes_path@) =~= seq!["data"@, "projectStatuses"@, "nodes"@]);
    }
    let empty: Vec<JsonValue> = Vec::new();
    let statuses: &Vec<JsonValue> = match crate::json::get_path(response, nodes_path.as_slice()) {
        Option::Some(v) => match v.as_array() {
            Option::Some(items) => items,
            Option::None => &empty,
        },
        Option::None => &empty,
    };
    let found = match find_first_node(statuses, NodeRule::StatusType, status, Option::None) {
        Option::Some(j) => Option::Some(j),
        Option::None => find_first_node(statuses, NodeRule::StatusName, status, Option::None),
    };
    let id_opt = match found {
        Option::Some(j) => node_id(&statuses[j]),
        Option::None => Option::None,
    };
    match id_opt {
        Option::Some(id) => Result::Ok(id),
        Option::None => {
            let mut msg = String::from_str("Project status not found: ");
            msg.append(status);
            Result::Err(CliError::new(2, msg.as_str()))
        },
    }
}

/// The label collection inside a team's label query response.
pub open spec fn team_label_nodes(response: JsonValue) -> Seq<JsonValue> {
    match spec_get_path(response, seq!["data"@, "team"@, "labels"@, "nodes"@]) {
        Option::Some(v) => match v {
            JsonValue::Arr(items) => items@,
            _ => Seq::empty(),
        },
        Option::None => Seq::empty(),
    }
}

/// The views of a string sequence.
pub open spec fn string_views(s: Seq<String>) -> Seq<Seq<char>> {
    s.map_values(|x: String| x@)
}

/// What a batch of label inputs resolves to within a team's labels:
/// each input in order passes through on canonical shape or matches by
/// name; the first input that does neither fails the batch.
pub open spec fn spec_resolve_labels(avail: Seq<JsonValue>, labels: Seq<String>) -> Result<
    Seq<Seq<char>>,
    Seq<char>,
>
    decreases labels.len(),
{
    if labels.len() == 0 {
        Result::Ok(Seq::empty())
    } else {
        let head = labels[0]@;
        let id = if uuid_shape(head) {
            Option::Some(head)
        } else {
            match first_node(avail, NodeRule::LabelName, head, Option::None) {
                Option::Some(n) => node_str(n, "id"@),
                Option::None => Option::None,
            }
        };
        match id {
            Option::Some(i) => match spec_resolve_labels(avail, labels.drop_first()) {
                Result::Ok(rest) => Result::Ok(seq![i] + rest),
                Result::Err(e) => Result::Err(e),
            },
            Option::None => Result::Err(head),
        }
    }
}

/// Resolve each of `labels` within a team's label listing: canonical
/// shapes pass through, names match case-insensitively, and the first
/// label that resolves to nothing fails the whole batch, named in the
/// error.
#[verifier::loop_isolation(false)]
pub fn resolve_labels_from(response: &JsonValue, labels: &[String]) -> (r: Result<
    Vec<String>,
    CliError,
>)
    ensures
        match spec_resolve_labels(team_label_nodes(*response), labels@) {
            Result::Ok(ids) => r matches Result::Ok(v) && string_views(v@) == ids,
            Result::Err(lbl) => r matches Result::Err(e) && e.code == 2 && e.message@
                == "Label not found: "@ + lbl && e.details is None,
        },
{
    let nodes_path: Vec<&str> = vec!["data", "team", "labels", "nodes"];
    proof {
        assert(path_view(nodes_path@) =~= seq!["data"@, "team"@, "labels"@, "nodes"@]);
    }
    let empty: Vec<JsonValue> = Vec::new();
    let available: &Vec<JsonValue> = match crate::json::get_path(response, nodes_path.as_slice()) {
        Option::Some(v) => match v.as_array() {
            Option::Some(items) => items,
            Option::None => &empty,
        },
        Option::None => &empty,
    };
    let ghost av = available@;
    proof {
        assert(av == team_label_nodes(*response));
    }
    let mut resolved: Vec<String> = Vec::new();
    let mut i: usize = 0;
    proof {
        assert(labels@.skip(0) =~= labels@);
        assert(string_views(resolved@) =~= Seq::<Seq<char>>::empty());
    }
    while i < labels.len()
        invariant
            i <= labels.len(),
            available@ == av,
            match spec_resolve_labels(av, labels@.skip(i as int)) {
                Result::Ok(rest) => spec_resolve_labels(av, labels@) == Result::<
                    Seq<Seq<char>>,
                    Seq<char>,
                >::Ok(string_views(resolved@) + rest),
                Result::Err(e) => spec_resolve_labels(av, labels@) == Result::<
                    Seq<Seq<char>>,
                    Seq<char>,
                >::Err(e),
            },
        decreases labels.len() - i,
    {
        proof {
            assert(labels@.skip(i as int)[0] == labels@[i as int]);
            assert(labels@.skip(i as int).drop_first() =~= labels@.skip(i + 1));
        }
        let label: &String = &labels[i];
        let id_opt: Option<String> = if crate::text::is_uuid(label.as_str()) {
            Option::Some(label.clone())
        } else {
            match find_first_node(available, NodeRule::LabelName, label.as_str(), Option::None) {
                Option::Some(j) => node_id(&available[j]),
                Option::None => Option::None,
            }
        };
        match id_opt {
            Option::Some(id) => {
                let ghost views_before = string_views(resolved@);
                let ghost idv = id@;
                resolved.push(id);
                i = i + 1;
                proof {
                    assert(string_views(resolved@) =~= views_before + seq![idv]);
                    match spec_resolve_labels(av, labels@.skip(i as int)) {
                        Result::Ok(rest) => {
                            assert((views_before + seq![idv]) + rest =~= views_before + (seq![idv]
                                + rest));
                        },
                        Result::Err(_) => {},
                    }
                }
            },
            Option::None => {
                let mut msg = String::from_str("Label not found: ");
                msg.append(label.as_str());
                return Result::Err(CliError::new(2, msg.as_str()));
            },
        }
    }
    proof {
        assert(labels@.skip(labels@.len() as int) =~= Seq::<String>::empty());
        assert(string_views(resolved@) + Seq::<Seq<char>>::empty() =~= string_views(resolved@));
    }
    Result::Ok(resolved)
}

} // verus!
