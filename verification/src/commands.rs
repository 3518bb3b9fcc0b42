//! The command surface the library models, and the pure input
//! normalization the command handlers lean on.
//!
//! The enums here are the plain data model of the command line; the
//! argument-parsing layer outside the crate holds mirror types with its
//! own derives and converts into these. The normalization functions turn
//! loosely-written user input (statuses, health values, relation words)
//! into the exact tokens the remote service accepts, rejecting anything
//! else with a message that lists the accepted spellings.

use vstd::prelude::*;

use crate::error::CliError;
use crate::json::JsonValue;
use crate::text::{digits_value, is_digit, lower_code, seq_ieq};

verus! {

use vstd::string::StringExecFns;

/// ASCII whitespace, as reminder-delay input is trimmed of it.
pub open spec fn is_space(c: char) -> bool {
    c == ' ' || c == '\t' || c == '\n' || c == '\r'
}

/// `s` with leading and trailing ASCII whitespace removed.
pub open spec fn trimmed(s: Seq<char>) -> Seq<char>
    decreases s.len(),
{
    if s.len() == 0 {
        s
    } else if is_space(s[0]) {
        trimmed(s.drop_first())
    } else if is_space(s.last()) {
        trimmed(s.drop_last())
    } else {
        s
    }
}

/// One factor of the delay grammar: days, hours or minutes.
pub open spec fn unit_factor(c: char) -> Option<int> {
    if lower_code(c) == 100 {
        Option::Some(1440int)
    } else if lower_code(c) == 104 {
        Option::Some(60int)
    } else if lower_code(c) == 109 {
        Option::Some(1int)
    } else {
        Option::None
    }
}

/// The minutes a delay string counts up to, scanning runs of digits
/// followed by a unit letter, with a bare trailing run read as minutes
/// (or dropped when it is too large to read). A unit whose count is zero
/// or too large to read, or any other character, spoils the whole
/// string.
pub open spec fn reminder_minutes(s: Seq<char>, cur: Seq<char>, total: int) -> Option<int>
    decreases s.len(),
{
    if s.len() == 0 {
        Option::Some(
            total + if digits_value(cur) <= i64::MAX {
                digits_value(cur)
            } else {
                0int
            },
        )
    } else if is_digit(s[0]) {
        reminder_minutes(s.drop_first(), cur.push(s[0]), total)
    } else {
        match unit_factor(s[0]) {
            Option::Some(factor) => {
                let count = digits_value(cur);
                if count == 0 || count > i64::MAX {
                    Option::None
                } else {
                    reminder_minutes(s.drop_first(), Seq::empty(), total + count * factor)
                }
            },
            Option::None => Option::None,
        }
    }
}

proof fn lemma_reminder_total_grows(s: Seq<char>, cur: Seq<char>, total: int)
    requires
        crate::text::all_digits(cur),
        reminder_minutes(s, cur, total) is Some,
    ensures
        reminder_minutes(s, cur, total) matches Option::Some(t) && t >= total,
    decreases s.len(),
{
    crate::text::lemma_digits_value_nonneg(cur);
    if s.len() == 0 {
    } else if is_digit(s[0]) {
        assert(cur.push(s[0]).drop_last() =~= cur);
        assert(crate::text::all_digits(cur.push(s[0])));
        lemma_reminder_total_grows(s.drop_first(), cur.push(s[0]), total);
    } else {
        match unit_factor(s[0]) {
            Option::Some(factor) => {
                let count = digits_value(cur);
                if 0 < count <= i64::MAX {
                    assert(count * factor >= 0) by (nonlinear_arith)
                        requires
                            count >= 0,
                            factor >= 1,
                    ;
                    lemma_reminder_total_grows(s.drop_first(), Seq::empty(), total + count * factor);
                }
            },
            Option::None => {},
        }
    }
}

/// Once the running total has left the representable range, any total
/// the scan still reaches is out of it too.
proof fn lemma_reminder_large_total(s: Seq<char>, total: int)
    requires
        total > i64::MAX,
    ensures
        match reminder_minutes(s, Seq::empty(), total) {
            Option::Some(t) => t > i64::MAX,
            Option::None => true,
        },
{
    if reminder_minutes(s, Seq::empty(), total) is Some {
        lemma_reminder_total_grows(s, Seq::empty(), total);
    }
}

/// The rejection every malformed delay gets, naming the input.
fn invalid_delay(input: &str) -> (e: CliError)
    ensures
        e.code == 1,
        e.message@ == "Invalid delay '"@ + input@ + "'"@,
        e.details is None,
        e.retry_after is None,
{
    let mut msg = String::from_str("Invalid delay '");
    msg.append(input);
    msg.append("'");
    CliError::new(1, msg.as_str())
}

fn is_space_exec(c: char) -> (r: bool)
    ensures
        r == is_space(c),
{
    c == ' ' || c == '\t' || c == '\n' || c == '\r'
}

/// Parse a reminder delay such as a day/hour/minute expression into a
/// whole number of minutes: digit runs with a unit letter add up, a bare
/// trailing run counts as minutes, and the total must come out positive
/// and representable.
#[verifier::loop_isolation(false)]
#[verifier::rlimit(60)]
pub fn parse_reminder_delay(input: &str) -> (r: Result<i64, CliError>)
    ensures
        ({
            let cleaned = trimmed(input@);
            if cleaned.len() == 0 {
                r matches Result::Err(e) && e.code == 1 && e.message@ == "Invalid delay: empty"@
            } else {
                match reminder_minutes(cleaned, Seq::empty(), 0) {
                    Option::Some(t) => {
                        if 0 < t <= i64::MAX {
                            r matches Result::Ok(minutes) && minutes == t
                        } else {
                            r matches Result::Err(e) && e.code == 1 && e.message@
                                == "Invalid delay '"@ + input@ + "'"@
                        }
                    },
                    Option::None => r matches Result::Err(e) && e.code == 1 && e.message@
                        == "Invalid delay '"@ + input@ + "'"@,
                }
            }
        }),
{
    let chars = crate::text::chars_vec(input);
    // Trim ASCII whitespace.
    let mut lo: usize = 0;
    let mut hi: usize = chars.len();
    proof {
        assert(input@.subrange(0, chars@.len() as int) =~= input@);
    }
    while lo < hi && is_space_exec(chars[lo])
        invariant
            lo <= hi <= chars.len(),
            trimmed(input@) == trimmed(input@.subrange(lo as int, hi as int)),
        decreases hi - lo,
    {
        proof {
            assert(input@.subrange(lo as int, hi as int).drop_first() =~= input@.subrange(
                lo + 1,
                hi as int,
            ));
        }
        lo = lo + 1;
    }
    while lo < hi && is_space_exec(chars[hi - 1])
        invariant
            lo <= hi <= chars.len(),
            trimmed(input@) == trimmed(input@.subrange(lo as int, hi as int)),
            lo < hi ==> !is_space(input@[lo as int]),
        decreases hi - lo,
    {
        proof {
            assert(input@.subrange(lo as int, hi as int).drop_last() =~= input@.subrange(
                lo as int,
                hi - 1,
            ));
        }
        hi = hi - 1;
    }
    let ghost cleaned = input@.subrange(lo as int, hi as int);
    proof {
        assert(trimmed(cleaned) =~= cleaned);
        assert(trimmed(input@) == cleaned);
    }
    if lo == hi {
        return Result::Err(CliError::new(1, "Invalid delay: empty"));
    }
    let mut total: i64 = 0;
    let mut count: i64 = 0;
    let mut oversized = false;
    let ghost mut cur: Seq<char> = Seq::empty();
    let mut i: usize = lo;
    while i < hi
        invariant
            lo <= i <= hi <= chars.len(),
            crate::text::all_digits(cur),
            0 <= count,
            0 <= total,
            !oversized ==> count as int == digits_value(cur),
            oversized ==> digits_value(cur) > i64::MAX,
            reminder_minutes(cleaned, Seq::empty(), 0) == reminder_minutes(
                input@.subrange(i as int, hi as int),
                cur,
                total as int,
            ),
        decreases hi - i,
    {
        proof {
            assert(input@.subrange(i as int, hi as int)[0] == input@[i as int]);
            assert(input@.subrange(i as int, hi as int).drop_first() =~= input@.subrange(
                i + 1,
                hi as int,
            ));
        }
        let c = chars[i];
        let code = c as u32;
        if 48 <= code && code <= 57 {
            proof {
                assert(cur.push(c).drop_last() =~= cur);
                assert(crate::text::all_digits(cur.push(c)));
                crate::text::lemma_digits_value_nonneg(cur);
            }
            if !oversized {
                let d = (code - 48) as i64;
                let next = match count.checked_mul(10) {
                    Option::Some(v) => v.checked_add(d),
                    Option::None => Option::None,
                };
                match next {
                    Option::Some(v) => {
                        count = v;
                    },
                    Option::None => {
                        oversized = true;
                    },
                }
            } else {
                proof {
                    assert(digits_value(cur.push(c)) == digits_value(cur) * 10
                        + crate::text::digit_val(c));
                    assert(digits_value(cur) * 10 >= digits_value(cur)) by (nonlinear_arith)
                        requires
                            digits_value(cur) >= 0,
                    ;
                }
            }
            proof {
                cur = cur.push(c);
            }
        } else {
            let factor: i64 = if code == 100 || code == 68 {
                1440
            } else if code == 104 || code == 72 {
                60
            } else if code == 109 || code == 77 {
                1
            } else {
                return Result::Err(invalid_delay(input));
            };
            if oversized || count == 0 {
                return Result::Err(invalid_delay(input));
            }
            let ghost exact = total as int + count as int * factor as int;
            proof {
                assert(count as int * factor as int >= count) by (nonlinear_arith)
                    requires
                        count >= 1,
                        factor >= 1,
                ;
            }
            let add = match count.checked_mul(factor) {
                Option::Some(v) => v,
                Option::None => {
                    proof {
                        lemma_reminder_large_total(input@.subrange(i + 1, hi as int), exact);
                    }
                    return Result::Err(invalid_delay(input));
                },
            };
            match total.checked_add(add) {
                Option::Some(v) => {
                    total = v;
                },
                Option::None => {
                    proof {
                        lemma_reminder_large_total(input@.subrange(i + 1, hi as int), exact);
                    }
                    return Result::Err(invalid_delay(input));
                },
            }
            count = 0;
            proof {
                cur = Seq::empty();
            }
        }
        i = i + 1;
    }
    proof {
        assert(input@.subrange(hi as int, hi as int) =~= Seq::<char>::empty());
        crate::text::lemma_digits_value_nonneg(cur);
    }
    let trailing: i64 = if oversized {
        0
    } else {
        count
    };
    let final_total = match total.checked_add(trailing) {
        Option::Some(v) => v,
        Option::None => {
            return Result::Err(invalid_delay(input));
        },
    };
    if final_total <= 0 {
        return Result::Err(invalid_delay(input));
    }
    Result::Ok(final_total)
}

/// Time-tracking commands.
#[derive(Debug, PartialEq)]
pub enum TimeCommands {
    /// Log time spent on an issue.
    Log { issue: String, duration: String },
    /// List time entries, optionally for one issue.
    List { issue: Option<String> },
}

/// User listing commands.
#[derive(Debug, PartialEq)]
pub enum UserCommands {
    /// List the workspace's users, optionally filtered by team.
    List { team: Option<String> },
    /// Show the current user.
    Me,
}

/// Issue-relation commands.
#[derive(Debug, PartialEq)]
pub enum RelationCommands {
    /// List relations for an issue.
    List { issue: String },
    /// Add a relation between two issues.
    Add { issue: String, relation: String, target: String },
    /// Remove a relation between two issues.
    Remove { issue: String, relation: String, target: String },
    /// List child issues of a parent.
    Children { issue: String },
}

/// Cycle commands.
#[derive(Debug, PartialEq)]
pub enum CycleCommands {
    /// List a team's cycles.
    List { team: String, all: bool },
    /// Show a team's current cycle.
    Current { team: String },
    /// Create a cycle.
    Create {
        team: String,
        name: Option<String>,
        description: Option<String>,
        starts_at: String,
        ends_at: String,
    },
}

/// Search commands.
#[derive(Debug, PartialEq)]
pub enum SearchCommands {
    /// Search issues by query string.
    Issues { query: String, archived: bool },
    /// Search projects by query string.
    Projects { query: String, archived: bool },
    /// Search documents by query string.
    Documents { query: String, archived: bool, include_comments: bool, team: Option<String> },
    /// Semantic search across entity kinds.
    Semantic { query: String, types: Vec<String>, max_results: Option<i32>, archived: bool },
}

/// The due-date windows an issue listing can be filtered by.
#[derive(Debug, Clone, Copy, PartialEq, Eq, Structural)]
pub enum DueFilter {
    Overdue,
    Today,
    ThisWeek,
    NextWeek,
    NoDue,
}

/// The relation words the command line accepts.
#[derive(Debug, Clone, Copy, PartialEq, Eq, Structural)]
pub enum RelationKind {
    Blocks,
    BlockedBy,
    Duplicate,
    DuplicateOf,
    Related,
}

/// Read a relation word, case-insensitively and in each accepted
/// spelling.
pub fn parse_relation_kind(value: &str) -> (r: Result<RelationKind, CliError>)
    ensures
        ({
            if seq_ieq(value@, "blocks"@) {
                r == Result::<RelationKind, CliError>::Ok(RelationKind::Blocks)
            } else if seq_ieq(value@, "blocked-by"@) || seq_ieq(value@, "blocked_by"@) {
                r == Result::<RelationKind, CliError>::Ok(RelationKind::BlockedBy)
            } else if seq_ieq(value@, "duplicates"@) {
                r == Result::<RelationKind, CliError>::Ok(RelationKind::Duplicate)
            } else if seq_ieq(value@, "duplicate-of"@) || seq_ieq(value@, "duplicate_of"@) {
                r == Result::<RelationKind, CliError>::Ok(RelationKind::DuplicateOf)
            } else if seq_ieq(value@, "relates-to"@) || seq_ieq(value@, "related"@) || seq_ieq(
                value@,
                "relates_to"@,
            ) {
                r == Result::<RelationKind, CliError>::Ok(RelationKind::Related)
            } else {
                r matches Result::Err(e) && e.code == 1 && e.message@ == "Invalid relation '"@
                    + value@
                    + "'. Use blocks, blocked-by, duplicates, duplicate-of, or relates-to."@
            }
        }),
{
    if crate::text::str_ieq(value, "blocks") {
        Result::Ok(RelationKind::Blocks)
    } else if crate::text::str_ieq(value, "blocked-by") || crate::text::str_ieq(
        value,
        "blocked_by",
    ) {
        Result::Ok(RelationKind::BlockedBy)
    } else if crate::text::str_ieq(value, "duplicates") {
        Result::Ok(RelationKind::Duplicate)
    } else if crate::text::str_ieq(value, "duplicate-of") || crate::text::str_ieq(
        value,
        "duplicate_of",
    ) {
        Result::Ok(RelationKind::DuplicateOf)
    } else if crate::text::str_ieq(value, "relates-to") || crate::text::str_ieq(value, "related")
        || crate::text::str_ieq(value, "relates_to") {
        Result::Ok(RelationKind::Related)
    } else {
        let mut msg = String::from_str("Invalid relation '");
        msg.append(value);
        msg.append("'. Use blocks, blocked-by, duplicates, duplicate-of, or relates-to.");
        Result::Err(CliError::new(1, msg.as_str()))
    }
}

/// The wire token of a relation word: both directions of a relation
/// share one type.
pub fn relation_kind_to_type(kind: RelationKind) -> (r: &'static str)
    ensures
        kind == RelationKind::Blocks || kind == RelationKind::BlockedBy ==> r@ == "blocks"@,
        kind == RelationKind::Duplicate || kind == RelationKind::DuplicateOf ==> r@
            == "duplicate"@,
        kind == RelationKind::Related ==> r@ == "related"@,
{
    match kind {
        RelationKind::Blocks => "blocks",
        RelationKind::BlockedBy => "blocks",
        RelationKind::Duplicate => "duplicate",
        RelationKind::DuplicateOf => "duplicate",
        RelationKind::Related => "related",
    }
}

/// Render a stored relation type for display, flipping the word for the
/// inverse direction; unknown types pass through unchanged.
pub fn format_relation_type(kind: &str, inverse: bool) -> (r: String)
    ensures
        ({
            if kind@ == "blocks"@ {
                r@ == if inverse {
                    "blocked-by"@
                } else {
                    "blocks"@
                }
            } else if kind@ == "duplicate"@ {
                r@ == if inverse {
                    "duplicate-of"@
                } else {
                    "duplicates"@
                }
            } else if kind@ == "related"@ {
                r@ == "relates-to"@
            } else {
                r@ == kind@
            }
        }),
{
    if crate::text::str_eq(kind, "blocks") {
        if inverse {
            String::from_str("blocked-by")
        } else {
            String::from_str("blocks")
        }
    } else if crate::text::str_eq(kind, "duplicate") {
        if inverse {
            String::from_str("duplicate-of")
        } else {
            String::from_str("duplicates")
        }
    } else if crate::text::str_eq(kind, "related") {
        String::from_str("relates-to")
    } else {
        kind.to_owned()
    }
}

/// What `str::to_lowercase` returns: a function of the characters alone.
pub uninterp spec fn lower_of(s: Seq<char>) -> Seq<char>;

/// Relies on str::to_lowercase: the result depends on the characters
/// alone, and an empty string stays empty.
#[verifier::external_body]
fn lowercase(s: &str) -> (r: String)
    ensures
        r@ == lower_of(s@),
        s@.len() == 0 ==> r@.len() == 0,
{
    s.to_lowercase()
}

/// Whether `char::is_alphanumeric` holds: a fixed character-class table.
pub uninterp spec fn alnum_of(c: char) -> bool;

/// Relies on char::is_alphanumeric: a fixed table lookup on the
/// character alone.
#[verifier::external_body]
fn char_is_alphanumeric(c: char) -> (r: bool)
    ensures
        r == alnum_of(c),
{
    c.is_alphanumeric()
}

/// Each character kept when alphanumeric, turned into a dash otherwise.
pub open spec fn dash_mapped(s: Seq<char>) -> Seq<char> {
    s.map_values(
        |c: char|
            if alnum_of(c) {
                c
            } else {
                '-'
            },
    )
}

/// One step of slug building: non-dashes are kept, and a dash is kept
/// only as the single separator after something already written.
pub open spec fn slug_append(acc: Seq<char>, c: char) -> Seq<char> {
    if c != '-' {
        acc.push(c)
    } else if acc.len() > 0 && acc.last() != '-' {
        acc.push('-')
    } else {
        acc
    }
}

/// The slug characters of `s`: dash runs collapsed and leading dashes
/// dropped, as splitting on dashes, dropping empties and re-joining
/// would leave them.
pub open spec fn squeezed(s: Seq<char>, acc: Seq<char>) -> Seq<char>
    decreases s.len(),
{
    if s.len() == 0 {
        acc
    } else {
        squeezed(s.drop_first(), slug_append(acc, s[0]))
    }
}

/// `s` with every trailing dash removed.
pub open spec fn drop_trailing_dashes(s: Seq<char>) -> Seq<char>
    decreases s.len(),
{
    if s.len() > 0 && s.last() == '-' {
        drop_trailing_dashes(s.drop_last())
    } else {
        s
    }
}

/// The bytes one character takes in its wire encoding.
pub open spec fn utf8_len_char(c: char) -> int {
    if (c as u32) < 0x80 {
        1
    } else if (c as u32) < 0x800 {
        2
    } else if (c as u32) < 0x10000 {
        3
    } else {
        4
    }
}

/// The bytes a character sequence takes in its wire encoding.
pub open spec fn byte_len(s: Seq<char>) -> int
    decreases s.len(),
{
    if s.len() == 0 {
        0
    } else {
        byte_len(s.drop_last()) + utf8_len_char(s.last())
    }
}

/// The longest prefix of `s` that fits in `budget` bytes, taken greedily
/// whole characters at a time.
pub open spec fn byte_prefix(s: Seq<char>, budget: int) -> Seq<char>
    decreases s.len(),
{
    if s.len() == 0 {
        s
    } else if utf8_len_char(s[0]) <= budget {
        seq![s[0]] + byte_prefix(s.drop_first(), budget - utf8_len_char(s[0]))
    } else {
        Seq::empty()
    }
}

/// The slug a title turns into: lowercased, alphanumeric runs joined by
/// single dashes, capped at fifty wire bytes (cut at a character
/// boundary), with no trailing dash left.
pub open spec fn branch_slug(title: Seq<char>) -> Seq<char> {
    drop_trailing_dashes(
        byte_prefix(
            drop_trailing_dashes(squeezed(dash_mapped(lower_of(title)), Seq::empty())),
            50,
        ),
    )
}

proof fn lemma_squeezed_snoc(s: Seq<char>, c: char, acc: Seq<char>)
    ensures
        squeezed(s.push(c), acc) == slug_append(squeezed(s, acc), c),
    decreases s.len(),
{
    if s.len() == 0 {
        assert(s.push(c).drop_first() =~= Seq::<char>::empty());
        assert(s.push(c)[0] == c);
        assert(squeezed(Seq::<char>::empty(), slug_append(acc, c)) == slug_append(acc, c));
    } else {
        assert(s.push(c).drop_first() =~= s.drop_first().push(c));
        assert(s.push(c)[0] == s[0]);
        lemma_squeezed_snoc(s.drop_first(), c, slug_append(acc, s[0]));
    }
}

proof fn lemma_drop_trailing_take(s: Seq<char>, end: int)
    requires
        0 <= end <= s.len(),
        forall|k: int| end <= k < s.len() ==> s[k] == '-',
        end > 0 ==> s[end - 1] != '-',
    ensures
        drop_trailing_dashes(s) == s.take(end),
    decreases s.len(),
{
    if s.len() == end {
        assert(s.take(end) =~= s);
    } else {
        assert(s.last() == '-');
        lemma_drop_trailing_take(s.drop_last(), end);
        assert(s.drop_last().take(end) =~= s.take(end));
    }
}

proof fn lemma_byte_len_snoc(s: Seq<char>, k: int)
    requires
        0 <= k < s.len(),
    ensures
        byte_len(s.take(k + 1)) == byte_len(s.take(k)) + utf8_len_char(s[k]),
{
    assert(s.take(k + 1).drop_last() =~= s.take(k));
    assert(s.take(k + 1).last() == s[k]);
}

proof fn lemma_byte_len_mono(s: Seq<char>, k: int, m: int)
    requires
        0 <= k <= m <= s.len(),
    ensures
        byte_len(s.take(k)) <= byte_len(s.take(m)),
    decreases m - k,
{
    if k < m {
        lemma_byte_len_mono(s, k, m - 1);
        lemma_byte_len_snoc(s, m - 1);
    }
}

proof fn lemma_byte_len_shift(s: Seq<char>, k: int)
    requires
        1 <= k <= s.len(),
    ensures
        byte_len(s.take(k)) == utf8_len_char(s[0]) + byte_len(s.drop_first().take(k - 1)),
    decreases k,
{
    if k == 1 {
        assert(s.take(1).drop_last() =~= s.take(0));
        assert(s.take(0) =~= Seq::<char>::empty());
        assert(s.take(1).last() == s[0]);
        assert(s.drop_first().take(0) =~= Seq::<char>::empty());
    } else {
        lemma_byte_len_shift(s, k - 1);
        lemma_byte_len_snoc(s, k - 1);
        let df = s.drop_first();
        assert(df.take(k - 1).drop_last() =~= df.take(k - 2));
        assert(df.take(k - 1).last() == df[k - 2]);
        assert(df[k - 2] == s[k - 1]);
    }
}

proof fn lemma_byte_prefix_take(s: Seq<char>, budget: int, m: int)
    requires
        0 <= m <= s.len(),
        budget >= 0,
        byte_len(s.take(m)) <= budget,
        m < s.len() ==> byte_len(s.take(m + 1)) > budget,
    ensures
        byte_prefix(s, budget) == s.take(m),
    decreases s.len(),
{
    if s.len() == 0 {
        assert(s.take(0) =~= s);
    } else if m == 0 {
        assert(s.take(1).drop_last() =~= s.take(0));
        assert(s.take(0) =~= Seq::<char>::empty());
        assert(s.take(1).last() == s[0]);
        assert(byte_len(s.take(1)) == utf8_len_char(s[0]));
        assert(byte_prefix(s, budget) =~= s.take(0));
    } else {
        lemma_byte_len_mono(s, 1, m);
        assert(s.take(1).drop_last() =~= s.take(0));
        assert(s.take(0) =~= Seq::<char>::empty());
        assert(s.take(1).last() == s[0]);
        assert(byte_len(Seq::<char>::empty()) == 0);
        assert(byte_len(s.take(1)) == utf8_len_char(s[0]));
        assert(utf8_len_char(s[0]) <= budget);
        let df = s.drop_first();
        lemma_byte_len_shift(s, m);
        if m < s.len() {
            lemma_byte_len_shift(s, m + 1);
        }
        lemma_byte_prefix_take(df, budget - utf8_len_char(s[0]), m - 1);
        assert(seq![s[0]] + df.take(m - 1) =~= s.take(m));
    }
}

fn utf8_len_exec(c: char) -> (r: u64)
    ensures
        r as int == utf8_len_char(c),
{
    let n = c as u32;
    if n < 0x80 {
        1
    } else if n < 0x800 {
        2
    } else if n < 0x10000 {
        3
    } else {
        4
    }
}

/// `s` with every trailing dash removed.
#[verifier::loop_isolation(false)]
fn strip_trailing_dashes(s: &str) -> (r: String)
    ensures
        r@ == drop_trailing_dashes(s@),
{
    let chars = crate::text::chars_vec(s);
    let mut end = chars.len();
    while end > 0 && chars[end - 1] == '-'
        invariant
            chars@ == s@,
            end <= chars.len(),
            forall|k: int| end <= k < s@.len() ==> s@[k] == '-',
        decreases end,
    {
        end = end - 1;
    }
    proof {
        lemma_drop_trailing_take(s@, end as int);
    }
    s.substring_char(0, end).to_owned()
}

/// Build a branch name for an issue: the lowercased identifier, a
/// slash, and the title's slug — lowercased, every non-alphanumeric run
/// turned into a single dash, capped at fifty bytes on a whole-character
/// boundary, with no dash left trailing.
#[verifier::loop_isolation(false)]
#[verifier::rlimit(60)]
pub fn generate_branch_name(identifier: &str, title: &str) -> (r: String)
    ensures
        r@ == lower_of(identifier@) + "/"@ + branch_slug(title@),
{
    proof {
        reveal_strlit("-");
    }
    let lowered = lowercase(title);
    let lchars = crate::text::chars_vec(lowered.as_str());
    let n = lchars.len();
    // Map to dashes and collapse the runs in one pass.
    let mut slug = String::new();
    let mut started = false;
    let mut last_dash = false;
    let mut i: usize = 0;
    proof {
        assert(dash_mapped(lowered@.take(0)) =~= Seq::<char>::empty());
    }
    while i < n
        invariant
            lchars@ == lowered@,
            n == lchars.len(),
            i <= n,
            slug@ == squeezed(dash_mapped(lowered@.take(i as int)), Seq::empty()),
            started == (slug@.len() > 0),
            started ==> last_dash == (slug@.last() == '-'),
        decreases n - i,
    {
        let c = lchars[i];
        let ghost mapped = if alnum_of(c) {
            c
        } else {
            '-'
        };
        proof {
            lemma_squeezed_snoc(dash_mapped(lowered@.take(i as int)), mapped, Seq::empty());
            assert(dash_mapped(lowered@.take(i + 1)) =~= dash_mapped(
                lowered@.take(i as int),
            ).push(mapped));
        }
        let keeps = char_is_alphanumeric(c) && c != '-';
        if keeps {
            let piece = lowered.as_str().substring_char(i, i + 1);
            proof {
                assert(piece@ =~= seq![c]);
                assert(slug@.push(c) =~= slug@ + piece@);
            }
            slug.append(piece);
            started = true;
            last_dash = false;
        } else {
            if started && !last_dash {
                proof {
                    assert("-"@ =~= seq!['-']);
                    assert(slug@.push('-') =~= slug@ + "-"@);
                }
                slug.append("-");
                last_dash = true;
            }
        }
        i = i + 1;
    }
    proof {
        assert(lowered@.take(n as int) =~= lowered@);
    }
    // Drop any trailing dash the collapse left, cap at fifty bytes, and
    // drop the dash a mid-word cut can leave behind.
    let joined = strip_trailing_dashes(slug.as_str());
    let jchars = crate::text::chars_vec(joined.as_str());
    let jn = jchars.len();
    let mut m: usize = 0;
    let mut bytes: u64 = 0;
    let mut stop = false;
    proof {
        assert(joined@.take(0) =~= Seq::<char>::empty());
    }
    while m < jn && !stop
        invariant
            jchars@ == joined@,
            jn == jchars.len(),
            m <= jn,
            bytes <= 50,
            bytes as int == byte_len(joined@.take(m as int)),
            stop ==> m < jn && byte_len(joined@.take(m + 1)) > 50,
        decreases jn - m + if stop {
            0int
        } else {
            1int
        },
    {
        let l = utf8_len_exec(jchars[m]);
        proof {
            lemma_byte_len_snoc(joined@, m as int);
        }
        if bytes + l <= 50 {
            bytes = bytes + l;
            m = m + 1;
        } else {
            stop = true;
        }
    }
    proof {
        lemma_byte_prefix_take(joined@, 50, m as int);
    }
    let capped = joined.as_str().substring_char(0, m);
    let tail = strip_trailing_dashes(capped);
    let mut out = lowercase(identifier);
    out.append("/");
    out.append(tail.as_str());
    out
}

/// Where a relation word's endpoints go on the wire: the inverse words
/// store the relation from the target's side.
pub fn relation_endpoints(kind: RelationKind, issue_id: String, target_id: String) -> (r: (
    String,
    String,
))
    ensures
        kind == RelationKind::Blocks || kind == RelationKind::Duplicate || kind
            == RelationKind::Related ==> r == (issue_id, target_id),
        kind == RelationKind::BlockedBy || kind == RelationKind::DuplicateOf ==> r == (
            target_id,
            issue_id,
        ),
{
    match kind {
        RelationKind::Blocks | RelationKind::Duplicate | RelationKind::Related => (
            issue_id,
            target_id,
        ),
        RelationKind::BlockedBy | RelationKind::DuplicateOf => (target_id, issue_id),
    }
}

/// The id of the issue on the far side of a stored relation record,
/// under `other_key` (`relatedIssue` seen from the source, `issue` seen
/// from the target); absent fields read as empty.
pub open spec fn far_id_or_empty(n: JsonValue, other_key: Seq<char>) -> Seq<char> {
    match crate::json::spec_get(n, other_key) {
        Option::Some(other) => crate::api::node_str_or_empty(other, "id"@),
        Option::None => Seq::empty(),
    }
}

/// Whether one stored relation record is the one to remove: its type
/// word and the far issue's id both match exactly.
pub open spec fn relation_record_hit(
    n: JsonValue,
    rel_type: Seq<char>,
    other_key: Seq<char>,
    target: Seq<char>,
) -> bool {
    crate::api::node_str_or_empty(n, "type"@) == rel_type && far_id_or_empty(n, other_key)
        == target
}

/// The first matching relation record of a list.
pub open spec fn first_relation_hit(
    list: Seq<JsonValue>,
    rel_type: Seq<char>,
    other_key: Seq<char>,
    target: Seq<char>,
) -> Option<JsonValue>
    decreases list.len(),
{
    if list.len() == 0 {
        Option::None
    } else if relation_record_hit(list[0], rel_type, other_key, target) {
        Option::Some(list[0])
    } else {
        first_relation_hit(list.drop_first(), rel_type, other_key, target)
    }
}

/// What one list contributes: the id of its first matching record, or
/// nothing — also nothing when the matching record carries no id.
pub open spec fn pick_relation_id(
    list: Seq<JsonValue>,
    rel_type: Seq<char>,
    other_key: Seq<char>,
    target: Seq<char>,
) -> Option<Seq<char>> {
    match first_relation_hit(list, rel_type, other_key, target) {
        Option::Some(n) => crate::api::node_str(n, "id"@),
        Option::None => Option::None,
    }
}

/// The relation record to delete, given the records where this issue is
/// the source and those where it is the target: the direct words search
/// the source side, the inverse words the target side, and the
/// symmetric word falls back from one to the other.
pub open spec fn spec_find_relation_id(
    relations: Seq<JsonValue>,
    inverse: Seq<JsonValue>,
    kind: RelationKind,
    target: Seq<char>,
) -> Option<Seq<char>> {
    match kind {
        RelationKind::Blocks => pick_relation_id(relations, "blocks"@, "relatedIssue"@, target),
        RelationKind::Duplicate => pick_relation_id(
            relations,
            "duplicate"@,
            "relatedIssue"@,
            target,
        ),
        RelationKind::Related => match pick_relation_id(
            relations,
            "related"@,
            "relatedIssue"@,
            target,
        ) {
            Option::Some(id) => Option::Some(id),
            Option::None => pick_relation_id(inverse, "related"@, "issue"@, target),
        },
        RelationKind::BlockedBy => pick_relation_id(inverse, "blocks"@, "issue"@, target),
        RelationKind::DuplicateOf => pick_relation_id(inverse, "duplicate"@, "issue"@, target),
    }
}

fn relation_record_hit_exec(n: &JsonValue, rel_type: &str, other_key: &str, target: &str) -> (r:
    bool)
    ensures
        r == relation_record_hit(*n, rel_type@, other_key@, target@),
{
    proof {
        if rel_type@.len() == 0 {
            assert(rel_type@ =~= Seq::<char>::empty());
        }
        if target@.len() == 0 {
            assert(target@ =~= Seq::<char>::empty());
        }
    }
    let type_hit = match n.get("type") {
        Option::Some(f) => match f.as_str() {
            Option::Some(s) => crate::text::str_eq(s, rel_type),
            Option::None => rel_type.is_empty(),
        },
        Option::None => rel_type.is_empty(),
    };
    if !type_hit {
        return false;
    }
    match n.get(other_key) {
        Option::Some(other) => match other.get("id") {
            Option::Some(f) => match f.as_str() {
                Option::Some(s) => crate::text::str_eq(s, target),
                Option::None => target.is_empty(),
            },
            Option::None => target.is_empty(),
        },
        Option::None => target.is_empty(),
    }
}

proof fn lemma_relation_hit_found(
    list: Seq<JsonValue>,
    rel_type: Seq<char>,
    other_key: Seq<char>,
    target: Seq<char>,
    j: int,
)
    requires
        0 <= j < list.len(),
        forall|k: int| 0 <= k < j ==> !relation_record_hit(list[k], rel_type, other_key, target),
        relation_record_hit(list[j], rel_type, other_key, target),
    ensures
        first_relation_hit(list, rel_type, other_key, target) == Option::Some(list[j]),
    decreases j,
{
    if j > 0 {
        lemma_relation_hit_found(list.drop_first(), rel_type, other_key, target, j - 1);
    }
}

proof fn lemma_relation_hit_missing(
    list: Seq<JsonValue>,
    rel_type: Seq<char>,
    other_key: Seq<char>,
    target: Seq<char>,
)
    requires
        forall|k: int|
            0 <= k < list.len() ==> !relation_record_hit(list[k], rel_type, other_key, target),
    ensures
        first_relation_hit(list, rel_type, other_key, target) is None,
    decreases list.len(),
{
    if list.len() > 0 {
        lemma_relation_hit_missing(list.drop_first(), rel_type, other_key, target);
    }
}

#[verifier::loop_isolation(false)]
fn scan_relation_id(list: &Vec<JsonValue>, rel_type: &str, other_key: &str, target: &str) -> (r:
    Option<String>)
    ensures
        match pick_relation_id(list@, rel_type@, other_key@, target@) {
            Option::Some(id) => r matches Option::Some(s) && s@ == id,
            Option::None => r is None,
        },
{
    let mut j: usize = 0;
    while j < list.len()
        invariant
            j <= list.len(),
            forall|k: int|
                0 <= k < j ==> !relation_record_hit(list@[k], rel_type@, other_key@, target@),
        decreases list.len() - j,
    {
        if relation_record_hit_exec(&list[j], rel_type, other_key, target) {
            proof {
                lemma_relation_hit_found(list@, rel_type@, other_key@, target@, j as int);
            }
            return match list[j].get("id") {
                Option::Some(f) => match f.as_str() {
                    Option::Some(s) => Option::Some(s.to_owned()),
                    Option::None => Option::None,
                },
                Option::None => Option::None,
            };
        }
        j = j + 1;
    }
    proof {
        lemma_relation_hit_missing(list@, rel_type@, other_key@, target@);
    }
    Option::None
}

/// Find the stored relation record a remove call is to delete, scanning
/// this issue's outgoing records and the records pointing at it.
pub fn find_relation_id(
    relations: &Vec<JsonValue>,
    inverse: &Vec<JsonValue>,
    kind: RelationKind,
    target_id: &str,
) -> (r: Option<String>)
    ensures
        match spec_find_relation_id(relations@, inverse@, kind, target_id@) {
            Option::Some(id) => r matches Option::Some(s) && s@ == id,
            Option::None => r is None,
        },
{
    match kind {
        RelationKind::Blocks => scan_relation_id(relations, "blocks", "relatedIssue", target_id),
        RelationKind::Duplicate => scan_relation_id(
            relations,
            "duplicate",
            "relatedIssue",
            target_id,
        ),
        RelationKind::Related => {
            match scan_relation_id(relations, "related", "relatedIssue", target_id) {
                Option::Some(id) => Option::Some(id),
                Option::None => scan_relation_id(inverse, "related", "issue", target_id),
            }
        },
        RelationKind::BlockedBy => scan_relation_id(inverse, "blocks", "issue", target_id),
        RelationKind::DuplicateOf => scan_relation_id(inverse, "duplicate", "issue", target_id),
    }
}

/// Read an initiative status word into its canonical capitalized form.
pub fn normalize_initiative_status(status: &str) -> (r: Result<String, CliError>)
    ensures
        ({
            if seq_ieq(status@, "planned"@) {
                r matches Result::Ok(s) && s@ == "Planned"@
            } else if seq_ieq(status@, "active"@) {
                r matches Result::Ok(s) && s@ == "Active"@
            } else if seq_ieq(status@, "completed"@) {
                r matches Result::Ok(s) && s@ == "Completed"@
            } else {
                r matches Result::Err(e) && e.code == 1 && e.message@ == "Invalid status '"@
                    + status@ + "'. Use planned, active, or completed."@
            }
        }),
{
    if crate::text::str_ieq(status, "planned") {
        Result::Ok(String::from_str("Planned"))
    } else if crate::text::str_ieq(status, "active") {
        Result::Ok(String::from_str("Active"))
    } else if crate::text::str_ieq(status, "completed") {
        Result::Ok(String::from_str("Completed"))
    } else {
        let mut msg = String::from_str("Invalid status '");
        msg.append(status);
        msg.append("'. Use planned, active, or completed.");
        Result::Err(CliError::new(1, msg.as_str()))
    }
}

/// Read a project health word, in each accepted spelling, into the wire
/// token.
pub fn normalize_project_health(value: &str) -> (r: Result<&'static str, CliError>)
    ensures
        ({
            if seq_ieq(value@, "ontrack"@) || seq_ieq(value@, "on-track"@) || seq_ieq(
                value@,
                "on_track"@,
            ) {
                r matches Result::Ok(s) && s@ == "onTrack"@
            } else if seq_ieq(value@, "atrisk"@) || seq_ieq(value@, "at-risk"@) || seq_ieq(
                value@,
                "at_risk"@,
            ) {
                r matches Result::Ok(s) && s@ == "atRisk"@
            } else if seq_ieq(value@, "offtrack"@) || seq_ieq(value@, "off-track"@) || seq_ieq(
                value@,
                "off_track"@,
            ) {
                r matches Result::Ok(s) && s@ == "offTrack"@
            } else {
                r matches Result::Err(e) && e.code == 1 && e.message@ == "Invalid health '"@
                    + value@ + "'. Use onTrack, atRisk, or offTrack."@
            }
        }),
{
    if crate::text::str_ieq(value, "ontrack") || crate::text::str_ieq(value, "on-track")
        || crate::text::str_ieq(value, "on_track") {
        Result::Ok("onTrack")
    } else if crate::text::str_ieq(value, "atrisk") || crate::text::str_ieq(value, "at-risk")
        || crate::text::str_ieq(value, "at_risk") {
        Result::Ok("atRisk")
    } else if crate::text::str_ieq(value, "offtrack") || crate::text::str_ieq(value, "off-track")
        || crate::text::str_ieq(value, "off_track") {
        Result::Ok("offTrack")
    } else {
        let mut msg = String::from_str("Invalid health '");
        msg.append(value);
        msg.append("'. Use onTrack, atRisk, or offTrack.");
        Result::Err(CliError::new(1, msg.as_str()))
    }
}

/// Read a workflow state type word into the wire token; both spellings
/// of cancellation are accepted.
pub fn normalize_state_type(value: &str) -> (r: Result<&'static str, CliError>)
    ensures
        ({
            if seq_ieq(value@, "backlog"@) {
                r matches Result::Ok(s) && s@ == "backlog"@
            } else if seq_ieq(value@, "unstarted"@) {
                r matches Result::Ok(s) && s@ == "unstarted"@
            } else if seq_ieq(value@, "started"@) {
                r matches Result::Ok(s) && s@ == "started"@
            } else if seq_ieq(value@, "completed"@) {
                r matches Result::Ok(s) && s@ == "completed"@
            } else if seq_ieq(value@, "canceled"@) || seq_ieq(value@, "cancelled"@) {
                r matches Result::Ok(s) && s@ == "canceled"@
            } else {
                r matches Result::Err(e) && e.code == 1 && e.message@ == "Invalid state type '"@
                    + value@ + "'. Use backlog, unstarted, started, completed, or canceled."@
            }
        }),
{
    if crate::text::str_ieq(value, "backlog") {
        Result::Ok("backlog")
    } else if crate::text::str_ieq(value, "unstarted") {
        Result::Ok("unstarted")
    } else if crate::text::str_ieq(value, "started") {
        Result::Ok("started")
    } else if crate::text::str_ieq(value, "completed") {
        Result::Ok("completed")
    } else if crate::text::str_ieq(value, "canceled") || crate::text::str_ieq(value, "cancelled")
    {
        Result::Ok("canceled")
    } else {
        let mut msg = String::from_str("Invalid state type '");
        msg.append(value);
        msg.append("'. Use backlog, unstarted, started, completed, or canceled.");
        Result::Err(CliError::new(1, msg.as_str()))
    }
}

} // verus!
