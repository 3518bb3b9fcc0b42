//! Retry policy: exponential backoff with jitter, server-hint precedence,
//! the retryable-error classifier, and the attempt-by-attempt decision
//! rule that the request loop follows.
//!
//! Time and randomness stay outside: the one random draw comes in through
//! a contracted wrapper, and the caller performs the actual sleep.

use vstd::prelude::*;

use crate::error::CliError;
use crate::json::JsonValue;
use crate::text::contains_ic;

verus! {

/// Integer powers, for the exponential delay ladder.
pub open spec fn pow_of(b: int, e: nat) -> int
    decreases e,
{
    if e == 0 {
        1
    } else {
        b * pow_of(b, (e - 1) as nat)
    }
}

/// Retry configuration for API calls: attempt ceiling, delay ladder.
#[derive(Debug, Clone, Copy, PartialEq, Eq, Structural)]
pub struct RetryConfig {
    pub max_retries: u32,
    pub initial_delay_ms: u64,
    pub max_delay_ms: u64,
    pub exponential_base: u64,
}

/// The configuration every constructor starts from: three retries,
/// one second growing by doubling up to thirty seconds.
pub open spec fn spec_default_config() -> RetryConfig {
    RetryConfig { max_retries: 3, initial_delay_ms: 1000, max_delay_ms: 30000, exponential_base: 2 }
}

impl Default for RetryConfig {
    fn default() -> (r: Self)
        ensures
            r == spec_default_config(),
    {
        RetryConfig {
            max_retries: 3,
            initial_delay_ms: 1000,
            max_delay_ms: 30000,
            exponential_base: 2,
        }
    }
}

/// The delay ladder before jitter: the initial delay grown exponentially
/// with the attempt index, clamped to the ceiling.
pub open spec fn base_delay_spec(c: RetryConfig, attempt: nat) -> int {
    let raw = c.initial_delay_ms * pow_of(c.exponential_base as int, attempt);
    if raw <= c.max_delay_ms {
        raw
    } else {
        c.max_delay_ms as int
    }
}

/// A base delay moved by a jitter draw `j` out of `[0, 2 * (base / 4)]`:
/// the computed wait lands a quarter below to a quarter above the base.
pub open spec fn jittered_delay(c: RetryConfig, attempt: nat, j: int) -> int {
    let base = base_delay_spec(c, attempt);
    base - base / 4 + j
}

/// Relies on rand::random_range over `0..=max`: the draw lies in the range.
#[verifier::external_body]
fn random_up_to(max: u64) -> (r: u64)
    ensures
        r <= max,
{
    rand::random_range(0..=max)
}

proof fn lemma_pow_nonneg(b: int, e: nat)
    requires
        b >= 0,
    ensures
        pow_of(b, e) >= 0,
    decreases e,
{
    if e > 0 {
        lemma_pow_nonneg(b, (e - 1) as nat);
        assert(b * pow_of(b, (e - 1) as nat) >= 0) by (nonlinear_arith)
            requires
                b >= 0,
                pow_of(b, (e - 1) as nat) >= 0,
        ;
    }
}

impl RetryConfig {
    /// The default policy with a different attempt ceiling.
    pub fn new(max_retries: u32) -> (r: Self)
        ensures
            r == (RetryConfig { max_retries, ..spec_default_config() }),
    {
        RetryConfig { max_retries, ..Default::default() }
    }

    /// A policy that never retries.
    pub fn no_retry() -> (r: Self)
        ensures
            r == (RetryConfig { max_retries: 0, ..spec_default_config() }),
    {
        RetryConfig { max_retries: 0, ..Default::default() }
    }

    /// The wait before retry number `attempt`. A server-supplied hint in
    /// seconds takes absolute precedence and is returned verbatim (in
    /// milliseconds); otherwise the exponential base delay is drawn up or
    /// down by up to a quarter, against synchronized retry storms.
    #[verifier::loop_isolation(false)]
    pub fn delay_for_attempt(&self, attempt: u32, retry_after: Option<u64>) -> (r: u64)
        ensures
            retry_after matches Option::Some(s) ==> ((s <= u64::MAX / 1000 ==> r == s * 1000) && (
            s > u64::MAX / 1000 ==> r == u64::MAX)),
            retry_after is None ==> jittered_delay(*self, attempt as nat, 0) <= r as int
                <= base_delay_spec(*self, attempt as nat) + base_delay_spec(
                *self,
                attempt as nat,
            ) / 4,
            retry_after is None ==> 4 * (r as int) <= 5 * (self.max_delay_ms as int),
    {
        match retry_after {
            Option::Some(seconds) => {
                return match seconds.checked_mul(1000) {
                    Option::Some(ms) => ms,
                    Option::None => u64::MAX,
                };
            },
            Option::None => {},
        }
        let b = self.exponential_base;
        let mut acc: u64 = self.initial_delay_ms;
        let mut k: u32 = 0;
        proof {
            assert(pow_of(b as int, 0) == 1);
        }
        while k < attempt
            invariant
                k <= attempt,
                acc as int == self.initial_delay_ms * pow_of(b as int, k as nat) || (acc == u64::MAX
                    && self.initial_delay_ms * pow_of(b as int, k as nat) >= u64::MAX),
            decreases attempt - k,
        {
            let ghost p = pow_of(b as int, k as nat);
            let ghost accg = acc as int;
            proof {
                lemma_pow_nonneg(b as int, k as nat);
                assert(pow_of(b as int, (k + 1) as nat) == b * pow_of(b as int, k as nat));
                assert((self.initial_delay_ms * p) * b == self.initial_delay_ms * (b * p))
                    by (nonlinear_arith);
            }
            acc = match acc.checked_mul(b) {
                Option::Some(v) => v,
                Option::None => u64::MAX,
            };
            proof {
                if accg == self.initial_delay_ms * p {
                    assert(accg * b == self.initial_delay_ms * (b * p));
                } else {
                    assert(accg == u64::MAX && self.initial_delay_ms * p >= u64::MAX);
                    if b == 0 {
                        assert(self.initial_delay_ms * (b * p) == 0) by (nonlinear_arith)
                            requires
                                b == 0u64,
                        ;
                        assert(accg * b == 0) by (nonlinear_arith)
                            requires
                                b == 0u64,
                        ;
                    } else {
                        assert(accg * b >= accg * 1) by (nonlinear_arith)
                            requires
                                b >= 1,
                                accg >= 0,
                        ;
                        assert(self.initial_delay_ms * (b * p) >= self.initial_delay_ms * p * b)
                            by (nonlinear_arith);
                        assert(self.initial_delay_ms * p * b >= self.initial_delay_ms * p * 1)
                            by (nonlinear_arith)
                            requires
                                b >= 1,
                                self.initial_delay_ms * p >= 0,
                        ;
                    }
                }
            }
            k = k + 1;
        }
        let base_ms = if acc <= self.max_delay_ms {
            acc
        } else {
            self.max_delay_ms
        };
        proof {
            assert(base_ms as int == base_delay_spec(*self, attempt as nat));
        }
        let jitter_range = base_ms / 4;
        let jitter = random_up_to(2 * jitter_range);
        let low = base_ms - jitter_range;
        low.saturating_add(jitter)
    }
}

/// Whether an error warrants a retry: an explicit rate-limit code, or a
/// message that speaks of rate limiting, timeouts, connection failure,
/// temporary unavailability, or an upstream 429/502/503/504. Failures
/// from below the structured layer arrive as plain messages, so the
/// textual indicators matter as much as the code.
pub open spec fn retryable_spec(e: CliError) -> bool {
    ||| e.code == 4
    ||| contains_ic(e.message@, "rate limit"@)
    ||| contains_ic(e.message@, "429"@)
    ||| contains_ic(e.message@, "timeout"@)
    ||| contains_ic(e.message@, "connection"@)
    ||| contains_ic(e.message@, "temporarily unavailable"@)
    ||| contains_ic(e.message@, "503"@)
    ||| contains_ic(e.message@, "502"@)
    ||| contains_ic(e.message@, "504"@)
}

impl CliError {
    /// Classify this error: retry on transient shapes only.
    pub fn is_retryable(&self) -> (r: bool)
        ensures
            r == retryable_spec(*self),
    {
        if self.code == 4 {
            return true;
        }
        let msg = self.message.as_str();
        crate::text::str_contains_ic(msg, "rate limit") || crate::text::str_contains_ic(
            msg,
            "429",
        ) || crate::text::str_contains_ic(msg, "timeout") || crate::text::str_contains_ic(
            msg,
            "connection",
        ) || crate::text::str_contains_ic(msg, "temporarily unavailable")
            || crate::text::str_contains_ic(msg, "503") || crate::text::str_contains_ic(
            msg,
            "502",
        ) || crate::text::str_contains_ic(msg, "504")
    }
}

/// What an error offers a retry loop: the classification and any
/// server-supplied delay hint.
pub trait IsRetryable {
    fn is_retryable(&self) -> bool;

    fn retry_after(&self) -> Option<u64>;
}

impl IsRetryable for CliError {
    fn is_retryable(&self) -> bool {
        CliError::is_retryable(self)
    }

    fn retry_after(&self) -> Option<u64> {
        self.retry_after
    }
}

/// What the retry loop does after a failed attempt.
#[derive(Debug, PartialEq, Eq, Structural)]
pub enum RetryAction {
    /// Wait this many milliseconds, then try again.
    RetryAfterMs(u64),
    /// Hand the failure to the caller.
    GiveUp,
}

/// Decide what follows attempt number `attempt` (zero-based) failing with
/// `error`: retry with a backoff delay while attempts remain and the error
/// is transient, give up otherwise.
pub fn retry_decision(config: &RetryConfig, attempt: u32, error: &CliError) -> (r: RetryAction)
    ensures
        r is RetryAfterMs <==> attempt < config.max_retries && retryable_spec(*error),
        r matches RetryAction::RetryAfterMs(d) ==> ({
            &&& error.retry_after matches Option::Some(s) ==> ((s <= u64::MAX / 1000 ==> d == s
                * 1000) && (s > u64::MAX / 1000 ==> d == u64::MAX))
            &&& error.retry_after is None ==> jittered_delay(*config, attempt as nat, 0)
                <= d as int <= base_delay_spec(*config, attempt as nat) + base_delay_spec(
                *config,
                attempt as nat,
            ) / 4
        }),
{
    if attempt < config.max_retries && error.is_retryable() {
        RetryAction::RetryAfterMs(config.delay_for_attempt(attempt, error.retry_after))
    } else {
        RetryAction::GiveUp
    }
}

/// Whether an outcome of one attempt asks for another.
pub open spec fn outcome_retryable(o: Result<JsonValue, CliError>) -> bool {
    match o {
        Result::Ok(_) => false,
        Result::Err(e) => retryable_spec(e),
    }
}

/// How many attempts the retry policy consumes from a sequence of
/// attempt outcomes: it stops at the first success or non-retryable
/// failure, or when the retry budget runs out.
pub open spec fn retry_consumed(
    max_retries: nat,
    outcomes: Seq<Result<JsonValue, CliError>>,
) -> nat
    decreases outcomes.len(),
{
    if outcomes.len() == 0 {
        0
    } else if !outcome_retryable(outcomes[0]) || max_retries == 0 {
        1
    } else {
        1 + retry_consumed((max_retries - 1) as nat, outcomes.drop_first())
    }
}

proof fn lemma_retry_consumed_skip(
    max_retries: nat,
    outcomes: Seq<Result<JsonValue, CliError>>,
    i: nat,
)
    requires
        i <= max_retries,
        i < outcomes.len(),
        forall|k: int| 0 <= k < i ==> outcome_retryable(outcomes[k]),
    ensures
        retry_consumed(max_retries, outcomes) == i + retry_consumed(
            (max_retries - i) as nat,
            outcomes.skip(i as int),
        ),
    decreases i,
{
    if i == 0 {
        assert(outcomes.skip(0) =~= outcomes);
    } else {
        assert(outcomes.drop_first() =~= outcomes.skip(1));
        assert(outcomes.skip(1).skip(i - 1) =~= outcomes.skip(i as int));
        lemma_retry_consumed_skip((max_retries - 1) as nat, outcomes.skip(1), (i - 1) as nat);
    }
}

/// Run the retry policy over a pre-recorded sequence of attempt outcomes,
/// one per attempt in order: the result is the outcome the policy stops
/// at, together with how many attempts were performed. Success and
/// non-retryable failures stop at once; retryable failures are replayed
/// until the budget of `max_retries` further attempts is spent, and the
/// last observed outcome is returned as-is.
#[verifier::loop_isolation(false)]
pub fn with_retry(config: &RetryConfig, outcomes: Vec<Result<JsonValue, CliError>>) -> (r: (
    Result<JsonValue, CliError>,
    usize,
))
    requires
        outcomes@.len() >= config.max_retries + 1,
    ensures
        r.1 == retry_consumed(config.max_retries as nat, outcomes@),
        1 <= r.1 <= config.max_retries + 1,
        r.0 == outcomes@[r.1 - 1],
        forall|k: int| 0 <= k < r.1 - 1 ==> outcome_retryable(outcomes@[k]),
        r.1 <= config.max_retries ==> !outcome_retryable(outcomes@[r.1 - 1]),
{
    let mut outcomes = outcomes;
    let ghost all = outcomes@;
    let n = outcomes.len();
    let max = config.max_retries as usize;
    let mut attempt: usize = 0;
    loop
        invariant
            outcomes@ == all,
            attempt <= max,
            max == config.max_retries,
            n == all.len(),
            all.len() >= max + 1,
            forall|k: int| 0 <= k < attempt ==> outcome_retryable(all[k]),
        decreases max - attempt,
    {
        let stop = attempt == max || {
            match &outcomes[attempt] {
                Result::Ok(_) => true,
                Result::Err(e) => !e.is_retryable(),
            }
        };
        if stop {
            proof {
                lemma_retry_consumed_skip(config.max_retries as nat, all, attempt as nat);
                assert(all.skip(attempt as int)[0] == all[attempt as int]);
            }
            let out = outcomes.remove(attempt);
            return (out, attempt + 1);
        }
        attempt = attempt + 1;
    }
}

/// Retry exhaustion: when every attempt keeps failing with a retryable
/// error, the policy performs exactly `max_retries + 1` attempts in all
/// and stops at the last one, whose outcome it reports unchanged.
pub proof fn lemma_retry_exhaustion(
    max_retries: nat,
    outcomes: Seq<Result<JsonValue, CliError>>,
)
    requires
        outcomes.len() >= max_retries + 1,
        forall|k: int| 0 <= k < outcomes.len() ==> outcome_retryable(outcomes[k]),
    ensures
        retry_consumed(max_retries, outcomes) == max_retries + 1,
    decreases max_retries,
{
    if max_retries > 0 {
        assert(outcomes.drop_first() =~= outcomes.skip(1));
        lemma_retry_exhaustion((max_retries - 1) as nat, outcomes.skip(1));
    }
}

/// Backoff growth: in the unclamped regime and with a multiplier of at
/// most the doubling one the policy uses, the delay for the next attempt
/// keeps at least three quarters of the multiplied previous delay,
/// whatever jitter offset `j` the shared draw produced (the inequality
/// is stated scaled by four to stay in integers). Once the ladder clamps
/// the growth stops, and independent draws can dip below the bound.
pub proof fn lemma_backoff_monotonicity(c: RetryConfig, attempt: nat, j: int)
    requires
        1 <= c.exponential_base <= 2,
        c.initial_delay_ms * pow_of(c.exponential_base as int, attempt + 1) <= c.max_delay_ms,
        0 <= j <= 2 * (base_delay_spec(c, attempt) / 4),
    ensures
        base_delay_spec(c, attempt + 1) >= base_delay_spec(c, attempt),
        4 * jittered_delay(c, attempt + 1, j) >= 3 * (c.exponential_base as int)
            * jittered_delay(c, attempt, j),
{
    let b = c.exponential_base as int;
    let p = pow_of(b, attempt);
    lemma_pow_nonneg(b, attempt);
    assert(pow_of(b, attempt + 1) == b * p);
    let raw = c.initial_delay_ms * p;
    let raw1 = c.initial_delay_ms * pow_of(b, attempt + 1);
    assert(raw1 == b * raw) by (nonlinear_arith)
        requires
            raw == c.initial_delay_ms * p,
            raw1 == c.initial_delay_ms * (b * p),
    ;
    assert(raw >= 0) by (nonlinear_arith)
        requires
            p >= 0,
            c.initial_delay_ms >= 0,
            raw == c.initial_delay_ms * p,
    ;
    assert(raw1 >= raw) by (nonlinear_arith)
        requires
            raw >= 0,
            b >= 1,
            raw1 == b * raw,
    ;
    assert(raw <= c.max_delay_ms);
    let base = base_delay_spec(c, attempt);
    let base1 = base_delay_spec(c, attempt + 1);
    assert(base == raw && base1 == raw1);
    let f = raw / 4;
    // The next jittered delay clears 3 * b * raw:
    // 4 * (raw1 - raw1/4 + j) >= 3 * raw1 + 4 * j = 3 * b * raw + 4 * j.
    assert(4 * (raw1 / 4) <= raw1);
    assert(4 * jittered_delay(c, attempt + 1, j) >= 3 * (b * raw) + 4 * j);
    // And the multiplied previous delay needs no more than that:
    // 3 * b * (raw - f + j) <= 3 * b * raw + 4 * j while j <= 2 * f.
    assert(3 * b * jittered_delay(c, attempt, j) == 3 * (b * raw) - 3 * (b * f) + 3 * (b * j))
        by (nonlinear_arith)
        requires
            jittered_delay(c, attempt, j) == raw - f + j,
            base_delay_spec(c, attempt) == raw,
    ;
    assert(4 * j + 3 * (b * f) - 3 * (b * j) >= 0) by (nonlinear_arith)
        requires
            0 <= j <= 2 * f,
            f >= 0,
            1 <= b <= 2,
    ;
}

/// A process-wide default retry policy, set at most once before clients
/// are constructed and read by every client built without an override.
#[derive(Debug, PartialEq, Eq, Structural)]
pub struct DefaultRetry {
    pub config: Option<RetryConfig>,
}

impl DefaultRetry {
    /// The unset cell.
    pub fn new() -> (r: DefaultRetry)
        ensures
            r.config is None,
    {
        DefaultRetry { config: Option::None }
    }
}

/// Set the process-wide retry count once: zero disables retries. A second
/// call changes nothing, as befits a write-once startup setting.
pub fn set_default_retry(defaults: &mut DefaultRetry, retry_count: u32)
    ensures
        old(defaults).config is Some ==> *final(defaults) == *old(defaults),
        old(defaults).config is None ==> final(defaults).config == Option::Some(
            if retry_count == 0 {
                RetryConfig { max_retries: 0, ..spec_default_config() }
            } else {
                RetryConfig { max_retries: retry_count, ..spec_default_config() }
            },
        ),
{
    let config = if retry_count == 0 {
        RetryConfig::no_retry()
    } else {
        RetryConfig::new(retry_count)
    };
    match defaults.config {
        Option::Some(_) => {},
        Option::None => {
            defaults.config = Option::Some(config);
        },
    }
}

/// The policy a client built without an explicit override uses: the
/// process-wide default when set, the standard policy otherwise.
pub fn default_retry_config(defaults: &DefaultRetry) -> (r: RetryConfig)
    ensures
        r == match defaults.config {
            Option::Some(c) => c,
            Option::None => spec_default_config(),
        },
{
    match defaults.config {
        Option::Some(c) => c,
        Option::None => RetryConfig::default(),
    }
}

} // verus!
