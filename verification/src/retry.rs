//! Retry policy: which errors are worth retrying, and how long to wait.
//!
//! The waiting and re-running itself belongs to the caller's async loop; this
//! module decides, after each failure, whether to stop or to wait and retry.

use vstd::prelude::*;

use crate::error::{CloudError, DownloadError, TsubasaError};
use crate::text::{chars_of, contains_seq, contains_text, lowercase, to_lowercase};

verus! {

/// Configuration for retry behavior.
#[derive(Debug, Clone, Copy, PartialEq, Eq, Structural)]
pub struct RetryConfig {
    /// Maximum number of attempts (including the first try).
    pub max_attempts: u32,
    /// Base delay between retries in milliseconds.
    pub base_delay_ms: u64,
    /// Maximum delay cap in milliseconds.
    pub max_delay_ms: u64,
    /// Whether to add random jitter to the delay.
    pub jitter: bool,
}

impl Default for RetryConfig {
    fn default() -> (c: RetryConfig)
        ensures
            c == (RetryConfig { max_attempts: 3, base_delay_ms: 1000, max_delay_ms: 30_000, jitter: true }),
    {
        RetryConfig { max_attempts: 3, base_delay_ms: 1000, max_delay_ms: 30_000, jitter: true }
    }
}

impl RetryConfig {
    /// Config tuned for cloud API calls (rate limits, transient failures).
    pub fn cloud_api() -> (c: RetryConfig)
        ensures
            c == (RetryConfig { max_attempts: 4, base_delay_ms: 2000, max_delay_ms: 60_000, jitter: true }),
    {
        RetryConfig { max_attempts: 4, base_delay_ms: 2000, max_delay_ms: 60_000, jitter: true }
    }

    /// Config tuned for HTTP file downloads (connection errors).
    pub fn http_download() -> (c: RetryConfig)
        ensures
            c == (RetryConfig { max_attempts: 3, base_delay_ms: 3000, max_delay_ms: 30_000, jitter: true }),
    {
        RetryConfig { max_attempts: 3, base_delay_ms: 3000, max_delay_ms: 30_000, jitter: true }
    }
}

/// Whether an (already lower-cased) message mentions a transient failure.
pub open spec fn transient_text(lower: Seq<char>) -> bool {
    contains_seq(lower, "connection"@) || contains_seq(lower, "timeout"@) || contains_seq(
        lower,
        "timed out"@,
    ) || contains_seq(lower, "reset by peer"@) || contains_seq(lower, "broken pipe"@)
        || contains_seq(lower, "temporarily unavailable"@) || contains_seq(lower, "503"@)
        || contains_seq(lower, "502"@) || contains_seq(lower, "500"@) || contains_seq(
        lower,
        "429"@,
    ) || contains_seq(lower, "service unavailable"@) || contains_seq(lower, "bad gateway"@)
        || contains_seq(lower, "internal server error"@) || contains_seq(lower, "database_error"@)
        || contains_seq(lower, "eof"@) || contains_seq(lower, "dns"@)
}

/// Heuristic: whether an API error message suggests a transient failure. The
/// message is lower-cased and searched for known transient markers.
pub fn is_transient_api_message(msg: &str) -> (r: bool)
    ensures
        r == transient_text(lowercase(msg@)),
{
    let lower = to_lowercase(msg);
    let v = chars_of(lower.as_str());
    contains_text(&v, "connection") || contains_text(&v, "timeout") || contains_text(
        &v,
        "timed out",
    ) || contains_text(&v, "reset by peer") || contains_text(&v, "broken pipe")
        || contains_text(&v, "temporarily unavailable") || contains_text(&v, "503")
        || contains_text(&v, "502") || contains_text(&v, "500") || contains_text(&v, "429")
        || contains_text(&v, "service unavailable") || contains_text(&v, "bad gateway")
        || contains_text(&v, "internal server error") || contains_text(&v, "database_error")
        || contains_text(&v, "eof") || contains_text(&v, "dns")
}

/// How an error is classified: `Err(())` for permanent errors; `Ok(Some(s))`
/// for transient errors that ask for a wait of `s` seconds; `Ok(None)` for
/// transient errors that use the default backoff.
pub open spec fn error_class(err: TsubasaError) -> Result<Option<u64>, ()> {
    match err {
        TsubasaError::Cloud { source, .. } => match source {
            CloudError::RateLimited { retry_after_secs } => Ok(Some(retry_after_secs)),
            CloudError::Unavailable(_) => Ok(None),
            CloudError::ApiRequest(msg) => if transient_text(lowercase(msg@)) {
                Ok(None)
            } else {
                Err(())
            },
            _ => Err(()),
        },
        TsubasaError::Download(DownloadError::HttpFetch(msg)) => if transient_text(
            lowercase(msg@),
        ) {
            Ok(None)
        } else {
            Err(())
        },
        TsubasaError::Timeout { .. } => Ok(None),
        TsubasaError::Io(_) => Ok(None),
        _ => Err(()),
    }
}

/// Classify whether an error is transient (worth retrying), and whether it
/// carries its own retry-after delay in seconds.
pub fn classify_error(err: &TsubasaError) -> (r: Result<Option<u64>, ()>)
    ensures
        r == error_class(*err),
{
    match err {
        TsubasaError::Cloud { source, .. } => match source {
            CloudError::RateLimited { retry_after_secs } => Ok(Some(*retry_after_secs)),
            CloudError::Unavailable(_) => Ok(None),
            CloudError::ApiRequest(msg) => if is_transient_api_message(msg.as_str()) {
                Ok(None)
            } else {
                Err(())
            },
            _ => Err(()),
        },
        TsubasaError::Download(DownloadError::HttpFetch(msg)) => {
            if is_transient_api_message(msg.as_str()) {
                Ok(None)
            } else {
                Err(())
            }
        },
        TsubasaError::Timeout { .. } => Ok(None),
        TsubasaError::Io(_) => Ok(None),
        _ => Err(()),
    }
}

/// Two to the power `n`.
pub open spec fn pow2(n: nat) -> nat
    decreases n,
{
    if n == 0 {
        1
    } else {
        2 * pow2((n - 1) as nat)
    }
}

/// Exponential backoff before jitter: `base * 2^attempt` (saturating), capped at the maximum.
pub open spec fn capped_backoff(cfg: RetryConfig, attempt: nat) -> nat {
    let exp = if cfg.base_delay_ms as nat * pow2(attempt) > u64::MAX {
        u64::MAX as nat
    } else {
        cfg.base_delay_ms as nat * pow2(attempt)
    };
    if exp < cfg.max_delay_ms {
        exp
    } else {
        cfg.max_delay_ms as nat
    }
}

/// The delay before the next try. With jitter on, `sample / 1_000_000` (a
/// uniform fraction) of half the capped delay is added, saturating.
pub open spec fn backoff_delay(cfg: RetryConfig, attempt: nat, sample: nat) -> nat {
    let capped = capped_backoff(cfg, attempt);
    if cfg.jitter {
        let j = capped * sample / 2_000_000;
        if capped + j > u64::MAX {
            u64::MAX as nat
        } else {
            capped + j
        }
    } else {
        capped
    }
}

proof fn lemma_pow2_shift(n: u64)
    requires
        n < 64,
    ensures
        pow2(n as nat) == (1u64 << n) as nat,
        pow2(n as nat) <= u64::MAX,
    decreases n,
{
    if n == 0 {
        assert(1u64 << 0u64 == 1u64) by (bit_vector);
    } else {
        lemma_pow2_shift((n - 1) as u64);
        let m = (n - 1) as u64;
        assert(1u64 << n == 2 * (1u64 << m)) by (bit_vector)
            requires
                n == m + 1,
                m < 63,
        ;
        assert(pow2(n as nat) == 2 * pow2(m as nat));
        assert((1u64 << m) < 0x8000_0000_0000_0000u64) by (bit_vector)
            requires
                m < 63,
        ;
    }
}

/// `base * 2^attempt`, saturating at `u64::MAX`.
fn exp_delay(base: u64, attempt: u32) -> (r: u64)
    ensures
        r == (if base as nat * pow2(attempt as nat) > u64::MAX {
            u64::MAX as nat
        } else {
            base as nat * pow2(attempt as nat)
        }),
{
    if attempt >= 64 {
        proof {
            lemma_pow2_shift(63);
            assert((1u64 << 63u64) == 0x8000_0000_0000_0000u64) by (bit_vector);
            assert(pow2(64) == 2 * pow2(63));
            lemma_pow2_monotone(64, attempt as nat);
            let p = pow2(attempt as nat);
            if base >= 1 {
                assert(base as nat * p >= p) by (nonlinear_arith)
                    requires
                        base >= 1,
                ;
            } else {
                assert(base as nat * p == 0);
            }
        }
        if base == 0 {
            0
        } else {
            0xffff_ffff_ffff_ffffu64
        }
    } else {
        proof {
            lemma_pow2_shift(attempt as u64);
        }
        let shift: u64 = 1u64 << attempt;
        assert((base as u128) * (shift as u128) <= 0xffff_ffff_ffff_ffffu128 * 0xffff_ffff_ffff_ffffu128) by (nonlinear_arith)
            requires
                base <= 0xffff_ffff_ffff_ffffu64,
                shift <= 0xffff_ffff_ffff_ffffu64,
        ;
        let prod: u128 = (base as u128) * (shift as u128);
        assert(prod == base as nat * pow2(attempt as nat)) by (nonlinear_arith)
            requires
                prod == (base as u128) * (shift as u128),
                shift as nat == pow2(attempt as nat),
        ;
        if prod > 0xffff_ffff_ffff_ffffu128 {
            0xffff_ffff_ffff_ffffu64
        } else {
            prod as u64
        }
    }
}

/// Compute the delay in milliseconds before retry number `attempt + 1`:
/// `base * 2^attempt` (saturating), capped at the maximum, plus jitter.
pub fn backoff_delay_ms(config: &RetryConfig, attempt: u32, jitter_sample: u32) -> (r: u64)
    requires
        jitter_sample < 1_000_000,
    ensures
        r == backoff_delay(*config, attempt as nat, jitter_sample as nat),
{
    let exp_delay_ms = exp_delay(config.base_delay_ms, attempt);
    let capped_ms = if exp_delay_ms < config.max_delay_ms {
        exp_delay_ms
    } else {
        config.max_delay_ms
    };
    if config.jitter {
        assert((capped_ms as u128) * (jitter_sample as u128) <= 0xffff_ffff_ffff_ffffu128 * 1_000_000u128) by (nonlinear_arith)
            requires
                capped_ms <= 0xffff_ffff_ffff_ffffu64,
                jitter_sample < 1_000_000,
        ;
        let j128: u128 = (capped_ms as u128) * (jitter_sample as u128) / 2_000_000;
        assert(j128 <= capped_ms) by (nonlinear_arith)
            requires
                j128 == (capped_ms as u128) * (jitter_sample as u128) / 2_000_000,
                jitter_sample < 1_000_000,
        ;
        let jitter = j128 as u64;
        capped_ms.saturating_add(jitter)
    } else {
        capped_ms
    }
}

/// A pseudo-random jitter sample in `0..1_000_000`: a 64-bit xorshift of the
/// sub-second nanoseconds of the clock, reduced modulo a million.
pub open spec fn jitter_sample_of(nanos: u32) -> u32 {
    let s0 = nanos as u64;
    let s1 = s0 ^ ((s0 << 13u64) as u64);
    let s2 = s1 ^ (s1 >> 7u64);
    let s3 = s2 ^ ((s2 << 17u64) as u64);
    (s3 % 1_000_000) as u32
}

/// Turn a clock reading into a jitter sample (the dependency-free pseudo-random source).
pub fn fastrand_sample(nanos: u32) -> (r: u32)
    ensures
        r == jitter_sample_of(nanos),
        r < 1_000_000,
{
    let mut seed: u64 = nanos as u64;
    seed = seed ^ (seed << 13u64);
    seed = seed ^ (seed >> 7u64);
    seed = seed ^ (seed << 17u64);
    (seed % 1_000_000) as u32
}

/// What to do after a failed attempt.
#[derive(Debug, Clone, Copy, PartialEq, Eq, Structural)]
pub enum RetryDecision {
    /// Give up and return the error.
    Stop,
    /// Wait this many seconds (the error's own retry-after hint), then try again.
    RetryAfterSecs(u64),
    /// Wait this many milliseconds (backoff), then try again.
    RetryAfterMillis(u64),
}

/// The decision after attempt number `attempt` (0-based) failed with `err`.
pub open spec fn retry_decision(
    cfg: RetryConfig,
    attempt: nat,
    err: TsubasaError,
    sample: nat,
) -> RetryDecision {
    match error_class(err) {
        Err(()) => RetryDecision::Stop,
        Ok(hint) => if attempt + 1 >= cfg.max_attempts {
            RetryDecision::Stop
        } else {
            match hint {
                Some(secs) => RetryDecision::RetryAfterSecs(secs),
                None => RetryDecision::RetryAfterMillis(backoff_delay(cfg, attempt, sample) as u64),
            }
        },
    }
}

/// Decide, after attempt `attempt` failed with `err`, whether to stop or to
/// wait and try again. Permanent errors stop at once; transient ones are
/// retried until `max_attempts` tries have been made, waiting for the error's
/// retry-after hint if it has one, else for the backoff delay.
pub fn after_failure(
    config: &RetryConfig,
    attempt: u32,
    err: &TsubasaError,
    jitter_sample: u32,
) -> (r: RetryDecision)
    requires
        attempt < config.max_attempts,
        jitter_sample < 1_000_000,
    ensures
        r == retry_decision(*config, attempt as nat, *err, jitter_sample as nat),
{
    match classify_error(err) {
        Err(()) => RetryDecision::Stop,
        Ok(hint) => {
            let remaining = config.max_attempts - attempt - 1;
            if remaining == 0 {
                return RetryDecision::Stop;
            }
            match hint {
                Some(secs) => RetryDecision::RetryAfterSecs(secs),
                None => RetryDecision::RetryAfterMillis(backoff_delay_ms(config, attempt, jitter_sample)),
            }
        },
    }
}

/// The error returned when the loop ran zero attempts.
pub fn exhausted_error(operation_name: &str) -> (e: TsubasaError)
    ensures
        e matches TsubasaError::Internal(m) && m@ == operation_name@ + ": retry loop exhausted without error"@,
{
    let mut m = String::from_str(operation_name);
    m.append(": retry loop exhausted without error");
    TsubasaError::Internal(m)
}

/// Backoff never exceeds the cap, and jitter adds at most half of the capped delay.
pub proof fn lemma_backoff_bounds(cfg: RetryConfig, attempt: nat, sample: nat)
    requires
        sample < 1_000_000,
    ensures
        capped_backoff(cfg, attempt) <= cfg.max_delay_ms,
        capped_backoff(cfg, attempt) <= backoff_delay(cfg, attempt, sample),
        backoff_delay(cfg, attempt, sample) <= capped_backoff(cfg, attempt) + capped_backoff(
            cfg,
            attempt,
        ) / 2,
{
    let c = capped_backoff(cfg, attempt);
    assert(c * sample / 2_000_000 <= c / 2) by (nonlinear_arith)
        requires
            sample < 1_000_000,
    {
        assert(c * sample <= c * 1_000_000);
    }
}

proof fn lemma_pow2_monotone(a: nat, b: nat)
    requires
        a <= b,
    ensures
        pow2(a) <= pow2(b),
        pow2(a) >= 1,
    decreases b,
{
    if b > a {
        lemma_pow2_monotone(a, (b - 1) as nat);
    } else if a > 0 {
        lemma_pow2_monotone((a - 1) as nat, (a - 1) as nat);
    }
}

/// Later retries never wait less than earlier ones (before jitter).
pub proof fn lemma_backoff_monotone(cfg: RetryConfig, a: nat, b: nat)
    requires
        a <= b,
    ensures
        capped_backoff(cfg, a) <= capped_backoff(cfg, b),
{
    lemma_pow2_monotone(a, b);
    assert(cfg.base_delay_ms as nat * pow2(a) <= cfg.base_delay_ms as nat * pow2(b)) by (nonlinear_arith)
        requires
            pow2(a) <= pow2(b),
    ;
}

/// A failure is retried only while tries remain and only when it is transient:
/// the loop makes at most `max_attempts` tries, and a permanent error ends it at once.
pub proof fn lemma_retry_only_transient_within_budget(
    cfg: RetryConfig,
    attempt: nat,
    err: TsubasaError,
    sample: nat,
)
    ensures
        retry_decision(cfg, attempt, err, sample) != RetryDecision::Stop ==> (attempt + 1
            < cfg.max_attempts && error_class(err) is Ok),
        error_class(err) is Err ==> retry_decision(cfg, attempt, err, sample)
            == RetryDecision::Stop,
{
}

/// The transient markers a message is searched for.
pub open spec fn transient_markers() -> Seq<Seq<char>> {
    seq!["connection"@, "timeout"@, "timed out"@, "reset by peer"@, "broken pipe"@, "temporarily unavailable"@, "503"@, "502"@, "500"@, "429"@, "service unavailable"@, "bad gateway"@, "internal server error"@, "database_error"@, "eof"@, "dns"@]
}

/// A message is transient exactly when its lower-cased text contains one of
/// the transient markers, in any case of the original message; so an HTTP
/// fetch failure or API error whose message says, for instance, that the
/// request "timed out" is retried with backoff, and one that mentions none of
/// the markers is not retried.
pub proof fn lemma_transient_markers(msg: String, provider: String)
    ensures
        contains_seq(lowercase(msg@), "connection"@) ==> transient_text(lowercase(msg@)),
        contains_seq(lowercase(msg@), "timeout"@) ==> transient_text(lowercase(msg@)),
        contains_seq(lowercase(msg@), "timed out"@) ==> transient_text(lowercase(msg@)),
        contains_seq(lowercase(msg@), "reset by peer"@) ==> transient_text(lowercase(msg@)),
        contains_seq(lowercase(msg@), "broken pipe"@) ==> transient_text(lowercase(msg@)),
        contains_seq(lowercase(msg@), "temporarily unavailable"@) ==> transient_text(lowercase(msg@)),
        contains_seq(lowercase(msg@), "503"@) ==> transient_text(lowercase(msg@)),
        contains_seq(lowercase(msg@), "502"@) ==> transient_text(lowercase(msg@)),
        contains_seq(lowercase(msg@), "500"@) ==> transient_text(lowercase(msg@)),
        contains_seq(lowercase(msg@), "429"@) ==> transient_text(lowercase(msg@)),
        contains_seq(lowercase(msg@), "service unavailable"@) ==> transient_text(lowercase(msg@)),
        contains_seq(lowercase(msg@), "bad gateway"@) ==> transient_text(lowercase(msg@)),
        contains_seq(lowercase(msg@), "internal server error"@) ==> transient_text(lowercase(msg@)),
        contains_seq(lowercase(msg@), "database_error"@) ==> transient_text(lowercase(msg@)),
        contains_seq(lowercase(msg@), "eof"@) ==> transient_text(lowercase(msg@)),
        contains_seq(lowercase(msg@), "dns"@) ==> transient_text(lowercase(msg@)),
        transient_text(lowercase(msg@)) <==> exists|k: int| 0 <= k < transient_markers().len() && contains_seq(
            lowercase(msg@),
            #[trigger] transient_markers()[k],
        ),
        error_class(TsubasaError::Download(DownloadError::HttpFetch(msg))) == if transient_text(lowercase(msg@)) {
            Ok::<Option<u64>, ()>(None)
        } else {
            Err(())
        },
        error_class(TsubasaError::Cloud { provider, source: CloudError::ApiRequest(msg) }) == if transient_text(
            lowercase(msg@),
        ) {
            Ok::<Option<u64>, ()>(None)
        } else {
            Err(())
        },
{
    let m = msg@;
    let t = transient_markers();
    let l = lowercase(m);
    if transient_text(l) {
        if contains_seq(l, "connection"@) {
            assert(t[0] == "connection"@);
        } else if contains_seq(l, "timeout"@) {
            assert(t[1] == "timeout"@);
        } else if contains_seq(l, "timed out"@) {
            assert(t[2] == "timed out"@);
        } else if contains_seq(l, "reset by peer"@) {
            assert(t[3] == "reset by peer"@);
        } else if contains_seq(l, "broken pipe"@) {
            assert(t[4] == "broken pipe"@);
        } else if contains_seq(l, "temporarily unavailable"@) {
            assert(t[5] == "temporarily unavailable"@);
        } else if contains_seq(l, "503"@) {
            assert(t[6] == "503"@);
        } else if contains_seq(l, "502"@) {
            assert(t[7] == "502"@);
        } else if contains_seq(l, "500"@) {
            assert(t[8] == "500"@);
        } else if contains_seq(l, "429"@) {
            assert(t[9] == "429"@);
        } else if contains_seq(l, "service unavailable"@) {
            assert(t[10] == "service unavailable"@);
        } else if contains_seq(l, "bad gateway"@) {
            assert(t[11] == "bad gateway"@);
        } else if contains_seq(l, "internal server error"@) {
            assert(t[12] == "internal server error"@);
        } else if contains_seq(l, "database_error"@) {
            assert(t[13] == "database_error"@);
        } else if contains_seq(l, "eof"@) {
            assert(t[14] == "eof"@);
        } else if contains_seq(l, "dns"@) {
            assert(t[15] == "dns"@);
        }
    }
    if exists|k: int| 0 <= k < t.len() && contains_seq(l, #[trigger] t[k]) {
        let k = choose|k: int| 0 <= k < t.len() && contains_seq(l, #[trigger] t[k]);
        assert(contains_seq(l, t[k]));
    }
}

} // verus!
