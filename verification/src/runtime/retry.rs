//! Classification of provider failures for the turn retry policy.

use vstd::prelude::*;

use crate::text::{contains, lowercase_of, owned, seq_contains, to_lowercase};

verus! {

/// A lower-cased provider error is transient: rate limiting, a gateway or
/// availability failure, or a connection, timeout or transport failure.
pub open spec fn transient_text(lower: Seq<char>) -> bool {
    ||| seq_contains(lower, "429"@)
    ||| seq_contains(lower, "502"@)
    ||| seq_contains(lower, "503"@)
    ||| seq_contains(lower, "504"@)
    ||| seq_contains(lower, "connection"@)
    ||| seq_contains(lower, "timeout"@)
    ||| seq_contains(lower, "transport"@)
}

/// The error class reported for a lower-cased provider error.
pub open spec fn transient_class(lower: Seq<char>) -> Seq<char> {
    if seq_contains(lower, "429"@) || seq_contains(lower, "rate"@) {
        "RateLimit"@
    } else if seq_contains(lower, "50"@) || seq_contains(lower, "server"@) {
        "ServerError"@
    } else if seq_contains(lower, "timeout"@) || seq_contains(lower, "ttft"@) {
        "TTFTTimeout"@
    } else if seq_contains(lower, "connection"@) || seq_contains(lower, "transport"@) {
        "ConnectionError"@
    } else {
        "Unknown"@
    }
}

/// Whether an already lower-cased error is transient.
pub fn is_retryable_lowercase(lower: &str) -> (r: bool)
    ensures
        r == transient_text(lower@),
{
    contains(lower, "429") || contains(lower, "502") || contains(lower, "503") || contains(
        lower,
        "504",
    ) || contains(lower, "connection") || contains(lower, "timeout") || contains(
        lower,
        "transport",
    )
}

/// Whether a provider error may be retried before any output was shown.
pub fn is_retryable_error(e: &str) -> (r: bool)
    ensures
        r == transient_text(lowercase_of(e@)),
{
    let lower = to_lowercase(e);
    is_retryable_lowercase(lower.as_str())
}

/// The error class of an already lower-cased error.
pub fn classify_lowercase(lower: &str) -> (c: String)
    ensures
        c@ == transient_class(lower@),
{
    if contains(lower, "429") || contains(lower, "rate") {
        owned("RateLimit")
    } else if contains(lower, "50") || contains(lower, "server") {
        owned("ServerError")
    } else if contains(lower, "timeout") || contains(lower, "ttft") {
        owned("TTFTTimeout")
    } else if contains(lower, "connection") || contains(lower, "transport") {
        owned("ConnectionError")
    } else {
        owned("Unknown")
    }
}

/// The error class reported to the product for a provider error.
pub fn classify_transient_error(e: &str) -> (c: String)
    ensures
        c@ == transient_class(lowercase_of(e@)),
{
    let lower = to_lowercase(e);
    classify_lowercase(lower.as_str())
}

/// The turn retries a failed provider request only while retries remain,
/// nothing of the answer has been shown yet, the run is not cancelled, and
/// the failure is transient.
pub open spec fn retry_allowed(
    retries: u32,
    max_retries: u32,
    shown_output: bool,
    cancelled: bool,
    lower_error: Seq<char>,
) -> bool {
    retries < max_retries && !shown_output && !cancelled && transient_text(lower_error)
}

/// Whether a failed provider request is retried.
pub fn should_retry(
    retries: u32,
    max_retries: u32,
    shown_output: bool,
    cancelled: bool,
    error: &str,
) -> (r: bool)
    ensures
        r == retry_allowed(retries, max_retries, shown_output, cancelled, lowercase_of(error@)),
{
    retries < max_retries && !shown_output && !cancelled && is_retryable_error(error)
}

/// A request that already showed part of its answer is never retried, so no
/// visible output is ever duplicated.
pub proof fn law_no_retry_after_visible_output(
    retries: u32,
    max_retries: u32,
    cancelled: bool,
    lower_error: Seq<char>,
)
    ensures
        !retry_allowed(retries, max_retries, true, cancelled, lower_error),
{
}

/// Retries are bounded: once `max_retries` attempts were used, none follows.
pub proof fn law_retries_bounded(
    max_retries: u32,
    shown_output: bool,
    cancelled: bool,
    lower_error: Seq<char>,
)
    ensures
        !retry_allowed(max_retries, max_retries, shown_output, cancelled, lower_error),
{
}

/// Before any output is shown, on a run that is not cancelled and with
/// retries left, a failure whose lower-cased text names HTTP status 429, 502,
/// 503 or 504, or mentions a connection, timeout or transport failure, is
/// retried; a failure that names none of these is not.
pub proof fn law_gateway_and_rate_limit_failures_are_retried(
    retries: u32,
    max_retries: u32,
    lower_error: Seq<char>,
)
    requires
        retries < max_retries,
    ensures
        seq_contains(lower_error, "429"@) ==> retry_allowed(
            retries,
            max_retries,
            false,
            false,
            lower_error,
        ),
        seq_contains(lower_error, "502"@) ==> retry_allowed(
            retries,
            max_retries,
            false,
            false,
            lower_error,
        ),
        seq_contains(lower_error, "503"@) ==> retry_allowed(
            retries,
            max_retries,
            false,
            false,
            lower_error,
        ),
        seq_contains(lower_error, "504"@) ==> retry_allowed(
            retries,
            max_retries,
            false,
            false,
            lower_error,
        ),
        seq_contains(lower_error, "connection"@) ==> retry_allowed(
            retries,
            max_retries,
            false,
            false,
            lower_error,
        ),
        seq_contains(lower_error, "timeout"@) ==> retry_allowed(
            retries,
            max_retries,
            false,
            false,
            lower_error,
        ),
        seq_contains(lower_error, "transport"@) ==> retry_allowed(
            retries,
            max_retries,
            false,
            false,
            lower_error,
        ),
        retry_allowed(retries, max_retries, false, false, lower_error) ==> (seq_contains(
            lower_error,
            "429"@,
        ) || seq_contains(lower_error, "502"@) || seq_contains(lower_error, "503"@)
            || seq_contains(lower_error, "504"@) || seq_contains(lower_error, "connection"@)
            || seq_contains(lower_error, "timeout"@) || seq_contains(lower_error, "transport"@)),
{
}

/// Transient failures are classified by what they name: HTTP 429 is a rate
/// limit; HTTP 502, 503 or 504 (with no rate limit named) a server error; a
/// timeout (with neither named) a time-to-first-token timeout; a connection
/// or transport failure (with none of those named) a connection error.
pub proof fn law_transient_failures_are_classified(lower: Seq<char>)
    ensures
        seq_contains(lower, "429"@) ==> transient_class(lower) == "RateLimit"@,
        !seq_contains(lower, "429"@) && !seq_contains(lower, "rate"@) && (seq_contains(
            lower,
            "502"@,
        ) || seq_contains(lower, "503"@) || seq_contains(lower, "504"@)) ==> transient_class(
            lower,
        ) == "ServerError"@,
        !seq_contains(lower, "429"@) && !seq_contains(lower, "rate"@) && !seq_contains(
            lower,
            "50"@,
        ) && !seq_contains(lower, "server"@) && seq_contains(lower, "timeout"@)
            ==> transient_class(lower) == "TTFTTimeout"@,
        !seq_contains(lower, "429"@) && !seq_contains(lower, "rate"@) && !seq_contains(
            lower,
            "50"@,
        ) && !seq_contains(lower, "server"@) && !seq_contains(lower, "timeout"@)
            && !seq_contains(lower, "ttft"@) && (seq_contains(lower, "connection"@)
            || seq_contains(lower, "transport"@)) ==> transient_class(lower)
            == "ConnectionError"@,
{
    reveal_strlit("502");
    reveal_strlit("503");
    reveal_strlit("504");
    reveal_strlit("50");
    if seq_contains(lower, "502"@) {
        lemma_prefix_occurs(lower, "502"@, "50"@);
    } else if seq_contains(lower, "503"@) {
        lemma_prefix_occurs(lower, "503"@, "50"@);
    } else if seq_contains(lower, "504"@) {
        lemma_prefix_occurs(lower, "504"@, "50"@);
    }
}

/// Every retryable error is classified as a known transient class: never
/// `Unknown`.
pub proof fn law_retryable_errors_have_a_class(lower: Seq<char>)
    requires
        transient_text(lower),
    ensures
        transient_class(lower) != "Unknown"@,
{
    reveal_strlit("Unknown");
    reveal_strlit("RateLimit");
    reveal_strlit("ServerError");
    reveal_strlit("TTFTTimeout");
    reveal_strlit("ConnectionError");
    assert("Unknown"@.len() == 7);
    assert("RateLimit"@.len() == 9);
    assert("ServerError"@.len() == 11);
    assert("TTFTTimeout"@.len() == 11);
    assert("ConnectionError"@.len() == 15);
    reveal_strlit("502");
    reveal_strlit("503");
    reveal_strlit("504");
    reveal_strlit("50");
    if seq_contains(lower, "502"@) {
        lemma_prefix_occurs(lower, "502"@, "50"@);
    } else if seq_contains(lower, "503"@) {
        lemma_prefix_occurs(lower, "503"@, "50"@);
    } else if seq_contains(lower, "504"@) {
        lemma_prefix_occurs(lower, "504"@, "50"@);
    }
}

proof fn lemma_prefix_occurs(hay: Seq<char>, long: Seq<char>, short: Seq<char>)
    requires
        seq_contains(hay, long),
        short.len() <= long.len(),
        short =~= long.subrange(0, short.len() as int),
    ensures
        seq_contains(hay, short),
{
    let i = choose|i: int| crate::text::occurs_at(hay, long, i);
    assert(hay.subrange(i, i + short.len()) =~= hay.subrange(i, i + long.len()).subrange(
        0,
        short.len() as int,
    ));
    assert(crate::text::occurs_at(hay, short, i));
}

} // verus!
