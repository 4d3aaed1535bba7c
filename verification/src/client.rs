//! Client configuration and the decisions a client takes around each HTTP
//! exchange: which URL to call, what to send, and whether to retry.

use url::{ParseError, Url};
use vstd::prelude::*;
use vstd::string::*;
use vstd::utf8::encode_utf8;

use crate::error::Error;
use crate::params::{QueryParams, pairs_view};
use crate::text::{
    chars_of, parse_u64, parse_u64_spec, string_of, trim_chars, trim_slashes_spec, trim_spec,
    trim_trailing_slashes,
};

verus! {

/// The base URL of the Ipregistry API used unless overridden with
/// [`ClientBuilder::base_url`].
pub const DEFAULT_BASE_URL: &'static str = "https://api.ipregistry.co";

/// The maximum number of IP addresses Ipregistry accepts in a single batch
/// request. Larger batch inputs are split into several requests.
pub const MAX_BATCH_SIZE: usize = 1024;

/// The default per-request timeout, in nanoseconds (15 seconds).
pub const DEFAULT_TIMEOUT: u128 = 15_000_000_000;

/// The default maximum number of automatic retries performed in addition to
/// the initial attempt.
pub const DEFAULT_MAX_RETRIES: u32 = 3;

/// The default base backoff between retries, in nanoseconds (1 second).
pub const DEFAULT_RETRY_INTERVAL: u128 = 1_000_000_000;

/// The default number of batch sub-requests dispatched concurrently when a
/// batch lookup is split into chunks.
pub const DEFAULT_BATCH_CONCURRENCY: usize = 4;

/// The default value of the `User-Agent` header sent with requests.
pub const CLIENT_USER_AGENT: &'static str = "IpregistryClient/Rust/0.1.0";

/// The longest time span a `std::time::Duration` holds, in nanoseconds.
pub const DURATION_MAX_NANOS: u128 = 18_446_744_073_709_551_615_999_999_999;

/// Nanoseconds per second.
pub const NANOS_PER_SEC: u128 = 1_000_000_000;

/// `2` to the power `n`.
pub open spec fn pow2(n: nat) -> nat
    decreases n,
{
    if n == 0 {
        1
    } else {
        2 * pow2((n - 1) as nat)
    }
}

/// The delay before retry number `attempt + 1`, in nanoseconds: a positive
/// `Retry-After` delay when the server gave one, otherwise `interval`
/// doubled `attempt` times (at most 30 times), capped at the longest
/// `Duration`.
pub open spec fn backoff_spec(interval: u128, attempt: u32, retry_after: Option<u128>) -> u128 {
    match retry_after {
        Some(d) if d > 0 => d,
        _ => {
            let exp = if attempt < 30 {
                attempt as nat
            } else {
                30
            };
            let product = interval * pow2(exp);
            if product > DURATION_MAX_NANOS {
                DURATION_MAX_NANOS
            } else {
                product as u128
            }
        },
    }
}

/// An HTTP status of the `2xx` class.
pub open spec fn is_success(status: u16) -> bool {
    200 <= status <= 299
}

/// How one exchange with the API ended.
#[derive(Debug, Clone, Copy, PartialEq, Eq)]
pub enum Exchange {
    /// The request could not be sent, or no response arrived.
    SendFailed,
    /// A response arrived.
    Received {
        /// The HTTP status.
        status: u16,
        /// The `Retry-After` header as a whole number of seconds, when it
        /// holds one.
        retry_after_secs: Option<u64>,
        /// Whether the response body could be read completely.
        body_read: bool,
    },
}

/// What the client does after an exchange.
#[derive(Debug, Clone, Copy, PartialEq, Eq)]
pub enum NextStep {
    /// Hand the response body to the caller.
    Deliver,
    /// Wait this many nanoseconds, then send the request again.
    Retry { delay: u128 },
    /// Fail with the transport error of this exchange.
    FailTransport,
    /// Fail with the API error that the response describes.
    FailApi,
}

/// When and how a client retries a request.
#[derive(Debug, Clone, Copy, PartialEq, Eq)]
pub struct RetryPolicy {
    /// The maximum number of retries after the initial attempt.
    pub max_retries: u32,
    /// The base backoff between retries, in nanoseconds.
    pub retry_interval: u128,
    /// Whether `5xx` responses are retried.
    pub retry_on_server_error: bool,
    /// Whether `429 Too Many Requests` responses are retried.
    pub retry_on_too_many_requests: bool,
}

impl RetryPolicy {
    /// The base backoff fits in a `Duration`.
    pub open spec fn wf(&self) -> bool {
        self.retry_interval <= DURATION_MAX_NANOS
    }

    /// A non-2xx status is eligible for retry: `429` when retries on it are
    /// enabled, `5xx` when retries on server errors are enabled.
    pub open spec fn retries_status(&self, status: u16) -> bool {
        if status == 429 {
            self.retry_on_too_many_requests
        } else if 500 <= status < 600 {
            self.retry_on_server_error
        } else {
            false
        }
    }

    /// The step after an exchange that ended as `exchange` on attempt number
    /// `attempt` (counting from zero).
    pub open spec fn next_step_spec(&self, attempt: u32, exchange: Exchange) -> NextStep {
        let can_retry = attempt < self.max_retries;
        match exchange {
            Exchange::SendFailed => if can_retry {
                NextStep::Retry { delay: backoff_spec(self.retry_interval, attempt, None) }
            } else {
                NextStep::FailTransport
            },
            Exchange::Received { status, retry_after_secs, body_read } => if is_success(status) {
                if body_read {
                    NextStep::Deliver
                } else if can_retry {
                    NextStep::Retry { delay: backoff_spec(self.retry_interval, attempt, None) }
                } else {
                    NextStep::FailTransport
                }
            } else if self.retries_status(status) && can_retry {
                NextStep::Retry {
                    delay: backoff_spec(
                        self.retry_interval,
                        attempt,
                        match retry_after_secs {
                            Some(secs) => Some((secs * NANOS_PER_SEC) as u128),
                            None => None,
                        },
                    ),
                }
            } else {
                NextStep::FailApi
            },
        }
    }

    /// Reports whether a non-2xx status is eligible for retry given the
    /// policy.
    pub fn should_retry_status(&self, status: u16) -> (r: bool)
        ensures
            r == self.retries_status(status),
    {
        if status == 429 {
            return self.retry_on_too_many_requests;
        }
        if 500 <= status && status < 600 {
            return self.retry_on_server_error;
        }
        false
    }

    /// The delay before retry number `attempt + 1`, in nanoseconds: a
    /// positive `Retry-After` delay takes precedence; otherwise exponential
    /// backoff `interval * 2^attempt`, with the exponent capped at 30 and the
    /// delay saturating at the longest `Duration`.
    pub fn backoff(&self, attempt: u32, retry_after: Option<u128>) -> (r: u128)
        requires
            self.wf(),
        ensures
            r == backoff_spec(self.retry_interval, attempt, retry_after),
            r <= DURATION_MAX_NANOS || retry_after.is_some(),
    {
        match retry_after {
            Some(d) => {
                if d > 0 {
                    return d;
                }
            },
            None => {},
        }
        let exp: u32 = if attempt < 30 {
            attempt
        } else {
            30
        };
        let mut factor: u128 = 1;
        let mut i: u32 = 0;
        while i < exp
            invariant
                i <= exp <= 30,
                factor == pow2(i as nat),
                factor <= 0x4000_0000,
            decreases exp - i,
        {
            assert(pow2((i + 1) as nat) == 2 * pow2(i as nat));
            assert(factor * 2 <= 0x4000_0000) by {
                lemma_pow2_bound(i as nat);
            }
            factor = factor * 2;
            i = i + 1;
        }
        let interval = self.retry_interval;
        assert(interval * factor <= DURATION_MAX_NANOS * 0x4000_0000) by (nonlinear_arith)
            requires
                interval <= DURATION_MAX_NANOS,
                factor <= 0x4000_0000,
        ;
        let product = interval * factor;
        if product > DURATION_MAX_NANOS {
            DURATION_MAX_NANOS
        } else {
            product
        }
    }

    /// Decides what to do after an exchange that ended as `exchange` on
    /// attempt number `attempt` (counting from zero). Transport failures,
    /// and successful responses whose body could not be read, are retried
    /// while retries remain; non-2xx responses are retried when the policy
    /// covers their status and retries remain, honoring a positive
    /// `Retry-After`; everything else ends the request.
    pub fn next_step(&self, attempt: u32, exchange: Exchange) -> (r: NextStep)
        requires
            self.wf(),
        ensures
            r == self.next_step_spec(attempt, exchange),
            r is Retry ==> attempt < self.max_retries,
    {
        let can_retry = attempt < self.max_retries;
        match exchange {
            Exchange::SendFailed => {
                if can_retry {
                    NextStep::Retry { delay: self.backoff(attempt, None) }
                } else {
                    NextStep::FailTransport
                }
            },
            Exchange::Received { status, retry_after_secs, body_read } => {
                if 200 <= status && status <= 299 {
                    if body_read {
                        NextStep::Deliver
                    } else if can_retry {
                        NextStep::Retry { delay: self.backoff(attempt, None) }
                    } else {
                        NextStep::FailTransport
                    }
                } else if self.should_retry_status(status) && can_retry {
                    let retry_after: Option<u128> = match retry_after_secs {
                        Some(secs) => Some((secs as u128) * NANOS_PER_SEC),
                        None => None,
                    };
                    NextStep::Retry { delay: self.backoff(attempt, retry_after) }
                } else {
                    NextStep::FailApi
                }
            },
        }
    }
}

proof fn lemma_pow2_bound(i: nat)
    requires
        i < 30,
    ensures
        2 * pow2(i) <= 0x4000_0000,
    decreases 30 - i,
{
    if i < 29 {
        lemma_pow2_bound(i + 1);
        assert(pow2(i + 1) == 2 * pow2(i));
    } else {
        reveal_with_fuel(pow2, 31);
    }
}

/// Retries are bounded: a request is sent at most `max_retries + 1` times,
/// since a retry is only ever decided on attempts `0..max_retries`.
pub proof fn lemma_retries_bounded(policy: RetryPolicy, attempt: u32, exchange: Exchange)
    requires
        attempt >= policy.max_retries,
    ensures
        !(policy.next_step_spec(attempt, exchange) is Retry),
{
}

/// A positive `Retry-After` is honored for every retried status, server
/// errors as well as `429`: the retry waits exactly the number of seconds
/// the server asked for.
pub proof fn lemma_retry_after_honored(
    policy: RetryPolicy,
    attempt: u32,
    status: u16,
    secs: u64,
    body_read: bool,
)
    requires
        attempt < policy.max_retries,
        (status == 429 && policy.retry_on_too_many_requests) || (500 <= status <= 599
            && policy.retry_on_server_error),
        secs > 0,
    ensures
        policy.next_step_spec(
            attempt,
            Exchange::Received { status, retry_after_secs: Some(secs), body_read },
        ) == (NextStep::Retry { delay: (secs * 1_000_000_000) as u128 }),
{
}

/// The delay of a retry decided after an exchange, if it is one.
pub open spec fn retry_delay(step: NextStep) -> Option<u128> {
    match step {
        NextStep::Retry { delay } => Some(delay),
        _ => None,
    }
}

/// Exponential backoff without a `Retry-After`: the first retry waits the
/// base interval, and each further retry waits twice as long as the one
/// before, capped at the longest `Duration`; from the thirtieth retry on the
/// delay stops growing.
pub proof fn lemma_backoff_doubles(policy: RetryPolicy, attempt: u32)
    requires
        policy.wf(),
        attempt + 1 < policy.max_retries,
    ensures
        retry_delay(policy.next_step_spec(0, Exchange::SendFailed)) == Some(policy.retry_interval),
        ({
            let now = retry_delay(policy.next_step_spec(attempt, Exchange::SendFailed))->0;
            let next = retry_delay(
                policy.next_step_spec((attempt + 1) as u32, Exchange::SendFailed),
            )->0;
            &&& attempt < 30 ==> next == if 2 * now > DURATION_MAX_NANOS {
                DURATION_MAX_NANOS
            } else {
                (2 * now) as u128
            }
            &&& attempt >= 30 ==> next == now
        }),
{
    let i = policy.retry_interval;
    assert(pow2(0) == 1);
    if attempt < 30 {
        let p = pow2(attempt as nat);
        assert(pow2((attempt + 1) as nat) == 2 * p);
        assert(i * (2 * p) == 2 * (i * p)) by (nonlinear_arith);
    }
}

/// `429 Too Many Requests` is only retried when retries on it are enabled,
/// and a positive `Retry-After` delay then takes precedence over the backoff.
pub proof fn lemma_too_many_requests_retry(policy: RetryPolicy, attempt: u32, secs: Option<u64>, body_read: bool)
    ensures
        ({
            let step = policy.next_step_spec(
                attempt,
                Exchange::Received { status: 429, retry_after_secs: secs, body_read },
            );
            &&& (step is Retry) == (policy.retry_on_too_many_requests && attempt < policy.max_retries)
            &&& !(step is Retry) ==> step is FailApi
            &&& (step is Retry && secs is Some && secs->0 > 0) ==> step == NextStep::Retry {
                delay: (secs->0 * NANOS_PER_SEC) as u128,
            }
        }),
{
}

/// The `Retry-After` header value as a whole number of seconds: the value,
/// trimmed of white space, parsed as an unsigned integer. `None` when the
/// header is absent or not such a number (the HTTP-date form is not
/// supported).
pub open spec fn retry_after_spec(value: Option<Seq<char>>) -> Option<u64> {
    match value {
        Some(v) => parse_u64_spec(trim_spec(v)),
        None => None,
    }
}

/// Parses a `Retry-After` header value expressed as an integer number of
/// seconds. `value` is the header's text, or `None` when the header is
/// absent or not visible ASCII.
pub fn parse_retry_after(value: Option<&str>) -> (r: Option<u64>)
    ensures
        r == retry_after_spec(
            match value {
                Some(v) => Some(v@),
                None => None,
            },
        ),
{
    match value {
        Some(v) => parse_u64(&trim_chars(&chars_of(v))),
        None => None,
    }
}

// ---------------------------------------------------------------------------
// URLs, through the `url` crate.
// ---------------------------------------------------------------------------

/// What `Url::parse` gives for the text `input`: the parsed URL, or the
/// reason the text is not an absolute URL.
pub uninterp spec fn url_parse(input: Seq<char>) -> Result<Url, ParseError>;

/// Whether `Url::parse` accepts the text `input`.
pub open spec fn url_parses(input: Seq<char>) -> bool {
    url_parse(input) is Ok
}

/// `Url::parse`: parses an absolute URL. Its result, which depends on the
/// text alone, is named `url_parse`; what a parsed URL holds is not stated.
#[verifier::external_body]
fn parse_url(input: &str) -> (r: Result<Url, ParseError>)
    ensures
        r == url_parse(input@),
{
    Url::parse(input)
}

/// What `Url::cannot_be_a_base` answers for `u`.
pub uninterp spec fn url_cannot_be_base(u: Url) -> bool;

/// `Url::cannot_be_a_base`: whether the URL has no path segments to which
/// others can be appended (such as `mailto:` URLs). The answer depends on
/// the URL alone and is named `url_cannot_be_base`.
#[verifier::external_body]
fn url_cannot_be_a_base(u: &Url) -> (r: bool)
    ensures
        r == url_cannot_be_base(*u),
{
    u.cannot_be_a_base()
}

/// The text of `u`, as `Url::as_str` gives it.
pub uninterp spec fn url_text(u: Url) -> Seq<char>;

/// The number of bytes of the text of `u`.
pub open spec fn url_serialization_len(u: Url) -> nat {
    utf8_len(url_text(u))
}

/// `Url::as_str`: the URL's serialized text, which depends on the URL alone
/// and is named `url_text`.
#[verifier::external_body]
fn url_as_str(u: &Url) -> (r: &str)
    ensures
        r@ == url_text(*u),
{
    u.as_str()
}

/// The `Display` text of a `url::ParseError`.
pub uninterp spec fn parse_error_text(e: ParseError) -> Seq<char>;

/// `ParseError::to_string`: the error's `Display` text, which depends on
/// the error alone and is named `parse_error_text`.
#[verifier::external_body]
fn url_error_text(e: &ParseError) -> (r: String)
    ensures
        r@ == parse_error_text(*e),
{
    e.to_string()
}

/// `Url::clone`: an equal URL.
#[verifier::external_body]
fn url_clone(u: &Url) -> (r: Url)
    ensures
        r == *u,
{
    u.clone()
}

/// The number of bytes of the UTF-8 encoding of `s`.
pub open spec fn utf8_len(s: Seq<char>) -> nat {
    encode_utf8(s).len()
}

/// The number of bytes of the UTF-8 encoding of `s`.
fn utf8_len_of(s: &str) -> (r: usize)
    ensures
        r == utf8_len(s@),
{
    s.as_bytes().len()
}

/// The most that appending path segment `segment` can add to a URL's text:
/// a `/` and the segment percent-encoded, at most three bytes per byte.
pub open spec fn segment_growth(segment: Seq<char>) -> nat {
    1 + 3 * utf8_len(segment)
}

/// The encoded pairs, each counted as a separator, `=`, and its name and
/// value percent-encoded at most three bytes per byte.
pub open spec fn pairs_growth(pairs: Seq<(Seq<char>, Seq<char>)>) -> nat
    decreases pairs.len(),
{
    if pairs.len() == 0 {
        0
    } else {
        pairs_growth(pairs.drop_last()) + 2 + 3 * utf8_len(pairs.last().0) + 3 * utf8_len(
            pairs.last().1,
        )
    }
}

/// The most that appending `pairs` to a URL's query can add to its text:
/// a `?` and the encoded pairs.
pub open spec fn query_growth(pairs: Seq<(Seq<char>, Seq<char>)>) -> nat {
    1 + pairs_growth(pairs)
}

/// The most that building an endpoint URL adds to the base URL's text.
pub open spec fn endpoint_growth(segment: Seq<char>, params: Seq<(Seq<char>, Seq<char>)>) -> nat {
    segment_growth(segment) + if params.len() == 0 {
        0
    } else {
        query_growth(params)
    }
}

/// The growth of a prefix of the pairs is at most that of all of them.
pub proof fn lemma_pairs_growth_prefix(pairs: Seq<(Seq<char>, Seq<char>)>, i: int)
    requires
        0 <= i <= pairs.len(),
    ensures
        pairs_growth(pairs.take(i)) <= pairs_growth(pairs),
    decreases pairs.len() - i,
{
    if i < pairs.len() {
        lemma_pairs_growth_prefix(pairs, i + 1);
        assert(pairs.take(i + 1).drop_last() =~= pairs.take(i));
    } else {
        assert(pairs.take(i) =~= pairs);
    }
}

/// The parameters of a request always reach its URL: with parameters, the
/// endpoint URL is the base URL with the segment appended and then the
/// parameters added to the query, whatever the segment (also the empty
/// segment of origin and batch lookups); without parameters, the query is
/// left untouched.
pub proof fn lemma_endpoint_carries_params(
    base: Url,
    segment: Seq<char>,
    params: Seq<(Seq<char>, Seq<char>)>,
)
    ensures
        params.len() > 0 ==> endpoint_url(base, segment, params) == url_with_query(
            url_with_segment(base, segment),
            params,
        ),
        params.len() == 0 ==> endpoint_url(base, segment, params) == url_with_segment(
            base,
            segment,
        ),
{
}

/// The URL that `url_push_segment` makes of `u` and `segment`.
pub uninterp spec fn url_with_segment(u: Url, segment: Seq<char>) -> Url;

/// `Url::path_segments_mut` then `pop_if_empty` and `push`: drops an empty
/// last path segment and appends `segment` as a new one; a URL that cannot
/// be a base is left as it is. The new URL depends on the URL and the
/// segment alone, and is named `url_with_segment`; what it holds is not
/// stated.
///
/// The `url` crate unwraps the URL's length as a `u32`, so the URL's text
/// together with a `/` and the segment percent-encoded (at most three bytes
/// per byte of UTF-8) must fit in `u32::MAX` bytes; the new text is at most
/// that long.
#[verifier::external_body]
fn url_push_segment(u: &mut Url, segment: &str)
    requires
        url_serialization_len(*old(u)) + segment_growth(segment@) <= u32::MAX,
    ensures
        *final(u) == url_with_segment(*old(u), segment@),
        url_serialization_len(*final(u)) <= url_serialization_len(*old(u)) + segment_growth(
            segment@,
        ),
{
    if let Ok(mut path) = u.path_segments_mut() {
        path.pop_if_empty().push(segment);
    }
}

/// The URL that `url_extend_query` makes of `u` and `pairs`.
pub uninterp spec fn url_with_query(u: Url, pairs: Seq<(Seq<char>, Seq<char>)>) -> Url;

/// `Url::query_pairs_mut` then `extend_pairs`: appends the pairs, in order,
/// to the query, `application/x-www-form-urlencoded`. The new URL depends on
/// the URL and the pairs alone, and is named `url_with_query`; what it holds
/// is not stated.
///
/// The `url` crate unwraps the URL's length as a `u32`, so the URL's text
/// together with a `?` and the encoded pairs (a separator, `=` and at most
/// three bytes per byte of UTF-8 for each pair) must fit in `u32::MAX`
/// bytes; the new text is at most that long.
#[verifier::external_body]
fn url_extend_query(u: &mut Url, pairs: &Vec<(String, String)>)
    requires
        url_serialization_len(*old(u)) + query_growth(pairs_view(pairs@)) <= u32::MAX,
    ensures
        *final(u) == url_with_query(*old(u), pairs_view(pairs@)),
        url_serialization_len(*final(u)) <= url_serialization_len(*old(u)) + query_growth(
            pairs_view(pairs@),
        ),
{
    u.query_pairs_mut().extend_pairs(pairs.iter());
}

/// The request URL for endpoint `segment` with parameters `params`, from the
/// base URL `base`: `segment` appended as a path segment, then, when there
/// are parameters, the parameters appended to the query in name order.
pub open spec fn endpoint_url(base: Url, segment: Seq<char>, params: Seq<(Seq<char>, Seq<char>)>) -> Url {
    let pushed = url_with_segment(base, segment);
    if params.len() == 0 {
        pushed
    } else {
        url_with_query(pushed, params)
    }
}

// ---------------------------------------------------------------------------
// Client settings.
// ---------------------------------------------------------------------------

/// The settings of a client, as plain values.
pub struct ClientSettings {
    /// The API key.
    pub api_key: Seq<char>,
    /// The base URL of the API, as given.
    pub base_url: Seq<char>,
    /// The per-request timeout, in nanoseconds.
    pub timeout: u128,
    /// When and how requests are retried.
    pub retry: RetryPolicy,
    /// The maximum number of addresses per batch request.
    pub max_batch_size: usize,
    /// The number of batch sub-requests dispatched concurrently.
    pub batch_concurrency: usize,
    /// The `User-Agent` header value.
    pub user_agent: Seq<char>,
}

impl ClientSettings {
    /// The settings a client can run with: batches of `1..=MAX_BATCH_SIZE`
    /// addresses, at least one concurrent sub-request, a positive retry
    /// interval that fits in a `Duration`, and a non-empty `User-Agent`.
    pub open spec fn wf(self) -> bool {
        &&& 1 <= self.max_batch_size <= MAX_BATCH_SIZE
        &&& self.batch_concurrency >= 1
        &&& 0 < self.retry.retry_interval <= DURATION_MAX_NANOS
        &&& self.user_agent.len() > 0
    }
}

/// Builds a client configuration. Create one with [`ClientBuilder::new`].
pub struct ClientBuilder {
    api_key: String,
    base_url: String,
    timeout: u128,
    max_retries: u32,
    retry_interval: u128,
    retry_on_server_error: bool,
    retry_on_too_many_requests: bool,
    max_batch_size: usize,
    batch_concurrency: usize,
    user_agent: String,
}

impl ClientBuilder {
    /// The settings gathered so far.
    pub closed spec fn settings(&self) -> ClientSettings {
        ClientSettings {
            api_key: self.api_key@,
            base_url: self.base_url@,
            timeout: self.timeout,
            retry: RetryPolicy {
                max_retries: self.max_retries,
                retry_interval: self.retry_interval,
                retry_on_server_error: self.retry_on_server_error,
                retry_on_too_many_requests: self.retry_on_too_many_requests,
            },
            max_batch_size: self.max_batch_size,
            batch_concurrency: self.batch_concurrency,
            user_agent: self.user_agent@,
        }
    }

    /// A builder authenticating with `api_key`, with the default settings:
    /// the default base URL, a 15-second timeout, up to three retries one
    /// second apart, retries on `5xx` but not on `429`, full-size batches
    /// four at a time, and the default `User-Agent`.
    pub fn new(api_key: String) -> (r: Self)
        ensures
            r.settings().wf(),
            r.settings().api_key == api_key@,
            r.settings().base_url == DEFAULT_BASE_URL@,
            r.settings().timeout == DEFAULT_TIMEOUT,
            r.settings().retry == (RetryPolicy {
                max_retries: DEFAULT_MAX_RETRIES,
                retry_interval: DEFAULT_RETRY_INTERVAL,
                retry_on_server_error: true,
                retry_on_too_many_requests: false,
            }),
            r.settings().max_batch_size == MAX_BATCH_SIZE,
            r.settings().batch_concurrency == DEFAULT_BATCH_CONCURRENCY,
            r.settings().user_agent == CLIENT_USER_AGENT@,
    {
        let user_agent = String::from_str(CLIENT_USER_AGENT);
        proof {
            reveal_strlit("IpregistryClient/Rust/0.1.0");
        }
        ClientBuilder {
            api_key,
            base_url: String::from_str(DEFAULT_BASE_URL),
            timeout: DEFAULT_TIMEOUT,
            max_retries: DEFAULT_MAX_RETRIES,
            retry_interval: DEFAULT_RETRY_INTERVAL,
            retry_on_server_error: true,
            retry_on_too_many_requests: false,
            max_batch_size: MAX_BATCH_SIZE,
            batch_concurrency: DEFAULT_BATCH_CONCURRENCY,
            user_agent,
        }
    }

    /// Overrides the API base URL.
    pub fn base_url(self, base_url: String) -> (r: Self)
        ensures
            r.settings() == (ClientSettings { base_url: base_url@, ..self.settings() }),
    {
        let mut b = self;
        b.base_url = base_url;
        b
    }

    /// Sets the per-request timeout, in nanoseconds.
    pub fn timeout(self, timeout: u128) -> (r: Self)
        ensures
            r.settings() == (ClientSettings { timeout, ..self.settings() }),
    {
        let mut b = self;
        b.timeout = timeout;
        b
    }

    /// Sets the maximum number of automatic retries performed in addition to
    /// the initial attempt; `0` disables retries.
    pub fn max_retries(self, n: u32) -> (r: Self)
        ensures
            r.settings() == (ClientSettings {
                retry: RetryPolicy { max_retries: n, ..self.settings().retry },
                ..self.settings()
            }),
    {
        let mut b = self;
        b.max_retries = n;
        b
    }

    /// Sets the base backoff between retries, in nanoseconds. Successive
    /// retries wait `interval * 2^attempt`; a positive `Retry-After` takes
    /// precedence. Zero leaves the setting unchanged.
    pub fn retry_interval(self, interval: u128) -> (r: Self)
        requires
            interval <= DURATION_MAX_NANOS,
        ensures
            r.settings() == (ClientSettings {
                retry: RetryPolicy {
                    retry_interval: if interval > 0 {
                        interval
                    } else {
                        self.settings().retry.retry_interval
                    },
                    ..self.settings().retry
                },
                ..self.settings()
            }),
    {
        let mut b = self;
        if interval > 0 {
            b.retry_interval = interval;
        }
        b
    }

    /// Controls whether `5xx` responses are retried.
    pub fn retry_on_server_error(self, enabled: bool) -> (r: Self)
        ensures
            r.settings() == (ClientSettings {
                retry: RetryPolicy { retry_on_server_error: enabled, ..self.settings().retry },
                ..self.settings()
            }),
    {
        let mut b = self;
        b.retry_on_server_error = enabled;
        b
    }

    /// Controls whether `429 Too Many Requests` responses are retried.
    pub fn retry_on_too_many_requests(self, enabled: bool) -> (r: Self)
        ensures
            r.settings() == (ClientSettings {
                retry: RetryPolicy { retry_on_too_many_requests: enabled, ..self.settings().retry },
                ..self.settings()
            }),
    {
        let mut b = self;
        b.retry_on_too_many_requests = enabled;
        b
    }

    /// Sets the maximum number of IP addresses sent in a single batch
    /// request, clamped to `1..=MAX_BATCH_SIZE`; `0` leaves the setting
    /// unchanged.
    pub fn max_batch_size(self, n: usize) -> (r: Self)
        ensures
            r.settings() == (ClientSettings {
                max_batch_size: if n == 0 {
                    self.settings().max_batch_size
                } else if n > MAX_BATCH_SIZE {
                    MAX_BATCH_SIZE
                } else {
                    n
                },
                ..self.settings()
            }),
    {
        let mut b = self;
        if n > 0 {
            b.max_batch_size = if n < MAX_BATCH_SIZE {
                n
            } else {
                MAX_BATCH_SIZE
            };
        }
        b
    }

    /// Sets how many batch sub-requests are dispatched concurrently when a
    /// batch is split into chunks; `0` leaves the setting unchanged.
    pub fn batch_concurrency(self, n: usize) -> (r: Self)
        ensures
            r.settings() == (ClientSettings {
                batch_concurrency: if n > 0 {
                    n
                } else {
                    self.settings().batch_concurrency
                },
                ..self.settings()
            }),
    {
        let mut b = self;
        if n > 0 {
            b.batch_concurrency = n;
        }
        b
    }

    /// Overrides the `User-Agent` header sent with requests; an empty value
    /// leaves the setting unchanged.
    pub fn user_agent(self, user_agent: String) -> (r: Self)
        ensures
            r.settings() == (ClientSettings {
                user_agent: if user_agent@.len() > 0 {
                    user_agent@
                } else {
                    self.settings().user_agent
                },
                ..self.settings()
            }),
    {
        let mut b = self;
        if user_agent.unicode_len() > 0 {
            b.user_agent = user_agent;
        }
        b
    }

    /// The base URL set so far, as given.
    pub fn configured_base_url(&self) -> (r: &String)
        ensures
            r@ == self.settings().base_url,
    {
        &self.base_url
    }

    /// The per-request timeout set so far, in nanoseconds.
    pub fn configured_timeout(&self) -> (r: u128)
        ensures
            r == self.settings().timeout,
    {
        self.timeout
    }

    /// The retry policy set so far.
    pub fn configured_retry_policy(&self) -> (r: RetryPolicy)
        ensures
            r == self.settings().retry,
    {
        RetryPolicy {
            max_retries: self.max_retries,
            retry_interval: self.retry_interval,
            retry_on_server_error: self.retry_on_server_error,
            retry_on_too_many_requests: self.retry_on_too_many_requests,
        }
    }

    /// The maximum number of addresses per batch request set so far.
    pub fn configured_max_batch_size(&self) -> (r: usize)
        ensures
            r == self.settings().max_batch_size,
    {
        self.max_batch_size
    }

    /// The number of concurrent batch sub-requests set so far.
    pub fn configured_batch_concurrency(&self) -> (r: usize)
        ensures
            r == self.settings().batch_concurrency,
    {
        self.batch_concurrency
    }

    /// The `User-Agent` header value set so far.
    pub fn configured_user_agent(&self) -> (r: &String)
        ensures
            r@ == self.settings().user_agent,
    {
        &self.user_agent
    }

    /// Validates the settings into a client configuration.
    ///
    /// The base URL, without trailing `/`, must be an absolute URL that can
    /// be a base; otherwise the result is [`Error::Config`] with a message
    /// starting `invalid base URL: `. For a URL that parses but cannot be a
    /// base, the message is `invalid base URL: <base URL> cannot be a base`;
    /// for one that does not parse, the prefix is followed by the `url`
    /// crate's description of the parse error.
    pub fn build(self) -> (r: Result<ClientConfig, Error>)
        ensures
            r is Ok <==> (url_parse(trim_slashes_spec(self.settings().base_url)) matches Ok(u)
                && !url_cannot_be_base(u)),
            r matches Err(e) ==> (e matches Error::Config(m) && "invalid base URL: "@.is_prefix_of(m@)),
            url_parse(trim_slashes_spec(self.settings().base_url)) matches Err(e) ==> (r matches Err(
                Error::Config(m),
            ) && m@ == "invalid base URL: "@ + parse_error_text(e)),
            (url_parse(trim_slashes_spec(self.settings().base_url)) matches Ok(u)
                && url_cannot_be_base(u)) ==> (r matches Err(Error::Config(m)) && m@
                == "invalid base URL: "@ + self.settings().base_url + " cannot be a base"@),
            r matches Ok(c) ==> {
                &&& url_parses(trim_slashes_spec(self.settings().base_url))
                &&& c.settings() == (ClientSettings {
                    base_url: trim_slashes_spec(self.settings().base_url),
                    ..self.settings()
                })
            },
    {
        let trimmed = string_of(&trim_trailing_slashes(&chars_of(self.base_url.as_str())));
        let prefix = String::from_str("invalid base URL: ");
        let base = match parse_url(trimmed.as_str()) {
            Ok(u) => u,
            Err(e) => {
                let mut message = prefix;
                let text = url_error_text(&e);
                message.append(text.as_str());
                assert("invalid base URL: "@.is_prefix_of(message@)) by {
                    assert(message@.subrange(0, "invalid base URL: "@.len() as int)
                        =~= "invalid base URL: "@);
                }
                return Err(Error::Config(message));
            },
        };
        if url_cannot_be_a_base(&base) {
            let mut message = prefix;
            message.append(self.base_url.as_str());
            message.append(" cannot be a base");
            assert("invalid base URL: "@.is_prefix_of(message@)) by {
                assert(message@.subrange(0, "invalid base URL: "@.len() as int)
                    =~= "invalid base URL: "@);
            }
            return Err(Error::Config(message));
        }
        Ok(ClientConfig {
            api_key: self.api_key,
            base_url_text: trimmed,
            base_url: base,
            timeout: self.timeout,
            retry: RetryPolicy {
                max_retries: self.max_retries,
                retry_interval: self.retry_interval,
                retry_on_server_error: self.retry_on_server_error,
                retry_on_too_many_requests: self.retry_on_too_many_requests,
            },
            max_batch_size: self.max_batch_size,
            batch_concurrency: self.batch_concurrency,
            user_agent: self.user_agent,
        })
    }
}

/// A validated client configuration. Build one with [`ClientBuilder::build`].
pub struct ClientConfig {
    api_key: String,
    base_url_text: String,
    base_url: Url,
    timeout: u128,
    retry: RetryPolicy,
    max_batch_size: usize,
    batch_concurrency: usize,
    user_agent: String,
}

impl ClientConfig {
    /// The parsed base URL is what `Url::parse` gives for the base URL text.
    #[verifier::type_invariant]
    spec fn base_url_is_parsed(self) -> bool {
        url_parse(self.base_url_text@) == Ok::<Url, ParseError>(self.base_url)
    }

    /// The settings of the client; the base URL is the text that was parsed.
    pub closed spec fn settings(&self) -> ClientSettings {
        ClientSettings {
            api_key: self.api_key@,
            base_url: self.base_url_text@,
            timeout: self.timeout,
            retry: self.retry,
            max_batch_size: self.max_batch_size,
            batch_concurrency: self.batch_concurrency,
            user_agent: self.user_agent@,
        }
    }

    /// The `Authorization` header value: `ApiKey ` followed by the key.
    pub fn authorization(&self) -> (r: String)
        ensures
            r@ == "ApiKey "@ + self.settings().api_key,
    {
        let mut value = String::from_str("ApiKey ");
        value.append(self.api_key.as_str());
        value
    }

    /// The `User-Agent` header value.
    pub fn user_agent(&self) -> (r: &String)
        ensures
            r@ == self.settings().user_agent,
    {
        &self.user_agent
    }

    /// The per-request timeout, in nanoseconds.
    pub fn timeout(&self) -> (r: u128)
        ensures
            r == self.settings().timeout,
    {
        self.timeout
    }

    /// When and how requests are retried.
    pub fn retry_policy(&self) -> (r: RetryPolicy)
        ensures
            r == self.settings().retry,
    {
        self.retry
    }

    /// The maximum number of addresses per batch request.
    pub fn max_batch_size(&self) -> (r: usize)
        ensures
            r == self.settings().max_batch_size,
    {
        self.max_batch_size
    }

    /// The number of batch sub-requests dispatched concurrently.
    pub fn batch_concurrency(&self) -> (r: usize)
        ensures
            r == self.settings().batch_concurrency,
    {
        self.batch_concurrency
    }

    /// The base URL as it was parsed.
    pub fn base_url(&self) -> (r: &String)
        ensures
            r@ == self.settings().base_url,
    {
        &self.base_url_text
    }

    /// The endpoint URL for `segment` and `params` stays within the `u32::MAX`
    /// bytes that the `url` crate can hold: the parsed base URL's text plus
    /// what the segment and the query can add to it.
    pub open spec fn endpoint_fits(
        &self,
        segment: Seq<char>,
        params: Seq<(Seq<char>, Seq<char>)>,
    ) -> bool {
        url_parse(self.settings().base_url) matches Ok(base) ==> url_serialization_len(base)
            + endpoint_growth(segment, params) <= u32::MAX
    }

    /// The text of the parsed base URL, as the `url` crate serializes it.
    pub fn parsed_base_url(&self) -> (r: &str)
        ensures
            url_parse(self.settings().base_url) matches Ok(base) && r@ == url_text(base),
    {
        proof {
            use_type_invariant(self);
        }
        url_as_str(&self.base_url)
    }

    /// The length in bytes of the text of the parsed base URL.
    pub fn base_url_len(&self) -> (r: usize)
        ensures
            url_parse(self.settings().base_url) matches Ok(base) && r == url_serialization_len(
                base,
            ),
    {
        proof {
            use_type_invariant(self);
        }
        utf8_len_of(url_as_str(&self.base_url))
    }

    /// Builds the request URL for the given endpoint segment, as
    /// [`ClientConfig::endpoint`] does, when it stays within the length the
    /// `url` crate can hold; `None` otherwise.
    pub fn checked_endpoint(&self, segment: &str, params: &QueryParams) -> (r: Option<Url>)
        ensures
            r is Some <==> self.endpoint_fits(segment@, params.pairs()),
            r matches Some(u) ==> (url_parse(self.settings().base_url) matches Ok(base) && u
                == endpoint_url(base, segment@, params.pairs())),
    {
        proof {
            use_type_invariant(self);
        }
        let limit: u128 = 0xFFFF_FFFF;
        let base_len = utf8_len_of(url_as_str(&self.base_url));
        let mut total: u128 = base_len as u128 + 1 + 3 * (utf8_len_of(segment) as u128);
        if total > limit {
            return None;
        }
        if !params.is_empty() {
            total = total + 1;
            let pairs = params.as_pairs();
            let ghost pv = pairs_view(pairs@);
            assert(pv.take(0) =~= Seq::<(Seq<char>, Seq<char>)>::empty());
            let mut i: usize = 0;
            while i < pairs.len()
                invariant
                    url_parse(self.settings().base_url) == Ok::<Url, ParseError>(self.base_url),
                    base_len == url_serialization_len(self.base_url),
                    i <= pairs@.len(),
                    pv == pairs_view(pairs@),
                    pv == params.pairs(),
                    pv.len() > 0,
                    total == base_len + segment_growth(segment@) + 1 + pairs_growth(
                        pv.take(i as int),
                    ),
                    limit == 0xFFFF_FFFF,
                    total <= 2 * limit + 1,
                decreases pairs@.len() - i,
            {
                if total > limit {
                    proof {
                        lemma_pairs_growth_prefix(pv, i as int);
                        assert(endpoint_growth(segment@, pv) == segment_growth(segment@) + 1
                            + pairs_growth(pv));
                        assert(!self.endpoint_fits(segment@, params.pairs()));
                    }
                    return None;
                }
                let name_len = utf8_len_of(pairs[i].0.as_str());
                let value_len = utf8_len_of(pairs[i].1.as_str());
                proof {
                    assert(pv.take(i + 1).drop_last() =~= pv.take(i as int));
                    assert(pv.take(i + 1).last() == pv[i as int]);
                }
                let grow: u128 = 2 + 3 * (name_len as u128) + 3 * (value_len as u128);
                if grow > limit {
                    proof {
                        lemma_pairs_growth_prefix(pv, i + 1);
                        assert(pairs_growth(pv.take(i + 1)) == pairs_growth(pv.take(i as int))
                            + grow);
                        assert(endpoint_growth(segment@, pv) == segment_growth(segment@) + 1
                            + pairs_growth(pv));
                        assert(!self.endpoint_fits(segment@, params.pairs()));
                    }
                    return None;
                }
                total = total + grow;
                i = i + 1;
            }
            proof {
                assert(pv.take(i as int) =~= pv);
            }
        }
        if total > limit {
            return None;
        }
        Some(self.endpoint(segment, params))
    }

    /// Builds the request URL for the given endpoint segment: the base URL
    /// with an empty last path segment dropped and `segment` appended, and
    /// the parameters, when there are any, as the query. An empty segment
    /// targets the origin (requester) endpoint. The base URL is the parse of
    /// the configured base URL text.
    pub fn endpoint(&self, segment: &str, params: &QueryParams) -> (r: Url)
        requires
            self.endpoint_fits(segment@, params.pairs()),
        ensures
            url_parse(self.settings().base_url) matches Ok(base) && r == endpoint_url(
                base,
                segment@,
                params.pairs(),
            ),
            url_parse(self.settings().base_url) matches Ok(base) && (params.pairs().len() > 0 ==> r
                == url_with_query(url_with_segment(base, segment@), params.pairs())),
    {
        proof {
            use_type_invariant(self);
        }
        let mut url = url_clone(&self.base_url);
        url_push_segment(&mut url, segment);
        if !params.is_empty() {
            url_extend_query(&mut url, params.as_pairs());
        }
        url
    }
}

} // verus!
