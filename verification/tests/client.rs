use ipregistry::client::parse_retry_after;
use ipregistry::params::cache_key;
use ipregistry::{
    ClientBuilder, DEFAULT_BATCH_CONCURRENCY, DEFAULT_MAX_RETRIES, DEFAULT_RETRY_INTERVAL, Error,
    Exchange, MAX_BATCH_SIZE, NextStep, QueryParams, RetryPolicy,
};

fn params(pairs: &[(&str, &str)]) -> QueryParams {
    let mut p = QueryParams::new();
    for (k, v) in pairs {
        p.insert(k.to_string(), v.to_string());
    }
    p
}

#[test]
fn cache_key_without_params_is_the_ip() {
    assert_eq!(cache_key("8.8.8.8", &QueryParams::new()), "8.8.8.8");
}

#[test]
fn cache_key_is_deterministic_and_order_independent() {
    let a = params(&[("hostname", "true"), ("fields", "location")]);
    let b = params(&[("fields", "location"), ("hostname", "true")]);
    assert_eq!(cache_key("8.8.8.8", &a), cache_key("8.8.8.8", &b));
    assert_eq!(
        cache_key("8.8.8.8", &a),
        "8.8.8.8;fields=location&hostname=true"
    );
}

#[test]
fn cache_key_serializes_reserved_characters() {
    let p = params(&[("fields", "location.country.name,security"), ("x y", "é&=")]);
    assert_eq!(
        cache_key("2001:db8::1", &p),
        "2001:db8::1;fields=location.country.name%2Csecurity&x+y=%C3%A9%26%3D"
    );
}

#[test]
fn later_values_replace_earlier_ones() {
    let p = QueryParams::new()
        .hostname(true)
        .fields("location".to_owned())
        .hostname(false)
        .param("extra".to_owned(), "1".to_owned());
    assert_eq!(
        cache_key("1.1.1.1", &p),
        "1.1.1.1;extra=1&fields=location&hostname=false"
    );
}

#[test]
fn endpoint_builds_expected_urls() {
    let client = ClientBuilder::new("k".to_owned())
        .base_url("https://example.test/sub/".to_owned())
        .build()
        .unwrap();
    assert_eq!(
        client.endpoint("8.8.8.8", &QueryParams::new()).as_str(),
        "https://example.test/sub/8.8.8.8"
    );
    assert_eq!(
        client.endpoint("", &QueryParams::new()).as_str(),
        "https://example.test/sub/"
    );
    assert_eq!(
        client
            .endpoint("8.8.8.8", &params(&[("hostname", "true")]))
            .as_str(),
        "https://example.test/sub/8.8.8.8?hostname=true"
    );
}

#[test]
fn build_rejects_invalid_base_url() {
    assert!(matches!(
        ClientBuilder::new("k".to_owned())
            .base_url("not a url".to_owned())
            .build(),
        Err(Error::Config(_))
    ));
}

#[test]
fn build_rejects_a_base_url_that_cannot_be_a_base() {
    match ClientBuilder::new("k".to_owned())
        .base_url("mailto:someone@example.test".to_owned())
        .build()
    {
        Err(Error::Config(message)) => assert_eq!(
            message,
            "invalid base URL: mailto:someone@example.test cannot be a base"
        ),
        _ => panic!("expected a configuration error"),
    }
}

#[test]
fn build_trims_trailing_slashes_of_the_base_url() {
    let client = ClientBuilder::new("k".to_owned())
        .base_url("https://example.test///".to_owned())
        .build()
        .unwrap();
    assert_eq!(client.base_url(), "https://example.test");
    assert_eq!(client.authorization(), "ApiKey k");
}

#[test]
fn batch_settings_are_clamped() {
    let client = ClientBuilder::new("k".to_owned())
        .max_batch_size(50_000)
        .batch_concurrency(0)
        .build()
        .unwrap();
    assert_eq!(client.max_batch_size(), MAX_BATCH_SIZE);
    assert_eq!(client.batch_concurrency(), DEFAULT_BATCH_CONCURRENCY);

    let client = ClientBuilder::new("k".to_owned())
        .max_batch_size(0)
        .build()
        .unwrap();
    assert_eq!(client.max_batch_size(), MAX_BATCH_SIZE);
}

#[test]
fn builder_defaults_and_overrides() {
    let client = ClientBuilder::new("k".to_owned()).build().unwrap();
    assert_eq!(client.user_agent(), "IpregistryClient/Rust/0.1.0");
    assert_eq!(
        client.retry_policy(),
        RetryPolicy {
            max_retries: DEFAULT_MAX_RETRIES,
            retry_interval: DEFAULT_RETRY_INTERVAL,
            retry_on_server_error: true,
            retry_on_too_many_requests: false,
        }
    );
    let client = ClientBuilder::new("k".to_owned())
        .user_agent(String::new())
        .retry_interval(0)
        .build()
        .unwrap();
    assert_eq!(client.user_agent(), "IpregistryClient/Rust/0.1.0");
    assert_eq!(client.retry_policy().retry_interval, DEFAULT_RETRY_INTERVAL);
    let client = ClientBuilder::new("k".to_owned())
        .user_agent("me/1".to_owned())
        .retry_interval(5)
        .max_retries(0)
        .retry_on_server_error(false)
        .retry_on_too_many_requests(true)
        .max_batch_size(7)
        .batch_concurrency(2)
        .timeout(9)
        .build()
        .unwrap();
    assert_eq!(client.user_agent(), "me/1");
    assert_eq!(
        client.retry_policy(),
        RetryPolicy {
            max_retries: 0,
            retry_interval: 5,
            retry_on_server_error: false,
            retry_on_too_many_requests: true,
        }
    );
    assert_eq!(client.max_batch_size(), 7);
    assert_eq!(client.batch_concurrency(), 2);
    assert_eq!(client.timeout(), 9);
}

#[test]
fn parse_retry_after_header() {
    assert_eq!(parse_retry_after(None), None);
    assert_eq!(parse_retry_after(Some("7")), Some(7));
    assert_eq!(parse_retry_after(Some("-1")), None);
    assert_eq!(parse_retry_after(Some("Wed, 21 Oct 2015 07:28:00 GMT")), None);
}

#[test]
fn parse_retry_after_edge_cases() {
    assert_eq!(parse_retry_after(Some(" 12 ")), Some(12));
    assert_eq!(parse_retry_after(Some("+3")), Some(3));
    assert_eq!(parse_retry_after(Some("+")), None);
    assert_eq!(parse_retry_after(Some("")), None);
    assert_eq!(
        parse_retry_after(Some("18446744073709551615")),
        Some(u64::MAX)
    );
    assert_eq!(parse_retry_after(Some("18446744073709551616")), None);
    assert_eq!(parse_retry_after(Some("1 2")), None);
}

fn policy(max_retries: u32, server: bool, too_many: bool) -> RetryPolicy {
    RetryPolicy {
        max_retries,
        retry_interval: 1_000,
        retry_on_server_error: server,
        retry_on_too_many_requests: too_many,
    }
}

fn received(status: u16, retry_after_secs: Option<u64>) -> Exchange {
    Exchange::Received {
        status,
        retry_after_secs,
        body_read: true,
    }
}

#[test]
fn server_errors_are_retried_by_default_with_exponential_backoff() {
    let p = policy(3, true, false);
    assert_eq!(p.next_step(0, received(500, None)), NextStep::Retry { delay: 1_000 });
    assert_eq!(p.next_step(1, received(503, None)), NextStep::Retry { delay: 2_000 });
    assert_eq!(p.next_step(2, received(599, None)), NextStep::Retry { delay: 4_000 });
    assert_eq!(p.next_step(3, received(500, None)), NextStep::FailApi);
    assert_eq!(p.next_step(0, received(200, None)), NextStep::Deliver);
}

#[test]
fn server_error_retries_can_be_disabled() {
    let p = policy(3, false, false);
    assert_eq!(p.next_step(0, received(500, None)), NextStep::FailApi);
}

#[test]
fn too_many_requests_is_retried_only_when_enabled() {
    assert_eq!(
        policy(3, true, false).next_step(0, received(429, Some(1))),
        NextStep::FailApi
    );
    assert_eq!(
        policy(3, true, true).next_step(0, received(429, Some(1))),
        NextStep::Retry { delay: 1_000_000_000 }
    );
    assert_eq!(
        policy(3, true, true).next_step(2, received(429, Some(0))),
        NextStep::Retry { delay: 4_000 }
    );
}

#[test]
fn transport_failures_are_retried_regardless_of_status_settings() {
    let p = policy(1, false, false);
    assert_eq!(p.next_step(0, Exchange::SendFailed), NextStep::Retry { delay: 1_000 });
    assert_eq!(p.next_step(1, Exchange::SendFailed), NextStep::FailTransport);
    let unread = Exchange::Received {
        status: 200,
        retry_after_secs: None,
        body_read: false,
    };
    assert_eq!(p.next_step(0, unread), NextStep::Retry { delay: 1_000 });
    assert_eq!(p.next_step(1, unread), NextStep::FailTransport);
    assert_eq!(policy(0, true, true).next_step(0, Exchange::SendFailed), NextStep::FailTransport);
}

#[test]
fn client_errors_are_never_retried() {
    let p = policy(5, true, true);
    for status in [400u16, 401, 403, 404, 499, 600, 302] {
        assert_eq!(p.next_step(0, received(status, Some(1))), NextStep::FailApi);
    }
}

#[test]
fn backoff_exponent_is_capped_and_delays_saturate() {
    let p = policy(100, true, false);
    assert_eq!(p.backoff(30, None), 1_000u128 << 30);
    assert_eq!(p.backoff(31, None), 1_000u128 << 30);
    assert_eq!(p.backoff(u32::MAX, Some(0)), 1_000u128 << 30);
    assert_eq!(p.backoff(0, Some(5)), 5);
    let huge = RetryPolicy {
        retry_interval: ipregistry::client::DURATION_MAX_NANOS,
        ..p
    };
    assert_eq!(huge.backoff(1, None), ipregistry::client::DURATION_MAX_NANOS);
    assert!(p.should_retry_status(500));
    assert!(!p.should_retry_status(429));
}

#[test]
fn checked_endpoint_builds_the_same_url_within_bounds() {
    let client = ClientBuilder::new("k".to_owned())
        .base_url("https://example.test/sub/".to_owned())
        .build()
        .unwrap();
    assert_eq!(client.base_url_len(), "https://example.test/sub".len());
    let checked = client
        .checked_endpoint("8.8.8.8", &params(&[("hostname", "true")]))
        .unwrap();
    assert_eq!(
        checked.as_str(),
        "https://example.test/sub/8.8.8.8?hostname=true"
    );
}

#[test]
fn cache_keys_differ_for_different_lookups() {
    let none = cache_key("8.8.8.8", &QueryParams::new());
    let hostname = cache_key("8.8.8.8", &params(&[("hostname", "true")]));
    let other_ip = cache_key("8.8.4.4", &params(&[("hostname", "true")]));
    let other_value = cache_key("8.8.8.8", &params(&[("hostname", "false")]));
    let tricky = cache_key("8.8.8.8", &params(&[("a", "b&c=d")]));
    let split = cache_key("8.8.8.8", &params(&[("a", "b"), ("c", "d")]));
    let keys = [none, hostname, other_ip, other_value, tricky, split];
    for i in 0..keys.len() {
        for j in 0..keys.len() {
            assert_eq!(i == j, keys[i] == keys[j], "{} vs {}", keys[i], keys[j]);
        }
    }
}

#[test]
fn build_reports_the_parse_error_text() {
    match ClientBuilder::new("k".to_owned())
        .base_url("not a url".to_owned())
        .build()
    {
        Err(Error::Config(message)) => assert_eq!(
            message,
            "invalid base URL: relative URL without a base"
        ),
        _ => panic!("expected a configuration error"),
    }
}

#[test]
fn parsed_base_url_is_the_normalized_text() {
    let config = ClientBuilder::new("k".to_owned())
        .base_url("HTTPS://Example.TEST".to_owned())
        .build()
        .unwrap();
    assert_eq!(config.parsed_base_url(), "https://example.test/");
    assert_eq!(config.base_url(), "HTTPS://Example.TEST");
}

#[test]
fn builder_reports_its_settings() {
    let builder = ClientBuilder::new("k".to_owned())
        .base_url("https://example.test".to_owned())
        .timeout(5)
        .max_retries(7)
        .max_batch_size(10)
        .batch_concurrency(2)
        .user_agent("agent/1".to_owned());
    assert_eq!(builder.configured_base_url(), "https://example.test");
    assert_eq!(builder.configured_timeout(), 5);
    assert_eq!(builder.configured_retry_policy().max_retries, 7);
    assert_eq!(builder.configured_max_batch_size(), 10);
    assert_eq!(builder.configured_batch_concurrency(), 2);
    assert_eq!(builder.configured_user_agent(), "agent/1");
}
