use malcolm::environment::{entries, split_entry, Environment};
use malcolm::metrics::otel::{
    check_transport, OtelConfig, OtelError, OtelProtocol, OtelRecorderError,
};
use malcolm::metrics::statsd::{Dialect, StatsdConfig, StatsdError};
use malcolm::metrics::timeout::Timeout;

fn env(entries: &[(&str, &str)]) -> Environment {
    Environment {
        vars: entries
            .iter()
            .map(|(k, v)| ((*k).to_owned(), (*v).to_owned()))
            .collect(),
    }
}

fn lookup_err(entries: &[(&str, &str)]) -> OtelError {
    match OtelConfig::from_lookup(&env(entries)) {
        Ok(_) => panic!("expected an error"),
        Err(e) => e,
    }
}

fn otel(entries: &[(&str, &str)]) -> OtelConfig {
    OtelConfig::from_lookup(&env(entries)).expect("must parse")
}

fn statsd(entries: &[(&str, &str)]) -> StatsdConfig {
    StatsdConfig::from_lookup(&env(entries)).expect("must parse")
}

#[test]
fn missing_endpoint_when_env_is_empty_returns_typed_error() {
    let err = lookup_err(&[]);
    assert!(matches!(err, OtelError::MissingEndpoint));
}

#[test]
fn defaults_apply_when_endpoint_present_but_other_vars_absent() {
    let cfg = otel(&[("OTEL_EXPORTER_OTLP_ENDPOINT", "http://x")]);
    assert_eq!(cfg.protocol, OtelProtocol::Grpc);
    assert_eq!(cfg.timeout, Timeout::from_secs(10));
    assert_eq!(cfg.service_name, "malcolm");
    assert!(cfg.headers.is_empty());
}

#[test]
fn missing_endpoint_returns_typed_error() {
    let err = lookup_err(&[("OTEL_SERVICE_NAME", "demo")]);
    assert!(matches!(err, OtelError::MissingEndpoint));
}

#[test]
fn blank_endpoint_counts_as_missing() {
    let err = lookup_err(&[("OTEL_EXPORTER_OTLP_ENDPOINT", " \t ")]);
    assert_eq!(err, OtelError::MissingEndpoint);
    assert_eq!(
        err.describe(),
        "OTEL_EXPORTER_OTLP_ENDPOINT must be set for OpenTelemetry export"
    );
}

#[test]
fn explicit_endpoint_and_protocol_parse_correctly() {
    let cfg = otel(&[
        ("OTEL_EXPORTER_OTLP_ENDPOINT", "http://collector:4318"),
        ("OTEL_EXPORTER_OTLP_PROTOCOL", "http/protobuf"),
        ("OTEL_SERVICE_NAME", "resilience-runner"),
        ("OTEL_EXPORTER_OTLP_TIMEOUT", "30"),
    ]);
    assert_eq!(cfg.endpoint, "http://collector:4318");
    assert_eq!(cfg.protocol, OtelProtocol::Http);
    assert_eq!(cfg.service_name, "resilience-runner");
    assert_eq!(cfg.timeout, Timeout::from_secs(30));
}

#[test]
fn grpc_protocol_accepts_both_canonical_and_lowercase() {
    for raw in ["grpc", "GRPC", "gRpc"] {
        let cfg = otel(&[
            ("OTEL_EXPORTER_OTLP_ENDPOINT", "http://x"),
            ("OTEL_EXPORTER_OTLP_PROTOCOL", raw),
        ]);
        assert_eq!(cfg.protocol, OtelProtocol::Grpc);
    }
}

#[test]
fn blank_protocol_falls_back_to_grpc() {
    let cfg = otel(&[
        ("OTEL_EXPORTER_OTLP_ENDPOINT", "http://x"),
        ("OTEL_EXPORTER_OTLP_PROTOCOL", "  "),
    ]);
    assert_eq!(cfg.protocol, OtelProtocol::Grpc);
    let http = otel(&[
        ("OTEL_EXPORTER_OTLP_ENDPOINT", "http://x"),
        ("OTEL_EXPORTER_OTLP_PROTOCOL", " HTTP "),
    ]);
    assert_eq!(http.protocol, OtelProtocol::Http);
}

#[test]
fn invalid_protocol_returns_typed_error() {
    let err = lookup_err(&[
        ("OTEL_EXPORTER_OTLP_ENDPOINT", "http://x"),
        ("OTEL_EXPORTER_OTLP_PROTOCOL", "websocket"),
    ]);
    assert!(
        matches!(err, OtelError::InvalidProtocol(ref inner) if inner.0 == "websocket"),
        "expected InvalidProtocol(websocket), got {err:?}",
    );
    assert_eq!(
        err.describe(),
        "invalid OTEL_EXPORTER_OTLP_PROTOCOL value: websocket"
    );
}

#[test]
fn headers_parse_with_multiple_entries_and_value_containing_equals() {
    let cfg = otel(&[
        ("OTEL_EXPORTER_OTLP_ENDPOINT", "http://x"),
        (
            "OTEL_EXPORTER_OTLP_HEADERS",
            "Authorization=Bearer abc==,x-foo=bar",
        ),
    ]);
    assert_eq!(
        cfg.headers,
        vec![
            ("Authorization".to_owned(), "Bearer abc==".to_owned()),
            ("x-foo".to_owned(), "bar".to_owned()),
        ]
    );
}

#[test]
fn headers_malformed_entry_returns_typed_error() {
    let err = lookup_err(&[
        ("OTEL_EXPORTER_OTLP_ENDPOINT", "http://x"),
        ("OTEL_EXPORTER_OTLP_HEADERS", "good=ok,bad-entry"),
    ]);
    assert!(matches!(err, OtelError::MalformedHeaders(ref s) if s == "bad-entry"));
    assert_eq!(
        err.describe(),
        "malformed OTEL_EXPORTER_OTLP_HEADERS entry: bad-entry"
    );
}

#[test]
fn invalid_timeout_returns_typed_error() {
    let err = lookup_err(&[
        ("OTEL_EXPORTER_OTLP_ENDPOINT", "http://x"),
        ("OTEL_EXPORTER_OTLP_TIMEOUT", "thirty"),
    ]);
    assert!(matches!(err, OtelError::InvalidTimeout(ref s) if s == "thirty"));
}

#[test]
fn zero_timeout_is_not_positive() {
    let err = lookup_err(&[
        ("OTEL_EXPORTER_OTLP_ENDPOINT", "http://x"),
        ("OTEL_EXPORTER_OTLP_TIMEOUT", "0"),
    ]);
    assert_eq!(err, OtelError::InvalidTimeout("0".to_owned()));
    assert_eq!(err.describe(), "invalid OTEL_EXPORTER_OTLP_TIMEOUT value: 0");
}

#[test]
fn otel_default_for_tests_has_stable_shape() {
    let cfg = OtelConfig::default_for_tests();
    assert_eq!(cfg.endpoint, "http://localhost:4317");
    assert_eq!(cfg.protocol, OtelProtocol::Grpc);
    assert_eq!(cfg.service_name, "malcolm");
    assert_eq!(cfg.timeout, Timeout::from_secs(10));
    assert!(cfg.headers.is_empty());
}

#[test]
fn transport_must_be_built_in() {
    assert_eq!(check_transport(OtelProtocol::Grpc, true, false), Ok(()));
    assert_eq!(
        check_transport(OtelProtocol::Http, true, false),
        Err(OtelRecorderError::TransportFeature(
            "otel-http required for OTLP/HTTP export".to_owned()
        ))
    );
    assert_eq!(
        check_transport(OtelProtocol::Grpc, false, true),
        Err(OtelRecorderError::TransportFeature(
            "otel-grpc required for OTLP/gRPC export".to_owned()
        ))
    );
    let none = check_transport(OtelProtocol::Grpc, false, false).unwrap_err();
    assert_eq!(
        none.describe(),
        "transport feature required: enable either `otel-grpc` or `otel-http` to use with_otlp_exporter"
    );
}

#[test]
fn recorder_errors_are_described() {
    assert_eq!(
        OtelRecorderError::Shutdown.describe(),
        "OpenTelemetry recorder has been shut down"
    );
    assert_eq!(
        OtelRecorderError::Sdk("x".to_owned()).describe(),
        "OpenTelemetry SDK error: x"
    );
    assert_eq!(
        OtelRecorderError::ExporterBuild("y".to_owned()).describe(),
        "OTLP exporter build failed: y"
    );
}

#[test]
fn statsd_default_for_tests_has_stable_shape() {
    let cfg = StatsdConfig::default_for_tests();
    assert_eq!(cfg.host, "127.0.0.1");
    assert_eq!(cfg.port, 8125);
    assert!(cfg.prefix.is_empty());
    assert_eq!(cfg.dialect, Dialect::Statsd);
    assert!(cfg.constant_tags.is_empty());
    assert_eq!(cfg.max_packet_bytes, 1432);
    assert_eq!(cfg.timeout, Timeout::from_millis(100));
}

#[test]
fn defaults_apply_when_env_is_empty() {
    let cfg = statsd(&[]);
    assert_eq!(cfg.host, "127.0.0.1");
    assert_eq!(cfg.port, 8125);
    assert_eq!(cfg.dialect, Dialect::Statsd);
}

#[test]
fn dd_agent_env_vars_parse_correctly() {
    let cfg = statsd(&[
        ("DD_AGENT_HOST", "datadog-agent.prod"),
        ("DD_DOGSTATSD_PORT", "18125"),
        ("MALCOLM_STATSD_PREFIX", "malcolm.chaos"),
        ("MALCOLM_STATSD_DIALECT", "dogstatsd"),
    ]);
    assert_eq!(cfg.host, "datadog-agent.prod");
    assert_eq!(cfg.port, 18125);
    assert_eq!(cfg.prefix, "malcolm.chaos");
    assert_eq!(cfg.dialect, Dialect::DogStatsd);
}

#[test]
fn dialect_accepts_both_canonical_and_datadog_alias() {
    for raw in ["statsd", "STATSd", "dogstatsd", "datadog", "DOGSTATSD"] {
        let cfg = statsd(&[("MALCOLM_STATSD_DIALECT", raw)]);
        let expected =
            if raw.eq_ignore_ascii_case("dogstatsd") || raw.eq_ignore_ascii_case("datadog") {
                Dialect::DogStatsd
            } else {
                Dialect::Statsd
            };
        assert_eq!(cfg.dialect, expected, "dialect {raw} misparsed");
    }
}

#[test]
fn constant_tags_parse_from_dd_tags_env() {
    let cfg = statsd(&[("DD_TAGS", "env:prod,team:chaos,svc:malcolm")]);
    assert_eq!(
        cfg.constant_tags,
        vec![
            ("env".to_owned(), "prod".to_owned()),
            ("team".to_owned(), "chaos".to_owned()),
            ("svc".to_owned(), "malcolm".to_owned()),
        ]
    );
}

#[test]
fn malcolm_statsd_tags_falls_back_when_dd_tags_absent() {
    let cfg = statsd(&[("MALCOLM_STATSD_TAGS", "k:v")]);
    assert_eq!(cfg.constant_tags, vec![("k".to_owned(), "v".to_owned())]);
}

#[test]
fn dd_tags_wins_over_malcolm_statsd_tags_when_both_set() {
    let cfg = statsd(&[
        ("DD_TAGS", "from:dd"),
        ("MALCOLM_STATSD_TAGS", "from:malcolm"),
    ]);
    assert_eq!(
        cfg.constant_tags,
        vec![("from".to_owned(), "dd".to_owned())]
    );
}

#[test]
fn first_source_of_tags_that_is_not_blank_wins() {
    let cfg = statsd(&[("DD_TAGS", "  "), ("MALCOLM_STATSD_TAGS", " a = b , junk,")]);
    assert_eq!(cfg.constant_tags, vec![("a".to_owned(), "b".to_owned())]);
}

#[test]
fn invalid_port_returns_typed_error() {
    let err = StatsdConfig::from_lookup(&env(&[("DD_DOGSTATSD_PORT", "not-a-port")]))
        .expect_err("non-numeric port must error");
    assert!(matches!(err, StatsdError::InvalidPort(ref s) if s == "not-a-port"));
    assert_eq!(err.describe(), "invalid statsd port: not-a-port");
}

#[test]
fn out_of_range_port_returns_typed_error() {
    let err = StatsdConfig::from_lookup(&env(&[("DD_DOGSTATSD_PORT", "65536")]))
        .expect_err("port > 65535 must error");
    assert!(matches!(err, StatsdError::InvalidPort(_)));
    assert_eq!(statsd(&[("DD_DOGSTATSD_PORT", " 65535 ")]).port, 65535);
}

#[test]
fn custom_max_bytes_and_timeout_parse() {
    let cfg = statsd(&[
        ("MALCOLM_STATSD_MAX_BYTES", "1024"),
        ("MALCOLM_STATSD_TIMEOUT_MS", "50"),
    ]);
    assert_eq!(cfg.max_packet_bytes, 1024);
    assert_eq!(cfg.timeout, Timeout::from_millis(50));
    let unread = statsd(&[("MALCOLM_STATSD_TIMEOUT_MS", "soon")]);
    assert_eq!(unread.timeout, Timeout::from_millis(100));
}

#[test]
fn invalid_max_bytes_returns_typed_error() {
    let err = StatsdConfig::from_lookup(&env(&[("MALCOLM_STATSD_MAX_BYTES", "huge")]))
        .expect_err("non-numeric max must error");
    assert!(matches!(err, StatsdError::InvalidMaxBytes(ref s) if s == "huge"));
}

#[test]
fn zero_max_bytes_is_not_positive() {
    let err = StatsdConfig::from_lookup(&env(&[("MALCOLM_STATSD_MAX_BYTES", "0")])).unwrap_err();
    assert_eq!(err, StatsdError::InvalidMaxBytes("0".to_owned()));
    assert_eq!(err.describe(), "invalid statsd max_packet_bytes: 0");
}

#[test]
fn environment_takes_the_first_entry() {
    let e = env(&[("A", "1"), ("B", " "), ("A", "2")]);
    assert_eq!(e.lookup("A"), Some("1".to_owned()));
    assert_eq!(e.lookup("C"), None);
    assert_eq!(e.lookup("B"), Some(" ".to_owned()));
    assert_eq!(e.lookup_filled("B"), None);
}

#[test]
fn lists_are_split_and_trimmed() {
    assert_eq!(entries(" a ,, b,"), vec!["a".to_owned(), "b".to_owned()]);
    assert!(entries("").is_empty());
    assert_eq!(
        split_entry(" k = v = w ", '='),
        Some(("k".to_owned(), "v = w".to_owned()))
    );
    assert_eq!(split_entry("plain", '='), None);
}

#[test]
fn timeouts_are_exact_to_the_nanosecond() {
    let short = Timeout::from_millis(100);
    assert_eq!((short.as_secs(), short.subsec_nanos()), (0, 100_000_000));
    assert_eq!(Timeout::from_millis(2_050), Timeout::new(2, 50_000_000));
    assert_eq!(Timeout::from_millis(3_000), Timeout::from_secs(3));
    let longest = Timeout::from_secs(u64::MAX);
    assert_eq!((longest.as_secs(), longest.subsec_nanos()), (u64::MAX, 0));
    let finest = Timeout::new(0, 1);
    assert_eq!((finest.as_secs(), finest.subsec_nanos()), (0, 1));
}

#[test]
fn configurations_can_be_copied() {
    let mut otel = OtelConfig::default_for_tests();
    otel.timeout = Timeout::from_millis(100);
    otel.headers.push(("k".to_owned(), "v".to_owned()));
    let copy = otel.clone();
    assert_eq!(copy.endpoint, "http://localhost:4317");
    assert_eq!(copy.protocol, OtelProtocol::Grpc);
    assert_eq!(copy.headers, vec![("k".to_owned(), "v".to_owned())]);
    assert_eq!(copy.service_name, "malcolm");
    assert_eq!(copy.timeout, Timeout::from_millis(100));
    let mut statsd = StatsdConfig::default_for_tests();
    statsd.constant_tags.push(("env".to_owned(), "prod".to_owned()));
    statsd.port = 9125;
    let copy = statsd.clone();
    assert_eq!(copy.host, "127.0.0.1");
    assert_eq!(copy.port, 9125);
    assert_eq!(copy.prefix, "");
    assert_eq!(copy.dialect, Dialect::Statsd);
    assert_eq!(copy.constant_tags, vec![("env".to_owned(), "prod".to_owned())]);
    assert_eq!(copy.max_packet_bytes, 1432);
    assert_eq!(copy.timeout, Timeout::from_millis(100));
}
