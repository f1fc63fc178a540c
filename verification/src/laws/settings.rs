//! Laws of the settings that exporters read from the environment.

use crate::environment::{entry_pair, list_entries, Environment};
use crate::metrics::otel::{headers_of, protocol_of, OtelErrorView, OtelProtocol, OtelView};
use crate::metrics::statsd::{tag_of_entry, tags_of, Dialect, StatsdErrorView, StatsdView};
use crate::text::{decimal, lower, parsed_unsigned, trimmed};
use vstd::prelude::*;

verus! {

/// Headers are read entry by entry: if each has a key and a value, those are the headers, in
/// order; otherwise the first entry without is the one that is reported.
pub proof fn headers_are_read_entry_by_entry(list: Seq<Seq<char>>)
    ensures
        match headers_of(list) {
            Ok(headers) => {
                &&& headers.len() == list.len()
                &&& forall|i: int|
                    0 <= i < list.len() ==> entry_pair(#[trigger] list[i], '=') == Some(headers[i])
            },
            Err(e) => exists|k: int|
                {
                    &&& 0 <= k < list.len()
                    &&& e == OtelErrorView::MalformedHeaders(#[trigger] list[k])
                    &&& entry_pair(list[k], '=') is None
                    &&& forall|i: int| 0 <= i < k ==> entry_pair(#[trigger] list[i], '=') is Some
                },
        },
    decreases list.len(),
{
    if list.len() > 0 {
        let front = list.drop_last();
        headers_are_read_entry_by_entry(front);
        assert(forall|i: int| 0 <= i < front.len() ==> front[i] == #[trigger] list[i]);
        assert(list[list.len() - 1] == list.last());
        match headers_of(front) {
            Ok(h) => {
                assert forall|i: int| 0 <= i < front.len() implies entry_pair(
                    #[trigger] list[i],
                    '=',
                ) == Some(h[i]) by {
                    assert(front[i] == list[i]);
                }
            },
            Err(e) => {
                let k = choose|k: int|
                    {
                        &&& 0 <= k < front.len()
                        &&& e == OtelErrorView::MalformedHeaders(#[trigger] front[k])
                        &&& entry_pair(front[k], '=') is None
                        &&& forall|i: int|
                            0 <= i < k ==> entry_pair(#[trigger] front[i], '=') is Some
                    };
                assert(list[k] == front[k]);
                assert forall|i: int| 0 <= i < k implies entry_pair(
                    #[trigger] list[i],
                    '=',
                ) is Some by {
                    assert(front[i] == list[i]);
                }
            },
        }
    }
}

/// Tags are read entry by entry, in order; an entry that is no tag is passed over.
pub proof fn tags_are_read_entry_by_entry(list: Seq<Seq<char>>)
    ensures
        tags_of(list) == list.filter_map(|entry: Seq<char>| tag_of_entry(entry)),
    decreases list.len(),
{
    if list.len() > 0 {
        tags_are_read_entry_by_entry(list.drop_last());
        if let Some(pair) = tag_of_entry(list.last()) {
            let front = tags_of(list.drop_last());
            assert(front.push(pair) =~= front + seq![pair]);
        }
    }
}

/// A tag is split at its first colon, or at its first equals sign if it has no colon; an entry
/// with neither is no tag.
pub proof fn tags_are_split_at_the_colon(key: Seq<char>, value: Seq<char>)
    requires
        !key.contains(':'),
    ensures
        tag_of_entry(key + seq![':'] + value) == Some((trimmed(key), trimmed(value))),
        !key.contains('=') && !value.contains(':') ==> tag_of_entry(key + seq!['='] + value) == Some(
            (trimmed(key), trimmed(value)),
        ),
        !key.contains('=') ==> tag_of_entry(key) is None,
{
    crate::laws::words::entries_are_split_once(key, value, ':');
    if !key.contains('=') {
        crate::laws::words::entries_are_split_once(key, value, '=');
    }
    if !key.contains('=') && !value.contains(':') {
        let s = key + seq!['='] + value;
        assert(!s.contains(':')) by {
            assert forall|k: int| 0 <= k < s.len() implies s[k] != ':' by {
                if k < key.len() {
                    assert(key.contains(key[k]));
                } else if k > key.len() {
                    assert(value.contains(value[k - key.len() - 1]));
                }
            }
        }
        crate::laws::words::entries_are_split_once(s, Seq::empty(), ':');
    }
}

/// The name of a protocol counts whatever its case and the white space around it: `grpc`,
/// `http` and `http/protobuf` are known, nothing at all leaves it open, and anything else is
/// reported in small letters.
pub proof fn protocols_are_known_by_name(raw: Seq<char>)
    ensures
        lower(trimmed(raw)) == "grpc"@ ==> protocol_of(raw) == Ok::<
            Option<OtelProtocol>,
            Seq<char>,
        >(Some(OtelProtocol::Grpc)),
        lower(trimmed(raw)) == "http"@ || lower(trimmed(raw)) == "http/protobuf"@ ==> protocol_of(
            raw,
        ) == Ok::<Option<OtelProtocol>, Seq<char>>(Some(OtelProtocol::Http)),
        trimmed(raw).len() == 0 ==> protocol_of(raw) == Ok::<Option<OtelProtocol>, Seq<char>>(None),
        protocol_of(raw) matches Err(name) ==> name == lower(trimmed(raw)),
        protocol_of(raw) is Err <==> trimmed(raw).len() > 0 && lower(trimmed(raw)) != "grpc"@
            && lower(trimmed(raw)) != "http"@ && lower(trimmed(raw)) != "http/protobuf"@,
{
    reveal_strlit("");
    reveal_strlit("grpc");
    reveal_strlit("http");
    reveal_strlit("http/protobuf");
    assert("grpc"@.len() == 4 && "http"@.len() == 4 && "http/protobuf"@.len() == 13);
    assert("grpc"@[0] == 'g' && "http"@[0] == 'h');
    assert(lower(trimmed(raw)).len() == trimmed(raw).len());
    if trimmed(raw).len() == 0 {
        assert(lower(trimmed(raw)) =~= ""@);
    }
}

/// A variable is the value of its first entry, and one that holds nothing but white space
/// counts as unset.
pub proof fn blank_variables_are_unset(env: Environment, name: Seq<char>)
    ensures
        env.filled(name) is Some <==> env.value(name) is Some && trimmed(
            env.value(name)->Some_0,
        ).len() > 0,
        env.filled(name) is Some ==> env.filled(name) == env.value(name),
{
}

/// The exporter over StatsD takes each field from its own variable: what is unset has its
/// default, a number is taken as it was written, and what is no number for a port or a packet
/// size is reported, the port first.
pub proof fn each_variable_sets_its_field(env: Environment, n: nat, raw: Seq<char>)
    ensures
        crate::metrics::statsd::env_config(env) matches Ok(c) ==> {
            &&& env.filled("DD_AGENT_HOST"@) matches Some(host) ==> c.host == host
            &&& env.filled("DD_AGENT_HOST"@) is None ==> c.host == "127.0.0.1"@
            &&& env.filled("MALCOLM_STATSD_PREFIX"@) matches Some(prefix) ==> c.prefix == prefix
            &&& env.filled("MALCOLM_STATSD_PREFIX"@) is None ==> c.prefix.len() == 0
            &&& env.filled("DD_DOGSTATSD_PORT"@) is None ==> c.port == 8125
            &&& env.filled("DD_DOGSTATSD_PORT"@) == Some(raw) && trimmed(raw) == decimal(n)
                ==> c.port == n
            &&& env.filled("MALCOLM_STATSD_MAX_BYTES"@) is None ==> c.max_packet_bytes == 1432
            &&& env.filled("MALCOLM_STATSD_MAX_BYTES"@) == Some(raw) && trimmed(raw) == decimal(n)
                ==> c.max_packet_bytes == n
            &&& env.filled("MALCOLM_STATSD_TIMEOUT_MS"@) is None ==> c.timeout_ns == 100_000_000
            &&& env.filled("MALCOLM_STATSD_TIMEOUT_MS"@) == Some(raw) && trimmed(raw) == decimal(n)
                && n <= u64::MAX ==> c.timeout_ns == n * 1_000_000
            &&& c.dialect == Dialect::DogStatsd <==> (
            env.filled("MALCOLM_STATSD_DIALECT"@) matches Some(d) && (lower(trimmed(d))
                == "dogstatsd"@ || lower(trimmed(d)) == "datadog"@))
            &&& env.filled("DD_TAGS"@) matches Some(list) ==> c.constant_tags == tags_of(
                list_entries(list),
            )
            &&& env.filled("DD_TAGS"@) is None ==> c.constant_tags == match env.filled(
                "MALCOLM_STATSD_TAGS"@,
            ) {
                Some(list) => tags_of(list_entries(list)),
                None => Seq::empty(),
            }
        },
        env.filled("DD_DOGSTATSD_PORT"@) is None && env.filled("MALCOLM_STATSD_MAX_BYTES"@) is None
            ==> crate::metrics::statsd::env_config(env) is Ok,
        env.filled("DD_DOGSTATSD_PORT"@) == Some(raw) && (forall|k: nat|
            k <= 65535 ==> parsed_unsigned(trimmed(raw), 65535) != Some(k))
            ==> crate::metrics::statsd::env_config(env) == Err::<StatsdView, StatsdErrorView>(
            StatsdErrorView::InvalidPort(raw),
        ),
        env.filled("MALCOLM_STATSD_MAX_BYTES"@) == Some(raw) && trimmed(raw) == decimal(0)
            ==> crate::metrics::statsd::env_config(env) is Err,
        crate::metrics::statsd::env_config(env) == Err::<StatsdView, StatsdErrorView>(
            StatsdErrorView::InvalidMaxBytes(raw),
        ) ==> env.filled("MALCOLM_STATSD_MAX_BYTES"@) == Some(raw),
        crate::metrics::statsd::env_config(env) == Err::<StatsdView, StatsdErrorView>(
            StatsdErrorView::InvalidPort(raw),
        ) ==> env.filled("DD_DOGSTATSD_PORT"@) == Some(raw),
{
    numbers_within_bounds(n, 65535);
    numbers_within_bounds(n, usize::MAX as nat);
    numbers_within_bounds(n, u64::MAX as nat);
    numbers_within_bounds(0, usize::MAX as nat);
    bounded_numbers(trimmed(raw), 65535);
}

proof fn numbers_within_bounds(n: nat, max: nat)
    ensures
        parsed_unsigned(decimal(n), max) matches Some(k) ==> k == n,
        n <= max ==> parsed_unsigned(decimal(n), max) == Some(n),
{
    if n <= max {
        crate::text::parsed_decimal(n, max);
    } else {
        crate::text::parsed_decimal(n, n);
        bounded_numbers(decimal(n), max);
    }
}

proof fn bounded_numbers(s: Seq<char>, max: nat)
    ensures
        parsed_unsigned(s, max) matches Some(k) ==> k <= max,
{
}

/// The exporter over OTLP needs an endpoint; protocol, headers, name and timeout each come from
/// their own variable and have a default. Zero seconds are no timeout.
pub proof fn each_variable_sets_its_option(env: Environment, n: nat, raw: Seq<char>)
    ensures
        env.filled("OTEL_EXPORTER_OTLP_ENDPOINT"@) is None ==> crate::metrics::otel::env_config(env)
            == Err::<OtelView, OtelErrorView>(OtelErrorView::MissingEndpoint),
        crate::metrics::otel::env_config(env) matches Ok(c) ==> {
            &&& env.filled("OTEL_EXPORTER_OTLP_ENDPOINT"@) == Some(c.endpoint)
            &&& env.filled("OTEL_SERVICE_NAME"@) matches Some(name) ==> c.service_name == name
            &&& env.filled("OTEL_SERVICE_NAME"@) is None ==> c.service_name == "malcolm"@
            &&& env.filled("OTEL_EXPORTER_OTLP_TIMEOUT"@) is None ==> c.timeout_ns == 10_000_000_000
            &&& env.filled("OTEL_EXPORTER_OTLP_TIMEOUT"@) == Some(raw) && trimmed(raw) == decimal(n)
                ==> n > 0 && c.timeout_ns == n * 1_000_000_000
            &&& env.filled("OTEL_EXPORTER_OTLP_HEADERS"@) is None ==> c.headers.len() == 0
            &&& env.filled("OTEL_EXPORTER_OTLP_HEADERS"@) matches Some(list) ==> headers_of(
                list_entries(list),
            ) == Ok::<Seq<(Seq<char>, Seq<char>)>, OtelErrorView>(c.headers)
            &&& env.value("OTEL_EXPORTER_OTLP_PROTOCOL"@) is None ==> c.protocol
                == OtelProtocol::Grpc
            &&& env.value("OTEL_EXPORTER_OTLP_PROTOCOL"@) matches Some(name) ==> protocol_of(name)
                == Ok::<Option<OtelProtocol>, Seq<char>>(Some(c.protocol)) || (protocol_of(name)
                == Ok::<Option<OtelProtocol>, Seq<char>>(None) && c.protocol == OtelProtocol::Grpc)
        },
        env.filled("OTEL_EXPORTER_OTLP_ENDPOINT"@) is Some && env.value(
            "OTEL_EXPORTER_OTLP_PROTOCOL"@,
        ) is None && env.filled("OTEL_EXPORTER_OTLP_HEADERS"@) is None && env.filled(
            "OTEL_EXPORTER_OTLP_TIMEOUT"@,
        ) is None ==> crate::metrics::otel::env_config(env) is Ok,
        crate::metrics::otel::env_config(env) == Err::<OtelView, OtelErrorView>(
            OtelErrorView::InvalidTimeout(raw),
        ) ==> env.filled("OTEL_EXPORTER_OTLP_TIMEOUT"@) == Some(raw),
{
    numbers_within_bounds(n, u64::MAX as nat);
    if let Some(list) = env.filled("OTEL_EXPORTER_OTLP_HEADERS"@) {
        headers_are_read_entry_by_entry(list_entries(list));
    }
}

} // verus!
