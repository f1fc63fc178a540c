//! Configuration of the OpenTelemetry exporter, and the state of its recorder.

use crate::environment::{
    copy_pairs, entries, entry_pair, list_entries, pair_views, split_entry, Environment,
};
use crate::metrics::timeout::Timeout;
use crate::metrics::{update_for, update_of, MetricSample, Series, UnknownNames, Update};
use crate::text;
use crate::text::{lower, parsed_unsigned, trimmed};
use vstd::prelude::*;

verus! {

/// Scope under which the instruments are made.
pub const METER_SCOPE: &'static str = "malcolm";

/// Wire protocol of the export.
#[derive(Clone, Copy, Debug, PartialEq, Eq, Structural)]
pub enum OtelProtocol {
    /// gRPC.
    Grpc,
    /// HTTP with protobuf bodies.
    Http,
}

/// A protocol name that is not known.
#[derive(Debug, PartialEq, Eq)]
pub struct OtelProtocolError(pub String);

/// What a protocol name stands for: `Ok(None)` if it is blank, `Err` with the name
/// in small letters if it is not known.
pub open spec fn protocol_of(raw: Seq<char>) -> Result<Option<OtelProtocol>, Seq<char>> {
    let name = lower(trimmed(raw));
    if name == ""@ {
        Ok(None)
    } else if name == "grpc"@ {
        Ok(Some(OtelProtocol::Grpc))
    } else if name == "http"@ || name == "http/protobuf"@ {
        Ok(Some(OtelProtocol::Http))
    } else {
        Err(name)
    }
}

impl OtelProtocol {
    /// Reads a protocol name.
    pub fn from_env_str(raw: &str) -> (r: Result<Option<OtelProtocol>, OtelProtocolError>)
        ensures
            match r {
                Ok(p) => protocol_of(raw@) == Ok::<Option<OtelProtocol>, Seq<char>>(p),
                Err(e) => protocol_of(raw@) == Err::<Option<OtelProtocol>, Seq<char>>(e.0@),
            },
    {
        let shown = text::trim(raw);
        let name = text::to_lower(shown.as_str());
        if text::same(name.as_str(), "") {
            Ok(None)
        } else if text::same(name.as_str(), "grpc") {
            Ok(Some(OtelProtocol::Grpc))
        } else if text::same(name.as_str(), "http") || text::same(name.as_str(), "http/protobuf") {
            Ok(Some(OtelProtocol::Http))
        } else {
            Err(OtelProtocolError(name))
        }
    }
}

/// Configuration of the exporter.
#[derive(Debug)]
pub struct OtelConfig {
    /// Collector endpoint.
    pub endpoint: String,
    /// Wire protocol.
    pub protocol: OtelProtocol,
    /// Additional headers.
    pub headers: Vec<(String, String)>,
    /// Service name attached to all that is exported.
    pub service_name: String,
    /// Timeout of one export.
    pub timeout: Timeout,
}

/// Model of a configuration.
pub struct OtelView {
    pub endpoint: Seq<char>,
    pub protocol: OtelProtocol,
    pub headers: Seq<(Seq<char>, Seq<char>)>,
    pub service_name: Seq<char>,
    pub timeout_ns: nat,
}

impl View for OtelConfig {
    type V = OtelView;

    open spec fn view(&self) -> OtelView {
        OtelView {
            endpoint: self.endpoint@,
            protocol: self.protocol,
            headers: pair_views(self.headers@),
            service_name: self.service_name@,
            timeout_ns: self.timeout.nanoseconds(),
        }
    }
}

impl Clone for OtelConfig {
    fn clone(&self) -> (r: Self)
        ensures
            r@ == self@,
    {
        OtelConfig {
            endpoint: self.endpoint.clone(),
            protocol: self.protocol,
            headers: copy_pairs(&self.headers),
            service_name: self.service_name.clone(),
            timeout: self.timeout,
        }
    }
}

/// Why no configuration could be read.
#[derive(Debug, PartialEq, Eq)]
pub enum OtelError {
    /// The endpoint is not set or blank.
    MissingEndpoint,
    /// The protocol is not known.
    InvalidProtocol(OtelProtocolError),
    /// The timeout is not a positive integer.
    InvalidTimeout(String),
    /// A header entry has no `=`.
    MalformedHeaders(String),
}

/// Model of a configuration error.
pub enum OtelErrorView {
    MissingEndpoint,
    InvalidProtocol(Seq<char>),
    InvalidTimeout(Seq<char>),
    MalformedHeaders(Seq<char>),
}

impl View for OtelError {
    type V = OtelErrorView;

    open spec fn view(&self) -> OtelErrorView {
        match *self {
            OtelError::MissingEndpoint => OtelErrorView::MissingEndpoint,
            OtelError::InvalidProtocol(e) => OtelErrorView::InvalidProtocol(e.0@),
            OtelError::InvalidTimeout(raw) => OtelErrorView::InvalidTimeout(raw@),
            OtelError::MalformedHeaders(entry) => OtelErrorView::MalformedHeaders(entry@),
        }
    }
}

impl OtelError {
    /// The error in words.
    pub fn describe(&self) -> (r: String)
        ensures
            r@ == match self@ {
                OtelErrorView::MissingEndpoint =>
                    "OTEL_EXPORTER_OTLP_ENDPOINT must be set for OpenTelemetry export"@,
                OtelErrorView::InvalidProtocol(name) =>
                    "invalid OTEL_EXPORTER_OTLP_PROTOCOL value: "@ + name,
                OtelErrorView::InvalidTimeout(raw) =>
                    "invalid OTEL_EXPORTER_OTLP_TIMEOUT value: "@ + raw,
                OtelErrorView::MalformedHeaders(entry) =>
                    "malformed OTEL_EXPORTER_OTLP_HEADERS entry: "@ + entry,
            },
    {
        match self {
            OtelError::MissingEndpoint =>
                "OTEL_EXPORTER_OTLP_ENDPOINT must be set for OpenTelemetry export".to_owned(),
            OtelError::InvalidProtocol(e) => text::concat(
                "invalid OTEL_EXPORTER_OTLP_PROTOCOL value: ",
                e.0.as_str(),
            ),
            OtelError::InvalidTimeout(raw) => text::concat(
                "invalid OTEL_EXPORTER_OTLP_TIMEOUT value: ",
                raw.as_str(),
            ),
            OtelError::MalformedHeaders(entry) => text::concat(
                "malformed OTEL_EXPORTER_OTLP_HEADERS entry: ",
                entry.as_str(),
            ),
        }
    }
}

/// The headers of a list of entries, or the first entry that is malformed.
pub open spec fn headers_of(list: Seq<Seq<char>>) -> Result<
    Seq<(Seq<char>, Seq<char>)>,
    OtelErrorView,
>
    decreases list.len(),
{
    if list.len() == 0 {
        Ok(Seq::empty())
    } else {
        match headers_of(list.drop_last()) {
            Err(e) => Err(e),
            Ok(front) => match entry_pair(list.last(), '=') {
                Some(pair) => Ok(front.push(pair)),
                None => Err(OtelErrorView::MalformedHeaders(list.last())),
            },
        }
    }
}

proof fn failed_prefix_fails(list: Seq<Seq<char>>, k: int)
    requires
        0 <= k <= list.len(),
        headers_of(list.take(k)) is Err,
    ensures
        headers_of(list) == headers_of(list.take(k)),
    decreases list.len() - k,
{
    if k < list.len() {
        assert(list.take(k + 1).drop_last() =~= list.take(k));
        failed_prefix_fails(list, k + 1);
    } else {
        assert(list.take(k) =~= list);
    }
}

/// Reads a comma-separated list of `key=value` headers. Values may hold `=`.
pub fn parse_headers(raw: &str) -> (r: Result<Vec<(String, String)>, OtelError>)
    ensures
        match r {
            Ok(headers) => headers_of(list_entries(raw@)) == Ok::<
                Seq<(Seq<char>, Seq<char>)>,
                OtelErrorView,
            >(pair_views(headers@)),
            Err(e) => headers_of(list_entries(raw@)) == Err::<
                Seq<(Seq<char>, Seq<char>)>,
                OtelErrorView,
            >(e@),
        },
{
    let list = entries(raw);
    let ghost all = text::views(list@);
    let mut out: Vec<(String, String)> = Vec::new();
    let mut i: usize = 0;
    assert(all.take(0) =~= Seq::empty());
    assert(pair_views(out@) =~= Seq::empty());
    while i < list.len()
        invariant
            i <= list@.len(),
            all == text::views(list@),
            headers_of(all.take(i as int)) == Ok::<Seq<(Seq<char>, Seq<char>)>, OtelErrorView>(
                pair_views(out@),
            ),
            all == list_entries(raw@),
        decreases list@.len() - i,
    {
        let ghost before = pair_views(out@);
        proof {
            assert(all.take(i + 1).drop_last() =~= all.take(i as int));
            assert(all.take(i + 1).last() == list@[i as int]@);
        }
        match split_entry(list[i].as_str(), '=') {
            Some(pair) => {
                out.push(pair);
                assert(pair_views(out@) =~= before.push((pair.0@, pair.1@)));
            },
            None => {
                proof {
                    failed_prefix_fails(all, i + 1);
                }
                return Err(OtelError::MalformedHeaders(list[i].clone()));
            },
        }
        i += 1;
    }
    assert(all.take(all.len() as int) =~= all);
    Ok(out)
}

/// What the environment says of the protocol; gRPC if it says nothing.
pub open spec fn env_protocol(env: Environment) -> Result<OtelProtocol, OtelErrorView> {
    match env.value("OTEL_EXPORTER_OTLP_PROTOCOL"@) {
        None => Ok(OtelProtocol::Grpc),
        Some(raw) => match protocol_of(raw) {
            Ok(Some(p)) => Ok(p),
            Ok(None) => Ok(OtelProtocol::Grpc),
            Err(name) => Err(OtelErrorView::InvalidProtocol(name)),
        },
    }
}

/// What the environment says of the headers; none if it says nothing.
pub open spec fn env_headers(env: Environment) -> Result<
    Seq<(Seq<char>, Seq<char>)>,
    OtelErrorView,
> {
    match env.filled("OTEL_EXPORTER_OTLP_HEADERS"@) {
        None => Ok(Seq::empty()),
        Some(raw) => headers_of(list_entries(raw)),
    }
}

/// What the environment says of the timeout in seconds; ten if it says nothing.
pub open spec fn env_timeout(env: Environment) -> Result<u64, OtelErrorView> {
    match env.filled("OTEL_EXPORTER_OTLP_TIMEOUT"@) {
        None => Ok(10),
        Some(raw) => match parsed_unsigned(trimmed(raw), u64::MAX as nat) {
            Some(n) => if n > 0 {
                Ok(n as u64)
            } else {
                Err(OtelErrorView::InvalidTimeout(raw))
            },
            None => Err(OtelErrorView::InvalidTimeout(raw)),
        },
    }
}

/// The configuration that the environment describes. The first fault in the order
/// endpoint, protocol, headers, timeout is reported.
pub open spec fn env_config(env: Environment) -> Result<OtelView, OtelErrorView> {
    match env.filled("OTEL_EXPORTER_OTLP_ENDPOINT"@) {
        None => Err(OtelErrorView::MissingEndpoint),
        Some(endpoint) => match env_protocol(env) {
            Err(e) => Err(e),
            Ok(protocol) => match env_headers(env) {
                Err(e) => Err(e),
                Ok(headers) => match env_timeout(env) {
                    Err(e) => Err(e),
                    Ok(timeout_secs) => Ok(
                        OtelView {
                            endpoint,
                            protocol,
                            headers,
                            service_name: match env.filled("OTEL_SERVICE_NAME"@) {
                                Some(name) => name,
                                None => "malcolm"@,
                            },
                            timeout_ns: timeout_secs as nat * 1_000_000_000,
                        },
                    ),
                },
            },
        },
    }
}

fn read_protocol(env: &Environment) -> (r: Result<OtelProtocol, OtelError>)
    ensures
        match r {
            Ok(p) => env_protocol(*env) == Ok::<OtelProtocol, OtelErrorView>(p),
            Err(e) => env_protocol(*env) == Err::<OtelProtocol, OtelErrorView>(e@),
        },
{
    match env.lookup("OTEL_EXPORTER_OTLP_PROTOCOL") {
        None => Ok(OtelProtocol::Grpc),
        Some(raw) => match OtelProtocol::from_env_str(raw.as_str()) {
            Ok(Some(p)) => Ok(p),
            Ok(None) => Ok(OtelProtocol::Grpc),
            Err(e) => Err(OtelError::InvalidProtocol(e)),
        },
    }
}

fn read_timeout(env: &Environment) -> (r: Result<u64, OtelError>)
    ensures
        match r {
            Ok(t) => env_timeout(*env) == Ok::<u64, OtelErrorView>(t),
            Err(e) => env_timeout(*env) == Err::<u64, OtelErrorView>(e@),
        },
{
    match env.lookup_filled("OTEL_EXPORTER_OTLP_TIMEOUT") {
        None => Ok(10),
        Some(raw) => {
            let digits = text::trim(raw.as_str());
            match text::parse_unsigned(digits.as_str(), u64::MAX) {
                Some(n) => if n > 0 {
                    Ok(n)
                } else {
                    Err(OtelError::InvalidTimeout(raw))
                },
                None => Err(OtelError::InvalidTimeout(raw)),
            }
        },
    }
}

impl OtelConfig {
    /// The local collector over gRPC, service `malcolm`, ten seconds.
    pub fn default_for_tests() -> (r: Self)
        ensures
            r@ == (OtelView {
                endpoint: "http://localhost:4317"@,
                protocol: OtelProtocol::Grpc,
                headers: Seq::empty(),
                service_name: "malcolm"@,
                timeout_ns: 10_000_000_000,
            }),
    {
        let headers: Vec<(String, String)> = Vec::new();
        assert(pair_views(headers@) =~= Seq::empty());
        OtelConfig {
            endpoint: "http://localhost:4317".to_owned(),
            protocol: OtelProtocol::Grpc,
            headers,
            service_name: "malcolm".to_owned(),
            timeout: Timeout::from_secs(10),
        }
    }

    /// Reads the configuration from a snapshot of the environment.
    pub fn from_lookup(env: &Environment) -> (r: Result<OtelConfig, OtelError>)
        ensures
            match r {
                Ok(config) => env_config(*env) == Ok::<OtelView, OtelErrorView>(config@),
                Err(e) => env_config(*env) == Err::<OtelView, OtelErrorView>(e@),
            },
    {
        let endpoint = match env.lookup_filled("OTEL_EXPORTER_OTLP_ENDPOINT") {
            Some(endpoint) => endpoint,
            None => {
                return Err(OtelError::MissingEndpoint);
            },
        };
        let protocol = match read_protocol(env) {
            Ok(p) => p,
            Err(e) => {
                return Err(e);
            },
        };
        let headers: Vec<(String, String)> = match env.lookup_filled("OTEL_EXPORTER_OTLP_HEADERS") {
            Some(raw) => match parse_headers(raw.as_str()) {
                Ok(headers) => headers,
                Err(e) => {
                    return Err(e);
                },
            },
            None => {
                let none: Vec<(String, String)> = Vec::new();
                assert(pair_views(none@) =~= Seq::empty());
                none
            },
        };
        let service_name = match env.lookup_filled("OTEL_SERVICE_NAME") {
            Some(name) => name,
            None => "malcolm".to_owned(),
        };
        let timeout_secs: u64 = match read_timeout(env) {
            Ok(t) => t,
            Err(e) => {
                return Err(e);
            },
        };
        let timeout = Timeout::from_secs(timeout_secs);
        Ok(OtelConfig { endpoint, protocol, headers, service_name, timeout })
    }
}

/// Errors of the recorder.
#[derive(Debug, PartialEq, Eq)]
pub enum OtelRecorderError {
    /// The recorder was shut down.
    Shutdown,
    /// The SDK reported an error.
    Sdk(String),
    /// The transport for the protocol is not built in.
    TransportFeature(String),
    /// The exporter could not be built.
    ExporterBuild(String),
}

impl OtelRecorderError {
    /// The error in words.
    pub fn describe(&self) -> (r: String)
        ensures
            r@ == match *self {
                OtelRecorderError::Shutdown => "OpenTelemetry recorder has been shut down"@,
                OtelRecorderError::Sdk(e) => "OpenTelemetry SDK error: "@ + e@,
                OtelRecorderError::TransportFeature(e) => "transport feature required: "@ + e@,
                OtelRecorderError::ExporterBuild(e) => "OTLP exporter build failed: "@ + e@,
            },
    {
        match self {
            OtelRecorderError::Shutdown => "OpenTelemetry recorder has been shut down".to_owned(),
            OtelRecorderError::Sdk(e) => text::concat("OpenTelemetry SDK error: ", e.as_str()),
            OtelRecorderError::TransportFeature(e) => text::concat(
                "transport feature required: ",
                e.as_str(),
            ),
            OtelRecorderError::ExporterBuild(e) => text::concat(
                "OTLP exporter build failed: ",
                e.as_str(),
            ),
        }
    }
}

/// Checks that the transport of a protocol is built in.
pub fn check_transport(protocol: OtelProtocol, grpc: bool, http: bool) -> (r: Result<
    (),
    OtelRecorderError,
>)
    ensures
        r is Ok <==> match protocol {
            OtelProtocol::Grpc => grpc,
            OtelProtocol::Http => http,
        },
        r matches Err(e) ==> e matches OtelRecorderError::TransportFeature(text) && text@ == if !grpc
            && !http {
            "enable either `otel-grpc` or `otel-http` to use with_otlp_exporter"@
        } else {
            match protocol {
                OtelProtocol::Grpc => "otel-grpc required for OTLP/gRPC export"@,
                OtelProtocol::Http => "otel-http required for OTLP/HTTP export"@,
            }
        },
{
    let built_in: bool = match protocol {
        OtelProtocol::Grpc => grpc,
        OtelProtocol::Http => http,
    };
    if built_in {
        return Ok(());
    }
    if !grpc && !http {
        return Err(
            OtelRecorderError::TransportFeature(
                "enable either `otel-grpc` or `otel-http` to use with_otlp_exporter".to_owned(),
            ),
        );
    }
    match protocol {
        OtelProtocol::Grpc => Err(
            OtelRecorderError::TransportFeature(
                "otel-grpc required for OTLP/gRPC export".to_owned(),
            ),
        ),
        OtelProtocol::Http => Err(
            OtelRecorderError::TransportFeature(
                "otel-http required for OTLP/HTTP export".to_owned(),
            ),
        ),
    }
}

/// How a sample reaches an instrument; its labels become the attributes as they
/// are.
#[derive(Clone, Copy, Debug, PartialEq, Eq, Structural)]
pub enum OtelRoute {
    /// The instrument of the series is updated.
    Deliver(Series, Update),
    /// No instrument has this name. The flag is true the first time that it came.
    Unknown(bool),
    /// The recorder was shut down: the sample is reported and skipped.
    Closed,
}

/// State of a recorder beside its SDK objects.
#[derive(Debug)]
pub struct OtelRecorderState {
    unknown: UnknownNames,
    shutdown_called: bool,
}

impl OtelRecorderState {
    /// The unknown names reported so far.
    pub closed spec fn reported(self) -> Set<Seq<char>> {
        self.unknown.reported()
    }

    /// True once a shutdown was asked for.
    pub closed spec fn is_shut_down(self) -> bool {
        self.shutdown_called
    }

    /// A recorder in operation.
    pub fn new() -> (r: Self)
        ensures
            r.reported() == Set::<Seq<char>>::empty(),
            !r.is_shut_down(),
    {
        OtelRecorderState { unknown: UnknownNames::new(), shutdown_called: false }
    }

    /// Asks for a shutdown. True the first time: only then is the SDK to be shut
    /// down, which fails on a second call.
    pub fn begin_shutdown(&mut self) -> (first: bool)
        ensures
            first == !old(self).is_shut_down(),
            final(self).is_shut_down(),
            final(self).reported() == old(self).reported(),
    {
        let first: bool = !self.shutdown_called;
        self.shutdown_called = true;
        first
    }

    /// Decides what a sample does. Once a shutdown was asked for, it does nothing.
    pub fn route(&mut self, sample: &MetricSample) -> (r: OtelRoute)
        ensures
            final(self).is_shut_down() == old(self).is_shut_down(),
            match r {
                OtelRoute::Closed => {
                    &&& old(self).is_shut_down()
                    &&& final(self).reported() == old(self).reported()
                },
                OtelRoute::Deliver(series, update) => {
                    &&& !old(self).is_shut_down()
                    &&& series.title() == sample@.name
                    &&& update == update_of(series.sort(), sample@.value)
                    &&& final(self).reported() == old(self).reported()
                },
                OtelRoute::Unknown(first) => {
                    &&& !old(self).is_shut_down()
                    &&& forall|series: Series| (#[trigger] series.title()) != sample@.name
                    &&& first == !old(self).reported().contains(sample@.name)
                    &&& final(self).reported() == old(self).reported().insert(sample@.name)
                },
            },
    {
        if self.shutdown_called {
            return OtelRoute::Closed;
        }
        match Series::named(sample.name) {
            Some(series) => OtelRoute::Deliver(series, update_for(series.kind(), sample.value)),
            None => OtelRoute::Unknown(self.unknown.warn_once(sample.name)),
        }
    }
}

} // verus!
