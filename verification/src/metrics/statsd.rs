//! Configuration of the StatsD and DogStatsD exporter.

use crate::environment::{
    copy_pairs, entries, entry_pair, list_entries, pair_views, split_entry, Environment,
};
use crate::metrics::timeout::Timeout;
use crate::text;
use crate::text::{lower, parsed_unsigned, trimmed};
use vstd::prelude::*;

verus! {

/// Dialect of the line protocol.
#[derive(Clone, Copy, Debug, PartialEq, Eq, Structural)]
pub enum Dialect {
    /// Plain StatsD, without tags.
    Statsd,
    /// DogStatsD, with tags.
    DogStatsd,
}

/// Why no configuration could be read.
#[derive(Debug, PartialEq, Eq)]
pub enum StatsdError {
    /// The port is not a number from 0 to 65535.
    InvalidPort(String),
    /// The packet size is not a positive integer.
    InvalidMaxBytes(String),
}

/// Model of a configuration error.
pub enum StatsdErrorView {
    InvalidPort(Seq<char>),
    InvalidMaxBytes(Seq<char>),
}

impl View for StatsdError {
    type V = StatsdErrorView;

    open spec fn view(&self) -> StatsdErrorView {
        match *self {
            StatsdError::InvalidPort(raw) => StatsdErrorView::InvalidPort(raw@),
            StatsdError::InvalidMaxBytes(raw) => StatsdErrorView::InvalidMaxBytes(raw@),
        }
    }
}

impl StatsdError {
    /// The error in words.
    pub fn describe(&self) -> (r: String)
        ensures
            r@ == match self@ {
                StatsdErrorView::InvalidPort(raw) => "invalid statsd port: "@ + raw,
                StatsdErrorView::InvalidMaxBytes(raw) => "invalid statsd max_packet_bytes: "@ + raw,
            },
    {
        match self {
            StatsdError::InvalidPort(raw) => text::concat("invalid statsd port: ", raw.as_str()),
            StatsdError::InvalidMaxBytes(raw) => text::concat(
                "invalid statsd max_packet_bytes: ",
                raw.as_str(),
            ),
        }
    }
}

/// Configuration of the exporter.
#[derive(Debug)]
pub struct StatsdConfig {
    /// Destination host.
    pub host: String,
    /// Destination port.
    pub port: u16,
    /// Prefix of metric names.
    pub prefix: String,
    /// Dialect.
    pub dialect: Dialect,
    /// Tags attached to every metric.
    pub constant_tags: Vec<(String, String)>,
    /// Largest datagram payload.
    pub max_packet_bytes: usize,
    /// Connect timeout.
    pub timeout: Timeout,
}

/// Model of a configuration.
pub struct StatsdView {
    pub host: Seq<char>,
    pub port: u16,
    pub prefix: Seq<char>,
    pub dialect: Dialect,
    pub constant_tags: Seq<(Seq<char>, Seq<char>)>,
    pub max_packet_bytes: usize,
    pub timeout_ns: nat,
}

impl View for StatsdConfig {
    type V = StatsdView;

    open spec fn view(&self) -> StatsdView {
        StatsdView {
            host: self.host@,
            port: self.port,
            prefix: self.prefix@,
            dialect: self.dialect,
            constant_tags: pair_views(self.constant_tags@),
            max_packet_bytes: self.max_packet_bytes,
            timeout_ns: self.timeout.nanoseconds(),
        }
    }
}

impl Clone for StatsdConfig {
    fn clone(&self) -> (r: Self)
        ensures
            r@ == self@,
    {
        StatsdConfig {
            host: self.host.clone(),
            port: self.port,
            prefix: self.prefix.clone(),
            dialect: self.dialect,
            constant_tags: copy_pairs(&self.constant_tags),
            max_packet_bytes: self.max_packet_bytes,
            timeout: self.timeout,
        }
    }
}

/// The key and the value of one tag, split at the first colon or, without a colon,
/// at the first equals sign.
pub open spec fn tag_of_entry(entry: Seq<char>) -> Option<(Seq<char>, Seq<char>)> {
    match entry_pair(entry, ':') {
        Some(pair) => Some(pair),
        None => entry_pair(entry, '='),
    }
}

/// The tags of a list of entries; entries that are no tag are passed over.
pub open spec fn tags_of(list: Seq<Seq<char>>) -> Seq<(Seq<char>, Seq<char>)>
    decreases list.len(),
{
    if list.len() == 0 {
        Seq::empty()
    } else {
        match tag_of_entry(list.last()) {
            Some(pair) => tags_of(list.drop_last()).push(pair),
            None => tags_of(list.drop_last()),
        }
    }
}

/// Reads a comma-separated list of `key:value` or `key=value` tags.
pub fn parse_tags(raw: &str) -> (out: Vec<(String, String)>)
    ensures
        pair_views(out@) == tags_of(list_entries(raw@)),
{
    let list = entries(raw);
    let ghost all = text::views(list@);
    let mut out: Vec<(String, String)> = Vec::new();
    let mut i: usize = 0;
    assert(all.take(0) =~= Seq::empty());
    assert(pair_views(out@) =~= Seq::empty());
    while i < list.len()
        invariant
            i <= list@.len(),
            all == text::views(list@),
            pair_views(out@) == tags_of(all.take(i as int)),
        decreases list@.len() - i,
    {
        let ghost before = pair_views(out@);
        proof {
            assert(all.take(i + 1).drop_last() =~= all.take(i as int));
            assert(all.take(i + 1).last() == list@[i as int]@);
        }
        let pair = match split_entry(list[i].as_str(), ':') {
            Some(pair) => Some(pair),
            None => split_entry(list[i].as_str(), '='),
        };
        match pair {
            Some(pair) => {
                out.push(pair);
                assert(pair_views(out@) =~= before.push((pair.0@, pair.1@)));
            },
            None => {},
        }
        i += 1;
    }
    assert(all.take(all.len() as int) =~= all);
    out
}

/// What the environment says of the port.
pub open spec fn env_port(env: Environment) -> Result<u16, StatsdErrorView> {
    match env.filled("DD_DOGSTATSD_PORT"@) {
        None => Ok(8125),
        Some(raw) => match parsed_unsigned(trimmed(raw), 65535) {
            Some(n) => Ok(n as u16),
            None => Err(StatsdErrorView::InvalidPort(raw)),
        },
    }
}

/// What the environment says of the dialect; plain StatsD unless it names the
/// other.
pub open spec fn env_dialect(env: Environment) -> Dialect {
    match env.filled("MALCOLM_STATSD_DIALECT"@) {
        None => Dialect::Statsd,
        Some(raw) => if lower(trimmed(raw)) == "dogstatsd"@ || lower(trimmed(raw)) == "datadog"@ {
            Dialect::DogStatsd
        } else {
            Dialect::Statsd
        },
    }
}

/// The tags of the first source that is not blank.
pub open spec fn env_tags(env: Environment) -> Seq<(Seq<char>, Seq<char>)> {
    match env.filled("DD_TAGS"@) {
        Some(raw) => tags_of(list_entries(raw)),
        None => match env.filled("MALCOLM_STATSD_TAGS"@) {
            Some(raw) => tags_of(list_entries(raw)),
            None => Seq::empty(),
        },
    }
}

/// What the environment says of the packet size.
pub open spec fn env_max_bytes(env: Environment) -> Result<usize, StatsdErrorView> {
    match env.filled("MALCOLM_STATSD_MAX_BYTES"@) {
        None => Ok(1432),
        Some(raw) => match parsed_unsigned(trimmed(raw), usize::MAX as nat) {
            Some(n) => if n > 0 {
                Ok(n as usize)
            } else {
                Err(StatsdErrorView::InvalidMaxBytes(raw))
            },
            None => Err(StatsdErrorView::InvalidMaxBytes(raw)),
        },
    }
}

/// What the environment says of the timeout in milliseconds; what is no number counts
/// as nothing.
pub open spec fn env_timeout_ms(env: Environment) -> u64 {
    match env.filled("MALCOLM_STATSD_TIMEOUT_MS"@) {
        None => 100,
        Some(raw) => match parsed_unsigned(trimmed(raw), u64::MAX as nat) {
            Some(n) => n as u64,
            None => 100,
        },
    }
}

/// The configuration that the environment describes.
pub open spec fn env_config(env: Environment) -> Result<StatsdView, StatsdErrorView> {
    match env_port(env) {
        Err(e) => Err(e),
        Ok(port) => match env_max_bytes(env) {
            Err(e) => Err(e),
            Ok(max_packet_bytes) => Ok(
                StatsdView {
                    host: match env.filled("DD_AGENT_HOST"@) {
                        Some(host) => host,
                        None => "127.0.0.1"@,
                    },
                    port,
                    prefix: match env.filled("MALCOLM_STATSD_PREFIX"@) {
                        Some(prefix) => prefix,
                        None => Seq::empty(),
                    },
                    dialect: env_dialect(env),
                    constant_tags: env_tags(env),
                    max_packet_bytes,
                    timeout_ns: env_timeout_ms(env) as nat * 1_000_000,
                },
            ),
        },
    }
}

fn read_port(env: &Environment) -> (r: Result<u16, StatsdError>)
    ensures
        match r {
            Ok(p) => env_port(*env) == Ok::<u16, StatsdErrorView>(p),
            Err(e) => env_port(*env) == Err::<u16, StatsdErrorView>(e@),
        },
{
    match env.lookup_filled("DD_DOGSTATSD_PORT") {
        None => Ok(8125),
        Some(raw) => {
            let digits = text::trim(raw.as_str());
            match text::parse_unsigned(digits.as_str(), 65535) {
                Some(n) => Ok(n as u16),
                None => Err(StatsdError::InvalidPort(raw)),
            }
        },
    }
}

fn read_dialect(env: &Environment) -> (r: Dialect)
    ensures
        r == env_dialect(*env),
{
    match env.lookup_filled("MALCOLM_STATSD_DIALECT") {
        None => Dialect::Statsd,
        Some(raw) => {
            let shown = text::trim(raw.as_str());
            let name = text::to_lower(shown.as_str());
            if text::same(name.as_str(), "dogstatsd") || text::same(name.as_str(), "datadog") {
                Dialect::DogStatsd
            } else {
                Dialect::Statsd
            }
        },
    }
}

fn read_tags(env: &Environment) -> (r: Vec<(String, String)>)
    ensures
        pair_views(r@) == env_tags(*env),
{
    match env.lookup_filled("DD_TAGS") {
        Some(raw) => parse_tags(raw.as_str()),
        None => match env.lookup_filled("MALCOLM_STATSD_TAGS") {
            Some(raw) => parse_tags(raw.as_str()),
            None => {
                let none: Vec<(String, String)> = Vec::new();
                assert(pair_views(none@) =~= Seq::empty());
                none
            },
        },
    }
}

fn read_max_bytes(env: &Environment) -> (r: Result<usize, StatsdError>)
    ensures
        match r {
            Ok(n) => env_max_bytes(*env) == Ok::<usize, StatsdErrorView>(n),
            Err(e) => env_max_bytes(*env) == Err::<usize, StatsdErrorView>(e@),
        },
{
    match env.lookup_filled("MALCOLM_STATSD_MAX_BYTES") {
        None => Ok(1432),
        Some(raw) => {
            let digits = text::trim(raw.as_str());
            match text::parse_unsigned(digits.as_str(), usize::MAX as u64) {
                Some(n) => if n > 0 {
                    Ok(n as usize)
                } else {
                    Err(StatsdError::InvalidMaxBytes(raw))
                },
                None => Err(StatsdError::InvalidMaxBytes(raw)),
            }
        },
    }
}

fn read_timeout(env: &Environment) -> (r: u64)
    ensures
        r == env_timeout_ms(*env),
{
    match env.lookup_filled("MALCOLM_STATSD_TIMEOUT_MS") {
        None => 100,
        Some(raw) => {
            let digits = text::trim(raw.as_str());
            match text::parse_unsigned(digits.as_str(), u64::MAX) {
                Some(n) => n,
                None => 100,
            }
        },
    }
}

impl StatsdConfig {
    /// The local agent with plain StatsD.
    pub fn default_for_tests() -> (r: Self)
        ensures
            r@ == (StatsdView {
                host: "127.0.0.1"@,
                port: 8125,
                prefix: Seq::empty(),
                dialect: Dialect::Statsd,
                constant_tags: Seq::empty(),
                max_packet_bytes: 1432,
                timeout_ns: 100_000_000,
            }),
    {
        let tags: Vec<(String, String)> = Vec::new();
        assert(pair_views(tags@) =~= Seq::empty());
        StatsdConfig {
            host: "127.0.0.1".to_owned(),
            port: 8125,
            prefix: String::new(),
            dialect: Dialect::Statsd,
            constant_tags: tags,
            max_packet_bytes: 1432,
            timeout: Timeout::from_millis(100),
        }
    }

    /// Reads the configuration from a snapshot of the environment.
    pub fn from_lookup(env: &Environment) -> (r: Result<StatsdConfig, StatsdError>)
        ensures
            match r {
                Ok(config) => env_config(*env) == Ok::<StatsdView, StatsdErrorView>(config@),
                Err(e) => env_config(*env) == Err::<StatsdView, StatsdErrorView>(e@),
            },
    {
        let port: u16 = match read_port(env) {
            Ok(p) => p,
            Err(e) => {
                return Err(e);
            },
        };
        let max_packet_bytes: usize = match read_max_bytes(env) {
            Ok(n) => n,
            Err(e) => {
                return Err(e);
            },
        };
        let host = match env.lookup_filled("DD_AGENT_HOST") {
            Some(host) => host,
            None => "127.0.0.1".to_owned(),
        };
        let prefix = match env.lookup_filled("MALCOLM_STATSD_PREFIX") {
            Some(prefix) => prefix,
            None => String::new(),
        };
        Ok(
            StatsdConfig {
                host,
                port,
                prefix,
                dialect: read_dialect(env),
                constant_tags: read_tags(env),
                max_packet_bytes,
                timeout: Timeout::from_millis(read_timeout(env)),
            },
        )
    }
}

/// The configuration of an empty environment is that of
/// [`StatsdConfig::default_for_tests`].
pub proof fn empty_environment_gives_defaults(env: Environment)
    requires
        env@.len() == 0,
    ensures
        env_config(env) == Ok::<StatsdView, StatsdErrorView>(
            StatsdView {
                host: "127.0.0.1"@,
                port: 8125,
                prefix: Seq::empty(),
                dialect: Dialect::Statsd,
                constant_tags: Seq::empty(),
                max_packet_bytes: 1432,
                timeout_ns: 100_000_000,
            },
        ),
{
}

} // verus!
