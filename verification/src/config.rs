//! Service configuration from command-line flags and environment
//! values.
//!
//! The surrounding application collects the process environment and
//! command line and hands them in as plain values; every derivation
//! rule — precedence, defaults, number parsing, origin-list splitting
//! — is verified here.

use vstd::prelude::*;
use crate::parse::{parse_u64, spec_parse_u64};

verus! {

/// Command-line arguments.
#[derive(Debug)]
pub struct Cli {
    /// Network to use: "testnet" or "mainnet".
    pub network: Option<String>,
    /// Upstream API base URL.
    pub horizon_url: Option<String>,
    /// Fee polling interval in seconds.
    pub poll_interval: Option<u64>,
}

/// The network the tracker follows.
#[derive(Clone, Copy, Debug, PartialEq, Eq, Structural)]
pub enum StellarNetwork {
    Testnet,
    Mainnet,
}

impl StellarNetwork {
    /// The well-known public upstream URL for this network, used when
    /// no URL is explicitly configured.
    pub fn default_horizon_url(&self) -> (r: &'static str)
        ensures
            self is Testnet ==> r@ == "https://horizon-testnet.stellar.org"@,
            self is Mainnet ==> r@ == "https://horizon.stellar.org"@,
    {
        match self {
            StellarNetwork::Testnet => "https://horizon-testnet.stellar.org",
            StellarNetwork::Mainnet => "https://horizon.stellar.org",
        }
    }
}

/// A configuration setting read from the environment.
#[derive(Clone, Copy, Debug, PartialEq, Eq, Structural)]
pub enum EnvKey {
    StellarNetwork,
    HorizonUrl,
    PollIntervalSeconds,
    ApiPort,
    CacheTtlSeconds,
    AllowedOrigins,
    RetryAttempts,
    BaseRetryDelayMs,
    DatabaseUrl,
    StorageRetentionDays,
}

/// One environment entry: a setting and its raw value.
#[derive(Debug)]
pub struct EnvEntry {
    pub key: EnvKey,
    pub value: String,
}

/// The value of the first entry for `key`, if any.
pub open spec fn spec_lookup(env: Seq<EnvEntry>, key: EnvKey) -> Option<Seq<char>>
    decreases env.len(),
{
    if env.len() == 0 {
        None
    } else if env[0].key == key {
        Some(env[0].value@)
    } else {
        spec_lookup(env.drop_first(), key)
    }
}

/// Look up the value of the first entry for `key`.
fn lookup<'a>(env: &'a Vec<EnvEntry>, key: EnvKey) -> (r: Option<&'a String>)
    ensures
        match r {
            Some(v) => spec_lookup(env@, key) == Some(v@),
            None => spec_lookup(env@, key) is None,
        },
{
    let mut i: usize = 0;
    proof {
        assert(env@.subrange(0, env@.len() as int) =~= env@);
    }
    while i < env.len()
        invariant
            0 <= i <= env@.len(),
            spec_lookup(env@.subrange(i as int, env@.len() as int), key) == spec_lookup(
                env@,
                key,
            ),
        decreases env@.len() - i,
    {
        let ghost rest = env@.subrange(i as int, env@.len() as int);
        proof {
            assert(rest[0] == env@[i as int]);
            assert(rest.drop_first() =~= env@.subrange(i + 1 as int, env@.len() as int));
        }
        if env[i].key == key {
            return Some(&env[i].value);
        }
        i = i + 1;
    }
    proof {
        assert(env@.subrange(env@.len() as int, env@.len() as int) =~= Seq::<EnvEntry>::empty());
    }
    None
}

/// Whether the character counts as removable whitespace around an
/// origin.
pub open spec fn is_blank(c: char) -> bool {
    c == ' ' || c == '\t'
}

/// The sequence with leading blanks removed.
pub open spec fn trim_front(s: Seq<char>) -> Seq<char>
    decreases s.len(),
{
    if s.len() > 0 && is_blank(s[0]) {
        trim_front(s.drop_first())
    } else {
        s
    }
}

/// The sequence with trailing blanks removed.
pub open spec fn trim_back(s: Seq<char>) -> Seq<char>
    decreases s.len(),
{
    if s.len() > 0 && is_blank(s.last()) {
        trim_back(s.drop_last())
    } else {
        s
    }
}

/// The sequence with blanks removed from both ends.
pub open spec fn spec_trim(s: Seq<char>) -> Seq<char> {
    trim_back(trim_front(s))
}

/// Dropping a blank prefix realizes `trim_front`.
pub proof fn lemma_trim_front_at(s: Seq<char>, a: int)
    requires
        0 <= a <= s.len(),
        forall|j: int| 0 <= j < a ==> is_blank(#[trigger] s[j]),
        a < s.len() ==> !is_blank(s[a]),
    ensures
        trim_front(s) == s.subrange(a, s.len() as int),
    decreases a,
{
    if a == 0 {
        assert(trim_front(s) =~= s.subrange(0, s.len() as int)) by {
            if s.len() > 0 {
                assert(!is_blank(s[0]));
            }
            assert(s.subrange(0, s.len() as int) =~= s);
        }
    } else {
        assert(is_blank(s[0]));
        let d = s.drop_first();
        assert forall|j: int| 0 <= j < a - 1 implies is_blank(#[trigger] d[j]) by {
            assert(d[j] == s[j + 1]);
        }
        if a - 1 < d.len() {
            assert(d[a - 1] == s[a]);
        }
        lemma_trim_front_at(d, a - 1);
        assert(d.subrange(a - 1, d.len() as int) =~= s.subrange(a, s.len() as int));
    }
}

/// Dropping a blank suffix realizes `trim_back`.
pub proof fn lemma_trim_back_at(s: Seq<char>, b: int)
    requires
        0 <= b <= s.len(),
        forall|j: int| b <= j < s.len() ==> is_blank(#[trigger] s[j]),
        b > 0 ==> !is_blank(s[b - 1]),
    ensures
        trim_back(s) == s.subrange(0, b),
    decreases s.len() - b,
{
    if b == s.len() {
        assert(trim_back(s) =~= s.subrange(0, b)) by {
            if s.len() > 0 {
                assert(!is_blank(s.last()));
            }
            assert(s.subrange(0, s.len() as int) =~= s);
        }
    } else {
        assert(is_blank(s.last()));
        let d = s.drop_last();
        assert forall|j: int| b <= j < d.len() implies is_blank(#[trigger] d[j]) by {
            assert(d[j] == s[j]);
        }
        if b > 0 {
            assert(d[b - 1] == s[b - 1]);
        }
        lemma_trim_back_at(d, b);
        assert(d.subrange(0, b) =~= s.subrange(0, b));
    }
}

/// Remove blanks from both ends of a string.
pub fn trim_exec(s: &str) -> (r: String)
    ensures
        r@ == spec_trim(s@),
{
    let n = s.unicode_len();
    let mut a: usize = 0;
    while a < n && is_blank_exec(s.get_char(a))
        invariant
            0 <= a <= n,
            n == s@.len(),
            forall|j: int| 0 <= j < a ==> is_blank(#[trigger] s@[j]),
        decreases n - a,
    {
        a = a + 1;
    }
    proof {
        lemma_trim_front_at(s@, a as int);
    }
    let mut b: usize = n;
    while b > a && is_blank_exec(s.get_char(b - 1))
        invariant
            a <= b <= n,
            n == s@.len(),
            forall|j: int| b <= j < n ==> is_blank(#[trigger] s@[j]),
        decreases b,
    {
        b = b - 1;
    }
    let ghost front = s@.subrange(a as int, n as int);
    proof {
        assert forall|j: int| b - a <= j < front.len() implies is_blank(#[trigger] front[j]) by {
            assert(front[j] == s@[j + a]);
        }
        if b > a {
            assert(front[b - a - 1] == s@[b - 1]);
        }
        lemma_trim_back_at(front, b - a);
        assert(front.subrange(0, b - a) =~= s@.subrange(a as int, b as int));
    }
    let piece = s.substring_char(a, b);
    String::from_str(piece)
}

/// Whether the character counts as removable whitespace.
fn is_blank_exec(c: char) -> (r: bool)
    ensures
        r == is_blank(c),
{
    c == ' ' || c == '\t'
}

/// Index of the first comma, or the length when there is none.
pub open spec fn first_comma(s: Seq<char>) -> int
    decreases s.len(),
{
    if s.len() == 0 {
        0
    } else if s[0] == ',' {
        0
    } else {
        1 + first_comma(s.drop_first())
    }
}

/// The first-comma index is the first index holding a comma.
pub proof fn lemma_first_comma_props(s: Seq<char>)
    ensures
        0 <= first_comma(s) <= s.len(),
        forall|j: int| 0 <= j < first_comma(s) ==> #[trigger] s[j] != ',',
        first_comma(s) < s.len() ==> s[first_comma(s)] == ',',
    decreases s.len(),
{
    if s.len() > 0 && s[0] != ',' {
        lemma_first_comma_props(s.drop_first());
        let p = first_comma(s);
        assert forall|j: int| 0 <= j < p implies #[trigger] s[j] != ',' by {
            if j > 0 {
                assert(s.drop_first()[j - 1] == s[j]);
            }
        }
        if p < s.len() {
            assert(s.drop_first()[p - 1] == s[p]);
        }
    }
}

/// The origin list a raw comma-separated value denotes: the
/// comma-separated pieces, each trimmed, with empty pieces dropped.
pub open spec fn spec_origins(s: Seq<char>) -> Seq<Seq<char>>
    decreases s.len(),
{
    let fc = first_comma(s);
    let i = if 0 <= fc < s.len() {
        fc
    } else {
        s.len() as int
    };
    let tok = spec_trim(s.subrange(0, i));
    let head: Seq<Seq<char>> = if tok.len() > 0 {
        seq![tok]
    } else {
        Seq::empty()
    };
    if i == s.len() {
        head
    } else {
        head + spec_origins(s.subrange(i + 1, s.len() as int))
    }
}

/// Split a comma-separated origin list, trimming each piece and
/// dropping empty pieces.
pub fn split_origins(s: &str) -> (r: Vec<String>)
    ensures
        r.deep_view() == spec_origins(s@),
{
    let mut out: Vec<String> = Vec::new();
    let mut rest: String = s.to_owned();
    proof {
        assert(out.deep_view() =~= Seq::<Seq<char>>::empty());
    }
    loop
        invariant
            out.deep_view() + spec_origins(rest@) =~= spec_origins(s@),
        decreases rest@.len(),
    {
        let ghost pre = rest@;
        let n = rest.as_str().unicode_len();
        let mut i: usize = 0;
        while i < n && !comma_exec(rest.as_str().get_char(i))
            invariant
                0 <= i <= n,
                n == rest@.len(),
                forall|j: int| 0 <= j < i ==> #[trigger] rest@[j] != ',',
            decreases n - i,
        {
            i = i + 1;
        }
        proof {
            lemma_first_comma_props(pre);
            let p = first_comma(pre);
            if (i as int) < p {
                assert(pre[i as int] != ',');
            }
            if p < i as int {
                assert(pre[p] != ',');
            }
            assert(i as int == p);
        }
        let ghost dv = out.deep_view();
        let ghost tok = spec_trim(pre.subrange(0, i as int));
        let token = trim_exec(rest.as_str().substring_char(0, i));
        proof {
            assert(token@ == tok);
        }
        if token.as_str().unicode_len() > 0 {
            out.push(token);
            proof {
                assert(out.deep_view() =~= dv.push(tok)) by {
                    assert forall|k: int| 0 <= k < dv.len()
                        implies out.deep_view()[k] == dv[k] by {
                        assert(out@[k] == out@.subrange(0, out@.len() - 1)[k]);
                    }
                    assert(out.deep_view()[dv.len() as int] == tok);
                }
            }
        }
        proof {
            let head: Seq<Seq<char>> = if tok.len() > 0 {
                seq![tok]
            } else {
                Seq::<Seq<char>>::empty()
            };
            assert(out.deep_view() =~= dv + head);
        }
        if i == n {
            proof {
                assert(spec_origins(pre) =~= (if tok.len() > 0 {
                    seq![tok]
                } else {
                    Seq::<Seq<char>>::empty()
                }));
                assert(out.deep_view() =~= spec_origins(s@));
            }
            return out;
        }
        let next = String::from_str(rest.as_str().substring_char(i + 1, n));
        rest = next;
        proof {
            assert(rest@ =~= pre.subrange(i + 1, pre.len() as int));
            let head: Seq<Seq<char>> = if tok.len() > 0 {
                seq![tok]
            } else {
                Seq::<Seq<char>>::empty()
            };
            assert(spec_origins(pre) =~= head + spec_origins(rest@));
            assert(out.deep_view() + spec_origins(rest@) =~= spec_origins(s@));
        }
    }
}

/// Whether the character is a comma.
fn comma_exec(c: char) -> (r: bool)
    ensures
        r == (c == ','),
{
    c == ','
}

/// Complete service configuration.
#[derive(Debug)]
pub struct Config {
    pub stellar_network: StellarNetwork,
    pub horizon_url: String,
    pub poll_interval_seconds: u64,
    pub cache_ttl_seconds: u64,
    pub api_port: u16,
    pub allowed_origins: Vec<String>,
    pub retry_attempts: u32,
    pub base_retry_delay_ms: u64,
    pub database_url: String,
    pub storage_retention_days: u64,
}

/// A numeric environment value, or the default when the entry is
/// missing or unparseable.
pub open spec fn spec_env_u64(env: Seq<EnvEntry>, key: EnvKey, default: u64) -> u64 {
    match spec_lookup(env, key) {
        Some(v) => match spec_parse_u64(v) {
            Some(n) => n,
            None => default,
        },
        None => default,
    }
}

impl Config {
    /// Build the configuration from command-line flags and collected
    /// environment values; flags take precedence.
    pub fn from_sources(cli: &Cli, env: &Vec<EnvEntry>) -> (r: Result<Config, String>)
        ensures
            from_sources_spec_ok(cli, env@, r),
    {
        Config::from_sources_with_overrides(cli, env)
    }

    /// Like `from_sources`, with the environment handed in explicitly
    /// so that tests need not touch the process environment.
    pub fn from_sources_with_overrides(cli: &Cli, overrides: &Vec<EnvEntry>) -> (r: Result<
        Config,
        String,
    >)
        ensures
            from_sources_spec_ok(cli, overrides@, r),
    {
        let network_raw: Option<&String> = match &cli.network {
            Some(n) => Some(n),
            None => lookup(overrides, EnvKey::StellarNetwork),
        };
        let network_raw = match network_raw {
            Some(n) => n,
            None => {
                return Err("STELLAR_NETWORK is required".to_owned());
            },
        };
        proof {
            reveal_strlit("testnet");
            reveal_strlit("mainnet");
            assert("testnet"@.len() == 7 && "mainnet"@.len() == 7);
            assert("testnet"@[0] == 't' && "mainnet"@[0] == 'm');
            assert("testnet"@ != "mainnet"@);
        }
        let stellar_network = if network_raw.eq(&"testnet".to_owned()) {
            StellarNetwork::Testnet
        } else if network_raw.eq(&"mainnet".to_owned()) {
            StellarNetwork::Mainnet
        } else {
            return Err(
                String::from_str("Invalid STELLAR_NETWORK: ").concat(network_raw.as_str()),
            );
        };
        let horizon_url: String = match &cli.horizon_url {
            Some(u) => u.clone(),
            None => match lookup(overrides, EnvKey::HorizonUrl) {
                Some(u) => u.clone(),
                None => stellar_network.default_horizon_url().to_owned(),
            },
        };
        let poll_interval_seconds: u64 = match cli.poll_interval {
            Some(p) => p,
            None => {
                let parsed = match lookup(overrides, EnvKey::PollIntervalSeconds) {
                    Some(v) => parse_u64(v.as_str()),
                    None => None,
                };
                match parsed {
                    Some(p) => p,
                    None => {
                        return Err(
                            "POLL_INTERVAL_SECONDS is required and must be a number".to_owned(),
                        );
                    },
                }
            },
        };
        let api_port: u16 = match lookup(overrides, EnvKey::ApiPort) {
            Some(v) => match parse_u64(v.as_str()) {
                Some(n) if n <= 65_535 => n as u16,
                _ => 8080,
            },
            None => 8080,
        };
        let cache_ttl_seconds = env_u64(overrides, EnvKey::CacheTtlSeconds, 5);
        let origins_raw: String = match lookup(overrides, EnvKey::AllowedOrigins) {
            Some(v) => v.clone(),
            None => "http://localhost:3000".to_owned(),
        };
        let allowed_origins = split_origins(origins_raw.as_str());
        let retry_attempts: u32 = match lookup(overrides, EnvKey::RetryAttempts) {
            Some(v) => match parse_u64(v.as_str()) {
                Some(n) if n <= 0xffff_ffff => n as u32,
                _ => 3,
            },
            None => 3,
        };
        let base_retry_delay_ms = env_u64(overrides, EnvKey::BaseRetryDelayMs, 1000);
        let database_url: String = match lookup(overrides, EnvKey::DatabaseUrl) {
            Some(v) => v.clone(),
            None => "sqlite://stellar_fees.db".to_owned(),
        };
        let storage_retention_days = env_u64(overrides, EnvKey::StorageRetentionDays, 7);
        Ok(
            Config {
                stellar_network,
                horizon_url,
                poll_interval_seconds,
                cache_ttl_seconds,
                api_port,
                allowed_origins,
                retry_attempts,
                base_retry_delay_ms,
                database_url,
                storage_retention_days,
            },
        )
    }
}

/// A numeric environment value with a default.
fn env_u64(env: &Vec<EnvEntry>, key: EnvKey, default: u64) -> (r: u64)
    ensures
        r == spec_env_u64(env@, key, default),
{
    match lookup(env, key) {
        Some(v) => match parse_u64(v.as_str()) {
            Some(n) => n,
            None => default,
        },
        None => default,
    }
}

/// The full derivation contract of configuration building: which
/// inputs are rejected with which message, and what every field of an
/// accepted configuration holds.
pub open spec fn from_sources_spec_ok(
    cli: &Cli,
    env: Seq<EnvEntry>,
    r: Result<Config, String>,
) -> bool {
    let net_raw = match cli.network {
        Some(n) => Some(n@),
        None => spec_lookup(env, EnvKey::StellarNetwork),
    };
    match r {
        Ok(c) => {
            &&& (net_raw == Some("testnet"@) ==> c.stellar_network is Testnet)
            &&& (net_raw == Some("mainnet"@) ==> c.stellar_network is Mainnet)
            &&& (net_raw matches Some(v) && (v == "testnet"@ || v == "mainnet"@))
            &&& c.horizon_url@ == (match cli.horizon_url {
                Some(u) => u@,
                None => match spec_lookup(env, EnvKey::HorizonUrl) {
                    Some(u) => u,
                    None => if net_raw == Some("testnet"@) {
                        "https://horizon-testnet.stellar.org"@
                    } else {
                        "https://horizon.stellar.org"@
                    },
                },
            })
            &&& (match cli.poll_interval {
                Some(p) => c.poll_interval_seconds == p,
                None => match spec_lookup(env, EnvKey::PollIntervalSeconds) {
                    Some(v) => spec_parse_u64(v) == Some(c.poll_interval_seconds),
                    None => false,
                },
            })
            &&& c.api_port == (match spec_lookup(env, EnvKey::ApiPort) {
                Some(v) => match spec_parse_u64(v) {
                    Some(n) => if n <= 65_535 {
                        n as u16
                    } else {
                        8080u16
                    },
                    None => 8080u16,
                },
                None => 8080u16,
            })
            &&& c.cache_ttl_seconds == spec_env_u64(env, EnvKey::CacheTtlSeconds, 5)
            &&& c.allowed_origins.deep_view() == spec_origins(
                match spec_lookup(env, EnvKey::AllowedOrigins) {
                    Some(v) => v,
                    None => "http://localhost:3000"@,
                },
            )
            &&& c.retry_attempts == (match spec_lookup(env, EnvKey::RetryAttempts) {
                Some(v) => match spec_parse_u64(v) {
                    Some(n) => if n <= 0xffff_ffff {
                        n as u32
                    } else {
                        3u32
                    },
                    None => 3u32,
                },
                None => 3u32,
            })
            &&& c.base_retry_delay_ms == spec_env_u64(env, EnvKey::BaseRetryDelayMs, 1000)
            &&& c.database_url@ == (match spec_lookup(env, EnvKey::DatabaseUrl) {
                Some(v) => v,
                None => "sqlite://stellar_fees.db"@,
            })
            &&& c.storage_retention_days == spec_env_u64(env, EnvKey::StorageRetentionDays, 7)
        },
        Err(msg) => {
            ||| (net_raw is None && msg@ == "STELLAR_NETWORK is required"@)
            ||| (net_raw matches Some(v) && v != "testnet"@ && v != "mainnet"@
                && msg@ == "Invalid STELLAR_NETWORK: "@ + v)
            ||| (net_raw matches Some(v) && (v == "testnet"@ || v == "mainnet"@)
                && cli.poll_interval is None && (match spec_lookup(
                env,
                EnvKey::PollIntervalSeconds,
            ) {
                Some(pv) => spec_parse_u64(pv) is None,
                None => true,
            }) && msg@ == "POLL_INTERVAL_SECONDS is required and must be a number"@)
        },
    }
}

} // verus!
