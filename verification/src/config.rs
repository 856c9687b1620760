//! Runtime configuration, read from a snapshot of the process environment.

use vstd::prelude::*;
use crate::error::{ErrorView, ScanError};
use crate::number::{parse_decimal, parse_or, DecimalInt, NumberError};
use crate::text::{chars_equal, chars_of, owned, push_str};

verus! {

/// All runtime configuration for the scanner.
#[derive(Debug, Clone)]
pub struct Config {
    pub port: u16,
    pub database_url: String,
    pub minio_endpoint: String,
    pub minio_access_key: String,
    pub minio_secret_key: String,
    pub minio_bucket: String,
    pub dragonfly_url: String,
    pub rabbitmq_url: String,
    pub ollama_base_url: String,
    pub llm_model: String,
    /// Git clone timeout.
    pub clone_timeout_secs: u64,
    /// LLM summarization call timeout.
    pub llm_timeout_secs: u64,
    /// Minimum interval between scans of the same repo.
    pub scan_rate_limit_window_secs: u64,
    /// Max scans running concurrently for one org.
    pub max_concurrent_scans_per_org: u32,
    /// How long a scanned context is cached before a fresh scan is forced.
    pub cache_ttl_hours: u64,
}

/// The mathematical value of a [`Config`].
pub struct ConfigView {
    pub port: nat,
    pub database_url: Seq<char>,
    pub minio_endpoint: Seq<char>,
    pub minio_access_key: Seq<char>,
    pub minio_secret_key: Seq<char>,
    pub minio_bucket: Seq<char>,
    pub dragonfly_url: Seq<char>,
    pub rabbitmq_url: Seq<char>,
    pub ollama_base_url: Seq<char>,
    pub llm_model: Seq<char>,
    pub clone_timeout_secs: nat,
    pub llm_timeout_secs: nat,
    pub scan_rate_limit_window_secs: nat,
    pub max_concurrent_scans_per_org: nat,
    pub cache_ttl_hours: nat,
}

impl View for Config {
    type V = ConfigView;

    open spec fn view(&self) -> ConfigView {
        ConfigView {
            port: self.port as nat,
            database_url: self.database_url@,
            minio_endpoint: self.minio_endpoint@,
            minio_access_key: self.minio_access_key@,
            minio_secret_key: self.minio_secret_key@,
            minio_bucket: self.minio_bucket@,
            dragonfly_url: self.dragonfly_url@,
            rabbitmq_url: self.rabbitmq_url@,
            ollama_base_url: self.ollama_base_url@,
            llm_model: self.llm_model@,
            clone_timeout_secs: self.clone_timeout_secs as nat,
            llm_timeout_secs: self.llm_timeout_secs as nat,
            scan_rate_limit_window_secs: self.scan_rate_limit_window_secs as nat,
            max_concurrent_scans_per_org: self.max_concurrent_scans_per_org as nat,
            cache_ttl_hours: self.cache_ttl_hours as nat,
        }
    }
}

/// The view of an environment snapshot: (name, value) pairs.
pub open spec fn env_view(vars: Seq<(String, String)>) -> Seq<(Seq<char>, Seq<char>)> {
    vars.map_values(|p: (String, String)| (p.0@, p.1@))
}

/// The value of the first variable named `key`, if any.
pub open spec fn env_lookup(env: Seq<(Seq<char>, Seq<char>)>, key: Seq<char>) -> Option<Seq<char>>
    decreases env.len(),
{
    if env.len() == 0 {
        None
    } else if env[0].0 == key {
        Some(env[0].1)
    } else {
        env_lookup(env.drop_first(), key)
    }
}

/// The error for a required variable that is not set.
pub open spec fn missing_error(key: Seq<char>) -> ErrorView {
    ErrorView::Internal("required environment variable "@ + key + " is not set"@)
}

/// The error for a numeric variable that is set but not a number.
pub open spec fn invalid_error(key: Seq<char>, e: NumberError) -> ErrorView {
    ErrorView::Internal("invalid "@ + key + ": "@ + e.spec_message())
}

/// A required variable: its value, or an error when it is not set.
pub open spec fn required_setting(env: Seq<(Seq<char>, Seq<char>)>, key: Seq<char>) -> Result<
    Seq<char>,
    ErrorView,
> {
    match env_lookup(env, key) {
        Some(v) => Ok(v),
        None => Err(missing_error(key)),
    }
}

/// An optional variable: its value, or `default` when it is not set.
pub open spec fn optional_setting(
    env: Seq<(Seq<char>, Seq<char>)>,
    key: Seq<char>,
    default: Seq<char>,
) -> Seq<char> {
    match env_lookup(env, key) {
        Some(v) => v,
        None => default,
    }
}

/// An optional numeric variable no larger than `bound`: `default` when it
/// is not set, its number when it is set to one, an error otherwise.
pub open spec fn numeric_setting(
    env: Seq<(Seq<char>, Seq<char>)>,
    key: Seq<char>,
    default: nat,
    bound: nat,
) -> Result<nat, ErrorView> {
    match env_lookup(env, key) {
        None => Ok(default),
        Some(v) => match parse_decimal(v, bound) {
            Ok(n) => Ok(n),
            Err(e) => Err(invalid_error(key, e)),
        },
    }
}

/// The configuration that the environment `env` gives, or the error for
/// the first setting, in field order, that is missing or malformed.
pub open spec fn config_from_env(env: Seq<(Seq<char>, Seq<char>)>) -> Result<ConfigView, ErrorView> {
    let port = numeric_setting(env, "PORT"@, 3000, 0xffff);
    let database_url = required_setting(env, "DATABASE_URL"@);
    let minio_endpoint = required_setting(env, "MINIO_ENDPOINT"@);
    let minio_access_key = required_setting(env, "MINIO_ACCESS_KEY"@);
    let minio_secret_key = required_setting(env, "MINIO_SECRET_KEY"@);
    let dragonfly_url = required_setting(env, "DRAGONFLY_URL"@);
    let rabbitmq_url = required_setting(env, "RABBITMQ_URL"@);
    let ollama_base_url = required_setting(env, "OLLAMA_BASE_URL"@);
    let clone_timeout = numeric_setting(env, "CLONE_TIMEOUT_SECS"@, 60, 0xffff_ffff_ffff_ffff);
    let llm_timeout = numeric_setting(env, "LLM_TIMEOUT_SECS"@, 120, 0xffff_ffff_ffff_ffff);
    let window = numeric_setting(env, "SCAN_RATE_LIMIT_WINDOW_SECS"@, 300, 0xffff_ffff_ffff_ffff);
    let max_scans = numeric_setting(env, "MAX_CONCURRENT_SCANS_PER_ORG"@, 10, 0xffff_ffff);
    let ttl = numeric_setting(env, "CACHE_TTL_HOURS"@, 24, 0xffff_ffff_ffff_ffff);
    if port is Err {
        Err(port->Err_0)
    } else if database_url is Err {
        Err(database_url->Err_0)
    } else if minio_endpoint is Err {
        Err(minio_endpoint->Err_0)
    } else if minio_access_key is Err {
        Err(minio_access_key->Err_0)
    } else if minio_secret_key is Err {
        Err(minio_secret_key->Err_0)
    } else if dragonfly_url is Err {
        Err(dragonfly_url->Err_0)
    } else if rabbitmq_url is Err {
        Err(rabbitmq_url->Err_0)
    } else if ollama_base_url is Err {
        Err(ollama_base_url->Err_0)
    } else if clone_timeout is Err {
        Err(clone_timeout->Err_0)
    } else if llm_timeout is Err {
        Err(llm_timeout->Err_0)
    } else if window is Err {
        Err(window->Err_0)
    } else if max_scans is Err {
        Err(max_scans->Err_0)
    } else if ttl is Err {
        Err(ttl->Err_0)
    } else {
        Ok(
            ConfigView {
                port: port->Ok_0,
                database_url: database_url->Ok_0,
                minio_endpoint: minio_endpoint->Ok_0,
                minio_access_key: minio_access_key->Ok_0,
                minio_secret_key: minio_secret_key->Ok_0,
                minio_bucket: optional_setting(env, "MINIO_BUCKET"@, "scanner-artifacts"@),
                dragonfly_url: dragonfly_url->Ok_0,
                rabbitmq_url: rabbitmq_url->Ok_0,
                ollama_base_url: ollama_base_url->Ok_0,
                llm_model: optional_setting(env, "LLM_MODEL"@, "qwen2.5-coder"@),
                clone_timeout_secs: clone_timeout->Ok_0,
                llm_timeout_secs: llm_timeout->Ok_0,
                scan_rate_limit_window_secs: window->Ok_0,
                max_concurrent_scans_per_org: max_scans->Ok_0,
                cache_ttl_hours: ttl->Ok_0,
            },
        )
    }
}

/// The value of the first variable of `vars` named `key`.
pub fn lookup<'a>(vars: &'a Vec<(String, String)>, key: &str) -> (r: Option<&'a str>)
    ensures
        match env_lookup(env_view(vars@), key@) {
            Some(v) => r is Some && r->0@ == v,
            None => r is None,
        },
{
    let k = chars_of(key);
    let mut i: usize = 0;
    assert(env_view(vars@).skip(0) == env_view(vars@));
    while i < vars.len()
        invariant
            i <= vars@.len(),
            k@ == key@,
            env_lookup(env_view(vars@), key@) == env_lookup(env_view(vars@).skip(i as int), key@),
        decreases vars@.len() - i,
    {
        let ghost rest = env_view(vars@).skip(i as int);
        assert(rest[0] == (vars@[i as int].0@, vars@[i as int].1@));
        let name = chars_of(vars[i].0.as_str());
        if chars_equal(&name, &k) {
            return Some(vars[i].1.as_str());
        }
        assert(rest.drop_first() == env_view(vars@).skip(i + 1));
        i = i + 1;
    }
    assert(env_view(vars@).skip(i as int).len() == 0);
    None
}

fn missing(key: &str) -> (e: ScanError)
    ensures
        e@ == missing_error(key@),
{
    let mut m = owned("required environment variable ");
    push_str(&mut m, key);
    push_str(&mut m, " is not set");
    ScanError::Internal { message: m }
}

fn required(vars: &Vec<(String, String)>, key: &str) -> (r: Result<String, ScanError>)
    ensures
        match required_setting(env_view(vars@), key@) {
            Ok(v) => r is Ok && r->Ok_0@ == v,
            Err(e) => r is Err && r->Err_0@ == e,
        },
{
    match lookup(vars, key) {
        Some(v) => Ok(owned(v)),
        None => Err(missing(key)),
    }
}

fn optional(vars: &Vec<(String, String)>, key: &str, default: &str) -> (r: String)
    ensures
        r@ == optional_setting(env_view(vars@), key@, default@),
{
    match lookup(vars, key) {
        Some(v) => owned(v),
        None => owned(default),
    }
}

/// The variable `key` of `vars` read as a number of type `T`: `default`
/// when it is not set, its number when it is set to one, and an internal
/// error `invalid KEY: reason` when it is set to anything else.
pub fn env_parse_or<T: DecimalInt>(vars: &Vec<(String, String)>, key: &str, default: T) -> (r: Result<
    T,
    ScanError,
>)
    ensures
        match numeric_setting(env_view(vars@), key@, default.value(), T::bound()) {
            Ok(n) => r is Ok && r->Ok_0.value() == n,
            Err(e) => r is Err && r->Err_0@ == e,
        },
{
    match parse_or(lookup(vars, key), default) {
        Ok(v) => Ok(v),
        Err(e) => {
            let mut m = owned("invalid ");
            push_str(&mut m, key);
            push_str(&mut m, ": ");
            let text = e.message();
            push_str(&mut m, text.as_str());
            Err(ScanError::Internal { message: m })
        },
    }
}

impl Config {
    /// The configuration that the environment snapshot `vars` gives, read
    /// setting by setting in field order; the first setting that is missing
    /// or malformed decides the error. A variable that is set, even to the
    /// empty string, counts as present.
    pub fn from_vars(vars: &Vec<(String, String)>) -> (res: Result<Config, ScanError>)
        ensures
            match config_from_env(env_view(vars@)) {
                Ok(c) => res is Ok && res->Ok_0@ == c,
                Err(e) => res is Err && res->Err_0@ == e,
            },
    {
        let port = match env_parse_or::<u16>(vars, "PORT", 3000) {
            Ok(v) => v,
            Err(e) => return Err(e),
        };
        let database_url = match required(vars, "DATABASE_URL") {
            Ok(v) => v,
            Err(e) => return Err(e),
        };
        let minio_endpoint = match required(vars, "MINIO_ENDPOINT") {
            Ok(v) => v,
            Err(e) => return Err(e),
        };
        let minio_access_key = match required(vars, "MINIO_ACCESS_KEY") {
            Ok(v) => v,
            Err(e) => return Err(e),
        };
        let minio_secret_key = match required(vars, "MINIO_SECRET_KEY") {
            Ok(v) => v,
            Err(e) => return Err(e),
        };
        let minio_bucket = optional(vars, "MINIO_BUCKET", "scanner-artifacts");
        let dragonfly_url = match required(vars, "DRAGONFLY_URL") {
            Ok(v) => v,
            Err(e) => return Err(e),
        };
        let rabbitmq_url = match required(vars, "RABBITMQ_URL") {
            Ok(v) => v,
            Err(e) => return Err(e),
        };
        let ollama_base_url = match required(vars, "OLLAMA_BASE_URL") {
            Ok(v) => v,
            Err(e) => return Err(e),
        };
        let llm_model = optional(vars, "LLM_MODEL", "qwen2.5-coder");
        let clone_timeout_secs = match env_parse_or::<u64>(vars, "CLONE_TIMEOUT_SECS", 60) {
            Ok(v) => v,
            Err(e) => return Err(e),
        };
        let llm_timeout_secs = match env_parse_or::<u64>(vars, "LLM_TIMEOUT_SECS", 120) {
            Ok(v) => v,
            Err(e) => return Err(e),
        };
        let scan_rate_limit_window_secs = match env_parse_or::<u64>(
            vars,
            "SCAN_RATE_LIMIT_WINDOW_SECS",
            300,
        ) {
            Ok(v) => v,
            Err(e) => return Err(e),
        };
        let max_concurrent_scans_per_org = match env_parse_or::<u32>(
            vars,
            "MAX_CONCURRENT_SCANS_PER_ORG",
            10,
        ) {
            Ok(v) => v,
            Err(e) => return Err(e),
        };
        let cache_ttl_hours = match env_parse_or::<u64>(vars, "CACHE_TTL_HOURS", 24) {
            Ok(v) => v,
            Err(e) => return Err(e),
        };
        Ok(
            Config {
                port,
                database_url,
                minio_endpoint,
                minio_access_key,
                minio_secret_key,
                minio_bucket,
                dragonfly_url,
                rabbitmq_url,
                ollama_base_url,
                llm_model,
                clone_timeout_secs,
                llm_timeout_secs,
                scan_rate_limit_window_secs,
                max_concurrent_scans_per_org,
                cache_ttl_hours,
            },
        )
    }
}

/// The variables that must be set.
pub open spec fn is_required_key(key: Seq<char>) -> bool {
    ||| key == "DATABASE_URL"@
    ||| key == "MINIO_ENDPOINT"@
    ||| key == "MINIO_ACCESS_KEY"@
    ||| key == "MINIO_SECRET_KEY"@
    ||| key == "DRAGONFLY_URL"@
    ||| key == "RABBITMQ_URL"@
    ||| key == "OLLAMA_BASE_URL"@
}

/// Without any one of the required variables there is no configuration.
pub proof fn lemma_required_missing_fails(env: Seq<(Seq<char>, Seq<char>)>, key: Seq<char>)
    requires
        is_required_key(key),
        env_lookup(env, key) is None,
    ensures
        config_from_env(env) is Err,
{
}

/// With every required variable set and no optional one, the optional
/// settings take their defaults and the required ones their values.
pub proof fn lemma_defaults_when_absent(env: Seq<(Seq<char>, Seq<char>)>)
    requires
        forall|k: Seq<char>| is_required_key(k) ==> #[trigger] env_lookup(env, k) is Some,
        env_lookup(env, "PORT"@) is None,
        env_lookup(env, "MINIO_BUCKET"@) is None,
        env_lookup(env, "LLM_MODEL"@) is None,
        env_lookup(env, "CLONE_TIMEOUT_SECS"@) is None,
        env_lookup(env, "LLM_TIMEOUT_SECS"@) is None,
        env_lookup(env, "SCAN_RATE_LIMIT_WINDOW_SECS"@) is None,
        env_lookup(env, "MAX_CONCURRENT_SCANS_PER_ORG"@) is None,
        env_lookup(env, "CACHE_TTL_HOURS"@) is None,
    ensures
        config_from_env(env) is Ok,
        ({
            let c = config_from_env(env)->Ok_0;
            &&& c.port == 3000
            &&& c.database_url == env_lookup(env, "DATABASE_URL"@)->0
            &&& c.minio_bucket == "scanner-artifacts"@
            &&& c.llm_model == "qwen2.5-coder"@
            &&& c.clone_timeout_secs == 60
            &&& c.llm_timeout_secs == 120
            &&& c.scan_rate_limit_window_secs == 300
            &&& c.max_concurrent_scans_per_org == 10
            &&& c.cache_ttl_hours == 24
        }),
{
    assert(is_required_key("DATABASE_URL"@));
    assert(is_required_key("MINIO_ENDPOINT"@));
    assert(is_required_key("MINIO_ACCESS_KEY"@));
    assert(is_required_key("MINIO_SECRET_KEY"@));
    assert(is_required_key("DRAGONFLY_URL"@));
    assert(is_required_key("RABBITMQ_URL"@));
    assert(is_required_key("OLLAMA_BASE_URL"@));
}

/// The value an optional numeric variable gives, read from that variable
/// alone: the default when unset, else its number.
pub open spec fn own_number(env: Seq<(Seq<char>, Seq<char>)>, key: Seq<char>, default: nat, bound: nat) -> nat {
    match env_lookup(env, key) {
        None => default,
        Some(v) => parse_decimal(v, bound)->Ok_0,
    }
}

/// A set numeric variable that does not denote a number of its range.
pub open spec fn malformed(env: Seq<(Seq<char>, Seq<char>)>, key: Seq<char>, bound: nat) -> bool {
    env_lookup(env, key) is Some && parse_decimal(env_lookup(env, key)->0, bound) is Err
}

/// The value of the first pair named `key`: a pair of `env` with that name
/// and that value, with no pair of that name before it; `None` when no pair
/// has that name.
pub proof fn lemma_env_lookup_first(env: Seq<(Seq<char>, Seq<char>)>, key: Seq<char>)
    ensures
        env_lookup(env, key) is None <==> forall|i: int| 0 <= i < env.len() ==> (#[trigger] env[i]).0 != key,
        env_lookup(env, key) is Some ==> exists|i: int|
            0 <= i < env.len() && (#[trigger] env[i]).0 == key && env[i].1 == env_lookup(env, key)->0
                && forall|j: int| 0 <= j < i ==> (#[trigger] env[j]).0 != key,
    decreases env.len(),
{
    if env.len() > 0 {
        let rest = env.drop_first();
        lemma_env_lookup_first(rest, key);
        if env[0].0 != key {
            assert forall|i: int| 0 <= i < rest.len() implies rest[i] == env[i + 1] by {}
            if env_lookup(env, key) is None {
                assert forall|i: int| 0 <= i < env.len() implies (#[trigger] env[i]).0 != key by {
                    if i > 0 {
                        assert(rest[i - 1] == env[i]);
                    }
                }
            } else {
                let i = choose|i: int|
                    0 <= i < rest.len() && (#[trigger] rest[i]).0 == key && rest[i].1
                        == env_lookup(rest, key)->0 && forall|j: int|
                        0 <= j < i ==> (#[trigger] rest[j]).0 != key;
                assert(env[i + 1] == rest[i]);
                assert forall|j: int| 0 <= j < i + 1 implies (#[trigger] env[j]).0 != key by {
                    if j > 0 {
                        assert(rest[j - 1] == env[j]);
                    }
                }
            }
            if forall|i: int| 0 <= i < env.len() ==> (#[trigger] env[i]).0 != key {
                assert forall|i: int| 0 <= i < rest.len() implies (#[trigger] rest[i]).0 != key by {
                    assert(env[i + 1] == rest[i]);
                }
            }
        }
    }
}

/// When the configuration loads, each setting comes from its own variable
/// alone: a required one is that variable's value, an optional one its
/// value or its own default, a numeric one its number or its own default,
/// whatever the other variables hold. It loads exactly when every required
/// variable is set and no numeric variable is malformed.
pub proof fn lemma_each_setting_reads_its_own_variable(env: Seq<(Seq<char>, Seq<char>)>)
    ensures
        config_from_env(env) is Ok <==> {
            &&& forall|k: Seq<char>| is_required_key(k) ==> #[trigger] env_lookup(env, k) is Some
            &&& !malformed(env, "PORT"@, 0xffff)
            &&& !malformed(env, "CLONE_TIMEOUT_SECS"@, 0xffff_ffff_ffff_ffff)
            &&& !malformed(env, "LLM_TIMEOUT_SECS"@, 0xffff_ffff_ffff_ffff)
            &&& !malformed(env, "SCAN_RATE_LIMIT_WINDOW_SECS"@, 0xffff_ffff_ffff_ffff)
            &&& !malformed(env, "MAX_CONCURRENT_SCANS_PER_ORG"@, 0xffff_ffff)
            &&& !malformed(env, "CACHE_TTL_HOURS"@, 0xffff_ffff_ffff_ffff)
        },
        config_from_env(env) is Ok ==> {
            let c = config_from_env(env)->Ok_0;
            &&& c.port == own_number(env, "PORT"@, 3000, 0xffff)
            &&& c.database_url == env_lookup(env, "DATABASE_URL"@)->0
            &&& c.minio_endpoint == env_lookup(env, "MINIO_ENDPOINT"@)->0
            &&& c.minio_access_key == env_lookup(env, "MINIO_ACCESS_KEY"@)->0
            &&& c.minio_secret_key == env_lookup(env, "MINIO_SECRET_KEY"@)->0
            &&& c.minio_bucket == (match env_lookup(env, "MINIO_BUCKET"@) {
                Some(v) => v,
                None => "scanner-artifacts"@,
            })
            &&& c.dragonfly_url == env_lookup(env, "DRAGONFLY_URL"@)->0
            &&& c.rabbitmq_url == env_lookup(env, "RABBITMQ_URL"@)->0
            &&& c.ollama_base_url == env_lookup(env, "OLLAMA_BASE_URL"@)->0
            &&& c.llm_model == (match env_lookup(env, "LLM_MODEL"@) {
                Some(v) => v,
                None => "qwen2.5-coder"@,
            })
            &&& c.clone_timeout_secs == own_number(env, "CLONE_TIMEOUT_SECS"@, 60, 0xffff_ffff_ffff_ffff)
            &&& c.llm_timeout_secs == own_number(env, "LLM_TIMEOUT_SECS"@, 120, 0xffff_ffff_ffff_ffff)
            &&& c.scan_rate_limit_window_secs == own_number(
                env,
                "SCAN_RATE_LIMIT_WINDOW_SECS"@,
                300,
                0xffff_ffff_ffff_ffff,
            )
            &&& c.max_concurrent_scans_per_org == own_number(
                env,
                "MAX_CONCURRENT_SCANS_PER_ORG"@,
                10,
                0xffff_ffff,
            )
            &&& c.cache_ttl_hours == own_number(env, "CACHE_TTL_HOURS"@, 24, 0xffff_ffff_ffff_ffff)
        },
{
    if forall|k: Seq<char>| is_required_key(k) ==> #[trigger] env_lookup(env, k) is Some {
    } else {
        let k = choose|k: Seq<char>| !(is_required_key(k) ==> #[trigger] env_lookup(env, k) is Some);
        lemma_required_missing_fails(env, k);
    }
    assert(is_required_key("DATABASE_URL"@));
    assert(is_required_key("MINIO_ENDPOINT"@));
    assert(is_required_key("MINIO_ACCESS_KEY"@));
    assert(is_required_key("MINIO_SECRET_KEY"@));
    assert(is_required_key("DRAGONFLY_URL"@));
    assert(is_required_key("RABBITMQ_URL"@));
    assert(is_required_key("OLLAMA_BASE_URL"@));
}

} // verus!
