//! The limiter's configuration for a Redis server: the connection URL, the
//! client handle, the key prefix and the store-side script.
use vstd::prelude::*;
use vstd::string::StringExecFns;
use crate::decimal::{decimal, decimal_string};
use crate::handles::{ProtocolScript, ServerClient};
use crate::limiter::{KEY_PREFIX, get_redis_key, storage_key};

verus! {

/// The client handle of the redis crate; it holds the connection parameters.
#[verifier::external_type_specification]
#[verifier::external_body]
pub struct ExClient(redis::Client);

/// A script of the redis crate: its text and the text's SHA-1 digest.
#[verifier::external_type_specification]
#[verifier::external_body]
pub struct ExScript(redis::Script);

/// The bucket protocol as a Redis script. KEYS holds one storage key per
/// resource; ARGV holds five values per resource: interval in milliseconds,
/// capacity, tokens requested, the shared instant in milliseconds, and the
/// expiry in seconds. Refills are persisted as they are decided; tokens are
/// taken only when every resource has enough. A resource named twice asks for
/// the sum of its requests. The reply is `{"", 0, 0, 0, 0}` when the batch is
/// admitted, else the first denied resource's key, interval in milliseconds,
/// capacity, tokens and last fill instant.
pub const LUA_SCRIPT: &'static str = r#"
local reserved = {}
for i = 1, #KEYS do
  local key = KEYS[i]
  local base = (i - 1) * 5
  local interval_ms = tonumber(ARGV[base + 1])
  local capacity = tonumber(ARGV[base + 2])
  local n = tonumber(ARGV[base + 3])
  local now_ms = tonumber(ARGV[base + 4])
  local expire = tonumber(ARGV[base + 5])
  local state = redis.call('HMGET', key, 'tokens', 'last_fill_at')
  local tokens = tonumber(state[1])
  local last_fill_at = tonumber(state[2])
  if tokens == nil or last_fill_at == nil or now_ms - last_fill_at >= interval_ms then
    tokens = capacity
    last_fill_at = now_ms
    redis.call('HSET', key, 'tokens', tokens, 'last_fill_at', last_fill_at)
    redis.call('EXPIRE', key, expire)
  end
  local need = n + (reserved[key] or 0)
  if tokens < need then
    return {key, interval_ms, capacity, tokens, last_fill_at}
  end
  reserved[key] = need
end
for i = 1, #KEYS do
  local base = (i - 1) * 5
  redis.call('HINCRBY', KEYS[i], 'tokens', -tonumber(ARGV[base + 3]))
  redis.call('EXPIRE', KEYS[i], tonumber(ARGV[base + 5]))
end
return {'', 0, 0, 0, 0}
"#;

/// The host used unless another is configured.
pub const REDIS_HOST: &'static str = "localhost";

/// The port used unless another is configured.
pub const REDIS_PORT: u16 = 6379;

/// The database index used unless another is configured.
pub const REDIS_DB: u16 = 0;

/// The connection URL of a server: `redis://host:port/db`.
pub open spec fn url_of(host: Seq<char>, port: u16, db: u16) -> Seq<char> {
    "redis://"@ + host + seq![':'] + decimal(port as nat) + seq!['/'] + decimal(db as nat)
}

/// The URL of the default server is `redis://localhost:6379/0`.
proof fn lemma_default_url()
    ensures
        url_of(REDIS_HOST@, REDIS_PORT, REDIS_DB) == "redis://localhost:6379/0"@,
{
    reveal_strlit("redis://");
    reveal_strlit("localhost");
    reveal_strlit("redis://localhost:6379/0");
    reveal_with_fuel(decimal, 5);
    assert(decimal(6379) =~= seq!['6', '3', '7', '9']);
    assert(url_of(REDIS_HOST@, REDIS_PORT, REDIS_DB) =~= "redis://localhost:6379/0"@);
}

/// Builds the connection URL of a server.
pub fn redis_url(host: &str, port: u16, db: u16) -> (r: String)
    ensures
        r@ == url_of(host@, port, db),
{
    let mut s = String::from_str("redis://");
    s.append(host);
    s.append(":");
    s.append(decimal_string(port as u64).as_str());
    s.append("/");
    s.append(decimal_string(db as u64).as_str());
    proof {
        reveal_strlit(":");
        reveal_strlit("/");
    }
    assert(s@ =~= url_of(host@, port, db));
    s
}

/// A limiter whose buckets live in a Redis server: a client handle, the key
/// prefix and the protocol script. Beside them it records the text the
/// script was made from and, when it opened its own client, the URL it opened.
pub struct RedisLimiter {
    client: ServerClient,
    key_prefix: String,
    script: ProtocolScript,
}

impl RedisLimiter {
    /// The prefix of this limiter's storage keys.
    pub closed spec fn prefix(&self) -> Seq<char> {
        self.key_prefix@
    }

    /// The client handle this limiter talks through.
    pub closed spec fn client_handle(&self) -> redis::Client {
        self.client.handle()
    }

    /// The protocol script handle.
    pub closed spec fn script_handle(&self) -> redis::Script {
        self.script.handle()
    }

    /// The text of the protocol script this limiter runs.
    pub closed spec fn script_text(&self) -> Seq<char> {
        self.script.text()
    }

    /// The URL this limiter opened its client for; nothing when the client was given.
    pub closed spec fn opened_url(&self) -> Option<Seq<char>> {
        self.client.url()
    }

    /// A limiter over the given client, whose script is made from `script_str`.
    /// No connection is made.
    pub fn new(redis_cli: redis::Client, key_prefix: &str, script_str: &str) -> (r: Self)
        ensures
            r.prefix() == key_prefix@,
            r.client_handle() == redis_cli,
            r.script_text() == script_str@,
            r.opened_url() is None,
    {
        RedisLimiter::with_client(ServerClient::given(redis_cli), key_prefix, script_str)
    }

    fn with_client(client: ServerClient, key_prefix: &str, script_str: &str) -> (r: Self)
        ensures
            r.prefix() == key_prefix@,
            r.client_handle() == client.handle(),
            r.script_text() == script_str@,
            r.opened_url() == client.url(),
    {
        RedisLimiter {
            client,
            key_prefix: String::from_str(key_prefix),
            script: ProtocolScript::new(script_str),
        }
    }

    /// The storage key of a resource under this limiter's prefix.
    pub fn get_redis_key(&self, key: &str, interval: u32) -> (r: String)
        ensures
            r@ == storage_key(self.prefix(), key@, interval),
    {
        get_redis_key(self.key_prefix.as_str(), key, interval)
    }

    /// The prefix of this limiter's storage keys.
    pub fn key_prefix(&self) -> (r: &str)
        ensures
            r@ == self.prefix(),
    {
        self.key_prefix.as_str()
    }

    /// The client handle.
    pub fn client(&self) -> (r: &redis::Client)
        ensures
            *r == self.client_handle(),
    {
        self.client.client()
    }

    /// The protocol script, made from `script_text()`.
    pub fn script(&self) -> (r: &redis::Script)
        ensures
            *r == self.script_handle(),
    {
        self.script.script()
    }
}

/// The settings of a builder, as far as contracts speak of them.
pub struct BuilderView {
    pub client: Option<redis::Client>,
    pub host: Option<Seq<char>>,
    pub port: Option<u16>,
    pub db: Option<u16>,
    pub key_prefix: Option<Seq<char>>,
    pub script_str: Option<Seq<char>>,
}

/// The view of an optional string slice.
pub open spec fn str_view(s: Option<&str>) -> Option<Seq<char>> {
    match s {
        Some(v) => Some(v@),
        None => None,
    }
}

/// Settings of a `RedisLimiter`, each optional. An explicit client wins over
/// host, port and database.
pub struct RedisLimiterBuilder<'a> {
    redis_cli: Option<redis::Client>,
    host: Option<&'a str>,
    port: Option<u16>,
    db: Option<u16>,
    key_prefix: Option<&'a str>,
    script_str: Option<&'a str>,
}

impl<'a> RedisLimiterBuilder<'a> {
    pub closed spec fn view(&self) -> BuilderView {
        BuilderView {
            client: self.redis_cli,
            host: str_view(self.host),
            port: self.port,
            db: self.db,
            key_prefix: str_view(self.key_prefix),
            script_str: str_view(self.script_str),
        }
    }

    /// A builder with nothing set.
    pub fn new() -> (r: Self)
        ensures
            r@ == (BuilderView {
                client: None,
                host: None,
                port: None,
                db: None,
                key_prefix: None,
                script_str: None,
            }),
    {
        RedisLimiterBuilder {
            redis_cli: None,
            host: None,
            port: None,
            db: None,
            key_prefix: None,
            script_str: None,
        }
    }

    /// Builds the limiter. Without an explicit client one is made for
    /// `redis://host:port/db`, each part taking its default when unset; that
    /// fails only when the URL cannot be read.
    pub fn build(self) -> (r: Result<RedisLimiter, redis::RedisError>)
        ensures
            self@.client is None && self@.host is None && self@.port is None && self@.db is None ==> r is Ok,
            r matches Ok(l) ==> l.prefix() == match self@.key_prefix {
                Some(p) => p,
                None => KEY_PREFIX@,
            },
            r matches Ok(l) ==> l.script_text() == match self@.script_str {
                Some(t) => t,
                None => LUA_SCRIPT@,
            },
            self@.client matches Some(c) ==> (r matches Ok(l) && l.client_handle() == c
                && l.opened_url() is None),
            self@.client is None ==> (r matches Ok(l) ==> l.opened_url() == Some(url_of(
                match self@.host {
                    Some(h) => h,
                    None => REDIS_HOST@,
                },
                match self@.port {
                    Some(p) => p,
                    None => REDIS_PORT,
                },
                match self@.db {
                    Some(d) => d,
                    None => REDIS_DB,
                },
            ))),
    {
        let script_str = match self.script_str {
            Some(s) => s,
            None => LUA_SCRIPT,
        };
        let key_prefix = match self.key_prefix {
            Some(p) => p,
            None => KEY_PREFIX,
        };
        match self.redis_cli {
            Some(redis_cli) => Ok(RedisLimiter::new(redis_cli, key_prefix, script_str)),
            None => {
                let host = match self.host {
                    Some(h) => h,
                    None => REDIS_HOST,
                };
                let port = match self.port {
                    Some(p) => p,
                    None => REDIS_PORT,
                };
                let db = match self.db {
                    Some(d) => d,
                    None => REDIS_DB,
                };
                let url = redis_url(host, port, db);
                proof {
                    if self.host is None && self.port is None && self.db is None {
                        lemma_default_url();
                    }
                }
                match ServerClient::open(url.as_str()) {
                    Ok(client) => Ok(RedisLimiter::with_client(client, key_prefix, script_str)),
                    Err(e) => Err(e),
                }
            },
        }
    }

    pub fn redis_cli(&mut self, client: redis::Client) -> (r: &mut Self)
        ensures
            r@ == (BuilderView { client: Some(client), ..old(self)@ }),
            *final(self) == *final(r),
    {
        self.redis_cli = Some(client);
        self
    }

    pub fn host(&mut self, value: &'a str) -> (r: &mut Self)
        ensures
            r@ == (BuilderView { host: Some(value@), ..old(self)@ }),
            *final(self) == *final(r),
    {
        self.host = Some(value);
        self
    }

    pub fn port(&mut self, value: u16) -> (r: &mut Self)
        ensures
            r@ == (BuilderView { port: Some(value), ..old(self)@ }),
            *final(self) == *final(r),
    {
        self.port = Some(value);
        self
    }

    pub fn db(&mut self, value: u16) -> (r: &mut Self)
        ensures
            r@ == (BuilderView { db: Some(value), ..old(self)@ }),
            *final(self) == *final(r),
    {
        self.db = Some(value);
        self
    }

    pub fn key_prefix(&mut self, value: &'a str) -> (r: &mut Self)
        ensures
            r@ == (BuilderView { key_prefix: Some(value@), ..old(self)@ }),
            *final(self) == *final(r),
    {
        self.key_prefix = Some(value);
        self
    }

    pub fn script_str(&mut self, value: &'a str) -> (r: &mut Self)
        ensures
            r@ == (BuilderView { script_str: Some(value@), ..old(self)@ }),
            *final(self) == *final(r),
    {
        self.script_str = Some(value);
        self
    }
}

impl<'a> Default for RedisLimiterBuilder<'a> {
    fn default() -> (r: Self)
        ensures
            r@ == (BuilderView {
                client: None,
                host: None,
                port: None,
                db: None,
                key_prefix: None,
                script_str: None,
            }),
    {
        RedisLimiterBuilder::new()
    }
}

} // verus!
