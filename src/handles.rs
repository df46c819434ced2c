//! Handles of the redis crate paired with what they were made from. Only the
//! constructors here set that record, each beside the call that makes the
//! handle, so a limiter's script text and server URL are those of its handles.
use vstd::prelude::*;

verus! {

/// A script of the redis crate with the text it was made from.
pub struct ProtocolScript {
    script: redis::Script,
    text: Ghost<Seq<char>>,
}

impl ProtocolScript {
    /// The text the script was made from.
    pub closed spec fn text(&self) -> Seq<char> {
        self.text@
    }

    /// Relies on `redis::Script::new`: the script keeps the given text (with
    /// its SHA-1 digest) and runs that text when invoked.
    #[verifier::external_body]
    pub(crate) fn new(code: &str) -> (r: Self)
        ensures
            r.text() == code@,
    {
        ProtocolScript { script: redis::Script::new(code), text: Ghost(code@) }
    }

    /// The script handle, made from `text()`.
    pub closed spec fn handle(&self) -> redis::Script {
        self.script
    }

    /// The script handle.
    pub fn script(&self) -> (r: &redis::Script)
        ensures
            *r == self.handle(),
    {
        &self.script
    }
}

/// A client handle of the redis crate with the URL it was opened for, if it
/// was opened here rather than given.
pub struct ServerClient {
    client: redis::Client,
    url: Ghost<Option<Seq<char>>>,
}

impl ServerClient {
    /// The client handle.
    pub closed spec fn handle(&self) -> redis::Client {
        self.client
    }

    /// The URL the client was opened for; nothing when it was given.
    pub closed spec fn url(&self) -> Option<Seq<char>> {
        self.url@
    }

    /// Holds a client made elsewhere.
    pub fn given(client: redis::Client) -> (r: Self)
        ensures
            r.handle() == client,
            r.url() is None,
    {
        ServerClient { client, url: Ghost(None) }
    }

    /// Relies on `redis::Client::open`: it parses the URL into connection
    /// parameters, without connecting, and fails on a URL it cannot read. A
    /// plain `redis://localhost:6379/0` (a domain host, a port, database 0, no
    /// credentials or query) always parses.
    #[verifier::external_body]
    pub(crate) fn open(url: &str) -> (r: Result<Self, redis::RedisError>)
        ensures
            r matches Ok(c) ==> c.url() == Some(url@),
            url@ == "redis://localhost:6379/0"@ ==> r is Ok,
    {
        match redis::Client::open(url) {
            Ok(client) => Ok(ServerClient { client, url: Ghost(Some(url@)) }),
            Err(e) => Err(e),
        }
    }

    /// The client handle.
    pub fn client(&self) -> (r: &redis::Client)
        ensures
            *r == self.handle(),
    {
        &self.client
    }
}

} // verus!
