//! The bounded client for outside services: what it is built with.
use crate::config::HttpReqConfig;
use vstd::prelude::*;
use vstd::string::*;

verus! {

/// How long a connection may take to be made, in seconds.
pub const CONNECT_TIMEOUT_SECS: u64 = 20;

/// No more requests than this are in flight where nothing else is said.
pub const DEFAULT_LIMIT: u8 = 32;

/// What a client is being built with.
#[derive(Debug, Clone, PartialEq, Eq)]
pub struct Builder {
    pub limit: u8,
    /// in milliseconds
    pub read_timeout: Option<u64>,
    pub user_agent: String,
    pub unix_socket: String,
}

/// What a client is built with, once all is said.
#[derive(Debug, Clone, PartialEq, Eq)]
pub struct Settings {
    /// in seconds
    pub connect_timeout: u64,
    /// in milliseconds; none for no limit
    pub read_timeout: Option<u64>,
    /// none for the default of the transport
    pub user_agent: Option<String>,
    /// the unix socket to connect through; none for the network
    pub unix_socket: Option<String>,
    /// how many requests may be in flight at once
    pub permits: usize,
}

pub fn builder() -> (b: Builder)
    ensures
        b.limit == DEFAULT_LIMIT,
        b.read_timeout is None,
        b.user_agent@.len() == 0,
        b.unix_socket@.len() == 0,
{
    Builder {
        limit: DEFAULT_LIMIT,
        read_timeout: None,
        user_agent: String::new(),
        unix_socket: String::new(),
    }
}

impl Builder {
    pub fn limit(self, limit: u8) -> (b: Builder)
        ensures
            b == (Builder { limit, ..self }),
    {
        Builder { limit, ..self }
    }

    pub fn read_timeout(self, v: Option<u64>) -> (b: Builder)
        ensures
            b == (Builder { read_timeout: v, ..self }),
    {
        Builder { read_timeout: v, ..self }
    }

    pub fn user_agent(self, s: &str) -> (b: Builder)
        ensures
            b.user_agent@ == s@,
            b.limit == self.limit,
            b.read_timeout == self.read_timeout,
            b.unix_socket == self.unix_socket,
    {
        Builder { user_agent: s.to_owned(), ..self }
    }

    pub fn unix_socket(self, s: &str) -> (b: Builder)
        ensures
            b.unix_socket@ == s@,
            b.limit == self.limit,
            b.read_timeout == self.read_timeout,
            b.user_agent == self.user_agent,
    {
        Builder { unix_socket: s.to_owned(), ..self }
    }

    /// What the client is built with: an empty user agent and an empty socket
    /// path stand for none, and the limit is the number of permits.
    pub fn build(self) -> (s: Settings)
        ensures
            s.connect_timeout == CONNECT_TIMEOUT_SECS,
            s.read_timeout == self.read_timeout,
            s.user_agent == (if self.user_agent@.len() == 0 {
                None
            } else {
                Some(self.user_agent)
            }),
            s.unix_socket == (if self.unix_socket@.len() == 0 {
                None
            } else {
                Some(self.unix_socket)
            }),
            s.permits == self.limit,
    {
        let Builder { limit, read_timeout, user_agent, unix_socket } = self;
        let user_agent = if user_agent.as_str().unicode_len() == 0 {
            None
        } else {
            Some(user_agent)
        };
        let unix_socket = if unix_socket.as_str().unicode_len() == 0 {
            None
        } else {
            Some(unix_socket)
        };
        Settings {
            connect_timeout: CONNECT_TIMEOUT_SECS,
            read_timeout,
            user_agent,
            unix_socket,
            permits: limit as usize,
        }
    }

    /// The builder for a service as it is configured; a read timeout of
    /// nothing stands for none.
    pub fn from_config(c: &HttpReqConfig) -> (b: Builder)
        ensures
            b.limit == c.concurrency,
            b.read_timeout == (if c.read_timeout == 0 {
                None
            } else {
                Some(c.read_timeout)
            }),
            b.user_agent == c.user_agent,
            b.unix_socket == c.unix,
    {
        Builder {
            limit: c.concurrency,
            read_timeout: if c.read_timeout == 0 {
                None
            } else {
                Some(c.read_timeout)
            },
            user_agent: c.user_agent.clone(),
            unix_socket: c.unix.clone(),
        }
    }
}

} // verus!
