use vstd::prelude::*;

use crate::errors::ClientError;

verus! {

/// How many requests a transport may keep in flight at once, when the
/// caller does not choose a number.
pub const MAX_PARALLEL_REQUESTS: usize = 64;

/// How chatty the process should be, derived from repeated verbosity flags.
#[derive(Clone, Copy, Debug, PartialEq, Eq, Structural)]
pub enum LogLevel {
    /// Errors only.
    Quiet,
    /// Informational messages and warnings.
    Pleasant,
    /// Debug output.
    Tolerable,
    /// Everything.
    InsaneMode,
}

impl LogLevel {
    /// Maps the number of verbosity flags to a level; three or more ask for
    /// everything.
    pub fn from_occurrences(n: u64) -> (r: LogLevel)
        ensures
            n == 0 ==> r == LogLevel::Quiet,
            n == 1 ==> r == LogLevel::Pleasant,
            n == 2 ==> r == LogLevel::Tolerable,
            n >= 3 ==> r == LogLevel::InsaneMode,
    {
        if n == 0 {
            LogLevel::Quiet
        } else if n == 1 {
            LogLevel::Pleasant
        } else if n == 2 {
            LogLevel::Tolerable
        } else {
            LogLevel::InsaneMode
        }
    }
}

/// A checked HTTP transport configuration: everything a transport needs,
/// as plain values.
#[derive(Debug)]
pub struct HttpConfig {
    pub url: String,
    pub max_parallel: usize,
}

/// A checked IPC transport configuration.
#[derive(Debug)]
pub struct IpcConfig {
    pub path: String,
}

/// Collects the pieces of an HTTP transport configuration before they are
/// checked.
#[derive(Debug)]
pub struct HttpBuilder {
    pub url: Option<String>,
    pub max_parallel: Option<usize>,
}

impl HttpBuilder {
    /// Sets the node URL.
    pub fn url(&mut self, val: String)
        ensures
            final(self).url == Some(val),
            final(self).max_parallel == old(self).max_parallel,
    {
        self.url = Some(val);
    }

    /// Sets how many requests may be in flight at once.
    pub fn max_parallel(&mut self, val: usize)
        ensures
            final(self).max_parallel == Some(val),
            final(self).url == old(self).url,
    {
        self.max_parallel = Some(val);
    }

    /// Checks the collected pieces.  Fails exactly when no URL was given;
    /// the parallelism limit falls back to `MAX_PARALLEL_REQUESTS`.
    pub fn build(self) -> (r: Result<HttpConfig, ClientError>)
        ensures
            match r {
                Ok(c) => self.url == Some(c.url) && match self.max_parallel {
                    Some(m) => c.max_parallel == m,
                    None => c.max_parallel == MAX_PARALLEL_REQUESTS,
                },
                Err(e) => self.url is None && e matches ClientError::MustSpecify(_),
            },
    {
        match self.url {
            None => Err(ClientError::MustSpecify(String::from_str("URL"))),
            Some(url) => {
                let max = match self.max_parallel {
                    Some(m) => m,
                    None => MAX_PARALLEL_REQUESTS,
                };
                Ok(HttpConfig { url, max_parallel: max })
            },
        }
    }
}

/// Collects the pieces of an IPC transport configuration before they are
/// checked.
#[derive(Debug)]
pub struct IpcBuilder {
    pub path: Option<String>,
}

impl IpcBuilder {
    /// Sets the socket path.
    pub fn path(&mut self, val: String)
        ensures
            final(self).path == Some(val),
    {
        self.path = Some(val);
    }

    /// Checks the collected pieces.  Fails exactly when no path was given.
    pub fn build(self) -> (r: Result<IpcConfig, ClientError>)
        ensures
            match r {
                Ok(c) => self.path == Some(c.path),
                Err(e) => self.path is None && e matches ClientError::MustSpecify(_),
            },
    {
        match self.path {
            None => Err(ClientError::MustSpecify(String::from_str("Path"))),
            Some(path) => Ok(IpcConfig { path }),
        }
    }
}

/// Entry point for assembling transport configurations.
#[derive(Debug, Default)]
pub struct ClientBuilder;

impl ClientBuilder {
    /// Starts an empty HTTP configuration.
    pub fn http() -> (r: HttpBuilder)
        ensures
            r.url is None,
            r.max_parallel is None,
    {
        HttpBuilder { url: None, max_parallel: None }
    }

    /// Starts an empty IPC configuration.
    pub fn ipc() -> (r: IpcBuilder)
        ensures
            r.path is None,
    {
        IpcBuilder { path: None }
    }
}

/// Builds the URL of the hosted gateway from an account's key, by
/// appending the key to the fixed authority.
pub fn infura_url(api_key: &str) -> (r: String)
    ensures
        r@ == "https://mainnet.infura.io/"@ + api_key@,
{
    let mut s = String::from_str("https://mainnet.infura.io/");
    s.append(api_key);
    s
}

} // verus!
