//! The relay's configuration: the four values an argument source
//! supplies, assembled and validated, with the debug flag threaded in
//! explicitly rather than held in mutable global state.
use vstd::prelude::*;

verus! {

/// Why a configuration could not be assembled: one required value was
/// missing. The caller prints usage text and exits nonzero.
#[derive(Clone, Copy, PartialEq, Eq, Structural, Debug)]
pub enum ConfigError {
    MissingLocalPort,
    MissingRemotePort,
    MissingRemoteHost,
}

/// The relay's configuration: where to listen, where to forward, and
/// whether to emit trace lines.
#[derive(Debug)]
pub struct Config {
    /// Address the public socket binds to.
    pub bind_addr: String,
    /// Port the public socket binds to.
    pub local_port: u16,
    /// Host every client datagram is forwarded to.
    pub remote_host: String,
    /// Port on the remote host datagrams are forwarded to.
    pub remote_port: u16,
    /// Whether trace lines are emitted.
    pub debug: bool,
}

/// The bind address used when none is given.
pub open spec fn default_bind() -> Seq<char> {
    "127.0.0.1"@
}

impl Config {
    /// Assembles the configuration from the optional values the
    /// argument source yields. Succeeds exactly when the three
    /// required values are present; a missing bind address falls back
    /// to the loopback default. A missing local port is reported
    /// first, then a missing remote port, then a missing remote host.
    pub fn build(
        local_port: Option<u16>,
        remote_port: Option<u16>,
        remote_host: Option<String>,
        bind_addr: Option<String>,
        debug: bool,
    ) -> (r: Result<Config, ConfigError>)
        ensures
            r is Ok <==> local_port is Some && remote_port is Some && remote_host is Some,
            match r {
                Ok(c) => {
                    &&& c.local_port == local_port->Some_0
                    &&& c.remote_port == remote_port->Some_0
                    &&& c.remote_host == remote_host->Some_0
                    &&& (bind_addr is Some ==> c.bind_addr == bind_addr->Some_0)
                    &&& (bind_addr is None ==> c.bind_addr@ == default_bind())
                    &&& c.debug == debug
                },
                Err(e) => {
                    &&& e == ConfigError::MissingLocalPort <==> local_port is None
                    &&& e == ConfigError::MissingRemotePort <==> local_port is Some
                        && remote_port is None
                    &&& e == ConfigError::MissingRemoteHost <==> local_port is Some
                        && remote_port is Some && remote_host is None
                },
            },
    {
        let lp = match local_port {
            Some(p) => p,
            None => {
                return Err(ConfigError::MissingLocalPort);
            },
        };
        let rp = match remote_port {
            Some(p) => p,
            None => {
                return Err(ConfigError::MissingRemotePort);
            },
        };
        let rh = match remote_host {
            Some(h) => h,
            None => {
                return Err(ConfigError::MissingRemoteHost);
            },
        };
        let bind = match bind_addr {
            Some(b) => b,
            None => {
                let d = "127.0.0.1".to_owned();
                proof {
                    reveal_strlit("127.0.0.1");
                }
                d
            },
        };
        Ok(
            Config {
                bind_addr: bind,
                local_port: lp,
                remote_host: rh,
                remote_port: rp,
                debug,
            },
        )
    }

    /// Whether the trace sink receives event lines: exactly the debug
    /// flag the configuration was built with.
    pub fn trace_enabled(&self) -> (r: bool)
        ensures
            r == self.debug,
    {
        self.debug
    }
}

} // verus!
