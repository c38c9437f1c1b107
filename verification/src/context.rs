//! How the daemon is set up.

use vstd::prelude::*;
use crate::error::{Error, ErrorKind};

verus! {

/// Where the daemon listens by default: `127.0.0.1`.
pub const DEFAULT_BIND_IP: u32 = 0x7f00_0001;

/// The port on which the daemon listens by default.
pub const DEFAULT_BIND_PORT: u16 = 5960;

/// Where the record lies by default.
pub const DEFAULT_DB: &'static str = "/mnt/embassy-os/embassy.db";

/// Where the secret store lies by default.
pub const DEFAULT_SECRET_STORE: &'static str = "/mnt/embassy-os/secrets.db";

/// Where the configuration of the daemon is read from.
pub const CONFIG_PATH: &'static str = "/etc/embassy/config.yaml";

/// How long the reconciler rests between two ticks, in milliseconds.
pub const COOLDOWN_MS: u64 = 500;

/// An address and a port.
#[derive(Clone, Copy, Debug, PartialEq, Eq, Structural)]
pub struct SocketAddr {
    pub ip: u32,
    pub port: u16,
}

/// What the configuration file of the daemon may say. What it does not
/// say is taken from the defaults.
#[derive(Debug)]
pub struct RpcContextConfig {
    pub bind: Option<SocketAddr>,
    pub db: Option<String>,
    pub secret_store: Option<String>,
}

/// What the daemon is set up with.
#[derive(Debug)]
pub struct RpcContextSetup {
    pub bind: SocketAddr,
    pub db: String,
    pub secret_store: String,
}

impl Default for RpcContextConfig {
    fn default() -> (c: RpcContextConfig)
        ensures
            c.bind is None,
            c.db is None,
            c.secret_store is None,
    {
        RpcContextConfig { bind: None, db: None, secret_store: None }
    }
}

impl RpcContextConfig {
    /// The setup that the configuration comes to: what it says, and the
    /// default for what it does not say.
    pub fn init(self) -> (s: RpcContextSetup)
        ensures
            s.bind == match self.bind {
                Some(b) => b,
                None => SocketAddr { ip: DEFAULT_BIND_IP, port: DEFAULT_BIND_PORT },
            },
            s.db@ == match self.db {
                Some(p) => p@,
                None => DEFAULT_DB@,
            },
            s.secret_store@ == match self.secret_store {
                Some(p) => p@,
                None => DEFAULT_SECRET_STORE@,
            },
    {
        RpcContextSetup {
            bind: match self.bind {
                Some(b) => b,
                None => SocketAddr { ip: DEFAULT_BIND_IP, port: DEFAULT_BIND_PORT },
            },
            db: match self.db {
                Some(p) => p,
                None => DEFAULT_DB.to_owned(),
            },
            secret_store: match self.secret_store {
                Some(p) => p,
                None => DEFAULT_SECRET_STORE.to_owned(),
            },
        }
    }
}

/// The context of the daemon, which is there only once the daemon has
/// been set up.
#[derive(Debug)]
pub struct MaybeAuthedRpcContext {
    seed: Option<RpcContextSetup>,
}

impl MaybeAuthedRpcContext {
    /// The setup, where the daemon has been set up.
    pub closed spec fn setup(self) -> Option<RpcContextSetup> {
        self.seed
    }

    /// A context that has not been set up.
    pub fn new() -> (c: MaybeAuthedRpcContext)
        ensures
            c.setup() is None,
    {
        MaybeAuthedRpcContext { seed: None }
    }

    /// Sets the daemon up with what its configuration file says.
    pub fn init(&mut self, config: RpcContextConfig)
        ensures
            final(self).setup() is Some,
            final(self).setup()->0.bind == match config.bind {
                Some(b) => b,
                None => SocketAddr { ip: DEFAULT_BIND_IP, port: DEFAULT_BIND_PORT },
            },
            final(self).setup()->0.db@ == match config.db {
                Some(p) => p@,
                None => DEFAULT_DB@,
            },
            final(self).setup()->0.secret_store@ == match config.secret_store {
                Some(p) => p@,
                None => DEFAULT_SECRET_STORE@,
            },
    {
        self.seed = Some(config.init());
    }

    /// The setup of the daemon; an error of kind `Authorization` exactly
    /// when the daemon has not been set up.
    pub fn authed(&self) -> (r: Result<&RpcContextSetup, Error>)
        ensures
            r is Ok <==> self.setup() is Some,
            r matches Ok(s) ==> Some(*s) == self.setup(),
            r matches Err(e) ==> e.kind == ErrorKind::Authorization,
    {
        match &self.seed {
            Some(s) => Ok(s),
            None => Err(Error::of(ErrorKind::Authorization, "Encrypted disk has not been unlocked")),
        }
    }
}

} // verus!
