//! The runtime configuration and the shared store that holds it.

use vstd::prelude::*;
use vstd::rwlock::RwLock;
use vstd::string::StringExecFns;

verus! {

/// Administrator-editable capture settings.
#[derive(Clone, Debug, PartialEq, Eq)]
pub struct Config {
    /// Path of the capture device.
    pub device: String,
    pub width: u32,
    pub height: u32,
    /// Frames per second.
    pub frame_rate: u32,
    /// Clockwise rotation in degrees.
    pub rotation: u32,
}

pub struct ConfigView {
    pub device: Seq<char>,
    pub width: u32,
    pub height: u32,
    pub frame_rate: u32,
    pub rotation: u32,
}

impl View for Config {
    type V = ConfigView;

    open spec fn view(&self) -> ConfigView {
        ConfigView {
            device: self.device@,
            width: self.width,
            height: self.height,
            frame_rate: self.frame_rate,
            rotation: self.rotation,
        }
    }
}

/// Certificate and key of the encrypted listener, and its port.
#[derive(Clone, Debug, PartialEq, Eq)]
pub struct TlsConfig {
    pub port: u16,
    pub cert: String,
    pub key: String,
}

pub struct TlsView {
    pub port: u16,
    pub cert: Seq<char>,
    pub key: Seq<char>,
}

impl View for TlsConfig {
    type V = TlsView;

    open spec fn view(&self) -> TlsView {
        TlsView { port: self.port, cert: self.cert@, key: self.key@ }
    }
}

/// The whole runtime state: the configuration, the secrets and the network
/// settings.
#[derive(Clone, Debug, PartialEq, Eq)]
pub struct Context {
    pub config: Config,
    /// Domain name that plaintext requests are redirected to.
    pub domain: String,
    /// Encoded Argon2 hash of the administrator's password.
    pub password_hash: String,
    /// Key that session tokens are signed with.
    pub token_secret: [u8; 32],
    /// Lifetime of a session token, in seconds.
    pub token_timeout: u64,
    /// IPv4 address to bind; all interfaces where absent.
    pub host: Option<[u8; 4]>,
    /// Port of the plaintext listener.
    pub port: u16,
    pub tls: Option<TlsConfig>,
}

pub struct ContextView {
    pub config: ConfigView,
    pub domain: Seq<char>,
    pub password_hash: Seq<char>,
    pub token_secret: Seq<u8>,
    pub token_timeout: u64,
    pub host: Option<[u8; 4]>,
    pub port: u16,
    pub tls: Option<TlsView>,
}

impl View for Context {
    type V = ContextView;

    open spec fn view(&self) -> ContextView {
        ContextView {
            config: self.config@,
            domain: self.domain@,
            password_hash: self.password_hash@,
            token_secret: self.token_secret@,
            token_timeout: self.token_timeout,
            host: self.host,
            port: self.port,
            tls: match self.tls {
                Some(t) => Some(t@),
                None => None,
            },
        }
    }
}

impl Config {
    /// A copy with the same contents.
    pub fn duplicate(&self) -> (r: Config)
        ensures
            r@ == self@,
    {
        Config {
            device: self.device.clone(),
            width: self.width,
            height: self.height,
            frame_rate: self.frame_rate,
            rotation: self.rotation,
        }
    }
}

impl Default for Config {
    fn default() -> (r: Config)
        ensures
            r.device@ == "/dev/video0"@,
            r.width == 640 && r.height == 480 && r.frame_rate == 30 && r.rotation == 0,
    {
        Config {
            device: String::from_str("/dev/video0"),
            width: 640,
            height: 480,
            frame_rate: 30,
            rotation: 0,
        }
    }
}

impl TlsConfig {
    /// A copy with the same contents.
    pub fn duplicate(&self) -> (r: TlsConfig)
        ensures
            r@ == self@,
    {
        TlsConfig { port: self.port, cert: self.cert.clone(), key: self.key.clone() }
    }
}

impl Context {
    /// A copy with the same contents.
    pub fn duplicate(&self) -> (r: Context)
        ensures
            r@ == self@,
    {
        let tls = match &self.tls {
            Some(t) => Some(t.duplicate()),
            None => None,
        };
        Context {
            config: self.config.duplicate(),
            domain: self.domain.clone(),
            password_hash: self.password_hash.clone(),
            token_secret: self.token_secret,
            token_timeout: self.token_timeout,
            host: self.host,
            port: self.port,
            tls,
        }
    }

    /// The same context with its configuration replaced.
    pub fn with_config(&self, config: Config) -> (r: Context)
        ensures
            r@ == (ContextView { config: config@, ..self@ }),
    {
        let mut r = self.duplicate();
        r.config = config;
        r
    }
}

impl Default for Context {
    fn default() -> (r: Context)
        ensures
            r.config.width == 640 && r.config.height == 480 && r.config.frame_rate == 30,
            r.config.rotation == 0 && r.config.device@ == "/dev/video0"@,
            r.domain@ == "localhost"@,
            r.password_hash@ == Seq::<char>::empty(),
            r.token_timeout == 604800,
            r.host is None,
            r.tls is None,
            r.port == 80,
            r.token_secret@ == Seq::new(32, |i: int| 0u8),
    {
        let r = Context {
            config: Config::default(),
            domain: String::from_str("localhost"),
            password_hash: String::new(),
            token_secret: [0u8; 32],
            token_timeout: 604800,
            host: None,
            port: 80,
            tls: None,
        };
        assert(r.token_secret@ =~= Seq::new(32, |i: int| 0u8));
        r
    }
}

/// Holds the one current `Context` of the process. Readers take whole
/// snapshots and writers replace the whole value under a reader-writer lock,
/// so no reader sees parts of two different values. The token secret is
/// fixed for the provider's lifetime: every context it holds carries the
/// secret it was created with.
pub struct Provider {
    lock: RwLock<Context, spec_fn(Context) -> bool>,
    secret: [u8; 32],
}

impl Provider {
    #[verifier::type_invariant]
    spec fn holds_fixed_secret(self) -> bool {
        forall|c: Context| #[trigger] self.lock.inv(c) <==> c.token_secret == self.secret
    }

    /// The token secret of every context that this provider holds.
    pub closed spec fn secret(&self) -> [u8; 32] {
        self.secret
    }

    pub fn new(initial: Context) -> (r: Provider)
        ensures
            r.secret() == initial.token_secret,
    {
        let secret = initial.token_secret;
        let ghost pred = |c: Context| c.token_secret == secret;
        Provider { lock: RwLock::new(initial, Ghost(pred)), secret }
    }

    /// The token secret of every context that this provider holds.
    pub fn token_secret(&self) -> (r: [u8; 32])
        ensures
            r == self.secret(),
    {
        self.secret
    }

    /// A snapshot of the current context.
    pub fn get(&self) -> (r: Context)
        ensures
            r.token_secret == self.secret(),
    {
        proof {
            use_type_invariant(self);
        }
        let handle = self.lock.acquire_read();
        let r = handle.borrow().duplicate();
        handle.release_read();
        r
    }

    /// Replaces the current context as a whole.
    pub fn set(&self, new: Context)
        requires
            new.token_secret == self.secret(),
    {
        proof {
            use_type_invariant(self);
        }
        let (_replaced, handle) = self.lock.acquire_write();
        handle.release_write(new);
    }
}

} // verus!
