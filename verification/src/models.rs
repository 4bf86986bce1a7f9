//! The data model: server profiles with their credentials, proxy and jump-host
//! descriptors, directory entries and terminal geometry.
//!
//! Each type has a mathematical view (the `V`-suffixed structs) over which the
//! contracts of the rest of the crate are stated.

use vstd::prelude::*;

verus! {

/// How a connection authenticates: a password, or private-key material with an
/// optional passphrase.
pub enum AuthMethod {
    Password(String),
    PrivateKey { key: String, passphrase: Option<String> },
}

/// Mathematical view of an [`AuthMethod`].
pub enum AuthMethodV {
    Password(Seq<char>),
    PrivateKey { key: Seq<char>, passphrase: Option<Seq<char>> },
}

impl View for AuthMethod {
    type V = AuthMethodV;

    open spec fn view(&self) -> AuthMethodV {
        match self {
            AuthMethod::Password(p) => AuthMethodV::Password(p@),
            AuthMethod::PrivateKey { key, passphrase } => AuthMethodV::PrivateKey {
                key: key@,
                passphrase: passphrase.deep_view(),
            },
        }
    }
}

impl Clone for AuthMethod {
    fn clone(&self) -> (r: Self)
        ensures
            r@ == self@,
    {
        match self {
            AuthMethod::Password(p) => AuthMethod::Password(p.clone()),
            AuthMethod::PrivateKey { key, passphrase } => AuthMethod::PrivateKey {
                key: key.clone(),
                passphrase: passphrase.clone(),
            },
        }
    }
}

/// The kind of proxy a profile routes through.
#[derive(Clone, Copy, PartialEq, Eq, Structural, Debug)]
pub enum ProxyType {
    Http,
    Socks5,
}

/// An intermediate proxy: kind, address, and optional credentials.
pub struct ProxyConfig {
    pub proxy_type: ProxyType,
    pub host: String,
    pub port: u16,
    pub username: Option<String>,
    pub password: Option<String>,
}

/// Mathematical view of a [`ProxyConfig`].
pub struct ProxyConfigV {
    pub proxy_type: ProxyType,
    pub host: Seq<char>,
    pub port: u16,
    pub username: Option<Seq<char>>,
    pub password: Option<Seq<char>>,
}

impl View for ProxyConfig {
    type V = ProxyConfigV;

    open spec fn view(&self) -> ProxyConfigV {
        ProxyConfigV {
            proxy_type: self.proxy_type,
            host: self.host@,
            port: self.port,
            username: self.username.deep_view(),
            password: self.password.deep_view(),
        }
    }
}

impl Clone for ProxyConfig {
    fn clone(&self) -> (r: Self)
        ensures
            r@ == self@,
    {
        ProxyConfig {
            proxy_type: self.proxy_type,
            host: self.host.clone(),
            port: self.port,
            username: self.username.clone(),
            password: self.password.clone(),
        }
    }
}

/// A saved set of connection parameters and credentials for one remote host.
///
/// `jump_host`, when present, is the id of another saved profile used as an
/// intermediate authenticated host; it is a lookup key, not an ownership
/// relation, and only a single level of indirection is ever followed.
pub struct ServerConfig {
    pub id: String,
    pub name: String,
    pub host: String,
    pub port: u16,
    pub username: String,
    pub auth: AuthMethod,
    pub proxy: Option<ProxyConfig>,
    pub jump_host: Option<String>,
    pub notes: Option<String>,
    pub created_at: i64,
    pub updated_at: i64,
}

/// Mathematical view of a [`ServerConfig`].
pub struct ServerConfigV {
    pub id: Seq<char>,
    pub name: Seq<char>,
    pub host: Seq<char>,
    pub port: u16,
    pub username: Seq<char>,
    pub auth: AuthMethodV,
    pub proxy: Option<ProxyConfigV>,
    pub jump_host: Option<Seq<char>>,
    pub notes: Option<Seq<char>>,
    pub created_at: i64,
    pub updated_at: i64,
}

impl View for ServerConfig {
    type V = ServerConfigV;

    open spec fn view(&self) -> ServerConfigV {
        ServerConfigV {
            id: self.id@,
            name: self.name@,
            host: self.host@,
            port: self.port,
            username: self.username@,
            auth: self.auth@,
            proxy: match self.proxy {
                Some(p) => Some(p@),
                None => None,
            },
            jump_host: self.jump_host.deep_view(),
            notes: self.notes.deep_view(),
            created_at: self.created_at,
            updated_at: self.updated_at,
        }
    }
}

impl DeepView for ServerConfig {
    type V = ServerConfigV;

    open spec fn deep_view(&self) -> ServerConfigV {
        self.view()
    }
}

impl Clone for ServerConfig {
    fn clone(&self) -> (r: Self)
        ensures
            r@ == self@,
    {
        ServerConfig {
            id: self.id.clone(),
            name: self.name.clone(),
            host: self.host.clone(),
            port: self.port,
            username: self.username.clone(),
            auth: self.auth.clone(),
            proxy: match &self.proxy {
                Some(p) => Some(p.clone()),
                None => None,
            },
            jump_host: self.jump_host.clone(),
            notes: self.notes.clone(),
            created_at: self.created_at,
            updated_at: self.updated_at,
        }
    }
}

impl ServerConfig {
    /// A fresh profile: a newly drawn id, the given connection facts, no
    /// proxy, jump host or notes, and both timestamps set to the present
    /// moment.
    pub fn new(name: String, host: String, port: u16, username: String, auth: AuthMethod) -> (r:
        Self)
        ensures
            r@.name == name@,
            r@.host == host@,
            r@.port == port,
            r@.username == username@,
            r@.auth == auth@,
            r@.proxy is None,
            r@.jump_host is None,
            r@.notes is None,
            r@.created_at == r@.updated_at,
            r@.id.len() == 36,
    {
        let now = crate::ident::chrono_timestamp();
        ServerConfig {
            id: crate::ident::fresh_id(),
            name,
            host,
            port,
            username,
            auth,
            proxy: None,
            jump_host: None,
            notes: None,
            created_at: now,
            updated_at: now,
        }
    }
}

/// One entry of a remote directory listing.
pub struct FileEntry {
    pub name: String,
    pub path: String,
    pub is_dir: bool,
    pub size: u64,
    pub modified: i64,
    pub permissions: String,
}

/// Mathematical view of a [`FileEntry`].
pub struct FileEntryV {
    pub name: Seq<char>,
    pub path: Seq<char>,
    pub is_dir: bool,
    pub size: u64,
    pub modified: i64,
    pub permissions: Seq<char>,
}

impl View for FileEntry {
    type V = FileEntryV;

    open spec fn view(&self) -> FileEntryV {
        FileEntryV {
            name: self.name@,
            path: self.path@,
            is_dir: self.is_dir,
            size: self.size,
            modified: self.modified,
            permissions: self.permissions@,
        }
    }
}

impl DeepView for FileEntry {
    type V = FileEntryV;

    open spec fn deep_view(&self) -> FileEntryV {
        self.view()
    }
}

impl Clone for FileEntry {
    fn clone(&self) -> (r: Self)
        ensures
            r@ == self@,
    {
        FileEntry {
            name: self.name.clone(),
            path: self.path.clone(),
            is_dir: self.is_dir,
            size: self.size,
            modified: self.modified,
            permissions: self.permissions.clone(),
        }
    }
}

/// Terminal geometry of an interactive session, in character cells.
#[derive(Clone, Copy, PartialEq, Eq, Structural, Debug)]
pub struct TerminalSize {
    pub cols: u32,
    pub rows: u32,
}

impl Default for TerminalSize {
    /// The conventional 80x24 terminal.
    fn default() -> (r: Self)
        ensures
            r.cols == 80 && r.rows == 24,
    {
        TerminalSize { cols: 80, rows: 24 }
    }
}

/// The non-secret summary of a profile, as listed to a caller.
pub struct ServerInfo {
    pub id: String,
    pub name: String,
    pub host: String,
    pub port: u16,
    pub username: String,
    pub auth_type: String,
    pub has_proxy: bool,
    pub has_jump_host: bool,
    pub jump_host: Option<String>,
    pub notes: Option<String>,
}

/// Holds when `info` is the non-secret summary of the profile `c`: identity
/// fields copied, the auth kind reduced to a label, credentials reduced to
/// presence flags.
pub open spec fn summarizes(info: ServerInfo, c: ServerConfigV) -> bool {
    &&& info.id@ == c.id
    &&& info.name@ == c.name
    &&& info.host@ == c.host
    &&& info.port == c.port
    &&& info.username@ == c.username
    &&& info.auth_type@ == (if c.auth is Password {
        "password"@
    } else {
        "key"@
    })
    &&& info.has_proxy == c.proxy is Some
    &&& info.has_jump_host == c.jump_host is Some
    &&& info.jump_host.deep_view() == c.jump_host
    &&& info.notes.deep_view() == c.notes
}

impl ServerInfo {
    /// The summary of one profile: everything a listing shows, no secrets.
    pub fn from_config(config: &ServerConfig) -> (r: Self)
        ensures
            summarizes(r, config@),
    {
        ServerInfo {
            id: config.id.clone(),
            name: config.name.clone(),
            host: config.host.clone(),
            port: config.port,
            username: config.username.clone(),
            auth_type: match &config.auth {
                AuthMethod::Password(_) => "password".to_owned(),
                AuthMethod::PrivateKey { .. } => "key".to_owned(),
            },
            has_proxy: config.proxy.is_some(),
            has_jump_host: config.jump_host.is_some(),
            jump_host: config.jump_host.clone(),
            notes: config.notes.clone(),
        }
    }
}

/// A caller's request to create or update a profile: loose fields as a form
/// submits them, validated by the store when applied.
pub struct SaveServerRequest {
    pub id: Option<String>,
    pub name: String,
    pub host: String,
    pub port: u16,
    pub username: String,
    pub auth_type: String,
    pub password: Option<String>,
    pub private_key: Option<String>,
    pub passphrase: Option<String>,
    pub proxy_enabled: bool,
    pub proxy_type: Option<String>,
    pub proxy_host: Option<String>,
    pub proxy_port: Option<u16>,
    pub proxy_username: Option<String>,
    pub proxy_password: Option<String>,
    pub jump_host: Option<String>,
    pub notes: Option<String>,
}

} // verus!
