//! The credential store: an in-memory set of server profiles keyed by id,
//! together with its encrypted on-disk projection.
//!
//! The store itself never touches a disk: loading hands it already-parsed
//! encrypted records, saving hands back the records to persist, and the
//! driver outside the crate moves them to and from the JSON document.

use vstd::prelude::*;
use crate::crypto::{GCM_PLAINTEXT_MAX, encrypt_field, decrypt_field, is_sealing_of};
use crate::errors::CoreError;
use crate::ident::{chrono_timestamp, fresh_id};
use crate::models::{
    AuthMethod, AuthMethodV, ProxyConfig, ProxyConfigV, ProxyType, SaveServerRequest,
    ServerConfig, ServerConfigV, ServerInfo, summarizes,
};
use vstd::utf8::encode_utf8;

verus! {

/// No two profiles of the sequence share an id.
pub open spec fn ids_unique(s: Seq<ServerConfigV>) -> bool {
    forall|i: int, j: int| 0 <= i < j < s.len() ==> s[i].id != s[j].id
}

/// Whether some profile of the sequence has this id.
pub open spec fn has_id(s: Seq<ServerConfigV>, id: Seq<char>) -> bool {
    exists|i: int| 0 <= i < s.len() && s[i].id == id
}

/// The index of the profile with this id.
pub open spec fn index_of_id(s: Seq<ServerConfigV>, id: Seq<char>) -> int {
    choose|i: int| 0 <= i < s.len() && s[i].id == id
}

/// The profile sequence read as a map from id to profile.
pub open spec fn map_of(s: Seq<ServerConfigV>) -> Map<Seq<char>, ServerConfigV> {
    Map::new(|id: Seq<char>| has_id(s, id), |id: Seq<char>| s[index_of_id(s, id)])
}

/// With unique ids, the profile at any index is what the map holds under its id.
proof fn lemma_map_at(s: Seq<ServerConfigV>, i: int)
    requires
        ids_unique(s),
        0 <= i < s.len(),
    ensures
        map_of(s).contains_key(s[i].id),
        map_of(s)[s[i].id] == s[i],
{
    let id = s[i].id;
    assert(has_id(s, id));
    let j = index_of_id(s, id);
    assert(0 <= j < s.len() && s[j].id == id);
    if i != j {
        assert(s[i].id != s[j].id);
    }
}

/// With unique ids, the chosen index of an id is the index that holds it.
proof fn lemma_index_unique(s: Seq<ServerConfigV>, i: int)
    requires
        ids_unique(s),
        0 <= i < s.len(),
    ensures
        index_of_id(s, s[i].id) == i,
{
    assert(has_id(s, s[i].id));
    let j = index_of_id(s, s[i].id);
    if i != j {
        assert(s[i].id != s[j].id);
    }
}

/// Replacing the profile at an index by one with the same id is insertion
/// into the map.
proof fn lemma_map_update(s: Seq<ServerConfigV>, i: int, v: ServerConfigV)
    requires
        ids_unique(s),
        0 <= i < s.len(),
        s[i].id == v.id,
    ensures
        ids_unique(s.update(i, v)),
        map_of(s.update(i, v)) == map_of(s).insert(v.id, v),
{
    let t = s.update(i, v);
    assert forall|x: int| 0 <= x < t.len() implies #[trigger] t[x].id == s[x].id by {}
    assert(ids_unique(t));
    let m1 = map_of(t);
    let m2 = map_of(s).insert(v.id, v);
    assert forall|id: Seq<char>| #[trigger] m1.contains_key(id) implies m2.contains_key(id)
        && m1[id] == m2[id] by {
        let j = index_of_id(t, id);
        assert(0 <= j < t.len() && t[j].id == id);
        assert(s[j].id == id);
        assert(has_id(s, id));
        if id == v.id {
            lemma_index_unique(t, i);
            assert(j == i);
        } else {
            assert(j != i);
            lemma_index_unique(s, j);
        }
    }
    assert forall|id: Seq<char>| #[trigger] m2.contains_key(id) implies m1.contains_key(id) by {
        if id == v.id {
            assert(t[i].id == id);
        } else {
            let j = index_of_id(s, id);
            assert(t[j].id == id);
        }
    }
    assert(m1 =~= m2);
}

/// Appending a profile with a fresh id is insertion into the map.
proof fn lemma_map_push(s: Seq<ServerConfigV>, v: ServerConfigV)
    requires
        ids_unique(s),
        !has_id(s, v.id),
    ensures
        ids_unique(s.push(v)),
        map_of(s.push(v)) == map_of(s).insert(v.id, v),
{
    let t = s.push(v);
    assert forall|a: int, b: int| 0 <= a < b < t.len() implies t[a].id != t[b].id by {
        if b == s.len() {
            assert(t[a] == s[a]);
            if t[a].id == v.id {
                assert(has_id(s, v.id));
            }
        } else {
            assert(t[a] == s[a] && t[b] == s[b]);
        }
    }
    let m1 = map_of(t);
    let m2 = map_of(s).insert(v.id, v);
    assert forall|id: Seq<char>| #[trigger] m1.contains_key(id) implies m2.contains_key(id)
        && m1[id] == m2[id] by {
        let j = index_of_id(t, id);
        assert(0 <= j < t.len() && t[j].id == id);
        if id == v.id {
            lemma_index_unique(t, s.len() as int);
            assert(j == s.len());
        } else {
            assert(j != s.len());
            assert(s[j].id == id);
            assert(has_id(s, id));
            lemma_index_unique(s, j);
        }
    }
    assert forall|id: Seq<char>| #[trigger] m2.contains_key(id) implies m1.contains_key(id) by {
        if id == v.id {
            assert(t[s.len() as int].id == id);
        } else {
            let j = index_of_id(s, id);
            assert(t[j].id == id);
        }
    }
    assert(m1 =~= m2);
}

/// Removing the profile at an index is removal of its id from the map.
proof fn lemma_map_remove(s: Seq<ServerConfigV>, i: int)
    requires
        ids_unique(s),
        0 <= i < s.len(),
    ensures
        ids_unique(s.remove(i)),
        map_of(s.remove(i)) == map_of(s).remove(s[i].id),
{
    let t = s.remove(i);
    assert forall|x: int| 0 <= x < t.len() implies #[trigger] t[x] == (if x < i {
        s[x]
    } else {
        s[x + 1]
    }) by {}
    assert forall|a: int, b: int| 0 <= a < b < t.len() implies t[a].id != t[b].id by {}
    let m1 = map_of(t);
    let m2 = map_of(s).remove(s[i].id);
    assert forall|id: Seq<char>| #[trigger] m1.contains_key(id) implies m2.contains_key(id)
        && m1[id] == m2[id] by {
        let j = index_of_id(t, id);
        assert(0 <= j < t.len() && t[j].id == id);
        let k: int = if j < i {
            j
        } else {
            j + 1
        };
        assert(s[k].id == id);
        if id == s[i].id {
            assert(s[k].id == s[i].id && k != i);
            if k < i {
                assert(s[k].id != s[i].id);
            } else {
                assert(s[i].id != s[k].id);
            }
        }
        assert(has_id(s, id));
        lemma_index_unique(s, k);
    }
    assert forall|id: Seq<char>| #[trigger] m2.contains_key(id) implies m1.contains_key(id) by {
        let k = index_of_id(s, id);
        assert(0 <= k < s.len() && s[k].id == id);
        lemma_index_unique(s, i);
        assert(k != i);
        if k < i {
            assert(t[k].id == id);
        } else {
            assert(t[k - 1].id == id);
        }
    }
    assert(m1 =~= m2);
}

/// The on-disk projection of an [`AuthMethod`]: every secret replaced by its
/// sealing.
pub enum EncryptedAuth {
    Password(String),
    PrivateKey { key: String, passphrase: Option<String> },
}

/// Mathematical view of an [`EncryptedAuth`].
pub enum EncryptedAuthV {
    Password(Seq<char>),
    PrivateKey { key: Seq<char>, passphrase: Option<Seq<char>> },
}

impl View for EncryptedAuth {
    type V = EncryptedAuthV;

    open spec fn view(&self) -> EncryptedAuthV {
        match self {
            EncryptedAuth::Password(p) => EncryptedAuthV::Password(p@),
            EncryptedAuth::PrivateKey { key, passphrase } => EncryptedAuthV::PrivateKey {
                key: key@,
                passphrase: passphrase.deep_view(),
            },
        }
    }
}

/// The on-disk projection of a [`ProxyConfig`]: the password, if any, sealed;
/// everything else in clear text.
pub struct EncryptedProxy {
    pub proxy_type: ProxyType,
    pub host: String,
    pub port: u16,
    pub username: Option<String>,
    pub password: Option<String>,
}

/// Mathematical view of an [`EncryptedProxy`].
pub struct EncryptedProxyV {
    pub proxy_type: ProxyType,
    pub host: Seq<char>,
    pub port: u16,
    pub username: Option<Seq<char>>,
    pub password: Option<Seq<char>>,
}

impl View for EncryptedProxy {
    type V = EncryptedProxyV;

    open spec fn view(&self) -> EncryptedProxyV {
        EncryptedProxyV {
            proxy_type: self.proxy_type,
            host: self.host@,
            port: self.port,
            username: self.username.deep_view(),
            password: self.password.deep_view(),
        }
    }
}

/// The on-disk projection of a [`ServerConfig`]: non-secret fields in clear
/// text, each secret field sealed individually under its own random nonce.
pub struct EncryptedServerConfig {
    pub id: String,
    pub name: String,
    pub host: String,
    pub port: u16,
    pub username: String,
    pub auth: EncryptedAuth,
    pub proxy: Option<EncryptedProxy>,
    pub jump_host: Option<String>,
    pub notes: Option<String>,
    pub created_at: i64,
    pub updated_at: i64,
}

/// Mathematical view of an [`EncryptedServerConfig`].
pub struct EncryptedServerConfigV {
    pub id: Seq<char>,
    pub name: Seq<char>,
    pub host: Seq<char>,
    pub port: u16,
    pub username: Seq<char>,
    pub auth: EncryptedAuthV,
    pub proxy: Option<EncryptedProxyV>,
    pub jump_host: Option<Seq<char>>,
    pub notes: Option<Seq<char>>,
    pub created_at: i64,
    pub updated_at: i64,
}

impl View for EncryptedServerConfig {
    type V = EncryptedServerConfigV;

    open spec fn view(&self) -> EncryptedServerConfigV {
        EncryptedServerConfigV {
            id: self.id@,
            name: self.name@,
            host: self.host@,
            port: self.port,
            username: self.username@,
            auth: self.auth@,
            proxy: match self.proxy {
                Some(p) => Some(p@),
                None => None,
            },
            jump_host: self.jump_host.deep_view(),
            notes: self.notes.deep_view(),
            created_at: self.created_at,
            updated_at: self.updated_at,
        }
    }
}

impl DeepView for EncryptedServerConfig {
    type V = EncryptedServerConfigV;

    open spec fn deep_view(&self) -> EncryptedServerConfigV {
        self.view()
    }
}

/// Every secret of the auth method sealed under the key.
pub open spec fn seals_auth(key: Seq<u8>, e: EncryptedAuthV, a: AuthMethodV) -> bool {
    match (e, a) {
        (EncryptedAuthV::Password(c), AuthMethodV::Password(p)) => is_sealing_of(key, c, p),
        (
            EncryptedAuthV::PrivateKey { key: ck, passphrase: cp },
            AuthMethodV::PrivateKey { key: pk, passphrase: pp },
        ) => is_sealing_of(key, ck, pk) && match (cp, pp) {
            (Option::None, Option::None) => true,
            (Option::Some(c2), Option::Some(p2)) => is_sealing_of(key, c2, p2),
            _ => false,
        },
        _ => false,
    }
}

/// The secrets the sealing of a profile must carry, and their sizes: AES-GCM
/// refuses fields beyond its length limit.
pub open spec fn secrets_small(c: ServerConfigV) -> bool {
    &&& match c.auth {
        AuthMethodV::Password(p) => encode_utf8(p).len() <= GCM_PLAINTEXT_MAX,
        AuthMethodV::PrivateKey { key: pk, passphrase: pp } => encode_utf8(pk).len()
            <= GCM_PLAINTEXT_MAX && match pp {
            Option::Some(p2) => encode_utf8(p2).len() <= GCM_PLAINTEXT_MAX,
            Option::None => true,
        },
    }
    &&& match c.proxy {
        Option::Some(p) => match p.password {
            Option::Some(w) => encode_utf8(w).len() <= GCM_PLAINTEXT_MAX,
            Option::None => true,
        },
        Option::None => true,
    }
}

/// The proxy projection seals the proxy: clear fields copied; the password
/// sealed, or dropped exactly when it exceeds the cipher's length limit.
pub open spec fn seals_proxy(key: Seq<u8>, e: EncryptedProxyV, p: ProxyConfigV) -> bool {
    &&& e.proxy_type == p.proxy_type
    &&& e.host == p.host
    &&& e.port == p.port
    &&& e.username == p.username
    &&& match (e.password, p.password) {
        (Option::None, Option::None) => true,
        (Option::Some(c), Option::Some(w)) => is_sealing_of(key, c, w),
        (Option::None, Option::Some(w)) => encode_utf8(w).len() > GCM_PLAINTEXT_MAX,
        (Option::Some(_), Option::None) => false,
    }
}

/// The encrypted record is the at-rest projection of the profile: non-secret
/// fields equal, every secret sealed (the proxy password dropped only if the
/// cipher refused it).
pub open spec fn seals_config(key: Seq<u8>, e: EncryptedServerConfigV, c: ServerConfigV) -> bool {
    &&& e.id == c.id
    &&& e.name == c.name
    &&& e.host == c.host
    &&& e.port == c.port
    &&& e.username == c.username
    &&& e.jump_host == c.jump_host
    &&& e.notes == c.notes
    &&& e.created_at == c.created_at
    &&& e.updated_at == c.updated_at
    &&& seals_auth(key, e.auth, c.auth)
    &&& match (e.proxy, c.proxy) {
        (Option::None, Option::None) => true,
        (Option::Some(ep), Option::Some(p)) => seals_proxy(key, ep, p),
        _ => false,
    }
}

/// As [`seals_config`], with nothing dropped: every secret of `c`, the proxy
/// password included, stands sealed in `e`. Exactly these records decrypt
/// back to `c`.
pub open spec fn seals_config_exact(key: Seq<u8>, e: EncryptedServerConfigV, c: ServerConfigV)
    -> bool {
    &&& seals_config(key, e, c)
    &&& match (e.proxy, c.proxy) {
        (Option::Some(ep), Option::Some(p)) => p.password is Some ==> ep.password is Some,
        _ => true,
    }
}

/// What loading an encrypted record yields: as [`seals_config`], except that
/// a proxy password whose sealing no longer opens is dropped from the loaded
/// profile.
pub open spec fn loads_to(key: Seq<u8>, e: EncryptedServerConfigV, c: ServerConfigV) -> bool {
    &&& e.id == c.id
    &&& e.name == c.name
    &&& e.host == c.host
    &&& e.port == c.port
    &&& e.username == c.username
    &&& e.jump_host == c.jump_host
    &&& e.notes == c.notes
    &&& e.created_at == c.created_at
    &&& e.updated_at == c.updated_at
    &&& seals_auth(key, e.auth, c.auth)
    &&& match (e.proxy, c.proxy) {
        (Option::None, Option::None) => true,
        (Option::Some(ep), Option::Some(p)) => {
            &&& ep.proxy_type == p.proxy_type
            &&& ep.host == p.host
            &&& ep.port == p.port
            &&& ep.username == p.username
            &&& match (ep.password, p.password) {
                (Option::None, Option::None) => true,
                (Option::Some(c2), Option::Some(w)) => is_sealing_of(key, c2, w),
                (Option::Some(c2), Option::None) => !(exists|w: Seq<char>|
                    is_sealing_of(key, c2, w)),
                (Option::None, Option::Some(_)) => false,
            }
        },
        _ => false,
    }
}

/// An optional string, with the empty string read as absence: a blank form
/// field means none.
pub open spec fn nonempty_or_none(o: Option<Seq<char>>) -> Option<Seq<char>> {
    match o {
        Option::Some(s) => if s.len() == 0 {
            Option::None
        } else {
            Option::Some(s)
        },
        Option::None => Option::None,
    }
}

/// The request names the key method but carries no key, or names the
/// password method but carries no password.
pub open spec fn req_missing_auth(rq: SaveServerRequest) -> bool {
    if rq.auth_type@ == "key"@ {
        rq.private_key is None
    } else {
        rq.password is None
    }
}

/// The request enables a proxy but leaves its address incomplete.
pub open spec fn req_missing_proxy(rq: SaveServerRequest) -> bool {
    rq.proxy_enabled && (rq.proxy_host is None || rq.proxy_port is None)
}

/// The auth method a well-formed request describes.
pub open spec fn req_auth(rq: SaveServerRequest) -> AuthMethodV {
    if rq.auth_type@ == "key"@ {
        AuthMethodV::PrivateKey {
            key: rq.private_key.deep_view().unwrap(),
            passphrase: nonempty_or_none(rq.passphrase.deep_view()),
        }
    } else {
        AuthMethodV::Password(rq.password.deep_view().unwrap())
    }
}

/// The proxy a well-formed request describes: `socks5` by name, any other
/// label read as the HTTP kind.
pub open spec fn req_proxy(rq: SaveServerRequest) -> Option<ProxyConfigV> {
    if rq.proxy_enabled {
        Option::Some(
            ProxyConfigV {
                proxy_type: if rq.proxy_type.deep_view() == Option::Some("socks5"@) {
                    ProxyType::Socks5
                } else {
                    ProxyType::Http
                },
                host: rq.proxy_host.deep_view().unwrap(),
                port: rq.proxy_port.unwrap(),
                username: rq.proxy_username.deep_view(),
                password: rq.proxy_password.deep_view(),
            },
        )
    } else {
        Option::None
    }
}

/// Every profile of the sequence stands in the map under some id, with its
/// content carried as an import.
pub open spec fn all_imported(profiles: Seq<ServerConfigV>, m: Map<Seq<char>, ServerConfigV>)
    -> bool {
    forall|j: int|
        #![trigger profiles[j]]
        0 <= j < profiles.len() ==> has_import_of(profiles[j], m)
}

/// Some entry of the map carries the content of this profile as an import.
pub open spec fn has_import_of(p: ServerConfigV, m: Map<Seq<char>, ServerConfigV>) -> bool {
    exists|id: Seq<char>| #[trigger] m.contains_key(id) && imported_as(p, m[id])
}

/// With one witness id per profile, the whole sequence is imported.
proof fn lemma_all_imported(
    profiles: Seq<ServerConfigV>,
    ids: Seq<Seq<char>>,
    m: Map<Seq<char>, ServerConfigV>,
)
    requires
        ids.len() == profiles.len(),
        forall|j: int|
            0 <= j < profiles.len() ==> m.contains_key(#[trigger] ids[j]) && imported_as(
                profiles[j],
                m[ids[j]],
            ),
    ensures
        all_imported(profiles, m),
{
    assert forall|j: int| #![trigger profiles[j]] 0 <= j < profiles.len() implies has_import_of(
        profiles[j],
        m,
    ) by {
        assert(m.contains_key(ids[j]) && imported_as(profiles[j], m[ids[j]]));
        assert(has_import_of(profiles[j], m));
    }
}

/// The stored entry `c` carries the content of the imported profile `p`:
/// everything equal but the id, freshly drawn at import, and the update
/// timestamp, set to the import time.
pub open spec fn imported_as(p: ServerConfigV, c: ServerConfigV) -> bool {
    &&& c.name == p.name
    &&& c.host == p.host
    &&& c.port == p.port
    &&& c.username == p.username
    &&& c.auth == p.auth
    &&& c.proxy == p.proxy
    &&& c.jump_host == p.jump_host
    &&& c.notes == p.notes
    &&& c.created_at == p.created_at
    &&& c.id.len() >= 36
}

/// The credential store: the in-memory profile set and the machine-local
/// encryption key, with the directory the driver persists under.
pub struct Storage {
    servers: Vec<ServerConfig>,
    encryption_key: Vec<u8>,
    data_dir: String,
}

impl Storage {
    /// The store's invariant: a 32-byte key, and no two profiles sharing an id.
    pub closed spec fn wf(&self) -> bool {
        &&& self.encryption_key@.len() == 32
        &&& ids_unique(self.servers.deep_view())
    }

    /// The profile set as a map from id to profile.
    pub closed spec fn profiles(&self) -> Map<Seq<char>, ServerConfigV> {
        map_of(self.servers.deep_view())
    }

    /// The profiles in the store's own order.
    pub closed spec fn profile_seq(&self) -> Seq<ServerConfigV> {
        self.servers.deep_view()
    }

    /// The key every secret field is sealed under.
    pub closed spec fn key(&self) -> Seq<u8> {
        self.encryption_key@
    }

    /// The data directory the driver persists under.
    pub closed spec fn dir(&self) -> Seq<char> {
        self.data_dir@
    }

    /// An empty store over the given key and data directory.
    pub fn new(encryption_key: Vec<u8>, data_dir: String) -> (r: Self)
        requires
            encryption_key@.len() == 32,
        ensures
            r.wf(),
            r.profiles() == Map::<Seq<char>, ServerConfigV>::empty(),
            r.key() == encryption_key@,
            r.dir() == data_dir@,
    {
        let r = Storage { servers: Vec::new(), encryption_key, data_dir };
        proof {
            assert(r.profiles() =~= Map::<Seq<char>, ServerConfigV>::empty());
        }
        r
    }

    /// The path of the persisted profile document: `servers.json` under the
    /// store's data directory.
    pub fn servers_file(&self) -> (r: String)
        ensures
            r@ == self.dir() + "/servers.json"@,
    {
        let mut p = self.data_dir.clone();
        p.append("/servers.json");
        p
    }

    /// The index holding the given id, if any.
    fn find(&self, id: &str) -> (r: Option<usize>)
        ensures
            r matches Some(i) ==> i < self.servers@.len() && self.servers.deep_view()[i as int].id
                == id@,
            r is None ==> !has_id(self.servers.deep_view(), id@),
    {
        let ghost s = self.servers.deep_view();
        let id_owned = id.to_owned();
        let n = self.servers.len();
        for i in 0..n
            invariant
                n == self.servers@.len(),
                s == self.servers.deep_view(),
                id_owned@ == id@,
                forall|j: int| 0 <= j < i ==> s[j].id != id@,
        {
            proof {
                assert(s[i as int] == self.servers@[i as int]@);
            }
            if self.servers[i].id == id_owned {
                return Some(i);
            }
        }
        None
    }

    /// Look one profile up by id.
    pub fn get_server(&self, id: &str) -> (r: Option<ServerConfig>)
        requires
            self.wf(),
        ensures
            r matches Some(c) ==> self.profiles().contains_key(id@) && c@ == self.profiles()[id@]
                && c@.id == id@,
            r is None ==> !self.profiles().contains_key(id@),
    {
        match self.find(id) {
            Some(i) => {
                let c = (&self.servers[i]).clone();
                proof {
                    lemma_map_at(self.servers.deep_view(), i as int);
                }
                Some(c)
            },
            None => None,
        }
    }

    /// All profiles, in the store's own order: every profile of the map
    /// appears exactly once.
    pub fn get_all_servers(&self) -> (r: Vec<ServerConfig>)
        requires
            self.wf(),
        ensures
            r.deep_view() == self.profile_seq(),
            ids_unique(r.deep_view()),
            forall|i: int|
                0 <= i < r@.len() ==> #[trigger] self.profiles().contains_key(
                    r.deep_view()[i].id,
                ) && self.profiles()[r.deep_view()[i].id] == r.deep_view()[i],
            forall|id: Seq<char>|
                self.profiles().contains_key(id) ==> exists|i: int|
                    0 <= i < r@.len() && #[trigger] r.deep_view()[i].id == id,
    {
        let ghost s = self.servers.deep_view();
        let n = self.servers.len();
        let mut r: Vec<ServerConfig> = Vec::new();
        for i in 0..n
            invariant
                n == self.servers@.len(),
                s == self.servers.deep_view(),
                r@.len() == i,
                forall|k: int| 0 <= k < i ==> #[trigger] r.deep_view()[k] == s[k],
        {
            proof {
                assert(s[i as int] == self.servers@[i as int]@);
            }
            let c = (&self.servers[i]).clone();
            proof {
                assert(c@ == s[i as int]);
            }
            let ghost r_old = r;
            r.push(c);
            proof {
                assert forall|k: int| 0 <= k < i as int + 1 implies #[trigger] r.deep_view()[k]
                    == s[k] by {
                    assert(r.deep_view()[k] == r@[k].deep_view());
                    if k < i as int {
                        assert(r@[k] == r_old@[k]);
                        assert(r_old.deep_view()[k] == r_old@[k].deep_view());
                    }
                }
            }
        }
        proof {
            assert(r.deep_view() =~= s);
            assert forall|i: int|
                0 <= i < r@.len() implies #[trigger] self.profiles().contains_key(
                r.deep_view()[i].id,
            ) && self.profiles()[r.deep_view()[i].id] == r.deep_view()[i] by {
                lemma_map_at(s, i);
            }
            assert forall|id: Seq<char>| self.profiles().contains_key(id) implies exists|i: int|
                0 <= i < r@.len() && #[trigger] r.deep_view()[i].id == id by {
                let i = index_of_id(s, id);
                assert(r.deep_view()[i].id == id);
            }
        }
        r
    }

    /// Create or update a profile: the update timestamp is set to the present
    /// moment, a first save also sets the creation timestamp, and the profile
    /// replaces any stored one with the same id. Returns the profile as
    /// stored.
    pub fn save_server(&mut self, server: ServerConfig) -> (r: ServerConfig)
        requires
            old(self).wf(),
        ensures
            final(self).wf(),
            final(self).key() == old(self).key(),
            final(self).dir() == old(self).dir(),
            final(self).profiles() == old(self).profiles().insert(r@.id, r@),
            r@.id == server@.id,
            r@.name == server@.name,
            r@.host == server@.host,
            r@.port == server@.port,
            r@.username == server@.username,
            r@.auth == server@.auth,
            r@.proxy == server@.proxy,
            r@.jump_host == server@.jump_host,
            r@.notes == server@.notes,
            server@.created_at != 0 ==> r@.created_at == server@.created_at,
            server@.created_at == 0 ==> r@.created_at == r@.updated_at,
    {
        let mut server = server;
        let now = chrono_timestamp();
        server.updated_at = now;
        if server.created_at == 0 {
            server.created_at = now;
        }
        let r = server.clone();
        self.put(server);
        r
    }

    /// Insert a profile, replacing any stored one with the same id.
    fn put(&mut self, server: ServerConfig)
        requires
            old(self).wf(),
        ensures
            final(self).wf(),
            final(self).key() == old(self).key(),
            final(self).dir() == old(self).dir(),
            final(self).profiles() == old(self).profiles().insert(server@.id, server@),
    {
        let ghost s = self.servers.deep_view();
        let ghost sv = server@;
        let idx = self.find(server.id.as_str());
        match idx {
            Some(i) => {
                self.servers.set(i, server);
                proof {
                    assert forall|k: int|
                        0 <= k < self.servers@.len() implies #[trigger] self.servers.deep_view()[k]
                        == s.update(i as int, sv)[k] by {
                        assert(self.servers.deep_view()[k] == self.servers@[k].deep_view());
                        if k != i as int {
                            assert(self.servers@[k] == old(self).servers@[k]);
                            assert(s[k] == old(self).servers@[k].deep_view());
                        }
                    }
                    assert(self.servers.deep_view() =~= s.update(i as int, sv));
                    lemma_map_update(s, i as int, sv);
                }
            },
            None => {
                self.servers.push(server);
                proof {
                    assert forall|k: int|
                        0 <= k < self.servers@.len() implies #[trigger] self.servers.deep_view()[k]
                        == s.push(sv)[k] by {
                        assert(self.servers.deep_view()[k] == self.servers@[k].deep_view());
                        if k < s.len() {
                            assert(self.servers@[k] == old(self).servers@[k]);
                            assert(s[k] == old(self).servers@[k].deep_view());
                        }
                    }
                    assert(self.servers.deep_view() =~= s.push(sv));
                    lemma_map_push(s, sv);
                }
            },
        }
    }

    /// Seal one profile for storage at rest: non-secret fields copied, each
    /// secret sealed under its own nonce. A proxy password the cipher refuses
    /// is dropped, as the loose clause of [`seals_config`] records; every
    /// profile with secrets within the cipher's limit seals completely.
    pub fn encrypt_server(&self, server: &ServerConfig) -> (r: Result<
        EncryptedServerConfig,
        CoreError,
    >)
        requires
            self.wf(),
        ensures
            r matches Ok(e) ==> seals_config(self.key(), e@, server@),
            r matches Ok(e) ==> (secrets_small(server@) ==> seals_config_exact(
                self.key(),
                e@,
                server@,
            )),
            secrets_small(server@) ==> r is Ok,
    {
        let encrypted_auth = match &server.auth {
            AuthMethod::Password(pwd) => {
                match encrypt_field(&self.encryption_key, pwd.as_str()) {
                    Ok(c) => EncryptedAuth::Password(c),
                    Err(e) => {
                        return Err(e);
                    },
                }
            },
            AuthMethod::PrivateKey { key, passphrase } => {
                let ck = match encrypt_field(&self.encryption_key, key.as_str()) {
                    Ok(c) => c,
                    Err(e) => {
                        return Err(e);
                    },
                };
                let cp = match passphrase {
                    Some(p) => {
                        match encrypt_field(&self.encryption_key, p.as_str()) {
                            Ok(c) => Some(c),
                            Err(e) => {
                                return Err(e);
                            },
                        }
                    },
                    None => None,
                };
                EncryptedAuth::PrivateKey { key: ck, passphrase: cp }
            },
        };
        let encrypted_proxy = match &server.proxy {
            Some(p) => {
                let pw = match &p.password {
                    Some(w) => {
                        match encrypt_field(&self.encryption_key, w.as_str()) {
                            Ok(c) => Some(c),
                            Err(_) => None,
                        }
                    },
                    None => None,
                };
                Some(
                    EncryptedProxy {
                        proxy_type: p.proxy_type,
                        host: p.host.clone(),
                        port: p.port,
                        username: p.username.clone(),
                        password: pw,
                    },
                )
            },
            None => None,
        };
        Ok(
            EncryptedServerConfig {
                id: server.id.clone(),
                name: server.name.clone(),
                host: server.host.clone(),
                port: server.port,
                username: server.username.clone(),
                auth: encrypted_auth,
                proxy: encrypted_proxy,
                jump_host: server.jump_host.clone(),
                notes: server.notes.clone(),
                created_at: server.created_at,
                updated_at: server.updated_at,
            },
        )
    }

    /// Load one encrypted record back into a profile. A record whose auth
    /// secrets no longer open fails with `Crypto`; a proxy password that no
    /// longer opens is dropped from the loaded profile. The last clause is
    /// the round-trip law: every completely sealed record loads back to the
    /// profile it sealed.
    pub fn decrypt_server(&self, encrypted: &EncryptedServerConfig) -> (r: Result<
        ServerConfig,
        CoreError,
    >)
        requires
            self.wf(),
        ensures
            r matches Ok(c) ==> loads_to(self.key(), encrypted@, c@),
            r is Err ==> forall|c: ServerConfigV| !loads_to(self.key(), encrypted@, c),
            forall|c: ServerConfigV|
                seals_config_exact(self.key(), encrypted@, c) ==> (r matches Ok(d) && d@ == c),
    {
        let auth = match &encrypted.auth {
            EncryptedAuth::Password(cv) => {
                match decrypt_field(&self.encryption_key, cv.as_str()) {
                    Ok(p) => AuthMethod::Password(p),
                    Err(e) => {
                        return Err(e);
                    },
                }
            },
            EncryptedAuth::PrivateKey { key: ck, passphrase: cp } => {
                let pk = match decrypt_field(&self.encryption_key, ck.as_str()) {
                    Ok(p) => p,
                    Err(e) => {
                        return Err(e);
                    },
                };
                let pp = match cp {
                    Some(c2) => {
                        match decrypt_field(&self.encryption_key, c2.as_str()) {
                            Ok(p2) => Some(p2),
                            Err(e) => {
                                return Err(e);
                            },
                        }
                    },
                    None => None,
                };
                AuthMethod::PrivateKey { key: pk, passphrase: pp }
            },
        };
        let proxy = match &encrypted.proxy {
            Some(ep) => {
                let pw = match &ep.password {
                    Some(c2) => {
                        match decrypt_field(&self.encryption_key, c2.as_str()) {
                            Ok(w) => Some(w),
                            Err(_) => None,
                        }
                    },
                    None => None,
                };
                Some(
                    ProxyConfig {
                        proxy_type: ep.proxy_type,
                        host: ep.host.clone(),
                        port: ep.port,
                        username: ep.username.clone(),
                        password: pw,
                    },
                )
            },
            None => None,
        };
        Ok(
            ServerConfig {
                id: encrypted.id.clone(),
                name: encrypted.name.clone(),
                host: encrypted.host.clone(),
                port: encrypted.port,
                username: encrypted.username.clone(),
                auth,
                proxy,
                jump_host: encrypted.jump_host.clone(),
                notes: encrypted.notes.clone(),
                created_at: encrypted.created_at,
                updated_at: encrypted.updated_at,
            },
        )
    }

    /// Replace the in-memory profile set from the persisted records: every
    /// record whose secrets still open is loaded, and a record whose auth
    /// secrets no longer open is silently excluded, keeping the rest of the
    /// store available.
    pub fn load_entries(&mut self, entries: Vec<EncryptedServerConfig>)
        requires
            old(self).wf(),
        ensures
            final(self).wf(),
            final(self).key() == old(self).key(),
            final(self).dir() == old(self).dir(),
            forall|id: Seq<char>| #[trigger]
                final(self).profiles().contains_key(id) ==> exists|j: int|
                    0 <= j < entries@.len() && loads_to(
                        final(self).key(),
                        #[trigger] entries.deep_view()[j],
                        final(self).profiles()[id],
                    ) && entries.deep_view()[j].id == id,
            forall|j: int|
                0 <= j < entries@.len() && (exists|c: ServerConfigV|
                    loads_to(
                        old(self).key(),
                        #[trigger] entries.deep_view()[j],
                        c,
                    )) ==> final(self).profiles().contains_key(entries.deep_view()[j].id),
    {
        self.servers = Vec::new();
        proof {
            assert(self.profiles() =~= Map::<Seq<char>, ServerConfigV>::empty());
        }
        let n = entries.len();
        for i in 0..n
            invariant
                self.wf(),
                self.key() == old(self).key(),
                self.dir() == old(self).dir(),
                n == entries@.len(),
                forall|id: Seq<char>| #[trigger]
                    self.profiles().contains_key(id) ==> exists|j: int|
                        0 <= j < i && loads_to(
                            self.key(),
                            #[trigger] entries.deep_view()[j],
                            self.profiles()[id],
                        ) && entries.deep_view()[j].id == id,
                forall|j: int|
                    0 <= j < i && (exists|c: ServerConfigV|
                        loads_to(
                            self.key(),
                            #[trigger] entries.deep_view()[j],
                            c,
                        )) ==> self.profiles().contains_key(entries.deep_view()[j].id),
        {
            proof {
                assert(entries.deep_view()[i as int] == entries@[i as int]@);
            }
            match self.decrypt_server(&entries[i]) {
                Ok(server) => {
                    self.put(server);
                },
                Err(_) => {},
            }
        }
    }

    /// Project the whole profile set into its persisted records, in the
    /// store's own order. Every profile whose secrets are within the
    /// cipher's length limit — every profile, in practice — stands completely
    /// sealed in the result; one the cipher refuses is skipped without
    /// releasing the rest, and when none is refused the records align with
    /// the profiles one to one.
    #[verifier::spinoff_prover]
    #[verifier::rlimit(30)]
    pub fn save_entries(&self) -> (r: Vec<EncryptedServerConfig>)
        requires
            self.wf(),
        ensures
            forall|k: int|
                0 <= k < r@.len() ==> exists|j: int|
                    0 <= j < self.profile_seq().len() && seals_config(
                        self.key(),
                        #[trigger] r.deep_view()[k],
                        self.profile_seq()[j],
                    ),
            forall|j: int|
                0 <= j < self.profile_seq().len() && secrets_small(
                    #[trigger] self.profile_seq()[j],
                ) ==> exists|k: int|
                    0 <= k < r@.len() && seals_config_exact(
                        self.key(),
                        r.deep_view()[k],
                        self.profile_seq()[j],
                    ),
            (forall|j: int|
                0 <= j < self.profile_seq().len() ==> secrets_small(
                    #[trigger] self.profile_seq()[j],
                )) ==> r@.len() == self.profile_seq().len() && (forall|k: int|
                0 <= k < r@.len() ==> seals_config_exact(
                    self.key(),
                    #[trigger] r.deep_view()[k],
                    self.profile_seq()[k],
                )),
    {
        let ghost s = self.profile_seq();
        let n = self.servers.len();
        let mut r: Vec<EncryptedServerConfig> = Vec::new();
        let ghost mut src: Seq<int> = Seq::empty();
        let ghost mut placed: Seq<int> = Seq::empty();
        for i in 0..n
            invariant
                self.wf(),
                s == self.profile_seq(),
                n == self.servers@.len(),
                src.len() == r@.len(),
                placed.len() == i,
                forall|k: int|
                    0 <= k < r@.len() ==> 0 <= #[trigger] src[k] < i && seals_config(
                        self.key(),
                        r.deep_view()[k],
                        s[src[k]],
                    ),
                forall|j: int|
                    0 <= j < i && secrets_small(#[trigger] s[j]) ==> 0 <= placed[j] < r@.len()
                        && seals_config_exact(self.key(), r.deep_view()[placed[j]], s[j]),
                (forall|j: int| 0 <= j < s.len() ==> secrets_small(#[trigger] s[j])) ==> r@.len()
                    == i && (forall|k: int|
                    0 <= k < r@.len() ==> seals_config_exact(
                        self.key(),
                        #[trigger] r.deep_view()[k],
                        s[k],
                    )),
        {
            proof {
                assert(s[i as int] == self.servers@[i as int]@);
            }
            let ghost r_snap = r;
            match self.encrypt_server(&self.servers[i]) {
                Ok(e) => {
                    let ghost ev = e@;
                    r.push(e);
                    proof {
                        src = src.push(i as int);
                        placed = placed.push(r@.len() - 1);
                        assert forall|k: int|
                            0 <= k < r@.len() - 1 implies #[trigger] r.deep_view()[k]
                            == r_snap.deep_view()[k] by {
                            assert(r.deep_view()[k] == r@[k].deep_view());
                            assert(r@[k] == r_snap@[k]);
                        }
                        assert(r.deep_view()[r@.len() - 1] == r@[r@.len() - 1].deep_view());
                        assert(r.deep_view()[r@.len() - 1] == ev);
                        assert(seals_config(self.key(), ev, s[i as int]));
                    }
                },
                Err(_) => {
                    proof {
                        placed = placed.push(-1);
                    }
                },
            }
        }
        proof {
            assert forall|k: int| 0 <= k < r@.len() implies exists|j: int|
                0 <= j < s.len() && seals_config(
                    self.key(),
                    #[trigger] r.deep_view()[k],
                    s[j],
                ) by {
                assert(seals_config(self.key(), r.deep_view()[k], s[src[k]]));
            }
            assert forall|j: int|
                0 <= j < s.len() && secrets_small(#[trigger] s[j]) implies exists|k: int|
                0 <= k < r@.len() && seals_config_exact(self.key(), r.deep_view()[k], s[j]) by {
                assert(seals_config_exact(self.key(), r.deep_view()[placed[j]], s[j]));
            }
        }
        r
    }

    /// The length of the longest stored id.
    fn max_id_len(&self) -> (m: usize)
        ensures
            forall|i: int|
                0 <= i < self.profile_seq().len() ==> #[trigger] self.profile_seq()[i].id.len()
                    <= m,
    {
        let ghost s = self.profile_seq();
        let n = self.servers.len();
        let mut m: usize = 0;
        for i in 0..n
            invariant
                s == self.profile_seq(),
                n == self.servers@.len(),
                forall|j: int| 0 <= j < i ==> #[trigger] s[j].id.len() <= m,
        {
            proof {
                assert(s[i as int] == self.servers@[i as int]@);
            }
            let l = self.servers[i].id.as_str().unicode_len();
            if l > m {
                m = l;
            }
        }
        m
    }

    /// An id no stored profile carries: freshly drawn at uuid length, and
    /// extended while it collides — so an insertion under it can never
    /// replace an existing profile.
    fn unused_id(&self) -> (r: String)
        requires
            self.wf(),
        ensures
            !self.profiles().contains_key(r@),
            r@.len() >= 36,
    {
        let m = self.max_id_len();
        let mut id = fresh_id();
        proof {
            reveal_strlit("x");
            assert("x"@ =~= seq!['x']);
        }
        loop
            invariant
                self.wf(),
                id@.len() >= 36,
                forall|i: int|
                    0 <= i < self.profile_seq().len() ==> #[trigger] self.profile_seq()[i].id.len()
                        <= m,
            decreases m + 1 - id@.len(),
        {
            match self.find(id.as_str()) {
                None => {
                    return id;
                },
                Some(i) => {
                    proof {
                        reveal_strlit("x");
                        assert("x"@ =~= seq!['x']);
                        assert(self.profile_seq()[i as int].id.len() <= m);
                    }
                    id.append("x");
                },
            }
        }
    }

    /// Bring a set of profiles from a backup into the store. Every profile is
    /// inserted under a freshly drawn, provably unused id — never the id it
    /// carried — with its update timestamp set to the import time; the count
    /// of profiles handed in is returned. Pre-existing profiles survive
    /// untouched, every imported profile stands in the store, and nothing
    /// else changes.
    #[verifier::spinoff_prover]
    #[verifier::rlimit(30)]
    pub fn import_profiles(&mut self, profiles: Vec<ServerConfig>) -> (count: usize)
        requires
            old(self).wf(),
        ensures
            final(self).wf(),
            final(self).key() == old(self).key(),
            final(self).dir() == old(self).dir(),
            count == profiles@.len(),
            forall|id: Seq<char>| #[trigger]
                old(self).profiles().contains_key(id) ==> final(self).profiles().contains_key(id)
                    && final(self).profiles()[id] == old(self).profiles()[id],
            all_imported(profiles.deep_view(), final(self).profiles()),
            forall|id: Seq<char>| #[trigger]
                final(self).profiles().contains_key(id) ==> (old(self).profiles().contains_key(id)
                    && final(self).profiles()[id] == old(self).profiles()[id]) || (exists|j: int|
                    0 <= j < profiles@.len() && imported_as(
                        #[trigger] profiles.deep_view()[j],
                        final(self).profiles()[id],
                    )),
    {
        let count = profiles.len();
        let n = profiles.len();
        let ghost mut placed_ids: Seq<Seq<char>> = Seq::empty();
        for i in 0..n
            invariant
                self.wf(),
                self.key() == old(self).key(),
                self.dir() == old(self).dir(),
                n == profiles@.len(),
                forall|id: Seq<char>| #[trigger]
                    old(self).profiles().contains_key(id) ==> self.profiles().contains_key(id)
                        && self.profiles()[id] == old(self).profiles()[id],
                placed_ids.len() == i,
                forall|j: int|
                    0 <= j < i ==> self.profiles().contains_key(#[trigger] placed_ids[j])
                        && imported_as(profiles.deep_view()[j], self.profiles()[placed_ids[j]]),
                forall|id: Seq<char>| #[trigger]
                    self.profiles().contains_key(id) ==> (old(self).profiles().contains_key(id)
                        && self.profiles()[id] == old(self).profiles()[id]) || (exists|j: int|
                        0 <= j < i && imported_as(
                            #[trigger] profiles.deep_view()[j],
                            self.profiles()[id],
                        )),
        {
            proof {
                assert(profiles.deep_view()[i as int] == profiles@[i as int]@);
            }
            let mut server = (&profiles[i]).clone();
            server.id = self.unused_id();
            server.updated_at = chrono_timestamp();
            let ghost sv = server@;
            let ghost before = self.profiles();
            self.put(server);
            proof {
                placed_ids = placed_ids.push(sv.id);
                assert(!before.contains_key(sv.id));
                assert(imported_as(profiles.deep_view()[i as int], sv));
                assert forall|j: int|
                    0 <= j < i + 1 implies self.profiles().contains_key(
                    #[trigger] placed_ids[j],
                ) && imported_as(profiles.deep_view()[j], self.profiles()[placed_ids[j]]) by {
                    if j < i {
                        assert(before.contains_key(placed_ids[j]));
                        assert(placed_ids[j] != sv.id);
                        assert(self.profiles()[placed_ids[j]] == before[placed_ids[j]]);
                    } else {
                        assert(placed_ids[j] == sv.id);
                        assert(self.profiles()[sv.id] == sv);
                    }
                }
            }
        }
        proof {
            lemma_all_imported(profiles.deep_view(), placed_ids, self.profiles());
        }
        count
    }

    /// The non-secret summaries of all profiles, in the store's own order.
    pub fn get_servers(&self) -> (r: Vec<ServerInfo>)
        requires
            self.wf(),
        ensures
            r@.len() == self.profile_seq().len(),
            forall|i: int| 0 <= i < r@.len() ==> summarizes(#[trigger] r@[i], self.profile_seq()[i]),
    {
        let ghost s = self.profile_seq();
        let n = self.servers.len();
        let mut r: Vec<ServerInfo> = Vec::new();
        for i in 0..n
            invariant
                s == self.profile_seq(),
                n == self.servers@.len(),
                r@.len() == i,
                forall|k: int| 0 <= k < i ==> summarizes(#[trigger] r@[k], s[k]),
        {
            proof {
                assert(s[i as int] == self.servers@[i as int]@);
            }
            r.push(ServerInfo::from_config(&self.servers[i]));
        }
        r
    }

    /// Create or update a profile from a caller's loose request. The named
    /// auth method's material and an enabled proxy's address are required
    /// (`Format` when missing); updating an unknown id is `NotFound`; a blank
    /// passphrase or jump-host field is read as absence. On success the
    /// profile is stored and its non-secret summary returned.
    pub fn apply_request(&mut self, request: SaveServerRequest) -> (r: Result<
        ServerInfo,
        CoreError,
    >)
        requires
            old(self).wf(),
        ensures
            final(self).wf(),
            final(self).key() == old(self).key(),
            final(self).dir() == old(self).dir(),
            r is Err ==> final(self).profiles() == old(self).profiles(),
            r == Err::<ServerInfo, CoreError>(CoreError::Format) <==> (req_missing_auth(request)
                || req_missing_proxy(request)),
            r == Err::<ServerInfo, CoreError>(CoreError::NotFound) <==> (!req_missing_auth(request)
                && !req_missing_proxy(request) && (request.id matches Some(i)
                && !old(self).profiles().contains_key(i@))),
            r is Ok <==> (!req_missing_auth(request) && !req_missing_proxy(request) && (match
                request.id {
                Option::Some(i) => old(self).profiles().contains_key(i@),
                Option::None => true,
            })),
            r matches Ok(info) ==> exists|c: ServerConfigV|
                {
                    &&& #[trigger] summarizes(info, c)
                    &&& final(self).profiles() == old(self).profiles().insert(c.id, c)
                    &&& c.name == request.name@
                    &&& c.host == request.host@
                    &&& c.port == request.port
                    &&& c.username == request.username@
                    &&& c.auth == req_auth(request)
                    &&& c.proxy == req_proxy(request)
                    &&& c.jump_host == nonempty_or_none(request.jump_host.deep_view())
                    &&& c.notes == request.notes.deep_view()
                    &&& match request.id {
                        Option::Some(i) => {
                            &&& c.id == i@
                            &&& old(self).profiles()[i@].created_at != 0 ==> c.created_at == old(
                                self,
                            ).profiles()[i@].created_at
                            &&& old(self).profiles()[i@].created_at == 0 ==> c.created_at
                                == c.updated_at
                        },
                        Option::None => c.id.len() == 36,
                    }
                },
    {
        let key_label = String::from_str("key");
        let auth = if request.auth_type == key_label {
            let k = match request.private_key {
                Some(k) => k,
                None => {
                    return Err(CoreError::Format);
                },
            };
            let passphrase = match request.passphrase {
                Some(p) => if p.as_str().is_empty() {
                    None
                } else {
                    Some(p)
                },
                None => None,
            };
            AuthMethod::PrivateKey { key: k, passphrase }
        } else {
            match request.password {
                Some(p) => AuthMethod::Password(p),
                None => {
                    return Err(CoreError::Format);
                },
            }
        };
        let proxy = if request.proxy_enabled {
            let h = match request.proxy_host {
                Some(h) => h,
                None => {
                    return Err(CoreError::Format);
                },
            };
            let po = match request.proxy_port {
                Some(p) => p,
                None => {
                    return Err(CoreError::Format);
                },
            };
            let socks_label = String::from_str("socks5");
            let pt = match &request.proxy_type {
                Some(t) => if *t == socks_label {
                    ProxyType::Socks5
                } else {
                    ProxyType::Http
                },
                None => ProxyType::Http,
            };
            Some(
                ProxyConfig {
                    proxy_type: pt,
                    host: h,
                    port: po,
                    username: request.proxy_username,
                    password: request.proxy_password,
                },
            )
        } else {
            None
        };
        let jump_host = match request.jump_host {
            Some(j) => if j.as_str().is_empty() {
                None
            } else {
                Some(j)
            },
            None => None,
        };
        let server = match request.id {
            Some(id) => {
                let mut existing = match self.get_server(id.as_str()) {
                    Some(e) => e,
                    None => {
                        return Err(CoreError::NotFound);
                    },
                };
                existing.name = request.name;
                existing.host = request.host;
                existing.port = request.port;
                existing.username = request.username;
                existing.auth = auth;
                existing.proxy = proxy;
                existing.jump_host = jump_host;
                existing.notes = request.notes;
                existing
            },
            None => {
                let mut server = ServerConfig::new(
                    request.name,
                    request.host,
                    request.port,
                    request.username,
                    auth,
                );
                server.proxy = proxy;
                server.jump_host = jump_host;
                server.notes = request.notes;
                server
            },
        };
        let saved = self.save_server(server);
        let info = ServerInfo::from_config(&saved);
        proof {
            assert(summarizes(info, saved@));
        }
        Ok(info)
    }

    /// Delete the profile with this id; deleting an absent id changes nothing.
    pub fn delete_server(&mut self, id: &str)
        requires
            old(self).wf(),
        ensures
            final(self).wf(),
            final(self).key() == old(self).key(),
            final(self).dir() == old(self).dir(),
            final(self).profiles() == old(self).profiles().remove(id@),
    {
        let ghost s = self.servers.deep_view();
        match self.find(id) {
            Some(i) => {
                proof {
                    lemma_map_remove(s, i as int);
                }
                self.servers.remove(i);
                proof {
                    assert forall|k: int|
                        0 <= k < self.servers@.len() implies #[trigger] self.servers.deep_view()[k]
                        == s.remove(i as int)[k] by {
                        assert(self.servers.deep_view()[k] == self.servers@[k].deep_view());
                        if k < i as int {
                            assert(self.servers@[k] == old(self).servers@[k]);
                            assert(s[k] == old(self).servers@[k].deep_view());
                        } else {
                            assert(self.servers@[k] == old(self).servers@[k + 1]);
                            assert(s[k + 1] == old(self).servers@[k + 1].deep_view());
                        }
                    }
                    assert(self.servers.deep_view() =~= s.remove(i as int));
                }
            },
            None => {
                proof {
                    assert(map_of(s) =~= map_of(s).remove(id@));
                }
            },
        }
    }
}

} // verus!
