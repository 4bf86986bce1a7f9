//! Transport planning: from a profile to the concrete way its byte stream is
//! opened — directly, through a SOCKS5 or HTTP-CONNECT proxy, or tunneled
//! through a jump host. The driver outside the crate opens sockets and moves
//! bytes; everything it sends and every decision it takes is computed and
//! checked here.

use vstd::prelude::*;
use vstd::utf8::encode_utf8;
use crate::crypto::{b64_of, b64_encode};
use crate::errors::CoreError;
use crate::models::{ProxyType, ServerConfig, ServerConfigV};
use crate::storage::Storage;

verus! {

/// The decimal digit character of a value below ten.
pub open spec fn dec_digit(d: int) -> char {
    if d == 0 {
        '0'
    } else if d == 1 {
        '1'
    } else if d == 2 {
        '2'
    } else if d == 3 {
        '3'
    } else if d == 4 {
        '4'
    } else if d == 5 {
        '5'
    } else if d == 6 {
        '6'
    } else if d == 7 {
        '7'
    } else if d == 8 {
        '8'
    } else {
        '9'
    }
}

/// The decimal rendering of a non-negative number, no leading zeros.
pub open spec fn dec_str(n: int) -> Seq<char>
    decreases n,
{
    if n < 10 {
        seq![dec_digit(n)]
    } else {
        dec_str(n / 10) + seq![dec_digit(n % 10)]
    }
}

/// One decimal digit as a borrowed string.
fn digit_str(d: u16) -> (r: &'static str)
    requires
        d < 10,
    ensures
        r@ == seq![dec_digit(d as int)],
{
    proof {
        reveal_strlit("0");
        reveal_strlit("1");
        reveal_strlit("2");
        reveal_strlit("3");
        reveal_strlit("4");
        reveal_strlit("5");
        reveal_strlit("6");
        reveal_strlit("7");
        reveal_strlit("8");
        reveal_strlit("9");
    }
    let r = if d == 0 {
        "0"
    } else if d == 1 {
        "1"
    } else if d == 2 {
        "2"
    } else if d == 3 {
        "3"
    } else if d == 4 {
        "4"
    } else if d == 5 {
        "5"
    } else if d == 6 {
        "6"
    } else if d == 7 {
        "7"
    } else if d == 8 {
        "8"
    } else {
        "9"
    };
    proof {
        assert(r@ =~= seq![dec_digit(d as int)]);
    }
    r
}

/// Render a port number in decimal.
pub fn u16_to_string(n: u16) -> (r: String)
    ensures
        r@ == dec_str(n as int),
    decreases n,
{
    if n < 10 {
        digit_str(n).to_owned()
    } else {
        let mut s = u16_to_string(n / 10);
        s.append(digit_str(n % 10));
        s
    }
}

/// The `host:port` form of a target address.
pub open spec fn host_port(host: Seq<char>, port: u16) -> Seq<char> {
    host + seq![':'] + dec_str(port as int)
}

/// Render a target address as `host:port`.
pub fn format_host_port(host: &str, port: u16) -> (r: String)
    ensures
        r@ == host_port(host@, port),
{
    let mut s = host.to_owned();
    proof {
        reveal_strlit(":");
        assert(":"@ =~= seq![':']);
    }
    s.append(":");
    let p = u16_to_string(port);
    s.append(p.as_str());
    s
}

/// The CONNECT request sent to an HTTP proxy for this target, with a Basic
/// proxy-authorization header exactly when both a username and a password
/// are supplied.
pub open spec fn connect_request(target: Seq<char>, auth: Option<(Seq<char>, Seq<char>)>)
    -> Seq<char> {
    let head = "CONNECT "@ + target + " HTTP/1.1\r\nHost: "@ + target;
    match auth {
        Option::Some((user, pass)) => head + "\r\nProxy-Authorization: Basic "@ + b64_of(
            encode_utf8(user + seq![':'] + pass),
        ) + "\r\n\r\n"@,
        Option::None => head + "\r\n\r\n"@,
    }
}

/// Build the CONNECT request for a target behind an HTTP proxy.
pub fn build_connect_request(target: &str, username: Option<&String>, password: Option<&String>)
    -> (r: String)
    ensures
        r@ == connect_request(
            target@,
            match (username, password) {
                (Some(u), Some(p)) => Some((u@, p@)),
                _ => None,
            },
        ),
{
    let mut s = "CONNECT ".to_owned();
    s.append(target);
    s.append(" HTTP/1.1\r\nHost: ");
    s.append(target);
    match (username, password) {
        (Some(user), Some(pass)) => {
            let mut cred = user.as_str().to_owned();
            proof {
                reveal_strlit(":");
                assert(":"@ =~= seq![':']);
            }
            cred.append(":");
            cred.append(pass.as_str());
            let cred_bytes = cred.as_str().as_bytes_vec();
            let encoded = b64_encode(&cred_bytes);
            s.append("\r\nProxy-Authorization: Basic ");
            s.append(encoded.as_str());
            s.append("\r\n\r\n");
        },
        _ => {
            s.append("\r\n\r\n");
        },
    }
    s
}

/// Whether a character is a decimal digit.
pub open spec fn is_digit(c: char) -> bool {
    '0' <= c && c <= '9'
}

/// The value of a digit character.
pub open spec fn digit_val(c: char) -> int {
    c as int - '0' as int
}

/// Whether the response holds a space at all.
pub open spec fn has_space(s: Seq<char>) -> bool {
    exists|i: int| 0 <= i < s.len() && s[i] == ' '
}

/// The index of the first space of the response.
pub open spec fn first_space(s: Seq<char>) -> int {
    choose|i: int|
        0 <= i < s.len() && s[i] == ' ' && (forall|j: int| 0 <= j < i ==> s[j] != ' ')
}

/// The status code of a proxy response: the three digits after the first
/// space of its status line, if they are there.
pub open spec fn status_of(s: Seq<char>) -> Option<int> {
    if !has_space(s) {
        Option::None
    } else {
        let i = first_space(s);
        if i + 3 < s.len() && is_digit(s[i + 1]) && is_digit(s[i + 2]) && is_digit(s[i + 3]) {
            Option::Some(100 * digit_val(s[i + 1]) + 10 * digit_val(s[i + 2]) + digit_val(s[i + 3]))
        } else {
            Option::None
        }
    }
}

/// A response whose status line carries a success-class status.
pub open spec fn is_success_response(s: Seq<char>) -> bool {
    match status_of(s) {
        Option::Some(code) => 200 <= code < 300,
        Option::None => false,
    }
}

/// Check the proxy's answer to a CONNECT request: anything but a
/// success-class status line is a `Proxy` error carrying the raw response
/// text.
pub fn check_proxy_response(response: &str) -> (r: Result<(), CoreError>)
    ensures
        r is Ok <==> is_success_response(response@),
        r matches Err(e) ==> (e matches CoreError::Proxy(t) && t@ == response@),
{
    let n = response.unicode_len();
    let mut i: usize = 0;
    let mut found = false;
    while i < n && !found
        invariant
            i <= n,
            n == response@.len(),
            found ==> i < n && response@[i as int] == ' ',
            forall|j: int| 0 <= j < i ==> response@[j] != ' ',
        decreases n - i + (if found {
            0int
        } else {
            1int
        }),
    {
        if response.get_char(i) == ' ' {
            found = true;
        } else {
            i = i + 1;
        }
    }
    if !found {
        proof {
            assert(!has_space(response@));
        }
        return Err(CoreError::Proxy(response.to_owned()));
    }
    proof {
        assert(response@[i as int] == ' ');
        assert(has_space(response@));
        assert(exists|x: int|
            0 <= x < response@.len() && response@[x] == ' ' && (forall|j: int|
                0 <= j < x ==> response@[j] != ' ')) by {
            assert((i as int) < response@.len() && response@[i as int] == ' ' && (forall|j: int|
                0 <= j < i as int ==> response@[j] != ' '));
        }
        let k = first_space(response@);
        assert(0 <= k < response@.len() && response@[k] == ' ' && (forall|j: int|
            0 <= j < k ==> response@[j] != ' '));
        if k < i as int {
            assert(response@[k] != ' ');
        }
        if k > i as int {
            assert(response@[i as int] != ' ');
        }
        assert(k == i as int);
    }
    if n - i <= 3 {
        return Err(CoreError::Proxy(response.to_owned()));
    }
    let c1 = response.get_char(i + 1);
    let c2 = response.get_char(i + 2);
    let c3 = response.get_char(i + 3);
    if !(c1 >= '0' && c1 <= '9' && c2 >= '0' && c2 <= '9' && c3 >= '0' && c3 <= '9') {
        return Err(CoreError::Proxy(response.to_owned()));
    }
    let code: u32 = 100 * (c1 as u32 - 48) + 10 * (c2 as u32 - 48) + (c3 as u32 - 48);
    if 200 <= code && code < 300 {
        Ok(())
    } else {
        Err(CoreError::Proxy(response.to_owned()))
    }
}

/// The concrete way a byte stream to a target is opened. The driver performs
/// exactly what the plan says: a direct socket, a SOCKS5 handshake through
/// the proxy, or a CONNECT request whose bytes stand here in full.
pub enum TransportPlan {
    Direct { host: String, port: u16 },
    Socks5 {
        proxy_host: String,
        proxy_port: u16,
        username: Option<String>,
        password: Option<String>,
        target_host: String,
        target_port: u16,
    },
    HttpConnect { proxy_host: String, proxy_port: u16, request: String, target_host: String, target_port: u16 },
}

/// Mathematical view of a [`TransportPlan`].
pub enum TransportPlanV {
    Direct { host: Seq<char>, port: u16 },
    Socks5 {
        proxy_host: Seq<char>,
        proxy_port: u16,
        username: Option<Seq<char>>,
        password: Option<Seq<char>>,
        target_host: Seq<char>,
        target_port: u16,
    },
    HttpConnect {
        proxy_host: Seq<char>,
        proxy_port: u16,
        request: Seq<char>,
        target_host: Seq<char>,
        target_port: u16,
    },
}

impl View for TransportPlan {
    type V = TransportPlanV;

    open spec fn view(&self) -> TransportPlanV {
        match self {
            TransportPlan::Direct { host, port } => TransportPlanV::Direct {
                host: host@,
                port: *port,
            },
            TransportPlan::Socks5 {
                proxy_host,
                proxy_port,
                username,
                password,
                target_host,
                target_port,
            } => TransportPlanV::Socks5 {
                proxy_host: proxy_host@,
                proxy_port: *proxy_port,
                username: username.deep_view(),
                password: password.deep_view(),
                target_host: target_host@,
                target_port: *target_port,
            },
            TransportPlan::HttpConnect {
                proxy_host,
                proxy_port,
                request,
                target_host,
                target_port,
            } => TransportPlanV::HttpConnect {
                proxy_host: proxy_host@,
                proxy_port: *proxy_port,
                request: request@,
                target_host: target_host@,
                target_port: *target_port,
            },
        }
    }
}

/// The transport a profile calls for, its jump host set aside: direct when no
/// proxy stands in it, otherwise through the proxy it names. For an HTTP
/// proxy the plan carries the full CONNECT request, with a Basic
/// authorization header exactly when the proxy has both a username and a
/// password.
pub open spec fn plan_of(c: ServerConfigV) -> TransportPlanV {
    match c.proxy {
        Option::None => TransportPlanV::Direct { host: c.host, port: c.port },
        Option::Some(p) => match p.proxy_type {
            ProxyType::Socks5 => TransportPlanV::Socks5 {
                proxy_host: p.host,
                proxy_port: p.port,
                username: p.username,
                password: p.password,
                target_host: c.host,
                target_port: c.port,
            },
            ProxyType::Http => TransportPlanV::HttpConnect {
                proxy_host: p.host,
                proxy_port: p.port,
                request: connect_request(
                    host_port(c.host, c.port),
                    match (p.username, p.password) {
                        (Option::Some(u), Option::Some(w)) => Option::Some((u, w)),
                        _ => Option::None,
                    },
                ),
                target_host: c.host,
                target_port: c.port,
            },
        },
    }
}

/// Plan the transport of one profile, never following its jump host.
pub fn transport_plan(server: &ServerConfig) -> (r: TransportPlan)
    ensures
        r@ == plan_of(server@),
{
    match &server.proxy {
        None => TransportPlan::Direct { host: server.host.clone(), port: server.port },
        Some(proxy) => {
            match proxy.proxy_type {
                ProxyType::Socks5 => TransportPlan::Socks5 {
                    proxy_host: proxy.host.clone(),
                    proxy_port: proxy.port,
                    username: proxy.username.clone(),
                    password: proxy.password.clone(),
                    target_host: server.host.clone(),
                    target_port: server.port,
                },
                ProxyType::Http => {
                    let target = format_host_port(server.host.as_str(), server.port);
                    let request = build_connect_request(
                        target.as_str(),
                        proxy.username.as_ref(),
                        proxy.password.as_ref(),
                    );
                    TransportPlan::HttpConnect {
                        proxy_host: proxy.host.clone(),
                        proxy_port: proxy.port,
                        request,
                        target_host: server.host.clone(),
                        target_port: server.port,
                    }
                },
            }
        },
    }
}

/// Everything the driver needs to tunnel through a jump host: the resolved
/// jump profile, the way to reach it, and the final target the forwarding
/// channel must be opened to.
pub struct JumpPlan {
    pub jump_server: ServerConfig,
    pub jump_transport: TransportPlan,
    pub target_host: String,
    pub target_port: u16,
}

/// Resolve a profile's jump host against the store. A profile without one
/// yields `None`; one naming an unknown id is `NotFound`. The jump leg's
/// transport is planned from the jump profile alone and never follows a jump
/// host of its own: chaining stops after a single hop, by construction.
pub fn jump_plan(storage: &Storage, server: &ServerConfig) -> (r: Result<
    Option<JumpPlan>,
    CoreError,
>)
    requires
        storage.wf(),
    ensures
        server@.jump_host is None ==> r == Ok::<Option<JumpPlan>, CoreError>(None),
        r matches Err(e) ==> e == CoreError::NotFound && (server@.jump_host matches Some(j)
            && !storage.profiles().contains_key(j)),
        r matches Ok(Some(p)) ==> {
            &&& server@.jump_host matches Some(j) && storage.profiles().contains_key(j)
                && p.jump_server@ == storage.profiles()[j]
            &&& p.jump_transport@ == plan_of(p.jump_server@)
            &&& p.target_host@ == server@.host
            &&& p.target_port == server@.port
        },
        r matches Ok(Some(p)) ==> server@.jump_host is Some,
        server@.jump_host matches Some(j) && storage.profiles().contains_key(j) ==> (r matches
            Ok(op) && op is Some),
        server@.jump_host matches Some(j) && !storage.profiles().contains_key(j) ==> r is Err,
{
    match &server.jump_host {
        None => Ok(None),
        Some(jump_id) => {
            let jump_server = match storage.get_server(jump_id.as_str()) {
                Some(s) => s,
                None => {
                    return Err(CoreError::NotFound);
                },
            };
            let jump_transport = transport_plan(&jump_server);
            Ok(
                Some(
                    JumpPlan {
                        jump_server,
                        jump_transport,
                        target_host: server.host.clone(),
                        target_port: server.port,
                    },
                ),
            )
        },
    }
}

} // verus!
