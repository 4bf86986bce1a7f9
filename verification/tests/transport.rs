use myssh::crypto::random_bytes;
use myssh::errors::CoreError;
use myssh::models::{AuthMethod, ProxyConfig, ProxyType, ServerConfig};
use myssh::storage::Storage;
use myssh::transport::{
    build_connect_request, check_proxy_response, format_host_port, jump_plan, transport_plan,
    u16_to_string, TransportPlan,
};

fn profile(name: &str) -> ServerConfig {
    ServerConfig::new(
        name.to_string(),
        "target.example".to_string(),
        2022,
        "admin".to_string(),
        AuthMethod::Password("pw".to_string()),
    )
}

#[test]
fn ports_render_in_decimal() {
    assert_eq!(u16_to_string(0), "0");
    assert_eq!(u16_to_string(7), "7");
    assert_eq!(u16_to_string(22), "22");
    assert_eq!(u16_to_string(8080), "8080");
    assert_eq!(u16_to_string(65535), "65535");
}

#[test]
fn host_and_port_join_with_a_colon() {
    assert_eq!(format_host_port("example.org", 22), "example.org:22");
    assert_eq!(format_host_port("10.0.0.1", 65535), "10.0.0.1:65535");
}

#[test]
fn connect_request_without_credentials() {
    let rq = build_connect_request("h:1", None, None);
    assert_eq!(rq, "CONNECT h:1 HTTP/1.1\r\nHost: h:1\r\n\r\n");
}

#[test]
fn connect_request_with_credentials_carries_basic_auth() {
    let user = "user".to_string();
    let pass = "pass".to_string();
    let rq = build_connect_request("h:1", Some(&user), Some(&pass));
    let expected_cred =
        base64::Engine::encode(&base64::engine::general_purpose::STANDARD, b"user:pass");
    let expected = format!(
        "CONNECT h:1 HTTP/1.1\r\nHost: h:1\r\nProxy-Authorization: Basic {}\r\n\r\n",
        expected_cred
    );
    assert_eq!(rq, expected);
}

#[test]
fn connect_request_with_only_a_username_omits_the_header() {
    let user = "user".to_string();
    let rq = build_connect_request("h:1", Some(&user), None);
    assert_eq!(rq, "CONNECT h:1 HTTP/1.1\r\nHost: h:1\r\n\r\n");
}

#[test]
fn success_status_lines_pass() {
    assert!(check_proxy_response("HTTP/1.1 200 Connection established\r\n\r\n").is_ok());
    assert!(check_proxy_response("HTTP/1.0 204 No Content\r\n\r\n").is_ok());
    assert!(check_proxy_response("HTTP/1.1 299 Edge\r\n\r\n").is_ok());
}

#[test]
fn proxy_refusal_carries_the_raw_response_text() {
    let resp = "HTTP/1.1 407 Proxy Authentication Required\r\nProxy-Authenticate: Basic\r\n\r\n";
    match check_proxy_response(resp) {
        Err(CoreError::Proxy(text)) => {
            assert_eq!(text, resp);
            assert!(text.contains("407 Proxy Authentication Required"));
        }
        other => panic!("expected a proxy error, got {:?}", other),
    }
}

#[test]
fn non_success_statuses_fail() {
    assert!(check_proxy_response("HTTP/1.1 302 Found\r\n\r\n").is_err());
    assert!(check_proxy_response("HTTP/1.1 500 Internal Server Error\r\n\r\n").is_err());
    assert!(check_proxy_response("HTTP/1.1 199 Early\r\n\r\n").is_err());
}

#[test]
fn malformed_responses_fail() {
    assert!(check_proxy_response("").is_err());
    assert!(check_proxy_response("garbage").is_err());
    assert!(check_proxy_response("HTTP/1.1 ").is_err());
    assert!(check_proxy_response("HTTP/1.1 2x0 nope").is_err());
}

#[test]
fn plain_profile_plans_a_direct_transport() {
    let p = profile("t");
    match transport_plan(&p) {
        TransportPlan::Direct { host, port } => {
            assert_eq!(host, "target.example");
            assert_eq!(port, 2022);
        }
        _ => panic!("expected a direct plan"),
    }
}

#[test]
fn socks5_profile_plans_a_socks_transport() {
    let mut p = profile("t");
    p.proxy = Some(ProxyConfig {
        proxy_type: ProxyType::Socks5,
        host: "socks.example".to_string(),
        port: 1080,
        username: Some("u".to_string()),
        password: Some("w".to_string()),
    });
    match transport_plan(&p) {
        TransportPlan::Socks5 { proxy_host, proxy_port, username, password, target_host, target_port } => {
            assert_eq!(proxy_host, "socks.example");
            assert_eq!(proxy_port, 1080);
            assert_eq!(username.as_deref(), Some("u"));
            assert_eq!(password.as_deref(), Some("w"));
            assert_eq!(target_host, "target.example");
            assert_eq!(target_port, 2022);
        }
        _ => panic!("expected a socks plan"),
    }
}

#[test]
fn http_profile_plans_a_connect_request() {
    let mut p = profile("t");
    p.proxy = Some(ProxyConfig {
        proxy_type: ProxyType::Http,
        host: "web.example".to_string(),
        port: 3128,
        username: None,
        password: None,
    });
    match transport_plan(&p) {
        TransportPlan::HttpConnect { proxy_host, proxy_port, request, target_host, target_port } => {
            assert_eq!(proxy_host, "web.example");
            assert_eq!(proxy_port, 3128);
            assert_eq!(target_host, "target.example");
            assert_eq!(target_port, 2022);
            assert_eq!(
                request,
                "CONNECT target.example:2022 HTTP/1.1\r\nHost: target.example:2022\r\n\r\n"
            );
        }
        _ => panic!("expected a connect plan"),
    }
}

#[test]
fn profile_without_jump_host_needs_no_jump_plan() {
    let store = Storage::new(random_bytes(32), String::from("/tmp/d"));
    let p = profile("t");
    assert!(jump_plan(&store, &p).expect("plan").is_none());
}

#[test]
fn unknown_jump_host_is_not_found() {
    let store = Storage::new(random_bytes(32), String::from("/tmp/d"));
    let mut p = profile("t");
    p.jump_host = Some("missing".to_string());
    assert!(matches!(jump_plan(&store, &p), Err(CoreError::NotFound)));
}

#[test]
fn jump_plan_resolves_the_jump_profile_and_keeps_the_target() {
    let mut store = Storage::new(random_bytes(32), String::from("/tmp/d"));
    let jump = ServerConfig::new(
        "bastion".to_string(),
        "bastion.example".to_string(),
        22,
        "hop".to_string(),
        AuthMethod::Password("bpw".to_string()),
    );
    let jump_id = jump.id.clone();
    store.save_server(jump);
    let mut p = profile("t");
    p.jump_host = Some(jump_id);
    let plan = jump_plan(&store, &p).expect("plan").expect("some");
    assert_eq!(plan.jump_server.host, "bastion.example");
    assert_eq!(plan.target_host, "target.example");
    assert_eq!(plan.target_port, 2022);
    assert!(matches!(plan.jump_transport, TransportPlan::Direct { .. }));
}

#[test]
fn jump_chaining_stops_after_a_single_hop() {
    let mut store = Storage::new(random_bytes(32), String::from("/tmp/d"));
    let mut first_hop = ServerConfig::new(
        "hop1".to_string(),
        "hop1.example".to_string(),
        22,
        "h1".to_string(),
        AuthMethod::Password("p1".to_string()),
    );
    // the jump profile itself names a further jump host; it is never followed
    first_hop.jump_host = Some("even-deeper".to_string());
    let hop_id = first_hop.id.clone();
    store.save_server(first_hop);
    let mut p = profile("t");
    p.jump_host = Some(hop_id);
    let plan = jump_plan(&store, &p).expect("plan").expect("some");
    match plan.jump_transport {
        TransportPlan::Direct { host, port } => {
            assert_eq!(host, "hop1.example");
            assert_eq!(port, 22);
        }
        _ => panic!("the jump leg must be planned from the jump profile alone"),
    }
}
