use webthings_gateway::api_gateway::{
    classify, decide, port_of, HeadParse, HeaderField, HttpTunnelCodec, RequestHead,
    RoutingResult, Tunnel, TunnelAction, MAX_REQUEST_SIZE,
};
use webthings_gateway::config::Ports;
use webthings_gateway::error::{Error, ErrorKind};

fn ports() -> Ports {
    Ports { api: 8080, http: 8081, ipc: 9500, websocket: 8082 }
}

fn head(path: Option<&str>, headers: Vec<(&str, &[u8])>) -> RequestHead {
    RequestHead {
        path: path.map(|p| p.to_owned()),
        headers: headers
            .into_iter()
            .map(|(name, value)| HeaderField { name: name.to_owned(), value: value.to_vec() })
            .collect(),
    }
}

#[test]
fn decode_waits_for_the_end_of_the_head() {
    let mut codec = HttpTunnelCodec;
    assert_eq!(codec.decode(&b"GET /foo HTTP/1.1\r\nHost: x\r\n".to_vec()), Ok(None));
    assert_eq!(codec.decode(&Vec::new()), Ok(None));
}

#[test]
fn decode_routes_plain_requests_to_rest() {
    let mut codec = HttpTunnelCodec;
    assert_eq!(
        codec.decode(&b"GET /foo HTTP/1.1\r\nHost: x\r\n\r\n".to_vec()),
        Ok(Some(RoutingResult::Rest))
    );
}

#[test]
fn decode_routes_upgrades_to_the_websocket() {
    let mut codec = HttpTunnelCodec;
    assert_eq!(
        codec.decode(&b"GET /foo HTTP/1.1\r\nHost: x\r\nUpgrade: websocket\r\n\r\n".to_vec()),
        Ok(Some(RoutingResult::Websocket("/foo".to_owned())))
    );
}

#[test]
fn decode_refuses_what_is_no_http() {
    let mut codec = HttpTunnelCodec;
    let result = codec.decode(&b"\x00\x01 nonsense\r\n\r\n".to_vec());
    assert_eq!(result, Err(Error::MalformedRequest));
}

#[test]
fn decode_refuses_heads_over_the_limit() {
    let mut codec = HttpTunnelCodec;
    let mut bytes = b"GET /foo HTTP/1.1\r\nX: ".to_vec();
    bytes.resize(MAX_REQUEST_SIZE + 1, b'a');
    assert_eq!(codec.decode(&bytes), Err(Error::RequestTooLarge));
    assert_eq!(Error::RequestTooLarge.kind(), ErrorKind::CapacityExceeded);
    bytes.truncate(MAX_REQUEST_SIZE);
    assert_eq!(codec.decode(&bytes), Ok(None));
}

#[test]
fn classify_looks_at_the_first_upgrade_header_only() {
    let first = head(Some("/ws"), vec![("Upgrade", b"h2c"), ("Upgrade", b"websocket")]);
    assert_eq!(classify(first), Ok(RoutingResult::Rest));
    let second = head(Some("/ws"), vec![("Host", b"x"), ("Upgrade", b"websocket")]);
    assert_eq!(classify(second), Ok(RoutingResult::Websocket("/ws".to_owned())));
}

#[test]
fn classify_matches_name_and_value_exactly() {
    assert_eq!(classify(head(Some("/"), vec![("upgrade", b"websocket")])), Ok(RoutingResult::Rest));
    assert_eq!(classify(head(Some("/"), vec![("Upgrade", b"WebSocket")])), Ok(RoutingResult::Rest));
}

#[test]
fn classify_reports_bad_upgrade_values_and_missing_paths() {
    assert_eq!(
        classify(head(Some("/"), vec![("Upgrade", &[0xff, 0xfe])])),
        Err(Error::MalformedUpgrade)
    );
    assert_eq!(classify(head(None, vec![("Upgrade", b"websocket")])), Err(Error::MissingPath));
    assert_eq!(classify(head(None, vec![])), Ok(RoutingResult::Rest));
}

#[test]
fn decide_follows_the_parse() {
    assert_eq!(decide(10, HeadParse::Partial), Ok(None));
    assert_eq!(decide(10, HeadParse::Invalid), Err(Error::MalformedRequest));
    assert_eq!(decide(MAX_REQUEST_SIZE + 1, HeadParse::Partial), Err(Error::RequestTooLarge));
    assert_eq!(
        decide(10, HeadParse::Complete(head(Some("/"), vec![]))),
        Ok(Some(RoutingResult::Rest))
    );
}

#[test]
fn ports_follow_the_route() {
    assert_eq!(port_of(&RoutingResult::Rest, &ports()), 8081);
    assert_eq!(port_of(&RoutingResult::Websocket("/".to_owned()), &ports()), 8082);
}

#[test]
fn tunnel_hands_the_upstream_every_byte_at_its_offset() {
    let request = b"GET /foo HTTP/1.1\r\nHost: x\r\n\r\n".to_vec();
    let mut tunnel = Tunnel::new();
    assert_eq!(tunnel.received(&request[..10].to_vec(), &ports()), TunnelAction::Wait);
    assert_eq!(tunnel.upstream(), None);
    let mut tail = request[10..].to_vec();
    tail.extend_from_slice(b"body");
    let mut all = request.clone();
    all.extend_from_slice(b"body");
    assert_eq!(
        tunnel.received(&tail, &ports()),
        TunnelAction::Connect { port: 8081, bytes: all }
    );
    assert_eq!(tunnel.upstream(), Some(8081));
    assert_eq!(
        tunnel.received(&b"more".to_vec(), &ports()),
        TunnelAction::Forward(b"more".to_vec())
    );
}

#[test]
fn tunnel_connects_upgrades_to_the_websocket_port() {
    let request = b"GET /foo HTTP/1.1\r\nHost: x\r\nUpgrade: websocket\r\n\r\n".to_vec();
    let mut tunnel = Tunnel::new();
    assert_eq!(
        tunnel.received(&request, &ports()),
        TunnelAction::Connect { port: 8082, bytes: request.clone() }
    );
}

#[test]
fn tunnel_gives_up_on_bad_heads_and_early_ends() {
    let mut tunnel = Tunnel::new();
    assert_eq!(
        tunnel.received(&b"\x00\x00\r\n\r\n".to_vec(), &ports()),
        TunnelAction::Reject(Error::MalformedRequest)
    );
    assert!(tunnel.is_closed());
    assert_eq!(tunnel.received(&b"GET".to_vec(), &ports()), TunnelAction::Ignore);

    let mut early = Tunnel::new();
    early.received(&b"GET /".to_vec(), &ports());
    assert_eq!(early.end_of_stream(), Some(Error::Transport));
    assert_eq!(early.end_of_stream(), None);
}
