use ng_bridge::endpoint::{default_endpoint, Endpoint, TransportError};

#[test]
fn an_unset_address_falls_back_on_the_default() {
    assert_eq!(default_endpoint(), "ws://127.0.0.1:1453/");
    let endpoint = Endpoint::resolve(None).unwrap();
    assert_eq!(endpoint.as_str(), "ws://127.0.0.1:1453/");
}

#[test]
fn a_configured_address_is_parsed_and_normalized() {
    let endpoint = Endpoint::resolve(Some("WS://Example.COM:8080")).unwrap();
    assert_eq!(endpoint.as_str(), "ws://example.com:8080/");
    let endpoint = Endpoint::resolve(Some("wss://game.example/room/../play")).unwrap();
    assert_eq!(endpoint.as_str(), "wss://game.example/play");
}

#[test]
fn an_address_that_is_no_url_is_handed_back() {
    assert_eq!(
        Endpoint::resolve(Some("not a url")),
        Err(TransportError::InvalidEndpoint("not a url".to_string()))
    );
    assert_eq!(
        Endpoint::resolve(Some("")),
        Err(TransportError::InvalidEndpoint(String::new()))
    );
}

#[test]
fn an_endpoint_is_made_of_what_the_parser_gave() {
    let endpoint = Endpoint::from_parsed("ws://a", Some("ws://a/".to_string())).unwrap();
    assert_eq!(endpoint.as_str(), "ws://a/");
    assert_eq!(
        Endpoint::from_parsed("nonsense", None),
        Err(TransportError::InvalidEndpoint("nonsense".to_string()))
    );
}
