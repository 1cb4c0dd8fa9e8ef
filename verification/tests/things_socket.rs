use webthings_gateway::json::JsonValue;
use webthings_gateway::things_socket::{
    ConnectedMessage, PropertyStatusMessage, RegisterSink, ThingsMessage, ThingsMessages,
    ThingsSocket, UnregisterSink,
};

#[test]
fn connected_frame_is_tagged_last() {
    let message = ThingsMessages::ConnectedMessage(ConnectedMessage::new("d".to_owned(), true));
    assert_eq!(
        message.to_frame(),
        "{\"id\":\"d\",\"data\":true,\"messageType\":\"connected\"}"
    );
}

#[test]
fn property_status_frame_holds_the_value() {
    let value = JsonValue::parse("7").unwrap();
    let message = ThingsMessages::PropertyStatusMessage(PropertyStatusMessage::new(
        "d".to_owned(),
        "p".to_owned(),
        value,
    ));
    assert_eq!(
        message.to_frame(),
        "{\"id\":\"d\",\"data\":{\"p\":7},\"messageType\":\"propertyStatus\"}"
    );
}

#[test]
fn frame_escapes_the_device_id() {
    let message =
        ThingsMessages::ConnectedMessage(ConnectedMessage::new("a\"b\\c\n\u{1}".to_owned(), false));
    assert_eq!(
        message.to_frame(),
        "{\"id\":\"a\\\"b\\\\c\\n\\u0001\",\"data\":false,\"messageType\":\"connected\"}"
    );
}

#[test]
fn hub_broadcasts_to_every_sink_in_order() {
    let mut hub = ThingsSocket::new();
    hub.register_sink(RegisterSink(3));
    hub.register_sink(RegisterSink(1));
    hub.register_sink(RegisterSink(3));
    let broadcast = hub.things_message(ThingsMessage(ThingsMessages::ConnectedMessage(
        ConnectedMessage::new("d".to_owned(), true),
    )));
    assert_eq!(broadcast.sinks, vec![3, 1]);
    hub.unregister_sink(UnregisterSink(3));
    assert_eq!(hub.len(), 1);
    assert!(hub.contains(1));
    hub.send_failed(&vec![1, 9]);
    assert_eq!(hub.len(), 0);
}
