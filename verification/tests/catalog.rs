use webthings_gateway::adapter::Adapter;
use webthings_gateway::addon_instance::{
    AddonInstance, GatewayContext, GetDevices, Message, Msg, Reaction,
};
use webthings_gateway::addon_manager::AddonStarted;
use webthings_gateway::device::{Device, DeviceDescription, DeviceDetails, Property};
use webthings_gateway::error::{Error, ErrorKind};
use webthings_gateway::json::JsonValue;
use webthings_gateway::registry::Table;
use webthings_gateway::things_socket::{ThingsMessage, ThingsMessages};

fn details(title: Option<&str>) -> DeviceDetails {
    DeviceDetails {
        at_context: None,
        at_type: None,
        actions: None,
        base_href: None,
        credentials_required: None,
        description: None,
        events: None,
        links: None,
        pin: None,
        title: title.map(|t| t.to_owned()),
    }
}

fn property(name: &str, type_: &str, value: Option<&str>) -> Property {
    Property {
        at_type: None,
        description: None,
        enum_: None,
        links: None,
        maximum: None,
        minimum: None,
        multiple_of: None,
        name: Some(name.to_owned()),
        read_only: None,
        title: None,
        type_: type_.to_owned(),
        unit: None,
        value: value.map(|v| JsonValue::parse(v).unwrap()),
        visible: None,
    }
}

fn device(id: &str, properties: Vec<Property>) -> DeviceDescription {
    let mut table = Table::new();
    for p in properties {
        table.insert(p.name.clone().unwrap(), p);
    }
    DeviceDescription { id: id.to_owned(), details: details(Some("D")), properties: Some(table) }
}

fn context() -> GatewayContext {
    GatewayContext::new("1.2.3", "/home/gateway")
}

fn registered(session: u64) -> AddonInstance {
    let mut instance = AddonInstance::new(session);
    instance
        .handle(&context(), Msg(Message::PluginRegisterRequest { plugin_id: "mock".to_owned() }))
        .unwrap();
    instance
}

fn frame_of(reaction: Reaction) -> String {
    match reaction {
        Reaction::Publish(ThingsMessage(message)) => message.to_frame(),
        other => panic!("no event: {:?}", other),
    }
}

#[test]
fn device_starts_connected() {
    let d = Device::new(device("d", vec![]));
    assert!(d.connected());
    assert_eq!(d.description.id, "d");
}

#[test]
fn device_connect_state_follows_the_last_call() {
    let mut d = Device::new(device("d", vec![]));
    d.set_connect_state(false);
    assert!(!d.connected());
    d.set_connect_state(true);
    assert!(d.connected());
}

#[test]
fn property_change_with_new_value_yields_event_and_overwrites() {
    let mut d = Device::new(device("d", vec![property("p", "integer", Some("1"))]));
    let mut incoming = property("p", "integer", Some("7"));
    incoming.title = Some("P".to_owned());
    let event = d.update_property(incoming.clone()).unwrap().unwrap();
    assert_eq!(event.id(), "d");
    assert_eq!(event.key(), "p");
    assert_eq!(event.value().as_str(), "7");
    assert_eq!(d.property(&"p".to_owned()), Some(&incoming));
}

#[test]
fn property_change_with_same_value_is_silent_but_overwrites_metadata() {
    let mut d = Device::new(device("d", vec![property("p", "integer", Some("7"))]));
    let mut incoming = property("p", "integer", Some("7"));
    incoming.unit = Some("percent".to_owned());
    incoming.read_only = Some(true);
    assert!(d.update_property(incoming.clone()).unwrap().is_none());
    assert_eq!(d.property(&"p".to_owned()), Some(&incoming));
}

#[test]
fn property_change_compares_json_values_not_spelling() {
    let mut d = Device::new(device("d", vec![property("p", "object", Some("{\"a\":1,\"b\":2}"))]));
    let incoming = property("p", "object", Some("{ \"b\" : 2, \"a\" : 1 }"));
    assert!(d.update_property(incoming).unwrap().is_none());
}

#[test]
fn property_change_to_absent_value_reports_null() {
    let mut d = Device::new(device("d", vec![property("p", "integer", Some("7"))]));
    let event = d.update_property(property("p", "integer", None)).unwrap().unwrap();
    assert_eq!(event.value().as_str(), "null");
}

#[test]
fn property_change_errors_leave_the_device_alone() {
    let mut d = Device::new(device("d", vec![property("p", "integer", Some("7"))]));
    let mut unnamed = property("p", "integer", Some("8"));
    unnamed.name = None;
    assert_eq!(d.update_property(unnamed), Err(Error::PropertyWithoutName));
    assert_eq!(
        d.update_property(property("q", "integer", Some("8"))),
        Err(Error::PropertyNotFound)
    );
    assert_eq!(d.property(&"p".to_owned()), Some(&property("p", "integer", Some("7"))));
    assert!(d.property(&"q".to_owned()).is_none());

    let mut bare = Device::new(DeviceDescription {
        id: "e".to_owned(),
        details: details(None),
        properties: None,
    });
    assert_eq!(
        bare.update_property(property("p", "integer", Some("8"))),
        Err(Error::NoProperties)
    );
    assert_eq!(Error::NoProperties.kind(), ErrorKind::NotFound);
    assert_eq!(Error::PropertyWithoutName.kind(), ErrorKind::Protocol);
}

#[test]
fn adapter_adds_and_replaces_devices() {
    let mut adapter = Adapter::new("a".to_owned());
    assert_eq!(adapter.id(), "a");
    adapter.add_device(device("d", vec![]));
    adapter.set_connect_state("d".to_owned(), false).unwrap();
    assert!(!adapter.get_device(&"d".to_owned()).unwrap().connected());
    adapter.add_device(device("d", vec![property("p", "integer", None)]));
    let d = adapter.get_device(&"d".to_owned()).unwrap();
    assert!(d.connected());
    assert!(d.property(&"p".to_owned()).is_some());
    assert_eq!(adapter.devices().len(), 1);
}

#[test]
fn adapter_refuses_unknown_devices() {
    let mut adapter = Adapter::new("a".to_owned());
    assert_eq!(
        adapter.set_connect_state("d".to_owned(), true),
        Err(Error::DeviceNotFound)
    );
    assert_eq!(
        adapter.update_property("d".to_owned(), property("p", "integer", None)),
        Err(Error::DeviceNotFound)
    );
    assert_eq!(adapter.get_device(&"d".to_owned()).err(), Some(Error::DeviceNotFound));
}

#[test]
fn adapter_connect_state_event_names_the_device() {
    let mut adapter = Adapter::new("a".to_owned());
    adapter.add_device(device("d", vec![]));
    let event = adapter.set_connect_state("d".to_owned(), false).unwrap();
    assert_eq!(event.id(), "d");
    assert!(!event.data());
}

#[test]
fn session_drops_everything_before_registration() {
    let mut instance = AddonInstance::new(1);
    let result = instance.handle(
        &context(),
        Msg(Message::AdapterAddedNotification { adapter_id: "a".to_owned() }),
    );
    assert_eq!(result.err(), Some(Error::NotRegistered));
    assert_eq!(instance.handle(&context(), Msg(Message::Other)).err(), Some(Error::NotRegistered));
    assert!(instance.plugin_id().is_none());
    assert_eq!(instance.adapters().len(), 0);
}

#[test]
fn session_registration_answers_once_with_version_and_directories() {
    let mut instance = AddonInstance::new(5);
    let reaction = instance
        .handle(&context(), Msg(Message::PluginRegisterRequest { plugin_id: "mock".to_owned() }))
        .unwrap();
    match reaction {
        Reaction::Registered { started, response } => {
            assert_eq!(started, AddonStarted("mock".to_owned(), 5));
            assert_eq!(response.gateway_version, "1.2.3");
            assert_eq!(response.plugin_id, "mock");
            assert_eq!(response.preferences.language, "en-US");
            assert_eq!(response.preferences.units.temperature, "degree celsius");
            assert_eq!(response.user_profile.addons_dir, "/home/gateway/addons");
            assert_eq!(response.user_profile.base_dir, "/home/gateway");
            assert_eq!(response.user_profile.config_dir, "/home/gateway/config");
            assert_eq!(response.user_profile.data_dir, "/home/gateway/data");
            assert_eq!(response.user_profile.gateway_dir, "/home/gateway");
            assert_eq!(response.user_profile.log_dir, "/home/gateway/log");
            assert_eq!(response.user_profile.media_dir, "/home/gateway/media");
        }
        other => panic!("unexpected reaction: {:?}", other),
    }
    assert_eq!(instance.plugin_id(), Some(&"mock".to_owned()));
    assert_eq!(instance.session(), 5);
}

#[test]
fn session_device_added_publishes_one_connected_frame() {
    let mut instance = registered(1);
    let silent = instance
        .handle(&context(), Msg(Message::AdapterAddedNotification { adapter_id: "a".to_owned() }))
        .unwrap();
    assert!(matches!(silent, Reaction::Silent));
    let reaction = instance
        .handle(
            &context(),
            Msg(Message::DeviceAddedNotification {
                adapter_id: "a".to_owned(),
                device: device("d", vec![]),
            }),
        )
        .unwrap();
    assert_eq!(
        frame_of(reaction),
        "{\"id\":\"d\",\"data\":true,\"messageType\":\"connected\"}"
    );
}

#[test]
fn session_property_change_publishes_once_and_then_stays_silent() {
    let mut instance = registered(1);
    instance
        .handle(&context(), Msg(Message::AdapterAddedNotification { adapter_id: "a".to_owned() }))
        .unwrap();
    instance
        .handle(
            &context(),
            Msg(Message::DeviceAddedNotification {
                adapter_id: "a".to_owned(),
                device: device("d", vec![property("p", "integer", None)]),
            }),
        )
        .unwrap();
    let change = || {
        Msg(Message::DevicePropertyChangedNotification {
            adapter_id: "a".to_owned(),
            device_id: "d".to_owned(),
            property: property("p", "integer", Some("7")),
        })
    };
    let first = instance.handle(&context(), change()).unwrap();
    assert_eq!(
        frame_of(first),
        "{\"id\":\"d\",\"data\":{\"p\":7},\"messageType\":\"propertyStatus\"}"
    );
    let second = instance.handle(&context(), change()).unwrap();
    assert!(matches!(second, Reaction::Silent));
}

#[test]
fn session_connected_state_notification_sets_the_flag() {
    let mut instance = registered(1);
    instance
        .handle(&context(), Msg(Message::AdapterAddedNotification { adapter_id: "a".to_owned() }))
        .unwrap();
    instance
        .handle(
            &context(),
            Msg(Message::DeviceAddedNotification {
                adapter_id: "a".to_owned(),
                device: device("d", vec![]),
            }),
        )
        .unwrap();
    let reaction = instance
        .handle(
            &context(),
            Msg(Message::DeviceConnectedStateNotification {
                adapter_id: "a".to_owned(),
                device_id: "d".to_owned(),
                connected: false,
            }),
        )
        .unwrap();
    assert_eq!(
        frame_of(reaction),
        "{\"id\":\"d\",\"data\":false,\"messageType\":\"connected\"}"
    );
    let adapter = instance.adapters().get(&"a".to_owned()).unwrap();
    assert!(!adapter.get_device(&"d".to_owned()).unwrap().connected());
}

#[test]
fn session_refuses_unknown_adapters_and_devices_and_goes_on() {
    let mut instance = registered(1);
    let added = instance.handle(
        &context(),
        Msg(Message::DeviceAddedNotification {
            adapter_id: "a".to_owned(),
            device: device("d", vec![]),
        }),
    );
    assert_eq!(added.err(), Some(Error::AdapterNotFound));
    instance
        .handle(&context(), Msg(Message::AdapterAddedNotification { adapter_id: "a".to_owned() }))
        .unwrap();
    let state = instance.handle(
        &context(),
        Msg(Message::DeviceConnectedStateNotification {
            adapter_id: "a".to_owned(),
            device_id: "d".to_owned(),
            connected: true,
        }),
    );
    assert_eq!(state.err(), Some(Error::DeviceNotFound));
    let change = instance.handle(
        &context(),
        Msg(Message::DevicePropertyChangedNotification {
            adapter_id: "b".to_owned(),
            device_id: "d".to_owned(),
            property: property("p", "integer", Some("7")),
        }),
    );
    assert_eq!(change.err(), Some(Error::AdapterNotFound));
    assert!(matches!(instance.handle(&context(), Msg(Message::Other)), Ok(Reaction::Silent)));
}

#[test]
fn session_adapter_added_again_replaces_the_adapter() {
    let mut instance = registered(1);
    instance
        .handle(&context(), Msg(Message::AdapterAddedNotification { adapter_id: "a".to_owned() }))
        .unwrap();
    instance
        .handle(
            &context(),
            Msg(Message::DeviceAddedNotification {
                adapter_id: "a".to_owned(),
                device: device("d", vec![]),
            }),
        )
        .unwrap();
    instance
        .handle(&context(), Msg(Message::AdapterAddedNotification { adapter_id: "a".to_owned() }))
        .unwrap();
    assert_eq!(instance.get_devices(GetDevices).len(), 0);
}

#[test]
fn session_devices_are_merged_over_adapters() {
    let mut instance = registered(1);
    for adapter in ["a", "b"] {
        instance
            .handle(
                &context(),
                Msg(Message::AdapterAddedNotification { adapter_id: adapter.to_owned() }),
            )
            .unwrap();
    }
    for (adapter, id) in [("a", "d1"), ("a", "d2"), ("b", "d3")] {
        instance
            .handle(
                &context(),
                Msg(Message::DeviceAddedNotification {
                    adapter_id: adapter.to_owned(),
                    device: device(id, vec![]),
                }),
            )
            .unwrap();
    }
    let devices = instance.get_devices(GetDevices);
    assert_eq!(devices.len(), 3);
    for id in ["d1", "d2", "d3"] {
        assert_eq!(devices.get(&id.to_owned()).unwrap().id, id);
    }
}
