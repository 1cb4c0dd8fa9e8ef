use webthings_gateway::device::{DeviceDescription, DeviceDetails, Property};
use webthings_gateway::models::Thing;
use webthings_gateway::registry::Table;
use webthings_gateway::router::addons_router::{find_license, is_license, is_license_name};
use webthings_gateway::router::login_router::Login;
use webthings_gateway::router::new_things_router::{self, DeviceDescriptionWithHref, PropertyHref};

fn property(name: &str, type_: &str) -> Property {
    Property {
        at_type: None,
        description: None,
        enum_: None,
        links: None,
        maximum: None,
        minimum: None,
        multiple_of: None,
        name: Some(name.to_owned()),
        read_only: None,
        title: None,
        type_: type_.to_owned(),
        unit: None,
        value: None,
        visible: None,
    }
}

fn mock_device(id: &str, properties: Option<Vec<&str>>) -> DeviceDescription {
    DeviceDescription {
        id: id.to_owned(),
        details: DeviceDetails {
            at_context: None,
            at_type: None,
            actions: None,
            base_href: None,
            credentials_required: None,
            description: None,
            events: None,
            links: None,
            pin: None,
            title: None,
        },
        properties: properties.map(|names| {
            let mut table = Table::new();
            for name in names {
                table.insert(name.to_owned(), property(name, "integer"));
            }
            table
        }),
    }
}

#[test]
fn get_new_things_empty() {
    let connected: Table<&DeviceDescription> = Table::new();
    assert!(new_things_router::get_new_things(&vec![], &connected).is_empty());
}

#[test]
fn get_new_things() {
    let device = mock_device("mock-device", Some(vec!["mock-property"]));
    let mut connected: Table<&DeviceDescription> = Table::new();
    connected.insert("mock-device".to_owned(), &device);
    let things = new_things_router::get_new_things(&vec![], &connected);
    assert_eq!(things.len(), 1);
    assert_eq!(things[0].device.id, "mock-device");
    assert_eq!(things[0].href, "/things/mock-device");
    assert_eq!(
        things[0].properties,
        Some(vec![PropertyHref {
            name: "mock-property".to_owned(),
            href: "/things/mock-device/properties/mock-property".to_owned(),
        }])
    );
}

#[test]
fn new_things_leave_out_what_is_adopted() {
    let one = mock_device("one", None);
    let two = mock_device("two", None);
    let three = mock_device("three", None);
    let mut connected: Table<&DeviceDescription> = Table::new();
    connected.insert("one".to_owned(), &one);
    connected.insert("two".to_owned(), &two);
    connected.insert("three".to_owned(), &three);
    let adopted = Thing::adopted(mock_device("two", None));
    let things = new_things_router::get_new_things(&vec![adopted], &connected);
    assert_eq!(things.len(), 2);
    assert_eq!(things[0].device.id, "one");
    assert_eq!(things[1].device.id, "three");
    assert!(things[0].properties.is_none());
}

#[test]
fn addresses_are_percent_encoded() {
    let device = mock_device("a b/ü~", Some(vec!["p?q", "x_y-z.0"]));
    let with_href = DeviceDescriptionWithHref::from(&device);
    assert_eq!(with_href.href, "/things/a%20b%2F%C3%BC~");
    let hrefs = with_href.properties.unwrap();
    assert_eq!(hrefs[0].name, "p?q");
    assert_eq!(hrefs[0].href, "/things/a%20b%2F%C3%BC~/properties/p%3Fq");
    assert_eq!(hrefs[1].href, "/things/a%20b%2F%C3%BC~/properties/x_y-z.0");
}

#[test]
fn license_files_are_named_license() {
    assert!(is_license_name("LICENSE"));
    assert!(is_license_name("LICENSE.md"));
    assert!(is_license_name("LICENSE."));
    assert!(!is_license_name("LICENSE-MIT"));
    assert!(!is_license_name("license"));
    assert!(!is_license_name("MY-LICENSE"));
    assert!(!is_license_name("LICENSE.a\nb"));
    assert!(is_license(Some(true)));
    assert!(!is_license(Some(false)));
    assert!(!is_license(None));
}

#[test]
fn the_first_license_file_is_found() {
    let names = vec!["README.md".to_owned(), "LICENSE.txt".to_owned(), "LICENSE".to_owned()];
    assert_eq!(find_license(&names), Some(1));
    assert_eq!(find_license(&vec!["README.md".to_owned()]), None);
    assert_eq!(find_license(&vec![]), None);
}

#[test]
fn login_holds_address_and_password() {
    let login = Login { email: "foo@bar".to_owned(), password: "42".to_owned() };
    assert_eq!(login.clone(), login);
}
