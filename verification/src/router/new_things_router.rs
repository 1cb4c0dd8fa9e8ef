//! The devices that add-ons have announced and the user has not adopted.

use crate::db::has_thing;
use crate::device::DeviceDescription;
use crate::models::Thing;
use crate::registry::{Entry, Table};
use crate::router::{route_views, Method, Route, RouteView};
use vstd::prelude::*;
use vstd::string::StringExecFns;
use vstd::utf8::encode_utf8;

verus! {

/// The route of the devices that are not adopted yet.
pub open spec fn route_table() -> Seq<RouteView> {
    seq![RouteView { method: Method::Get, path: "/"@, protected: true }]
}

/// The route of the devices that are not adopted yet.
pub fn routes() -> (routes: Vec<Route>)
    ensures
        route_views(routes@) == route_table(),
{
    let mut routes: Vec<Route> = Vec::new();
    routes.push(Route::new(Method::Get, "/", true));
    assert(route_views(routes@) =~= route_table());
    routes
}

/// The bytes that stand for themselves in a path: letters, digits, `-`,
/// `.`, `_` and `~`.
pub open spec fn is_unreserved(b: u8) -> bool {
    (0x30 <= b && b <= 0x39) || (0x41 <= b && b <= 0x5a) || (0x61 <= b && b <= 0x7a) || b == 0x2d
        || b == 0x2e || b == 0x5f || b == 0x7e
}

/// The hexadecimal digit, in upper case, of a number below sixteen.
pub open spec fn upper_hex(n: int) -> char {
    if n < 10 {
        (0x30 + n) as u8 as char
    } else {
        (0x41 + n - 10) as u8 as char
    }
}

/// How one byte stands in a path: for itself, or as `%` and its two
/// hexadecimal digits.
pub open spec fn percent_byte(b: u8) -> Seq<char> {
    if is_unreserved(b) {
        seq![b as char]
    } else {
        seq!['%', upper_hex(b as int / 16), upper_hex(b as int % 16)]
    }
}

/// The bytes, each as it stands in a path.
pub open spec fn percent_encoded(bytes: Seq<u8>) -> Seq<char>
    decreases bytes.len(),
{
    if bytes.len() == 0 {
        Seq::empty()
    } else {
        percent_encoded(bytes.drop_last()) + percent_byte(bytes.last())
    }
}

/// A text as it stands in a path: the bytes of its UTF-8 form, each as it
/// stands in a path.
pub open spec fn url_encoded(text: Seq<char>) -> Seq<char> {
    percent_encoded(encode_utf8(text))
}

/// Calls `urlencoding::encode`. The contract says that every byte of the
/// text's UTF-8 form is written as `%` and two upper-case hexadecimal
/// digits, except letters, digits, `-`, `.`, `_` and `~`.
#[verifier::external_body]
fn url_encode(text: &str) -> (encoded: String)
    ensures
        encoded@ == url_encoded(text@),
{
    urlencoding::encode(text).into_owned()
}

/// The address of a thing.
pub open spec fn thing_href(id: Seq<char>) -> Seq<char> {
    "/things/"@ + url_encoded(id)
}

/// The address of a property of a thing.
pub open spec fn property_href(id: Seq<char>, name: Seq<char>) -> Seq<char> {
    thing_href(id) + "/properties/"@ + url_encoded(name)
}

/// The name of a property and the address of the property.
#[derive(Debug, Clone, PartialEq, Eq)]
pub struct PropertyHref {
    pub name: String,
    pub href: String,
}

/// A device with its address and the addresses of its properties.
#[derive(Debug)]
pub struct DeviceDescriptionWithHref<'a> {
    pub device: &'a DeviceDescription,
    pub href: String,
    pub properties: Option<Vec<PropertyHref>>,
}

/// Whether `hrefs` are the addresses of the properties of a device with
/// this id, in the order of the rows.
pub open spec fn addresses_of<V>(hrefs: Seq<PropertyHref>, id: Seq<char>, rows: Seq<Entry<V>>) -> bool {
    hrefs.len() == rows.len() && forall|i: int|
        0 <= i < hrefs.len() ==> (#[trigger] hrefs[i]).name@ == rows[i].key@ && hrefs[i].href@
            == property_href(id, rows[i].key@)
}

impl<'a> DeviceDescriptionWithHref<'a> {
    /// The device with its address, and with the address of each of its
    /// properties.
    pub fn from(device: &'a DeviceDescription) -> (with_href: DeviceDescriptionWithHref<'a>)
        ensures
            *with_href.device == *device,
            with_href.href@ == thing_href(device.id@),
            match with_href.properties {
                Some(hrefs) => device.properties is Some && addresses_of(
                    hrefs@,
                    device.id@,
                    device.properties->0.rows(),
                ),
                None => device.properties is None,
            },
    {
        let id = url_encode(device.id.as_str());
        let mut href = "/things/".to_owned();
        href.append(id.as_str());
        let properties = match &device.properties {
            None => None,
            Some(table) => {
                let mut hrefs: Vec<PropertyHref> = Vec::new();
                let n = table.len();
                let mut i: usize = 0;
                while i < n
                    invariant
                        i <= n,
                        n == table.rows().len(),
                        href@ == thing_href(device.id@),
                        hrefs@.len() == i,
                        forall|j: int|
                            0 <= j < i ==> (#[trigger] hrefs@[j]).name@ == table.rows()[j].key@
                                && hrefs@[j].href@ == property_href(
                                device.id@,
                                table.rows()[j].key@,
                            ),
                    decreases n - i,
                {
                    let name = table.row(i).key.clone();
                    let mut address = href.clone();
                    address.append("/properties/");
                    address.append(url_encode(name.as_str()).as_str());
                    hrefs.push(PropertyHref { name, href: address });
                    i += 1;
                }
                Some(hrefs)
            },
        };
        DeviceDescriptionWithHref { device, href, properties }
    }
}

/// The devices of the rows that are not adopted, in the order of the rows.
pub open spec fn new_devices<'a>(
    rows: Seq<Entry<&'a DeviceDescription>>,
    stored: Seq<Thing>,
) -> Seq<&'a DeviceDescription>
    decreases rows.len(),
{
    if rows.len() == 0 {
        Seq::empty()
    } else if has_thing(stored, rows.last().key@) {
        new_devices(rows.drop_last(), stored)
    } else {
        new_devices(rows.drop_last(), stored).push(rows.last().value)
    }
}

fn is_adopted(stored: &Vec<Thing>, id: &String) -> (found: bool)
    ensures
        found == has_thing(stored@, id@),
{
    let mut i: usize = 0;
    while i < stored.len()
        invariant
            i <= stored@.len(),
            forall|j: int| 0 <= j < i ==> (#[trigger] stored@[j]).device.id@ != id@,
        decreases stored@.len() - i,
    {
        if stored[i].device.id == *id {
            return true;
        }
        i += 1;
    }
    false
}

/// The new things: the connected devices under whose id no thing is
/// stored, each with its address and the addresses of its properties.
pub fn get_new_things<'a>(
    stored: &Vec<Thing>,
    connected: &Table<&'a DeviceDescription>,
) -> (things: Vec<DeviceDescriptionWithHref<'a>>)
    ensures
        things@.len() == new_devices(connected.rows(), stored@).len(),
        forall|i: int|
            0 <= i < things@.len() ==> *(#[trigger] things@[i]).device == *new_devices(
                connected.rows(),
                stored@,
            )[i] && things@[i].href@ == thing_href(things@[i].device.id@),
{
    let mut things: Vec<DeviceDescriptionWithHref<'a>> = Vec::new();
    let n = connected.len();
    let mut i: usize = 0;
    while i < n
        invariant
            i <= n,
            n == connected.rows().len(),
            things@.len() == new_devices(connected.rows().take(i as int), stored@).len(),
            forall|j: int|
                0 <= j < things@.len() ==> *(#[trigger] things@[j]).device == *new_devices(
                    connected.rows().take(i as int),
                    stored@,
                )[j] && things@[j].href@ == thing_href(things@[j].device.id@),
        decreases n - i,
    {
        let row = connected.row(i);
        proof {
            let next = connected.rows().take(i + 1);
            assert(next.drop_last() =~= connected.rows().take(i as int));
            assert(next.last() == *row);
        }
        if !is_adopted(stored, &row.key) {
            things.push(DeviceDescriptionWithHref::from(row.value));
        }
        i += 1;
    }
    proof {
        assert(connected.rows().take(i as int) =~= connected.rows());
    }
    things
}

} // verus!
