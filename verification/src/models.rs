//! Things: the devices that the user has adopted.

use crate::device::{DescriptionView, DeviceDescription, DeviceDetails, Property};
use crate::registry::Table;
use vstd::prelude::*;

verus! {

/// A thing: the description of a device, and whether it is connected.
#[derive(Debug, Clone)]
pub struct Thing {
    pub device: DeviceDescription,
    pub connected: bool,
}

/// The description of a device without its id.
#[derive(Debug, Clone)]
pub struct DeviceWithoutId {
    pub details: DeviceDetails,
    pub properties: Option<Table<Property>>,
}

/// A thing without its id, as it is stored under the id.
#[derive(Debug, Clone)]
pub struct ThingWithoutId {
    pub device: DeviceWithoutId,
    pub connected: bool,
}

/// What can be made into a thing by giving it an id.
pub trait IntoThing {
    fn into_thing(self, id: String) -> Thing;
}

/// What can be made into a device description by giving it an id.
pub trait IntoDevice {
    fn into_device(self, id: String) -> DeviceDescription;
}

impl IntoDevice for DeviceWithoutId {
    /// The description with this id.
    fn into_device(self, id: String) -> (device: DeviceDescription)
        ensures
            device == (DeviceDescription { id, details: self.details, properties: self.properties }),
    {
        DeviceDescription { id, details: self.details, properties: self.properties }
    }
}

impl IntoThing for ThingWithoutId {
    /// The thing with this id.
    fn into_thing(self, id: String) -> (thing: Thing)
        ensures
            thing == (Thing {
                device: DeviceDescription {
                    id,
                    details: self.device.details,
                    properties: self.device.properties,
                },
                connected: self.connected,
            }),
    {
        Thing { device: self.device.into_device(id), connected: self.connected }
    }
}

impl Thing {
    /// The thing that a device becomes when the user adopts it: connected.
    pub fn adopted(device: DeviceDescription) -> (thing: Thing)
        ensures
            thing == (Thing { device, connected: true }),
    {
        Thing { device, connected: true }
    }

    /// The thing's id.
    pub fn id(&self) -> (id: &String)
        ensures
            id == self.device.id,
    {
        &self.device.id
    }
}

} // verus!
