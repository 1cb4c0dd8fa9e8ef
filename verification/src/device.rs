//! Devices and their properties, as add-ons describe them.

use crate::error::Error;
use crate::json::{differ, text_of, JsonValue};
use crate::registry::Table;
use crate::things_socket::{PropertyStatusMessage, PropertyStatusView};
use vstd::prelude::*;

verus! {

/// The description of one property of a device. `value`, the bounds and the
/// members of `enum_` are JSON values; `type_` says of which JSON type the
/// value is.
#[derive(Debug, Clone, PartialEq)]
pub struct Property {
    pub at_type: Option<String>,
    pub description: Option<String>,
    pub enum_: Option<Vec<JsonValue>>,
    pub links: Option<JsonValue>,
    pub maximum: Option<JsonValue>,
    pub minimum: Option<JsonValue>,
    pub multiple_of: Option<JsonValue>,
    pub name: Option<String>,
    pub read_only: Option<bool>,
    pub title: Option<String>,
    pub type_: String,
    pub unit: Option<String>,
    pub value: Option<JsonValue>,
    pub visible: Option<bool>,
}

/// What a device's description says besides its id and its properties.
#[derive(Debug, Clone, PartialEq)]
pub struct DeviceDetails {
    pub at_context: Option<String>,
    pub at_type: Option<Vec<String>>,
    pub actions: Option<JsonValue>,
    pub base_href: Option<String>,
    pub credentials_required: Option<bool>,
    pub description: Option<String>,
    pub events: Option<JsonValue>,
    pub links: Option<JsonValue>,
    pub pin: Option<JsonValue>,
    pub title: Option<String>,
}

/// The description of a device: its id, its properties by name, and the rest.
#[derive(Debug, Clone)]
pub struct DeviceDescription {
    pub id: String,
    pub details: DeviceDetails,
    pub properties: Option<Table<Property>>,
}

/// What a [`DeviceDescription`] says.
pub struct DescriptionView {
    pub id: Seq<char>,
    pub details: DeviceDetails,
    pub properties: Option<Map<Seq<char>, Property>>,
}

impl View for DeviceDescription {
    type V = DescriptionView;

    open spec fn view(&self) -> DescriptionView {
        DescriptionView {
            id: self.id@,
            details: self.details,
            properties: match self.properties {
                Some(table) => Some(table@),
                None => None,
            },
        }
    }
}

/// A device in the catalog: its description and whether it is connected.
#[derive(Debug, Clone)]
pub struct Device {
    pub description: DeviceDescription,
    pub connected: bool,
}

/// What the catalog knows of a device.
pub struct DeviceView {
    pub description: DescriptionView,
    pub connected: bool,
}

impl View for Device {
    type V = DeviceView;

    open spec fn view(&self) -> DeviceView {
        DeviceView { description: self.description@, connected: self.connected }
    }
}

/// The text that a property change reports: the value's, or `null` where
/// the property has none.
pub open spec fn reported_text(value: Option<JsonValue>) -> Seq<char> {
    match value {
        Some(v) => v@,
        None => "null"@,
    }
}

/// What a property change does to a device, besides storing the property:
/// the event to broadcast, if the value changed, or the reason why the
/// change is refused.
pub open spec fn update_outcome(device: DeviceView, incoming: Property) -> Result<
    Option<PropertyStatusView>,
    Error,
> {
    match incoming.name {
        None => Err(Error::PropertyWithoutName),
        Some(name) => match device.description.properties {
            None => Err(Error::NoProperties),
            Some(properties) => if !properties.contains_key(name@) {
                Err(Error::PropertyNotFound)
            } else if text_of(properties[name@].value) != text_of(incoming.value) {
                Ok(
                    Some(
                        PropertyStatusView {
                            id: device.description.id,
                            key: name@,
                            value: reported_text(incoming.value),
                        },
                    ),
                )
            } else {
                Ok(None)
            },
        },
    }
}

/// The device after a property change: where the change is accepted the
/// incoming property stands in place of the stored one, whether or not its
/// value differs; where it is refused the device is as before.
pub open spec fn updated(device: DeviceView, incoming: Property) -> DeviceView {
    if update_outcome(device, incoming) is Ok {
        DeviceView {
            description: DescriptionView {
                properties: Some(
                    device.description.properties->0.insert(incoming.name->0@, incoming),
                ),
                ..device.description
            },
            ..device
        }
    } else {
        device
    }
}

/// What an executable outcome says, in terms of views.
pub open spec fn outcome_view(outcome: Result<Option<PropertyStatusMessage>, Error>) -> Result<
    Option<PropertyStatusView>,
    Error,
> {
    match outcome {
        Ok(Some(m)) => Ok(Some(m@)),
        Ok(None) => Ok(None),
        Err(e) => Err(e),
    }
}

/// After an accepted property change the device's stored property is the
/// incoming one, field for field.
pub proof fn law_property_overwrite(device: DeviceView, incoming: Property)
    requires
        update_outcome(device, incoming) is Ok,
    ensures
        incoming.name is Some,
        updated(device, incoming).description.properties is Some,
        updated(device, incoming).description.properties->0.contains_key(incoming.name->0@),
        updated(device, incoming).description.properties->0[incoming.name->0@] == incoming,
{
}

/// An accepted property change yields an event if and only if the incoming
/// value differs from the stored one; the event names the device, the
/// property and the new value. Either way the property is overwritten.
pub proof fn law_event_iff_changed(device: DeviceView, incoming: Property)
    requires
        update_outcome(device, incoming) is Ok,
    ensures
        (update_outcome(device, incoming)->Ok_0 is Some) <==> text_of(
            device.description.properties->0[incoming.name->0@].value,
        ) != text_of(incoming.value),
        update_outcome(device, incoming)->Ok_0 matches Some(event) ==> event == (
        PropertyStatusView {
            id: device.description.id,
            key: incoming.name->0@,
            value: reported_text(incoming.value),
        }),
        updated(device, incoming).description.properties->0[incoming.name->0@] == incoming,
{
}

/// A property change, accepted or not, leaves the connected flag, the id and
/// the details of the device alone, and every other property too.
pub proof fn law_update_keeps_rest(device: DeviceView, incoming: Property)
    ensures
        updated(device, incoming).connected == device.connected,
        updated(device, incoming).description.id == device.description.id,
        updated(device, incoming).description.details == device.description.details,
        forall|name: Seq<char>|
            device.description.properties is Some && (incoming.name is None || name
                != incoming.name->0@) ==> (#[trigger] updated(
                device,
                incoming,
            ).description.properties->0.contains_key(name)
                <==> device.description.properties->0.contains_key(name)) && (
            device.description.properties->0.contains_key(name) ==> updated(
                device,
                incoming,
            ).description.properties->0[name] == device.description.properties->0[name]),
{
}

impl Device {
    /// A device with this description; it starts out connected.
    pub fn new(description: DeviceDescription) -> (device: Device)
        ensures
            device@ == (DeviceView { description: description@, connected: true }),
            device.description == description,
    {
        Self { description, connected: true }
    }

    /// Whether the device is connected.
    pub fn connected(&self) -> (connected: bool)
        ensures
            connected == self@.connected,
    {
        self.connected
    }

    /// Sets the connected flag.
    pub fn set_connect_state(&mut self, state: bool)
        ensures
            final(self)@ == (DeviceView { connected: state, ..old(self)@ }),
            final(self).description == old(self).description,
    {
        self.connected = state;
    }

    /// The property stored under `name`, if the device has it.
    pub fn property(&self, name: &String) -> (property: Option<&Property>)
        ensures
            match property {
                Some(p) => self@.description.properties is Some
                    && self@.description.properties->0.contains_key(name@) && *p
                    == self@.description.properties->0[name@],
                None => self@.description.properties is None
                    || !self@.description.properties->0.contains_key(name@),
            },
    {
        match &self.description.properties {
            Some(table) => table.get(name),
            None => None,
        }
    }

    /// Takes a property change: finds the stored property by the incoming
    /// one's name, makes the event if the value differs from the stored one,
    /// and then stores the incoming property in any case. A change without a
    /// name, for a device without properties, or for a property that the
    /// device does not have is refused and leaves the device as it was.
    pub fn update_property(&mut self, new_property: Property) -> (outcome: Result<
        Option<PropertyStatusMessage>,
        Error,
    >)
        ensures
            outcome_view(outcome) == update_outcome(old(self)@, new_property),
            final(self)@ == updated(old(self)@, new_property),
    {
        let name = match &new_property.name {
            Some(name) => name.clone(),
            None => {
                return Err(Error::PropertyWithoutName);
            },
        };
        let id = self.description.id.clone();
        match &mut self.description.properties {
            None => Err(Error::NoProperties),
            Some(properties) => {
                let changed = match properties.get(&name) {
                    None => {
                        return Err(Error::PropertyNotFound);
                    },
                    Some(stored) => differ(&stored.value, &new_property.value),
                };
                let event = if changed {
                    let value = match &new_property.value {
                        Some(v) => v.duplicate(),
                        None => JsonValue::null(),
                    };
                    Some(PropertyStatusMessage::new(id, name.clone(), value))
                } else {
                    None
                };
                properties.insert(name, new_property);
                Ok(event)
            },
        }
    }
}

} // verus!
