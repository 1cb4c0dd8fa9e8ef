//! Adapters: the groups of devices within an add-on.

use crate::device::{
    outcome_view, update_outcome, updated, DescriptionView, Device, DeviceDescription, DeviceView,
};
use crate::error::Error;
use crate::device::Property;
use crate::registry::Table;
use crate::things_socket::{ConnectedMessage, ConnectedView, PropertyStatusMessage, PropertyStatusView};
use vstd::prelude::*;

verus! {

/// An adapter: its id and its devices by id.
#[derive(Debug, Clone)]
pub struct Adapter {
    id: String,
    devices: Table<Device>,
}

/// What the catalog knows of an adapter.
pub struct AdapterView {
    pub id: Seq<char>,
    pub devices: Map<Seq<char>, DeviceView>,
}

/// The devices of a table, each as the catalog knows it.
pub open spec fn device_views(devices: Map<Seq<char>, Device>) -> Map<Seq<char>, DeviceView> {
    devices.map_values(|d: Device| d@)
}

impl View for Adapter {
    type V = AdapterView;

    closed spec fn view(&self) -> AdapterView {
        AdapterView { id: self.id@, devices: device_views(self.devices@) }
    }
}

/// The adapter after a device was added: the device stands under its id, in
/// place of any device that stood there, and is connected.
pub open spec fn with_device(adapter: AdapterView, description: DescriptionView) -> AdapterView {
    AdapterView {
        devices: adapter.devices.insert(
            description.id,
            DeviceView { description, connected: true },
        ),
        ..adapter
    }
}

/// What a change of a device's connected state yields: the event to
/// broadcast, or the refusal where the adapter has no such device.
pub open spec fn connect_outcome(adapter: AdapterView, device_id: Seq<char>, state: bool) -> Result<
    ConnectedView,
    Error,
> {
    if adapter.devices.contains_key(device_id) {
        Ok(ConnectedView { id: device_id, data: state })
    } else {
        Err(Error::DeviceNotFound)
    }
}

/// The adapter after a change of a device's connected state.
pub open spec fn with_connect_state(
    adapter: AdapterView,
    device_id: Seq<char>,
    state: bool,
) -> AdapterView {
    if adapter.devices.contains_key(device_id) {
        AdapterView {
            devices: adapter.devices.insert(
                device_id,
                DeviceView { connected: state, ..adapter.devices[device_id] },
            ),
            ..adapter
        }
    } else {
        adapter
    }
}

/// What a property change yields at an adapter: what it yields at the
/// device, or the refusal where the adapter has no such device.
pub open spec fn property_outcome(
    adapter: AdapterView,
    device_id: Seq<char>,
    incoming: Property,
) -> Result<Option<PropertyStatusView>, Error> {
    if adapter.devices.contains_key(device_id) {
        update_outcome(adapter.devices[device_id], incoming)
    } else {
        Err(Error::DeviceNotFound)
    }
}

/// The adapter after a property change.
pub open spec fn with_property(
    adapter: AdapterView,
    device_id: Seq<char>,
    incoming: Property,
) -> AdapterView {
    if adapter.devices.contains_key(device_id) {
        AdapterView {
            devices: adapter.devices.insert(
                device_id,
                updated(adapter.devices[device_id], incoming),
            ),
            ..adapter
        }
    } else {
        adapter
    }
}

/// What an executable outcome of a connected-state change says, in terms of
/// views.
pub open spec fn connect_view(outcome: Result<ConnectedMessage, Error>) -> Result<
    ConnectedView,
    Error,
> {
    match outcome {
        Ok(m) => Ok(m@),
        Err(e) => Err(e),
    }
}

/// Whether one of the first `n` rows stands under the key `id`.
pub open spec fn key_among<V>(rows: Seq<crate::registry::Entry<V>>, n: int, id: Seq<char>) -> bool {
    exists|d: int| 0 <= d < n && d < rows.len() && (#[trigger] rows[d]).key@ == id
}

impl Adapter {
    /// An adapter without devices.
    pub fn new(id: String) -> (adapter: Adapter)
        ensures
            adapter@ == (AdapterView { id: id@, devices: Map::empty() }),
    {
        let adapter = Self { id, devices: Table::new() };
        assert(device_views(adapter.devices@) =~= Map::empty());
        adapter
    }

    /// The adapter's id.
    pub fn id(&self) -> (id: &String)
        ensures
            id@ == self@.id,
    {
        &self.id
    }

    /// The adapter's devices by id.
    pub fn devices(&self) -> (devices: &Table<Device>)
        ensures
            device_views(devices@) == self@.devices,
    {
        &self.devices
    }

    /// Puts the description of every device of this adapter into `out`,
    /// under the device's id, in place of what stood there.
    pub fn collect_devices<'a>(&'a self, out: &mut Table<&'a DeviceDescription>)
        ensures
            forall|id: Seq<char>| #[trigger]
                final(out)@.contains_key(id) <==> old(out)@.contains_key(id)
                    || self@.devices.contains_key(id),
            forall|id: Seq<char>| #[trigger]
                self@.devices.contains_key(id) ==> final(out)@[id]@
                    == self@.devices[id].description,
            forall|id: Seq<char>|
                !self@.devices.contains_key(id) && old(out)@.contains_key(id)
                    ==> #[trigger] final(out)@[id] == old(out)@[id],
    {
        let n = self.devices.len();
        proof {
            self.devices.lemma_rows();
        }
        let ghost rows = self.devices.rows();
        let mut j: usize = 0;
        while j < n
            invariant
                j <= n,
                n == rows.len(),
                rows == self.devices.rows(),
                crate::registry::distinct_keys(rows),
                forall|id: Seq<char>| #[trigger]
                    out@.contains_key(id) <==> old(out)@.contains_key(id) || key_among(
                        rows,
                        j as int,
                        id,
                    ),
                forall|d: int|
                    0 <= d < j ==> out@[(#[trigger] rows[d]).key@]@ == rows[d].value.description@,
                forall|id: Seq<char>|
                    !key_among(rows, j as int, id) && old(out)@.contains_key(id) ==> #[trigger] out@[id]
                        == old(out)@[id],
            decreases n - j,
        {
            let row = self.devices.row(j);
            let ghost before = out@;
            out.insert(row.key.clone(), &row.value.description);
            proof {
                assert forall|id: Seq<char>| #[trigger]
                    out@.contains_key(id) <==> old(out)@.contains_key(id) || key_among(
                        rows,
                        j + 1,
                        id,
                    ) by {
                    if key_among(rows, j + 1, id) {
                        let d = choose|d: int| 0 <= d < j + 1 && (#[trigger] rows[d]).key@ == id;
                        if d < j {
                            assert(key_among(rows, j as int, id));
                        }
                    }
                    if key_among(rows, j as int, id) {
                        let d = choose|d: int| 0 <= d < j && (#[trigger] rows[d]).key@ == id;
                        assert(rows[d].key@ == id);
                    }
                    if id == rows[j as int].key@ {
                        assert(key_among(rows, j + 1, id));
                    }
                }
                assert forall|d: int| 0 <= d < j + 1 implies out@[(#[trigger] rows[d]).key@]@
                    == rows[d].value.description@ by {
                    if d < j {
                        assert(rows[d].key@ != rows[j as int].key@);
                    }
                }
                assert forall|id: Seq<char>|
                    !key_among(rows, j + 1, id) && old(out)@.contains_key(id) implies #[trigger] out@[id]
                        == old(out)@[id] by {
                    assert(id != rows[j as int].key@);
                    if key_among(rows, j as int, id) {
                        let d = choose|d: int| 0 <= d < j && (#[trigger] rows[d]).key@ == id;
                        assert(rows[d].key@ == id);
                    }
                }
            }
            j += 1;
        }
        proof {
            assert forall|id: Seq<char>|
                key_among(rows, n as int, id) <==> self@.devices.contains_key(id) by {
                if key_among(rows, n as int, id) {
                    let d = choose|d: int| 0 <= d < n && (#[trigger] rows[d]).key@ == id;
                    assert(self.devices@.contains_key(rows[d].key@));
                }
                if self@.devices.contains_key(id) {
                    assert(self.devices@.contains_key(id));
                    let d = choose|d: int| 0 <= d < rows.len() && (#[trigger] rows[d]).key@ == id;
                    assert(rows[d].key@ == id);
                }
            }
            assert forall|id: Seq<char>| #[trigger] self@.devices.contains_key(id) implies out@[id]@
                == self@.devices[id].description by {
                assert(self.devices@.contains_key(id));
                let d = choose|d: int| 0 <= d < rows.len() && (#[trigger] rows[d]).key@ == id;
                assert(self.devices@[rows[d].key@] == rows[d].value);
                assert(out@[rows[d].key@]@ == rows[d].value.description@);
            }
        }
    }

    /// Adds a device under its id, in place of any device that stood there.
    /// The device starts out connected.
    pub fn add_device(&mut self, description: DeviceDescription)
        ensures
            final(self)@ == with_device(old(self)@, description@),
    {
        let id = description.id.clone();
        let device = Device::new(description);
        self.devices.insert(id, device);
        assert(device_views(self.devices@) =~= with_device(old(self)@, description@).devices);
    }

    /// The device with this id.
    pub fn get_device(&self, device_id: &String) -> (found: Result<&Device, Error>)
        ensures
            match found {
                Ok(device) => self@.devices.contains_key(device_id@) && device@
                    == self@.devices[device_id@],
                Err(e) => e == Error::DeviceNotFound && !self@.devices.contains_key(device_id@),
            },
    {
        match self.devices.get(device_id) {
            Some(device) => Ok(device),
            None => Err(Error::DeviceNotFound),
        }
    }

    /// Hands a property change to the device with this id. The adapter
    /// changes only where the device accepts the change.
    pub fn update_property(&mut self, device_id: String, property: Property) -> (outcome: Result<
        Option<PropertyStatusMessage>,
        Error,
    >)
        ensures
            outcome_view(outcome) == property_outcome(old(self)@, device_id@, property),
            final(self)@ == with_property(old(self)@, device_id@, property),
    {
        match self.devices.remove(&device_id) {
            None => {
                assert(device_views(self.devices@) =~= old(self)@.devices);
                Err(Error::DeviceNotFound)
            },
            Some(device) => {
                let mut device = device;
                let outcome = device.update_property(property);
                self.devices.insert(device_id, device);
                assert(device_views(self.devices@) =~= with_property(
                    old(self)@,
                    device_id@,
                    property,
                ).devices);
                outcome
            },
        }
    }

    /// Sets the connected flag of the device with this id and makes the
    /// event that says so.
    pub fn set_connect_state(&mut self, device_id: String, state: bool) -> (outcome: Result<
        ConnectedMessage,
        Error,
    >)
        ensures
            connect_view(outcome) == connect_outcome(old(self)@, device_id@, state),
            final(self)@ == with_connect_state(old(self)@, device_id@, state),
    {
        match self.devices.remove(&device_id) {
            None => {
                assert(device_views(self.devices@) =~= old(self)@.devices);
                Err(Error::DeviceNotFound)
            },
            Some(device) => {
                let mut device = device;
                device.set_connect_state(state);
                self.devices.insert(device_id.clone(), device);
                assert(device_views(self.devices@) =~= with_connect_state(
                    old(self)@,
                    device_id@,
                    state,
                ).devices);
                Ok(ConnectedMessage::new(device_id, state))
            },
        }
    }
}

} // verus!
