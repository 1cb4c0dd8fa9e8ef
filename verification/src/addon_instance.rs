//! The session of one add-on connection: the registration handshake and the
//! notifications that keep the catalog in step with the add-on.

use crate::adapter::{
    connect_outcome, connect_view, property_outcome, with_connect_state, with_device,
    with_property, Adapter, AdapterView,
};
use crate::addon_manager::AddonStarted;
use crate::device::{outcome_view, DescriptionView, DeviceDescription, Property};
use crate::registry::Entry;
use crate::error::Error;
use crate::registry::Table;
use crate::router::settings_router::{get_units, Units};
use crate::things_socket::{ConnectedView, ThingsMessage, ThingsMessages, ThingsView};
use crate::user_config::UserProfile;
use vstd::prelude::*;

verus! {

/// The localization that an add-on is told about.
#[derive(Debug, Clone, PartialEq, Eq)]
pub struct Preferences {
    pub language: String,
    pub units: Units,
}

impl Preferences {
    /// American English and degrees Celsius.
    pub fn new() -> (preferences: Preferences)
        ensures
            preferences.language@ == "en-US"@,
            preferences.units.temperature@ == "degree celsius"@,
    {
        Preferences { language: "en-US".to_owned(), units: get_units() }
    }

    /// A copy of the preferences.
    pub fn duplicate(&self) -> (copy: Preferences)
        ensures
            copy == *self,
    {
        Preferences { language: self.language.clone(), units: self.units.duplicate() }
    }
}

/// What every session knows of the gateway it runs in.
#[derive(Debug, Clone, PartialEq, Eq)]
pub struct GatewayContext {
    pub gateway_version: String,
    pub preferences: Preferences,
    pub user_profile: UserProfile,
}

impl GatewayContext {
    /// The context of a gateway of this version below this base directory,
    /// with the default preferences.
    pub fn new(gateway_version: &str, base_dir: &str) -> (context: GatewayContext)
        ensures
            context.gateway_version@ == gateway_version@,
            context.preferences.language@ == "en-US"@,
            context.preferences.units.temperature@ == "degree celsius"@,
            context.user_profile.base_dir@ == base_dir@,
            context.user_profile.gateway_dir@ == base_dir@,
            context.user_profile.addons_dir@ == crate::user_config::child_path(
                base_dir@,
                "addons"@,
            ),
            context.user_profile.config_dir@ == crate::user_config::child_path(
                base_dir@,
                "config"@,
            ),
            context.user_profile.data_dir@ == crate::user_config::child_path(base_dir@, "data"@),
            context.user_profile.log_dir@ == crate::user_config::child_path(base_dir@, "log"@),
            context.user_profile.media_dir@ == crate::user_config::child_path(
                base_dir@,
                "media"@,
            ),
    {
        GatewayContext {
            gateway_version: gateway_version.to_owned(),
            preferences: Preferences::new(),
            user_profile: UserProfile::new(base_dir),
        }
    }
}

/// The answer to a registration request.
#[derive(Debug, Clone, PartialEq, Eq)]
pub struct PluginRegisterResponse {
    pub gateway_version: String,
    pub plugin_id: String,
    pub preferences: Preferences,
    pub user_profile: UserProfile,
}

/// The messages that an add-on sends.
#[derive(Debug, Clone)]
pub enum Message {
    PluginRegisterRequest { plugin_id: String },
    AdapterAddedNotification { adapter_id: String },
    DeviceAddedNotification { adapter_id: String, device: DeviceDescription },
    DevicePropertyChangedNotification { adapter_id: String, device_id: String, property: Property },
    DeviceConnectedStateNotification { adapter_id: String, device_id: String, connected: bool },
    /// Any other message of the protocol.
    Other,
}

/// A message from the add-on, handed to its session.
#[derive(Debug, Clone)]
pub struct Msg(pub Message);

/// The request for the devices that a session knows.
#[derive(Debug, Clone, Copy, PartialEq, Eq)]
pub struct GetDevices;

/// What a session asks of its caller after a message.
#[derive(Debug)]
pub enum Reaction {
    /// Tell the add-on manager that the add-on has started, and send the
    /// response to the add-on.
    Registered { started: AddonStarted, response: PluginRegisterResponse },
    /// Hand the event to the fan-out hub.
    Publish(ThingsMessage),
    /// Nothing.
    Silent,
}

/// What a [`Reaction`] says.
pub enum ReactionView {
    Registered { started: AddonStarted, response: PluginRegisterResponse },
    Publish(ThingsView),
    Silent,
}

impl View for Reaction {
    type V = ReactionView;

    open spec fn view(&self) -> ReactionView {
        match self {
            Reaction::Registered { started, response } => ReactionView::Registered {
                started: *started,
                response: *response,
            },
            Reaction::Publish(m) => ReactionView::Publish(m.0@),
            Reaction::Silent => ReactionView::Silent,
        }
    }
}

/// What an executable result of a session step says, in terms of views.
pub open spec fn reaction_view(result: Result<Reaction, Error>) -> Result<ReactionView, Error> {
    match result {
        Ok(r) => Ok(r@),
        Err(e) => Err(e),
    }
}

/// The state of a session: the number by which the caller knows the
/// connection, the add-on's id once it has registered, and the adapters that
/// the add-on has announced.
pub struct SessionView {
    pub session: u64,
    pub plugin_id: Option<Seq<char>>,
    pub adapters: Map<Seq<char>, AdapterView>,
}

impl SessionView {
    /// Whether the add-on has registered.
    pub open spec fn registered(self) -> bool {
        self.plugin_id is Some
    }

    /// Whether some adapter of the session has this device.
    pub open spec fn knows_device(self, device_id: Seq<char>) -> bool {
        exists|adapter_id: Seq<char>| #[trigger] self.has_device(adapter_id, device_id)
    }

    /// Whether some adapter of the session has this device with this
    /// description.
    pub open spec fn describes(self, device_id: Seq<char>, description: DescriptionView) -> bool {
        exists|adapter_id: Seq<char>| #[trigger]
            self.has_device(adapter_id, device_id)
                && self.adapters[adapter_id].devices[device_id].description == description
    }

    /// Whether the catalog holds this device of this adapter.
    pub open spec fn has_device(self, adapter_id: Seq<char>, device_id: Seq<char>) -> bool {
        self.adapters.contains_key(adapter_id) && self.adapters[adapter_id].devices.contains_key(
            device_id,
        )
    }
}

/// The response that a registration request gets: the gateway's version,
/// the add-on's own id, the preferences and the directories.
pub open spec fn response_for(context: GatewayContext, plugin_id: String) -> PluginRegisterResponse {
    PluginRegisterResponse {
        gateway_version: context.gateway_version,
        plugin_id,
        preferences: context.preferences,
        user_profile: context.user_profile,
    }
}

/// What a session asks of its caller after a message, or why it refuses the
/// message.
pub open spec fn session_reaction(s: SessionView, context: GatewayContext, msg: Message) -> Result<
    ReactionView,
    Error,
> {
    match msg {
        Message::PluginRegisterRequest { plugin_id } => Ok(
            ReactionView::Registered {
                started: AddonStarted(plugin_id, s.session),
                response: response_for(context, plugin_id),
            },
        ),
        _ => if !s.registered() {
            Err(Error::NotRegistered)
        } else {
            match msg {
                Message::DeviceAddedNotification { adapter_id, device } => if s.adapters.contains_key(
                    adapter_id@,
                ) {
                    Ok(
                        ReactionView::Publish(
                            ThingsView::Connected(ConnectedView { id: device.id@, data: true }),
                        ),
                    )
                } else {
                    Err(Error::AdapterNotFound)
                },
                Message::DevicePropertyChangedNotification {
                    adapter_id,
                    device_id,
                    property,
                } => if s.adapters.contains_key(adapter_id@) {
                    match property_outcome(s.adapters[adapter_id@], device_id@, property) {
                        Ok(Some(event)) => Ok(
                            ReactionView::Publish(ThingsView::PropertyStatus(event)),
                        ),
                        Ok(None) => Ok(ReactionView::Silent),
                        Err(e) => Err(e),
                    }
                } else {
                    Err(Error::AdapterNotFound)
                },
                Message::DeviceConnectedStateNotification {
                    adapter_id,
                    device_id,
                    connected,
                } => if s.adapters.contains_key(adapter_id@) {
                    match connect_outcome(s.adapters[adapter_id@], device_id@, connected) {
                        Ok(event) => Ok(ReactionView::Publish(ThingsView::Connected(event))),
                        Err(e) => Err(e),
                    }
                } else {
                    Err(Error::AdapterNotFound)
                },
                _ => Ok(ReactionView::Silent),
            }
        },
    }
}

/// The session after a message. A message that is refused leaves it as it
/// was.
pub open spec fn session_after(s: SessionView, msg: Message) -> SessionView {
    match msg {
        Message::PluginRegisterRequest { plugin_id } => SessionView {
            plugin_id: Some(plugin_id@),
            ..s
        },
        _ => if !s.registered() {
            s
        } else {
            match msg {
                Message::AdapterAddedNotification { adapter_id } => SessionView {
                    adapters: s.adapters.insert(
                        adapter_id@,
                        AdapterView { id: adapter_id@, devices: Map::empty() },
                    ),
                    ..s
                },
                Message::DeviceAddedNotification { adapter_id, device } => if s.adapters.contains_key(
                    adapter_id@,
                ) {
                    SessionView {
                        adapters: s.adapters.insert(
                            adapter_id@,
                            with_device(s.adapters[adapter_id@], device@),
                        ),
                        ..s
                    }
                } else {
                    s
                },
                Message::DevicePropertyChangedNotification {
                    adapter_id,
                    device_id,
                    property,
                } => if s.adapters.contains_key(adapter_id@) {
                    SessionView {
                        adapters: s.adapters.insert(
                            adapter_id@,
                            with_property(s.adapters[adapter_id@], device_id@, property),
                        ),
                        ..s
                    }
                } else {
                    s
                },
                Message::DeviceConnectedStateNotification {
                    adapter_id,
                    device_id,
                    connected,
                } => if s.adapters.contains_key(adapter_id@) {
                    SessionView {
                        adapters: s.adapters.insert(
                            adapter_id@,
                            with_connect_state(s.adapters[adapter_id@], device_id@, connected),
                        ),
                        ..s
                    }
                } else {
                    s
                },
                _ => s,
            }
        },
    }
}

/// Whether a message leaves the connected flag of this device of this
/// adapter alone: it neither adds the device, nor sets its connected state,
/// nor replaces its adapter.
pub open spec fn spares(msg: Message, adapter_id: Seq<char>, device_id: Seq<char>) -> bool {
    match msg {
        Message::AdapterAddedNotification { adapter_id: a } => a@ != adapter_id,
        Message::DeviceAddedNotification { adapter_id: a, device } => !(a@ == adapter_id
            && device.id@ == device_id),
        Message::DeviceConnectedStateNotification { adapter_id: a, device_id: d, connected } => !(
        a@ == adapter_id && d@ == device_id),
        _ => true,
    }
}

/// Right after a device was added it is in the catalog, with the
/// description that came, and connected.
pub proof fn law_added_device_is_connected(
    s: SessionView,
    adapter_id: String,
    device: DeviceDescription,
)
    requires
        s.registered(),
        s.adapters.contains_key(adapter_id@),
    ensures
        session_after(
            s,
            Message::DeviceAddedNotification { adapter_id, device },
        ).has_device(adapter_id@, device.id@),
        session_after(
            s,
            Message::DeviceAddedNotification { adapter_id, device },
        ).adapters[adapter_id@].devices[device.id@].connected,
        session_after(
            s,
            Message::DeviceAddedNotification { adapter_id, device },
        ).adapters[adapter_id@].devices[device.id@].description == device@,
{
}

/// After a connected-state notification for a device in the catalog the
/// device's flag is the one that came, and its description is as before.
pub proof fn law_connected_follows_notification(
    s: SessionView,
    adapter_id: String,
    device_id: String,
    connected: bool,
)
    requires
        s.registered(),
        s.has_device(adapter_id@, device_id@),
    ensures
        session_after(
            s,
            Message::DeviceConnectedStateNotification { adapter_id, device_id, connected },
        ).has_device(adapter_id@, device_id@),
        session_after(
            s,
            Message::DeviceConnectedStateNotification { adapter_id, device_id, connected },
        ).adapters[adapter_id@].devices[device_id@].connected == connected,
        session_after(
            s,
            Message::DeviceConnectedStateNotification { adapter_id, device_id, connected },
        ).adapters[adapter_id@].devices[device_id@].description
            == s.adapters[adapter_id@].devices[device_id@].description,
{
}

/// Every message that spares a device leaves it in the catalog with the
/// connected flag that it had; a property change is such a message.
pub proof fn law_connected_flag_kept(
    s: SessionView,
    msg: Message,
    adapter_id: Seq<char>,
    device_id: Seq<char>,
)
    requires
        s.has_device(adapter_id, device_id),
        spares(msg, adapter_id, device_id),
    ensures
        session_after(s, msg).has_device(adapter_id, device_id),
        session_after(s, msg).adapters[adapter_id].devices[device_id].connected
            == s.adapters[adapter_id].devices[device_id].connected,
{
}

/// A message that is refused changes nothing, and before the registration
/// every message but the registration request is refused.
pub proof fn law_refused_changes_nothing(s: SessionView, context: GatewayContext, msg: Message)
    ensures
        session_reaction(s, context, msg) is Err ==> session_after(s, msg) == s,
        !s.registered() && !(msg is PluginRegisterRequest) ==> session_reaction(s, context, msg)
            == Err::<ReactionView, Error>(Error::NotRegistered),
{
    if session_reaction(s, context, msg) is Err && s.registered() {
        match msg {
            Message::DevicePropertyChangedNotification { adapter_id, device_id, property } => {
                if s.adapters.contains_key(adapter_id@) {
                    let adapter = s.adapters[adapter_id@];
                    if adapter.devices.contains_key(device_id@) {
                        assert(adapter.devices.insert(device_id@, adapter.devices[device_id@])
                            =~= adapter.devices);
                    }
                    assert(with_property(adapter, device_id@, property) == adapter);
                    assert(s.adapters.insert(adapter_id@, adapter) =~= s.adapters);
                }
            },
            Message::DeviceConnectedStateNotification { adapter_id, device_id, connected } => {
                if s.adapters.contains_key(adapter_id@) {
                    let adapter = s.adapters[adapter_id@];
                    assert(with_connect_state(adapter, device_id@, connected) == adapter);
                    assert(s.adapters.insert(adapter_id@, adapter) =~= s.adapters);
                }
            },
            _ => {},
        }
    }
}

/// Whether one of the first `n` adapters has this device.
pub open spec fn known_among(rows: Seq<Entry<Adapter>>, n: int, device_id: Seq<char>) -> bool {
    exists|a: int|
        0 <= a < n && a < rows.len() && (#[trigger] rows[a]).value@.devices.contains_key(device_id)
}

/// Whether one of the first `n` adapters has this device with this
/// description.
pub open spec fn described_among(
    rows: Seq<Entry<Adapter>>,
    n: int,
    device_id: Seq<char>,
    description: DescriptionView,
) -> bool {
    exists|a: int|
        0 <= a < n && a < rows.len() && (#[trigger] rows[a]).value@.devices.contains_key(device_id)
            && rows[a].value@.devices[device_id].description == description
}

/// The session of one add-on connection.
#[derive(Debug)]
pub struct AddonInstance {
    session: u64,
    plugin_id: Option<String>,
    adapters: Table<Adapter>,
}

/// The adapters of a table, each as the catalog knows it.
pub open spec fn adapter_views(adapters: Map<Seq<char>, Adapter>) -> Map<Seq<char>, AdapterView> {
    adapters.map_values(|a: Adapter| a@)
}

impl View for AddonInstance {
    type V = SessionView;

    closed spec fn view(&self) -> SessionView {
        SessionView {
            session: self.session,
            plugin_id: match self.plugin_id {
                Some(id) => Some(id@),
                None => None,
            },
            adapters: adapter_views(self.adapters@),
        }
    }
}

impl AddonInstance {
    /// The session of the connection that the caller knows as `session`: not
    /// registered, without adapters.
    pub fn new(session: u64) -> (instance: AddonInstance)
        ensures
            instance@ == (SessionView { session, plugin_id: None, adapters: Map::empty() }),
    {
        let instance = AddonInstance { session, plugin_id: None, adapters: Table::new() };
        assert(adapter_views(instance.adapters@) =~= Map::empty());
        instance
    }

    /// The number by which the caller knows the connection.
    pub fn session(&self) -> (session: u64)
        ensures
            session == self@.session,
    {
        self.session
    }

    /// The add-on's id, once it has registered.
    pub fn plugin_id(&self) -> (id: Option<&String>)
        ensures
            match id {
                Some(id) => self@.plugin_id == Some(id@),
                None => self@.plugin_id is None,
            },
    {
        match &self.plugin_id {
            Some(id) => Some(id),
            None => None,
        }
    }

    /// The adapters by id.
    pub fn adapters(&self) -> (adapters: &Table<Adapter>)
        ensures
            adapter_views(adapters@) == self@.adapters,
    {
        &self.adapters
    }

    /// Puts the description of every device of this session into `out`,
    /// under the device's id, in place of what stood there. Where two
    /// adapters have a device with the same id, one of the two is put.
    pub fn collect_devices<'a>(&'a self, out: &mut Table<&'a DeviceDescription>)
        ensures
            forall|id: Seq<char>| #[trigger]
                final(out)@.contains_key(id) <==> old(out)@.contains_key(id)
                    || self@.knows_device(id),
            forall|id: Seq<char>| #[trigger]
                final(out)@.contains_key(id) ==> self@.describes(id, final(out)@[id]@) || (old(
                    out,
                )@.contains_key(id) && final(out)@[id] == old(out)@[id]),
    {
        let n = self.adapters.len();
        proof {
            self.adapters.lemma_rows();
        }
        let ghost rows = self.adapters.rows();
        let mut i: usize = 0;
        while i < n
            invariant
                i <= n,
                n == rows.len(),
                rows == self.adapters.rows(),
                forall|id: Seq<char>| #[trigger]
                    out@.contains_key(id) <==> old(out)@.contains_key(id) || known_among(
                        rows,
                        i as int,
                        id,
                    ),
                forall|id: Seq<char>| #[trigger]
                    out@.contains_key(id) ==> described_among(rows, i as int, id, out@[id]@) || (
                    old(out)@.contains_key(id) && out@[id] == old(out)@[id]),
            decreases n - i,
        {
            let row = self.adapters.row(i);
            let ghost before = out@;
            row.value.collect_devices(out);
            proof {
                let adapter = rows[i as int].value@;
                assert forall|id: Seq<char>| #[trigger]
                    out@.contains_key(id) <==> old(out)@.contains_key(id) || known_among(
                        rows,
                        i + 1,
                        id,
                    ) by {
                    if known_among(rows, i + 1, id) {
                        let a = choose|a: int|
                            0 <= a < i + 1 && a < rows.len() && (
                            #[trigger] rows[a]).value@.devices.contains_key(id);
                        if a < i {
                            assert(known_among(rows, i as int, id));
                        }
                    }
                    if known_among(rows, i as int, id) {
                        let a = choose|a: int|
                            0 <= a < i && a < rows.len() && (
                            #[trigger] rows[a]).value@.devices.contains_key(id);
                        assert(rows[a].value@.devices.contains_key(id));
                    }
                    if adapter.devices.contains_key(id) {
                        assert(rows[i as int].value@.devices.contains_key(id));
                    }
                    assert(before.contains_key(id) <==> old(out)@.contains_key(id) || known_among(
                        rows,
                        i as int,
                        id,
                    ));
                }
                assert forall|id: Seq<char>| #[trigger] out@.contains_key(id) implies described_among(
                    rows,
                    i + 1,
                    id,
                    out@[id]@,
                ) || (old(out)@.contains_key(id) && out@[id] == old(out)@[id]) by {
                    if adapter.devices.contains_key(id) {
                        assert(rows[i as int].value@.devices.contains_key(id));
                    } else {
                        assert(before.contains_key(id));
                        assert(out@[id] == before[id]);
                        if described_among(rows, i as int, id, before[id]@) {
                            let a = choose|a: int|
                                0 <= a < i && a < rows.len() && (
                                #[trigger] rows[a]).value@.devices.contains_key(id)
                                    && rows[a].value@.devices[id].description == before[id]@;
                            assert(rows[a].value@.devices.contains_key(id));
                        }
                    }
                }
            }
            i += 1;
        }
        proof {
            assert forall|id: Seq<char>| known_among(rows, n as int, id) implies self@.knows_device(
                id,
            ) by {
                let a = choose|a: int|
                    0 <= a < n && a < rows.len() && (
                    #[trigger] rows[a]).value@.devices.contains_key(id);
                assert(self.adapters@.contains_key(rows[a].key@));
                assert(self@.has_device(rows[a].key@, id));
            }
            assert forall|id: Seq<char>| self@.knows_device(id) implies known_among(
                rows,
                n as int,
                id,
            ) by {
                let k = choose|k: Seq<char>| #[trigger] self@.has_device(k, id);
                assert(self.adapters@.contains_key(k));
                let a = choose|a: int| 0 <= a < rows.len() && (#[trigger] rows[a]).key@ == k;
                assert(self.adapters@[rows[a].key@] == rows[a].value);
                assert(rows[a].value@.devices.contains_key(id));
            }
            assert forall|id: Seq<char>, d: DescriptionView|
                described_among(rows, n as int, id, d) implies self@.describes(id, d) by {
                let a = choose|a: int|
                    0 <= a < n && a < rows.len() && (
                    #[trigger] rows[a]).value@.devices.contains_key(id)
                        && rows[a].value@.devices[id].description == d;
                assert(self.adapters@.contains_key(rows[a].key@));
                assert(self@.has_device(rows[a].key@, id));
            }
        }
    }

    /// The devices that the session knows, by id.
    pub fn get_devices(&self, _msg: GetDevices) -> (devices: Table<&DeviceDescription>)
        ensures
            forall|id: Seq<char>| #[trigger] devices@.contains_key(id) <==> self@.knows_device(id),
            forall|id: Seq<char>| #[trigger]
                devices@.contains_key(id) ==> self@.describes(id, devices@[id]@),
    {
        let mut devices: Table<&DeviceDescription> = Table::new();
        self.collect_devices(&mut devices);
        devices
    }

    /// Takes one message from the add-on.
    ///
    /// A registration request records the add-on's id and asks for the
    /// manager to be told and for exactly one response to be sent. Before
    /// that every other message is refused. After it, the notifications
    /// change the catalog and ask for the events that the fan-out hub is to
    /// broadcast; a notification that names an adapter or a device that the
    /// session does not have is refused. A refused message changes nothing.
    pub fn handle(&mut self, context: &GatewayContext, msg: Msg) -> (result: Result<Reaction, Error>)
        ensures
            reaction_view(result) == session_reaction(old(self)@, *context, msg.0),
            final(self)@ == session_after(old(self)@, msg.0),
    {
        let Msg(message) = msg;
        match message {
            Message::PluginRegisterRequest { plugin_id } => {
                let started = AddonStarted(plugin_id.clone(), self.session);
                let response = PluginRegisterResponse {
                    gateway_version: context.gateway_version.clone(),
                    plugin_id: plugin_id.clone(),
                    preferences: context.preferences.duplicate(),
                    user_profile: context.user_profile.duplicate(),
                };
                self.plugin_id = Some(plugin_id);
                Ok(Reaction::Registered { started, response })
            },
            Message::AdapterAddedNotification { adapter_id } => {
                if self.plugin_id.is_none() {
                    return Err(Error::NotRegistered);
                }
                let adapter = Adapter::new(adapter_id.clone());
                self.adapters.insert(adapter_id, adapter);
                assert(adapter_views(self.adapters@) =~= session_after(old(self)@, msg.0).adapters);
                Ok(Reaction::Silent)
            },
            Message::DeviceAddedNotification { adapter_id, device } => {
                if self.plugin_id.is_none() {
                    return Err(Error::NotRegistered);
                }
                match self.adapters.remove(&adapter_id) {
                    None => {
                        assert(adapter_views(self.adapters@) =~= old(self)@.adapters);
                        Err(Error::AdapterNotFound)
                    },
                    Some(adapter) => {
                        let mut adapter = adapter;
                        let id = device.id.clone();
                        adapter.add_device(device);
                        let outcome = adapter.set_connect_state(id, true);
                        assert(adapter@ =~= with_device(old(self)@.adapters[adapter_id@], device@)) by {
                            assert(adapter@.devices =~= with_device(
                                old(self)@.adapters[adapter_id@],
                                device@,
                            ).devices);
                        }
                        self.adapters.insert(adapter_id, adapter);
                        assert(adapter_views(self.adapters@) =~= session_after(
                            old(self)@,
                            msg.0,
                        ).adapters);
                        match outcome {
                            Ok(event) => Ok(
                                Reaction::Publish(
                                    ThingsMessage(ThingsMessages::ConnectedMessage(event)),
                                ),
                            ),
                            Err(e) => Err(e),
                        }
                    },
                }
            },
            Message::DevicePropertyChangedNotification { adapter_id, device_id, property } => {
                if self.plugin_id.is_none() {
                    return Err(Error::NotRegistered);
                }
                match self.adapters.remove(&adapter_id) {
                    None => {
                        assert(adapter_views(self.adapters@) =~= old(self)@.adapters);
                        Err(Error::AdapterNotFound)
                    },
                    Some(adapter) => {
                        let mut adapter = adapter;
                        let outcome = adapter.update_property(device_id, property);
                        self.adapters.insert(adapter_id, adapter);
                        assert(adapter_views(self.adapters@) =~= session_after(
                            old(self)@,
                            msg.0,
                        ).adapters);
                        match outcome {
                            Ok(Some(event)) => Ok(
                                Reaction::Publish(
                                    ThingsMessage(ThingsMessages::PropertyStatusMessage(event)),
                                ),
                            ),
                            Ok(None) => Ok(Reaction::Silent),
                            Err(e) => Err(e),
                        }
                    },
                }
            },
            Message::DeviceConnectedStateNotification { adapter_id, device_id, connected } => {
                if self.plugin_id.is_none() {
                    return Err(Error::NotRegistered);
                }
                match self.adapters.remove(&adapter_id) {
                    None => {
                        assert(adapter_views(self.adapters@) =~= old(self)@.adapters);
                        Err(Error::AdapterNotFound)
                    },
                    Some(adapter) => {
                        let mut adapter = adapter;
                        let outcome = adapter.set_connect_state(device_id, connected);
                        self.adapters.insert(adapter_id, adapter);
                        assert(adapter_views(self.adapters@) =~= session_after(
                            old(self)@,
                            msg.0,
                        ).adapters);
                        match outcome {
                            Ok(event) => Ok(
                                Reaction::Publish(
                                    ThingsMessage(ThingsMessages::ConnectedMessage(event)),
                                ),
                            ),
                            Err(e) => Err(e),
                        }
                    },
                }
            },
            Message::Other => {
                if self.plugin_id.is_none() {
                    return Err(Error::NotRegistered);
                }
                Ok(Reaction::Silent)
            },
        }
    }
}

} // verus!
