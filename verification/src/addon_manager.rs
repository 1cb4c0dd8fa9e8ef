//! The add-on manager: the installed add-ons and the sessions of those that
//! run, and what enabling, disabling, restarting, installing and
//! uninstalling do to them, to the settings and to the supervisor.

use crate::addon::{Addon, AddonView, Manifest};
use crate::addon_instance::SessionView;
use crate::addon_socket::AddonSocket;
use crate::device::{DescriptionView, DeviceDescription};
use crate::registry::Entry;
use crate::db::{
    flag_outcome, with_default, with_setting, Db, DbView, SetSetting, SetSettingIfNotExists,
};
use crate::error::Error;
use crate::process_manager::{
    start_outcome, stop_outcome, Launch, LaunchView, ProcessManager, StartAddon, StopAddon,
};
use crate::registry::Table;
use crate::text::{lowered, to_ascii_lowercase};
use crate::user_config::{child_path, UserProfile};
use vstd::prelude::*;
use vstd::string::StringExecFns;

verus! {

/// The request to load every add-on of this directory.
#[derive(Debug, Clone, PartialEq, Eq)]
pub struct LoadAddons(pub String);

/// The request to restart the add-on with this id.
#[derive(Debug, Clone, PartialEq, Eq)]
pub struct RestartAddon(pub String);

/// The notice that the add-on with this id has registered on the session
/// with this number.
#[derive(Debug, Clone, PartialEq, Eq)]
pub struct AddonStarted(pub String, pub u64);

/// The notice that the process of the add-on with this id has ended.
#[derive(Debug, Clone, PartialEq, Eq)]
pub struct AddonStopped(pub String);

/// The request to enable the add-on with this id.
#[derive(Debug, Clone, PartialEq, Eq)]
pub struct EnableAddon(pub String);

/// The request to disable the add-on with this id.
#[derive(Debug, Clone, PartialEq, Eq)]
pub struct DisableAddon(pub String);

/// The request for all installed add-ons.
#[derive(Debug, Clone, Copy, PartialEq, Eq)]
pub struct GetAddons;

/// The request for the installed add-on with this id.
#[derive(Debug, Clone, PartialEq, Eq)]
pub struct GetAddon(pub String);

/// The question whether an add-on with this id is installed.
#[derive(Debug, Clone, PartialEq, Eq)]
pub struct HasAddon(pub String);

/// The request to uninstall the add-on with this id.
#[derive(Debug, Clone, PartialEq, Eq)]
pub struct UninstallAddon(pub String);

/// The request to install the add-on with this id from this address; the
/// package must have this checksum, and the add-on is enabled after the
/// installation where the flag says so.
#[derive(Debug, Clone, PartialEq, Eq)]
pub struct InstallAddonFromUrl(pub String, pub String, pub String, pub bool);

/// The request for the devices of all running add-ons.
#[derive(Debug, Clone, Copy, PartialEq, Eq)]
pub struct GetDevices;

/// One entry of the add-ons directory: its path, what reading its manifest
/// gave, and the handle for its process if one is started.
#[derive(Debug, PartialEq, Eq)]
pub struct AddonEntry {
    pub path: String,
    pub manifest: Result<Manifest, Error>,
    pub handle: u64,
}

/// A package that has passed the checksum gate: the add-on's id, the name of
/// the archive file, and whether the add-on is to be enabled.
#[derive(Debug, Clone, PartialEq, Eq)]
pub struct Package {
    pub id: String,
    pub archive: String,
    pub enable: bool,
}

/// What an operation asks of the caller, and how it ended: a handle to
/// cancel, a process to spawn, and the result.
#[derive(Debug, PartialEq, Eq)]
pub struct Outcome {
    pub cancel: Option<u64>,
    pub launch: Option<Launch>,
    pub result: Result<(), Error>,
}

/// What an [`Outcome`] says.
pub struct OutcomeView {
    pub cancel: Option<u64>,
    pub launch: Option<LaunchView>,
    pub result: Result<(), Error>,
}

impl View for Outcome {
    type V = OutcomeView;

    open spec fn view(&self) -> OutcomeView {
        OutcomeView {
            cancel: self.cancel,
            launch: match self.launch {
                Some(l) => Some(l@),
                None => None,
            },
            result: self.result,
        }
    }
}

/// What loading a directory asks of the caller, and how it ended.
#[derive(Debug, PartialEq, Eq)]
pub struct Loaded {
    pub launches: Vec<Launch>,
    pub result: Result<(), Error>,
}

/// The key of the setting that says whether an add-on is enabled.
pub open spec fn enabled_key(id: Seq<char>) -> Seq<char> {
    "addons."@ + id + ".enabled"@
}

/// The key of the setting that holds an add-on's configuration.
pub open spec fn config_key(id: Seq<char>) -> Seq<char> {
    "addons."@ + id + ".config"@
}

/// The two keys of an add-on are different.
pub proof fn lemma_keys_differ(id: Seq<char>)
    ensures
        enabled_key(id) != config_key(id),
{
    reveal_strlit("addons.");
    reveal_strlit(".enabled");
    reveal_strlit(".config");
    assert(enabled_key(id).len() == 7 + id.len() + 8);
    assert(config_key(id).len() == 7 + id.len() + 7);
}

/// The key of the setting that says whether an add-on is enabled.
pub fn enabled_key_of(id: &str) -> (key: String)
    ensures
        key@ == enabled_key(id@),
{
    let mut key = "addons.".to_owned();
    key.append(id);
    key.append(".enabled");
    key
}

/// The key of the setting that holds an add-on's configuration.
pub fn config_key_of(id: &str) -> (key: String)
    ensures
        key@ == config_key(id@),
{
    let mut key = "addons.".to_owned();
    key.append(id);
    key.append(".config");
    key
}

/// What the manager knows: the installed add-ons by id, and for each
/// running add-on the number of its session.
pub struct ManagerView {
    pub installed: Map<Seq<char>, AddonView>,
    pub running: Map<Seq<char>, u64>,
}

/// What the manager's operations work on: the manager's own books, the
/// settings, and the supervisor's processes.
pub struct World {
    pub manager: ManagerView,
    pub settings: Map<Seq<char>, Seq<char>>,
    pub processes: Map<Seq<char>, u64>,
}

impl World {
    /// The world with these installed add-ons.
    pub open spec fn with_installed(self, installed: Map<Seq<char>, AddonView>) -> World {
        World { manager: ManagerView { installed, ..self.manager }, ..self }
    }
}

/// An outcome that asks nothing of the caller.
pub open spec fn done(cancel: Option<u64>, result: Result<(), Error>) -> OutcomeView {
    OutcomeView { cancel, launch: None, result }
}

/// Loading one add-on whose manifest was read from `path`.
///
/// A manifest that could not be read ends the load and changes nothing.
/// Otherwise the two settings of the add-on get their defaults where they
/// have no value, the enabled flag is read, the add-on is booked under the
/// manifest's id, and, where it is enabled, the supervisor is asked to
/// start it.
pub open spec fn loaded(
    w: World,
    path: Seq<char>,
    manifest: Result<Manifest, Error>,
    handle: u64,
    home: Seq<char>,
) -> (World, OutcomeView) {
    match manifest {
        Err(e) => (w, done(None, Err(e))),
        Ok(m) => {
            let id = m.id@;
            let settings = with_default(
                with_default(w.settings, enabled_key(id), "false"@),
                config_key(id),
                "{}"@,
            );
            let w1 = World { settings, ..w };
            match flag_outcome(settings, enabled_key(id)) {
                Err(e) => (w1, done(None, Err(e))),
                Ok(enabled) => {
                    let w2 = w1.with_installed(
                        w.manager.installed.insert(id, AddonView { manifest: m, path, enabled }),
                    );
                    if !enabled {
                        (w2, done(None, Ok(())))
                    } else {
                        match start_outcome(w.processes, id, path, m.command@, handle, home) {
                            Ok(launch) => (
                                World { processes: w.processes.insert(id, handle), ..w2 },
                                OutcomeView { cancel: None, launch: Some(launch), result: Ok(()) },
                            ),
                            Err(e) => (w2, done(None, Err(e))),
                        }
                    }
                },
            }
        },
    }
}

/// Enabling an add-on: refused where the add-on is not installed or is
/// enabled already; otherwise the flag is set in the books and in the
/// settings, and the add-on is loaded from its directory.
pub open spec fn enabled(
    w: World,
    id: Seq<char>,
    manifest: Result<Manifest, Error>,
    handle: u64,
    home: Seq<char>,
) -> (World, OutcomeView) {
    if !w.manager.installed.contains_key(id) {
        (w, done(None, Err(Error::AddonNotInstalled)))
    } else if w.manager.installed[id].enabled {
        (w, done(None, Err(Error::AlreadyEnabled)))
    } else {
        let addon = w.manager.installed[id];
        let w1 = World {
            settings: with_setting(w.settings, enabled_key(id), "true"@),
            ..w.with_installed(
                w.manager.installed.insert(id, AddonView { enabled: true, ..addon }),
            )
        };
        loaded(w1, addon.path, manifest, handle, home)
    }
}

/// Disabling an add-on: refused where the add-on is not installed or is
/// disabled already; otherwise the flag is cleared in the books and in the
/// settings, and the supervisor is asked to stop the add-on.
pub open spec fn disabled(w: World, id: Seq<char>) -> (World, OutcomeView) {
    if !w.manager.installed.contains_key(id) {
        (w, done(None, Err(Error::AddonNotInstalled)))
    } else if !w.manager.installed[id].enabled {
        (w, done(None, Err(Error::AlreadyDisabled)))
    } else {
        let addon = w.manager.installed[id];
        let w1 = World {
            settings: with_setting(w.settings, enabled_key(id), "false"@),
            ..w.with_installed(
                w.manager.installed.insert(id, AddonView { enabled: false, ..addon }),
            )
        };
        match stop_outcome(w.processes, id) {
            Ok(h) => (World { processes: w.processes.remove(id), ..w1 }, done(Some(h), Ok(()))),
            Err(e) => (w1, done(None, Err(e))),
        }
    }
}

/// Restarting an add-on: the supervisor is asked to stop it, and only if it
/// is still enabled it is loaded again, from its entry in the add-ons
/// directory.
pub open spec fn restarted(
    w: World,
    id: Seq<char>,
    addons_dir: Seq<char>,
    manifest: Result<Manifest, Error>,
    handle: u64,
    home: Seq<char>,
) -> (World, OutcomeView) {
    match stop_outcome(w.processes, id) {
        Err(e) => (w, done(None, Err(e))),
        Ok(h) => {
            let w1 = World { processes: w.processes.remove(id), ..w };
            if !w.manager.installed.contains_key(id) {
                (w1, done(Some(h), Err(Error::AddonNotInstalled)))
            } else if !w.manager.installed[id].enabled {
                (w1, done(Some(h), Ok(())))
            } else {
                let (w2, out) = loaded(w1, child_path(addons_dir, id), manifest, handle, home);
                (w2, OutcomeView { cancel: Some(h), ..out })
            }
        },
    }
}

/// Uninstalling an add-on, after the caller has tried to remove its
/// directory: the supervisor is asked to stop it, whether or not it runs;
/// where the directory could not be removed the rest is left undone;
/// otherwise the enabled flag is cleared in the settings, if `disable` says
/// so, and the add-on leaves the books.
pub open spec fn uninstalled(
    w: World,
    id: Seq<char>,
    disable: bool,
    removed: Result<(), Error>,
) -> (World, OutcomeView) {
    let cancel = match stop_outcome(w.processes, id) {
        Ok(h) => Some(h),
        Err(_) => None,
    };
    let w1 = World { processes: w.processes.remove(id), ..w };
    match removed {
        Err(e) => (w1, done(cancel, Err(e))),
        Ok(_) => (
            World {
                settings: if disable {
                    with_setting(w.settings, enabled_key(id), "false"@)
                } else {
                    w.settings
                },
                ..w1.with_installed(w.manager.installed.remove(id))
            },
            done(cancel, Ok(())),
        ),
    }
}

/// Installing an add-on from an unpacked package, after the caller has
/// tried to remove the directory of the version that was installed and to
/// move the package into its place: the old version is uninstalled with its
/// enabled flag left alone; where the package could not be moved the rest is
/// left undone; otherwise the flag is set, if `enable` says so, and the
/// add-on is loaded from its entry in the add-ons directory.
pub open spec fn installed(
    w: World,
    id: Seq<char>,
    addons_dir: Seq<char>,
    removed: Result<(), Error>,
    moved: Result<(), Error>,
    enable: bool,
    manifest: Result<Manifest, Error>,
    handle: u64,
    home: Seq<char>,
) -> (World, OutcomeView) {
    let (w1, out1) = uninstalled(w, id, false, removed);
    if out1.result is Err {
        (w1, out1)
    } else {
        match moved {
            Err(e) => (w1, done(out1.cancel, Err(e))),
            Ok(_) => {
                let w2 = World {
                    settings: if enable {
                        with_setting(w1.settings, enabled_key(id), "true"@)
                    } else {
                        w1.settings
                    },
                    ..w1
                };
                let (w3, out) = loaded(w2, child_path(addons_dir, id), manifest, handle, home);
                (w3, OutcomeView { cancel: out1.cancel, ..out })
            },
        }
    }
}

/// The world after the entries of a directory were loaded one after the
/// other, the launches that this asks for, and whether a load failed. A
/// failed load does not stop the others.
pub open spec fn loaded_all(w: World, entries: Seq<AddonEntry>, home: Seq<char>) -> (
    World,
    Seq<LaunchView>,
    bool,
)
    decreases entries.len(),
{
    if entries.len() == 0 {
        (w, Seq::empty(), false)
    } else {
        let (w1, launches, failed) = loaded_all(w, entries.drop_last(), home);
        let last = entries.last();
        let (w2, out) = loaded(w1, last.path@, last.manifest, last.handle, home);
        (
            w2,
            match out.launch {
                Some(l) => launches.push(l),
                None => launches,
            },
            failed || out.result is Err,
        )
    }
}

/// The lower-case hexadecimal SHA-256 digest of the bytes, as the `sha256`
/// crate writes it.
pub uninterp spec fn sha256_hex(bytes: Seq<u8>) -> Seq<char>;

/// Calls `sha256::digest_bytes`. The contract only names the result.
#[verifier::external_body]
fn sha256_digest(bytes: &[u8]) -> (digest: String)
    ensures
        digest@ == sha256_hex(bytes@),
{
    sha256::digest_bytes(bytes)
}

/// Whether a digest is the expected checksum: the checksum is compared in
/// lower case.
pub fn checksum_matches(digest: &String, checksum: &str) -> (matches: bool)
    ensures
        matches == (digest@ == lowered(checksum@)),
{
    let expected = to_ascii_lowercase(checksum);
    *digest == expected
}

/// The name of the archive file of a package: the add-on's id and
/// `.tar.gz`.
pub open spec fn archive_name(id: Seq<char>) -> Seq<char> {
    id + ".tar.gz"@
}

/// What a [`World`] is made of.
pub open spec fn world(
    manager: ManagerView,
    settings: Map<Seq<char>, Seq<char>>,
    processes: Map<Seq<char>, u64>,
) -> World {
    World { manager, settings, processes }
}

/// After an add-on has registered on one session and later on another, its
/// session is the later one.
pub proof fn law_session_singleton(running: Map<Seq<char>, u64>, id: Seq<char>, s1: u64, s2: u64)
    ensures
        running.insert(id, s1).insert(id, s2)[id] == s2,
        running.insert(id, s1).insert(id, s2) == running.insert(id, s2),
{
    assert(running.insert(id, s1).insert(id, s2) =~= running.insert(id, s2));
}

/// After enabling has succeeded for an add-on whose manifest carries the id
/// under which it is installed, the enabled flag in the settings reads
/// `true`, the books say so too, and the supervisor holds a process for the
/// add-on, the one that the outcome asks the caller to spawn.
pub proof fn law_enable_round_trip(
    w: World,
    id: Seq<char>,
    manifest: Manifest,
    handle: u64,
    home: Seq<char>,
)
    requires
        manifest.id@ == id,
        enabled(w, id, Ok(manifest), handle, home).1.result is Ok,
    ensures
        flag_outcome(enabled(w, id, Ok(manifest), handle, home).0.settings, enabled_key(id))
            == Ok::<bool, Error>(true),
        enabled(w, id, Ok(manifest), handle, home).0.manager.installed[id].enabled,
        enabled(w, id, Ok(manifest), handle, home).0.processes.contains_key(id),
        enabled(w, id, Ok(manifest), handle, home).0.processes[id] == handle,
        enabled(w, id, Ok(manifest), handle, home).1.launch is Some,
{
    lemma_keys_differ(id);
    crate::db::lemma_flag_round_trip(true);
}

/// After disabling an add-on that is installed and enabled, the enabled
/// flag in the settings reads `false`, the books say so too, and the
/// supervisor holds no process for the add-on, whether or not one ran.
pub proof fn law_disable_round_trip(w: World, id: Seq<char>)
    requires
        w.manager.installed.contains_key(id),
        w.manager.installed[id].enabled,
    ensures
        flag_outcome(disabled(w, id).0.settings, enabled_key(id)) == Ok::<bool, Error>(false),
        !disabled(w, id).0.manager.installed[id].enabled,
        !disabled(w, id).0.processes.contains_key(id),
        disabled(w, id).1.result is Ok <==> w.processes.contains_key(id),
        disabled(w, id).1.result is Ok ==> disabled(w, id).1.cancel == Some(w.processes[id]),
{
    crate::db::lemma_flag_round_trip(false);
}

/// Restarting an add-on that is disabled, or that has no process, starts
/// nothing.
pub proof fn law_restart_respects_disabled(
    w: World,
    id: Seq<char>,
    addons_dir: Seq<char>,
    manifest: Result<Manifest, Error>,
    handle: u64,
    home: Seq<char>,
)
    requires
        !w.processes.contains_key(id) || (w.manager.installed.contains_key(id)
            && !w.manager.installed[id].enabled),
    ensures
        restarted(w, id, addons_dir, manifest, handle, home).1.launch is None,
        !restarted(w, id, addons_dir, manifest, handle, home).0.processes.contains_key(id),
{
}

/// Whether the session of some running add-on knows this device.
pub open spec fn catalog_knows(
    running: Map<Seq<char>, u64>,
    sessions: Map<u64, SessionView>,
    device_id: Seq<char>,
) -> bool {
    exists|addon: Seq<char>| #[trigger]
        running.contains_key(addon) && sessions.contains_key(running[addon])
            && sessions[running[addon]].knows_device(device_id)
}

/// Whether the session of some running add-on knows this device with this
/// description.
pub open spec fn catalog_describes(
    running: Map<Seq<char>, u64>,
    sessions: Map<u64, SessionView>,
    device_id: Seq<char>,
    description: DescriptionView,
) -> bool {
    exists|addon: Seq<char>| #[trigger]
        running.contains_key(addon) && sessions.contains_key(running[addon])
            && sessions[running[addon]].describes(device_id, description)
}

/// Whether the session of one of the first `n` running add-ons knows this
/// device.
pub open spec fn live_among(
    rows: Seq<Entry<u64>>,
    sessions: Map<u64, SessionView>,
    n: int,
    device_id: Seq<char>,
) -> bool {
    exists|r: int|
        0 <= r < n && r < rows.len() && sessions.contains_key((#[trigger] rows[r]).value)
            && sessions[rows[r].value].knows_device(device_id)
}

/// Whether the session of one of the first `n` running add-ons knows this
/// device with this description.
pub open spec fn shown_among(
    rows: Seq<Entry<u64>>,
    sessions: Map<u64, SessionView>,
    n: int,
    device_id: Seq<char>,
    description: DescriptionView,
) -> bool {
    exists|r: int|
        0 <= r < n && r < rows.len() && sessions.contains_key((#[trigger] rows[r]).value)
            && sessions[rows[r].value].describes(device_id, description)
}

/// Without running add-ons the catalog knows no device.
pub proof fn law_empty_catalog(sessions: Map<u64, SessionView>, device_id: Seq<char>)
    ensures
        !catalog_knows(Map::empty(), sessions, device_id),
{
}

/// The add-on manager.
#[derive(Debug)]
pub struct AddonManager {
    installed_addons: Table<Addon>,
    running_addons: Table<u64>,
}

/// The installed add-ons of a table, each as the manager knows it.
pub open spec fn addon_views(addons: Map<Seq<char>, Addon>) -> Map<Seq<char>, AddonView> {
    addons.map_values(|a: Addon| a@)
}

impl View for AddonManager {
    type V = ManagerView;

    closed spec fn view(&self) -> ManagerView {
        ManagerView {
            installed: addon_views(self.installed_addons@),
            running: self.running_addons@,
        }
    }
}

impl AddonManager {
    /// A manager without add-ons.
    pub fn new() -> (manager: AddonManager)
        ensures
            manager@ == (ManagerView { installed: Map::empty(), running: Map::empty() }),
    {
        let manager = AddonManager { installed_addons: Table::new(), running_addons: Table::new() };
        assert(addon_views(manager.installed_addons@) =~= Map::empty());
        manager
    }

    /// Loads one add-on; see [`loaded`].
    pub fn load_addon(
        &mut self,
        path: String,
        manifest: Result<Manifest, Error>,
        handle: u64,
        profile: &UserProfile,
        db: &mut Db,
        processes: &mut ProcessManager,
    ) -> (outcome: Outcome)
        ensures
            ({
                let (w, out) = loaded(
                    world(old(self)@, old(db)@.settings, old(processes)@),
                    path@,
                    manifest,
                    handle,
                    profile.base_dir@,
                );
                &&& final(self)@ == w.manager
                &&& final(db)@ == (DbView { settings: w.settings, ..old(db)@ })
                &&& final(processes)@ == w.processes
                &&& outcome@ == out
            }),
    {
        let manifest = match manifest {
            Ok(m) => m,
            Err(e) => {
                return Outcome { cancel: None, launch: None, result: Err(e) };
            },
        };
        let id = manifest.id.clone();
        let command = manifest.command.clone();
        let key = enabled_key_of(id.as_str());
        let _ = db.set_setting_if_not_exists(SetSettingIfNotExists(key.clone(), "false".to_owned()));
        let _ = db.set_setting_if_not_exists(
            SetSettingIfNotExists(config_key_of(id.as_str()), "{}".to_owned()),
        );
        let enabled = match db.get_flag(&key) {
            Ok(enabled) => enabled,
            Err(e) => {
                return Outcome { cancel: None, launch: None, result: Err(e) };
            },
        };
        let addon = Addon { manifest, path: path.clone(), enabled };
        self.installed_addons.insert(id.clone(), addon);
        assert(addon_views(self.installed_addons@) =~= old(self)@.installed.insert(id@, addon@));
        if !enabled {
            return Outcome { cancel: None, launch: None, result: Ok(()) };
        }
        match processes.start_addon(StartAddon(id, path, command), handle, profile.base_dir.as_str()) {
            Ok(launch) => Outcome { cancel: None, launch: Some(launch), result: Ok(()) },
            Err(e) => Outcome { cancel: None, launch: None, result: Err(e) },
        }
    }

    /// Loads the entries of the add-ons directory one after the other. An
    /// entry that fails does not stop the others; if any failed, the result
    /// says so.
    pub fn load_addons(
        &mut self,
        _msg: LoadAddons,
        entries: Vec<AddonEntry>,
        profile: &UserProfile,
        db: &mut Db,
        processes: &mut ProcessManager,
    ) -> (loaded: Loaded)
        ensures
            ({
                let (w, launches, failed) = loaded_all(
                    world(old(self)@, old(db)@.settings, old(processes)@),
                    entries@,
                    profile.base_dir@,
                );
                &&& final(self)@ == w.manager
                &&& final(db)@ == (DbView { settings: w.settings, ..old(db)@ })
                &&& final(processes)@ == w.processes
                &&& loaded.launches@.len() == launches.len()
                &&& forall|i: int|
                    0 <= i < launches.len() ==> (#[trigger] loaded.launches@[i])@ == launches[i]
                &&& loaded.result == if failed {
                    Err::<(), Error>(Error::SomeAddonsFailed)
                } else {
                    Ok::<(), Error>(())
                }
            }),
    {
        let mut entries = entries;
        let ghost all = entries@;
        let ghost start = world(old(self)@, old(db)@.settings, old(processes)@);
        let mut launches: Vec<Launch> = Vec::new();
        let mut failed = false;
        let mut rest: Vec<AddonEntry> = Vec::new();
        // The entries are taken from the back, so they are turned round first.
        while entries.len() > 0
            invariant
                entries@.len() + rest@.len() == all.len(),
                forall|i: int| 0 <= i < entries@.len() ==> entries@[i] == all[i],
                forall|i: int|
                    0 <= i < rest@.len() ==> rest@[i] == all[all.len() - 1 - i],
            decreases entries@.len(),
        {
            let entry = entries.pop().unwrap();
            rest.push(entry);
        }
        let ghost mut count: int = 0;
        while rest.len() > 0
            invariant
                0 <= count <= all.len(),
                rest@.len() == all.len() - count,
                forall|i: int|
                    0 <= i < rest@.len() ==> rest@[i] == all[all.len() - 1 - i],
                ({
                    let (w, ls, f) = loaded_all(start, all.take(count), profile.base_dir@);
                    &&& self@ == w.manager
                    &&& db@ == (DbView { settings: w.settings, ..old(db)@ })
                    &&& processes@ == w.processes
                    &&& launches@.len() == ls.len()
                    &&& forall|i: int| 0 <= i < ls.len() ==> (#[trigger] launches@[i])@ == ls[i]
                    &&& failed == f
                }),
            decreases rest@.len(),
        {
            let entry = rest.pop().unwrap();
            proof {
                assert(entry == all[count]);
                assert(all.take(count + 1).drop_last() =~= all.take(count));
                assert(all.take(count + 1).last() == entry);
            }
            let AddonEntry { path, manifest, handle } = entry;
            let outcome = self.load_addon(path, manifest, handle, profile, db, processes);
            if outcome.result.is_err() {
                failed = true;
            }
            match outcome.launch {
                Some(launch) => {
                    launches.push(launch);
                },
                None => {},
            }
            proof {
                count = count + 1;
            }
        }
        proof {
            assert(all.take(count) =~= all);
        }
        Loaded {
            launches,
            result: if failed {
                Err(Error::SomeAddonsFailed)
            } else {
                Ok(())
            },
        }
    }

    /// Enables an add-on; see [`enabled`]. `manifest` is what reading the
    /// manifest in the add-on's directory gave.
    pub fn enable_addon(
        &mut self,
        msg: EnableAddon,
        manifest: Result<Manifest, Error>,
        handle: u64,
        profile: &UserProfile,
        db: &mut Db,
        processes: &mut ProcessManager,
    ) -> (outcome: Outcome)
        ensures
            ({
                let (w, out) = enabled(
                    world(old(self)@, old(db)@.settings, old(processes)@),
                    msg.0@,
                    manifest,
                    handle,
                    profile.base_dir@,
                );
                &&& final(self)@ == w.manager
                &&& final(db)@ == (DbView { settings: w.settings, ..old(db)@ })
                &&& final(processes)@ == w.processes
                &&& outcome@ == out
            }),
    {
        let id = msg.0;
        let mut addon = match self.installed_addons.remove(&id) {
            Some(addon) => addon,
            None => {
                assert(addon_views(self.installed_addons@) =~= old(self)@.installed);
                return Outcome { cancel: None, launch: None, result: Err(Error::AddonNotInstalled) };
            },
        };
        if addon.enabled {
            self.installed_addons.insert(id, addon);
            assert(addon_views(self.installed_addons@) =~= old(self)@.installed);
            return Outcome { cancel: None, launch: None, result: Err(Error::AlreadyEnabled) };
        }
        addon.enabled = true;
        let path = addon.path.clone();
        let _ = db.set_setting(SetSetting(enabled_key_of(id.as_str()), "true".to_owned()));
        self.installed_addons.insert(id, addon);
        assert(addon_views(self.installed_addons@) =~= old(self)@.installed.insert(
            msg.0@,
            AddonView { enabled: true, ..old(self)@.installed[msg.0@] },
        ));
        self.load_addon(path, manifest, handle, profile, db, processes)
    }

    /// Disables an add-on; see [`disabled`].
    pub fn disable_addon(
        &mut self,
        msg: DisableAddon,
        db: &mut Db,
        processes: &mut ProcessManager,
    ) -> (outcome: Outcome)
        ensures
            ({
                let (w, out) = disabled(
                    world(old(self)@, old(db)@.settings, old(processes)@),
                    msg.0@,
                );
                &&& final(self)@ == w.manager
                &&& final(db)@ == (DbView { settings: w.settings, ..old(db)@ })
                &&& final(processes)@ == w.processes
                &&& outcome@ == out
            }),
    {
        let id = msg.0;
        let mut addon = match self.installed_addons.remove(&id) {
            Some(addon) => addon,
            None => {
                assert(addon_views(self.installed_addons@) =~= old(self)@.installed);
                return Outcome { cancel: None, launch: None, result: Err(Error::AddonNotInstalled) };
            },
        };
        if !addon.enabled {
            self.installed_addons.insert(id, addon);
            assert(addon_views(self.installed_addons@) =~= old(self)@.installed);
            return Outcome { cancel: None, launch: None, result: Err(Error::AlreadyDisabled) };
        }
        addon.enabled = false;
        let _ = db.set_setting(SetSetting(enabled_key_of(id.as_str()), "false".to_owned()));
        self.installed_addons.insert(id.clone(), addon);
        assert(addon_views(self.installed_addons@) =~= old(self)@.installed.insert(
            msg.0@,
            AddonView { enabled: false, ..old(self)@.installed[msg.0@] },
        ));
        match processes.stop_addon(StopAddon(id)) {
            Ok(handle) => Outcome { cancel: Some(handle), launch: None, result: Ok(()) },
            Err(e) => Outcome { cancel: None, launch: None, result: Err(e) },
        }
    }

    /// Restarts an add-on; see [`restarted`]. `manifest` is what reading the
    /// manifest in the add-on's entry in the add-ons directory gave.
    pub fn restart_addon(
        &mut self,
        msg: RestartAddon,
        manifest: Result<Manifest, Error>,
        handle: u64,
        profile: &UserProfile,
        db: &mut Db,
        processes: &mut ProcessManager,
    ) -> (outcome: Outcome)
        ensures
            ({
                let (w, out) = restarted(
                    world(old(self)@, old(db)@.settings, old(processes)@),
                    msg.0@,
                    profile.addons_dir@,
                    manifest,
                    handle,
                    profile.base_dir@,
                );
                &&& final(self)@ == w.manager
                &&& final(db)@ == (DbView { settings: w.settings, ..old(db)@ })
                &&& final(processes)@ == w.processes
                &&& outcome@ == out
            }),
    {
        let id = msg.0;
        let cancel = match processes.stop_addon(StopAddon(id.clone())) {
            Ok(handle) => handle,
            Err(e) => {
                assert(processes@ =~= old(processes)@);
                return Outcome { cancel: None, launch: None, result: Err(e) };
            },
        };
        let enabled = match self.installed_addons.get(&id) {
            Some(addon) => addon.enabled,
            None => {
                return Outcome {
                    cancel: Some(cancel),
                    launch: None,
                    result: Err(Error::AddonNotInstalled),
                };
            },
        };
        if !enabled {
            return Outcome { cancel: Some(cancel), launch: None, result: Ok(()) };
        }
        let path = profile.addon_dir(id.as_str());
        let outcome = self.load_addon(path, manifest, handle, profile, db, processes);
        Outcome { cancel: Some(cancel), launch: outcome.launch, result: outcome.result }
    }

    fn uninstall(
        &mut self,
        id: &String,
        disable: bool,
        removed: Result<(), Error>,
        db: &mut Db,
        processes: &mut ProcessManager,
    ) -> (outcome: Outcome)
        ensures
            ({
                let (w, out) = uninstalled(
                    world(old(self)@, old(db)@.settings, old(processes)@),
                    id@,
                    disable,
                    removed,
                );
                &&& final(self)@ == w.manager
                &&& final(db)@ == (DbView { settings: w.settings, ..old(db)@ })
                &&& final(processes)@ == w.processes
                &&& outcome@ == out
            }),
    {
        let cancel = match processes.stop_addon(StopAddon(id.clone())) {
            Ok(handle) => Some(handle),
            Err(_) => None,
        };
        match removed {
            Err(e) => {
                return Outcome { cancel, launch: None, result: Err(e) };
            },
            Ok(_) => {},
        }
        if disable {
            let _ = db.set_setting(SetSetting(enabled_key_of(id.as_str()), "false".to_owned()));
        }
        self.installed_addons.remove(id);
        assert(addon_views(self.installed_addons@) =~= old(self)@.installed.remove(id@));
        Outcome { cancel, launch: None, result: Ok(()) }
    }

    /// Uninstalls an add-on and clears its enabled flag; see
    /// [`uninstalled`]. `removed` is what removing the add-on's directory
    /// gave.
    pub fn uninstall_addon(
        &mut self,
        msg: UninstallAddon,
        removed: Result<(), Error>,
        db: &mut Db,
        processes: &mut ProcessManager,
    ) -> (outcome: Outcome)
        ensures
            ({
                let (w, out) = uninstalled(
                    world(old(self)@, old(db)@.settings, old(processes)@),
                    msg.0@,
                    true,
                    removed,
                );
                &&& final(self)@ == w.manager
                &&& final(db)@ == (DbView { settings: w.settings, ..old(db)@ })
                &&& final(processes)@ == w.processes
                &&& outcome@ == out
            }),
    {
        self.uninstall(&msg.0, true, removed, db, processes)
    }

    /// The checksum gate, given the package's digest: a package whose
    /// digest is not the expected checksum is refused.
    pub fn check_package(msg: InstallAddonFromUrl, digest: &String) -> (package: Result<Package, Error>)
        ensures
            match package {
                Ok(p) => digest@ == lowered(msg.2@) && p.id == msg.0 && p.enable == msg.3
                    && p.archive@ == archive_name(msg.0@),
                Err(e) => e == Error::ChecksumMismatch && digest@ != lowered(msg.2@),
            },
    {
        let InstallAddonFromUrl(id, _url, checksum, enable) = msg;
        if !checksum_matches(digest, checksum.as_str()) {
            return Err(Error::ChecksumMismatch);
        }
        let mut archive = id.clone();
        archive.append(".tar.gz");
        Ok(Package { id, archive, enable })
    }

    /// Takes a package that was fetched for an installation request and
    /// lets it through the checksum gate. The manager, the settings and the
    /// supervisor are not touched; a package that is refused yields nothing
    /// to unpack.
    pub fn install_addon_from_url(&self, msg: InstallAddonFromUrl, package: &Vec<u8>) -> (package_ok:
        Result<Package, Error>)
        ensures
            match package_ok {
                Ok(p) => sha256_hex(package@) == lowered(msg.2@) && p.id == msg.0 && p.enable
                    == msg.3 && p.archive@ == archive_name(msg.0@),
                Err(e) => e == Error::ChecksumMismatch && sha256_hex(package@) != lowered(msg.2@),
            },
    {
        let digest = sha256_digest(package.as_slice());
        AddonManager::check_package(msg, &digest)
    }

    /// Installs an unpacked package; see [`installed`]. `removed` is what
    /// removing the directory of the installed version gave, `moved` what
    /// moving the package into its place gave, and `manifest` what reading
    /// the manifest there gave.
    pub fn install_addon(
        &mut self,
        package_id: String,
        removed: Result<(), Error>,
        moved: Result<(), Error>,
        enable: bool,
        manifest: Result<Manifest, Error>,
        handle: u64,
        profile: &UserProfile,
        db: &mut Db,
        processes: &mut ProcessManager,
    ) -> (outcome: Outcome)
        ensures
            ({
                let (w, out) = installed(
                    world(old(self)@, old(db)@.settings, old(processes)@),
                    package_id@,
                    profile.addons_dir@,
                    removed,
                    moved,
                    enable,
                    manifest,
                    handle,
                    profile.base_dir@,
                );
                &&& final(self)@ == w.manager
                &&& final(db)@ == (DbView { settings: w.settings, ..old(db)@ })
                &&& final(processes)@ == w.processes
                &&& outcome@ == out
            }),
    {
        let first = self.uninstall(&package_id, false, removed, db, processes);
        if first.result.is_err() {
            return first;
        }
        match moved {
            Err(e) => {
                return Outcome { cancel: first.cancel, launch: None, result: Err(e) };
            },
            Ok(_) => {},
        }
        if enable {
            let _ = db.set_setting(
                SetSetting(enabled_key_of(package_id.as_str()), "true".to_owned()),
            );
        }
        let path = profile.addon_dir(package_id.as_str());
        let outcome = self.load_addon(path, manifest, handle, profile, db, processes);
        Outcome { cancel: first.cancel, launch: outcome.launch, result: outcome.result }
    }

    /// Takes the notice that an add-on has registered: its session is
    /// booked, in place of any session that was booked for it.
    pub fn addon_started(&mut self, msg: AddonStarted)
        ensures
            final(self)@ == (ManagerView {
                running: old(self)@.running.insert(msg.0@, msg.1),
                ..old(self)@
            }),
    {
        let AddonStarted(id, session) = msg;
        self.running_addons.insert(id, session);
    }

    /// Takes the notice that an add-on's process has ended: its session
    /// leaves the books, if one was booked.
    pub fn addon_stopped(&mut self, msg: AddonStopped)
        ensures
            final(self)@ == (ManagerView {
                running: old(self)@.running.remove(msg.0@),
                ..old(self)@
            }),
    {
        self.running_addons.remove(&msg.0);
    }

    /// The devices of all running add-ons, by device id: the devices that
    /// the sessions of the running add-ons know, merged. Where two sessions
    /// know a device with the same id, one of the two is in the result.
    pub fn get_devices<'a>(&self, _msg: GetDevices, sessions: &'a AddonSocket) -> (devices: Table<
        &'a DeviceDescription,
    >)
        ensures
            forall|id: Seq<char>| #[trigger]
                devices@.contains_key(id) <==> catalog_knows(self@.running, sessions@, id),
            forall|id: Seq<char>| #[trigger]
                devices@.contains_key(id) ==> catalog_describes(
                    self@.running,
                    sessions@,
                    id,
                    devices@[id]@,
                ),
    {
        let mut out: Table<&'a DeviceDescription> = Table::new();
        let n = self.running_addons.len();
        proof {
            self.running_addons.lemma_rows();
        }
        let ghost rows = self.running_addons.rows();
        let ghost live = sessions@;
        let mut i: usize = 0;
        while i < n
            invariant
                i <= n,
                n == rows.len(),
                rows == self.running_addons.rows(),
                live == sessions@,
                forall|id: Seq<char>| #[trigger]
                    out@.contains_key(id) <==> live_among(rows, live, i as int, id),
                forall|id: Seq<char>| #[trigger]
                    out@.contains_key(id) ==> shown_among(rows, live, i as int, id, out@[id]@),
            decreases n - i,
        {
            let row = self.running_addons.row(i);
            let ghost before = out@;
            match sessions.session(row.value) {
                Some(instance) => {
                    instance.collect_devices(&mut out);
                },
                None => {},
            }
            proof {
                let number = rows[i as int].value;
                assert forall|id: Seq<char>| #[trigger]
                    out@.contains_key(id) <==> live_among(rows, live, i + 1, id) by {
                    if live_among(rows, live, i + 1, id) {
                        let r = choose|r: int|
                            0 <= r < i + 1 && r < rows.len() && live.contains_key(
                                (#[trigger] rows[r]).value,
                            ) && live[rows[r].value].knows_device(id);
                        if r < i {
                            assert(live_among(rows, live, i as int, id));
                        }
                    }
                    if live_among(rows, live, i as int, id) {
                        let r = choose|r: int|
                            0 <= r < i && r < rows.len() && live.contains_key(
                                (#[trigger] rows[r]).value,
                            ) && live[rows[r].value].knows_device(id);
                        assert(live.contains_key(rows[r].value));
                    }
                    if live.contains_key(number) && live[number].knows_device(id) {
                        assert(live.contains_key(rows[i as int].value));
                    }
                    assert(before.contains_key(id) <==> live_among(rows, live, i as int, id));
                }
                assert forall|id: Seq<char>| #[trigger] out@.contains_key(id) implies shown_among(
                    rows,
                    live,
                    i + 1,
                    id,
                    out@[id]@,
                ) by {
                    if live.contains_key(number) && live[number].describes(id, out@[id]@) {
                        assert(live.contains_key(rows[i as int].value));
                    } else {
                        assert(before.contains_key(id));
                        assert(out@[id] == before[id]);
                        let r = choose|r: int|
                            0 <= r < i && r < rows.len() && live.contains_key(
                                (#[trigger] rows[r]).value,
                            ) && live[rows[r].value].describes(id, before[id]@);
                        assert(live.contains_key(rows[r].value));
                    }
                }
            }
            i += 1;
        }
        proof {
            assert forall|id: Seq<char>| live_among(rows, live, n as int, id) implies catalog_knows(
                self@.running,
                live,
                id,
            ) by {
                let r = choose|r: int|
                    0 <= r < n && r < rows.len() && live.contains_key((#[trigger] rows[r]).value)
                        && live[rows[r].value].knows_device(id);
                assert(self.running_addons@.contains_key(rows[r].key@));
                assert(self@.running.contains_key(rows[r].key@));
            }
            assert forall|id: Seq<char>| catalog_knows(self@.running, live, id) implies live_among(
                rows,
                live,
                n as int,
                id,
            ) by {
                let k = choose|k: Seq<char>| #[trigger]
                    self@.running.contains_key(k) && live.contains_key(self@.running[k])
                        && live[self@.running[k]].knows_device(id);
                assert(self.running_addons@.contains_key(k));
                let r = choose|r: int| 0 <= r < rows.len() && (#[trigger] rows[r]).key@ == k;
                assert(self.running_addons@[rows[r].key@] == rows[r].value);
                assert(live.contains_key(rows[r].value));
            }
            assert forall|id: Seq<char>, d: DescriptionView|
                shown_among(rows, live, n as int, id, d) implies catalog_describes(
                self@.running,
                live,
                id,
                d,
            ) by {
                let r = choose|r: int|
                    0 <= r < n && r < rows.len() && live.contains_key((#[trigger] rows[r]).value)
                        && live[rows[r].value].describes(id, d);
                assert(self.running_addons@.contains_key(rows[r].key@));
                assert(self@.running.contains_key(rows[r].key@));
            }
        }
        out
    }

    /// All installed add-ons by id.
    pub fn get_addons(&self, _msg: GetAddons) -> (addons: &Table<Addon>)
        ensures
            addon_views(addons@) == self@.installed,
    {
        &self.installed_addons
    }

    /// The installed add-on with this id.
    pub fn get_addon(&self, msg: GetAddon) -> (addon: Result<&Addon, Error>)
        ensures
            match addon {
                Ok(a) => self@.installed.contains_key(msg.0@) && a@ == self@.installed[msg.0@],
                Err(e) => e == Error::AddonNotInstalled && !self@.installed.contains_key(msg.0@),
            },
    {
        match self.installed_addons.get(&msg.0) {
            Some(addon) => Ok(addon),
            None => Err(Error::AddonNotInstalled),
        }
    }

    /// Whether an add-on with this id is installed.
    pub fn has_addon(&self, msg: HasAddon) -> (installed: bool)
        ensures
            installed == self@.installed.contains_key(msg.0@),
    {
        self.installed_addons.contains_key(&msg.0)
    }

    /// The running add-ons by id, each with the number of its session.
    pub fn running(&self) -> (running: &Table<u64>)
        ensures
            running@ == self@.running,
    {
        &self.running_addons
    }
}

} // verus!
