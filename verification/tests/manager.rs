use webthings_gateway::addon::{Addon, Manifest};
use webthings_gateway::addon_instance::{GatewayContext, Message, Msg};
use webthings_gateway::addon_manager::{
    checksum_matches, config_key_of, enabled_key_of, AddonEntry, AddonManager, AddonStarted,
    AddonStopped, DisableAddon, EnableAddon, GetAddon, GetAddons, GetDevices, HasAddon,
    InstallAddonFromUrl, LoadAddons, Outcome, RestartAddon, UninstallAddon,
};
use webthings_gateway::addon_socket::AddonSocket;
use webthings_gateway::db::{Db, GetSetting, SetSetting};
use webthings_gateway::device::{DeviceDescription, DeviceDetails};
use webthings_gateway::error::{Error, ErrorKind};
use webthings_gateway::json::JsonValue;
use webthings_gateway::process_manager::{Launch, ProcessManager, StopAddon};
use webthings_gateway::user_config::UserProfile;

struct Gateway {
    manager: AddonManager,
    db: Db,
    processes: ProcessManager,
    profile: UserProfile,
}

fn gateway() -> Gateway {
    Gateway {
        manager: AddonManager::new(),
        db: Db::new(),
        processes: ProcessManager::new(),
        profile: UserProfile::new("/base"),
    }
}

fn manifest(id: &str) -> Manifest {
    Manifest {
        id: id.to_owned(),
        command: "./bin".to_owned(),
        document: JsonValue::parse("{}").unwrap(),
    }
}

fn setting(db: &Db, key: &str) -> Option<String> {
    db.get_setting(GetSetting(key.to_owned())).ok().cloned()
}

fn load(gw: &mut Gateway, id: &str, handle: u64) -> Outcome {
    gw.manager.load_addon(
        format!("/base/addons/{}", id),
        Ok(manifest(id)),
        handle,
        &gw.profile,
        &mut gw.db,
        &mut gw.processes,
    )
}

fn device(id: &str) -> DeviceDescription {
    DeviceDescription {
        id: id.to_owned(),
        details: DeviceDetails {
            at_context: None,
            at_type: None,
            actions: None,
            base_href: None,
            credentials_required: None,
            description: None,
            events: None,
            links: None,
            pin: None,
            title: None,
        },
        properties: None,
    }
}

#[test]
fn setting_keys_name_the_addon() {
    assert_eq!(enabled_key_of("mock"), "addons.mock.enabled");
    assert_eq!(config_key_of("mock"), "addons.mock.config");
}

#[test]
fn addon_starts_disabled() {
    let addon = Addon::new(manifest("mock"), "/p".to_owned());
    assert!(!addon.enabled);
    assert_eq!(addon.id(), "mock");
    assert_eq!(addon.command(), "./bin");
}

#[test]
fn load_initialises_settings_and_stays_silent_when_disabled() {
    let mut gw = gateway();
    let outcome = load(&mut gw, "mock", 1);
    assert_eq!(outcome, Outcome { cancel: None, launch: None, result: Ok(()) });
    assert_eq!(setting(&gw.db, "addons.mock.enabled"), Some("false".to_owned()));
    assert_eq!(setting(&gw.db, "addons.mock.config"), Some("{}".to_owned()));
    assert!(gw.manager.has_addon(HasAddon("mock".to_owned())));
    assert!(!gw.processes.is_running(&"mock".to_owned()));
}

#[test]
fn load_keeps_settings_that_exist_and_starts_enabled_addons() {
    let mut gw = gateway();
    gw.db.set_setting(SetSetting("addons.mock.enabled".to_owned(), "true".to_owned())).unwrap();
    gw.db
        .set_setting(SetSetting("addons.mock.config".to_owned(), "{\"a\":1}".to_owned()))
        .unwrap();
    let outcome = load(&mut gw, "mock", 9);
    assert_eq!(
        outcome.launch,
        Some(Launch {
            id: "mock".to_owned(),
            handle: 9,
            program: "./bin".to_owned(),
            args: vec![],
            home: "/base".to_owned(),
        })
    );
    assert_eq!(outcome.result, Ok(()));
    assert_eq!(setting(&gw.db, "addons.mock.config"), Some("{\"a\":1}".to_owned()));
    assert!(gw.manager.get_addon(GetAddon("mock".to_owned())).unwrap().enabled);
    assert_eq!(gw.processes.stop_addon(StopAddon("mock".to_owned())), Ok(9));
}

#[test]
fn load_fails_on_an_unreadable_manifest_and_changes_nothing() {
    let mut gw = gateway();
    let outcome = gw.manager.load_addon(
        "/base/addons/bad".to_owned(),
        Err(Error::ManifestUnreadable),
        1,
        &gw.profile,
        &mut gw.db,
        &mut gw.processes,
    );
    assert_eq!(outcome.result, Err(Error::ManifestUnreadable));
    assert_eq!(Error::ManifestUnreadable.kind(), ErrorKind::IntegrityFailure);
    assert_eq!(gw.manager.get_addons(GetAddons).len(), 0);
    assert_eq!(gw.db.settings().len(), 0);
}

#[test]
fn load_fails_on_a_flag_that_is_none() {
    let mut gw = gateway();
    gw.db.set_setting(SetSetting("addons.mock.enabled".to_owned(), "yes".to_owned())).unwrap();
    let outcome = load(&mut gw, "mock", 1);
    assert_eq!(outcome.result, Err(Error::Storage));
    assert!(!gw.manager.has_addon(HasAddon("mock".to_owned())));
}

#[test]
fn load_all_goes_on_after_a_failure() {
    let mut gw = gateway();
    gw.db.set_setting(SetSetting("addons.b.enabled".to_owned(), "true".to_owned())).unwrap();
    let entries = vec![
        AddonEntry { path: "/base/addons/a".to_owned(), manifest: Ok(manifest("a")), handle: 1 },
        AddonEntry {
            path: "/base/addons/bad".to_owned(),
            manifest: Err(Error::ManifestUnreadable),
            handle: 2,
        },
        AddonEntry { path: "/base/addons/b".to_owned(), manifest: Ok(manifest("b")), handle: 3 },
    ];
    let loaded = gw.manager.load_addons(
        LoadAddons("/base/addons".to_owned()),
        entries,
        &gw.profile,
        &mut gw.db,
        &mut gw.processes,
    );
    assert_eq!(loaded.result, Err(Error::SomeAddonsFailed));
    assert_eq!(loaded.launches.len(), 1);
    assert!(gw.manager.has_addon(HasAddon("a".to_owned())));
    assert!(gw.manager.has_addon(HasAddon("b".to_owned())));
    assert!(gw.processes.is_running(&"b".to_owned()));
    assert!(!gw.processes.is_running(&"a".to_owned()));
}

#[test]
fn load_all_of_an_empty_directory_succeeds() {
    let mut gw = gateway();
    let loaded = gw.manager.load_addons(
        LoadAddons("/base/addons".to_owned()),
        vec![],
        &gw.profile,
        &mut gw.db,
        &mut gw.processes,
    );
    assert_eq!(loaded.result, Ok(()));
    assert!(loaded.launches.is_empty());
    let sockets = AddonSocket::new();
    assert_eq!(gw.manager.get_devices(GetDevices, &sockets).len(), 0);
}

#[test]
fn enable_sets_the_flag_and_starts_the_addon() {
    let mut gw = gateway();
    load(&mut gw, "mock", 1);
    let outcome = gw.manager.enable_addon(
        EnableAddon("mock".to_owned()),
        Ok(manifest("mock")),
        2,
        &gw.profile,
        &mut gw.db,
        &mut gw.processes,
    );
    assert_eq!(outcome.result, Ok(()));
    assert!(outcome.launch.is_some());
    assert_eq!(setting(&gw.db, "addons.mock.enabled"), Some("true".to_owned()));
    assert_eq!(gw.db.get_flag(&"addons.mock.enabled".to_owned()), Ok(true));
    assert!(gw.processes.is_running(&"mock".to_owned()));
    assert!(gw.manager.get_addon(GetAddon("mock".to_owned())).unwrap().enabled);
}

#[test]
fn enable_refuses_unknown_and_enabled_addons() {
    let mut gw = gateway();
    let unknown = gw.manager.enable_addon(
        EnableAddon("mock".to_owned()),
        Ok(manifest("mock")),
        1,
        &gw.profile,
        &mut gw.db,
        &mut gw.processes,
    );
    assert_eq!(unknown.result, Err(Error::AddonNotInstalled));
    load(&mut gw, "mock", 1);
    gw.manager.enable_addon(
        EnableAddon("mock".to_owned()),
        Ok(manifest("mock")),
        2,
        &gw.profile,
        &mut gw.db,
        &mut gw.processes,
    );
    let again = gw.manager.enable_addon(
        EnableAddon("mock".to_owned()),
        Ok(manifest("mock")),
        3,
        &gw.profile,
        &mut gw.db,
        &mut gw.processes,
    );
    assert_eq!(again.result, Err(Error::AlreadyEnabled));
    assert_eq!(Error::AlreadyEnabled.kind(), ErrorKind::AlreadyInState);
}

#[test]
fn disable_clears_the_flag_and_stops_the_addon_and_restart_does_not_respawn() {
    let mut gw = gateway();
    gw.db.set_setting(SetSetting("addons.mock.enabled".to_owned(), "true".to_owned())).unwrap();
    load(&mut gw, "mock", 5);
    let outcome =
        gw.manager.disable_addon(DisableAddon("mock".to_owned()), &mut gw.db, &mut gw.processes);
    assert_eq!(outcome, Outcome { cancel: Some(5), launch: None, result: Ok(()) });
    assert_eq!(setting(&gw.db, "addons.mock.enabled"), Some("false".to_owned()));
    assert!(!gw.processes.is_running(&"mock".to_owned()));
    let restart = gw.manager.restart_addon(
        RestartAddon("mock".to_owned()),
        Ok(manifest("mock")),
        6,
        &gw.profile,
        &mut gw.db,
        &mut gw.processes,
    );
    assert!(restart.launch.is_none());
    assert_eq!(restart.result, Err(Error::NotRunning));
    assert!(!gw.processes.is_running(&"mock".to_owned()));
    let again =
        gw.manager.disable_addon(DisableAddon("mock".to_owned()), &mut gw.db, &mut gw.processes);
    assert_eq!(again.result, Err(Error::AlreadyDisabled));
}

#[test]
fn restart_stops_and_loads_an_enabled_addon_again() {
    let mut gw = gateway();
    gw.db.set_setting(SetSetting("addons.mock.enabled".to_owned(), "true".to_owned())).unwrap();
    load(&mut gw, "mock", 5);
    let outcome = gw.manager.restart_addon(
        RestartAddon("mock".to_owned()),
        Ok(manifest("mock")),
        6,
        &gw.profile,
        &mut gw.db,
        &mut gw.processes,
    );
    assert_eq!(outcome.cancel, Some(5));
    assert!(outcome.launch.is_some());
    assert_eq!(outcome.result, Ok(()));
    assert_eq!(
        gw.manager.get_addon(GetAddon("mock".to_owned())).unwrap().path,
        "/base/addons/mock"
    );
    assert_eq!(gw.processes.stop_addon(StopAddon("mock".to_owned())), Ok(6));
}

#[test]
fn restart_of_a_running_but_disabled_addon_only_stops_it() {
    let mut gw = gateway();
    gw.db.set_setting(SetSetting("addons.mock.enabled".to_owned(), "true".to_owned())).unwrap();
    load(&mut gw, "mock", 5);
    gw.db.set_setting(SetSetting("addons.mock.enabled".to_owned(), "false".to_owned())).unwrap();
    load(&mut gw, "mock", 6);
    let outcome = gw.manager.restart_addon(
        RestartAddon("mock".to_owned()),
        Ok(manifest("mock")),
        7,
        &gw.profile,
        &mut gw.db,
        &mut gw.processes,
    );
    assert_eq!(outcome, Outcome { cancel: Some(5), launch: None, result: Ok(()) });
}

#[test]
fn uninstall_stops_clears_and_forgets() {
    let mut gw = gateway();
    gw.db.set_setting(SetSetting("addons.mock.enabled".to_owned(), "true".to_owned())).unwrap();
    load(&mut gw, "mock", 5);
    let outcome = gw.manager.uninstall_addon(
        UninstallAddon("mock".to_owned()),
        Ok(()),
        &mut gw.db,
        &mut gw.processes,
    );
    assert_eq!(outcome, Outcome { cancel: Some(5), launch: None, result: Ok(()) });
    assert!(!gw.manager.has_addon(HasAddon("mock".to_owned())));
    assert_eq!(setting(&gw.db, "addons.mock.enabled"), Some("false".to_owned()));
    assert_eq!(
        gw.manager.get_addon(GetAddon("mock".to_owned())).err(),
        Some(Error::AddonNotInstalled)
    );
}

#[test]
fn uninstall_stops_but_keeps_the_record_when_the_directory_stays() {
    let mut gw = gateway();
    gw.db.set_setting(SetSetting("addons.mock.enabled".to_owned(), "true".to_owned())).unwrap();
    load(&mut gw, "mock", 5);
    let outcome = gw.manager.uninstall_addon(
        UninstallAddon("mock".to_owned()),
        Err(Error::Filesystem),
        &mut gw.db,
        &mut gw.processes,
    );
    assert_eq!(outcome, Outcome { cancel: Some(5), launch: None, result: Err(Error::Filesystem) });
    assert!(gw.manager.has_addon(HasAddon("mock".to_owned())));
    assert_eq!(setting(&gw.db, "addons.mock.enabled"), Some("true".to_owned()));
}

#[test]
fn checksum_is_compared_in_lower_case() {
    let digest = "2cf24dba5fb0a30e26e83b2ac5b9e29e1b161e5c1fa7425e73043362938b9824".to_owned();
    assert!(checksum_matches(
        &digest,
        "2CF24DBA5FB0A30E26E83B2AC5B9E29E1B161E5C1FA7425E73043362938B9824"
    ));
    assert!(!checksum_matches(&digest, "2cf24dba"));
}

#[test]
fn install_from_url_lets_matching_packages_through() {
    let gw = gateway();
    let request = InstallAddonFromUrl(
        "mock".to_owned(),
        "http://example.org/mock.tgz".to_owned(),
        "2CF24DBA5FB0A30E26E83B2AC5B9E29E1B161E5C1FA7425E73043362938B9824".to_owned(),
        true,
    );
    let package = gw.manager.install_addon_from_url(request, &b"hello".to_vec()).unwrap();
    assert_eq!(package.id, "mock");
    assert_eq!(package.archive, "mock.tar.gz");
    assert!(package.enable);
}

#[test]
fn install_from_url_stops_mismatching_packages_and_touches_nothing() {
    let mut gw = gateway();
    gw.db.set_setting(SetSetting("addons.mock.enabled".to_owned(), "true".to_owned())).unwrap();
    let request = InstallAddonFromUrl(
        "mock".to_owned(),
        "http://example.org/mock.tgz".to_owned(),
        "hello".to_owned(),
        true,
    );
    let refused = gw.manager.install_addon_from_url(request, &b"hello".to_vec());
    assert_eq!(refused, Err(Error::ChecksumMismatch));
    assert_eq!(Error::ChecksumMismatch.kind(), ErrorKind::IntegrityFailure);
    assert_eq!(setting(&gw.db, "addons.mock.enabled"), Some("true".to_owned()));
    assert!(!gw.manager.has_addon(HasAddon("mock".to_owned())));
}

#[test]
fn install_replaces_the_old_version_and_keeps_a_disabled_flag() {
    let mut gw = gateway();
    load(&mut gw, "mock", 1);
    let outcome = gw.manager.install_addon(
        "mock".to_owned(),
        Ok(()),
        Ok(()),
        false,
        Ok(manifest("mock")),
        2,
        &gw.profile,
        &mut gw.db,
        &mut gw.processes,
    );
    assert_eq!(outcome, Outcome { cancel: None, launch: None, result: Ok(()) });
    assert_eq!(setting(&gw.db, "addons.mock.enabled"), Some("false".to_owned()));
    assert!(gw.manager.has_addon(HasAddon("mock".to_owned())));
}

#[test]
fn install_with_enable_starts_the_new_version() {
    let mut gw = gateway();
    gw.db.set_setting(SetSetting("addons.mock.enabled".to_owned(), "true".to_owned())).unwrap();
    load(&mut gw, "mock", 1);
    let outcome = gw.manager.install_addon(
        "mock".to_owned(),
        Ok(()),
        Ok(()),
        true,
        Ok(manifest("mock")),
        2,
        &gw.profile,
        &mut gw.db,
        &mut gw.processes,
    );
    assert_eq!(outcome.cancel, Some(1));
    assert!(outcome.launch.is_some());
    assert_eq!(outcome.result, Ok(()));
    assert_eq!(gw.processes.stop_addon(StopAddon("mock".to_owned())), Ok(2));
}

#[test]
fn install_stops_where_the_package_cannot_be_moved() {
    let mut gw = gateway();
    load(&mut gw, "mock", 1);
    let outcome = gw.manager.install_addon(
        "mock".to_owned(),
        Ok(()),
        Err(Error::Filesystem),
        true,
        Ok(manifest("mock")),
        2,
        &gw.profile,
        &mut gw.db,
        &mut gw.processes,
    );
    assert_eq!(outcome.result, Err(Error::Filesystem));
    assert!(!gw.manager.has_addon(HasAddon("mock".to_owned())));
    assert_eq!(setting(&gw.db, "addons.mock.enabled"), Some("false".to_owned()));
}

#[test]
fn later_session_replaces_the_earlier_one() {
    let mut gw = gateway();
    gw.manager.addon_started(AddonStarted("mock".to_owned(), 1));
    gw.manager.addon_started(AddonStarted("mock".to_owned(), 2));
    assert_eq!(gw.manager.running().get(&"mock".to_owned()), Some(&2));
    assert_eq!(gw.manager.running().len(), 1);
    gw.manager.addon_stopped(AddonStopped("mock".to_owned()));
    assert_eq!(gw.manager.running().len(), 0);
    gw.manager.addon_stopped(AddonStopped("mock".to_owned()));
    assert_eq!(gw.manager.running().len(), 0);
}

#[test]
fn devices_come_from_the_sessions_of_running_addons() {
    let context = GatewayContext::new("1.0.0", "/base");
    let mut gw = gateway();
    let mut sockets = AddonSocket::new();
    for (session, id, device_id) in [(1, "one", "d1"), (2, "two", "d2"), (3, "three", "d3")] {
        sockets.connected(session);
        sockets
            .message(
                session,
                &context,
                Msg(Message::PluginRegisterRequest { plugin_id: id.to_owned() }),
            )
            .unwrap();
        sockets
            .message(
                session,
                &context,
                Msg(Message::AdapterAddedNotification { adapter_id: "a".to_owned() }),
            )
            .unwrap();
        sockets
            .message(
                session,
                &context,
                Msg(Message::DeviceAddedNotification {
                    adapter_id: "a".to_owned(),
                    device: device(device_id),
                }),
            )
            .unwrap();
    }
    gw.manager.addon_started(AddonStarted("one".to_owned(), 1));
    gw.manager.addon_started(AddonStarted("two".to_owned(), 2));
    sockets.closed(2);
    let devices = gw.manager.get_devices(GetDevices, &sockets);
    assert_eq!(devices.len(), 1);
    assert_eq!(devices.get(&"d1".to_owned()).unwrap().id, "d1");
    assert!(sockets.session(3).is_some());
    assert!(sockets.session(2).is_none());
    assert_eq!(
        sockets.message(2, &context, Msg(Message::Other)).err(),
        Some(Error::SessionNotFound)
    );
}
