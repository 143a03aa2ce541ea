use dante_control::events::EventOutcome;
use dante_control::events::MdnsEvent;
use dante_control::events::ResolvedService;
use dante_control::events::TxtValues;
use dante_control::manager::DanteDeviceManager;
use dante_control::registry::DanteDeviceEncoding;
use dante_control::registry::DanteDeviceList;

fn no_txt() -> TxtValues {
    TxtValues {
        id: None,
        manufacturer: None,
        model: None,
        router_vers: None,
        router_info: None,
        rate: None,
        encoding: None,
        latency_ns: None,
    }
}

fn found(service: &str, fullname: &str) -> MdnsEvent {
    MdnsEvent::ServiceFound(service.to_string(), fullname.to_string())
}

fn removed(service: &str, fullname: &str) -> MdnsEvent {
    MdnsEvent::ServiceRemoved(service.to_string(), fullname.to_string())
}

#[test]
fn found_on_two_categories_makes_one_device() {
    // ServiceFound on DBC then CMC for the same instance: one device,
    // both bits set.
    let mut m = DanteDeviceManager::new();
    m.apply_dbc_event(&found(
        "_netaudio-dbc._udp.local.",
        "studio-a._netaudio-dbc._udp.local.",
    ));
    m.apply_cmc_event(&found(
        "_netaudio-cmc._udp.local.",
        "studio-a._netaudio-cmc._udp.local.",
    ));
    let names = m.get_device_names();
    assert_eq!(names, vec!["studio-a".to_string()]);
    let st = *m.device_list.devices.get("studio-a").unwrap();
    assert!(st.connected_dbc);
    assert!(st.connected_cmc);
    assert!(!st.connected_arc);
    assert!(!st.connected_chan);
}

#[test]
fn removal_of_both_categories_drops_device() {
    let mut m = DanteDeviceManager::new();
    m.apply_dbc_event(&found(
        "_netaudio-dbc._udp.local.",
        "studio-a._netaudio-dbc._udp.local.",
    ));
    m.apply_cmc_event(&found(
        "_netaudio-cmc._udp.local.",
        "studio-a._netaudio-cmc._udp.local.",
    ));
    m.apply_dbc_event(&removed(
        "_netaudio-dbc._udp.local.",
        "studio-a._netaudio-dbc._udp.local.",
    ));
    assert_eq!(m.get_device_names(), vec!["studio-a".to_string()]);
    m.apply_cmc_event(&removed(
        "_netaudio-cmc._udp.local.",
        "studio-a._netaudio-cmc._udp.local.",
    ));
    assert!(m.get_device_names().is_empty());
    assert!(!m.device_list.device_connected("studio-a"));
}

#[test]
fn resolved_channel_fills_channel_record() {
    // A resolved channel service parses its TXT properties into the
    // channel record: id 3, 48 kHz, PCM24, 1 ms latency.
    let mut m = DanteDeviceManager::new();
    m.apply_chan_event(&found(
        "_netaudio-chan._udp.local.",
        "mic1@studio-a._netaudio-chan._udp.local.",
    ));
    let rs = ResolvedService {
        fullname: "mic1@studio-a._netaudio-chan._udp.local.".to_string(),
        addresses: vec![],
        port: 0,
        txt: TxtValues {
            id: Some("3".to_string()),
            rate: Some("48000".to_string()),
            encoding: Some("24".to_string()),
            latency_ns: Some("1000000".to_string()),
            ..no_txt()
        },
    };
    m.apply_chan_event(&MdnsEvent::ServiceResolved(rs));
    let cache = m.device_list.caches.get("studio-a").unwrap();
    assert_eq!(cache.chan_info.len(), 1);
    let c = &cache.chan_info[0];
    assert_eq!(c.name, "mic1");
    assert_eq!(c.id, Some(3));
    assert_eq!(c.sample_rate, Some(48000));
    assert!(matches!(c.encoding, Some(DanteDeviceEncoding::PCM24)));
    assert_eq!(c.latency_ns, Some(1_000_000));
}

#[test]
fn resolved_channel_with_same_id_replaces_record() {
    // A second resolution with the same id supersedes the first: one
    // record remains and it carries the new name.
    let mut m = DanteDeviceManager::new();
    m.apply_chan_event(&found(
        "_netaudio-chan._udp.local.",
        "mic1@studio-a._netaudio-chan._udp.local.",
    ));
    for name in ["mic1", "micA"] {
        let rs = ResolvedService {
            fullname: format!("{}@studio-a._netaudio-chan._udp.local.", name),
            addresses: vec![],
            port: 0,
            txt: TxtValues {
                id: Some("3".to_string()),
                rate: Some("48000".to_string()),
                encoding: Some("24".to_string()),
                latency_ns: Some("1000000".to_string()),
                ..no_txt()
            },
        };
        m.apply_chan_event(&MdnsEvent::ServiceResolved(rs));
    }
    let cache = m.device_list.caches.get("studio-a").unwrap();
    assert_eq!(cache.chan_info.len(), 1);
    assert_eq!(cache.chan_info[0].name, "micA");
    assert_eq!(
        m.device_list.get_channel_name_from_id("studio-a", 3),
        Some("micA".to_string())
    );
    assert!(m.device_list.channel_id_exist("studio-a", 3));
    assert!(!m.device_list.channel_id_exist("studio-a", 4));
}

#[test]
fn malformed_channel_name_is_skipped() {
    let mut m = DanteDeviceManager::new();
    let outcome = m.apply_chan_event(&found(
        "_netaudio-chan._udp.local.",
        "no-at-sign._netaudio-chan._udp.local.",
    ));
    assert_eq!(outcome, EventOutcome::MalformedName);
    assert!(m.get_device_names().is_empty());
}

#[test]
fn removal_of_unknown_device_is_skipped() {
    let mut m = DanteDeviceManager::new();
    let outcome = m.apply_dbc_event(&removed(
        "_netaudio-dbc._udp.local.",
        "ghost._netaudio-dbc._udp.local.",
    ));
    assert_eq!(outcome, EventOutcome::DeviceMissing);
}

#[test]
fn resolved_without_cache_is_skipped() {
    let mut m = DanteDeviceManager::new();
    let rs = ResolvedService {
        fullname: "ghost._netaudio-dbc._udp.local.".to_string(),
        addresses: vec![0x0A000001],
        port: 14336,
        txt: no_txt(),
    };
    let outcome = m.apply_dbc_event(&MdnsEvent::ServiceResolved(rs));
    assert_eq!(outcome, EventOutcome::CacheMissing);
}

#[test]
fn resolved_cmc_defaults_missing_txt_to_na() {
    let mut m = DanteDeviceManager::new();
    m.apply_cmc_event(&found(
        "_netaudio-cmc._udp.local.",
        "studio-a._netaudio-cmc._udp.local.",
    ));
    let rs = ResolvedService {
        fullname: "studio-a._netaudio-cmc._udp.local.".to_string(),
        addresses: vec![0x0A000001],
        port: 8700,
        txt: TxtValues {
            manufacturer: Some("Acme".to_string()),
            ..no_txt()
        },
    };
    m.apply_cmc_event(&MdnsEvent::ServiceResolved(rs));
    let cache = m.device_list.caches.get("studio-a").unwrap();
    let cmc = cache.cmc_info.as_ref().unwrap();
    assert_eq!(cmc.id, "N/A");
    assert_eq!(cmc.manufacturer, "Acme");
    assert_eq!(cmc.model, "N/A");
    assert_eq!(cmc.port, 8700);
    assert_eq!(cmc.addresses, vec![0x0A000001]);
}

#[test]
fn malformed_channel_txt_leaves_fields_unset() {
    let mut m = DanteDeviceManager::new();
    m.apply_chan_event(&found(
        "_netaudio-chan._udp.local.",
        "mic1@studio-a._netaudio-chan._udp.local.",
    ));
    let rs = ResolvedService {
        fullname: "mic1@studio-a._netaudio-chan._udp.local.".to_string(),
        addresses: vec![],
        port: 0,
        txt: TxtValues {
            id: Some("not-a-number".to_string()),
            rate: Some("".to_string()),
            encoding: Some("20".to_string()),
            latency_ns: Some("70000".to_string()),
            ..no_txt()
        },
    };
    m.apply_chan_event(&MdnsEvent::ServiceResolved(rs));
    let cache = m.device_list.caches.get("studio-a").unwrap();
    let c = &cache.chan_info[0];
    assert_eq!(c.id, None);
    assert_eq!(c.sample_rate, None);
    assert!(c.encoding.is_none());
    assert_eq!(c.latency_ns, Some(70000));
}

#[test]
fn device_ips_unions_the_three_slots() {
    let mut m = DanteDeviceManager::new();
    m.apply_dbc_event(&found(
        "_netaudio-dbc._udp.local.",
        "studio-a._netaudio-dbc._udp.local.",
    ));
    m.apply_dbc_event(&MdnsEvent::ServiceResolved(ResolvedService {
        fullname: "studio-a._netaudio-dbc._udp.local.".to_string(),
        addresses: vec![0x0A000001, 0x0A000002],
        port: 14336,
        txt: no_txt(),
    }));
    m.apply_arc_event(&found(
        "_netaudio-arc._udp.local.",
        "studio-a._netaudio-arc._udp.local.",
    ));
    m.apply_arc_event(&MdnsEvent::ServiceResolved(ResolvedService {
        fullname: "studio-a._netaudio-arc._udp.local.".to_string(),
        addresses: vec![0x0A000002, 0x0A000003],
        port: 4440,
        txt: no_txt(),
    }));
    let mut ips = m.device_list.get_device_ips("studio-a").unwrap();
    ips.sort();
    assert_eq!(ips, vec![0x0A000001, 0x0A000002, 0x0A000003]);
    assert!(m.device_list.get_device_ips("nobody").is_none());
}

#[test]
fn try_add_device_is_idempotent() {
    let mut l = DanteDeviceList::new();
    l.try_add_device("studio-a");
    let names_once: Vec<String> = l.names.clone();
    l.try_add_device("studio-a");
    assert_eq!(l.names, names_once);
    assert!(l.devices.get("studio-a").is_some());
    assert!(l.caches.get("studio-a").is_some());
}

#[test]
fn connect_then_disconnect_restores_absence() {
    let mut l = DanteDeviceList::new();
    l.connect_dbc("studio-a");
    assert!(l.device_connected("studio-a"));
    l.disconnect_dbc("studio-a");
    assert!(!l.device_connected("studio-a"));
    // The cache survives the presence entry.
    assert!(l.caches.get("studio-a").is_some());
}

#[test]
fn disconnect_keeps_device_while_other_bits_remain() {
    let mut l = DanteDeviceList::new();
    l.connect_dbc("studio-a");
    l.connect_arc("studio-a");
    l.disconnect_dbc("studio-a");
    assert!(l.device_connected("studio-a"));
    let st = *l.devices.get("studio-a").unwrap();
    assert!(!st.connected_dbc);
    assert!(st.connected_arc);
    l.disconnect_arc("studio-a");
    assert!(!l.device_connected("studio-a"));
}

#[test]
fn add_device_rejects_present_device() {
    let mut l = DanteDeviceList::new();
    assert!(l.add_device("studio-a").is_ok());
    assert!(l.add_device("studio-a").is_err());
}

#[test]
fn check_remove_rejects_unknown_device() {
    let mut l = DanteDeviceList::new();
    assert!(l.check_remove("nobody").is_err());
    l.connect_dbc("studio-a");
    assert!(l.check_remove("studio-a").is_ok());
    assert!(l.device_connected("studio-a"));
}

#[test]
fn discovery_run_flag() {
    let mut m = DanteDeviceManager::new();
    assert!(!m.is_running());
    m.start_discovery();
    assert!(m.is_running());
    m.stop_discovery();
    assert!(!m.is_running());
}

#[test]
fn search_events_leave_registry_unchanged() {
    let mut m = DanteDeviceManager::new();
    let started = m.apply_arc_event(&MdnsEvent::SearchStarted(
        "_netaudio-arc._udp.local.".to_string(),
    ));
    let stopped = m.apply_arc_event(&MdnsEvent::SearchStopped(
        "_netaudio-arc._udp.local.".to_string(),
    ));
    assert_eq!(started, EventOutcome::SearchNoted);
    assert_eq!(stopped, EventOutcome::SearchStopped);
    assert!(m.get_device_names().is_empty());
}

#[test]
fn devices_list_in_discovery_order() {
    let mut m = DanteDeviceManager::new();
    for name in ["alpha", "beta", "gamma"] {
        m.apply_dbc_event(&found(
            "_netaudio-dbc._udp.local.",
            &format!("{}._netaudio-dbc._udp.local.", name),
        ));
    }
    assert_eq!(
        m.get_device_names(),
        vec!["alpha".to_string(), "beta".to_string(), "gamma".to_string()]
    );
}

#[test]
fn subscription_error_messages() {
    assert_eq!(
        dante_control::MakeSubscriptionError::ConnectionFailed.message(),
        "error sending udp packet"
    );
    assert_eq!(
        dante_control::ClearSubscriptionError::ConnectionFailed.message(),
        "error sending udp packet"
    );
}

#[test]
fn update_chan_with_fresh_id_appends() {
    let mut l = DanteDeviceList::new();
    l.connect_chan("studio-a");
    for (name, id) in [("a", Some(1u16)), ("b", None), ("c", Some(2))] {
        l.update_chan(
            "studio-a",
            dante_control::registry::CHANInfo {
                name: name.to_string(),
                id,
                sample_rate: None,
                encoding: None,
                latency_ns: None,
            },
        );
    }
    let cache = l.caches.get("studio-a").unwrap();
    assert_eq!(cache.chan_info.len(), 3);
    // A record with an unset id is identified by that unset id: a second
    // unset-id record replaces it.
    l.update_chan(
        "studio-a",
        dante_control::registry::CHANInfo {
            name: "b2".to_string(),
            id: None,
            sample_rate: None,
            encoding: None,
            latency_ns: None,
        },
    );
    let cache = l.caches.get("studio-a").unwrap();
    assert_eq!(cache.chan_info.len(), 3);
    assert_eq!(cache.chan_info[1].name, "b2");
}

#[test]
fn present_device_has_a_bit_and_a_cache() {
    let mut l = DanteDeviceList::new();
    l.connect_cmc("studio-a");
    let st = *l.devices.get("studio-a").unwrap();
    assert!(st.connected_dbc || st.connected_cmc || st.connected_arc || st.connected_chan);
    assert!(l.caches.get("studio-a").is_some());
}
