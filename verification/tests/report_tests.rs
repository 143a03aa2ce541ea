use dante_control::events::MdnsEvent;
use dante_control::events::ResolvedService;
use dante_control::events::TxtValues;
use dante_control::manager::DanteDeviceManager;
use dante_control::printer::print_cmc;
use dante_control::printer::print_dbc;
use dante_control::report::ip_to_string;
use dante_control::report::sorted_channels;
use dante_control::report::u64_to_dec;
use dante_control::registry::CHANInfo;

fn no_txt() -> TxtValues {
    TxtValues {
        id: None,
        manufacturer: None,
        model: None,
        router_vers: None,
        router_info: None,
        rate: None,
        encoding: None,
        latency_ns: None,
    }
}

#[test]
fn numbers_render_in_decimal() {
    assert_eq!(u64_to_dec(0), "0");
    assert_eq!(u64_to_dec(7), "7");
    assert_eq!(u64_to_dec(4440), "4440");
    assert_eq!(u64_to_dec(65535), "65535");
    assert_eq!(u64_to_dec(u64::MAX), "18446744073709551615");
}

#[test]
fn addresses_render_dotted_quad() {
    assert_eq!(ip_to_string(0x0A000001), "10.0.0.1");
    assert_eq!(ip_to_string(0xFFFFFFFF), "255.255.255.255");
    assert_eq!(ip_to_string(0), "0.0.0.0");
    assert_eq!(ip_to_string(0xC0A80164), "192.168.1.100");
}

fn chan(name: &str, id: Option<u16>) -> CHANInfo {
    CHANInfo {
        name: name.to_string(),
        id,
        sample_rate: None,
        encoding: None,
        latency_ns: None,
    }
}

#[test]
fn channels_sort_by_id_with_unset_last() {
    let chans = vec![
        chan("c", None),
        chan("b", Some(7)),
        chan("a", Some(2)),
        chan("d", Some(100)),
    ];
    let sorted = sorted_channels(&chans);
    let names: Vec<&str> = sorted.iter().map(|c| c.name.as_str()).collect();
    assert_eq!(names, vec!["a", "b", "d", "c"]);
}

#[test]
fn description_of_bare_device() {
    let mut m = DanteDeviceManager::new();
    m.apply_dbc_event(&MdnsEvent::ServiceFound(
        "_netaudio-dbc._udp.local.".to_string(),
        "studio-a._netaudio-dbc._udp.local.".to_string(),
    ));
    let d = m.get_device_descriptions();
    assert_eq!(d.len(), 1);
    assert_eq!(
        d[0],
        "studio-a:\ndbc status: Connected\ncmc status: Disconnected\n\
         arc status: Disconnected\nchan status: Disconnected\nid: N/A\n\
         manufacturer: N/A\nmodel: N/A\nrouter_vers: N/A\nrouter_info: N/A\n\
         ARC port: N/A\nIP: N/A\nChannels:"
    );
}

#[test]
fn description_of_resolved_device() {
    let mut m = DanteDeviceManager::new();
    m.apply_arc_event(&MdnsEvent::ServiceFound(
        "_netaudio-arc._udp.local.".to_string(),
        "studio-a._netaudio-arc._udp.local.".to_string(),
    ));
    m.apply_arc_event(&MdnsEvent::ServiceResolved(ResolvedService {
        fullname: "studio-a._netaudio-arc._udp.local.".to_string(),
        addresses: vec![0x0A000001, 0x0A000002],
        port: 4440,
        txt: TxtValues {
            router_vers: Some("1.2".to_string()),
            router_info: Some("router".to_string()),
            ..no_txt()
        },
    }));
    for (chan_name, id) in [("mic2", "5"), ("mic1", "3")] {
        m.apply_chan_event(&MdnsEvent::ServiceFound(
            "_netaudio-chan._udp.local.".to_string(),
            format!("{}@studio-a._netaudio-chan._udp.local.", chan_name),
        ));
        m.apply_chan_event(&MdnsEvent::ServiceResolved(ResolvedService {
            fullname: format!("{}@studio-a._netaudio-chan._udp.local.", chan_name),
            addresses: vec![],
            port: 0,
            txt: TxtValues {
                id: Some(id.to_string()),
                ..no_txt()
            },
        }));
    }
    let d = m.get_device_descriptions();
    assert_eq!(d.len(), 1);
    assert_eq!(
        d[0],
        "studio-a:\ndbc status: Disconnected\ncmc status: Disconnected\n\
         arc status: Connected\nchan status: Connected\nid: N/A\n\
         manufacturer: N/A\nmodel: N/A\nrouter_vers: 1.2\nrouter_info: router\n\
         ARC port: 4440\nIP: {10.0.0.1, 10.0.0.2}\nChannels:\n\"mic1\"\n\"mic2\""
    );
}

#[test]
fn raw_event_lines_mirror_events() {
    let events = vec![
        MdnsEvent::SearchStarted("_netaudio-cmc._udp.local.".to_string()),
        MdnsEvent::ServiceFound(
            "_netaudio-cmc._udp.local.".to_string(),
            "studio-a._netaudio-cmc._udp.local.".to_string(),
        ),
        MdnsEvent::ServiceRemoved(
            "_netaudio-cmc._udp.local.".to_string(),
            "studio-a._netaudio-cmc._udp.local.".to_string(),
        ),
        MdnsEvent::SearchStopped("_netaudio-cmc._udp.local.".to_string()),
    ];
    let lines = print_cmc(&events);
    assert_eq!(
        lines,
        vec![
            "Search Started: _netaudio-cmc._udp.local.".to_string(),
            "Search Found: _netaudio-cmc._udp.local., studio-a._netaudio-cmc._udp.local."
                .to_string(),
            "Service Removed: _netaudio-cmc._udp.local., studio-a._netaudio-cmc._udp.local."
                .to_string(),
            "Search Stopped: _netaudio-cmc._udp.local.".to_string(),
        ]
    );
}

#[test]
fn resolved_event_line_names_the_instance() {
    let events = vec![MdnsEvent::ServiceResolved(ResolvedService {
        fullname: "studio-a._netaudio-dbc._udp.local.".to_string(),
        addresses: vec![0x0A000001],
        port: 14336,
        txt: no_txt(),
    })];
    let lines = print_dbc(&events);
    assert_eq!(
        lines,
        vec!["Service Resolved: studio-a._netaudio-dbc._udp.local.".to_string()]
    );
}
