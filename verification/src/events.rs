//! Discovery events and how the registry reacts to them.
//!
//! Each browser hands the registry a stream of events for its own service
//! category. A `ServiceFound` marks the device present, a
//! `ServiceResolved` fills the category's cache slot, a `ServiceRemoved`
//! clears the presence bit. Events that the connect/disconnect discipline
//! rules out — a resolution without a cache, a removal of an unknown
//! device, a channel name without `'@'` — are skipped and reported in the
//! outcome, never fatal.

use vstd::prelude::*;
use vstd::string::StringExecFns;
use crate::names::cutoff_address;
use crate::names::split_channel;
use crate::names::spec_cutoff;
use crate::names::has_at_sign;
use crate::names::chan_part;
use crate::names::rest_part;
use crate::parse::parse_u16;
use crate::parse::parse_u32;
use crate::parse::parse_u64;
use crate::parse::spec_parse_u16;
use crate::parse::spec_parse_u32;
use crate::parse::spec_parse_u64;
use crate::registry::ARCInfo;
use crate::registry::ArcModel;
use crate::registry::CHANInfo;
use crate::registry::CMCInfo;
use crate::registry::CacheModel;
use crate::registry::Category;
use crate::registry::ChanModel;
use crate::registry::CmcModel;
use crate::registry::DBCInfo;
use crate::registry::DanteDeviceEncoding;
use crate::registry::DanteDeviceList;
use crate::registry::DbcModel;
use crate::registry::clone_u32_vec;
use crate::registry::spec_replace_chan_model;

verus! {

/// The raw TXT property values a resolved service carried, one slot per
/// key the registry consumes. An absent property is `None`.
pub struct TxtValues {
    pub id: Option<String>,
    pub manufacturer: Option<String>,
    pub model: Option<String>,
    pub router_vers: Option<String>,
    pub router_info: Option<String>,
    pub rate: Option<String>,
    pub encoding: Option<String>,
    pub latency_ns: Option<String>,
}

/// A resolved service: the instance name, its IPv4 addresses, its port and
/// its TXT properties.
pub struct ResolvedService {
    pub fullname: String,
    pub addresses: Vec<u32>,
    pub port: u16,
    pub txt: TxtValues,
}

/// One event from a service browser.
pub enum MdnsEvent {
    SearchStarted(String),
    ServiceFound(String, String),
    ServiceResolved(ResolvedService),
    ServiceRemoved(String, String),
    SearchStopped(String),
}

/// What applying an event to the registry did.
#[derive(Clone, Copy, PartialEq, Eq, Structural, Debug)]
pub enum EventOutcome {
    /// A search started: nothing to record.
    SearchNoted,
    /// The device was marked present.
    Connected,
    /// The cache slot was filled.
    Updated,
    /// The presence bit was cleared.
    Disconnected,
    /// A resolution arrived for a device without a cache; skipped.
    CacheMissing,
    /// A removal arrived for a device that is not present; skipped.
    DeviceMissing,
    /// A channel event without `'@'` in its name; skipped.
    MalformedName,
    /// A search stopped while discovery runs: worth an error log.
    SearchStopped,
}

/// The service type the DBC browser subscribes to.
pub fn dbc_service_type() -> (r: &'static str)
    ensures
        r@ == "_netaudio-dbc._udp.local."@,
{
    "_netaudio-dbc._udp.local."
}

/// The service type the CMC browser subscribes to.
pub fn cmc_service_type() -> (r: &'static str)
    ensures
        r@ == "_netaudio-cmc._udp.local."@,
{
    "_netaudio-cmc._udp.local."
}

/// The service type the ARC browser subscribes to.
pub fn arc_service_type() -> (r: &'static str)
    ensures
        r@ == "_netaudio-arc._udp.local."@,
{
    "_netaudio-arc._udp.local."
}

/// The service type the channel browser subscribes to.
pub fn chan_service_type() -> (r: &'static str)
    ensures
        r@ == "_netaudio-chan._udp.local."@,
{
    "_netaudio-chan._udp.local."
}

/// A TXT value, or `"N/A"` when the responder did not send the property.
pub open spec fn spec_txt_or_na(o: Option<String>) -> Seq<char> {
    match o {
        Some(s) => s@,
        None => "N/A"@,
    }
}

/// The TXT value of `o`, defaulting to `"N/A"`.
fn txt_or_default(o: &Option<String>) -> (r: String)
    ensures
        r@ == spec_txt_or_na(*o),
{
    match o {
        Some(s) => s.clone(),
        None => String::from_str("N/A"),
    }
}

/// The DBC record a resolved service yields.
pub open spec fn spec_dbc_of(rs: ResolvedService) -> DbcModel {
    DbcModel { addresses: rs.addresses@, port: rs.port }
}

/// The CMC record a resolved service yields: absent TXT properties
/// default to `"N/A"`.
pub open spec fn spec_cmc_of(rs: ResolvedService) -> CmcModel {
    CmcModel {
        addresses: rs.addresses@,
        port: rs.port,
        id: spec_txt_or_na(rs.txt.id),
        manufacturer: spec_txt_or_na(rs.txt.manufacturer),
        model: spec_txt_or_na(rs.txt.model),
    }
}

/// The ARC record a resolved service yields.
pub open spec fn spec_arc_of(rs: ResolvedService) -> ArcModel {
    ArcModel {
        addresses: rs.addresses@,
        port: rs.port,
        router_vers: spec_txt_or_na(rs.txt.router_vers),
        router_info: spec_txt_or_na(rs.txt.router_info),
    }
}

/// The encoding a TXT `en` value names, if any.
pub open spec fn spec_encoding_of(s: Seq<char>) -> Option<DanteDeviceEncoding> {
    if s == "16"@ {
        Some(DanteDeviceEncoding::PCM16)
    } else if s == "24"@ {
        Some(DanteDeviceEncoding::PCM24)
    } else if s == "32"@ {
        Some(DanteDeviceEncoding::PCM32)
    } else {
        None
    }
}

/// The channel record a resolved channel service yields: every field that
/// fails to parse stays unset.
pub open spec fn spec_chan_of(chan_name: Seq<char>, rs: ResolvedService) -> ChanModel {
    ChanModel {
        name: chan_name,
        id: match rs.txt.id {
            Some(s) => spec_parse_u16(s@),
            None => None,
        },
        sample_rate: match rs.txt.rate {
            Some(s) => spec_parse_u32(s@),
            None => None,
        },
        encoding: match rs.txt.encoding {
            Some(s) => spec_encoding_of(s@),
            None => None,
        },
        latency_ns: match rs.txt.latency_ns {
            Some(s) => spec_parse_u64(s@),
            None => None,
        },
    }
}

/// Decodes a TXT `en` value.
fn encoding_from(s: &String) -> (r: Option<DanteDeviceEncoding>)
    ensures
        r == spec_encoding_of(s@),
{
    if *s == String::from_str("16") {
        Some(DanteDeviceEncoding::PCM16)
    } else if *s == String::from_str("24") {
        Some(DanteDeviceEncoding::PCM24)
    } else if *s == String::from_str("32") {
        Some(DanteDeviceEncoding::PCM32)
    } else {
        None
    }
}

/// Builds the DBC record of a resolved service.
pub fn dbc_info_from(rs: &ResolvedService) -> (r: DBCInfo)
    ensures
        r@ == spec_dbc_of(*rs),
{
    DBCInfo { addresses: clone_u32_vec(&rs.addresses), port: rs.port }
}

/// Builds the CMC record of a resolved service.
pub fn cmc_info_from(rs: &ResolvedService) -> (r: CMCInfo)
    ensures
        r@ == spec_cmc_of(*rs),
{
    CMCInfo {
        addresses: clone_u32_vec(&rs.addresses),
        port: rs.port,
        id: txt_or_default(&rs.txt.id),
        manufacturer: txt_or_default(&rs.txt.manufacturer),
        model: txt_or_default(&rs.txt.model),
    }
}

/// Builds the ARC record of a resolved service.
pub fn arc_info_from(rs: &ResolvedService) -> (r: ARCInfo)
    ensures
        r@ == spec_arc_of(*rs),
{
    ARCInfo {
        addresses: clone_u32_vec(&rs.addresses),
        port: rs.port,
        router_vers: txt_or_default(&rs.txt.router_vers),
        router_info: txt_or_default(&rs.txt.router_info),
    }
}

/// Builds the channel record of a resolved channel service.
pub fn chan_info_from(chan_name: String, rs: &ResolvedService) -> (r: CHANInfo)
    ensures
        r@ == spec_chan_of(chan_name@, *rs),
{
    CHANInfo {
        name: chan_name,
        id: match &rs.txt.id {
            Some(s) => parse_u16(s.as_str()),
            None => None,
        },
        sample_rate: match &rs.txt.rate {
            Some(s) => parse_u32(s.as_str()),
            None => None,
        },
        encoding: match &rs.txt.encoding {
            Some(s) => encoding_from(s),
            None => None,
        },
        latency_ns: match &rs.txt.latency_ns {
            Some(s) => parse_u64(s.as_str()),
            None => None,
        },
    }
}

impl DanteDeviceList {
    /// Applies one DBC browser event: found connects, resolved fills the
    /// DBC slot, removed disconnects. Events that the discipline rules out
    /// are skipped and named in the outcome.
    pub fn apply_dbc_event(&mut self, event: &MdnsEvent) -> (r: EventOutcome)
        requires
            old(self).wf(),
        ensures
            final(self).wf(),
            old(self).presence_ok() ==> final(self).presence_ok(),
            match *event {
                MdnsEvent::SearchStarted(_) => *final(self) == *old(self) && r
                    == EventOutcome::SearchNoted,
                MdnsEvent::ServiceFound(_, fullname) => Self::connect_post(
                    *old(self),
                    *final(self),
                    spec_cutoff(fullname@, "_netaudio-dbc._udp.local."@),
                    Category::Dbc,
                ) && r == EventOutcome::Connected,
                MdnsEvent::ServiceResolved(rs) => {
                    if old(self).caches@.contains_key(
                        spec_cutoff(rs.fullname@, "_netaudio-dbc._udp.local."@),
                    ) {
                        &&& Self::update_frame(
                            *old(self),
                            *final(self),
                            spec_cutoff(rs.fullname@, "_netaudio-dbc._udp.local."@),
                        )
                        &&& final(self).caches@[spec_cutoff(
                            rs.fullname@,
                            "_netaudio-dbc._udp.local."@,
                        )]@ == (CacheModel {
                            dbc_info: Some(spec_dbc_of(rs)),
                            ..old(self).caches@[spec_cutoff(
                                rs.fullname@,
                                "_netaudio-dbc._udp.local."@,
                            )]@
                        })
                        &&& r == EventOutcome::Updated
                    } else {
                        *final(self) == *old(self) && r == EventOutcome::CacheMissing
                    }
                },
                MdnsEvent::ServiceRemoved(_, fullname) => {
                    if old(self).devices@.contains_key(
                        spec_cutoff(fullname@, "_netaudio-dbc._udp.local."@),
                    ) {
                        Self::disconnect_post(
                            *old(self),
                            *final(self),
                            spec_cutoff(fullname@, "_netaudio-dbc._udp.local."@),
                            Category::Dbc,
                        ) && r == EventOutcome::Disconnected
                    } else {
                        *final(self) == *old(self) && r == EventOutcome::DeviceMissing
                    }
                },
                MdnsEvent::SearchStopped(_) => *final(self) == *old(self) && r
                    == EventOutcome::SearchStopped,
            },
    {
        match event {
            MdnsEvent::SearchStarted(_) => EventOutcome::SearchNoted,
            MdnsEvent::ServiceFound(_, fullname) => {
                let device_name = cutoff_address(fullname.as_str(), Some(dbc_service_type()));
                self.connect_dbc(device_name.as_str());
                EventOutcome::Connected
            },
            MdnsEvent::ServiceResolved(rs) => {
                let device_name = cutoff_address(rs.fullname.as_str(), Some(dbc_service_type()));
                if self.caches.contains_key(device_name.as_str()) {
                    let info = dbc_info_from(rs);
                    self.update_dbc(device_name.as_str(), info);
                    EventOutcome::Updated
                } else {
                    EventOutcome::CacheMissing
                }
            },
            MdnsEvent::ServiceRemoved(_, fullname) => {
                let device_name = cutoff_address(fullname.as_str(), Some(dbc_service_type()));
                if self.devices.contains_key(device_name.as_str()) {
                    self.disconnect_dbc(device_name.as_str());
                    EventOutcome::Disconnected
                } else {
                    EventOutcome::DeviceMissing
                }
            },
            MdnsEvent::SearchStopped(_) => EventOutcome::SearchStopped,
        }
    }

    /// Applies one CMC browser event.
    pub fn apply_cmc_event(&mut self, event: &MdnsEvent) -> (r: EventOutcome)
        requires
            old(self).wf(),
        ensures
            final(self).wf(),
            old(self).presence_ok() ==> final(self).presence_ok(),
            match *event {
                MdnsEvent::SearchStarted(_) => *final(self) == *old(self) && r
                    == EventOutcome::SearchNoted,
                MdnsEvent::ServiceFound(_, fullname) => Self::connect_post(
                    *old(self),
                    *final(self),
                    spec_cutoff(fullname@, "_netaudio-cmc._udp.local."@),
                    Category::Cmc,
                ) && r == EventOutcome::Connected,
                MdnsEvent::ServiceResolved(rs) => {
                    if old(self).caches@.contains_key(
                        spec_cutoff(rs.fullname@, "_netaudio-cmc._udp.local."@),
                    ) {
                        &&& Self::update_frame(
                            *old(self),
                            *final(self),
                            spec_cutoff(rs.fullname@, "_netaudio-cmc._udp.local."@),
                        )
                        &&& final(self).caches@[spec_cutoff(
                            rs.fullname@,
                            "_netaudio-cmc._udp.local."@,
                        )]@ == (CacheModel {
                            cmc_info: Some(spec_cmc_of(rs)),
                            ..old(self).caches@[spec_cutoff(
                                rs.fullname@,
                                "_netaudio-cmc._udp.local."@,
                            )]@
                        })
                        &&& r == EventOutcome::Updated
                    } else {
                        *final(self) == *old(self) && r == EventOutcome::CacheMissing
                    }
                },
                MdnsEvent::ServiceRemoved(_, fullname) => {
                    if old(self).devices@.contains_key(
                        spec_cutoff(fullname@, "_netaudio-cmc._udp.local."@),
                    ) {
                        Self::disconnect_post(
                            *old(self),
                            *final(self),
                            spec_cutoff(fullname@, "_netaudio-cmc._udp.local."@),
                            Category::Cmc,
                        ) && r == EventOutcome::Disconnected
                    } else {
                        *final(self) == *old(self) && r == EventOutcome::DeviceMissing
                    }
                },
                MdnsEvent::SearchStopped(_) => *final(self) == *old(self) && r
                    == EventOutcome::SearchStopped,
            },
    {
        match event {
            MdnsEvent::SearchStarted(_) => EventOutcome::SearchNoted,
            MdnsEvent::ServiceFound(_, fullname) => {
                let device_name = cutoff_address(fullname.as_str(), Some(cmc_service_type()));
                self.connect_cmc(device_name.as_str());
                EventOutcome::Connected
            },
            MdnsEvent::ServiceResolved(rs) => {
                let device_name = cutoff_address(rs.fullname.as_str(), Some(cmc_service_type()));
                if self.caches.contains_key(device_name.as_str()) {
                    let info = cmc_info_from(rs);
                    self.update_cmc(device_name.as_str(), info);
                    EventOutcome::Updated
                } else {
                    EventOutcome::CacheMissing
                }
            },
            MdnsEvent::ServiceRemoved(_, fullname) => {
                let device_name = cutoff_address(fullname.as_str(), Some(cmc_service_type()));
                if self.devices.contains_key(device_name.as_str()) {
                    self.disconnect_cmc(device_name.as_str());
                    EventOutcome::Disconnected
                } else {
                    EventOutcome::DeviceMissing
                }
            },
            MdnsEvent::SearchStopped(_) => EventOutcome::SearchStopped,
        }
    }

    /// Applies one ARC browser event.
    pub fn apply_arc_event(&mut self, event: &MdnsEvent) -> (r: EventOutcome)
        requires
            old(self).wf(),
        ensures
            final(self).wf(),
            old(self).presence_ok() ==> final(self).presence_ok(),
            match *event {
                MdnsEvent::SearchStarted(_) => *final(self) == *old(self) && r
                    == EventOutcome::SearchNoted,
                MdnsEvent::ServiceFound(_, fullname) => Self::connect_post(
                    *old(self),
                    *final(self),
                    spec_cutoff(fullname@, "_netaudio-arc._udp.local."@),
                    Category::Arc,
                ) && r == EventOutcome::Connected,
                MdnsEvent::ServiceResolved(rs) => {
                    if old(self).caches@.contains_key(
                        spec_cutoff(rs.fullname@, "_netaudio-arc._udp.local."@),
                    ) {
                        &&& Self::update_frame(
                            *old(self),
                            *final(self),
                            spec_cutoff(rs.fullname@, "_netaudio-arc._udp.local."@),
                        )
                        &&& final(self).caches@[spec_cutoff(
                            rs.fullname@,
                            "_netaudio-arc._udp.local."@,
                        )]@ == (CacheModel {
                            arc_info: Some(spec_arc_of(rs)),
                            ..old(self).caches@[spec_cutoff(
                                rs.fullname@,
                                "_netaudio-arc._udp.local."@,
                            )]@
                        })
                        &&& r == EventOutcome::Updated
                    } else {
                        *final(self) == *old(self) && r == EventOutcome::CacheMissing
                    }
                },
                MdnsEvent::ServiceRemoved(_, fullname) => {
                    if old(self).devices@.contains_key(
                        spec_cutoff(fullname@, "_netaudio-arc._udp.local."@),
                    ) {
                        Self::disconnect_post(
                            *old(self),
                            *final(self),
                            spec_cutoff(fullname@, "_netaudio-arc._udp.local."@),
                            Category::Arc,
                        ) && r == EventOutcome::Disconnected
                    } else {
                        *final(self) == *old(self) && r == EventOutcome::DeviceMissing
                    }
                },
                MdnsEvent::SearchStopped(_) => *final(self) == *old(self) && r
                    == EventOutcome::SearchStopped,
            },
    {
        match event {
            MdnsEvent::SearchStarted(_) => EventOutcome::SearchNoted,
            MdnsEvent::ServiceFound(_, fullname) => {
                let device_name = cutoff_address(fullname.as_str(), Some(arc_service_type()));
                self.connect_arc(device_name.as_str());
                EventOutcome::Connected
            },
            MdnsEvent::ServiceResolved(rs) => {
                let device_name = cutoff_address(rs.fullname.as_str(), Some(arc_service_type()));
                if self.caches.contains_key(device_name.as_str()) {
                    let info = arc_info_from(rs);
                    self.update_arc(device_name.as_str(), info);
                    EventOutcome::Updated
                } else {
                    EventOutcome::CacheMissing
                }
            },
            MdnsEvent::ServiceRemoved(_, fullname) => {
                let device_name = cutoff_address(fullname.as_str(), Some(arc_service_type()));
                if self.devices.contains_key(device_name.as_str()) {
                    self.disconnect_arc(device_name.as_str());
                    EventOutcome::Disconnected
                } else {
                    EventOutcome::DeviceMissing
                }
            },
            MdnsEvent::SearchStopped(_) => EventOutcome::SearchStopped,
        }
    }

    /// Applies one channel browser event. Instance names are split on the
    /// leftmost `'@'` first; a name without one is a protocol violation
    /// and is skipped.
    pub fn apply_chan_event(&mut self, event: &MdnsEvent) -> (r: EventOutcome)
        requires
            old(self).wf(),
        ensures
            final(self).wf(),
            old(self).presence_ok() ==> final(self).presence_ok(),
            match *event {
                MdnsEvent::SearchStarted(_) => *final(self) == *old(self) && r
                    == EventOutcome::SearchNoted,
                MdnsEvent::ServiceFound(_, fullname) => {
                    if has_at_sign(fullname@) {
                        Self::connect_post(
                            *old(self),
                            *final(self),
                            spec_cutoff(rest_part(fullname@), "_netaudio-chan._udp.local."@),
                            Category::Chan,
                        ) && r == EventOutcome::Connected
                    } else {
                        *final(self) == *old(self) && r == EventOutcome::MalformedName
                    }
                },
                MdnsEvent::ServiceResolved(rs) => {
                    if !has_at_sign(rs.fullname@) {
                        *final(self) == *old(self) && r == EventOutcome::MalformedName
                    } else if old(self).caches@.contains_key(
                        spec_cutoff(rest_part(rs.fullname@), "_netaudio-chan._udp.local."@),
                    ) {
                        &&& Self::update_frame(
                            *old(self),
                            *final(self),
                            spec_cutoff(rest_part(rs.fullname@), "_netaudio-chan._udp.local."@),
                        )
                        &&& final(self).caches@[spec_cutoff(
                            rest_part(rs.fullname@),
                            "_netaudio-chan._udp.local."@,
                        )]@.chan_info == spec_replace_chan_model(
                            old(self).caches@[spec_cutoff(
                                rest_part(rs.fullname@),
                                "_netaudio-chan._udp.local."@,
                            )]@.chan_info,
                            spec_chan_of(chan_part(rs.fullname@), rs),
                        )
                        &&& final(self).caches@[spec_cutoff(
                            rest_part(rs.fullname@),
                            "_netaudio-chan._udp.local."@,
                        )]@.dbc_info == old(self).caches@[spec_cutoff(
                            rest_part(rs.fullname@),
                            "_netaudio-chan._udp.local."@,
                        )]@.dbc_info
                        &&& final(self).caches@[spec_cutoff(
                            rest_part(rs.fullname@),
                            "_netaudio-chan._udp.local."@,
                        )]@.cmc_info == old(self).caches@[spec_cutoff(
                            rest_part(rs.fullname@),
                            "_netaudio-chan._udp.local."@,
                        )]@.cmc_info
                        &&& final(self).caches@[spec_cutoff(
                            rest_part(rs.fullname@),
                            "_netaudio-chan._udp.local."@,
                        )]@.arc_info == old(self).caches@[spec_cutoff(
                            rest_part(rs.fullname@),
                            "_netaudio-chan._udp.local."@,
                        )]@.arc_info
                        &&& r == EventOutcome::Updated
                    } else {
                        *final(self) == *old(self) && r == EventOutcome::CacheMissing
                    }
                },
                MdnsEvent::ServiceRemoved(_, fullname) => {
                    if !has_at_sign(fullname@) {
                        *final(self) == *old(self) && r == EventOutcome::MalformedName
                    } else if old(self).devices@.contains_key(
                        spec_cutoff(rest_part(fullname@), "_netaudio-chan._udp.local."@),
                    ) {
                        Self::disconnect_post(
                            *old(self),
                            *final(self),
                            spec_cutoff(rest_part(fullname@), "_netaudio-chan._udp.local."@),
                            Category::Chan,
                        ) && r == EventOutcome::Disconnected
                    } else {
                        *final(self) == *old(self) && r == EventOutcome::DeviceMissing
                    }
                },
                MdnsEvent::SearchStopped(_) => *final(self) == *old(self) && r
                    == EventOutcome::SearchStopped,
            },
    {
        match event {
            MdnsEvent::SearchStarted(_) => EventOutcome::SearchNoted,
            MdnsEvent::ServiceFound(_, fullname) => {
                match split_channel(fullname.as_str()) {
                    Some(parts) => {
                        let device_name = cutoff_address(
                            parts.1.as_str(),
                            Some(chan_service_type()),
                        );
                        self.connect_chan(device_name.as_str());
                        EventOutcome::Connected
                    },
                    None => EventOutcome::MalformedName,
                }
            },
            MdnsEvent::ServiceResolved(rs) => {
                match split_channel(rs.fullname.as_str()) {
                    Some(parts) => {
                        let device_name = cutoff_address(
                            parts.1.as_str(),
                            Some(chan_service_type()),
                        );
                        if self.caches.contains_key(device_name.as_str()) {
                            let info = chan_info_from(parts.0, rs);
                            self.update_chan(device_name.as_str(), info);
                            EventOutcome::Updated
                        } else {
                            EventOutcome::CacheMissing
                        }
                    },
                    None => EventOutcome::MalformedName,
                }
            },
            MdnsEvent::ServiceRemoved(_, fullname) => {
                match split_channel(fullname.as_str()) {
                    Some(parts) => {
                        let device_name = cutoff_address(
                            parts.1.as_str(),
                            Some(chan_service_type()),
                        );
                        if self.devices.contains_key(device_name.as_str()) {
                            self.disconnect_chan(device_name.as_str());
                            EventOutcome::Disconnected
                        } else {
                            EventOutcome::DeviceMissing
                        }
                    },
                    None => EventOutcome::MalformedName,
                }
            },
            MdnsEvent::SearchStopped(_) => EventOutcome::SearchStopped,
        }
    }
}

} // verus!
