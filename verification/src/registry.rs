//! The device registry.
//!
//! A device is keyed by its name (the mDNS instance label with the
//! service-type suffix removed). Four independent browsers each contribute
//! one presence bit and one slice of cached information; a device is
//! present exactly while at least one browser reports it, and its record is
//! dropped when the last presence bit falls. Caches are created on first
//! presence and survive the presence entry.

use vstd::prelude::*;
use vstd::hash_map::StringHashMap;

verus! {

/// Linear PCM sample widths advertised by a channel.
#[derive(Clone, Copy, PartialEq, Eq, Structural, Debug)]
pub enum DanteDeviceEncoding {
    PCM16,
    PCM24,
    PCM32,
}

/// One of the four parallel service categories a device advertises on.
#[derive(Clone, Copy, PartialEq, Eq, Structural, Debug)]
pub enum Category {
    Dbc,
    Cmc,
    Arc,
    Chan,
}

/// The four independent presence bits of one device.
#[derive(Clone, Copy, PartialEq, Eq, Structural, Debug)]
pub struct DeviceStatus {
    pub connected_dbc: bool,
    pub connected_cmc: bool,
    pub connected_arc: bool,
    pub connected_chan: bool,
}

impl DeviceStatus {
    /// True when at least one presence bit is set.
    pub open spec fn any_connected(self) -> bool {
        self.connected_dbc || self.connected_cmc || self.connected_arc || self.connected_chan
    }

    /// The status with every bit clear.
    pub open spec fn spec_empty() -> DeviceStatus {
        DeviceStatus {
            connected_dbc: false,
            connected_cmc: false,
            connected_arc: false,
            connected_chan: false,
        }
    }

    /// A fresh status: no browser has reported the device yet.
    pub fn new() -> (r: Self)
        ensures
            r == DeviceStatus::spec_empty(),
    {
        DeviceStatus {
            connected_dbc: false,
            connected_cmc: false,
            connected_arc: false,
            connected_chan: false,
        }
    }
}

/// The presence bit of `st` for the given category.
pub open spec fn bit_of(st: DeviceStatus, cat: Category) -> bool {
    match cat {
        Category::Dbc => st.connected_dbc,
        Category::Cmc => st.connected_cmc,
        Category::Arc => st.connected_arc,
        Category::Chan => st.connected_chan,
    }
}

/// `st` with the presence bit of the given category set to `b`.
pub open spec fn with_bit(st: DeviceStatus, cat: Category, b: bool) -> DeviceStatus {
    match cat {
        Category::Dbc => DeviceStatus { connected_dbc: b, ..st },
        Category::Cmc => DeviceStatus { connected_cmc: b, ..st },
        Category::Arc => DeviceStatus { connected_arc: b, ..st },
        Category::Chan => DeviceStatus { connected_chan: b, ..st },
    }
}

/// Information learnt from a resolved DBC service.
pub struct DBCInfo {
    pub addresses: Vec<u32>,
    pub port: u16,
}

/// Information learnt from a resolved CMC service.
pub struct CMCInfo {
    pub addresses: Vec<u32>,
    pub port: u16,
    pub id: String,
    pub manufacturer: String,
    pub model: String,
}

/// Information learnt from a resolved ARC service.
pub struct ARCInfo {
    pub addresses: Vec<u32>,
    pub port: u16,
    pub router_vers: String,
    pub router_info: String,
}

/// Information learnt from a resolved channel service. The optional fields
/// stay unset when the corresponding TXT property is absent or fails to
/// parse.
pub struct CHANInfo {
    pub name: String,
    pub id: Option<u16>,
    pub sample_rate: Option<u32>,
    pub encoding: Option<DanteDeviceEncoding>,
    pub latency_ns: Option<u64>,
}

/// Mathematical image of a `DBCInfo`.
#[verifier::ext_equal]
pub struct DbcModel {
    pub addresses: Seq<u32>,
    pub port: u16,
}

/// Mathematical image of a `CMCInfo`.
#[verifier::ext_equal]
pub struct CmcModel {
    pub addresses: Seq<u32>,
    pub port: u16,
    pub id: Seq<char>,
    pub manufacturer: Seq<char>,
    pub model: Seq<char>,
}

/// Mathematical image of an `ARCInfo`.
#[verifier::ext_equal]
pub struct ArcModel {
    pub addresses: Seq<u32>,
    pub port: u16,
    pub router_vers: Seq<char>,
    pub router_info: Seq<char>,
}

/// Mathematical image of a `CHANInfo`.
#[verifier::ext_equal]
pub struct ChanModel {
    pub name: Seq<char>,
    pub id: Option<u16>,
    pub sample_rate: Option<u32>,
    pub encoding: Option<DanteDeviceEncoding>,
    pub latency_ns: Option<u64>,
}

impl View for DBCInfo {
    type V = DbcModel;

    open spec fn view(&self) -> DbcModel {
        DbcModel { addresses: self.addresses@, port: self.port }
    }
}

impl View for CMCInfo {
    type V = CmcModel;

    open spec fn view(&self) -> CmcModel {
        CmcModel {
            addresses: self.addresses@,
            port: self.port,
            id: self.id@,
            manufacturer: self.manufacturer@,
            model: self.model@,
        }
    }
}

impl View for ARCInfo {
    type V = ArcModel;

    open spec fn view(&self) -> ArcModel {
        ArcModel {
            addresses: self.addresses@,
            port: self.port,
            router_vers: self.router_vers@,
            router_info: self.router_info@,
        }
    }
}

impl View for CHANInfo {
    type V = ChanModel;

    open spec fn view(&self) -> ChanModel {
        ChanModel {
            name: self.name@,
            id: self.id,
            sample_rate: self.sample_rate,
            encoding: self.encoding,
            latency_ns: self.latency_ns,
        }
    }
}

/// The image of an optional DBC slot.
pub open spec fn dbc_model(o: Option<DBCInfo>) -> Option<DbcModel> {
    match o {
        Some(i) => Some(i@),
        None => None,
    }
}

/// The image of an optional CMC slot.
pub open spec fn cmc_model(o: Option<CMCInfo>) -> Option<CmcModel> {
    match o {
        Some(i) => Some(i@),
        None => None,
    }
}

/// The image of an optional ARC slot.
pub open spec fn arc_model(o: Option<ARCInfo>) -> Option<ArcModel> {
    match o {
        Some(i) => Some(i@),
        None => None,
    }
}

/// The image of a channel list.
pub open spec fn chans_model(s: Seq<CHANInfo>) -> Seq<ChanModel> {
    s.map_values(|c: CHANInfo| c@)
}

/// The per-device discovery cache: one optional slot per resolving
/// category and the set of channel records.
pub struct DeviceDiscoveryCache {
    pub dbc_info: Option<DBCInfo>,
    pub cmc_info: Option<CMCInfo>,
    pub arc_info: Option<ARCInfo>,
    pub chan_info: Vec<CHANInfo>,
}

/// Mathematical image of a cache.
#[verifier::ext_equal]
pub struct CacheModel {
    pub dbc_info: Option<DbcModel>,
    pub cmc_info: Option<CmcModel>,
    pub arc_info: Option<ArcModel>,
    pub chan_info: Seq<ChanModel>,
}

impl CacheModel {
    /// The cache created on first presence: nothing resolved yet.
    pub open spec fn spec_empty() -> CacheModel {
        CacheModel {
            dbc_info: None,
            cmc_info: None,
            arc_info: None,
            chan_info: Seq::empty(),
        }
    }
}

impl View for DeviceDiscoveryCache {
    type V = CacheModel;

    open spec fn view(&self) -> CacheModel {
        CacheModel {
            dbc_info: dbc_model(self.dbc_info),
            cmc_info: cmc_model(self.cmc_info),
            arc_info: arc_model(self.arc_info),
            chan_info: chans_model(self.chan_info@),
        }
    }
}

/// Raised by `add_device` when the device is already present.
#[derive(Clone, Copy, PartialEq, Eq, Structural, Debug)]
pub struct DeviceAlreadyPresent {}

/// Raised by `check_remove` when the device is not present.
#[derive(Clone, Copy, PartialEq, Eq, Structural, Debug)]
pub struct DeviceNotPresent {}

/// All channel ids that are set are pairwise distinct, and at most one
/// record has no id: records are identified by their `id` field alone.
pub open spec fn chan_ids_unique(chans: Seq<CHANInfo>) -> bool {
    forall|i: int, j: int|
        0 <= i < j < chans.len() ==> (#[trigger] chans[i]).id != (#[trigger] chans[j]).id
}

/// `chans` with the record sharing `info`'s id replaced by `info`, or with
/// `info` appended when no record shares its id.
pub open spec fn spec_replace_chan(chans: Seq<CHANInfo>, info: CHANInfo) -> Seq<CHANInfo>
    decreases chans.len(),
{
    if chans.len() == 0 {
        seq![info]
    } else if chans[0].id == info.id {
        seq![info] + chans.drop_first()
    } else {
        seq![chans[0]] + spec_replace_chan(chans.drop_first(), info)
    }
}

/// `chans` with the record sharing `m`'s id replaced by `m`, or with `m`
/// appended: the image of `spec_replace_chan`.
pub open spec fn spec_replace_chan_model(chans: Seq<ChanModel>, m: ChanModel) -> Seq<ChanModel>
    decreases chans.len(),
{
    if chans.len() == 0 {
        seq![m]
    } else if chans[0].id == m.id {
        seq![m] + chans.drop_first()
    } else {
        seq![chans[0]] + spec_replace_chan_model(chans.drop_first(), m)
    }
}

/// Replacing a record and taking images commute.
pub proof fn lemma_chans_model_replace(s: Seq<CHANInfo>, c: CHANInfo)
    ensures
        chans_model(spec_replace_chan(s, c)) == spec_replace_chan_model(chans_model(s), c@),
    decreases s.len(),
{
    if s.len() == 0 {
        assert(chans_model(seq![c]) =~= seq![c@]);
        assert(chans_model(s).len() == 0);
    } else if s[0].id == c.id {
        assert(chans_model(s)[0] == s[0]@);
        assert(chans_model(s)[0].id == c@.id);
        assert(chans_model(seq![c] + s.drop_first()) =~= seq![c@] + chans_model(s).drop_first());
    } else {
        lemma_chans_model_replace(s.drop_first(), c);
        assert(chans_model(s)[0] == s[0]@);
        assert(chans_model(s)[0].id != c@.id);
        assert(chans_model(s.drop_first()) =~= chans_model(s).drop_first());
        assert(chans_model(seq![s[0]] + spec_replace_chan(s.drop_first(), c)) =~= seq![s[0]@]
            + chans_model(spec_replace_chan(s.drop_first(), c)));
        assert(spec_replace_chan_model(chans_model(s), c@) == seq![chans_model(s)[0]]
            + spec_replace_chan_model(chans_model(s).drop_first(), c@));
    }
}

/// The union of the IP sets of the populated info slots of a cache.
pub open spec fn spec_device_ips(c: CacheModel) -> Set<u32> {
    (match c.dbc_info {
        Some(i) => i.addresses.to_set(),
        None => Set::empty(),
    }).union(
        match c.cmc_info {
            Some(i) => i.addresses.to_set(),
            None => Set::empty(),
        },
    ).union(
        match c.arc_info {
            Some(i) => i.addresses.to_set(),
            None => Set::empty(),
        },
    )
}

/// The registry: presence map, cache map, and the device names in
/// insertion order (the iteration index of the presence map).
pub struct DanteDeviceList {
    pub devices: StringHashMap<DeviceStatus>,
    pub caches: StringHashMap<DeviceDiscoveryCache>,
    pub names: Vec<String>,
}

impl DanteDeviceList {
    /// Structural well-formedness: the name list enumerates the presence
    /// map without repetition, every present device has a cache, and every
    /// cache identifies its channels by id alone.
    pub open spec fn wf(self) -> bool {
        &&& forall|i: int, j: int|
            0 <= i < j < self.names@.len() ==> (#[trigger] self.names@[i])@ != (
            #[trigger] self.names@[j])@
        &&& forall|i: int|
            0 <= i < self.names@.len() ==> self.devices@.contains_key(
                (#[trigger] self.names@[i])@,
            )
        &&& forall|k: Seq<char>|
            self.devices@.contains_key(k) ==> exists|i: int|
                0 <= i < self.names@.len() && (#[trigger] self.names@[i])@ == k
        &&& forall|k: Seq<char>|
            #[trigger] self.devices@.contains_key(k) ==> self.caches@.contains_key(k)
        &&& forall|k: Seq<char>|
            #[trigger] self.caches@.contains_key(k) ==> chan_ids_unique(
                self.caches@[k].chan_info@,
            )
    }

    /// Every present device has at least one presence bit set. Holds of
    /// every state the connect, update and disconnect operations produce;
    /// a bare `add_device` leaves the fresh record bitless until the first
    /// connect.
    pub open spec fn presence_ok(self) -> bool {
        forall|k: Seq<char>|
            #[trigger] self.devices@.contains_key(k) ==> self.devices@[k].any_connected()
    }

    /// An empty registry.
    pub fn new() -> (r: Self)
        ensures
            r.wf(),
            r.presence_ok(),
            r.devices@ == Map::<Seq<char>, DeviceStatus>::empty(),
            r.caches@ == Map::<Seq<char>, DeviceDiscoveryCache>::empty(),
            r.names@ == Seq::<String>::empty(),
    {
        DanteDeviceList {
            devices: StringHashMap::new(),
            caches: StringHashMap::new(),
            names: Vec::new(),
        }
    }

    /// How `add_device` changes the registry when the device was absent: a
    /// bitless record appears under the name, the name joins the list, and
    /// a fresh cache is created unless one survives from an earlier life.
    pub open spec fn add_post(pre: Self, post: Self, name: Seq<char>) -> bool {
        &&& post.devices@ == pre.devices@.insert(name, DeviceStatus::spec_empty())
        &&& post.names@.len() == pre.names@.len() + 1
        &&& post.names@.subrange(0, pre.names@.len() as int) == pre.names@
        &&& post.names@.last()@ == name
        &&& (pre.caches@.contains_key(name) ==> post.caches@ == pre.caches@)
        &&& (!pre.caches@.contains_key(name) ==> {
            &&& post.caches@.contains_key(name)
            &&& post.caches@[name]@ == CacheModel::spec_empty()
            &&& forall|k: Seq<char>|
                k != name ==> (#[trigger] post.caches@.contains_key(k)
                    == pre.caches@.contains_key(k)) && (pre.caches@.contains_key(k)
                    ==> post.caches@[k] == pre.caches@[k])
        })
    }

    /// Adds a new device with no presence bits and (if none survives) a
    /// fresh cache. Rejected when the device is already present.
    pub fn add_device(&mut self, new_device_name: &str) -> (r: Result<(), DeviceAlreadyPresent>)
        requires
            old(self).wf(),
        ensures
            final(self).wf(),
            old(self).devices@.contains_key(new_device_name@) ==> r is Err && *final(self)
                == *old(self),
            !old(self).devices@.contains_key(new_device_name@) ==> r is Ok
                && Self::add_post(*old(self), *final(self), new_device_name@),
    {
        if self.devices.contains_key(new_device_name) {
            return Err(DeviceAlreadyPresent {});
        }
        self.devices.insert(new_device_name.to_owned(), DeviceStatus::new());
        self.names.push(new_device_name.to_owned());
        if !self.caches.contains_key(new_device_name) {
            let cache = DeviceDiscoveryCache {
                dbc_info: None,
                cmc_info: None,
                arc_info: None,
                chan_info: Vec::new(),
            };
            proof {
                assert(cache@ =~= CacheModel::spec_empty());
            }
            self.caches.insert(new_device_name.to_owned(), cache);
        }
        proof {
            assert(self.names@.subrange(0, old(self).names@.len() as int) =~= old(self).names@);
            assert forall|i: int, j: int| 0 <= i < j < self.names@.len() implies (
            #[trigger] self.names@[i])@ != (#[trigger] self.names@[j])@ by {
                if j == self.names@.len() - 1 {
                    assert(old(self).devices@.contains_key(self.names@[j]@) == false);
                    assert(self.names@[i] == old(self).names@[i]);
                }
            }
            assert forall|k: Seq<char>| self.devices@.contains_key(k) implies exists|i: int|
                0 <= i < self.names@.len() && (#[trigger] self.names@[i])@ == k by {
                if k == new_device_name@ {
                    assert(self.names@[self.names@.len() - 1]@ == k);
                } else {
                    let i = choose|i: int|
                        0 <= i < old(self).names@.len() && (#[trigger] old(self).names@[i])@ == k;
                    assert(self.names@[i]@ == k);
                }
            }
        }
        Ok(())
    }

    /// Adds the device unless it is already present; in that case the
    /// registry is left untouched.
    pub fn try_add_device(&mut self, new_device_name: &str)
        requires
            old(self).wf(),
        ensures
            final(self).wf(),
            old(self).devices@.contains_key(new_device_name@) ==> *final(self) == *old(self),
            !old(self).devices@.contains_key(new_device_name@) ==> Self::add_post(
                *old(self),
                *final(self),
                new_device_name@,
            ),
    {
        let _ = self.add_device(new_device_name);
    }

    /// True while the device is present (some presence bit set, or freshly
    /// added).
    pub fn device_connected(&self, device_name: &str) -> (r: bool)
        ensures
            r == self.devices@.contains_key(device_name@),
    {
        self.devices.contains_key(device_name)
    }

    /// How `connect_<cat>` changes the registry: the device is created if
    /// absent, and its presence bit for `cat` is set.
    pub open spec fn connect_post(pre: Self, post: Self, name: Seq<char>, cat: Category) -> bool {
        &&& post.devices@ == pre.devices@.insert(
            name,
            with_bit(
                if pre.devices@.contains_key(name) {
                    pre.devices@[name]
                } else {
                    DeviceStatus::spec_empty()
                },
                cat,
                true,
            ),
        )
        &&& (pre.devices@.contains_key(name) ==> post.names@ == pre.names@
            && post.caches@ == pre.caches@)
        &&& (!pre.devices@.contains_key(name) ==> {
            &&& post.names@.len() == pre.names@.len() + 1
            &&& post.names@.subrange(0, pre.names@.len() as int) == pre.names@
            &&& post.names@.last()@ == name
            &&& (pre.caches@.contains_key(name) ==> post.caches@ == pre.caches@)
            &&& (!pre.caches@.contains_key(name) ==> {
                &&& post.caches@.contains_key(name)
                &&& post.caches@[name]@ == CacheModel::spec_empty()
                &&& forall|k: Seq<char>|
                    k != name ==> (#[trigger] post.caches@.contains_key(k)
                        == pre.caches@.contains_key(k)) && (pre.caches@.contains_key(k)
                        ==> post.caches@[k] == pre.caches@[k])
            })
        })
    }

    /// Ensures the device exists and sets its presence bit for `cat`.
    fn connect_with(&mut self, device_name: &str, cat: Category)
        requires
            old(self).wf(),
        ensures
            final(self).wf(),
            Self::connect_post(*old(self), *final(self), device_name@, cat),
            old(self).presence_ok() ==> final(self).presence_ok(),
    {
        self.try_add_device(device_name);
        let ghost mid = *self;
        let st: DeviceStatus = match self.devices.get(device_name) {
            Some(st) => *st,
            None => {
                proof {
                    assert(false);
                }
                DeviceStatus::new()
            },
        };
        let st2 = match cat {
            Category::Dbc => DeviceStatus { connected_dbc: true, ..st },
            Category::Cmc => DeviceStatus { connected_cmc: true, ..st },
            Category::Arc => DeviceStatus { connected_arc: true, ..st },
            Category::Chan => DeviceStatus { connected_chan: true, ..st },
        };
        self.devices.insert(device_name.to_owned(), st2);
        proof {
            assert forall|k: Seq<char>| self.devices@.contains_key(k) implies exists|i: int|
                0 <= i < self.names@.len() && (#[trigger] self.names@[i])@ == k by {
                assert(mid.devices@.contains_key(k));
                assert(self.names@ == mid.names@);
            }
            assert(self.devices@ =~= old(self).devices@.insert(
                device_name@,
                with_bit(
                    if old(self).devices@.contains_key(device_name@) {
                        old(self).devices@[device_name@]
                    } else {
                        DeviceStatus::spec_empty()
                    },
                    cat,
                    true,
                ),
            ));
            assert(Self::connect_post(*old(self), *self, device_name@, cat));
        }
    }

    /// Marks the device as present on the DBC browser.
    pub fn connect_dbc(&mut self, device_name: &str)
        requires
            old(self).wf(),
        ensures
            final(self).wf(),
            Self::connect_post(*old(self), *final(self), device_name@, Category::Dbc),
            old(self).presence_ok() ==> final(self).presence_ok(),
    {
        self.connect_with(device_name, Category::Dbc);
    }

    /// Marks the device as present on the CMC browser.
    pub fn connect_cmc(&mut self, device_name: &str)
        requires
            old(self).wf(),
        ensures
            final(self).wf(),
            Self::connect_post(*old(self), *final(self), device_name@, Category::Cmc),
            old(self).presence_ok() ==> final(self).presence_ok(),
    {
        self.connect_with(device_name, Category::Cmc);
    }

    /// Marks the device as present on the ARC browser.
    pub fn connect_arc(&mut self, device_name: &str)
        requires
            old(self).wf(),
        ensures
            final(self).wf(),
            Self::connect_post(*old(self), *final(self), device_name@, Category::Arc),
            old(self).presence_ok() ==> final(self).presence_ok(),
    {
        self.connect_with(device_name, Category::Arc);
    }

    /// Marks the device as present on the channel browser.
    pub fn connect_chan(&mut self, device_name: &str)
        requires
            old(self).wf(),
        ensures
            final(self).wf(),
            Self::connect_post(*old(self), *final(self), device_name@, Category::Chan),
            old(self).presence_ok() ==> final(self).presence_ok(),
    {
        self.connect_with(device_name, Category::Chan);
    }

    /// What every slot update leaves untouched: presence, the name list,
    /// the set of cached devices, and every other device's cache.
    pub open spec fn update_frame(pre: Self, post: Self, name: Seq<char>) -> bool {
        &&& post.devices@ == pre.devices@
        &&& post.names@ == pre.names@
        &&& post.caches@.dom() == pre.caches@.dom()
        &&& forall|k: Seq<char>|
            k != name && pre.caches@.contains_key(k) ==> #[trigger] post.caches@[k]
                == pre.caches@[k]
    }

    /// Overwrites the DBC slot of the device's cache.
    pub fn update_dbc(&mut self, device_name: &str, info: DBCInfo)
        requires
            old(self).wf(),
            old(self).caches@.contains_key(device_name@),
        ensures
            final(self).wf(),
            Self::update_frame(*old(self), *final(self), device_name@),
            final(self).caches@[device_name@]@ == (CacheModel {
                dbc_info: Some(info@),
                ..old(self).caches@[device_name@]@
            }),
            old(self).presence_ok() ==> final(self).presence_ok(),
    {
        let new_cache: DeviceDiscoveryCache = match self.caches.get(device_name) {
            Some(c) => DeviceDiscoveryCache {
                dbc_info: Some(info),
                cmc_info: clone_opt_cmc(&c.cmc_info),
                arc_info: clone_opt_arc(&c.arc_info),
                chan_info: clone_chan_vec(&c.chan_info),
            },
            None => {
                proof {
                    assert(false);
                }
                DeviceDiscoveryCache {
                    dbc_info: None,
                    cmc_info: None,
                    arc_info: None,
                    chan_info: Vec::new(),
                }
            },
        };
        proof {
            assert(new_cache@ =~= (CacheModel {
                dbc_info: Some(info@),
                ..old(self).caches@[device_name@]@
            }));
        }
        self.caches.insert(device_name.to_owned(), new_cache);
        proof {
            assert(self.caches@.dom() =~= old(self).caches@.dom());
            assert forall|k: Seq<char>| #[trigger] self.caches@.contains_key(k) implies chan_ids_unique(
                self.caches@[k].chan_info@,
            ) by {
                if k != device_name@ {
                    assert(self.caches@[k] == old(self).caches@[k]);
                }
            }
            assert(forall|i: int, j: int|
                0 <= i < j < self.names@.len() ==> (#[trigger] self.names@[i])@ != (
                #[trigger] self.names@[j])@);
            assert(forall|i: int|
                0 <= i < self.names@.len() ==> self.devices@.contains_key(
                    (#[trigger] self.names@[i])@,
                ));
            assert forall|k: Seq<char>| self.devices@.contains_key(k) implies exists|i: int|
                0 <= i < self.names@.len() && (#[trigger] self.names@[i])@ == k by {
                let i = choose|i: int|
                    0 <= i < old(self).names@.len() && (#[trigger] old(self).names@[i])@ == k;
                assert(self.names@[i]@ == k);
            }
            assert(forall|k: Seq<char>|
                #[trigger] self.devices@.contains_key(k) ==> self.caches@.contains_key(k));
            assert(self.wf());
        }
    }

    /// Overwrites the CMC slot of the device's cache.
    pub fn update_cmc(&mut self, device_name: &str, info: CMCInfo)
        requires
            old(self).wf(),
            old(self).caches@.contains_key(device_name@),
        ensures
            final(self).wf(),
            Self::update_frame(*old(self), *final(self), device_name@),
            final(self).caches@[device_name@]@ == (CacheModel {
                cmc_info: Some(info@),
                ..old(self).caches@[device_name@]@
            }),
            old(self).presence_ok() ==> final(self).presence_ok(),
    {
        let new_cache: DeviceDiscoveryCache = match self.caches.get(device_name) {
            Some(c) => DeviceDiscoveryCache {
                dbc_info: clone_opt_dbc(&c.dbc_info),
                cmc_info: Some(info),
                arc_info: clone_opt_arc(&c.arc_info),
                chan_info: clone_chan_vec(&c.chan_info),
            },
            None => {
                proof {
                    assert(false);
                }
                DeviceDiscoveryCache {
                    dbc_info: None,
                    cmc_info: None,
                    arc_info: None,
                    chan_info: Vec::new(),
                }
            },
        };
        proof {
            assert(new_cache@ =~= (CacheModel {
                cmc_info: Some(info@),
                ..old(self).caches@[device_name@]@
            }));
        }
        self.caches.insert(device_name.to_owned(), new_cache);
        proof {
            assert(self.caches@.dom() =~= old(self).caches@.dom());
            assert forall|k: Seq<char>| #[trigger] self.caches@.contains_key(k) implies chan_ids_unique(
                self.caches@[k].chan_info@,
            ) by {
                if k != device_name@ {
                    assert(self.caches@[k] == old(self).caches@[k]);
                }
            }
            assert(forall|i: int, j: int|
                0 <= i < j < self.names@.len() ==> (#[trigger] self.names@[i])@ != (
                #[trigger] self.names@[j])@);
            assert(forall|i: int|
                0 <= i < self.names@.len() ==> self.devices@.contains_key(
                    (#[trigger] self.names@[i])@,
                ));
            assert forall|k: Seq<char>| self.devices@.contains_key(k) implies exists|i: int|
                0 <= i < self.names@.len() && (#[trigger] self.names@[i])@ == k by {
                let i = choose|i: int|
                    0 <= i < old(self).names@.len() && (#[trigger] old(self).names@[i])@ == k;
                assert(self.names@[i]@ == k);
            }
            assert(forall|k: Seq<char>|
                #[trigger] self.devices@.contains_key(k) ==> self.caches@.contains_key(k));
            assert(self.wf());
        }
    }

    /// Overwrites the ARC slot of the device's cache.
    pub fn update_arc(&mut self, device_name: &str, info: ARCInfo)
        requires
            old(self).wf(),
            old(self).caches@.contains_key(device_name@),
        ensures
            final(self).wf(),
            Self::update_frame(*old(self), *final(self), device_name@),
            final(self).caches@[device_name@]@ == (CacheModel {
                arc_info: Some(info@),
                ..old(self).caches@[device_name@]@
            }),
            old(self).presence_ok() ==> final(self).presence_ok(),
    {
        let new_cache: DeviceDiscoveryCache = match self.caches.get(device_name) {
            Some(c) => DeviceDiscoveryCache {
                dbc_info: clone_opt_dbc(&c.dbc_info),
                cmc_info: clone_opt_cmc(&c.cmc_info),
                arc_info: Some(info),
                chan_info: clone_chan_vec(&c.chan_info),
            },
            None => {
                proof {
                    assert(false);
                }
                DeviceDiscoveryCache {
                    dbc_info: None,
                    cmc_info: None,
                    arc_info: None,
                    chan_info: Vec::new(),
                }
            },
        };
        proof {
            assert(new_cache@ =~= (CacheModel {
                arc_info: Some(info@),
                ..old(self).caches@[device_name@]@
            }));
        }
        self.caches.insert(device_name.to_owned(), new_cache);
        proof {
            assert(self.caches@.dom() =~= old(self).caches@.dom());
            assert forall|k: Seq<char>| #[trigger] self.caches@.contains_key(k) implies chan_ids_unique(
                self.caches@[k].chan_info@,
            ) by {
                if k != device_name@ {
                    assert(self.caches@[k] == old(self).caches@[k]);
                }
            }
            assert(forall|i: int, j: int|
                0 <= i < j < self.names@.len() ==> (#[trigger] self.names@[i])@ != (
                #[trigger] self.names@[j])@);
            assert(forall|i: int|
                0 <= i < self.names@.len() ==> self.devices@.contains_key(
                    (#[trigger] self.names@[i])@,
                ));
            assert forall|k: Seq<char>| self.devices@.contains_key(k) implies exists|i: int|
                0 <= i < self.names@.len() && (#[trigger] self.names@[i])@ == k by {
                let i = choose|i: int|
                    0 <= i < old(self).names@.len() && (#[trigger] old(self).names@[i])@ == k;
                assert(self.names@[i]@ == k);
            }
            assert(forall|k: Seq<char>|
                #[trigger] self.devices@.contains_key(k) ==> self.caches@.contains_key(k));
            assert(self.wf());
        }
    }
}

/// Decides equality of two optional channel ids.
fn opt_id_eq(a: Option<u16>, b: Option<u16>) -> (r: bool)
    ensures
        r == (a == b),
{
    match (a, b) {
        (Some(x), Some(y)) => x == y,
        (None, None) => true,
        _ => false,
    }
}

/// Replacing a channel only touches the part of the list from the first
/// record sharing its id onward: the records before it are kept as they
/// are.
proof fn lemma_replace_prefix(s: Seq<CHANInfo>, c: CHANInfo, i: int)
    requires
        0 <= i <= s.len(),
        forall|j: int| 0 <= j < i ==> (#[trigger] s[j]).id != c.id,
    ensures
        spec_replace_chan(s, c) == s.subrange(0, i) + spec_replace_chan(
            s.subrange(i, s.len() as int),
            c,
        ),
    decreases i,
{
    if i == 0 {
        assert(s.subrange(0, s.len() as int) =~= s);
        assert(s.subrange(0, 0) + spec_replace_chan(s, c) =~= spec_replace_chan(s, c));
    } else {
        assert(s[0].id != c.id);
        assert(s.len() > 0);
        let s1 = s.drop_first();
        lemma_replace_prefix(s1, c, i - 1);
        assert(spec_replace_chan(s, c) == seq![s[0]] + spec_replace_chan(s1, c));
        assert(seq![s[0]] + s1.subrange(0, i - 1) =~= s.subrange(0, i));
        assert(s1.subrange(i - 1, s1.len() as int) =~= s.subrange(i, s.len() as int));
        assert(seq![s[0]] + (s1.subrange(0, i - 1) + spec_replace_chan(
            s1.subrange(i - 1, s1.len() as int),
            c,
        )) =~= s.subrange(0, i) + spec_replace_chan(s.subrange(i, s.len() as int), c));
    }
}

impl DanteDeviceList {
    /// Replaces the channel record sharing `info`'s id in the device's
    /// channel set, or adds `info` when no record shares it. The channel
    /// name of the retained record is always `info`'s: a later resolution
    /// supersedes an earlier one.
    pub fn update_chan(&mut self, device_name: &str, info: CHANInfo)
        requires
            old(self).wf(),
            old(self).caches@.contains_key(device_name@),
        ensures
            final(self).wf(),
            Self::update_frame(*old(self), *final(self), device_name@),
            final(self).caches@[device_name@].chan_info@ == spec_replace_chan(
                old(self).caches@[device_name@].chan_info@,
                info,
            ),
            final(self).caches@[device_name@]@.chan_info == spec_replace_chan_model(
                old(self).caches@[device_name@]@.chan_info,
                info@,
            ),
            final(self).caches@[device_name@]@.dbc_info == old(
                self,
            ).caches@[device_name@]@.dbc_info,
            final(self).caches@[device_name@]@.cmc_info == old(
                self,
            ).caches@[device_name@]@.cmc_info,
            final(self).caches@[device_name@]@.arc_info == old(
                self,
            ).caches@[device_name@]@.arc_info,
            old(self).presence_ok() ==> final(self).presence_ok(),
    {
        let new_cache: DeviceDiscoveryCache = match self.caches.get(device_name) {
            Some(c) => {
                let chans: &Vec<CHANInfo> = &c.chan_info;
                let n: usize = chans.len();
                let mut found: bool = false;
                let mut idx: usize = 0;
                let mut i: usize = 0;
                while i < n
                    invariant
                        0 <= i <= n,
                        n == chans@.len(),
                        found ==> 0 <= idx < i && chans@[idx as int].id == info.id
                            && forall|j: int| 0 <= j < idx ==> (#[trigger] chans@[j]).id != info.id,
                        !found ==> forall|j: int| 0 <= j < i ==> (#[trigger] chans@[j]).id
                            != info.id,
                    decreases n - i,
                {
                    if !found && opt_id_eq(chans[i].id, info.id) {
                        found = true;
                        idx = i;
                    }
                    i = i + 1;
                }
                let mut new_chans: Vec<CHANInfo> = Vec::new();
                if found {
                    let mut j: usize = 0;
                    while j < idx
                        invariant
                            0 <= j <= idx < n,
                            n == chans@.len(),
                            new_chans@ == chans@.subrange(0, j as int),
                        decreases idx - j,
                    {
                        new_chans.push(clone_chan(&chans[j]));
                        proof {
                            assert(new_chans@ =~= chans@.subrange(0, j + 1));
                        }
                        j = j + 1;
                    }
                    new_chans.push(info);
                    let mut k: usize = idx + 1;
                    while k < n
                        invariant
                            idx < k <= n,
                            n == chans@.len(),
                            new_chans@ == chans@.subrange(0, idx as int) + seq![info]
                                + chans@.subrange(idx + 1, k as int),
                        decreases n - k,
                    {
                        new_chans.push(clone_chan(&chans[k]));
                        proof {
                            assert(new_chans@ =~= chans@.subrange(0, idx as int) + seq![info]
                                + chans@.subrange(idx + 1, k + 1));
                        }
                        k = k + 1;
                    }
                    proof {
                        lemma_replace_prefix(chans@, info, idx as int);
                        let tail = chans@.subrange(idx as int, n as int);
                        assert(tail[0] == chans@[idx as int]);
                        assert(tail.drop_first() =~= chans@.subrange(idx + 1, n as int));
                        assert(spec_replace_chan(tail, info) == seq![info] + tail.drop_first());
                        assert(new_chans@ =~= spec_replace_chan(chans@, info));
                        assert forall|a: int, b: int|
                            0 <= a < b < new_chans@.len() implies (#[trigger] new_chans@[a]).id != (
                        #[trigger] new_chans@[b]).id by {
                            assert(chan_ids_unique(chans@));
                            assert(new_chans@[a].id == chans@[a].id);
                            assert(new_chans@[b].id == chans@[b].id);
                        }
                    }
                } else {
                    let mut j: usize = 0;
                    while j < n
                        invariant
                            0 <= j <= n,
                            n == chans@.len(),
                            new_chans@ == chans@.subrange(0, j as int),
                        decreases n - j,
                    {
                        new_chans.push(clone_chan(&chans[j]));
                        proof {
                            assert(new_chans@ =~= chans@.subrange(0, j + 1));
                        }
                        j = j + 1;
                    }
                    proof {
                        assert(chans@.subrange(0, n as int) =~= chans@);
                    }
                    new_chans.push(info);
                    proof {
                        lemma_replace_prefix(chans@, info, n as int);
                        let tail = chans@.subrange(n as int, n as int);
                        assert(tail.len() == 0);
                        assert(spec_replace_chan(tail, info) == seq![info]);
                        assert(new_chans@ =~= spec_replace_chan(chans@, info));
                        assert forall|a: int, b: int|
                            0 <= a < b < new_chans@.len() implies (#[trigger] new_chans@[a]).id != (
                        #[trigger] new_chans@[b]).id by {
                            assert(chan_ids_unique(chans@));
                            if b == new_chans@.len() - 1 {
                                assert(new_chans@[a] == chans@[a]);
                            }
                        }
                    }
                }
                DeviceDiscoveryCache {
                    dbc_info: clone_opt_dbc(&c.dbc_info),
                    cmc_info: clone_opt_cmc(&c.cmc_info),
                    arc_info: clone_opt_arc(&c.arc_info),
                    chan_info: new_chans,
                }
            },
            None => {
                proof {
                    assert(false);
                }
                DeviceDiscoveryCache {
                    dbc_info: None,
                    cmc_info: None,
                    arc_info: None,
                    chan_info: Vec::new(),
                }
            },
        };
        self.caches.insert(device_name.to_owned(), new_cache);
        proof {
            lemma_chans_model_replace(old(self).caches@[device_name@].chan_info@, info);
            assert(self.caches@.dom() =~= old(self).caches@.dom());
            assert forall|k: Seq<char>| #[trigger] self.caches@.contains_key(k) implies chan_ids_unique(
                self.caches@[k].chan_info@,
            ) by {
                if k != device_name@ {
                    assert(self.caches@[k] == old(self).caches@[k]);
                }
            }
            assert(forall|i: int, j: int|
                0 <= i < j < self.names@.len() ==> (#[trigger] self.names@[i])@ != (
                #[trigger] self.names@[j])@);
            assert(forall|i: int|
                0 <= i < self.names@.len() ==> self.devices@.contains_key(
                    (#[trigger] self.names@[i])@,
                ));
            assert forall|k: Seq<char>| self.devices@.contains_key(k) implies exists|i: int|
                0 <= i < self.names@.len() && (#[trigger] self.names@[i])@ == k by {
                let i = choose|i: int|
                    0 <= i < old(self).names@.len() && (#[trigger] old(self).names@[i])@ == k;
                assert(self.names@[i]@ == k);
            }
            assert(forall|k: Seq<char>|
                #[trigger] self.devices@.contains_key(k) ==> self.caches@.contains_key(k));
            assert(self.wf());
        }
    }
}

impl DanteDeviceList {
    /// How `disconnect_<cat>` changes the registry: the presence bit for
    /// `cat` is cleared; when no bit remains set the presence record and
    /// its name are dropped. The cache always survives.
    pub open spec fn disconnect_post(pre: Self, post: Self, name: Seq<char>, cat: Category) -> bool {
        &&& (with_bit(pre.devices@[name], cat, false).any_connected() ==> post.devices@
            == pre.devices@.insert(name, with_bit(pre.devices@[name], cat, false)) && post.names@
            == pre.names@)
        &&& (!with_bit(pre.devices@[name], cat, false).any_connected() ==> post.devices@
            == pre.devices@.remove(name) && exists|i: int|
            0 <= i < pre.names@.len() && (#[trigger] pre.names@[i])@ == name && post.names@
                == pre.names@.remove(i))
        &&& post.caches@ == pre.caches@
    }

    /// Drops the device's presence record and name exactly when no
    /// presence bit remains set. Rejected when the device is not present
    /// at all.
    pub fn check_remove(&mut self, device_name: &str) -> (r: Result<(), DeviceNotPresent>)
        requires
            old(self).wf(),
        ensures
            final(self).wf(),
            final(self).caches@ == old(self).caches@,
            !old(self).devices@.contains_key(device_name@) ==> r is Err && *final(self) == *old(
                self,
            ),
            old(self).devices@.contains_key(device_name@) ==> r is Ok,
            old(self).devices@.contains_key(device_name@)
                && old(self).devices@[device_name@].any_connected() ==> *final(self) == *old(self),
            old(self).devices@.contains_key(device_name@) && !old(
                self,
            ).devices@[device_name@].any_connected() ==> final(self).devices@ == old(
                self,
            ).devices@.remove(device_name@) && exists|i: int|
                0 <= i < old(self).names@.len() && (#[trigger] old(self).names@[i])@
                    == device_name@ && final(self).names@ == old(self).names@.remove(i),
            old(self).presence_ok() ==> final(self).presence_ok(),
    {
        let connected: bool;
        match self.devices.get(device_name) {
            None => {
                return Err(DeviceNotPresent {});
            },
            Some(st) => {
                connected = st.connected_dbc || st.connected_cmc || st.connected_arc
                    || st.connected_chan;
            },
        }
        if !connected {
            self.devices.remove(device_name);
            let key: String = device_name.to_owned();
            let n: usize = self.names.len();
            let mut idx: usize = 0;
            let mut found: bool = false;
            let mut i: usize = 0;
            while i < n
                invariant
                    0 <= i <= n,
                    n == self.names@.len(),
                    key@ == device_name@,
                    found ==> 0 <= idx < i && (self.names@[idx as int])@ == device_name@,
                    !found ==> forall|j: int| 0 <= j < i ==> (#[trigger] self.names@[j])@
                        != device_name@,
                decreases n - i,
            {
                if !found && self.names[i] == key {
                    found = true;
                    idx = i;
                }
                i = i + 1;
            }
            proof {
                if !found {
                    let w = choose|w: int|
                        0 <= w < old(self).names@.len() && (#[trigger] old(self).names@[w])@
                            == device_name@;
                    assert(false);
                }
            }
            let ghost names_before = self.names@;
            self.names.remove(idx);
            proof {
                let nb = names_before;
                let na = self.names@;
                let di = idx as int;
                assert(na == nb.remove(di));
                assert forall|a: int, b: int| 0 <= a < b < na.len() implies (#[trigger] na[a])@
                    != (#[trigger] na[b])@ by {
                    let a0 = if a < di {
                        a
                    } else {
                        a + 1
                    };
                    let b0 = if b < di {
                        b
                    } else {
                        b + 1
                    };
                    assert(na[a] == nb[a0]);
                    assert(na[b] == nb[b0]);
                }
                assert forall|j: int| 0 <= j < na.len() implies self.devices@.contains_key(
                    (#[trigger] na[j])@,
                ) by {
                    let j0 = if j < di {
                        j
                    } else {
                        j + 1
                    };
                    assert(na[j] == nb[j0]);
                    assert(j0 != di);
                    assert(nb[j0]@ != device_name@);
                }
                assert forall|k: Seq<char>| self.devices@.contains_key(k) implies exists|j: int|
                    0 <= j < na.len() && (#[trigger] na[j])@ == k by {
                    let j0 = choose|j0: int|
                        0 <= j0 < nb.len() && (#[trigger] nb[j0])@ == k;
                    assert(k != device_name@);
                    assert(j0 != di);
                    let j = if j0 < di {
                        j0
                    } else {
                        j0 - 1
                    };
                    assert(na[j] == nb[j0]);
                }
                assert(self.wf());
            }
        }
        Ok(())
    }

    /// Clears the device's presence bit for `cat` and drops the record if
    /// it was the last bit set.
    fn disconnect_with(&mut self, device_name: &str, cat: Category)
        requires
            old(self).wf(),
            old(self).devices@.contains_key(device_name@),
        ensures
            final(self).wf(),
            Self::disconnect_post(*old(self), *final(self), device_name@, cat),
            old(self).presence_ok() ==> final(self).presence_ok(),
    {
        let st: DeviceStatus = match self.devices.get(device_name) {
            Some(st) => *st,
            None => {
                proof {
                    assert(false);
                }
                DeviceStatus::new()
            },
        };
        let st2 = match cat {
            Category::Dbc => DeviceStatus { connected_dbc: false, ..st },
            Category::Cmc => DeviceStatus { connected_cmc: false, ..st },
            Category::Arc => DeviceStatus { connected_arc: false, ..st },
            Category::Chan => DeviceStatus { connected_chan: false, ..st },
        };
        self.devices.insert(device_name.to_owned(), st2);
        proof {
            assert(st2 == with_bit(st, cat, false));
            assert(self.devices@.dom() =~= old(self).devices@.dom());
            assert forall|k: Seq<char>| self.devices@.contains_key(k) implies exists|i: int|
                0 <= i < self.names@.len() && (#[trigger] self.names@[i])@ == k by {
                let i = choose|i: int|
                    0 <= i < old(self).names@.len() && (#[trigger] old(self).names@[i])@ == k;
                assert(self.names@[i]@ == k);
            }
            assert(self.wf());
        }
        let ghost mid = *self;
        let r = self.check_remove(device_name);
        proof {
            if st2.any_connected() {
                assert(*self == mid);
                assert(self.devices@ =~= old(self).devices@.insert(
                    device_name@,
                    with_bit(old(self).devices@[device_name@], cat, false),
                ));
            } else {
                assert(self.devices@ =~= old(self).devices@.remove(device_name@));
            }
            assert(Self::disconnect_post(*old(self), *self, device_name@, cat));
        }
    }

    /// Marks the device as gone from the DBC browser.
    pub fn disconnect_dbc(&mut self, device_name: &str)
        requires
            old(self).wf(),
            old(self).devices@.contains_key(device_name@),
        ensures
            final(self).wf(),
            Self::disconnect_post(*old(self), *final(self), device_name@, Category::Dbc),
            old(self).presence_ok() ==> final(self).presence_ok(),
    {
        self.disconnect_with(device_name, Category::Dbc);
    }

    /// Marks the device as gone from the CMC browser.
    pub fn disconnect_cmc(&mut self, device_name: &str)
        requires
            old(self).wf(),
            old(self).devices@.contains_key(device_name@),
        ensures
            final(self).wf(),
            Self::disconnect_post(*old(self), *final(self), device_name@, Category::Cmc),
            old(self).presence_ok() ==> final(self).presence_ok(),
    {
        self.disconnect_with(device_name, Category::Cmc);
    }

    /// Marks the device as gone from the ARC browser.
    pub fn disconnect_arc(&mut self, device_name: &str)
        requires
            old(self).wf(),
            old(self).devices@.contains_key(device_name@),
        ensures
            final(self).wf(),
            Self::disconnect_post(*old(self), *final(self), device_name@, Category::Arc),
            old(self).presence_ok() ==> final(self).presence_ok(),
    {
        self.disconnect_with(device_name, Category::Arc);
    }

    /// Marks the device as gone from the channel browser.
    pub fn disconnect_chan(&mut self, device_name: &str)
        requires
            old(self).wf(),
            old(self).devices@.contains_key(device_name@),
        ensures
            final(self).wf(),
            Self::disconnect_post(*old(self), *final(self), device_name@, Category::Chan),
            old(self).presence_ok() ==> final(self).presence_ok(),
    {
        self.disconnect_with(device_name, Category::Chan);
    }
}

/// True when `v` holds `x`.
fn vec_contains_u32(v: &Vec<u32>, x: u32) -> (r: bool)
    ensures
        r == v@.contains(x),
{
    let mut i: usize = 0;
    while i < v.len()
        invariant
            0 <= i <= v@.len(),
            forall|j: int| 0 <= j < i ==> v@[j] != x,
        decreases v@.len() - i,
    {
        if v[i] == x {
            return true;
        }
        i = i + 1;
    }
    false
}

/// Appends each value of `src` that `dst` does not yet hold, keeping `dst`
/// free of duplicates.
fn add_unique(dst: &mut Vec<u32>, src: &Vec<u32>)
    requires
        old(dst)@.no_duplicates(),
    ensures
        final(dst)@.no_duplicates(),
        final(dst)@.to_set() == old(dst)@.to_set().union(src@.to_set()),
{
    broadcast use vstd::seq_lib::lemma_seq_contains_after_push;
    broadcast use vstd::prelude::Seq::lemma_push_to_set_commute;

    let mut i: usize = 0;
    while i < src.len()
        invariant
            0 <= i <= src@.len(),
            dst@.no_duplicates(),
            dst@.to_set() == old(dst)@.to_set().union(src@.subrange(0, i as int).to_set()),
        decreases src@.len() - i,
    {
        let ghost pre = dst@;
        let x = src[i];
        if !vec_contains_u32(dst, x) {
            dst.push(x);
            proof {
                assert forall|a: int, b: int| 0 <= a < b < dst@.len() implies dst@[a] != dst@[b] by {
                    if b == dst@.len() - 1 {
                        assert(!pre.contains(dst@[b]));
                        assert(pre[a] == dst@[a]);
                    }
                }
            }
        }
        proof {
            assert(src@.subrange(0, i + 1) =~= src@.subrange(0, i as int).push(src@[i as int]));
            src@.subrange(0, i as int).lemma_push_to_set_commute(x);
            assert(src@.subrange(0, i + 1).to_set() == src@.subrange(0, i as int).to_set().insert(
                x,
            ));
            if pre.contains(x) {
                assert(pre.to_set().contains(x));
                assert(dst@.to_set() =~= old(dst)@.to_set().union(
                    src@.subrange(0, i + 1).to_set(),
                ));
            } else {
                assert(dst@ == pre.push(x));
                pre.lemma_push_to_set_commute(x);
                assert(dst@.to_set() =~= old(dst)@.to_set().union(
                    src@.subrange(0, i + 1).to_set(),
                ));
            }
        }
        i = i + 1;
    }
    proof {
        assert(src@.subrange(0, src@.len() as int) =~= src@);
    }
}

impl DanteDeviceList {
    /// True when the device is present and one of its channel records
    /// carries the given id.
    pub fn channel_id_exist(&self, device_name: &str, chan_id: u16) -> (r: bool)
        requires
            self.wf(),
        ensures
            r == (self.devices@.contains_key(device_name@) && exists|i: int|
                0 <= i < self.caches@[device_name@].chan_info@.len() && (
                #[trigger] self.caches@[device_name@].chan_info@[i]).id == Some(chan_id)),
    {
        if !self.device_connected(device_name) {
            return false;
        }
        match self.caches.get(device_name) {
            Some(cache) => {
                let chans: &Vec<CHANInfo> = &cache.chan_info;
                proof {
                    assert(chans@ == self.caches@[device_name@].chan_info@);
                }
                let mut i: usize = 0;
                while i < chans.len()
                    invariant
                        0 <= i <= chans@.len(),
                        self.devices@.contains_key(device_name@),
                        chans@ == self.caches@[device_name@].chan_info@,
                        forall|j: int| 0 <= j < i ==> (#[trigger] chans@[j]).id != Some(chan_id),
                    decreases chans@.len() - i,
                {
                    match chans[i].id {
                        Some(cid) => {
                            if cid == chan_id {
                                proof {
                                    assert(self.devices@.contains_key(device_name@));
                                    assert(self.caches@[device_name@].chan_info@[i as int].id
                                        == Some(chan_id));
                                    assert(exists|k: int|
                                        0 <= k < self.caches@[device_name@].chan_info@.len() && (
                                        #[trigger] self.caches@[device_name@].chan_info@[k]).id
                                            == Some(chan_id));
                                }
                                return true;
                            }
                        },
                        None => {},
                    }
                    i = i + 1;
                }
                false
            },
            None => {
                proof {
                    assert(false);
                }
                false
            },
        }
    }

    /// The name of the device's channel with the given id, when the device
    /// is present and such a channel exists.
    pub fn get_channel_name_from_id(&self, device_name: &str, chan_id: u16) -> (r: Option<String>)
        requires
            self.wf(),
        ensures
            r is Some <==> (self.devices@.contains_key(device_name@) && exists|i: int|
                0 <= i < self.caches@[device_name@].chan_info@.len() && (
                #[trigger] self.caches@[device_name@].chan_info@[i]).id == Some(chan_id)),
            match r {
                Some(name) => exists|i: int|
                    0 <= i < self.caches@[device_name@].chan_info@.len() && (
                    #[trigger] self.caches@[device_name@].chan_info@[i]).id == Some(chan_id)
                        && name@ == self.caches@[device_name@].chan_info@[i].name@,
                None => true,
            },
    {
        if !self.device_connected(device_name) {
            return None;
        }
        match self.caches.get(device_name) {
            Some(cache) => {
                let chans: &Vec<CHANInfo> = &cache.chan_info;
                proof {
                    assert(chans@ == self.caches@[device_name@].chan_info@);
                }
                let mut i: usize = 0;
                while i < chans.len()
                    invariant
                        0 <= i <= chans@.len(),
                        self.devices@.contains_key(device_name@),
                        chans@ == self.caches@[device_name@].chan_info@,
                        forall|j: int| 0 <= j < i ==> (#[trigger] chans@[j]).id != Some(chan_id),
                    decreases chans@.len() - i,
                {
                    match chans[i].id {
                        Some(cid) => {
                            if cid == chan_id {
                                proof {
                                    assert(self.devices@.contains_key(device_name@));
                                    assert(self.caches@[device_name@].chan_info@[i as int].id
                                        == Some(chan_id));
                                    assert(exists|k: int|
                                        0 <= k < self.caches@[device_name@].chan_info@.len() && (
                                        #[trigger] self.caches@[device_name@].chan_info@[k]).id
                                            == Some(chan_id));
                                }
                                return Some(chans[i].name.clone());
                            }
                        },
                        None => {},
                    }
                    i = i + 1;
                }
                None
            },
            None => {
                proof {
                    assert(false);
                }
                None
            },
        }
    }

    /// The device's addresses: the union of the IP sets of its populated
    /// DBC, CMC and ARC info slots, without duplicates. `None` exactly when
    /// the device is not present.
    pub fn get_device_ips(&self, device_name: &str) -> (r: Option<Vec<u32>>)
        requires
            self.wf(),
        ensures
            r is Some <==> self.devices@.contains_key(device_name@),
            match r {
                Some(ips) => ips@.no_duplicates() && ips@.to_set() == spec_device_ips(
                    self.caches@[device_name@]@,
                ),
                None => true,
            },
    {
        if !self.device_connected(device_name) {
            return None;
        }
        match self.caches.get(device_name) {
            Some(cache) => {
                let mut ips: Vec<u32> = Vec::new();
                proof {
                    assert(ips@.to_set() =~= Set::<u32>::empty());
                }
                match &cache.arc_info {
                    Some(info) => add_unique(&mut ips, &info.addresses),
                    None => {},
                }
                match &cache.dbc_info {
                    Some(info) => add_unique(&mut ips, &info.addresses),
                    None => {},
                }
                match &cache.cmc_info {
                    Some(info) => add_unique(&mut ips, &info.addresses),
                    None => {},
                }
                proof {
                    assert(ips@.to_set() =~= spec_device_ips(self.caches@[device_name@]@));
                }
                Some(ips)
            },
            None => {
                proof {
                    assert(false);
                }
                None
            },
        }
    }
}

/// Copies a vector of addresses.
pub(crate) fn clone_u32_vec(v: &Vec<u32>) -> (r: Vec<u32>)
    ensures
        r@ == v@,
{
    let mut r: Vec<u32> = Vec::new();
    let mut i: usize = 0;
    while i < v.len()
        invariant
            0 <= i <= v.len(),
            r@ == v@.subrange(0, i as int),
        decreases v.len() - i,
    {
        r.push(v[i]);
        proof {
            assert(r@ =~= v@.subrange(0, i + 1));
        }
        i = i + 1;
    }
    proof {
        assert(r@ =~= v@);
    }
    r
}

/// Copies an optional DBC slot, preserving its image.
fn clone_opt_dbc(o: &Option<DBCInfo>) -> (r: Option<DBCInfo>)
    ensures
        dbc_model(r) == dbc_model(*o),
{
    match o {
        Some(i) => Some(DBCInfo { addresses: clone_u32_vec(&i.addresses), port: i.port }),
        None => None,
    }
}

/// Copies an optional CMC slot, preserving its image.
fn clone_opt_cmc(o: &Option<CMCInfo>) -> (r: Option<CMCInfo>)
    ensures
        cmc_model(r) == cmc_model(*o),
{
    match o {
        Some(i) => Some(
            CMCInfo {
                addresses: clone_u32_vec(&i.addresses),
                port: i.port,
                id: i.id.clone(),
                manufacturer: i.manufacturer.clone(),
                model: i.model.clone(),
            },
        ),
        None => None,
    }
}

/// Copies an optional ARC slot, preserving its image.
fn clone_opt_arc(o: &Option<ARCInfo>) -> (r: Option<ARCInfo>)
    ensures
        arc_model(r) == arc_model(*o),
{
    match o {
        Some(i) => Some(
            ARCInfo {
                addresses: clone_u32_vec(&i.addresses),
                port: i.port,
                router_vers: i.router_vers.clone(),
                router_info: i.router_info.clone(),
            },
        ),
        None => None,
    }
}

/// Copies a channel record. Cloning the name string preserves it exactly,
/// so the copy equals the original.
pub(crate) fn clone_chan(c: &CHANInfo) -> (r: CHANInfo)
    ensures
        r == *c,
{
    CHANInfo {
        name: c.name.clone(),
        id: c.id,
        sample_rate: c.sample_rate,
        encoding: c.encoding,
        latency_ns: c.latency_ns,
    }
}

/// Copies a channel list.
fn clone_chan_vec(v: &Vec<CHANInfo>) -> (r: Vec<CHANInfo>)
    ensures
        r@ == v@,
{
    let mut r: Vec<CHANInfo> = Vec::new();
    let mut i: usize = 0;
    while i < v.len()
        invariant
            0 <= i <= v.len(),
            r@ == v@.subrange(0, i as int),
        decreases v.len() - i,
    {
        r.push(clone_chan(&v[i]));
        proof {
            assert(r@ =~= v@.subrange(0, i + 1));
        }
        i = i + 1;
    }
    proof {
        assert(r@ =~= v@);
    }
    r
}


/// Law: a present device has at least one of the four presence bits set.
pub proof fn lemma_present_implies_connected(l: DanteDeviceList, name: Seq<char>)
    requires
        l.presence_ok(),
        l.devices@.contains_key(name),
    ensures
        l.devices@[name].any_connected(),
{
}

/// Law: a present device has a cache.
pub proof fn lemma_present_implies_cache(l: DanteDeviceList, name: Seq<char>)
    requires
        l.wf(),
        l.devices@.contains_key(name),
    ensures
        l.caches@.contains_key(name),
{
}

/// Law: two channel records of one device that carry the same set id are
/// one and the same record.
pub proof fn lemma_channel_ids_unique(l: DanteDeviceList, name: Seq<char>, i: int, j: int)
    requires
        l.wf(),
        l.caches@.contains_key(name),
        0 <= i < l.caches@[name].chan_info@.len(),
        0 <= j < l.caches@[name].chan_info@.len(),
        l.caches@[name].chan_info@[i].id is Some,
        l.caches@[name].chan_info@[i].id == l.caches@[name].chan_info@[j].id,
    ensures
        i == j,
{
    assert(chan_ids_unique(l.caches@[name].chan_info@));
    if i < j {
        assert(l.caches@[name].chan_info@[i].id != l.caches@[name].chan_info@[j].id);
    } else if j < i {
        assert(l.caches@[name].chan_info@[j].id != l.caches@[name].chan_info@[i].id);
    }
}

/// Law: `try_add_device` is idempotent. A second call with the same name
/// leaves the registry exactly as the first call left it.
pub proof fn lemma_try_add_idempotent(
    l0: DanteDeviceList,
    l1: DanteDeviceList,
    l2: DanteDeviceList,
    name: Seq<char>,
)
    requires
        l0.devices@.contains_key(name) ==> l1 == l0,
        !l0.devices@.contains_key(name) ==> DanteDeviceList::add_post(l0, l1, name),
        l1.devices@.contains_key(name) ==> l2 == l1,
        !l1.devices@.contains_key(name) ==> DanteDeviceList::add_post(l1, l2, name),
    ensures
        l2 == l1,
{
    if !l0.devices@.contains_key(name) {
        assert(l1.devices@.contains_key(name));
    }
}

/// Law: connecting a category and then disconnecting it restores the bit,
/// for a device that did not carry the bit before; and when the device had
/// no other bit set (or did not exist), it is absent afterwards. A device
/// that already carried the bit is not restored: the disconnect clears it.
pub proof fn lemma_connect_then_disconnect(
    l0: DanteDeviceList,
    l1: DanteDeviceList,
    l2: DanteDeviceList,
    name: Seq<char>,
    cat: Category,
)
    requires
        !l0.devices@.contains_key(name) || !bit_of(l0.devices@[name], cat),
        DanteDeviceList::connect_post(l0, l1, name, cat),
        DanteDeviceList::disconnect_post(l1, l2, name, cat),
    ensures
        l2.devices@.contains_key(name) ==> bit_of(l2.devices@[name], cat) == false,
        !l0.devices@.contains_key(name) ==> !l2.devices@.contains_key(name) && l2.devices@
            == l0.devices@,
        l0.devices@.contains_key(name) && !l0.devices@[name].any_connected()
            ==> !l2.devices@.contains_key(name),
        l0.devices@.contains_key(name) && l0.devices@[name].any_connected() ==> l2.devices@
            == l0.devices@,
{
    if l0.devices@.contains_key(name) {
        let st0 = l0.devices@[name];
        assert(l1.devices@[name] == with_bit(st0, cat, true));
        assert(with_bit(with_bit(st0, cat, true), cat, false) == st0);
        if st0.any_connected() {
            assert(l2.devices@ == l1.devices@.insert(name, st0));
            assert(l2.devices@ =~= l0.devices@);
        } else {
            assert(l2.devices@ == l1.devices@.remove(name));
        }
    } else {
        let st0 = DeviceStatus::spec_empty();
        assert(l1.devices@[name] == with_bit(st0, cat, true));
        assert(with_bit(with_bit(st0, cat, true), cat, false) == st0);
        assert(!st0.any_connected());
        assert(l2.devices@ == l1.devices@.remove(name));
        assert(l2.devices@ =~= l0.devices@);
    }
}

/// Law: updating a channel twice with records sharing one id leaves the
/// channel set exactly as a single update with the second record would;
/// stated over the channel-set images that the event appliers speak of.
pub proof fn lemma_replace_chan_model_same_id(s: Seq<ChanModel>, m1: ChanModel, m2: ChanModel)
    requires
        m1.id == m2.id,
    ensures
        spec_replace_chan_model(spec_replace_chan_model(s, m1), m2) == spec_replace_chan_model(
            s,
            m2,
        ),
    decreases s.len(),
{
    if s.len() == 0 {
        assert(spec_replace_chan_model(s, m1) == seq![m1]);
        assert(seq![m1].len() == 1);
        assert(seq![m1][0] == m1);
        assert(spec_replace_chan_model(seq![m1], m2) == seq![m2] + seq![m1].drop_first());
        assert(seq![m2] + seq![m1].drop_first() =~= seq![m2]);
    } else if s[0].id == m1.id {
        let r1 = seq![m1] + s.drop_first();
        assert(spec_replace_chan_model(s, m1) == r1);
        assert(r1[0] == m1);
        assert(r1.len() > 0);
        assert(spec_replace_chan_model(r1, m2) == seq![m2] + r1.drop_first());
        assert(r1.drop_first() =~= s.drop_first());
        assert(spec_replace_chan_model(s, m2) == seq![m2] + s.drop_first());
    } else {
        let r1 = seq![s[0]] + spec_replace_chan_model(s.drop_first(), m1);
        assert(spec_replace_chan_model(s, m1) == r1);
        assert(r1[0] == s[0]);
        assert(r1.len() > 0);
        assert(r1[0].id != m2.id);
        lemma_replace_chan_model_same_id(s.drop_first(), m1, m2);
        assert(r1.drop_first() =~= spec_replace_chan_model(s.drop_first(), m1));
        assert(spec_replace_chan_model(r1, m2) == seq![s[0]] + spec_replace_chan_model(
            r1.drop_first(),
            m2,
        ));
        assert(spec_replace_chan_model(s, m2) == seq![s[0]] + spec_replace_chan_model(
            s.drop_first(),
            m2,
        ));
    }
}

/// Law: updating a channel twice with records sharing one id leaves the
/// channel set exactly as a single update with the second record would.
pub proof fn lemma_replace_chan_same_id(s: Seq<CHANInfo>, c1: CHANInfo, c2: CHANInfo)
    requires
        c1.id == c2.id,
    ensures
        spec_replace_chan(spec_replace_chan(s, c1), c2) == spec_replace_chan(s, c2),
    decreases s.len(),
{
    if s.len() == 0 {
        assert(spec_replace_chan(s, c1) == seq![c1]);
        assert(seq![c1].len() == 1);
        assert(seq![c1][0] == c1);
        assert(spec_replace_chan(seq![c1], c2) == seq![c2] + seq![c1].drop_first());
        assert(seq![c2] + seq![c1].drop_first() =~= seq![c2]);
    } else if s[0].id == c1.id {
        let r1 = seq![c1] + s.drop_first();
        assert(spec_replace_chan(s, c1) == r1);
        assert(r1[0] == c1);
        assert(r1.len() > 0);
        assert(spec_replace_chan(r1, c2) == seq![c2] + r1.drop_first());
        assert(r1.drop_first() =~= s.drop_first());
        assert(spec_replace_chan(s, c2) == seq![c2] + s.drop_first());
    } else {
        let r1 = seq![s[0]] + spec_replace_chan(s.drop_first(), c1);
        assert(spec_replace_chan(s, c1) == r1);
        assert(r1[0] == s[0]);
        assert(r1.len() > 0);
        assert(r1[0].id != c2.id);
        lemma_replace_chan_same_id(s.drop_first(), c1, c2);
        assert(r1.drop_first() =~= spec_replace_chan(s.drop_first(), c1));
        assert(spec_replace_chan(r1, c2) == seq![s[0]] + spec_replace_chan(r1.drop_first(), c2));
        assert(spec_replace_chan(s, c2) == seq![s[0]] + spec_replace_chan(s.drop_first(), c2));
    }
}

} // verus!
