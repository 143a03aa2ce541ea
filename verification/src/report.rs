//! The report formatter: a human-readable dump of the registry.
//!
//! One multi-line string per device: the four presence bits, the CMC
//! identity fields, the ARC router fields, port and addresses, and the
//! channel names sorted ascending by channel id, records without an id
//! last. Missing slots render as `"N/A"`.

use vstd::prelude::*;
use vstd::string::StringExecFns;
use crate::manager::DanteDeviceManager;
use crate::registry::CHANInfo;
use crate::registry::CacheModel;
use crate::registry::DeviceDiscoveryCache;
use crate::registry::DeviceStatus;

verus! {

/// The decimal digit character of `n`, for `0 <= n <= 9`.
pub open spec fn dec_digit(n: int) -> char {
    if n == 0 {
        '0'
    } else if n == 1 {
        '1'
    } else if n == 2 {
        '2'
    } else if n == 3 {
        '3'
    } else if n == 4 {
        '4'
    } else if n == 5 {
        '5'
    } else if n == 6 {
        '6'
    } else if n == 7 {
        '7'
    } else if n == 8 {
        '8'
    } else {
        '9'
    }
}

/// The decimal rendering of a non-negative number, most significant digit
/// first.
pub open spec fn dec_str(n: int) -> Seq<char>
    decreases n,
{
    if n < 10 {
        seq![dec_digit(n)]
    } else {
        dec_str(n / 10) + seq![dec_digit(n % 10)]
    }
}

/// The dotted-quad rendering of an IPv4 address held as a 32-bit number,
/// most significant octet first.
pub open spec fn ip_str(ip: u32) -> Seq<char> {
    dec_str((ip as int) / 0x1000000 % 256) + "."@ + dec_str((ip as int) / 0x10000 % 256) + "."@
        + dec_str((ip as int) / 0x100 % 256) + "."@ + dec_str((ip as int) % 256)
}

/// The comma-joined rendering of an address list.
pub open spec fn ips_join(s: Seq<u32>) -> Seq<char>
    decreases s.len(),
{
    if s.len() == 0 {
        Seq::empty()
    } else if s.len() == 1 {
        ip_str(s.last())
    } else {
        ips_join(s.drop_last()) + ", "@ + ip_str(s.last())
    }
}

/// One quoted line per channel name.
pub open spec fn chan_lines(s: Seq<CHANInfo>) -> Seq<char>
    decreases s.len(),
{
    if s.len() == 0 {
        Seq::empty()
    } else {
        chan_lines(s.drop_last()) + "\n\""@ + s.last().name@ + "\""@
    }
}

/// `Connected` or `Disconnected`.
pub open spec fn status_str(b: bool) -> Seq<char> {
    if b {
        "Connected"@
    } else {
        "Disconnected"@
    }
}

/// The sort key of a channel record: its id, with unset ids after every
/// set one.
pub open spec fn chan_key(c: CHANInfo) -> int {
    match c.id {
        Some(v) => v as int,
        None => 0x10000,
    }
}

/// Ascending by channel id, unset ids last.
pub open spec fn sorted_by_chan_key(s: Seq<CHANInfo>) -> bool {
    forall|i: int, j: int| 0 <= i < j < s.len() ==> chan_key(#[trigger] s[i]) <= chan_key(
        #[trigger] s[j],
    )
}

/// The report of one device.
pub open spec fn spec_description(
    name: Seq<char>,
    st: DeviceStatus,
    cache: CacheModel,
    sorted: Seq<CHANInfo>,
) -> Seq<char> {
    name + ":\ndbc status: "@ + status_str(st.connected_dbc) + "\ncmc status: "@ + status_str(
        st.connected_cmc,
    ) + "\narc status: "@ + status_str(st.connected_arc) + "\nchan status: "@ + status_str(
        st.connected_chan,
    ) + "\nid: "@ + (match cache.cmc_info {
        Some(c) => c.id,
        None => "N/A"@,
    }) + "\nmanufacturer: "@ + (match cache.cmc_info {
        Some(c) => c.manufacturer,
        None => "N/A"@,
    }) + "\nmodel: "@ + (match cache.cmc_info {
        Some(c) => c.model,
        None => "N/A"@,
    }) + "\nrouter_vers: "@ + (match cache.arc_info {
        Some(a) => a.router_vers,
        None => "N/A"@,
    }) + "\nrouter_info: "@ + (match cache.arc_info {
        Some(a) => a.router_info,
        None => "N/A"@,
    }) + "\nARC port: "@ + (match cache.arc_info {
        Some(a) => dec_str(a.port as int),
        None => "N/A"@,
    }) + "\nIP: "@ + (match cache.arc_info {
        Some(a) => "{"@ + ips_join(a.addresses) + "}"@,
        None => "N/A"@,
    }) + "\nChannels:"@ + chan_lines(sorted)
}

/// A report line for the device at position `j` of the name list: the
/// channels appear sorted ascending by id, records without an id last.
pub open spec fn is_description_of(out: Seq<char>, l: crate::registry::DanteDeviceList, j: int) -> bool {
    exists|sorted: Seq<CHANInfo>|
        {
            &&& #[trigger] sorted.to_multiset() == l.caches@[l.names@[j]@].chan_info@.to_multiset()
            &&& sorted_by_chan_key(sorted)
            &&& out == spec_description(
                l.names@[j]@,
                l.devices@[l.names@[j]@],
                l.caches@[l.names@[j]@]@,
                sorted,
            )
        }
}

/// The digit character of `d`.
fn digit_literal(d: u64) -> (r: &'static str)
    requires
        d < 10,
    ensures
        r@ == seq![dec_digit(d as int)],
{
    proof {
        reveal_strlit("0");
        reveal_strlit("1");
        reveal_strlit("2");
        reveal_strlit("3");
        reveal_strlit("4");
        reveal_strlit("5");
        reveal_strlit("6");
        reveal_strlit("7");
        reveal_strlit("8");
        reveal_strlit("9");
    }
    let r: &'static str = match d {
        0 => "0",
        1 => "1",
        2 => "2",
        3 => "3",
        4 => "4",
        5 => "5",
        6 => "6",
        7 => "7",
        8 => "8",
        _ => "9",
    };
    proof {
        assert(r@ =~= seq![dec_digit(d as int)]);
    }
    r
}

/// Renders a number in decimal.
pub fn u64_to_dec(x: u64) -> (r: String)
    ensures
        r@ == dec_str(x as int),
    decreases x,
{
    if x < 10 {
        digit_literal(x).to_owned()
    } else {
        let mut s = u64_to_dec(x / 10);
        s.append(digit_literal(x % 10));
        s
    }
}

/// Renders an IPv4 address, held as a 32-bit number, in dotted-quad form.
pub fn ip_to_string(ip: u32) -> (r: String)
    ensures
        r@ == ip_str(ip),
{
    let mut s = u64_to_dec((ip / 0x1000000 % 256) as u64);
    s.append(".");
    s.append(u64_to_dec((ip / 0x10000 % 256) as u64).as_str());
    s.append(".");
    s.append(u64_to_dec((ip / 0x100 % 256) as u64).as_str());
    s.append(".");
    s.append(u64_to_dec((ip % 256) as u64).as_str());
    proof {
        assert(s@ =~= ip_str(ip));
    }
    s
}

/// Renders an address list, comma-joined.
fn ips_to_string(addrs: &Vec<u32>) -> (r: String)
    ensures
        r@ == ips_join(addrs@),
{
    let mut s = String::new();
    let mut i: usize = 0;
    while i < addrs.len()
        invariant
            0 <= i <= addrs@.len(),
            s@ == ips_join(addrs@.subrange(0, i as int)),
        decreases addrs@.len() - i,
    {
        if i > 0 {
            s.append(", ");
        }
        s.append(ip_to_string(addrs[i]).as_str());
        proof {
            let p = addrs@.subrange(0, i + 1);
            assert(p.drop_last() =~= addrs@.subrange(0, i as int));
            assert(p.last() == addrs@[i as int]);
            assert(s@ =~= ips_join(p));
        }
        i = i + 1;
    }
    proof {
        assert(addrs@.subrange(0, addrs@.len() as int) =~= addrs@);
    }
    s
}

/// The sort key of a channel record, computed.
fn chan_key_exec(c: &CHANInfo) -> (r: u32)
    ensures
        r as int == chan_key(*c),
{
    match c.id {
        Some(v) => v as u32,
        None => 0x10000,
    }
}

/// Inserting anywhere adds the element to a sequence's multiset.
proof fn lemma_insert_to_multiset(s: Seq<CHANInfo>, i: int, a: CHANInfo)
    requires
        0 <= i <= s.len(),
    ensures
        s.insert(i, a).to_multiset() == s.to_multiset().insert(a),
{
    broadcast use vstd::seq_lib::group_seq_properties;

    let left = s.subrange(0, i);
    let right = s.subrange(i, s.len() as int);
    assert(s =~= left + right);
    assert(s.insert(i, a) =~= left.push(a) + right);
    vstd::seq_lib::lemma_multiset_commutative(left.push(a), right);
    vstd::seq_lib::lemma_multiset_commutative(left, right);
    left.to_multiset_ensures();
    assert(left.push(a).to_multiset() =~= left.to_multiset().insert(a));
    assert(s.insert(i, a).to_multiset() =~= s.to_multiset().insert(a));
}

/// Sorts channel records ascending by id, unset ids last; the records are
/// kept, only their order changes.
pub fn sorted_channels(chans: &Vec<CHANInfo>) -> (r: Vec<CHANInfo>)
    ensures
        r@.len() == chans@.len(),
        r@.to_multiset() == chans@.to_multiset(),
        sorted_by_chan_key(r@),
{
    let mut out: Vec<CHANInfo> = Vec::new();
    proof {
        out@.to_multiset_ensures();
        chans@.subrange(0, 0).to_multiset_ensures();
        assert(out@.to_multiset() =~= chans@.subrange(0, 0).to_multiset());
    }
    let mut i: usize = 0;
    while i < chans.len()
        invariant
            0 <= i <= chans@.len(),
            out@.len() == i,
            out@.to_multiset() == chans@.subrange(0, i as int).to_multiset(),
            sorted_by_chan_key(out@),
        decreases chans@.len() - i,
    {
        let c = crate::registry::clone_chan(&chans[i]);
        let ck: u32 = chan_key_exec(&c);
        let mut pos: usize = 0;
        while pos < out.len() && chan_key_exec(&out[pos]) <= ck
            invariant
                0 <= pos <= out@.len(),
                ck as int == chan_key(c),
                forall|j: int| 0 <= j < pos ==> chan_key(#[trigger] out@[j]) <= ck as int,
                sorted_by_chan_key(out@),
            decreases out@.len() - pos,
        {
            pos = pos + 1;
        }
        let ghost pre = out@;
        out.insert(pos, c);
        proof {
            assert(out@ =~= pre.subrange(0, pos as int).push(c) + pre.subrange(
                pos as int,
                pre.len() as int,
            ));
            assert(forall|b: int| pos < b < out@.len() ==> out@[b] == pre[b - 1]);
            assert(forall|a: int| 0 <= a < pos ==> out@[a] == pre[a]);
            lemma_insert_to_multiset(pre, pos as int, c);
            let q = chans@.subrange(0, i + 1);
            assert(q.drop_last() =~= chans@.subrange(0, i as int));
            assert(q.last() == chans@[i as int]);
            q.drop_last().to_multiset_ensures();
            assert(q =~= q.drop_last().push(q.last()));
            assert(q.to_multiset() =~= q.drop_last().to_multiset().insert(q.last()));
            assert(out@.to_multiset() =~= q.to_multiset());
            assert forall|a: int, b: int| 0 <= a < b < out@.len() implies chan_key(
                #[trigger] out@[a],
            ) <= chan_key(#[trigger] out@[b]) by {
                if b == pos {
                    assert(out@[b] == c);
                    assert(out@[a] == pre[a]);
                } else if a == pos {
                    assert(out@[a] == c);
                    assert(out@[b] == pre[b - 1]);
                    assert(chan_key(pre[pos as int]) > ck as int);
                } else {
                    let a0 = if a < pos {
                        a
                    } else {
                        a - 1
                    };
                    let b0 = if b < pos {
                        b
                    } else {
                        b - 1
                    };
                    assert(out@[a] == pre[a0]);
                    assert(out@[b] == pre[b0]);
                    assert(0 <= a0 < b0 < pre.len());
                }
            }
        }
        i = i + 1;
    }
    proof {
        assert(chans@.subrange(0, chans@.len() as int) =~= chans@);
        out@.to_multiset_ensures();
        chans@.to_multiset_ensures();
    }
    out
}

/// Appends a TXT-derived field or its `"N/A"` default.
fn append_or_na(s: &mut String, v: Option<&String>)
    ensures
        final(s)@ == old(s)@ + (match v {
            Some(x) => x@,
            None => "N/A"@,
        }),
{
    match v {
        Some(x) => s.append(x.as_str()),
        None => s.append("N/A"),
    }
}

/// Renders the report of one device.
#[verifier::rlimit(100)]
fn describe_device(
    name: &String,
    st: &DeviceStatus,
    cache: &DeviceDiscoveryCache,
    sorted: &Vec<CHANInfo>,
) -> (r: String)
    ensures
        r@ == spec_description(name@, *st, cache@, sorted@),
{
    let mut s: String = name.clone();
    s.append(":\ndbc status: ");
    s.append(if st.connected_dbc {
        "Connected"
    } else {
        "Disconnected"
    });
    s.append("\ncmc status: ");
    s.append(if st.connected_cmc {
        "Connected"
    } else {
        "Disconnected"
    });
    s.append("\narc status: ");
    s.append(if st.connected_arc {
        "Connected"
    } else {
        "Disconnected"
    });
    s.append("\nchan status: ");
    s.append(if st.connected_chan {
        "Connected"
    } else {
        "Disconnected"
    });
    s.append("\nid: ");
    append_or_na(
        &mut s,
        match &cache.cmc_info {
            Some(c) => Some(&c.id),
            None => None,
        },
    );
    s.append("\nmanufacturer: ");
    append_or_na(
        &mut s,
        match &cache.cmc_info {
            Some(c) => Some(&c.manufacturer),
            None => None,
        },
    );
    s.append("\nmodel: ");
    append_or_na(
        &mut s,
        match &cache.cmc_info {
            Some(c) => Some(&c.model),
            None => None,
        },
    );
    s.append("\nrouter_vers: ");
    append_or_na(
        &mut s,
        match &cache.arc_info {
            Some(a) => Some(&a.router_vers),
            None => None,
        },
    );
    s.append("\nrouter_info: ");
    append_or_na(
        &mut s,
        match &cache.arc_info {
            Some(a) => Some(&a.router_info),
            None => None,
        },
    );
    s.append("\nARC port: ");
    match &cache.arc_info {
        Some(a) => s.append(u64_to_dec(a.port as u64).as_str()),
        None => s.append("N/A"),
    }
    s.append("\nIP: ");
    match &cache.arc_info {
        Some(a) => {
            s.append("{");
            s.append(ips_to_string(&a.addresses).as_str());
            s.append("}");
        },
        None => s.append("N/A"),
    }
    s.append("\nChannels:");
    let mut i: usize = 0;
    let ghost base = s@;
    proof {
        assert(chan_lines(sorted@.subrange(0, 0)) =~= Seq::<char>::empty());
        assert(s@ =~= base + chan_lines(sorted@.subrange(0, 0)));
    }
    while i < sorted.len()
        invariant
            0 <= i <= sorted@.len(),
            s@ == base + chan_lines(sorted@.subrange(0, i as int)),
        decreases sorted@.len() - i,
    {
        s.append("\n\"");
        s.append(sorted[i].name.as_str());
        s.append("\"");
        proof {
            let p = sorted@.subrange(0, i + 1);
            assert(p.drop_last() =~= sorted@.subrange(0, i as int));
            assert(p.last() == sorted@[i as int]);
            assert(s@ =~= base + chan_lines(p));
        }
        i = i + 1;
    }
    proof {
        assert(sorted@.subrange(0, sorted@.len() as int) =~= sorted@);
        assert(s@ =~= spec_description(name@, *st, cache@, sorted@));
    }
    s
}

impl DanteDeviceManager {
    /// One report string per present device, in the order of first
    /// discovery.
    pub fn get_device_descriptions(&self) -> (r: Vec<String>)
        requires
            self.wf(),
        ensures
            r@.len() == self.device_list.names@.len(),
            forall|j: int|
                0 <= j < r@.len() ==> is_description_of((#[trigger] r@[j])@, self.device_list, j),
    {
        let names: &Vec<String> = &self.device_list.names;
        let mut r: Vec<String> = Vec::new();
        let mut i: usize = 0;
        while i < names.len()
            invariant
                self.wf(),
                names == &self.device_list.names,
                0 <= i <= names@.len(),
                r@.len() == i,
                forall|j: int|
                    0 <= j < i ==> is_description_of((#[trigger] r@[j])@, self.device_list, j),
            decreases names@.len() - i,
        {
            let name: &String = &names[i];
            let st: DeviceStatus = match self.device_list.devices.get(name.as_str()) {
                Some(st) => *st,
                None => {
                    proof {
                        assert(false);
                    }
                    DeviceStatus::new()
                },
            };
            let description: String = match self.device_list.caches.get(name.as_str()) {
                Some(cache) => {
                    let sorted = sorted_channels(&cache.chan_info);
                    describe_device(name, &st, cache, &sorted)
                },
                None => {
                    proof {
                        assert(false);
                    }
                    String::new()
                },
            };
            r.push(description);
            i = i + 1;
        }
        r
    }
}

} // verus!
