//! Normalising mDNS instance names.
//!
//! A fully-qualified instance name carries a trailing `.<service-type>`
//! suffix; stripping it yields the device name. Channel instance names are
//! of the form `<channel>@<device-instance>` and are split on the leftmost
//! `@` before the suffix is stripped.

use vstd::prelude::*;
use vstd::string::StrSliceExecFns;
use vstd::string::StringExecFns;

verus! {

/// The device name that stripping `.<addr>` from `host` yields: the prefix
/// when the suffix is present, the whole input otherwise.
pub open spec fn spec_cutoff(host: Seq<char>, addr: Seq<char>) -> Seq<char> {
    let cut = "."@ + addr;
    if cut.len() <= host.len() && host.subrange(host.len() - cut.len(), host.len() as int)
        == cut {
        host.subrange(0, host.len() - cut.len())
    } else {
        host
    }
}

/// True when `s` holds an `'@'` anywhere.
pub open spec fn has_at_sign(s: Seq<char>) -> bool {
    exists|i: int| 0 <= i < s.len() && s[i] == '@'
}

/// Strips the trailing `.<address>` from `hostname`; the address defaults to
/// `"local."`. When the suffix is absent the input is returned unchanged,
/// so that a misbehaving responder can still be diagnosed by the caller.
pub fn cutoff_address(hostname: &str, address: Option<&str>) -> (r: String)
    ensures
        r@ == spec_cutoff(
            hostname@,
            match address {
                Some(a) => a@,
                None => "local."@,
            },
        ),
{
    let addr: &str = match address {
        Some(a) => a,
        None => "local.",
    };
    let cutoff_string: String = String::from_str(".").concat(addr);
    let n: usize = hostname.unicode_len();
    let m: usize = cutoff_string.as_str().unicode_len();
    if m <= n {
        let tail: &str = hostname.substring_char(n - m, n);
        if tail.to_owned() == cutoff_string {
            return hostname.substring_char(0, n - m).to_owned();
        }
    }
    hostname.to_owned()
}

/// The position of the leftmost `'@'` in `s`.
pub open spec fn at_split_index(s: Seq<char>) -> int {
    choose|i: int|
        0 <= i < s.len() && s[i] == '@' && forall|j: int| 0 <= j < i ==> s[j] != '@'
}

/// What stands left of the leftmost `'@'`: the channel name.
pub open spec fn chan_part(s: Seq<char>) -> Seq<char> {
    s.subrange(0, at_split_index(s))
}

/// What stands right of the leftmost `'@'`: the device-bearing instance
/// name.
pub open spec fn rest_part(s: Seq<char>) -> Seq<char> {
    s.subrange(at_split_index(s) + 1, s.len() as int)
}

/// Splits a channel instance name on the leftmost `'@'`. Returns the
/// channel name (free of `'@'`) and the remainder; `None` exactly when the
/// input holds no `'@'` at all.
pub fn split_channel(fullname: &str) -> (r: Option<(String, String)>)
    ensures
        r is Some <==> has_at_sign(fullname@),
        match r {
            Some(parts) => fullname@ == parts.0@ + seq!['@'] + parts.1@ && !has_at_sign(parts.0@)
                && parts.0@ == chan_part(fullname@) && parts.1@ == rest_part(fullname@),
            None => true,
        },
{
    let n: usize = fullname.unicode_len();
    let mut i: usize = 0;
    while i < n
        invariant
            0 <= i <= n,
            n == fullname@.len(),
            forall|j: int| 0 <= j < i ==> fullname@[j] != '@',
        decreases n - i,
    {
        if fullname.get_char(i) == '@' {
            let chan: String = fullname.substring_char(0, i).to_owned();
            let rest: String = fullname.substring_char(i + 1, n).to_owned();
            proof {
                assert(fullname@ =~= chan@ + seq!['@'] + rest@);
                assert(forall|j: int| 0 <= j < chan@.len() ==> chan@[j] != '@');
                let w = at_split_index(fullname@);
                assert(0 <= w < fullname@.len() && fullname@[w] == '@' && forall|j: int|
                    0 <= j < w ==> fullname@[j] != '@') by {
                    assert(0 <= i < fullname@.len() && fullname@[i as int] == '@' && forall|
                        j: int,
                    | 0 <= j < i ==> fullname@[j] != '@');
                }
                assert(w == i as int);
            }
            return Some((chan, rest));
        }
        i = i + 1;
    }
    None
}

} // verus!
