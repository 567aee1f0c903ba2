//! Private-address allocation: reading the VLAN host octet out of the
//! interfaces a tag group already holds, and choosing the next free one.

use crate::text::{
    chars_vec, copy_range, find_after_last, find_first_index, first_index_of, after_last_index_of,
    parse_bounded, push_decimal, spec_dec, spec_parse_bounded, str_eq,
};
use crate::types::{Configuration, ConfigurationView, Interface, InterfaceView, Interfaces};
use vstd::prelude::*;

verus! {

/// The host octet of a private address in CIDR notation: the decimal number
/// between the last `.` and the first `/`, when the text has that shape and
/// the number fits in eight bits.
pub open spec fn spec_parse_host_octet(s: Seq<char>) -> Option<u8> {
    let addr = s.subrange(0, first_index_of(s, '/'));
    let cut = after_last_index_of(addr, '.');
    if cut > 0 {
        match spec_parse_bounded(addr.subrange(cut, addr.len() as int), 255) {
            Some(v) => Some(v as u8),
            None => None,
        }
    } else {
        None
    }
}

/// Parses the VLAN host octet out of an address such as `10.0.0.5/24`;
/// malformed text parses to nothing.
pub fn parse_host_octet(s: &str) -> (r: Option<u8>)
    ensures
        r == spec_parse_host_octet(s@),
{
    let chars = chars_vec(s);
    let fi = find_first_index(&chars, '/');
    let addr = copy_range(&chars, 0, fi);
    let cut = find_after_last(&addr, '.');
    if cut == 0 {
        return None;
    }
    let digits = copy_range(&addr, cut, addr.len());
    match parse_bounded(&digits, 255) {
        Some(v) => Some(v as u8),
        None => None,
    }
}

/// The host octet an interface contributes to its group: present exactly
/// when the interface carries the group label and a parseable address.
pub open spec fn spec_interface_octet(iface: InterfaceView, group: Seq<char>) -> Option<u8> {
    match iface.label {
        Some(l) => if l == group {
            match iface.ipam_address {
                Some(a) => spec_parse_host_octet(a),
                None => None,
            }
        } else {
            None
        },
        None => None,
    }
}

pub fn interface_octet(iface: &Interface, group: &str) -> (r: Option<u8>)
    ensures
        r == spec_interface_octet(iface@, group@),
{
    match &iface.label {
        Some(l) => {
            if str_eq(l.as_str(), group) {
                match &iface.ipam_address {
                    Some(a) => parse_host_octet(a.as_str()),
                    None => None,
                }
            } else {
                None
            }
        },
        None => None,
    }
}

/// The host octets a list of interfaces contributes, in order; interfaces
/// outside the group or with unparseable addresses contribute nothing.
pub open spec fn spec_interfaces_octets(ifaces: Seq<InterfaceView>, group: Seq<char>) -> Seq<u8>
    decreases ifaces.len(),
{
    if ifaces.len() == 0 {
        Seq::empty()
    } else {
        let rest = spec_interfaces_octets(ifaces.drop_last(), group);
        match spec_interface_octet(ifaces.last(), group) {
            Some(o) => rest.push(o),
            None => rest,
        }
    }
}

/// The host octets of all interfaces of a list of configurations, in order.
pub open spec fn spec_configs_octets(configs: Seq<ConfigurationView>, group: Seq<char>) -> Seq<u8>
    decreases configs.len(),
{
    if configs.len() == 0 {
        Seq::empty()
    } else {
        spec_configs_octets(configs.drop_last(), group) + spec_interfaces_octets(
            configs.last().interfaces,
            group,
        )
    }
}

/// Collects the group's host octets from a list of configurations.
pub fn collect_octets(configs: &Vec<Configuration>, group: &str) -> (r: Vec<u8>)
    ensures
        r@ == spec_configs_octets(configs.deep_view(), group@),
{
    let mut r: Vec<u8> = Vec::new();
    let mut ci: usize = 0;
    while ci < configs.len()
        invariant
            0 <= ci <= configs@.len(),
            configs.deep_view().len() == configs@.len(),
            r@ == spec_configs_octets(configs.deep_view().subrange(0, ci as int), group@),
        decreases configs@.len() - ci,
    {
        let config = &configs[ci];
        let ghost ifv = config.interfaces.deep_view();
        let mut ii: usize = 0;
        while ii < config.interfaces.len()
            invariant
                0 <= ii <= config.interfaces@.len(),
                ifv == config.interfaces.deep_view(),
                ifv.len() == config.interfaces@.len(),
                r@ == spec_configs_octets(configs.deep_view().subrange(0, ci as int), group@)
                    + spec_interfaces_octets(ifv.subrange(0, ii as int), group@),
            decreases config.interfaces@.len() - ii,
        {
            proof {
                assert(ifv.subrange(0, ii as int + 1).drop_last() =~= ifv.subrange(0, ii as int));
                assert(ifv.subrange(0, ii as int + 1).last() == config.interfaces@[ii as int]@);
            }
            match interface_octet(&config.interfaces[ii], group) {
                Some(o) => {
                    r.push(o);
                },
                None => {},
            }
            ii += 1;
        }
        proof {
            let cv = configs.deep_view();
            assert(ifv.subrange(0, ifv.len() as int) =~= ifv);
            assert(cv.subrange(0, ci as int + 1).drop_last() =~= cv.subrange(0, ci as int));
            assert(cv.subrange(0, ci as int + 1).last() == configs@[ci as int]@);
        }
        ci += 1;
    }
    proof {
        assert(configs.deep_view().subrange(0, configs@.len() as int) =~= configs.deep_view());
    }
    r
}

/// The largest octet in a list, or 0 for an empty list.
pub open spec fn spec_max_octet(s: Seq<u8>) -> u8
    decreases s.len(),
{
    if s.len() == 0 {
        0
    } else {
        let m = spec_max_octet(s.drop_last());
        if s.last() > m {
            s.last()
        } else {
            m
        }
    }
}

/// The next free host octet for a group: one more than the largest octet in
/// use, or 1 for a group with no addresses yet. A group whose largest octet
/// is already 255 has no next address: the single `/24` subnet is exhausted,
/// and the allocator reports that rather than wrap around.
pub open spec fn spec_next_host_octet(s: Seq<u8>) -> Option<u8> {
    if s.len() == 0 {
        Some(1)
    } else if spec_max_octet(s) == 255 {
        None
    } else {
        Some((spec_max_octet(s) + 1) as u8)
    }
}

pub fn next_host_octet(octets: &Vec<u8>) -> (r: Option<u8>)
    ensures
        r == spec_next_host_octet(octets@),
{
    if octets.len() == 0 {
        return Some(1);
    }
    let mut m: u8 = 0;
    let mut i: usize = 0;
    while i < octets.len()
        invariant
            0 <= i <= octets@.len(),
            m == spec_max_octet(octets@.subrange(0, i as int)),
        decreases octets@.len() - i,
    {
        proof {
            assert(octets@.subrange(0, i as int + 1).drop_last() =~= octets@.subrange(
                0,
                i as int,
            ));
            assert(octets@.subrange(0, i as int + 1).last() == octets@[i as int]);
        }
        if octets[i] > m {
            m = octets[i];
        }
        i += 1;
    }
    assert(octets@.subrange(0, i as int) =~= octets@);
    if m == 255 {
        None
    } else {
        Some(m + 1)
    }
}

/// The VLAN address handed to a new instance: `10.0.0.<octet>/24`.
pub open spec fn spec_vlan_ipam(octet: u8) -> Seq<char> {
    "10.0.0."@ + spec_dec(octet as nat) + "/24"@
}

pub fn vlan_ipam_address(octet: u8) -> (r: String)
    ensures
        r@ == spec_vlan_ipam(octet),
{
    let mut s = "10.0.0.".to_owned();
    push_decimal(&mut s, octet as u32);
    let r = s.concat("/24");
    assert(r@ =~= spec_vlan_ipam(octet));
    r
}

/// The interface list of a freshly attached instance: one public interface
/// without an address, then one VLAN interface labeled with the group and
/// holding the allocated address.
pub open spec fn spec_new_interfaces(group: Seq<char>, octet: u8) -> Seq<InterfaceView> {
    seq![
        InterfaceView { purpose: "public"@, ipam_address: None, label: None },
        InterfaceView {
            purpose: "vlan"@,
            ipam_address: Some(spec_vlan_ipam(octet)),
            label: Some(group),
        },
    ]
}

pub fn interfaces_for(group: &str, octet: u8) -> (r: Interfaces)
    ensures
        r.interfaces.deep_view() == spec_new_interfaces(group@, octet),
{
    let public_iface = Interface {
        purpose: "public".to_owned(),
        ipam_address: None,
        label: None,
    };
    let vlan_iface = Interface {
        purpose: "vlan".to_owned(),
        ipam_address: Some(vlan_ipam_address(octet)),
        label: Some(group.to_owned()),
    };
    let mut interfaces: Vec<Interface> = Vec::new();
    interfaces.push(public_iface);
    interfaces.push(vlan_iface);
    assert(interfaces.deep_view() =~= spec_new_interfaces(group@, octet));
    Interfaces { interfaces }
}

} // verus!
