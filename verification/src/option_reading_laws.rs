//! What the options of a network section mean.

use vstd::prelude::*;

use crate::change::ObjectOwnership;
use crate::firewall_uci::{option_from, UciOptionView, UciSectionView};
use crate::net::{address_value, ipv4_value, network_value, IpAddr, IpNetwork};
use crate::network_decode::{
    bool_option, dhcp_server_value, interface_address, interface_addresses, list_options, mask_prefix,
    netmask_value, network_object_value, prefix_mask, truth, unsupported_options,
};
use crate::network_model::{
    NetworkAddressMode, NetworkDhcpMode, NetworkDhcpOptionView, NetworkFamily, NetworkObjectView,
    NetworkPolicyAction, NetworkRouteType, NetworkVlanProtocol,
};
use crate::parse::{u16_value, u32_value};
use crate::text::find_from;
use vstd::arithmetic::power2::{lemma_pow2_strictly_increases, pow2};

verus! {

proof fn lemma_option(options: Seq<UciOptionView>, name: Seq<char>, from: int, i: int)
    requires
        0 <= from <= i < options.len(),
        options[i].name == name,
        forall|j: int| 0 <= j < i ==> (#[trigger] options[j]).name != name,
    ensures
        option_from(options, name, from) == Some(options[i].values),
    decreases i - from,
{
    if from < i {
        lemma_option(options, name, from + 1, i);
    }
}

proof fn lemma_no_option(options: Seq<UciOptionView>, name: Seq<char>, from: int)
    requires
        0 <= from,
        forall|j: int| 0 <= j < options.len() ==> (#[trigger] options[j]).name != name,
    ensures
        option_from(options, name, from) is None,
    decreases options.len() - from,
{
    if from < options.len() {
        lemma_no_option(options, name, from + 1);
    }
}

/// An option of a section is the first that has its name. It is a single value only where it has exactly one.
pub proof fn law_options_are_found_by_name(s: UciSectionView, name: Seq<char>, i: int)
    ensures
        0 <= i < s.options.len() && s.options[i].name == name && (forall|j: int|
            0 <= j < i ==> (#[trigger] s.options[j]).name != name) ==> {
            &&& s.has(name)
            &&& s.get(name) == Some(s.options[i].values)
            &&& s.values(name) == s.options[i].values
            &&& s.options[i].values.len() == 1 ==> s.scalar(name) == Some(s.options[i].values[0])
            &&& s.options[i].values.len() != 1 ==> s.scalar(name) is None
            &&& s.options[i].values.len() > 0 ==> s.first(name) == Some(s.options[i].values[0])
            &&& s.options[i].values.len() == 0 ==> s.first(name) is None
        },
        (forall|j: int| 0 <= j < s.options.len() ==> (#[trigger] s.options[j]).name != name) ==> {
            &&& !s.has(name)
            &&& s.get(name) is None
            &&& s.values(name).len() == 0
            &&& s.scalar(name) is None
            &&& s.first(name) is None
        },
{
    if 0 <= i < s.options.len() && s.options[i].name == name && (forall|j: int|
        0 <= j < i ==> (#[trigger] s.options[j]).name != name) {
        lemma_option(s.options, name, 0, i);
    }
    if forall|j: int| 0 <= j < s.options.len() ==> (#[trigger] s.options[j]).name != name {
        lemma_no_option(s.options, name, 0);
    }
}

/// Whether a word means yes.
pub open spec fn is_yes(v: Seq<char>) -> bool {
    v == "1"@ || v == "true"@ || v == "yes"@ || v == "on"@
}

/// Whether a word means no.
pub open spec fn is_no(v: Seq<char>) -> bool {
    v == "0"@ || v == "false"@ || v == "no"@ || v == "off"@
}

/// Four words mean yes and four mean no; no other word means either.
pub proof fn law_words_of_truth(v: Seq<char>)
    ensures
        truth(v) == Some(true) <==> is_yes(v),
        truth(v) == Some(false) <==> is_no(v),
{
    reveal_strlit("0");
    reveal_strlit("false");
    reveal_strlit("no");
    reveal_strlit("off");
    reveal_strlit("1");
    reveal_strlit("true");
    reveal_strlit("yes");
    reveal_strlit("on");
    assert("0"@.len() == 1 && "false"@.len() == 5 && "no"@.len() == 2 && "off"@.len() == 3);
    assert("1"@.len() == 1 && "true"@.len() == 4 && "yes"@.len() == 3 && "on"@.len() == 2);
    assert("0"@[0] == '0' && "1"@[0] == '1' && "no"@[0] == 'n' && "on"@[0] == 'o' && "off"@[0] == 'o' && "yes"@[0]
        == 'y');
}

/// Whether the only value of an option means yes.
pub open spec fn says_yes(s: UciSectionView, name: Seq<char>) -> bool {
    s.scalar(name) matches Some(v) && is_yes(v)
}

/// Whether the only value of an option means no.
pub open spec fn says_no(s: UciSectionView, name: Seq<char>) -> bool {
    s.scalar(name) matches Some(v) && is_no(v)
}

/// Whether an option is absent or says yes or no.
pub open spec fn is_clear(s: UciSectionView, name: Seq<char>) -> bool {
    s.scalar(name) is Some ==> says_yes(s, name) || says_no(s, name)
}

proof fn lemma_bool(s: UciSectionView, name: Seq<char>)
    ensures
        bool_option(s, name) is Some <==> is_clear(s, name),
        bool_option(s, name) == Some(Some(true)) <==> says_yes(s, name),
        bool_option(s, name) == Some(Some(false)) <==> says_no(s, name),
        bool_option(s, name) == Some(None::<bool>) <==> s.scalar(name) is None,
{
    if let Some(v) = s.scalar(name) {
        law_words_of_truth(v);
    }
}

proof fn lemma_mask(m: nat, p: nat)
    requires
        p <= 33,
    ensures
        match mask_prefix(m, p) {
            Some(k) => p <= k <= 32 && m == prefix_mask(k),
            None => forall|k: nat| p <= k <= 32 ==> m != #[trigger] prefix_mask(k),
        },
    decreases 33 - p,
{
    if p <= 32 {
        lemma_mask(m, p + 1);
        if mask_prefix(m, p) is None {
            assert forall|k: nat| p <= k <= 32 implies m != #[trigger] prefix_mask(k) by {
                assert(k == p || p + 1 <= k);
            }
        }
    }
}

/// A netmask of the older family has the prefix length of its leading ones: it lacks two to the power of the other
/// bits to be full.
pub proof fn law_netmask_counts_leading_ones(s: Seq<char>, p: nat)
    ensures
        netmask_value(s) == Some(p) <==> p <= 32 && ipv4_value(s) is Some && ipv4_value(s)->Some_0 + pow2(
            (32 - p) as nat,
        ) == 0x1_0000_0000,
{
    lemma_powers();
    if let Some(m) = ipv4_value(s) {
        lemma_mask(m, 0);
        if p <= 32 && m + pow2((32 - p) as nat) == 0x1_0000_0000 {
            assert(m == prefix_mask(p));
            match mask_prefix(m, 0) {
                Some(k) => {
                    if k < p {
                        lemma_pow2_strictly_increases((32 - p) as nat, (32 - k) as nat);
                    }
                    if p < k {
                        lemma_pow2_strictly_increases((32 - k) as nat, (32 - p) as nat);
                    }
                    lemma_small_power((32 - k) as nat);
                    lemma_small_power((32 - p) as nat);
                },
                None => {},
            }
        }
        if netmask_value(s) == Some(p) {
            lemma_small_power((32 - p) as nat);
        }
    }
}

proof fn lemma_small_power(n: nat)
    requires
        n <= 32,
    ensures
        pow2(n) <= 0x1_0000_0000,
{
    lemma_powers();
    if n < 32 {
        lemma_pow2_strictly_increases(n, 32);
    }
}

proof fn lemma_powers()
    ensures
        pow2(32) == 0x1_0000_0000,
{
    vstd::arithmetic::power2::lemma2_to64();
}

proof fn lemma_ipv4_range(s: Seq<char>)
    ensures
        ipv4_value(s) matches Some(n) ==> n < 0x1_0000_0000,
{
}

/// The address of an interface: with its prefix length, or with that of a netmask.
pub open spec fn is_address_of(raw: Seq<char>, mask: Option<Seq<char>>, n: IpNetwork) -> bool {
    if raw.contains('/') {
        network_value(raw) == Some(n) && n.address is V4
    } else {
        &&& n.address matches IpAddr::V4(a) && ipv4_value(raw) == Some(a as nat)
        &&& mask is Some
        &&& ipv4_value(mask->Some_0) is Some
        &&& n.prefix_len <= 32
        &&& ipv4_value(mask->Some_0)->Some_0 + pow2((32 - n.prefix_len) as nat) == 0x1_0000_0000
    }
}

proof fn lemma_address(raw: Seq<char>, mask: Option<Seq<char>>, n: IpNetwork)
    requires
        interface_address(raw, mask) == Some(n),
    ensures
        is_address_of(raw, mask, n),
{
    if !raw.contains('/') {
        let p = netmask_value(mask->Some_0)->Some_0;
        law_netmask_counts_leading_ones(mask->Some_0, p);
        lemma_ipv4_range(raw);
    }
}

/// Whether a section is enabled: nothing says that it is disabled or not started.
pub open spec fn is_started(s: UciSectionView) -> bool {
    !says_yes(s, "disabled"@) && !says_no(s, "auto"@)
}

/// An interface is what its options say: its name is the agent's mark or else that of the section, its device is under
/// one of two names, its addresses are listed, and its protocol says how it gets them.
pub proof fn law_interface_is_what_its_options_say(s: UciSectionView, ownership: ObjectOwnership)
    ensures
        network_object_value(s, ownership) matches Some(NetworkObjectView::Interface(x)) ==> {
            let mask = s.first("netmask"@);
            let v4 = s.values("ipaddr"@);
            let v6 = s.values("ip6addr"@);
            &&& s.section_type == "interface"@
            &&& x.ownership == ownership
            &&& x.id == (match s.scalar("mbed_id"@) {
                Some(id) => id,
                None => s.selector,
            })
            &&& x.enabled <==> is_started(s)
            &&& is_clear(s, "disabled"@) && is_clear(s, "auto"@)
            &&& (s.first("device"@) == Some(x.device) && s.first("ifname"@) is None) || (s.first("ifname"@) == Some(
                x.device,
            ) && s.first("device"@) is None)
            &&& x.addresses.len() == v4.len() + v6.len()
            &&& forall|i: int| 0 <= i < v4.len() ==> is_address_of(#[trigger] v4[i], mask, x.addresses[i])
            &&& forall|i: int|
                0 <= i < v6.len() ==> network_value(#[trigger] v6[i]) == Some(x.addresses[v4.len() + i])
                    && x.addresses[v4.len() + i].address is V6
            &&& s.first("proto"@) is Some
            &&& s.first("proto"@)->Some_0 == "none"@ ==> x.ipv4_mode == NetworkAddressMode::Disabled && x.ipv6_mode
                == NetworkAddressMode::Disabled && x.addresses.len() == 0
            &&& s.first("proto"@)->Some_0 == "dhcp"@ ==> x.ipv4_mode == NetworkAddressMode::Dhcp && x.ipv6_mode
                == NetworkAddressMode::Disabled && x.addresses.len() == 0
            &&& s.first("proto"@)->Some_0 == "dhcpv6"@ ==> x.ipv4_mode == NetworkAddressMode::Disabled && x.ipv6_mode
                == NetworkAddressMode::Dhcp && x.addresses.len() == 0
            &&& s.first("proto"@)->Some_0 == "static"@ ==> x.addresses.len() > 0 && (x.ipv4_mode
                == NetworkAddressMode::Static <==> v4.len() > 0) && (x.ipv4_mode == NetworkAddressMode::Disabled
                <==> v4.len() == 0) && (x.ipv6_mode == NetworkAddressMode::Static <==> v6.len() > 0) && (x.ipv6_mode
                == NetworkAddressMode::Disabled <==> v6.len() == 0)
            &&& s.first("proto"@)->Some_0 == "none"@ || s.first("proto"@)->Some_0 == "dhcp"@ || s.first(
                "proto"@,
            )->Some_0 == "dhcpv6"@ || s.first("proto"@)->Some_0 == "static"@
            &&& match s.scalar("mtu"@) {
                Some(v) => x.mtu is Some && u32_value(v) == x.mtu,
                None => x.mtu is None,
            }
            &&& x.mac_override == s.scalar("macaddr"@)
            &&& x.peerdns <==> !says_no(s, "peerdns"@)
            &&& x.dns_servers.len() == s.values("dns"@).len()
            &&& forall|i: int|
                0 <= i < x.dns_servers.len() ==> address_value(#[trigger] s.values("dns"@)[i]) == Some(
                    x.dns_servers[i],
                )
            &&& x.dns_search == s.values("dns_search"@)
            &&& x.dhcp_client_id == s.scalar("clientid"@)
            &&& x.dhcp_vendor_id == s.scalar("vendorid"@)
            &&& x.dhcp_hostname == s.scalar("hostname"@)
            &&& x.dhcp_request_options.len() == s.values("reqopts"@).len()
            &&& forall|i: int|
                0 <= i < x.dhcp_request_options.len() ==> u16_value(#[trigger] s.values("reqopts"@)[i]) == Some(
                    x.dhcp_request_options[i],
                )
            &&& x.dhcp_no_release <==> says_yes(s, "norelease"@)
            &&& x.dhcp_server is None
        },
{
    if let Some(NetworkObjectView::Interface(x)) = network_object_value(s, ownership) {
        lemma_types();
        lemma_bool(s, "disabled"@);
        lemma_bool(s, "auto"@);
        lemma_bool(s, "peerdns"@);
        lemma_bool(s, "norelease"@);
        lemma_protocols();
        let mask = s.first("netmask"@);
        let v4 = s.values("ipaddr"@);
        let v6 = s.values("ip6addr"@);
        assert(interface_addresses(s) == Some(x.addresses));
        let f = |r: Seq<char>| interface_address(r, mask);
        let g = |r: Seq<char>| crate::network_decode::ipv6_address(r);
        assert forall|i: int| 0 <= i < v4.len() implies is_address_of(#[trigger] v4[i], mask, x.addresses[i]) by {
            assert(f(v4[i]) is Some);
            assert(interface_address(v4[i], mask) == Some(x.addresses[i]));
            lemma_address(v4[i], mask, x.addresses[i]);
        }
        assert forall|i: int| 0 <= i < v6.len() implies network_value(#[trigger] v6[i]) == Some(
            x.addresses[v4.len() + i],
        ) && x.addresses[v4.len() + i].address is V6 by {
            assert(g(v6[i]) is Some);
        }
        if v4.len() > 0 {
            assert(is_address_of(v4[0], mask, x.addresses[0]));
            assert(x.addresses[0].address is V4);
        }
        if v6.len() > 0 {
            assert(network_value(v6[0]) == Some(x.addresses[v4.len() + 0int]));
            assert(x.addresses[v4.len() as int].address is V6);
        }
        assert forall|i: int| 0 <= i < x.addresses.len() implies ((#[trigger] x.addresses[i]).address is V4 <==> i
            < v4.len()) by {
            if i < v4.len() {
                assert(is_address_of(v4[i], mask, x.addresses[i]));
            } else {
                assert(network_value(v6[i - v4.len()]) == Some(x.addresses[v4.len() + (i - v4.len())]));
            }
        }
        let h = |r: Seq<char>| <crate::parse::Addresses as crate::parse::Reader>::value(r);
        assert forall|i: int| 0 <= i < x.dns_servers.len() implies address_value(#[trigger] s.values("dns"@)[i])
            == Some(x.dns_servers[i]) by {
            assert(h(s.values("dns"@)[i]) is Some);
        }
        let k = |r: Seq<char>| <crate::parse::Halves as crate::parse::Reader>::value(r);
        assert forall|i: int| 0 <= i < x.dhcp_request_options.len() implies u16_value(
            #[trigger] s.values("reqopts"@)[i],
        ) == Some(x.dhcp_request_options[i]) by {
            assert(k(s.values("reqopts"@)[i]) is Some);
        }
    }
}

proof fn lemma_types()
    ensures
        "interface"@ != "device"@,
        "interface"@ != "route"@,
        "interface"@ != "route6"@,
        "interface"@ != "rule"@,
        "interface"@ != "rule6"@,
        "device"@ != "route"@,
        "device"@ != "route6"@,
        "device"@ != "rule"@,
        "device"@ != "rule6"@,
        "route"@ != "route6"@,
        "route"@ != "rule"@,
        "route"@ != "rule6"@,
        "route6"@ != "rule"@,
        "route6"@ != "rule6"@,
        "rule"@ != "rule6"@,
        "bridge"@ != "8021q"@,
        "bridge"@ != "8021ad"@,
        "8021q"@ != "8021ad"@,
{
    reveal_strlit("interface");
    reveal_strlit("device");
    reveal_strlit("route");
    reveal_strlit("route6");
    reveal_strlit("rule");
    reveal_strlit("rule6");
    reveal_strlit("bridge");
    reveal_strlit("8021q");
    reveal_strlit("8021ad");
    assert("interface"@.len() == 9 && "device"@.len() == 6 && "route"@.len() == 5 && "route6"@.len() == 6
        && "rule"@.len() == 4 && "rule6"@.len() == 5);
    assert("device"@[0] == 'd' && "route6"@[0] == 'r' && "route"@[1] == 'o' && "rule6"@[1] == 'u');
    assert("bridge"@.len() == 6 && "8021q"@.len() == 5 && "8021ad"@.len() == 6 && "bridge"@[0] == 'b' && "8021ad"@[0]
        == '8');
}

proof fn lemma_protocols()
    ensures
        "none"@ != "static"@,
        "none"@ != "dhcp"@,
        "none"@ != "dhcpv6"@,
        "static"@ != "dhcp"@,
        "static"@ != "dhcpv6"@,
        "dhcp"@ != "dhcpv6"@,
{
    reveal_strlit("none");
    reveal_strlit("static");
    reveal_strlit("dhcp");
    reveal_strlit("dhcpv6");
    assert("none"@.len() == 4 && "static"@.len() == 6 && "dhcp"@.len() == 4 && "dhcpv6"@.len() == 6);
    assert("none"@[0] == 'n' && "dhcp"@[0] == 'd' && "static"@[0] == 's' && "dhcpv6"@[0] == 'd');
}

/// A device is a bridge or a tagged device by its type, and what its options say.
pub proof fn law_device_is_what_its_options_say(s: UciSectionView, ownership: ObjectOwnership)
    ensures
        network_object_value(s, ownership) matches Some(NetworkObjectView::Bridge(x)) ==> {
            &&& s.section_type == "device"@
            &&& s.first("type"@) == Some("bridge"@)
            &&& s.scalar("name"@) == Some(x.id)
            &&& x.ownership == ownership
            &&& x.enabled <==> is_started(s)
            &&& x.ports == s.values("ports"@)
            &&& x.stp <==> says_yes(s, "stp"@)
            &&& x.vlan_filtering <==> says_yes(s, "vlan_filtering"@)
            &&& match s.scalar("mtu"@) {
                Some(v) => x.mtu is Some && u32_value(v) == x.mtu,
                None => x.mtu is None,
            }
        },
        network_object_value(s, ownership) matches Some(NetworkObjectView::Vlan(x)) ==> {
            &&& s.section_type == "device"@
            &&& s.scalar("name"@) == Some(x.id)
            &&& x.ownership == ownership
            &&& x.enabled <==> is_started(s)
            &&& s.scalar("ifname"@) == Some(x.parent)
            &&& s.scalar("vid"@) is Some && u16_value(s.scalar("vid"@)->Some_0) == Some(x.vlan_id)
            &&& match x.protocol {
                NetworkVlanProtocol::Ieee8021Q => s.scalar("type"@) == Some("8021q"@),
                NetworkVlanProtocol::Ieee8021Ad => s.scalar("type"@) == Some("8021ad"@),
            }
            &&& match s.scalar("mtu"@) {
                Some(v) => x.mtu is Some && u32_value(v) == x.mtu,
                None => x.mtu is None,
            }
        },
{
    lemma_types();
    lemma_bool(s, "disabled"@);
    lemma_bool(s, "auto"@);
    lemma_bool(s, "stp"@);
    lemma_bool(s, "vlan_filtering"@);
}

/// Whether a text names a table: by a number or by one of three words.
pub open spec fn is_table(v: Seq<char>, table: u32) -> bool {
    ||| v == "local"@ && table == 255
    ||| v == "main"@ && table == 254
    ||| v == "default"@ && table == 253
    ||| u32_value(v) == Some(table)
}

/// A route is what its options say: its target has a prefix length or a netmask, or else is one address of the newer
/// family or everything, and its table is the main one unless another is named.
pub proof fn law_route_is_what_its_options_say(s: UciSectionView, ownership: ObjectOwnership)
    ensures
        network_object_value(s, ownership) matches Some(NetworkObjectView::Route(x)) ==> {
            &&& s.section_type == "route"@ || s.section_type == "route6"@
            &&& s.section_type == "route"@ ==> x.destination.address is V4
            &&& s.section_type == "route6"@ ==> x.destination.address is V6
            &&& x.ownership == ownership
            &&& x.enabled <==> is_started(s)
            &&& s.first("target"@) matches Some(t) ==> (if t.contains('/') {
                network_value(t) == Some(x.destination)
            } else if s.section_type == "route6"@ {
                address_value(t) == Some(x.destination.address) && x.destination.prefix_len == 128
            } else {
                is_address_of(t, s.first("netmask"@), x.destination)
            })
            &&& s.first("target"@) is None ==> network_value(
                if s.section_type == "route6"@ {
                    "::/0"@
                } else {
                    "0.0.0.0/0"@
                },
            ) == Some(x.destination)
            &&& match s.scalar("gateway"@) {
                Some(v) => x.gateway is Some && address_value(v) == x.gateway,
                None => x.gateway is None,
            }
            &&& s.scalar("interface"@) is Some && x.output_interface == s.scalar("interface"@)
            &&& match s.scalar("source"@) {
                Some(v) => x.preferred_source is Some && address_value(v) == x.preferred_source,
                None => x.preferred_source is None,
            }
            &&& match s.first("table"@) {
                Some(v) => is_table(v, x.table),
                None => x.table == 254,
            }
            &&& x.table <= 65535
            &&& match s.scalar("metric"@) {
                Some(v) => x.metric is Some && u32_value(v) == x.metric,
                None => x.metric is None,
            }
            &&& match x.route_type {
                NetworkRouteType::Unicast => s.first("type"@) is None || s.first("type"@) == Some("unicast"@),
                NetworkRouteType::Blackhole => s.first("type"@) == Some("blackhole"@),
                NetworkRouteType::Unreachable => s.first("type"@) == Some("unreachable"@),
                NetworkRouteType::Prohibit => s.first("type"@) == Some("prohibit"@),
            }
            &&& s.first("proto"@) is None || s.first("proto"@) == Some("static"@)
            &&& s.scalar("mbed_id"@) is Some ==> Some(x.id) == s.scalar("mbed_id"@)
            &&& s.scalar("mbed_id"@) is None && s.scalar("name"@) is Some ==> Some(x.id) == s.scalar("name"@)
        },
{
    if let Some(NetworkObjectView::Route(x)) = network_object_value(s, ownership) {
        lemma_types();
        lemma_bool(s, "disabled"@);
        lemma_bool(s, "auto"@);
        lemma_main_table();
        reveal_strlit("::/0");
        reveal_strlit("0.0.0.0/0");
        assert("::/0"@[2] == '/');
        assert("0.0.0.0/0"@[7] == '/');
        assert("::/0"@.contains('/'));
        assert("0.0.0.0/0"@.contains('/'));
        if let Some(t) = s.first("target"@) {
            if !t.contains('/') && s.section_type == "route"@ {
                let mask = s.first("netmask"@);
                assert(interface_address(t, mask) == Some(x.destination));
                lemma_address(t, mask, x.destination);
            }
        }
        reveal_strlit("unicast");
        reveal_strlit("blackhole");
        reveal_strlit("unreachable");
        reveal_strlit("prohibit");
        assert("unicast"@.len() == 7 && "blackhole"@.len() == 9 && "unreachable"@.len() == 11 && "prohibit"@.len()
            == 8);
    }
}

proof fn lemma_main_table()
    ensures
        u32_value("254"@) == Some(254u32),
        "254"@ != "local"@,
        "254"@ != "main"@,
        "254"@ != "default"@,
{
    reveal_strlit("254");
    reveal_strlit("local");
    reveal_strlit("main");
    reveal_strlit("default");
    assert("254"@.len() == 3 && "local"@.len() == 5 && "main"@.len() == 4 && "default"@.len() == 7);
    reveal_with_fuel(crate::text::decimal, 4);
    assert("254"@ =~= crate::text::decimal(254));
    crate::number_laws::law_sized_numbers_round_trip(0, 0, 254);
}

/// A policy rule is what its options say: its family is that of its section, its action is to look up a table unless
/// another is named, and its mark comes with a mask.
pub proof fn law_policy_rule_is_what_its_options_say(s: UciSectionView, ownership: ObjectOwnership)
    ensures
        network_object_value(s, ownership) matches Some(NetworkObjectView::PolicyRule(x)) ==> {
            &&& s.section_type == "rule"@ || s.section_type == "rule6"@
            &&& x.family == NetworkFamily::Ipv4 <==> s.section_type == "rule"@
            &&& x.family == NetworkFamily::Ipv6 <==> s.section_type == "rule6"@
            &&& x.ownership == ownership
            &&& x.enabled <==> is_started(s)
            &&& s.scalar("priority"@) is Some && u32_value(s.scalar("priority"@)->Some_0) == Some(x.priority)
            &&& match s.scalar("src"@) {
                Some(v) => x.source is Some && network_value(v) == x.source,
                None => x.source is None,
            }
            &&& match s.scalar("dest"@) {
                Some(v) => x.destination is Some && network_value(v) == x.destination,
                None => x.destination is None,
            }
            &&& x.input_interface == s.scalar("in"@)
            &&& x.output_interface == s.scalar("out"@)
            &&& s.scalar("mark"@) is None ==> x.fwmark is None && x.fwmark_mask is None
            &&& s.scalar("mark"@) is Some ==> x.fwmark is Some && x.fwmark_mask is Some
            &&& match x.action {
                NetworkPolicyAction::Lookup => (s.first("action"@) is None || s.first("action"@) == Some("lookup"@))
                    && s.first("lookup"@) is Some && is_table(s.first("lookup"@)->Some_0, x.table),
                NetworkPolicyAction::Blackhole => s.first("action"@) == Some("blackhole"@) && x.table == 0,
                NetworkPolicyAction::Unreachable => s.first("action"@) == Some("unreachable"@) && x.table == 0,
                NetworkPolicyAction::Prohibit => s.first("action"@) == Some("prohibit"@) && x.table == 0,
            }
            &&& s.scalar("mbed_id"@) is Some ==> Some(x.id) == s.scalar("mbed_id"@)
            &&& s.scalar("mbed_id"@) is None && s.scalar("name"@) is Some ==> Some(x.id) == s.scalar("name"@)
        },
{
    lemma_types();
    lemma_bool(s, "disabled"@);
    lemma_bool(s, "auto"@);
    reveal_strlit("lookup");
    reveal_strlit("blackhole");
    reveal_strlit("unreachable");
    reveal_strlit("prohibit");
    assert("lookup"@.len() == 6 && "blackhole"@.len() == 9 && "unreachable"@.len() == 11 && "prohibit"@.len() == 8);
}

/// Whether the values of an option name a mode, with a default where it is absent.
pub open spec fn is_mode(s: UciSectionView, name: Seq<char>, mode: NetworkDhcpMode, default: NetworkDhcpMode) -> bool {
    match s.scalar(name) {
        None => mode == default,
        Some(v) => match mode {
            NetworkDhcpMode::Disabled => v == "disabled"@,
            NetworkDhcpMode::Server => v == "server"@,
            NetworkDhcpMode::Relay => v == "relay"@,
            NetworkDhcpMode::Hybrid => v == "hybrid"@,
        },
    }
}

/// What gives out addresses is what its options say: it is enabled unless it is to be ignored, and what is not given
/// has its usual value.
pub proof fn law_dhcp_server_is_what_its_options_say(s: UciSectionView)
    ensures
        dhcp_server_value(s) matches Some(x) ==> {
            &&& x.enabled <==> !says_yes(s, "ignore"@)
            &&& match s.scalar("start"@) {
                Some(v) => u16_value(v) == Some(x.start),
                None => x.start == 100,
            }
            &&& match s.scalar("limit"@) {
                Some(v) => u16_value(v) == Some(x.limit),
                None => x.limit == 150,
            }
            &&& match s.scalar("leasetime"@) {
                Some(v) => x.lease_time == v,
                None => x.lease_time == "12h"@,
            }
            &&& x.force <==> says_yes(s, "force"@)
            &&& is_mode(s, "dhcpv6"@, x.dhcpv6_mode, NetworkDhcpMode::Server)
            &&& is_mode(s, "ra"@, x.ra_mode, NetworkDhcpMode::Server)
            &&& is_mode(s, "ndp"@, x.ndp_mode, NetworkDhcpMode::Hybrid)
            &&& x.dhcp_options.len() == s.values("dhcp_option"@).len() <= 16
            &&& forall|i: int|
                0 <= i < x.dhcp_options.len() ==> is_dhcp_pair(
                    #[trigger] s.values("dhcp_option"@)[i],
                    x.dhcp_options[i],
                )
        },
{
    if let Some(x) = dhcp_server_value(s) {
        lemma_bool(s, "ignore"@);
        lemma_bool(s, "force"@);
        let f = |r: Seq<char>| <crate::network_decode::DhcpOptions as crate::parse::Reader>::value(r);
        assert forall|i: int| 0 <= i < x.dhcp_options.len() implies is_dhcp_pair(
            #[trigger] s.values("dhcp_option"@)[i],
            x.dhcp_options[i],
        ) by {
            let raw = s.values("dhcp_option"@)[i];
            assert(f(raw) is Some);
            crate::text::lemma_find_from(raw, ',', 0);
            let k = find_from(raw, ',', 0);
            assert(raw =~= raw.take(k) + seq![','] + raw.skip(k + 1));
        }
    }
}

/// Whether a text is a number and a value with a comma between them.
pub open spec fn is_dhcp_pair(raw: Seq<char>, x: NetworkDhcpOptionView) -> bool {
    &&& 1 <= x.code <= 255
    &&& x.value.len() > 0
    &&& exists|c: Seq<char>| #[trigger] u16_value(c) == Some(x.code) && raw == c + seq![','] + x.value
}

/// A section with an option that the object model does not know, or with several values where one is meant, is left to
/// the platform.
pub proof fn law_richer_sections_are_left_alone(s: UciSectionView, ownership: ObjectOwnership, i: int)
    requires
        0 <= i < s.options.len(),
    ensures
        s.section_type == "interface"@ && (s.has("gateway"@) || s.has("ip6gw"@) || s.has("ip6assign"@) || s.has(
            "ip6hint"@,
        ) || s.has("ip6class"@) || s.has("delegate"@) || s.has("metric"@) || s.has("type"@) || s.has(
            "defaultroute"@,
        ) || s.has("force_link"@) || s.has("ip4table"@) || s.has("ip6table"@) || s.has("broadcast"@) || s.has(
            "ip6prefix"@,
        ) || s.has("reqaddress"@) || s.has("reqprefix"@)) ==> network_object_value(s, ownership) is None,
        s.section_type == "device"@ && (s.has("bridge_empty"@) || s.has("igmp_snooping"@) || s.has(
            "multicast_querier"@,
        ) || s.has("macaddr"@) || s.has("promisc"@) || s.has("acceptlocal"@)) ==> network_object_value(s, ownership)
            is None,
        (s.section_type == "route"@ || s.section_type == "route6"@) && (s.has("onlink"@) || s.has("mtu"@))
            ==> network_object_value(s, ownership) is None,
        (s.section_type == "rule"@ || s.section_type == "rule6"@) && (s.has("tos"@) || s.has("invert"@) || s.has(
            "ipproto"@,
        ) || s.has("sport"@) || s.has("dport"@) || s.has("uidrange"@) || s.has("suppress_prefixlength"@))
            ==> network_object_value(s, ownership) is None,
        s.options[i].values.len() != 1 && !(s.section_type == "interface"@ && (s.options[i].name == "ipaddr"@
            || s.options[i].name == "ip6addr"@ || s.options[i].name == "dns"@ || s.options[i].name
            == "dns_search"@ || s.options[i].name == "reqopts"@)) && !(s.section_type == "device"@
            && s.options[i].name == "ports"@) ==> network_object_value(s, ownership) is None,
        s.section_type != "interface"@ && s.section_type != "device"@ && s.section_type != "route"@ && s.section_type
            != "route6"@ && s.section_type != "rule"@ && s.section_type != "rule6"@ ==> network_object_value(
            s,
            ownership,
        ) is None,
{
    lemma_types();
    lemma_unsupported(s);
    lemma_lists_of(s.section_type, s.options[i].name);
}

proof fn lemma_unsupported(s: UciSectionView)
    ensures
        s.section_type == "interface"@ && (s.has("gateway"@) || s.has("ip6gw"@) || s.has("ip6assign"@) || s.has(
            "ip6hint"@,
        ) || s.has("ip6class"@) || s.has("delegate"@) || s.has("metric"@) || s.has("type"@) || s.has(
            "defaultroute"@,
        ) || s.has("force_link"@) || s.has("ip4table"@) || s.has("ip6table"@) || s.has("broadcast"@) || s.has(
            "ip6prefix"@,
        ) || s.has("reqaddress"@) || s.has("reqprefix"@)) ==> crate::network_decode::has_any(
            s,
            unsupported_options(s.section_type),
        ),
        s.section_type == "device"@ && (s.has("bridge_empty"@) || s.has("igmp_snooping"@) || s.has(
            "multicast_querier"@,
        ) || s.has("macaddr"@) || s.has("promisc"@) || s.has("acceptlocal"@)) ==> crate::network_decode::has_any(
            s,
            unsupported_options(s.section_type),
        ),
        (s.section_type == "route"@ || s.section_type == "route6"@) && (s.has("onlink"@) || s.has("mtu"@))
            ==> crate::network_decode::has_any(s, unsupported_options(s.section_type)),
        (s.section_type == "rule"@ || s.section_type == "rule6"@) && (s.has("tos"@) || s.has("invert"@) || s.has(
            "ipproto"@,
        ) || s.has("sport"@) || s.has("dport"@) || s.has("uidrange"@) || s.has("suppress_prefixlength"@))
            ==> crate::network_decode::has_any(s, unsupported_options(s.section_type)),
{
    lemma_types();
    let u = unsupported_options(s.section_type);
    if s.section_type == "interface"@ {
        assert(u[0] == "gateway"@ && u[1] == "ip6gw"@ && u[2] == "ip6assign"@ && u[3] == "ip6hint"@ && u[4]
            == "ip6class"@ && u[5] == "delegate"@ && u[6] == "metric"@ && u[7] == "type"@ && u[8] == "defaultroute"@
            && u[9] == "force_link"@ && u[10] == "ip4table"@ && u[11] == "ip6table"@ && u[12] == "broadcast"@ && u[13]
            == "ip6prefix"@ && u[14] == "reqaddress"@ && u[15] == "reqprefix"@);
    } else if s.section_type == "device"@ {
        assert(u[0] == "bridge_empty"@ && u[1] == "igmp_snooping"@ && u[2] == "multicast_querier"@ && u[3]
            == "macaddr"@ && u[4] == "promisc"@ && u[5] == "acceptlocal"@);
    } else if s.section_type == "route"@ || s.section_type == "route6"@ {
        assert(u[0] == "onlink"@ && u[1] == "mtu"@);
    } else if s.section_type == "rule"@ || s.section_type == "rule6"@ {
        assert(u[0] == "tos"@ && u[1] == "invert"@ && u[2] == "ipproto"@ && u[3] == "sport"@ && u[4] == "dport"@
            && u[5] == "uidrange"@ && u[6] == "suppress_prefixlength"@);
    }
}

proof fn lemma_lists_of(section_type: Seq<char>, name: Seq<char>)
    ensures
        list_options(section_type).contains(name) ==> (section_type == "interface"@ && (name == "ipaddr"@ || name
            == "ip6addr"@ || name == "dns"@ || name == "dns_search"@ || name == "reqopts"@)) || (section_type
            == "device"@ && name == "ports"@),
{
    let l = list_options(section_type);
    if l.contains(name) {
        let i = choose|i: int| 0 <= i < l.len() && l[i] == name;
        assert(i == 0 || i == 1 || i == 2 || i == 3 || i == 4);
    }
}

} // verus!
