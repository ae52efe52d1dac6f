//! Kernel interfaces, routes and policy rules, read from what the fixed commands print.

use vstd::prelude::*;

use vstd::string::*;
use vstd::utf8::*;

use crate::change::ObjectOwnership;
use crate::digest::{digest_of, digest_value, first_bytes, hex_pairs, hex_prefix};
use crate::firewall_uci::text_view;
use crate::items::{copy_list, has_item, same_list, Item};
use crate::json::{
    json_text, lemma_list_view, lemma_object_view, parse_json, value_view, Json, JsonView,
};
use crate::net::{
    address_format, address_value, network_value, parse_network, IpAddr, IpNetwork,
};
use crate::network_decode::owned;
use crate::network_model::{
    NetworkAddressMode, NetworkFamily, NetworkInterfaceConfig, NetworkInterfaceConfigView, NetworkInventory,
    NetworkInventoryView, NetworkObject, NetworkObjectView, NetworkPolicyAction, NetworkPolicyRule,
    NetworkPolicyRuleView, NetworkRoute, NetworkRouteType, NetworkRouteView,
};
use crate::network_openwrt::verdict_at;
use crate::parse::{read_u32, u32_value};
use crate::text::{
    begins, byte_len, byte_length, chars_of, control, cut, decimal, decimal_text, hex_value, is_control,
    parse_hex, piece, same, same_option, split_once, starts,
};
use crate::views::{group_views, lvres, opt, views, vres};

verus! {

broadcast use group_views;

/// Why a runtime observation, record or plan was refused.
#[derive(Debug, Clone, Copy, PartialEq, Eq, Structural)]
pub enum RuntimeNetworkInventoryError {
    Malformed,
    Capacity,
    Unsupported,
    StaleState,
    NativeDrift,
    InvalidPlan,
}

impl View for RuntimeNetworkInventoryError {
    type V = RuntimeNetworkInventoryError;

    open spec fn view(&self) -> RuntimeNetworkInventoryError {
        *self
    }
}

impl RuntimeNetworkInventoryError {
    /// The text of the error.
    pub open spec fn message_text(self) -> Seq<char> {
        match self {
            RuntimeNetworkInventoryError::Malformed => "runtime network observation is malformed"@,
            RuntimeNetworkInventoryError::Capacity => "runtime network observation exceeds its bound"@,
            RuntimeNetworkInventoryError::Unsupported =>
                "runtime network object is not safely representable"@,
            RuntimeNetworkInventoryError::StaleState =>
                "runtime network canonical state is stale or corrupt"@,
            RuntimeNetworkInventoryError::NativeDrift =>
                "Agent-owned runtime network state is orphaned or drifted"@,
            RuntimeNetworkInventoryError::InvalidPlan =>
                "network plan contains an unsupported runtime object"@,
        }
    }

    /// The text of the error.
    pub fn message(&self) -> (r: String)
        ensures
            r@ == self@.message_text(),
    {
        match self {
            RuntimeNetworkInventoryError::Malformed =>
                "runtime network observation is malformed".to_owned(),
            RuntimeNetworkInventoryError::Capacity =>
                "runtime network observation exceeds its bound".to_owned(),
            RuntimeNetworkInventoryError::Unsupported =>
                "runtime network object is not safely representable".to_owned(),
            RuntimeNetworkInventoryError::StaleState =>
                "runtime network canonical state is stale or corrupt".to_owned(),
            RuntimeNetworkInventoryError::NativeDrift =>
                "Agent-owned runtime network state is orphaned or drifted".to_owned(),
            RuntimeNetworkInventoryError::InvalidPlan =>
                "network plan contains an unsupported runtime object".to_owned(),
        }
    }
}

/// What the object model says of a rule: whether it accepts it, and how it encodes it without its
/// identity.
#[derive(Debug, Clone, PartialEq, Eq)]
pub struct RuleAnswer {
    pub valid: bool,
    pub encoding: Vec<u8>,
}

#[verifier::ext_equal]
pub struct RuleAnswerView {
    pub valid: bool,
    pub encoding: Seq<u8>,
}

impl View for RuleAnswer {
    type V = RuleAnswerView;

    open spec fn view(&self) -> RuleAnswerView {
        RuleAnswerView {
            valid: self.valid,
            encoding: views(self.encoding@),
        }
    }
}

impl Item for RuleAnswer {
    fn alike(&self, other: &Self) -> (r: bool) {
        self.valid == other.valid
            && same_list(&self.encoding, &other.encoding)
    }

    fn twin(&self) -> (r: Self) {
        RuleAnswer {
            valid: self.valid,
            encoding: copy_list(&self.encoding),
        }
    }
}

pub const MAX_OBJECTS: usize = 256;

pub const MAX_ADDRESSES_PER_INTERFACE: usize = 32;

pub const MAX_NAME_BYTES: usize = 64;

/// The route protocol that marks a route as the agent's own.
pub const RUNTIME_ROUTE_PROTOCOL: u64 = 186;

/// The first and the last rule priority that are reserved for the agent.
pub const RUNTIME_POLICY_PRIORITY_START: u32 = 32000;

pub const RUNTIME_POLICY_PRIORITY_END: u32 = 32063;

/// The elements of a document that is a list.
pub open spec fn json_array_value(text: Seq<char>) -> Result<
    Seq<JsonView>,
    RuntimeNetworkInventoryError,
> {
    match json_text(text) {
        Some(JsonView::List(v)) => Ok(v),
        _ => Err(RuntimeNetworkInventoryError::Malformed),
    }
}

/// Reads a document that has to be a list.
pub fn json_array(input: &str) -> (r: Result<Vec<Json>, RuntimeNetworkInventoryError>)
    ensures
        lvres(r) == json_array_value(input@),
{
    match parse_json(input) {
        Some(Json::List(v)) => {
            proof {
                lemma_list_view(v);
            }
            Ok(v)
        },
        _ => Err(RuntimeNetworkInventoryError::Malformed),
    }
}

/// Whether a text is free of control characters.
pub open spec fn is_clean(s: Seq<char>) -> bool {
    forall|i: int| 0 <= i < s.len() ==> !is_control(#[trigger] s[i])
}

/// Whether a text can be a name: not empty, bounded, without control characters.
pub open spec fn is_name(s: Seq<char>) -> bool {
    0 < s.len() && byte_len(s) <= MAX_NAME_BYTES && is_clean(s)
}

pub fn clean(s: &str) -> (r: bool)
    ensures
        r == is_clean(s@),
{
    let cs = chars_of(s);
    let mut i: usize = 0;
    while i < cs.len()
        invariant
            i <= cs@.len(),
            cs@ == s@,
            forall|j: int| 0 <= j < i ==> !is_control(#[trigger] cs@[j]),
        decreases cs@.len() - i,
    {
        if control(cs[i]) {
            return false;
        }
        i = i + 1;
    }
    true
}

fn usable_name(s: &str) -> (r: bool)
    ensures
        r == is_name(s@),
{
    chars_of(s).len() > 0 && byte_length(s) <= MAX_NAME_BYTES && clean(s)
}

/// The name that a field holds.
pub open spec fn name_at(v: JsonView, field: Seq<char>) -> Option<Seq<char>> {
    match v.text_at(field) {
        Some(s) => if is_name(s) {
            Some(s)
        } else {
            None
        },
        None => None,
    }
}

pub fn bounded_string<'a>(value: &'a Json, field: &str) -> (r: Option<&'a str>)
    ensures
        match r {
            Some(s) => name_at(value@, field@) == Some(s@),
            None => name_at(value@, field@) is None,
        },
{
    match value.text_at(field) {
        Some(s) => if usable_name(s) {
            Some(s)
        } else {
            None
        },
        None => None,
    }
}

/// The address that a field spells.
pub open spec fn ip_at(v: JsonView, field: Seq<char>) -> Option<IpAddr> {
    match v.text_at(field) {
        Some(s) => address_value(s),
        None => None,
    }
}

fn address_at(value: &Json, field: &str) -> (r: Option<IpAddr>)
    ensures
        r == ip_at(value@, field@),
{
    match value.text_at(field) {
        Some(s) => IpAddr::parse(s),
        None => None,
    }
}

/// The number of a field, where it fits 32 bits.
pub open spec fn word_at(v: JsonView, field: Seq<char>) -> Option<u32> {
    match v.number_at(field) {
        Some(n) => if n <= u32::MAX {
            Some(n as u32)
        } else {
            None
        },
        None => None,
    }
}

fn u32_at(value: &Json, field: &str) -> (r: Option<u32>)
    ensures
        r == word_at(value@, field@),
{
    match value.number_at(field) {
        Some(n) => if n <= u32::MAX as u64 {
            Some(n as u32)
        } else {
            None
        },
        None => None,
    }
}

/// The address with its prefix length that an entry of an interface holds.
pub open spec fn entry_network(v: JsonView) -> Option<IpNetwork> {
    match (ip_at(v, "local"@), v.number_at("prefixlen"@)) {
        (Some(address), Some(n)) => if n <= (if address is V4 {
            32u64
        } else {
            128u64
        }) {
            Some(IpNetwork { address, prefix_len: n as u8 })
        } else {
            None
        },
        _ => None,
    }
}

fn address(value: &Json) -> (r: Option<IpNetwork>)
    ensures
        r == entry_network(value@),
{
    match (address_at(value, "local"), value.number_at("prefixlen")) {
        (Some(address), Some(n)) => {
            let limit: u64 = if address.is_ipv4() {
                32
            } else {
                128
            };
            if n <= limit {
                Some(IpNetwork { address, prefix_len: n as u8 })
            } else {
                None
            }
        },
        _ => None,
    }
}

/// What the address records say of one interface.
#[verifier::ext_equal]
pub struct ObservedView {
    pub addresses: Seq<IpNetwork>,
    pub dynamic_v4: bool,
    pub dynamic_v6: bool,
}

pub open spec fn is_dynamic(v: JsonView) -> bool {
    v.true_at("dynamic"@) || v.true_at("temporary"@)
}

/// What an entry adds: its address, unless it is there already, and that the address is leased.
pub open spec fn entry_seen(o: ObservedView, v: JsonView) -> ObservedView {
    match entry_network(v) {
        None => o,
        Some(n) => ObservedView {
            addresses: if o.addresses.contains(n) {
                o.addresses
            } else {
                o.addresses.push(n)
            },
            dynamic_v4: o.dynamic_v4 || (is_dynamic(v) && n.address is V4),
            dynamic_v6: o.dynamic_v6 || (is_dynamic(v) && n.address is V6),
        },
    }
}

/// What the entries from `i` on add.
pub open spec fn entries_seen(o: ObservedView, entries: Seq<JsonView>, i: int) -> ObservedView
    decreases entries.len() - i,
{
    if i < 0 || i >= entries.len() {
        o
    } else {
        entries_seen(entry_seen(o, entries[i]), entries, i + 1)
    }
}

/// The entries of a record, where it is one of the named interface.
pub open spec fn entries_of(record: JsonView, name: Seq<char>) -> Option<Seq<JsonView>> {
    if name_at(record, "ifname"@) == Some(name) {
        record.list_at("addr_info"@)
    } else {
        None
    }
}

/// What the records from `i` on say of an interface.
pub open spec fn records_seen(
    o: ObservedView,
    records: Seq<JsonView>,
    name: Seq<char>,
    i: int,
) -> ObservedView
    decreases records.len() - i,
{
    if i < 0 || i >= records.len() {
        o
    } else {
        match entries_of(records[i], name) {
            None => records_seen(o, records, name, i + 1),
            Some(entries) => records_seen(entries_seen(o, entries, 0), records, name, i + 1),
        }
    }
}

pub open spec fn unseen() -> ObservedView {
    ObservedView { addresses: Seq::empty(), dynamic_v4: false, dynamic_v6: false }
}

/// What a list of address records says of an interface.
pub open spec fn observed(records: Seq<JsonView>, name: Seq<char>) -> ObservedView {
    records_seen(unseen(), records, name, 0)
}

pub struct Observed {
    pub addresses: Vec<IpNetwork>,
    pub dynamic_v4: bool,
    pub dynamic_v6: bool,
}

impl View for Observed {
    type V = ObservedView;

    open spec fn view(&self) -> ObservedView {
        ObservedView {
            addresses: self.addresses@,
            dynamic_v4: self.dynamic_v4,
            dynamic_v6: self.dynamic_v6,
        }
    }
}

/// Networks are their own views.
pub proof fn lemma_networks(s: Seq<IpNetwork>)
    ensures
        views(s) == s,
{
    assert(views(s) =~= s);
}

fn see_entry(o: &mut Observed, value: &Json)
    ensures
        final(o)@ == entry_seen(old(o)@, value@),
{
    match address(value) {
        None => {},
        Some(n) => {
            let dynamic = value.true_at("dynamic") || value.true_at("temporary");
            if dynamic && n.address.is_ipv4() {
                o.dynamic_v4 = true;
            } else if dynamic {
                o.dynamic_v6 = true;
            }
            proof {
                lemma_networks(o.addresses@);
            }
            if !has_item(&o.addresses, &n) {
                o.addresses.push(n);
            }
        },
    }
}

/// Gathers what the address records say of an interface.
pub fn observe(records: &Vec<Json>, name: &str) -> (r: Observed)
    ensures
        r@ == observed(views(records@), name@),
{
    let ghost all = views(records@);
    let mut o = Observed { addresses: Vec::new(), dynamic_v4: false, dynamic_v6: false };
    assert(o@ =~= unseen());
    let mut i: usize = 0;
    while i < records.len()
        invariant
            i <= records@.len(),
            all == views(records@),
            records_seen(o@, all, name@, i as int) == observed(all, name@),
        decreases records@.len() - i,
    {
        assert(all[i as int] == records@[i as int]@);
        match bounded_string(&records[i], "ifname") {
            Some(found) => {
                if same(found, name) {
                    match records[i].list_at("addr_info") {
                        Some(entries) => {
                            let ghost start = o@;
                            let mut j: usize = 0;
                            while j < entries.len()
                                invariant
                                    j <= entries@.len(),
                                    entries_seen(o@, views(entries@), j as int) == entries_seen(
                                        start,
                                        views(entries@),
                                        0,
                                    ),
                                decreases entries@.len() - j,
                            {
                                assert(views(entries@)[j as int] == entries@[j as int]@);
                                see_entry(&mut o, &entries[j]);
                                j = j + 1;
                            }
                        },
                        None => {},
                    }
                }
            },
            None => {},
        }
        i = i + 1;
    }
    o
}

/// Whether a record names an interface and lists more addresses than one may have.
pub open spec fn is_crowded(record: JsonView) -> bool {
    name_at(record, "ifname"@) is Some && (record.list_at("addr_info"@) matches Some(v) ==> v.len()
        > MAX_ADDRESSES_PER_INTERFACE) && record.list_at("addr_info"@) is Some
}

pub open spec fn any_crowded(records: Seq<JsonView>) -> bool {
    exists|i: int| 0 <= i < records.len() && is_crowded(#[trigger] records[i])
}

fn crowded(records: &Vec<Json>) -> (r: bool)
    ensures
        r == any_crowded(views(records@)),
{
    let ghost all = views(records@);
    let mut i: usize = 0;
    while i < records.len()
        invariant
            i <= records@.len(),
            all == views(records@),
            forall|j: int| 0 <= j < i ==> !is_crowded(#[trigger] all[j]),
        decreases records@.len() - i,
    {
        assert(all[i as int] == records@[i as int]@);
        if bounded_string(&records[i], "ifname").is_some() {
            match records[i].list_at("addr_info") {
                Some(v) => {
                    if v.len() > MAX_ADDRESSES_PER_INTERFACE {
                        assert(is_crowded(all[i as int]));
                        return true;
                    }
                },
                None => {},
            }
        }
        i = i + 1;
    }
    false
}

/// How an interface gets its addresses of one family.
pub open spec fn mode_of(present: bool, dynamic: bool, ipv6: bool) -> NetworkAddressMode {
    if !present {
        NetworkAddressMode::Disabled
    } else if dynamic && ipv6 {
        NetworkAddressMode::Automatic
    } else if dynamic {
        NetworkAddressMode::Dhcp
    } else {
        NetworkAddressMode::Static
    }
}

fn address_mode(present: bool, dynamic: bool, ipv6: bool) -> (r: NetworkAddressMode)
    ensures
        r == mode_of(present, dynamic, ipv6),
{
    if !present {
        NetworkAddressMode::Disabled
    } else if dynamic && ipv6 {
        NetworkAddressMode::Automatic
    } else if dynamic {
        NetworkAddressMode::Dhcp
    } else {
        NetworkAddressMode::Static
    }
}

/// Whether an address stays in the typed object: those of a leased family do not.
pub open spec fn is_kept(o: ObservedView, n: IpNetwork) -> bool {
    !(n.address is V4 && o.dynamic_v4) && !(n.address is V6 && o.dynamic_v6)
}

pub open spec fn any_v4(s: Seq<IpNetwork>) -> bool {
    exists|i: int| 0 <= i < s.len() && (#[trigger] s[i]).address is V4
}

pub open spec fn any_v6(s: Seq<IpNetwork>) -> bool {
    exists|i: int| 0 <= i < s.len() && (#[trigger] s[i]).address is V6
}

pub open spec fn is_up(link: JsonView) -> bool {
    match link.list_at("flags"@) {
        Some(flags) => flags.contains(JsonView::Text("UP"@)),
        None => false,
    }
}

/// The interface that a link and what was seen of its addresses describe.
pub open spec fn interface_value(
    name: Seq<char>,
    link: JsonView,
    o: ObservedView,
) -> NetworkInterfaceConfigView {
    NetworkInterfaceConfigView {
        id: name,
        ownership: ObjectOwnership::PlatformNative,
        enabled: is_up(link),
        device: name,
        ipv4_mode: mode_of(any_v4(o.addresses), o.dynamic_v4, false),
        ipv6_mode: mode_of(any_v6(o.addresses), o.dynamic_v6, true),
        addresses: o.addresses.filter(|n: IpNetwork| is_kept(o, n)),
        mtu: word_at(link, "mtu"@),
        mac_override: None,
        peerdns: true,
        dns_servers: Seq::empty(),
        dns_search: Seq::empty(),
        dhcp_client_id: None,
        dhcp_vendor_id: None,
        dhcp_hostname: None,
        dhcp_request_options: Seq::empty(),
        dhcp_no_release: false,
        dhcp_server: None,
    }
}

fn link_up(link: &Json) -> (r: bool)
    ensures
        r == is_up(link@),
{
    match link.list_at("flags") {
        Some(flags) => {
            let ghost all = views(flags@);
            let mut i: usize = 0;
            while i < flags.len()
                invariant
                    i <= flags@.len(),
                    all == views(flags@),
                    link@.list_at("flags"@) == Some(all),
                    forall|j: int| 0 <= j < i ==> all[j] != JsonView::Text("UP"@),
                decreases flags@.len() - i,
            {
                assert(all[i as int] == flags@[i as int]@);
                match flags[i].text() {
                    Some(s) => {
                        if same(s, "UP") {
                            assert(all[i as int] == JsonView::Text("UP"@));
                            return true;
                        }
                    },
                    None => {},
                }
                i = i + 1;
            }
            false
        },
        None => false,
    }
}

fn sees_v4(s: &Vec<IpNetwork>) -> (r: bool)
    ensures
        r == any_v4(s@),
{
    let mut i: usize = 0;
    while i < s.len()
        invariant
            i <= s@.len(),
            forall|j: int| 0 <= j < i ==> !((#[trigger] s@[j]).address is V4),
        decreases s@.len() - i,
    {
        if s[i].address.is_ipv4() {
            assert(s@[i as int].address is V4);
            return true;
        }
        i = i + 1;
    }
    false
}

fn sees_v6(s: &Vec<IpNetwork>) -> (r: bool)
    ensures
        r == any_v6(s@),
{
    let mut i: usize = 0;
    while i < s.len()
        invariant
            i <= s@.len(),
            forall|j: int| 0 <= j < i ==> !((#[trigger] s@[j]).address is V6),
        decreases s@.len() - i,
    {
        if s[i].address.is_ipv6() {
            assert(s@[i as int].address is V6);
            return true;
        }
        i = i + 1;
    }
    false
}

fn kept(o: &Observed) -> (r: Vec<IpNetwork>)
    ensures
        r@ == o@.addresses.filter(|n: IpNetwork| is_kept(o@, n)),
{
    let ghost p = |n: IpNetwork| is_kept(o@, n);
    let ghost all = o.addresses@;
    let mut r: Vec<IpNetwork> = Vec::new();
    let mut i: usize = 0;
    proof {
        reveal(Seq::filter);
        assert(all.take(0) =~= Seq::empty());
    }
    while i < o.addresses.len()
        invariant
            i <= o.addresses@.len(),
            all == o.addresses@,
            p == (|n: IpNetwork| is_kept(o@, n)),
            r@ == all.take(i as int).filter(p),
        decreases o.addresses@.len() - i,
    {
        let n: IpNetwork = o.addresses[i];
        proof {
            reveal(Seq::filter);
            assert(all.take(i + 1).drop_last() =~= all.take(i as int));
            assert(all.take(i + 1).last() == n);
        }
        if !(n.address.is_ipv4() && o.dynamic_v4) && !(n.address.is_ipv6() && o.dynamic_v6) {
            r.push(n);
        }
        i = i + 1;
    }
    assert(all.take(i as int) =~= all);
    r
}

fn interface_object(name: &str, link: &Json, o: &Observed) -> (r: NetworkInterfaceConfig)
    ensures
        r@ == interface_value(name@, link@, o@),
{
    let addresses = kept(o);
    proof {
        lemma_networks(addresses@);
    }
    NetworkInterfaceConfig {
        id: name.to_owned(),
        ownership: ObjectOwnership::PlatformNative,
        enabled: link_up(link),
        device: name.to_owned(),
        ipv4_mode: address_mode(sees_v4(&o.addresses), o.dynamic_v4, false),
        ipv6_mode: address_mode(sees_v6(&o.addresses), o.dynamic_v6, true),
        addresses,
        mtu: u32_at(link, "mtu"),
        mac_override: None,
        peerdns: true,
        dns_servers: Vec::new(),
        dns_search: Vec::new(),
        dhcp_client_id: None,
        dhcp_vendor_id: None,
        dhcp_hostname: None,
        dhcp_request_options: Vec::new(),
        dhcp_no_release: false,
        dhcp_server: None,
    }
}

/// Whether an object of an identity is in a list.
pub open spec fn id_in(objects: Seq<NetworkObjectView>, id: Seq<char>) -> bool {
    exists|i: int| 0 <= i < objects.len() && (#[trigger] objects[i]).id() == id
}

fn has_id(objects: &Vec<NetworkObject>, id: &str) -> (r: bool)
    ensures
        r == id_in(views(objects@), id@),
{
    let ghost all = views(objects@);
    let mut i: usize = 0;
    while i < objects.len()
        invariant
            i <= objects@.len(),
            all == views(objects@),
            forall|j: int| 0 <= j < i ==> (#[trigger] all[j]).id() != id@,
        decreases objects@.len() - i,
    {
        assert(all[i as int] == objects@[i as int]@);
        if same(objects[i].id(), id) {
            return true;
        }
        i = i + 1;
    }
    false
}

/// The objects with the interfaces of the links from `i` on behind them. Each link has a name, and no
/// two have the same.
pub open spec fn links_read(
    objects: Seq<NetworkObjectView>,
    links: Seq<JsonView>,
    records: Seq<JsonView>,
    i: int,
) -> Result<Seq<NetworkObjectView>, RuntimeNetworkInventoryError>
    decreases links.len() - i,
{
    if i < 0 || i >= links.len() {
        Ok(objects)
    } else {
        match name_at(links[i], "ifname"@) {
            None => Err(RuntimeNetworkInventoryError::Malformed),
            Some(name) => if id_in(objects, name) {
                Err(RuntimeNetworkInventoryError::Malformed)
            } else {
                links_read(
                    objects.push(
                        NetworkObjectView::Interface(
                            interface_value(name, links[i], observed(records, name)),
                        ),
                    ),
                    links,
                    records,
                    i + 1,
                )
            },
        }
    }
}

fn read_links(links: &Vec<Json>, records: &Vec<Json>) -> (r: Result<
    Vec<NetworkObject>,
    RuntimeNetworkInventoryError,
>)
    ensures
        lvres(r) == links_read(Seq::empty(), views(links@), views(records@), 0),
{
    let ghost all = views(links@);
    let ghost seen = views(records@);
    let mut objects: Vec<NetworkObject> = Vec::new();
    let mut i: usize = 0;
    while i < links.len()
        invariant
            i <= links@.len(),
            all == views(links@),
            seen == views(records@),
            links_read(views(objects@), all, seen, i as int) == links_read(
                Seq::empty(),
                all,
                seen,
                0,
            ),
        decreases links@.len() - i,
    {
        assert(all[i as int] == links@[i as int]@);
        match bounded_string(&links[i], "ifname") {
            None => {
                return Err(RuntimeNetworkInventoryError::Malformed);
            },
            Some(name) => {
                if has_id(&objects, name) {
                    return Err(RuntimeNetworkInventoryError::Malformed);
                }
                let o = observe(records, name);
                objects.push(NetworkObject::Interface(interface_object(name, &links[i], &o)));
            },
        }
        i = i + 1;
    }
    Ok(objects)
}

/// Whether a record of a route is marked as the agent's own.
pub open spec fn is_owned_route(v: JsonView) -> bool {
    match v.field("protocol"@) {
        Some(JsonView::Number(n)) => n == Some(RUNTIME_ROUTE_PROTOCOL),
        Some(JsonView::Text(s)) => s == "186"@,
        _ => false,
    }
}

pub fn owned_protocol(value: &Json) -> (r: bool)
    ensures
        r == is_owned_route(value@),
{
    match value.field("protocol") {
        Some(Json::Number(Some(n))) => *n == RUNTIME_ROUTE_PROTOCOL,
        Some(Json::Text(s)) => same(s.as_str(), "186"),
        _ => false,
    }
}

/// The network of a default route: that of the family named, or of the gateway's.
pub open spec fn default_value(v: JsonView, gateway: Option<IpAddr>) -> IpNetwork {
    if v.text_at("family"@) == Some("inet6"@) || (gateway is Some && gateway->Some_0 is V6) {
        IpNetwork { address: IpAddr::V6(0), prefix_len: 0 }
    } else {
        IpNetwork { address: IpAddr::V4(0), prefix_len: 0 }
    }
}

fn default_network(value: &Json, gateway: Option<IpAddr>) -> (r: IpNetwork)
    ensures
        r == default_value(value@, gateway),
{
    let beyond = match gateway {
        Some(a) => a.is_ipv6(),
        None => false,
    };
    if same_option(value.text_at("family"), "inet6") || beyond {
        IpNetwork { address: IpAddr::V6(0), prefix_len: 0 }
    } else {
        IpNetwork { address: IpAddr::V4(0), prefix_len: 0 }
    }
}

/// The destination of a route.
pub open spec fn destination_value(v: JsonView, gateway: Option<IpAddr>) -> Option<IpNetwork> {
    match v.text_at("dst"@) {
        None => Some(default_value(v, gateway)),
        Some(s) => if s == "default"@ {
            Some(default_value(v, gateway))
        } else {
            network_value(s)
        },
    }
}

/// The table of a route, by number or by one of three names.
pub open spec fn table_value(v: Option<JsonView>) -> Option<u32> {
    match v {
        None => Some(254u32),
        Some(JsonView::Number(Some(n))) => if n <= u32::MAX {
            Some(n as u32)
        } else {
            None
        },
        Some(JsonView::Text(s)) => if s == "default"@ {
            Some(253u32)
        } else if s == "main"@ {
            Some(254u32)
        } else if s == "local"@ {
            Some(255u32)
        } else {
            u32_value(s)
        },
        _ => None,
    }
}

fn route_table(value: Option<&Json>) -> (r: Option<u32>)
    ensures
        r == table_value(value_view(value)),
{
    match value {
        None => Some(254),
        Some(Json::Number(Some(n))) => if *n <= u32::MAX as u64 {
            Some(*n as u32)
        } else {
            None
        },
        Some(Json::Text(s)) => {
            let s = s.as_str();
            if same(s, "default") {
                Some(253)
            } else if same(s, "main") {
                Some(254)
            } else if same(s, "local") {
                Some(255)
            } else {
                read_u32(s)
            }
        },
        _ => None,
    }
}

pub open spec fn route_type_value(s: Option<Seq<char>>) -> Option<NetworkRouteType> {
    match s {
        None => Some(NetworkRouteType::Unicast),
        Some(s) => if s == "unicast"@ {
            Some(NetworkRouteType::Unicast)
        } else if s == "blackhole"@ {
            Some(NetworkRouteType::Blackhole)
        } else if s == "unreachable"@ {
            Some(NetworkRouteType::Unreachable)
        } else if s == "prohibit"@ {
            Some(NetworkRouteType::Prohibit)
        } else {
            None
        },
    }
}

fn read_route_type(s: Option<&str>) -> (r: Option<NetworkRouteType>)
    ensures
        r == route_type_value(text_view(s)),
{
    match s {
        None => Some(NetworkRouteType::Unicast),
        Some(s) => if same(s, "unicast") {
            Some(NetworkRouteType::Unicast)
        } else if same(s, "blackhole") {
            Some(NetworkRouteType::Blackhole)
        } else if same(s, "unreachable") {
            Some(NetworkRouteType::Unreachable)
        } else if same(s, "prohibit") {
            Some(NetworkRouteType::Prohibit)
        } else {
            None
        },
    }
}

/// The text that the `Debug` format of std gives a string.
pub uninterp spec fn debug_format(s: Seq<char>) -> Seq<char>;

/// Calls the `Debug` format of std on a string: the contract names the quoted and escaped text.
#[verifier::external_body]
fn debug_text(s: &str) -> (r: String)
    ensures
        r@ == debug_format(s@),
{
    format!("{:?}", s)
}

pub open spec fn some_text(inner: Option<Seq<char>>) -> Seq<char> {
    match inner {
        Some(s) => "Some("@ + s + ")"@,
        None => "None"@,
    }
}

pub open spec fn address_part(a: Option<IpAddr>) -> Option<Seq<char>> {
    match a {
        Some(a) => Some(address_format(a)),
        None => None,
    }
}

pub open spec fn name_part(s: Option<Seq<char>>) -> Option<Seq<char>> {
    match s {
        Some(s) => Some(debug_format(s)),
        None => None,
    }
}

pub open spec fn number_part(n: Option<u32>) -> Option<Seq<char>> {
    match n {
        Some(n) => Some(decimal(n as nat)),
        None => None,
    }
}

pub open spec fn route_type_name(t: NetworkRouteType) -> Seq<char> {
    match t {
        NetworkRouteType::Unicast => "Unicast"@,
        NetworkRouteType::Blackhole => "Blackhole"@,
        NetworkRouteType::Unreachable => "Unreachable"@,
        NetworkRouteType::Prohibit => "Prohibit"@,
    }
}

/// The text that tells a kernel route apart from others: what the route says, field by field.
pub open spec fn route_identity(r: NetworkRouteView) -> Seq<char> {
    address_format(r.destination.address) + "|"@ + decimal(r.destination.prefix_len as nat) + "|"@
        + some_text(address_part(r.gateway)) + "|"@ + some_text(name_part(r.output_interface))
        + "|"@ + some_text(address_part(r.preferred_source)) + "|"@ + decimal(r.table as nat)
        + "|"@ + some_text(number_part(r.metric)) + "|"@ + route_type_name(r.route_type)
}

fn append_some(output: &mut String, inner: Option<String>)
    ensures
        final(output)@ == old(output)@ + some_text(opt(inner)),
{
    match inner {
        Some(s) => {
            let mut part = "Some(".to_owned();
            part.append(s.as_str());
            part.append(")");
            output.append(part.as_str());
        },
        None => output.append("None"),
    }
}

fn identity_of(route: &NetworkRoute) -> (r: String)
    ensures
        r@ == route_identity(route@),
{
    let mut t = route.destination.address.text();
    t.append("|");
    t.append(decimal_text(route.destination.prefix_len as u64).as_str());
    t.append("|");
    let gateway = match &route.gateway {
        Some(a) => Some(a.text()),
        None => None,
    };
    append_some(&mut t, gateway);
    t.append("|");
    let interface = match &route.output_interface {
        Some(s) => Some(debug_text(s.as_str())),
        None => None,
    };
    append_some(&mut t, interface);
    t.append("|");
    let source = match &route.preferred_source {
        Some(a) => Some(a.text()),
        None => None,
    };
    append_some(&mut t, source);
    t.append("|");
    t.append(decimal_text(route.table as u64).as_str());
    t.append("|");
    let metric = match route.metric {
        Some(n) => Some(decimal_text(n as u64)),
        None => None,
    };
    append_some(&mut t, metric);
    t.append("|");
    match route.route_type {
        NetworkRouteType::Unicast => t.append("Unicast"),
        NetworkRouteType::Blackhole => t.append("Blackhole"),
        NetworkRouteType::Unreachable => t.append("Unreachable"),
        NetworkRouteType::Prohibit => t.append("Prohibit"),
    }
    t
}

/// A name made of a prefix and the first twelve bytes of a digest.
pub open spec fn digest_name(prefix: Seq<char>, identity: Seq<u8>) -> Option<Seq<char>> {
    match digest_value(identity) {
        Some(d) => Some(prefix + hex_pairs(first_bytes(d, 12))),
        None => None,
    }
}

fn named_by_digest(prefix: &str, identity: &[u8]) -> (r: Option<String>)
    ensures
        opt(r) == digest_name(prefix@, identity@),
{
    match digest_of(identity) {
        Some(d) => {
            let mut id = prefix.to_owned();
            id.append(hex_prefix(d.as_slice(), 12).as_str());
            Some(id)
        },
        None => None,
    }
}

/// A route without its identity, as far as the record is a route of a supported form.
pub open spec fn route_fields(v: JsonView) -> Result<
    Option<NetworkRouteView>,
    RuntimeNetworkInventoryError,
> {
    let gateway = ip_at(v, "gateway"@);
    if v.field("multipath"@) is Some || v.field("nhid"@) is Some {
        Ok(None)
    } else {
        match (destination_value(v, gateway), table_value(v.field("table"@))) {
            (Some(destination), Some(table)) => match route_type_value(v.text_at("type"@)) {
                None => Ok(None),
                Some(route_type) => Ok(
                    Some(
                        NetworkRouteView {
                            id: Seq::empty(),
                            ownership: ObjectOwnership::PlatformNative,
                            enabled: true,
                            destination,
                            gateway,
                            output_interface: name_at(v, "dev"@),
                            preferred_source: ip_at(v, "prefsrc"@),
                            table,
                            metric: word_at(v, "metric"@),
                            route_type,
                        },
                    ),
                ),
            },
            _ => Err(RuntimeNetworkInventoryError::Malformed),
        }
    }
}

/// The route that a record describes: none for the forms that are left out, such as routes with
/// several next hops.
pub open spec fn route_value(v: JsonView) -> Result<
    Option<NetworkRouteView>,
    RuntimeNetworkInventoryError,
> {
    match route_fields(v) {
        Ok(Some(route)) => match digest_name("kernel-"@, encode_utf8(route_identity(route))) {
            Some(id) => Ok(Some(NetworkRouteView { id, ..route })),
            None => Err(RuntimeNetworkInventoryError::Capacity),
        },
        other => other,
    }
}

/// The view of a result that may hold a value.
pub open spec fn maybe<T: View>(r: Result<Option<T>, RuntimeNetworkInventoryError>) -> Result<
    Option<T::V>,
    RuntimeNetworkInventoryError,
> {
    match r {
        Ok(o) => Ok(opt(o)),
        Err(e) => Err(e),
    }
}

fn read_route(value: &Json) -> (r: Result<Option<NetworkRoute>, RuntimeNetworkInventoryError>)
    ensures
        maybe(r) == route_fields(value@),
{
    if value.field("multipath").is_some() || value.field("nhid").is_some() {
        return Ok(None);
    }
    let gateway = address_at(value, "gateway");
    let destination = match value.text_at("dst") {
        None => Some(default_network(value, gateway)),
        Some(s) => if same(s, "default") {
            Some(default_network(value, gateway))
        } else {
            parse_network(chars_of(s).as_slice())
        },
    };
    let (destination, table) = match (destination, route_table(value.field("table"))) {
        (Some(d), Some(t)) => (d, t),
        _ => {
            return Err(RuntimeNetworkInventoryError::Malformed);
        },
    };
    let route_type = match read_route_type(value.text_at("type")) {
        Some(t) => t,
        None => {
            return Ok(None);
        },
    };
    Ok(
        Some(
            NetworkRoute {
                id: String::new(),
                ownership: ObjectOwnership::PlatformNative,
                enabled: true,
                destination,
                gateway,
                output_interface: owned(bounded_string(value, "dev")),
                preferred_source: address_at(value, "prefsrc"),
                table,
                metric: u32_at(value, "metric"),
                route_type,
            },
        ),
    )
}

/// Reads the route that a record describes.
pub fn route_object(value: &Json) -> (r: Result<Option<NetworkRoute>, RuntimeNetworkInventoryError>)
    ensures
        maybe(r) == route_value(value@),
{
    let mut route = match read_route(value) {
        Ok(Some(r)) => r,
        Ok(None) => {
            return Ok(None);
        },
        Err(e) => {
            return Err(e);
        },
    };
    let ghost fields = route@;
    let identity = identity_of(&route);
    match named_by_digest("kernel-", identity.as_str().as_bytes()) {
        Some(id) => {
            route.id = id;
            assert(route@ == NetworkRouteView { id: route.id@, ..fields });
            Ok(Some(route))
        },
        None => Err(RuntimeNetworkInventoryError::Capacity),
    }
}

/// The objects with the routes from `i` on behind them. Routes of the agent are left out, no two
/// objects have the same identity, and there are not too many.
pub open spec fn routes_read(
    objects: Seq<NetworkObjectView>,
    routes: Seq<JsonView>,
    i: int,
) -> Result<Seq<NetworkObjectView>, RuntimeNetworkInventoryError>
    decreases routes.len() - i,
{
    if i < 0 || i >= routes.len() {
        Ok(objects)
    } else if is_owned_route(routes[i]) {
        routes_read(objects, routes, i + 1)
    } else {
        match route_value(routes[i]) {
            Err(e) => Err(e),
            Ok(None) => if objects.len() > MAX_OBJECTS {
                Err(RuntimeNetworkInventoryError::Capacity)
            } else {
                routes_read(objects, routes, i + 1)
            },
            Ok(Some(route)) => if id_in(objects, route.id) {
                Err(RuntimeNetworkInventoryError::Malformed)
            } else if objects.len() + 1 > MAX_OBJECTS {
                Err(RuntimeNetworkInventoryError::Capacity)
            } else {
                routes_read(objects.push(NetworkObjectView::Route(route)), routes, i + 1)
            },
        }
    }
}

/// The interfaces and routes that three lists of records describe.
pub open spec fn objects_read(
    links: Seq<JsonView>,
    addresses: Seq<JsonView>,
    routes: Seq<JsonView>,
) -> Result<Seq<NetworkObjectView>, RuntimeNetworkInventoryError> {
    if links.len() > MAX_OBJECTS || addresses.len() > MAX_OBJECTS || routes.len() > MAX_OBJECTS {
        Err(RuntimeNetworkInventoryError::Capacity)
    } else if any_crowded(addresses) {
        Err(RuntimeNetworkInventoryError::Capacity)
    } else {
        match links_read(Seq::empty(), links, addresses, 0) {
            Err(e) => Err(e),
            Ok(objects) => routes_read(objects, routes, 0),
        }
    }
}

/// Reads interfaces and routes from three lists of records.
pub fn read_objects(links: &Vec<Json>, addresses: &Vec<Json>, routes: &Vec<Json>) -> (r: Result<
    Vec<NetworkObject>,
    RuntimeNetworkInventoryError,
>)
    ensures
        lvres(r) == objects_read(views(links@), views(addresses@), views(routes@)),
{
    if links.len() > MAX_OBJECTS || addresses.len() > MAX_OBJECTS || routes.len() > MAX_OBJECTS {
        return Err(RuntimeNetworkInventoryError::Capacity);
    }
    if crowded(addresses) {
        return Err(RuntimeNetworkInventoryError::Capacity);
    }
    let mut objects = match read_links(links, addresses) {
        Ok(o) => o,
        Err(e) => {
            return Err(e);
        },
    };
    let ghost start = views(objects@);
    let ghost all = views(routes@);
    let mut i: usize = 0;
    while i < routes.len()
        invariant
            i <= routes@.len() <= MAX_OBJECTS,
            all == views(routes@),
            links@.len() <= MAX_OBJECTS,
            addresses@.len() <= MAX_OBJECTS,
            !any_crowded(views(addresses@)),
            links_read(Seq::empty(), views(links@), views(addresses@), 0) == Ok::<
                Seq<NetworkObjectView>,
                RuntimeNetworkInventoryError,
            >(start),
            routes_read(views(objects@), all, i as int) == routes_read(start, all, 0),
        decreases routes@.len() - i,
    {
        assert(all[i as int] == routes@[i as int]@);
        if !owned_protocol(&routes[i]) {
            match route_object(&routes[i]) {
                Err(e) => {
                    return Err(e);
                },
                Ok(None) => {},
                Ok(Some(route)) => {
                    if has_id(&objects, route.id.as_str()) {
                        return Err(RuntimeNetworkInventoryError::Malformed);
                    }
                    objects.push(NetworkObject::Route(route));
                },
            }
            if objects.len() > MAX_OBJECTS {
                return Err(RuntimeNetworkInventoryError::Capacity);
            }
        }
        i = i + 1;
    }
    Ok(objects)
}

/// The objects that three documents describe, before the object model is asked about them.
pub open spec fn network_candidates_value(
    links: Seq<char>,
    addresses: Seq<char>,
    routes: Seq<char>,
) -> Result<Seq<NetworkObjectView>, RuntimeNetworkInventoryError> {
    match (json_array_value(links), json_array_value(addresses), json_array_value(routes)) {
        (Ok(l), Ok(a), Ok(r)) => objects_read(l, a, r),
        _ => Err(RuntimeNetworkInventoryError::Malformed),
    }
}

/// The objects that the object model is to be asked about.
pub fn runtime_network_candidates(links_json: &str, addresses_json: &str, routes_json: &str) -> (r:
    Result<Vec<NetworkObject>, RuntimeNetworkInventoryError>)
    ensures
        lvres(r) == network_candidates_value(links_json@, addresses_json@, routes_json@),
{
    match (json_array(links_json), json_array(addresses_json), json_array(routes_json)) {
        (Ok(links), Ok(addresses), Ok(routes)) => read_objects(&links, &addresses, &routes),
        _ => Err(RuntimeNetworkInventoryError::Malformed),
    }
}

/// Whether the object model accepts each object.
pub open spec fn all_valid(objects: Seq<NetworkObjectView>, valid: Seq<bool>) -> bool {
    forall|i: int| 0 <= i < objects.len() ==> #[trigger] verdict_at(valid, i)
}

/// The inventory that three documents describe, given the verdicts of the object model on each object.
pub open spec fn runtime_inventory(
    links: Seq<char>,
    addresses: Seq<char>,
    routes: Seq<char>,
    valid: Seq<bool>,
) -> Result<NetworkInventoryView, RuntimeNetworkInventoryError> {
    match network_candidates_value(links, addresses, routes) {
        Err(e) => Err(e),
        Ok(objects) => if all_valid(objects, valid) {
            Ok(NetworkInventoryView { objects })
        } else {
            Err(RuntimeNetworkInventoryError::Unsupported)
        },
    }
}

fn accepted(objects: &Vec<NetworkObject>, valid: &[bool]) -> (r: bool)
    ensures
        r == all_valid(views(objects@), valid@),
{
    let mut i: usize = 0;
    while i < objects.len()
        invariant
            i <= objects@.len(),
            forall|j: int| 0 <= j < i ==> #[trigger] verdict_at(valid@, j),
        decreases objects@.len() - i,
    {
        if !(i < valid.len() && valid[i]) {
            assert(!verdict_at(valid@, i as int));
            return false;
        }
        i = i + 1;
    }
    true
}

/// Reconstructs the interfaces and routes that can be represented safely.
///
/// Kernel state does not show who configured it, so every object is platform-native. Routes of the
/// agent and ambiguous forms are left out. The verdicts say of each object, by its index among the
/// candidates, whether the object model accepts it.
pub fn inspect_runtime_network_inventory(
    links_json: &str,
    addresses_json: &str,
    routes_json: &str,
    valid: &[bool],
) -> (r: Result<NetworkInventory, RuntimeNetworkInventoryError>)
    ensures
        vres(r) == runtime_inventory(links_json@, addresses_json@, routes_json@, valid@),
{
    match runtime_network_candidates(links_json, addresses_json, routes_json) {
        Err(e) => Err(e),
        Ok(objects) => if accepted(&objects, valid) {
            Ok(NetworkInventory { objects })
        } else {
            Err(RuntimeNetworkInventoryError::Unsupported)
        },
    }
}

/// Whether a rule priority is reserved for the agent.
pub open spec fn is_reserved(priority: u32) -> bool {
    RUNTIME_POLICY_PRIORITY_START <= priority <= RUNTIME_POLICY_PRIORITY_END
}

pub fn reserved_policy_priority(priority: u32) -> (r: bool)
    ensures
        r == is_reserved(priority),
{
    priority >= RUNTIME_POLICY_PRIORITY_START && priority <= RUNTIME_POLICY_PRIORITY_END
}

/// A number, written as one or as a text.
pub open spec fn word_value(v: JsonView) -> Option<u32> {
    match v {
        JsonView::Number(Some(n)) => if n <= u32::MAX {
            Some(n as u32)
        } else {
            None
        },
        JsonView::Text(s) => u32_value(s),
        _ => None,
    }
}

fn parse_u32(value: &Json) -> (r: Option<u32>)
    ensures
        r == word_value(value@),
{
    match value {
        Json::Number(Some(n)) => if *n <= u32::MAX as u64 {
            Some(*n as u32)
        } else {
            None
        },
        Json::Text(s) => read_u32(s.as_str()),
        _ => None,
    }
}

/// The field of one name, or else of another.
pub open spec fn either_field(v: JsonView, first: Seq<char>, second: Seq<char>) -> Option<JsonView> {
    match v.field(first) {
        Some(x) => Some(x),
        None => v.field(second),
    }
}

fn field_or<'a>(value: &'a Json, first: &str, second: &str) -> (r: Option<&'a Json>)
    ensures
        value_view(r) == either_field(value@, first@, second@),
{
    match value.field(first) {
        Some(x) => Some(x),
        None => value.field(second),
    }
}

/// The fields that a policy rule may have.
pub open spec fn rule_fields() -> Seq<Seq<char>> {
    seq![
        "priority"@,
        "pref"@,
        "src"@,
        "from"@,
        "dst"@,
        "to"@,
        "iifname"@,
        "oifname"@,
        "fwmark"@,
        "table"@,
        "action"@,
        "family"@,
    ]
}

pub open spec fn has_known_fields(v: JsonView) -> bool {
    match v {
        JsonView::Object(fields) => forall|i: int|
            0 <= i < fields.len() ==> rule_fields().contains((#[trigger] fields[i]).name),
        _ => false,
    }
}

fn known_name(name: &str) -> (r: bool)
    ensures
        r == rule_fields().contains(name@),
{
    let names = [
        "priority",
        "pref",
        "src",
        "from",
        "dst",
        "to",
        "iifname",
        "oifname",
        "fwmark",
        "table",
        "action",
        "family",
    ];
    assert(views(names@) =~= rule_fields());
    let mut i: usize = 0;
    while i < 12
        invariant
            i <= 12,
            views(names@) == rule_fields(),
            forall|j: int| 0 <= j < i ==> rule_fields()[j] != name@,
        decreases 12 - i,
    {
        assert(rule_fields()[i as int] == names@[i as int]@);
        if same(names[i], name) {
            return true;
        }
        i = i + 1;
    }
    false
}

fn known_fields(value: &Json) -> (r: bool)
    ensures
        r == has_known_fields(value@),
{
    match value {
        Json::Object(fields) => {
            proof {
                lemma_object_view(*fields);
            }
            let ghost all = views(fields@);
            let mut i: usize = 0;
            while i < fields.len()
                invariant
                    i <= fields@.len(),
                    all == views(fields@),
                    value@ == JsonView::Object(all),
                    forall|j: int| 0 <= j < i ==> rule_fields().contains((#[trigger] all[j]).name),
                decreases fields@.len() - i,
            {
                assert(all[i as int] == fields@[i as int]@);
                if !known_name(fields[i].name.as_str()) {
                    return false;
                }
                i = i + 1;
            }
            true
        },
        _ => false,
    }
}

/// The network that a rule matches: none where there is no text, or the text is the word for all.
pub open spec fn rule_network(v: Option<JsonView>) -> Result<
    Option<IpNetwork>,
    RuntimeNetworkInventoryError,
> {
    match v {
        Some(JsonView::Text(s)) => if s == "all"@ {
            Ok(None)
        } else {
            match network_value(s) {
                Some(n) => Ok(Some(n)),
                None => Err(RuntimeNetworkInventoryError::Malformed),
            }
        },
        _ => Ok(None),
    }
}

fn parse_rule_network(value: Option<&Json>) -> (r: Result<
    Option<IpNetwork>,
    RuntimeNetworkInventoryError,
>)
    ensures
        r == rule_network(value_view(value)),
{
    match value {
        Some(Json::Text(s)) => {
            let s = s.as_str();
            if same(s, "all") {
                Ok(None)
            } else {
                match parse_network(chars_of(s).as_slice()) {
                    Some(n) => Ok(Some(n)),
                    None => Err(RuntimeNetworkInventoryError::Malformed),
                }
            }
        },
        _ => Ok(None),
    }
}

/// The family of a rule: the one named, or that of its networks; `None` inside where neither says.
pub open spec fn rule_family(
    named: Option<Seq<char>>,
    source: Option<IpNetwork>,
    destination: Option<IpNetwork>,
) -> Result<Option<NetworkFamily>, RuntimeNetworkInventoryError> {
    match named {
        Some(s) => if s == "inet"@ || s == "ipv4"@ {
            Ok(Some(NetworkFamily::Ipv4))
        } else if s == "inet6"@ || s == "ipv6"@ {
            Ok(Some(NetworkFamily::Ipv6))
        } else {
            Err(RuntimeNetworkInventoryError::Malformed)
        },
        None => if (source is Some && source->Some_0.address is V6) || (destination is Some
            && destination->Some_0.address is V6) {
            Ok(Some(NetworkFamily::Ipv6))
        } else if source is Some || destination is Some {
            Ok(Some(NetworkFamily::Ipv4))
        } else {
            Ok(None)
        },
    }
}

fn read_family(
    named: Option<&str>,
    source: Option<IpNetwork>,
    destination: Option<IpNetwork>,
) -> (r: Result<Option<NetworkFamily>, RuntimeNetworkInventoryError>)
    ensures
        r == rule_family(text_view(named), source, destination),
{
    let source_v6 = match source {
        Some(n) => n.address.is_ipv6(),
        None => false,
    };
    let destination_v6 = match destination {
        Some(n) => n.address.is_ipv6(),
        None => false,
    };
    match named {
        Some(s) => if same(s, "inet") || same(s, "ipv4") {
            Ok(Some(NetworkFamily::Ipv4))
        } else if same(s, "inet6") || same(s, "ipv6") {
            Ok(Some(NetworkFamily::Ipv6))
        } else {
            Err(RuntimeNetworkInventoryError::Malformed)
        },
        None => if source_v6 || destination_v6 {
            Ok(Some(NetworkFamily::Ipv6))
        } else if source.is_some() || destination.is_some() {
            Ok(Some(NetworkFamily::Ipv4))
        } else {
            Ok(None)
        },
    }
}

/// Whether a network belongs to a family; the lack of one does.
pub open spec fn in_family(n: Option<IpNetwork>, family: NetworkFamily) -> bool {
    match n {
        Some(n) => (n.address is V4) == (family == NetworkFamily::Ipv4),
        None => true,
    }
}

fn of_family(n: Option<IpNetwork>, family: NetworkFamily) -> (r: bool)
    ensures
        r == in_family(n, family),
{
    match n {
        Some(n) => n.address.is_ipv4() == (family == NetworkFamily::Ipv4),
        None => true,
    }
}

pub open spec fn action_value(s: Option<Seq<char>>) -> Option<NetworkPolicyAction> {
    match s {
        None => Some(NetworkPolicyAction::Lookup),
        Some(s) => if s == "lookup"@ || s == "to_tbl"@ {
            Some(NetworkPolicyAction::Lookup)
        } else if s == "blackhole"@ {
            Some(NetworkPolicyAction::Blackhole)
        } else if s == "unreachable"@ {
            Some(NetworkPolicyAction::Unreachable)
        } else if s == "prohibit"@ {
            Some(NetworkPolicyAction::Prohibit)
        } else {
            None
        },
    }
}

fn read_action(s: Option<&str>) -> (r: Option<NetworkPolicyAction>)
    ensures
        r == action_value(text_view(s)),
{
    match s {
        None => Some(NetworkPolicyAction::Lookup),
        Some(s) => if same(s, "lookup") || same(s, "to_tbl") {
            Some(NetworkPolicyAction::Lookup)
        } else if same(s, "blackhole") {
            Some(NetworkPolicyAction::Blackhole)
        } else if same(s, "unreachable") {
            Some(NetworkPolicyAction::Unreachable)
        } else if same(s, "prohibit") {
            Some(NetworkPolicyAction::Prohibit)
        } else {
            None
        },
    }
}

/// A hexadecimal number, with or without its prefix.
pub open spec fn mark_value(s: Seq<char>) -> Option<u32> {
    match hex_value(
        if starts(s, "0x"@) {
            s.skip(2)
        } else {
            s
        },
        u32::MAX as nat,
    ) {
        Some(n) => Some(n as u32),
        None => None,
    }
}

fn parse_mark(s: &[char]) -> (r: Option<u32>)
    ensures
        r == mark_value(s@),
{
    proof {
        reveal_strlit("0x");
    }
    let digits = if begins(s, "0x") {
        piece(s, 2, s.len())
    } else {
        s
    };
    assert(starts(s@, "0x"@) ==> digits@ =~= s@.skip(2));
    match parse_hex(digits, u32::MAX as u64) {
        Some(n) => Some(n as u32),
        None => None,
    }
}

/// The firewall mark of a rule and its mask.
pub open spec fn fwmark_value(v: Option<JsonView>) -> Option<(Option<u32>, Option<u32>)> {
    match v {
        None => Some((None, None)),
        Some(JsonView::Text(raw)) => {
            let (primary, mask) = match split_once(raw, '/') {
                Some(p) => p,
                None => (raw, Seq::empty()),
            };
            match mark_value(primary) {
                None => None,
                Some(mark) => if mask.len() == 0 {
                    Some((Some(mark), None))
                } else {
                    match mark_value(mask) {
                        None => None,
                        Some(m) => Some((Some(mark), Some(m))),
                    }
                },
            }
        },
        Some(_) => None,
    }
}

fn parse_fwmark(value: Option<&Json>) -> (r: Option<(Option<u32>, Option<u32>)>)
    ensures
        r == fwmark_value(value_view(value)),
{
    match value {
        None => Some((None, None)),
        Some(Json::Text(raw)) => {
            let cs = chars_of(raw.as_str());
            let s = cs.as_slice();
            match cut(s, '/') {
                Some((primary, mask)) => match parse_mark(primary) {
                    None => None,
                    Some(mark) => if mask.len() == 0 {
                        Some((Some(mark), None))
                    } else {
                        match parse_mark(mask) {
                            None => None,
                            Some(m) => Some((Some(mark), Some(m))),
                        }
                    },
                },
                None => match parse_mark(s) {
                    None => None,
                    Some(mark) => Some((Some(mark), None)),
                },
            }
        },
        Some(_) => None,
    }
}

/// An interface name that a rule may have: where the field is there, it has to be a name.
pub open spec fn rule_name(v: JsonView, field: Seq<char>) -> Option<Option<Seq<char>>> {
    match v.field(field) {
        None => Some(None),
        Some(JsonView::Text(s)) => if is_name(s) {
            Some(Some(s))
        } else {
            None
        },
        Some(_) => None,
    }
}

fn optional_bounded_rule_string(value: &Json, field: &str) -> (r: Option<Option<String>>)
    ensures
        match r {
            Some(o) => rule_name(value@, field@) == Some(opt(o)),
            None => rule_name(value@, field@) is None,
        },
{
    match value.field(field) {
        None => Some(None),
        Some(Json::Text(s)) => if usable_name(s.as_str()) {
            Some(Some(s.clone()))
        } else {
            None
        },
        Some(_) => None,
    }
}

/// What a rule of an unsupported form comes to: an error where its priority is reserved, and else it is
/// left out.
pub open spec fn left_out(priority: u32) -> Result<
    Option<NetworkPolicyRuleView>,
    RuntimeNetworkInventoryError,
> {
    if is_reserved(priority) {
        Err(RuntimeNetworkInventoryError::Unsupported)
    } else {
        Ok(None)
    }
}

/// A rule without its identity, given its priority, its networks, its family and its action.
pub open spec fn rule_rest(
    v: JsonView,
    priority: u32,
    source: Option<IpNetwork>,
    destination: Option<IpNetwork>,
    family: NetworkFamily,
    action: NetworkPolicyAction,
) -> Result<Option<NetworkPolicyRuleView>, RuntimeNetworkInventoryError> {
    match (
        match v.field("table"@) {
            Some(t) => word_value(t),
            None => Some(254u32),
        },
        fwmark_value(v.field("fwmark"@)),
        rule_name(v, "iifname"@),
        rule_name(v, "oifname"@),
    ) {
        (
            Some(table),
            Some((fwmark, fwmark_mask)),
            Some(input_interface),
            Some(output_interface),
        ) => Ok(
            Some(
                NetworkPolicyRuleView {
                    id: Seq::empty(),
                    ownership: if is_reserved(priority) {
                        ObjectOwnership::AgentOwned
                    } else {
                        ObjectOwnership::PlatformNative
                    },
                    enabled: true,
                    family,
                    priority,
                    source,
                    destination,
                    input_interface,
                    output_interface,
                    fwmark,
                    fwmark_mask,
                    table,
                    action,
                },
            ),
        ),
        _ => Err(RuntimeNetworkInventoryError::Malformed),
    }
}

/// A rule without its identity, as far as the record is a rule of a supported form.
pub open spec fn rule_value(v: JsonView) -> Result<
    Option<NetworkPolicyRuleView>,
    RuntimeNetworkInventoryError,
> {
    match either_field(v, "priority"@, "pref"@) {
        None => Err(RuntimeNetworkInventoryError::Malformed),
        Some(p) => match word_value(p) {
            None => Err(RuntimeNetworkInventoryError::Malformed),
            Some(priority) => if !has_known_fields(v) {
                left_out(priority)
            } else {
                match (
                    rule_network(either_field(v, "src"@, "from"@)),
                    rule_network(either_field(v, "dst"@, "to"@)),
                ) {
                    (Ok(source), Ok(destination)) => match rule_family(
                        v.text_at("family"@),
                        source,
                        destination,
                    ) {
                        Err(e) => Err(e),
                        Ok(None) => left_out(priority),
                        Ok(Some(family)) => if !in_family(source, family) || !in_family(
                            destination,
                            family,
                        ) {
                            Err(RuntimeNetworkInventoryError::Malformed)
                        } else {
                            match action_value(v.text_at("action"@)) {
                                None => left_out(priority),
                                Some(action) => rule_rest(
                                    v,
                                    priority,
                                    source,
                                    destination,
                                    family,
                                    action,
                                ),
                            }
                        },
                    },
                    _ => Err(RuntimeNetworkInventoryError::Malformed),
                }
            },
        },
    }
}

fn read_rule_rest(
    value: &Json,
    priority: u32,
    source: Option<IpNetwork>,
    destination: Option<IpNetwork>,
    family: NetworkFamily,
    action: NetworkPolicyAction,
) -> (r: Result<Option<NetworkPolicyRule>, RuntimeNetworkInventoryError>)
    ensures
        maybe(r) == rule_rest(value@, priority, source, destination, family, action),
{
    let table = match value.field("table") {
        Some(t) => parse_u32(t),
        None => Some(254),
    };
    match (
        table,
        parse_fwmark(value.field("fwmark")),
        optional_bounded_rule_string(value, "iifname"),
        optional_bounded_rule_string(value, "oifname"),
    ) {
        (
            Some(table),
            Some((fwmark, fwmark_mask)),
            Some(input_interface),
            Some(output_interface),
        ) => Ok(
            Some(
                NetworkPolicyRule {
                    id: String::new(),
                    ownership: if reserved_policy_priority(priority) {
                        ObjectOwnership::AgentOwned
                    } else {
                        ObjectOwnership::PlatformNative
                    },
                    enabled: true,
                    family,
                    priority,
                    source,
                    destination,
                    input_interface,
                    output_interface,
                    fwmark,
                    fwmark_mask,
                    table,
                    action,
                },
            ),
        ),
        _ => Err(RuntimeNetworkInventoryError::Malformed),
    }
}

fn leave_out(priority: u32) -> (r: Result<Option<NetworkPolicyRule>, RuntimeNetworkInventoryError>)
    ensures
        maybe(r) == left_out(priority),
{
    if reserved_policy_priority(priority) {
        Err(RuntimeNetworkInventoryError::Unsupported)
    } else {
        Ok(None)
    }
}

/// Reads the policy rule that a record describes. The rule has no identity yet: it takes one from its own
/// encoding.
pub fn policy_rule_object(value: &Json) -> (r: Result<
    Option<NetworkPolicyRule>,
    RuntimeNetworkInventoryError,
>)
    ensures
        maybe(r) == rule_value(value@),
{
    let priority: u32 = match field_or(value, "priority", "pref") {
        None => {
            return Err(RuntimeNetworkInventoryError::Malformed);
        },
        Some(p) => match parse_u32(p) {
            None => {
                return Err(RuntimeNetworkInventoryError::Malformed);
            },
            Some(n) => n,
        },
    };
    if !known_fields(value) {
        return leave_out(priority);
    }
    let (source, destination) = match (
        parse_rule_network(field_or(value, "src", "from")),
        parse_rule_network(field_or(value, "dst", "to")),
    ) {
        (Ok(s), Ok(d)) => (s, d),
        _ => {
            return Err(RuntimeNetworkInventoryError::Malformed);
        },
    };
    let family = match read_family(value.text_at("family"), source, destination) {
        Err(e) => {
            return Err(e);
        },
        Ok(None) => {
            return leave_out(priority);
        },
        Ok(Some(f)) => f,
    };
    if !of_family(source, family) || !of_family(destination, family) {
        return Err(RuntimeNetworkInventoryError::Malformed);
    }
    match read_action(value.text_at("action")) {
        None => leave_out(priority),
        Some(action) => read_rule_rest(value, priority, source, destination, family, action),
    }
}

/// What the object model answered on the rule at an index: no answer is a refusal.
pub open spec fn answer_at(answers: Seq<RuleAnswerView>, i: int) -> Option<Seq<u8>> {
    if 0 <= i < answers.len() && answers[i].valid {
        Some(answers[i].encoding)
    } else {
        None
    }
}

/// A rule with the identity that its encoding gives it.
pub open spec fn rule_named(rule: NetworkPolicyRuleView, encoding: Option<Seq<u8>>) -> Result<
    NetworkPolicyRuleView,
    RuntimeNetworkInventoryError,
> {
    match encoding {
        None => Err(RuntimeNetworkInventoryError::Unsupported),
        Some(e) => match digest_name("kernel-rule-"@, e) {
            Some(id) => Ok(NetworkPolicyRuleView { id, ..rule }),
            None => Err(RuntimeNetworkInventoryError::Capacity),
        },
    }
}

/// The rule at an index, given the answers of the object model.
pub open spec fn rule_at(values: Seq<JsonView>, answers: Seq<RuleAnswerView>, i: int) -> Result<
    Option<NetworkPolicyRuleView>,
    RuntimeNetworkInventoryError,
> {
    match rule_value(values[i]) {
        Err(e) => Err(e),
        Ok(None) => Ok(None),
        Ok(Some(rule)) => match rule_named(rule, answer_at(answers, i)) {
            Err(e) => Err(e),
            Ok(named) => Ok(Some(named)),
        },
    }
}

fn read_rule(values: &Vec<Json>, answers: &[RuleAnswer], i: usize) -> (r: Result<
    Option<NetworkPolicyRule>,
    RuntimeNetworkInventoryError,
>)
    requires
        i < values@.len(),
    ensures
        maybe(r) == rule_at(views(values@), views(answers@), i as int),
{
    assert(views(values@)[i as int] == values@[i as int]@);
    let mut rule = match policy_rule_object(&values[i]) {
        Err(e) => {
            return Err(e);
        },
        Ok(None) => {
            return Ok(None);
        },
        Ok(Some(r)) => r,
    };
    if !(i < answers.len() && answers[i].valid) {
        assert(i < answers@.len() ==> views(answers@)[i as int] == answers@[i as int]@);
        return Err(RuntimeNetworkInventoryError::Unsupported);
    }
    assert(views(answers@)[i as int] == answers@[i as int]@);
    let ghost fields = rule@;
    proof {
        lemma_bytes(answers@[i as int].encoding@);
    }
    match named_by_digest("kernel-rule-", answers[i].encoding.as_slice()) {
        Some(id) => {
            rule.id = id;
            assert(rule@ == NetworkPolicyRuleView { id: rule.id@, ..fields });
            Ok(Some(rule))
        },
        None => Err(RuntimeNetworkInventoryError::Capacity),
    }
}

/// Bytes are their own views.
pub proof fn lemma_bytes(s: Seq<u8>)
    ensures
        views(s) == s,
{
    assert(views(s) =~= s);
}

/// The rules that the object model is to be asked about, one for each record: it is asked whether it
/// accepts the rule, and for the encoding of the rule without its identity.
pub open spec fn rules_read(rules: Seq<Option<NetworkPolicyRuleView>>, values: Seq<JsonView>, i: int) -> Result<
    Seq<Option<NetworkPolicyRuleView>>,
    RuntimeNetworkInventoryError,
>
    decreases values.len() - i,
{
    if i < 0 || i >= values.len() {
        Ok(rules)
    } else {
        match rule_value(values[i]) {
            Err(e) => Err(e),
            Ok(o) => rules_read(rules.push(o), values, i + 1),
        }
    }
}

/// A rule, or none, with its view.
pub struct RuleCandidate {
    pub rule: Option<NetworkPolicyRule>,
}

impl View for RuleCandidate {
    type V = Option<NetworkPolicyRuleView>;

    open spec fn view(&self) -> Option<NetworkPolicyRuleView> {
        opt(self.rule)
    }
}

/// Reads the rules that the object model is to be asked about.
pub fn runtime_policy_candidates(rules_json: &str) -> (r: Result<
    Vec<RuleCandidate>,
    RuntimeNetworkInventoryError,
>)
    ensures
        lvres(r) == (match json_array_value(rules_json@) {
            Err(e) => Err(e),
            Ok(values) => if values.len() > MAX_OBJECTS {
                Err(RuntimeNetworkInventoryError::Capacity)
            } else {
                rules_read(Seq::empty(), values, 0)
            },
        }),
{
    let values = match json_array(rules_json) {
        Ok(v) => v,
        Err(e) => {
            return Err(e);
        },
    };
    if values.len() > MAX_OBJECTS {
        return Err(RuntimeNetworkInventoryError::Capacity);
    }
    let ghost all = views(values@);
    let mut rules: Vec<RuleCandidate> = Vec::new();
    let mut i: usize = 0;
    while i < values.len()
        invariant
            i <= values@.len() <= MAX_OBJECTS,
            all == views(values@),
            json_array_value(rules_json@) == Ok::<Seq<JsonView>, RuntimeNetworkInventoryError>(all),
            rules_read(views(rules@), all, i as int) == rules_read(Seq::empty(), all, 0),
        decreases values@.len() - i,
    {
        assert(all[i as int] == values@[i as int]@);
        match policy_rule_object(&values[i]) {
            Err(e) => {
                return Err(e);
            },
            Ok(rule) => {
                rules.push(RuleCandidate { rule });
            },
        }
        i = i + 1;
    }
    Ok(rules)
}

/// The objects with the rules from `i` on behind them that are not the agent's. No two have the same
/// identity.
pub open spec fn native_rules(
    objects: Seq<NetworkObjectView>,
    values: Seq<JsonView>,
    answers: Seq<RuleAnswerView>,
    i: int,
) -> Result<Seq<NetworkObjectView>, RuntimeNetworkInventoryError>
    decreases values.len() - i,
{
    if i < 0 || i >= values.len() {
        Ok(objects)
    } else {
        match rule_at(values, answers, i) {
            Err(e) => Err(e),
            Ok(None) => native_rules(objects, values, answers, i + 1),
            Ok(Some(rule)) => if rule.ownership == ObjectOwnership::AgentOwned {
                native_rules(objects, values, answers, i + 1)
            } else if id_in(objects, rule.id) {
                Err(RuntimeNetworkInventoryError::Malformed)
            } else {
                native_rules(
                    objects.push(NetworkObjectView::PolicyRule(rule)),
                    values,
                    answers,
                    i + 1,
                )
            },
        }
    }
}

/// The inventory of the rules that are not the agent's.
pub open spec fn policy_inventory(text: Seq<char>, answers: Seq<RuleAnswerView>) -> Result<
    NetworkInventoryView,
    RuntimeNetworkInventoryError,
> {
    match json_array_value(text) {
        Err(e) => Err(e),
        Ok(values) => if values.len() > MAX_OBJECTS {
            Err(RuntimeNetworkInventoryError::Capacity)
        } else {
            match native_rules(Seq::empty(), values, answers, 0) {
                Err(e) => Err(e),
                Ok(objects) => Ok(NetworkInventoryView { objects }),
            }
        },
    }
}

/// Reconstructs the policy rules outside the priorities that are reserved for the agent.
///
/// The answers say of each record, by its index, whether the object model accepts the rule, and how
/// it encodes it.
pub fn inspect_runtime_policy_inventory(rules_json: &str, answers: &[RuleAnswer]) -> (r: Result<
    NetworkInventory,
    RuntimeNetworkInventoryError,
>)
    ensures
        vres(r) == policy_inventory(rules_json@, views(answers@)),
{
    let values = match json_array(rules_json) {
        Ok(v) => v,
        Err(e) => {
            return Err(e);
        },
    };
    if values.len() > MAX_OBJECTS {
        return Err(RuntimeNetworkInventoryError::Capacity);
    }
    let ghost all = views(values@);
    let ghost said = views(answers@);
    let mut objects: Vec<NetworkObject> = Vec::new();
    let mut i: usize = 0;
    while i < values.len()
        invariant
            i <= values@.len() <= MAX_OBJECTS,
            all == views(values@),
            said == views(answers@),
            json_array_value(rules_json@) == Ok::<Seq<JsonView>, RuntimeNetworkInventoryError>(all),
            native_rules(views(objects@), all, said, i as int) == native_rules(
                Seq::empty(),
                all,
                said,
                0,
            ),
        decreases values@.len() - i,
    {
        match read_rule(&values, answers, i) {
            Err(e) => {
                return Err(e);
            },
            Ok(None) => {},
            Ok(Some(rule)) => {
                if rule.ownership != ObjectOwnership::AgentOwned {
                    if has_id(&objects, rule.id.as_str()) {
                        return Err(RuntimeNetworkInventoryError::Malformed);
                    }
                    objects.push(NetworkObject::PolicyRule(rule));
                }
            },
        }
        i = i + 1;
    }
    Ok(NetworkInventory { objects })
}

/// The objects with the agent's routes from `i` on behind them. Each has to be of a supported form.
pub open spec fn owned_routes_from(
    objects: Seq<NetworkObjectView>,
    values: Seq<JsonView>,
    i: int,
) -> Result<Seq<NetworkObjectView>, RuntimeNetworkInventoryError>
    decreases values.len() - i,
{
    if i < 0 || i >= values.len() {
        Ok(objects)
    } else if !is_owned_route(values[i]) {
        owned_routes_from(objects, values, i + 1)
    } else {
        match route_value(values[i]) {
            Err(e) => Err(e),
            Ok(None) => Err(RuntimeNetworkInventoryError::Unsupported),
            Ok(Some(route)) => owned_routes_from(
                objects.push(
                    NetworkObjectView::Route(
                        NetworkRouteView { ownership: ObjectOwnership::AgentOwned, ..route },
                    ),
                ),
                values,
                i + 1,
            ),
        }
    }
}

/// The agent's routes in the kernel.
pub open spec fn owned_routes(text: Seq<char>) -> Result<
    Seq<NetworkObjectView>,
    RuntimeNetworkInventoryError,
> {
    match json_array_value(text) {
        Err(e) => Err(e),
        Ok(values) => if values.len() > MAX_OBJECTS {
            Err(RuntimeNetworkInventoryError::Capacity)
        } else {
            owned_routes_from(Seq::empty(), values, 0)
        },
    }
}

pub fn owned_native_routes(routes_json: &str) -> (r: Result<
    Vec<NetworkObject>,
    RuntimeNetworkInventoryError,
>)
    ensures
        lvres(r) == owned_routes(routes_json@),
{
    let values = match json_array(routes_json) {
        Ok(v) => v,
        Err(e) => {
            return Err(e);
        },
    };
    if values.len() > MAX_OBJECTS {
        return Err(RuntimeNetworkInventoryError::Capacity);
    }
    let ghost all = views(values@);
    let mut routes: Vec<NetworkObject> = Vec::new();
    let mut i: usize = 0;
    while i < values.len()
        invariant
            i <= values@.len() <= MAX_OBJECTS,
            all == views(values@),
            json_array_value(routes_json@) == Ok::<Seq<JsonView>, RuntimeNetworkInventoryError>(all),
            owned_routes_from(views(routes@), all, i as int) == owned_routes_from(
                Seq::empty(),
                all,
                0,
            ),
        decreases values@.len() - i,
    {
        assert(all[i as int] == values@[i as int]@);
        if owned_protocol(&values[i]) {
            match route_object(&values[i]) {
                Err(e) => {
                    return Err(e);
                },
                Ok(None) => {
                    return Err(RuntimeNetworkInventoryError::Unsupported);
                },
                Ok(Some(found)) => {
                    let ghost fields = found@;
                    let mut route = found;
                    route.ownership = ObjectOwnership::AgentOwned;
                    assert(route@ == NetworkRouteView {
                        ownership: ObjectOwnership::AgentOwned,
                        ..fields
                    });
                    routes.push(NetworkObject::Route(route));
                },
            }
        }
        i = i + 1;
    }
    Ok(routes)
}

/// The objects with the agent's rules from `i` on behind them.
pub open spec fn owned_rules_from(
    objects: Seq<NetworkObjectView>,
    values: Seq<JsonView>,
    answers: Seq<RuleAnswerView>,
    i: int,
) -> Result<Seq<NetworkObjectView>, RuntimeNetworkInventoryError>
    decreases values.len() - i,
{
    if i < 0 || i >= values.len() {
        Ok(objects)
    } else {
        match rule_at(values, answers, i) {
            Err(e) => Err(e),
            Ok(None) => owned_rules_from(objects, values, answers, i + 1),
            Ok(Some(rule)) => if rule.ownership == ObjectOwnership::AgentOwned {
                owned_rules_from(
                    objects.push(NetworkObjectView::PolicyRule(rule)),
                    values,
                    answers,
                    i + 1,
                )
            } else {
                owned_rules_from(objects, values, answers, i + 1)
            },
        }
    }
}

/// The agent's rules in the kernel.
pub open spec fn owned_rules(text: Seq<char>, answers: Seq<RuleAnswerView>) -> Result<
    Seq<NetworkObjectView>,
    RuntimeNetworkInventoryError,
> {
    match json_array_value(text) {
        Err(e) => Err(e),
        Ok(values) => if values.len() > MAX_OBJECTS {
            Err(RuntimeNetworkInventoryError::Capacity)
        } else {
            owned_rules_from(Seq::empty(), values, answers, 0)
        },
    }
}

pub fn owned_native_policy_rules(rules_json: &str, answers: &[RuleAnswer]) -> (r: Result<
    Vec<NetworkObject>,
    RuntimeNetworkInventoryError,
>)
    ensures
        lvres(r) == owned_rules(rules_json@, views(answers@)),
{
    let values = match json_array(rules_json) {
        Ok(v) => v,
        Err(e) => {
            return Err(e);
        },
    };
    if values.len() > MAX_OBJECTS {
        return Err(RuntimeNetworkInventoryError::Capacity);
    }
    let ghost all = views(values@);
    let ghost said = views(answers@);
    let mut rules: Vec<NetworkObject> = Vec::new();
    let mut i: usize = 0;
    while i < values.len()
        invariant
            i <= values@.len() <= MAX_OBJECTS,
            all == views(values@),
            said == views(answers@),
            json_array_value(rules_json@) == Ok::<Seq<JsonView>, RuntimeNetworkInventoryError>(all),
            owned_rules_from(views(rules@), all, said, i as int) == owned_rules_from(
                Seq::empty(),
                all,
                said,
                0,
            ),
        decreases values@.len() - i,
    {
        match read_rule(&values, answers, i) {
            Err(e) => {
                return Err(e);
            },
            Ok(None) => {},
            Ok(Some(rule)) => {
                if rule.ownership == ObjectOwnership::AgentOwned {
                    rules.push(NetworkObject::PolicyRule(rule));
                }
            },
        }
        i = i + 1;
    }
    Ok(rules)
}

} // verus!
