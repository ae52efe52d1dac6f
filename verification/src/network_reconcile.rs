//! Reconciliation of kernel state with what the agent recorded of it.

use vstd::prelude::*;

use crate::change::ObjectOwnership;
use crate::items::{copy_list, copy_opt, has_item, same_list, same_opt, Item};
use crate::json::{Json, JsonView};
use crate::net::{is_multicast, is_unspecified, IpNetwork};
use crate::network_model::{
    NetworkInterfaceConfig, NetworkInterfaceConfigView, NetworkInventory, NetworkInventoryView, NetworkObject,
    NetworkObjectView, NetworkPolicyRuleView, NetworkRouteView,
};
use crate::network_openwrt::verdict_at;
use crate::network_runtime::{
    bounded_string, clean, entries_of, inspect_runtime_network_inventory, inspect_runtime_policy_inventory, is_clean,
    is_reserved, json_array, json_array_value, lemma_networks, name_at, observe, observed,
    owned_native_policy_rules, owned_native_routes, owned_routes, owned_rules, policy_inventory,
    reserved_policy_priority, runtime_inventory, RuleAnswer, RuleAnswerView, RuntimeNetworkInventoryError,
    MAX_OBJECTS,
};
use crate::parse::olist;
use crate::text::{byte_len, byte_length, chars_of, has_prefix, same, same_option, starts};
use crate::views::{group_views, lvres, opt, views, vres};

verus! {

broadcast use group_views;

/// What the agent records of the objects that it owns at run time.
#[derive(Debug, Clone, PartialEq, Eq)]
pub struct RuntimeRouteCanonicalState {
    pub schema_version: u32,
    pub boot_id: String,
    pub inventory: NetworkInventory,
}

#[verifier::ext_equal]
pub struct RuntimeRouteCanonicalStateView {
    pub schema_version: u32,
    pub boot_id: Seq<char>,
    pub inventory: NetworkInventoryView,
}

impl View for RuntimeRouteCanonicalState {
    type V = RuntimeRouteCanonicalStateView;

    open spec fn view(&self) -> RuntimeRouteCanonicalStateView {
        RuntimeRouteCanonicalStateView {
            schema_version: self.schema_version,
            boot_id: self.boot_id@,
            inventory: self.inventory@,
        }
    }
}

impl Item for RuntimeRouteCanonicalState {
    fn alike(&self, other: &Self) -> (r: bool) {
        self.schema_version == other.schema_version
            && same(self.boot_id.as_str(), other.boot_id.as_str())
            && self.inventory.alike(&other.inventory)
    }

    fn twin(&self) -> (r: Self) {
        RuntimeRouteCanonicalState {
            schema_version: self.schema_version,
            boot_id: self.boot_id.clone(),
            inventory: self.inventory.twin(),
        }
    }
}

/// A stored record: its size, the state that it decodes to, if it does, and the verdicts of the object
/// model on the objects of the state, by their index.
#[derive(Debug, Clone, PartialEq, Eq)]
pub struct RuntimeCanonicalRecord {
    pub encoded_bytes: usize,
    pub state: Option<RuntimeRouteCanonicalState>,
    pub valid: Vec<bool>,
}

#[verifier::ext_equal]
pub struct RuntimeCanonicalRecordView {
    pub encoded_bytes: usize,
    pub state: Option<RuntimeRouteCanonicalStateView>,
    pub valid: Seq<bool>,
}

impl View for RuntimeCanonicalRecord {
    type V = RuntimeCanonicalRecordView;

    open spec fn view(&self) -> RuntimeCanonicalRecordView {
        RuntimeCanonicalRecordView {
            encoded_bytes: self.encoded_bytes,
            state: opt(self.state),
            valid: views(self.valid@),
        }
    }
}

impl Item for RuntimeCanonicalRecord {
    fn alike(&self, other: &Self) -> (r: bool) {
        self.encoded_bytes == other.encoded_bytes
            && same_opt(&self.state, &other.state)
            && same_list(&self.valid, &other.valid)
    }

    fn twin(&self) -> (r: Self) {
        RuntimeCanonicalRecord {
            encoded_bytes: self.encoded_bytes,
            state: copy_opt(&self.state),
            valid: copy_list(&self.valid),
        }
    }
}

/// An inventory that was reconciled with the record of a boot.
#[derive(Debug, Clone, PartialEq, Eq)]
pub struct RuntimeRouteSnapshot {
    boot_id: String,
    inventory: NetworkInventory,
}

#[verifier::ext_equal]
pub struct RuntimeRouteSnapshotView {
    pub boot_id: Seq<char>,
    pub inventory: NetworkInventoryView,
}

impl View for RuntimeRouteSnapshot {
    type V = RuntimeRouteSnapshotView;

    closed spec fn view(&self) -> RuntimeRouteSnapshotView {
        RuntimeRouteSnapshotView {
            boot_id: self.boot_id@,
            inventory: self.inventory@,
        }
    }
}

impl Item for RuntimeRouteSnapshot {
    fn alike(&self, other: &Self) -> (r: bool) {
        same(self.boot_id.as_str(), other.boot_id.as_str())
            && self.inventory.alike(&other.inventory)
    }

    fn twin(&self) -> (r: Self) {
        RuntimeRouteSnapshot {
            boot_id: self.boot_id.clone(),
            inventory: self.inventory.twin(),
        }
    }
}

pub const MAX_CANONICAL_BYTES: usize = 262144;

pub const MAX_BATCH_BYTES: usize = 65536;

pub const MAX_BOOT_ID_BYTES: usize = 128;

/// The prefix of the identities of the agent's interface profiles.
pub open spec fn profile_prefix() -> Seq<char> {
    "agent_"@
}

impl RuntimeRouteSnapshot {
    pub fn inventory(&self) -> (r: &NetworkInventory)
        ensures
            r@ == self@.inventory,
    {
        &self.inventory
    }

    pub(crate) fn boot_id(&self) -> (r: &String)
        ensures
            r@ == self@.boot_id,
    {
        &self.boot_id
    }
}

/// Whether an object is an interface.
pub open spec fn is_profile(o: NetworkObjectView) -> bool {
    o is Interface
}

pub open spec fn any_profile(objects: Seq<NetworkObjectView>) -> bool {
    exists|i: int| 0 <= i < objects.len() && is_profile(#[trigger] objects[i])
}

pub fn has_profile(objects: &Vec<NetworkObject>) -> (r: bool)
    ensures
        r == any_profile(views(objects@)),
{
    let ghost all = views(objects@);
    let mut i: usize = 0;
    while i < objects.len()
        invariant
            i <= objects@.len(),
            all == views(objects@),
            forall|j: int| 0 <= j < i ==> !is_profile(#[trigger] all[j]),
        decreases objects@.len() - i,
    {
        assert(all[i as int] == objects@[i as int]@);
        if let NetworkObject::Interface(_) = &objects[i] {
            assert(is_profile(all[i as int]));
            return true;
        }
        i = i + 1;
    }
    false
}

/// The state of a record: bounded, decodable and of a known schema.
pub open spec fn recorded_state(record: RuntimeCanonicalRecordView) -> Result<
    RuntimeRouteCanonicalStateView,
    RuntimeNetworkInventoryError,
> {
    if record.encoded_bytes == 0 || record.encoded_bytes > MAX_CANONICAL_BYTES {
        Err(RuntimeNetworkInventoryError::Capacity)
    } else {
        match record.state {
            None => Err(RuntimeNetworkInventoryError::StaleState),
            Some(s) => if s.schema_version == 1 || s.schema_version == 2 {
                Ok(s)
            } else {
                Err(RuntimeNetworkInventoryError::StaleState)
            },
        }
    }
}

/// The state of a record that belongs to a boot.
pub open spec fn boot_state(record: RuntimeCanonicalRecordView, boot_id: Seq<char>) -> Result<
    RuntimeRouteCanonicalStateView,
    RuntimeNetworkInventoryError,
> {
    match recorded_state(record) {
        Err(e) => Err(e),
        Ok(s) => if s.boot_id == boot_id {
            Ok(s)
        } else {
            Err(RuntimeNetworkInventoryError::StaleState)
        },
    }
}

/// The view of a result that refers to a state.
pub open spec fn state_ref(
    r: Result<&RuntimeRouteCanonicalState, RuntimeNetworkInventoryError>,
) -> Result<RuntimeRouteCanonicalStateView, RuntimeNetworkInventoryError> {
    match r {
        Ok(s) => Ok(s@),
        Err(e) => Err(e),
    }
}

fn check_record(record: &RuntimeCanonicalRecord) -> (r: Result<
    &RuntimeRouteCanonicalState,
    RuntimeNetworkInventoryError,
>)
    ensures
        state_ref(r) == recorded_state(record@),
        r is Ok ==> record.state is Some && *r->Ok_0 == record.state->Some_0,
{
    if record.encoded_bytes == 0 || record.encoded_bytes > MAX_CANONICAL_BYTES {
        return Err(RuntimeNetworkInventoryError::Capacity);
    }
    match &record.state {
        None => Err(RuntimeNetworkInventoryError::StaleState),
        Some(s) => if s.schema_version == 1 || s.schema_version == 2 {
            Ok(s)
        } else {
            Err(RuntimeNetworkInventoryError::StaleState)
        },
    }
}

fn decode_runtime_canonical<'a>(record: &'a RuntimeCanonicalRecord, boot_id: &str) -> (r: Result<
    &'a RuntimeRouteCanonicalState,
    RuntimeNetworkInventoryError,
>)
    ensures
        state_ref(r) == boot_state(record@, boot_id@),
        r is Ok ==> record.state is Some && *r->Ok_0 == record.state->Some_0,
{
    match check_record(record) {
        Err(e) => Err(e),
        Ok(s) => if same(s.boot_id.as_str(), boot_id) {
            Ok(s)
        } else {
            Err(RuntimeNetworkInventoryError::StaleState)
        },
    }
}

/// Reports whether a bounded record holds interface profiles of the agent.
pub fn runtime_canonical_includes_interfaces(record: &RuntimeCanonicalRecord) -> (r: Result<
    bool,
    RuntimeNetworkInventoryError,
>)
    ensures
        r == (match recorded_state(record@) {
            Err(e) => Err(e),
            Ok(s) => Ok(any_profile(s.inventory.objects)),
        }),
{
    match check_record(record) {
        Err(e) => Err(e),
        Ok(s) => Ok(has_profile(&s.inventory.objects)),
    }
}

/// Whether an interface can be a profile of the agent: enabled, named as one, with nothing but
/// addresses set, each of which can belong to one host.
pub open spec fn is_owned_profile(x: NetworkInterfaceConfigView) -> bool {
    x.ownership == ObjectOwnership::AgentOwned && x.enabled && starts(x.id, profile_prefix())
        && x.mtu is None && x.mac_override is None && x.peerdns && x.dns_servers.len() == 0
        && x.dns_search.len() == 0 && x.dhcp_client_id is None && x.dhcp_vendor_id is None
        && x.dhcp_hostname is None && x.dhcp_request_options.len() == 0 && !x.dhcp_no_release
        && x.dhcp_server is None && forall|i: int|
        0 <= i < x.addresses.len() ==> is_host(#[trigger] x.addresses[i])
}

pub open spec fn is_host(n: IpNetwork) -> bool {
    !is_unspecified(n.address) && !is_multicast(n.address)
}

/// Whether the agent may own an object at run time, given the verdict of the object model on it.
pub open spec fn is_runtime_object(o: NetworkObjectView, valid: bool) -> bool {
    valid && match o {
        NetworkObjectView::Interface(x) => is_owned_profile(x),
        NetworkObjectView::Route(x) => x.ownership == ObjectOwnership::AgentOwned && x.enabled,
        NetworkObjectView::PolicyRule(x) => x.ownership == ObjectOwnership::AgentOwned && x.enabled
            && is_reserved(x.priority),
        _ => false,
    }
}

fn host_addresses(list: &Vec<IpNetwork>) -> (r: bool)
    ensures
        r == (forall|i: int| 0 <= i < list@.len() ==> is_host(#[trigger] list@[i])),
{
    let mut i: usize = 0;
    while i < list.len()
        invariant
            i <= list@.len(),
            forall|j: int| 0 <= j < i ==> is_host(#[trigger] list@[j]),
        decreases list@.len() - i,
    {
        if list[i].address.is_unspecified() || list[i].address.is_multicast() {
            assert(!is_host(list@[i as int]));
            return false;
        }
        i = i + 1;
    }
    true
}

fn require_owned_interface(x: &NetworkInterfaceConfig) -> (r: bool)
    ensures
        r == is_owned_profile(x@),
{
    proof {
        lemma_networks(x.addresses@);
    }
    let hosts = host_addresses(&x.addresses);
    assert(x@.addresses == x.addresses@);
    assert(hosts == forall|i: int|
        0 <= i < x@.addresses.len() ==> is_host(#[trigger] x@.addresses[i]));
    x.ownership == ObjectOwnership::AgentOwned && x.enabled && has_prefix(x.id.as_str(), "agent_")
        && x.mtu.is_none() && x.mac_override.is_none() && x.peerdns && x.dns_servers.len() == 0
        && x.dns_search.len() == 0 && x.dhcp_client_id.is_none() && x.dhcp_vendor_id.is_none()
        && x.dhcp_hostname.is_none() && x.dhcp_request_options.len() == 0 && !x.dhcp_no_release
        && x.dhcp_server.is_none() && hosts
}

pub fn require_owned_runtime_object(object: &NetworkObject, valid: bool) -> (r: bool)
    ensures
        r == is_runtime_object(object@, valid),
{
    valid && match object {
        NetworkObject::Interface(x) => require_owned_interface(x),
        NetworkObject::Route(x) => x.ownership == ObjectOwnership::AgentOwned && x.enabled,
        NetworkObject::PolicyRule(x) => x.ownership == ObjectOwnership::AgentOwned && x.enabled
            && reserved_policy_priority(x.priority),
        _ => false,
    }
}

/// Whether no two interfaces share a device.
pub open spec fn devices_differ(objects: Seq<NetworkObjectView>) -> bool {
    forall|i: int, j: int|
        0 <= i < j < objects.len() && (#[trigger] objects[i]) is Interface && (
        #[trigger] objects[j]) is Interface ==> objects[i]->Interface_0.device
            != objects[j]->Interface_0.device
}

pub fn distinct_devices(objects: &Vec<NetworkObject>) -> (r: bool)
    ensures
        r == devices_differ(views(objects@)),
{
    let ghost all = views(objects@);
    let mut j: usize = 0;
    while j < objects.len()
        invariant
            j <= objects@.len(),
            all == views(objects@),
            forall|a: int, b: int|
                0 <= a < b < j && (#[trigger] all[a]) is Interface && (#[trigger] all[b]) is Interface
                    ==> all[a]->Interface_0.device != all[b]->Interface_0.device,
        decreases objects@.len() - j,
    {
        assert(all[j as int] == objects@[j as int]@);
        if let NetworkObject::Interface(x) = &objects[j] {
            let mut i: usize = 0;
            while i < j
                invariant
                    i <= j < objects@.len(),
                    all == views(objects@),
                    all[j as int] == NetworkObjectView::Interface(x@),
                    forall|a: int|
                        0 <= a < i && (#[trigger] all[a]) is Interface
                            ==> all[a]->Interface_0.device != x@.device,
                decreases j - i,
            {
                assert(all[i as int] == objects@[i as int]@);
                if let NetworkObject::Interface(y) = &objects[i] {
                    if same(x.device.as_str(), y.device.as_str()) {
                        return false;
                    }
                }
                i = i + 1;
            }
        }
        j = j + 1;
    }
    true
}

/// Whether a list of objects can be the agent's, given the verdicts on them.
pub open spec fn are_runtime_objects(
    objects: Seq<NetworkObjectView>,
    valid: Seq<bool>,
    interfaces: bool,
) -> bool {
    devices_differ(objects) && (any_profile(objects) ==> interfaces) && forall|i: int|
        0 <= i < objects.len() ==> is_runtime_object(#[trigger] objects[i], verdict_at(valid, i))
}

/// Why a list of objects cannot be the agent's.
pub open spec fn canonical_objects(
    objects: Seq<NetworkObjectView>,
    valid: Seq<bool>,
    interfaces: bool,
) -> Result<(), RuntimeNetworkInventoryError> {
    if objects.len() > MAX_OBJECTS {
        Err(RuntimeNetworkInventoryError::Capacity)
    } else if are_runtime_objects(objects, valid, interfaces) {
        Ok(())
    } else {
        Err(RuntimeNetworkInventoryError::InvalidPlan)
    }
}

fn canonical_runtime_objects(objects: &Vec<NetworkObject>, valid: &[bool], interfaces: bool) -> (r:
    Result<(), RuntimeNetworkInventoryError>)
    ensures
        r == canonical_objects(views(objects@), valid@, interfaces),
{
    if objects.len() > MAX_OBJECTS {
        return Err(RuntimeNetworkInventoryError::Capacity);
    }
    let ghost all = views(objects@);
    let mut i: usize = 0;
    while i < objects.len()
        invariant
            i <= objects@.len() <= MAX_OBJECTS,
            all == views(objects@),
            forall|j: int|
                0 <= j < i ==> is_runtime_object(#[trigger] all[j], verdict_at(valid@, j)),
        decreases objects@.len() - i,
    {
        assert(all[i as int] == objects@[i as int]@);
        let verdict = i < valid.len() && valid[i];
        if !require_owned_runtime_object(&objects[i], verdict) {
            assert(!is_runtime_object(all[i as int], verdict_at(valid@, i as int)));
            return Err(RuntimeNetworkInventoryError::InvalidPlan);
        }
        i = i + 1;
    }
    if distinct_devices(objects) && (!has_profile(objects) || interfaces) {
        Ok(())
    } else {
        Err(RuntimeNetworkInventoryError::InvalidPlan)
    }
}

/// An object without what the kernel does not keep: its identity and its owner.
pub open spec fn normal(o: NetworkObjectView) -> NetworkObjectView {
    match o {
        NetworkObjectView::Route(x) => NetworkObjectView::Route(
            NetworkRouteView {
                id: Seq::empty(),
                ownership: ObjectOwnership::AgentOwned,
                ..x
            },
        ),
        NetworkObjectView::PolicyRule(x) => NetworkObjectView::PolicyRule(
            NetworkPolicyRuleView {
                id: Seq::empty(),
                ownership: ObjectOwnership::AgentOwned,
                ..x
            },
        ),
        other => other,
    }
}

pub open spec fn normals(objects: Seq<NetworkObjectView>) -> Seq<NetworkObjectView> {
    Seq::new(objects.len(), |i: int| normal(objects[i]))
}

/// Whether two lists mean the same to the kernel: the same objects as often, in any order.
pub open spec fn same_semantics(a: Seq<NetworkObjectView>, b: Seq<NetworkObjectView>) -> bool {
    normals(a).to_multiset() == normals(b).to_multiset()
}

fn normalized(objects: &Vec<NetworkObject>) -> (r: Vec<NetworkObject>)
    ensures
        views(r@) == normals(views(objects@)),
{
    let ghost all = views(objects@);
    let mut r: Vec<NetworkObject> = Vec::new();
    let mut i: usize = 0;
    while i < objects.len()
        invariant
            i <= objects@.len(),
            all == views(objects@),
            views(r@) =~= normals(all).take(i as int),
        decreases objects@.len() - i,
    {
        assert(all[i as int] == objects@[i as int]@);
        let o = match &objects[i] {
            NetworkObject::Route(x) => {
                let mut y = x.twin();
                y.id = String::new();
                y.ownership = ObjectOwnership::AgentOwned;
                NetworkObject::Route(y)
            },
            NetworkObject::PolicyRule(x) => {
                let mut y = x.twin();
                y.id = String::new();
                y.ownership = ObjectOwnership::AgentOwned;
                NetworkObject::PolicyRule(y)
            },
            other => other.twin(),
        };
        assert(o@ =~= normal(all[i as int]));
        r.push(o);
        i = i + 1;
    }
    assert(views(r@) =~= normals(all));
    r
}

fn count_of<T: Item>(list: &Vec<T>, x: &T) -> (r: usize)
    ensures
        r == views(list@).to_multiset().count(x@),
{
    let ghost all = views(list@);
    let mut n: usize = 0;
    let mut i: usize = 0;
    proof {
        assert(all.take(0) =~= Seq::empty());
        Seq::<T::V>::empty().to_multiset_ensures();
        assert(!Seq::<T::V>::empty().contains(x@));
    }
    while i < list.len()
        invariant
            n <= i <= list@.len(),
            all == views(list@),
            n == all.take(i as int).to_multiset().count(x@),
        decreases list@.len() - i,
    {
        proof {
            all.take(i as int).to_multiset_ensures();
            assert(all.take(i + 1) =~= all.take(i as int).push(all[i as int]));
            assert(all[i as int] == list@[i as int]@);
        }
        if list[i].alike(x) {
            n = n + 1;
        }
        i = i + 1;
    }
    assert(all.take(i as int) =~= all);
    n
}

/// Whether two lists hold the same values as often.
pub fn same_bag<T: Item>(a: &Vec<T>, b: &Vec<T>) -> (r: bool)
    ensures
        r == (views(a@).to_multiset() == views(b@).to_multiset()),
{
    let ghost x = views(a@);
    let ghost y = views(b@);
    let mut i: usize = 0;
    while i < a.len()
        invariant
            i <= a@.len(),
            x == views(a@),
            y == views(b@),
            forall|j: int|
                0 <= j < i ==> x.to_multiset().count(#[trigger] x[j]) == y.to_multiset().count(x[j]),
        decreases a@.len() - i,
    {
        assert(x[i as int] == a@[i as int]@);
        if count_of(a, &a[i]) != count_of(b, &a[i]) {
            return false;
        }
        i = i + 1;
    }
    let mut i: usize = 0;
    while i < b.len()
        invariant
            i <= b@.len(),
            x == views(a@),
            y == views(b@),
            forall|j: int|
                0 <= j < x.len() ==> x.to_multiset().count(#[trigger] x[j]) == y.to_multiset().count(
                    x[j],
                ),
            forall|j: int|
                0 <= j < i ==> x.to_multiset().count(#[trigger] y[j]) == y.to_multiset().count(y[j]),
        decreases b@.len() - i,
    {
        assert(y[i as int] == b@[i as int]@);
        if count_of(a, &b[i]) != count_of(b, &b[i]) {
            return false;
        }
        i = i + 1;
    }
    proof {
        x.to_multiset_ensures();
        y.to_multiset_ensures();
        assert forall|v: T::V| x.to_multiset().count(v) == y.to_multiset().count(v) by {
            if x.contains(v) {
            } else if y.contains(v) {
            } else {
                assert(x.to_multiset().count(v) == 0);
                assert(y.to_multiset().count(v) == 0);
            }
        }
        assert(x.to_multiset() =~= y.to_multiset());
    }
    true
}

fn alike_to_kernel(a: &Vec<NetworkObject>, b: &Vec<NetworkObject>) -> (r: bool)
    ensures
        r == same_semantics(views(a@), views(b@)),
{
    same_bag(&normalized(a), &normalized(b))
}

/// Whether a boot identity is usable: not empty, bounded, without control characters.
pub open spec fn is_boot_id(s: Seq<char>) -> bool {
    0 < s.len() && byte_len(s) <= MAX_BOOT_ID_BYTES && is_clean(s)
}

fn usable_boot_id(s: &str) -> (r: bool)
    ensures
        r == is_boot_id(s@),
{
    chars_of(s).len() > 0 && byte_length(s) <= MAX_BOOT_ID_BYTES && clean(s)
}

/// The agent's routes and rules in the kernel.
pub open spec fn owned_native(routes: Seq<char>, rules: Seq<char>, answers: Seq<RuleAnswerView>) -> Result<
    Seq<NetworkObjectView>,
    RuntimeNetworkInventoryError,
> {
    match owned_routes(routes) {
        Err(e) => Err(e),
        Ok(a) => match owned_rules(rules, answers) {
            Err(e) => Err(e),
            Ok(b) => Ok(a + b),
        },
    }
}

/// Moves the objects of one list behind those of another.
fn extend(list: &mut Vec<NetworkObject>, more: &Vec<NetworkObject>)
    ensures
        views(final(list)@) == views(old(list)@) + views(more@),
{
    let ghost start = views(list@);
    let ghost tail = views(more@);
    let mut i: usize = 0;
    while i < more.len()
        invariant
            i <= more@.len(),
            tail == views(more@),
            views(list@) =~= start + tail.take(i as int),
        decreases more@.len() - i,
    {
        assert(tail[i as int] == more@[i as int]@);
        list.push(more[i].twin());
        i = i + 1;
    }
    assert(tail.take(i as int) =~= tail);
}

fn owned_native_objects(routes_json: &str, rules_json: &str, answers: &[RuleAnswer]) -> (r: Result<
    Vec<NetworkObject>,
    RuntimeNetworkInventoryError,
>)
    ensures
        lvres(r) == owned_native(routes_json@, rules_json@, views(answers@)),
{
    let mut native = match owned_native_routes(routes_json) {
        Ok(v) => v,
        Err(e) => {
            return Err(e);
        },
    };
    let rules = match owned_native_policy_rules(rules_json, answers) {
        Ok(v) => v,
        Err(e) => {
            return Err(e);
        },
    };
    extend(&mut native, &rules);
    Ok(native)
}

/// The snapshot that the agent's routes and rules in the kernel and the record of them come to.
///
/// Without a record there must be none; with one, they must be those of the record.
pub open spec fn reconciled(
    native: Seq<NetworkObjectView>,
    record: Option<RuntimeCanonicalRecordView>,
    boot_id: Seq<char>,
) -> Result<RuntimeRouteSnapshotView, RuntimeNetworkInventoryError> {
    match record {
        None => if native.len() == 0 {
            Ok(
                RuntimeRouteSnapshotView {
                    boot_id,
                    inventory: NetworkInventoryView { objects: Seq::empty() },
                },
            )
        } else {
            Err(RuntimeNetworkInventoryError::NativeDrift)
        },
        Some(rec) => match boot_state(rec, boot_id) {
            Err(e) => Err(e),
            Ok(s) => match canonical_objects(s.inventory.objects, rec.valid, false) {
                Err(e) => Err(e),
                Ok(()) => if same_semantics(native, s.inventory.objects) {
                    Ok(RuntimeRouteSnapshotView { boot_id, inventory: s.inventory })
                } else {
                    Err(RuntimeNetworkInventoryError::NativeDrift)
                },
            },
        },
    }
}

/// The view of an optional reference to a record.
pub open spec fn record_view(o: Option<&RuntimeCanonicalRecord>) -> Option<
    RuntimeCanonicalRecordView,
> {
    match o {
        Some(r) => Some(r@),
        None => None,
    }
}

/// Reconciles what the agent owns in the kernel with the record of it.
pub fn reconcile_owned(
    native: &Vec<NetworkObject>,
    record: Option<&RuntimeCanonicalRecord>,
    boot_id: &str,
) -> (r: Result<RuntimeRouteSnapshot, RuntimeNetworkInventoryError>)
    ensures
        vres(r) == reconciled(views(native@), record_view(record), boot_id@),
{
    let rec = match record {
        None => {
            if native.len() > 0 {
                return Err(RuntimeNetworkInventoryError::NativeDrift);
            }
            return Ok(
                RuntimeRouteSnapshot {
                    boot_id: boot_id.to_owned(),
                    inventory: NetworkInventory { objects: Vec::new() },
                },
            );
        },
        Some(rec) => rec,
    };
    let state = match decode_runtime_canonical(rec, boot_id) {
        Ok(s) => s,
        Err(e) => {
            return Err(e);
        },
    };
    proof {
        lemma_verdicts(rec.valid@);
    }
    match canonical_runtime_objects(&state.inventory.objects, rec.valid.as_slice(), false) {
        Ok(()) => {},
        Err(e) => {
            return Err(e);
        },
    }
    if !alike_to_kernel(native, &state.inventory.objects) {
        return Err(RuntimeNetworkInventoryError::NativeDrift);
    }
    Ok(
        RuntimeRouteSnapshot {
            boot_id: state.boot_id.clone(),
            inventory: state.inventory.twin(),
        },
    )
}

/// Verdicts are their own views.
pub proof fn lemma_verdicts(s: Seq<bool>)
    ensures
        views(s) == s,
{
    assert(views(s) =~= s);
}

/// Reconciles the agent's routes in the kernel with the record of this boot.
pub fn reconcile_runtime_route_inventory(
    routes_json: &str,
    record: Option<&RuntimeCanonicalRecord>,
    boot_id: &str,
) -> (r: Result<RuntimeRouteSnapshot, RuntimeNetworkInventoryError>)
    ensures
        vres(r) == runtime_reconciled(
            routes_json@,
            "[]"@,
            Seq::empty(),
            record_view(record),
            boot_id@,
        ),
{
    let none: Vec<RuleAnswer> = Vec::new();
    reconcile_runtime_network_inventory(routes_json, "[]", none.as_slice(), record, boot_id)
}

/// The snapshot of the agent's routes and rules.
pub open spec fn runtime_reconciled(
    routes: Seq<char>,
    rules: Seq<char>,
    answers: Seq<RuleAnswerView>,
    record: Option<RuntimeCanonicalRecordView>,
    boot_id: Seq<char>,
) -> Result<RuntimeRouteSnapshotView, RuntimeNetworkInventoryError> {
    if !is_boot_id(boot_id) {
        Err(RuntimeNetworkInventoryError::StaleState)
    } else {
        match owned_native(routes, rules, answers) {
            Err(e) => Err(e),
            Ok(native) => reconciled(native, record, boot_id),
        }
    }
}

/// Reconciles the agent's routes and rules in the kernel with the record of this boot.
///
/// A record is given with the verdicts of the object model on its objects.
pub fn reconcile_runtime_network_inventory(
    routes_json: &str,
    rules_json: &str,
    answers: &[RuleAnswer],
    record: Option<&RuntimeCanonicalRecord>,
    boot_id: &str,
) -> (r: Result<RuntimeRouteSnapshot, RuntimeNetworkInventoryError>)
    ensures
        vres(r) == runtime_reconciled(
            routes_json@,
            rules_json@,
            views(answers@),
            record_view(record),
            boot_id@,
        ),
{
    if !usable_boot_id(boot_id) {
        return Err(RuntimeNetworkInventoryError::StaleState);
    }
    match owned_native_objects(routes_json, rules_json, answers) {
        Err(e) => Err(e),
        Ok(native) => reconcile_owned(&native, record, boot_id),
    }
}

/// Whether the records list addresses of an interface, be they none.
pub open spec fn is_listed(records: Seq<JsonView>, name: Seq<char>) -> bool {
    exists|i: int| 0 <= i < records.len() && (#[trigger] entries_of(records[i], name)) is Some
}

/// Whether a link of a name is there.
pub open spec fn is_linked(links: Seq<JsonView>, name: Seq<char>) -> bool {
    exists|i: int| 0 <= i < links.len() && (#[trigger] name_at(links[i], "ifname"@)) == Some(name)
}

/// Whether the device of a profile is there, with each of its addresses, none of them given twice.
pub open spec fn is_present(
    x: NetworkInterfaceConfigView,
    links: Seq<JsonView>,
    records: Seq<JsonView>,
) -> bool {
    is_linked(links, x.device) && is_listed(records, x.device) && x.addresses.no_duplicates() && (
    forall|i: int|
        0 <= i < x.addresses.len() ==> observed(records, x.device).addresses.contains(
            #[trigger] x.addresses[i],
        ))
}

pub open spec fn profiles_present(
    objects: Seq<NetworkObjectView>,
    links: Seq<JsonView>,
    records: Seq<JsonView>,
) -> bool {
    forall|i: int|
        0 <= i < objects.len() && (#[trigger] objects[i]) is Interface ==> is_present(
            objects[i]->Interface_0,
            links,
            records,
        )
}

fn linked(links: &Vec<Json>, name: &str) -> (r: bool)
    ensures
        r == is_linked(views(links@), name@),
{
    let ghost all = views(links@);
    let mut i: usize = 0;
    while i < links.len()
        invariant
            i <= links@.len(),
            all == views(links@),
            forall|j: int| 0 <= j < i ==> (#[trigger] name_at(all[j], "ifname"@)) != Some(name@),
        decreases links@.len() - i,
    {
        assert(all[i as int] == links@[i as int]@);
        if same_option(bounded_string(&links[i], "ifname"), name) {
            assert(name_at(all[i as int], "ifname"@) == Some(name@));
            return true;
        }
        i = i + 1;
    }
    false
}

fn listed(records: &Vec<Json>, name: &str) -> (r: bool)
    ensures
        r == is_listed(views(records@), name@),
{
    let ghost all = views(records@);
    let mut i: usize = 0;
    while i < records.len()
        invariant
            i <= records@.len(),
            all == views(records@),
            forall|j: int| 0 <= j < i ==> (#[trigger] entries_of(all[j], name@)) is None,
        decreases records@.len() - i,
    {
        assert(all[i as int] == records@[i as int]@);
        if same_option(bounded_string(&records[i], "ifname"), name) && records[i].list_at(
            "addr_info",
        ).is_some() {
            assert(entries_of(all[i as int], name@) is Some);
            return true;
        }
        i = i + 1;
    }
    false
}

fn without_repeats(list: &Vec<IpNetwork>) -> (r: bool)
    ensures
        r == list@.no_duplicates(),
{
    let mut j: usize = 0;
    while j < list.len()
        invariant
            j <= list@.len(),
            forall|a: int, b: int| 0 <= a < b < j ==> list@[a] != list@[b],
        decreases list@.len() - j,
    {
        let mut i: usize = 0;
        while i < j
            invariant
                i <= j < list@.len(),
                forall|a: int| 0 <= a < i ==> list@[a] != list@[j as int],
            decreases j - i,
        {
            if list[i] == list[j] {
                return false;
            }
            i = i + 1;
        }
        j = j + 1;
    }
    true
}

fn present(x: &NetworkInterfaceConfig, links: &Vec<Json>, records: &Vec<Json>) -> (r: bool)
    ensures
        r == is_present(x@, views(links@), views(records@)),
{
    proof {
        lemma_networks(x.addresses@);
    }
    if !linked(links, x.device.as_str()) || !listed(records, x.device.as_str())
        || !without_repeats(&x.addresses) {
        return false;
    }
    let current = observe(records, x.device.as_str());
    proof {
        lemma_networks(current.addresses@);
    }
    let mut i: usize = 0;
    while i < x.addresses.len()
        invariant
            i <= x.addresses@.len(),
            x@.addresses == x.addresses@,
            views(current.addresses@) == current.addresses@,
            current.addresses@ == observed(views(records@), x@.device).addresses,
            forall|j: int|
                0 <= j < i ==> observed(views(records@), x@.device).addresses.contains(
                    #[trigger] x@.addresses[j],
                ),
            is_linked(views(links@), x@.device),
            is_listed(views(records@), x@.device),
            x@.addresses.no_duplicates(),
        decreases x.addresses@.len() - i,
    {
        if !has_item(&current.addresses, &x.addresses[i]) {
            assert(!observed(views(records@), x@.device).addresses.contains(x@.addresses[i as int]));
            return false;
        }
        i = i + 1;
    }
    true
}

fn verify_runtime_interface_profiles(
    objects: &Vec<NetworkObject>,
    links: &Vec<Json>,
    records: &Vec<Json>,
) -> (r: bool)
    ensures
        r == profiles_present(views(objects@), views(links@), views(records@)),
{
    let ghost all = views(objects@);
    let mut i: usize = 0;
    while i < objects.len()
        invariant
            i <= objects@.len(),
            all == views(objects@),
            forall|j: int|
                0 <= j < i && (#[trigger] all[j]) is Interface ==> is_present(
                    all[j]->Interface_0,
                    views(links@),
                    views(records@),
                ),
        decreases objects@.len() - i,
    {
        assert(all[i as int] == objects@[i as int]@);
        if let NetworkObject::Interface(x) = &objects[i] {
            if !present(x, links, records) {
                return false;
            }
        }
        i = i + 1;
    }
    true
}

/// The objects that are no interfaces.
pub open spec fn without_profiles(objects: Seq<NetworkObjectView>) -> Seq<NetworkObjectView> {
    objects.filter(|o: NetworkObjectView| !is_profile(o))
}

fn drop_profiles(objects: &Vec<NetworkObject>) -> (r: Vec<NetworkObject>)
    ensures
        views(r@) == without_profiles(views(objects@)),
{
    let ghost all = views(objects@);
    let ghost p = |o: NetworkObjectView| !is_profile(o);
    let mut r: Vec<NetworkObject> = Vec::new();
    let mut i: usize = 0;
    proof {
        reveal(Seq::filter);
        assert(all.take(0) =~= Seq::empty());
    }
    while i < objects.len()
        invariant
            i <= objects@.len(),
            all == views(objects@),
            p == (|o: NetworkObjectView| !is_profile(o)),
            views(r@) == all.take(i as int).filter(p),
        decreases objects@.len() - i,
    {
        proof {
            reveal(Seq::filter);
            assert(all.take(i + 1).drop_last() =~= all.take(i as int));
            assert(all[i as int] == objects@[i as int]@);
        }
        match &objects[i] {
            NetworkObject::Interface(_) => {},
            other => {
                r.push(other.twin());
            },
        }
        i = i + 1;
    }
    assert(all.take(i as int) =~= all);
    r
}

/// Whether an object of the same kind and identity is in a list.
pub open spec fn same_object_in(objects: Seq<NetworkObjectView>, o: NetworkObjectView) -> bool {
    exists|i: int|
        0 <= i < objects.len() && (#[trigger] objects[i]).kind() == o.kind() && objects[i].id()
            == o.id()
}

fn has_object(objects: &Vec<NetworkObject>, o: &NetworkObject) -> (r: bool)
    ensures
        r == same_object_in(views(objects@), o@),
{
    let ghost all = views(objects@);
    let mut i: usize = 0;
    while i < objects.len()
        invariant
            i <= objects@.len(),
            all == views(objects@),
            forall|j: int|
                0 <= j < i ==> !((#[trigger] all[j]).kind() == o@.kind() && all[j].id() == o@.id()),
        decreases objects@.len() - i,
    {
        assert(all[i as int] == objects@[i as int]@);
        if same(objects[i].kind(), o.kind()) && same(objects[i].id(), o.id()) {
            return true;
        }
        i = i + 1;
    }
    false
}

/// The objects with those of another list from `i` on behind them. No two are of the same kind and
/// identity.
pub open spec fn joined_objects(
    objects: Seq<NetworkObjectView>,
    more: Seq<NetworkObjectView>,
    i: int,
) -> Option<Seq<NetworkObjectView>>
    decreases more.len() - i,
{
    if i < 0 || i >= more.len() {
        Some(objects)
    } else if same_object_in(objects, more[i]) {
        None
    } else {
        joined_objects(objects.push(more[i]), more, i + 1)
    }
}

fn join_objects(objects: Vec<NetworkObject>, more: &Vec<NetworkObject>) -> (r: Option<
    Vec<NetworkObject>,
>)
    ensures
        olist(r) == joined_objects(views(objects@), views(more@), 0),
{
    let ghost start = views(objects@);
    let ghost all = views(more@);
    let mut list = objects;
    let mut i: usize = 0;
    while i < more.len()
        invariant
            i <= more@.len(),
            all == views(more@),
            start == views(objects@),
            joined_objects(views(list@), all, i as int) == joined_objects(start, all, 0),
        decreases more@.len() - i,
    {
        assert(all[i as int] == more@[i as int]@);
        if has_object(&list, &more[i]) {
            return None;
        }
        list.push(more[i].twin());
        i = i + 1;
    }
    Some(list)
}

/// The snapshot that a full observation and the record come to.
///
/// Beside the agent's routes and rules, the devices and addresses of its profiles have to be there.
/// The snapshot holds what the platform has, and behind it what the record holds.
pub open spec fn full_reconciled(
    native: Seq<NetworkObjectView>,
    platform: Seq<NetworkObjectView>,
    links: Seq<JsonView>,
    records: Seq<JsonView>,
    record: Option<RuntimeCanonicalRecordView>,
    boot_id: Seq<char>,
) -> Result<RuntimeRouteSnapshotView, RuntimeNetworkInventoryError> {
    match record {
        None => if native.len() == 0 {
            Ok(
                RuntimeRouteSnapshotView {
                    boot_id,
                    inventory: NetworkInventoryView { objects: platform },
                },
            )
        } else {
            Err(RuntimeNetworkInventoryError::NativeDrift)
        },
        Some(rec) => match boot_state(rec, boot_id) {
            Err(e) => Err(e),
            Ok(s) => if s.schema_version == 1 && any_profile(s.inventory.objects) {
                Err(RuntimeNetworkInventoryError::StaleState)
            } else {
                match canonical_objects(s.inventory.objects, rec.valid, true) {
                    Err(e) => Err(e),
                    Ok(()) => if !same_semantics(native, without_profiles(s.inventory.objects))
                        || !profiles_present(s.inventory.objects, links, records) {
                        Err(RuntimeNetworkInventoryError::NativeDrift)
                    } else {
                        match joined_objects(platform, s.inventory.objects, 0) {
                            None => Err(RuntimeNetworkInventoryError::NativeDrift),
                            Some(objects) => if objects.len() > MAX_OBJECTS {
                                Err(RuntimeNetworkInventoryError::Capacity)
                            } else {
                                Ok(
                                    RuntimeRouteSnapshotView {
                                        boot_id,
                                        inventory: NetworkInventoryView { objects },
                                    },
                                )
                            },
                        }
                    },
                }
            },
        },
    }
}

/// Reconciles a full observation with the record.
pub fn reconcile_full(
    native: &Vec<NetworkObject>,
    platform: Vec<NetworkObject>,
    links: &Vec<Json>,
    records: &Vec<Json>,
    record: Option<&RuntimeCanonicalRecord>,
    boot_id: &str,
) -> (r: Result<RuntimeRouteSnapshot, RuntimeNetworkInventoryError>)
    ensures
        vres(r) == full_reconciled(
            views(native@),
            views(platform@),
            views(links@),
            views(records@),
            record_view(record),
            boot_id@,
        ),
{
    let rec = match record {
        None => {
            if native.len() > 0 {
                return Err(RuntimeNetworkInventoryError::NativeDrift);
            }
            return Ok(
                RuntimeRouteSnapshot {
                    boot_id: boot_id.to_owned(),
                    inventory: NetworkInventory { objects: platform },
                },
            );
        },
        Some(rec) => rec,
    };
    let state = match decode_runtime_canonical(rec, boot_id) {
        Ok(s) => s,
        Err(e) => {
            return Err(e);
        },
    };
    let expected = &state.inventory.objects;
    if state.schema_version == 1 && has_profile(expected) {
        return Err(RuntimeNetworkInventoryError::StaleState);
    }
    proof {
        lemma_verdicts(rec.valid@);
    }
    match canonical_runtime_objects(expected, rec.valid.as_slice(), true) {
        Ok(()) => {},
        Err(e) => {
            return Err(e);
        },
    }
    if !alike_to_kernel(native, &drop_profiles(expected)) || !verify_runtime_interface_profiles(
        expected,
        links,
        records,
    ) {
        return Err(RuntimeNetworkInventoryError::NativeDrift);
    }
    match join_objects(platform, expected) {
        None => Err(RuntimeNetworkInventoryError::NativeDrift),
        Some(objects) => if objects.len() > MAX_OBJECTS {
            Err(RuntimeNetworkInventoryError::Capacity)
        } else {
            Ok(
                RuntimeRouteSnapshot {
                    boot_id: state.boot_id.clone(),
                    inventory: NetworkInventory { objects },
                },
            )
        },
    }
}

/// The snapshot of everything that the documents describe.
pub open spec fn links_reconciled(
    links: Seq<char>,
    addresses: Seq<char>,
    routes: Seq<char>,
    rules: Seq<char>,
    valid: Seq<bool>,
    answers: Seq<RuleAnswerView>,
    record: Option<RuntimeCanonicalRecordView>,
    boot_id: Seq<char>,
) -> Result<RuntimeRouteSnapshotView, RuntimeNetworkInventoryError> {
    if !is_boot_id(boot_id) {
        Err(RuntimeNetworkInventoryError::StaleState)
    } else {
        match runtime_inventory(links, addresses, routes, valid) {
            Err(e) => Err(e),
            Ok(inventory) => match policy_inventory(rules, answers) {
                Err(e) => Err(e),
                Ok(policy) => match owned_native(routes, rules, answers) {
                    Err(e) => Err(e),
                    Ok(native) => full_reconciled(
                        native,
                        inventory.objects + policy.objects,
                        json_array_value(links)->Ok_0,
                        json_array_value(addresses)->Ok_0,
                        record,
                        boot_id,
                    ),
                },
            },
        }
    }
}

/// Reconciles the full inventory of the kernel, the agent's profiles on existing links among it.
///
/// The verdicts and answers are those of the two inspections.
pub fn reconcile_runtime_network_inventory_with_links(
    links_json: &str,
    addresses_json: &str,
    routes_json: &str,
    rules_json: &str,
    valid: &[bool],
    answers: &[RuleAnswer],
    record: Option<&RuntimeCanonicalRecord>,
    boot_id: &str,
) -> (r: Result<RuntimeRouteSnapshot, RuntimeNetworkInventoryError>)
    ensures
        vres(r) == links_reconciled(
            links_json@,
            addresses_json@,
            routes_json@,
            rules_json@,
            valid@,
            views(answers@),
            record_view(record),
            boot_id@,
        ),
{
    if !usable_boot_id(boot_id) {
        return Err(RuntimeNetworkInventoryError::StaleState);
    }
    let inventory = match inspect_runtime_network_inventory(
        links_json,
        addresses_json,
        routes_json,
        valid,
    ) {
        Ok(i) => i,
        Err(e) => {
            return Err(e);
        },
    };
    let policy = match inspect_runtime_policy_inventory(rules_json, answers) {
        Ok(i) => i,
        Err(e) => {
            return Err(e);
        },
    };
    let native = match owned_native_objects(routes_json, rules_json, answers) {
        Ok(v) => v,
        Err(e) => {
            return Err(e);
        },
    };
    let mut platform = inventory.objects;
    extend(&mut platform, &policy.objects);
    match (json_array(links_json), json_array(addresses_json)) {
        (Ok(links), Ok(records)) => reconcile_full(
            &native,
            platform,
            &links,
            &records,
            record,
            boot_id,
        ),
        _ => Err(RuntimeNetworkInventoryError::Malformed),
    }
}

} // verus!
