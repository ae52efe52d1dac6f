//! Batches of kernel commands that apply a plan and undo it.

use vstd::prelude::*;

use vstd::string::*;

use crate::change::{ObjectChecks, ObjectChecksView, ObjectOwnership};
use crate::items::{copy_list, copy_opt, has_item, same_list, Item};
use crate::net::{network_format, IpNetwork};
use crate::network_model::{
    NetworkFamily, NetworkInterfaceConfig, NetworkInterfaceConfigView, NetworkInventory, NetworkInventoryView,
    NetworkMutationPlan, NetworkObject, NetworkObjectView, NetworkPlannedChange, NetworkPlannedChangeView,
    NetworkPolicyAction, NetworkPolicyRule, NetworkPolicyRuleView, NetworkRoute, NetworkRouteType,
    NetworkRouteView,
};
use crate::network_openwrt::verdict_at;
use crate::network_reconcile::{
    any_profile, are_runtime_objects, devices_differ, distinct_devices, has_profile, is_runtime_object, reconciled,
    require_owned_runtime_object, same_semantics, RuntimeCanonicalRecordView, RuntimeRouteCanonicalState,
    RuntimeRouteCanonicalStateView, RuntimeRouteSnapshot, RuntimeRouteSnapshotView, MAX_BATCH_BYTES,
    MAX_CANONICAL_BYTES,
};
use crate::network_runtime::{
    address_part, lemma_bytes, lemma_networks, number_part, RuntimeNetworkInventoryError, MAX_OBJECTS,
};
use crate::text::{byte_len, byte_length, chars_of, decimal, decimal_text, hex, hex_text, same};
use crate::views::{group_views, lvres, opt, views, vres};

verus! {

broadcast use group_views;

/// The batches of a plan, and the record of what the agent will own once it is applied.
#[derive(Debug, Clone, PartialEq, Eq)]
pub struct RuntimeRouteDraft {
    pub apply_batch: String,
    pub rollback_batch: String,
    pub canonical: RuntimeRouteCanonicalState,
}

#[verifier::ext_equal]
pub struct RuntimeRouteDraftView {
    pub apply_batch: Seq<char>,
    pub rollback_batch: Seq<char>,
    pub canonical: RuntimeRouteCanonicalStateView,
}

impl View for RuntimeRouteDraft {
    type V = RuntimeRouteDraftView;

    open spec fn view(&self) -> RuntimeRouteDraftView {
        RuntimeRouteDraftView {
            apply_batch: self.apply_batch@,
            rollback_batch: self.rollback_batch@,
            canonical: self.canonical@,
        }
    }
}

impl Item for RuntimeRouteDraft {
    fn alike(&self, other: &Self) -> (r: bool) {
        same(self.apply_batch.as_str(), other.apply_batch.as_str())
            && same(self.rollback_batch.as_str(), other.rollback_batch.as_str())
            && self.canonical.alike(&other.canonical)
    }

    fn twin(&self) -> (r: Self) {
        RuntimeRouteDraft {
            apply_batch: self.apply_batch.clone(),
            rollback_batch: self.rollback_batch.clone(),
            canonical: self.canonical.twin(),
        }
    }
}

/// A complete staging artifact. Nothing in it has been executed.
#[derive(Debug, Clone, PartialEq, Eq)]
pub struct RuntimeRouteStage {
    pub apply_batch: String,
    pub rollback_batch: String,
    pub projected_canonical_state: Vec<u8>,
}

#[verifier::ext_equal]
pub struct RuntimeRouteStageView {
    pub apply_batch: Seq<char>,
    pub rollback_batch: Seq<char>,
    pub projected_canonical_state: Seq<u8>,
}

impl View for RuntimeRouteStage {
    type V = RuntimeRouteStageView;

    open spec fn view(&self) -> RuntimeRouteStageView {
        RuntimeRouteStageView {
            apply_batch: self.apply_batch@,
            rollback_batch: self.rollback_batch@,
            projected_canonical_state: views(self.projected_canonical_state@),
        }
    }
}

impl Item for RuntimeRouteStage {
    fn alike(&self, other: &Self) -> (r: bool) {
        same(self.apply_batch.as_str(), other.apply_batch.as_str())
            && same(self.rollback_batch.as_str(), other.rollback_batch.as_str())
            && same_list(&self.projected_canonical_state, &other.projected_canonical_state)
    }

    fn twin(&self) -> (r: Self) {
        RuntimeRouteStage {
            apply_batch: self.apply_batch.clone(),
            rollback_batch: self.rollback_batch.clone(),
            projected_canonical_state: copy_list(&self.projected_canonical_state),
        }
    }
}

/// The two families of an operation.
pub open spec fn family_flag(v4: bool) -> Seq<char> {
    if v4 {
        "-4"@
    } else {
        "-6"@
    }
}

/// The batch with a line for each address from `i` on.
pub open spec fn address_lines(
    batch: Seq<char>,
    op: Seq<char>,
    addresses: Seq<IpNetwork>,
    device: Seq<char>,
    i: int,
) -> Seq<char>
    decreases addresses.len() - i,
{
    if i < 0 || i >= addresses.len() {
        batch
    } else {
        address_lines(
            batch + address_line(op, addresses[i], device),
            op,
            addresses,
            device,
            i + 1,
        )
    }
}

pub open spec fn address_line(op: Seq<char>, n: IpNetwork, device: Seq<char>) -> Seq<char> {
    "address "@ + op + " "@ + network_format(n) + " dev "@ + device + "\n"@
}

/// The part of a command that a word and a text make, where there is a text.
pub open spec fn word_part(word: Seq<char>, text: Option<Seq<char>>) -> Seq<char> {
    match text {
        Some(t) => word + t,
        None => Seq::empty(),
    }
}

pub open spec fn network_part(n: Option<IpNetwork>) -> Option<Seq<char>> {
    match n {
        Some(n) => Some(network_format(n)),
        None => None,
    }
}

pub open spec fn route_type_word(t: NetworkRouteType) -> Seq<char> {
    match t {
        NetworkRouteType::Unicast => Seq::empty(),
        NetworkRouteType::Blackhole => "blackhole "@,
        NetworkRouteType::Unreachable => "unreachable "@,
        NetworkRouteType::Prohibit => "prohibit "@,
    }
}

pub open spec fn destination_text(n: IpNetwork) -> Seq<char> {
    if n.prefix_len == 0 {
        "default"@
    } else {
        network_format(n)
    }
}

/// The command on a route. It carries the protocol that marks the route as the agent's own.
pub open spec fn route_line(op: Seq<char>, r: NetworkRouteView) -> Seq<char> {
    family_flag(r.destination.address is V4) + " route "@ + op + " "@ + route_type_word(
        r.route_type,
    ) + destination_text(r.destination) + word_part(" via "@, address_part(r.gateway)) + word_part(
        " dev "@,
        r.output_interface,
    ) + word_part(" src "@, address_part(r.preferred_source)) + " table "@ + decimal(
        r.table as nat,
    ) + " proto 186"@ + word_part(" metric "@, number_part(r.metric)) + "\n"@
}

/// The mark that a rule matches, with its mask.
pub open spec fn mark_text(mark: Option<u32>, mask: Option<u32>) -> Seq<char> {
    match mark {
        None => Seq::empty(),
        Some(m) => " fwmark 0x"@ + hex(m as nat) + word_part(
            "/0x"@,
            match mask {
                Some(k) => Some(hex(k as nat)),
                None => None,
            },
        ),
    }
}

pub open spec fn action_text(action: NetworkPolicyAction, table: u32) -> Seq<char> {
    match action {
        NetworkPolicyAction::Lookup => " table "@ + decimal(table as nat),
        NetworkPolicyAction::Blackhole => " blackhole"@,
        NetworkPolicyAction::Unreachable => " unreachable"@,
        NetworkPolicyAction::Prohibit => " prohibit"@,
    }
}

/// The command on a policy rule.
pub open spec fn rule_line(op: Seq<char>, r: NetworkPolicyRuleView) -> Seq<char> {
    family_flag(r.family == NetworkFamily::Ipv4) + " rule "@ + op + " priority "@ + decimal(
        r.priority as nat,
    ) + word_part(" from "@, network_part(r.source)) + word_part(
        " to "@,
        network_part(r.destination),
    ) + word_part(" iifname "@, r.input_interface) + word_part(" oifname "@, r.output_interface)
        + mark_text(r.fwmark, r.fwmark_mask) + action_text(r.action, r.table) + "\n"@
}

/// The batch with the commands on an object behind it.
pub open spec fn object_lines(batch: Seq<char>, op: Seq<char>, o: NetworkObjectView) -> Seq<char> {
    match o {
        NetworkObjectView::Interface(x) => address_lines(batch, op, x.addresses, x.device, 0),
        NetworkObjectView::Route(x) => batch + route_line(op, x),
        NetworkObjectView::PolicyRule(x) => batch + rule_line(op, x),
        _ => batch,
    }
}

/// The batch with a line for each address from `i` on that another list lacks.
pub open spec fn missing_lines(
    batch: Seq<char>,
    op: Seq<char>,
    addresses: Seq<IpNetwork>,
    other: Seq<IpNetwork>,
    device: Seq<char>,
    i: int,
) -> Seq<char>
    decreases addresses.len() - i,
{
    if i < 0 || i >= addresses.len() {
        batch
    } else if other.contains(addresses[i]) {
        missing_lines(batch, op, addresses, other, device, i + 1)
    } else {
        missing_lines(
            batch + address_line(op, addresses[i], device),
            op,
            addresses,
            other,
            device,
            i + 1,
        )
    }
}

/// An interface without its addresses.
pub open spec fn bare(x: NetworkInterfaceConfigView) -> NetworkInterfaceConfigView {
    NetworkInterfaceConfigView { addresses: Seq::empty(), ..x }
}

/// The batch that turns one profile into another: only their addresses may differ.
pub open spec fn profile_diff(
    batch: Seq<char>,
    before: NetworkInterfaceConfigView,
    after: NetworkInterfaceConfigView,
) -> Result<Seq<char>, RuntimeNetworkInventoryError> {
    if bare(before) != bare(after) {
        Err(RuntimeNetworkInventoryError::InvalidPlan)
    } else {
        Ok(
            missing_lines(
                missing_lines(batch, "del"@, before.addresses, after.addresses, before.device, 0),
                "add"@,
                after.addresses,
                before.addresses,
                after.device,
                0,
            ),
        )
    }
}

/// Whether the agent may own an object of a change, where there is one.
pub open spec fn may_own(o: Option<NetworkObjectView>, checks: ObjectChecksView) -> bool {
    match o {
        Some(x) => is_runtime_object(x, checks.digest is Some),
        None => true,
    }
}

pub open spec fn maybe_lines(batch: Seq<char>, op: Seq<char>, o: Option<NetworkObjectView>) -> Seq<
    char,
> {
    match o {
        Some(x) => object_lines(batch, op, x),
        None => batch,
    }
}

/// The batch with the commands behind it that take one object to another.
pub open spec fn replaced(
    batch: Seq<char>,
    before: Option<NetworkObjectView>,
    after: Option<NetworkObjectView>,
    before_checks: ObjectChecksView,
    after_checks: ObjectChecksView,
) -> Result<Seq<char>, RuntimeNetworkInventoryError> {
    if !may_own(before, before_checks) || !may_own(after, after_checks) {
        Err(RuntimeNetworkInventoryError::InvalidPlan)
    } else {
        match (before, after) {
            (
                Some(NetworkObjectView::Interface(b)),
                Some(NetworkObjectView::Interface(a)),
            ) => profile_diff(batch, b, a),
            _ => Ok(maybe_lines(maybe_lines(batch, "del"@, before), "add"@, after)),
        }
    }
}

/// The batch behind the changes from `i` on.
pub open spec fn applied(batch: Seq<char>, changes: Seq<NetworkPlannedChangeView>, i: int) -> Result<
    Seq<char>,
    RuntimeNetworkInventoryError,
>
    decreases changes.len() - i,
{
    if i < 0 || i >= changes.len() {
        Ok(batch)
    } else {
        let c = changes[i];
        match replaced(batch, c.before, c.after, c.before_checks, c.after_checks) {
            Err(e) => Err(e),
            Ok(next) => applied(next, changes, i + 1),
        }
    }
}

/// The batch behind the reversal of the first `n` changes, the last of them first.
pub open spec fn reverted(batch: Seq<char>, changes: Seq<NetworkPlannedChangeView>, n: int) -> Result<
    Seq<char>,
    RuntimeNetworkInventoryError,
>
    decreases n,
{
    if n <= 0 || n > changes.len() {
        Ok(batch)
    } else {
        let c = changes[n - 1];
        match replaced(batch, c.after, c.before, c.after_checks, c.before_checks) {
            Err(e) => Err(e),
            Ok(next) => reverted(next, changes, n - 1),
        }
    }
}

/// The objects that are the agent's.
pub open spec fn owned_objects(objects: Seq<NetworkObjectView>) -> Seq<NetworkObjectView> {
    objects.filter(|o: NetworkObjectView| o.ownership() == ObjectOwnership::AgentOwned)
}

/// Whether each object of the agent in a projection may be its own.
pub open spec fn owned_are_valid(objects: Seq<NetworkObjectView>, valid: Seq<bool>) -> bool {
    forall|i: int|
        0 <= i < objects.len() && (#[trigger] objects[i]).ownership() == ObjectOwnership::AgentOwned
            ==> is_runtime_object(objects[i], verdict_at(valid, i))
}

/// What the agent will own once a plan is applied.
pub open spec fn projected_objects(objects: Seq<NetworkObjectView>, valid: Seq<bool>) -> Result<
    Seq<NetworkObjectView>,
    RuntimeNetworkInventoryError,
> {
    let owned = owned_objects(objects);
    if owned.len() > MAX_OBJECTS {
        Err(RuntimeNetworkInventoryError::Capacity)
    } else if owned_are_valid(objects, valid) && devices_differ(owned) {
        Ok(owned)
    } else {
        Err(RuntimeNetworkInventoryError::InvalidPlan)
    }
}

/// The stage that a plan becomes, given the inventory that the planner projects for it.
pub open spec fn route_draft(
    boot_id: Seq<char>,
    changes: Seq<NetworkPlannedChangeView>,
    projected: Option<NetworkInventoryView>,
    valid: Seq<bool>,
) -> Result<RuntimeRouteDraftView, RuntimeNetworkInventoryError> {
    match projected {
        None => Err(RuntimeNetworkInventoryError::InvalidPlan),
        Some(inventory) => match projected_objects(inventory.objects, valid) {
            Err(e) => Err(e),
            Ok(owned) => match (
                applied(Seq::empty(), changes, 0),
                reverted(Seq::empty(), changes, changes.len() as int),
            ) {
                (Ok(apply), Ok(rollback)) => if apply.len() == 0 || byte_len(apply)
                    > MAX_BATCH_BYTES || byte_len(rollback) > MAX_BATCH_BYTES {
                    Err(RuntimeNetworkInventoryError::Capacity)
                } else {
                    Ok(
                        RuntimeRouteDraftView {
                            apply_batch: apply,
                            rollback_batch: rollback,
                            canonical: RuntimeRouteCanonicalStateView {
                                schema_version: if any_profile(owned) {
                                    2
                                } else {
                                    1
                                },
                                boot_id,
                                inventory: NetworkInventoryView { objects: owned },
                            },
                        },
                    )
                },
                _ => Err(RuntimeNetworkInventoryError::InvalidPlan),
            },
        },
    }
}

/// The change that undoes a change.
pub open spec fn inverse(c: NetworkPlannedChangeView) -> NetworkPlannedChangeView {
    NetworkPlannedChangeView {
        before: c.after,
        after: c.before,
        diff: c.diff,
        before_checks: c.after_checks,
        after_checks: c.before_checks,
    }
}

/// The changes that undo a list of changes, the last of them first.
pub open spec fn inverses(changes: Seq<NetworkPlannedChangeView>) -> Seq<NetworkPlannedChangeView> {
    Seq::new(changes.len(), |i: int| inverse(changes[changes.len() - 1 - i]))
}

proof fn lemma_rollback_tail(batch: Seq<char>, changes: Seq<NetworkPlannedChangeView>, n: int)
    requires
        0 <= n <= changes.len(),
    ensures
        reverted(batch, changes, n) == applied(batch, inverses(changes), changes.len() - n),
    decreases n,
{
    if n > 0 {
        let c = changes[n - 1];
        assert(inverses(changes)[changes.len() - n] == inverse(c));
        match replaced(batch, c.after, c.before, c.after_checks, c.before_checks) {
            Err(_) => {},
            Ok(next) => {
                lemma_rollback_tail(next, changes, n - 1);
            },
        }
    }
}

/// The rollback of a plan is the application of its inverse: each change undone, the last one first.
pub proof fn law_rollback_is_the_inverse_plan(changes: Seq<NetworkPlannedChangeView>)
    ensures
        reverted(Seq::empty(), changes, changes.len() as int) == applied(
            Seq::empty(),
            inverses(changes),
            0,
        ),
{
    lemma_rollback_tail(Seq::empty(), changes, changes.len() as int);
}

/// Undoing a change is making its inverse, behind whatever batch.
pub proof fn law_reverse_change_is_the_inverse(batch: Seq<char>, c: NetworkPlannedChangeView)
    ensures
        replaced(batch, c.after, c.before, c.after_checks, c.before_checks) == replaced(
            batch,
            inverse(c).before,
            inverse(c).after,
            inverse(c).before_checks,
            inverse(c).after_checks,
        ),
        inverse(inverse(c)) == c,
{
}

/// Undoing the inverse of a plan is applying the plan.
pub proof fn law_inverse_of_inverse(changes: Seq<NetworkPlannedChangeView>)
    ensures
        inverses(inverses(changes)) == changes,
        reverted(Seq::empty(), inverses(changes), changes.len() as int) == applied(
            Seq::empty(),
            changes,
            0,
        ),
{
    assert(inverses(inverses(changes)) =~= changes);
    lemma_rollback_tail(Seq::empty(), inverses(changes), changes.len() as int);
}

proof fn lemma_applied_owned(batch: Seq<char>, changes: Seq<NetworkPlannedChangeView>, i: int, j: int)
    requires
        0 <= i <= j < changes.len(),
        applied(batch, changes, i) is Ok,
    ensures
        may_own(changes[j].before, changes[j].before_checks),
        may_own(changes[j].after, changes[j].after_checks),
    decreases changes.len() - i,
{
    let c = changes[i];
    if i < j {
        lemma_applied_owned(
            replaced(batch, c.before, c.after, c.before_checks, c.after_checks)->Ok_0,
            changes,
            i + 1,
            j,
        );
    }
}

/// A stage touches only what the agent may own: every object that one of its changes removes or adds
/// belongs to the agent.
pub proof fn law_stage_touches_owned_objects_only(
    boot_id: Seq<char>,
    changes: Seq<NetworkPlannedChangeView>,
    projected: Option<NetworkInventoryView>,
    valid: Seq<bool>,
    j: int,
)
    requires
        route_draft(boot_id, changes, projected, valid) is Ok,
        0 <= j < changes.len(),
    ensures
        changes[j].before matches Some(o) ==> o.ownership() == ObjectOwnership::AgentOwned,
        changes[j].after matches Some(o) ==> o.ownership() == ObjectOwnership::AgentOwned,
{
    lemma_applied_owned(Seq::empty(), changes, 0, j);
}

proof fn lemma_filter_owned(
    objects: Seq<NetworkObjectView>,
    valid: Seq<bool>,
)
    requires
        owned_are_valid(objects, valid),
    ensures
        forall|k: int|
            0 <= k < owned_objects(objects).len() ==> is_runtime_object(
                #[trigger] owned_objects(objects)[k],
                true,
            ),
    decreases objects.len(),
{
    reveal(Seq::filter);
    if objects.len() > 0 {
        let rest = objects.drop_last();
        assert forall|i: int|
            0 <= i < rest.len() && (#[trigger] rest[i]).ownership()
                == ObjectOwnership::AgentOwned implies is_runtime_object(
            rest[i],
            verdict_at(valid, i),
        ) by {
            assert(rest[i] == objects[i]);
        }
        lemma_filter_owned(rest, valid);
        let last = objects[objects.len() - 1];
        assert(last == objects.last());
        if last.ownership() == ObjectOwnership::AgentOwned {
            assert(is_runtime_object(last, verdict_at(valid, objects.len() - 1)));
            assert(owned_objects(objects) == owned_objects(rest).push(last));
        } else {
            assert(owned_objects(objects) == owned_objects(rest));
        }
    }
}

/// Once the kernel holds what a stage records, the record reconciles with it: the agent finds exactly what
/// it recorded, whatever identities the kernel gives the objects and in whatever order it lists them.
/// A record with interface profiles is reconciled with the links too, and not by this function.
pub proof fn law_staged_state_reconciles(
    boot_id: Seq<char>,
    changes: Seq<NetworkPlannedChangeView>,
    projected: NetworkInventoryView,
    valid: Seq<bool>,
    record: RuntimeCanonicalRecordView,
    native: Seq<NetworkObjectView>,
)
    requires
        route_draft(boot_id, changes, Some(projected), valid) is Ok,
        record.state == Some(route_draft(boot_id, changes, Some(projected), valid)->Ok_0.canonical),
        0 < record.encoded_bytes <= MAX_CANONICAL_BYTES,
        forall|i: int|
            0 <= i < record.state->Some_0.inventory.objects.len() ==> #[trigger] verdict_at(
                record.valid,
                i,
            ),
        !any_profile(record.state->Some_0.inventory.objects),
        same_semantics(native, record.state->Some_0.inventory.objects),
    ensures
        reconciled(native, Some(record), boot_id) == Ok::<
            RuntimeRouteSnapshotView,
            RuntimeNetworkInventoryError,
        >(RuntimeRouteSnapshotView { boot_id, inventory: record.state->Some_0.inventory }),
{
    lemma_filter_owned(projected.objects, valid);
    let objects = record.state->Some_0.inventory.objects;
    assert(objects == owned_objects(projected.objects));
    assert(are_runtime_objects(objects, record.valid, false));
}

/// Objects of the agent that no record tells of are never adopted, and a record of one boot is refused
/// in every other.
pub proof fn law_runtime_state_needs_its_record(
    native: Seq<NetworkObjectView>,
    record: RuntimeCanonicalRecordView,
    boot_id: Seq<char>,
)
    ensures
        native.len() > 0 ==> reconciled(native, None, boot_id) == Err::<
            RuntimeRouteSnapshotView,
            RuntimeNetworkInventoryError,
        >(RuntimeNetworkInventoryError::NativeDrift),
        (record.state is Some && record.state->Some_0.boot_id != boot_id) ==> reconciled(
            native,
            Some(record),
            boot_id,
        ) is Err,
{
}

fn append_word(output: &mut String, word: &str, text: Option<String>)
    ensures
        final(output)@ == old(output)@ + word_part(word@, opt(text)),
{
    match text {
        Some(t) => {
            let mut part = word.to_owned();
            part.append(t.as_str());
            output.append(part.as_str());
        },
        None => {
            assert(output@ =~= output@ + Seq::<char>::empty());
        },
    }
}

fn address_command(operation: &str, n: &IpNetwork, device: &str) -> (r: String)
    ensures
        r@ == address_line(operation@, *n, device@),
{
    let mut line = "address ".to_owned();
    line.append(operation);
    line.append(" ");
    line.append(n.text().as_str());
    line.append(" dev ");
    line.append(device);
    line.append("\n");
    line
}

fn push_interface_command(output: &mut String, operation: &str, x: &NetworkInterfaceConfig)
    ensures
        final(output)@ == address_lines(old(output)@, operation@, x@.addresses, x@.device, 0),
{
    let ghost start = output@;
    proof {
        lemma_networks(x.addresses@);
    }
    let mut i: usize = 0;
    while i < x.addresses.len()
        invariant
            i <= x.addresses@.len(),
            x@.addresses == x.addresses@,
            address_lines(output@, operation@, x@.addresses, x@.device, i as int) == address_lines(
                start,
                operation@,
                x@.addresses,
                x@.device,
                0,
            ),
        decreases x.addresses@.len() - i,
    {
        output.append(address_command(operation, &x.addresses[i], x.device.as_str()).as_str());
        i = i + 1;
    }
}

fn push_route_command(output: &mut String, operation: &str, route: &NetworkRoute)
    ensures
        final(output)@ == old(output)@ + route_line(operation@, route@),
{
    let mut line = if route.destination.address.is_ipv4() {
        "-4".to_owned()
    } else {
        "-6".to_owned()
    };
    line.append(" route ");
    line.append(operation);
    line.append(" ");
    match route.route_type {
        NetworkRouteType::Unicast => {
            assert(line@ =~= line@ + Seq::<char>::empty());
        },
        NetworkRouteType::Blackhole => line.append("blackhole "),
        NetworkRouteType::Unreachable => line.append("unreachable "),
        NetworkRouteType::Prohibit => line.append("prohibit "),
    }
    if route.destination.prefix_len == 0 {
        line.append("default");
    } else {
        line.append(route.destination.text().as_str());
    }
    let gateway = match &route.gateway {
        Some(a) => Some(a.text()),
        None => None,
    };
    append_word(&mut line, " via ", gateway);
    append_word(&mut line, " dev ", copy_opt(&route.output_interface));
    let source = match &route.preferred_source {
        Some(a) => Some(a.text()),
        None => None,
    };
    append_word(&mut line, " src ", source);
    line.append(" table ");
    line.append(decimal_text(route.table as u64).as_str());
    line.append(" proto 186");
    let metric = match route.metric {
        Some(n) => Some(decimal_text(n as u64)),
        None => None,
    };
    append_word(&mut line, " metric ", metric);
    line.append("\n");
    output.append(line.as_str());
}

fn mark_part(mark: Option<u32>, mask: Option<u32>) -> (r: String)
    ensures
        r@ == mark_text(mark, mask),
{
    match mark {
        None => String::new(),
        Some(m) => {
            let mut part = " fwmark 0x".to_owned();
            part.append(hex_text(m as u64).as_str());
            let digits = match mask {
                Some(k) => Some(hex_text(k as u64)),
                None => None,
            };
            append_word(&mut part, "/0x", digits);
            part
        },
    }
}

fn action_part(action: NetworkPolicyAction, table: u32) -> (r: String)
    ensures
        r@ == action_text(action, table),
{
    match action {
        NetworkPolicyAction::Lookup => {
            let mut part = " table ".to_owned();
            part.append(decimal_text(table as u64).as_str());
            part
        },
        NetworkPolicyAction::Blackhole => " blackhole".to_owned(),
        NetworkPolicyAction::Unreachable => " unreachable".to_owned(),
        NetworkPolicyAction::Prohibit => " prohibit".to_owned(),
    }
}

fn push_policy_rule_command(output: &mut String, operation: &str, rule: &NetworkPolicyRule)
    ensures
        final(output)@ == old(output)@ + rule_line(operation@, rule@),
{
    let mut line = match rule.family {
        NetworkFamily::Ipv4 => "-4".to_owned(),
        NetworkFamily::Ipv6 => "-6".to_owned(),
    };
    line.append(" rule ");
    line.append(operation);
    line.append(" priority ");
    line.append(decimal_text(rule.priority as u64).as_str());
    let source = match &rule.source {
        Some(n) => Some(n.text()),
        None => None,
    };
    append_word(&mut line, " from ", source);
    let destination = match &rule.destination {
        Some(n) => Some(n.text()),
        None => None,
    };
    append_word(&mut line, " to ", destination);
    append_word(&mut line, " iifname ", copy_opt(&rule.input_interface));
    append_word(&mut line, " oifname ", copy_opt(&rule.output_interface));
    line.append(mark_part(rule.fwmark, rule.fwmark_mask).as_str());
    line.append(action_part(rule.action, rule.table).as_str());
    line.append("\n");
    output.append(line.as_str());
}

fn push_runtime_command(output: &mut String, operation: &str, object: &NetworkObject)
    ensures
        final(output)@ == object_lines(old(output)@, operation@, object@),
{
    match object {
        NetworkObject::Interface(x) => push_interface_command(output, operation, x),
        NetworkObject::Route(x) => push_route_command(output, operation, x),
        NetworkObject::PolicyRule(x) => push_policy_rule_command(output, operation, x),
        _ => {},
    }
}

fn push_missing(
    output: &mut String,
    operation: &str,
    addresses: &Vec<IpNetwork>,
    other: &Vec<IpNetwork>,
    device: &str,
)
    ensures
        final(output)@ == missing_lines(
            old(output)@,
            operation@,
            addresses@,
            other@,
            device@,
            0,
        ),
{
    let ghost start = output@;
    proof {
        lemma_networks(other@);
    }
    let mut i: usize = 0;
    while i < addresses.len()
        invariant
            i <= addresses@.len(),
            views(other@) == other@,
            missing_lines(output@, operation@, addresses@, other@, device@, i as int)
                == missing_lines(start, operation@, addresses@, other@, device@, 0),
        decreases addresses@.len() - i,
    {
        if !has_item(other, &addresses[i]) {
            output.append(address_command(operation, &addresses[i], device).as_str());
        }
        i = i + 1;
    }
}

/// The batch behind a step that succeeded, or the error.
pub open spec fn batch_result(
    r: Result<(), RuntimeNetworkInventoryError>,
    batch: Seq<char>,
) -> Result<Seq<char>, RuntimeNetworkInventoryError> {
    match r {
        Ok(()) => Ok(batch),
        Err(e) => Err(e),
    }
}

fn push_interface_diff_command(
    output: &mut String,
    before: &NetworkInterfaceConfig,
    after: &NetworkInterfaceConfig,
) -> (r: Result<(), RuntimeNetworkInventoryError>)
    ensures
        batch_result(r, final(output)@) == profile_diff(old(output)@, before@, after@),
        r is Err ==> final(output)@ == old(output)@,
{
    let mut before_shape = before.twin();
    before_shape.addresses = Vec::new();
    let mut after_shape = after.twin();
    after_shape.addresses = Vec::new();
    assert(before_shape@ =~= bare(before@));
    assert(after_shape@ =~= bare(after@));
    if !before_shape.alike(&after_shape) {
        return Err(RuntimeNetworkInventoryError::InvalidPlan);
    }
    proof {
        lemma_networks(before.addresses@);
        lemma_networks(after.addresses@);
    }
    push_missing(
        output,
        "del",
        &before.addresses,
        &after.addresses,
        before.device.as_str(),
    );
    push_missing(
        output,
        "add",
        &after.addresses,
        &before.addresses,
        after.device.as_str(),
    );
    Ok(())
}

fn owned_side(o: &Option<NetworkObject>, checks: &ObjectChecks) -> (r: bool)
    ensures
        r == may_own(opt(*o), checks@),
{
    match o {
        Some(x) => require_owned_runtime_object(x, checks.digest.is_some()),
        None => true,
    }
}

fn push_replacement(
    output: &mut String,
    before: &Option<NetworkObject>,
    after: &Option<NetworkObject>,
    before_checks: &ObjectChecks,
    after_checks: &ObjectChecks,
) -> (r: Result<(), RuntimeNetworkInventoryError>)
    ensures
        batch_result(r, final(output)@) == replaced(
            old(output)@,
            opt(*before),
            opt(*after),
            before_checks@,
            after_checks@,
        ),
        r is Err ==> final(output)@ == old(output)@,
{
    if !owned_side(before, before_checks) || !owned_side(after, after_checks) {
        return Err(RuntimeNetworkInventoryError::InvalidPlan);
    }
    match (before, after) {
        (
            Some(NetworkObject::Interface(b)),
            Some(NetworkObject::Interface(a)),
        ) => push_interface_diff_command(output, b, a),
        _ => {
            if let Some(b) = before {
                push_runtime_command(output, "del", b);
            }
            if let Some(a) = after {
                push_runtime_command(output, "add", a);
            }
            Ok(())
        },
    }
}

/// Appends the commands that make a change, or nothing where the change is refused.
pub fn push_runtime_change(output: &mut String, change: &NetworkPlannedChange) -> (r: Result<
    (),
    RuntimeNetworkInventoryError,
>)
    ensures
        batch_result(r, final(output)@) == replaced(
            old(output)@,
            change@.before,
            change@.after,
            change@.before_checks,
            change@.after_checks,
        ),
        r is Err ==> final(output)@ == old(output)@,
{
    push_replacement(
        output,
        &change.before,
        &change.after,
        &change.before_checks,
        &change.after_checks,
    )
}

/// Appends the commands that undo a change, or nothing where the change is refused.
pub fn push_runtime_reverse_change(output: &mut String, change: &NetworkPlannedChange) -> (r: Result<
    (),
    RuntimeNetworkInventoryError,
>)
    ensures
        batch_result(r, final(output)@) == replaced(
            old(output)@,
            change@.after,
            change@.before,
            change@.after_checks,
            change@.before_checks,
        ),
        r is Err ==> final(output)@ == old(output)@,
{
    push_replacement(
        output,
        &change.after,
        &change.before,
        &change.after_checks,
        &change.before_checks,
    )
}

/// The view of a result that holds a text.
pub open spec fn text_result(r: Result<String, RuntimeNetworkInventoryError>) -> Result<
    Seq<char>,
    RuntimeNetworkInventoryError,
> {
    match r {
        Ok(s) => Ok(s@),
        Err(e) => Err(e),
    }
}

fn apply_batch(changes: &Vec<NetworkPlannedChange>) -> (r: Result<
    String,
    RuntimeNetworkInventoryError,
>)
    ensures
        text_result(r) == applied(Seq::empty(), views(changes@), 0),
{
    let ghost all = views(changes@);
    let mut output = String::new();
    let mut i: usize = 0;
    while i < changes.len()
        invariant
            i <= changes@.len(),
            all == views(changes@),
            applied(output@, all, i as int) == applied(Seq::empty(), all, 0),
        decreases changes@.len() - i,
    {
        assert(all[i as int] == changes@[i as int]@);
        match push_runtime_change(&mut output, &changes[i]) {
            Ok(()) => {},
            Err(e) => {
                return Err(e);
            },
        }
        i = i + 1;
    }
    Ok(output)
}

fn rollback_batch(changes: &Vec<NetworkPlannedChange>) -> (r: Result<
    String,
    RuntimeNetworkInventoryError,
>)
    ensures
        text_result(r) == reverted(Seq::empty(), views(changes@), changes@.len() as int),
{
    let ghost all = views(changes@);
    let mut output = String::new();
    let mut n: usize = changes.len();
    while n > 0
        invariant
            n <= changes@.len(),
            all == views(changes@),
            reverted(output@, all, n as int) == reverted(
                Seq::empty(),
                all,
                changes@.len() as int,
            ),
        decreases n,
    {
        assert(all[n - 1] == changes@[n - 1]@);
        match push_runtime_reverse_change(&mut output, &changes[n - 1]) {
            Ok(()) => {},
            Err(e) => {
                return Err(e);
            },
        }
        n = n - 1;
    }
    Ok(output)
}

fn keep_owned(objects: &Vec<NetworkObject>) -> (r: Vec<NetworkObject>)
    ensures
        views(r@) == owned_objects(views(objects@)),
{
    let ghost all = views(objects@);
    let ghost p = |o: NetworkObjectView| o.ownership() == ObjectOwnership::AgentOwned;
    let mut r: Vec<NetworkObject> = Vec::new();
    let mut i: usize = 0;
    proof {
        reveal(Seq::filter);
        assert(all.take(0) =~= Seq::empty());
    }
    while i < objects.len()
        invariant
            i <= objects@.len(),
            all == views(objects@),
            p == (|o: NetworkObjectView| o.ownership() == ObjectOwnership::AgentOwned),
            views(r@) == all.take(i as int).filter(p),
        decreases objects@.len() - i,
    {
        proof {
            reveal(Seq::filter);
            assert(all.take(i + 1).drop_last() =~= all.take(i as int));
            assert(all[i as int] == objects@[i as int]@);
        }
        if objects[i].ownership() == ObjectOwnership::AgentOwned {
            r.push(objects[i].twin());
        }
        i = i + 1;
    }
    assert(all.take(i as int) =~= all);
    r
}

fn valid_owned(objects: &Vec<NetworkObject>, valid: &[bool]) -> (r: bool)
    ensures
        r == owned_are_valid(views(objects@), valid@),
{
    let ghost all = views(objects@);
    let mut i: usize = 0;
    while i < objects.len()
        invariant
            i <= objects@.len(),
            all == views(objects@),
            forall|j: int|
                0 <= j < i && (#[trigger] all[j]).ownership() == ObjectOwnership::AgentOwned
                    ==> is_runtime_object(all[j], verdict_at(valid@, j)),
        decreases objects@.len() - i,
    {
        assert(all[i as int] == objects@[i as int]@);
        if objects[i].ownership() == ObjectOwnership::AgentOwned {
            let verdict = i < valid.len() && valid[i];
            if !require_owned_runtime_object(&objects[i], verdict) {
                assert(!is_runtime_object(all[i as int], verdict_at(valid@, i as int)));
                return false;
            }
        }
        i = i + 1;
    }
    true
}

fn projected_runtime_objects(objects: &Vec<NetworkObject>, valid: &[bool]) -> (r: Result<
    Vec<NetworkObject>,
    RuntimeNetworkInventoryError,
>)
    ensures
        lvres(r) == projected_objects(views(objects@), valid@),
{
    let owned = keep_owned(objects);
    if owned.len() > MAX_OBJECTS {
        return Err(RuntimeNetworkInventoryError::Capacity);
    }
    if valid_owned(objects, valid) && distinct_devices(&owned) {
        Ok(owned)
    } else {
        Err(RuntimeNetworkInventoryError::InvalidPlan)
    }
}

/// The view of an optional reference to an inventory.
pub open spec fn inventory_view(o: Option<&NetworkInventory>) -> Option<NetworkInventoryView> {
    match o {
        Some(i) => Some(i@),
        None => None,
    }
}

/// Renders a plan into the batches that apply it and undo it.
///
/// Only routes, reserved rules and interface profiles of the agent are accepted. The projection is
/// the inventory that the planner foresees, unless it refuses the plan, with the verdicts of the
/// object model on its objects.
pub fn render_runtime_route_stage(
    snapshot: &RuntimeRouteSnapshot,
    plan: &NetworkMutationPlan,
    projected: Option<&NetworkInventory>,
    valid: &[bool],
) -> (r: Result<RuntimeRouteDraft, RuntimeNetworkInventoryError>)
    ensures
        vres(r) == route_draft(
            snapshot@.boot_id,
            plan@.changes,
            inventory_view(projected),
            valid@,
        ),
{
    let projected = match projected {
        Some(p) => p,
        None => {
            return Err(RuntimeNetworkInventoryError::InvalidPlan);
        },
    };
    let objects = match projected_runtime_objects(&projected.objects, valid) {
        Ok(o) => o,
        Err(e) => {
            return Err(e);
        },
    };
    let (apply, rollback) = match (apply_batch(&plan.changes), rollback_batch(&plan.changes)) {
        (Ok(a), Ok(b)) => (a, b),
        _ => {
            return Err(RuntimeNetworkInventoryError::InvalidPlan);
        },
    };
    if chars_of(apply.as_str()).len() == 0 || byte_length(apply.as_str()) > MAX_BATCH_BYTES
        || byte_length(rollback.as_str()) > MAX_BATCH_BYTES {
        return Err(RuntimeNetworkInventoryError::Capacity);
    }
    let schema_version: u32 = if has_profile(&objects) {
        2
    } else {
        1
    };
    Ok(
        RuntimeRouteDraft {
            apply_batch: apply,
            rollback_batch: rollback,
            canonical: RuntimeRouteCanonicalState {
                schema_version,
                boot_id: snapshot.boot_id().clone(),
                inventory: NetworkInventory { objects },
            },
        },
    )
}

/// The stage that a draft becomes with the encoding of its record, where there is one that fits.
pub open spec fn sealed(draft: RuntimeRouteDraftView, encoded: Option<Seq<u8>>) -> Result<
    RuntimeRouteStageView,
    RuntimeNetworkInventoryError,
> {
    match encoded {
        None => Err(RuntimeNetworkInventoryError::StaleState),
        Some(bytes) => if bytes.len() > MAX_CANONICAL_BYTES {
            Err(RuntimeNetworkInventoryError::Capacity)
        } else {
            Ok(
                RuntimeRouteStageView {
                    apply_batch: draft.apply_batch,
                    rollback_batch: draft.rollback_batch,
                    projected_canonical_state: bytes,
                },
            )
        },
    }
}

/// Completes a draft with the encoding of its record.
pub fn seal_runtime_route_stage(draft: RuntimeRouteDraft, encoded: Option<Vec<u8>>) -> (r: Result<
    RuntimeRouteStage,
    RuntimeNetworkInventoryError,
>)
    ensures
        vres(r) == sealed(draft@, opt(encoded)),
{
    match encoded {
        None => Err(RuntimeNetworkInventoryError::StaleState),
        Some(bytes) => {
            if bytes.len() > MAX_CANONICAL_BYTES {
                return Err(RuntimeNetworkInventoryError::Capacity);
            }
            proof {
                lemma_bytes(bytes@);
            }
            Ok(
                RuntimeRouteStage {
                    apply_batch: draft.apply_batch,
                    rollback_batch: draft.rollback_batch,
                    projected_canonical_state: bytes,
                },
            )
        },
    }
}

} // verus!
