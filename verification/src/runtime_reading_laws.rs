//! What is read of the kernel's state: each object is read as what the kernel shows of it.

use vstd::prelude::*;

use crate::change::ObjectOwnership;
use crate::json::{field_from, JsonFieldView, JsonView};
use crate::net::{address_format, address_value, network_format, network_value, IpAddr, IpNetwork};
use crate::net_laws::{law_address_round_trips, law_network_round_trips};
use crate::network_model::{
    NetworkAddressMode, NetworkInterfaceConfigView, NetworkObjectView, NetworkRouteType, NetworkRouteView,
};
use crate::network_runtime::{
    any_v4, any_v6, digest_name, entries_of, entries_seen, entry_network, entry_seen, interface_value,
    is_name, is_owned_route, json_array_value, links_read, name_at, observed, objects_read, records_seen,
    route_identity, route_type_value, route_value, routes_read, runtime_inventory, table_value, unseen,
    ObservedView, RuntimeNetworkInventoryError,
};
use crate::number_laws::law_sized_numbers_round_trip;
use crate::parse::u32_value;
use crate::text::decimal;
use vstd::utf8::*;

verus! {

proof fn lemma_field(fields: Seq<JsonFieldView>, name: Seq<char>, from: int, i: int)
    requires
        0 <= from <= i < fields.len(),
        fields[i].name == name,
        forall|j: int| 0 <= j < i ==> (#[trigger] fields[j]).name != name,
    ensures
        field_from(fields, name, from) == Some(fields[i].value),
    decreases i - from,
{
    if from < i {
        lemma_field(fields, name, from + 1, i);
    }
}

proof fn lemma_no_field(fields: Seq<JsonFieldView>, name: Seq<char>, from: int)
    requires
        0 <= from,
        forall|j: int| 0 <= j < fields.len() ==> (#[trigger] fields[j]).name != name,
    ensures
        field_from(fields, name, from) is None,
    decreases fields.len() - from,
{
    if from < fields.len() {
        lemma_no_field(fields, name, from + 1);
    }
}

/// A field of an object is the value that stands under its name, the first of several, and there is none where
/// no field has the name or the value is no object. Its text, number, list or truth is there only where the
/// value is of that kind.
pub proof fn law_fields_are_found_by_name(fields: Seq<JsonFieldView>, name: Seq<char>, i: int)
    ensures
        ({
            let v = JsonView::Object(fields);
            &&& 0 <= i < fields.len() && fields[i].name == name && (forall|j: int|
                0 <= j < i ==> (#[trigger] fields[j]).name != name) ==> {
                &&& v.field(name) == Some(fields[i].value)
                &&& v.text_at(name) == (match fields[i].value {
                    JsonView::Text(s) => Some(s),
                    _ => None,
                })
                &&& v.number_at(name) == (match fields[i].value {
                    JsonView::Number(n) => n,
                    _ => None,
                })
                &&& v.list_at(name) == (match fields[i].value {
                    JsonView::List(l) => Some(l),
                    _ => None,
                })
                &&& v.true_at(name) <==> fields[i].value == JsonView::Bool(true)
            }
            &&& (forall|j: int| 0 <= j < fields.len() ==> (#[trigger] fields[j]).name != name) ==> {
                &&& v.field(name) is None
                &&& v.text_at(name) is None
                &&& v.number_at(name) is None
                &&& v.list_at(name) is None
                &&& !v.true_at(name)
            }
        }),
{
    if 0 <= i < fields.len() && fields[i].name == name && (forall|j: int|
        0 <= j < i ==> (#[trigger] fields[j]).name != name) {
        lemma_field(fields, name, 0, i);
    }
    if forall|j: int| 0 <= j < fields.len() ==> (#[trigger] fields[j]).name != name {
        lemma_no_field(fields, name, 0);
    }
}

/// A text as a value of a document.
pub open spec fn shown_text(s: Option<Seq<char>>) -> Option<JsonView> {
    match s {
        Some(x) => Some(JsonView::Text(x)),
        None => None,
    }
}

/// A number as a value of a document.
pub open spec fn shown_number(n: Option<u32>) -> Option<JsonView> {
    match n {
        Some(x) => Some(JsonView::Number(Some(x as u64))),
        None => None,
    }
}

/// An address as a value of a document.
pub open spec fn shown_address(a: Option<IpAddr>) -> Option<JsonView> {
    match a {
        Some(x) => Some(JsonView::Text(address_format(x))),
        None => None,
    }
}

/// Whether a record shows the destination of a route: by its text, or by the word for everything, and then by
/// its family or by its next hop where it is of the newer family.
pub open spec fn shows_destination(v: JsonView, r: NetworkRouteView) -> bool {
    ||| v.field("dst"@) == Some(JsonView::Text(network_format(r.destination)))
    ||| {
        &&& v.field("dst"@) is None || v.field("dst"@) == Some(JsonView::Text("default"@))
        &&& match r.destination.address {
            IpAddr::V4(a) => a == 0 && r.destination.prefix_len == 0 && v.field("family"@) is None
                && !(r.gateway matches Some(IpAddr::V6(_))),
            IpAddr::V6(a) => a == 0 && r.destination.prefix_len == 0 && (v.field("family"@) == Some(
                JsonView::Text("inet6"@),
            ) || r.gateway matches Some(IpAddr::V6(_))),
        }
    }
}

/// Whether a record shows the table of a route: by its number, as one or as a text, by one of three names, or
/// not at all where it is the main one.
pub open spec fn shows_table(v: JsonView, table: u32) -> bool {
    ||| v.field("table"@) == Some(JsonView::Number(Some(table as u64)))
    ||| v.field("table"@) == Some(JsonView::Text(decimal(table as nat)))
    ||| v.field("table"@) == Some(JsonView::Text("default"@)) && table == 253
    ||| v.field("table"@) == Some(JsonView::Text("main"@)) && table == 254
    ||| v.field("table"@) == Some(JsonView::Text("local"@)) && table == 255
    ||| v.field("table"@) is None && table == 254
}

/// Whether a record shows the type of a route.
pub open spec fn shows_type(v: JsonView, t: NetworkRouteType) -> bool {
    match t {
        NetworkRouteType::Unicast => v.field("type"@) is None || v.field("type"@) == Some(
            JsonView::Text("unicast"@),
        ),
        NetworkRouteType::Blackhole => v.field("type"@) == Some(JsonView::Text("blackhole"@)),
        NetworkRouteType::Unreachable => v.field("type"@) == Some(JsonView::Text("unreachable"@)),
        NetworkRouteType::Prohibit => v.field("type"@) == Some(JsonView::Text("prohibit"@)),
    }
}

/// Whether a record of the kernel shows a route with one next hop.
pub open spec fn shows_route(v: JsonView, r: NetworkRouteView) -> bool {
    &&& v.field("multipath"@) is None
    &&& v.field("nhid"@) is None
    &&& shows_destination(v, r)
    &&& shows_table(v, r.table)
    &&& shows_type(v, r.route_type)
    &&& v.field("gateway"@) == shown_address(r.gateway)
    &&& v.field("prefsrc"@) == shown_address(r.preferred_source)
    &&& v.field("dev"@) == shown_text(r.output_interface)
    &&& r.output_interface matches Some(s) ==> is_name(s)
    &&& v.field("metric"@) == shown_number(r.metric)
}

/// Whether two routes are the same but for their identities.
pub open spec fn is_same_but_identity(a: NetworkRouteView, b: NetworkRouteView) -> bool {
    &&& a.destination == b.destination
    &&& a.gateway == b.gateway
    &&& a.output_interface == b.output_interface
    &&& a.preferred_source == b.preferred_source
    &&& a.table == b.table
    &&& a.metric == b.metric
    &&& a.route_type == b.route_type
}

proof fn lemma_route_texts()
    ensures
        network_value("default"@) is None,
        u32_value("default"@) is None,
        u32_value("main"@) is None,
        u32_value("local"@) is None,
        "default"@ != "main"@,
        "default"@ != "local"@,
        "main"@ != "local"@,
        "unicast"@ != "blackhole"@,
        "unicast"@ != "unreachable"@,
        "unicast"@ != "prohibit"@,
        "blackhole"@ != "unreachable"@,
        "blackhole"@ != "prohibit"@,
        "unreachable"@ != "prohibit"@,
{
    reveal_strlit("default");
    reveal_strlit("main");
    reveal_strlit("local");
    reveal_strlit("unicast");
    reveal_strlit("blackhole");
    reveal_strlit("unreachable");
    reveal_strlit("prohibit");
    assert("default"@[0] == 'd' && "main"@[0] == 'm' && "local"@[0] == 'l');
    assert("default"@.len() == 7 && "main"@.len() == 4 && "local"@.len() == 5);
    assert("unicast"@.len() == 7 && "blackhole"@.len() == 9 && "unreachable"@.len() == 11
        && "prohibit"@.len() == 8);
    crate::text::lemma_find_from("default"@, '/', 0);
    assert(!crate::text::is_digit('d') && !crate::text::is_digit('m') && !crate::text::is_digit('l'));
}

proof fn lemma_not_a_word(s: Seq<char>, n: u32)
    requires
        s == decimal(n as nat),
    ensures
        s != "default"@,
        s != "main"@,
        s != "local"@,
{
    lemma_route_texts();
    law_sized_numbers_round_trip(0, 0, n);
}

/// A route that the kernel shows is read as that route: its destination, next hop, source, device, table, metric
/// and type. It is the platform's own and enabled, and its identity begins as those of the kernel's routes do.
pub proof fn law_shown_route_is_read(v: JsonView, r: NetworkRouteView)
    requires
        shows_route(v, r),
        digest_name("kernel-"@, encode_utf8(route_identity(r))) is Some,
    ensures
        route_value(v) matches Ok(Some(x)) && is_same_but_identity(x, r) && x.enabled && x.ownership
            == ObjectOwnership::PlatformNative && digest_name(
            "kernel-"@,
            encode_utf8(route_identity(r)),
        ) == Some(x.id),
{
    lemma_route_texts();
    law_network_round_trips(r.destination);
    if let Some(a) = r.gateway {
        law_address_round_trips(a);
    }
    if let Some(a) = r.preferred_source {
        law_address_round_trips(a);
    }
    law_sized_numbers_round_trip(0, 0, r.table);
    lemma_not_a_word(decimal(r.table as nat), r.table);
    assert(network_format(r.destination) != "default"@);
    assert(table_value(v.field("table"@)) == Some(r.table));
    assert(route_type_value(v.text_at("type"@)) == Some(r.route_type));
    let x = crate::network_runtime::route_fields(v);
    assert(x is Ok && x->Ok_0 is Some);
    let y = x->Ok_0->Some_0;
    assert(is_same_but_identity(y, r));
    assert(route_identity(y) == route_identity(r));
}

/// A route that cannot be understood is no route: a destination or a table that no text spells make the document
/// malformed, and a type that is not known leaves the route out.
pub proof fn law_unreadable_routes_are_refused(v: JsonView)
    requires
        v.field("multipath"@) is None,
        v.field("nhid"@) is None,
    ensures
        v.field("dst"@) matches Some(JsonView::Text(s)) && s != "default"@ && network_value(s) is None
            ==> route_value(v) == Err::<Option<NetworkRouteView>, RuntimeNetworkInventoryError>(
            RuntimeNetworkInventoryError::Malformed,
        ),
        v.field("table"@) matches Some(JsonView::Number(Some(n))) && n > u32::MAX ==> route_value(v)
            == Err::<Option<NetworkRouteView>, RuntimeNetworkInventoryError>(
            RuntimeNetworkInventoryError::Malformed,
        ),
        v.field("type"@) matches Some(JsonView::Text(t)) && t != "unicast"@ && t != "blackhole"@ && t
            != "unreachable"@ && t != "prohibit"@ ==> !(route_value(v) matches Ok(Some(_))),
{
}

/// Whether a record marks a route as the agent's: by the number of its protocol, as one or as a text.
pub open spec fn is_marked_route(v: JsonView) -> bool {
    v.field("protocol"@) == Some(JsonView::Number(Some(186))) || v.field("protocol"@) == Some(
        JsonView::Text("186"@),
    )
}

proof fn lemma_routes_kept(objects: Seq<NetworkObjectView>, routes: Seq<JsonView>, i: int, o: NetworkObjectView)
    requires
        objects.contains(o),
        routes_read(objects, routes, i) is Ok,
    ensures
        routes_read(objects, routes, i)->Ok_0.contains(o),
    decreases routes.len() - i,
{
    if 0 <= i < routes.len() {
        if is_owned_route(routes[i]) {
            lemma_routes_kept(objects, routes, i + 1, o);
        } else {
            match route_value(routes[i]) {
                Ok(Some(route)) => {
                    let next = objects.push(NetworkObjectView::Route(route));
                    let k = choose|k: int| 0 <= k < objects.len() && objects[k] == o;
                    assert(next[k] == o);
                    lemma_routes_kept(next, routes, i + 1, o);
                },
                Ok(None) => {
                    lemma_routes_kept(objects, routes, i + 1, o);
                },
                Err(_) => {},
            }
        }
    }
}

proof fn lemma_routes_found(
    objects: Seq<NetworkObjectView>,
    routes: Seq<JsonView>,
    i: int,
    k: int,
)
    requires
        0 <= i <= k < routes.len(),
        routes_read(objects, routes, i) is Ok,
        !is_owned_route(routes[k]),
        route_value(routes[k]) matches Ok(Some(_)),
    ensures
        routes_read(objects, routes, i)->Ok_0.contains(
            NetworkObjectView::Route(route_value(routes[k])->Ok_0->Some_0),
        ),
    decreases k - i,
{
    if i < k {
        if is_owned_route(routes[i]) {
            lemma_routes_found(objects, routes, i + 1, k);
        } else {
            match route_value(routes[i]) {
                Ok(Some(route)) => {
                    lemma_routes_found(objects.push(NetworkObjectView::Route(route)), routes, i + 1, k);
                },
                Ok(None) => {
                    lemma_routes_found(objects, routes, i + 1, k);
                },
                Err(_) => {},
            }
        }
    } else {
        let o = NetworkObjectView::Route(route_value(routes[k])->Ok_0->Some_0);
        let next = objects.push(o);
        assert(next[objects.len() as int] == o);
        lemma_routes_kept(next, routes, k + 1, o);
    }
}

proof fn lemma_routes_origin(objects: Seq<NetworkObjectView>, routes: Seq<JsonView>, i: int, o: NetworkObjectView)
    requires
        0 <= i,
        routes_read(objects, routes, i) is Ok,
        routes_read(objects, routes, i)->Ok_0.contains(o),
    ensures
        objects.contains(o) || exists|k: int|
            i <= k < routes.len() && !is_owned_route(#[trigger] routes[k]) && (route_value(
                routes[k],
            ) matches Ok(Some(r)) && o == NetworkObjectView::Route(r)),
    decreases routes.len() - i,
{
    if i < routes.len() {
        if is_owned_route(routes[i]) {
            lemma_routes_origin(objects, routes, i + 1, o);
        } else {
            match route_value(routes[i]) {
                Ok(Some(route)) => {
                    let next = objects.push(NetworkObjectView::Route(route));
                    lemma_routes_origin(next, routes, i + 1, o);
                    if next.contains(o) && !objects.contains(o) {
                        let k = choose|k: int| 0 <= k < next.len() && next[k] == o;
                        if k < objects.len() {
                            assert(objects[k] == o);
                        }
                        assert(o == NetworkObjectView::Route(route));
                        assert(!is_owned_route(routes[i]));
                    }
                },
                Ok(None) => {
                    lemma_routes_origin(objects, routes, i + 1, o);
                },
                Err(_) => {},
            }
        }
    }
}

/// Whether an entry of an interface gives an address: by its text, with a prefix length that its family has.
pub open spec fn gives(entry: JsonView, n: IpNetwork) -> bool {
    &&& entry.text_at("local"@) is Some
    &&& address_value(entry.text_at("local"@)->Some_0) == Some(n.address)
    &&& entry.number_at("prefixlen"@) == Some(n.prefix_len as u64)
    &&& n.prefix_len <= (match n.address {
        IpAddr::V4(_) => 32u8,
        IpAddr::V6(_) => 128u8,
    })
}

/// Whether an entry says that its address was leased or is temporary.
pub open spec fn is_leased(entry: JsonView) -> bool {
    entry.field("dynamic"@) == Some(JsonView::Bool(true)) || entry.field("temporary"@) == Some(
        JsonView::Bool(true),
    )
}

proof fn lemma_entry(entry: JsonView, n: IpNetwork)
    ensures
        entry_network(entry) == Some(n) <==> gives(entry, n),
{
}

/// The entry of an interface at an index of the addresses of a record.
pub open spec fn entry_at(records: Seq<JsonView>, name: Seq<char>, i: int, j: int) -> Option<JsonView> {
    if 0 <= i < records.len() && records[i].text_at("ifname"@) == Some(name) && records[i].list_at(
        "addr_info"@,
    ) is Some && 0 <= j < records[i].list_at("addr_info"@)->Some_0.len() {
        Some(records[i].list_at("addr_info"@)->Some_0[j])
    } else {
        None
    }
}

/// Whether the records from `from` on have an entry of an interface that gives an address.
pub open spec fn is_given_from(records: Seq<JsonView>, name: Seq<char>, from: int, n: IpNetwork) -> bool {
    exists|i: int, j: int|
        i >= from && (#[trigger] entry_at(records, name, i, j)) is Some && gives(
            entry_at(records, name, i, j)->Some_0,
            n,
        )
}

/// Whether the records from `from` on have an entry of an interface that gives a leased address of a family.
pub open spec fn is_leased_from(records: Seq<JsonView>, name: Seq<char>, from: int, v6: bool) -> bool {
    exists|i: int, j: int, n: IpNetwork|
        #![trigger entry_at(records, name, i, j), has_family(n, v6)]
        i >= from && entry_at(records, name, i, j) is Some && gives(entry_at(records, name, i, j)->Some_0, n)
            && is_leased(entry_at(records, name, i, j)->Some_0) && has_family(n, v6)
}

/// Whether an address is of the newer family, or of the older one.
pub open spec fn has_family(n: IpNetwork, v6: bool) -> bool {
    (n.address is V6) == v6
}

/// Whether the records give an interface an address.
pub open spec fn is_given(records: Seq<JsonView>, name: Seq<char>, n: IpNetwork) -> bool {
    is_given_from(records, name, 0, n)
}

/// Whether the records give an interface an address of a family.
pub open spec fn has_address(records: Seq<JsonView>, name: Seq<char>, v6: bool) -> bool {
    exists|n: IpNetwork| #[trigger] has_family(n, v6) && is_given(records, name, n)
}

/// Whether the records give an interface a leased or temporary address of a family.
pub open spec fn has_leased_address(records: Seq<JsonView>, name: Seq<char>, v6: bool) -> bool {
    is_leased_from(records, name, 0, v6)
}

/// Whether what was seen holds of a leased family.
pub open spec fn seen_leased(o: ObservedView, v6: bool) -> bool {
    if v6 {
        o.dynamic_v6
    } else {
        o.dynamic_v4
    }
}

proof fn lemma_one_entry(o: ObservedView, e: JsonView, n: IpNetwork, v6: bool)
    ensures
        entry_seen(o, e).addresses.contains(n) <==> o.addresses.contains(n) || gives(e, n),
        seen_leased(entry_seen(o, e), v6) <==> seen_leased(o, v6) || (is_leased(e) && exists|m: IpNetwork|
            #[trigger] has_family(m, v6) && gives(e, m)),
        o.addresses.no_duplicates() ==> entry_seen(o, e).addresses.no_duplicates(),
{
    lemma_entry(e, n);
    if let Some(m) = entry_network(e) {
        lemma_entry(e, m);
        assert(has_family(m, m.address is V6));
        assert forall|x: IpNetwork| gives(e, x) implies x == m by {
            lemma_entry(e, x);
        }
        if !o.addresses.contains(m) {
            let p = o.addresses.push(m);
            assert(p[o.addresses.len() as int] == m);
            if o.addresses.contains(n) {
                let k = choose|k: int| 0 <= k < o.addresses.len() && o.addresses[k] == n;
                assert(p[k] == n);
            }
            if p.contains(n) && m != n {
                let k = choose|k: int| 0 <= k < p.len() && p[k] == n;
                assert(o.addresses[k] == n);
            }
        }
    } else {
        assert forall|x: IpNetwork| !gives(e, x) by {
            lemma_entry(e, x);
        }
    }
}

/// Whether the entries from `from` on give an address.
pub open spec fn entries_give(entries: Seq<JsonView>, from: int, n: IpNetwork) -> bool {
    exists|k: int| from <= k < entries.len() && gives(#[trigger] entries[k], n)
}

/// Whether the entries from `from` on give a leased address of a family.
pub open spec fn entries_lease(entries: Seq<JsonView>, from: int, v6: bool) -> bool {
    exists|k: int, m: IpNetwork|
        #![trigger entries[k], has_family(m, v6)]
        from <= k < entries.len() && gives(entries[k], m) && is_leased(entries[k]) && has_family(m, v6)
}

proof fn lemma_entries(o: ObservedView, entries: Seq<JsonView>, j: int, n: IpNetwork, v6: bool)
    requires
        0 <= j,
    ensures
        entries_seen(o, entries, j).addresses.contains(n) <==> o.addresses.contains(n) || entries_give(
            entries,
            j,
            n,
        ),
        seen_leased(entries_seen(o, entries, j), v6) <==> seen_leased(o, v6) || entries_lease(entries, j, v6),
        o.addresses.no_duplicates() ==> entries_seen(o, entries, j).addresses.no_duplicates(),
    decreases entries.len() - j,
{
    if j < entries.len() {
        let e = entries[j];
        lemma_one_entry(o, e, n, v6);
        lemma_entries(entry_seen(o, e), entries, j + 1, n, v6);
        if entries_give(entries, j, n) {
            let k = choose|k: int| j <= k < entries.len() && gives(#[trigger] entries[k], n);
            assert(k == j || entries_give(entries, j + 1, n));
        }
        if entries_lease(entries, j, v6) {
            let (k, m) = choose|k: int, m: IpNetwork|
                #![trigger entries[k], has_family(m, v6)]
                j <= k < entries.len() && gives(entries[k], m) && is_leased(entries[k]) && has_family(m, v6);
            assert(k == j || entries_lease(entries, j + 1, v6));
        }
        if is_leased(e) && exists|m: IpNetwork| #[trigger] has_family(m, v6) && gives(e, m) {
            let m = choose|m: IpNetwork| #[trigger] has_family(m, v6) && gives(e, m);
            assert(entries_lease(entries, j, v6));
        }
        if gives(e, n) {
            assert(entries_give(entries, j, n));
        }
    }
}

pub proof fn lemma_records(o: ObservedView, records: Seq<JsonView>, name: Seq<char>, i: int, n: IpNetwork, v6: bool)
    requires
        0 <= i,
        is_name(name),
    ensures
        records_seen(o, records, name, i).addresses.contains(n) <==> o.addresses.contains(n) || is_given_from(
            records,
            name,
            i,
            n,
        ),
        seen_leased(records_seen(o, records, name, i), v6) <==> seen_leased(o, v6) || is_leased_from(
            records,
            name,
            i,
            v6,
        ),
        o.addresses.no_duplicates() ==> records_seen(o, records, name, i).addresses.no_duplicates(),
    decreases records.len() - i,
{
    if i < records.len() {
        match entries_of(records[i], name) {
            None => {
                assert forall|j: int| entry_at(records, name, i, j) is None by {}
                lemma_records(o, records, name, i + 1, n, v6);
                lemma_from(records, name, i, n, v6);
            },
            Some(entries) => {
                let next = entries_seen(o, entries, 0);
                lemma_entries(o, entries, 0, n, v6);
                lemma_records(next, records, name, i + 1, n, v6);
                lemma_from(records, name, i, n, v6);
                assert forall|j: int| 0 <= j < entries.len() implies #[trigger] entry_at(records, name, i, j)
                    == Some(entries[j]) by {}
                if entries_give(entries, 0, n) {
                    let k = choose|k: int| 0 <= k < entries.len() && gives(#[trigger] entries[k], n);
                    assert(entry_at(records, name, i, k) is Some);
                }
                if entries_lease(entries, 0, v6) {
                    let (k, m) = choose|k: int, m: IpNetwork|
                        #![trigger entries[k], has_family(m, v6)]
                        0 <= k < entries.len() && gives(entries[k], m) && is_leased(entries[k]) && has_family(
                            m,
                            v6,
                        );
                    assert(entry_at(records, name, i, k) is Some);
                }
            },
        }
    } else {
        assert forall|p: int, q: int| p >= i implies (#[trigger] entry_at(records, name, p, q)) is None by {}
    }
}

/// What is given from a record on is given by the record or from the next one on.
proof fn lemma_from(records: Seq<JsonView>, name: Seq<char>, i: int, n: IpNetwork, v6: bool)
    ensures
        is_given_from(records, name, i, n) <==> is_given_from(records, name, i + 1, n) || exists|j: int|
            (#[trigger] entry_at(records, name, i, j)) is Some && gives(
                entry_at(records, name, i, j)->Some_0,
                n,
            ),
        is_leased_from(records, name, i, v6) <==> is_leased_from(records, name, i + 1, v6) || exists|
            j: int,
            m: IpNetwork,
        |
            #![trigger entry_at(records, name, i, j), has_family(m, v6)]
            entry_at(records, name, i, j) is Some && gives(entry_at(records, name, i, j)->Some_0, m)
                && is_leased(entry_at(records, name, i, j)->Some_0) && has_family(m, v6),
{
    if is_given_from(records, name, i, n) {
        let (p, q) = choose|p: int, q: int|
            p >= i && (#[trigger] entry_at(records, name, p, q)) is Some && gives(
                entry_at(records, name, p, q)->Some_0,
                n,
            );
        assert(p == i || p >= i + 1);
    }
    if is_leased_from(records, name, i, v6) {
        let (p, q, m) = choose|p: int, q: int, m: IpNetwork|
            #![trigger entry_at(records, name, p, q), has_family(m, v6)]
            p >= i && entry_at(records, name, p, q) is Some && gives(entry_at(records, name, p, q)->Some_0, m)
                && is_leased(entry_at(records, name, p, q)->Some_0) && has_family(m, v6);
        assert(p == i || p >= i + 1);
    }
}

/// Whether an interface is reported as a link and the address records show it.
///
/// A family with a leased address is configured by the network, one with addresses of which none is leased by
/// hand, and one without any is off. The addresses are those of the families that are configured by hand, each
/// once. The interface is enabled where the link has the flag for it.
pub open spec fn reports(
    c: NetworkInterfaceConfigView,
    name: Seq<char>,
    link: JsonView,
    records: Seq<JsonView>,
) -> bool {
    &&& c.id == name
    &&& c.device == name
    &&& c.ownership == ObjectOwnership::PlatformNative
    &&& c.ipv4_mode == NetworkAddressMode::Dhcp <==> has_leased_address(records, name, false)
    &&& c.ipv4_mode == NetworkAddressMode::Static <==> has_address(records, name, false)
        && !has_leased_address(records, name, false)
    &&& c.ipv4_mode == NetworkAddressMode::Disabled <==> !has_address(records, name, false)
    &&& c.ipv6_mode == NetworkAddressMode::Automatic <==> has_leased_address(records, name, true)
    &&& c.ipv6_mode == NetworkAddressMode::Static <==> has_address(records, name, true)
        && !has_leased_address(records, name, true)
    &&& c.ipv6_mode == NetworkAddressMode::Disabled <==> !has_address(records, name, true)
    &&& forall|n: IpNetwork| #[trigger]
        c.addresses.contains(n) <==> is_given(records, name, n) && !has_leased_address(
            records,
            name,
            n.address is V6,
        )
    &&& c.addresses.no_duplicates()
    &&& c.enabled <==> link.list_at("flags"@) is Some && exists|i: int|
        0 <= i < link.list_at("flags"@)->Some_0.len() && #[trigger] link.list_at("flags"@)->Some_0[i]
            == JsonView::Text("UP"@)
    &&& c.mtu == (match link.number_at("mtu"@) {
        Some(n) if n <= u32::MAX => Some(n as u32),
        _ => None,
    })
    &&& c.mac_override is None
    &&& c.peerdns
    &&& c.dns_servers.len() == 0
    &&& c.dns_search.len() == 0
    &&& c.dhcp_client_id is None
    &&& c.dhcp_vendor_id is None
    &&& c.dhcp_hostname is None
    &&& c.dhcp_request_options.len() == 0
    &&& !c.dhcp_no_release
    &&& c.dhcp_server is None
}

proof fn lemma_any(s: Seq<IpNetwork>)
    ensures
        any_v4(s) <==> exists|n: IpNetwork| #[trigger] has_family(n, false) && s.contains(n),
        any_v6(s) <==> exists|n: IpNetwork| #[trigger] has_family(n, true) && s.contains(n),
{
    if any_v4(s) {
        let i = choose|i: int| 0 <= i < s.len() && (#[trigger] s[i]).address is V4;
        assert(has_family(s[i], false) && s.contains(s[i]));
    }
    if any_v6(s) {
        let i = choose|i: int| 0 <= i < s.len() && (#[trigger] s[i]).address is V6;
        assert(has_family(s[i], true) && s.contains(s[i]));
    }
    if exists|n: IpNetwork| #[trigger] has_family(n, false) && s.contains(n) {
        let n = choose|n: IpNetwork| #[trigger] has_family(n, false) && s.contains(n);
        let i = choose|i: int| 0 <= i < s.len() && s[i] == n;
        assert(s[i].address is V4);
    }
    if exists|n: IpNetwork| #[trigger] has_family(n, true) && s.contains(n) {
        let n = choose|n: IpNetwork| #[trigger] has_family(n, true) && s.contains(n);
        let i = choose|i: int| 0 <= i < s.len() && s[i] == n;
        assert(s[i].address is V6);
    }
}

pub proof fn lemma_filter_holds<A>(s: Seq<A>, f: spec_fn(A) -> bool, a: A)
    ensures
        s.filter(f).contains(a) <==> s.contains(a) && f(a),
        s.no_duplicates() ==> s.filter(f).no_duplicates(),
    decreases s.len(),
{
    reveal_with_fuel(Seq::filter, 2);
    if s.len() > 0 {
        let t = s.drop_last();
        lemma_filter_holds(t, f, a);
        assert(s.contains(a) <==> t.contains(a) || s.last() == a) by {
            if s.contains(a) {
                let k = choose|k: int| 0 <= k < s.len() && s[k] == a;
                if k < t.len() {
                    assert(t[k] == a);
                }
            }
            if t.contains(a) {
                let k = choose|k: int| 0 <= k < t.len() && t[k] == a;
                assert(s[k] == a);
            }
            assert(s[s.len() - 1] == s.last());
        }
        if f(s.last()) {
            let p = t.filter(f).push(s.last());
            assert(s.filter(f) =~= p);
            assert(p.contains(a) <==> t.filter(f).contains(a) || s.last() == a) by {
                if p.contains(a) {
                    let k = choose|k: int| 0 <= k < p.len() && p[k] == a;
                    if k < t.filter(f).len() {
                        assert(t.filter(f)[k] == a);
                    }
                }
                if t.filter(f).contains(a) {
                    let k = choose|k: int| 0 <= k < t.filter(f).len() && t.filter(f)[k] == a;
                    assert(p[k] == a);
                }
                assert(p[t.filter(f).len() as int] == s.last());
            }
            if s.no_duplicates() {
                lemma_filter_holds(t, f, s.last());
                if t.contains(s.last()) {
                    let k = choose|k: int| 0 <= k < t.len() && t[k] == s.last();
                    assert(s[k] == s[s.len() - 1]);
                }
            }
        }
    }
}

/// An interface is reported as its link and the address records show it. So one with a leased or temporary
/// address of the newer family is reported as configured automatically, and as configured by hand only where no
/// address of the family is leased.
pub proof fn law_interfaces_are_reported_as_shown(name: Seq<char>, link: JsonView, records: Seq<JsonView>)
    requires
        is_name(name),
    ensures
        reports(interface_value(name, link, observed(records, name)), name, link, records),
{
    let o = observed(records, name);
    let c = interface_value(name, link, o);
    let f = |n: IpNetwork| crate::network_runtime::is_kept(o, n);
    assert forall|n: IpNetwork| #[trigger] o.addresses.contains(n) <==> is_given(records, name, n) by {
        lemma_records(unseen(), records, name, 0, n, true);
    }
    let any = IpNetwork { address: IpAddr::V4(0), prefix_len: 0 };
    lemma_records(unseen(), records, name, 0, any, true);
    lemma_records(unseen(), records, name, 0, any, false);
    lemma_any(o.addresses);
    lemma_given_leased(records, name, true);
    lemma_given_leased(records, name, false);
    assert(any_v4(o.addresses) <==> has_address(records, name, false)) by {
        if has_address(records, name, false) {
            let n = choose|n: IpNetwork| #[trigger] has_family(n, false) && is_given(records, name, n);
            assert(o.addresses.contains(n));
        }
    }
    assert(any_v6(o.addresses) <==> has_address(records, name, true)) by {
        if has_address(records, name, true) {
            let n = choose|n: IpNetwork| #[trigger] has_family(n, true) && is_given(records, name, n);
            assert(o.addresses.contains(n));
        }
    }
    assert forall|n: IpNetwork| #[trigger] c.addresses.contains(n) <==> is_given(records, name, n)
        && !has_leased_address(records, name, n.address is V6) by {
        lemma_filter_holds(o.addresses, f, n);
        assert(o.addresses.contains(n) <==> is_given(records, name, n));
    }
    lemma_filter_holds(o.addresses, f, any);
    if let Some(flags) = link.list_at("flags"@) {
        if flags.contains(JsonView::Text("UP"@)) {
            let i = choose|i: int| 0 <= i < flags.len() && flags[i] == JsonView::Text("UP"@);
            assert(link.list_at("flags"@)->Some_0[i] == JsonView::Text("UP"@));
        }
    }
}

proof fn lemma_given_leased(records: Seq<JsonView>, name: Seq<char>, v6: bool)
    ensures
        has_leased_address(records, name, v6) ==> has_address(records, name, v6),
{
    if has_leased_address(records, name, v6) {
        let (p, q, m) = choose|p: int, q: int, m: IpNetwork|
            #![trigger entry_at(records, name, p, q), has_family(m, v6)]
            p >= 0 && entry_at(records, name, p, q) is Some && gives(entry_at(records, name, p, q)->Some_0, m)
                && is_leased(entry_at(records, name, p, q)->Some_0) && has_family(m, v6);
        assert(has_family(m, v6) && is_given(records, name, m));
    }
}

proof fn lemma_links(
    objects: Seq<NetworkObjectView>,
    links: Seq<JsonView>,
    records: Seq<JsonView>,
    i: int,
)
    requires
        0 <= i <= links.len(),
        links_read(objects, links, records, i) is Ok,
    ensures
        ({
            let r = links_read(objects, links, records, i)->Ok_0;
            &&& r.len() == objects.len() + links.len() - i
            &&& forall|k: int| 0 <= k < objects.len() ==> #[trigger] r[k] == objects[k]
            &&& forall|k: int|
                i <= k < links.len() ==> name_at(#[trigger] links[k], "ifname"@) is Some && r[k - i
                    + objects.len()] == NetworkObjectView::Interface(
                    interface_value(
                        name_at(links[k], "ifname"@)->Some_0,
                        links[k],
                        observed(records, name_at(links[k], "ifname"@)->Some_0),
                    ),
                )
        }),
    decreases links.len() - i,
{
    if i < links.len() {
        let name = name_at(links[i], "ifname"@)->Some_0;
        let next = objects.push(
            NetworkObjectView::Interface(interface_value(name, links[i], observed(records, name))),
        );
        lemma_links(next, links, records, i + 1);
        let r = links_read(objects, links, records, i)->Ok_0;
        assert(r == links_read(next, links, records, i + 1)->Ok_0);
        assert(r[objects.len() as int] == next[objects.len() as int]);
        assert forall|k: int| 0 <= k < objects.len() implies #[trigger] r[k] == objects[k] by {
            assert(next[k] == objects[k]);
        }
        assert forall|k: int| i <= k < links.len() implies name_at(#[trigger] links[k], "ifname"@) is Some
            && r[k - i + objects.len()] == NetworkObjectView::Interface(
            interface_value(
                name_at(links[k], "ifname"@)->Some_0,
                links[k],
                observed(records, name_at(links[k], "ifname"@)->Some_0),
            ),
        ) by {
            if k > i {
                assert(k - (i + 1) + next.len() == k - i + objects.len());
            }
        }
    }
}

proof fn lemma_routes_prefix(objects: Seq<NetworkObjectView>, routes: Seq<JsonView>, i: int)
    requires
        0 <= i,
        routes_read(objects, routes, i) is Ok,
    ensures
        ({
            let r = routes_read(objects, routes, i)->Ok_0;
            &&& r.len() >= objects.len()
            &&& forall|k: int| 0 <= k < objects.len() ==> #[trigger] r[k] == objects[k]
            &&& forall|k: int| objects.len() <= k < r.len() ==> (#[trigger] r[k]) is Route
        }),
    decreases routes.len() - i,
{
    if i < routes.len() {
        if is_owned_route(routes[i]) {
            lemma_routes_prefix(objects, routes, i + 1);
        } else {
            match route_value(routes[i]) {
                Ok(Some(route)) => {
                    let next = objects.push(NetworkObjectView::Route(route));
                    lemma_routes_prefix(next, routes, i + 1);
                    let r = routes_read(objects, routes, i)->Ok_0;
                    assert(r == routes_read(next, routes, i + 1)->Ok_0);
                    assert(r[objects.len() as int] == next[objects.len() as int]);
                    assert forall|k: int| 0 <= k < objects.len() implies #[trigger] r[k] == objects[k] by {
                        assert(next[k] == objects[k]);
                    }
                },
                Ok(None) => {
                    lemma_routes_prefix(objects, routes, i + 1);
                },
                Err(_) => {},
            }
        }
    }
}

/// An inventory of the running network holds the interface of each link, in their order and reported as the
/// records show it, and behind them the routes that the records show and that are not the agent's.
pub proof fn law_inventory_reports_what_is_shown(
    links: Seq<JsonView>,
    records: Seq<JsonView>,
    routes: Seq<JsonView>,
    k: int,
    o: NetworkObjectView,
)
    requires
        objects_read(links, records, routes) is Ok,
    ensures
        ({
            let objects = objects_read(links, records, routes)->Ok_0;
            &&& objects.len() >= links.len()
            &&& 0 <= k < links.len() ==> {
                &&& links[k].text_at("ifname"@) is Some
                &&& objects[k] matches NetworkObjectView::Interface(c) && reports(
                    c,
                    links[k].text_at("ifname"@)->Some_0,
                    links[k],
                    records,
                )
            }
            &&& links.len() <= k < objects.len() ==> objects[k] is Route
            &&& 0 <= k < routes.len() && !is_marked_route(routes[k]) ==> match route_value(routes[k]) {
                Ok(Some(r)) => objects.contains(NetworkObjectView::Route(r)),
                Ok(None) => true,
                Err(_) => false,
            }
            &&& objects.contains(o) && o is Route ==> exists|i: int|
                0 <= i < routes.len() && !is_marked_route(#[trigger] routes[i]) && (route_value(
                    routes[i],
                ) matches Ok(Some(r)) && o == NetworkObjectView::Route(r))
        }),
{
    let first = links_read(Seq::empty(), links, records, 0)->Ok_0;
    let objects = objects_read(links, records, routes)->Ok_0;
    lemma_links(Seq::empty(), links, records, 0);
    lemma_routes_prefix(first, routes, 0);
    if 0 <= k < links.len() {
        let name = name_at(links[k], "ifname"@)->Some_0;
        assert(first[k] == first[k - 0 + 0]);
        assert(objects[k] == first[k]);
        law_interfaces_are_reported_as_shown(name, links[k], records);
    }
    if 0 <= k < routes.len() {
        lemma_marked(routes[k]);
        if !is_marked_route(routes[k]) {
            lemma_routes_readable(first, routes, 0, k);
            if route_value(routes[k]) matches Ok(Some(_)) {
                lemma_routes_found(first, routes, 0, k);
            }
        }
    }
    if objects.contains(o) && o is Route {
        lemma_routes_origin(first, routes, 0, o);
        if first.contains(o) {
            let i = choose|i: int| 0 <= i < first.len() && first[i] == o;
            assert(name_at(links[i], "ifname"@) is Some);
            assert(first[i - 0 + 0] is Interface);
        }
        let i = choose|i: int|
            0 <= i < routes.len() && !is_owned_route(#[trigger] routes[i]) && (route_value(
                routes[i],
            ) matches Ok(Some(r)) && o == NetworkObjectView::Route(r));
        lemma_marked(routes[i]);
    }
}

pub proof fn lemma_marked(v: JsonView)
    ensures
        is_owned_route(v) == is_marked_route(v),
{
}

proof fn lemma_routes_readable(objects: Seq<NetworkObjectView>, routes: Seq<JsonView>, i: int, k: int)
    requires
        0 <= i <= k < routes.len(),
        routes_read(objects, routes, i) is Ok,
        !is_owned_route(routes[k]),
    ensures
        route_value(routes[k]) is Ok,
    decreases k - i,
{
    if i < k {
        if is_owned_route(routes[i]) {
            lemma_routes_readable(objects, routes, i + 1, k);
        } else {
            match route_value(routes[i]) {
                Ok(Some(route)) => {
                    lemma_routes_readable(objects.push(NetworkObjectView::Route(route)), routes, i + 1, k);
                },
                Ok(None) => {
                    lemma_routes_readable(objects, routes, i + 1, k);
                },
                Err(_) => {},
            }
        }
    }
}

/// The inventory of three documents reports what is shown, and it is there only where the object model accepts
/// each object.
pub proof fn law_runtime_inventory_is_what_is_shown(
    links: Seq<char>,
    addresses: Seq<char>,
    routes: Seq<char>,
    valid: Seq<bool>,
    k: int,
)
    requires
        runtime_inventory(links, addresses, routes, valid) is Ok,
    ensures
        ({
            let l = json_array_value(links);
            let a = json_array_value(addresses);
            let r = json_array_value(routes);
            let objects = runtime_inventory(links, addresses, routes, valid)->Ok_0.objects;
            &&& l is Ok && a is Ok && r is Ok
            &&& objects_read(l->Ok_0, a->Ok_0, r->Ok_0) == Ok::<
                Seq<NetworkObjectView>,
                RuntimeNetworkInventoryError,
            >(objects)
            &&& 0 <= k < objects.len() ==> k < valid.len() && valid[k]
            &&& 0 <= k < l->Ok_0.len() ==> {
                &&& l->Ok_0[k].text_at("ifname"@) is Some
                &&& objects[k] matches NetworkObjectView::Interface(c) && reports(
                    c,
                    l->Ok_0[k].text_at("ifname"@)->Some_0,
                    l->Ok_0[k],
                    a->Ok_0,
                )
            }
        }),
{
    let l = json_array_value(links)->Ok_0;
    let a = json_array_value(addresses)->Ok_0;
    let r = json_array_value(routes)->Ok_0;
    let objects = runtime_inventory(links, addresses, routes, valid)->Ok_0.objects;
    law_inventory_reports_what_is_shown(l, a, r, k, objects[k]);
    if 0 <= k < objects.len() {
        assert(crate::network_openwrt::verdict_at(valid, k));
    }
}

} // verus!
