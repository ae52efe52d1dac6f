//! What is restored for absent chains can be saved, and is then recognised as the agent's.

use vstd::prelude::*;

use crate::firewall_iptables::{
    addressed, all_filtered, all_matched, all_translated, all_zone_lines, alternatives, branched, chain_of,
    context_of, counted, crossed, declare_line, empty_context, endpoint, entry_text, family_state, filtered,
    fitting_protocols, flagged, flagged_bytes, flagged_networks, flagged_ports, flagged_protocols,
    forward_line, forwarded, forwarded_from, forwarded_to, hook_line, icmp_flag, iptables_stage,
    is_double_quotable, is_malformed, is_prerouting, level_name, limit_text, log_line, logged,
    masquerade_line, matched, mtu_line, nat_chain, owned_chains, placed, policies, policy, policy_line,
    port_text, protocol_name, rule_line, set_expanded, set_from, set_options, state_name, states_text,
    target_of, translated, translation, transported, unsupported, with_dimension, with_object, with_sets,
    with_some_dimension, written, zone_lines, zone_policies, DraftView, ExpandedSetView, IpFamily,
    IptablesFamilyState, IptablesRenderErrorView, RenderContextView,
};
use crate::firewall_model::{
    FirewallConntrackState, FirewallDirection, FirewallFilterRuleView, FirewallLogLevel, FirewallMatchView,
    FirewallNatRuleView, FirewallObjectView, FirewallPlannedChangeView, FirewallProtocol, FirewallRateLimit,
    FirewallRejectKind, FirewallSetEntryView, FirewallVerdict, FirewallZoneView, PortRange,
};
use crate::firewall_project::projected;
use crate::firewall_zones::{dedup, filter_slot, interfaces_of, nat_slot, zone_from, zone_networks};
use crate::isolation_laws::{lemma_filter_slot, lemma_nat_slot};
use crate::net::{network_format, IpNetwork};
use crate::order::{law_text_order, sorted_texts, text_le};
use crate::printable_laws::{
    all_plain, is_plain, is_shown, lemma_address_plain, lemma_decimal_plain, lemma_network_plain,
    lemma_plain_add,
};
use crate::recognition_laws::{is_plain_object, law_first_restores_are_recognised};
use crate::restore_laws::{
    filter_rules, fresh, jump_lines, law_restores_are_hooked_by_state, lemma_restore_parts, mangle_rules,
    nat_rules, rules_of, with_hooks, Drafted,
};
use crate::text::is_ascii_control;

verus! {

proof fn lemma_words_a()
    ensures
        is_plain(" "@),
        is_plain("-s"@),
        is_plain("-d"@),
        is_plain("-i"@),
        is_plain("-o"@),
        is_plain("-p "@),
        is_plain("-m mac --mac-source"@),
        is_plain("--sport"@),
        is_plain("--dport"@),
        is_plain("tcp"@),
        is_plain("udp"@),
        is_plain("icmp"@),
        is_plain("ipv6-icmp"@),
        is_plain("esp"@),
        is_plain("ah"@),
        is_plain("gre"@),
        is_plain("NEW"@),
        is_plain("ESTABLISHED"@),
{
    reveal(is_plain);
    assert(is_plain(" "@)) by {
        reveal_strlit(" ");
        let s = " "@;
        assert forall|i: int| 0 <= i < s.len() implies is_shown(#[trigger] s[i]) by {
            assert(i == 0);
        }
    }
    assert(is_plain("-s"@)) by {
        reveal_strlit("-s");
        let s = "-s"@;
        assert forall|i: int| 0 <= i < s.len() implies is_shown(#[trigger] s[i]) by {
            assert(i == 0 || i == 1);
        }
    }
    assert(is_plain("-d"@)) by {
        reveal_strlit("-d");
        let s = "-d"@;
        assert forall|i: int| 0 <= i < s.len() implies is_shown(#[trigger] s[i]) by {
            assert(i == 0 || i == 1);
        }
    }
    assert(is_plain("-i"@)) by {
        reveal_strlit("-i");
        let s = "-i"@;
        assert forall|i: int| 0 <= i < s.len() implies is_shown(#[trigger] s[i]) by {
            assert(i == 0 || i == 1);
        }
    }
    assert(is_plain("-o"@)) by {
        reveal_strlit("-o");
        let s = "-o"@;
        assert forall|i: int| 0 <= i < s.len() implies is_shown(#[trigger] s[i]) by {
            assert(i == 0 || i == 1);
        }
    }
    assert(is_plain("-p "@)) by {
        reveal_strlit("-p ");
        let s = "-p "@;
        assert forall|i: int| 0 <= i < s.len() implies is_shown(#[trigger] s[i]) by {
            assert(i == 0 || i == 1 || i == 2);
        }
    }
    assert(is_plain("-m mac --mac-source"@)) by {
        reveal_strlit("-m mac --mac-source");
        let s = "-m mac --mac-source"@;
        assert forall|i: int| 0 <= i < s.len() implies is_shown(#[trigger] s[i]) by {
            assert(i == 0 || i == 1 || i == 2 || i == 3 || i == 4 || i == 5 || i == 6 || i == 7
                || i == 8 || i == 9 || i == 10 || i == 11 || i == 12 || i == 13 || i == 14 || i == 15
                || i == 16 || i == 17 || i == 18);
        }
    }
    assert(is_plain("--sport"@)) by {
        reveal_strlit("--sport");
        let s = "--sport"@;
        assert forall|i: int| 0 <= i < s.len() implies is_shown(#[trigger] s[i]) by {
            assert(i == 0 || i == 1 || i == 2 || i == 3 || i == 4 || i == 5 || i == 6);
        }
    }
    assert(is_plain("--dport"@)) by {
        reveal_strlit("--dport");
        let s = "--dport"@;
        assert forall|i: int| 0 <= i < s.len() implies is_shown(#[trigger] s[i]) by {
            assert(i == 0 || i == 1 || i == 2 || i == 3 || i == 4 || i == 5 || i == 6);
        }
    }
    assert(is_plain("tcp"@)) by {
        reveal_strlit("tcp");
        let s = "tcp"@;
        assert forall|i: int| 0 <= i < s.len() implies is_shown(#[trigger] s[i]) by {
            assert(i == 0 || i == 1 || i == 2);
        }
    }
    assert(is_plain("udp"@)) by {
        reveal_strlit("udp");
        let s = "udp"@;
        assert forall|i: int| 0 <= i < s.len() implies is_shown(#[trigger] s[i]) by {
            assert(i == 0 || i == 1 || i == 2);
        }
    }
    assert(is_plain("icmp"@)) by {
        reveal_strlit("icmp");
        let s = "icmp"@;
        assert forall|i: int| 0 <= i < s.len() implies is_shown(#[trigger] s[i]) by {
            assert(i == 0 || i == 1 || i == 2 || i == 3);
        }
    }
    assert(is_plain("ipv6-icmp"@)) by {
        reveal_strlit("ipv6-icmp");
        let s = "ipv6-icmp"@;
        assert forall|i: int| 0 <= i < s.len() implies is_shown(#[trigger] s[i]) by {
            assert(i == 0 || i == 1 || i == 2 || i == 3 || i == 4 || i == 5 || i == 6 || i == 7
                || i == 8);
        }
    }
    assert(is_plain("esp"@)) by {
        reveal_strlit("esp");
        let s = "esp"@;
        assert forall|i: int| 0 <= i < s.len() implies is_shown(#[trigger] s[i]) by {
            assert(i == 0 || i == 1 || i == 2);
        }
    }
    assert(is_plain("ah"@)) by {
        reveal_strlit("ah");
        let s = "ah"@;
        assert forall|i: int| 0 <= i < s.len() implies is_shown(#[trigger] s[i]) by {
            assert(i == 0 || i == 1);
        }
    }
    assert(is_plain("gre"@)) by {
        reveal_strlit("gre");
        let s = "gre"@;
        assert forall|i: int| 0 <= i < s.len() implies is_shown(#[trigger] s[i]) by {
            assert(i == 0 || i == 1 || i == 2);
        }
    }
    assert(is_plain("NEW"@)) by {
        reveal_strlit("NEW");
        let s = "NEW"@;
        assert forall|i: int| 0 <= i < s.len() implies is_shown(#[trigger] s[i]) by {
            assert(i == 0 || i == 1 || i == 2);
        }
    }
    assert(is_plain("ESTABLISHED"@)) by {
        reveal_strlit("ESTABLISHED");
        let s = "ESTABLISHED"@;
        assert forall|i: int| 0 <= i < s.len() implies is_shown(#[trigger] s[i]) by {
            assert(i == 0 || i == 1 || i == 2 || i == 3 || i == 4 || i == 5 || i == 6 || i == 7
                || i == 8 || i == 9 || i == 10);
        }
    }
}

proof fn lemma_words_b()
    ensures
        is_plain("RELATED"@),
        is_plain("INVALID"@),
        is_plain(","@),
        is_plain("-m conntrack --ctstate "@),
        is_plain("--icmp-type"@),
        is_plain("--icmpv6-type"@),
        is_plain("-A "@),
        is_plain("MBED_INPUT"@),
        is_plain("MBED_OUTPUT"@),
        is_plain("MBED_FORWARD"@),
        is_plain("MBED_PREROUTING"@),
        is_plain("MBED_POSTROUTING"@),
        is_plain("-j ACCEPT"@),
        is_plain("-j DROP"@),
        is_plain("-j REJECT"@),
        is_plain("-j REJECT --reject-with tcp-reset"@),
        is_plain("-j REJECT --reject-with icmp-port-unreachable"@),
        is_plain("-j REJECT --reject-with icmp-host-unreachable"@),
{
    reveal(is_plain);
    assert(is_plain("RELATED"@)) by {
        reveal_strlit("RELATED");
        let s = "RELATED"@;
        assert forall|i: int| 0 <= i < s.len() implies is_shown(#[trigger] s[i]) by {
            assert(i == 0 || i == 1 || i == 2 || i == 3 || i == 4 || i == 5 || i == 6);
        }
    }
    assert(is_plain("INVALID"@)) by {
        reveal_strlit("INVALID");
        let s = "INVALID"@;
        assert forall|i: int| 0 <= i < s.len() implies is_shown(#[trigger] s[i]) by {
            assert(i == 0 || i == 1 || i == 2 || i == 3 || i == 4 || i == 5 || i == 6);
        }
    }
    assert(is_plain(","@)) by {
        reveal_strlit(",");
        let s = ","@;
        assert forall|i: int| 0 <= i < s.len() implies is_shown(#[trigger] s[i]) by {
            assert(i == 0);
        }
    }
    assert(is_plain("-m conntrack --ctstate "@)) by {
        reveal_strlit("-m conntrack --ctstate ");
        let s = "-m conntrack --ctstate "@;
        assert forall|i: int| 0 <= i < s.len() implies is_shown(#[trigger] s[i]) by {
            assert(i == 0 || i == 1 || i == 2 || i == 3 || i == 4 || i == 5 || i == 6 || i == 7
                || i == 8 || i == 9 || i == 10 || i == 11 || i == 12 || i == 13 || i == 14 || i == 15
                || i == 16 || i == 17 || i == 18 || i == 19 || i == 20 || i == 21 || i == 22);
        }
    }
    assert(is_plain("--icmp-type"@)) by {
        reveal_strlit("--icmp-type");
        let s = "--icmp-type"@;
        assert forall|i: int| 0 <= i < s.len() implies is_shown(#[trigger] s[i]) by {
            assert(i == 0 || i == 1 || i == 2 || i == 3 || i == 4 || i == 5 || i == 6 || i == 7
                || i == 8 || i == 9 || i == 10);
        }
    }
    assert(is_plain("--icmpv6-type"@)) by {
        reveal_strlit("--icmpv6-type");
        let s = "--icmpv6-type"@;
        assert forall|i: int| 0 <= i < s.len() implies is_shown(#[trigger] s[i]) by {
            assert(i == 0 || i == 1 || i == 2 || i == 3 || i == 4 || i == 5 || i == 6 || i == 7
                || i == 8 || i == 9 || i == 10 || i == 11 || i == 12);
        }
    }
    assert(is_plain("-A "@)) by {
        reveal_strlit("-A ");
        let s = "-A "@;
        assert forall|i: int| 0 <= i < s.len() implies is_shown(#[trigger] s[i]) by {
            assert(i == 0 || i == 1 || i == 2);
        }
    }
    assert(is_plain("MBED_INPUT"@)) by {
        reveal_strlit("MBED_INPUT");
        let s = "MBED_INPUT"@;
        assert forall|i: int| 0 <= i < s.len() implies is_shown(#[trigger] s[i]) by {
            assert(i == 0 || i == 1 || i == 2 || i == 3 || i == 4 || i == 5 || i == 6 || i == 7
                || i == 8 || i == 9);
        }
    }
    assert(is_plain("MBED_OUTPUT"@)) by {
        reveal_strlit("MBED_OUTPUT");
        let s = "MBED_OUTPUT"@;
        assert forall|i: int| 0 <= i < s.len() implies is_shown(#[trigger] s[i]) by {
            assert(i == 0 || i == 1 || i == 2 || i == 3 || i == 4 || i == 5 || i == 6 || i == 7
                || i == 8 || i == 9 || i == 10);
        }
    }
    assert(is_plain("MBED_FORWARD"@)) by {
        reveal_strlit("MBED_FORWARD");
        let s = "MBED_FORWARD"@;
        assert forall|i: int| 0 <= i < s.len() implies is_shown(#[trigger] s[i]) by {
            assert(i == 0 || i == 1 || i == 2 || i == 3 || i == 4 || i == 5 || i == 6 || i == 7
                || i == 8 || i == 9 || i == 10 || i == 11);
        }
    }
    assert(is_plain("MBED_PREROUTING"@)) by {
        reveal_strlit("MBED_PREROUTING");
        let s = "MBED_PREROUTING"@;
        assert forall|i: int| 0 <= i < s.len() implies is_shown(#[trigger] s[i]) by {
            assert(i == 0 || i == 1 || i == 2 || i == 3 || i == 4 || i == 5 || i == 6 || i == 7
                || i == 8 || i == 9 || i == 10 || i == 11 || i == 12 || i == 13 || i == 14);
        }
    }
    assert(is_plain("MBED_POSTROUTING"@)) by {
        reveal_strlit("MBED_POSTROUTING");
        let s = "MBED_POSTROUTING"@;
        assert forall|i: int| 0 <= i < s.len() implies is_shown(#[trigger] s[i]) by {
            assert(i == 0 || i == 1 || i == 2 || i == 3 || i == 4 || i == 5 || i == 6 || i == 7
                || i == 8 || i == 9 || i == 10 || i == 11 || i == 12 || i == 13 || i == 14 || i == 15);
        }
    }
    assert(is_plain("-j ACCEPT"@)) by {
        reveal_strlit("-j ACCEPT");
        let s = "-j ACCEPT"@;
        assert forall|i: int| 0 <= i < s.len() implies is_shown(#[trigger] s[i]) by {
            assert(i == 0 || i == 1 || i == 2 || i == 3 || i == 4 || i == 5 || i == 6 || i == 7
                || i == 8);
        }
    }
    assert(is_plain("-j DROP"@)) by {
        reveal_strlit("-j DROP");
        let s = "-j DROP"@;
        assert forall|i: int| 0 <= i < s.len() implies is_shown(#[trigger] s[i]) by {
            assert(i == 0 || i == 1 || i == 2 || i == 3 || i == 4 || i == 5 || i == 6);
        }
    }
    assert(is_plain("-j REJECT"@)) by {
        reveal_strlit("-j REJECT");
        let s = "-j REJECT"@;
        assert forall|i: int| 0 <= i < s.len() implies is_shown(#[trigger] s[i]) by {
            assert(i == 0 || i == 1 || i == 2 || i == 3 || i == 4 || i == 5 || i == 6 || i == 7
                || i == 8);
        }
    }
    assert(is_plain("-j REJECT --reject-with tcp-reset"@)) by {
        reveal_strlit("-j REJECT --reject-with tcp-reset");
        let s = "-j REJECT --reject-with tcp-reset"@;
        assert forall|i: int| 0 <= i < s.len() implies is_shown(#[trigger] s[i]) by {
            assert(i == 0 || i == 1 || i == 2 || i == 3 || i == 4 || i == 5 || i == 6 || i == 7
                || i == 8 || i == 9 || i == 10 || i == 11 || i == 12 || i == 13 || i == 14 || i == 15
                || i == 16 || i == 17 || i == 18 || i == 19 || i == 20 || i == 21 || i == 22 || i == 23
                || i == 24 || i == 25 || i == 26 || i == 27 || i == 28 || i == 29 || i == 30 || i == 31
                || i == 32);
        }
    }
    assert(is_plain("-j REJECT --reject-with icmp-port-unreachable"@)) by {
        reveal_strlit("-j REJECT --reject-with icmp-port-unreachable");
        let s = "-j REJECT --reject-with icmp-port-unreachable"@;
        assert forall|i: int| 0 <= i < s.len() implies is_shown(#[trigger] s[i]) by {
            assert(i == 0 || i == 1 || i == 2 || i == 3 || i == 4 || i == 5 || i == 6 || i == 7
                || i == 8 || i == 9 || i == 10 || i == 11 || i == 12 || i == 13 || i == 14 || i == 15
                || i == 16 || i == 17 || i == 18 || i == 19 || i == 20 || i == 21 || i == 22 || i == 23
                || i == 24 || i == 25 || i == 26 || i == 27 || i == 28 || i == 29 || i == 30 || i == 31
                || i == 32 || i == 33 || i == 34 || i == 35 || i == 36 || i == 37 || i == 38 || i == 39
                || i == 40 || i == 41 || i == 42 || i == 43 || i == 44);
        }
    }
    assert(is_plain("-j REJECT --reject-with icmp-host-unreachable"@)) by {
        reveal_strlit("-j REJECT --reject-with icmp-host-unreachable");
        let s = "-j REJECT --reject-with icmp-host-unreachable"@;
        assert forall|i: int| 0 <= i < s.len() implies is_shown(#[trigger] s[i]) by {
            assert(i == 0 || i == 1 || i == 2 || i == 3 || i == 4 || i == 5 || i == 6 || i == 7
                || i == 8 || i == 9 || i == 10 || i == 11 || i == 12 || i == 13 || i == 14 || i == 15
                || i == 16 || i == 17 || i == 18 || i == 19 || i == 20 || i == 21 || i == 22 || i == 23
                || i == 24 || i == 25 || i == 26 || i == 27 || i == 28 || i == 29 || i == 30 || i == 31
                || i == 32 || i == 33 || i == 34 || i == 35 || i == 36 || i == 37 || i == 38 || i == 39
                || i == 40 || i == 41 || i == 42 || i == 43 || i == 44);
        }
    }
}

proof fn lemma_words_c()
    ensures
        is_plain("-j REJECT --reject-with icmp6-port-unreachable"@),
        is_plain("emerg"@),
        is_plain("alert"@),
        is_plain("crit"@),
        is_plain("error"@),
        is_plain("warning"@),
        is_plain("notice"@),
        is_plain("info"@),
        is_plain("debug"@),
        is_plain(" -m limit --limit 1/second --limit-burst 5 -m comment --comment mbed:"@),
        is_plain(" -j LOG --log-prefix \""@),
        is_plain("\" --log-level "@),
        is_plain(" -m limit --limit "@),
        is_plain("/second --limit-burst "@),
        is_plain(" -m comment --comment mbed:"@),
        is_plain("-A MBED_FORWARD -i "@),
        is_plain(" -o "@),
        is_plain(" -m comment --comment mbed:zone:"@),
{
    reveal(is_plain);
    assert(is_plain("-j REJECT --reject-with icmp6-port-unreachable"@)) by {
        reveal_strlit("-j REJECT --reject-with icmp6-port-unreachable");
        let s = "-j REJECT --reject-with icmp6-port-unreachable"@;
        assert forall|i: int| 0 <= i < s.len() implies is_shown(#[trigger] s[i]) by {
            assert(i == 0 || i == 1 || i == 2 || i == 3 || i == 4 || i == 5 || i == 6 || i == 7
                || i == 8 || i == 9 || i == 10 || i == 11 || i == 12 || i == 13 || i == 14 || i == 15
                || i == 16 || i == 17 || i == 18 || i == 19 || i == 20 || i == 21 || i == 22 || i == 23
                || i == 24 || i == 25 || i == 26 || i == 27 || i == 28 || i == 29 || i == 30 || i == 31
                || i == 32 || i == 33 || i == 34 || i == 35 || i == 36 || i == 37 || i == 38 || i == 39
                || i == 40 || i == 41 || i == 42 || i == 43 || i == 44 || i == 45);
        }
    }
    assert(is_plain("emerg"@)) by {
        reveal_strlit("emerg");
        let s = "emerg"@;
        assert forall|i: int| 0 <= i < s.len() implies is_shown(#[trigger] s[i]) by {
            assert(i == 0 || i == 1 || i == 2 || i == 3 || i == 4);
        }
    }
    assert(is_plain("alert"@)) by {
        reveal_strlit("alert");
        let s = "alert"@;
        assert forall|i: int| 0 <= i < s.len() implies is_shown(#[trigger] s[i]) by {
            assert(i == 0 || i == 1 || i == 2 || i == 3 || i == 4);
        }
    }
    assert(is_plain("crit"@)) by {
        reveal_strlit("crit");
        let s = "crit"@;
        assert forall|i: int| 0 <= i < s.len() implies is_shown(#[trigger] s[i]) by {
            assert(i == 0 || i == 1 || i == 2 || i == 3);
        }
    }
    assert(is_plain("error"@)) by {
        reveal_strlit("error");
        let s = "error"@;
        assert forall|i: int| 0 <= i < s.len() implies is_shown(#[trigger] s[i]) by {
            assert(i == 0 || i == 1 || i == 2 || i == 3 || i == 4);
        }
    }
    assert(is_plain("warning"@)) by {
        reveal_strlit("warning");
        let s = "warning"@;
        assert forall|i: int| 0 <= i < s.len() implies is_shown(#[trigger] s[i]) by {
            assert(i == 0 || i == 1 || i == 2 || i == 3 || i == 4 || i == 5 || i == 6);
        }
    }
    assert(is_plain("notice"@)) by {
        reveal_strlit("notice");
        let s = "notice"@;
        assert forall|i: int| 0 <= i < s.len() implies is_shown(#[trigger] s[i]) by {
            assert(i == 0 || i == 1 || i == 2 || i == 3 || i == 4 || i == 5);
        }
    }
    assert(is_plain("info"@)) by {
        reveal_strlit("info");
        let s = "info"@;
        assert forall|i: int| 0 <= i < s.len() implies is_shown(#[trigger] s[i]) by {
            assert(i == 0 || i == 1 || i == 2 || i == 3);
        }
    }
    assert(is_plain("debug"@)) by {
        reveal_strlit("debug");
        let s = "debug"@;
        assert forall|i: int| 0 <= i < s.len() implies is_shown(#[trigger] s[i]) by {
            assert(i == 0 || i == 1 || i == 2 || i == 3 || i == 4);
        }
    }
    assert(is_plain(" -m limit --limit 1/second --limit-burst 5 -m comment --comment mbed:"@)) by {
        reveal_strlit(" -m limit --limit 1/second --limit-burst 5 -m comment --comment mbed:");
        let s = " -m limit --limit 1/second --limit-burst 5 -m comment --comment mbed:"@;
        assert forall|i: int| 0 <= i < s.len() implies is_shown(#[trigger] s[i]) by {
            assert(i == 0 || i == 1 || i == 2 || i == 3 || i == 4 || i == 5 || i == 6 || i == 7
                || i == 8 || i == 9 || i == 10 || i == 11 || i == 12 || i == 13 || i == 14 || i == 15
                || i == 16 || i == 17 || i == 18 || i == 19 || i == 20 || i == 21 || i == 22 || i == 23
                || i == 24 || i == 25 || i == 26 || i == 27 || i == 28 || i == 29 || i == 30 || i == 31
                || i == 32 || i == 33 || i == 34 || i == 35 || i == 36 || i == 37 || i == 38 || i == 39
                || i == 40 || i == 41 || i == 42 || i == 43 || i == 44 || i == 45 || i == 46 || i == 47
                || i == 48 || i == 49 || i == 50 || i == 51 || i == 52 || i == 53 || i == 54 || i == 55
                || i == 56 || i == 57 || i == 58 || i == 59 || i == 60 || i == 61 || i == 62 || i == 63
                || i == 64 || i == 65 || i == 66 || i == 67 || i == 68);
        }
    }
    assert(is_plain(" -j LOG --log-prefix \""@)) by {
        reveal_strlit(" -j LOG --log-prefix \"");
        let s = " -j LOG --log-prefix \""@;
        assert forall|i: int| 0 <= i < s.len() implies is_shown(#[trigger] s[i]) by {
            assert(i == 0 || i == 1 || i == 2 || i == 3 || i == 4 || i == 5 || i == 6 || i == 7
                || i == 8 || i == 9 || i == 10 || i == 11 || i == 12 || i == 13 || i == 14 || i == 15
                || i == 16 || i == 17 || i == 18 || i == 19 || i == 20 || i == 21);
        }
    }
    assert(is_plain("\" --log-level "@)) by {
        reveal_strlit("\" --log-level ");
        let s = "\" --log-level "@;
        assert forall|i: int| 0 <= i < s.len() implies is_shown(#[trigger] s[i]) by {
            assert(i == 0 || i == 1 || i == 2 || i == 3 || i == 4 || i == 5 || i == 6 || i == 7
                || i == 8 || i == 9 || i == 10 || i == 11 || i == 12 || i == 13);
        }
    }
    assert(is_plain(" -m limit --limit "@)) by {
        reveal_strlit(" -m limit --limit ");
        let s = " -m limit --limit "@;
        assert forall|i: int| 0 <= i < s.len() implies is_shown(#[trigger] s[i]) by {
            assert(i == 0 || i == 1 || i == 2 || i == 3 || i == 4 || i == 5 || i == 6 || i == 7
                || i == 8 || i == 9 || i == 10 || i == 11 || i == 12 || i == 13 || i == 14 || i == 15
                || i == 16 || i == 17);
        }
    }
    assert(is_plain("/second --limit-burst "@)) by {
        reveal_strlit("/second --limit-burst ");
        let s = "/second --limit-burst "@;
        assert forall|i: int| 0 <= i < s.len() implies is_shown(#[trigger] s[i]) by {
            assert(i == 0 || i == 1 || i == 2 || i == 3 || i == 4 || i == 5 || i == 6 || i == 7
                || i == 8 || i == 9 || i == 10 || i == 11 || i == 12 || i == 13 || i == 14 || i == 15
                || i == 16 || i == 17 || i == 18 || i == 19 || i == 20 || i == 21);
        }
    }
    assert(is_plain(" -m comment --comment mbed:"@)) by {
        reveal_strlit(" -m comment --comment mbed:");
        let s = " -m comment --comment mbed:"@;
        assert forall|i: int| 0 <= i < s.len() implies is_shown(#[trigger] s[i]) by {
            assert(i == 0 || i == 1 || i == 2 || i == 3 || i == 4 || i == 5 || i == 6 || i == 7
                || i == 8 || i == 9 || i == 10 || i == 11 || i == 12 || i == 13 || i == 14 || i == 15
                || i == 16 || i == 17 || i == 18 || i == 19 || i == 20 || i == 21 || i == 22 || i == 23
                || i == 24 || i == 25 || i == 26);
        }
    }
    assert(is_plain("-A MBED_FORWARD -i "@)) by {
        reveal_strlit("-A MBED_FORWARD -i ");
        let s = "-A MBED_FORWARD -i "@;
        assert forall|i: int| 0 <= i < s.len() implies is_shown(#[trigger] s[i]) by {
            assert(i == 0 || i == 1 || i == 2 || i == 3 || i == 4 || i == 5 || i == 6 || i == 7
                || i == 8 || i == 9 || i == 10 || i == 11 || i == 12 || i == 13 || i == 14 || i == 15
                || i == 16 || i == 17 || i == 18);
        }
    }
    assert(is_plain(" -o "@)) by {
        reveal_strlit(" -o ");
        let s = " -o "@;
        assert forall|i: int| 0 <= i < s.len() implies is_shown(#[trigger] s[i]) by {
            assert(i == 0 || i == 1 || i == 2 || i == 3);
        }
    }
    assert(is_plain(" -m comment --comment mbed:zone:"@)) by {
        reveal_strlit(" -m comment --comment mbed:zone:");
        let s = " -m comment --comment mbed:zone:"@;
        assert forall|i: int| 0 <= i < s.len() implies is_shown(#[trigger] s[i]) by {
            assert(i == 0 || i == 1 || i == 2 || i == 3 || i == 4 || i == 5 || i == 6 || i == 7
                || i == 8 || i == 9 || i == 10 || i == 11 || i == 12 || i == 13 || i == 14 || i == 15
                || i == 16 || i == 17 || i == 18 || i == 19 || i == 20 || i == 21 || i == 22 || i == 23
                || i == 24 || i == 25 || i == 26 || i == 27 || i == 28 || i == 29 || i == 30 || i == 31);
        }
    }
}

proof fn lemma_words_d()
    ensures
        is_plain("-A MBED_MANGLE_FORWARD -o "@),
        is_plain(" -p tcp --tcp-flags SYN,RST SYN -m comment --comment mbed:mtu:"@),
        is_plain("-A MBED_POSTROUTING -o "@),
        is_plain(" -m comment --comment mbed:masq:"@),
        is_plain("-j MASQUERADE"@),
        is_plain("-j REDIRECT --to-ports "@),
        is_plain("-j DNAT --to-destination "@),
        is_plain("-j SNAT --to-source "@),
        is_plain(":"@),
        is_plain("["@),
        is_plain("]:"@),
        is_plain("."@),
        is_plain("/"@),
        is_plain("-"@),
        is_plain("::"@),
        is_plain("::ffff:"@),
        is_plain("\n"@),
        is_plain(" -j ACCEPT\n"@),
{
    reveal(is_plain);
    assert(is_plain("-A MBED_MANGLE_FORWARD -o "@)) by {
        reveal_strlit("-A MBED_MANGLE_FORWARD -o ");
        let s = "-A MBED_MANGLE_FORWARD -o "@;
        assert forall|i: int| 0 <= i < s.len() implies is_shown(#[trigger] s[i]) by {
            assert(i == 0 || i == 1 || i == 2 || i == 3 || i == 4 || i == 5 || i == 6 || i == 7
                || i == 8 || i == 9 || i == 10 || i == 11 || i == 12 || i == 13 || i == 14 || i == 15
                || i == 16 || i == 17 || i == 18 || i == 19 || i == 20 || i == 21 || i == 22 || i == 23
                || i == 24 || i == 25);
        }
    }
    assert(is_plain(" -p tcp --tcp-flags SYN,RST SYN -m comment --comment mbed:mtu:"@)) by {
        reveal_strlit(" -p tcp --tcp-flags SYN,RST SYN -m comment --comment mbed:mtu:");
        let s = " -p tcp --tcp-flags SYN,RST SYN -m comment --comment mbed:mtu:"@;
        assert forall|i: int| 0 <= i < s.len() implies is_shown(#[trigger] s[i]) by {
            assert(i == 0 || i == 1 || i == 2 || i == 3 || i == 4 || i == 5 || i == 6 || i == 7
                || i == 8 || i == 9 || i == 10 || i == 11 || i == 12 || i == 13 || i == 14 || i == 15
                || i == 16 || i == 17 || i == 18 || i == 19 || i == 20 || i == 21 || i == 22 || i == 23
                || i == 24 || i == 25 || i == 26 || i == 27 || i == 28 || i == 29 || i == 30 || i == 31
                || i == 32 || i == 33 || i == 34 || i == 35 || i == 36 || i == 37 || i == 38 || i == 39
                || i == 40 || i == 41 || i == 42 || i == 43 || i == 44 || i == 45 || i == 46 || i == 47
                || i == 48 || i == 49 || i == 50 || i == 51 || i == 52 || i == 53 || i == 54 || i == 55
                || i == 56 || i == 57 || i == 58 || i == 59 || i == 60 || i == 61);
        }
    }
    assert(is_plain("-A MBED_POSTROUTING -o "@)) by {
        reveal_strlit("-A MBED_POSTROUTING -o ");
        let s = "-A MBED_POSTROUTING -o "@;
        assert forall|i: int| 0 <= i < s.len() implies is_shown(#[trigger] s[i]) by {
            assert(i == 0 || i == 1 || i == 2 || i == 3 || i == 4 || i == 5 || i == 6 || i == 7
                || i == 8 || i == 9 || i == 10 || i == 11 || i == 12 || i == 13 || i == 14 || i == 15
                || i == 16 || i == 17 || i == 18 || i == 19 || i == 20 || i == 21 || i == 22);
        }
    }
    assert(is_plain(" -m comment --comment mbed:masq:"@)) by {
        reveal_strlit(" -m comment --comment mbed:masq:");
        let s = " -m comment --comment mbed:masq:"@;
        assert forall|i: int| 0 <= i < s.len() implies is_shown(#[trigger] s[i]) by {
            assert(i == 0 || i == 1 || i == 2 || i == 3 || i == 4 || i == 5 || i == 6 || i == 7
                || i == 8 || i == 9 || i == 10 || i == 11 || i == 12 || i == 13 || i == 14 || i == 15
                || i == 16 || i == 17 || i == 18 || i == 19 || i == 20 || i == 21 || i == 22 || i == 23
                || i == 24 || i == 25 || i == 26 || i == 27 || i == 28 || i == 29 || i == 30 || i == 31);
        }
    }
    assert(is_plain("-j MASQUERADE"@)) by {
        reveal_strlit("-j MASQUERADE");
        let s = "-j MASQUERADE"@;
        assert forall|i: int| 0 <= i < s.len() implies is_shown(#[trigger] s[i]) by {
            assert(i == 0 || i == 1 || i == 2 || i == 3 || i == 4 || i == 5 || i == 6 || i == 7
                || i == 8 || i == 9 || i == 10 || i == 11 || i == 12);
        }
    }
    assert(is_plain("-j REDIRECT --to-ports "@)) by {
        reveal_strlit("-j REDIRECT --to-ports ");
        let s = "-j REDIRECT --to-ports "@;
        assert forall|i: int| 0 <= i < s.len() implies is_shown(#[trigger] s[i]) by {
            assert(i == 0 || i == 1 || i == 2 || i == 3 || i == 4 || i == 5 || i == 6 || i == 7
                || i == 8 || i == 9 || i == 10 || i == 11 || i == 12 || i == 13 || i == 14 || i == 15
                || i == 16 || i == 17 || i == 18 || i == 19 || i == 20 || i == 21 || i == 22);
        }
    }
    assert(is_plain("-j DNAT --to-destination "@)) by {
        reveal_strlit("-j DNAT --to-destination ");
        let s = "-j DNAT --to-destination "@;
        assert forall|i: int| 0 <= i < s.len() implies is_shown(#[trigger] s[i]) by {
            assert(i == 0 || i == 1 || i == 2 || i == 3 || i == 4 || i == 5 || i == 6 || i == 7
                || i == 8 || i == 9 || i == 10 || i == 11 || i == 12 || i == 13 || i == 14 || i == 15
                || i == 16 || i == 17 || i == 18 || i == 19 || i == 20 || i == 21 || i == 22 || i == 23
                || i == 24);
        }
    }
    assert(is_plain("-j SNAT --to-source "@)) by {
        reveal_strlit("-j SNAT --to-source ");
        let s = "-j SNAT --to-source "@;
        assert forall|i: int| 0 <= i < s.len() implies is_shown(#[trigger] s[i]) by {
            assert(i == 0 || i == 1 || i == 2 || i == 3 || i == 4 || i == 5 || i == 6 || i == 7
                || i == 8 || i == 9 || i == 10 || i == 11 || i == 12 || i == 13 || i == 14 || i == 15
                || i == 16 || i == 17 || i == 18 || i == 19);
        }
    }
    assert(is_plain(":"@)) by {
        reveal_strlit(":");
        let s = ":"@;
        assert forall|i: int| 0 <= i < s.len() implies is_shown(#[trigger] s[i]) by {
            assert(i == 0);
        }
    }
    assert(is_plain("["@)) by {
        reveal_strlit("[");
        let s = "["@;
        assert forall|i: int| 0 <= i < s.len() implies is_shown(#[trigger] s[i]) by {
            assert(i == 0);
        }
    }
    assert(is_plain("]:"@)) by {
        reveal_strlit("]:");
        let s = "]:"@;
        assert forall|i: int| 0 <= i < s.len() implies is_shown(#[trigger] s[i]) by {
            assert(i == 0 || i == 1);
        }
    }
    assert(is_plain("."@)) by {
        reveal_strlit(".");
        let s = "."@;
        assert forall|i: int| 0 <= i < s.len() implies is_shown(#[trigger] s[i]) by {
            assert(i == 0);
        }
    }
    assert(is_plain("/"@)) by {
        reveal_strlit("/");
        let s = "/"@;
        assert forall|i: int| 0 <= i < s.len() implies is_shown(#[trigger] s[i]) by {
            assert(i == 0);
        }
    }
    assert(is_plain("-"@)) by {
        reveal_strlit("-");
        let s = "-"@;
        assert forall|i: int| 0 <= i < s.len() implies is_shown(#[trigger] s[i]) by {
            assert(i == 0);
        }
    }
    assert(is_plain("::"@)) by {
        reveal_strlit("::");
        let s = "::"@;
        assert forall|i: int| 0 <= i < s.len() implies is_shown(#[trigger] s[i]) by {
            assert(i == 0 || i == 1);
        }
    }
    assert(is_plain("::ffff:"@)) by {
        reveal_strlit("::ffff:");
        let s = "::ffff:"@;
        assert forall|i: int| 0 <= i < s.len() implies is_shown(#[trigger] s[i]) by {
            assert(i == 0 || i == 1 || i == 2 || i == 3 || i == 4 || i == 5 || i == 6);
        }
    }
    assert(is_plain("\n"@)) by {
        reveal_strlit("\n");
        let s = "\n"@;
        assert forall|i: int| 0 <= i < s.len() implies is_shown(#[trigger] s[i]) by {
            assert(i == 0);
        }
    }
    assert(is_plain(" -j ACCEPT\n"@)) by {
        reveal_strlit(" -j ACCEPT\n");
        let s = " -j ACCEPT\n"@;
        assert forall|i: int| 0 <= i < s.len() implies is_shown(#[trigger] s[i]) by {
            assert(i == 0 || i == 1 || i == 2 || i == 3 || i == 4 || i == 5 || i == 6 || i == 7
                || i == 8 || i == 9 || i == 10);
        }
    }
}

proof fn lemma_words_e()
    ensures
        is_plain(" -j TCPMSS --clamp-mss-to-pmtu\n"@),
        is_plain(" -j MASQUERADE\n"@),
        is_plain("COMMIT\n"@),
        is_plain(" - [0:0]\n"@),
        is_plain("INPUT"@),
        is_plain("mbed-agent-owned:v1:input"@),
        is_plain("OUTPUT"@),
        is_plain("mbed-agent-owned:v1:output"@),
        is_plain("FORWARD"@),
        is_plain("mbed-agent-owned:v1:forward"@),
        is_plain("PREROUTING"@),
        is_plain("mbed-agent-owned:v1:prerouting"@),
        is_plain("POSTROUTING"@),
        is_plain("mbed-agent-owned:v1:postrouting"@),
        is_plain("MBED_MANGLE_FORWARD"@),
        is_plain("mbed-agent-owned:v1:mangle-forward"@),
        is_plain(" -m comment --comment "@),
        is_plain(" -j "@),
{
    reveal(is_plain);
    assert(is_plain(" -j TCPMSS --clamp-mss-to-pmtu\n"@)) by {
        reveal_strlit(" -j TCPMSS --clamp-mss-to-pmtu\n");
        let s = " -j TCPMSS --clamp-mss-to-pmtu\n"@;
        assert forall|i: int| 0 <= i < s.len() implies is_shown(#[trigger] s[i]) by {
            assert(i == 0 || i == 1 || i == 2 || i == 3 || i == 4 || i == 5 || i == 6 || i == 7
                || i == 8 || i == 9 || i == 10 || i == 11 || i == 12 || i == 13 || i == 14 || i == 15
                || i == 16 || i == 17 || i == 18 || i == 19 || i == 20 || i == 21 || i == 22 || i == 23
                || i == 24 || i == 25 || i == 26 || i == 27 || i == 28 || i == 29 || i == 30);
        }
    }
    assert(is_plain(" -j MASQUERADE\n"@)) by {
        reveal_strlit(" -j MASQUERADE\n");
        let s = " -j MASQUERADE\n"@;
        assert forall|i: int| 0 <= i < s.len() implies is_shown(#[trigger] s[i]) by {
            assert(i == 0 || i == 1 || i == 2 || i == 3 || i == 4 || i == 5 || i == 6 || i == 7
                || i == 8 || i == 9 || i == 10 || i == 11 || i == 12 || i == 13 || i == 14);
        }
    }
    assert(is_plain("COMMIT\n"@)) by {
        reveal_strlit("COMMIT\n");
        let s = "COMMIT\n"@;
        assert forall|i: int| 0 <= i < s.len() implies is_shown(#[trigger] s[i]) by {
            assert(i == 0 || i == 1 || i == 2 || i == 3 || i == 4 || i == 5 || i == 6);
        }
    }
    assert(is_plain(" - [0:0]\n"@)) by {
        reveal_strlit(" - [0:0]\n");
        let s = " - [0:0]\n"@;
        assert forall|i: int| 0 <= i < s.len() implies is_shown(#[trigger] s[i]) by {
            assert(i == 0 || i == 1 || i == 2 || i == 3 || i == 4 || i == 5 || i == 6 || i == 7
                || i == 8);
        }
    }
    assert(is_plain("INPUT"@)) by {
        reveal_strlit("INPUT");
        let s = "INPUT"@;
        assert forall|i: int| 0 <= i < s.len() implies is_shown(#[trigger] s[i]) by {
            assert(i == 0 || i == 1 || i == 2 || i == 3 || i == 4);
        }
    }
    assert(is_plain("mbed-agent-owned:v1:input"@)) by {
        reveal_strlit("mbed-agent-owned:v1:input");
        let s = "mbed-agent-owned:v1:input"@;
        assert forall|i: int| 0 <= i < s.len() implies is_shown(#[trigger] s[i]) by {
            assert(i == 0 || i == 1 || i == 2 || i == 3 || i == 4 || i == 5 || i == 6 || i == 7
                || i == 8 || i == 9 || i == 10 || i == 11 || i == 12 || i == 13 || i == 14 || i == 15
                || i == 16 || i == 17 || i == 18 || i == 19 || i == 20 || i == 21 || i == 22 || i == 23
                || i == 24);
        }
    }
    assert(is_plain("OUTPUT"@)) by {
        reveal_strlit("OUTPUT");
        let s = "OUTPUT"@;
        assert forall|i: int| 0 <= i < s.len() implies is_shown(#[trigger] s[i]) by {
            assert(i == 0 || i == 1 || i == 2 || i == 3 || i == 4 || i == 5);
        }
    }
    assert(is_plain("mbed-agent-owned:v1:output"@)) by {
        reveal_strlit("mbed-agent-owned:v1:output");
        let s = "mbed-agent-owned:v1:output"@;
        assert forall|i: int| 0 <= i < s.len() implies is_shown(#[trigger] s[i]) by {
            assert(i == 0 || i == 1 || i == 2 || i == 3 || i == 4 || i == 5 || i == 6 || i == 7
                || i == 8 || i == 9 || i == 10 || i == 11 || i == 12 || i == 13 || i == 14 || i == 15
                || i == 16 || i == 17 || i == 18 || i == 19 || i == 20 || i == 21 || i == 22 || i == 23
                || i == 24 || i == 25);
        }
    }
    assert(is_plain("FORWARD"@)) by {
        reveal_strlit("FORWARD");
        let s = "FORWARD"@;
        assert forall|i: int| 0 <= i < s.len() implies is_shown(#[trigger] s[i]) by {
            assert(i == 0 || i == 1 || i == 2 || i == 3 || i == 4 || i == 5 || i == 6);
        }
    }
    assert(is_plain("mbed-agent-owned:v1:forward"@)) by {
        reveal_strlit("mbed-agent-owned:v1:forward");
        let s = "mbed-agent-owned:v1:forward"@;
        assert forall|i: int| 0 <= i < s.len() implies is_shown(#[trigger] s[i]) by {
            assert(i == 0 || i == 1 || i == 2 || i == 3 || i == 4 || i == 5 || i == 6 || i == 7
                || i == 8 || i == 9 || i == 10 || i == 11 || i == 12 || i == 13 || i == 14 || i == 15
                || i == 16 || i == 17 || i == 18 || i == 19 || i == 20 || i == 21 || i == 22 || i == 23
                || i == 24 || i == 25 || i == 26);
        }
    }
    assert(is_plain("PREROUTING"@)) by {
        reveal_strlit("PREROUTING");
        let s = "PREROUTING"@;
        assert forall|i: int| 0 <= i < s.len() implies is_shown(#[trigger] s[i]) by {
            assert(i == 0 || i == 1 || i == 2 || i == 3 || i == 4 || i == 5 || i == 6 || i == 7
                || i == 8 || i == 9);
        }
    }
    assert(is_plain("mbed-agent-owned:v1:prerouting"@)) by {
        reveal_strlit("mbed-agent-owned:v1:prerouting");
        let s = "mbed-agent-owned:v1:prerouting"@;
        assert forall|i: int| 0 <= i < s.len() implies is_shown(#[trigger] s[i]) by {
            assert(i == 0 || i == 1 || i == 2 || i == 3 || i == 4 || i == 5 || i == 6 || i == 7
                || i == 8 || i == 9 || i == 10 || i == 11 || i == 12 || i == 13 || i == 14 || i == 15
                || i == 16 || i == 17 || i == 18 || i == 19 || i == 20 || i == 21 || i == 22 || i == 23
                || i == 24 || i == 25 || i == 26 || i == 27 || i == 28 || i == 29);
        }
    }
    assert(is_plain("POSTROUTING"@)) by {
        reveal_strlit("POSTROUTING");
        let s = "POSTROUTING"@;
        assert forall|i: int| 0 <= i < s.len() implies is_shown(#[trigger] s[i]) by {
            assert(i == 0 || i == 1 || i == 2 || i == 3 || i == 4 || i == 5 || i == 6 || i == 7
                || i == 8 || i == 9 || i == 10);
        }
    }
    assert(is_plain("mbed-agent-owned:v1:postrouting"@)) by {
        reveal_strlit("mbed-agent-owned:v1:postrouting");
        let s = "mbed-agent-owned:v1:postrouting"@;
        assert forall|i: int| 0 <= i < s.len() implies is_shown(#[trigger] s[i]) by {
            assert(i == 0 || i == 1 || i == 2 || i == 3 || i == 4 || i == 5 || i == 6 || i == 7
                || i == 8 || i == 9 || i == 10 || i == 11 || i == 12 || i == 13 || i == 14 || i == 15
                || i == 16 || i == 17 || i == 18 || i == 19 || i == 20 || i == 21 || i == 22 || i == 23
                || i == 24 || i == 25 || i == 26 || i == 27 || i == 28 || i == 29 || i == 30);
        }
    }
    assert(is_plain("MBED_MANGLE_FORWARD"@)) by {
        reveal_strlit("MBED_MANGLE_FORWARD");
        let s = "MBED_MANGLE_FORWARD"@;
        assert forall|i: int| 0 <= i < s.len() implies is_shown(#[trigger] s[i]) by {
            assert(i == 0 || i == 1 || i == 2 || i == 3 || i == 4 || i == 5 || i == 6 || i == 7
                || i == 8 || i == 9 || i == 10 || i == 11 || i == 12 || i == 13 || i == 14 || i == 15
                || i == 16 || i == 17 || i == 18);
        }
    }
    assert(is_plain("mbed-agent-owned:v1:mangle-forward"@)) by {
        reveal_strlit("mbed-agent-owned:v1:mangle-forward");
        let s = "mbed-agent-owned:v1:mangle-forward"@;
        assert forall|i: int| 0 <= i < s.len() implies is_shown(#[trigger] s[i]) by {
            assert(i == 0 || i == 1 || i == 2 || i == 3 || i == 4 || i == 5 || i == 6 || i == 7
                || i == 8 || i == 9 || i == 10 || i == 11 || i == 12 || i == 13 || i == 14 || i == 15
                || i == 16 || i == 17 || i == 18 || i == 19 || i == 20 || i == 21 || i == 22 || i == 23
                || i == 24 || i == 25 || i == 26 || i == 27 || i == 28 || i == 29 || i == 30 || i == 31
                || i == 32 || i == 33);
        }
    }
    assert(is_plain(" -m comment --comment "@)) by {
        reveal_strlit(" -m comment --comment ");
        let s = " -m comment --comment "@;
        assert forall|i: int| 0 <= i < s.len() implies is_shown(#[trigger] s[i]) by {
            assert(i == 0 || i == 1 || i == 2 || i == 3 || i == 4 || i == 5 || i == 6 || i == 7
                || i == 8 || i == 9 || i == 10 || i == 11 || i == 12 || i == 13 || i == 14 || i == 15
                || i == 16 || i == 17 || i == 18 || i == 19 || i == 20 || i == 21);
        }
    }
    assert(is_plain(" -j "@)) by {
        reveal_strlit(" -j ");
        let s = " -j "@;
        assert forall|i: int| 0 <= i < s.len() implies is_shown(#[trigger] s[i]) by {
            assert(i == 0 || i == 1 || i == 2 || i == 3);
        }
    }
}

proof fn lemma_words_f()
    ensures
        is_plain("*filter\n"@),
        is_plain("*mangle\n"@),
        is_plain("*nat\n"@),
{
    reveal(is_plain);
    assert(is_plain("*filter\n"@)) by {
        reveal_strlit("*filter\n");
        let s = "*filter\n"@;
        assert forall|i: int| 0 <= i < s.len() implies is_shown(#[trigger] s[i]) by {
            assert(i == 0 || i == 1 || i == 2 || i == 3 || i == 4 || i == 5 || i == 6 || i == 7);
        }
    }
    assert(is_plain("*mangle\n"@)) by {
        reveal_strlit("*mangle\n");
        let s = "*mangle\n"@;
        assert forall|i: int| 0 <= i < s.len() implies is_shown(#[trigger] s[i]) by {
            assert(i == 0 || i == 1 || i == 2 || i == 3 || i == 4 || i == 5 || i == 6 || i == 7);
        }
    }
    assert(is_plain("*nat\n"@)) by {
        reveal_strlit("*nat\n");
        let s = "*nat\n"@;
        assert forall|i: int| 0 <= i < s.len() implies is_shown(#[trigger] s[i]) by {
            assert(i == 0 || i == 1 || i == 2 || i == 3 || i == 4);
        }
    }
}

/// The words of the restores.
proof fn lemma_words()
    ensures
        is_plain(" "@),
        is_plain("-s"@),
        is_plain("-d"@),
        is_plain("-i"@),
        is_plain("-o"@),
        is_plain("-p "@),
        is_plain("-m mac --mac-source"@),
        is_plain("--sport"@),
        is_plain("--dport"@),
        is_plain("tcp"@),
        is_plain("udp"@),
        is_plain("icmp"@),
        is_plain("ipv6-icmp"@),
        is_plain("esp"@),
        is_plain("ah"@),
        is_plain("gre"@),
        is_plain("NEW"@),
        is_plain("ESTABLISHED"@),
        is_plain("RELATED"@),
        is_plain("INVALID"@),
        is_plain(","@),
        is_plain("-m conntrack --ctstate "@),
        is_plain("--icmp-type"@),
        is_plain("--icmpv6-type"@),
        is_plain("-A "@),
        is_plain("MBED_INPUT"@),
        is_plain("MBED_OUTPUT"@),
        is_plain("MBED_FORWARD"@),
        is_plain("MBED_PREROUTING"@),
        is_plain("MBED_POSTROUTING"@),
        is_plain("-j ACCEPT"@),
        is_plain("-j DROP"@),
        is_plain("-j REJECT"@),
        is_plain("-j REJECT --reject-with tcp-reset"@),
        is_plain("-j REJECT --reject-with icmp-port-unreachable"@),
        is_plain("-j REJECT --reject-with icmp-host-unreachable"@),
        is_plain("-j REJECT --reject-with icmp6-port-unreachable"@),
        is_plain("emerg"@),
        is_plain("alert"@),
        is_plain("crit"@),
        is_plain("error"@),
        is_plain("warning"@),
        is_plain("notice"@),
        is_plain("info"@),
        is_plain("debug"@),
        is_plain(" -m limit --limit 1/second --limit-burst 5 -m comment --comment mbed:"@),
        is_plain(" -j LOG --log-prefix \""@),
        is_plain("\" --log-level "@),
        is_plain(" -m limit --limit "@),
        is_plain("/second --limit-burst "@),
        is_plain(" -m comment --comment mbed:"@),
        is_plain("-A MBED_FORWARD -i "@),
        is_plain(" -o "@),
        is_plain(" -m comment --comment mbed:zone:"@),
        is_plain("-A MBED_MANGLE_FORWARD -o "@),
        is_plain(" -p tcp --tcp-flags SYN,RST SYN -m comment --comment mbed:mtu:"@),
        is_plain("-A MBED_POSTROUTING -o "@),
        is_plain(" -m comment --comment mbed:masq:"@),
        is_plain("-j MASQUERADE"@),
        is_plain("-j REDIRECT --to-ports "@),
        is_plain("-j DNAT --to-destination "@),
        is_plain("-j SNAT --to-source "@),
        is_plain(":"@),
        is_plain("["@),
        is_plain("]:"@),
        is_plain("."@),
        is_plain("/"@),
        is_plain("-"@),
        is_plain("::"@),
        is_plain("::ffff:"@),
        is_plain("\n"@),
        is_plain(" -j ACCEPT\n"@),
        is_plain(" -j TCPMSS --clamp-mss-to-pmtu\n"@),
        is_plain(" -j MASQUERADE\n"@),
        is_plain("COMMIT\n"@),
        is_plain(" - [0:0]\n"@),
        is_plain("INPUT"@),
        is_plain("mbed-agent-owned:v1:input"@),
        is_plain("OUTPUT"@),
        is_plain("mbed-agent-owned:v1:output"@),
        is_plain("FORWARD"@),
        is_plain("mbed-agent-owned:v1:forward"@),
        is_plain("PREROUTING"@),
        is_plain("mbed-agent-owned:v1:prerouting"@),
        is_plain("POSTROUTING"@),
        is_plain("mbed-agent-owned:v1:postrouting"@),
        is_plain("MBED_MANGLE_FORWARD"@),
        is_plain("mbed-agent-owned:v1:mangle-forward"@),
        is_plain(" -m comment --comment "@),
        is_plain(" -j "@),
        is_plain("*filter\n"@),
        is_plain("*mangle\n"@),
        is_plain("*nat\n"@),
        is_plain(Seq::empty()),
{
    lemma_words_a();
    lemma_words_b();
    lemma_words_c();
    lemma_words_d();
    lemma_words_e();
    lemma_words_f();
    reveal(is_plain);
}

proof fn lemma_port(p: PortRange)
    ensures
        is_plain(port_text(p)),
{
    broadcast use lemma_plain_add;

    lemma_words();
    lemma_decimal_plain(p.start as nat);
    lemma_decimal_plain(p.end as nat);
}

proof fn lemma_branched(acc: Seq<Seq<char>>, base: Seq<char>, options: Seq<Seq<char>>, j: int)
    requires
        all_plain(acc),
        is_plain(base),
        all_plain(options),
        0 <= j,
    ensures
        all_plain(branched(acc, base, options, j)),
    decreases options.len() - j,
{
    broadcast use lemma_plain_add;

    lemma_words();
    if j < options.len() {
        assert(is_plain(options[j]));
        assert(is_plain(base + " "@ + options[j]));
        lemma_branched(acc.push(base + " "@ + options[j]), base, options, j + 1);
    }
}

proof fn lemma_crossed(acc: Seq<Seq<char>>, bases: Seq<Seq<char>>, options: Seq<Seq<char>>, i: int)
    requires
        all_plain(acc),
        all_plain(bases),
        all_plain(options),
        0 <= i,
    ensures
        all_plain(crossed(acc, bases, options, i)),
    decreases bases.len() - i,
{
    if i < bases.len() {
        assert(is_plain(bases[i]));
        lemma_branched(acc, bases[i], options, 0);
        lemma_crossed(branched(acc, bases[i], options, 0), bases, options, i + 1);
    }
}

/// Whether alternatives, where there are any, hold no stray control characters.
pub open spec fn printed_result(v: Result<Seq<Seq<char>>, IptablesRenderErrorView>) -> bool {
    v matches Ok(s) ==> all_plain(s)
}

proof fn lemma_dimension(v: Seq<Seq<char>>, options: Seq<Seq<char>>)
    requires
        all_plain(v),
        all_plain(options),
    ensures
        printed_result(with_dimension(v, options)),
{
    lemma_crossed(Seq::empty(), v, options, 0);
}

proof fn lemma_some_dimension(
    v: Result<Seq<Seq<char>>, IptablesRenderErrorView>,
    test: bool,
    options: Seq<Seq<char>>,
)
    requires
        printed_result(v),
        test ==> all_plain(options),
    ensures
        printed_result(with_some_dimension(v, test, options)),
{
    if v is Ok && test {
        lemma_dimension(v->Ok_0, options);
    }
}

proof fn lemma_flagged(flag: Seq<char>, values: Seq<Seq<char>>)
    requires
        is_plain(flag),
        all_plain(values),
    ensures
        all_plain(flagged(flag, values)),
{
    broadcast use lemma_plain_add;

    lemma_words();
    let s = flagged(flag, values);
    assert forall|i: int| 0 <= i < s.len() implies is_plain(#[trigger] s[i]) by {
        assert(is_plain(values[i]));
    }
}

proof fn lemma_flagged_networks(
    acc: Seq<Seq<char>>,
    flag: Seq<char>,
    n: Seq<IpNetwork>,
    family: IpFamily,
    i: int,
)
    requires
        all_plain(acc),
        is_plain(flag),
        0 <= i,
    ensures
        all_plain(flagged_networks(acc, flag, n, family, i)),
    decreases n.len() - i,
{
    broadcast use lemma_plain_add;

    lemma_words();
    if i < n.len() {
        lemma_network_plain(n[i]);
        lemma_flagged_networks(
            acc.push(flag + " "@ + network_format(n[i])),
            flag,
            n,
            family,
            i + 1,
        );
        lemma_flagged_networks(acc, flag, n, family, i + 1);
    }
}

proof fn lemma_flagged_ports(flag: Seq<char>, p: Seq<PortRange>)
    requires
        is_plain(flag),
    ensures
        all_plain(flagged_ports(flag, p)),
{
    broadcast use lemma_plain_add;

    lemma_words();
    let s = flagged_ports(flag, p);
    assert forall|i: int| 0 <= i < s.len() implies is_plain(#[trigger] s[i]) by {
        lemma_port(p[i]);
    }
}

proof fn lemma_flagged_bytes(flag: Seq<char>, b: Seq<u8>)
    requires
        is_plain(flag),
    ensures
        all_plain(flagged_bytes(flag, b)),
{
    broadcast use lemma_plain_add;

    lemma_words();
    let s = flagged_bytes(flag, b);
    assert forall|i: int| 0 <= i < s.len() implies is_plain(#[trigger] s[i]) by {
        lemma_decimal_plain(b[i] as nat);
    }
}

proof fn lemma_flagged_protocols(p: Seq<FirewallProtocol>)
    ensures
        all_plain(flagged_protocols(p)),
{
    broadcast use lemma_plain_add;

    lemma_words();
    let s = flagged_protocols(p);
    assert forall|i: int| 0 <= i < s.len() implies is_plain(#[trigger] s[i]) by {
        assert(is_plain(protocol_name(p[i])));
    }
}

proof fn lemma_states(acc: Seq<char>, s: Seq<FirewallConntrackState>, i: int)
    requires
        is_plain(acc),
    ensures
        is_plain(states_text(acc, s, i)),
    decreases s.len() - i,
{
    broadcast use lemma_plain_add;

    lemma_words();
    if 0 <= i < s.len() {
        assert(is_plain(state_name(s[i])));
        lemma_states(acc + state_name(s[i]), s, i + 1);
        lemma_states(acc + ","@ + state_name(s[i]), s, i + 1);
    }
}

/// Whether the names that a match holds hold no stray control characters.
pub open spec fn is_printed_match(m: FirewallMatchView) -> bool {
    all_plain(m.input_interfaces) && all_plain(m.output_interfaces) && all_plain(m.source_macs)
}

proof fn lemma_placed(
    m: FirewallMatchView,
    direction: FirewallDirection,
    sources: Seq<Seq<char>>,
    destinations: Seq<Seq<char>>,
)
    requires
        is_printed_match(m),
        all_plain(sources),
        all_plain(destinations),
    ensures
        printed_result(placed(m, direction, sources, destinations)),
{
    lemma_words();
    let flag = if direction == FirewallDirection::Output {
        "-o"@
    } else {
        "-i"@
    };
    lemma_flagged(flag, sources);
    lemma_flagged("-o"@, destinations);
    lemma_flagged("-i"@, m.input_interfaces);
    lemma_flagged("-o"@, m.output_interfaces);
    let start = Ok::<Seq<Seq<char>>, IptablesRenderErrorView>(seq![Seq::empty()]);
    assert(all_plain(start->Ok_0));
    lemma_some_dimension(start, sources.len() > 0, flagged(flag, sources));
    let zoned = with_some_dimension(start, sources.len() > 0, flagged(flag, sources));
    let both = match zoned {
        Err(e) => Err(e),
        Ok(v) => if destinations.len() > 0 && direction != FirewallDirection::Forward {
            unsupported("destination zone for non-forward direction"@)
        } else {
            with_some_dimension(Ok(v), destinations.len() > 0, flagged("-o"@, destinations))
        },
    };
    lemma_some_dimension(zoned, destinations.len() > 0, flagged("-o"@, destinations));
    assert(printed_result(both));
    lemma_some_dimension(both, m.input_interfaces.len() > 0, flagged("-i"@, m.input_interfaces));
    let input = with_some_dimension(
        both,
        m.input_interfaces.len() > 0,
        flagged("-i"@, m.input_interfaces),
    );
    lemma_some_dimension(input, m.output_interfaces.len() > 0, flagged("-o"@, m.output_interfaces));
}

proof fn lemma_addressed(
    v: Result<Seq<Seq<char>>, IptablesRenderErrorView>,
    m: FirewallMatchView,
    family: IpFamily,
)
    requires
        printed_result(v),
        is_printed_match(m),
    ensures
        printed_result(addressed(v, m, family)),
{
    lemma_words();
    let none = Seq::<Seq<char>>::empty();
    let a = flagged_networks(none, "-s"@, m.source_networks, family, 0);
    let b = flagged_networks(none, "-d"@, m.destination_networks, family, 0);
    let c = flagged("-m mac --mac-source"@, m.source_macs);
    lemma_flagged_networks(none, "-s"@, m.source_networks, family, 0);
    lemma_flagged_networks(none, "-d"@, m.destination_networks, family, 0);
    lemma_flagged("-m mac --mac-source"@, m.source_macs);
    lemma_some_dimension(v, m.source_networks.len() > 0, a);
    let v1 = with_some_dimension(v, m.source_networks.len() > 0, a);
    lemma_some_dimension(v1, m.destination_networks.len() > 0, b);
    let v2 = with_some_dimension(v1, m.destination_networks.len() > 0, b);
    lemma_some_dimension(v2, m.source_macs.len() > 0, c);
}

proof fn lemma_transported(
    v: Result<Seq<Seq<char>>, IptablesRenderErrorView>,
    m: FirewallMatchView,
    family: IpFamily,
)
    requires
        printed_result(v),
    ensures
        printed_result(transported(v, m, family)),
{
    broadcast use lemma_plain_add;

    lemma_words();
    let fitting = fitting_protocols(Seq::empty(), m.protocols, family, 0);
    lemma_flagged_protocols(fitting);
    lemma_flagged_ports("--sport"@, m.source_ports);
    lemma_flagged_ports("--dport"@, m.destination_ports);
    lemma_states(Seq::empty(), m.conntrack_states, 0);
    lemma_flagged_bytes(icmp_flag(family), m.icmp_types);
    let states = seq!["-m conntrack --ctstate "@ + states_text(Seq::empty(), m.conntrack_states, 0)];
    assert(all_plain(states));
    lemma_some_dimension(v, m.protocols.len() > 0, flagged_protocols(fitting));
    let v1 = with_some_dimension(v, m.protocols.len() > 0, flagged_protocols(fitting));
    lemma_some_dimension(v1, m.source_ports.len() > 0, flagged_ports("--sport"@, m.source_ports));
    let v2 = with_some_dimension(
        v1,
        m.source_ports.len() > 0,
        flagged_ports("--sport"@, m.source_ports),
    );
    lemma_some_dimension(
        v2,
        m.destination_ports.len() > 0,
        flagged_ports("--dport"@, m.destination_ports),
    );
    let v3 = with_some_dimension(
        v2,
        m.destination_ports.len() > 0,
        flagged_ports("--dport"@, m.destination_ports),
    );
    lemma_some_dimension(v3, m.conntrack_states.len() > 0, states);
    let v4 = with_some_dimension(v3, m.conntrack_states.len() > 0, states);
    lemma_some_dimension(
        v4,
        m.icmp_types.len() > 0,
        flagged_bytes(icmp_flag(family), m.icmp_types),
    );
}

/// Whether the entries of sets hold no stray control characters.
pub open spec fn printed_sets(sets: Seq<ExpandedSetView>) -> bool {
    forall|i: int| 0 <= i < sets.len() ==> all_plain((#[trigger] sets[i]).entries)
}

proof fn lemma_set_from(sets: Seq<ExpandedSetView>, id: Seq<char>, i: int)
    requires
        printed_sets(sets),
        0 <= i,
    ensures
        set_from(sets, id, i) matches Some(s) ==> all_plain(s.entries),
    decreases sets.len() - i,
{
    if i < sets.len() && sets[i].id != id {
        lemma_set_from(sets, id, i + 1);
    }
}

proof fn lemma_with_sets(
    v: Seq<Seq<char>>,
    sets: Seq<ExpandedSetView>,
    ids: Seq<Seq<char>>,
    family: IpFamily,
    source: bool,
    i: int,
)
    requires
        all_plain(v),
        printed_sets(sets),
        0 <= i,
    ensures
        printed_result(with_sets(v, sets, ids, family, source, i)),
    decreases ids.len() - i,
{
    lemma_words();
    if i < ids.len() {
        lemma_set_from(sets, ids[i], 0);
        if let Some(s) = set_from(sets, ids[i], 0) {
            lemma_flagged("-s"@, s.entries);
            lemma_flagged("-d"@, s.entries);
            lemma_flagged("-m mac --mac-source"@, s.entries);
            lemma_flagged("--sport"@, s.entries);
            lemma_flagged("--dport"@, s.entries);
            if let Ok(Some(options)) = set_options(s, family, source) {
                assert(all_plain(options));
                lemma_dimension(v, options);
                if let Ok(next) = with_dimension(v, options) {
                    lemma_with_sets(next, sets, ids, family, source, i + 1);
                }
            }
        }
    }
}

/// Whether the names that a zone holds hold no stray control characters.
pub open spec fn is_printed_zone(z: FirewallZoneView) -> bool {
    is_plain(z.id) && all_plain(z.networks)
}

pub open spec fn printed_zones(zones: Seq<FirewallZoneView>) -> bool {
    forall|i: int| 0 <= i < zones.len() ==> is_printed_zone(#[trigger] zones[i])
}

proof fn lemma_zone_from(zones: Seq<FirewallZoneView>, id: Seq<char>, i: int)
    requires
        printed_zones(zones),
        0 <= i,
    ensures
        zone_from(zones, id, i) matches Some(z) ==> is_printed_zone(z),
    decreases zones.len() - i,
{
    if i < zones.len() {
        assert(is_printed_zone(zones[i]));
        if zones[i].id != id {
            lemma_zone_from(zones, id, i + 1);
        }
    }
}

proof fn lemma_zone_networks(
    acc: Seq<Seq<char>>,
    zones: Seq<FirewallZoneView>,
    ids: Seq<Seq<char>>,
    i: int,
)
    requires
        printed_zones(zones),
        all_plain(acc),
        0 <= i,
    ensures
        zone_networks(acc, zones, ids, i) matches Some(s) ==> all_plain(s),
    decreases ids.len() - i,
{
    if i < ids.len() {
        lemma_zone_from(zones, ids[i], 0);
        if let Some(z) = zone_from(zones, ids[i], 0) {
            let next = acc + z.networks;
            assert forall|j: int| 0 <= j < next.len() implies is_plain(#[trigger] next[j]) by {
                if j < acc.len() {
                    assert(next[j] == acc[j]);
                } else {
                    assert(next[j] == z.networks[j - acc.len()]);
                }
            }
            lemma_zone_networks(next, zones, ids, i + 1);
        }
    }
}

proof fn lemma_dedup(acc: Seq<Seq<char>>, s: Seq<Seq<char>>, i: int)
    requires
        all_plain(acc),
        all_plain(s),
        0 <= i,
    ensures
        all_plain(dedup(acc, s, i)),
    decreases s.len() - i,
{
    if i < s.len() {
        assert(is_plain(s[i]));
        lemma_dedup(acc, s, i + 1);
        lemma_dedup(acc.push(s[i]), s, i + 1);
    }
}

proof fn lemma_sorted(s: Seq<Seq<char>>)
    requires
        all_plain(s),
    ensures
        all_plain(sorted_texts(s)),
{
    let t = sorted_texts(s);
    law_text_order();
    s.lemma_sort_by_ensures(|a: Seq<char>, b: Seq<char>| text_le(a, b));
    assert forall|i: int| 0 <= i < t.len() implies is_plain(#[trigger] t[i]) by {
        assert(t.to_multiset().count(t[i]) > 0) by {
            broadcast use vstd::seq_lib::group_to_multiset_ensures;

            assert(t.contains(t[i]));
        }
        assert(s.contains(t[i])) by {
            broadcast use vstd::seq_lib::group_to_multiset_ensures;

        }
        let k = choose|k: int| 0 <= k < s.len() && s[k] == t[i];
        assert(is_plain(s[k]));
    }
}

proof fn lemma_interfaces(zones: Seq<FirewallZoneView>, ids: Seq<Seq<char>>)
    requires
        printed_zones(zones),
    ensures
        interfaces_of(zones, ids) matches Some(s) ==> all_plain(s),
{
    lemma_zone_networks(Seq::empty(), zones, ids, 0);
    if let Some(all) = zone_networks(Seq::empty(), zones, ids, 0) {
        lemma_sorted(all);
        lemma_dedup(Seq::empty(), sorted_texts(all), 0);
    }
}

/// Whether the names that a context holds hold no stray control characters.
pub open spec fn is_printed_context(c: RenderContextView) -> bool {
    &&& printed_zones(c.zones)
    &&& printed_sets(c.sets)
    &&& forall|i: int| 0 <= i < c.forwardings.len() ==> is_plain((#[trigger] c.forwardings[i]).id)
    &&& forall|i: int|
        0 <= i < c.filter_rules.len() ==> is_printed_rule(#[trigger] c.filter_rules[i])
    &&& forall|i: int| 0 <= i < c.nat_rules.len() ==> is_printed_nat(#[trigger] c.nat_rules[i])
}

pub open spec fn is_printed_rule(r: FirewallFilterRuleView) -> bool {
    is_plain(r.id) && is_printed_match(r.matches)
}

pub open spec fn is_printed_nat(r: FirewallNatRuleView) -> bool {
    is_plain(r.id) && is_printed_match(r.matches)
}

proof fn lemma_alternatives(
    c: RenderContextView,
    m: FirewallMatchView,
    direction: FirewallDirection,
    family: IpFamily,
)
    requires
        is_printed_context(c),
        is_printed_match(m),
    ensures
        printed_result(alternatives(c, m, direction, family)),
{
    lemma_interfaces(c.zones, m.source_zones);
    lemma_interfaces(c.zones, m.destination_zones);
    if let (Some(s), Some(d)) = (
        interfaces_of(c.zones, m.source_zones),
        interfaces_of(c.zones, m.destination_zones),
    ) {
        let p = placed(m, direction, s, d);
        lemma_placed(m, direction, s, d);
        lemma_addressed(p, m, family);
        let a = addressed(p, m, family);
        lemma_transported(a, m, family);
        if let Ok(v) = transported(a, m, family) {
            lemma_with_sets(v, c.sets, m.source_sets, family, true, 0);
            if let Ok(w) = with_sets(v, c.sets, m.source_sets, family, true, 0) {
                lemma_with_sets(w, c.sets, m.destination_sets, family, false, 0);
            }
        }
    }
}

/// Whether a draft, where there is one, holds no stray control characters.
pub open spec fn printed_draft(d: Drafted) -> bool {
    d matches Ok(t) ==> is_plain(t.text)
}

proof fn lemma_target(
    verdict: FirewallVerdict,
    reject: Option<FirewallRejectKind>,
    family: IpFamily,
)
    ensures
        target_of(verdict, reject, family) matches Some(t) ==> is_plain(t),
{
    lemma_words();
}

proof fn lemma_rule_line(
    chain: Seq<char>,
    matcher: Seq<char>,
    limit: Seq<char>,
    id: Seq<char>,
    target: Seq<char>,
)
    requires
        chain == "MBED_INPUT"@ || chain == "MBED_OUTPUT"@ || chain == "MBED_FORWARD"@ || chain
            == "MBED_PREROUTING"@ || chain == "MBED_POSTROUTING"@,
        is_plain(matcher),
        is_plain(limit),
        is_plain(id),
        is_plain(target),
    ensures
        is_plain(rule_line(chain, matcher, limit, id, target)),
{
    broadcast use lemma_plain_add;

    lemma_words();
    let body = "-A "@ + chain + matcher + limit + " -m comment --comment mbed:"@ + id + " "@
        + target;
    assert(is_plain(body));
}

proof fn lemma_log_line(
    chain: Seq<char>,
    matcher: Seq<char>,
    id: Seq<char>,
    prefix: Seq<char>,
    level: FirewallLogLevel,
)
    requires
        chain == "MBED_INPUT"@ || chain == "MBED_OUTPUT"@ || chain == "MBED_FORWARD"@,
        is_plain(matcher),
        is_plain(id),
        is_double_quotable(prefix),
    ensures
        is_plain(log_line(chain, matcher, id, prefix, level)),
{
    broadcast use lemma_plain_add;

    lemma_words();
    assert(is_plain(prefix)) by {
        reveal(is_plain);
        assert forall|i: int| 0 <= i < prefix.len() implies is_shown(#[trigger] prefix[i]) by {
            assert(!is_ascii_control(prefix[i]));
        }
    }
    assert(is_plain(level_name(level)));
    let body = "-A "@ + chain + matcher
        + " -m limit --limit 1/second --limit-burst 5 -m comment --comment mbed:"@ + id
        + " -j LOG --log-prefix \""@ + prefix + "\" --log-level "@ + level_name(level);
    assert(is_plain(body));
}

proof fn lemma_limit(l: Option<FirewallRateLimit>)
    ensures
        is_plain(limit_text(l)),
{
    broadcast use lemma_plain_add;

    lemma_words();
    if let Some(l) = l {
        lemma_decimal_plain(l.packets_per_second as nat);
        lemma_decimal_plain(l.burst as nat);
    }
}

proof fn lemma_matched(
    d: DraftView,
    r: FirewallFilterRuleView,
    matcher: Seq<char>,
    family: IpFamily,
)
    requires
        is_plain(d.text),
        is_printed_rule(r),
        is_plain(matcher),
    ensures
        printed_draft(matched(d, r, matcher, family)),
{
    let chain = chain_of(r.direction);
    if let Some(log) = r.log {
        if is_double_quotable(log.prefix) {
            lemma_log_line(chain, matcher, r.id, log.prefix, log.level);
            lemma_plain_add(d.text, log_line(chain, matcher, r.id, log.prefix, log.level));
        }
    }
    assert(printed_draft(logged(d, r, matcher)));
    lemma_target(r.verdict, r.reject_with, family);
    lemma_limit(r.rate_limit);
    if let Some(target) = target_of(r.verdict, r.reject_with, family) {
        let line = rule_line(chain, matcher, limit_text(r.rate_limit), r.id, target);
        lemma_rule_line(chain, matcher, limit_text(r.rate_limit), r.id, target);
        if let Ok(next) = logged(d, r, matcher) {
            lemma_plain_add(next.text, line);
        }
    }
}

proof fn lemma_all_matched(
    d: DraftView,
    r: FirewallFilterRuleView,
    matchers: Seq<Seq<char>>,
    family: IpFamily,
    i: int,
)
    requires
        is_plain(d.text),
        is_printed_rule(r),
        all_plain(matchers),
        0 <= i,
    ensures
        printed_draft(all_matched(d, r, matchers, family, i)),
    decreases matchers.len() - i,
{
    if i < matchers.len() {
        assert(is_plain(matchers[i]));
        lemma_matched(d, r, matchers[i], family);
        if let Ok(next) = matched(d, r, matchers[i], family) {
            lemma_all_matched(next, r, matchers, family, i + 1);
        }
    }
}

proof fn lemma_all_filtered(
    d: DraftView,
    c: RenderContextView,
    family: IpFamily,
    i: int,
)
    requires
        is_plain(d.text),
        is_printed_context(c),
        0 <= i,
    ensures
        printed_draft(all_filtered(d, c, family, i)),
    decreases c.filter_rules.len() - i,
{
    if i < c.filter_rules.len() {
        let r = c.filter_rules[i];
        assert(is_printed_rule(r));
        lemma_alternatives(c, r.matches, r.direction, family);
        if let Ok(matchers) = alternatives(c, r.matches, r.direction, family) {
            lemma_all_matched(d, r, matchers, family, 0);
        }
        assert(printed_draft(filtered(d, c, r, family)));
        if let Ok(next) = filtered(d, c, r, family) {
            lemma_all_filtered(next, c, family, i + 1);
        }
    }
}

proof fn lemma_forward_line(input: Seq<char>, output: Seq<char>, id: Seq<char>)
    requires
        is_plain(input),
        is_plain(output),
        is_plain(id),
    ensures
        is_plain(forward_line(input, output, id)),
{
    broadcast use lemma_plain_add;

    lemma_words();
    let body = "-A MBED_FORWARD -i "@ + input + " -o "@ + output + " -m comment --comment mbed:"@
        + id;
    assert(is_plain(body));
}

proof fn lemma_forwarded_to(
    d: DraftView,
    input: Seq<char>,
    outputs: Seq<Seq<char>>,
    id: Seq<char>,
    j: int,
)
    requires
        is_plain(d.text),
        is_plain(input),
        all_plain(outputs),
        is_plain(id),
        0 <= j,
    ensures
        printed_draft(forwarded_to(d, input, outputs, id, j)),
    decreases outputs.len() - j,
{
    if j < outputs.len() {
        let line = forward_line(input, outputs[j], id);
        assert(is_plain(outputs[j]));
        lemma_forward_line(input, outputs[j], id);
        lemma_plain_add(d.text, line);
        if let Ok(room) = counted(d) {
            lemma_forwarded_to(written(room, line), input, outputs, id, j + 1);
        }
    }
}

proof fn lemma_forwarded_from(
    d: DraftView,
    inputs: Seq<Seq<char>>,
    outputs: Seq<Seq<char>>,
    id: Seq<char>,
    i: int,
)
    requires
        is_plain(d.text),
        all_plain(inputs),
        all_plain(outputs),
        is_plain(id),
        0 <= i,
    ensures
        printed_draft(forwarded_from(d, inputs, outputs, id, i)),
    decreases inputs.len() - i,
{
    if i < inputs.len() {
        assert(is_plain(inputs[i]));
        lemma_forwarded_to(d, inputs[i], outputs, id, 0);
        if let Ok(next) = forwarded_to(d, inputs[i], outputs, id, 0) {
            lemma_forwarded_from(next, inputs, outputs, id, i + 1);
        }
    }
}

proof fn lemma_forwarded(d: DraftView, c: RenderContextView, i: int)
    requires
        is_plain(d.text),
        is_printed_context(c),
        0 <= i,
    ensures
        printed_draft(forwarded(d, c, i)),
    decreases c.forwardings.len() - i,
{
    if i < c.forwardings.len() {
        let f = c.forwardings[i];
        assert(is_plain(f.id));
        lemma_zone_from(c.zones, f.source_zone, 0);
        lemma_zone_from(c.zones, f.destination_zone, 0);
        if !f.enabled {
            lemma_forwarded(d, c, i + 1);
        } else if let (Some(s), Some(t)) = (
            zone_from(c.zones, f.source_zone, 0),
            zone_from(c.zones, f.destination_zone, 0),
        ) {
            lemma_forwarded_from(d, s.networks, t.networks, f.id, 0);
            if let Ok(next) = forwarded_from(d, s.networks, t.networks, f.id, 0) {
                lemma_forwarded(next, c, i + 1);
            }
        }
    }
}

proof fn lemma_policy(
    d: Result<DraftView, IptablesRenderErrorView>,
    chain: Seq<char>,
    flag: Seq<char>,
    interface: Seq<char>,
    id: Seq<char>,
    verdict: FirewallVerdict,
)
    requires
        printed_draft(d),
        chain == "MBED_INPUT"@ || chain == "MBED_OUTPUT"@ || chain == "MBED_FORWARD"@,
        is_plain(flag),
        is_plain(interface),
        is_plain(id),
    ensures
        printed_draft(policy(d, policy_line(chain, flag, interface, id, verdict))),
{
    broadcast use lemma_plain_add;

    lemma_words();
    lemma_target(verdict, None, IpFamily::Ipv4);
    let target = target_of(verdict, None, IpFamily::Ipv4)->Some_0;
    let body = "-A "@ + chain + " "@ + flag + " "@ + interface
        + " -m comment --comment mbed:zone:"@ + id + " "@ + target;
    assert(is_plain(target));
    assert(is_plain(body));
    let line = policy_line(chain, flag, interface, id, verdict);
    assert(line == body + "\n"@);
    if let Ok(t) = d {
        lemma_plain_add(t.text, line);
    }
}

proof fn lemma_zone_policies(d: DraftView, z: FirewallZoneView, i: int)
    requires
        is_plain(d.text),
        is_printed_zone(z),
        0 <= i,
    ensures
        printed_draft(zone_policies(d, z, i)),
    decreases z.networks.len() - i,
{
    if i < z.networks.len() {
        let name = z.networks[i];
        assert(is_plain(name));
        lemma_words();
        let start = Ok::<DraftView, IptablesRenderErrorView>(d);
        lemma_policy(start, "MBED_INPUT"@, "-i"@, name, z.id, z.input);
        let input = policy(start, policy_line("MBED_INPUT"@, "-i"@, name, z.id, z.input));
        lemma_policy(input, "MBED_OUTPUT"@, "-o"@, name, z.id, z.output);
        let output = policy(input, policy_line("MBED_OUTPUT"@, "-o"@, name, z.id, z.output));
        lemma_policy(output, "MBED_FORWARD"@, "-i"@, name, z.id, z.forward);
        if let Ok(next) = policy(output, policy_line("MBED_FORWARD"@, "-i"@, name, z.id, z.forward)) {
            lemma_zone_policies(next, z, i + 1);
        }
    }
}

proof fn lemma_policies(
    d: DraftView,
    zones: Seq<FirewallZoneView>,
    i: int,
)
    requires
        is_plain(d.text),
        printed_zones(zones),
        0 <= i,
    ensures
        printed_draft(policies(d, zones, i)),
    decreases zones.len() - i,
{
    if i < zones.len() {
        assert(is_printed_zone(zones[i]));
        if !zones[i].enabled {
            lemma_policies(d, zones, i + 1);
        } else {
            lemma_zone_policies(d, zones[i], 0);
            if let Ok(next) = zone_policies(d, zones[i], 0) {
                lemma_policies(next, zones, i + 1);
            }
        }
    }
}

proof fn lemma_zone_line(interface: Seq<char>, id: Seq<char>)
    requires
        is_plain(interface),
        is_plain(id),
    ensures
        is_plain(mtu_line(interface, id)),
        is_plain(masquerade_line(interface, id)),
{
    broadcast use lemma_plain_add;

    lemma_words();
    let a = "-A MBED_MANGLE_FORWARD -o "@ + interface
        + " -p tcp --tcp-flags SYN,RST SYN -m comment --comment mbed:mtu:"@ + id;
    assert(is_plain(a));
    let b = "-A MBED_POSTROUTING -o "@ + interface + " -m comment --comment mbed:masq:"@ + id;
    assert(is_plain(b));
}

proof fn lemma_zone_lines(
    d: DraftView,
    z: FirewallZoneView,
    mtu: bool,
    i: int,
)
    requires
        is_plain(d.text),
        is_printed_zone(z),
        0 <= i,
    ensures
        printed_draft(zone_lines(d, z, mtu, i)),
    decreases z.networks.len() - i,
{
    if i < z.networks.len() {
        assert(is_plain(z.networks[i]));
        lemma_zone_line(z.networks[i], z.id);
        let line = if mtu {
            mtu_line(z.networks[i], z.id)
        } else {
            masquerade_line(z.networks[i], z.id)
        };
        lemma_plain_add(d.text, line);
        if let Ok(room) = counted(d) {
            lemma_zone_lines(written(room, line), z, mtu, i + 1);
        }
    }
}

proof fn lemma_all_zone_lines(
    d: DraftView,
    zones: Seq<FirewallZoneView>,
    mtu: bool,
    i: int,
)
    requires
        is_plain(d.text),
        printed_zones(zones),
        0 <= i,
    ensures
        printed_draft(all_zone_lines(d, zones, mtu, i)),
    decreases zones.len() - i,
{
    if i < zones.len() {
        assert(is_printed_zone(zones[i]));
        lemma_all_zone_lines(d, zones, mtu, i + 1);
        lemma_zone_lines(d, zones[i], mtu, 0);
        if let Ok(next) = zone_lines(d, zones[i], mtu, 0) {
            lemma_all_zone_lines(next, zones, mtu, i + 1);
        }
    }
}

proof fn lemma_translation(r: FirewallNatRuleView, family: IpFamily)
    ensures
        translation(r, family) matches Ok(Some(t)) ==> is_plain(t),
{
    broadcast use lemma_plain_add;

    lemma_words();
    if let Some(p) = r.translation_port {
        lemma_port(p);
    }
    if let Some(a) = r.translation_address {
        lemma_address_plain(a);
        assert(is_plain(endpoint(a, r.translation_port)));
    }
}

proof fn lemma_all_translated(
    d: DraftView,
    r: FirewallNatRuleView,
    matchers: Seq<Seq<char>>,
    family: IpFamily,
    i: int,
)
    requires
        is_plain(d.text),
        is_printed_nat(r),
        all_plain(matchers),
        0 <= i,
    ensures
        printed_draft(all_translated(d, r, matchers, family, i)),
    decreases matchers.len() - i,
{
    if i < matchers.len() {
        assert(is_plain(matchers[i]));
        lemma_translation(r, family);
        lemma_words();
        match translation(r, family) {
            Ok(Some(target)) => {
                let line = rule_line(nat_chain(r.kind), matchers[i], Seq::empty(), r.id, target);
                lemma_rule_line(nat_chain(r.kind), matchers[i], Seq::empty(), r.id, target);
                lemma_plain_add(d.text, line);
                if let Ok(room) = counted(d) {
                    lemma_all_translated(written(room, line), r, matchers, family, i + 1);
                }
            },
            Ok(None) => {
                lemma_all_translated(d, r, matchers, family, i + 1);
            },
            Err(_) => {},
        }
    }
}

proof fn lemma_translated(
    d: DraftView,
    c: RenderContextView,
    family: IpFamily,
    i: int,
)
    requires
        is_plain(d.text),
        is_printed_context(c),
        0 <= i,
    ensures
        printed_draft(translated(d, c, family, i)),
    decreases c.nat_rules.len() - i,
{
    if i < c.nat_rules.len() {
        let r = c.nat_rules[i];
        assert(is_printed_nat(r));
        let direction = if is_prerouting(r.kind) {
            FirewallDirection::Input
        } else {
            FirewallDirection::Forward
        };
        lemma_alternatives(c, r.matches, direction, family);
        lemma_translated(d, c, family, i + 1);
        if let Ok(matchers) = alternatives(c, r.matches, direction, family) {
            lemma_all_translated(d, r, matchers, family, 0);
            if let Ok(next) = all_translated(d, r, matchers, family, 0) {
                lemma_translated(next, c, family, i + 1);
            }
        }
    }
}

/// Whether the names that an object holds hold no stray control characters.
pub open spec fn is_printed_object(o: FirewallObjectView) -> bool {
    match o {
        FirewallObjectView::Zone(z) => is_printed_zone(z),
        FirewallObjectView::Forwarding(f) => is_plain(f.id),
        FirewallObjectView::FilterRule(r) => is_printed_rule(r),
        FirewallObjectView::NatRule(r) => is_printed_nat(r),
        FirewallObjectView::AddressSet(s) => forall|i: int|
            0 <= i < s.entries.len() ==> (#[trigger] s.entries[i] matches FirewallSetEntryView::Mac(m)
                ==> is_plain(m)),
    }
}

proof fn lemma_with_object(c: RenderContextView, o: FirewallObjectView)
    requires
        is_printed_context(c),
        is_printed_object(o),
    ensures
        with_object(c, o) matches Some(next) ==> is_printed_context(next),
{
    match o {
        FirewallObjectView::FilterRule(r) => {
            let at = filter_slot(c.filter_rules, r, 0);
            lemma_filter_slot(c.filter_rules, r, 0);
            let next = c.filter_rules.insert(at, r);
            assert forall|i: int| 0 <= i < next.len() implies is_printed_rule(#[trigger] next[i]) by {
                if i < at {
                    assert(next[i] == c.filter_rules[i]);
                } else if i > at {
                    assert(next[i] == c.filter_rules[i - 1]);
                }
            }
        },
        FirewallObjectView::NatRule(r) => {
            let at = nat_slot(c.nat_rules, r, 0);
            lemma_nat_slot(c.nat_rules, r, 0);
            let next = c.nat_rules.insert(at, r);
            assert forall|i: int| 0 <= i < next.len() implies is_printed_nat(#[trigger] next[i]) by {
                if i < at {
                    assert(next[i] == c.nat_rules[i]);
                } else if i > at {
                    assert(next[i] == c.nat_rules[i - 1]);
                }
            }
        },
        FirewallObjectView::AddressSet(s) => {
            if let Some(e) = set_expanded(s) {
                let f = |x: FirewallSetEntryView| entry_text(x, e.kind);
                assert forall|i: int| 0 <= i < e.entries.len() implies is_plain(
                    #[trigger] e.entries[i],
                ) by {
                    assert(f(s.entries[i]) is Some);
                    match s.entries[i] {
                        FirewallSetEntryView::Network(n) => {
                            lemma_network_plain(n);
                        },
                        FirewallSetEntryView::Port(p) => {
                            lemma_port(p);
                        },
                        FirewallSetEntryView::Mac(_) => {},
                    }
                }
                assert(all_plain(e.entries));
            }
        },
        _ => {},
    }
}

proof fn lemma_context(c: RenderContextView, objects: Seq<FirewallObjectView>, i: int)
    requires
        is_printed_context(c),
        forall|j: int| 0 <= j < objects.len() ==> is_printed_object(#[trigger] objects[j]),
        0 <= i,
    ensures
        context_of(c, objects, i) matches Some(next) ==> is_printed_context(next),
    decreases objects.len() - i,
{
    if i < objects.len() {
        assert(is_printed_object(objects[i]));
        lemma_with_object(c, objects[i]);
        if let Some(next) = with_object(c, objects[i]) {
            lemma_context(next, objects, i + 1);
        }
    }
}

proof fn lemma_rules_plain(c: RenderContextView, family: IpFamily)
    requires
        is_printed_context(c),
        rules_of(c, family) is Ok,
    ensures
        is_plain(rules_of(c, family)->Ok_0.0),
        is_plain(rules_of(c, family)->Ok_0.1),
        is_plain(rules_of(c, family)->Ok_0.2),
{
    lemma_words();
    let f = filter_rules(c, family, 0)->Ok_0;
    lemma_all_filtered(fresh(0), c, family, 0);
    let d1 = all_filtered(fresh(0), c, family, 0)->Ok_0;
    lemma_forwarded(d1, c, 0);
    let d2 = forwarded(d1, c, 0)->Ok_0;
    lemma_policies(d2, c.zones, 0);
    let m = mangle_rules(c, f.count)->Ok_0;
    lemma_all_zone_lines(fresh(f.count), c.zones, true, 0);
    lemma_translated(fresh(m.count), c, family, 0);
    let n1 = translated(fresh(m.count), c, family, 0)->Ok_0;
    lemma_all_zone_lines(n1, c.zones, false, 0);
}

proof fn lemma_hook_plain(k: int)
    requires
        0 <= k < 6,
    ensures
        is_plain(declare_line(owned_chains()[k])),
        is_plain(hook_line(owned_chains()[k])),
{
    broadcast use lemma_plain_add;

    lemma_words();
    let c = owned_chains()[k];
    assert(is_plain(c.managed) && is_plain(c.builtin) && is_plain(c.marker));
}

proof fn lemma_hooked_plain(rules: (Seq<char>, Seq<char>, Seq<char>))
    requires
        is_plain(rules.0),
        is_plain(rules.1),
        is_plain(rules.2),
    ensures
        is_plain(with_hooks(jump_lines(), rules)),
{
    broadcast use lemma_plain_add;

    lemma_words();
    lemma_hook_plain(0);
    lemma_hook_plain(1);
    lemma_hook_plain(2);
    lemma_hook_plain(3);
    lemma_hook_plain(4);
    lemma_hook_plain(5);
}

/// Both restores that are rendered for absent chains are inspected as the agent's: each of the six chains is
/// declared once and has one jump, with its marker. The names of the objects have to be words without control
/// characters.
pub proof fn law_clean_restores_are_recognised(
    objects: Seq<FirewallObjectView>,
    valid: Seq<bool>,
    changes: Seq<FirewallPlannedChangeView>,
)
    requires
        iptables_stage(
            objects,
            valid,
            changes,
            IptablesFamilyState::Absent,
            IptablesFamilyState::Absent,
        ) is Ok,
        forall|j: int|
            0 <= j < projected(objects, valid, changes)->Ok_0.len() ==> is_plain_object(
                #[trigger] projected(objects, valid, changes)->Ok_0[j],
            ) && is_printed_object(projected(objects, valid, changes)->Ok_0[j]),
    ensures
        ({
            let stage = iptables_stage(
                objects,
                valid,
                changes,
                IptablesFamilyState::Absent,
                IptablesFamilyState::Absent,
            )->Ok_0;
            let owned = Ok::<IptablesFamilyState, IptablesRenderErrorView>(
                IptablesFamilyState::AgentOwned,
            );
            &&& family_state(stage.ipv4_restore) == owned
            &&& family_state(stage.ipv6_restore) == owned
        }),
{
    let absent = IptablesFamilyState::Absent;
    let stage = iptables_stage(objects, valid, changes, absent, absent)->Ok_0;
    let owned = projected(objects, valid, changes)->Ok_0;
    lemma_context(empty_context(), owned, 0);
    let c = context_of(empty_context(), owned, 0)->Some_0;
    lemma_restore_parts(c, IpFamily::Ipv4, absent);
    lemma_restore_parts(c, IpFamily::Ipv6, absent);
    lemma_rules_plain(c, IpFamily::Ipv4);
    lemma_rules_plain(c, IpFamily::Ipv6);
    lemma_hooked_plain(rules_of(c, IpFamily::Ipv4)->Ok_0);
    lemma_hooked_plain(rules_of(c, IpFamily::Ipv6)->Ok_0);
    law_restores_are_hooked_by_state(objects, valid, changes, absent, absent);
    assert(!is_malformed(stage.ipv4_restore)) by {
        reveal(is_plain);
    }
    assert(!is_malformed(stage.ipv6_restore)) by {
        reveal(is_plain);
    }
    law_first_restores_are_recognised(objects, valid, changes);
}

} // verus!
