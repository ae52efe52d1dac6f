//! The restores that are rendered for absent chains are recognised as the agent's.

use vstd::prelude::*;

use crate::firewall_iptables::{
    addressed, all_filtered, all_matched, all_translated, all_zone_lines, alternatives, branched, chain_of,
    context_of, counted, crossed, declare_line, declares, empty_context, endpoint, entry_text, family_state,
    filtered, fitting_protocols, flagged, flagged_bytes, flagged_networks, flagged_ports, flagged_protocols,
    forward_line, forwarded, forwarded_from, forwarded_to, headed, hook_line, icmp_flag, iptables_stage,
    is_absent, is_double_quotable, is_malformed, is_marked, is_prerouting, jumps_to, level_name, limit_text,
    log_line, logged, masquerade_line, matched, mtu_line, nat_chain, owned_chains, placed, policies, policy,
    policy_line, port_text, protocol_name, rule_line, set_expanded, set_from, set_options, state_name,
    states_text, tally_of, target_of, translated, translation, transported, unsupported, value_after,
    with_dimension, with_object, with_sets, with_some_dimension, written, zone_lines, zone_policies,
    DraftView, ExpandedSetView, IpFamily, IptablesFamilyState, IptablesRenderErrorView, RenderContextView,
};
use crate::firewall_model::{
    FirewallConntrackState, FirewallDirection, FirewallFilterRuleView, FirewallLogLevel, FirewallMatchView,
    FirewallNatRuleView, FirewallObjectView, FirewallPlannedChangeView, FirewallProtocol, FirewallRateLimit,
    FirewallRejectKind, FirewallSetEntryView, FirewallVerdict, FirewallZoneView, PortRange,
};
use crate::firewall_project::projected;
use crate::firewall_zones::{dedup, filter_slot, interfaces_of, nat_slot, zone_from, zone_networks};
use crate::isolation_laws::{
    is_inline, is_one_line, lemma_filter_slot, lemma_forward_line, lemma_head_lines, lemma_inline_add,
    lemma_line_ends, lemma_log_line, lemma_nat_slot, lemma_policy_one_line, lemma_rule_line, lemma_table_line,
    lemma_words, lemma_zone_line,
};
use crate::net::{
    address_format, groups_text, ipv4_format, longest_run, network_format, unpack, IpAddr, IpNetwork,
};
use crate::net_laws::{law_address_round_trips, lemma_empty_is_no_address};
use crate::number_laws::{lemma_decimal, lemma_hex};
use crate::order::{law_text_order, sorted_texts, text_le};
use crate::restore_laws::{
    assembled, filter_rules, fresh, head, is_whole, lemma_headed_shift, lemma_lines_append, lemma_lines_one,
    lemma_restore_parts, mangle_rules, nat_rules, rules_of, table_of, Drafted,
};
use crate::tally_laws::{
    is_dark, lemma_dark_add, lemma_dark_inline, lemma_run_add, lemma_run_one, lemma_tally_of,
    lemma_tokens_join, lemma_tokens_word, lemma_value_after, plus, run, share, step_line,
};
use crate::text::{
    chomp, decimal, hex, is_digit, is_hex, is_white, lines, run_end, run_start, starts, tokens, trim_char,
};

verus! {

proof fn lemma_dark_a()
    ensures
        is_dark("-s"@),
        is_dark("-d"@),
        is_dark("-i"@),
        is_dark("-o"@),
        is_dark("-p"@),
        is_dark("-m"@),
        is_dark("mac"@),
        is_dark("--mac-source"@),
        is_dark("--sport"@),
        is_dark("--dport"@),
        is_dark("tcp"@),
        is_dark("udp"@),
        is_dark("icmp"@),
        is_dark("ipv6-icmp"@),
        is_dark("esp"@),
        is_dark("ah"@),
        is_dark("gre"@),
        is_dark("NEW"@),
        is_dark("ESTABLISHED"@),
        is_dark("RELATED"@),
{
    reveal(is_dark);
    assert(is_dark("-s"@)) by {
        reveal_strlit("-s");
        let s = "-s"@;
        assert forall|i: int| 0 <= i < s.len() implies !is_white(#[trigger] s[i]) by {
            assert(i == 0 || i == 1);
        }
    }
    assert(is_dark("-d"@)) by {
        reveal_strlit("-d");
        let s = "-d"@;
        assert forall|i: int| 0 <= i < s.len() implies !is_white(#[trigger] s[i]) by {
            assert(i == 0 || i == 1);
        }
    }
    assert(is_dark("-i"@)) by {
        reveal_strlit("-i");
        let s = "-i"@;
        assert forall|i: int| 0 <= i < s.len() implies !is_white(#[trigger] s[i]) by {
            assert(i == 0 || i == 1);
        }
    }
    assert(is_dark("-o"@)) by {
        reveal_strlit("-o");
        let s = "-o"@;
        assert forall|i: int| 0 <= i < s.len() implies !is_white(#[trigger] s[i]) by {
            assert(i == 0 || i == 1);
        }
    }
    assert(is_dark("-p"@)) by {
        reveal_strlit("-p");
        let s = "-p"@;
        assert forall|i: int| 0 <= i < s.len() implies !is_white(#[trigger] s[i]) by {
            assert(i == 0 || i == 1);
        }
    }
    assert(is_dark("-m"@)) by {
        reveal_strlit("-m");
        let s = "-m"@;
        assert forall|i: int| 0 <= i < s.len() implies !is_white(#[trigger] s[i]) by {
            assert(i == 0 || i == 1);
        }
    }
    assert(is_dark("mac"@)) by {
        reveal_strlit("mac");
        let s = "mac"@;
        assert forall|i: int| 0 <= i < s.len() implies !is_white(#[trigger] s[i]) by {
            assert(i == 0 || i == 1 || i == 2);
        }
    }
    assert(is_dark("--mac-source"@)) by {
        reveal_strlit("--mac-source");
        let s = "--mac-source"@;
        assert forall|i: int| 0 <= i < s.len() implies !is_white(#[trigger] s[i]) by {
            assert(i == 0 || i == 1 || i == 2 || i == 3 || i == 4 || i == 5 || i == 6 || i == 7
                || i == 8 || i == 9 || i == 10 || i == 11);
        }
    }
    assert(is_dark("--sport"@)) by {
        reveal_strlit("--sport");
        let s = "--sport"@;
        assert forall|i: int| 0 <= i < s.len() implies !is_white(#[trigger] s[i]) by {
            assert(i == 0 || i == 1 || i == 2 || i == 3 || i == 4 || i == 5 || i == 6);
        }
    }
    assert(is_dark("--dport"@)) by {
        reveal_strlit("--dport");
        let s = "--dport"@;
        assert forall|i: int| 0 <= i < s.len() implies !is_white(#[trigger] s[i]) by {
            assert(i == 0 || i == 1 || i == 2 || i == 3 || i == 4 || i == 5 || i == 6);
        }
    }
    assert(is_dark("tcp"@)) by {
        reveal_strlit("tcp");
        let s = "tcp"@;
        assert forall|i: int| 0 <= i < s.len() implies !is_white(#[trigger] s[i]) by {
            assert(i == 0 || i == 1 || i == 2);
        }
    }
    assert(is_dark("udp"@)) by {
        reveal_strlit("udp");
        let s = "udp"@;
        assert forall|i: int| 0 <= i < s.len() implies !is_white(#[trigger] s[i]) by {
            assert(i == 0 || i == 1 || i == 2);
        }
    }
    assert(is_dark("icmp"@)) by {
        reveal_strlit("icmp");
        let s = "icmp"@;
        assert forall|i: int| 0 <= i < s.len() implies !is_white(#[trigger] s[i]) by {
            assert(i == 0 || i == 1 || i == 2 || i == 3);
        }
    }
    assert(is_dark("ipv6-icmp"@)) by {
        reveal_strlit("ipv6-icmp");
        let s = "ipv6-icmp"@;
        assert forall|i: int| 0 <= i < s.len() implies !is_white(#[trigger] s[i]) by {
            assert(i == 0 || i == 1 || i == 2 || i == 3 || i == 4 || i == 5 || i == 6 || i == 7
                || i == 8);
        }
    }
    assert(is_dark("esp"@)) by {
        reveal_strlit("esp");
        let s = "esp"@;
        assert forall|i: int| 0 <= i < s.len() implies !is_white(#[trigger] s[i]) by {
            assert(i == 0 || i == 1 || i == 2);
        }
    }
    assert(is_dark("ah"@)) by {
        reveal_strlit("ah");
        let s = "ah"@;
        assert forall|i: int| 0 <= i < s.len() implies !is_white(#[trigger] s[i]) by {
            assert(i == 0 || i == 1);
        }
    }
    assert(is_dark("gre"@)) by {
        reveal_strlit("gre");
        let s = "gre"@;
        assert forall|i: int| 0 <= i < s.len() implies !is_white(#[trigger] s[i]) by {
            assert(i == 0 || i == 1 || i == 2);
        }
    }
    assert(is_dark("NEW"@)) by {
        reveal_strlit("NEW");
        let s = "NEW"@;
        assert forall|i: int| 0 <= i < s.len() implies !is_white(#[trigger] s[i]) by {
            assert(i == 0 || i == 1 || i == 2);
        }
    }
    assert(is_dark("ESTABLISHED"@)) by {
        reveal_strlit("ESTABLISHED");
        let s = "ESTABLISHED"@;
        assert forall|i: int| 0 <= i < s.len() implies !is_white(#[trigger] s[i]) by {
            assert(i == 0 || i == 1 || i == 2 || i == 3 || i == 4 || i == 5 || i == 6 || i == 7
                || i == 8 || i == 9 || i == 10);
        }
    }
    assert(is_dark("RELATED"@)) by {
        reveal_strlit("RELATED");
        let s = "RELATED"@;
        assert forall|i: int| 0 <= i < s.len() implies !is_white(#[trigger] s[i]) by {
            assert(i == 0 || i == 1 || i == 2 || i == 3 || i == 4 || i == 5 || i == 6);
        }
    }
}

proof fn lemma_dark_b()
    ensures
        is_dark("INVALID"@),
        is_dark(","@),
        is_dark("conntrack"@),
        is_dark("--ctstate"@),
        is_dark("--icmp-type"@),
        is_dark("--icmpv6-type"@),
        is_dark("-A"@),
        is_dark("-j"@),
        is_dark("ACCEPT"@),
        is_dark("DROP"@),
        is_dark("REJECT"@),
        is_dark("--reject-with"@),
        is_dark("tcp-reset"@),
        is_dark("icmp-port-unreachable"@),
        is_dark("icmp-host-unreachable"@),
        is_dark("icmp6-port-unreachable"@),
        is_dark("limit"@),
        is_dark("--limit"@),
        is_dark("1/second"@),
        is_dark("--limit-burst"@),
{
    reveal(is_dark);
    assert(is_dark("INVALID"@)) by {
        reveal_strlit("INVALID");
        let s = "INVALID"@;
        assert forall|i: int| 0 <= i < s.len() implies !is_white(#[trigger] s[i]) by {
            assert(i == 0 || i == 1 || i == 2 || i == 3 || i == 4 || i == 5 || i == 6);
        }
    }
    assert(is_dark(","@)) by {
        reveal_strlit(",");
        let s = ","@;
        assert forall|i: int| 0 <= i < s.len() implies !is_white(#[trigger] s[i]) by {
            assert(i == 0);
        }
    }
    assert(is_dark("conntrack"@)) by {
        reveal_strlit("conntrack");
        let s = "conntrack"@;
        assert forall|i: int| 0 <= i < s.len() implies !is_white(#[trigger] s[i]) by {
            assert(i == 0 || i == 1 || i == 2 || i == 3 || i == 4 || i == 5 || i == 6 || i == 7
                || i == 8);
        }
    }
    assert(is_dark("--ctstate"@)) by {
        reveal_strlit("--ctstate");
        let s = "--ctstate"@;
        assert forall|i: int| 0 <= i < s.len() implies !is_white(#[trigger] s[i]) by {
            assert(i == 0 || i == 1 || i == 2 || i == 3 || i == 4 || i == 5 || i == 6 || i == 7
                || i == 8);
        }
    }
    assert(is_dark("--icmp-type"@)) by {
        reveal_strlit("--icmp-type");
        let s = "--icmp-type"@;
        assert forall|i: int| 0 <= i < s.len() implies !is_white(#[trigger] s[i]) by {
            assert(i == 0 || i == 1 || i == 2 || i == 3 || i == 4 || i == 5 || i == 6 || i == 7
                || i == 8 || i == 9 || i == 10);
        }
    }
    assert(is_dark("--icmpv6-type"@)) by {
        reveal_strlit("--icmpv6-type");
        let s = "--icmpv6-type"@;
        assert forall|i: int| 0 <= i < s.len() implies !is_white(#[trigger] s[i]) by {
            assert(i == 0 || i == 1 || i == 2 || i == 3 || i == 4 || i == 5 || i == 6 || i == 7
                || i == 8 || i == 9 || i == 10 || i == 11 || i == 12);
        }
    }
    assert(is_dark("-A"@)) by {
        reveal_strlit("-A");
        let s = "-A"@;
        assert forall|i: int| 0 <= i < s.len() implies !is_white(#[trigger] s[i]) by {
            assert(i == 0 || i == 1);
        }
    }
    assert(is_dark("-j"@)) by {
        reveal_strlit("-j");
        let s = "-j"@;
        assert forall|i: int| 0 <= i < s.len() implies !is_white(#[trigger] s[i]) by {
            assert(i == 0 || i == 1);
        }
    }
    assert(is_dark("ACCEPT"@)) by {
        reveal_strlit("ACCEPT");
        let s = "ACCEPT"@;
        assert forall|i: int| 0 <= i < s.len() implies !is_white(#[trigger] s[i]) by {
            assert(i == 0 || i == 1 || i == 2 || i == 3 || i == 4 || i == 5);
        }
    }
    assert(is_dark("DROP"@)) by {
        reveal_strlit("DROP");
        let s = "DROP"@;
        assert forall|i: int| 0 <= i < s.len() implies !is_white(#[trigger] s[i]) by {
            assert(i == 0 || i == 1 || i == 2 || i == 3);
        }
    }
    assert(is_dark("REJECT"@)) by {
        reveal_strlit("REJECT");
        let s = "REJECT"@;
        assert forall|i: int| 0 <= i < s.len() implies !is_white(#[trigger] s[i]) by {
            assert(i == 0 || i == 1 || i == 2 || i == 3 || i == 4 || i == 5);
        }
    }
    assert(is_dark("--reject-with"@)) by {
        reveal_strlit("--reject-with");
        let s = "--reject-with"@;
        assert forall|i: int| 0 <= i < s.len() implies !is_white(#[trigger] s[i]) by {
            assert(i == 0 || i == 1 || i == 2 || i == 3 || i == 4 || i == 5 || i == 6 || i == 7
                || i == 8 || i == 9 || i == 10 || i == 11 || i == 12);
        }
    }
    assert(is_dark("tcp-reset"@)) by {
        reveal_strlit("tcp-reset");
        let s = "tcp-reset"@;
        assert forall|i: int| 0 <= i < s.len() implies !is_white(#[trigger] s[i]) by {
            assert(i == 0 || i == 1 || i == 2 || i == 3 || i == 4 || i == 5 || i == 6 || i == 7
                || i == 8);
        }
    }
    assert(is_dark("icmp-port-unreachable"@)) by {
        reveal_strlit("icmp-port-unreachable");
        let s = "icmp-port-unreachable"@;
        assert forall|i: int| 0 <= i < s.len() implies !is_white(#[trigger] s[i]) by {
            assert(i == 0 || i == 1 || i == 2 || i == 3 || i == 4 || i == 5 || i == 6 || i == 7
                || i == 8 || i == 9 || i == 10 || i == 11 || i == 12 || i == 13 || i == 14 || i == 15
                || i == 16 || i == 17 || i == 18 || i == 19 || i == 20);
        }
    }
    assert(is_dark("icmp-host-unreachable"@)) by {
        reveal_strlit("icmp-host-unreachable");
        let s = "icmp-host-unreachable"@;
        assert forall|i: int| 0 <= i < s.len() implies !is_white(#[trigger] s[i]) by {
            assert(i == 0 || i == 1 || i == 2 || i == 3 || i == 4 || i == 5 || i == 6 || i == 7
                || i == 8 || i == 9 || i == 10 || i == 11 || i == 12 || i == 13 || i == 14 || i == 15
                || i == 16 || i == 17 || i == 18 || i == 19 || i == 20);
        }
    }
    assert(is_dark("icmp6-port-unreachable"@)) by {
        reveal_strlit("icmp6-port-unreachable");
        let s = "icmp6-port-unreachable"@;
        assert forall|i: int| 0 <= i < s.len() implies !is_white(#[trigger] s[i]) by {
            assert(i == 0 || i == 1 || i == 2 || i == 3 || i == 4 || i == 5 || i == 6 || i == 7
                || i == 8 || i == 9 || i == 10 || i == 11 || i == 12 || i == 13 || i == 14 || i == 15
                || i == 16 || i == 17 || i == 18 || i == 19 || i == 20 || i == 21);
        }
    }
    assert(is_dark("limit"@)) by {
        reveal_strlit("limit");
        let s = "limit"@;
        assert forall|i: int| 0 <= i < s.len() implies !is_white(#[trigger] s[i]) by {
            assert(i == 0 || i == 1 || i == 2 || i == 3 || i == 4);
        }
    }
    assert(is_dark("--limit"@)) by {
        reveal_strlit("--limit");
        let s = "--limit"@;
        assert forall|i: int| 0 <= i < s.len() implies !is_white(#[trigger] s[i]) by {
            assert(i == 0 || i == 1 || i == 2 || i == 3 || i == 4 || i == 5 || i == 6);
        }
    }
    assert(is_dark("1/second"@)) by {
        reveal_strlit("1/second");
        let s = "1/second"@;
        assert forall|i: int| 0 <= i < s.len() implies !is_white(#[trigger] s[i]) by {
            assert(i == 0 || i == 1 || i == 2 || i == 3 || i == 4 || i == 5 || i == 6 || i == 7);
        }
    }
    assert(is_dark("--limit-burst"@)) by {
        reveal_strlit("--limit-burst");
        let s = "--limit-burst"@;
        assert forall|i: int| 0 <= i < s.len() implies !is_white(#[trigger] s[i]) by {
            assert(i == 0 || i == 1 || i == 2 || i == 3 || i == 4 || i == 5 || i == 6 || i == 7
                || i == 8 || i == 9 || i == 10 || i == 11 || i == 12);
        }
    }
}

proof fn lemma_dark_c()
    ensures
        is_dark("5"@),
        is_dark("comment"@),
        is_dark("--comment"@),
        is_dark("mbed:"@),
        is_dark("LOG"@),
        is_dark("--log-prefix"@),
        is_dark("/second"@),
        is_dark("mbed:zone:"@),
        is_dark("mbed:mtu:"@),
        is_dark("mbed:masq:"@),
        is_dark("--tcp-flags"@),
        is_dark("SYN,RST"@),
        is_dark("SYN"@),
        is_dark("TCPMSS"@),
        is_dark("--clamp-mss-to-pmtu"@),
        is_dark("MASQUERADE"@),
        is_dark("REDIRECT"@),
        is_dark("--to-ports"@),
        is_dark("DNAT"@),
        is_dark("--to-destination"@),
{
    reveal(is_dark);
    assert(is_dark("5"@)) by {
        reveal_strlit("5");
        let s = "5"@;
        assert forall|i: int| 0 <= i < s.len() implies !is_white(#[trigger] s[i]) by {
            assert(i == 0);
        }
    }
    assert(is_dark("comment"@)) by {
        reveal_strlit("comment");
        let s = "comment"@;
        assert forall|i: int| 0 <= i < s.len() implies !is_white(#[trigger] s[i]) by {
            assert(i == 0 || i == 1 || i == 2 || i == 3 || i == 4 || i == 5 || i == 6);
        }
    }
    assert(is_dark("--comment"@)) by {
        reveal_strlit("--comment");
        let s = "--comment"@;
        assert forall|i: int| 0 <= i < s.len() implies !is_white(#[trigger] s[i]) by {
            assert(i == 0 || i == 1 || i == 2 || i == 3 || i == 4 || i == 5 || i == 6 || i == 7
                || i == 8);
        }
    }
    assert(is_dark("mbed:"@)) by {
        reveal_strlit("mbed:");
        let s = "mbed:"@;
        assert forall|i: int| 0 <= i < s.len() implies !is_white(#[trigger] s[i]) by {
            assert(i == 0 || i == 1 || i == 2 || i == 3 || i == 4);
        }
    }
    assert(is_dark("LOG"@)) by {
        reveal_strlit("LOG");
        let s = "LOG"@;
        assert forall|i: int| 0 <= i < s.len() implies !is_white(#[trigger] s[i]) by {
            assert(i == 0 || i == 1 || i == 2);
        }
    }
    assert(is_dark("--log-prefix"@)) by {
        reveal_strlit("--log-prefix");
        let s = "--log-prefix"@;
        assert forall|i: int| 0 <= i < s.len() implies !is_white(#[trigger] s[i]) by {
            assert(i == 0 || i == 1 || i == 2 || i == 3 || i == 4 || i == 5 || i == 6 || i == 7
                || i == 8 || i == 9 || i == 10 || i == 11);
        }
    }
    assert(is_dark("/second"@)) by {
        reveal_strlit("/second");
        let s = "/second"@;
        assert forall|i: int| 0 <= i < s.len() implies !is_white(#[trigger] s[i]) by {
            assert(i == 0 || i == 1 || i == 2 || i == 3 || i == 4 || i == 5 || i == 6);
        }
    }
    assert(is_dark("mbed:zone:"@)) by {
        reveal_strlit("mbed:zone:");
        let s = "mbed:zone:"@;
        assert forall|i: int| 0 <= i < s.len() implies !is_white(#[trigger] s[i]) by {
            assert(i == 0 || i == 1 || i == 2 || i == 3 || i == 4 || i == 5 || i == 6 || i == 7
                || i == 8 || i == 9);
        }
    }
    assert(is_dark("mbed:mtu:"@)) by {
        reveal_strlit("mbed:mtu:");
        let s = "mbed:mtu:"@;
        assert forall|i: int| 0 <= i < s.len() implies !is_white(#[trigger] s[i]) by {
            assert(i == 0 || i == 1 || i == 2 || i == 3 || i == 4 || i == 5 || i == 6 || i == 7
                || i == 8);
        }
    }
    assert(is_dark("mbed:masq:"@)) by {
        reveal_strlit("mbed:masq:");
        let s = "mbed:masq:"@;
        assert forall|i: int| 0 <= i < s.len() implies !is_white(#[trigger] s[i]) by {
            assert(i == 0 || i == 1 || i == 2 || i == 3 || i == 4 || i == 5 || i == 6 || i == 7
                || i == 8 || i == 9);
        }
    }
    assert(is_dark("--tcp-flags"@)) by {
        reveal_strlit("--tcp-flags");
        let s = "--tcp-flags"@;
        assert forall|i: int| 0 <= i < s.len() implies !is_white(#[trigger] s[i]) by {
            assert(i == 0 || i == 1 || i == 2 || i == 3 || i == 4 || i == 5 || i == 6 || i == 7
                || i == 8 || i == 9 || i == 10);
        }
    }
    assert(is_dark("SYN,RST"@)) by {
        reveal_strlit("SYN,RST");
        let s = "SYN,RST"@;
        assert forall|i: int| 0 <= i < s.len() implies !is_white(#[trigger] s[i]) by {
            assert(i == 0 || i == 1 || i == 2 || i == 3 || i == 4 || i == 5 || i == 6);
        }
    }
    assert(is_dark("SYN"@)) by {
        reveal_strlit("SYN");
        let s = "SYN"@;
        assert forall|i: int| 0 <= i < s.len() implies !is_white(#[trigger] s[i]) by {
            assert(i == 0 || i == 1 || i == 2);
        }
    }
    assert(is_dark("TCPMSS"@)) by {
        reveal_strlit("TCPMSS");
        let s = "TCPMSS"@;
        assert forall|i: int| 0 <= i < s.len() implies !is_white(#[trigger] s[i]) by {
            assert(i == 0 || i == 1 || i == 2 || i == 3 || i == 4 || i == 5);
        }
    }
    assert(is_dark("--clamp-mss-to-pmtu"@)) by {
        reveal_strlit("--clamp-mss-to-pmtu");
        let s = "--clamp-mss-to-pmtu"@;
        assert forall|i: int| 0 <= i < s.len() implies !is_white(#[trigger] s[i]) by {
            assert(i == 0 || i == 1 || i == 2 || i == 3 || i == 4 || i == 5 || i == 6 || i == 7
                || i == 8 || i == 9 || i == 10 || i == 11 || i == 12 || i == 13 || i == 14 || i == 15
                || i == 16 || i == 17 || i == 18);
        }
    }
    assert(is_dark("MASQUERADE"@)) by {
        reveal_strlit("MASQUERADE");
        let s = "MASQUERADE"@;
        assert forall|i: int| 0 <= i < s.len() implies !is_white(#[trigger] s[i]) by {
            assert(i == 0 || i == 1 || i == 2 || i == 3 || i == 4 || i == 5 || i == 6 || i == 7
                || i == 8 || i == 9);
        }
    }
    assert(is_dark("REDIRECT"@)) by {
        reveal_strlit("REDIRECT");
        let s = "REDIRECT"@;
        assert forall|i: int| 0 <= i < s.len() implies !is_white(#[trigger] s[i]) by {
            assert(i == 0 || i == 1 || i == 2 || i == 3 || i == 4 || i == 5 || i == 6 || i == 7);
        }
    }
    assert(is_dark("--to-ports"@)) by {
        reveal_strlit("--to-ports");
        let s = "--to-ports"@;
        assert forall|i: int| 0 <= i < s.len() implies !is_white(#[trigger] s[i]) by {
            assert(i == 0 || i == 1 || i == 2 || i == 3 || i == 4 || i == 5 || i == 6 || i == 7
                || i == 8 || i == 9);
        }
    }
    assert(is_dark("DNAT"@)) by {
        reveal_strlit("DNAT");
        let s = "DNAT"@;
        assert forall|i: int| 0 <= i < s.len() implies !is_white(#[trigger] s[i]) by {
            assert(i == 0 || i == 1 || i == 2 || i == 3);
        }
    }
    assert(is_dark("--to-destination"@)) by {
        reveal_strlit("--to-destination");
        let s = "--to-destination"@;
        assert forall|i: int| 0 <= i < s.len() implies !is_white(#[trigger] s[i]) by {
            assert(i == 0 || i == 1 || i == 2 || i == 3 || i == 4 || i == 5 || i == 6 || i == 7
                || i == 8 || i == 9 || i == 10 || i == 11 || i == 12 || i == 13 || i == 14 || i == 15);
        }
    }
}

proof fn lemma_dark_d()
    ensures
        is_dark("SNAT"@),
        is_dark("--to-source"@),
        is_dark(":"@),
        is_dark("["@),
        is_dark("]:"@),
        is_dark("."@),
        is_dark("/"@),
        is_dark("-"@),
        is_dark("::"@),
        is_dark("::ffff:"@),
        is_dark("emerg"@),
        is_dark("alert"@),
        is_dark("crit"@),
        is_dark("error"@),
        is_dark("warning"@),
        is_dark("notice"@),
        is_dark("info"@),
        is_dark("debug"@),
        is_dark("[0:0]"@),
        is_dark("INPUT"@),
{
    reveal(is_dark);
    assert(is_dark("SNAT"@)) by {
        reveal_strlit("SNAT");
        let s = "SNAT"@;
        assert forall|i: int| 0 <= i < s.len() implies !is_white(#[trigger] s[i]) by {
            assert(i == 0 || i == 1 || i == 2 || i == 3);
        }
    }
    assert(is_dark("--to-source"@)) by {
        reveal_strlit("--to-source");
        let s = "--to-source"@;
        assert forall|i: int| 0 <= i < s.len() implies !is_white(#[trigger] s[i]) by {
            assert(i == 0 || i == 1 || i == 2 || i == 3 || i == 4 || i == 5 || i == 6 || i == 7
                || i == 8 || i == 9 || i == 10);
        }
    }
    assert(is_dark(":"@)) by {
        reveal_strlit(":");
        let s = ":"@;
        assert forall|i: int| 0 <= i < s.len() implies !is_white(#[trigger] s[i]) by {
            assert(i == 0);
        }
    }
    assert(is_dark("["@)) by {
        reveal_strlit("[");
        let s = "["@;
        assert forall|i: int| 0 <= i < s.len() implies !is_white(#[trigger] s[i]) by {
            assert(i == 0);
        }
    }
    assert(is_dark("]:"@)) by {
        reveal_strlit("]:");
        let s = "]:"@;
        assert forall|i: int| 0 <= i < s.len() implies !is_white(#[trigger] s[i]) by {
            assert(i == 0 || i == 1);
        }
    }
    assert(is_dark("."@)) by {
        reveal_strlit(".");
        let s = "."@;
        assert forall|i: int| 0 <= i < s.len() implies !is_white(#[trigger] s[i]) by {
            assert(i == 0);
        }
    }
    assert(is_dark("/"@)) by {
        reveal_strlit("/");
        let s = "/"@;
        assert forall|i: int| 0 <= i < s.len() implies !is_white(#[trigger] s[i]) by {
            assert(i == 0);
        }
    }
    assert(is_dark("-"@)) by {
        reveal_strlit("-");
        let s = "-"@;
        assert forall|i: int| 0 <= i < s.len() implies !is_white(#[trigger] s[i]) by {
            assert(i == 0);
        }
    }
    assert(is_dark("::"@)) by {
        reveal_strlit("::");
        let s = "::"@;
        assert forall|i: int| 0 <= i < s.len() implies !is_white(#[trigger] s[i]) by {
            assert(i == 0 || i == 1);
        }
    }
    assert(is_dark("::ffff:"@)) by {
        reveal_strlit("::ffff:");
        let s = "::ffff:"@;
        assert forall|i: int| 0 <= i < s.len() implies !is_white(#[trigger] s[i]) by {
            assert(i == 0 || i == 1 || i == 2 || i == 3 || i == 4 || i == 5 || i == 6);
        }
    }
    assert(is_dark("emerg"@)) by {
        reveal_strlit("emerg");
        let s = "emerg"@;
        assert forall|i: int| 0 <= i < s.len() implies !is_white(#[trigger] s[i]) by {
            assert(i == 0 || i == 1 || i == 2 || i == 3 || i == 4);
        }
    }
    assert(is_dark("alert"@)) by {
        reveal_strlit("alert");
        let s = "alert"@;
        assert forall|i: int| 0 <= i < s.len() implies !is_white(#[trigger] s[i]) by {
            assert(i == 0 || i == 1 || i == 2 || i == 3 || i == 4);
        }
    }
    assert(is_dark("crit"@)) by {
        reveal_strlit("crit");
        let s = "crit"@;
        assert forall|i: int| 0 <= i < s.len() implies !is_white(#[trigger] s[i]) by {
            assert(i == 0 || i == 1 || i == 2 || i == 3);
        }
    }
    assert(is_dark("error"@)) by {
        reveal_strlit("error");
        let s = "error"@;
        assert forall|i: int| 0 <= i < s.len() implies !is_white(#[trigger] s[i]) by {
            assert(i == 0 || i == 1 || i == 2 || i == 3 || i == 4);
        }
    }
    assert(is_dark("warning"@)) by {
        reveal_strlit("warning");
        let s = "warning"@;
        assert forall|i: int| 0 <= i < s.len() implies !is_white(#[trigger] s[i]) by {
            assert(i == 0 || i == 1 || i == 2 || i == 3 || i == 4 || i == 5 || i == 6);
        }
    }
    assert(is_dark("notice"@)) by {
        reveal_strlit("notice");
        let s = "notice"@;
        assert forall|i: int| 0 <= i < s.len() implies !is_white(#[trigger] s[i]) by {
            assert(i == 0 || i == 1 || i == 2 || i == 3 || i == 4 || i == 5);
        }
    }
    assert(is_dark("info"@)) by {
        reveal_strlit("info");
        let s = "info"@;
        assert forall|i: int| 0 <= i < s.len() implies !is_white(#[trigger] s[i]) by {
            assert(i == 0 || i == 1 || i == 2 || i == 3);
        }
    }
    assert(is_dark("debug"@)) by {
        reveal_strlit("debug");
        let s = "debug"@;
        assert forall|i: int| 0 <= i < s.len() implies !is_white(#[trigger] s[i]) by {
            assert(i == 0 || i == 1 || i == 2 || i == 3 || i == 4);
        }
    }
    assert(is_dark("[0:0]"@)) by {
        reveal_strlit("[0:0]");
        let s = "[0:0]"@;
        assert forall|i: int| 0 <= i < s.len() implies !is_white(#[trigger] s[i]) by {
            assert(i == 0 || i == 1 || i == 2 || i == 3 || i == 4);
        }
    }
    assert(is_dark("INPUT"@)) by {
        reveal_strlit("INPUT");
        let s = "INPUT"@;
        assert forall|i: int| 0 <= i < s.len() implies !is_white(#[trigger] s[i]) by {
            assert(i == 0 || i == 1 || i == 2 || i == 3 || i == 4);
        }
    }
}

proof fn lemma_dark_e()
    ensures
        is_dark("OUTPUT"@),
        is_dark("FORWARD"@),
        is_dark("PREROUTING"@),
        is_dark("POSTROUTING"@),
        is_dark("MBED_INPUT"@),
        is_dark("MBED_OUTPUT"@),
        is_dark("MBED_FORWARD"@),
        is_dark("MBED_PREROUTING"@),
        is_dark("MBED_POSTROUTING"@),
        is_dark("MBED_MANGLE_FORWARD"@),
        is_dark("mbed-agent-owned:v1:input"@),
        is_dark("mbed-agent-owned:v1:output"@),
        is_dark("mbed-agent-owned:v1:forward"@),
        is_dark("mbed-agent-owned:v1:prerouting"@),
        is_dark("mbed-agent-owned:v1:postrouting"@),
        is_dark("mbed-agent-owned:v1:mangle-forward"@),
{
    reveal(is_dark);
    assert(is_dark("OUTPUT"@)) by {
        reveal_strlit("OUTPUT");
        let s = "OUTPUT"@;
        assert forall|i: int| 0 <= i < s.len() implies !is_white(#[trigger] s[i]) by {
            assert(i == 0 || i == 1 || i == 2 || i == 3 || i == 4 || i == 5);
        }
    }
    assert(is_dark("FORWARD"@)) by {
        reveal_strlit("FORWARD");
        let s = "FORWARD"@;
        assert forall|i: int| 0 <= i < s.len() implies !is_white(#[trigger] s[i]) by {
            assert(i == 0 || i == 1 || i == 2 || i == 3 || i == 4 || i == 5 || i == 6);
        }
    }
    assert(is_dark("PREROUTING"@)) by {
        reveal_strlit("PREROUTING");
        let s = "PREROUTING"@;
        assert forall|i: int| 0 <= i < s.len() implies !is_white(#[trigger] s[i]) by {
            assert(i == 0 || i == 1 || i == 2 || i == 3 || i == 4 || i == 5 || i == 6 || i == 7
                || i == 8 || i == 9);
        }
    }
    assert(is_dark("POSTROUTING"@)) by {
        reveal_strlit("POSTROUTING");
        let s = "POSTROUTING"@;
        assert forall|i: int| 0 <= i < s.len() implies !is_white(#[trigger] s[i]) by {
            assert(i == 0 || i == 1 || i == 2 || i == 3 || i == 4 || i == 5 || i == 6 || i == 7
                || i == 8 || i == 9 || i == 10);
        }
    }
    assert(is_dark("MBED_INPUT"@)) by {
        reveal_strlit("MBED_INPUT");
        let s = "MBED_INPUT"@;
        assert forall|i: int| 0 <= i < s.len() implies !is_white(#[trigger] s[i]) by {
            assert(i == 0 || i == 1 || i == 2 || i == 3 || i == 4 || i == 5 || i == 6 || i == 7
                || i == 8 || i == 9);
        }
    }
    assert(is_dark("MBED_OUTPUT"@)) by {
        reveal_strlit("MBED_OUTPUT");
        let s = "MBED_OUTPUT"@;
        assert forall|i: int| 0 <= i < s.len() implies !is_white(#[trigger] s[i]) by {
            assert(i == 0 || i == 1 || i == 2 || i == 3 || i == 4 || i == 5 || i == 6 || i == 7
                || i == 8 || i == 9 || i == 10);
        }
    }
    assert(is_dark("MBED_FORWARD"@)) by {
        reveal_strlit("MBED_FORWARD");
        let s = "MBED_FORWARD"@;
        assert forall|i: int| 0 <= i < s.len() implies !is_white(#[trigger] s[i]) by {
            assert(i == 0 || i == 1 || i == 2 || i == 3 || i == 4 || i == 5 || i == 6 || i == 7
                || i == 8 || i == 9 || i == 10 || i == 11);
        }
    }
    assert(is_dark("MBED_PREROUTING"@)) by {
        reveal_strlit("MBED_PREROUTING");
        let s = "MBED_PREROUTING"@;
        assert forall|i: int| 0 <= i < s.len() implies !is_white(#[trigger] s[i]) by {
            assert(i == 0 || i == 1 || i == 2 || i == 3 || i == 4 || i == 5 || i == 6 || i == 7
                || i == 8 || i == 9 || i == 10 || i == 11 || i == 12 || i == 13 || i == 14);
        }
    }
    assert(is_dark("MBED_POSTROUTING"@)) by {
        reveal_strlit("MBED_POSTROUTING");
        let s = "MBED_POSTROUTING"@;
        assert forall|i: int| 0 <= i < s.len() implies !is_white(#[trigger] s[i]) by {
            assert(i == 0 || i == 1 || i == 2 || i == 3 || i == 4 || i == 5 || i == 6 || i == 7
                || i == 8 || i == 9 || i == 10 || i == 11 || i == 12 || i == 13 || i == 14 || i == 15);
        }
    }
    assert(is_dark("MBED_MANGLE_FORWARD"@)) by {
        reveal_strlit("MBED_MANGLE_FORWARD");
        let s = "MBED_MANGLE_FORWARD"@;
        assert forall|i: int| 0 <= i < s.len() implies !is_white(#[trigger] s[i]) by {
            assert(i == 0 || i == 1 || i == 2 || i == 3 || i == 4 || i == 5 || i == 6 || i == 7
                || i == 8 || i == 9 || i == 10 || i == 11 || i == 12 || i == 13 || i == 14 || i == 15
                || i == 16 || i == 17 || i == 18);
        }
    }
    assert(is_dark("mbed-agent-owned:v1:input"@)) by {
        reveal_strlit("mbed-agent-owned:v1:input");
        let s = "mbed-agent-owned:v1:input"@;
        assert forall|i: int| 0 <= i < s.len() implies !is_white(#[trigger] s[i]) by {
            assert(i == 0 || i == 1 || i == 2 || i == 3 || i == 4 || i == 5 || i == 6 || i == 7
                || i == 8 || i == 9 || i == 10 || i == 11 || i == 12 || i == 13 || i == 14 || i == 15
                || i == 16 || i == 17 || i == 18 || i == 19 || i == 20 || i == 21 || i == 22 || i == 23
                || i == 24);
        }
    }
    assert(is_dark("mbed-agent-owned:v1:output"@)) by {
        reveal_strlit("mbed-agent-owned:v1:output");
        let s = "mbed-agent-owned:v1:output"@;
        assert forall|i: int| 0 <= i < s.len() implies !is_white(#[trigger] s[i]) by {
            assert(i == 0 || i == 1 || i == 2 || i == 3 || i == 4 || i == 5 || i == 6 || i == 7
                || i == 8 || i == 9 || i == 10 || i == 11 || i == 12 || i == 13 || i == 14 || i == 15
                || i == 16 || i == 17 || i == 18 || i == 19 || i == 20 || i == 21 || i == 22 || i == 23
                || i == 24 || i == 25);
        }
    }
    assert(is_dark("mbed-agent-owned:v1:forward"@)) by {
        reveal_strlit("mbed-agent-owned:v1:forward");
        let s = "mbed-agent-owned:v1:forward"@;
        assert forall|i: int| 0 <= i < s.len() implies !is_white(#[trigger] s[i]) by {
            assert(i == 0 || i == 1 || i == 2 || i == 3 || i == 4 || i == 5 || i == 6 || i == 7
                || i == 8 || i == 9 || i == 10 || i == 11 || i == 12 || i == 13 || i == 14 || i == 15
                || i == 16 || i == 17 || i == 18 || i == 19 || i == 20 || i == 21 || i == 22 || i == 23
                || i == 24 || i == 25 || i == 26);
        }
    }
    assert(is_dark("mbed-agent-owned:v1:prerouting"@)) by {
        reveal_strlit("mbed-agent-owned:v1:prerouting");
        let s = "mbed-agent-owned:v1:prerouting"@;
        assert forall|i: int| 0 <= i < s.len() implies !is_white(#[trigger] s[i]) by {
            assert(i == 0 || i == 1 || i == 2 || i == 3 || i == 4 || i == 5 || i == 6 || i == 7
                || i == 8 || i == 9 || i == 10 || i == 11 || i == 12 || i == 13 || i == 14 || i == 15
                || i == 16 || i == 17 || i == 18 || i == 19 || i == 20 || i == 21 || i == 22 || i == 23
                || i == 24 || i == 25 || i == 26 || i == 27 || i == 28 || i == 29);
        }
    }
    assert(is_dark("mbed-agent-owned:v1:postrouting"@)) by {
        reveal_strlit("mbed-agent-owned:v1:postrouting");
        let s = "mbed-agent-owned:v1:postrouting"@;
        assert forall|i: int| 0 <= i < s.len() implies !is_white(#[trigger] s[i]) by {
            assert(i == 0 || i == 1 || i == 2 || i == 3 || i == 4 || i == 5 || i == 6 || i == 7
                || i == 8 || i == 9 || i == 10 || i == 11 || i == 12 || i == 13 || i == 14 || i == 15
                || i == 16 || i == 17 || i == 18 || i == 19 || i == 20 || i == 21 || i == 22 || i == 23
                || i == 24 || i == 25 || i == 26 || i == 27 || i == 28 || i == 29 || i == 30);
        }
    }
    assert(is_dark("mbed-agent-owned:v1:mangle-forward"@)) by {
        reveal_strlit("mbed-agent-owned:v1:mangle-forward");
        let s = "mbed-agent-owned:v1:mangle-forward"@;
        assert forall|i: int| 0 <= i < s.len() implies !is_white(#[trigger] s[i]) by {
            assert(i == 0 || i == 1 || i == 2 || i == 3 || i == 4 || i == 5 || i == 6 || i == 7
                || i == 8 || i == 9 || i == 10 || i == 11 || i == 12 || i == 13 || i == 14 || i == 15
                || i == 16 || i == 17 || i == 18 || i == 19 || i == 20 || i == 21 || i == 22 || i == 23
                || i == 24 || i == 25 || i == 26 || i == 27 || i == 28 || i == 29 || i == 30 || i == 31
                || i == 32 || i == 33);
        }
    }
}

/// The words that rules are made of hold no white space.
pub proof fn lemma_dark_words()
    ensures
        is_dark("-s"@),
        is_dark("-d"@),
        is_dark("-i"@),
        is_dark("-o"@),
        is_dark("-p"@),
        is_dark("-m"@),
        is_dark("mac"@),
        is_dark("--mac-source"@),
        is_dark("--sport"@),
        is_dark("--dport"@),
        is_dark("tcp"@),
        is_dark("udp"@),
        is_dark("icmp"@),
        is_dark("ipv6-icmp"@),
        is_dark("esp"@),
        is_dark("ah"@),
        is_dark("gre"@),
        is_dark("NEW"@),
        is_dark("ESTABLISHED"@),
        is_dark("RELATED"@),
        is_dark("INVALID"@),
        is_dark(","@),
        is_dark("conntrack"@),
        is_dark("--ctstate"@),
        is_dark("--icmp-type"@),
        is_dark("--icmpv6-type"@),
        is_dark("-A"@),
        is_dark("-j"@),
        is_dark("ACCEPT"@),
        is_dark("DROP"@),
        is_dark("REJECT"@),
        is_dark("--reject-with"@),
        is_dark("tcp-reset"@),
        is_dark("icmp-port-unreachable"@),
        is_dark("icmp-host-unreachable"@),
        is_dark("icmp6-port-unreachable"@),
        is_dark("limit"@),
        is_dark("--limit"@),
        is_dark("1/second"@),
        is_dark("--limit-burst"@),
        is_dark("5"@),
        is_dark("comment"@),
        is_dark("--comment"@),
        is_dark("mbed:"@),
        is_dark("LOG"@),
        is_dark("--log-prefix"@),
        is_dark("/second"@),
        is_dark("mbed:zone:"@),
        is_dark("mbed:mtu:"@),
        is_dark("mbed:masq:"@),
        is_dark("--tcp-flags"@),
        is_dark("SYN,RST"@),
        is_dark("SYN"@),
        is_dark("TCPMSS"@),
        is_dark("--clamp-mss-to-pmtu"@),
        is_dark("MASQUERADE"@),
        is_dark("REDIRECT"@),
        is_dark("--to-ports"@),
        is_dark("DNAT"@),
        is_dark("--to-destination"@),
        is_dark("SNAT"@),
        is_dark("--to-source"@),
        is_dark(":"@),
        is_dark("["@),
        is_dark("]:"@),
        is_dark("."@),
        is_dark("/"@),
        is_dark("-"@),
        is_dark("::"@),
        is_dark("::ffff:"@),
        is_dark("emerg"@),
        is_dark("alert"@),
        is_dark("crit"@),
        is_dark("error"@),
        is_dark("warning"@),
        is_dark("notice"@),
        is_dark("info"@),
        is_dark("debug"@),
        is_dark("[0:0]"@),
        is_dark("INPUT"@),
        is_dark("OUTPUT"@),
        is_dark("FORWARD"@),
        is_dark("PREROUTING"@),
        is_dark("POSTROUTING"@),
        is_dark("MBED_INPUT"@),
        is_dark("MBED_OUTPUT"@),
        is_dark("MBED_FORWARD"@),
        is_dark("MBED_PREROUTING"@),
        is_dark("MBED_POSTROUTING"@),
        is_dark("MBED_MANGLE_FORWARD"@),
        is_dark("mbed-agent-owned:v1:input"@),
        is_dark("mbed-agent-owned:v1:output"@),
        is_dark("mbed-agent-owned:v1:forward"@),
        is_dark("mbed-agent-owned:v1:prerouting"@),
        is_dark("mbed-agent-owned:v1:postrouting"@),
        is_dark("mbed-agent-owned:v1:mangle-forward"@),
        is_dark(Seq::empty()),
{
    lemma_dark_a();
    lemma_dark_b();
    lemma_dark_c();
    lemma_dark_d();
    lemma_dark_e();
    reveal(is_dark);
}

/// Whether a token has the form of the name of a managed chain.
pub open spec fn is_chain(w: Seq<char>) -> bool {
    starts(w, "MBED_"@)
}

/// Whether tokens, behind whatever others, jump to no managed chain.
pub open spec fn is_safe(t: Seq<Seq<char>>) -> bool {
    (t.len() > 0 ==> !is_chain(t[0])) && forall|i: int|
        0 <= i && i + 1 < t.len() && #[trigger] t[i] == "-j"@ ==> !is_chain(t[i + 1])
}

proof fn lemma_safe_add(a: Seq<Seq<char>>, b: Seq<Seq<char>>)
    requires
        is_safe(a),
        is_safe(b),
    ensures
        is_safe(a + b),
{
    let t = a + b;
    if t.len() > 0 {
        if a.len() > 0 {
            assert(t[0] == a[0]);
        } else {
            assert(t[0] == b[0]);
        }
    }
    assert forall|i: int| 0 <= i && i + 1 < t.len() && #[trigger] t[i] == "-j"@ implies !is_chain(
        t[i + 1],
    ) by {
        if i + 1 < a.len() {
            assert(t[i] == a[i] && t[i + 1] == a[i + 1]);
        } else if i + 1 == a.len() {
            assert(t[i + 1] == b[0]);
        } else {
            assert(t[i] == b[i - a.len()] && t[i + 1] == b[i + 1 - a.len()]);
        }
    }
}

/// Whether a text jumps to no managed chain, whatever stands before it, and has no line break.
#[verifier::opaque]
pub open spec fn is_tame(s: Seq<char>) -> bool {
    is_safe(tokens(s)) && is_inline(s)
}

/// Whether a text is tame and stands apart from what is before it.
pub open spec fn is_match(s: Seq<char>) -> bool {
    is_tame(s) && (s.len() == 0 || s[0] == ' ')
}

/// Whether texts are tame.
pub open spec fn all_tame(s: Seq<Seq<char>>) -> bool {
    forall|i: int| 0 <= i < s.len() ==> is_tame(#[trigger] s[i])
}

pub open spec fn all_matches(s: Seq<Seq<char>>) -> bool {
    forall|i: int| 0 <= i < s.len() ==> is_match(#[trigger] s[i])
}

/// Whether a text is a word: not empty, and without white space.
pub open spec fn is_word(s: Seq<char>) -> bool {
    s.len() > 0 && is_dark(s)
}

pub open spec fn all_words(s: Seq<Seq<char>>) -> bool {
    forall|i: int| 0 <= i < s.len() ==> is_word(#[trigger] s[i])
}

pub proof fn lemma_space()
    ensures
        " "@ == seq![' '],
        is_inline(" "@),
{
    reveal_strlit(" ");
    assert(" "@ =~= seq![' ']);
    lemma_words();
}

proof fn lemma_tame_empty()
    ensures
        is_match(Seq::empty()),
{
    reveal(is_tame);
    lemma_dark_words();
    lemma_tokens_word(Seq::empty());
    lemma_words();
}

proof fn lemma_tame_join(a: Seq<char>, b: Seq<char>)
    requires
        is_tame(a),
        is_tame(b),
    ensures
        is_tame(a + " "@ + b),
{
    reveal(is_tame);
    lemma_space();
    lemma_tokens_join(a, b);
    lemma_safe_add(tokens(a), tokens(b));
    lemma_inline_add(a, " "@);
    lemma_inline_add(a + " "@, b);
}

pub proof fn lemma_tokens_glue(a: Seq<char>, b: Seq<char>)
    requires
        b.len() == 0 || b[0] == ' ',
    ensures
        tokens(a + b) == tokens(a) + tokens(b),
{
    lemma_dark_words();
    lemma_tokens_word(Seq::empty());
    if b.len() == 0 {
        assert(a + b =~= a);
        assert(b =~= Seq::empty());
        assert(tokens(a) + tokens(b) =~= tokens(a));
    } else {
        let c = b.skip(1);
        let none = Seq::<char>::empty();
        assert(a + b =~= a + seq![' '] + c);
        assert(b =~= none + seq![' '] + c);
        lemma_tokens_join(a, c);
        lemma_tokens_join(none, c);
        assert(tokens(b) =~= tokens(c));
    }
}

proof fn lemma_match_add(a: Seq<char>, b: Seq<char>)
    requires
        is_match(a),
        is_match(b),
    ensures
        is_match(a + b),
{
    reveal(is_tame);
    lemma_tokens_glue(a, b);
    lemma_safe_add(tokens(a), tokens(b));
    lemma_inline_add(a, b);
    if a.len() > 0 {
        assert((a + b)[0] == a[0]);
    } else {
        assert(a + b =~= b);
    }
}

/// A tame text behind a space stands apart.
proof fn lemma_match_space(b: Seq<char>)
    requires
        is_tame(b),
    ensures
        is_match(" "@ + b),
{
    lemma_tame_empty();
    lemma_tame_join(Seq::empty(), b);
    lemma_space();
    assert(Seq::<char>::empty() + " "@ + b =~= " "@ + b);
}

/// Whether a word can begin a tame text: it names no managed chain.
pub open spec fn is_flag(w: Seq<char>) -> bool {
    is_word(w) && !is_chain(w)
}

proof fn lemma_tame_word(w: Seq<char>)
    requires
        is_flag(w),
    ensures
        is_tame(w),
{
    reveal(is_tame);
    lemma_tokens_word(w);
    lemma_dark_inline(w);
}

/// A flag and its value are tame, whatever the value is.
proof fn lemma_tame_pair(flag: Seq<char>, w: Seq<char>)
    requires
        is_flag(flag),
        flag != "-j"@,
        is_word(w),
    ensures
        is_tame(flag + " "@ + w),
{
    reveal(is_tame);
    lemma_space();
    lemma_tokens_join(flag, w);
    lemma_tokens_word(flag);
    lemma_tokens_word(w);
    let t = seq![flag] + seq![w];
    assert(t[0] == flag);
    assert(is_safe(t));
    lemma_dark_inline(flag);
    lemma_dark_inline(w);
    lemma_inline_add(flag, " "@);
    lemma_inline_add(flag + " "@, w);
}

proof fn lemma_flags_a()
    ensures
        is_flag("-s"@),
        "-s"@ != "-j"@,
        is_flag("-d"@),
        "-d"@ != "-j"@,
        is_flag("-i"@),
        "-i"@ != "-j"@,
        is_flag("-o"@),
        "-o"@ != "-j"@,
        is_flag("-p"@),
        "-p"@ != "-j"@,
        is_flag("-m"@),
        "-m"@ != "-j"@,
        is_flag("mac"@),
        "mac"@ != "-j"@,
        is_flag("--mac-source"@),
        "--mac-source"@ != "-j"@,
        is_flag("--sport"@),
        "--sport"@ != "-j"@,
        is_flag("--dport"@),
        "--dport"@ != "-j"@,
        is_flag("conntrack"@),
        "conntrack"@ != "-j"@,
        is_flag("--ctstate"@),
        "--ctstate"@ != "-j"@,
        is_flag("--icmp-type"@),
        "--icmp-type"@ != "-j"@,
        is_flag("--icmpv6-type"@),
        "--icmpv6-type"@ != "-j"@,
        is_flag("-j"@),
        is_flag("ACCEPT"@),
        "ACCEPT"@ != "-j"@,
{
    lemma_dark_words();
    reveal_strlit("MBED_");
    reveal_strlit("-j");
    assert("-j"@[1] == 'j');
    reveal_strlit("-s");
    assert(!is_chain("-s"@)) by {
        if is_chain("-s"@) {
        }
    }
    assert("-s"@[1] == 's');
    assert("-s"@[0] == '-');
    reveal_strlit("-d");
    assert(!is_chain("-d"@)) by {
        if is_chain("-d"@) {
        }
    }
    assert("-d"@[1] == 'd');
    assert("-d"@[0] == '-');
    reveal_strlit("-i");
    assert(!is_chain("-i"@)) by {
        if is_chain("-i"@) {
        }
    }
    assert("-i"@[1] == 'i');
    assert("-i"@[0] == '-');
    reveal_strlit("-o");
    assert(!is_chain("-o"@)) by {
        if is_chain("-o"@) {
        }
    }
    assert("-o"@[1] == 'o');
    assert("-o"@[0] == '-');
    reveal_strlit("-p");
    assert(!is_chain("-p"@)) by {
        if is_chain("-p"@) {
        }
    }
    assert("-p"@[1] == 'p');
    assert("-p"@[0] == '-');
    reveal_strlit("-m");
    assert(!is_chain("-m"@)) by {
        if is_chain("-m"@) {
        }
    }
    assert("-m"@[1] == 'm');
    assert("-m"@[0] == '-');
    reveal_strlit("mac");
    assert(!is_chain("mac"@)) by {
        if is_chain("mac"@) {
        }
    }
    reveal_strlit("--mac-source");
    assert(!is_chain("--mac-source"@)) by {
        if is_chain("--mac-source"@) {
            assert("--mac-source"@.take(5)[0] == "--mac-source"@[0]);
        }
    }
    reveal_strlit("--sport");
    assert(!is_chain("--sport"@)) by {
        if is_chain("--sport"@) {
            assert("--sport"@.take(5)[0] == "--sport"@[0]);
        }
    }
    reveal_strlit("--dport");
    assert(!is_chain("--dport"@)) by {
        if is_chain("--dport"@) {
            assert("--dport"@.take(5)[0] == "--dport"@[0]);
        }
    }
    reveal_strlit("conntrack");
    assert(!is_chain("conntrack"@)) by {
        if is_chain("conntrack"@) {
            assert("conntrack"@.take(5)[0] == "conntrack"@[0]);
        }
    }
    reveal_strlit("--ctstate");
    assert(!is_chain("--ctstate"@)) by {
        if is_chain("--ctstate"@) {
            assert("--ctstate"@.take(5)[0] == "--ctstate"@[0]);
        }
    }
    reveal_strlit("--icmp-type");
    assert(!is_chain("--icmp-type"@)) by {
        if is_chain("--icmp-type"@) {
            assert("--icmp-type"@.take(5)[0] == "--icmp-type"@[0]);
        }
    }
    reveal_strlit("--icmpv6-type");
    assert(!is_chain("--icmpv6-type"@)) by {
        if is_chain("--icmpv6-type"@) {
            assert("--icmpv6-type"@.take(5)[0] == "--icmpv6-type"@[0]);
        }
    }
    reveal_strlit("-j");
    assert(!is_chain("-j"@)) by {
        if is_chain("-j"@) {
        }
    }
    reveal_strlit("ACCEPT");
    assert(!is_chain("ACCEPT"@)) by {
        if is_chain("ACCEPT"@) {
            assert("ACCEPT"@.take(5)[0] == "ACCEPT"@[0]);
        }
    }
}

proof fn lemma_flags_b()
    ensures
        is_flag("DROP"@),
        "DROP"@ != "-j"@,
        is_flag("REJECT"@),
        "REJECT"@ != "-j"@,
        is_flag("--reject-with"@),
        "--reject-with"@ != "-j"@,
        is_flag("tcp-reset"@),
        "tcp-reset"@ != "-j"@,
        is_flag("icmp-port-unreachable"@),
        "icmp-port-unreachable"@ != "-j"@,
        is_flag("icmp-host-unreachable"@),
        "icmp-host-unreachable"@ != "-j"@,
        is_flag("icmp6-port-unreachable"@),
        "icmp6-port-unreachable"@ != "-j"@,
        is_flag("limit"@),
        "limit"@ != "-j"@,
        is_flag("--limit"@),
        "--limit"@ != "-j"@,
        is_flag("1/second"@),
        "1/second"@ != "-j"@,
        is_flag("--limit-burst"@),
        "--limit-burst"@ != "-j"@,
        is_flag("5"@),
        "5"@ != "-j"@,
        is_flag("comment"@),
        "comment"@ != "-j"@,
        is_flag("--comment"@),
        "--comment"@ != "-j"@,
        is_flag("LOG"@),
        "LOG"@ != "-j"@,
        is_flag("--log-prefix"@),
        "--log-prefix"@ != "-j"@,
{
    lemma_dark_words();
    reveal_strlit("MBED_");
    reveal_strlit("-j");
    assert("-j"@[1] == 'j');
    reveal_strlit("DROP");
    assert(!is_chain("DROP"@)) by {
        if is_chain("DROP"@) {
        }
    }
    reveal_strlit("REJECT");
    assert(!is_chain("REJECT"@)) by {
        if is_chain("REJECT"@) {
            assert("REJECT"@.take(5)[0] == "REJECT"@[0]);
        }
    }
    reveal_strlit("--reject-with");
    assert(!is_chain("--reject-with"@)) by {
        if is_chain("--reject-with"@) {
            assert("--reject-with"@.take(5)[0] == "--reject-with"@[0]);
        }
    }
    reveal_strlit("tcp-reset");
    assert(!is_chain("tcp-reset"@)) by {
        if is_chain("tcp-reset"@) {
            assert("tcp-reset"@.take(5)[0] == "tcp-reset"@[0]);
        }
    }
    reveal_strlit("icmp-port-unreachable");
    assert(!is_chain("icmp-port-unreachable"@)) by {
        if is_chain("icmp-port-unreachable"@) {
            assert("icmp-port-unreachable"@.take(5)[0] == "icmp-port-unreachable"@[0]);
        }
    }
    reveal_strlit("icmp-host-unreachable");
    assert(!is_chain("icmp-host-unreachable"@)) by {
        if is_chain("icmp-host-unreachable"@) {
            assert("icmp-host-unreachable"@.take(5)[0] == "icmp-host-unreachable"@[0]);
        }
    }
    reveal_strlit("icmp6-port-unreachable");
    assert(!is_chain("icmp6-port-unreachable"@)) by {
        if is_chain("icmp6-port-unreachable"@) {
            assert("icmp6-port-unreachable"@.take(5)[0] == "icmp6-port-unreachable"@[0]);
        }
    }
    reveal_strlit("limit");
    assert(!is_chain("limit"@)) by {
        if is_chain("limit"@) {
            assert("limit"@.take(5)[0] == "limit"@[0]);
        }
    }
    reveal_strlit("--limit");
    assert(!is_chain("--limit"@)) by {
        if is_chain("--limit"@) {
            assert("--limit"@.take(5)[0] == "--limit"@[0]);
        }
    }
    reveal_strlit("1/second");
    assert(!is_chain("1/second"@)) by {
        if is_chain("1/second"@) {
            assert("1/second"@.take(5)[0] == "1/second"@[0]);
        }
    }
    reveal_strlit("--limit-burst");
    assert(!is_chain("--limit-burst"@)) by {
        if is_chain("--limit-burst"@) {
            assert("--limit-burst"@.take(5)[0] == "--limit-burst"@[0]);
        }
    }
    reveal_strlit("5");
    assert(!is_chain("5"@)) by {
        if is_chain("5"@) {
        }
    }
    reveal_strlit("comment");
    assert(!is_chain("comment"@)) by {
        if is_chain("comment"@) {
            assert("comment"@.take(5)[0] == "comment"@[0]);
        }
    }
    reveal_strlit("--comment");
    assert(!is_chain("--comment"@)) by {
        if is_chain("--comment"@) {
            assert("--comment"@.take(5)[0] == "--comment"@[0]);
        }
    }
    reveal_strlit("LOG");
    assert(!is_chain("LOG"@)) by {
        if is_chain("LOG"@) {
        }
    }
    reveal_strlit("--log-prefix");
    assert(!is_chain("--log-prefix"@)) by {
        if is_chain("--log-prefix"@) {
            assert("--log-prefix"@.take(5)[0] == "--log-prefix"@[0]);
        }
    }
}

proof fn lemma_flags_c()
    ensures
        is_flag("tcp"@),
        "tcp"@ != "-j"@,
        is_flag("--tcp-flags"@),
        "--tcp-flags"@ != "-j"@,
        is_flag("SYN,RST"@),
        "SYN,RST"@ != "-j"@,
        is_flag("SYN"@),
        "SYN"@ != "-j"@,
        is_flag("TCPMSS"@),
        "TCPMSS"@ != "-j"@,
        is_flag("--clamp-mss-to-pmtu"@),
        "--clamp-mss-to-pmtu"@ != "-j"@,
        is_flag("MASQUERADE"@),
        "MASQUERADE"@ != "-j"@,
        is_flag("REDIRECT"@),
        "REDIRECT"@ != "-j"@,
        is_flag("--to-ports"@),
        "--to-ports"@ != "-j"@,
        is_flag("DNAT"@),
        "DNAT"@ != "-j"@,
        is_flag("--to-destination"@),
        "--to-destination"@ != "-j"@,
        is_flag("SNAT"@),
        "SNAT"@ != "-j"@,
        is_flag("--to-source"@),
        "--to-source"@ != "-j"@,
{
    lemma_dark_words();
    reveal_strlit("MBED_");
    reveal_strlit("-j");
    assert("-j"@[1] == 'j');
    reveal_strlit("tcp");
    assert(!is_chain("tcp"@)) by {
        if is_chain("tcp"@) {
        }
    }
    reveal_strlit("--tcp-flags");
    assert(!is_chain("--tcp-flags"@)) by {
        if is_chain("--tcp-flags"@) {
            assert("--tcp-flags"@.take(5)[0] == "--tcp-flags"@[0]);
        }
    }
    reveal_strlit("SYN,RST");
    assert(!is_chain("SYN,RST"@)) by {
        if is_chain("SYN,RST"@) {
            assert("SYN,RST"@.take(5)[0] == "SYN,RST"@[0]);
        }
    }
    reveal_strlit("SYN");
    assert(!is_chain("SYN"@)) by {
        if is_chain("SYN"@) {
        }
    }
    reveal_strlit("TCPMSS");
    assert(!is_chain("TCPMSS"@)) by {
        if is_chain("TCPMSS"@) {
            assert("TCPMSS"@.take(5)[0] == "TCPMSS"@[0]);
        }
    }
    reveal_strlit("--clamp-mss-to-pmtu");
    assert(!is_chain("--clamp-mss-to-pmtu"@)) by {
        if is_chain("--clamp-mss-to-pmtu"@) {
            assert("--clamp-mss-to-pmtu"@.take(5)[0] == "--clamp-mss-to-pmtu"@[0]);
        }
    }
    reveal_strlit("MASQUERADE");
    assert(!is_chain("MASQUERADE"@)) by {
        if is_chain("MASQUERADE"@) {
            assert("MASQUERADE"@.take(5)[1] == "MASQUERADE"@[1]);
        }
    }
    reveal_strlit("REDIRECT");
    assert(!is_chain("REDIRECT"@)) by {
        if is_chain("REDIRECT"@) {
            assert("REDIRECT"@.take(5)[0] == "REDIRECT"@[0]);
        }
    }
    reveal_strlit("--to-ports");
    assert(!is_chain("--to-ports"@)) by {
        if is_chain("--to-ports"@) {
            assert("--to-ports"@.take(5)[0] == "--to-ports"@[0]);
        }
    }
    reveal_strlit("DNAT");
    assert(!is_chain("DNAT"@)) by {
        if is_chain("DNAT"@) {
        }
    }
    reveal_strlit("--to-destination");
    assert(!is_chain("--to-destination"@)) by {
        if is_chain("--to-destination"@) {
            assert("--to-destination"@.take(5)[0] == "--to-destination"@[0]);
        }
    }
    reveal_strlit("SNAT");
    assert(!is_chain("SNAT"@)) by {
        if is_chain("SNAT"@) {
        }
    }
    reveal_strlit("--to-source");
    assert(!is_chain("--to-source"@)) by {
        if is_chain("--to-source"@) {
            assert("--to-source"@.take(5)[0] == "--to-source"@[0]);
        }
    }
}

/// The words that begin the parts of rules.
pub proof fn lemma_flag_words()
    ensures
        is_flag("-s"@),
        "-s"@ != "-j"@,
        is_flag("-d"@),
        "-d"@ != "-j"@,
        is_flag("-i"@),
        "-i"@ != "-j"@,
        is_flag("-o"@),
        "-o"@ != "-j"@,
        is_flag("-p"@),
        "-p"@ != "-j"@,
        is_flag("-m"@),
        "-m"@ != "-j"@,
        is_flag("mac"@),
        "mac"@ != "-j"@,
        is_flag("--mac-source"@),
        "--mac-source"@ != "-j"@,
        is_flag("--sport"@),
        "--sport"@ != "-j"@,
        is_flag("--dport"@),
        "--dport"@ != "-j"@,
        is_flag("conntrack"@),
        "conntrack"@ != "-j"@,
        is_flag("--ctstate"@),
        "--ctstate"@ != "-j"@,
        is_flag("--icmp-type"@),
        "--icmp-type"@ != "-j"@,
        is_flag("--icmpv6-type"@),
        "--icmpv6-type"@ != "-j"@,
        is_flag("-j"@),
        is_flag("ACCEPT"@),
        "ACCEPT"@ != "-j"@,
        is_flag("DROP"@),
        "DROP"@ != "-j"@,
        is_flag("REJECT"@),
        "REJECT"@ != "-j"@,
        is_flag("--reject-with"@),
        "--reject-with"@ != "-j"@,
        is_flag("tcp-reset"@),
        "tcp-reset"@ != "-j"@,
        is_flag("icmp-port-unreachable"@),
        "icmp-port-unreachable"@ != "-j"@,
        is_flag("icmp-host-unreachable"@),
        "icmp-host-unreachable"@ != "-j"@,
        is_flag("icmp6-port-unreachable"@),
        "icmp6-port-unreachable"@ != "-j"@,
        is_flag("limit"@),
        "limit"@ != "-j"@,
        is_flag("--limit"@),
        "--limit"@ != "-j"@,
        is_flag("1/second"@),
        "1/second"@ != "-j"@,
        is_flag("--limit-burst"@),
        "--limit-burst"@ != "-j"@,
        is_flag("5"@),
        "5"@ != "-j"@,
        is_flag("comment"@),
        "comment"@ != "-j"@,
        is_flag("--comment"@),
        "--comment"@ != "-j"@,
        is_flag("LOG"@),
        "LOG"@ != "-j"@,
        is_flag("--log-prefix"@),
        "--log-prefix"@ != "-j"@,
        is_flag("tcp"@),
        "tcp"@ != "-j"@,
        is_flag("--tcp-flags"@),
        "--tcp-flags"@ != "-j"@,
        is_flag("SYN,RST"@),
        "SYN,RST"@ != "-j"@,
        is_flag("SYN"@),
        "SYN"@ != "-j"@,
        is_flag("TCPMSS"@),
        "TCPMSS"@ != "-j"@,
        is_flag("--clamp-mss-to-pmtu"@),
        "--clamp-mss-to-pmtu"@ != "-j"@,
        is_flag("MASQUERADE"@),
        "MASQUERADE"@ != "-j"@,
        is_flag("REDIRECT"@),
        "REDIRECT"@ != "-j"@,
        is_flag("--to-ports"@),
        "--to-ports"@ != "-j"@,
        is_flag("DNAT"@),
        "DNAT"@ != "-j"@,
        is_flag("--to-destination"@),
        "--to-destination"@ != "-j"@,
        is_flag("SNAT"@),
        "SNAT"@ != "-j"@,
        is_flag("--to-source"@),
        "--to-source"@ != "-j"@,
{
    lemma_flags_a();
    lemma_flags_b();
    lemma_flags_c();
}

proof fn lemma_decimal_dark(n: nat)
    ensures
        is_dark(decimal(n)),
{
    reveal(is_dark);
    lemma_decimal(n);
    assert forall|i: int| 0 <= i < decimal(n).len() implies !is_white(#[trigger] decimal(n)[i]) by {
        assert(is_digit(decimal(n)[i]));
    }
}

proof fn lemma_hex_dark(n: nat)
    ensures
        is_dark(hex(n)),
{
    reveal(is_dark);
    lemma_hex(n);
    assert forall|i: int| 0 <= i < hex(n).len() implies !is_white(#[trigger] hex(n)[i]) by {
        assert(is_hex(hex(n)[i]));
    }
}

proof fn lemma_quad_dark(n: nat)
    ensures
        is_dark(ipv4_format(n)),
{
    broadcast use lemma_dark_add;

    lemma_dark_words();
    lemma_decimal_dark(n / 16777216 % 256);
    lemma_decimal_dark(n / 65536 % 256);
    lemma_decimal_dark(n / 256 % 256);
    lemma_decimal_dark(n % 256);
}

proof fn lemma_groups_dark(acc: Seq<char>, g: Seq<nat>, from: int, i: int, to: int)
    requires
        is_dark(acc),
    ensures
        is_dark(groups_text(acc, g, from, i, to)),
    decreases to - i,
{
    broadcast use lemma_dark_add;

    lemma_dark_words();
    if i < to {
        lemma_hex_dark(g[i]);
        if i == from {
            lemma_groups_dark(acc + hex(g[i]), g, from, i + 1, to);
        } else {
            lemma_groups_dark(acc + ":"@ + hex(g[i]), g, from, i + 1, to);
        }
    }
}

pub proof fn lemma_address_dark(a: IpAddr)
    ensures
        is_dark(address_format(a)),
{
    broadcast use lemma_dark_add;

    lemma_dark_words();
    match a {
        IpAddr::V4(n) => {
            lemma_quad_dark(n as nat);
        },
        IpAddr::V6(n) => {
            let n = n as nat;
            let g = unpack(n);
            let best = longest_run(g, 0, (0, 0));
            lemma_quad_dark(n % 0x1_0000_0000);
            lemma_groups_dark(Seq::empty(), g, 0, 0, 8);
            lemma_groups_dark(Seq::empty(), g, 0, 0, best.0);
            let left = groups_text(Seq::empty(), g, 0, 0, best.0) + "::"@;
            lemma_groups_dark(left, g, best.0 + best.1, best.0 + best.1, 8);
        },
    }
}

proof fn lemma_network_dark(n: IpNetwork)
    ensures
        is_dark(network_format(n)),
{
    broadcast use lemma_dark_add;

    lemma_dark_words();
    lemma_address_dark(n.address);
    lemma_decimal_dark(n.prefix_len as nat);
}

proof fn lemma_port_dark(p: PortRange)
    ensures
        is_dark(port_text(p)),
{
    broadcast use lemma_dark_add;

    lemma_dark_words();
    lemma_decimal_dark(p.start as nat);
    lemma_decimal_dark(p.end as nat);
}

pub proof fn lemma_decimal_word(n: nat)
    ensures
        is_word(decimal(n)),
{
    lemma_decimal_dark(n);
    lemma_decimal(n);
}

pub proof fn lemma_network_word(n: IpNetwork)
    ensures
        is_word(network_format(n)),
{
    lemma_network_dark(n);
    reveal_strlit("/");
    assert(network_format(n).len() > 0);
}

proof fn lemma_port_word(p: PortRange)
    ensures
        is_word(port_text(p)),
{
    lemma_port_dark(p);
    lemma_decimal(p.start as nat);
}

proof fn lemma_branched(acc: Seq<Seq<char>>, base: Seq<char>, options: Seq<Seq<char>>, j: int)
    requires
        all_matches(acc),
        is_match(base),
        all_tame(options),
        0 <= j,
    ensures
        all_matches(branched(acc, base, options, j)),
    decreases options.len() - j,
{
    if j < options.len() {
        assert(is_tame(options[j]));
        lemma_tame_join(base, options[j]);
        lemma_space();
        let next = base + " "@ + options[j];
        assert(next[0] == ' ') by {
            if base.len() > 0 {
                assert(next[0] == base[0]);
            }
        }
        assert(is_match(next));
        lemma_branched(acc.push(next), base, options, j + 1);
    }
}

proof fn lemma_crossed(acc: Seq<Seq<char>>, bases: Seq<Seq<char>>, options: Seq<Seq<char>>, i: int)
    requires
        all_matches(acc),
        all_matches(bases),
        all_tame(options),
        0 <= i,
    ensures
        all_matches(crossed(acc, bases, options, i)),
    decreases bases.len() - i,
{
    if i < bases.len() {
        assert(is_match(bases[i]));
        lemma_branched(acc, bases[i], options, 0);
        lemma_crossed(branched(acc, bases[i], options, 0), bases, options, i + 1);
    }
}

/// Whether alternatives, where there are any, stand apart and are tame.
pub open spec fn tame_result(v: Result<Seq<Seq<char>>, IptablesRenderErrorView>) -> bool {
    v matches Ok(s) ==> all_matches(s)
}

proof fn lemma_dimension(v: Seq<Seq<char>>, options: Seq<Seq<char>>)
    requires
        all_matches(v),
        all_tame(options),
    ensures
        tame_result(with_dimension(v, options)),
{
    lemma_crossed(Seq::empty(), v, options, 0);
}

proof fn lemma_some_dimension(
    v: Result<Seq<Seq<char>>, IptablesRenderErrorView>,
    test: bool,
    options: Seq<Seq<char>>,
)
    requires
        tame_result(v),
        test ==> all_tame(options),
    ensures
        tame_result(with_some_dimension(v, test, options)),
{
    if v is Ok && test {
        lemma_dimension(v->Ok_0, options);
    }
}

proof fn lemma_flagged(flag: Seq<char>, values: Seq<Seq<char>>)
    requires
        is_flag(flag),
        flag != "-j"@,
        all_words(values),
    ensures
        all_tame(flagged(flag, values)),
{
    let s = flagged(flag, values);
    assert forall|i: int| 0 <= i < s.len() implies is_tame(#[trigger] s[i]) by {
        assert(is_word(values[i]));
        lemma_tame_pair(flag, values[i]);
    }
}

/// The flag of hardware addresses is several words.
proof fn lemma_flagged_macs(values: Seq<Seq<char>>)
    requires
        all_words(values),
    ensures
        all_tame(flagged("-m mac --mac-source"@, values)),
{
    lemma_flag_words();
    let flag = "-m mac --mac-source"@;
    reveal_strlit("-m mac --mac-source");
    reveal_strlit("-m");
    reveal_strlit("mac");
    reveal_strlit("--mac-source");
    reveal_strlit(" ");
    let s = flagged(flag, values);
    lemma_tame_pair("-m"@, "mac"@);
    assert forall|i: int| 0 <= i < s.len() implies is_tame(#[trigger] s[i]) by {
        assert(is_word(values[i]));
        lemma_tame_pair("--mac-source"@, values[i]);
        let a = "-m"@ + " "@ + "mac"@;
        let b = "--mac-source"@ + " "@ + values[i];
        lemma_tame_join(a, b);
        assert(flag + " "@ + values[i] =~= a + " "@ + b) by {
            assert(flag =~= a + " "@ + "--mac-source"@);
        }
    }
}

proof fn lemma_flagged_networks(
    acc: Seq<Seq<char>>,
    flag: Seq<char>,
    n: Seq<IpNetwork>,
    family: IpFamily,
    i: int,
)
    requires
        all_tame(acc),
        is_flag(flag),
        flag != "-j"@,
        0 <= i,
    ensures
        all_tame(flagged_networks(acc, flag, n, family, i)),
    decreases n.len() - i,
{
    if i < n.len() {
        lemma_network_word(n[i]);
        lemma_tame_pair(flag, network_format(n[i]));
        lemma_flagged_networks(
            acc.push(flag + " "@ + network_format(n[i])),
            flag,
            n,
            family,
            i + 1,
        );
        lemma_flagged_networks(acc, flag, n, family, i + 1);
    }
}

proof fn lemma_flagged_ports(flag: Seq<char>, p: Seq<PortRange>)
    requires
        is_flag(flag),
        flag != "-j"@,
    ensures
        all_tame(flagged_ports(flag, p)),
{
    let s = flagged_ports(flag, p);
    assert forall|i: int| 0 <= i < s.len() implies is_tame(#[trigger] s[i]) by {
        lemma_port_word(p[i]);
        lemma_tame_pair(flag, port_text(p[i]));
    }
}

proof fn lemma_flagged_bytes(flag: Seq<char>, b: Seq<u8>)
    requires
        is_flag(flag),
        flag != "-j"@,
    ensures
        all_tame(flagged_bytes(flag, b)),
{
    let s = flagged_bytes(flag, b);
    assert forall|i: int| 0 <= i < s.len() implies is_tame(#[trigger] s[i]) by {
        lemma_decimal_word(b[i] as nat);
        lemma_tame_pair(flag, decimal(b[i] as nat));
    }
}

proof fn lemma_flagged_protocols(p: Seq<FirewallProtocol>)
    ensures
        all_tame(flagged_protocols(p)),
{
    lemma_dark_words();
    lemma_flag_words();
    reveal_strlit("-p ");
    reveal_strlit("-p");
    reveal_strlit(" ");
    assert("-p "@ =~= "-p"@ + " "@);
    reveal_strlit("tcp");
    reveal_strlit("udp");
    reveal_strlit("icmp");
    reveal_strlit("ipv6-icmp");
    reveal_strlit("esp");
    reveal_strlit("ah");
    reveal_strlit("gre");
    let s = flagged_protocols(p);
    assert forall|i: int| 0 <= i < s.len() implies is_tame(#[trigger] s[i]) by {
        assert(is_word(protocol_name(p[i])));
        lemma_tame_pair("-p"@, protocol_name(p[i]));
    }
}

proof fn lemma_states(acc: Seq<char>, s: Seq<FirewallConntrackState>, i: int)
    requires
        is_dark(acc),
        0 <= i,
        i > 0 ==> acc.len() > 0,
    ensures
        is_dark(states_text(acc, s, i)),
        s.len() > 0 ==> states_text(acc, s, i).len() > 0,
    decreases s.len() - i,
{
    broadcast use lemma_dark_add;

    lemma_dark_words();
    if i < s.len() {
        reveal_strlit("NEW");
        reveal_strlit("ESTABLISHED");
        reveal_strlit("RELATED");
        reveal_strlit("INVALID");
        assert(is_word(state_name(s[i])));
        lemma_states(acc + state_name(s[i]), s, i + 1);
        lemma_states(acc + ","@ + state_name(s[i]), s, i + 1);
    }
}

/// Whether the names that a match holds are words.
pub open spec fn is_plain_match(m: FirewallMatchView) -> bool {
    all_words(m.input_interfaces) && all_words(m.output_interfaces) && all_words(m.source_macs)
}

proof fn lemma_placed(
    m: FirewallMatchView,
    direction: FirewallDirection,
    sources: Seq<Seq<char>>,
    destinations: Seq<Seq<char>>,
)
    requires
        is_plain_match(m),
        all_words(sources),
        all_words(destinations),
    ensures
        tame_result(placed(m, direction, sources, destinations)),
{
    lemma_flag_words();
    lemma_tame_empty();
    let flag = if direction == FirewallDirection::Output {
        "-o"@
    } else {
        "-i"@
    };
    lemma_flagged(flag, sources);
    lemma_flagged("-o"@, destinations);
    lemma_flagged("-i"@, m.input_interfaces);
    lemma_flagged("-o"@, m.output_interfaces);
    let start = Ok::<Seq<Seq<char>>, IptablesRenderErrorView>(seq![Seq::empty()]);
    assert(all_matches(start->Ok_0));
    lemma_some_dimension(start, sources.len() > 0, flagged(flag, sources));
    let zoned = with_some_dimension(start, sources.len() > 0, flagged(flag, sources));
    let both = match zoned {
        Err(e) => Err(e),
        Ok(v) => if destinations.len() > 0 && direction != FirewallDirection::Forward {
            unsupported("destination zone for non-forward direction"@)
        } else {
            with_some_dimension(Ok(v), destinations.len() > 0, flagged("-o"@, destinations))
        },
    };
    lemma_some_dimension(zoned, destinations.len() > 0, flagged("-o"@, destinations));
    assert(tame_result(both));
    lemma_some_dimension(both, m.input_interfaces.len() > 0, flagged("-i"@, m.input_interfaces));
    let input = with_some_dimension(
        both,
        m.input_interfaces.len() > 0,
        flagged("-i"@, m.input_interfaces),
    );
    lemma_some_dimension(input, m.output_interfaces.len() > 0, flagged("-o"@, m.output_interfaces));
}

proof fn lemma_addressed(
    v: Result<Seq<Seq<char>>, IptablesRenderErrorView>,
    m: FirewallMatchView,
    family: IpFamily,
)
    requires
        tame_result(v),
        is_plain_match(m),
    ensures
        tame_result(addressed(v, m, family)),
{
    lemma_flag_words();
    let none = Seq::<Seq<char>>::empty();
    let a = flagged_networks(none, "-s"@, m.source_networks, family, 0);
    let b = flagged_networks(none, "-d"@, m.destination_networks, family, 0);
    let c = flagged("-m mac --mac-source"@, m.source_macs);
    lemma_flagged_networks(none, "-s"@, m.source_networks, family, 0);
    lemma_flagged_networks(none, "-d"@, m.destination_networks, family, 0);
    lemma_flagged_macs(m.source_macs);
    lemma_some_dimension(v, m.source_networks.len() > 0, a);
    let v1 = with_some_dimension(v, m.source_networks.len() > 0, a);
    lemma_some_dimension(v1, m.destination_networks.len() > 0, b);
    let v2 = with_some_dimension(v1, m.destination_networks.len() > 0, b);
    lemma_some_dimension(v2, m.source_macs.len() > 0, c);
}

proof fn lemma_state_flag(w: Seq<char>)
    requires
        is_word(w),
    ensures
        all_tame(seq!["-m conntrack --ctstate "@ + w]),
{
    lemma_flag_words();
    reveal_strlit("-m conntrack --ctstate ");
    reveal_strlit("-m");
    reveal_strlit("conntrack");
    reveal_strlit("--ctstate");
    reveal_strlit(" ");
    lemma_tame_pair("-m"@, "conntrack"@);
    lemma_tame_pair("--ctstate"@, w);
    let a = "-m"@ + " "@ + "conntrack"@;
    let b = "--ctstate"@ + " "@ + w;
    lemma_tame_join(a, b);
    assert("-m conntrack --ctstate "@ =~= a + " "@ + "--ctstate"@ + " "@);
    assert("-m conntrack --ctstate "@ + w =~= a + " "@ + b);
}

proof fn lemma_flagged_types(family: IpFamily, b: Seq<u8>)
    ensures
        all_tame(flagged_bytes(icmp_flag(family), b)),
{
    lemma_flag_words();
    lemma_flagged_bytes(icmp_flag(family), b);
}

proof fn lemma_transported(
    v: Result<Seq<Seq<char>>, IptablesRenderErrorView>,
    m: FirewallMatchView,
    family: IpFamily,
)
    requires
        tame_result(v),
    ensures
        tame_result(transported(v, m, family)),
{
    lemma_flag_words();
    lemma_dark_words();
    let fitting = fitting_protocols(Seq::empty(), m.protocols, family, 0);
    lemma_flagged_protocols(fitting);
    lemma_flagged_ports("--sport"@, m.source_ports);
    lemma_flagged_ports("--dport"@, m.destination_ports);
    lemma_states(Seq::empty(), m.conntrack_states, 0);
    lemma_flagged_types(family, m.icmp_types);
    let states = seq!["-m conntrack --ctstate "@ + states_text(Seq::empty(), m.conntrack_states, 0)];
    if m.conntrack_states.len() > 0 {
        lemma_state_flag(states_text(Seq::empty(), m.conntrack_states, 0));
    }
    lemma_some_dimension(v, m.protocols.len() > 0, flagged_protocols(fitting));
    let v1 = with_some_dimension(v, m.protocols.len() > 0, flagged_protocols(fitting));
    lemma_some_dimension(v1, m.source_ports.len() > 0, flagged_ports("--sport"@, m.source_ports));
    let v2 = with_some_dimension(
        v1,
        m.source_ports.len() > 0,
        flagged_ports("--sport"@, m.source_ports),
    );
    lemma_some_dimension(
        v2,
        m.destination_ports.len() > 0,
        flagged_ports("--dport"@, m.destination_ports),
    );
    let v3 = with_some_dimension(
        v2,
        m.destination_ports.len() > 0,
        flagged_ports("--dport"@, m.destination_ports),
    );
    lemma_some_dimension(v3, m.conntrack_states.len() > 0, states);
    let v4 = with_some_dimension(v3, m.conntrack_states.len() > 0, states);
    lemma_some_dimension(
        v4,
        m.icmp_types.len() > 0,
        flagged_bytes(icmp_flag(family), m.icmp_types),
    );
}

/// Whether the entries of sets are words.
pub open spec fn plain_sets(sets: Seq<ExpandedSetView>) -> bool {
    forall|i: int| 0 <= i < sets.len() ==> all_words((#[trigger] sets[i]).entries)
}

proof fn lemma_set_from(sets: Seq<ExpandedSetView>, id: Seq<char>, i: int)
    requires
        plain_sets(sets),
        0 <= i,
    ensures
        set_from(sets, id, i) matches Some(s) ==> all_words(s.entries),
    decreases sets.len() - i,
{
    if i < sets.len() && sets[i].id != id {
        lemma_set_from(sets, id, i + 1);
    }
}

proof fn lemma_with_sets(
    v: Seq<Seq<char>>,
    sets: Seq<ExpandedSetView>,
    ids: Seq<Seq<char>>,
    family: IpFamily,
    source: bool,
    i: int,
)
    requires
        all_matches(v),
        plain_sets(sets),
        0 <= i,
    ensures
        tame_result(with_sets(v, sets, ids, family, source, i)),
    decreases ids.len() - i,
{
    lemma_flag_words();
    if i < ids.len() {
        lemma_set_from(sets, ids[i], 0);
        if let Some(s) = set_from(sets, ids[i], 0) {
            lemma_flagged("-s"@, s.entries);
            lemma_flagged("-d"@, s.entries);
            lemma_flagged_macs(s.entries);
            lemma_flagged("--sport"@, s.entries);
            lemma_flagged("--dport"@, s.entries);
            if let Ok(Some(options)) = set_options(s, family, source) {
                assert(all_tame(options));
                lemma_dimension(v, options);
                if let Ok(next) = with_dimension(v, options) {
                    lemma_with_sets(next, sets, ids, family, source, i + 1);
                }
            }
        }
    }
}

/// Whether the names that a zone holds are words; its identity may be empty.
pub open spec fn is_plain_zone(z: FirewallZoneView) -> bool {
    is_dark(z.id) && all_words(z.networks)
}

pub open spec fn plain_zones(zones: Seq<FirewallZoneView>) -> bool {
    forall|i: int| 0 <= i < zones.len() ==> is_plain_zone(#[trigger] zones[i])
}

proof fn lemma_zone_from(zones: Seq<FirewallZoneView>, id: Seq<char>, i: int)
    requires
        plain_zones(zones),
        0 <= i,
    ensures
        zone_from(zones, id, i) matches Some(z) ==> is_plain_zone(z),
    decreases zones.len() - i,
{
    if i < zones.len() {
        assert(is_plain_zone(zones[i]));
        if zones[i].id != id {
            lemma_zone_from(zones, id, i + 1);
        }
    }
}

proof fn lemma_zone_networks(
    acc: Seq<Seq<char>>,
    zones: Seq<FirewallZoneView>,
    ids: Seq<Seq<char>>,
    i: int,
)
    requires
        plain_zones(zones),
        all_words(acc),
        0 <= i,
    ensures
        zone_networks(acc, zones, ids, i) matches Some(s) ==> all_words(s),
    decreases ids.len() - i,
{
    if i < ids.len() {
        lemma_zone_from(zones, ids[i], 0);
        if let Some(z) = zone_from(zones, ids[i], 0) {
            let next = acc + z.networks;
            assert forall|j: int| 0 <= j < next.len() implies is_word(#[trigger] next[j]) by {
                if j < acc.len() {
                    assert(next[j] == acc[j]);
                } else {
                    assert(next[j] == z.networks[j - acc.len()]);
                }
            }
            lemma_zone_networks(next, zones, ids, i + 1);
        }
    }
}

proof fn lemma_dedup(acc: Seq<Seq<char>>, s: Seq<Seq<char>>, i: int)
    requires
        all_words(acc),
        all_words(s),
        0 <= i,
    ensures
        all_words(dedup(acc, s, i)),
    decreases s.len() - i,
{
    if i < s.len() {
        assert(is_word(s[i]));
        lemma_dedup(acc, s, i + 1);
        lemma_dedup(acc.push(s[i]), s, i + 1);
    }
}

proof fn lemma_sorted(s: Seq<Seq<char>>)
    requires
        all_words(s),
    ensures
        all_words(sorted_texts(s)),
{
    let t = sorted_texts(s);
    law_text_order();
    s.lemma_sort_by_ensures(|a: Seq<char>, b: Seq<char>| text_le(a, b));
    assert forall|i: int| 0 <= i < t.len() implies is_word(#[trigger] t[i]) by {
        assert(t.to_multiset().count(t[i]) > 0) by {
            broadcast use vstd::seq_lib::group_to_multiset_ensures;

            assert(t.contains(t[i]));
        }
        assert(s.contains(t[i])) by {
            broadcast use vstd::seq_lib::group_to_multiset_ensures;

        }
        let k = choose|k: int| 0 <= k < s.len() && s[k] == t[i];
        assert(is_word(s[k]));
    }
}

proof fn lemma_interfaces(zones: Seq<FirewallZoneView>, ids: Seq<Seq<char>>)
    requires
        plain_zones(zones),
    ensures
        interfaces_of(zones, ids) matches Some(s) ==> all_words(s),
{
    lemma_zone_networks(Seq::empty(), zones, ids, 0);
    if let Some(all) = zone_networks(Seq::empty(), zones, ids, 0) {
        lemma_sorted(all);
        lemma_dedup(Seq::empty(), sorted_texts(all), 0);
    }
}

/// Whether the names that a context holds are words.
pub open spec fn is_plain_context(c: RenderContextView) -> bool {
    &&& plain_zones(c.zones)
    &&& plain_sets(c.sets)
    &&& forall|i: int| 0 <= i < c.forwardings.len() ==> is_dark((#[trigger] c.forwardings[i]).id)
    &&& forall|i: int| 0 <= i < c.filter_rules.len() ==> is_plain_rule(#[trigger] c.filter_rules[i])
    &&& forall|i: int| 0 <= i < c.nat_rules.len() ==> is_plain_nat(#[trigger] c.nat_rules[i])
}

pub open spec fn is_plain_rule(r: FirewallFilterRuleView) -> bool {
    is_dark(r.id) && is_plain_match(r.matches)
}

pub open spec fn is_plain_nat(r: FirewallNatRuleView) -> bool {
    is_dark(r.id) && is_plain_match(r.matches)
}

proof fn lemma_alternatives(
    c: RenderContextView,
    m: FirewallMatchView,
    direction: FirewallDirection,
    family: IpFamily,
)
    requires
        is_plain_context(c),
        is_plain_match(m),
    ensures
        tame_result(alternatives(c, m, direction, family)),
{
    lemma_interfaces(c.zones, m.source_zones);
    lemma_interfaces(c.zones, m.destination_zones);
    if let (Some(s), Some(d)) = (
        interfaces_of(c.zones, m.source_zones),
        interfaces_of(c.zones, m.destination_zones),
    ) {
        let p = placed(m, direction, s, d);
        lemma_placed(m, direction, s, d);
        lemma_addressed(p, m, family);
        let a = addressed(p, m, family);
        lemma_transported(a, m, family);
        if let Ok(v) = transported(a, m, family) {
            lemma_with_sets(v, c.sets, m.source_sets, family, true, 0);
            if let Ok(w) = with_sets(v, c.sets, m.source_sets, family, true, 0) {
                lemma_with_sets(w, c.sets, m.destination_sets, family, false, 0);
            }
        }
    }
}

/// Whether a line counts for no managed chain, and opens and commits no table.
pub open spec fn is_quiet_line(line: Seq<char>) -> bool {
    &&& !starts(line, "*"@)
    &&& line != "COMMIT"@
    &&& forall|k: int|
        0 <= k < 6 ==> !declares(line, #[trigger] owned_chains()[k]) && !jumps_to(
            line,
            owned_chains()[k],
        )
}

/// Whether a text holds quiet lines only.
#[verifier::opaque]
pub open spec fn is_quiet(text: Seq<char>) -> bool {
    is_whole(text) && forall|i: int| 0 <= i < lines(text).len() ==> is_quiet_line(
        #[trigger] lines(text)[i],
    )
}

/// Whether a draft, where there is one, holds quiet lines only.
pub open spec fn quiet_result(d: Drafted) -> bool {
    d matches Ok(t) ==> is_quiet(t.text)
}

/// Whether a line is one, quiet, and kept as it is.
pub open spec fn is_quiet_end(line: Seq<char>) -> bool {
    is_one_line(line) && is_quiet_line(chomp(line.drop_last()))
}

proof fn lemma_quiet_append(text: Seq<char>, line: Seq<char>)
    requires
        is_quiet(text),
        is_quiet_end(line),
    ensures
        is_quiet(text + line),
{
    reveal(is_quiet);
    lemma_lines_one(line);
    lemma_lines_append(text, line);
    assert(is_whole(text + line)) by {
        reveal(is_one_line);
        assert((text + line).last() == line.last());
    }
    let l = lines(text + line);
    assert forall|i: int| 0 <= i < l.len() implies is_quiet_line(#[trigger] l[i]) by {
        if i < lines(text).len() {
            assert(l[i] == lines(text)[i]);
        }
    }
}

proof fn lemma_managed(k: int)
    requires
        0 <= k < 6,
    ensures
        is_chain(owned_chains()[k].managed),
        is_word(owned_chains()[k].managed),
        is_word(owned_chains()[k].builtin),
        is_word(owned_chains()[k].marker),
        owned_chains()[k].managed != "-j"@,
        owned_chains()[k].managed.len() == (if k == 0 {
            10int
        } else if k == 1 {
            11
        } else if k == 2 {
            12
        } else if k == 3 {
            15
        } else if k == 4 {
            16
        } else {
            19
        }),
{
    lemma_dark_words();
    reveal_strlit("MBED_");
    reveal_strlit("-j");
    reveal_strlit("MBED_INPUT");
    assert("MBED_INPUT"@.take(5) =~= "MBED_"@);
    reveal_strlit("MBED_OUTPUT");
    assert("MBED_OUTPUT"@.take(5) =~= "MBED_"@);
    reveal_strlit("MBED_FORWARD");
    assert("MBED_FORWARD"@.take(5) =~= "MBED_"@);
    reveal_strlit("MBED_PREROUTING");
    assert("MBED_PREROUTING"@.take(5) =~= "MBED_"@);
    reveal_strlit("MBED_POSTROUTING");
    assert("MBED_POSTROUTING"@.take(5) =~= "MBED_"@);
    reveal_strlit("MBED_MANGLE_FORWARD");
    assert("MBED_MANGLE_FORWARD"@.take(5) =~= "MBED_"@);
    reveal_strlit("INPUT");
    reveal_strlit("OUTPUT");
    reveal_strlit("FORWARD");
    reveal_strlit("PREROUTING");
    reveal_strlit("POSTROUTING");
    reveal_strlit("mbed-agent-owned:v1:input");
    reveal_strlit("mbed-agent-owned:v1:output");
    reveal_strlit("mbed-agent-owned:v1:forward");
    reveal_strlit("mbed-agent-owned:v1:prerouting");
    reveal_strlit("mbed-agent-owned:v1:postrouting");
    reveal_strlit("mbed-agent-owned:v1:mangle-forward");
}

/// Tokens of which the first jump, behind safe ones, goes elsewhere jump to no managed chain.
proof fn lemma_no_jump(line: Seq<char>, u: Seq<Seq<char>>, v: Seq<Seq<char>>)
    requires
        tokens(line) == u + v,
        u.len() >= 2,
        u[0] == "-A"@,
        u[1] != "-j"@,
        forall|i: int| 2 <= i && i + 1 < u.len() && #[trigger] u[i] == "-j"@ ==> !is_chain(u[i + 1]),
        v.len() == 0 || (v.len() >= 2 && v[0] == "-j"@ && !is_chain(v[1])),
    ensures
        forall|k: int| 0 <= k < 6 ==> !jumps_to(line, #[trigger] owned_chains()[k]),
{
    let t = tokens(line);
    reveal_strlit("-A");
    reveal_strlit("-j");
    reveal_strlit("MBED_");
    assert("-A"@[1] == 'A');
    assert("-j"@[1] == 'j');
    assert(!is_chain("-j"@));
    assert forall|k: int| 0 <= k < 6 implies !jumps_to(line, #[trigger] owned_chains()[k]) by {
        lemma_managed(k);
        if jumps_to(line, owned_chains()[k]) {
            let f = lemma_value_after(t, "-j"@, 0);
            assert(is_chain(t[f + 1]));
            if f + 1 < u.len() {
                assert(t[f] == u[f] && t[f + 1] == u[f + 1]);
            } else if f + 1 == u.len() {
                if v.len() > 0 {
                    assert(t[f + 1] == v[0]);
                }
            } else {
                assert(t[u.len() as int] == v[0]);
                assert(f == u.len());
                assert(t[f + 1] == v[1]);
            }
        }
    }
}

/// A line of a rule is quiet where what stands behind its chain is tame.
proof fn lemma_quiet_rule(body: Seq<char>, chain: Seq<char>, rest: Seq<char>, last: Seq<Seq<char>>)
    requires
        body == "-A "@ + chain + rest,
        is_word(chain),
        chain != "-j"@,
        rest.len() > 0,
        rest[0] == ' ',
        rest.last() != '\r',
        last.len() == 0 || (last.len() >= 2 && last[0] == "-j"@ && !is_chain(last[1])),
        exists|front: Seq<Seq<char>>| #[trigger] is_safe(front) && tokens(rest) == front + last,
        is_one_line(body + "\n"@),
    ensures
        is_quiet_end(body + "\n"@),
{
    let front = choose|front: Seq<Seq<char>>| #[trigger]
        is_safe(front) && tokens(rest) == front + last;
    lemma_dark_words();
    lemma_space();
    reveal_strlit("-A ");
    reveal_strlit("-A");
    reveal_strlit("-j");
    reveal_strlit("\n");
    reveal_strlit(":");
    reveal_strlit("*");
    reveal_strlit("COMMIT");
    assert("-A "@ =~= "-A"@ + " "@);
    let h = "-A"@ + " "@ + chain;
    assert("-A "@ + chain =~= h);
    lemma_tokens_join("-A"@, chain);
    lemma_tokens_word("-A"@);
    lemma_tokens_word(chain);
    lemma_tokens_glue(h, rest);
    assert(body =~= h + rest);
    let u = seq!["-A"@, chain] + front;
    assert(tokens(body) =~= u + last);
    assert forall|i: int| 2 <= i && i + 1 < u.len() && #[trigger] u[i] == "-j"@ implies !is_chain(
        u[i + 1],
    ) by {
        assert(u[i] == front[i - 2] && u[i + 1] == front[i - 1]);
    }
    lemma_no_jump(body, u, last);
    let line = body + "\n"@;
    assert(line.drop_last() =~= body);
    assert(body.last() == rest.last());
    assert(chomp(body) == body);
    assert(body[0] == '-');
    assert(!starts(body, "*"@)) by {
        if starts(body, "*"@) {
            assert(body.take(1)[0] == body[0]);
        }
    }
    assert(body != "COMMIT"@) by {
        assert("COMMIT"@[0] == 'C');
    }
    assert forall|k: int| 0 <= k < 6 implies !declares(body, #[trigger] owned_chains()[k]) by {
        let p = ":"@ + owned_chains()[k].managed + " "@;
        assert(p[0] == ':');
        if starts(body, p) {
            assert(body.take(p.len() as int)[0] == body[0]);
        }
    }
}

/// A line of a rule is quiet where what stands behind its chain is tame throughout.
proof fn lemma_quiet_tame(body: Seq<char>, chain: Seq<char>, rest: Seq<char>)
    requires
        body == "-A "@ + chain + rest,
        is_word(chain),
        chain != "-j"@,
        is_match(rest),
        rest.len() > 0,
        rest.last() != '\r',
        is_one_line(body + "\n"@),
    ensures
        is_quiet_end(body + "\n"@),
{
    reveal(is_tame);
    let none = Seq::<Seq<char>>::empty();
    assert(tokens(rest) =~= tokens(rest) + none);
    lemma_quiet_rule(body, chain, rest, none);
}

/// The comment that a rule carries.
proof fn lemma_comment(id: Seq<char>)
    requires
        is_dark(id),
    ensures
        is_match(" -m comment --comment mbed:"@ + id),
        is_match(" -m comment --comment mbed:zone:"@ + id),
        is_match(" -m comment --comment mbed:mtu:"@ + id),
        is_match(" -m comment --comment mbed:masq:"@ + id),
{
    lemma_dark_words();
    lemma_flag_words();
    reveal_strlit(" ");
    reveal_strlit("-m");
    reveal_strlit("comment");
    reveal_strlit("--comment");
    let a = "-m"@ + " "@ + "comment"@;
    lemma_tame_pair("-m"@, "comment"@);
    reveal_strlit(" -m comment --comment mbed:");
    reveal_strlit("mbed:");
    assert(is_match(" -m comment --comment mbed:"@ + id)) by {
        lemma_dark_add("mbed:"@, id);
        let w = "mbed:"@ + id;
        lemma_tame_pair("--comment"@, w);
        let b = "--comment"@ + " "@ + w;
        lemma_tame_join(a, b);
        lemma_match_space(a + " "@ + b);
        assert(" -m comment --comment mbed:"@ =~= " "@ + (a + " "@ + ("--comment"@ + " "@ + "mbed:"@)));
        assert(" -m comment --comment mbed:"@ + id =~= " "@ + (a + " "@ + b));
    }
    reveal_strlit(" -m comment --comment mbed:zone:");
    reveal_strlit("mbed:zone:");
    assert(is_match(" -m comment --comment mbed:zone:"@ + id)) by {
        lemma_dark_add("mbed:zone:"@, id);
        let w = "mbed:zone:"@ + id;
        lemma_tame_pair("--comment"@, w);
        let b = "--comment"@ + " "@ + w;
        lemma_tame_join(a, b);
        lemma_match_space(a + " "@ + b);
        assert(" -m comment --comment mbed:zone:"@ =~= " "@ + (a + " "@ + ("--comment"@ + " "@ + "mbed:zone:"@)));
        assert(" -m comment --comment mbed:zone:"@ + id =~= " "@ + (a + " "@ + b));
    }
    reveal_strlit(" -m comment --comment mbed:mtu:");
    reveal_strlit("mbed:mtu:");
    assert(is_match(" -m comment --comment mbed:mtu:"@ + id)) by {
        lemma_dark_add("mbed:mtu:"@, id);
        let w = "mbed:mtu:"@ + id;
        lemma_tame_pair("--comment"@, w);
        let b = "--comment"@ + " "@ + w;
        lemma_tame_join(a, b);
        lemma_match_space(a + " "@ + b);
        assert(" -m comment --comment mbed:mtu:"@ =~= " "@ + (a + " "@ + ("--comment"@ + " "@ + "mbed:mtu:"@)));
        assert(" -m comment --comment mbed:mtu:"@ + id =~= " "@ + (a + " "@ + b));
    }
    reveal_strlit(" -m comment --comment mbed:masq:");
    reveal_strlit("mbed:masq:");
    assert(is_match(" -m comment --comment mbed:masq:"@ + id)) by {
        lemma_dark_add("mbed:masq:"@, id);
        let w = "mbed:masq:"@ + id;
        lemma_tame_pair("--comment"@, w);
        let b = "--comment"@ + " "@ + w;
        lemma_tame_join(a, b);
        lemma_match_space(a + " "@ + b);
        assert(" -m comment --comment mbed:masq:"@ =~= " "@ + (a + " "@ + ("--comment"@ + " "@ + "mbed:masq:"@)));
        assert(" -m comment --comment mbed:masq:"@ + id =~= " "@ + (a + " "@ + b));
    }
}

/// A flag with a value of one word, and its last character.
proof fn lemma_jump_words(target: Seq<char>)
    requires
        is_flag(target),
    ensures
        is_tame("-j"@ + " "@ + target),
{
    reveal(is_tame);
    lemma_flag_words();
    lemma_space();
    lemma_tokens_join("-j"@, target);
    lemma_tokens_word("-j"@);
    lemma_tokens_word(target);
    let t = seq!["-j"@] + seq![target];
    assert(t[0] == "-j"@ && t[1] == target);
    assert(is_safe(t));
    lemma_dark_inline("-j"@);
    lemma_dark_inline(target);
    lemma_inline_add("-j"@, " "@);
    lemma_inline_add("-j"@ + " "@, target);
}

/// A jump elsewhere, with a further option and its value.
proof fn lemma_jump_pair(target: Seq<char>, option: Seq<char>, w: Seq<char>)
    requires
        is_flag(target),
        is_flag(option),
        option != "-j"@,
        is_word(w),
    ensures
        is_tame("-j"@ + " "@ + target + " "@ + option + " "@ + w),
        ("-j"@ + " "@ + target + " "@ + option + " "@ + w).last() != '\r',
{
    lemma_jump_words(target);
    lemma_tame_pair(option, w);
    let a = "-j"@ + " "@ + target;
    let b = option + " "@ + w;
    lemma_tame_join(a, b);
    assert(a + " "@ + b =~= "-j"@ + " "@ + target + " "@ + option + " "@ + w);
    assert((a + " "@ + b).last() == w.last());
    lemma_dark_inline(w);
}

/// What a rule does.
proof fn lemma_target_words()
    ensures
        is_tame("-j ACCEPT"@),
        "-j ACCEPT"@.last() != '\r',
        "-j ACCEPT"@.len() > 0,
        is_tame("-j DROP"@),
        "-j DROP"@.last() != '\r',
        "-j DROP"@.len() > 0,
        is_tame("-j REJECT"@),
        "-j REJECT"@.last() != '\r',
        "-j REJECT"@.len() > 0,
        is_tame("-j REJECT --reject-with tcp-reset"@),
        "-j REJECT --reject-with tcp-reset"@.last() != '\r',
        "-j REJECT --reject-with tcp-reset"@.len() > 0,
        is_tame("-j REJECT --reject-with icmp-port-unreachable"@),
        "-j REJECT --reject-with icmp-port-unreachable"@.last() != '\r',
        "-j REJECT --reject-with icmp-port-unreachable"@.len() > 0,
        is_tame("-j REJECT --reject-with icmp-host-unreachable"@),
        "-j REJECT --reject-with icmp-host-unreachable"@.last() != '\r',
        "-j REJECT --reject-with icmp-host-unreachable"@.len() > 0,
        is_tame("-j REJECT --reject-with icmp6-port-unreachable"@),
        "-j REJECT --reject-with icmp6-port-unreachable"@.last() != '\r',
        "-j REJECT --reject-with icmp6-port-unreachable"@.len() > 0,
        is_tame("-j MASQUERADE"@),
        "-j MASQUERADE"@.last() != '\r',
        "-j MASQUERADE"@.len() > 0,
{
    lemma_flag_words();
    reveal_strlit(" ");
    reveal_strlit("-j");
    reveal_strlit("REJECT");
    reveal_strlit("--reject-with");
    reveal_strlit("-j ACCEPT");
    assert(is_tame("-j ACCEPT"@)) by {
        reveal_strlit("ACCEPT");
        lemma_jump_words("ACCEPT"@);
        assert("-j ACCEPT"@ =~= "-j"@ + " "@ + "ACCEPT"@);
    }
    reveal_strlit("-j DROP");
    assert(is_tame("-j DROP"@)) by {
        reveal_strlit("DROP");
        lemma_jump_words("DROP"@);
        assert("-j DROP"@ =~= "-j"@ + " "@ + "DROP"@);
    }
    reveal_strlit("-j REJECT");
    assert(is_tame("-j REJECT"@)) by {
        reveal_strlit("REJECT");
        lemma_jump_words("REJECT"@);
        assert("-j REJECT"@ =~= "-j"@ + " "@ + "REJECT"@);
    }
    reveal_strlit("-j REJECT --reject-with tcp-reset");
    assert(is_tame("-j REJECT --reject-with tcp-reset"@)) by {
        reveal_strlit("tcp-reset");
        lemma_jump_pair("REJECT"@, "--reject-with"@, "tcp-reset"@);
        assert("-j REJECT --reject-with tcp-reset"@ =~= "-j"@ + " "@ + "REJECT"@ + " "@ + "--reject-with"@ + " "@ + "tcp-reset"@);
    }
    reveal_strlit("-j REJECT --reject-with icmp-port-unreachable");
    assert(is_tame("-j REJECT --reject-with icmp-port-unreachable"@)) by {
        reveal_strlit("icmp-port-unreachable");
        lemma_jump_pair("REJECT"@, "--reject-with"@, "icmp-port-unreachable"@);
        assert("-j REJECT --reject-with icmp-port-unreachable"@ =~= "-j"@ + " "@ + "REJECT"@ + " "@ + "--reject-with"@ + " "@ + "icmp-port-unreachable"@);
    }
    reveal_strlit("-j REJECT --reject-with icmp-host-unreachable");
    assert(is_tame("-j REJECT --reject-with icmp-host-unreachable"@)) by {
        reveal_strlit("icmp-host-unreachable");
        lemma_jump_pair("REJECT"@, "--reject-with"@, "icmp-host-unreachable"@);
        assert("-j REJECT --reject-with icmp-host-unreachable"@ =~= "-j"@ + " "@ + "REJECT"@ + " "@ + "--reject-with"@ + " "@ + "icmp-host-unreachable"@);
    }
    reveal_strlit("-j REJECT --reject-with icmp6-port-unreachable");
    assert(is_tame("-j REJECT --reject-with icmp6-port-unreachable"@)) by {
        reveal_strlit("icmp6-port-unreachable");
        lemma_jump_pair("REJECT"@, "--reject-with"@, "icmp6-port-unreachable"@);
        assert("-j REJECT --reject-with icmp6-port-unreachable"@ =~= "-j"@ + " "@ + "REJECT"@ + " "@ + "--reject-with"@ + " "@ + "icmp6-port-unreachable"@);
    }
    reveal_strlit("-j MASQUERADE");
    assert(is_tame("-j MASQUERADE"@)) by {
        reveal_strlit("MASQUERADE");
        lemma_jump_words("MASQUERADE"@);
        assert("-j MASQUERADE"@ =~= "-j"@ + " "@ + "MASQUERADE"@);
    }
}

proof fn lemma_target(
    verdict: FirewallVerdict,
    reject: Option<FirewallRejectKind>,
    family: IpFamily,
)
    ensures
        target_of(verdict, reject, family) matches Some(t) ==> is_tame(t) && t.len() > 0 && t.last()
            != '\r',
{
    lemma_target_words();
}

proof fn lemma_limit(l: Option<FirewallRateLimit>)
    ensures
        is_match(limit_text(l)),
{
    lemma_tame_empty();
    if let Some(l) = l {
        lemma_flag_words();
        lemma_dark_words();
        reveal_strlit(" ");
        reveal_strlit("-m");
        reveal_strlit("limit");
        reveal_strlit("--limit");
        reveal_strlit("--limit-burst");
        reveal_strlit("/second");
        reveal_strlit(" -m limit --limit ");
        reveal_strlit("/second --limit-burst ");
        let rate = decimal(l.packets_per_second as nat);
        let burst = decimal(l.burst as nat);
        lemma_decimal_word(l.packets_per_second as nat);
        lemma_decimal_word(l.burst as nat);
        lemma_dark_add(rate, "/second"@);
        let a = "-m"@ + " "@ + "limit"@;
        let b = "--limit"@ + " "@ + (rate + "/second"@);
        let c = "--limit-burst"@ + " "@ + burst;
        lemma_tame_pair("-m"@, "limit"@);
        lemma_tame_pair("--limit"@, rate + "/second"@);
        lemma_tame_pair("--limit-burst"@, burst);
        lemma_tame_join(a, b);
        lemma_tame_join(a + " "@ + b, c);
        lemma_match_space(a + " "@ + b + " "@ + c);
        assert(" -m limit --limit "@ =~= " "@ + (a + " "@ + ("--limit"@ + " "@)));
        assert("/second --limit-burst "@ =~= "/second"@ + " "@ + ("--limit-burst"@ + " "@));
        assert(limit_text(Some(l)) =~= " "@ + (a + " "@ + b + " "@ + c));
    }
}

/// Whether a chain is one that rules are appended to.
pub open spec fn is_rule_chain(chain: Seq<char>) -> bool {
    chain == "MBED_INPUT"@ || chain == "MBED_OUTPUT"@ || chain == "MBED_FORWARD"@ || chain
        == "MBED_PREROUTING"@ || chain == "MBED_POSTROUTING"@ || chain == "MBED_MANGLE_FORWARD"@
}

proof fn lemma_rule_chain(chain: Seq<char>)
    requires
        is_rule_chain(chain),
    ensures
        is_word(chain),
        chain != "-j"@,
{
    lemma_dark_words();
    reveal_strlit("-j");
    reveal_strlit("MBED_INPUT");
    reveal_strlit("MBED_OUTPUT");
    reveal_strlit("MBED_FORWARD");
    reveal_strlit("MBED_PREROUTING");
    reveal_strlit("MBED_POSTROUTING");
    reveal_strlit("MBED_MANGLE_FORWARD");
    assert("-j"@.len() == 2);
    assert(chain.len() > 2);
}

proof fn lemma_rule_line_quiet(
    chain: Seq<char>,
    matcher: Seq<char>,
    limit: Seq<char>,
    id: Seq<char>,
    target: Seq<char>,
)
    requires
        chain == "MBED_INPUT"@ || chain == "MBED_OUTPUT"@ || chain == "MBED_FORWARD"@ || chain
            == "MBED_PREROUTING"@ || chain == "MBED_POSTROUTING"@,
        is_match(matcher),
        is_match(limit),
        is_dark(id),
        is_tame(target),
        target.len() > 0,
        target.last() != '\r',
    ensures
        is_quiet_end(rule_line(chain, matcher, limit, id, target)),
{
    lemma_comment(id);
    lemma_match_space(target);
    lemma_space();
    let x = " -m comment --comment mbed:"@ + id;
    let y = " "@ + target;
    lemma_match_add(matcher, limit);
    lemma_match_add(matcher + limit, x);
    lemma_match_add(matcher + limit + x, y);
    let rest = matcher + limit + x + y;
    let body = "-A "@ + chain + rest;
    assert(rest.last() == target.last());
    lemma_dark_inline(id);
    assert(is_inline(matcher) && is_inline(limit) && is_inline(target)) by {
        reveal(is_tame);
    }
    lemma_rule_line(false, chain, matcher, limit, id, target);
    assert(rule_line(chain, matcher, limit, id, target) =~= body + "\n"@);
    lemma_rule_chain(chain);
    lemma_quiet_tame(body, chain, rest);
}

proof fn lemma_level(l: FirewallLogLevel)
    ensures
        is_word(level_name(l)),
{
    lemma_dark_words();
    reveal_strlit("emerg");
    reveal_strlit("alert");
    reveal_strlit("crit");
    reveal_strlit("error");
    reveal_strlit("warning");
    reveal_strlit("notice");
    reveal_strlit("info");
    reveal_strlit("debug");
}

proof fn lemma_log_limit()
    ensures
        is_match(" -m limit --limit 1/second --limit-burst 5"@),
{
    lemma_flag_words();
    lemma_dark_words();
    reveal_strlit(" ");
    reveal_strlit("-m");
    reveal_strlit("limit");
    reveal_strlit("--limit");
    reveal_strlit("1/second");
    reveal_strlit("--limit-burst");
    reveal_strlit("5");
    reveal_strlit(" -m limit --limit 1/second --limit-burst 5");
    let a = "-m"@ + " "@ + "limit"@;
    let b = "--limit"@ + " "@ + "1/second"@;
    let c = "--limit-burst"@ + " "@ + "5"@;
    lemma_tame_pair("-m"@, "limit"@);
    lemma_tame_pair("--limit"@, "1/second"@);
    lemma_tame_pair("--limit-burst"@, "5"@);
    lemma_tame_join(a, b);
    lemma_tame_join(a + " "@ + b, c);
    lemma_match_space(a + " "@ + b + " "@ + c);
    assert(" -m limit --limit 1/second --limit-burst 5"@ =~= " "@ + (a + " "@ + b + " "@ + c));
}

/// The end of a line that logs.
spec fn log_tail(prefix: Seq<char>, name: Seq<char>) -> Seq<char> {
    " -j LOG --log-prefix \""@ + prefix + "\" --log-level "@ + name
}

/// The first jump of the end of a line that logs is to the log.
proof fn lemma_log_tail(prefix: Seq<char>, name: Seq<char>) -> (more: Seq<Seq<char>>)
    ensures
        tokens(log_tail(prefix, name)) == seq!["-j"@, "LOG"@] + more,
        log_tail(prefix, name).len() > 0,
        log_tail(prefix, name)[0] == ' ',
{
    lemma_dark_words();
    lemma_space();
    reveal_strlit(" -j LOG --log-prefix \"");
    reveal_strlit("--log-prefix \"");
    reveal_strlit("-j");
    reveal_strlit("LOG");
    let after = "--log-prefix \""@ + prefix + "\" --log-level "@ + name;
    let log = "-j"@ + " "@ + "LOG"@;
    let none = Seq::<char>::empty();
    assert(" -j LOG --log-prefix \""@ =~= " "@ + (log + " "@ + "--log-prefix \""@));
    let tail = log_tail(prefix, name);
    assert(tail =~= none + seq![' '] + (log + " "@ + after));
    lemma_tokens_join(none, log + " "@ + after);
    lemma_tokens_word(none);
    lemma_tokens_join(log, after);
    lemma_tokens_join("-j"@, "LOG"@);
    lemma_tokens_word("-j"@);
    lemma_tokens_word("LOG"@);
    assert(tokens(tail) =~= seq!["-j"@, "LOG"@] + tokens(after));
    tokens(after)
}

proof fn lemma_log_line_quiet(
    chain: Seq<char>,
    matcher: Seq<char>,
    id: Seq<char>,
    prefix: Seq<char>,
    level: FirewallLogLevel,
)
    requires
        chain == "MBED_INPUT"@ || chain == "MBED_OUTPUT"@ || chain == "MBED_FORWARD"@,
        is_match(matcher),
        is_dark(id),
        is_double_quotable(prefix),
    ensures
        is_quiet_end(log_line(chain, matcher, id, prefix, level)),
{
    let name = level_name(level);
    let limit = " -m limit --limit 1/second --limit-burst 5"@;
    let x = " -m comment --comment mbed:"@ + id;
    let front = matcher + limit + x;
    let tail = log_tail(prefix, name);
    let rest = front + tail;
    let body = "-A "@ + chain + rest;
    assert(is_match(front)) by {
        lemma_comment(id);
        lemma_log_limit();
        lemma_match_add(matcher, limit);
        lemma_match_add(matcher + limit, x);
    }
    let more = lemma_log_tail(prefix, name);
    let last = seq!["-j"@, "LOG"@] + more;
    lemma_tokens_glue(front, tail);
    assert(log_line(chain, matcher, id, prefix, level) =~= body + "\n"@) by {
        reveal_strlit(" -m limit --limit 1/second --limit-burst 5 -m comment --comment mbed:");
        reveal_strlit(" -m limit --limit 1/second --limit-burst 5");
        reveal_strlit(" -m comment --comment mbed:");
        assert(" -m limit --limit 1/second --limit-burst 5 -m comment --comment mbed:"@ =~= limit
            + " -m comment --comment mbed:"@);
    }
    assert(!is_chain("LOG"@)) by {
        lemma_flag_words();
    }
    assert(last[0] == "-j"@ && last[1] == "LOG"@);
    assert(is_safe(tokens(front)) && is_inline(matcher)) by {
        reveal(is_tame);
    }
    assert(rest[0] == ' ') by {
        if front.len() > 0 {
            assert(rest[0] == front[0]);
        }
    }
    lemma_level(level);
    assert(rest.last() == name.last());
    lemma_dark_inline(name);
    lemma_dark_inline(id);
    lemma_log_line(false, chain, matcher, id, prefix, level);
    lemma_rule_chain(chain);
    lemma_quiet_rule(body, chain, rest, last);
}

proof fn lemma_forward_line_quiet(input: Seq<char>, output: Seq<char>, id: Seq<char>)
    requires
        is_word(input),
        is_word(output),
        is_dark(id),
    ensures
        is_quiet_end(forward_line(input, output, id)),
{
    lemma_comment(id);
    lemma_flag_words();
    lemma_target_words();
    lemma_space();
    reveal_strlit("-A MBED_FORWARD -i ");
    reveal_strlit("-A ");
    reveal_strlit("MBED_FORWARD");
    reveal_strlit("-i");
    reveal_strlit(" -o ");
    reveal_strlit("-o");
    reveal_strlit(" -j ACCEPT\n");
    reveal_strlit("-j ACCEPT");
    reveal_strlit("\n");
    lemma_tame_pair("-i"@, input);
    lemma_tame_pair("-o"@, output);
    let a = "-i"@ + " "@ + input;
    let b = "-o"@ + " "@ + output;
    lemma_match_space(a);
    lemma_match_space(b);
    lemma_match_space("-j ACCEPT"@);
    let x = " -m comment --comment mbed:"@ + id;
    let y = " "@ + "-j ACCEPT"@;
    lemma_match_add(" "@ + a, " "@ + b);
    lemma_match_add(" "@ + a + (" "@ + b), x);
    lemma_match_add(" "@ + a + (" "@ + b) + x, y);
    let rest = " "@ + a + (" "@ + b) + x + y;
    let chain = "MBED_FORWARD"@;
    let body = "-A "@ + chain + rest;
    assert(rest.last() == "-j ACCEPT"@.last());
    assert("-A MBED_FORWARD -i "@ =~= "-A "@ + chain + " "@ + ("-i"@ + " "@));
    assert(" -o "@ =~= " "@ + ("-o"@ + " "@));
    assert(" -j ACCEPT\n"@ =~= y + "\n"@);
    assert(forward_line(input, output, id) =~= body + "\n"@);
    lemma_dark_inline(input);
    lemma_dark_inline(output);
    lemma_dark_inline(id);
    lemma_forward_line(false, input, output, id);
    lemma_rule_chain(chain);
    lemma_quiet_tame(body, chain, rest);
}

proof fn lemma_policy_line_quiet(
    chain: Seq<char>,
    flag: Seq<char>,
    interface: Seq<char>,
    id: Seq<char>,
    verdict: FirewallVerdict,
)
    requires
        chain == "MBED_INPUT"@ || chain == "MBED_OUTPUT"@ || chain == "MBED_FORWARD"@,
        is_flag(flag),
        flag != "-j"@,
        is_word(interface),
        is_dark(id),
    ensures
        is_quiet_end(policy_line(chain, flag, interface, id, verdict)),
{
    lemma_comment(id);
    lemma_target(verdict, None, IpFamily::Ipv4);
    lemma_space();
    reveal_strlit("\n");
    let target = target_of(verdict, None, IpFamily::Ipv4)->Some_0;
    lemma_tame_pair(flag, interface);
    lemma_match_space(flag + " "@ + interface);
    lemma_match_space(target);
    let a = " "@ + (flag + " "@ + interface);
    let x = " -m comment --comment mbed:zone:"@ + id;
    let y = " "@ + target;
    lemma_match_add(a, x);
    lemma_match_add(a + x, y);
    let rest = a + x + y;
    let body = "-A "@ + chain + rest;
    assert(rest.last() == target.last());
    assert(policy_line(chain, flag, interface, id, verdict) =~= body + "\n"@);
    lemma_dark_inline(flag);
    lemma_dark_inline(interface);
    lemma_dark_inline(id);
    lemma_policy_one_line(chain, flag, interface, id, verdict);
    lemma_rule_chain(chain);
    lemma_quiet_tame(body, chain, rest);
}

proof fn lemma_zone_line_quiet(interface: Seq<char>, id: Seq<char>)
    requires
        is_word(interface),
        is_dark(id),
    ensures
        is_quiet_end(mtu_line(interface, id)),
        is_quiet_end(masquerade_line(interface, id)),
{
    lemma_comment(id);
    lemma_flag_words();
    lemma_dark_words();
    lemma_target_words();
    lemma_space();
    lemma_dark_inline(interface);
    lemma_dark_inline(id);
    lemma_zone_line(false, interface, id);
    reveal_strlit("-A ");
    reveal_strlit("-o");
    reveal_strlit("\n");
    lemma_tame_pair("-o"@, interface);
    let o = "-o"@ + " "@ + interface;
    lemma_match_space(o);
    assert(is_quiet_end(masquerade_line(interface, id))) by {
        reveal_strlit("-A MBED_POSTROUTING -o ");
        reveal_strlit("MBED_POSTROUTING");
        reveal_strlit(" -j MASQUERADE\n");
        reveal_strlit("-j MASQUERADE");
        lemma_match_space("-j MASQUERADE"@);
        let x = " -m comment --comment mbed:masq:"@ + id;
        let y = " "@ + "-j MASQUERADE"@;
        lemma_match_add(" "@ + o, x);
        lemma_match_add(" "@ + o + x, y);
        let rest = " "@ + o + x + y;
        let chain = "MBED_POSTROUTING"@;
        let body = "-A "@ + chain + rest;
        assert(rest.last() == "-j MASQUERADE"@.last());
        assert("-A MBED_POSTROUTING -o "@ =~= "-A "@ + chain + " "@ + ("-o"@ + " "@));
        assert(" -j MASQUERADE\n"@ =~= y + "\n"@);
        assert(masquerade_line(interface, id) =~= body + "\n"@);
        lemma_rule_chain(chain);
        lemma_quiet_tame(body, chain, rest);
    }
    assert(is_quiet_end(mtu_line(interface, id))) by {
        reveal_strlit("-A MBED_MANGLE_FORWARD -o ");
        reveal_strlit("MBED_MANGLE_FORWARD");
        reveal_strlit(" -p tcp --tcp-flags SYN,RST SYN -m comment --comment mbed:mtu:");
        reveal_strlit(" -m comment --comment mbed:mtu:");
        reveal_strlit("-p");
        reveal_strlit("tcp");
        reveal_strlit("--tcp-flags");
        reveal_strlit("SYN,RST");
        reveal_strlit("SYN");
        reveal_strlit(" -j TCPMSS --clamp-mss-to-pmtu\n");
        reveal_strlit("-j");
        reveal_strlit("TCPMSS");
        reveal_strlit("--clamp-mss-to-pmtu");
        lemma_tame_pair("-p"@, "tcp"@);
        lemma_tame_pair("--tcp-flags"@, "SYN,RST"@);
        lemma_tame_word("SYN"@);
        let p = "-p"@ + " "@ + "tcp"@;
        let f = "--tcp-flags"@ + " "@ + "SYN,RST"@;
        lemma_tame_join(p, f);
        lemma_tame_join(p + " "@ + f, "SYN"@);
        let w = p + " "@ + f + " "@ + "SYN"@;
        lemma_match_space(w);
        lemma_jump_words("TCPMSS"@);
        lemma_tame_word("--clamp-mss-to-pmtu"@);
        let j = "-j"@ + " "@ + "TCPMSS"@;
        lemma_tame_join(j, "--clamp-mss-to-pmtu"@);
        lemma_match_space(j + " "@ + "--clamp-mss-to-pmtu"@);
        let x = " -m comment --comment mbed:mtu:"@ + id;
        let y = " "@ + (j + " "@ + "--clamp-mss-to-pmtu"@);
        lemma_match_add(" "@ + o, " "@ + w);
        lemma_match_add(" "@ + o + (" "@ + w), x);
        lemma_match_add(" "@ + o + (" "@ + w) + x, y);
        let rest = " "@ + o + (" "@ + w) + x + y;
        let chain = "MBED_MANGLE_FORWARD"@;
        let body = "-A "@ + chain + rest;
        assert(rest.last() == "--clamp-mss-to-pmtu"@.last());
        assert("-A MBED_MANGLE_FORWARD -o "@ =~= "-A "@ + chain + " "@ + ("-o"@ + " "@));
        assert(" -p tcp --tcp-flags SYN,RST SYN -m comment --comment mbed:mtu:"@ =~= " "@ + w
            + " -m comment --comment mbed:mtu:"@);
        assert(" -j TCPMSS --clamp-mss-to-pmtu\n"@ =~= y + "\n"@);
        assert(mtu_line(interface, id) =~= body + "\n"@);
        lemma_rule_chain(chain);
        lemma_quiet_tame(body, chain, rest);
    }
}

proof fn lemma_translation(r: FirewallNatRuleView, family: IpFamily)
    ensures
        translation(r, family) matches Ok(Some(t)) ==> is_tame(t) && t.len() > 0 && t.last() != '\r',
{
    broadcast use lemma_dark_add;

    lemma_dark_words();
    lemma_flag_words();
    lemma_target_words();
    reveal_strlit(" ");
    reveal_strlit("-j");
    reveal_strlit("REDIRECT");
    reveal_strlit("DNAT");
    reveal_strlit("SNAT");
    reveal_strlit("--to-ports");
    reveal_strlit("--to-destination");
    reveal_strlit("--to-source");
    reveal_strlit("-j REDIRECT --to-ports ");
    reveal_strlit("-j DNAT --to-destination ");
    reveal_strlit("-j SNAT --to-source ");
    if let Some(p) = r.translation_port {
        lemma_port_word(p);
        lemma_jump_pair("REDIRECT"@, "--to-ports"@, port_text(p));
        assert("-j REDIRECT --to-ports "@ =~= "-j"@ + " "@ + "REDIRECT"@ + " "@ + "--to-ports"@
            + " "@);
    }
    if let Some(a) = r.translation_address {
        lemma_address_dark(a);
        let e = endpoint(a, r.translation_port);
        assert(is_dark(e));
        assert(e.len() > 0) by {
            law_address_round_trips(a);
            lemma_address_some(a);
        }
        lemma_jump_pair("DNAT"@, "--to-destination"@, e);
        lemma_jump_pair("SNAT"@, "--to-source"@, e);
        assert("-j DNAT --to-destination "@ =~= "-j"@ + " "@ + "DNAT"@ + " "@
            + "--to-destination"@ + " "@);
        assert("-j SNAT --to-source "@ =~= "-j"@ + " "@ + "SNAT"@ + " "@ + "--to-source"@ + " "@);
    }
}

/// The text of an address is not empty.
pub proof fn lemma_address_some(a: IpAddr)
    ensures
        address_format(a).len() > 0,
{
    law_address_round_trips(a);
    if address_format(a).len() == 0 {
        let s = address_format(a);
        assert(s =~= Seq::empty());
        lemma_empty_is_no_address();
    }
}

proof fn lemma_matched(
    d: DraftView,
    r: FirewallFilterRuleView,
    matcher: Seq<char>,
    family: IpFamily,
)
    requires
        is_quiet(d.text),
        is_plain_rule(r),
        is_match(matcher),
    ensures
        quiet_result(matched(d, r, matcher, family)),
{
    let chain = chain_of(r.direction);
    if let Some(log) = r.log {
        if is_double_quotable(log.prefix) {
            lemma_log_line_quiet(chain, matcher, r.id, log.prefix, log.level);
            lemma_quiet_append(d.text, log_line(chain, matcher, r.id, log.prefix, log.level));
        }
    }
    assert(quiet_result(logged(d, r, matcher)));
    lemma_target(r.verdict, r.reject_with, family);
    lemma_limit(r.rate_limit);
    if let Some(target) = target_of(r.verdict, r.reject_with, family) {
        let line = rule_line(chain, matcher, limit_text(r.rate_limit), r.id, target);
        lemma_rule_line_quiet(chain, matcher, limit_text(r.rate_limit), r.id, target);
        if let Ok(next) = logged(d, r, matcher) {
            lemma_quiet_append(next.text, line);
        }
    }
}

proof fn lemma_all_matched(
    d: DraftView,
    r: FirewallFilterRuleView,
    matchers: Seq<Seq<char>>,
    family: IpFamily,
    i: int,
)
    requires
        is_quiet(d.text),
        is_plain_rule(r),
        all_matches(matchers),
        0 <= i,
    ensures
        quiet_result(all_matched(d, r, matchers, family, i)),
    decreases matchers.len() - i,
{
    if i < matchers.len() {
        assert(is_match(matchers[i]));
        lemma_matched(d, r, matchers[i], family);
        if let Ok(next) = matched(d, r, matchers[i], family) {
            lemma_all_matched(next, r, matchers, family, i + 1);
        }
    }
}

proof fn lemma_all_filtered(
    d: DraftView,
    c: RenderContextView,
    family: IpFamily,
    i: int,
)
    requires
        is_quiet(d.text),
        is_plain_context(c),
        0 <= i,
    ensures
        quiet_result(all_filtered(d, c, family, i)),
    decreases c.filter_rules.len() - i,
{
    if i < c.filter_rules.len() {
        let r = c.filter_rules[i];
        assert(is_plain_rule(r));
        lemma_alternatives(c, r.matches, r.direction, family);
        if let Ok(matchers) = alternatives(c, r.matches, r.direction, family) {
            lemma_all_matched(d, r, matchers, family, 0);
        }
        assert(quiet_result(filtered(d, c, r, family)));
        if let Ok(next) = filtered(d, c, r, family) {
            lemma_all_filtered(next, c, family, i + 1);
        }
    }
}

proof fn lemma_forwarded_to(
    d: DraftView,
    input: Seq<char>,
    outputs: Seq<Seq<char>>,
    id: Seq<char>,
    j: int,
)
    requires
        is_quiet(d.text),
        is_word(input),
        all_words(outputs),
        is_dark(id),
        0 <= j,
    ensures
        quiet_result(forwarded_to(d, input, outputs, id, j)),
    decreases outputs.len() - j,
{
    if j < outputs.len() {
        let line = forward_line(input, outputs[j], id);
        assert(is_word(outputs[j]));
        lemma_forward_line_quiet(input, outputs[j], id);
        lemma_quiet_append(d.text, line);
        if let Ok(room) = counted(d) {
            lemma_forwarded_to(written(room, line), input, outputs, id, j + 1);
        }
    }
}

proof fn lemma_forwarded_from(
    d: DraftView,
    inputs: Seq<Seq<char>>,
    outputs: Seq<Seq<char>>,
    id: Seq<char>,
    i: int,
)
    requires
        is_quiet(d.text),
        all_words(inputs),
        all_words(outputs),
        is_dark(id),
        0 <= i,
    ensures
        quiet_result(forwarded_from(d, inputs, outputs, id, i)),
    decreases inputs.len() - i,
{
    if i < inputs.len() {
        assert(is_word(inputs[i]));
        lemma_forwarded_to(d, inputs[i], outputs, id, 0);
        if let Ok(next) = forwarded_to(d, inputs[i], outputs, id, 0) {
            lemma_forwarded_from(next, inputs, outputs, id, i + 1);
        }
    }
}

proof fn lemma_forwarded(d: DraftView, c: RenderContextView, i: int)
    requires
        is_quiet(d.text),
        is_plain_context(c),
        0 <= i,
    ensures
        quiet_result(forwarded(d, c, i)),
    decreases c.forwardings.len() - i,
{
    if i < c.forwardings.len() {
        let f = c.forwardings[i];
        assert(is_dark(f.id));
        lemma_zone_from(c.zones, f.source_zone, 0);
        lemma_zone_from(c.zones, f.destination_zone, 0);
        if !f.enabled {
            lemma_forwarded(d, c, i + 1);
        } else if let (Some(s), Some(t)) = (
            zone_from(c.zones, f.source_zone, 0),
            zone_from(c.zones, f.destination_zone, 0),
        ) {
            lemma_forwarded_from(d, s.networks, t.networks, f.id, 0);
            if let Ok(next) = forwarded_from(d, s.networks, t.networks, f.id, 0) {
                lemma_forwarded(next, c, i + 1);
            }
        }
    }
}

proof fn lemma_policy(
    d: Drafted,
    chain: Seq<char>,
    flag: Seq<char>,
    interface: Seq<char>,
    id: Seq<char>,
    verdict: FirewallVerdict,
)
    requires
        quiet_result(d),
        chain == "MBED_INPUT"@ || chain == "MBED_OUTPUT"@ || chain == "MBED_FORWARD"@,
        is_flag(flag),
        flag != "-j"@,
        is_word(interface),
        is_dark(id),
    ensures
        quiet_result(policy(d, policy_line(chain, flag, interface, id, verdict))),
{
    lemma_policy_line_quiet(chain, flag, interface, id, verdict);
    if let Ok(t) = d {
        lemma_quiet_append(t.text, policy_line(chain, flag, interface, id, verdict));
    }
}

proof fn lemma_zone_policies(d: DraftView, z: FirewallZoneView, i: int)
    requires
        is_quiet(d.text),
        is_plain_zone(z),
        0 <= i,
    ensures
        quiet_result(zone_policies(d, z, i)),
    decreases z.networks.len() - i,
{
    if i < z.networks.len() {
        let name = z.networks[i];
        assert(is_word(name));
        lemma_flag_words();
        let start = Ok::<DraftView, IptablesRenderErrorView>(d);
        lemma_policy(start, "MBED_INPUT"@, "-i"@, name, z.id, z.input);
        let input = policy(start, policy_line("MBED_INPUT"@, "-i"@, name, z.id, z.input));
        lemma_policy(input, "MBED_OUTPUT"@, "-o"@, name, z.id, z.output);
        let output = policy(input, policy_line("MBED_OUTPUT"@, "-o"@, name, z.id, z.output));
        lemma_policy(output, "MBED_FORWARD"@, "-i"@, name, z.id, z.forward);
        if let Ok(next) = policy(output, policy_line("MBED_FORWARD"@, "-i"@, name, z.id, z.forward)) {
            lemma_zone_policies(next, z, i + 1);
        }
    }
}

proof fn lemma_policies(
    d: DraftView,
    zones: Seq<FirewallZoneView>,
    i: int,
)
    requires
        is_quiet(d.text),
        plain_zones(zones),
        0 <= i,
    ensures
        quiet_result(policies(d, zones, i)),
    decreases zones.len() - i,
{
    if i < zones.len() {
        assert(is_plain_zone(zones[i]));
        if !zones[i].enabled {
            lemma_policies(d, zones, i + 1);
        } else {
            lemma_zone_policies(d, zones[i], 0);
            if let Ok(next) = zone_policies(d, zones[i], 0) {
                lemma_policies(next, zones, i + 1);
            }
        }
    }
}

proof fn lemma_zone_lines(
    d: DraftView,
    z: FirewallZoneView,
    mtu: bool,
    i: int,
)
    requires
        is_quiet(d.text),
        is_plain_zone(z),
        0 <= i,
    ensures
        quiet_result(zone_lines(d, z, mtu, i)),
    decreases z.networks.len() - i,
{
    if i < z.networks.len() {
        assert(is_word(z.networks[i]));
        lemma_zone_line_quiet(z.networks[i], z.id);
        let line = if mtu {
            mtu_line(z.networks[i], z.id)
        } else {
            masquerade_line(z.networks[i], z.id)
        };
        lemma_quiet_append(d.text, line);
        if let Ok(room) = counted(d) {
            lemma_zone_lines(written(room, line), z, mtu, i + 1);
        }
    }
}

proof fn lemma_all_zone_lines(
    d: DraftView,
    zones: Seq<FirewallZoneView>,
    mtu: bool,
    i: int,
)
    requires
        is_quiet(d.text),
        plain_zones(zones),
        0 <= i,
    ensures
        quiet_result(all_zone_lines(d, zones, mtu, i)),
    decreases zones.len() - i,
{
    if i < zones.len() {
        assert(is_plain_zone(zones[i]));
        lemma_all_zone_lines(d, zones, mtu, i + 1);
        lemma_zone_lines(d, zones[i], mtu, 0);
        if let Ok(next) = zone_lines(d, zones[i], mtu, 0) {
            lemma_all_zone_lines(next, zones, mtu, i + 1);
        }
    }
}

proof fn lemma_all_translated(
    d: DraftView,
    r: FirewallNatRuleView,
    matchers: Seq<Seq<char>>,
    family: IpFamily,
    i: int,
)
    requires
        is_quiet(d.text),
        is_plain_nat(r),
        all_matches(matchers),
        0 <= i,
    ensures
        quiet_result(all_translated(d, r, matchers, family, i)),
    decreases matchers.len() - i,
{
    if i < matchers.len() {
        assert(is_match(matchers[i]));
        lemma_translation(r, family);
        lemma_tame_empty();
        match translation(r, family) {
            Ok(Some(target)) => {
                let line = rule_line(nat_chain(r.kind), matchers[i], Seq::empty(), r.id, target);
                lemma_rule_line_quiet(nat_chain(r.kind), matchers[i], Seq::empty(), r.id, target);
                lemma_quiet_append(d.text, line);
                if let Ok(room) = counted(d) {
                    lemma_all_translated(written(room, line), r, matchers, family, i + 1);
                }
            },
            Ok(None) => {
                lemma_all_translated(d, r, matchers, family, i + 1);
            },
            Err(_) => {},
        }
    }
}

proof fn lemma_translated(
    d: DraftView,
    c: RenderContextView,
    family: IpFamily,
    i: int,
)
    requires
        is_quiet(d.text),
        is_plain_context(c),
        0 <= i,
    ensures
        quiet_result(translated(d, c, family, i)),
    decreases c.nat_rules.len() - i,
{
    if i < c.nat_rules.len() {
        let r = c.nat_rules[i];
        assert(is_plain_nat(r));
        let direction = if is_prerouting(r.kind) {
            FirewallDirection::Input
        } else {
            FirewallDirection::Forward
        };
        lemma_alternatives(c, r.matches, direction, family);
        lemma_translated(d, c, family, i + 1);
        if let Ok(matchers) = alternatives(c, r.matches, direction, family) {
            lemma_all_translated(d, r, matchers, family, 0);
            if let Ok(next) = all_translated(d, r, matchers, family, 0) {
                lemma_translated(next, c, family, i + 1);
            }
        }
    }
}

proof fn lemma_quiet_empty()
    ensures
        is_quiet(Seq::empty()),
{
    reveal(is_quiet);
}

/// The rules of the three tables are quiet.
proof fn lemma_rules_quiet(c: RenderContextView, family: IpFamily)
    requires
        is_plain_context(c),
        rules_of(c, family) is Ok,
    ensures
        is_quiet(rules_of(c, family)->Ok_0.0),
        is_quiet(rules_of(c, family)->Ok_0.1),
        is_quiet(rules_of(c, family)->Ok_0.2),
{
    lemma_quiet_empty();
    let f = filter_rules(c, family, 0)->Ok_0;
    lemma_all_filtered(fresh(0), c, family, 0);
    let d1 = all_filtered(fresh(0), c, family, 0)->Ok_0;
    lemma_forwarded(d1, c, 0);
    let d2 = forwarded(d1, c, 0)->Ok_0;
    lemma_policies(d2, c.zones, 0);
    let m = mangle_rules(c, f.count)->Ok_0;
    lemma_all_zone_lines(fresh(f.count), c.zones, true, 0);
    lemma_translated(fresh(m.count), c, family, 0);
    let n1 = translated(fresh(m.count), c, family, 0)->Ok_0;
    lemma_all_zone_lines(n1, c.zones, false, 0);
}

proof fn lemma_run_quiet(l: Seq<Seq<char>>, q: int, st: (Seq<char>, (nat, nat, nat)), i: int)
    requires
        0 <= q < 6,
        0 <= i,
        forall|j: int| 0 <= j < l.len() ==> is_quiet_line(#[trigger] l[j]),
    ensures
        run(l, owned_chains()[q], st, i) == st,
    decreases l.len() - i,
{
    if i < l.len() {
        let c = owned_chains()[q];
        assert(is_quiet_line(l[i]));
        assert(!is_marked(l[i], c) || !jumps_to(l[i], c));
        lemma_run_quiet(l, q, st, i + 1);
    }
}

/// What a declaration of one managed chain counts for another.
proof fn lemma_declare_share(k: int, q: int)
    requires
        0 <= k < 6,
        0 <= q < 6,
    ensures
        ({
            let line = declare_line(owned_chains()[k]).drop_last();
            &&& chomp(line) == line
            &&& !starts(line, "*"@)
            &&& line != "COMMIT"@
            &&& share(line, owned_chains()[q]) == (if k == q {
                (1nat, 0nat, 0nat)
            } else {
                (0nat, 0nat, 0nat)
            })
        }),
{
    let a = owned_chains()[k];
    let b = owned_chains()[q];
    let line = declare_line(a).drop_last();
    lemma_managed(k);
    lemma_managed(q);
    lemma_dark_words();
    lemma_space();
    reveal_strlit(":");
    reveal_strlit("-");
    reveal_strlit("[0:0]");
    reveal_strlit(" - [0:0]\n");
    reveal_strlit("*");
    reveal_strlit("COMMIT");
    reveal_strlit("-j");
    let head = ":"@ + a.managed;
    let tail = "-"@ + " "@ + "[0:0]"@;
    assert(line =~= head + " "@ + tail);
    assert(line.last() == "[0:0]"@.last());
    assert(line[0] == ':');
    assert(!starts(line, "*"@)) by {
        if starts(line, "*"@) {
            assert(line.take(1)[0] == line[0]);
        }
    }
    assert(line != "COMMIT"@) by {
        assert("COMMIT"@[0] == 'C');
    }
    lemma_dark_add(":"@, a.managed);
    lemma_tokens_join(head, tail);
    lemma_tokens_join("-"@, "[0:0]"@);
    lemma_tokens_word(head);
    lemma_tokens_word("-"@);
    lemma_tokens_word("[0:0]"@);
    let t = tokens(line);
    assert(t =~= seq![head, "-"@, "[0:0]"@]);
    assert(!jumps_to(line, b)) by {
        if jumps_to(line, b) {
            let f = lemma_value_after(t, "-j"@, 0);
            assert(t[f] == "-j"@);
            assert(head[0] == ':');
            assert("-j"@.len() == 2 && "-"@.len() == 1 && "[0:0]"@.len() == 5);
            assert("-j"@[0] == '-');
            assert(f == 0 || f == 1 || f == 2);
        }
    }
    let p = ":"@ + b.managed + " "@;
    let n = a.managed.len() as int;
    let m = b.managed.len() as int;
    if k == q {
        assert(line.take(p.len() as int) =~= p);
    } else if starts(line, p) {
        reveal(is_dark);
        if n < m {
            assert(line[n + 1] == ' ');
            assert(line.take(p.len() as int)[n + 1] == p[n + 1]);
            assert(p[n + 1] == b.managed[n]);
            assert(is_white(' '));
        } else {
            assert(n > m);
            assert(p[m + 1] == ' ');
            assert(line.take(p.len() as int)[m + 1] == line[m + 1]);
            assert(line[m + 1] == a.managed[m]);
            assert(is_white(' '));
        }
    }
}

proof fn lemma_trim_marker(k: int)
    requires
        0 <= k < 6,
    ensures
        trim_char(owned_chains()[k].marker, '"') == owned_chains()[k].marker,
{
    reveal_strlit("mbed-agent-owned:v1:input");
    reveal_strlit("mbed-agent-owned:v1:output");
    reveal_strlit("mbed-agent-owned:v1:forward");
    reveal_strlit("mbed-agent-owned:v1:prerouting");
    reveal_strlit("mbed-agent-owned:v1:postrouting");
    reveal_strlit("mbed-agent-owned:v1:mangle-forward");
    let s = owned_chains()[k].marker;
    assert(s[0] == 'm');
    assert(s.last() != '"');
    assert(run_end(s, '"', 0) == 0);
    assert(run_start(s, '"', 0, s.len() as int) == s.len());
    assert(s.subrange(0, s.len() as int) =~= s);
}

/// What the jump to one managed chain counts for another.
proof fn lemma_hook_share(k: int, q: int)
    requires
        0 <= k < 6,
        0 <= q < 6,
    ensures
        ({
            let line = hook_line(owned_chains()[k]).drop_last();
            &&& chomp(line) == line
            &&& !starts(line, "*"@)
            &&& line != "COMMIT"@
            &&& share(line, owned_chains()[q]) == (if k == q {
                (0nat, 1nat, 1nat)
            } else {
                (0nat, 0nat, 0nat)
            })
        }),
{
    let a = owned_chains()[k];
    let b = owned_chains()[q];
    let line = hook_line(a).drop_last();
    lemma_managed(k);
    lemma_managed(q);
    lemma_trim_marker(k);
    lemma_dark_words();
    lemma_space();
    reveal_strlit("-A ");
    reveal_strlit("-A");
    reveal_strlit("-m");
    reveal_strlit("comment");
    reveal_strlit("--comment");
    reveal_strlit("-j");
    reveal_strlit(" -j ");
    reveal_strlit(" -m comment --comment ");
    reveal_strlit("\n");
    reveal_strlit(":");
    reveal_strlit("*");
    reveal_strlit("COMMIT");
    let x1 = "-A"@ + " "@ + a.builtin;
    let x2 = "-m"@ + " "@ + "comment"@;
    let x3 = "--comment"@ + " "@ + a.marker;
    let x4 = "-j"@ + " "@ + a.managed;
    assert("-A "@ =~= "-A"@ + " "@);
    assert(" -m comment --comment "@ =~= " "@ + x2 + " "@ + ("--comment"@ + " "@));
    assert(" -j "@ =~= " "@ + ("-j"@ + " "@));
    assert(line =~= x1 + " "@ + x2 + " "@ + x3 + " "@ + x4);
    lemma_tokens_join("-A"@, a.builtin);
    lemma_tokens_join("-m"@, "comment"@);
    lemma_tokens_join("--comment"@, a.marker);
    lemma_tokens_join("-j"@, a.managed);
    lemma_tokens_join(x1, x2);
    lemma_tokens_join(x1 + " "@ + x2, x3);
    lemma_tokens_join(x1 + " "@ + x2 + " "@ + x3, x4);
    lemma_tokens_word("-A"@);
    lemma_tokens_word(a.builtin);
    lemma_tokens_word("-m"@);
    lemma_tokens_word("comment"@);
    lemma_tokens_word("--comment"@);
    lemma_tokens_word(a.marker);
    lemma_tokens_word("-j"@);
    lemma_tokens_word(a.managed);
    let t = tokens(line);
    assert(t =~= seq![
        "-A"@,
        a.builtin,
        "-m"@,
        "comment"@,
        "--comment"@,
        a.marker,
        "-j"@,
        a.managed,
    ]);
    assert("-A"@[1] == 'A' && "-m"@[1] == 'm' && "-j"@[1] == 'j');
    lemma_builtin(k);
    assert("comment"@.len() == 7 && "--comment"@.len() == 9);
    assert(value_after(t, "-j"@, 6) == Some(a.managed));
    assert(value_after(t, "-j"@, 5) == Some(a.managed));
    assert(value_after(t, "-j"@, 4) == Some(a.managed));
    assert(value_after(t, "-j"@, 3) == Some(a.managed));
    assert(value_after(t, "-j"@, 2) == Some(a.managed));
    assert(value_after(t, "-j"@, 1) == Some(a.managed));
    assert(value_after(t, "-j"@, 0) == Some(a.managed));
    assert(value_after(t, "--comment"@, 4) == Some(a.marker));
    assert(value_after(t, "--comment"@, 3) == Some(a.marker));
    assert(value_after(t, "--comment"@, 2) == Some(a.marker));
    assert(value_after(t, "--comment"@, 1) == Some(a.marker));
    assert(value_after(t, "--comment"@, 0) == Some(a.marker));
    assert(k != q ==> a.managed.len() != b.managed.len());
    assert(line[0] == '-');
    assert(line.last() == a.managed.last());
    lemma_dark_inline(a.managed);
    assert(!starts(line, "*"@)) by {
        if starts(line, "*"@) {
            assert(line.take(1)[0] == line[0]);
        }
    }
    assert(line != "COMMIT"@) by {
        assert("COMMIT"@[0] == 'C');
    }
    let p = ":"@ + b.managed + " "@;
    assert(!starts(line, p)) by {
        if starts(line, p) {
            assert(p[0] == ':');
            assert(line.take(p.len() as int)[0] == line[0]);
        }
    }
}

proof fn lemma_builtin(k: int)
    requires
        0 <= k < 6,
    ensures
        owned_chains()[k].builtin != "-j"@,
        owned_chains()[k].builtin != "--comment"@,
        owned_chains()[k].marker != "-j"@,
{
    reveal_strlit("-j");
    reveal_strlit("--comment");
    assert("--comment"@[0] == '-');
    reveal_strlit("INPUT");
    reveal_strlit("OUTPUT");
    reveal_strlit("FORWARD");
    reveal_strlit("PREROUTING");
    reveal_strlit("POSTROUTING");
    reveal_strlit("mbed-agent-owned:v1:input");
    reveal_strlit("mbed-agent-owned:v1:output");
    reveal_strlit("mbed-agent-owned:v1:forward");
    reveal_strlit("mbed-agent-owned:v1:prerouting");
    reveal_strlit("mbed-agent-owned:v1:postrouting");
    reveal_strlit("mbed-agent-owned:v1:mangle-forward");
    assert(owned_chains()[k].builtin[0] != '-');
    assert(owned_chains()[k].marker.len() > 2);
    assert("-j"@.len() == 2);
    assert("-j"@[0] == '-');
}

proof fn lemma_head_run(
    text: Seq<char>,
    table: Seq<char>,
    q: int,
    k: int,
    acc: (nat, nat, nat),
)
    requires
        0 <= q < 6,
        0 <= k,
        is_whole(text),
        run(lines(text), owned_chains()[q], (Seq::empty(), (0, 0, 0)), 0) == (table, acc),
    ensures
        is_whole(headed(text, table, IptablesFamilyState::Absent, k)),
        run(
            lines(headed(text, table, IptablesFamilyState::Absent, k)),
            owned_chains()[q],
            (Seq::empty(), (0, 0, 0)),
            0,
        ) == (
            table,
            if k <= q && owned_chains()[q].table == table {
                plus(acc, (1, 1, 1))
            } else {
                acc
            },
        ),
    decreases 6 - k,
{
    if k < 6 {
        let c = owned_chains()[k];
        let b = owned_chains()[q];
        let zero = (Seq::<char>::empty(), (0nat, 0nat, 0nat));
        if c.table != table {
            lemma_head_run(text, table, q, k + 1, acc);
        } else {
            let x = declare_line(c);
            let y = hook_line(c);
            lemma_head_lines(true, k);
            lemma_lines_one(x);
            lemma_lines_one(y);
            lemma_declare_share(k, q);
            lemma_hook_share(k, q);
            lemma_lines_append(text, x);
            assert(is_whole(text + x)) by {
                assert((text + x).last() == x.last());
            }
            lemma_lines_append(text + x, y);
            assert(is_whole(text + x + y)) by {
                assert((text + x + y).last() == y.last());
            }
            let l = lines(text);
            lemma_run_add(l, lines(x), b, zero, 0);
            lemma_run_add(l + lines(x), lines(y), b, zero, 0);
            lemma_run_one(x.drop_last(), b, (table, acc));
            let mid = step_line(x.drop_last(), b, (table, acc));
            lemma_run_one(y.drop_last(), b, mid);
            let next = step_line(y.drop_last(), b, mid);
            assert(next.0 == table);
            lemma_head_run(text + x + y, table, q, k + 1, next.1);
        }
    }
}

proof fn lemma_table_run(text: Seq<char>, table: Seq<char>, rules: Seq<char>, q: int, acc: (nat, nat, nat))
    requires
        0 <= q < 6,
        table == "filter"@ || table == "mangle"@ || table == "nat"@,
        is_whole(text),
        is_quiet(rules),
        run(lines(text), owned_chains()[q], (Seq::empty(), (0, 0, 0)), 0) == (
            Seq::<char>::empty(),
            acc,
        ),
    ensures
        is_whole(text + table_of(table, IptablesFamilyState::Absent, rules)),
        run(
            lines(text + table_of(table, IptablesFamilyState::Absent, rules)),
            owned_chains()[q],
            (Seq::empty(), (0, 0, 0)),
            0,
        ) == (
            Seq::<char>::empty(),
            if owned_chains()[q].table == table {
                plus(acc, (1, 1, 1))
            } else {
                acc
            },
        ),
{
    reveal_strlit("*");
    reveal_strlit("\n");
    reveal_strlit("COMMIT\n");
    reveal_strlit("COMMIT");
    reveal_strlit("filter");
    reveal_strlit("mangle");
    reveal_strlit("nat");
    let b = owned_chains()[q];
    let zero = (Seq::<char>::empty(), (0nat, 0nat, 0nat));
    let first = "*"@ + table + "\n"@;
    let open = "*"@ + table;
    lemma_table_line(table);
    lemma_lines_one(first);
    assert(first.drop_last() =~= open);
    assert(open.last() == table.last());
    assert(chomp(open) == open);
    lemma_lines_append(text, first);
    assert(is_whole(text + first)) by {
        assert((text + first).last() == first.last());
    }
    lemma_run_add(lines(text), lines(first), b, zero, 0);
    lemma_run_one(open, b, (Seq::empty(), acc));
    assert(starts(open, "*"@)) by {
        assert(open.take(1) =~= "*"@);
    }
    assert(open.skip(1) =~= table);
    lemma_head_run(text + first, table, q, 0, acc);
    lemma_headed_shift(text, first, table, 0);
    let h = text + head(table, IptablesFamilyState::Absent);
    let after = if b.table == table {
        plus(acc, (1, 1, 1))
    } else {
        acc
    };
    assert(run(lines(h), b, zero, 0) == (table, after));
    lemma_lines_append(h, rules);
    assert forall|j: int| 0 <= j < lines(rules).len() implies is_quiet_line(
        #[trigger] lines(rules)[j],
    ) by {
        reveal(is_quiet);
    }
    lemma_run_add(lines(h), lines(rules), b, zero, 0);
    lemma_run_quiet(lines(rules), q, (table, after), 0);
    assert(is_whole(h + rules)) by {
        reveal(is_quiet);
        if rules.len() > 0 {
            assert((h + rules).last() == rules.last());
        } else {
            assert(h + rules =~= h);
        }
    }
    let end = "COMMIT\n"@;
    lemma_line_ends();
    lemma_lines_one(end);
    assert(end.drop_last() =~= "COMMIT"@);
    assert(chomp("COMMIT"@) == "COMMIT"@);
    lemma_lines_append(h + rules, end);
    lemma_run_add(lines(h + rules), lines(end), b, zero, 0);
    lemma_run_one("COMMIT"@, b, (table, after));
    assert(!starts("COMMIT"@, "*"@)) by {
        assert("COMMIT"@.take(1)[0] == 'C');
    }
    let all = text + table_of(table, IptablesFamilyState::Absent, rules);
    assert(all =~= h + rules + end);
    assert(is_whole(all)) by {
        assert(all.last() == end.last());
    }
}

proof fn lemma_assembled_run(rules: (Seq<char>, Seq<char>, Seq<char>), q: int)
    requires
        0 <= q < 6,
        is_quiet(rules.0),
        is_quiet(rules.1),
        is_quiet(rules.2),
    ensures
        tally_of(assembled(IptablesFamilyState::Absent, rules), owned_chains()[q]) == (
            1nat,
            1nat,
            1nat,
        ),
{
    reveal_strlit("filter");
    reveal_strlit("mangle");
    reveal_strlit("nat");
    assert("filter"@[0] == 'f');
    assert("mangle"@[0] == 'm');
    let none = Seq::<char>::empty();
    let s = IptablesFamilyState::Absent;
    let c = owned_chains()[q];
    assert(c.table == "filter"@ || c.table == "mangle"@ || c.table == "nat"@);
    let zero = (0nat, 0nat, 0nat);
    let one = (1nat, 1nat, 1nat);
    lemma_table_run(none, "filter"@, rules.0, q, zero);
    let t1 = table_of("filter"@, s, rules.0);
    assert(none + t1 =~= t1);
    let a1 = if c.table == "filter"@ {
        one
    } else {
        zero
    };
    lemma_table_run(t1, "mangle"@, rules.1, q, a1);
    let t2 = t1 + table_of("mangle"@, s, rules.1);
    let a2 = if c.table == "filter"@ || c.table == "mangle"@ {
        one
    } else {
        zero
    };
    lemma_table_run(t2, "nat"@, rules.2, q, a2);
    lemma_tally_of(assembled(s, rules), c);
}

/// Whether the names that an object holds are words, its identity perhaps empty.
pub open spec fn is_plain_object(o: FirewallObjectView) -> bool {
    match o {
        FirewallObjectView::Zone(z) => is_plain_zone(z),
        FirewallObjectView::Forwarding(f) => is_dark(f.id),
        FirewallObjectView::FilterRule(r) => is_plain_rule(r),
        FirewallObjectView::NatRule(r) => is_plain_nat(r),
        FirewallObjectView::AddressSet(s) => forall|i: int|
            0 <= i < s.entries.len() ==> (#[trigger] s.entries[i] matches FirewallSetEntryView::Mac(m)
                ==> is_word(m)),
    }
}

proof fn lemma_with_object(c: RenderContextView, o: FirewallObjectView)
    requires
        is_plain_context(c),
        is_plain_object(o),
    ensures
        with_object(c, o) matches Some(next) ==> is_plain_context(next),
{
    match o {
        FirewallObjectView::FilterRule(r) => {
            let at = filter_slot(c.filter_rules, r, 0);
            lemma_filter_slot(c.filter_rules, r, 0);
            let next = c.filter_rules.insert(at, r);
            assert forall|i: int| 0 <= i < next.len() implies is_plain_rule(#[trigger] next[i]) by {
                if i < at {
                    assert(next[i] == c.filter_rules[i]);
                } else if i > at {
                    assert(next[i] == c.filter_rules[i - 1]);
                }
            }
        },
        FirewallObjectView::NatRule(r) => {
            let at = nat_slot(c.nat_rules, r, 0);
            lemma_nat_slot(c.nat_rules, r, 0);
            let next = c.nat_rules.insert(at, r);
            assert forall|i: int| 0 <= i < next.len() implies is_plain_nat(#[trigger] next[i]) by {
                if i < at {
                    assert(next[i] == c.nat_rules[i]);
                } else if i > at {
                    assert(next[i] == c.nat_rules[i - 1]);
                }
            }
        },
        FirewallObjectView::AddressSet(s) => {
            if let Some(e) = set_expanded(s) {
                let f = |x: FirewallSetEntryView| entry_text(x, e.kind);
                assert forall|i: int| 0 <= i < e.entries.len() implies is_word(
                    #[trigger] e.entries[i],
                ) by {
                    assert(f(s.entries[i]) is Some);
                    match s.entries[i] {
                        FirewallSetEntryView::Network(n) => {
                            lemma_network_word(n);
                        },
                        FirewallSetEntryView::Port(p) => {
                            lemma_port_word(p);
                        },
                        FirewallSetEntryView::Mac(_) => {},
                    }
                }
                assert(all_words(e.entries));
            }
        },
        _ => {},
    }
}

proof fn lemma_context(c: RenderContextView, objects: Seq<FirewallObjectView>, i: int)
    requires
        is_plain_context(c),
        forall|j: int| 0 <= j < objects.len() ==> is_plain_object(#[trigger] objects[j]),
        0 <= i,
    ensures
        context_of(c, objects, i) matches Some(next) ==> is_plain_context(next),
    decreases objects.len() - i,
{
    if i < objects.len() {
        assert(is_plain_object(objects[i]));
        lemma_with_object(c, objects[i]);
        if let Some(next) = with_object(c, objects[i]) {
            lemma_context(next, objects, i + 1);
        }
    }
}

/// Both restores that are rendered for absent chains are inspected as the agent's, as far as they are not
/// malformed: each of the six chains is declared once and has one jump, with its marker. The names of the
/// objects have to be words.
pub proof fn law_first_restores_are_recognised(
    objects: Seq<FirewallObjectView>,
    valid: Seq<bool>,
    changes: Seq<FirewallPlannedChangeView>,
)
    requires
        iptables_stage(
            objects,
            valid,
            changes,
            IptablesFamilyState::Absent,
            IptablesFamilyState::Absent,
        ) is Ok,
        forall|j: int|
            0 <= j < projected(objects, valid, changes)->Ok_0.len() ==> is_plain_object(
                #[trigger] projected(objects, valid, changes)->Ok_0[j],
            ),
    ensures
        ({
            let stage = iptables_stage(
                objects,
                valid,
                changes,
                IptablesFamilyState::Absent,
                IptablesFamilyState::Absent,
            )->Ok_0;
            let owned = Ok::<IptablesFamilyState, IptablesRenderErrorView>(
                IptablesFamilyState::AgentOwned,
            );
            &&& !is_malformed(stage.ipv4_restore) ==> family_state(stage.ipv4_restore) == owned
            &&& !is_malformed(stage.ipv6_restore) ==> family_state(stage.ipv6_restore) == owned
        }),
{
    let owned = projected(objects, valid, changes)->Ok_0;
    lemma_context(empty_context(), owned, 0);
    let c = context_of(empty_context(), owned, 0)->Some_0;
    lemma_restore_parts(c, IpFamily::Ipv4, IptablesFamilyState::Absent);
    lemma_restore_parts(c, IpFamily::Ipv6, IptablesFamilyState::Absent);
    lemma_rules_quiet(c, IpFamily::Ipv4);
    lemma_rules_quiet(c, IpFamily::Ipv6);
    let four = rules_of(c, IpFamily::Ipv4)->Ok_0;
    let six = rules_of(c, IpFamily::Ipv6)->Ok_0;
    let a = assembled(IptablesFamilyState::Absent, four);
    let b = assembled(IptablesFamilyState::Absent, six);
    assert forall|q: int| 0 <= q < 6 implies tally_of(a, #[trigger] owned_chains()[q]) == (
        1nat,
        1nat,
        1nat,
    ) && tally_of(b, owned_chains()[q]) == (1nat, 1nat, 1nat) by {
        lemma_assembled_run(four, q);
        lemma_assembled_run(six, q);
    }
    assert(!is_absent(a)) by {
        assert(tally_of(a, owned_chains()[0]).0 == 1);
    }
    assert(!is_absent(b)) by {
        assert(tally_of(b, owned_chains()[0]).0 == 1);
    }
}

} // verus!
