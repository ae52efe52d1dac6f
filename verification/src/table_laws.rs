//! The rule set of the managed table stays within the table, and the table is recognised.

use vstd::prelude::*;

use crate::firewall::{byte_texts, network_texts, port_text, port_texts};
use crate::firewall_iptables::is_double_quotable;
use crate::firewall_model::{
    FirewallAddressSetView, FirewallDirection, FirewallFilterRuleView, FirewallMatchView, FirewallNatRuleView,
    FirewallObjectView, FirewallPlannedChangeView, FirewallSetEntryView, FirewallZoneView, PortRange,
};
use crate::firewall_nft::{
    action_part, atom_set, chain_head, comment_part, context_from, context_of, direction_name, empty_context,
    endpoint, entry_texts, family_parts, filter_chain_text, filter_rule_text, filter_rules_text, fnv_from,
    forward_all, forward_line, forward_to, forwardings_text, has_owner_mark, icmp_part, indented, is_malformed,
    is_prerouting, level_name, limit_part, log_part, masquerades_text, match_parts, nat_chains_text, nat_rule_text,
    nat_rules_text, networks_part, nftables_stage, owner_mark, padded, placed_parts, policies_text, policy_verdict,
    quoted_value, rule_text, ruleset_text, set_block, set_expression, set_from, set_name, set_parts, sets_text,
    state_name, state_texts, protocol_texts, string_set, table_head, table_state, then_part, translation,
    type_lines, unsupported, valued_parts, verdict_name, verdict_text, with_object, zone_line, zone_lines,
    NftSetType, NftSetView, NftablesRenderErrorView, NftablesTableState, RenderContextView,
};
use crate::firewall_project::projected;
use crate::firewall_zones::{filter_slot, interfaces_of, nat_slot, zone_from};
use crate::isolation_laws::{
    all_inline, is_inline, is_one_line, lemma_address_inline, lemma_decimal_inline, lemma_filter_slot,
    lemma_hex_inline, lemma_inline_add, lemma_inline_empty, lemma_line_tail, lemma_nat_slot, lemma_network_inline,
    lemma_starts_add, opens_line,
};
use crate::net::IpNetwork;
use crate::net_laws::{lacks, lemma_find_at};
use crate::parse::map_all;
use crate::text::{
    chomp, find_from, hex, is_ascii_control, is_white, joined, joined_from, lemma_find_from, lines, lines_from,
    starts, trim, white_end, white_start,
};
use vstd::utf8::*;

verus! {

proof fn lemma_words_a()
    ensures
        is_inline("s_"@),
        is_inline("    set "@),
        is_inline("        elements = { "@),
        is_inline(", "@),
        is_inline(" "@),
        is_inline("ip "@),
        is_inline("ip6 "@),
        is_inline("saddr"@),
        is_inline("daddr"@),
        is_inline("icmp type"@),
        is_inline("icmpv6 type"@),
        is_inline("new"@),
        is_inline("established"@),
        is_inline("related"@),
        is_inline("invalid"@),
        is_inline("tcp"@),
        is_inline("udp"@),
        is_inline("icmp"@),
        is_inline("icmpv6"@),
        is_inline("ipv6-icmp"@),
{
    reveal(is_inline);
    assert(lacks("s_"@, '\n')) by {
        reveal_strlit("s_");
        let s = "s_"@;
        assert forall|i: int| 0 <= i < s.len() implies #[trigger] s[i] != '\n' by {
            assert(i == 0 || i == 1);
        }
    }
    assert(lacks("    set "@, '\n')) by {
        reveal_strlit("    set ");
        let s = "    set "@;
        assert forall|i: int| 0 <= i < s.len() implies #[trigger] s[i] != '\n' by {
            assert(i == 0 || i == 1 || i == 2 || i == 3 || i == 4 || i == 5 || i == 6 || i == 7);
        }
    }
    assert(lacks("        elements = { "@, '\n')) by {
        reveal_strlit("        elements = { ");
        let s = "        elements = { "@;
        assert forall|i: int| 0 <= i < s.len() implies #[trigger] s[i] != '\n' by {
            assert(i == 0 || i == 1 || i == 2 || i == 3 || i == 4 || i == 5 || i == 6 || i == 7
                || i == 8 || i == 9 || i == 10 || i == 11 || i == 12 || i == 13 || i == 14 || i == 15
                || i == 16 || i == 17 || i == 18 || i == 19 || i == 20);
        }
    }
    assert(lacks(", "@, '\n')) by {
        reveal_strlit(", ");
        let s = ", "@;
        assert forall|i: int| 0 <= i < s.len() implies #[trigger] s[i] != '\n' by {
            assert(i == 0 || i == 1);
        }
    }
    assert(lacks(" "@, '\n')) by {
        reveal_strlit(" ");
        let s = " "@;
        assert forall|i: int| 0 <= i < s.len() implies #[trigger] s[i] != '\n' by {
            assert(i == 0);
        }
    }
    assert(lacks("ip "@, '\n')) by {
        reveal_strlit("ip ");
        let s = "ip "@;
        assert forall|i: int| 0 <= i < s.len() implies #[trigger] s[i] != '\n' by {
            assert(i == 0 || i == 1 || i == 2);
        }
    }
    assert(lacks("ip6 "@, '\n')) by {
        reveal_strlit("ip6 ");
        let s = "ip6 "@;
        assert forall|i: int| 0 <= i < s.len() implies #[trigger] s[i] != '\n' by {
            assert(i == 0 || i == 1 || i == 2 || i == 3);
        }
    }
    assert(lacks("saddr"@, '\n')) by {
        reveal_strlit("saddr");
        let s = "saddr"@;
        assert forall|i: int| 0 <= i < s.len() implies #[trigger] s[i] != '\n' by {
            assert(i == 0 || i == 1 || i == 2 || i == 3 || i == 4);
        }
    }
    assert(lacks("daddr"@, '\n')) by {
        reveal_strlit("daddr");
        let s = "daddr"@;
        assert forall|i: int| 0 <= i < s.len() implies #[trigger] s[i] != '\n' by {
            assert(i == 0 || i == 1 || i == 2 || i == 3 || i == 4);
        }
    }
    assert(lacks("icmp type"@, '\n')) by {
        reveal_strlit("icmp type");
        let s = "icmp type"@;
        assert forall|i: int| 0 <= i < s.len() implies #[trigger] s[i] != '\n' by {
            assert(i == 0 || i == 1 || i == 2 || i == 3 || i == 4 || i == 5 || i == 6 || i == 7
                || i == 8);
        }
    }
    assert(lacks("icmpv6 type"@, '\n')) by {
        reveal_strlit("icmpv6 type");
        let s = "icmpv6 type"@;
        assert forall|i: int| 0 <= i < s.len() implies #[trigger] s[i] != '\n' by {
            assert(i == 0 || i == 1 || i == 2 || i == 3 || i == 4 || i == 5 || i == 6 || i == 7
                || i == 8 || i == 9 || i == 10);
        }
    }
    assert(lacks("new"@, '\n')) by {
        reveal_strlit("new");
        let s = "new"@;
        assert forall|i: int| 0 <= i < s.len() implies #[trigger] s[i] != '\n' by {
            assert(i == 0 || i == 1 || i == 2);
        }
    }
    assert(lacks("established"@, '\n')) by {
        reveal_strlit("established");
        let s = "established"@;
        assert forall|i: int| 0 <= i < s.len() implies #[trigger] s[i] != '\n' by {
            assert(i == 0 || i == 1 || i == 2 || i == 3 || i == 4 || i == 5 || i == 6 || i == 7
                || i == 8 || i == 9 || i == 10);
        }
    }
    assert(lacks("related"@, '\n')) by {
        reveal_strlit("related");
        let s = "related"@;
        assert forall|i: int| 0 <= i < s.len() implies #[trigger] s[i] != '\n' by {
            assert(i == 0 || i == 1 || i == 2 || i == 3 || i == 4 || i == 5 || i == 6);
        }
    }
    assert(lacks("invalid"@, '\n')) by {
        reveal_strlit("invalid");
        let s = "invalid"@;
        assert forall|i: int| 0 <= i < s.len() implies #[trigger] s[i] != '\n' by {
            assert(i == 0 || i == 1 || i == 2 || i == 3 || i == 4 || i == 5 || i == 6);
        }
    }
    assert(lacks("tcp"@, '\n')) by {
        reveal_strlit("tcp");
        let s = "tcp"@;
        assert forall|i: int| 0 <= i < s.len() implies #[trigger] s[i] != '\n' by {
            assert(i == 0 || i == 1 || i == 2);
        }
    }
    assert(lacks("udp"@, '\n')) by {
        reveal_strlit("udp");
        let s = "udp"@;
        assert forall|i: int| 0 <= i < s.len() implies #[trigger] s[i] != '\n' by {
            assert(i == 0 || i == 1 || i == 2);
        }
    }
    assert(lacks("icmp"@, '\n')) by {
        reveal_strlit("icmp");
        let s = "icmp"@;
        assert forall|i: int| 0 <= i < s.len() implies #[trigger] s[i] != '\n' by {
            assert(i == 0 || i == 1 || i == 2 || i == 3);
        }
    }
    assert(lacks("icmpv6"@, '\n')) by {
        reveal_strlit("icmpv6");
        let s = "icmpv6"@;
        assert forall|i: int| 0 <= i < s.len() implies #[trigger] s[i] != '\n' by {
            assert(i == 0 || i == 1 || i == 2 || i == 3 || i == 4 || i == 5);
        }
    }
    assert(lacks("ipv6-icmp"@, '\n')) by {
        reveal_strlit("ipv6-icmp");
        let s = "ipv6-icmp"@;
        assert forall|i: int| 0 <= i < s.len() implies #[trigger] s[i] != '\n' by {
            assert(i == 0 || i == 1 || i == 2 || i == 3 || i == 4 || i == 5 || i == 6 || i == 7
                || i == 8);
        }
    }
}

proof fn lemma_words_b()
    ensures
        is_inline("esp"@),
        is_inline("ah"@),
        is_inline("gre"@),
        is_inline("ip saddr"@),
        is_inline("ip daddr"@),
        is_inline("ip6 saddr"@),
        is_inline("ip6 daddr"@),
        is_inline("ether saddr"@),
        is_inline("ether daddr"@),
        is_inline("th sport"@),
        is_inline("th dport"@),
        is_inline(" @"@),
        is_inline("meta nfproto ipv4"@),
        is_inline("meta nfproto ipv6"@),
        is_inline("oifname"@),
        is_inline("iifname"@),
        is_inline("meta l4proto"@),
        is_inline("ct state"@),
        is_inline("emerg"@),
        is_inline("alert"@),
{
    reveal(is_inline);
    assert(lacks("esp"@, '\n')) by {
        reveal_strlit("esp");
        let s = "esp"@;
        assert forall|i: int| 0 <= i < s.len() implies #[trigger] s[i] != '\n' by {
            assert(i == 0 || i == 1 || i == 2);
        }
    }
    assert(lacks("ah"@, '\n')) by {
        reveal_strlit("ah");
        let s = "ah"@;
        assert forall|i: int| 0 <= i < s.len() implies #[trigger] s[i] != '\n' by {
            assert(i == 0 || i == 1);
        }
    }
    assert(lacks("gre"@, '\n')) by {
        reveal_strlit("gre");
        let s = "gre"@;
        assert forall|i: int| 0 <= i < s.len() implies #[trigger] s[i] != '\n' by {
            assert(i == 0 || i == 1 || i == 2);
        }
    }
    assert(lacks("ip saddr"@, '\n')) by {
        reveal_strlit("ip saddr");
        let s = "ip saddr"@;
        assert forall|i: int| 0 <= i < s.len() implies #[trigger] s[i] != '\n' by {
            assert(i == 0 || i == 1 || i == 2 || i == 3 || i == 4 || i == 5 || i == 6 || i == 7);
        }
    }
    assert(lacks("ip daddr"@, '\n')) by {
        reveal_strlit("ip daddr");
        let s = "ip daddr"@;
        assert forall|i: int| 0 <= i < s.len() implies #[trigger] s[i] != '\n' by {
            assert(i == 0 || i == 1 || i == 2 || i == 3 || i == 4 || i == 5 || i == 6 || i == 7);
        }
    }
    assert(lacks("ip6 saddr"@, '\n')) by {
        reveal_strlit("ip6 saddr");
        let s = "ip6 saddr"@;
        assert forall|i: int| 0 <= i < s.len() implies #[trigger] s[i] != '\n' by {
            assert(i == 0 || i == 1 || i == 2 || i == 3 || i == 4 || i == 5 || i == 6 || i == 7
                || i == 8);
        }
    }
    assert(lacks("ip6 daddr"@, '\n')) by {
        reveal_strlit("ip6 daddr");
        let s = "ip6 daddr"@;
        assert forall|i: int| 0 <= i < s.len() implies #[trigger] s[i] != '\n' by {
            assert(i == 0 || i == 1 || i == 2 || i == 3 || i == 4 || i == 5 || i == 6 || i == 7
                || i == 8);
        }
    }
    assert(lacks("ether saddr"@, '\n')) by {
        reveal_strlit("ether saddr");
        let s = "ether saddr"@;
        assert forall|i: int| 0 <= i < s.len() implies #[trigger] s[i] != '\n' by {
            assert(i == 0 || i == 1 || i == 2 || i == 3 || i == 4 || i == 5 || i == 6 || i == 7
                || i == 8 || i == 9 || i == 10);
        }
    }
    assert(lacks("ether daddr"@, '\n')) by {
        reveal_strlit("ether daddr");
        let s = "ether daddr"@;
        assert forall|i: int| 0 <= i < s.len() implies #[trigger] s[i] != '\n' by {
            assert(i == 0 || i == 1 || i == 2 || i == 3 || i == 4 || i == 5 || i == 6 || i == 7
                || i == 8 || i == 9 || i == 10);
        }
    }
    assert(lacks("th sport"@, '\n')) by {
        reveal_strlit("th sport");
        let s = "th sport"@;
        assert forall|i: int| 0 <= i < s.len() implies #[trigger] s[i] != '\n' by {
            assert(i == 0 || i == 1 || i == 2 || i == 3 || i == 4 || i == 5 || i == 6 || i == 7);
        }
    }
    assert(lacks("th dport"@, '\n')) by {
        reveal_strlit("th dport");
        let s = "th dport"@;
        assert forall|i: int| 0 <= i < s.len() implies #[trigger] s[i] != '\n' by {
            assert(i == 0 || i == 1 || i == 2 || i == 3 || i == 4 || i == 5 || i == 6 || i == 7);
        }
    }
    assert(lacks(" @"@, '\n')) by {
        reveal_strlit(" @");
        let s = " @"@;
        assert forall|i: int| 0 <= i < s.len() implies #[trigger] s[i] != '\n' by {
            assert(i == 0 || i == 1);
        }
    }
    assert(lacks("meta nfproto ipv4"@, '\n')) by {
        reveal_strlit("meta nfproto ipv4");
        let s = "meta nfproto ipv4"@;
        assert forall|i: int| 0 <= i < s.len() implies #[trigger] s[i] != '\n' by {
            assert(i == 0 || i == 1 || i == 2 || i == 3 || i == 4 || i == 5 || i == 6 || i == 7
                || i == 8 || i == 9 || i == 10 || i == 11 || i == 12 || i == 13 || i == 14 || i == 15
                || i == 16);
        }
    }
    assert(lacks("meta nfproto ipv6"@, '\n')) by {
        reveal_strlit("meta nfproto ipv6");
        let s = "meta nfproto ipv6"@;
        assert forall|i: int| 0 <= i < s.len() implies #[trigger] s[i] != '\n' by {
            assert(i == 0 || i == 1 || i == 2 || i == 3 || i == 4 || i == 5 || i == 6 || i == 7
                || i == 8 || i == 9 || i == 10 || i == 11 || i == 12 || i == 13 || i == 14 || i == 15
                || i == 16);
        }
    }
    assert(lacks("oifname"@, '\n')) by {
        reveal_strlit("oifname");
        let s = "oifname"@;
        assert forall|i: int| 0 <= i < s.len() implies #[trigger] s[i] != '\n' by {
            assert(i == 0 || i == 1 || i == 2 || i == 3 || i == 4 || i == 5 || i == 6);
        }
    }
    assert(lacks("iifname"@, '\n')) by {
        reveal_strlit("iifname");
        let s = "iifname"@;
        assert forall|i: int| 0 <= i < s.len() implies #[trigger] s[i] != '\n' by {
            assert(i == 0 || i == 1 || i == 2 || i == 3 || i == 4 || i == 5 || i == 6);
        }
    }
    assert(lacks("meta l4proto"@, '\n')) by {
        reveal_strlit("meta l4proto");
        let s = "meta l4proto"@;
        assert forall|i: int| 0 <= i < s.len() implies #[trigger] s[i] != '\n' by {
            assert(i == 0 || i == 1 || i == 2 || i == 3 || i == 4 || i == 5 || i == 6 || i == 7
                || i == 8 || i == 9 || i == 10 || i == 11);
        }
    }
    assert(lacks("ct state"@, '\n')) by {
        reveal_strlit("ct state");
        let s = "ct state"@;
        assert forall|i: int| 0 <= i < s.len() implies #[trigger] s[i] != '\n' by {
            assert(i == 0 || i == 1 || i == 2 || i == 3 || i == 4 || i == 5 || i == 6 || i == 7);
        }
    }
    assert(lacks("emerg"@, '\n')) by {
        reveal_strlit("emerg");
        let s = "emerg"@;
        assert forall|i: int| 0 <= i < s.len() implies #[trigger] s[i] != '\n' by {
            assert(i == 0 || i == 1 || i == 2 || i == 3 || i == 4);
        }
    }
    assert(lacks("alert"@, '\n')) by {
        reveal_strlit("alert");
        let s = "alert"@;
        assert forall|i: int| 0 <= i < s.len() implies #[trigger] s[i] != '\n' by {
            assert(i == 0 || i == 1 || i == 2 || i == 3 || i == 4);
        }
    }
}

proof fn lemma_words_c()
    ensures
        is_inline("crit"@),
        is_inline("err"@),
        is_inline("warn"@),
        is_inline("notice"@),
        is_inline("info"@),
        is_inline("debug"@),
        is_inline("accept"@),
        is_inline("drop"@),
        is_inline("reject"@),
        is_inline("reject with tcp reset"@),
        is_inline("reject with icmp type port-unreachable"@),
        is_inline("reject with icmp type host-unreachable"@),
        is_inline("reject with icmpv6 type port-unreachable"@),
        is_inline("limit rate "@),
        is_inline("/second burst "@),
        is_inline(" packets"@),
        is_inline("log prefix "@),
        is_inline(" level "@),
        is_inline("comment "@),
        is_inline("masquerade"@),
{
    reveal(is_inline);
    assert(lacks("crit"@, '\n')) by {
        reveal_strlit("crit");
        let s = "crit"@;
        assert forall|i: int| 0 <= i < s.len() implies #[trigger] s[i] != '\n' by {
            assert(i == 0 || i == 1 || i == 2 || i == 3);
        }
    }
    assert(lacks("err"@, '\n')) by {
        reveal_strlit("err");
        let s = "err"@;
        assert forall|i: int| 0 <= i < s.len() implies #[trigger] s[i] != '\n' by {
            assert(i == 0 || i == 1 || i == 2);
        }
    }
    assert(lacks("warn"@, '\n')) by {
        reveal_strlit("warn");
        let s = "warn"@;
        assert forall|i: int| 0 <= i < s.len() implies #[trigger] s[i] != '\n' by {
            assert(i == 0 || i == 1 || i == 2 || i == 3);
        }
    }
    assert(lacks("notice"@, '\n')) by {
        reveal_strlit("notice");
        let s = "notice"@;
        assert forall|i: int| 0 <= i < s.len() implies #[trigger] s[i] != '\n' by {
            assert(i == 0 || i == 1 || i == 2 || i == 3 || i == 4 || i == 5);
        }
    }
    assert(lacks("info"@, '\n')) by {
        reveal_strlit("info");
        let s = "info"@;
        assert forall|i: int| 0 <= i < s.len() implies #[trigger] s[i] != '\n' by {
            assert(i == 0 || i == 1 || i == 2 || i == 3);
        }
    }
    assert(lacks("debug"@, '\n')) by {
        reveal_strlit("debug");
        let s = "debug"@;
        assert forall|i: int| 0 <= i < s.len() implies #[trigger] s[i] != '\n' by {
            assert(i == 0 || i == 1 || i == 2 || i == 3 || i == 4);
        }
    }
    assert(lacks("accept"@, '\n')) by {
        reveal_strlit("accept");
        let s = "accept"@;
        assert forall|i: int| 0 <= i < s.len() implies #[trigger] s[i] != '\n' by {
            assert(i == 0 || i == 1 || i == 2 || i == 3 || i == 4 || i == 5);
        }
    }
    assert(lacks("drop"@, '\n')) by {
        reveal_strlit("drop");
        let s = "drop"@;
        assert forall|i: int| 0 <= i < s.len() implies #[trigger] s[i] != '\n' by {
            assert(i == 0 || i == 1 || i == 2 || i == 3);
        }
    }
    assert(lacks("reject"@, '\n')) by {
        reveal_strlit("reject");
        let s = "reject"@;
        assert forall|i: int| 0 <= i < s.len() implies #[trigger] s[i] != '\n' by {
            assert(i == 0 || i == 1 || i == 2 || i == 3 || i == 4 || i == 5);
        }
    }
    assert(lacks("reject with tcp reset"@, '\n')) by {
        reveal_strlit("reject with tcp reset");
        let s = "reject with tcp reset"@;
        assert forall|i: int| 0 <= i < s.len() implies #[trigger] s[i] != '\n' by {
            assert(i == 0 || i == 1 || i == 2 || i == 3 || i == 4 || i == 5 || i == 6 || i == 7
                || i == 8 || i == 9 || i == 10 || i == 11 || i == 12 || i == 13 || i == 14 || i == 15
                || i == 16 || i == 17 || i == 18 || i == 19 || i == 20);
        }
    }
    assert(lacks("reject with icmp type port-unreachable"@, '\n')) by {
        reveal_strlit("reject with icmp type port-unreachable");
        let s = "reject with icmp type port-unreachable"@;
        assert forall|i: int| 0 <= i < s.len() implies #[trigger] s[i] != '\n' by {
            assert(i == 0 || i == 1 || i == 2 || i == 3 || i == 4 || i == 5 || i == 6 || i == 7
                || i == 8 || i == 9 || i == 10 || i == 11 || i == 12 || i == 13 || i == 14 || i == 15
                || i == 16 || i == 17 || i == 18 || i == 19 || i == 20 || i == 21 || i == 22 || i == 23
                || i == 24 || i == 25 || i == 26 || i == 27 || i == 28 || i == 29 || i == 30 || i == 31
                || i == 32 || i == 33 || i == 34 || i == 35 || i == 36 || i == 37);
        }
    }
    assert(lacks("reject with icmp type host-unreachable"@, '\n')) by {
        reveal_strlit("reject with icmp type host-unreachable");
        let s = "reject with icmp type host-unreachable"@;
        assert forall|i: int| 0 <= i < s.len() implies #[trigger] s[i] != '\n' by {
            assert(i == 0 || i == 1 || i == 2 || i == 3 || i == 4 || i == 5 || i == 6 || i == 7
                || i == 8 || i == 9 || i == 10 || i == 11 || i == 12 || i == 13 || i == 14 || i == 15
                || i == 16 || i == 17 || i == 18 || i == 19 || i == 20 || i == 21 || i == 22 || i == 23
                || i == 24 || i == 25 || i == 26 || i == 27 || i == 28 || i == 29 || i == 30 || i == 31
                || i == 32 || i == 33 || i == 34 || i == 35 || i == 36 || i == 37);
        }
    }
    assert(lacks("reject with icmpv6 type port-unreachable"@, '\n')) by {
        reveal_strlit("reject with icmpv6 type port-unreachable");
        let s = "reject with icmpv6 type port-unreachable"@;
        assert forall|i: int| 0 <= i < s.len() implies #[trigger] s[i] != '\n' by {
            assert(i == 0 || i == 1 || i == 2 || i == 3 || i == 4 || i == 5 || i == 6 || i == 7
                || i == 8 || i == 9 || i == 10 || i == 11 || i == 12 || i == 13 || i == 14 || i == 15
                || i == 16 || i == 17 || i == 18 || i == 19 || i == 20 || i == 21 || i == 22 || i == 23
                || i == 24 || i == 25 || i == 26 || i == 27 || i == 28 || i == 29 || i == 30 || i == 31
                || i == 32 || i == 33 || i == 34 || i == 35 || i == 36 || i == 37 || i == 38 || i == 39);
        }
    }
    assert(lacks("limit rate "@, '\n')) by {
        reveal_strlit("limit rate ");
        let s = "limit rate "@;
        assert forall|i: int| 0 <= i < s.len() implies #[trigger] s[i] != '\n' by {
            assert(i == 0 || i == 1 || i == 2 || i == 3 || i == 4 || i == 5 || i == 6 || i == 7
                || i == 8 || i == 9 || i == 10);
        }
    }
    assert(lacks("/second burst "@, '\n')) by {
        reveal_strlit("/second burst ");
        let s = "/second burst "@;
        assert forall|i: int| 0 <= i < s.len() implies #[trigger] s[i] != '\n' by {
            assert(i == 0 || i == 1 || i == 2 || i == 3 || i == 4 || i == 5 || i == 6 || i == 7
                || i == 8 || i == 9 || i == 10 || i == 11 || i == 12 || i == 13);
        }
    }
    assert(lacks(" packets"@, '\n')) by {
        reveal_strlit(" packets");
        let s = " packets"@;
        assert forall|i: int| 0 <= i < s.len() implies #[trigger] s[i] != '\n' by {
            assert(i == 0 || i == 1 || i == 2 || i == 3 || i == 4 || i == 5 || i == 6 || i == 7);
        }
    }
    assert(lacks("log prefix "@, '\n')) by {
        reveal_strlit("log prefix ");
        let s = "log prefix "@;
        assert forall|i: int| 0 <= i < s.len() implies #[trigger] s[i] != '\n' by {
            assert(i == 0 || i == 1 || i == 2 || i == 3 || i == 4 || i == 5 || i == 6 || i == 7
                || i == 8 || i == 9 || i == 10);
        }
    }
    assert(lacks(" level "@, '\n')) by {
        reveal_strlit(" level ");
        let s = " level "@;
        assert forall|i: int| 0 <= i < s.len() implies #[trigger] s[i] != '\n' by {
            assert(i == 0 || i == 1 || i == 2 || i == 3 || i == 4 || i == 5 || i == 6);
        }
    }
    assert(lacks("comment "@, '\n')) by {
        reveal_strlit("comment ");
        let s = "comment "@;
        assert forall|i: int| 0 <= i < s.len() implies #[trigger] s[i] != '\n' by {
            assert(i == 0 || i == 1 || i == 2 || i == 3 || i == 4 || i == 5 || i == 6 || i == 7);
        }
    }
    assert(lacks("masquerade"@, '\n')) by {
        reveal_strlit("masquerade");
        let s = "masquerade"@;
        assert forall|i: int| 0 <= i < s.len() implies #[trigger] s[i] != '\n' by {
            assert(i == 0 || i == 1 || i == 2 || i == 3 || i == 4 || i == 5 || i == 6 || i == 7
                || i == 8 || i == 9);
        }
    }
}

proof fn lemma_words_d()
    ensures
        is_inline("redirect to :"@),
        is_inline("dnat"@),
        is_inline("snat"@),
        is_inline(" ip to "@),
        is_inline(" ip6 to "@),
        is_inline(":"@),
        is_inline("["@),
        is_inline("]:"@),
        is_inline("        "@),
        is_inline("        iifname "@),
        is_inline(" oifname "@),
        is_inline(" accept comment "@),
        is_inline(" comment "@),
        is_inline("input"@),
        is_inline("output"@),
        is_inline("forward"@),
        is_inline("    chain "@),
        is_inline("        type filter hook "@),
        is_inline("\""@),
        is_inline(" { "@),
{
    reveal(is_inline);
    assert(lacks("redirect to :"@, '\n')) by {
        reveal_strlit("redirect to :");
        let s = "redirect to :"@;
        assert forall|i: int| 0 <= i < s.len() implies #[trigger] s[i] != '\n' by {
            assert(i == 0 || i == 1 || i == 2 || i == 3 || i == 4 || i == 5 || i == 6 || i == 7
                || i == 8 || i == 9 || i == 10 || i == 11 || i == 12);
        }
    }
    assert(lacks("dnat"@, '\n')) by {
        reveal_strlit("dnat");
        let s = "dnat"@;
        assert forall|i: int| 0 <= i < s.len() implies #[trigger] s[i] != '\n' by {
            assert(i == 0 || i == 1 || i == 2 || i == 3);
        }
    }
    assert(lacks("snat"@, '\n')) by {
        reveal_strlit("snat");
        let s = "snat"@;
        assert forall|i: int| 0 <= i < s.len() implies #[trigger] s[i] != '\n' by {
            assert(i == 0 || i == 1 || i == 2 || i == 3);
        }
    }
    assert(lacks(" ip to "@, '\n')) by {
        reveal_strlit(" ip to ");
        let s = " ip to "@;
        assert forall|i: int| 0 <= i < s.len() implies #[trigger] s[i] != '\n' by {
            assert(i == 0 || i == 1 || i == 2 || i == 3 || i == 4 || i == 5 || i == 6);
        }
    }
    assert(lacks(" ip6 to "@, '\n')) by {
        reveal_strlit(" ip6 to ");
        let s = " ip6 to "@;
        assert forall|i: int| 0 <= i < s.len() implies #[trigger] s[i] != '\n' by {
            assert(i == 0 || i == 1 || i == 2 || i == 3 || i == 4 || i == 5 || i == 6 || i == 7);
        }
    }
    assert(lacks(":"@, '\n')) by {
        reveal_strlit(":");
        let s = ":"@;
        assert forall|i: int| 0 <= i < s.len() implies #[trigger] s[i] != '\n' by {
            assert(i == 0);
        }
    }
    assert(lacks("["@, '\n')) by {
        reveal_strlit("[");
        let s = "["@;
        assert forall|i: int| 0 <= i < s.len() implies #[trigger] s[i] != '\n' by {
            assert(i == 0);
        }
    }
    assert(lacks("]:"@, '\n')) by {
        reveal_strlit("]:");
        let s = "]:"@;
        assert forall|i: int| 0 <= i < s.len() implies #[trigger] s[i] != '\n' by {
            assert(i == 0 || i == 1);
        }
    }
    assert(lacks("        "@, '\n')) by {
        reveal_strlit("        ");
        let s = "        "@;
        assert forall|i: int| 0 <= i < s.len() implies #[trigger] s[i] != '\n' by {
            assert(i == 0 || i == 1 || i == 2 || i == 3 || i == 4 || i == 5 || i == 6 || i == 7);
        }
    }
    assert(lacks("        iifname "@, '\n')) by {
        reveal_strlit("        iifname ");
        let s = "        iifname "@;
        assert forall|i: int| 0 <= i < s.len() implies #[trigger] s[i] != '\n' by {
            assert(i == 0 || i == 1 || i == 2 || i == 3 || i == 4 || i == 5 || i == 6 || i == 7
                || i == 8 || i == 9 || i == 10 || i == 11 || i == 12 || i == 13 || i == 14 || i == 15);
        }
    }
    assert(lacks(" oifname "@, '\n')) by {
        reveal_strlit(" oifname ");
        let s = " oifname "@;
        assert forall|i: int| 0 <= i < s.len() implies #[trigger] s[i] != '\n' by {
            assert(i == 0 || i == 1 || i == 2 || i == 3 || i == 4 || i == 5 || i == 6 || i == 7
                || i == 8);
        }
    }
    assert(lacks(" accept comment "@, '\n')) by {
        reveal_strlit(" accept comment ");
        let s = " accept comment "@;
        assert forall|i: int| 0 <= i < s.len() implies #[trigger] s[i] != '\n' by {
            assert(i == 0 || i == 1 || i == 2 || i == 3 || i == 4 || i == 5 || i == 6 || i == 7
                || i == 8 || i == 9 || i == 10 || i == 11 || i == 12 || i == 13 || i == 14 || i == 15);
        }
    }
    assert(lacks(" comment "@, '\n')) by {
        reveal_strlit(" comment ");
        let s = " comment "@;
        assert forall|i: int| 0 <= i < s.len() implies #[trigger] s[i] != '\n' by {
            assert(i == 0 || i == 1 || i == 2 || i == 3 || i == 4 || i == 5 || i == 6 || i == 7
                || i == 8);
        }
    }
    assert(lacks("input"@, '\n')) by {
        reveal_strlit("input");
        let s = "input"@;
        assert forall|i: int| 0 <= i < s.len() implies #[trigger] s[i] != '\n' by {
            assert(i == 0 || i == 1 || i == 2 || i == 3 || i == 4);
        }
    }
    assert(lacks("output"@, '\n')) by {
        reveal_strlit("output");
        let s = "output"@;
        assert forall|i: int| 0 <= i < s.len() implies #[trigger] s[i] != '\n' by {
            assert(i == 0 || i == 1 || i == 2 || i == 3 || i == 4 || i == 5);
        }
    }
    assert(lacks("forward"@, '\n')) by {
        reveal_strlit("forward");
        let s = "forward"@;
        assert forall|i: int| 0 <= i < s.len() implies #[trigger] s[i] != '\n' by {
            assert(i == 0 || i == 1 || i == 2 || i == 3 || i == 4 || i == 5 || i == 6);
        }
    }
    assert(lacks("    chain "@, '\n')) by {
        reveal_strlit("    chain ");
        let s = "    chain "@;
        assert forall|i: int| 0 <= i < s.len() implies #[trigger] s[i] != '\n' by {
            assert(i == 0 || i == 1 || i == 2 || i == 3 || i == 4 || i == 5 || i == 6 || i == 7
                || i == 8 || i == 9);
        }
    }
    assert(lacks("        type filter hook "@, '\n')) by {
        reveal_strlit("        type filter hook ");
        let s = "        type filter hook "@;
        assert forall|i: int| 0 <= i < s.len() implies #[trigger] s[i] != '\n' by {
            assert(i == 0 || i == 1 || i == 2 || i == 3 || i == 4 || i == 5 || i == 6 || i == 7
                || i == 8 || i == 9 || i == 10 || i == 11 || i == 12 || i == 13 || i == 14 || i == 15
                || i == 16 || i == 17 || i == 18 || i == 19 || i == 20 || i == 21 || i == 22 || i == 23
                || i == 24);
        }
    }
    assert(lacks("\""@, '\n')) by {
        reveal_strlit("\"");
        let s = "\""@;
        assert forall|i: int| 0 <= i < s.len() implies #[trigger] s[i] != '\n' by {
            assert(i == 0);
        }
    }
    assert(lacks(" { "@, '\n')) by {
        reveal_strlit(" { ");
        let s = " { "@;
        assert forall|i: int| 0 <= i < s.len() implies #[trigger] s[i] != '\n' by {
            assert(i == 0 || i == 1 || i == 2);
        }
    }
}

proof fn lemma_words_e()
    ensures
        is_inline(" }"@),
        is_inline("-"@),
        is_inline("zone:"@),
        is_inline("zone-masq:"@),
{
    reveal(is_inline);
    assert(lacks(" }"@, '\n')) by {
        reveal_strlit(" }");
        let s = " }"@;
        assert forall|i: int| 0 <= i < s.len() implies #[trigger] s[i] != '\n' by {
            assert(i == 0 || i == 1);
        }
    }
    assert(lacks("-"@, '\n')) by {
        reveal_strlit("-");
        let s = "-"@;
        assert forall|i: int| 0 <= i < s.len() implies #[trigger] s[i] != '\n' by {
            assert(i == 0);
        }
    }
    assert(lacks("zone:"@, '\n')) by {
        reveal_strlit("zone:");
        let s = "zone:"@;
        assert forall|i: int| 0 <= i < s.len() implies #[trigger] s[i] != '\n' by {
            assert(i == 0 || i == 1 || i == 2 || i == 3 || i == 4);
        }
    }
    assert(lacks("zone-masq:"@, '\n')) by {
        reveal_strlit("zone-masq:");
        let s = "zone-masq:"@;
        assert forall|i: int| 0 <= i < s.len() implies #[trigger] s[i] != '\n' by {
            assert(i == 0 || i == 1 || i == 2 || i == 3 || i == 4 || i == 5 || i == 6 || i == 7
                || i == 8 || i == 9);
        }
    }
}

/// The words that rules are made of have no line breaks.
proof fn lemma_words()
    ensures
        is_inline("s_"@),
        is_inline("    set "@),
        is_inline("        elements = { "@),
        is_inline(", "@),
        is_inline(" "@),
        is_inline("ip "@),
        is_inline("ip6 "@),
        is_inline("saddr"@),
        is_inline("daddr"@),
        is_inline("icmp type"@),
        is_inline("icmpv6 type"@),
        is_inline("new"@),
        is_inline("established"@),
        is_inline("related"@),
        is_inline("invalid"@),
        is_inline("tcp"@),
        is_inline("udp"@),
        is_inline("icmp"@),
        is_inline("icmpv6"@),
        is_inline("ipv6-icmp"@),
        is_inline("esp"@),
        is_inline("ah"@),
        is_inline("gre"@),
        is_inline("ip saddr"@),
        is_inline("ip daddr"@),
        is_inline("ip6 saddr"@),
        is_inline("ip6 daddr"@),
        is_inline("ether saddr"@),
        is_inline("ether daddr"@),
        is_inline("th sport"@),
        is_inline("th dport"@),
        is_inline(" @"@),
        is_inline("meta nfproto ipv4"@),
        is_inline("meta nfproto ipv6"@),
        is_inline("oifname"@),
        is_inline("iifname"@),
        is_inline("meta l4proto"@),
        is_inline("ct state"@),
        is_inline("emerg"@),
        is_inline("alert"@),
        is_inline("crit"@),
        is_inline("err"@),
        is_inline("warn"@),
        is_inline("notice"@),
        is_inline("info"@),
        is_inline("debug"@),
        is_inline("accept"@),
        is_inline("drop"@),
        is_inline("reject"@),
        is_inline("reject with tcp reset"@),
        is_inline("reject with icmp type port-unreachable"@),
        is_inline("reject with icmp type host-unreachable"@),
        is_inline("reject with icmpv6 type port-unreachable"@),
        is_inline("limit rate "@),
        is_inline("/second burst "@),
        is_inline(" packets"@),
        is_inline("log prefix "@),
        is_inline(" level "@),
        is_inline("comment "@),
        is_inline("masquerade"@),
        is_inline("redirect to :"@),
        is_inline("dnat"@),
        is_inline("snat"@),
        is_inline(" ip to "@),
        is_inline(" ip6 to "@),
        is_inline(":"@),
        is_inline("["@),
        is_inline("]:"@),
        is_inline("        "@),
        is_inline("        iifname "@),
        is_inline(" oifname "@),
        is_inline(" accept comment "@),
        is_inline(" comment "@),
        is_inline("input"@),
        is_inline("output"@),
        is_inline("forward"@),
        is_inline("    chain "@),
        is_inline("        type filter hook "@),
        is_inline("\""@),
        is_inline(" { "@),
        is_inline(" }"@),
        is_inline("-"@),
        is_inline("zone:"@),
        is_inline("zone-masq:"@),
        is_inline(Seq::empty()),
{
    lemma_words_a();
    lemma_words_b();
    lemma_words_c();
    lemma_words_d();
    lemma_words_e();
    lemma_inline_empty();
}

/// The ends of lines.
proof fn lemma_line_ends()
    ensures
        is_one_line("\n"@),
        is_one_line(" {\n"@),
        is_one_line(" }\n"@),
        is_one_line("    }\n"@),
        is_one_line("        type ipv4_addr\n"@),
        is_one_line("        type ipv6_addr\n"@),
        is_one_line("        type ether_addr\n"@),
        is_one_line("        type inet_service\n"@),
        is_one_line("        flags interval\n"@),
        is_one_line(" priority -5; policy accept;\n"@),
        is_one_line("    chain prerouting {\n"@),
        is_one_line("    chain postrouting {\n"@),
        is_one_line("        type nat hook prerouting priority -90; policy accept;\n"@),
        is_one_line("        type nat hook postrouting priority 110; policy accept;\n"@),
{
    reveal(is_one_line);
    reveal(is_inline);
    assert(is_one_line("\n"@)) by {
        reveal_strlit("\n");
        let s = "\n"@;
        assert forall|i: int| 0 <= i < s.drop_last().len() implies #[trigger] s.drop_last()[i] != '\n' by {
            assert(false);
            assert(s.drop_last()[i] == s[i]);
        }
    }
    assert(is_one_line(" {\n"@)) by {
        reveal_strlit(" {\n");
        let s = " {\n"@;
        assert forall|i: int| 0 <= i < s.drop_last().len() implies #[trigger] s.drop_last()[i] != '\n' by {
            assert(i == 0 || i == 1);
            assert(s.drop_last()[i] == s[i]);
        }
    }
    assert(is_one_line(" }\n"@)) by {
        reveal_strlit(" }\n");
        let s = " }\n"@;
        assert forall|i: int| 0 <= i < s.drop_last().len() implies #[trigger] s.drop_last()[i] != '\n' by {
            assert(i == 0 || i == 1);
            assert(s.drop_last()[i] == s[i]);
        }
    }
    assert(is_one_line("    }\n"@)) by {
        reveal_strlit("    }\n");
        let s = "    }\n"@;
        assert forall|i: int| 0 <= i < s.drop_last().len() implies #[trigger] s.drop_last()[i] != '\n' by {
            assert(i == 0 || i == 1 || i == 2 || i == 3 || i == 4);
            assert(s.drop_last()[i] == s[i]);
        }
    }
    assert(is_one_line("        type ipv4_addr\n"@)) by {
        reveal_strlit("        type ipv4_addr\n");
        let s = "        type ipv4_addr\n"@;
        assert forall|i: int| 0 <= i < s.drop_last().len() implies #[trigger] s.drop_last()[i] != '\n' by {
            assert(i == 0 || i == 1 || i == 2 || i == 3 || i == 4 || i == 5 || i == 6 || i == 7
                || i == 8 || i == 9 || i == 10 || i == 11 || i == 12 || i == 13 || i == 14 || i == 15
                || i == 16 || i == 17 || i == 18 || i == 19 || i == 20 || i == 21);
            assert(s.drop_last()[i] == s[i]);
        }
    }
    assert(is_one_line("        type ipv6_addr\n"@)) by {
        reveal_strlit("        type ipv6_addr\n");
        let s = "        type ipv6_addr\n"@;
        assert forall|i: int| 0 <= i < s.drop_last().len() implies #[trigger] s.drop_last()[i] != '\n' by {
            assert(i == 0 || i == 1 || i == 2 || i == 3 || i == 4 || i == 5 || i == 6 || i == 7
                || i == 8 || i == 9 || i == 10 || i == 11 || i == 12 || i == 13 || i == 14 || i == 15
                || i == 16 || i == 17 || i == 18 || i == 19 || i == 20 || i == 21);
            assert(s.drop_last()[i] == s[i]);
        }
    }
    assert(is_one_line("        type ether_addr\n"@)) by {
        reveal_strlit("        type ether_addr\n");
        let s = "        type ether_addr\n"@;
        assert forall|i: int| 0 <= i < s.drop_last().len() implies #[trigger] s.drop_last()[i] != '\n' by {
            assert(i == 0 || i == 1 || i == 2 || i == 3 || i == 4 || i == 5 || i == 6 || i == 7
                || i == 8 || i == 9 || i == 10 || i == 11 || i == 12 || i == 13 || i == 14 || i == 15
                || i == 16 || i == 17 || i == 18 || i == 19 || i == 20 || i == 21 || i == 22);
            assert(s.drop_last()[i] == s[i]);
        }
    }
    assert(is_one_line("        type inet_service\n"@)) by {
        reveal_strlit("        type inet_service\n");
        let s = "        type inet_service\n"@;
        assert forall|i: int| 0 <= i < s.drop_last().len() implies #[trigger] s.drop_last()[i] != '\n' by {
            assert(i == 0 || i == 1 || i == 2 || i == 3 || i == 4 || i == 5 || i == 6 || i == 7
                || i == 8 || i == 9 || i == 10 || i == 11 || i == 12 || i == 13 || i == 14 || i == 15
                || i == 16 || i == 17 || i == 18 || i == 19 || i == 20 || i == 21 || i == 22 || i == 23
                || i == 24);
            assert(s.drop_last()[i] == s[i]);
        }
    }
    assert(is_one_line("        flags interval\n"@)) by {
        reveal_strlit("        flags interval\n");
        let s = "        flags interval\n"@;
        assert forall|i: int| 0 <= i < s.drop_last().len() implies #[trigger] s.drop_last()[i] != '\n' by {
            assert(i == 0 || i == 1 || i == 2 || i == 3 || i == 4 || i == 5 || i == 6 || i == 7
                || i == 8 || i == 9 || i == 10 || i == 11 || i == 12 || i == 13 || i == 14 || i == 15
                || i == 16 || i == 17 || i == 18 || i == 19 || i == 20 || i == 21);
            assert(s.drop_last()[i] == s[i]);
        }
    }
    assert(is_one_line(" priority -5; policy accept;\n"@)) by {
        reveal_strlit(" priority -5; policy accept;\n");
        let s = " priority -5; policy accept;\n"@;
        assert forall|i: int| 0 <= i < s.drop_last().len() implies #[trigger] s.drop_last()[i] != '\n' by {
            assert(i == 0 || i == 1 || i == 2 || i == 3 || i == 4 || i == 5 || i == 6 || i == 7
                || i == 8 || i == 9 || i == 10 || i == 11 || i == 12 || i == 13 || i == 14 || i == 15
                || i == 16 || i == 17 || i == 18 || i == 19 || i == 20 || i == 21 || i == 22 || i == 23
                || i == 24 || i == 25 || i == 26 || i == 27);
            assert(s.drop_last()[i] == s[i]);
        }
    }
    assert(is_one_line("    chain prerouting {\n"@)) by {
        reveal_strlit("    chain prerouting {\n");
        let s = "    chain prerouting {\n"@;
        assert forall|i: int| 0 <= i < s.drop_last().len() implies #[trigger] s.drop_last()[i] != '\n' by {
            assert(i == 0 || i == 1 || i == 2 || i == 3 || i == 4 || i == 5 || i == 6 || i == 7
                || i == 8 || i == 9 || i == 10 || i == 11 || i == 12 || i == 13 || i == 14 || i == 15
                || i == 16 || i == 17 || i == 18 || i == 19 || i == 20 || i == 21);
            assert(s.drop_last()[i] == s[i]);
        }
    }
    assert(is_one_line("    chain postrouting {\n"@)) by {
        reveal_strlit("    chain postrouting {\n");
        let s = "    chain postrouting {\n"@;
        assert forall|i: int| 0 <= i < s.drop_last().len() implies #[trigger] s.drop_last()[i] != '\n' by {
            assert(i == 0 || i == 1 || i == 2 || i == 3 || i == 4 || i == 5 || i == 6 || i == 7
                || i == 8 || i == 9 || i == 10 || i == 11 || i == 12 || i == 13 || i == 14 || i == 15
                || i == 16 || i == 17 || i == 18 || i == 19 || i == 20 || i == 21 || i == 22);
            assert(s.drop_last()[i] == s[i]);
        }
    }
    assert(is_one_line("        type nat hook prerouting priority -90; policy accept;\n"@)) by {
        reveal_strlit("        type nat hook prerouting priority -90; policy accept;\n");
        let s = "        type nat hook prerouting priority -90; policy accept;\n"@;
        assert forall|i: int| 0 <= i < s.drop_last().len() implies #[trigger] s.drop_last()[i] != '\n' by {
            assert(i == 0 || i == 1 || i == 2 || i == 3 || i == 4 || i == 5 || i == 6 || i == 7
                || i == 8 || i == 9 || i == 10 || i == 11 || i == 12 || i == 13 || i == 14 || i == 15
                || i == 16 || i == 17 || i == 18 || i == 19 || i == 20 || i == 21 || i == 22 || i == 23
                || i == 24 || i == 25 || i == 26 || i == 27 || i == 28 || i == 29 || i == 30 || i == 31
                || i == 32 || i == 33 || i == 34 || i == 35 || i == 36 || i == 37 || i == 38 || i == 39
                || i == 40 || i == 41 || i == 42 || i == 43 || i == 44 || i == 45 || i == 46 || i == 47
                || i == 48 || i == 49 || i == 50 || i == 51 || i == 52 || i == 53 || i == 54 || i == 55
                || i == 56 || i == 57 || i == 58 || i == 59 || i == 60);
            assert(s.drop_last()[i] == s[i]);
        }
    }
    assert(is_one_line("        type nat hook postrouting priority 110; policy accept;\n"@)) by {
        reveal_strlit("        type nat hook postrouting priority 110; policy accept;\n");
        let s = "        type nat hook postrouting priority 110; policy accept;\n"@;
        assert forall|i: int| 0 <= i < s.drop_last().len() implies #[trigger] s.drop_last()[i] != '\n' by {
            assert(i == 0 || i == 1 || i == 2 || i == 3 || i == 4 || i == 5 || i == 6 || i == 7
                || i == 8 || i == 9 || i == 10 || i == 11 || i == 12 || i == 13 || i == 14 || i == 15
                || i == 16 || i == 17 || i == 18 || i == 19 || i == 20 || i == 21 || i == 22 || i == 23
                || i == 24 || i == 25 || i == 26 || i == 27 || i == 28 || i == 29 || i == 30 || i == 31
                || i == 32 || i == 33 || i == 34 || i == 35 || i == 36 || i == 37 || i == 38 || i == 39
                || i == 40 || i == 41 || i == 42 || i == 43 || i == 44 || i == 45 || i == 46 || i == 47
                || i == 48 || i == 49 || i == 50 || i == 51 || i == 52 || i == 53 || i == 54 || i == 55
                || i == 56 || i == 57 || i == 58 || i == 59 || i == 60 || i == 61);
            assert(s.drop_last()[i] == s[i]);
        }
    }
}

proof fn lemma_literal_starts()
    ensures
        starts("    set "@, "    "@),
        starts("        elements = { "@, "    "@),
        starts("        "@, "    "@),
        starts("        iifname "@, "    "@),
        starts("    chain "@, "    "@),
        starts("        type filter hook "@, "    "@),
        starts("    }\n"@, "    "@),
        starts("        type ipv4_addr\n"@, "    "@),
        starts("        type ipv6_addr\n"@, "    "@),
        starts("        type ether_addr\n"@, "    "@),
        starts("        type inet_service\n"@, "    "@),
        starts("        flags interval\n"@, "    "@),
        starts("    chain prerouting {\n"@, "    "@),
        starts("    chain postrouting {\n"@, "    "@),
        starts("        type nat hook prerouting priority -90; policy accept;\n"@, "    "@),
        starts("        type nat hook postrouting priority 110; policy accept;\n"@, "    "@),
{
    reveal_strlit("    ");
    reveal_strlit("    set ");
    assert("    set "@.take(4) =~= "    "@);
    reveal_strlit("        elements = { ");
    assert("        elements = { "@.take(4) =~= "    "@);
    reveal_strlit("        ");
    assert("        "@.take(4) =~= "    "@);
    reveal_strlit("        iifname ");
    assert("        iifname "@.take(4) =~= "    "@);
    reveal_strlit("    chain ");
    assert("    chain "@.take(4) =~= "    "@);
    reveal_strlit("        type filter hook ");
    assert("        type filter hook "@.take(4) =~= "    "@);
    reveal_strlit("    }\n");
    assert("    }\n"@.take(4) =~= "    "@);
    reveal_strlit("        type ipv4_addr\n");
    assert("        type ipv4_addr\n"@.take(4) =~= "    "@);
    reveal_strlit("        type ipv6_addr\n");
    assert("        type ipv6_addr\n"@.take(4) =~= "    "@);
    reveal_strlit("        type ether_addr\n");
    assert("        type ether_addr\n"@.take(4) =~= "    "@);
    reveal_strlit("        type inet_service\n");
    assert("        type inet_service\n"@.take(4) =~= "    "@);
    reveal_strlit("        flags interval\n");
    assert("        flags interval\n"@.take(4) =~= "    "@);
    reveal_strlit("    chain prerouting {\n");
    assert("    chain prerouting {\n"@.take(4) =~= "    "@);
    reveal_strlit("    chain postrouting {\n");
    assert("    chain postrouting {\n"@.take(4) =~= "    "@);
    reveal_strlit("        type nat hook prerouting priority -90; policy accept;\n");
    assert("        type nat hook prerouting priority -90; policy accept;\n"@.take(4) =~= "    "@);
    reveal_strlit("        type nat hook postrouting priority 110; policy accept;\n");
    assert("        type nat hook postrouting priority 110; policy accept;\n"@.take(4) =~= "    "@);
}

/// Whether every line of a text is indented.
#[verifier::opaque]
pub open spec fn is_nested(text: Seq<char>) -> bool {
    (text.len() == 0 || text.last() == '\n') && forall|k: int| #[trigger]
        opens_line(text, k) ==> starts(text.skip(k), "    "@)
}

proof fn lemma_nested_line(line: Seq<char>)
    requires
        is_one_line(line),
        starts(line, "    "@),
    ensures
        is_nested(line),
{
    reveal(is_nested);
    reveal(is_one_line);
    reveal(is_inline);
    assert forall|k: int| #[trigger] opens_line(line, k) implies starts(line.skip(k), "    "@) by {
        if k == 0 {
            assert(line.skip(0) =~= line);
        } else {
            assert(line.drop_last()[k - 1] == line[k - 1]);
        }
    }
}

proof fn lemma_nested_add(a: Seq<char>, b: Seq<char>)
    requires
        is_nested(a),
        is_nested(b),
    ensures
        is_nested(a + b),
{
    reveal(is_nested);
    let all = a + b;
    if b.len() > 0 {
        assert(all.last() == b.last());
    } else {
        assert(all =~= a);
    }
    assert forall|k: int| #[trigger] opens_line(all, k) implies starts(all.skip(k), "    "@) by {
        if k < a.len() {
            assert(all[k] == a[k]);
            if k > 0 {
                assert(all[k - 1] == a[k - 1]);
            }
            assert(opens_line(a, k));
            assert(all.skip(k) =~= a.skip(k) + b);
            lemma_starts_add(a.skip(k), b, "    "@);
        } else {
            let j = k - a.len();
            if j > 0 {
                assert(all[k - 1] == b[j - 1]);
            }
            assert(opens_line(b, j));
            assert(all.skip(k) =~= b.skip(j));
        }
    }
}

/// Whether a text is another with more behind it, and, where this is asked for, with indented lines only.
#[verifier::opaque]
pub open spec fn is_within(strict: bool, acc: Seq<char>, text: Seq<char>) -> bool {
    starts(text, acc) && (strict ==> is_nested(text.skip(acc.len() as int)))
}

proof fn lemma_within_same(strict: bool, acc: Seq<char>)
    ensures
        is_within(strict, acc, acc),
{
    reveal(is_within);
    reveal(is_nested);
    assert(acc.take(acc.len() as int) =~= acc);
    assert(acc.skip(acc.len() as int) =~= Seq::empty());
}

proof fn lemma_within_add(strict: bool, acc: Seq<char>, text: Seq<char>, block: Seq<char>)
    requires
        is_within(strict, acc, text),
        strict ==> is_nested(block),
    ensures
        is_within(strict, acc, text + block),
{
    reveal(is_within);
    let n = acc.len() as int;
    lemma_starts_add(text, block, acc);
    if strict {
        lemma_nested_add(text.skip(n), block);
    }
    assert((text + block).skip(n) =~= text.skip(n) + block);
}

proof fn lemma_quoted(s: Seq<char>)
    ensures
        quoted_value(s) matches Some(q) ==> is_inline(q),
{
    broadcast use lemma_inline_add;

    lemma_words();
    if is_double_quotable(s) {
        assert(is_inline(s)) by {
            reveal(is_inline);
            assert forall|i: int| 0 <= i < s.len() implies #[trigger] s[i] != '\n' by {
                assert(!is_ascii_control(s[i]));
            }
        }
    }
}

proof fn lemma_port(p: PortRange)
    ensures
        is_inline(port_text(p)),
{
    broadcast use lemma_inline_add;

    lemma_words();
    lemma_decimal_inline(p.start as nat);
    lemma_decimal_inline(p.end as nat);
}

proof fn lemma_joined(acc: Seq<char>, parts: Seq<Seq<char>>, sep: Seq<char>, i: int)
    requires
        is_inline(acc),
        all_inline(parts),
        is_inline(sep),
        0 <= i,
    ensures
        is_inline(joined_from(acc, parts, sep, i)),
    decreases parts.len() - i,
{
    broadcast use lemma_inline_add;

    if i < parts.len() {
        assert(is_inline(parts[i]));
        lemma_joined(acc + parts[i], parts, sep, i + 1);
        lemma_joined(acc + sep + parts[i], parts, sep, i + 1);
    }
}

proof fn lemma_atoms(key: Seq<char>, values: Seq<Seq<char>>)
    requires
        is_inline(key),
        all_inline(values),
    ensures
        is_inline(atom_set(key, values)),
{
    broadcast use lemma_inline_add;

    lemma_words();
    lemma_joined(Seq::empty(), values, ", "@, 0);
    if values.len() == 1 {
        assert(is_inline(values[0]));
    }
}

/// Whether a part, where there is one, has no line break.
pub open spec fn inline_part(p: Result<Seq<char>, NftablesRenderErrorView>) -> bool {
    p matches Ok(t) ==> is_inline(t)
}

/// Whether parts, where there are any, have no line breaks.
pub open spec fn inline_parts(p: Result<Seq<Seq<char>>, NftablesRenderErrorView>) -> bool {
    p matches Ok(t) ==> all_inline(t)
}

proof fn lemma_strings(key: Seq<char>, values: Seq<Seq<char>>)
    requires
        is_inline(key),
    ensures
        inline_part(string_set(key, values)),
{
    let f = |s: Seq<char>| quoted_value(s);
    if let Some(q) = map_all(values, f) {
        assert forall|i: int| 0 <= i < q.len() implies is_inline(#[trigger] q[i]) by {
            lemma_quoted(values[i]);
            assert(f(values[i]) is Some);
        }
        lemma_atoms(key, q);
    }
}

proof fn lemma_part(
    parts: Result<Seq<Seq<char>>, NftablesRenderErrorView>,
    wanted: bool,
    part: Result<Seq<char>, NftablesRenderErrorView>,
)
    requires
        inline_parts(parts),
        wanted ==> inline_part(part),
    ensures
        inline_parts(then_part(parts, wanted, part)),
{
}

proof fn lemma_networks(direction: Seq<char>, n: Seq<IpNetwork>)
    requires
        is_inline(direction),
    ensures
        inline_part(networks_part(direction, n)),
{
    broadcast use lemma_inline_add;

    lemma_words();
    let t = network_texts(n);
    assert forall|i: int| 0 <= i < t.len() implies is_inline(#[trigger] t[i]) by {
        lemma_network_inline(n[i]);
    }
    lemma_atoms("ip "@ + direction, t);
    lemma_atoms("ip6 "@ + direction, t);
}

proof fn lemma_bytes(b: Seq<u8>)
    ensures
        all_inline(byte_texts(b)),
{
    let t = byte_texts(b);
    assert forall|i: int| 0 <= i < t.len() implies is_inline(#[trigger] t[i]) by {
        lemma_decimal_inline(b[i] as nat);
    }
}

proof fn lemma_icmp(m: FirewallMatchView)
    ensures
        inline_part(icmp_part(m)),
{
    lemma_words();
    let t = byte_texts(m.icmp_types);
    lemma_bytes(m.icmp_types);
    lemma_atoms("icmp type"@, t);
    lemma_atoms("icmpv6 type"@, t);
}

proof fn lemma_placed_parts(
    m: FirewallMatchView,
    direction: FirewallDirection,
    sources: Seq<Seq<char>>,
    destinations: Seq<Seq<char>>,
)
    ensures
        inline_parts(placed_parts(m, direction, sources, destinations)),
{
    lemma_words();
    let key = if direction == FirewallDirection::Output {
        "oifname"@
    } else {
        "iifname"@
    };
    let start = Ok::<Seq<Seq<char>>, NftablesRenderErrorView>(family_parts(m.family));
    assert(all_inline(family_parts(m.family)));
    let part = if direction == FirewallDirection::Forward {
        string_set("oifname"@, destinations)
    } else {
        unsupported("destination zone for non-forward filter direction"@)
    };
    lemma_strings(key, sources);
    lemma_strings("oifname"@, destinations);
    lemma_strings("iifname"@, m.input_interfaces);
    lemma_strings("oifname"@, m.output_interfaces);
    lemma_part(start, sources.len() > 0, string_set(key, sources));
    let p1 = then_part(start, sources.len() > 0, string_set(key, sources));
    lemma_part(p1, destinations.len() > 0, part);
    let p2 = then_part(p1, destinations.len() > 0, part);
    let input = string_set("iifname"@, m.input_interfaces);
    lemma_part(p2, m.input_interfaces.len() > 0, input);
    let p3 = then_part(p2, m.input_interfaces.len() > 0, input);
    lemma_part(p3, m.output_interfaces.len() > 0, string_set("oifname"@, m.output_interfaces));
}

proof fn lemma_values(m: FirewallMatchView)
    requires
        all_inline(m.source_macs),
    ensures
        is_inline(atom_set("ether saddr"@, m.source_macs)),
        is_inline(atom_set("meta l4proto"@, protocol_texts(m.protocols))),
        is_inline(atom_set("th sport"@, port_texts(m.source_ports))),
        is_inline(atom_set("th dport"@, port_texts(m.destination_ports))),
        is_inline(atom_set("ct state"@, state_texts(m.conntrack_states))),
{
    lemma_words();
    let p = protocol_texts(m.protocols);
    assert forall|i: int| 0 <= i < p.len() implies is_inline(#[trigger] p[i]) by {
        assert(m.protocols[i] == m.protocols[i]);
    }
    let a = port_texts(m.source_ports);
    assert forall|i: int| 0 <= i < a.len() implies is_inline(#[trigger] a[i]) by {
        lemma_port(m.source_ports[i]);
    }
    let b = port_texts(m.destination_ports);
    assert forall|i: int| 0 <= i < b.len() implies is_inline(#[trigger] b[i]) by {
        lemma_port(m.destination_ports[i]);
    }
    let s = state_texts(m.conntrack_states);
    assert forall|i: int| 0 <= i < s.len() implies is_inline(#[trigger] s[i]) by {
        assert(is_inline(state_name(m.conntrack_states[i])));
    }
    lemma_atoms("ether saddr"@, m.source_macs);
    lemma_atoms("meta l4proto"@, p);
    lemma_atoms("th sport"@, a);
    lemma_atoms("th dport"@, b);
    lemma_atoms("ct state"@, s);
}

proof fn lemma_valued_parts(
    parts: Result<Seq<Seq<char>>, NftablesRenderErrorView>,
    m: FirewallMatchView,
)
    requires
        inline_parts(parts),
        all_inline(m.source_macs),
    ensures
        inline_parts(valued_parts(parts, m)),
{
    lemma_words();
    lemma_values(m);
    lemma_networks("saddr"@, m.source_networks);
    lemma_networks("daddr"@, m.destination_networks);
    lemma_icmp(m);
    let p1 = then_part(
        parts,
        m.source_networks.len() > 0,
        networks_part("saddr"@, m.source_networks),
    );
    lemma_part(parts, m.source_networks.len() > 0, networks_part("saddr"@, m.source_networks));
    let p2 = then_part(
        p1,
        m.destination_networks.len() > 0,
        networks_part("daddr"@, m.destination_networks),
    );
    lemma_part(p1, m.destination_networks.len() > 0, networks_part("daddr"@, m.destination_networks));
    let macs = Ok(atom_set("ether saddr"@, m.source_macs));
    lemma_part(p2, m.source_macs.len() > 0, macs);
    let p3 = then_part(p2, m.source_macs.len() > 0, macs);
    let protocols = Ok(atom_set("meta l4proto"@, protocol_texts(m.protocols)));
    lemma_part(p3, m.protocols.len() > 0, protocols);
    let p4 = then_part(p3, m.protocols.len() > 0, protocols);
    let sport = Ok(atom_set("th sport"@, port_texts(m.source_ports)));
    lemma_part(p4, m.source_ports.len() > 0, sport);
    let p5 = then_part(p4, m.source_ports.len() > 0, sport);
    let dport = Ok(atom_set("th dport"@, port_texts(m.destination_ports)));
    lemma_part(p5, m.destination_ports.len() > 0, dport);
    let p6 = then_part(p5, m.destination_ports.len() > 0, dport);
    lemma_part(p6, m.icmp_types.len() > 0, icmp_part(m));
    let p7 = then_part(p6, m.icmp_types.len() > 0, icmp_part(m));
    let states = Ok(atom_set("ct state"@, state_texts(m.conntrack_states)));
    lemma_part(p7, m.conntrack_states.len() > 0, states);
}

/// Whether the names of sets have no line breaks.
pub open spec fn inline_names(sets: Seq<NftSetView>) -> bool {
    forall|i: int| 0 <= i < sets.len() ==> is_inline((#[trigger] sets[i]).name)
}

proof fn lemma_set_from(sets: Seq<NftSetView>, id: Seq<char>, i: int)
    requires
        inline_names(sets),
        0 <= i,
    ensures
        set_from(sets, id, i) matches Some(s) ==> is_inline(s.name),
    decreases sets.len() - i,
{
    if i < sets.len() && sets[i].id != id {
        lemma_set_from(sets, id, i + 1);
    }
}

proof fn lemma_set_parts(
    parts: Seq<Seq<char>>,
    sets: Seq<NftSetView>,
    ids: Seq<Seq<char>>,
    source: bool,
    i: int,
)
    requires
        all_inline(parts),
        inline_names(sets),
        0 <= i,
    ensures
        inline_parts(set_parts(parts, sets, ids, source, i)),
    decreases ids.len() - i,
{
    broadcast use lemma_inline_add;

    lemma_words();
    if i < ids.len() {
        lemma_set_from(sets, ids[i], 0);
        if let Some(s) = set_from(sets, ids[i], 0) {
            assert(is_inline(set_expression(s.value_type, source)));
            let part = set_expression(s.value_type, source) + " @"@ + s.name;
            assert(is_inline(part));
            lemma_set_parts(parts.push(part), sets, ids, source, i + 1);
        }
    }
}

/// Whether what a context writes without quotes has no line breaks.
pub open spec fn is_inline_context(c: RenderContextView) -> bool {
    &&& inline_names(c.sets)
    &&& forall|i: int|
        0 <= i < c.address_sets.len() ==> is_inline_set(#[trigger] c.address_sets[i])
    &&& forall|i: int|
        0 <= i < c.filter_rules.len() ==> all_inline(
            (#[trigger] c.filter_rules[i]).matches.source_macs,
        )
    &&& forall|i: int|
        0 <= i < c.nat_rules.len() ==> all_inline((#[trigger] c.nat_rules[i]).matches.source_macs)
}

pub open spec fn is_inline_set(s: FirewallAddressSetView) -> bool {
    forall|i: int|
        0 <= i < s.entries.len() ==> (#[trigger] s.entries[i] matches FirewallSetEntryView::Mac(m)
            ==> is_inline(m))
}

proof fn lemma_match_parts(c: RenderContextView, m: FirewallMatchView, direction: FirewallDirection)
    requires
        is_inline_context(c),
        all_inline(m.source_macs),
    ensures
        inline_parts(match_parts(c, m, direction)),
{
    if let (Some(s), Some(d)) = (
        interfaces_of(c.zones, m.source_zones),
        interfaces_of(c.zones, m.destination_zones),
    ) {
        lemma_placed_parts(m, direction, s, d);
        let p = placed_parts(m, direction, s, d);
        lemma_valued_parts(p, m);
        if let Ok(parts) = valued_parts(p, m) {
            lemma_set_parts(parts, c.sets, m.source_sets, true, 0);
            if let Ok(more) = set_parts(parts, c.sets, m.source_sets, true, 0) {
                lemma_set_parts(more, c.sets, m.destination_sets, false, 0);
            }
        }
    }
}

proof fn lemma_rule_text(parts: Result<Seq<Seq<char>>, NftablesRenderErrorView>)
    requires
        inline_parts(parts),
    ensures
        inline_part(rule_text(parts)),
{
    lemma_words();
    if let Ok(p) = parts {
        lemma_joined(Seq::empty(), p, " "@, 0);
    }
}

proof fn lemma_filter_rule(c: RenderContextView, r: FirewallFilterRuleView)
    requires
        is_inline_context(c),
        all_inline(r.matches.source_macs),
    ensures
        inline_part(filter_rule_text(c, r)),
{
    broadcast use lemma_inline_add;

    lemma_words();
    lemma_match_parts(c, r.matches, r.direction);
    lemma_quoted(r.id);
    if let Some(l) = r.rate_limit {
        lemma_decimal_inline(l.packets_per_second as nat);
        lemma_decimal_inline(l.burst as nat);
    }
    assert(is_inline(limit_part(r.rate_limit)));
    if let Some(log) = r.log {
        lemma_quoted(log.prefix);
        assert(is_inline(level_name(log.level)));
    }
    assert(inline_part(log_part(r)));
    assert(inline_part(verdict_text(r.verdict, r.reject_with)));
    assert(inline_part(comment_part(r.id)));
    let p0 = match_parts(c, r.matches, r.direction);
    let limit = Ok(limit_part(r.rate_limit));
    lemma_part(p0, r.rate_limit is Some, limit);
    let p1 = then_part(p0, r.rate_limit is Some, limit);
    lemma_part(p1, r.log is Some, log_part(r));
    let p2 = then_part(p1, r.log is Some, log_part(r));
    lemma_part(p2, true, verdict_text(r.verdict, r.reject_with));
    let p3 = then_part(p2, true, verdict_text(r.verdict, r.reject_with));
    lemma_part(p3, true, comment_part(r.id));
    lemma_rule_text(then_part(p3, true, comment_part(r.id)));
}

proof fn lemma_action(r: FirewallNatRuleView)
    ensures
        inline_part(action_part(r)),
{
    broadcast use lemma_inline_add;

    lemma_words();
    if let Some(p) = r.translation_port {
        lemma_port(p);
    }
    if let Some(a) = r.translation_address {
        lemma_address_inline(a);
        assert(is_inline(endpoint(a, r.translation_port)));
        assert(is_inline(translation("dnat"@, a, r.translation_port)));
        assert(is_inline(translation("snat"@, a, r.translation_port)));
    }
}

proof fn lemma_nat_rule(c: RenderContextView, r: FirewallNatRuleView)
    requires
        is_inline_context(c),
        all_inline(r.matches.source_macs),
    ensures
        inline_part(nat_rule_text(c, r)),
{
    broadcast use lemma_inline_add;

    lemma_words();
    let direction = if is_prerouting(r.kind) {
        FirewallDirection::Input
    } else {
        FirewallDirection::Forward
    };
    lemma_match_parts(c, r.matches, direction);
    lemma_quoted(r.id);
    lemma_action(r);
    assert(inline_part(comment_part(r.id)));
    let p0 = match_parts(c, r.matches, direction);
    lemma_part(p0, true, action_part(r));
    let p1 = then_part(p0, true, action_part(r));
    lemma_part(p1, true, comment_part(r.id));
    lemma_rule_text(then_part(p1, true, comment_part(r.id)));
}

proof fn lemma_indented(text: Seq<char>)
    requires
        is_inline(text),
    ensures
        is_nested(indented(text)),
{
    broadcast use lemma_inline_add;

    lemma_words();
    lemma_line_ends();
    lemma_literal_starts();
    lemma_line_tail("        "@ + text, "\n"@);
    lemma_starts_add("        "@, text, "    "@);
    lemma_starts_add("        "@ + text, "\n"@, "    "@);
    lemma_nested_line(indented(text));
}

/// Whether a text, where there is one, is another with indented lines behind it.
pub open spec fn within_result(
    strict: bool,
    acc: Seq<char>,
    t: Result<Seq<char>, NftablesRenderErrorView>,
) -> bool {
    t matches Ok(text) ==> is_within(strict, acc, text)
}

proof fn lemma_filter_rules(
    strict: bool,
    head: Seq<char>,
    acc: Seq<char>,
    c: RenderContextView,
    direction: FirewallDirection,
    i: int,
)
    requires
        is_within(strict, head, acc),
        strict ==> is_inline_context(c),
        0 <= i,
    ensures
        within_result(strict, head, filter_rules_text(acc, c, direction, i)),
    decreases c.filter_rules.len() - i,
{
    if i < c.filter_rules.len() {
        let r = c.filter_rules[i];
        lemma_filter_rules(strict, head, acc, c, direction, i + 1);
        if let Ok(t) = filter_rule_text(c, r) {
            if strict {
                lemma_filter_rule(c, r);
                lemma_indented(t);
            }
            lemma_within_add(strict, head, acc, indented(t));
            lemma_filter_rules(strict, head, acc + indented(t), c, direction, i + 1);
        }
    }
}

proof fn lemma_nat_rules(
    strict: bool,
    head: Seq<char>,
    acc: Seq<char>,
    c: RenderContextView,
    prerouting: bool,
    i: int,
)
    requires
        is_within(strict, head, acc),
        strict ==> is_inline_context(c),
        0 <= i,
    ensures
        within_result(strict, head, nat_rules_text(acc, c, prerouting, i)),
    decreases c.nat_rules.len() - i,
{
    if i < c.nat_rules.len() {
        let r = c.nat_rules[i];
        lemma_nat_rules(strict, head, acc, c, prerouting, i + 1);
        if let Ok(t) = nat_rule_text(c, r) {
            if strict {
                lemma_nat_rule(c, r);
                lemma_indented(t);
            }
            lemma_within_add(strict, head, acc, indented(t));
            lemma_nat_rules(strict, head, acc + indented(t), c, prerouting, i + 1);
        }
    }
}

proof fn lemma_forward_line(input: Seq<char>, output: Seq<char>, id: Seq<char>)
    ensures
        forward_line(input, output, id) matches Some(l) ==> is_nested(l),
{
    broadcast use {lemma_inline_add, lemma_starts_add};

    lemma_words();
    lemma_line_ends();
    lemma_literal_starts();
    lemma_quoted(input);
    lemma_quoted(output);
    lemma_quoted(id);
    if let Some(l) = forward_line(input, output, id) {
        let body = "        iifname "@ + quoted_value(input)->Some_0 + " oifname "@ + quoted_value(
            output,
        )->Some_0 + " accept comment "@ + quoted_value(id)->Some_0;
        assert(is_inline(body));
        assert(starts(body, "    "@));
        lemma_line_tail(body, "\n"@);
        lemma_starts_add(body, "\n"@, "    "@);
        lemma_nested_line(body + "\n"@);
        assert(l == body + "\n"@);
    }
}

proof fn lemma_forward_to(
    strict: bool,
    head: Seq<char>,
    acc: Seq<char>,
    input: Seq<char>,
    outputs: Seq<Seq<char>>,
    id: Seq<char>,
    j: int,
)
    requires
        is_within(strict, head, acc),
        0 <= j,
    ensures
        forward_to(acc, input, outputs, id, j) matches Some(t) ==> is_within(strict, head, t),
    decreases outputs.len() - j,
{
    if j < outputs.len() {
        lemma_forward_line(input, outputs[j], id);
        if let Some(l) = forward_line(input, outputs[j], id) {
            lemma_within_add(strict, head, acc, l);
            lemma_forward_to(strict, head, acc + l, input, outputs, id, j + 1);
        }
    }
}

proof fn lemma_forward_all(
    strict: bool,
    head: Seq<char>,
    acc: Seq<char>,
    inputs: Seq<Seq<char>>,
    outputs: Seq<Seq<char>>,
    id: Seq<char>,
    i: int,
)
    requires
        is_within(strict, head, acc),
        0 <= i,
    ensures
        forward_all(acc, inputs, outputs, id, i) matches Some(t) ==> is_within(strict, head, t),
    decreases inputs.len() - i,
{
    if i < inputs.len() {
        lemma_forward_to(strict, head, acc, inputs[i], outputs, id, 0);
        if let Some(next) = forward_to(acc, inputs[i], outputs, id, 0) {
            lemma_forward_all(strict, head, next, inputs, outputs, id, i + 1);
        }
    }
}

proof fn lemma_forwardings(
    strict: bool,
    head: Seq<char>,
    acc: Seq<char>,
    c: RenderContextView,
    count: int,
    i: int,
)
    requires
        is_within(strict, head, acc),
        0 <= i,
    ensures
        within_result(strict, head, forwardings_text(acc, c, count, i)),
    decreases c.forwardings.len() - i,
{
    if i < c.forwardings.len() {
        let f = c.forwardings[i];
        if !f.enabled {
            lemma_forwardings(strict, head, acc, c, count, i + 1);
        } else if let (Some(s), Some(t)) = (
            zone_from(c.zones, f.source_zone, 0),
            zone_from(c.zones, f.destination_zone, 0),
        ) {
            let total = count + s.networks.len() * t.networks.len();
            lemma_forward_all(strict, head, acc, s.networks, t.networks, f.id, 0);
            if let Some(next) = forward_all(acc, s.networks, t.networks, f.id, 0) {
                lemma_forwardings(strict, head, next, c, total, i + 1);
            }
        }
    }
}

proof fn lemma_zone_line(key: Seq<char>, interface: Seq<char>, action: Seq<char>, label: Seq<char>)
    requires
        is_inline(key),
        is_inline(action),
    ensures
        zone_line(key, interface, action, label) matches Some(l) ==> is_nested(l),
{
    broadcast use {lemma_inline_add, lemma_starts_add};

    lemma_words();
    lemma_line_ends();
    lemma_literal_starts();
    lemma_quoted(interface);
    lemma_quoted(label);
    if let Some(l) = zone_line(key, interface, action, label) {
        let body = "        "@ + key + " "@ + quoted_value(interface)->Some_0 + " "@ + action
            + " comment "@ + quoted_value(label)->Some_0;
        assert(is_inline(body));
        assert(starts(body, "    "@));
        lemma_line_tail(body, "\n"@);
        lemma_starts_add(body, "\n"@, "    "@);
        lemma_nested_line(body + "\n"@);
        assert(l == body + "\n"@);
    }
}

proof fn lemma_zone_lines(
    strict: bool,
    head: Seq<char>,
    acc: Seq<char>,
    key: Seq<char>,
    interfaces: Seq<Seq<char>>,
    action: Seq<char>,
    label: Seq<char>,
    i: int,
)
    requires
        is_within(strict, head, acc),
        is_inline(key),
        is_inline(action),
        0 <= i,
    ensures
        zone_lines(acc, key, interfaces, action, label, i) matches Some(t) ==> is_within(strict, head, t),
    decreases interfaces.len() - i,
{
    if i < interfaces.len() {
        lemma_zone_line(key, interfaces[i], action, label);
        if let Some(l) = zone_line(key, interfaces[i], action, label) {
            lemma_within_add(strict, head, acc, l);
            lemma_zone_lines(strict, head, acc + l, key, interfaces, action, label, i + 1);
        }
    }
}

proof fn lemma_policies(
    strict: bool,
    head: Seq<char>,
    acc: Seq<char>,
    zones: Seq<FirewallZoneView>,
    direction: FirewallDirection,
    i: int,
)
    requires
        is_within(strict, head, acc),
        0 <= i,
    ensures
        within_result(strict, head, policies_text(acc, zones, direction, i)),
    decreases zones.len() - i,
{
    lemma_words();
    if i < zones.len() {
        let z = zones[i];
        let key = if direction == FirewallDirection::Output {
            "oifname"@
        } else {
            "iifname"@
        };
        let action = verdict_name(policy_verdict(z, direction));
        let label = "zone:"@ + z.id;
        lemma_policies(strict, head, acc, zones, direction, i + 1);
        lemma_zone_lines(strict, head, acc, key, z.networks, action, label, 0);
        if let Some(next) = zone_lines(acc, key, z.networks, action, label, 0) {
            lemma_policies(strict, head, next, zones, direction, i + 1);
        }
    }
}

proof fn lemma_masquerades(
    strict: bool,
    head: Seq<char>,
    acc: Seq<char>,
    zones: Seq<FirewallZoneView>,
    i: int,
)
    requires
        is_within(strict, head, acc),
        0 <= i,
    ensures
        within_result(strict, head, masquerades_text(acc, zones, i)),
    decreases zones.len() - i,
{
    lemma_words();
    if i < zones.len() {
        let z = zones[i];
        let label = "zone-masq:"@ + z.id;
        lemma_masquerades(strict, head, acc, zones, i + 1);
        lemma_zone_lines(strict, head, acc, "oifname"@, z.networks, "masquerade"@, label, 0);
        if let Some(next) = zone_lines(acc, "oifname"@, z.networks, "masquerade"@, label, 0) {
            lemma_masquerades(strict, head, next, zones, i + 1);
        }
    }
}

proof fn lemma_closing()
    ensures
        is_nested("    }\n"@),
{
    lemma_line_ends();
    lemma_literal_starts();
    lemma_nested_line("    }\n"@);
}

proof fn lemma_chain_head(d: FirewallDirection)
    ensures
        is_nested(chain_head(d)),
{
    broadcast use {lemma_inline_add, lemma_starts_add};

    lemma_words();
    lemma_line_ends();
    lemma_literal_starts();
    reveal_strlit(" {\n");
    reveal_strlit("        type filter hook ");
    reveal_strlit(" {\n        type filter hook ");
    let name = direction_name(d);
    assert(" {\n        type filter hook "@ =~= " {\n"@ + "        type filter hook "@);
    let a = "    chain "@ + name;
    let b = "        type filter hook "@ + name;
    assert(is_inline(a) && is_inline(b));
    assert(starts(a, "    "@) && starts(b, "    "@));
    lemma_line_tail(a, " {\n"@);
    lemma_starts_add(a, " {\n"@, "    "@);
    lemma_line_tail(b, " priority -5; policy accept;\n"@);
    lemma_starts_add(b, " priority -5; policy accept;\n"@, "    "@);
    let first = a + " {\n"@;
    let second = b + " priority -5; policy accept;\n"@;
    lemma_nested_line(first);
    lemma_nested_line(second);
    lemma_nested_add(first, second);
    assert(chain_head(d) =~= first + second);
}

proof fn lemma_filter_chain(
    strict: bool,
    head: Seq<char>,
    acc: Seq<char>,
    c: RenderContextView,
    d: FirewallDirection,
)
    requires
        is_within(strict, head, acc),
        strict ==> is_inline_context(c),
    ensures
        within_result(strict, head, filter_chain_text(acc, c, d)),
{
    lemma_chain_head(d);
    lemma_closing();
    lemma_within_add(strict, head, acc, chain_head(d));
    let t0 = acc + chain_head(d);
    lemma_filter_rules(strict, head, t0, c, d, 0);
    if let Ok(t1) = filter_rules_text(t0, c, d, 0) {
        lemma_forwardings(strict, head, t1, c, 0, 0);
        let more = if d == FirewallDirection::Forward {
            forwardings_text(t1, c, 0, 0)
        } else {
            Ok(t1)
        };
        if let Ok(t2) = more {
            lemma_policies(strict, head, t2, c.zones, d, 0);
            if let Ok(t3) = policies_text(t2, c.zones, d, 0) {
                lemma_within_add(strict, head, t3, "    }\n"@);
            }
        }
    }
}

proof fn lemma_nat_heads()
    ensures
        is_nested(
            "    chain prerouting {\n        type nat hook prerouting priority -90; policy accept;\n"@,
        ),
        is_nested(
            "    chain postrouting {\n        type nat hook postrouting priority 110; policy accept;\n"@,
        ),
{
    lemma_line_ends();
    lemma_literal_starts();
    reveal_strlit("    chain prerouting {\n");
    reveal_strlit("        type nat hook prerouting priority -90; policy accept;\n");
    reveal_strlit("    chain prerouting {\n        type nat hook prerouting priority -90; policy accept;\n");
    reveal_strlit("    chain postrouting {\n");
    reveal_strlit("        type nat hook postrouting priority 110; policy accept;\n");
    reveal_strlit("    chain postrouting {\n        type nat hook postrouting priority 110; policy accept;\n");
    lemma_nested_line("    chain prerouting {\n"@);
    lemma_nested_line("        type nat hook prerouting priority -90; policy accept;\n"@);
    lemma_nested_line("    chain postrouting {\n"@);
    lemma_nested_line("        type nat hook postrouting priority 110; policy accept;\n"@);
    lemma_nested_add(
        "    chain prerouting {\n"@,
        "        type nat hook prerouting priority -90; policy accept;\n"@,
    );
    lemma_nested_add(
        "    chain postrouting {\n"@,
        "        type nat hook postrouting priority 110; policy accept;\n"@,
    );
    assert("    chain prerouting {\n        type nat hook prerouting priority -90; policy accept;\n"@
        =~= "    chain prerouting {\n"@
        + "        type nat hook prerouting priority -90; policy accept;\n"@);
    assert("    chain postrouting {\n        type nat hook postrouting priority 110; policy accept;\n"@
        =~= "    chain postrouting {\n"@
        + "        type nat hook postrouting priority 110; policy accept;\n"@);
}

proof fn lemma_nat_chains(strict: bool, head: Seq<char>, acc: Seq<char>, c: RenderContextView)
    requires
        is_within(strict, head, acc),
        strict ==> is_inline_context(c),
    ensures
        within_result(strict, head, nat_chains_text(acc, c)),
{
    lemma_nat_heads();
    lemma_closing();
    let before =
        "    chain prerouting {\n        type nat hook prerouting priority -90; policy accept;\n"@;
    let behind =
        "    chain postrouting {\n        type nat hook postrouting priority 110; policy accept;\n"@;
    lemma_within_add(strict, head, acc, before);
    lemma_nat_rules(strict, head, acc + before, c, true, 0);
    if let Ok(t1) = nat_rules_text(acc + before, c, true, 0) {
        lemma_masquerades(strict, head, t1, c.zones, 0);
        if let Ok(t2) = masquerades_text(t1, c.zones, 0) {
            lemma_within_add(strict, head, t2, "    }\n"@);
            lemma_within_add(strict, head, t2 + "    }\n"@, behind);
            let t3 = t2 + "    }\n"@ + behind;
            lemma_nat_rules(strict, head, t3, c, false, 0);
            if let Ok(t4) = nat_rules_text(t3, c, false, 0) {
                lemma_within_add(strict, head, t4, "    }\n"@);
            }
        }
    }
}

proof fn lemma_type_lines(t: NftSetType)
    ensures
        is_nested(type_lines(t)),
{
    lemma_line_ends();
    lemma_literal_starts();
    reveal_strlit("        type ipv4_addr\n");
    reveal_strlit("        type ipv6_addr\n");
    reveal_strlit("        type inet_service\n");
    reveal_strlit("        flags interval\n");
    reveal_strlit("        type ipv4_addr\n        flags interval\n");
    reveal_strlit("        type ipv6_addr\n        flags interval\n");
    reveal_strlit("        type inet_service\n        flags interval\n");
    let flags = "        flags interval\n"@;
    lemma_nested_line(flags);
    lemma_nested_line("        type ipv4_addr\n"@);
    lemma_nested_line("        type ipv6_addr\n"@);
    lemma_nested_line("        type ether_addr\n"@);
    lemma_nested_line("        type inet_service\n"@);
    lemma_nested_add("        type ipv4_addr\n"@, flags);
    lemma_nested_add("        type ipv6_addr\n"@, flags);
    lemma_nested_add("        type inet_service\n"@, flags);
    assert("        type ipv4_addr\n        flags interval\n"@ =~= "        type ipv4_addr\n"@ + flags);
    assert("        type ipv6_addr\n        flags interval\n"@ =~= "        type ipv6_addr\n"@ + flags);
    assert("        type inet_service\n        flags interval\n"@ =~= "        type inet_service\n"@
        + flags);
}

proof fn lemma_set_block(name: Seq<char>, t: NftSetType, s: FirewallAddressSetView)
    requires
        is_inline(name),
        is_inline_set(s),
    ensures
        is_nested(set_block(name, t, s.entries)),
{
    broadcast use {lemma_inline_add, lemma_starts_add};

    lemma_words();
    lemma_line_ends();
    lemma_literal_starts();
    lemma_type_lines(t);
    lemma_closing();
    let e = entry_texts(s.entries);
    assert forall|i: int| 0 <= i < e.len() implies is_inline(#[trigger] e[i]) by {
        match s.entries[i] {
            FirewallSetEntryView::Network(n) => {
                lemma_network_inline(n);
            },
            FirewallSetEntryView::Port(p) => {
                lemma_port(p);
            },
            FirewallSetEntryView::Mac(_) => {},
        }
    }
    let j = joined(e, ", "@);
    lemma_joined(Seq::empty(), e, ", "@, 0);
    let a = "    set "@ + name;
    assert(is_inline(a) && starts(a, "    "@));
    lemma_line_tail(a, " {\n"@);
    lemma_starts_add(a, " {\n"@, "    "@);
    let first = a + " {\n"@;
    lemma_nested_line(first);
    let b = "        elements = { "@ + j;
    assert(is_inline(b) && starts(b, "    "@));
    lemma_line_tail(b, " }\n"@);
    lemma_starts_add(b, " }\n"@, "    "@);
    let third = b + " }\n"@;
    lemma_nested_line(third);
    lemma_nested_add(first, type_lines(t));
    lemma_nested_add(first + type_lines(t), third);
    lemma_nested_add(first + type_lines(t) + third, "    }\n"@);
    reveal_strlit(" }\n");
    reveal_strlit("    }\n");
    reveal_strlit(" }\n    }\n");
    assert(" }\n    }\n"@ =~= " }\n"@ + "    }\n"@);
    assert(set_block(name, t, s.entries) =~= first + type_lines(t) + third + "    }\n"@);
}

proof fn lemma_sets(strict: bool, head: Seq<char>, acc: Seq<char>, c: RenderContextView, i: int)
    requires
        is_within(strict, head, acc),
        strict ==> is_inline_context(c),
        0 <= i,
    ensures
        within_result(strict, head, sets_text(acc, c, i)),
    decreases c.address_sets.len() - i,
{
    if i < c.address_sets.len() {
        let a = c.address_sets[i];
        lemma_sets(strict, head, acc, c, i + 1);
        if let Some(s) = set_from(c.sets, a.id, 0) {
            let block = set_block(s.name, s.value_type, a.entries);
            if strict {
                assert(is_inline_set(a));
                lemma_set_from(c.sets, a.id, 0);
                lemma_set_block(s.name, s.value_type, a);
            }
            lemma_within_add(strict, head, acc, block);
            lemma_sets(strict, head, acc + block, c, i + 1);
        }
    }
}

/// The text of the managed table, with what stands between the lines that open and close it.
pub open spec fn table_text(state: NftablesTableState, inside: Seq<char>) -> Seq<char> {
    table_head(state) + inside + "}\n"@
}

/// The rule set is the text of the managed table.
pub proof fn lemma_table_ruleset(strict: bool, c: RenderContextView, state: NftablesTableState)
    requires
        strict ==> is_inline_context(c),
    ensures
        ruleset_text(c, state) matches Ok(t) ==> exists|inside: Seq<char>|
            (strict ==> is_nested(inside)) && t == #[trigger] table_text(state, inside),
{
    reveal(ruleset_text);
    let head = table_head(state);
    lemma_within_same(strict, head);
    lemma_sets(strict, head, head, c, 0);
    if let Ok(t0) = sets_text(head, c, 0) {
        lemma_filter_chain(strict, head, t0, c, FirewallDirection::Input);
        if let Ok(t1) = filter_chain_text(t0, c, FirewallDirection::Input) {
            lemma_filter_chain(strict, head, t1, c, FirewallDirection::Output);
            if let Ok(t2) = filter_chain_text(t1, c, FirewallDirection::Output) {
                lemma_filter_chain(strict, head, t2, c, FirewallDirection::Forward);
                if let Ok(t3) = filter_chain_text(t2, c, FirewallDirection::Forward) {
                    lemma_nat_chains(strict, head, t3, c);
                    if let Ok(t4) = nat_chains_text(t3, c) {
                        reveal(is_within);
                        let inside = t4.skip(head.len() as int);
                        assert(t4 =~= head + inside);
                        assert(strict ==> is_nested(inside));
                        assert(t4 + "}\n"@ == table_text(state, inside));
                    }
                }
            }
        }
    }
}

/// Whether what an object writes without quotes has no line breaks.
pub open spec fn is_inline_object(o: FirewallObjectView) -> bool {
    match o {
        FirewallObjectView::FilterRule(r) => all_inline(r.matches.source_macs),
        FirewallObjectView::NatRule(r) => all_inline(r.matches.source_macs),
        FirewallObjectView::AddressSet(s) => is_inline_set(s),
        _ => true,
    }
}

proof fn lemma_set_name(id: Seq<char>)
    ensures
        is_inline(set_name(id)),
{
    lemma_words();
    let h = hex(fnv_from(0xcbf2_9ce4_8422_2325, encode_utf8(id), 0) as nat);
    lemma_hex_inline(fnv_from(0xcbf2_9ce4_8422_2325, encode_utf8(id), 0) as nat);
    if h.len() < 16 {
        let zeros = Seq::new((16 - h.len()) as nat, |i: int| '0');
        assert(is_inline(zeros)) by {
            reveal(is_inline);
        }
        lemma_inline_add(zeros, h);
    }
    lemma_inline_add("s_"@, padded(h));
}

proof fn lemma_with_object(c: RenderContextView, o: FirewallObjectView)
    requires
        is_inline_context(c),
        is_inline_object(o),
    ensures
        with_object(c, o) matches Ok(next) ==> is_inline_context(next),
{
    match o {
        FirewallObjectView::FilterRule(r) => {
            let at = filter_slot(c.filter_rules, r, 0);
            lemma_filter_slot(c.filter_rules, r, 0);
            let next = c.filter_rules.insert(at, r);
            assert forall|i: int| 0 <= i < next.len() implies all_inline(
                (#[trigger] next[i]).matches.source_macs,
            ) by {
                if i < at {
                    assert(next[i] == c.filter_rules[i]);
                } else if i > at {
                    assert(next[i] == c.filter_rules[i - 1]);
                }
            }
        },
        FirewallObjectView::NatRule(r) => {
            let at = nat_slot(c.nat_rules, r, 0);
            lemma_nat_slot(c.nat_rules, r, 0);
            let next = c.nat_rules.insert(at, r);
            assert forall|i: int| 0 <= i < next.len() implies all_inline(
                (#[trigger] next[i]).matches.source_macs,
            ) by {
                if i < at {
                    assert(next[i] == c.nat_rules[i]);
                } else if i > at {
                    assert(next[i] == c.nat_rules[i - 1]);
                }
            }
        },
        FirewallObjectView::AddressSet(s) => {
            lemma_set_name(s.id);
        },
        _ => {},
    }
}

proof fn lemma_context(c: RenderContextView, objects: Seq<FirewallObjectView>, i: int)
    requires
        is_inline_context(c),
        forall|j: int| 0 <= j < objects.len() ==> is_inline_object(#[trigger] objects[j]),
        0 <= i,
    ensures
        context_from(c, objects, i) matches Ok(next) ==> is_inline_context(next),
    decreases objects.len() - i,
{
    if i < objects.len() {
        assert(is_inline_object(objects[i]));
        lemma_with_object(c, objects[i]);
        if let Ok(next) = with_object(c, objects[i]) {
            lemma_context(next, objects, i + 1);
        }
    }
}

/// The rule set stays within the managed table: where the table exists its first line deletes it, one
/// line opens it, one line closes it, and every line between is indented. The hardware addresses of
/// the objects have to be free of line breaks; other names are quoted.
pub proof fn law_ruleset_stays_in_the_managed_table(
    objects: Seq<FirewallObjectView>,
    valid: Seq<bool>,
    changes: Seq<FirewallPlannedChangeView>,
    state: NftablesTableState,
)
    requires
        nftables_stage(objects, valid, changes, state) is Ok,
        forall|j: int|
            0 <= j < projected(objects, valid, changes)->Ok_0.len() ==> is_inline_object(
                #[trigger] projected(objects, valid, changes)->Ok_0[j],
            ),
    ensures
        exists|inside: Seq<char>|
            is_nested(inside) && nftables_stage(objects, valid, changes, state)->Ok_0.ruleset
                == #[trigger] table_text(state, inside),
{
    let owned = projected(objects, valid, changes)->Ok_0;
    lemma_context(empty_context(), owned, 0);
    let c = context_of(owned)->Ok_0;
    lemma_table_ruleset(true, c, state);
}

proof fn lemma_white_end(s: Seq<char>, i: int, e: int)
    requires
        0 <= i <= e < s.len(),
        forall|k: int| i <= k < e ==> is_white(#[trigger] s[k]),
        !is_white(s[e]),
    ensures
        white_end(s, i) == e,
    decreases e - i,
{
    if i < e {
        lemma_white_end(s, i + 1, e);
    }
}

proof fn lemma_mark_line()
    ensures
        trim("    comment \"mbed-agent-owned:v1\""@) == owner_mark(),
        chomp("    comment \"mbed-agent-owned:v1\""@) == "    comment \"mbed-agent-owned:v1\""@,
{
    reveal_strlit("    comment \"mbed-agent-owned:v1\"");
    reveal_strlit("comment \"mbed-agent-owned:v1\"");
    let s = "    comment \"mbed-agent-owned:v1\""@;
    assert(s[0] == ' ' && s[1] == ' ' && s[2] == ' ' && s[3] == ' ' && s[4] == 'c');
    assert(s.len() == 33);
    assert(s[32] == '"');
    lemma_white_end(s, 0, 4);
    assert(white_start(s, 4, 33) == 33);
    assert(s.subrange(4, 33) =~= owner_mark());
}

proof fn lemma_lines_tail(a: Seq<char>, line: Seq<char>, rest: Seq<char>)
    requires
        a.len() > 0,
        a.last() == '\n',
        lacks(line, '\n'),
    ensures
        ({
            let s = a + line + "\n"@ + rest;
            &&& lines_from(s, a.len() as int).len() > 0
            &&& lines_from(s, a.len() as int)[0] == chomp(line)
        }),
{
    reveal_strlit("\n");
    let s = a + line + "\n"@ + rest;
    let from = a.len() as int;
    let k = (a.len() + line.len()) as int;
    assert(s[k] == '\n');
    assert forall|j: int| from <= j < k implies s[j] != '\n' by {
        assert(s[j] == line[j - from]);
    }
    lemma_find_at(s, '\n', from, k);
    assert(s.subrange(from, k) =~= line);
}

proof fn lemma_lines_suffix(s: Seq<char>, from: int, to: int, x: Seq<char>)
    requires
        0 <= from <= to < s.len(),
        to == from || s[to - 1] == '\n',
        lines_from(s, to).contains(x),
    ensures
        lines_from(s, from).contains(x),
    decreases to - from,
{
    if from < to {
        lemma_find_from(s, '\n', from);
        let k = find_from(s, '\n', from);
        assert(from <= k < to) by {
            if k >= to {
                assert(s[to - 1] == '\n');
            }
        }
        lemma_lines_suffix(s, k + 1, to, x);
        let rest = lines_from(s, k + 1);
        let i = choose|i: int| 0 <= i < rest.len() && rest[i] == x;
        let all = lines_from(s, from);
        assert(all == seq![chomp(s.subrange(from, k))] + rest);
        assert(all[i + 1] == x);
    }
}

/// Who reads a rendered rule set as the listing of the table sees that the agent owns it, as far as the
/// listing is one that is read at all.
pub proof fn law_rendered_table_is_recognised(
    objects: Seq<FirewallObjectView>,
    valid: Seq<bool>,
    changes: Seq<FirewallPlannedChangeView>,
    state: NftablesTableState,
)
    requires
        nftables_stage(objects, valid, changes, state) is Ok,
        !is_malformed(nftables_stage(objects, valid, changes, state)->Ok_0.ruleset),
    ensures
        table_state(Some(nftables_stage(objects, valid, changes, state)->Ok_0.ruleset)) == Ok::<
            NftablesTableState,
            NftablesRenderErrorView,
        >(NftablesTableState::AgentOwned),
{
    let s = nftables_stage(objects, valid, changes, state)->Ok_0.ruleset;
    lemma_table_ruleset(false, context_of(projected(objects, valid, changes)->Ok_0)->Ok_0, state);
    let inside = choose|inside: Seq<char>| s == #[trigger] table_text(state, inside);
    let deleted = if state == NftablesTableState::AgentOwned {
        "delete table inet mbed_agent\n"@
    } else {
        Seq::empty()
    };
    let opening = "table inet mbed_agent {\n"@;
    let mark = "    comment \"mbed-agent-owned:v1\""@;
    let rest = inside + "}\n"@;
    reveal_strlit("table inet mbed_agent {\n");
    reveal_strlit("    comment \"mbed-agent-owned:v1\"");
    reveal_strlit("\n");
    reveal_strlit("table inet mbed_agent {\n    comment \"mbed-agent-owned:v1\"\n");
    assert("table inet mbed_agent {\n    comment \"mbed-agent-owned:v1\"\n"@ =~= opening + mark
        + "\n"@);
    let a = deleted + opening;
    assert(s =~= a + mark + "\n"@ + rest);
    assert(a.last() == opening.last());
    assert(opening.last() == '\n');
    lemma_mark_inline();
    lemma_lines_tail(a, mark, rest);
    lemma_mark_line();
    let tail = lines_from(s, a.len() as int);
    assert(tail.contains(mark)) by {
        assert(tail[0] == mark);
    }
    assert(s[a.len() - 1] == a.last());
    lemma_lines_suffix(s, 0, a.len() as int, mark);
    let i = choose|i: int| 0 <= i < lines(s).len() && lines(s)[i] == mark;
    assert(trim(lines(s)[i]) == owner_mark());
    assert(has_owner_mark(s));
}

proof fn lemma_mark_inline()
    ensures
        lacks("    comment \"mbed-agent-owned:v1\""@, '\n'),
{
    reveal_strlit("    comment \"mbed-agent-owned:v1\"");
    let s = "    comment \"mbed-agent-owned:v1\""@;
    assert forall|i: int| 0 <= i < s.len() implies #[trigger] s[i] != '\n' by {
        assert(i == 0 || i == 1 || i == 2 || i == 3 || i == 4 || i == 5 || i == 6 || i == 7
                || i == 8 || i == 9 || i == 10 || i == 11 || i == 12 || i == 13 || i == 14 || i == 15
                || i == 16 || i == 17 || i == 18 || i == 19 || i == 20 || i == 21 || i == 22 || i == 23
                || i == 24 || i == 25 || i == 26 || i == 27 || i == 28 || i == 29 || i == 30 || i == 31
                || i == 32);
    }
}

} // verus!
