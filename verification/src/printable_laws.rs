//! What is written into the managed table can be listed and is recognised.

use vstd::prelude::*;

use crate::firewall::{byte_texts, network_texts, port_text, port_texts};
use crate::firewall_iptables::is_double_quotable;
use crate::firewall_model::{
    FirewallAddressSetView, FirewallDirection, FirewallFilterRuleView, FirewallMatchView, FirewallNatRuleView,
    FirewallObjectView, FirewallPlannedChangeView, FirewallSetEntryView, FirewallZoneView, PortRange,
};
use crate::firewall_nft::{
    action_part, atom_set, chain_head, comment_part, context_from, context_of, direction_name, empty_context,
    endpoint, entry_texts, family_parts, filter_chain_text, filter_rule_text, filter_rules_text, fnv_from,
    forward_all, forward_line, forward_to, forwardings_text, icmp_part, indented, is_malformed, is_prerouting,
    level_name, limit_part, log_part, masquerades_text, match_parts, nat_chains_text, nat_rule_text,
    nat_rules_text, networks_part, nftables_stage, padded, placed_parts, policies_text, policy_verdict,
    protocol_texts, quoted_value, rule_text, ruleset_text, set_block, set_expression, set_from, set_name,
    set_parts, sets_text, state_name, state_texts, string_set, table_head, table_state, then_part,
    translation, type_lines, unsupported, valued_parts, verdict_name, verdict_text, with_object, zone_line,
    zone_lines, MAX_INSPECTION_BYTES, NftSetType, NftSetView, NftablesRenderErrorView, NftablesTableState,
    RenderContextView,
};
use crate::firewall_project::projected;
use crate::firewall_zones::{filter_slot, interfaces_of, nat_slot, zone_from};
use crate::isolation_laws::{lemma_filter_slot, lemma_nat_slot};
use crate::net::{
    address_format, groups_text, ipv4_format, longest_run, network_format, unpack, IpAddr, IpNetwork,
};
use crate::parse::map_all;
use crate::table_laws::{law_rendered_table_is_recognised, lemma_table_ruleset, table_text};
use crate::text::{
    byte_len, decimal, hex, is_ascii_control, is_digit, is_hex, joined, joined_from, starts, text_at,
};
use crate::number_laws::{lemma_decimal, lemma_hex};
use vstd::utf8::*;

verus! {

/// Whether a character may stand in a listing that is inspected.
pub open spec fn is_shown(c: char) -> bool {
    !is_ascii_control(c) || c == '\n' || c == '\t'
}

/// Whether a text holds no control characters but line breaks and tabs.
#[verifier::opaque]
pub open spec fn is_plain(s: Seq<char>) -> bool {
    forall|i: int| 0 <= i < s.len() ==> is_shown(#[trigger] s[i])
}

/// Whether texts hold no control characters but line breaks and tabs.
pub open spec fn all_plain(s: Seq<Seq<char>>) -> bool {
    forall|i: int| 0 <= i < s.len() ==> is_plain(#[trigger] s[i])
}

pub broadcast proof fn lemma_plain_add(a: Seq<char>, b: Seq<char>)
    requires
        is_plain(a),
        is_plain(b),
    ensures
        is_plain(#[trigger] (a + b)),
{
    reveal(is_plain);
    let t = a + b;
    assert forall|i: int| 0 <= i < t.len() implies is_shown(#[trigger] t[i]) by {
        if i < a.len() {
            assert(t[i] == a[i]);
        } else {
            assert(t[i] == b[i - a.len()]);
        }
    }
}

proof fn lemma_words_a()
    ensures
        is_plain("s_"@),
        is_plain("    set "@),
        is_plain("        elements = { "@),
        is_plain(", "@),
        is_plain(" "@),
        is_plain("ip "@),
        is_plain("ip6 "@),
        is_plain("saddr"@),
        is_plain("daddr"@),
        is_plain("icmp type"@),
        is_plain("icmpv6 type"@),
        is_plain("new"@),
        is_plain("established"@),
        is_plain("related"@),
        is_plain("invalid"@),
        is_plain("tcp"@),
        is_plain("udp"@),
        is_plain("icmp"@),
{
    reveal(is_plain);
    assert(is_plain("s_"@)) by {
        reveal_strlit("s_");
        let s = "s_"@;
        assert forall|i: int| 0 <= i < s.len() implies is_shown(#[trigger] s[i]) by {
            assert(i == 0 || i == 1);
        }
    }
    assert(is_plain("    set "@)) by {
        reveal_strlit("    set ");
        let s = "    set "@;
        assert forall|i: int| 0 <= i < s.len() implies is_shown(#[trigger] s[i]) by {
            assert(i == 0 || i == 1 || i == 2 || i == 3 || i == 4 || i == 5 || i == 6 || i == 7);
        }
    }
    assert(is_plain("        elements = { "@)) by {
        reveal_strlit("        elements = { ");
        let s = "        elements = { "@;
        assert forall|i: int| 0 <= i < s.len() implies is_shown(#[trigger] s[i]) by {
            assert(i == 0 || i == 1 || i == 2 || i == 3 || i == 4 || i == 5 || i == 6 || i == 7
                || i == 8 || i == 9 || i == 10 || i == 11 || i == 12 || i == 13 || i == 14 || i == 15
                || i == 16 || i == 17 || i == 18 || i == 19 || i == 20);
        }
    }
    assert(is_plain(", "@)) by {
        reveal_strlit(", ");
        let s = ", "@;
        assert forall|i: int| 0 <= i < s.len() implies is_shown(#[trigger] s[i]) by {
            assert(i == 0 || i == 1);
        }
    }
    assert(is_plain(" "@)) by {
        reveal_strlit(" ");
        let s = " "@;
        assert forall|i: int| 0 <= i < s.len() implies is_shown(#[trigger] s[i]) by {
            assert(i == 0);
        }
    }
    assert(is_plain("ip "@)) by {
        reveal_strlit("ip ");
        let s = "ip "@;
        assert forall|i: int| 0 <= i < s.len() implies is_shown(#[trigger] s[i]) by {
            assert(i == 0 || i == 1 || i == 2);
        }
    }
    assert(is_plain("ip6 "@)) by {
        reveal_strlit("ip6 ");
        let s = "ip6 "@;
        assert forall|i: int| 0 <= i < s.len() implies is_shown(#[trigger] s[i]) by {
            assert(i == 0 || i == 1 || i == 2 || i == 3);
        }
    }
    assert(is_plain("saddr"@)) by {
        reveal_strlit("saddr");
        let s = "saddr"@;
        assert forall|i: int| 0 <= i < s.len() implies is_shown(#[trigger] s[i]) by {
            assert(i == 0 || i == 1 || i == 2 || i == 3 || i == 4);
        }
    }
    assert(is_plain("daddr"@)) by {
        reveal_strlit("daddr");
        let s = "daddr"@;
        assert forall|i: int| 0 <= i < s.len() implies is_shown(#[trigger] s[i]) by {
            assert(i == 0 || i == 1 || i == 2 || i == 3 || i == 4);
        }
    }
    assert(is_plain("icmp type"@)) by {
        reveal_strlit("icmp type");
        let s = "icmp type"@;
        assert forall|i: int| 0 <= i < s.len() implies is_shown(#[trigger] s[i]) by {
            assert(i == 0 || i == 1 || i == 2 || i == 3 || i == 4 || i == 5 || i == 6 || i == 7
                || i == 8);
        }
    }
    assert(is_plain("icmpv6 type"@)) by {
        reveal_strlit("icmpv6 type");
        let s = "icmpv6 type"@;
        assert forall|i: int| 0 <= i < s.len() implies is_shown(#[trigger] s[i]) by {
            assert(i == 0 || i == 1 || i == 2 || i == 3 || i == 4 || i == 5 || i == 6 || i == 7
                || i == 8 || i == 9 || i == 10);
        }
    }
    assert(is_plain("new"@)) by {
        reveal_strlit("new");
        let s = "new"@;
        assert forall|i: int| 0 <= i < s.len() implies is_shown(#[trigger] s[i]) by {
            assert(i == 0 || i == 1 || i == 2);
        }
    }
    assert(is_plain("established"@)) by {
        reveal_strlit("established");
        let s = "established"@;
        assert forall|i: int| 0 <= i < s.len() implies is_shown(#[trigger] s[i]) by {
            assert(i == 0 || i == 1 || i == 2 || i == 3 || i == 4 || i == 5 || i == 6 || i == 7
                || i == 8 || i == 9 || i == 10);
        }
    }
    assert(is_plain("related"@)) by {
        reveal_strlit("related");
        let s = "related"@;
        assert forall|i: int| 0 <= i < s.len() implies is_shown(#[trigger] s[i]) by {
            assert(i == 0 || i == 1 || i == 2 || i == 3 || i == 4 || i == 5 || i == 6);
        }
    }
    assert(is_plain("invalid"@)) by {
        reveal_strlit("invalid");
        let s = "invalid"@;
        assert forall|i: int| 0 <= i < s.len() implies is_shown(#[trigger] s[i]) by {
            assert(i == 0 || i == 1 || i == 2 || i == 3 || i == 4 || i == 5 || i == 6);
        }
    }
    assert(is_plain("tcp"@)) by {
        reveal_strlit("tcp");
        let s = "tcp"@;
        assert forall|i: int| 0 <= i < s.len() implies is_shown(#[trigger] s[i]) by {
            assert(i == 0 || i == 1 || i == 2);
        }
    }
    assert(is_plain("udp"@)) by {
        reveal_strlit("udp");
        let s = "udp"@;
        assert forall|i: int| 0 <= i < s.len() implies is_shown(#[trigger] s[i]) by {
            assert(i == 0 || i == 1 || i == 2);
        }
    }
    assert(is_plain("icmp"@)) by {
        reveal_strlit("icmp");
        let s = "icmp"@;
        assert forall|i: int| 0 <= i < s.len() implies is_shown(#[trigger] s[i]) by {
            assert(i == 0 || i == 1 || i == 2 || i == 3);
        }
    }
}

proof fn lemma_words_b()
    ensures
        is_plain("icmpv6"@),
        is_plain("ipv6-icmp"@),
        is_plain("esp"@),
        is_plain("ah"@),
        is_plain("gre"@),
        is_plain("ip saddr"@),
        is_plain("ip daddr"@),
        is_plain("ip6 saddr"@),
        is_plain("ip6 daddr"@),
        is_plain("ether saddr"@),
        is_plain("ether daddr"@),
        is_plain("th sport"@),
        is_plain("th dport"@),
        is_plain(" @"@),
        is_plain("meta nfproto ipv4"@),
        is_plain("meta nfproto ipv6"@),
        is_plain("oifname"@),
        is_plain("iifname"@),
{
    reveal(is_plain);
    assert(is_plain("icmpv6"@)) by {
        reveal_strlit("icmpv6");
        let s = "icmpv6"@;
        assert forall|i: int| 0 <= i < s.len() implies is_shown(#[trigger] s[i]) by {
            assert(i == 0 || i == 1 || i == 2 || i == 3 || i == 4 || i == 5);
        }
    }
    assert(is_plain("ipv6-icmp"@)) by {
        reveal_strlit("ipv6-icmp");
        let s = "ipv6-icmp"@;
        assert forall|i: int| 0 <= i < s.len() implies is_shown(#[trigger] s[i]) by {
            assert(i == 0 || i == 1 || i == 2 || i == 3 || i == 4 || i == 5 || i == 6 || i == 7
                || i == 8);
        }
    }
    assert(is_plain("esp"@)) by {
        reveal_strlit("esp");
        let s = "esp"@;
        assert forall|i: int| 0 <= i < s.len() implies is_shown(#[trigger] s[i]) by {
            assert(i == 0 || i == 1 || i == 2);
        }
    }
    assert(is_plain("ah"@)) by {
        reveal_strlit("ah");
        let s = "ah"@;
        assert forall|i: int| 0 <= i < s.len() implies is_shown(#[trigger] s[i]) by {
            assert(i == 0 || i == 1);
        }
    }
    assert(is_plain("gre"@)) by {
        reveal_strlit("gre");
        let s = "gre"@;
        assert forall|i: int| 0 <= i < s.len() implies is_shown(#[trigger] s[i]) by {
            assert(i == 0 || i == 1 || i == 2);
        }
    }
    assert(is_plain("ip saddr"@)) by {
        reveal_strlit("ip saddr");
        let s = "ip saddr"@;
        assert forall|i: int| 0 <= i < s.len() implies is_shown(#[trigger] s[i]) by {
            assert(i == 0 || i == 1 || i == 2 || i == 3 || i == 4 || i == 5 || i == 6 || i == 7);
        }
    }
    assert(is_plain("ip daddr"@)) by {
        reveal_strlit("ip daddr");
        let s = "ip daddr"@;
        assert forall|i: int| 0 <= i < s.len() implies is_shown(#[trigger] s[i]) by {
            assert(i == 0 || i == 1 || i == 2 || i == 3 || i == 4 || i == 5 || i == 6 || i == 7);
        }
    }
    assert(is_plain("ip6 saddr"@)) by {
        reveal_strlit("ip6 saddr");
        let s = "ip6 saddr"@;
        assert forall|i: int| 0 <= i < s.len() implies is_shown(#[trigger] s[i]) by {
            assert(i == 0 || i == 1 || i == 2 || i == 3 || i == 4 || i == 5 || i == 6 || i == 7
                || i == 8);
        }
    }
    assert(is_plain("ip6 daddr"@)) by {
        reveal_strlit("ip6 daddr");
        let s = "ip6 daddr"@;
        assert forall|i: int| 0 <= i < s.len() implies is_shown(#[trigger] s[i]) by {
            assert(i == 0 || i == 1 || i == 2 || i == 3 || i == 4 || i == 5 || i == 6 || i == 7
                || i == 8);
        }
    }
    assert(is_plain("ether saddr"@)) by {
        reveal_strlit("ether saddr");
        let s = "ether saddr"@;
        assert forall|i: int| 0 <= i < s.len() implies is_shown(#[trigger] s[i]) by {
            assert(i == 0 || i == 1 || i == 2 || i == 3 || i == 4 || i == 5 || i == 6 || i == 7
                || i == 8 || i == 9 || i == 10);
        }
    }
    assert(is_plain("ether daddr"@)) by {
        reveal_strlit("ether daddr");
        let s = "ether daddr"@;
        assert forall|i: int| 0 <= i < s.len() implies is_shown(#[trigger] s[i]) by {
            assert(i == 0 || i == 1 || i == 2 || i == 3 || i == 4 || i == 5 || i == 6 || i == 7
                || i == 8 || i == 9 || i == 10);
        }
    }
    assert(is_plain("th sport"@)) by {
        reveal_strlit("th sport");
        let s = "th sport"@;
        assert forall|i: int| 0 <= i < s.len() implies is_shown(#[trigger] s[i]) by {
            assert(i == 0 || i == 1 || i == 2 || i == 3 || i == 4 || i == 5 || i == 6 || i == 7);
        }
    }
    assert(is_plain("th dport"@)) by {
        reveal_strlit("th dport");
        let s = "th dport"@;
        assert forall|i: int| 0 <= i < s.len() implies is_shown(#[trigger] s[i]) by {
            assert(i == 0 || i == 1 || i == 2 || i == 3 || i == 4 || i == 5 || i == 6 || i == 7);
        }
    }
    assert(is_plain(" @"@)) by {
        reveal_strlit(" @");
        let s = " @"@;
        assert forall|i: int| 0 <= i < s.len() implies is_shown(#[trigger] s[i]) by {
            assert(i == 0 || i == 1);
        }
    }
    assert(is_plain("meta nfproto ipv4"@)) by {
        reveal_strlit("meta nfproto ipv4");
        let s = "meta nfproto ipv4"@;
        assert forall|i: int| 0 <= i < s.len() implies is_shown(#[trigger] s[i]) by {
            assert(i == 0 || i == 1 || i == 2 || i == 3 || i == 4 || i == 5 || i == 6 || i == 7
                || i == 8 || i == 9 || i == 10 || i == 11 || i == 12 || i == 13 || i == 14 || i == 15
                || i == 16);
        }
    }
    assert(is_plain("meta nfproto ipv6"@)) by {
        reveal_strlit("meta nfproto ipv6");
        let s = "meta nfproto ipv6"@;
        assert forall|i: int| 0 <= i < s.len() implies is_shown(#[trigger] s[i]) by {
            assert(i == 0 || i == 1 || i == 2 || i == 3 || i == 4 || i == 5 || i == 6 || i == 7
                || i == 8 || i == 9 || i == 10 || i == 11 || i == 12 || i == 13 || i == 14 || i == 15
                || i == 16);
        }
    }
    assert(is_plain("oifname"@)) by {
        reveal_strlit("oifname");
        let s = "oifname"@;
        assert forall|i: int| 0 <= i < s.len() implies is_shown(#[trigger] s[i]) by {
            assert(i == 0 || i == 1 || i == 2 || i == 3 || i == 4 || i == 5 || i == 6);
        }
    }
    assert(is_plain("iifname"@)) by {
        reveal_strlit("iifname");
        let s = "iifname"@;
        assert forall|i: int| 0 <= i < s.len() implies is_shown(#[trigger] s[i]) by {
            assert(i == 0 || i == 1 || i == 2 || i == 3 || i == 4 || i == 5 || i == 6);
        }
    }
}

proof fn lemma_words_c()
    ensures
        is_plain("meta l4proto"@),
        is_plain("ct state"@),
        is_plain("emerg"@),
        is_plain("alert"@),
        is_plain("crit"@),
        is_plain("err"@),
        is_plain("warn"@),
        is_plain("notice"@),
        is_plain("info"@),
        is_plain("debug"@),
        is_plain("accept"@),
        is_plain("drop"@),
        is_plain("reject"@),
        is_plain("reject with tcp reset"@),
        is_plain("reject with icmp type port-unreachable"@),
        is_plain("reject with icmp type host-unreachable"@),
        is_plain("reject with icmpv6 type port-unreachable"@),
        is_plain("limit rate "@),
{
    reveal(is_plain);
    assert(is_plain("meta l4proto"@)) by {
        reveal_strlit("meta l4proto");
        let s = "meta l4proto"@;
        assert forall|i: int| 0 <= i < s.len() implies is_shown(#[trigger] s[i]) by {
            assert(i == 0 || i == 1 || i == 2 || i == 3 || i == 4 || i == 5 || i == 6 || i == 7
                || i == 8 || i == 9 || i == 10 || i == 11);
        }
    }
    assert(is_plain("ct state"@)) by {
        reveal_strlit("ct state");
        let s = "ct state"@;
        assert forall|i: int| 0 <= i < s.len() implies is_shown(#[trigger] s[i]) by {
            assert(i == 0 || i == 1 || i == 2 || i == 3 || i == 4 || i == 5 || i == 6 || i == 7);
        }
    }
    assert(is_plain("emerg"@)) by {
        reveal_strlit("emerg");
        let s = "emerg"@;
        assert forall|i: int| 0 <= i < s.len() implies is_shown(#[trigger] s[i]) by {
            assert(i == 0 || i == 1 || i == 2 || i == 3 || i == 4);
        }
    }
    assert(is_plain("alert"@)) by {
        reveal_strlit("alert");
        let s = "alert"@;
        assert forall|i: int| 0 <= i < s.len() implies is_shown(#[trigger] s[i]) by {
            assert(i == 0 || i == 1 || i == 2 || i == 3 || i == 4);
        }
    }
    assert(is_plain("crit"@)) by {
        reveal_strlit("crit");
        let s = "crit"@;
        assert forall|i: int| 0 <= i < s.len() implies is_shown(#[trigger] s[i]) by {
            assert(i == 0 || i == 1 || i == 2 || i == 3);
        }
    }
    assert(is_plain("err"@)) by {
        reveal_strlit("err");
        let s = "err"@;
        assert forall|i: int| 0 <= i < s.len() implies is_shown(#[trigger] s[i]) by {
            assert(i == 0 || i == 1 || i == 2);
        }
    }
    assert(is_plain("warn"@)) by {
        reveal_strlit("warn");
        let s = "warn"@;
        assert forall|i: int| 0 <= i < s.len() implies is_shown(#[trigger] s[i]) by {
            assert(i == 0 || i == 1 || i == 2 || i == 3);
        }
    }
    assert(is_plain("notice"@)) by {
        reveal_strlit("notice");
        let s = "notice"@;
        assert forall|i: int| 0 <= i < s.len() implies is_shown(#[trigger] s[i]) by {
            assert(i == 0 || i == 1 || i == 2 || i == 3 || i == 4 || i == 5);
        }
    }
    assert(is_plain("info"@)) by {
        reveal_strlit("info");
        let s = "info"@;
        assert forall|i: int| 0 <= i < s.len() implies is_shown(#[trigger] s[i]) by {
            assert(i == 0 || i == 1 || i == 2 || i == 3);
        }
    }
    assert(is_plain("debug"@)) by {
        reveal_strlit("debug");
        let s = "debug"@;
        assert forall|i: int| 0 <= i < s.len() implies is_shown(#[trigger] s[i]) by {
            assert(i == 0 || i == 1 || i == 2 || i == 3 || i == 4);
        }
    }
    assert(is_plain("accept"@)) by {
        reveal_strlit("accept");
        let s = "accept"@;
        assert forall|i: int| 0 <= i < s.len() implies is_shown(#[trigger] s[i]) by {
            assert(i == 0 || i == 1 || i == 2 || i == 3 || i == 4 || i == 5);
        }
    }
    assert(is_plain("drop"@)) by {
        reveal_strlit("drop");
        let s = "drop"@;
        assert forall|i: int| 0 <= i < s.len() implies is_shown(#[trigger] s[i]) by {
            assert(i == 0 || i == 1 || i == 2 || i == 3);
        }
    }
    assert(is_plain("reject"@)) by {
        reveal_strlit("reject");
        let s = "reject"@;
        assert forall|i: int| 0 <= i < s.len() implies is_shown(#[trigger] s[i]) by {
            assert(i == 0 || i == 1 || i == 2 || i == 3 || i == 4 || i == 5);
        }
    }
    assert(is_plain("reject with tcp reset"@)) by {
        reveal_strlit("reject with tcp reset");
        let s = "reject with tcp reset"@;
        assert forall|i: int| 0 <= i < s.len() implies is_shown(#[trigger] s[i]) by {
            assert(i == 0 || i == 1 || i == 2 || i == 3 || i == 4 || i == 5 || i == 6 || i == 7
                || i == 8 || i == 9 || i == 10 || i == 11 || i == 12 || i == 13 || i == 14 || i == 15
                || i == 16 || i == 17 || i == 18 || i == 19 || i == 20);
        }
    }
    assert(is_plain("reject with icmp type port-unreachable"@)) by {
        reveal_strlit("reject with icmp type port-unreachable");
        let s = "reject with icmp type port-unreachable"@;
        assert forall|i: int| 0 <= i < s.len() implies is_shown(#[trigger] s[i]) by {
            assert(i == 0 || i == 1 || i == 2 || i == 3 || i == 4 || i == 5 || i == 6 || i == 7
                || i == 8 || i == 9 || i == 10 || i == 11 || i == 12 || i == 13 || i == 14 || i == 15
                || i == 16 || i == 17 || i == 18 || i == 19 || i == 20 || i == 21 || i == 22 || i == 23
                || i == 24 || i == 25 || i == 26 || i == 27 || i == 28 || i == 29 || i == 30 || i == 31
                || i == 32 || i == 33 || i == 34 || i == 35 || i == 36 || i == 37);
        }
    }
    assert(is_plain("reject with icmp type host-unreachable"@)) by {
        reveal_strlit("reject with icmp type host-unreachable");
        let s = "reject with icmp type host-unreachable"@;
        assert forall|i: int| 0 <= i < s.len() implies is_shown(#[trigger] s[i]) by {
            assert(i == 0 || i == 1 || i == 2 || i == 3 || i == 4 || i == 5 || i == 6 || i == 7
                || i == 8 || i == 9 || i == 10 || i == 11 || i == 12 || i == 13 || i == 14 || i == 15
                || i == 16 || i == 17 || i == 18 || i == 19 || i == 20 || i == 21 || i == 22 || i == 23
                || i == 24 || i == 25 || i == 26 || i == 27 || i == 28 || i == 29 || i == 30 || i == 31
                || i == 32 || i == 33 || i == 34 || i == 35 || i == 36 || i == 37);
        }
    }
    assert(is_plain("reject with icmpv6 type port-unreachable"@)) by {
        reveal_strlit("reject with icmpv6 type port-unreachable");
        let s = "reject with icmpv6 type port-unreachable"@;
        assert forall|i: int| 0 <= i < s.len() implies is_shown(#[trigger] s[i]) by {
            assert(i == 0 || i == 1 || i == 2 || i == 3 || i == 4 || i == 5 || i == 6 || i == 7
                || i == 8 || i == 9 || i == 10 || i == 11 || i == 12 || i == 13 || i == 14 || i == 15
                || i == 16 || i == 17 || i == 18 || i == 19 || i == 20 || i == 21 || i == 22 || i == 23
                || i == 24 || i == 25 || i == 26 || i == 27 || i == 28 || i == 29 || i == 30 || i == 31
                || i == 32 || i == 33 || i == 34 || i == 35 || i == 36 || i == 37 || i == 38 || i == 39);
        }
    }
    assert(is_plain("limit rate "@)) by {
        reveal_strlit("limit rate ");
        let s = "limit rate "@;
        assert forall|i: int| 0 <= i < s.len() implies is_shown(#[trigger] s[i]) by {
            assert(i == 0 || i == 1 || i == 2 || i == 3 || i == 4 || i == 5 || i == 6 || i == 7
                || i == 8 || i == 9 || i == 10);
        }
    }
}

proof fn lemma_words_d()
    ensures
        is_plain("/second burst "@),
        is_plain(" packets"@),
        is_plain("log prefix "@),
        is_plain(" level "@),
        is_plain("comment "@),
        is_plain("masquerade"@),
        is_plain("redirect to :"@),
        is_plain("dnat"@),
        is_plain("snat"@),
        is_plain(" ip to "@),
        is_plain(" ip6 to "@),
        is_plain(":"@),
        is_plain("["@),
        is_plain("]:"@),
        is_plain("        "@),
        is_plain("        iifname "@),
        is_plain(" oifname "@),
        is_plain(" accept comment "@),
{
    reveal(is_plain);
    assert(is_plain("/second burst "@)) by {
        reveal_strlit("/second burst ");
        let s = "/second burst "@;
        assert forall|i: int| 0 <= i < s.len() implies is_shown(#[trigger] s[i]) by {
            assert(i == 0 || i == 1 || i == 2 || i == 3 || i == 4 || i == 5 || i == 6 || i == 7
                || i == 8 || i == 9 || i == 10 || i == 11 || i == 12 || i == 13);
        }
    }
    assert(is_plain(" packets"@)) by {
        reveal_strlit(" packets");
        let s = " packets"@;
        assert forall|i: int| 0 <= i < s.len() implies is_shown(#[trigger] s[i]) by {
            assert(i == 0 || i == 1 || i == 2 || i == 3 || i == 4 || i == 5 || i == 6 || i == 7);
        }
    }
    assert(is_plain("log prefix "@)) by {
        reveal_strlit("log prefix ");
        let s = "log prefix "@;
        assert forall|i: int| 0 <= i < s.len() implies is_shown(#[trigger] s[i]) by {
            assert(i == 0 || i == 1 || i == 2 || i == 3 || i == 4 || i == 5 || i == 6 || i == 7
                || i == 8 || i == 9 || i == 10);
        }
    }
    assert(is_plain(" level "@)) by {
        reveal_strlit(" level ");
        let s = " level "@;
        assert forall|i: int| 0 <= i < s.len() implies is_shown(#[trigger] s[i]) by {
            assert(i == 0 || i == 1 || i == 2 || i == 3 || i == 4 || i == 5 || i == 6);
        }
    }
    assert(is_plain("comment "@)) by {
        reveal_strlit("comment ");
        let s = "comment "@;
        assert forall|i: int| 0 <= i < s.len() implies is_shown(#[trigger] s[i]) by {
            assert(i == 0 || i == 1 || i == 2 || i == 3 || i == 4 || i == 5 || i == 6 || i == 7);
        }
    }
    assert(is_plain("masquerade"@)) by {
        reveal_strlit("masquerade");
        let s = "masquerade"@;
        assert forall|i: int| 0 <= i < s.len() implies is_shown(#[trigger] s[i]) by {
            assert(i == 0 || i == 1 || i == 2 || i == 3 || i == 4 || i == 5 || i == 6 || i == 7
                || i == 8 || i == 9);
        }
    }
    assert(is_plain("redirect to :"@)) by {
        reveal_strlit("redirect to :");
        let s = "redirect to :"@;
        assert forall|i: int| 0 <= i < s.len() implies is_shown(#[trigger] s[i]) by {
            assert(i == 0 || i == 1 || i == 2 || i == 3 || i == 4 || i == 5 || i == 6 || i == 7
                || i == 8 || i == 9 || i == 10 || i == 11 || i == 12);
        }
    }
    assert(is_plain("dnat"@)) by {
        reveal_strlit("dnat");
        let s = "dnat"@;
        assert forall|i: int| 0 <= i < s.len() implies is_shown(#[trigger] s[i]) by {
            assert(i == 0 || i == 1 || i == 2 || i == 3);
        }
    }
    assert(is_plain("snat"@)) by {
        reveal_strlit("snat");
        let s = "snat"@;
        assert forall|i: int| 0 <= i < s.len() implies is_shown(#[trigger] s[i]) by {
            assert(i == 0 || i == 1 || i == 2 || i == 3);
        }
    }
    assert(is_plain(" ip to "@)) by {
        reveal_strlit(" ip to ");
        let s = " ip to "@;
        assert forall|i: int| 0 <= i < s.len() implies is_shown(#[trigger] s[i]) by {
            assert(i == 0 || i == 1 || i == 2 || i == 3 || i == 4 || i == 5 || i == 6);
        }
    }
    assert(is_plain(" ip6 to "@)) by {
        reveal_strlit(" ip6 to ");
        let s = " ip6 to "@;
        assert forall|i: int| 0 <= i < s.len() implies is_shown(#[trigger] s[i]) by {
            assert(i == 0 || i == 1 || i == 2 || i == 3 || i == 4 || i == 5 || i == 6 || i == 7);
        }
    }
    assert(is_plain(":"@)) by {
        reveal_strlit(":");
        let s = ":"@;
        assert forall|i: int| 0 <= i < s.len() implies is_shown(#[trigger] s[i]) by {
            assert(i == 0);
        }
    }
    assert(is_plain("["@)) by {
        reveal_strlit("[");
        let s = "["@;
        assert forall|i: int| 0 <= i < s.len() implies is_shown(#[trigger] s[i]) by {
            assert(i == 0);
        }
    }
    assert(is_plain("]:"@)) by {
        reveal_strlit("]:");
        let s = "]:"@;
        assert forall|i: int| 0 <= i < s.len() implies is_shown(#[trigger] s[i]) by {
            assert(i == 0 || i == 1);
        }
    }
    assert(is_plain("        "@)) by {
        reveal_strlit("        ");
        let s = "        "@;
        assert forall|i: int| 0 <= i < s.len() implies is_shown(#[trigger] s[i]) by {
            assert(i == 0 || i == 1 || i == 2 || i == 3 || i == 4 || i == 5 || i == 6 || i == 7);
        }
    }
    assert(is_plain("        iifname "@)) by {
        reveal_strlit("        iifname ");
        let s = "        iifname "@;
        assert forall|i: int| 0 <= i < s.len() implies is_shown(#[trigger] s[i]) by {
            assert(i == 0 || i == 1 || i == 2 || i == 3 || i == 4 || i == 5 || i == 6 || i == 7
                || i == 8 || i == 9 || i == 10 || i == 11 || i == 12 || i == 13 || i == 14 || i == 15);
        }
    }
    assert(is_plain(" oifname "@)) by {
        reveal_strlit(" oifname ");
        let s = " oifname "@;
        assert forall|i: int| 0 <= i < s.len() implies is_shown(#[trigger] s[i]) by {
            assert(i == 0 || i == 1 || i == 2 || i == 3 || i == 4 || i == 5 || i == 6 || i == 7
                || i == 8);
        }
    }
    assert(is_plain(" accept comment "@)) by {
        reveal_strlit(" accept comment ");
        let s = " accept comment "@;
        assert forall|i: int| 0 <= i < s.len() implies is_shown(#[trigger] s[i]) by {
            assert(i == 0 || i == 1 || i == 2 || i == 3 || i == 4 || i == 5 || i == 6 || i == 7
                || i == 8 || i == 9 || i == 10 || i == 11 || i == 12 || i == 13 || i == 14 || i == 15);
        }
    }
}

proof fn lemma_words_e()
    ensures
        is_plain(" comment "@),
        is_plain("input"@),
        is_plain("output"@),
        is_plain("forward"@),
        is_plain("    chain "@),
        is_plain("        type filter hook "@),
        is_plain("\""@),
        is_plain(" { "@),
        is_plain(" }"@),
        is_plain("-"@),
        is_plain("zone:"@),
        is_plain("zone-masq:"@),
        is_plain("\n"@),
        is_plain(" {\n"@),
        is_plain(" }\n"@),
        is_plain("    }\n"@),
        is_plain("        type ipv4_addr\n"@),
        is_plain("        type ipv6_addr\n"@),
{
    reveal(is_plain);
    assert(is_plain(" comment "@)) by {
        reveal_strlit(" comment ");
        let s = " comment "@;
        assert forall|i: int| 0 <= i < s.len() implies is_shown(#[trigger] s[i]) by {
            assert(i == 0 || i == 1 || i == 2 || i == 3 || i == 4 || i == 5 || i == 6 || i == 7
                || i == 8);
        }
    }
    assert(is_plain("input"@)) by {
        reveal_strlit("input");
        let s = "input"@;
        assert forall|i: int| 0 <= i < s.len() implies is_shown(#[trigger] s[i]) by {
            assert(i == 0 || i == 1 || i == 2 || i == 3 || i == 4);
        }
    }
    assert(is_plain("output"@)) by {
        reveal_strlit("output");
        let s = "output"@;
        assert forall|i: int| 0 <= i < s.len() implies is_shown(#[trigger] s[i]) by {
            assert(i == 0 || i == 1 || i == 2 || i == 3 || i == 4 || i == 5);
        }
    }
    assert(is_plain("forward"@)) by {
        reveal_strlit("forward");
        let s = "forward"@;
        assert forall|i: int| 0 <= i < s.len() implies is_shown(#[trigger] s[i]) by {
            assert(i == 0 || i == 1 || i == 2 || i == 3 || i == 4 || i == 5 || i == 6);
        }
    }
    assert(is_plain("    chain "@)) by {
        reveal_strlit("    chain ");
        let s = "    chain "@;
        assert forall|i: int| 0 <= i < s.len() implies is_shown(#[trigger] s[i]) by {
            assert(i == 0 || i == 1 || i == 2 || i == 3 || i == 4 || i == 5 || i == 6 || i == 7
                || i == 8 || i == 9);
        }
    }
    assert(is_plain("        type filter hook "@)) by {
        reveal_strlit("        type filter hook ");
        let s = "        type filter hook "@;
        assert forall|i: int| 0 <= i < s.len() implies is_shown(#[trigger] s[i]) by {
            assert(i == 0 || i == 1 || i == 2 || i == 3 || i == 4 || i == 5 || i == 6 || i == 7
                || i == 8 || i == 9 || i == 10 || i == 11 || i == 12 || i == 13 || i == 14 || i == 15
                || i == 16 || i == 17 || i == 18 || i == 19 || i == 20 || i == 21 || i == 22 || i == 23
                || i == 24);
        }
    }
    assert(is_plain("\""@)) by {
        reveal_strlit("\"");
        let s = "\""@;
        assert forall|i: int| 0 <= i < s.len() implies is_shown(#[trigger] s[i]) by {
            assert(i == 0);
        }
    }
    assert(is_plain(" { "@)) by {
        reveal_strlit(" { ");
        let s = " { "@;
        assert forall|i: int| 0 <= i < s.len() implies is_shown(#[trigger] s[i]) by {
            assert(i == 0 || i == 1 || i == 2);
        }
    }
    assert(is_plain(" }"@)) by {
        reveal_strlit(" }");
        let s = " }"@;
        assert forall|i: int| 0 <= i < s.len() implies is_shown(#[trigger] s[i]) by {
            assert(i == 0 || i == 1);
        }
    }
    assert(is_plain("-"@)) by {
        reveal_strlit("-");
        let s = "-"@;
        assert forall|i: int| 0 <= i < s.len() implies is_shown(#[trigger] s[i]) by {
            assert(i == 0);
        }
    }
    assert(is_plain("zone:"@)) by {
        reveal_strlit("zone:");
        let s = "zone:"@;
        assert forall|i: int| 0 <= i < s.len() implies is_shown(#[trigger] s[i]) by {
            assert(i == 0 || i == 1 || i == 2 || i == 3 || i == 4);
        }
    }
    assert(is_plain("zone-masq:"@)) by {
        reveal_strlit("zone-masq:");
        let s = "zone-masq:"@;
        assert forall|i: int| 0 <= i < s.len() implies is_shown(#[trigger] s[i]) by {
            assert(i == 0 || i == 1 || i == 2 || i == 3 || i == 4 || i == 5 || i == 6 || i == 7
                || i == 8 || i == 9);
        }
    }
    assert(is_plain("\n"@)) by {
        reveal_strlit("\n");
        let s = "\n"@;
        assert forall|i: int| 0 <= i < s.len() implies is_shown(#[trigger] s[i]) by {
            assert(i == 0);
        }
    }
    assert(is_plain(" {\n"@)) by {
        reveal_strlit(" {\n");
        let s = " {\n"@;
        assert forall|i: int| 0 <= i < s.len() implies is_shown(#[trigger] s[i]) by {
            assert(i == 0 || i == 1 || i == 2);
        }
    }
    assert(is_plain(" }\n"@)) by {
        reveal_strlit(" }\n");
        let s = " }\n"@;
        assert forall|i: int| 0 <= i < s.len() implies is_shown(#[trigger] s[i]) by {
            assert(i == 0 || i == 1 || i == 2);
        }
    }
    assert(is_plain("    }\n"@)) by {
        reveal_strlit("    }\n");
        let s = "    }\n"@;
        assert forall|i: int| 0 <= i < s.len() implies is_shown(#[trigger] s[i]) by {
            assert(i == 0 || i == 1 || i == 2 || i == 3 || i == 4 || i == 5);
        }
    }
    assert(is_plain("        type ipv4_addr\n"@)) by {
        reveal_strlit("        type ipv4_addr\n");
        let s = "        type ipv4_addr\n"@;
        assert forall|i: int| 0 <= i < s.len() implies is_shown(#[trigger] s[i]) by {
            assert(i == 0 || i == 1 || i == 2 || i == 3 || i == 4 || i == 5 || i == 6 || i == 7
                || i == 8 || i == 9 || i == 10 || i == 11 || i == 12 || i == 13 || i == 14 || i == 15
                || i == 16 || i == 17 || i == 18 || i == 19 || i == 20 || i == 21 || i == 22);
        }
    }
    assert(is_plain("        type ipv6_addr\n"@)) by {
        reveal_strlit("        type ipv6_addr\n");
        let s = "        type ipv6_addr\n"@;
        assert forall|i: int| 0 <= i < s.len() implies is_shown(#[trigger] s[i]) by {
            assert(i == 0 || i == 1 || i == 2 || i == 3 || i == 4 || i == 5 || i == 6 || i == 7
                || i == 8 || i == 9 || i == 10 || i == 11 || i == 12 || i == 13 || i == 14 || i == 15
                || i == 16 || i == 17 || i == 18 || i == 19 || i == 20 || i == 21 || i == 22);
        }
    }
}

proof fn lemma_words_f()
    ensures
        is_plain("        type ether_addr\n"@),
        is_plain("        type inet_service\n"@),
        is_plain("        flags interval\n"@),
        is_plain(" priority -5; policy accept;\n"@),
        is_plain("    chain prerouting {\n"@),
        is_plain("    chain postrouting {\n"@),
        is_plain("        type nat hook prerouting priority -90; policy accept;\n"@),
        is_plain("        type nat hook postrouting priority 110; policy accept;\n"@),
        is_plain("    chain prerouting {\n        type nat hook prerouting priority -90; policy accept;\n"@),
        is_plain("    chain postrouting {\n        type nat hook postrouting priority 110; policy accept;\n"@),
        is_plain(" {\n        type filter hook "@),
        is_plain("        type ipv4_addr\n        flags interval\n"@),
        is_plain("        type ipv6_addr\n        flags interval\n"@),
        is_plain("        type inet_service\n        flags interval\n"@),
        is_plain(" }\n    }\n"@),
        is_plain("delete table inet mbed_agent\n"@),
        is_plain("table inet mbed_agent {\n    comment \"mbed-agent-owned:v1\"\n"@),
        is_plain("}\n"@),
{
    reveal(is_plain);
    assert(is_plain("        type ether_addr\n"@)) by {
        reveal_strlit("        type ether_addr\n");
        let s = "        type ether_addr\n"@;
        assert forall|i: int| 0 <= i < s.len() implies is_shown(#[trigger] s[i]) by {
            assert(i == 0 || i == 1 || i == 2 || i == 3 || i == 4 || i == 5 || i == 6 || i == 7
                || i == 8 || i == 9 || i == 10 || i == 11 || i == 12 || i == 13 || i == 14 || i == 15
                || i == 16 || i == 17 || i == 18 || i == 19 || i == 20 || i == 21 || i == 22 || i == 23);
        }
    }
    assert(is_plain("        type inet_service\n"@)) by {
        reveal_strlit("        type inet_service\n");
        let s = "        type inet_service\n"@;
        assert forall|i: int| 0 <= i < s.len() implies is_shown(#[trigger] s[i]) by {
            assert(i == 0 || i == 1 || i == 2 || i == 3 || i == 4 || i == 5 || i == 6 || i == 7
                || i == 8 || i == 9 || i == 10 || i == 11 || i == 12 || i == 13 || i == 14 || i == 15
                || i == 16 || i == 17 || i == 18 || i == 19 || i == 20 || i == 21 || i == 22 || i == 23
                || i == 24 || i == 25);
        }
    }
    assert(is_plain("        flags interval\n"@)) by {
        reveal_strlit("        flags interval\n");
        let s = "        flags interval\n"@;
        assert forall|i: int| 0 <= i < s.len() implies is_shown(#[trigger] s[i]) by {
            assert(i == 0 || i == 1 || i == 2 || i == 3 || i == 4 || i == 5 || i == 6 || i == 7
                || i == 8 || i == 9 || i == 10 || i == 11 || i == 12 || i == 13 || i == 14 || i == 15
                || i == 16 || i == 17 || i == 18 || i == 19 || i == 20 || i == 21 || i == 22);
        }
    }
    assert(is_plain(" priority -5; policy accept;\n"@)) by {
        reveal_strlit(" priority -5; policy accept;\n");
        let s = " priority -5; policy accept;\n"@;
        assert forall|i: int| 0 <= i < s.len() implies is_shown(#[trigger] s[i]) by {
            assert(i == 0 || i == 1 || i == 2 || i == 3 || i == 4 || i == 5 || i == 6 || i == 7
                || i == 8 || i == 9 || i == 10 || i == 11 || i == 12 || i == 13 || i == 14 || i == 15
                || i == 16 || i == 17 || i == 18 || i == 19 || i == 20 || i == 21 || i == 22 || i == 23
                || i == 24 || i == 25 || i == 26 || i == 27 || i == 28);
        }
    }
    assert(is_plain("    chain prerouting {\n"@)) by {
        reveal_strlit("    chain prerouting {\n");
        let s = "    chain prerouting {\n"@;
        assert forall|i: int| 0 <= i < s.len() implies is_shown(#[trigger] s[i]) by {
            assert(i == 0 || i == 1 || i == 2 || i == 3 || i == 4 || i == 5 || i == 6 || i == 7
                || i == 8 || i == 9 || i == 10 || i == 11 || i == 12 || i == 13 || i == 14 || i == 15
                || i == 16 || i == 17 || i == 18 || i == 19 || i == 20 || i == 21 || i == 22);
        }
    }
    assert(is_plain("    chain postrouting {\n"@)) by {
        reveal_strlit("    chain postrouting {\n");
        let s = "    chain postrouting {\n"@;
        assert forall|i: int| 0 <= i < s.len() implies is_shown(#[trigger] s[i]) by {
            assert(i == 0 || i == 1 || i == 2 || i == 3 || i == 4 || i == 5 || i == 6 || i == 7
                || i == 8 || i == 9 || i == 10 || i == 11 || i == 12 || i == 13 || i == 14 || i == 15
                || i == 16 || i == 17 || i == 18 || i == 19 || i == 20 || i == 21 || i == 22 || i == 23);
        }
    }
    assert(is_plain("        type nat hook prerouting priority -90; policy accept;\n"@)) by {
        reveal_strlit("        type nat hook prerouting priority -90; policy accept;\n");
        let s = "        type nat hook prerouting priority -90; policy accept;\n"@;
        assert forall|i: int| 0 <= i < s.len() implies is_shown(#[trigger] s[i]) by {
            assert(i == 0 || i == 1 || i == 2 || i == 3 || i == 4 || i == 5 || i == 6 || i == 7
                || i == 8 || i == 9 || i == 10 || i == 11 || i == 12 || i == 13 || i == 14 || i == 15
                || i == 16 || i == 17 || i == 18 || i == 19 || i == 20 || i == 21 || i == 22 || i == 23
                || i == 24 || i == 25 || i == 26 || i == 27 || i == 28 || i == 29 || i == 30 || i == 31
                || i == 32 || i == 33 || i == 34 || i == 35 || i == 36 || i == 37 || i == 38 || i == 39
                || i == 40 || i == 41 || i == 42 || i == 43 || i == 44 || i == 45 || i == 46 || i == 47
                || i == 48 || i == 49 || i == 50 || i == 51 || i == 52 || i == 53 || i == 54 || i == 55
                || i == 56 || i == 57 || i == 58 || i == 59 || i == 60 || i == 61);
        }
    }
    assert(is_plain("        type nat hook postrouting priority 110; policy accept;\n"@)) by {
        reveal_strlit("        type nat hook postrouting priority 110; policy accept;\n");
        let s = "        type nat hook postrouting priority 110; policy accept;\n"@;
        assert forall|i: int| 0 <= i < s.len() implies is_shown(#[trigger] s[i]) by {
            assert(i == 0 || i == 1 || i == 2 || i == 3 || i == 4 || i == 5 || i == 6 || i == 7
                || i == 8 || i == 9 || i == 10 || i == 11 || i == 12 || i == 13 || i == 14 || i == 15
                || i == 16 || i == 17 || i == 18 || i == 19 || i == 20 || i == 21 || i == 22 || i == 23
                || i == 24 || i == 25 || i == 26 || i == 27 || i == 28 || i == 29 || i == 30 || i == 31
                || i == 32 || i == 33 || i == 34 || i == 35 || i == 36 || i == 37 || i == 38 || i == 39
                || i == 40 || i == 41 || i == 42 || i == 43 || i == 44 || i == 45 || i == 46 || i == 47
                || i == 48 || i == 49 || i == 50 || i == 51 || i == 52 || i == 53 || i == 54 || i == 55
                || i == 56 || i == 57 || i == 58 || i == 59 || i == 60 || i == 61 || i == 62);
        }
    }
    assert(is_plain("    chain prerouting {\n        type nat hook prerouting priority -90; policy accept;\n"@)) by {
        reveal_strlit("    chain prerouting {\n        type nat hook prerouting priority -90; policy accept;\n");
        let s = "    chain prerouting {\n        type nat hook prerouting priority -90; policy accept;\n"@;
        assert forall|i: int| 0 <= i < s.len() implies is_shown(#[trigger] s[i]) by {
            assert(i == 0 || i == 1 || i == 2 || i == 3 || i == 4 || i == 5 || i == 6 || i == 7
                || i == 8 || i == 9 || i == 10 || i == 11 || i == 12 || i == 13 || i == 14 || i == 15
                || i == 16 || i == 17 || i == 18 || i == 19 || i == 20 || i == 21 || i == 22 || i == 23
                || i == 24 || i == 25 || i == 26 || i == 27 || i == 28 || i == 29 || i == 30 || i == 31
                || i == 32 || i == 33 || i == 34 || i == 35 || i == 36 || i == 37 || i == 38 || i == 39
                || i == 40 || i == 41 || i == 42 || i == 43 || i == 44 || i == 45 || i == 46 || i == 47
                || i == 48 || i == 49 || i == 50 || i == 51 || i == 52 || i == 53 || i == 54 || i == 55
                || i == 56 || i == 57 || i == 58 || i == 59 || i == 60 || i == 61 || i == 62 || i == 63
                || i == 64 || i == 65 || i == 66 || i == 67 || i == 68 || i == 69 || i == 70 || i == 71
                || i == 72 || i == 73 || i == 74 || i == 75 || i == 76 || i == 77 || i == 78 || i == 79
                || i == 80 || i == 81 || i == 82 || i == 83 || i == 84);
        }
    }
    assert(is_plain("    chain postrouting {\n        type nat hook postrouting priority 110; policy accept;\n"@)) by {
        reveal_strlit("    chain postrouting {\n        type nat hook postrouting priority 110; policy accept;\n");
        let s = "    chain postrouting {\n        type nat hook postrouting priority 110; policy accept;\n"@;
        assert forall|i: int| 0 <= i < s.len() implies is_shown(#[trigger] s[i]) by {
            assert(i == 0 || i == 1 || i == 2 || i == 3 || i == 4 || i == 5 || i == 6 || i == 7
                || i == 8 || i == 9 || i == 10 || i == 11 || i == 12 || i == 13 || i == 14 || i == 15
                || i == 16 || i == 17 || i == 18 || i == 19 || i == 20 || i == 21 || i == 22 || i == 23
                || i == 24 || i == 25 || i == 26 || i == 27 || i == 28 || i == 29 || i == 30 || i == 31
                || i == 32 || i == 33 || i == 34 || i == 35 || i == 36 || i == 37 || i == 38 || i == 39
                || i == 40 || i == 41 || i == 42 || i == 43 || i == 44 || i == 45 || i == 46 || i == 47
                || i == 48 || i == 49 || i == 50 || i == 51 || i == 52 || i == 53 || i == 54 || i == 55
                || i == 56 || i == 57 || i == 58 || i == 59 || i == 60 || i == 61 || i == 62 || i == 63
                || i == 64 || i == 65 || i == 66 || i == 67 || i == 68 || i == 69 || i == 70 || i == 71
                || i == 72 || i == 73 || i == 74 || i == 75 || i == 76 || i == 77 || i == 78 || i == 79
                || i == 80 || i == 81 || i == 82 || i == 83 || i == 84 || i == 85 || i == 86);
        }
    }
    assert(is_plain(" {\n        type filter hook "@)) by {
        reveal_strlit(" {\n        type filter hook ");
        let s = " {\n        type filter hook "@;
        assert forall|i: int| 0 <= i < s.len() implies is_shown(#[trigger] s[i]) by {
            assert(i == 0 || i == 1 || i == 2 || i == 3 || i == 4 || i == 5 || i == 6 || i == 7
                || i == 8 || i == 9 || i == 10 || i == 11 || i == 12 || i == 13 || i == 14 || i == 15
                || i == 16 || i == 17 || i == 18 || i == 19 || i == 20 || i == 21 || i == 22 || i == 23
                || i == 24 || i == 25 || i == 26 || i == 27);
        }
    }
    assert(is_plain("        type ipv4_addr\n        flags interval\n"@)) by {
        reveal_strlit("        type ipv4_addr\n        flags interval\n");
        let s = "        type ipv4_addr\n        flags interval\n"@;
        assert forall|i: int| 0 <= i < s.len() implies is_shown(#[trigger] s[i]) by {
            assert(i == 0 || i == 1 || i == 2 || i == 3 || i == 4 || i == 5 || i == 6 || i == 7
                || i == 8 || i == 9 || i == 10 || i == 11 || i == 12 || i == 13 || i == 14 || i == 15
                || i == 16 || i == 17 || i == 18 || i == 19 || i == 20 || i == 21 || i == 22 || i == 23
                || i == 24 || i == 25 || i == 26 || i == 27 || i == 28 || i == 29 || i == 30 || i == 31
                || i == 32 || i == 33 || i == 34 || i == 35 || i == 36 || i == 37 || i == 38 || i == 39
                || i == 40 || i == 41 || i == 42 || i == 43 || i == 44 || i == 45);
        }
    }
    assert(is_plain("        type ipv6_addr\n        flags interval\n"@)) by {
        reveal_strlit("        type ipv6_addr\n        flags interval\n");
        let s = "        type ipv6_addr\n        flags interval\n"@;
        assert forall|i: int| 0 <= i < s.len() implies is_shown(#[trigger] s[i]) by {
            assert(i == 0 || i == 1 || i == 2 || i == 3 || i == 4 || i == 5 || i == 6 || i == 7
                || i == 8 || i == 9 || i == 10 || i == 11 || i == 12 || i == 13 || i == 14 || i == 15
                || i == 16 || i == 17 || i == 18 || i == 19 || i == 20 || i == 21 || i == 22 || i == 23
                || i == 24 || i == 25 || i == 26 || i == 27 || i == 28 || i == 29 || i == 30 || i == 31
                || i == 32 || i == 33 || i == 34 || i == 35 || i == 36 || i == 37 || i == 38 || i == 39
                || i == 40 || i == 41 || i == 42 || i == 43 || i == 44 || i == 45);
        }
    }
    assert(is_plain("        type inet_service\n        flags interval\n"@)) by {
        reveal_strlit("        type inet_service\n        flags interval\n");
        let s = "        type inet_service\n        flags interval\n"@;
        assert forall|i: int| 0 <= i < s.len() implies is_shown(#[trigger] s[i]) by {
            assert(i == 0 || i == 1 || i == 2 || i == 3 || i == 4 || i == 5 || i == 6 || i == 7
                || i == 8 || i == 9 || i == 10 || i == 11 || i == 12 || i == 13 || i == 14 || i == 15
                || i == 16 || i == 17 || i == 18 || i == 19 || i == 20 || i == 21 || i == 22 || i == 23
                || i == 24 || i == 25 || i == 26 || i == 27 || i == 28 || i == 29 || i == 30 || i == 31
                || i == 32 || i == 33 || i == 34 || i == 35 || i == 36 || i == 37 || i == 38 || i == 39
                || i == 40 || i == 41 || i == 42 || i == 43 || i == 44 || i == 45 || i == 46 || i == 47
                || i == 48);
        }
    }
    assert(is_plain(" }\n    }\n"@)) by {
        reveal_strlit(" }\n    }\n");
        let s = " }\n    }\n"@;
        assert forall|i: int| 0 <= i < s.len() implies is_shown(#[trigger] s[i]) by {
            assert(i == 0 || i == 1 || i == 2 || i == 3 || i == 4 || i == 5 || i == 6 || i == 7
                || i == 8);
        }
    }
    assert(is_plain("delete table inet mbed_agent\n"@)) by {
        reveal_strlit("delete table inet mbed_agent\n");
        let s = "delete table inet mbed_agent\n"@;
        assert forall|i: int| 0 <= i < s.len() implies is_shown(#[trigger] s[i]) by {
            assert(i == 0 || i == 1 || i == 2 || i == 3 || i == 4 || i == 5 || i == 6 || i == 7
                || i == 8 || i == 9 || i == 10 || i == 11 || i == 12 || i == 13 || i == 14 || i == 15
                || i == 16 || i == 17 || i == 18 || i == 19 || i == 20 || i == 21 || i == 22 || i == 23
                || i == 24 || i == 25 || i == 26 || i == 27 || i == 28);
        }
    }
    assert(is_plain("table inet mbed_agent {\n    comment \"mbed-agent-owned:v1\"\n"@)) by {
        reveal_strlit("table inet mbed_agent {\n    comment \"mbed-agent-owned:v1\"\n");
        let s = "table inet mbed_agent {\n    comment \"mbed-agent-owned:v1\"\n"@;
        assert forall|i: int| 0 <= i < s.len() implies is_shown(#[trigger] s[i]) by {
            assert(i == 0 || i == 1 || i == 2 || i == 3 || i == 4 || i == 5 || i == 6 || i == 7
                || i == 8 || i == 9 || i == 10 || i == 11 || i == 12 || i == 13 || i == 14 || i == 15
                || i == 16 || i == 17 || i == 18 || i == 19 || i == 20 || i == 21 || i == 22 || i == 23
                || i == 24 || i == 25 || i == 26 || i == 27 || i == 28 || i == 29 || i == 30 || i == 31
                || i == 32 || i == 33 || i == 34 || i == 35 || i == 36 || i == 37 || i == 38 || i == 39
                || i == 40 || i == 41 || i == 42 || i == 43 || i == 44 || i == 45 || i == 46 || i == 47
                || i == 48 || i == 49 || i == 50 || i == 51 || i == 52 || i == 53 || i == 54 || i == 55
                || i == 56 || i == 57);
        }
    }
    assert(is_plain("}\n"@)) by {
        reveal_strlit("}\n");
        let s = "}\n"@;
        assert forall|i: int| 0 <= i < s.len() implies is_shown(#[trigger] s[i]) by {
            assert(i == 0 || i == 1);
        }
    }
}

proof fn lemma_words_g()
    ensures
        is_plain("::"@),
        is_plain("::ffff:"@),
        is_plain("."@),
        is_plain("/"@),
{
    reveal(is_plain);
    assert(is_plain("::"@)) by {
        reveal_strlit("::");
        let s = "::"@;
        assert forall|i: int| 0 <= i < s.len() implies is_shown(#[trigger] s[i]) by {
            assert(i == 0 || i == 1);
        }
    }
    assert(is_plain("::ffff:"@)) by {
        reveal_strlit("::ffff:");
        let s = "::ffff:"@;
        assert forall|i: int| 0 <= i < s.len() implies is_shown(#[trigger] s[i]) by {
            assert(i == 0 || i == 1 || i == 2 || i == 3 || i == 4 || i == 5 || i == 6);
        }
    }
    assert(is_plain("."@)) by {
        reveal_strlit(".");
        let s = "."@;
        assert forall|i: int| 0 <= i < s.len() implies is_shown(#[trigger] s[i]) by {
            assert(i == 0);
        }
    }
    assert(is_plain("/"@)) by {
        reveal_strlit("/");
        let s = "/"@;
        assert forall|i: int| 0 <= i < s.len() implies is_shown(#[trigger] s[i]) by {
            assert(i == 0);
        }
    }
}

/// The words of the rule set.
proof fn lemma_words()
    ensures
        is_plain("s_"@),
        is_plain("    set "@),
        is_plain("        elements = { "@),
        is_plain(", "@),
        is_plain(" "@),
        is_plain("ip "@),
        is_plain("ip6 "@),
        is_plain("saddr"@),
        is_plain("daddr"@),
        is_plain("icmp type"@),
        is_plain("icmpv6 type"@),
        is_plain("new"@),
        is_plain("established"@),
        is_plain("related"@),
        is_plain("invalid"@),
        is_plain("tcp"@),
        is_plain("udp"@),
        is_plain("icmp"@),
        is_plain("icmpv6"@),
        is_plain("ipv6-icmp"@),
        is_plain("esp"@),
        is_plain("ah"@),
        is_plain("gre"@),
        is_plain("ip saddr"@),
        is_plain("ip daddr"@),
        is_plain("ip6 saddr"@),
        is_plain("ip6 daddr"@),
        is_plain("ether saddr"@),
        is_plain("ether daddr"@),
        is_plain("th sport"@),
        is_plain("th dport"@),
        is_plain(" @"@),
        is_plain("meta nfproto ipv4"@),
        is_plain("meta nfproto ipv6"@),
        is_plain("oifname"@),
        is_plain("iifname"@),
        is_plain("meta l4proto"@),
        is_plain("ct state"@),
        is_plain("emerg"@),
        is_plain("alert"@),
        is_plain("crit"@),
        is_plain("err"@),
        is_plain("warn"@),
        is_plain("notice"@),
        is_plain("info"@),
        is_plain("debug"@),
        is_plain("accept"@),
        is_plain("drop"@),
        is_plain("reject"@),
        is_plain("reject with tcp reset"@),
        is_plain("reject with icmp type port-unreachable"@),
        is_plain("reject with icmp type host-unreachable"@),
        is_plain("reject with icmpv6 type port-unreachable"@),
        is_plain("limit rate "@),
        is_plain("/second burst "@),
        is_plain(" packets"@),
        is_plain("log prefix "@),
        is_plain(" level "@),
        is_plain("comment "@),
        is_plain("masquerade"@),
        is_plain("redirect to :"@),
        is_plain("dnat"@),
        is_plain("snat"@),
        is_plain(" ip to "@),
        is_plain(" ip6 to "@),
        is_plain(":"@),
        is_plain("["@),
        is_plain("]:"@),
        is_plain("        "@),
        is_plain("        iifname "@),
        is_plain(" oifname "@),
        is_plain(" accept comment "@),
        is_plain(" comment "@),
        is_plain("input"@),
        is_plain("output"@),
        is_plain("forward"@),
        is_plain("    chain "@),
        is_plain("        type filter hook "@),
        is_plain("\""@),
        is_plain(" { "@),
        is_plain(" }"@),
        is_plain("-"@),
        is_plain("zone:"@),
        is_plain("zone-masq:"@),
        is_plain("\n"@),
        is_plain(" {\n"@),
        is_plain(" }\n"@),
        is_plain("    }\n"@),
        is_plain("        type ipv4_addr\n"@),
        is_plain("        type ipv6_addr\n"@),
        is_plain("        type ether_addr\n"@),
        is_plain("        type inet_service\n"@),
        is_plain("        flags interval\n"@),
        is_plain(" priority -5; policy accept;\n"@),
        is_plain("    chain prerouting {\n"@),
        is_plain("    chain postrouting {\n"@),
        is_plain("        type nat hook prerouting priority -90; policy accept;\n"@),
        is_plain("        type nat hook postrouting priority 110; policy accept;\n"@),
        is_plain("    chain prerouting {\n        type nat hook prerouting priority -90; policy accept;\n"@),
        is_plain("    chain postrouting {\n        type nat hook postrouting priority 110; policy accept;\n"@),
        is_plain(" {\n        type filter hook "@),
        is_plain("        type ipv4_addr\n        flags interval\n"@),
        is_plain("        type ipv6_addr\n        flags interval\n"@),
        is_plain("        type inet_service\n        flags interval\n"@),
        is_plain(" }\n    }\n"@),
        is_plain("delete table inet mbed_agent\n"@),
        is_plain("table inet mbed_agent {\n    comment \"mbed-agent-owned:v1\"\n"@),
        is_plain("}\n"@),
        is_plain("::"@),
        is_plain("::ffff:"@),
        is_plain("."@),
        is_plain("/"@),
        is_plain(Seq::empty()),
{
    lemma_words_a();
    lemma_words_b();
    lemma_words_c();
    lemma_words_d();
    lemma_words_e();
    lemma_words_f();
    lemma_words_g();
    reveal(is_plain);
}

pub proof fn lemma_decimal_plain(n: nat)
    ensures
        is_plain(decimal(n)),
{
    reveal(is_plain);
    lemma_decimal(n);
    assert forall|i: int| 0 <= i < decimal(n).len() implies is_shown(#[trigger] decimal(n)[i]) by {
        assert(is_digit(decimal(n)[i]));
    }
}

proof fn lemma_hex_plain(n: nat)
    ensures
        is_plain(hex(n)),
{
    reveal(is_plain);
    lemma_hex(n);
    assert forall|i: int| 0 <= i < hex(n).len() implies is_shown(#[trigger] hex(n)[i]) by {
        assert(is_hex(hex(n)[i]));
    }
}

proof fn lemma_quad_plain(n: nat)
    ensures
        is_plain(ipv4_format(n)),
{
    broadcast use lemma_plain_add;

    lemma_words();
    lemma_decimal_plain(n / 16777216 % 256);
    lemma_decimal_plain(n / 65536 % 256);
    lemma_decimal_plain(n / 256 % 256);
    lemma_decimal_plain(n % 256);
}

proof fn lemma_groups_plain(acc: Seq<char>, g: Seq<nat>, from: int, i: int, to: int)
    requires
        is_plain(acc),
    ensures
        is_plain(groups_text(acc, g, from, i, to)),
    decreases to - i,
{
    broadcast use lemma_plain_add;

    lemma_words();
    if i < to {
        lemma_hex_plain(g[i]);
        if i == from {
            lemma_groups_plain(acc + hex(g[i]), g, from, i + 1, to);
        } else {
            lemma_groups_plain(acc + ":"@ + hex(g[i]), g, from, i + 1, to);
        }
    }
}

pub proof fn lemma_address_plain(a: IpAddr)
    ensures
        is_plain(address_format(a)),
{
    broadcast use lemma_plain_add;

    lemma_words();
    match a {
        IpAddr::V4(n) => {
            lemma_quad_plain(n as nat);
        },
        IpAddr::V6(n) => {
            let n = n as nat;
            let g = unpack(n);
            let best = longest_run(g, 0, (0, 0));
            lemma_quad_plain(n % 0x1_0000_0000);
            lemma_groups_plain(Seq::empty(), g, 0, 0, 8);
            lemma_groups_plain(Seq::empty(), g, 0, 0, best.0);
            let left = groups_text(Seq::empty(), g, 0, 0, best.0) + "::"@;
            lemma_groups_plain(left, g, best.0 + best.1, best.0 + best.1, 8);
        },
    }
}

pub proof fn lemma_network_plain(n: IpNetwork)
    ensures
        is_plain(network_format(n)),
{
    broadcast use lemma_plain_add;

    lemma_words();
    lemma_address_plain(n.address);
    lemma_decimal_plain(n.prefix_len as nat);
}

proof fn lemma_quoted(s: Seq<char>)
    ensures
        quoted_value(s) matches Some(q) ==> is_plain(q),
{
    broadcast use lemma_plain_add;

    lemma_words();
    if is_double_quotable(s) {
        assert(is_plain(s)) by {
            reveal(is_plain);
            assert forall|i: int| 0 <= i < s.len() implies is_shown(#[trigger] s[i]) by {
                assert(!is_ascii_control(s[i]));
            }
        }
    }
}

proof fn lemma_port(p: PortRange)
    ensures
        is_plain(port_text(p)),
{
    broadcast use lemma_plain_add;

    lemma_words();
    lemma_decimal_plain(p.start as nat);
    lemma_decimal_plain(p.end as nat);
}

proof fn lemma_joined(acc: Seq<char>, parts: Seq<Seq<char>>, sep: Seq<char>, i: int)
    requires
        is_plain(acc),
        all_plain(parts),
        is_plain(sep),
        0 <= i,
    ensures
        is_plain(joined_from(acc, parts, sep, i)),
    decreases parts.len() - i,
{
    broadcast use lemma_plain_add;

    if i < parts.len() {
        assert(is_plain(parts[i]));
        lemma_joined(acc + parts[i], parts, sep, i + 1);
        lemma_joined(acc + sep + parts[i], parts, sep, i + 1);
    }
}

proof fn lemma_atoms(key: Seq<char>, values: Seq<Seq<char>>)
    requires
        is_plain(key),
        all_plain(values),
    ensures
        is_plain(atom_set(key, values)),
{
    broadcast use lemma_plain_add;

    lemma_words();
    lemma_joined(Seq::empty(), values, ", "@, 0);
    if values.len() == 1 {
        assert(is_plain(values[0]));
    }
}

/// Whether a part, where there is one, holds no stray control characters.
pub open spec fn plain_part(p: Result<Seq<char>, NftablesRenderErrorView>) -> bool {
    p matches Ok(t) ==> is_plain(t)
}

/// Whether parts, where there are any, hold no stray control characters.
pub open spec fn plain_parts(p: Result<Seq<Seq<char>>, NftablesRenderErrorView>) -> bool {
    p matches Ok(t) ==> all_plain(t)
}

proof fn lemma_strings(key: Seq<char>, values: Seq<Seq<char>>)
    requires
        is_plain(key),
    ensures
        plain_part(string_set(key, values)),
{
    let f = |s: Seq<char>| quoted_value(s);
    if let Some(q) = map_all(values, f) {
        assert forall|i: int| 0 <= i < q.len() implies is_plain(#[trigger] q[i]) by {
            lemma_quoted(values[i]);
            assert(f(values[i]) is Some);
        }
        lemma_atoms(key, q);
    }
}

proof fn lemma_part(
    parts: Result<Seq<Seq<char>>, NftablesRenderErrorView>,
    wanted: bool,
    part: Result<Seq<char>, NftablesRenderErrorView>,
)
    requires
        plain_parts(parts),
        wanted ==> plain_part(part),
    ensures
        plain_parts(then_part(parts, wanted, part)),
{
}

proof fn lemma_networks(direction: Seq<char>, n: Seq<IpNetwork>)
    requires
        is_plain(direction),
    ensures
        plain_part(networks_part(direction, n)),
{
    broadcast use lemma_plain_add;

    lemma_words();
    let t = network_texts(n);
    assert forall|i: int| 0 <= i < t.len() implies is_plain(#[trigger] t[i]) by {
        lemma_network_plain(n[i]);
    }
    lemma_atoms("ip "@ + direction, t);
    lemma_atoms("ip6 "@ + direction, t);
}

proof fn lemma_bytes(b: Seq<u8>)
    ensures
        all_plain(byte_texts(b)),
{
    let t = byte_texts(b);
    assert forall|i: int| 0 <= i < t.len() implies is_plain(#[trigger] t[i]) by {
        lemma_decimal_plain(b[i] as nat);
    }
}

proof fn lemma_icmp(m: FirewallMatchView)
    ensures
        plain_part(icmp_part(m)),
{
    lemma_words();
    let t = byte_texts(m.icmp_types);
    lemma_bytes(m.icmp_types);
    lemma_atoms("icmp type"@, t);
    lemma_atoms("icmpv6 type"@, t);
}

proof fn lemma_placed_parts(
    m: FirewallMatchView,
    direction: FirewallDirection,
    sources: Seq<Seq<char>>,
    destinations: Seq<Seq<char>>,
)
    ensures
        plain_parts(placed_parts(m, direction, sources, destinations)),
{
    lemma_words();
    let key = if direction == FirewallDirection::Output {
        "oifname"@
    } else {
        "iifname"@
    };
    let start = Ok::<Seq<Seq<char>>, NftablesRenderErrorView>(family_parts(m.family));
    assert(all_plain(family_parts(m.family)));
    let part = if direction == FirewallDirection::Forward {
        string_set("oifname"@, destinations)
    } else {
        unsupported("destination zone for non-forward filter direction"@)
    };
    lemma_strings(key, sources);
    lemma_strings("oifname"@, destinations);
    lemma_strings("iifname"@, m.input_interfaces);
    lemma_strings("oifname"@, m.output_interfaces);
    lemma_part(start, sources.len() > 0, string_set(key, sources));
    let p1 = then_part(start, sources.len() > 0, string_set(key, sources));
    lemma_part(p1, destinations.len() > 0, part);
    let p2 = then_part(p1, destinations.len() > 0, part);
    let input = string_set("iifname"@, m.input_interfaces);
    lemma_part(p2, m.input_interfaces.len() > 0, input);
    let p3 = then_part(p2, m.input_interfaces.len() > 0, input);
    lemma_part(p3, m.output_interfaces.len() > 0, string_set("oifname"@, m.output_interfaces));
}

proof fn lemma_values(m: FirewallMatchView)
    requires
        all_plain(m.source_macs),
    ensures
        is_plain(atom_set("ether saddr"@, m.source_macs)),
        is_plain(atom_set("meta l4proto"@, protocol_texts(m.protocols))),
        is_plain(atom_set("th sport"@, port_texts(m.source_ports))),
        is_plain(atom_set("th dport"@, port_texts(m.destination_ports))),
        is_plain(atom_set("ct state"@, state_texts(m.conntrack_states))),
{
    lemma_words();
    let p = protocol_texts(m.protocols);
    assert forall|i: int| 0 <= i < p.len() implies is_plain(#[trigger] p[i]) by {
        assert(m.protocols[i] == m.protocols[i]);
    }
    let a = port_texts(m.source_ports);
    assert forall|i: int| 0 <= i < a.len() implies is_plain(#[trigger] a[i]) by {
        lemma_port(m.source_ports[i]);
    }
    let b = port_texts(m.destination_ports);
    assert forall|i: int| 0 <= i < b.len() implies is_plain(#[trigger] b[i]) by {
        lemma_port(m.destination_ports[i]);
    }
    let s = state_texts(m.conntrack_states);
    assert forall|i: int| 0 <= i < s.len() implies is_plain(#[trigger] s[i]) by {
        assert(is_plain(state_name(m.conntrack_states[i])));
    }
    lemma_atoms("ether saddr"@, m.source_macs);
    lemma_atoms("meta l4proto"@, p);
    lemma_atoms("th sport"@, a);
    lemma_atoms("th dport"@, b);
    lemma_atoms("ct state"@, s);
}

proof fn lemma_valued_parts(
    parts: Result<Seq<Seq<char>>, NftablesRenderErrorView>,
    m: FirewallMatchView,
)
    requires
        plain_parts(parts),
        all_plain(m.source_macs),
    ensures
        plain_parts(valued_parts(parts, m)),
{
    lemma_words();
    lemma_values(m);
    lemma_networks("saddr"@, m.source_networks);
    lemma_networks("daddr"@, m.destination_networks);
    lemma_icmp(m);
    let p1 = then_part(
        parts,
        m.source_networks.len() > 0,
        networks_part("saddr"@, m.source_networks),
    );
    lemma_part(parts, m.source_networks.len() > 0, networks_part("saddr"@, m.source_networks));
    let p2 = then_part(
        p1,
        m.destination_networks.len() > 0,
        networks_part("daddr"@, m.destination_networks),
    );
    lemma_part(p1, m.destination_networks.len() > 0, networks_part("daddr"@, m.destination_networks));
    let macs = Ok(atom_set("ether saddr"@, m.source_macs));
    lemma_part(p2, m.source_macs.len() > 0, macs);
    let p3 = then_part(p2, m.source_macs.len() > 0, macs);
    let protocols = Ok(atom_set("meta l4proto"@, protocol_texts(m.protocols)));
    lemma_part(p3, m.protocols.len() > 0, protocols);
    let p4 = then_part(p3, m.protocols.len() > 0, protocols);
    let sport = Ok(atom_set("th sport"@, port_texts(m.source_ports)));
    lemma_part(p4, m.source_ports.len() > 0, sport);
    let p5 = then_part(p4, m.source_ports.len() > 0, sport);
    let dport = Ok(atom_set("th dport"@, port_texts(m.destination_ports)));
    lemma_part(p5, m.destination_ports.len() > 0, dport);
    let p6 = then_part(p5, m.destination_ports.len() > 0, dport);
    lemma_part(p6, m.icmp_types.len() > 0, icmp_part(m));
    let p7 = then_part(p6, m.icmp_types.len() > 0, icmp_part(m));
    let states = Ok(atom_set("ct state"@, state_texts(m.conntrack_states)));
    lemma_part(p7, m.conntrack_states.len() > 0, states);
}

/// Whether the names of sets hold no stray control characters.
pub open spec fn plain_names(sets: Seq<NftSetView>) -> bool {
    forall|i: int| 0 <= i < sets.len() ==> is_plain((#[trigger] sets[i]).name)
}

proof fn lemma_set_from(sets: Seq<NftSetView>, id: Seq<char>, i: int)
    requires
        plain_names(sets),
        0 <= i,
    ensures
        set_from(sets, id, i) matches Some(s) ==> is_plain(s.name),
    decreases sets.len() - i,
{
    if i < sets.len() && sets[i].id != id {
        lemma_set_from(sets, id, i + 1);
    }
}

proof fn lemma_set_parts(
    parts: Seq<Seq<char>>,
    sets: Seq<NftSetView>,
    ids: Seq<Seq<char>>,
    source: bool,
    i: int,
)
    requires
        all_plain(parts),
        plain_names(sets),
        0 <= i,
    ensures
        plain_parts(set_parts(parts, sets, ids, source, i)),
    decreases ids.len() - i,
{
    broadcast use lemma_plain_add;

    lemma_words();
    if i < ids.len() {
        lemma_set_from(sets, ids[i], 0);
        if let Some(s) = set_from(sets, ids[i], 0) {
            assert(is_plain(set_expression(s.value_type, source)));
            let part = set_expression(s.value_type, source) + " @"@ + s.name;
            assert(is_plain(part));
            lemma_set_parts(parts.push(part), sets, ids, source, i + 1);
        }
    }
}

/// Whether what a context writes without quotes holds no stray control characterss.
pub open spec fn is_plain_context(c: RenderContextView) -> bool {
    &&& plain_names(c.sets)
    &&& forall|i: int|
        0 <= i < c.address_sets.len() ==> is_plain_set(#[trigger] c.address_sets[i])
    &&& forall|i: int|
        0 <= i < c.filter_rules.len() ==> all_plain(
            (#[trigger] c.filter_rules[i]).matches.source_macs,
        )
    &&& forall|i: int|
        0 <= i < c.nat_rules.len() ==> all_plain((#[trigger] c.nat_rules[i]).matches.source_macs)
}

pub open spec fn is_plain_set(s: FirewallAddressSetView) -> bool {
    forall|i: int|
        0 <= i < s.entries.len() ==> (#[trigger] s.entries[i] matches FirewallSetEntryView::Mac(m)
            ==> is_plain(m))
}

proof fn lemma_match_parts(c: RenderContextView, m: FirewallMatchView, direction: FirewallDirection)
    requires
        is_plain_context(c),
        all_plain(m.source_macs),
    ensures
        plain_parts(match_parts(c, m, direction)),
{
    if let (Some(s), Some(d)) = (
        interfaces_of(c.zones, m.source_zones),
        interfaces_of(c.zones, m.destination_zones),
    ) {
        lemma_placed_parts(m, direction, s, d);
        let p = placed_parts(m, direction, s, d);
        lemma_valued_parts(p, m);
        if let Ok(parts) = valued_parts(p, m) {
            lemma_set_parts(parts, c.sets, m.source_sets, true, 0);
            if let Ok(more) = set_parts(parts, c.sets, m.source_sets, true, 0) {
                lemma_set_parts(more, c.sets, m.destination_sets, false, 0);
            }
        }
    }
}

proof fn lemma_rule_text(parts: Result<Seq<Seq<char>>, NftablesRenderErrorView>)
    requires
        plain_parts(parts),
    ensures
        plain_part(rule_text(parts)),
{
    lemma_words();
    if let Ok(p) = parts {
        lemma_joined(Seq::empty(), p, " "@, 0);
    }
}

proof fn lemma_filter_rule(c: RenderContextView, r: FirewallFilterRuleView)
    requires
        is_plain_context(c),
        all_plain(r.matches.source_macs),
    ensures
        plain_part(filter_rule_text(c, r)),
{
    broadcast use lemma_plain_add;

    lemma_words();
    lemma_match_parts(c, r.matches, r.direction);
    lemma_quoted(r.id);
    if let Some(l) = r.rate_limit {
        lemma_decimal_plain(l.packets_per_second as nat);
        lemma_decimal_plain(l.burst as nat);
    }
    assert(is_plain(limit_part(r.rate_limit)));
    if let Some(log) = r.log {
        lemma_quoted(log.prefix);
        assert(is_plain(level_name(log.level)));
    }
    assert(plain_part(log_part(r)));
    assert(plain_part(verdict_text(r.verdict, r.reject_with)));
    assert(plain_part(comment_part(r.id)));
    let p0 = match_parts(c, r.matches, r.direction);
    let limit = Ok(limit_part(r.rate_limit));
    lemma_part(p0, r.rate_limit is Some, limit);
    let p1 = then_part(p0, r.rate_limit is Some, limit);
    lemma_part(p1, r.log is Some, log_part(r));
    let p2 = then_part(p1, r.log is Some, log_part(r));
    lemma_part(p2, true, verdict_text(r.verdict, r.reject_with));
    let p3 = then_part(p2, true, verdict_text(r.verdict, r.reject_with));
    lemma_part(p3, true, comment_part(r.id));
    lemma_rule_text(then_part(p3, true, comment_part(r.id)));
}

proof fn lemma_action(r: FirewallNatRuleView)
    ensures
        plain_part(action_part(r)),
{
    broadcast use lemma_plain_add;

    lemma_words();
    if let Some(p) = r.translation_port {
        lemma_port(p);
    }
    if let Some(a) = r.translation_address {
        lemma_address_plain(a);
        assert(is_plain(endpoint(a, r.translation_port)));
        assert(is_plain(translation("dnat"@, a, r.translation_port)));
        assert(is_plain(translation("snat"@, a, r.translation_port)));
    }
}

proof fn lemma_nat_rule(c: RenderContextView, r: FirewallNatRuleView)
    requires
        is_plain_context(c),
        all_plain(r.matches.source_macs),
    ensures
        plain_part(nat_rule_text(c, r)),
{
    broadcast use lemma_plain_add;

    lemma_words();
    let direction = if is_prerouting(r.kind) {
        FirewallDirection::Input
    } else {
        FirewallDirection::Forward
    };
    lemma_match_parts(c, r.matches, direction);
    lemma_quoted(r.id);
    lemma_action(r);
    assert(plain_part(comment_part(r.id)));
    let p0 = match_parts(c, r.matches, direction);
    lemma_part(p0, true, action_part(r));
    let p1 = then_part(p0, true, action_part(r));
    lemma_part(p1, true, comment_part(r.id));
    lemma_rule_text(then_part(p1, true, comment_part(r.id)));
}

proof fn lemma_indented(text: Seq<char>)
    requires
        is_plain(text),
    ensures
        is_plain(indented(text)),
{
    broadcast use lemma_plain_add;

    lemma_words();
}

proof fn lemma_filter_rules(
    acc: Seq<char>,
    c: RenderContextView,
    direction: FirewallDirection,
    i: int,
)
    requires
        is_plain(acc),
        is_plain_context(c),
        0 <= i,
    ensures
        plain_part(filter_rules_text(acc, c, direction, i)),
    decreases c.filter_rules.len() - i,
{
    if i < c.filter_rules.len() {
        let r = c.filter_rules[i];
        lemma_filter_rules(acc, c, direction, i + 1);
        if let Ok(t) = filter_rule_text(c, r) {
            lemma_filter_rule(c, r);
            lemma_indented(t);
            lemma_plain_add(acc, indented(t));
            lemma_filter_rules(acc + indented(t), c, direction, i + 1);
        }
    }
}

proof fn lemma_nat_rules(
    acc: Seq<char>,
    c: RenderContextView,
    prerouting: bool,
    i: int,
)
    requires
        is_plain(acc),
        is_plain_context(c),
        0 <= i,
    ensures
        plain_part(nat_rules_text(acc, c, prerouting, i)),
    decreases c.nat_rules.len() - i,
{
    if i < c.nat_rules.len() {
        let r = c.nat_rules[i];
        lemma_nat_rules(acc, c, prerouting, i + 1);
        if let Ok(t) = nat_rule_text(c, r) {
            lemma_nat_rule(c, r);
            lemma_indented(t);
            lemma_plain_add(acc, indented(t));
            lemma_nat_rules(acc + indented(t), c, prerouting, i + 1);
        }
    }
}

proof fn lemma_forward_line(input: Seq<char>, output: Seq<char>, id: Seq<char>)
    ensures
        forward_line(input, output, id) matches Some(l) ==> is_plain(l),
{
    broadcast use lemma_plain_add;

    lemma_words();
    lemma_quoted(input);
    lemma_quoted(output);
    lemma_quoted(id);
}

proof fn lemma_forward_to(
    acc: Seq<char>,
    input: Seq<char>,
    outputs: Seq<Seq<char>>,
    id: Seq<char>,
    j: int,
)
    requires
        is_plain(acc),
        0 <= j,
    ensures
        forward_to(acc, input, outputs, id, j) matches Some(t) ==> is_plain(t),
    decreases outputs.len() - j,
{
    if j < outputs.len() {
        lemma_forward_line(input, outputs[j], id);
        if let Some(l) = forward_line(input, outputs[j], id) {
            lemma_plain_add(acc, l);
            lemma_forward_to(acc + l, input, outputs, id, j + 1);
        }
    }
}

proof fn lemma_forward_all(
    acc: Seq<char>,
    inputs: Seq<Seq<char>>,
    outputs: Seq<Seq<char>>,
    id: Seq<char>,
    i: int,
)
    requires
        is_plain(acc),
        0 <= i,
    ensures
        forward_all(acc, inputs, outputs, id, i) matches Some(t) ==> is_plain(t),
    decreases inputs.len() - i,
{
    if i < inputs.len() {
        lemma_forward_to(acc, inputs[i], outputs, id, 0);
        if let Some(next) = forward_to(acc, inputs[i], outputs, id, 0) {
            lemma_forward_all(next, inputs, outputs, id, i + 1);
        }
    }
}

proof fn lemma_forwardings(
    acc: Seq<char>,
    c: RenderContextView,
    count: int,
    i: int,
)
    requires
        is_plain(acc),
        0 <= i,
    ensures
        plain_part(forwardings_text(acc, c, count, i)),
    decreases c.forwardings.len() - i,
{
    if i < c.forwardings.len() {
        let f = c.forwardings[i];
        if !f.enabled {
            lemma_forwardings(acc, c, count, i + 1);
        } else if let (Some(s), Some(t)) = (
            zone_from(c.zones, f.source_zone, 0),
            zone_from(c.zones, f.destination_zone, 0),
        ) {
            let total = count + s.networks.len() * t.networks.len();
            lemma_forward_all(acc, s.networks, t.networks, f.id, 0);
            if let Some(next) = forward_all(acc, s.networks, t.networks, f.id, 0) {
                lemma_forwardings(next, c, total, i + 1);
            }
        }
    }
}

proof fn lemma_zone_line(key: Seq<char>, interface: Seq<char>, action: Seq<char>, label: Seq<char>)
    requires
        is_plain(key),
        is_plain(action),
    ensures
        zone_line(key, interface, action, label) matches Some(l) ==> is_plain(l),
{
    broadcast use lemma_plain_add;

    lemma_words();
    lemma_quoted(interface);
    lemma_quoted(label);
}

proof fn lemma_zone_lines(
    acc: Seq<char>,
    key: Seq<char>,
    interfaces: Seq<Seq<char>>,
    action: Seq<char>,
    label: Seq<char>,
    i: int,
)
    requires
        is_plain(acc),
        is_plain(key),
        is_plain(action),
        0 <= i,
    ensures
        zone_lines(acc, key, interfaces, action, label, i) matches Some(t) ==> is_plain(t),
    decreases interfaces.len() - i,
{
    if i < interfaces.len() {
        lemma_zone_line(key, interfaces[i], action, label);
        if let Some(l) = zone_line(key, interfaces[i], action, label) {
            lemma_plain_add(acc, l);
            lemma_zone_lines(acc + l, key, interfaces, action, label, i + 1);
        }
    }
}

proof fn lemma_policies(
    acc: Seq<char>,
    zones: Seq<FirewallZoneView>,
    direction: FirewallDirection,
    i: int,
)
    requires
        is_plain(acc),
        0 <= i,
    ensures
        plain_part(policies_text(acc, zones, direction, i)),
    decreases zones.len() - i,
{
    lemma_words();
    if i < zones.len() {
        let z = zones[i];
        let key = if direction == FirewallDirection::Output {
            "oifname"@
        } else {
            "iifname"@
        };
        let action = verdict_name(policy_verdict(z, direction));
        let label = "zone:"@ + z.id;
        lemma_policies(acc, zones, direction, i + 1);
        lemma_zone_lines(acc, key, z.networks, action, label, 0);
        if let Some(next) = zone_lines(acc, key, z.networks, action, label, 0) {
            lemma_policies(next, zones, direction, i + 1);
        }
    }
}

proof fn lemma_masquerades(
    acc: Seq<char>,
    zones: Seq<FirewallZoneView>,
    i: int,
)
    requires
        is_plain(acc),
        0 <= i,
    ensures
        plain_part(masquerades_text(acc, zones, i)),
    decreases zones.len() - i,
{
    lemma_words();
    if i < zones.len() {
        let z = zones[i];
        let label = "zone-masq:"@ + z.id;
        lemma_masquerades(acc, zones, i + 1);
        lemma_zone_lines(acc, "oifname"@, z.networks, "masquerade"@, label, 0);
        if let Some(next) = zone_lines(acc, "oifname"@, z.networks, "masquerade"@, label, 0) {
            lemma_masquerades(next, zones, i + 1);
        }
    }
}

proof fn lemma_chain_head(d: FirewallDirection)
    ensures
        is_plain(chain_head(d)),
{
    broadcast use lemma_plain_add;

    lemma_words();
    assert(is_plain(direction_name(d)));
}

proof fn lemma_filter_chain(
    acc: Seq<char>,
    c: RenderContextView,
    d: FirewallDirection,
)
    requires
        is_plain(acc),
        is_plain_context(c),
    ensures
        plain_part(filter_chain_text(acc, c, d)),
{
    lemma_chain_head(d);
    lemma_words();
    lemma_plain_add(acc, chain_head(d));
    let t0 = acc + chain_head(d);
    lemma_filter_rules(t0, c, d, 0);
    if let Ok(t1) = filter_rules_text(t0, c, d, 0) {
        lemma_forwardings(t1, c, 0, 0);
        let more = if d == FirewallDirection::Forward {
            forwardings_text(t1, c, 0, 0)
        } else {
            Ok(t1)
        };
        if let Ok(t2) = more {
            lemma_policies(t2, c.zones, d, 0);
            if let Ok(t3) = policies_text(t2, c.zones, d, 0) {
                lemma_plain_add(t3, "    }\n"@);
            }
        }
    }
}

proof fn lemma_nat_chains(acc: Seq<char>, c: RenderContextView)
    requires
        is_plain(acc),
        is_plain_context(c),
    ensures
        plain_part(nat_chains_text(acc, c)),
{
    lemma_words();
    let before =
        "    chain prerouting {\n        type nat hook prerouting priority -90; policy accept;\n"@;
    let behind =
        "    chain postrouting {\n        type nat hook postrouting priority 110; policy accept;\n"@;
    lemma_plain_add(acc, before);
    lemma_nat_rules(acc + before, c, true, 0);
    if let Ok(t1) = nat_rules_text(acc + before, c, true, 0) {
        lemma_masquerades(t1, c.zones, 0);
        if let Ok(t2) = masquerades_text(t1, c.zones, 0) {
            lemma_plain_add(t2, "    }\n"@);
            lemma_plain_add(t2 + "    }\n"@, behind);
            let t3 = t2 + "    }\n"@ + behind;
            lemma_nat_rules(t3, c, false, 0);
            if let Ok(t4) = nat_rules_text(t3, c, false, 0) {
                lemma_plain_add(t4, "    }\n"@);
            }
        }
    }
}

proof fn lemma_set_block(name: Seq<char>, t: NftSetType, s: FirewallAddressSetView)
    requires
        is_plain(name),
        is_plain_set(s),
    ensures
        is_plain(set_block(name, t, s.entries)),
{
    broadcast use lemma_plain_add;

    lemma_words();
    let e = entry_texts(s.entries);
    assert forall|i: int| 0 <= i < e.len() implies is_plain(#[trigger] e[i]) by {
        match s.entries[i] {
            FirewallSetEntryView::Network(n) => {
                lemma_network_plain(n);
            },
            FirewallSetEntryView::Port(p) => {
                lemma_port(p);
            },
            FirewallSetEntryView::Mac(_) => {},
        }
    }
    lemma_joined(Seq::empty(), e, ", "@, 0);
    assert(is_plain(joined(e, ", "@)));
    assert(is_plain(type_lines(t)));
}

proof fn lemma_sets(acc: Seq<char>, c: RenderContextView, i: int)
    requires
        is_plain(acc),
        is_plain_context(c),
        0 <= i,
    ensures
        plain_part(sets_text(acc, c, i)),
    decreases c.address_sets.len() - i,
{
    if i < c.address_sets.len() {
        let a = c.address_sets[i];
        lemma_sets(acc, c, i + 1);
        if let Some(s) = set_from(c.sets, a.id, 0) {
            let block = set_block(s.name, s.value_type, a.entries);
            assert(is_plain_set(a));
            lemma_set_from(c.sets, a.id, 0);
            lemma_set_block(s.name, s.value_type, a);
            lemma_plain_add(acc, block);
            lemma_sets(acc + block, c, i + 1);
        }
    }
}

proof fn lemma_ruleset(c: RenderContextView, state: NftablesTableState)
    requires
        is_plain_context(c),
    ensures
        plain_part(ruleset_text(c, state)),
{
    reveal(ruleset_text);
    let head = table_head(state);
    assert(is_plain(head)) by {
        broadcast use lemma_plain_add;

        lemma_words();
    }
    lemma_words();
    lemma_sets(head, c, 0);
    if let Ok(t0) = sets_text(head, c, 0) {
        lemma_filter_chain(t0, c, FirewallDirection::Input);
        if let Ok(t1) = filter_chain_text(t0, c, FirewallDirection::Input) {
            lemma_filter_chain(t1, c, FirewallDirection::Output);
            if let Ok(t2) = filter_chain_text(t1, c, FirewallDirection::Output) {
                lemma_filter_chain(t2, c, FirewallDirection::Forward);
                if let Ok(t3) = filter_chain_text(t2, c, FirewallDirection::Forward) {
                    lemma_nat_chains(t3, c);
                    if let Ok(t4) = nat_chains_text(t3, c) {
                        lemma_plain_add(t4, "}\n"@);
                    }
                }
            }
        }
    }
}

/// Whether what an object writes without quotes holds no stray control characterss.
pub open spec fn is_plain_object(o: FirewallObjectView) -> bool {
    match o {
        FirewallObjectView::FilterRule(r) => all_plain(r.matches.source_macs),
        FirewallObjectView::NatRule(r) => all_plain(r.matches.source_macs),
        FirewallObjectView::AddressSet(s) => is_plain_set(s),
        _ => true,
    }
}

proof fn lemma_set_name(id: Seq<char>)
    ensures
        is_plain(set_name(id)),
{
    lemma_words();
    let h = hex(fnv_from(0xcbf2_9ce4_8422_2325, encode_utf8(id), 0) as nat);
    lemma_hex_plain(fnv_from(0xcbf2_9ce4_8422_2325, encode_utf8(id), 0) as nat);
    if h.len() < 16 {
        let zeros = Seq::new((16 - h.len()) as nat, |i: int| '0');
        assert(is_plain(zeros)) by {
            reveal(is_plain);
        }
        lemma_plain_add(zeros, h);
    }
    lemma_plain_add("s_"@, padded(h));
}

proof fn lemma_with_object(c: RenderContextView, o: FirewallObjectView)
    requires
        is_plain_context(c),
        is_plain_object(o),
    ensures
        with_object(c, o) matches Ok(next) ==> is_plain_context(next),
{
    match o {
        FirewallObjectView::FilterRule(r) => {
            let at = filter_slot(c.filter_rules, r, 0);
            lemma_filter_slot(c.filter_rules, r, 0);
            let next = c.filter_rules.insert(at, r);
            assert forall|i: int| 0 <= i < next.len() implies all_plain(
                (#[trigger] next[i]).matches.source_macs,
            ) by {
                if i < at {
                    assert(next[i] == c.filter_rules[i]);
                } else if i > at {
                    assert(next[i] == c.filter_rules[i - 1]);
                }
            }
        },
        FirewallObjectView::NatRule(r) => {
            let at = nat_slot(c.nat_rules, r, 0);
            lemma_nat_slot(c.nat_rules, r, 0);
            let next = c.nat_rules.insert(at, r);
            assert forall|i: int| 0 <= i < next.len() implies all_plain(
                (#[trigger] next[i]).matches.source_macs,
            ) by {
                if i < at {
                    assert(next[i] == c.nat_rules[i]);
                } else if i > at {
                    assert(next[i] == c.nat_rules[i - 1]);
                }
            }
        },
        FirewallObjectView::AddressSet(s) => {
            lemma_set_name(s.id);
        },
        _ => {},
    }
}

proof fn lemma_context(c: RenderContextView, objects: Seq<FirewallObjectView>, i: int)
    requires
        is_plain_context(c),
        forall|j: int| 0 <= j < objects.len() ==> is_plain_object(#[trigger] objects[j]),
        0 <= i,
    ensures
        context_from(c, objects, i) matches Ok(next) ==> is_plain_context(next),
    decreases objects.len() - i,
{
    if i < objects.len() {
        assert(is_plain_object(objects[i]));
        lemma_with_object(c, objects[i]);
        if let Ok(next) = with_object(c, objects[i]) {
            lemma_context(next, objects, i + 1);
        }
    }
}

/// A rule set that fits into a listing is inspected as the agent's table, and it deletes the table
/// first if and only if the agent owns one already. The hardware addresses of the objects have to be
/// free of control characters, but for line breaks and tabs; other names are quoted.
pub proof fn law_bounded_ruleset_is_recognised(
    objects: Seq<FirewallObjectView>,
    valid: Seq<bool>,
    changes: Seq<FirewallPlannedChangeView>,
    state: NftablesTableState,
)
    requires
        nftables_stage(objects, valid, changes, state) is Ok,
        byte_len(nftables_stage(objects, valid, changes, state)->Ok_0.ruleset)
            <= MAX_INSPECTION_BYTES,
        forall|j: int|
            0 <= j < projected(objects, valid, changes)->Ok_0.len() ==> is_plain_object(
                #[trigger] projected(objects, valid, changes)->Ok_0[j],
            ),
    ensures
        ({
            let ruleset = nftables_stage(objects, valid, changes, state)->Ok_0.ruleset;
            &&& table_state(Some(ruleset)) == Ok::<NftablesTableState, NftablesRenderErrorView>(
                NftablesTableState::AgentOwned,
            )
            &&& starts(ruleset, "delete table inet mbed_agent\n"@) <==> state
                == NftablesTableState::AgentOwned
        }),
{
    let owned = projected(objects, valid, changes)->Ok_0;
    lemma_context(empty_context(), owned, 0);
    let c = context_of(owned)->Ok_0;
    lemma_ruleset(c, state);
    lemma_table_ruleset(false, c, state);
    let s = nftables_stage(objects, valid, changes, state)->Ok_0.ruleset;
    let inside = choose|inside: Seq<char>| s == #[trigger] table_text(state, inside);
    let deleting = "delete table inet mbed_agent\n"@;
    let opening = "table inet mbed_agent {\n    comment \"mbed-agent-owned:v1\"\n"@;
    let name = "table inet mbed_agent"@;
    reveal_strlit("delete table inet mbed_agent\n");
    reveal_strlit("table inet mbed_agent {\n    comment \"mbed-agent-owned:v1\"\n");
    reveal_strlit("table inet mbed_agent");
    let deleted = if state == NftablesTableState::AgentOwned {
        deleting
    } else {
        Seq::empty()
    };
    let n = deleted.len() as int;
    assert(s =~= deleted + opening + (inside + "}\n"@));
    assert(opening.take(name.len() as int) =~= name);
    assert(s.subrange(n, n + name.len()) =~= opening.take(name.len() as int));
    assert(text_at(s, name, n));
    if state == NftablesTableState::AgentOwned {
        assert(s.take(deleting.len() as int) =~= deleting);
    } else if starts(s, deleting) {
        assert(s[0] == 't');
        assert(s.take(deleting.len() as int)[0] == s[0]);
    }
    assert(!is_malformed(s)) by {
        reveal(is_plain);
    }
    law_rendered_table_is_recognised(objects, valid, changes, state);
}

} // verus!
