//! The restore artifacts of both iptables families change the managed chains only.

use vstd::prelude::*;

use crate::firewall_iptables::{
    addressed, all_filtered, all_matched, all_translated, all_zone_lines, alternatives, branched, chain_of,
    context_of, counted, crossed, declare_line, empty_context, endpoint, entry_text, family_restore, filter_table,
    filtered, fitting_protocols, flagged, flagged_bytes, flagged_networks, flagged_ports, flagged_protocols,
    forward_line, forwarded, forwarded_from, forwarded_to, headed, hook_line, icmp_flag, iptables_stage,
    is_double_quotable, is_prerouting, level_name, limit_text, log_line, logged, mangle_table, masquerade_line,
    matched, mtu_line, nat_chain, nat_table, opened, owned_chains, placed, policies, policy, policy_line, port_text,
    protocol_name, rule_line, set_expanded, set_from, set_options, state_name, states_text, target_of, translated,
    translation, transported, unsupported, with_dimension, with_object, with_sets, with_some_dimension, written,
    zone_lines, zone_policies, ChainBindingView, DraftView, ExpandedSetView, IpFamily, IptablesFamilyState,
    IptablesRenderErrorView, RenderContextView,
};
use crate::firewall_model::{
    FirewallConntrackState, FirewallDirection, FirewallFilterRuleView, FirewallLogLevel, FirewallMatchView,
    FirewallNatRuleView, FirewallObjectView, FirewallPlannedChangeView, FirewallProtocol, FirewallRateLimit,
    FirewallRejectKind, FirewallSetEntryView, FirewallVerdict, FirewallZoneView, PortRange,
};
use crate::firewall_project::projected;
use crate::firewall_zones::{dedup, filter_slot, interfaces_of, nat_slot, zone_from, zone_networks};
use crate::net::{
    address_format, groups_text, ipv4_format, longest_run, network_format, unpack, IpAddr, IpNetwork,
};
use crate::net_laws::lacks;
use crate::number_laws::{lemma_decimal, lemma_hex};
use crate::order::{law_text_order, sorted_texts, text_le};
use crate::text::{decimal, hex, is_ascii_control, is_digit, is_hex, starts};

verus! {

/// Whether a text has no line break.
#[verifier::opaque]
pub open spec fn is_inline(s: Seq<char>) -> bool {
    lacks(s, '\n')
}

/// Whether no text has a line break.
pub open spec fn all_inline(s: Seq<Seq<char>>) -> bool {
    forall|i: int| 0 <= i < s.len() ==> is_inline(#[trigger] s[i])
}

pub broadcast proof fn lemma_inline_add(a: Seq<char>, b: Seq<char>)
    requires
        is_inline(a),
        is_inline(b),
    ensures
        #[trigger] is_inline(a + b),
{
    reveal(is_inline);
    assert forall|i: int| 0 <= i < (a + b).len() implies #[trigger] (a + b)[i] != '\n' by {
        if i < a.len() {
            assert((a + b)[i] == a[i]);
        } else {
            assert((a + b)[i] == b[i - a.len()]);
        }
    }
}

pub proof fn lemma_inline_empty()
    ensures
        is_inline(Seq::empty()),
{
    reveal(is_inline);
}

proof fn lemma_words_a()
    ensures
        is_inline(" "@),
        is_inline("-s"@),
        is_inline("-d"@),
        is_inline("-i"@),
        is_inline("-o"@),
        is_inline("-p "@),
        is_inline("-m mac --mac-source"@),
        is_inline("--sport"@),
        is_inline("--dport"@),
        is_inline("tcp"@),
        is_inline("udp"@),
        is_inline("icmp"@),
        is_inline("ipv6-icmp"@),
        is_inline("esp"@),
        is_inline("ah"@),
        is_inline("gre"@),
{
    reveal(is_inline);
    assert(lacks(" "@, '\n')) by {
        reveal_strlit(" ");
        let s = " "@;
        assert forall|i: int| 0 <= i < s.len() implies #[trigger] s[i] != '\n' by {
            assert(i == 0);
        }
    }
    assert(lacks("-s"@, '\n')) by {
        reveal_strlit("-s");
        let s = "-s"@;
        assert forall|i: int| 0 <= i < s.len() implies #[trigger] s[i] != '\n' by {
            assert(i == 0 || i == 1);
        }
    }
    assert(lacks("-d"@, '\n')) by {
        reveal_strlit("-d");
        let s = "-d"@;
        assert forall|i: int| 0 <= i < s.len() implies #[trigger] s[i] != '\n' by {
            assert(i == 0 || i == 1);
        }
    }
    assert(lacks("-i"@, '\n')) by {
        reveal_strlit("-i");
        let s = "-i"@;
        assert forall|i: int| 0 <= i < s.len() implies #[trigger] s[i] != '\n' by {
            assert(i == 0 || i == 1);
        }
    }
    assert(lacks("-o"@, '\n')) by {
        reveal_strlit("-o");
        let s = "-o"@;
        assert forall|i: int| 0 <= i < s.len() implies #[trigger] s[i] != '\n' by {
            assert(i == 0 || i == 1);
        }
    }
    assert(lacks("-p "@, '\n')) by {
        reveal_strlit("-p ");
        let s = "-p "@;
        assert forall|i: int| 0 <= i < s.len() implies #[trigger] s[i] != '\n' by {
            assert(i == 0 || i == 1 || i == 2);
        }
    }
    assert(lacks("-m mac --mac-source"@, '\n')) by {
        reveal_strlit("-m mac --mac-source");
        let s = "-m mac --mac-source"@;
        assert forall|i: int| 0 <= i < s.len() implies #[trigger] s[i] != '\n' by {
            assert(i == 0 || i == 1 || i == 2 || i == 3 || i == 4 || i == 5 || i == 6 || i == 7
                || i == 8 || i == 9 || i == 10 || i == 11 || i == 12 || i == 13 || i == 14 || i == 15
                || i == 16 || i == 17 || i == 18);
        }
    }
    assert(lacks("--sport"@, '\n')) by {
        reveal_strlit("--sport");
        let s = "--sport"@;
        assert forall|i: int| 0 <= i < s.len() implies #[trigger] s[i] != '\n' by {
            assert(i == 0 || i == 1 || i == 2 || i == 3 || i == 4 || i == 5 || i == 6);
        }
    }
    assert(lacks("--dport"@, '\n')) by {
        reveal_strlit("--dport");
        let s = "--dport"@;
        assert forall|i: int| 0 <= i < s.len() implies #[trigger] s[i] != '\n' by {
            assert(i == 0 || i == 1 || i == 2 || i == 3 || i == 4 || i == 5 || i == 6);
        }
    }
    assert(lacks("tcp"@, '\n')) by {
        reveal_strlit("tcp");
        let s = "tcp"@;
        assert forall|i: int| 0 <= i < s.len() implies #[trigger] s[i] != '\n' by {
            assert(i == 0 || i == 1 || i == 2);
        }
    }
    assert(lacks("udp"@, '\n')) by {
        reveal_strlit("udp");
        let s = "udp"@;
        assert forall|i: int| 0 <= i < s.len() implies #[trigger] s[i] != '\n' by {
            assert(i == 0 || i == 1 || i == 2);
        }
    }
    assert(lacks("icmp"@, '\n')) by {
        reveal_strlit("icmp");
        let s = "icmp"@;
        assert forall|i: int| 0 <= i < s.len() implies #[trigger] s[i] != '\n' by {
            assert(i == 0 || i == 1 || i == 2 || i == 3);
        }
    }
    assert(lacks("ipv6-icmp"@, '\n')) by {
        reveal_strlit("ipv6-icmp");
        let s = "ipv6-icmp"@;
        assert forall|i: int| 0 <= i < s.len() implies #[trigger] s[i] != '\n' by {
            assert(i == 0 || i == 1 || i == 2 || i == 3 || i == 4 || i == 5 || i == 6 || i == 7
                || i == 8);
        }
    }
    assert(lacks("esp"@, '\n')) by {
        reveal_strlit("esp");
        let s = "esp"@;
        assert forall|i: int| 0 <= i < s.len() implies #[trigger] s[i] != '\n' by {
            assert(i == 0 || i == 1 || i == 2);
        }
    }
    assert(lacks("ah"@, '\n')) by {
        reveal_strlit("ah");
        let s = "ah"@;
        assert forall|i: int| 0 <= i < s.len() implies #[trigger] s[i] != '\n' by {
            assert(i == 0 || i == 1);
        }
    }
    assert(lacks("gre"@, '\n')) by {
        reveal_strlit("gre");
        let s = "gre"@;
        assert forall|i: int| 0 <= i < s.len() implies #[trigger] s[i] != '\n' by {
            assert(i == 0 || i == 1 || i == 2);
        }
    }
}

proof fn lemma_words_b()
    ensures
        is_inline("NEW"@),
        is_inline("ESTABLISHED"@),
        is_inline("RELATED"@),
        is_inline("INVALID"@),
        is_inline(","@),
        is_inline("-m conntrack --ctstate "@),
        is_inline("--icmp-type"@),
        is_inline("--icmpv6-type"@),
        is_inline("-A "@),
        is_inline("MBED_INPUT"@),
        is_inline("MBED_OUTPUT"@),
        is_inline("MBED_FORWARD"@),
        is_inline("MBED_PREROUTING"@),
        is_inline("MBED_POSTROUTING"@),
        is_inline("-j ACCEPT"@),
        is_inline("-j DROP"@),
{
    reveal(is_inline);
    assert(lacks("NEW"@, '\n')) by {
        reveal_strlit("NEW");
        let s = "NEW"@;
        assert forall|i: int| 0 <= i < s.len() implies #[trigger] s[i] != '\n' by {
            assert(i == 0 || i == 1 || i == 2);
        }
    }
    assert(lacks("ESTABLISHED"@, '\n')) by {
        reveal_strlit("ESTABLISHED");
        let s = "ESTABLISHED"@;
        assert forall|i: int| 0 <= i < s.len() implies #[trigger] s[i] != '\n' by {
            assert(i == 0 || i == 1 || i == 2 || i == 3 || i == 4 || i == 5 || i == 6 || i == 7
                || i == 8 || i == 9 || i == 10);
        }
    }
    assert(lacks("RELATED"@, '\n')) by {
        reveal_strlit("RELATED");
        let s = "RELATED"@;
        assert forall|i: int| 0 <= i < s.len() implies #[trigger] s[i] != '\n' by {
            assert(i == 0 || i == 1 || i == 2 || i == 3 || i == 4 || i == 5 || i == 6);
        }
    }
    assert(lacks("INVALID"@, '\n')) by {
        reveal_strlit("INVALID");
        let s = "INVALID"@;
        assert forall|i: int| 0 <= i < s.len() implies #[trigger] s[i] != '\n' by {
            assert(i == 0 || i == 1 || i == 2 || i == 3 || i == 4 || i == 5 || i == 6);
        }
    }
    assert(lacks(","@, '\n')) by {
        reveal_strlit(",");
        let s = ","@;
        assert forall|i: int| 0 <= i < s.len() implies #[trigger] s[i] != '\n' by {
            assert(i == 0);
        }
    }
    assert(lacks("-m conntrack --ctstate "@, '\n')) by {
        reveal_strlit("-m conntrack --ctstate ");
        let s = "-m conntrack --ctstate "@;
        assert forall|i: int| 0 <= i < s.len() implies #[trigger] s[i] != '\n' by {
            assert(i == 0 || i == 1 || i == 2 || i == 3 || i == 4 || i == 5 || i == 6 || i == 7
                || i == 8 || i == 9 || i == 10 || i == 11 || i == 12 || i == 13 || i == 14 || i == 15
                || i == 16 || i == 17 || i == 18 || i == 19 || i == 20 || i == 21 || i == 22);
        }
    }
    assert(lacks("--icmp-type"@, '\n')) by {
        reveal_strlit("--icmp-type");
        let s = "--icmp-type"@;
        assert forall|i: int| 0 <= i < s.len() implies #[trigger] s[i] != '\n' by {
            assert(i == 0 || i == 1 || i == 2 || i == 3 || i == 4 || i == 5 || i == 6 || i == 7
                || i == 8 || i == 9 || i == 10);
        }
    }
    assert(lacks("--icmpv6-type"@, '\n')) by {
        reveal_strlit("--icmpv6-type");
        let s = "--icmpv6-type"@;
        assert forall|i: int| 0 <= i < s.len() implies #[trigger] s[i] != '\n' by {
            assert(i == 0 || i == 1 || i == 2 || i == 3 || i == 4 || i == 5 || i == 6 || i == 7
                || i == 8 || i == 9 || i == 10 || i == 11 || i == 12);
        }
    }
    assert(lacks("-A "@, '\n')) by {
        reveal_strlit("-A ");
        let s = "-A "@;
        assert forall|i: int| 0 <= i < s.len() implies #[trigger] s[i] != '\n' by {
            assert(i == 0 || i == 1 || i == 2);
        }
    }
    assert(lacks("MBED_INPUT"@, '\n')) by {
        reveal_strlit("MBED_INPUT");
        let s = "MBED_INPUT"@;
        assert forall|i: int| 0 <= i < s.len() implies #[trigger] s[i] != '\n' by {
            assert(i == 0 || i == 1 || i == 2 || i == 3 || i == 4 || i == 5 || i == 6 || i == 7
                || i == 8 || i == 9);
        }
    }
    assert(lacks("MBED_OUTPUT"@, '\n')) by {
        reveal_strlit("MBED_OUTPUT");
        let s = "MBED_OUTPUT"@;
        assert forall|i: int| 0 <= i < s.len() implies #[trigger] s[i] != '\n' by {
            assert(i == 0 || i == 1 || i == 2 || i == 3 || i == 4 || i == 5 || i == 6 || i == 7
                || i == 8 || i == 9 || i == 10);
        }
    }
    assert(lacks("MBED_FORWARD"@, '\n')) by {
        reveal_strlit("MBED_FORWARD");
        let s = "MBED_FORWARD"@;
        assert forall|i: int| 0 <= i < s.len() implies #[trigger] s[i] != '\n' by {
            assert(i == 0 || i == 1 || i == 2 || i == 3 || i == 4 || i == 5 || i == 6 || i == 7
                || i == 8 || i == 9 || i == 10 || i == 11);
        }
    }
    assert(lacks("MBED_PREROUTING"@, '\n')) by {
        reveal_strlit("MBED_PREROUTING");
        let s = "MBED_PREROUTING"@;
        assert forall|i: int| 0 <= i < s.len() implies #[trigger] s[i] != '\n' by {
            assert(i == 0 || i == 1 || i == 2 || i == 3 || i == 4 || i == 5 || i == 6 || i == 7
                || i == 8 || i == 9 || i == 10 || i == 11 || i == 12 || i == 13 || i == 14);
        }
    }
    assert(lacks("MBED_POSTROUTING"@, '\n')) by {
        reveal_strlit("MBED_POSTROUTING");
        let s = "MBED_POSTROUTING"@;
        assert forall|i: int| 0 <= i < s.len() implies #[trigger] s[i] != '\n' by {
            assert(i == 0 || i == 1 || i == 2 || i == 3 || i == 4 || i == 5 || i == 6 || i == 7
                || i == 8 || i == 9 || i == 10 || i == 11 || i == 12 || i == 13 || i == 14 || i == 15);
        }
    }
    assert(lacks("-j ACCEPT"@, '\n')) by {
        reveal_strlit("-j ACCEPT");
        let s = "-j ACCEPT"@;
        assert forall|i: int| 0 <= i < s.len() implies #[trigger] s[i] != '\n' by {
            assert(i == 0 || i == 1 || i == 2 || i == 3 || i == 4 || i == 5 || i == 6 || i == 7
                || i == 8);
        }
    }
    assert(lacks("-j DROP"@, '\n')) by {
        reveal_strlit("-j DROP");
        let s = "-j DROP"@;
        assert forall|i: int| 0 <= i < s.len() implies #[trigger] s[i] != '\n' by {
            assert(i == 0 || i == 1 || i == 2 || i == 3 || i == 4 || i == 5 || i == 6);
        }
    }
}

proof fn lemma_words_c()
    ensures
        is_inline("-j REJECT"@),
        is_inline("-j REJECT --reject-with tcp-reset"@),
        is_inline("-j REJECT --reject-with icmp-port-unreachable"@),
        is_inline("-j REJECT --reject-with icmp-host-unreachable"@),
        is_inline("-j REJECT --reject-with icmp6-port-unreachable"@),
        is_inline("emerg"@),
        is_inline("alert"@),
        is_inline("crit"@),
        is_inline("error"@),
        is_inline("warning"@),
        is_inline("notice"@),
        is_inline("info"@),
        is_inline("debug"@),
        is_inline(" -m limit --limit 1/second --limit-burst 5 -m comment --comment mbed:"@),
        is_inline(" -j LOG --log-prefix \""@),
        is_inline("\" --log-level "@),
{
    reveal(is_inline);
    assert(lacks("-j REJECT"@, '\n')) by {
        reveal_strlit("-j REJECT");
        let s = "-j REJECT"@;
        assert forall|i: int| 0 <= i < s.len() implies #[trigger] s[i] != '\n' by {
            assert(i == 0 || i == 1 || i == 2 || i == 3 || i == 4 || i == 5 || i == 6 || i == 7
                || i == 8);
        }
    }
    assert(lacks("-j REJECT --reject-with tcp-reset"@, '\n')) by {
        reveal_strlit("-j REJECT --reject-with tcp-reset");
        let s = "-j REJECT --reject-with tcp-reset"@;
        assert forall|i: int| 0 <= i < s.len() implies #[trigger] s[i] != '\n' by {
            assert(i == 0 || i == 1 || i == 2 || i == 3 || i == 4 || i == 5 || i == 6 || i == 7
                || i == 8 || i == 9 || i == 10 || i == 11 || i == 12 || i == 13 || i == 14 || i == 15
                || i == 16 || i == 17 || i == 18 || i == 19 || i == 20 || i == 21 || i == 22 || i == 23
                || i == 24 || i == 25 || i == 26 || i == 27 || i == 28 || i == 29 || i == 30 || i == 31
                || i == 32);
        }
    }
    assert(lacks("-j REJECT --reject-with icmp-port-unreachable"@, '\n')) by {
        reveal_strlit("-j REJECT --reject-with icmp-port-unreachable");
        let s = "-j REJECT --reject-with icmp-port-unreachable"@;
        assert forall|i: int| 0 <= i < s.len() implies #[trigger] s[i] != '\n' by {
            assert(i == 0 || i == 1 || i == 2 || i == 3 || i == 4 || i == 5 || i == 6 || i == 7
                || i == 8 || i == 9 || i == 10 || i == 11 || i == 12 || i == 13 || i == 14 || i == 15
                || i == 16 || i == 17 || i == 18 || i == 19 || i == 20 || i == 21 || i == 22 || i == 23
                || i == 24 || i == 25 || i == 26 || i == 27 || i == 28 || i == 29 || i == 30 || i == 31
                || i == 32 || i == 33 || i == 34 || i == 35 || i == 36 || i == 37 || i == 38 || i == 39
                || i == 40 || i == 41 || i == 42 || i == 43 || i == 44);
        }
    }
    assert(lacks("-j REJECT --reject-with icmp-host-unreachable"@, '\n')) by {
        reveal_strlit("-j REJECT --reject-with icmp-host-unreachable");
        let s = "-j REJECT --reject-with icmp-host-unreachable"@;
        assert forall|i: int| 0 <= i < s.len() implies #[trigger] s[i] != '\n' by {
            assert(i == 0 || i == 1 || i == 2 || i == 3 || i == 4 || i == 5 || i == 6 || i == 7
                || i == 8 || i == 9 || i == 10 || i == 11 || i == 12 || i == 13 || i == 14 || i == 15
                || i == 16 || i == 17 || i == 18 || i == 19 || i == 20 || i == 21 || i == 22 || i == 23
                || i == 24 || i == 25 || i == 26 || i == 27 || i == 28 || i == 29 || i == 30 || i == 31
                || i == 32 || i == 33 || i == 34 || i == 35 || i == 36 || i == 37 || i == 38 || i == 39
                || i == 40 || i == 41 || i == 42 || i == 43 || i == 44);
        }
    }
    assert(lacks("-j REJECT --reject-with icmp6-port-unreachable"@, '\n')) by {
        reveal_strlit("-j REJECT --reject-with icmp6-port-unreachable");
        let s = "-j REJECT --reject-with icmp6-port-unreachable"@;
        assert forall|i: int| 0 <= i < s.len() implies #[trigger] s[i] != '\n' by {
            assert(i == 0 || i == 1 || i == 2 || i == 3 || i == 4 || i == 5 || i == 6 || i == 7
                || i == 8 || i == 9 || i == 10 || i == 11 || i == 12 || i == 13 || i == 14 || i == 15
                || i == 16 || i == 17 || i == 18 || i == 19 || i == 20 || i == 21 || i == 22 || i == 23
                || i == 24 || i == 25 || i == 26 || i == 27 || i == 28 || i == 29 || i == 30 || i == 31
                || i == 32 || i == 33 || i == 34 || i == 35 || i == 36 || i == 37 || i == 38 || i == 39
                || i == 40 || i == 41 || i == 42 || i == 43 || i == 44 || i == 45);
        }
    }
    assert(lacks("emerg"@, '\n')) by {
        reveal_strlit("emerg");
        let s = "emerg"@;
        assert forall|i: int| 0 <= i < s.len() implies #[trigger] s[i] != '\n' by {
            assert(i == 0 || i == 1 || i == 2 || i == 3 || i == 4);
        }
    }
    assert(lacks("alert"@, '\n')) by {
        reveal_strlit("alert");
        let s = "alert"@;
        assert forall|i: int| 0 <= i < s.len() implies #[trigger] s[i] != '\n' by {
            assert(i == 0 || i == 1 || i == 2 || i == 3 || i == 4);
        }
    }
    assert(lacks("crit"@, '\n')) by {
        reveal_strlit("crit");
        let s = "crit"@;
        assert forall|i: int| 0 <= i < s.len() implies #[trigger] s[i] != '\n' by {
            assert(i == 0 || i == 1 || i == 2 || i == 3);
        }
    }
    assert(lacks("error"@, '\n')) by {
        reveal_strlit("error");
        let s = "error"@;
        assert forall|i: int| 0 <= i < s.len() implies #[trigger] s[i] != '\n' by {
            assert(i == 0 || i == 1 || i == 2 || i == 3 || i == 4);
        }
    }
    assert(lacks("warning"@, '\n')) by {
        reveal_strlit("warning");
        let s = "warning"@;
        assert forall|i: int| 0 <= i < s.len() implies #[trigger] s[i] != '\n' by {
            assert(i == 0 || i == 1 || i == 2 || i == 3 || i == 4 || i == 5 || i == 6);
        }
    }
    assert(lacks("notice"@, '\n')) by {
        reveal_strlit("notice");
        let s = "notice"@;
        assert forall|i: int| 0 <= i < s.len() implies #[trigger] s[i] != '\n' by {
            assert(i == 0 || i == 1 || i == 2 || i == 3 || i == 4 || i == 5);
        }
    }
    assert(lacks("info"@, '\n')) by {
        reveal_strlit("info");
        let s = "info"@;
        assert forall|i: int| 0 <= i < s.len() implies #[trigger] s[i] != '\n' by {
            assert(i == 0 || i == 1 || i == 2 || i == 3);
        }
    }
    assert(lacks("debug"@, '\n')) by {
        reveal_strlit("debug");
        let s = "debug"@;
        assert forall|i: int| 0 <= i < s.len() implies #[trigger] s[i] != '\n' by {
            assert(i == 0 || i == 1 || i == 2 || i == 3 || i == 4);
        }
    }
    assert(lacks(" -m limit --limit 1/second --limit-burst 5 -m comment --comment mbed:"@, '\n')) by {
        reveal_strlit(" -m limit --limit 1/second --limit-burst 5 -m comment --comment mbed:");
        let s = " -m limit --limit 1/second --limit-burst 5 -m comment --comment mbed:"@;
        assert forall|i: int| 0 <= i < s.len() implies #[trigger] s[i] != '\n' by {
            assert(i == 0 || i == 1 || i == 2 || i == 3 || i == 4 || i == 5 || i == 6 || i == 7
                || i == 8 || i == 9 || i == 10 || i == 11 || i == 12 || i == 13 || i == 14 || i == 15
                || i == 16 || i == 17 || i == 18 || i == 19 || i == 20 || i == 21 || i == 22 || i == 23
                || i == 24 || i == 25 || i == 26 || i == 27 || i == 28 || i == 29 || i == 30 || i == 31
                || i == 32 || i == 33 || i == 34 || i == 35 || i == 36 || i == 37 || i == 38 || i == 39
                || i == 40 || i == 41 || i == 42 || i == 43 || i == 44 || i == 45 || i == 46 || i == 47
                || i == 48 || i == 49 || i == 50 || i == 51 || i == 52 || i == 53 || i == 54 || i == 55
                || i == 56 || i == 57 || i == 58 || i == 59 || i == 60 || i == 61 || i == 62 || i == 63
                || i == 64 || i == 65 || i == 66 || i == 67 || i == 68);
        }
    }
    assert(lacks(" -j LOG --log-prefix \""@, '\n')) by {
        reveal_strlit(" -j LOG --log-prefix \"");
        let s = " -j LOG --log-prefix \""@;
        assert forall|i: int| 0 <= i < s.len() implies #[trigger] s[i] != '\n' by {
            assert(i == 0 || i == 1 || i == 2 || i == 3 || i == 4 || i == 5 || i == 6 || i == 7
                || i == 8 || i == 9 || i == 10 || i == 11 || i == 12 || i == 13 || i == 14 || i == 15
                || i == 16 || i == 17 || i == 18 || i == 19 || i == 20 || i == 21);
        }
    }
    assert(lacks("\" --log-level "@, '\n')) by {
        reveal_strlit("\" --log-level ");
        let s = "\" --log-level "@;
        assert forall|i: int| 0 <= i < s.len() implies #[trigger] s[i] != '\n' by {
            assert(i == 0 || i == 1 || i == 2 || i == 3 || i == 4 || i == 5 || i == 6 || i == 7
                || i == 8 || i == 9 || i == 10 || i == 11 || i == 12 || i == 13);
        }
    }
}

proof fn lemma_words_d()
    ensures
        is_inline(" -m limit --limit "@),
        is_inline("/second --limit-burst "@),
        is_inline(" -m comment --comment mbed:"@),
        is_inline("-A MBED_FORWARD -i "@),
        is_inline(" -o "@),
        is_inline(" -m comment --comment mbed:zone:"@),
        is_inline("-A MBED_MANGLE_FORWARD -o "@),
        is_inline(" -p tcp --tcp-flags SYN,RST SYN -m comment --comment mbed:mtu:"@),
        is_inline("-A MBED_POSTROUTING -o "@),
        is_inline(" -m comment --comment mbed:masq:"@),
        is_inline("-j MASQUERADE"@),
        is_inline("-j REDIRECT --to-ports "@),
        is_inline("-j DNAT --to-destination "@),
        is_inline("-j SNAT --to-source "@),
        is_inline(":"@),
        is_inline("["@),
{
    reveal(is_inline);
    assert(lacks(" -m limit --limit "@, '\n')) by {
        reveal_strlit(" -m limit --limit ");
        let s = " -m limit --limit "@;
        assert forall|i: int| 0 <= i < s.len() implies #[trigger] s[i] != '\n' by {
            assert(i == 0 || i == 1 || i == 2 || i == 3 || i == 4 || i == 5 || i == 6 || i == 7
                || i == 8 || i == 9 || i == 10 || i == 11 || i == 12 || i == 13 || i == 14 || i == 15
                || i == 16 || i == 17);
        }
    }
    assert(lacks("/second --limit-burst "@, '\n')) by {
        reveal_strlit("/second --limit-burst ");
        let s = "/second --limit-burst "@;
        assert forall|i: int| 0 <= i < s.len() implies #[trigger] s[i] != '\n' by {
            assert(i == 0 || i == 1 || i == 2 || i == 3 || i == 4 || i == 5 || i == 6 || i == 7
                || i == 8 || i == 9 || i == 10 || i == 11 || i == 12 || i == 13 || i == 14 || i == 15
                || i == 16 || i == 17 || i == 18 || i == 19 || i == 20 || i == 21);
        }
    }
    assert(lacks(" -m comment --comment mbed:"@, '\n')) by {
        reveal_strlit(" -m comment --comment mbed:");
        let s = " -m comment --comment mbed:"@;
        assert forall|i: int| 0 <= i < s.len() implies #[trigger] s[i] != '\n' by {
            assert(i == 0 || i == 1 || i == 2 || i == 3 || i == 4 || i == 5 || i == 6 || i == 7
                || i == 8 || i == 9 || i == 10 || i == 11 || i == 12 || i == 13 || i == 14 || i == 15
                || i == 16 || i == 17 || i == 18 || i == 19 || i == 20 || i == 21 || i == 22 || i == 23
                || i == 24 || i == 25 || i == 26);
        }
    }
    assert(lacks("-A MBED_FORWARD -i "@, '\n')) by {
        reveal_strlit("-A MBED_FORWARD -i ");
        let s = "-A MBED_FORWARD -i "@;
        assert forall|i: int| 0 <= i < s.len() implies #[trigger] s[i] != '\n' by {
            assert(i == 0 || i == 1 || i == 2 || i == 3 || i == 4 || i == 5 || i == 6 || i == 7
                || i == 8 || i == 9 || i == 10 || i == 11 || i == 12 || i == 13 || i == 14 || i == 15
                || i == 16 || i == 17 || i == 18);
        }
    }
    assert(lacks(" -o "@, '\n')) by {
        reveal_strlit(" -o ");
        let s = " -o "@;
        assert forall|i: int| 0 <= i < s.len() implies #[trigger] s[i] != '\n' by {
            assert(i == 0 || i == 1 || i == 2 || i == 3);
        }
    }
    assert(lacks(" -m comment --comment mbed:zone:"@, '\n')) by {
        reveal_strlit(" -m comment --comment mbed:zone:");
        let s = " -m comment --comment mbed:zone:"@;
        assert forall|i: int| 0 <= i < s.len() implies #[trigger] s[i] != '\n' by {
            assert(i == 0 || i == 1 || i == 2 || i == 3 || i == 4 || i == 5 || i == 6 || i == 7
                || i == 8 || i == 9 || i == 10 || i == 11 || i == 12 || i == 13 || i == 14 || i == 15
                || i == 16 || i == 17 || i == 18 || i == 19 || i == 20 || i == 21 || i == 22 || i == 23
                || i == 24 || i == 25 || i == 26 || i == 27 || i == 28 || i == 29 || i == 30 || i == 31);
        }
    }
    assert(lacks("-A MBED_MANGLE_FORWARD -o "@, '\n')) by {
        reveal_strlit("-A MBED_MANGLE_FORWARD -o ");
        let s = "-A MBED_MANGLE_FORWARD -o "@;
        assert forall|i: int| 0 <= i < s.len() implies #[trigger] s[i] != '\n' by {
            assert(i == 0 || i == 1 || i == 2 || i == 3 || i == 4 || i == 5 || i == 6 || i == 7
                || i == 8 || i == 9 || i == 10 || i == 11 || i == 12 || i == 13 || i == 14 || i == 15
                || i == 16 || i == 17 || i == 18 || i == 19 || i == 20 || i == 21 || i == 22 || i == 23
                || i == 24 || i == 25);
        }
    }
    assert(lacks(" -p tcp --tcp-flags SYN,RST SYN -m comment --comment mbed:mtu:"@, '\n')) by {
        reveal_strlit(" -p tcp --tcp-flags SYN,RST SYN -m comment --comment mbed:mtu:");
        let s = " -p tcp --tcp-flags SYN,RST SYN -m comment --comment mbed:mtu:"@;
        assert forall|i: int| 0 <= i < s.len() implies #[trigger] s[i] != '\n' by {
            assert(i == 0 || i == 1 || i == 2 || i == 3 || i == 4 || i == 5 || i == 6 || i == 7
                || i == 8 || i == 9 || i == 10 || i == 11 || i == 12 || i == 13 || i == 14 || i == 15
                || i == 16 || i == 17 || i == 18 || i == 19 || i == 20 || i == 21 || i == 22 || i == 23
                || i == 24 || i == 25 || i == 26 || i == 27 || i == 28 || i == 29 || i == 30 || i == 31
                || i == 32 || i == 33 || i == 34 || i == 35 || i == 36 || i == 37 || i == 38 || i == 39
                || i == 40 || i == 41 || i == 42 || i == 43 || i == 44 || i == 45 || i == 46 || i == 47
                || i == 48 || i == 49 || i == 50 || i == 51 || i == 52 || i == 53 || i == 54 || i == 55
                || i == 56 || i == 57 || i == 58 || i == 59 || i == 60 || i == 61);
        }
    }
    assert(lacks("-A MBED_POSTROUTING -o "@, '\n')) by {
        reveal_strlit("-A MBED_POSTROUTING -o ");
        let s = "-A MBED_POSTROUTING -o "@;
        assert forall|i: int| 0 <= i < s.len() implies #[trigger] s[i] != '\n' by {
            assert(i == 0 || i == 1 || i == 2 || i == 3 || i == 4 || i == 5 || i == 6 || i == 7
                || i == 8 || i == 9 || i == 10 || i == 11 || i == 12 || i == 13 || i == 14 || i == 15
                || i == 16 || i == 17 || i == 18 || i == 19 || i == 20 || i == 21 || i == 22);
        }
    }
    assert(lacks(" -m comment --comment mbed:masq:"@, '\n')) by {
        reveal_strlit(" -m comment --comment mbed:masq:");
        let s = " -m comment --comment mbed:masq:"@;
        assert forall|i: int| 0 <= i < s.len() implies #[trigger] s[i] != '\n' by {
            assert(i == 0 || i == 1 || i == 2 || i == 3 || i == 4 || i == 5 || i == 6 || i == 7
                || i == 8 || i == 9 || i == 10 || i == 11 || i == 12 || i == 13 || i == 14 || i == 15
                || i == 16 || i == 17 || i == 18 || i == 19 || i == 20 || i == 21 || i == 22 || i == 23
                || i == 24 || i == 25 || i == 26 || i == 27 || i == 28 || i == 29 || i == 30 || i == 31);
        }
    }
    assert(lacks("-j MASQUERADE"@, '\n')) by {
        reveal_strlit("-j MASQUERADE");
        let s = "-j MASQUERADE"@;
        assert forall|i: int| 0 <= i < s.len() implies #[trigger] s[i] != '\n' by {
            assert(i == 0 || i == 1 || i == 2 || i == 3 || i == 4 || i == 5 || i == 6 || i == 7
                || i == 8 || i == 9 || i == 10 || i == 11 || i == 12);
        }
    }
    assert(lacks("-j REDIRECT --to-ports "@, '\n')) by {
        reveal_strlit("-j REDIRECT --to-ports ");
        let s = "-j REDIRECT --to-ports "@;
        assert forall|i: int| 0 <= i < s.len() implies #[trigger] s[i] != '\n' by {
            assert(i == 0 || i == 1 || i == 2 || i == 3 || i == 4 || i == 5 || i == 6 || i == 7
                || i == 8 || i == 9 || i == 10 || i == 11 || i == 12 || i == 13 || i == 14 || i == 15
                || i == 16 || i == 17 || i == 18 || i == 19 || i == 20 || i == 21 || i == 22);
        }
    }
    assert(lacks("-j DNAT --to-destination "@, '\n')) by {
        reveal_strlit("-j DNAT --to-destination ");
        let s = "-j DNAT --to-destination "@;
        assert forall|i: int| 0 <= i < s.len() implies #[trigger] s[i] != '\n' by {
            assert(i == 0 || i == 1 || i == 2 || i == 3 || i == 4 || i == 5 || i == 6 || i == 7
                || i == 8 || i == 9 || i == 10 || i == 11 || i == 12 || i == 13 || i == 14 || i == 15
                || i == 16 || i == 17 || i == 18 || i == 19 || i == 20 || i == 21 || i == 22 || i == 23
                || i == 24);
        }
    }
    assert(lacks("-j SNAT --to-source "@, '\n')) by {
        reveal_strlit("-j SNAT --to-source ");
        let s = "-j SNAT --to-source "@;
        assert forall|i: int| 0 <= i < s.len() implies #[trigger] s[i] != '\n' by {
            assert(i == 0 || i == 1 || i == 2 || i == 3 || i == 4 || i == 5 || i == 6 || i == 7
                || i == 8 || i == 9 || i == 10 || i == 11 || i == 12 || i == 13 || i == 14 || i == 15
                || i == 16 || i == 17 || i == 18 || i == 19);
        }
    }
    assert(lacks(":"@, '\n')) by {
        reveal_strlit(":");
        let s = ":"@;
        assert forall|i: int| 0 <= i < s.len() implies #[trigger] s[i] != '\n' by {
            assert(i == 0);
        }
    }
    assert(lacks("["@, '\n')) by {
        reveal_strlit("[");
        let s = "["@;
        assert forall|i: int| 0 <= i < s.len() implies #[trigger] s[i] != '\n' by {
            assert(i == 0);
        }
    }
}

proof fn lemma_words_e()
    ensures
        is_inline("]:"@),
        is_inline("."@),
        is_inline("/"@),
        is_inline("-"@),
        is_inline("::"@),
        is_inline("::ffff:"@),
{
    reveal(is_inline);
    assert(lacks("]:"@, '\n')) by {
        reveal_strlit("]:");
        let s = "]:"@;
        assert forall|i: int| 0 <= i < s.len() implies #[trigger] s[i] != '\n' by {
            assert(i == 0 || i == 1);
        }
    }
    assert(lacks("."@, '\n')) by {
        reveal_strlit(".");
        let s = "."@;
        assert forall|i: int| 0 <= i < s.len() implies #[trigger] s[i] != '\n' by {
            assert(i == 0);
        }
    }
    assert(lacks("/"@, '\n')) by {
        reveal_strlit("/");
        let s = "/"@;
        assert forall|i: int| 0 <= i < s.len() implies #[trigger] s[i] != '\n' by {
            assert(i == 0);
        }
    }
    assert(lacks("-"@, '\n')) by {
        reveal_strlit("-");
        let s = "-"@;
        assert forall|i: int| 0 <= i < s.len() implies #[trigger] s[i] != '\n' by {
            assert(i == 0);
        }
    }
    assert(lacks("::"@, '\n')) by {
        reveal_strlit("::");
        let s = "::"@;
        assert forall|i: int| 0 <= i < s.len() implies #[trigger] s[i] != '\n' by {
            assert(i == 0 || i == 1);
        }
    }
    assert(lacks("::ffff:"@, '\n')) by {
        reveal_strlit("::ffff:");
        let s = "::ffff:"@;
        assert forall|i: int| 0 <= i < s.len() implies #[trigger] s[i] != '\n' by {
            assert(i == 0 || i == 1 || i == 2 || i == 3 || i == 4 || i == 5 || i == 6);
        }
    }
}

/// The words that rules are made of have no line breaks.
pub proof fn lemma_words()
    ensures
        is_inline(" "@),
        is_inline("-s"@),
        is_inline("-d"@),
        is_inline("-i"@),
        is_inline("-o"@),
        is_inline("-p "@),
        is_inline("-m mac --mac-source"@),
        is_inline("--sport"@),
        is_inline("--dport"@),
        is_inline("tcp"@),
        is_inline("udp"@),
        is_inline("icmp"@),
        is_inline("ipv6-icmp"@),
        is_inline("esp"@),
        is_inline("ah"@),
        is_inline("gre"@),
        is_inline("NEW"@),
        is_inline("ESTABLISHED"@),
        is_inline("RELATED"@),
        is_inline("INVALID"@),
        is_inline(","@),
        is_inline("-m conntrack --ctstate "@),
        is_inline("--icmp-type"@),
        is_inline("--icmpv6-type"@),
        is_inline("-A "@),
        is_inline("MBED_INPUT"@),
        is_inline("MBED_OUTPUT"@),
        is_inline("MBED_FORWARD"@),
        is_inline("MBED_PREROUTING"@),
        is_inline("MBED_POSTROUTING"@),
        is_inline("-j ACCEPT"@),
        is_inline("-j DROP"@),
        is_inline("-j REJECT"@),
        is_inline("-j REJECT --reject-with tcp-reset"@),
        is_inline("-j REJECT --reject-with icmp-port-unreachable"@),
        is_inline("-j REJECT --reject-with icmp-host-unreachable"@),
        is_inline("-j REJECT --reject-with icmp6-port-unreachable"@),
        is_inline("emerg"@),
        is_inline("alert"@),
        is_inline("crit"@),
        is_inline("error"@),
        is_inline("warning"@),
        is_inline("notice"@),
        is_inline("info"@),
        is_inline("debug"@),
        is_inline(" -m limit --limit 1/second --limit-burst 5 -m comment --comment mbed:"@),
        is_inline(" -j LOG --log-prefix \""@),
        is_inline("\" --log-level "@),
        is_inline(" -m limit --limit "@),
        is_inline("/second --limit-burst "@),
        is_inline(" -m comment --comment mbed:"@),
        is_inline("-A MBED_FORWARD -i "@),
        is_inline(" -o "@),
        is_inline(" -m comment --comment mbed:zone:"@),
        is_inline("-A MBED_MANGLE_FORWARD -o "@),
        is_inline(" -p tcp --tcp-flags SYN,RST SYN -m comment --comment mbed:mtu:"@),
        is_inline("-A MBED_POSTROUTING -o "@),
        is_inline(" -m comment --comment mbed:masq:"@),
        is_inline("-j MASQUERADE"@),
        is_inline("-j REDIRECT --to-ports "@),
        is_inline("-j DNAT --to-destination "@),
        is_inline("-j SNAT --to-source "@),
        is_inline(":"@),
        is_inline("["@),
        is_inline("]:"@),
        is_inline("."@),
        is_inline("/"@),
        is_inline("-"@),
        is_inline("::"@),
        is_inline("::ffff:"@),
        is_inline(Seq::empty()),
{
    lemma_words_a();
    lemma_words_b();
    lemma_words_c();
    lemma_words_d();
    lemma_words_e();
    lemma_inline_empty();
}

/// Whether a text is one line, with the line break that ends it.
#[verifier::opaque]
pub open spec fn is_one_line(line: Seq<char>) -> bool {
    line.len() > 0 && line.last() == '\n' && is_inline(line.drop_last())
}

pub proof fn lemma_line_tail(a: Seq<char>, b: Seq<char>)
    requires
        is_inline(a),
        is_one_line(b),
    ensures
        is_one_line(a + b),
{
    reveal(is_one_line);
    lemma_inline_add(a, b.drop_last());
    assert((a + b).drop_last() =~= a + b.drop_last());
    assert((a + b).last() == b.last());
}

/// The ends of lines.
pub proof fn lemma_line_ends()
    ensures
        is_one_line("\n"@),
        is_one_line(" -j ACCEPT\n"@),
        is_one_line(" -j TCPMSS --clamp-mss-to-pmtu\n"@),
        is_one_line(" -j MASQUERADE\n"@),
        is_one_line("COMMIT\n"@),
        is_one_line(" - [0:0]\n"@),
{
    reveal(is_one_line);
    reveal(is_inline);
    assert(is_one_line("\n"@)) by {
        reveal_strlit("\n");
        let s = "\n"@;
        assert forall|i: int| 0 <= i < s.drop_last().len() implies #[trigger] s.drop_last()[i] != '\n' by {
            assert(false);
            assert(s.drop_last()[i] == s[i]);
        }
    }
    assert(is_one_line(" -j ACCEPT\n"@)) by {
        reveal_strlit(" -j ACCEPT\n");
        let s = " -j ACCEPT\n"@;
        assert forall|i: int| 0 <= i < s.drop_last().len() implies #[trigger] s.drop_last()[i] != '\n' by {
            assert(i == 0 || i == 1 || i == 2 || i == 3 || i == 4 || i == 5 || i == 6 || i == 7
                || i == 8 || i == 9);
            assert(s.drop_last()[i] == s[i]);
        }
    }
    assert(is_one_line(" -j TCPMSS --clamp-mss-to-pmtu\n"@)) by {
        reveal_strlit(" -j TCPMSS --clamp-mss-to-pmtu\n");
        let s = " -j TCPMSS --clamp-mss-to-pmtu\n"@;
        assert forall|i: int| 0 <= i < s.drop_last().len() implies #[trigger] s.drop_last()[i] != '\n' by {
            assert(i == 0 || i == 1 || i == 2 || i == 3 || i == 4 || i == 5 || i == 6 || i == 7
                || i == 8 || i == 9 || i == 10 || i == 11 || i == 12 || i == 13 || i == 14 || i == 15
                || i == 16 || i == 17 || i == 18 || i == 19 || i == 20 || i == 21 || i == 22 || i == 23
                || i == 24 || i == 25 || i == 26 || i == 27 || i == 28 || i == 29);
            assert(s.drop_last()[i] == s[i]);
        }
    }
    assert(is_one_line(" -j MASQUERADE\n"@)) by {
        reveal_strlit(" -j MASQUERADE\n");
        let s = " -j MASQUERADE\n"@;
        assert forall|i: int| 0 <= i < s.drop_last().len() implies #[trigger] s.drop_last()[i] != '\n' by {
            assert(i == 0 || i == 1 || i == 2 || i == 3 || i == 4 || i == 5 || i == 6 || i == 7
                || i == 8 || i == 9 || i == 10 || i == 11 || i == 12 || i == 13);
            assert(s.drop_last()[i] == s[i]);
        }
    }
    assert(is_one_line("COMMIT\n"@)) by {
        reveal_strlit("COMMIT\n");
        let s = "COMMIT\n"@;
        assert forall|i: int| 0 <= i < s.drop_last().len() implies #[trigger] s.drop_last()[i] != '\n' by {
            assert(i == 0 || i == 1 || i == 2 || i == 3 || i == 4 || i == 5);
            assert(s.drop_last()[i] == s[i]);
        }
    }
    assert(is_one_line(" - [0:0]\n"@)) by {
        reveal_strlit(" - [0:0]\n");
        let s = " - [0:0]\n"@;
        assert forall|i: int| 0 <= i < s.drop_last().len() implies #[trigger] s.drop_last()[i] != '\n' by {
            assert(i == 0 || i == 1 || i == 2 || i == 3 || i == 4 || i == 5 || i == 6 || i == 7);
            assert(s.drop_last()[i] == s[i]);
        }
    }
}

/// Whether a line belongs to the managed chains: it opens or commits a table, declares a managed chain,
/// appends a rule to one, or, where these are wanted, is one of the six jumps to them.
pub open spec fn is_owned_line(hooks: bool, line: Seq<char>) -> bool {
    starts(line, "*"@) || starts(line, ":MBED_"@) || starts(line, "-A MBED_"@) || starts(
        line,
        "COMMIT\n"@,
    ) || (hooks && exists|k: int|
        0 <= k < 6 && starts(line, hook_line(#[trigger] owned_chains()[k])))
}

/// Whether a line of a text begins at an index.
pub open spec fn opens_line(text: Seq<char>, k: int) -> bool {
    0 <= k < text.len() && (k == 0 || text[k - 1] == '\n')
}

/// How many lines of a text, of those that begin below `k`, are a given one.
pub open spec fn line_count(text: Seq<char>, line: Seq<char>, k: int) -> nat
    decreases k,
{
    if k <= 0 {
        0
    } else {
        line_count(text, line, k - 1) + (if opens_line(text, k - 1) && starts(
            text.skip(k - 1),
            line,
        ) {
            1nat
        } else {
            0nat
        })
    }
}

/// Whether every line of a text belongs to the managed chains, and the jump to one of them is there a
/// given number of times.
#[verifier::opaque]
pub open spec fn is_isolated(hooks: bool, q: int, n: nat, text: Seq<char>) -> bool {
    (text.len() == 0 || text.last() == '\n') && (forall|k: int| #[trigger]
        opens_line(text, k) ==> is_owned_line(hooks, text.skip(k))) && line_count(
        text,
        hook_line(owned_chains()[q]),
        text.len() as int,
    ) == n
}

pub broadcast proof fn lemma_starts_add(a: Seq<char>, b: Seq<char>, p: Seq<char>)
    requires
        starts(a, p),
    ensures
        #[trigger] starts(a + b, p),
{
    assert((a + b).take(p.len() as int) =~= a.take(p.len() as int));
}

proof fn lemma_owned_add(hooks: bool, a: Seq<char>, b: Seq<char>)
    requires
        is_owned_line(hooks, a),
    ensures
        is_owned_line(hooks, a + b),
{
    if starts(a, "*"@) {
        lemma_starts_add(a, b, "*"@);
    } else if starts(a, ":MBED_"@) {
        lemma_starts_add(a, b, ":MBED_"@);
    } else if starts(a, "-A MBED_"@) {
        lemma_starts_add(a, b, "-A MBED_"@);
    } else if starts(a, "COMMIT\n"@) {
        lemma_starts_add(a, b, "COMMIT\n"@);
    } else {
        let k = choose|k: int| 0 <= k < 6 && starts(a, hook_line(#[trigger] owned_chains()[k]));
        lemma_starts_add(a, b, hook_line(owned_chains()[k]));
    }
}

/// A line behind a text leaves the lines before it as they are.
proof fn lemma_count_kept(text: Seq<char>, line: Seq<char>, p: Seq<char>, k: int)
    requires
        text.len() == 0 || text.last() == '\n',
        is_one_line(p),
        0 <= k <= text.len(),
    ensures
        line_count(text + line, p, k) == line_count(text, p, k),
    decreases k,
{
    if k > 0 {
        lemma_count_kept(text, line, p, k - 1);
        let all = text + line;
        let j = k - 1;
        if j > 0 {
            assert(all[j - 1] == text[j - 1]);
        }
        assert(opens_line(all, j) == opens_line(text, j));
        assert(all.skip(j) =~= text.skip(j) + line);
        if starts(text.skip(j), p) {
            lemma_starts_add(text.skip(j), line, p);
        } else if starts(all.skip(j), p) {
            let m = text.len() - j;
            if p.len() <= m {
                assert(text.skip(j).take(p.len() as int) =~= all.skip(j).take(p.len() as int));
            } else {
                reveal(is_one_line);
                reveal(is_inline);
                assert(all.skip(j).take(p.len() as int)[m - 1] == p[m - 1]);
                assert(all.skip(j)[m - 1] == text.last());
                assert(p.drop_last()[m - 1] == p[m - 1]);
            }
        }
    }
}

/// A line behind a text counts once where it is the given one.
proof fn lemma_count_line(text: Seq<char>, line: Seq<char>, p: Seq<char>, k: int)
    requires
        text.len() == 0 || text.last() == '\n',
        is_one_line(p),
        is_one_line(line),
        text.len() < k <= text.len() + line.len(),
    ensures
        line_count(text + line, p, k) == line_count(text, p, text.len() as int) + (if starts(line, p) {
            1nat
        } else {
            0nat
        }),
    decreases k,
{
    reveal(is_one_line);
    reveal(is_inline);
    let all = text + line;
    let j = k - 1;
    if j == text.len() {
        lemma_count_kept(text, line, p, j);
        if j > 0 {
            assert(all[j - 1] == text.last());
        }
        assert(all.skip(j) =~= line);
        assert(opens_line(all, j));
    } else {
        lemma_count_line(text, line, p, j);
        assert(all[j - 1] == line[j - 1 - text.len()]);
        assert(line.drop_last()[j - 1 - text.len()] == line[j - 1 - text.len()]);
        assert(!opens_line(all, j));
    }
}

proof fn lemma_append(hooks: bool, q: int, n: nat, text: Seq<char>, line: Seq<char>)
    requires
        0 <= q < 6,
        is_isolated(hooks, q, n, text),
        is_one_line(line),
        is_owned_line(hooks, line),
    ensures
        is_isolated_more(hooks, q, n, starts(line, hook_line(owned_chains()[q])), text + line),
{
    let p = hook_line(owned_chains()[q]);
    lemma_head_lines(hooks, q);
    assert(text.len() == 0 || text.last() == '\n') by {
        reveal(is_isolated);
    }
    assert(line.len() > 0) by {
        reveal(is_one_line);
    }
    lemma_count_line(text, line, p, (text + line).len() as int);
    reveal(is_isolated);
    reveal(is_one_line);
    reveal(is_inline);
    let all = text + line;
    assert(all.last() == line.last());
    assert forall|k: int| #[trigger] opens_line(all, k) implies is_owned_line(hooks, all.skip(k)) by {
        if k < text.len() {
            assert(all[k] == text[k]);
            if k > 0 {
                assert(all[k - 1] == text[k - 1]);
            }
            assert(opens_line(text, k));
            assert(all.skip(k) =~= text.skip(k) + line);
            lemma_owned_add(hooks, text.skip(k), line);
        } else if k == text.len() {
            assert(all.skip(k) =~= line);
        } else {
            assert(all[k - 1] == line[k - 1 - text.len()]);
            assert(line.drop_last()[k - 1 - text.len()] == line[k - 1 - text.len()]);
        }
    }
}

/// Whether a text is isolated, with one jump more where one was added.
pub open spec fn is_isolated_more(
    hooks: bool,
    q: int,
    n: nat,
    more: bool,
    text: Seq<char>,
) -> bool {
    if more {
        is_isolated(hooks, q, (n + 1) as nat, text)
    } else {
        is_isolated(hooks, q, n, text)
    }
}

/// A line that is no jump from a chain of the system.
pub proof fn lemma_not_hook(q: int, line: Seq<char>)
    requires
        0 <= q < 6,
        starts(line, "-A MBED_"@) || starts(line, "*"@) || starts(line, ":MBED_"@) || starts(
            line,
            "COMMIT\n"@,
        ),
    ensures
        !starts(line, hook_line(owned_chains()[q])),
{
    reveal_strlit("-A MBED_");
    reveal_strlit("*");
    reveal_strlit(":MBED_");
    reveal_strlit("COMMIT\n");
    reveal_strlit("-A ");
    reveal_strlit("INPUT");
    reveal_strlit("OUTPUT");
    reveal_strlit("FORWARD");
    reveal_strlit("PREROUTING");
    reveal_strlit("POSTROUTING");
    let p = hook_line(owned_chains()[q]);
    let c = owned_chains()[q];
    assert(c.builtin == "INPUT"@ || c.builtin == "OUTPUT"@ || c.builtin == "FORWARD"@ || c.builtin
        == "PREROUTING"@ || c.builtin == "POSTROUTING"@);
    assert(p[0] == '-');
    assert(p[3] == c.builtin[0]);
    assert(p[3] != 'M');
    if starts(line, p) {
        assert(line.take(p.len() as int)[0] == line[0]);
        assert(line.take(p.len() as int)[3] == line[3]);
        if starts(line, "-A MBED_"@) {
            assert(line.take(8)[3] == line[3]);
        } else if starts(line, "*"@) {
            assert(line.take(1)[0] == line[0]);
        } else if starts(line, ":MBED_"@) {
            assert(line.take(6)[0] == line[0]);
        } else {
            assert(line.take(7)[0] == line[0]);
        }
    }
}

proof fn lemma_append_rule(hooks: bool, q: int, n: nat, text: Seq<char>, line: Seq<char>)
    requires
        0 <= q < 6,
        is_isolated(hooks, q, n, text),
        is_one_line(line),
        starts(line, "-A MBED_"@),
    ensures
        is_isolated(hooks, q, n, text + line),
{
    lemma_not_hook(q, line);
    lemma_append(hooks, q, n, text, line);
}

proof fn lemma_append_other(hooks: bool, q: int, n: nat, text: Seq<char>, line: Seq<char>)
    requires
        0 <= q < 6,
        is_isolated(hooks, q, n, text),
        is_one_line(line),
        starts(line, "*"@) || starts(line, ":MBED_"@) || starts(line, "COMMIT\n"@),
    ensures
        is_isolated(hooks, q, n, text + line),
{
    lemma_not_hook(q, line);
    lemma_append(hooks, q, n, text, line);
}

/// A rule of a managed chain.
proof fn lemma_chain_start(chain: Seq<char>)
    requires
        chain == "MBED_INPUT"@ || chain == "MBED_OUTPUT"@ || chain == "MBED_FORWARD"@ || chain
            == "MBED_PREROUTING"@ || chain == "MBED_POSTROUTING"@,
    ensures
        starts("-A "@ + chain, "-A MBED_"@),
{
    reveal_strlit("-A ");
    reveal_strlit("-A MBED_");
    reveal_strlit("MBED_INPUT");
    reveal_strlit("MBED_OUTPUT");
    reveal_strlit("MBED_FORWARD");
    reveal_strlit("MBED_PREROUTING");
    reveal_strlit("MBED_POSTROUTING");
    let s = "-A "@ + chain;
    assert(s.take(8) =~= "-A MBED_"@);
}

pub proof fn lemma_decimal_inline(n: nat)
    ensures
        is_inline(decimal(n)),
{
    reveal(is_inline);
    lemma_decimal(n);
    assert forall|i: int| 0 <= i < decimal(n).len() implies #[trigger] decimal(n)[i] != '\n' by {
        assert(is_digit(decimal(n)[i]));
    }
}

pub proof fn lemma_hex_inline(n: nat)
    ensures
        is_inline(hex(n)),
{
    reveal(is_inline);
    lemma_hex(n);
    assert forall|i: int| 0 <= i < hex(n).len() implies #[trigger] hex(n)[i] != '\n' by {
        assert(is_hex(hex(n)[i]));
    }
}

proof fn lemma_quad_inline(n: nat)
    ensures
        is_inline(ipv4_format(n)),
{
    broadcast use lemma_inline_add;

    lemma_words();
    lemma_decimal_inline(n / 16777216 % 256);
    lemma_decimal_inline(n / 65536 % 256);
    lemma_decimal_inline(n / 256 % 256);
    lemma_decimal_inline(n % 256);
}

proof fn lemma_groups_inline(acc: Seq<char>, g: Seq<nat>, from: int, i: int, to: int)
    requires
        is_inline(acc),
    ensures
        is_inline(groups_text(acc, g, from, i, to)),
    decreases to - i,
{
    broadcast use lemma_inline_add;

    lemma_words();
    if i < to {
        lemma_hex_inline(g[i]);
        if i == from {
            lemma_groups_inline(acc + hex(g[i]), g, from, i + 1, to);
        } else {
            lemma_groups_inline(acc + ":"@ + hex(g[i]), g, from, i + 1, to);
        }
    }
}

pub proof fn lemma_address_inline(a: IpAddr)
    ensures
        is_inline(address_format(a)),
{
    broadcast use lemma_inline_add;

    lemma_words();
    match a {
        IpAddr::V4(n) => {
            lemma_quad_inline(n as nat);
        },
        IpAddr::V6(n) => {
            let n = n as nat;
            let g = unpack(n);
            let best = longest_run(g, 0, (0, 0));
            lemma_quad_inline(n % 0x1_0000_0000);
            lemma_groups_inline(Seq::empty(), g, 0, 0, 8);
            lemma_groups_inline(Seq::empty(), g, 0, 0, best.0);
            let left = groups_text(Seq::empty(), g, 0, 0, best.0) + "::"@;
            lemma_groups_inline(left, g, best.0 + best.1, best.0 + best.1, 8);
        },
    }
}

pub proof fn lemma_network_inline(n: IpNetwork)
    ensures
        is_inline(network_format(n)),
{
    broadcast use lemma_inline_add;

    lemma_words();
    lemma_address_inline(n.address);
    lemma_decimal_inline(n.prefix_len as nat);
}

proof fn lemma_port_inline(p: PortRange)
    ensures
        is_inline(port_text(p)),
{
    broadcast use lemma_inline_add;

    lemma_words();
    lemma_decimal_inline(p.start as nat);
    lemma_decimal_inline(p.end as nat);
}

proof fn lemma_branched(acc: Seq<Seq<char>>, base: Seq<char>, options: Seq<Seq<char>>, j: int)
    requires
        all_inline(acc),
        is_inline(base),
        all_inline(options),
        0 <= j,
    ensures
        all_inline(branched(acc, base, options, j)),
    decreases options.len() - j,
{
    broadcast use lemma_inline_add;

    lemma_words();
    if j < options.len() {
        assert(is_inline(options[j]));
        assert(is_inline(base + " "@ + options[j]));
        lemma_branched(acc.push(base + " "@ + options[j]), base, options, j + 1);
    }
}

proof fn lemma_crossed(acc: Seq<Seq<char>>, bases: Seq<Seq<char>>, options: Seq<Seq<char>>, i: int)
    requires
        all_inline(acc),
        all_inline(bases),
        all_inline(options),
        0 <= i,
    ensures
        all_inline(crossed(acc, bases, options, i)),
    decreases bases.len() - i,
{
    if i < bases.len() {
        assert(is_inline(bases[i]));
        lemma_branched(acc, bases[i], options, 0);
        lemma_crossed(branched(acc, bases[i], options, 0), bases, options, i + 1);
    }
}

/// Whether alternatives, where there are any, have no line breaks.
pub open spec fn inline_result(v: Result<Seq<Seq<char>>, IptablesRenderErrorView>) -> bool {
    v matches Ok(s) ==> all_inline(s)
}

proof fn lemma_dimension(v: Seq<Seq<char>>, options: Seq<Seq<char>>)
    requires
        all_inline(v),
        all_inline(options),
    ensures
        inline_result(with_dimension(v, options)),
{
    lemma_crossed(Seq::empty(), v, options, 0);
}

proof fn lemma_some_dimension(
    v: Result<Seq<Seq<char>>, IptablesRenderErrorView>,
    test: bool,
    options: Seq<Seq<char>>,
)
    requires
        inline_result(v),
        test ==> all_inline(options),
    ensures
        inline_result(with_some_dimension(v, test, options)),
{
    if v is Ok && test {
        lemma_dimension(v->Ok_0, options);
    }
}

proof fn lemma_flagged(flag: Seq<char>, values: Seq<Seq<char>>)
    requires
        is_inline(flag),
        all_inline(values),
    ensures
        all_inline(flagged(flag, values)),
{
    broadcast use lemma_inline_add;

    lemma_words();
    let s = flagged(flag, values);
    assert forall|i: int| 0 <= i < s.len() implies is_inline(#[trigger] s[i]) by {
        assert(is_inline(values[i]));
    }
}

proof fn lemma_flagged_networks(
    acc: Seq<Seq<char>>,
    flag: Seq<char>,
    n: Seq<IpNetwork>,
    family: IpFamily,
    i: int,
)
    requires
        all_inline(acc),
        is_inline(flag),
        0 <= i,
    ensures
        all_inline(flagged_networks(acc, flag, n, family, i)),
    decreases n.len() - i,
{
    broadcast use lemma_inline_add;

    lemma_words();
    if i < n.len() {
        lemma_network_inline(n[i]);
        lemma_flagged_networks(
            acc.push(flag + " "@ + network_format(n[i])),
            flag,
            n,
            family,
            i + 1,
        );
        lemma_flagged_networks(acc, flag, n, family, i + 1);
    }
}

proof fn lemma_flagged_ports(flag: Seq<char>, p: Seq<PortRange>)
    requires
        is_inline(flag),
    ensures
        all_inline(flagged_ports(flag, p)),
{
    broadcast use lemma_inline_add;

    lemma_words();
    let s = flagged_ports(flag, p);
    assert forall|i: int| 0 <= i < s.len() implies is_inline(#[trigger] s[i]) by {
        lemma_port_inline(p[i]);
    }
}

proof fn lemma_flagged_bytes(flag: Seq<char>, b: Seq<u8>)
    requires
        is_inline(flag),
    ensures
        all_inline(flagged_bytes(flag, b)),
{
    broadcast use lemma_inline_add;

    lemma_words();
    let s = flagged_bytes(flag, b);
    assert forall|i: int| 0 <= i < s.len() implies is_inline(#[trigger] s[i]) by {
        lemma_decimal_inline(b[i] as nat);
    }
}

proof fn lemma_flagged_protocols(p: Seq<FirewallProtocol>)
    ensures
        all_inline(flagged_protocols(p)),
{
    broadcast use lemma_inline_add;

    lemma_words();
    let s = flagged_protocols(p);
    assert forall|i: int| 0 <= i < s.len() implies is_inline(#[trigger] s[i]) by {
        assert(is_inline(protocol_name(p[i])));
    }
}

proof fn lemma_states(acc: Seq<char>, s: Seq<FirewallConntrackState>, i: int)
    requires
        is_inline(acc),
    ensures
        is_inline(states_text(acc, s, i)),
    decreases s.len() - i,
{
    broadcast use lemma_inline_add;

    lemma_words();
    if 0 <= i < s.len() {
        assert(is_inline(state_name(s[i])));
        lemma_states(acc + state_name(s[i]), s, i + 1);
        lemma_states(acc + ","@ + state_name(s[i]), s, i + 1);
    }
}

/// Whether the names that a match holds have no line breaks.
pub open spec fn is_inline_match(m: FirewallMatchView) -> bool {
    all_inline(m.input_interfaces) && all_inline(m.output_interfaces) && all_inline(m.source_macs)
}

proof fn lemma_placed(
    m: FirewallMatchView,
    direction: FirewallDirection,
    sources: Seq<Seq<char>>,
    destinations: Seq<Seq<char>>,
)
    requires
        is_inline_match(m),
        all_inline(sources),
        all_inline(destinations),
    ensures
        inline_result(placed(m, direction, sources, destinations)),
{
    lemma_words();
    let flag = if direction == FirewallDirection::Output {
        "-o"@
    } else {
        "-i"@
    };
    lemma_flagged(flag, sources);
    lemma_flagged("-o"@, destinations);
    lemma_flagged("-i"@, m.input_interfaces);
    lemma_flagged("-o"@, m.output_interfaces);
    let start = Ok::<Seq<Seq<char>>, IptablesRenderErrorView>(seq![Seq::empty()]);
    assert(all_inline(start->Ok_0));
    lemma_some_dimension(start, sources.len() > 0, flagged(flag, sources));
    let zoned = with_some_dimension(start, sources.len() > 0, flagged(flag, sources));
    let both = match zoned {
        Err(e) => Err(e),
        Ok(v) => if destinations.len() > 0 && direction != FirewallDirection::Forward {
            unsupported("destination zone for non-forward direction"@)
        } else {
            with_some_dimension(Ok(v), destinations.len() > 0, flagged("-o"@, destinations))
        },
    };
    lemma_some_dimension(zoned, destinations.len() > 0, flagged("-o"@, destinations));
    assert(inline_result(both));
    lemma_some_dimension(both, m.input_interfaces.len() > 0, flagged("-i"@, m.input_interfaces));
    let input = with_some_dimension(
        both,
        m.input_interfaces.len() > 0,
        flagged("-i"@, m.input_interfaces),
    );
    lemma_some_dimension(input, m.output_interfaces.len() > 0, flagged("-o"@, m.output_interfaces));
}

proof fn lemma_addressed(
    v: Result<Seq<Seq<char>>, IptablesRenderErrorView>,
    m: FirewallMatchView,
    family: IpFamily,
)
    requires
        inline_result(v),
        is_inline_match(m),
    ensures
        inline_result(addressed(v, m, family)),
{
    lemma_words();
    let none = Seq::<Seq<char>>::empty();
    let a = flagged_networks(none, "-s"@, m.source_networks, family, 0);
    let b = flagged_networks(none, "-d"@, m.destination_networks, family, 0);
    let c = flagged("-m mac --mac-source"@, m.source_macs);
    lemma_flagged_networks(none, "-s"@, m.source_networks, family, 0);
    lemma_flagged_networks(none, "-d"@, m.destination_networks, family, 0);
    lemma_flagged("-m mac --mac-source"@, m.source_macs);
    lemma_some_dimension(v, m.source_networks.len() > 0, a);
    let v1 = with_some_dimension(v, m.source_networks.len() > 0, a);
    lemma_some_dimension(v1, m.destination_networks.len() > 0, b);
    let v2 = with_some_dimension(v1, m.destination_networks.len() > 0, b);
    lemma_some_dimension(v2, m.source_macs.len() > 0, c);
}

proof fn lemma_transported(
    v: Result<Seq<Seq<char>>, IptablesRenderErrorView>,
    m: FirewallMatchView,
    family: IpFamily,
)
    requires
        inline_result(v),
    ensures
        inline_result(transported(v, m, family)),
{
    broadcast use lemma_inline_add;

    lemma_words();
    let fitting = fitting_protocols(Seq::empty(), m.protocols, family, 0);
    lemma_flagged_protocols(fitting);
    lemma_flagged_ports("--sport"@, m.source_ports);
    lemma_flagged_ports("--dport"@, m.destination_ports);
    lemma_states(Seq::empty(), m.conntrack_states, 0);
    lemma_flagged_bytes(icmp_flag(family), m.icmp_types);
    let states = seq!["-m conntrack --ctstate "@ + states_text(Seq::empty(), m.conntrack_states, 0)];
    assert(all_inline(states));
    lemma_some_dimension(v, m.protocols.len() > 0, flagged_protocols(fitting));
    let v1 = with_some_dimension(v, m.protocols.len() > 0, flagged_protocols(fitting));
    lemma_some_dimension(v1, m.source_ports.len() > 0, flagged_ports("--sport"@, m.source_ports));
    let v2 = with_some_dimension(
        v1,
        m.source_ports.len() > 0,
        flagged_ports("--sport"@, m.source_ports),
    );
    lemma_some_dimension(
        v2,
        m.destination_ports.len() > 0,
        flagged_ports("--dport"@, m.destination_ports),
    );
    let v3 = with_some_dimension(
        v2,
        m.destination_ports.len() > 0,
        flagged_ports("--dport"@, m.destination_ports),
    );
    lemma_some_dimension(v3, m.conntrack_states.len() > 0, states);
    let v4 = with_some_dimension(v3, m.conntrack_states.len() > 0, states);
    lemma_some_dimension(
        v4,
        m.icmp_types.len() > 0,
        flagged_bytes(icmp_flag(family), m.icmp_types),
    );
}

/// Whether the entries of sets have no line breaks.
pub open spec fn inline_sets(sets: Seq<ExpandedSetView>) -> bool {
    forall|i: int| 0 <= i < sets.len() ==> all_inline((#[trigger] sets[i]).entries)
}

proof fn lemma_set_from(sets: Seq<ExpandedSetView>, id: Seq<char>, i: int)
    requires
        inline_sets(sets),
        0 <= i,
    ensures
        set_from(sets, id, i) matches Some(s) ==> all_inline(s.entries),
    decreases sets.len() - i,
{
    if i < sets.len() && sets[i].id != id {
        lemma_set_from(sets, id, i + 1);
    }
}

proof fn lemma_with_sets(
    v: Seq<Seq<char>>,
    sets: Seq<ExpandedSetView>,
    ids: Seq<Seq<char>>,
    family: IpFamily,
    source: bool,
    i: int,
)
    requires
        all_inline(v),
        inline_sets(sets),
        0 <= i,
    ensures
        inline_result(with_sets(v, sets, ids, family, source, i)),
    decreases ids.len() - i,
{
    lemma_words();
    if i < ids.len() {
        lemma_set_from(sets, ids[i], 0);
        if let Some(s) = set_from(sets, ids[i], 0) {
            lemma_flagged("-s"@, s.entries);
            lemma_flagged("-d"@, s.entries);
            lemma_flagged("-m mac --mac-source"@, s.entries);
            lemma_flagged("--sport"@, s.entries);
            lemma_flagged("--dport"@, s.entries);
            if let Ok(Some(options)) = set_options(s, family, source) {
                assert(all_inline(options));
                lemma_dimension(v, options);
                if let Ok(next) = with_dimension(v, options) {
                    lemma_with_sets(next, sets, ids, family, source, i + 1);
                }
            }
        }
    }
}

/// Whether the names that a zone holds have no line breaks.
pub open spec fn is_inline_zone(z: FirewallZoneView) -> bool {
    is_inline(z.id) && all_inline(z.networks)
}

pub open spec fn inline_zones(zones: Seq<FirewallZoneView>) -> bool {
    forall|i: int| 0 <= i < zones.len() ==> is_inline_zone(#[trigger] zones[i])
}

proof fn lemma_zone_from(zones: Seq<FirewallZoneView>, id: Seq<char>, i: int)
    requires
        inline_zones(zones),
        0 <= i,
    ensures
        zone_from(zones, id, i) matches Some(z) ==> is_inline_zone(z),
    decreases zones.len() - i,
{
    if i < zones.len() {
        assert(is_inline_zone(zones[i]));
        if zones[i].id != id {
            lemma_zone_from(zones, id, i + 1);
        }
    }
}

proof fn lemma_zone_networks(
    acc: Seq<Seq<char>>,
    zones: Seq<FirewallZoneView>,
    ids: Seq<Seq<char>>,
    i: int,
)
    requires
        inline_zones(zones),
        all_inline(acc),
        0 <= i,
    ensures
        zone_networks(acc, zones, ids, i) matches Some(s) ==> all_inline(s),
    decreases ids.len() - i,
{
    if i < ids.len() {
        lemma_zone_from(zones, ids[i], 0);
        if let Some(z) = zone_from(zones, ids[i], 0) {
            let next = acc + z.networks;
            assert forall|j: int| 0 <= j < next.len() implies is_inline(#[trigger] next[j]) by {
                if j < acc.len() {
                    assert(next[j] == acc[j]);
                } else {
                    assert(next[j] == z.networks[j - acc.len()]);
                }
            }
            lemma_zone_networks(next, zones, ids, i + 1);
        }
    }
}

proof fn lemma_dedup(acc: Seq<Seq<char>>, s: Seq<Seq<char>>, i: int)
    requires
        all_inline(acc),
        all_inline(s),
        0 <= i,
    ensures
        all_inline(dedup(acc, s, i)),
    decreases s.len() - i,
{
    if i < s.len() {
        assert(is_inline(s[i]));
        lemma_dedup(acc, s, i + 1);
        lemma_dedup(acc.push(s[i]), s, i + 1);
    }
}

proof fn lemma_sorted(s: Seq<Seq<char>>)
    requires
        all_inline(s),
    ensures
        all_inline(sorted_texts(s)),
{
    let t = sorted_texts(s);
    law_text_order();
    s.lemma_sort_by_ensures(|a: Seq<char>, b: Seq<char>| text_le(a, b));
    assert forall|i: int| 0 <= i < t.len() implies is_inline(#[trigger] t[i]) by {
        assert(t.to_multiset().count(t[i]) > 0) by {
            broadcast use vstd::seq_lib::group_to_multiset_ensures;

            assert(t.contains(t[i]));
        }
        assert(s.contains(t[i])) by {
            broadcast use vstd::seq_lib::group_to_multiset_ensures;

        }
        let k = choose|k: int| 0 <= k < s.len() && s[k] == t[i];
        assert(is_inline(s[k]));
    }
}

proof fn lemma_interfaces(zones: Seq<FirewallZoneView>, ids: Seq<Seq<char>>)
    requires
        inline_zones(zones),
    ensures
        interfaces_of(zones, ids) matches Some(s) ==> all_inline(s),
{
    lemma_zone_networks(Seq::empty(), zones, ids, 0);
    if let Some(all) = zone_networks(Seq::empty(), zones, ids, 0) {
        lemma_sorted(all);
        lemma_dedup(Seq::empty(), sorted_texts(all), 0);
    }
}

/// Whether the names that a context holds have no line breaks.
pub open spec fn is_inline_context(c: RenderContextView) -> bool {
    &&& inline_zones(c.zones)
    &&& inline_sets(c.sets)
    &&& forall|i: int| 0 <= i < c.forwardings.len() ==> is_inline((#[trigger] c.forwardings[i]).id)
    &&& forall|i: int|
        0 <= i < c.filter_rules.len() ==> is_inline_rule(#[trigger] c.filter_rules[i])
    &&& forall|i: int| 0 <= i < c.nat_rules.len() ==> is_inline_nat(#[trigger] c.nat_rules[i])
}

pub open spec fn is_inline_rule(r: FirewallFilterRuleView) -> bool {
    is_inline(r.id) && is_inline_match(r.matches)
}

pub open spec fn is_inline_nat(r: FirewallNatRuleView) -> bool {
    is_inline(r.id) && is_inline_match(r.matches)
}

proof fn lemma_alternatives(
    c: RenderContextView,
    m: FirewallMatchView,
    direction: FirewallDirection,
    family: IpFamily,
)
    requires
        is_inline_context(c),
        is_inline_match(m),
    ensures
        inline_result(alternatives(c, m, direction, family)),
{
    lemma_interfaces(c.zones, m.source_zones);
    lemma_interfaces(c.zones, m.destination_zones);
    if let (Some(s), Some(d)) = (
        interfaces_of(c.zones, m.source_zones),
        interfaces_of(c.zones, m.destination_zones),
    ) {
        let p = placed(m, direction, s, d);
        lemma_placed(m, direction, s, d);
        lemma_addressed(p, m, family);
        let a = addressed(p, m, family);
        lemma_transported(a, m, family);
        if let Ok(v) = transported(a, m, family) {
            lemma_with_sets(v, c.sets, m.source_sets, family, true, 0);
            if let Ok(w) = with_sets(v, c.sets, m.source_sets, family, true, 0) {
                lemma_with_sets(w, c.sets, m.destination_sets, family, false, 0);
            }
        }
    }
}

/// Whether a draft, where there is one, changes the managed chains only.
pub open spec fn isolated_result(
    hooks: bool,
    q: int,
    n: nat,
    d: Result<DraftView, IptablesRenderErrorView>,
) -> bool {
    d matches Ok(t) ==> is_isolated(hooks, q, n, t.text)
}

proof fn lemma_target(
    verdict: FirewallVerdict,
    reject: Option<FirewallRejectKind>,
    family: IpFamily,
)
    ensures
        target_of(verdict, reject, family) matches Some(t) ==> is_inline(t),
{
    lemma_words();
}

pub proof fn lemma_rule_line(
    hooks: bool,
    chain: Seq<char>,
    matcher: Seq<char>,
    limit: Seq<char>,
    id: Seq<char>,
    target: Seq<char>,
)
    requires
        chain == "MBED_INPUT"@ || chain == "MBED_OUTPUT"@ || chain == "MBED_FORWARD"@ || chain
            == "MBED_PREROUTING"@ || chain == "MBED_POSTROUTING"@,
        is_inline(matcher),
        is_inline(limit),
        is_inline(id),
        is_inline(target),
    ensures
        is_one_line(rule_line(chain, matcher, limit, id, target)),
        is_owned_line(hooks, rule_line(chain, matcher, limit, id, target)),
        starts(rule_line(chain, matcher, limit, id, target), "-A MBED_"@),
{
    broadcast use {lemma_inline_add, lemma_starts_add};

    lemma_words();
    lemma_line_ends();
    lemma_chain_start(chain);
    let body = "-A "@ + chain + matcher + limit + " -m comment --comment mbed:"@ + id + " "@
        + target;
    assert(is_inline(body));
    lemma_line_tail(body, "\n"@);
    assert(starts(body, "-A MBED_"@));
    lemma_starts_add(body, "\n"@, "-A MBED_"@);
}

pub proof fn lemma_log_line(
    hooks: bool,
    chain: Seq<char>,
    matcher: Seq<char>,
    id: Seq<char>,
    prefix: Seq<char>,
    level: FirewallLogLevel,
)
    requires
        chain == "MBED_INPUT"@ || chain == "MBED_OUTPUT"@ || chain == "MBED_FORWARD"@,
        is_inline(matcher),
        is_inline(id),
        is_double_quotable(prefix),
    ensures
        is_one_line(log_line(chain, matcher, id, prefix, level)),
        is_owned_line(hooks, log_line(chain, matcher, id, prefix, level)),
        starts(log_line(chain, matcher, id, prefix, level), "-A MBED_"@),
{
    broadcast use {lemma_inline_add, lemma_starts_add};

    lemma_words();
    lemma_line_ends();
    lemma_chain_start(chain);
    assert(is_inline(prefix)) by {
        reveal(is_inline);
        assert forall|i: int| 0 <= i < prefix.len() implies #[trigger] prefix[i] != '\n' by {
            assert(!is_ascii_control(prefix[i]));
        }
    }
    assert(is_inline(level_name(level)));
    let body = "-A "@ + chain + matcher
        + " -m limit --limit 1/second --limit-burst 5 -m comment --comment mbed:"@ + id
        + " -j LOG --log-prefix \""@ + prefix + "\" --log-level "@ + level_name(level);
    assert(is_inline(body));
    lemma_line_tail(body, "\n"@);
    assert(starts(body, "-A MBED_"@));
    lemma_starts_add(body, "\n"@, "-A MBED_"@);
}

proof fn lemma_limit_inline(l: Option<FirewallRateLimit>)
    ensures
        is_inline(limit_text(l)),
{
    broadcast use lemma_inline_add;

    lemma_words();
    if let Some(l) = l {
        lemma_decimal_inline(l.packets_per_second as nat);
        lemma_decimal_inline(l.burst as nat);
    }
}

proof fn lemma_matched(
    hooks: bool,
    q: int,
    n: nat,
    d: DraftView,
    r: FirewallFilterRuleView,
    matcher: Seq<char>,
    family: IpFamily,
)
    requires
        0 <= q < 6,
        is_isolated(hooks, q, n, d.text),
        is_inline_rule(r),
        is_inline(matcher),
    ensures
        isolated_result(hooks, q, n, matched(d, r, matcher, family)),
{
    let chain = chain_of(r.direction);
    if let Some(log) = r.log {
        if is_double_quotable(log.prefix) {
            lemma_log_line(hooks, chain, matcher, r.id, log.prefix, log.level);
            lemma_append_rule(hooks, q, n, d.text, log_line(chain, matcher, r.id, log.prefix, log.level));
        }
    }
    assert(isolated_result(hooks, q, n, logged(d, r, matcher)));
    lemma_target(r.verdict, r.reject_with, family);
    lemma_limit_inline(r.rate_limit);
    if let Some(target) = target_of(r.verdict, r.reject_with, family) {
        let line = rule_line(chain, matcher, limit_text(r.rate_limit), r.id, target);
        lemma_rule_line(hooks, chain, matcher, limit_text(r.rate_limit), r.id, target);
        if let Ok(next) = logged(d, r, matcher) {
            lemma_append_rule(hooks, q, n, next.text, line);
        }
    }
}

proof fn lemma_all_matched(
    hooks: bool,
    q: int,
    n: nat,
    d: DraftView,
    r: FirewallFilterRuleView,
    matchers: Seq<Seq<char>>,
    family: IpFamily,
    i: int,
)
    requires
        0 <= q < 6,
        is_isolated(hooks, q, n, d.text),
        is_inline_rule(r),
        all_inline(matchers),
        0 <= i,
    ensures
        isolated_result(hooks, q, n, all_matched(d, r, matchers, family, i)),
    decreases matchers.len() - i,
{
    if i < matchers.len() {
        assert(is_inline(matchers[i]));
        lemma_matched(hooks, q, n, d, r, matchers[i], family);
        if let Ok(next) = matched(d, r, matchers[i], family) {
            lemma_all_matched(hooks, q, n, next, r, matchers, family, i + 1);
        }
    }
}

pub proof fn lemma_all_filtered(
    hooks: bool,
    q: int,
    n: nat,
    d: DraftView,
    c: RenderContextView,
    family: IpFamily,
    i: int,
)
    requires
        0 <= q < 6,
        is_isolated(hooks, q, n, d.text),
        is_inline_context(c),
        0 <= i,
    ensures
        isolated_result(hooks, q, n, all_filtered(d, c, family, i)),
    decreases c.filter_rules.len() - i,
{
    if i < c.filter_rules.len() {
        let r = c.filter_rules[i];
        assert(is_inline_rule(r));
        lemma_alternatives(c, r.matches, r.direction, family);
        if let Ok(matchers) = alternatives(c, r.matches, r.direction, family) {
            lemma_all_matched(hooks, q, n, d, r, matchers, family, 0);
        }
        assert(isolated_result(hooks, q, n, filtered(d, c, r, family)));
        if let Ok(next) = filtered(d, c, r, family) {
            lemma_all_filtered(hooks, q, n, next, c, family, i + 1);
        }
    }
}

proof fn lemma_literal_starts()
    ensures
        starts("-A MBED_FORWARD -i "@, "-A MBED_"@),
        starts("-A MBED_MANGLE_FORWARD -o "@, "-A MBED_"@),
        starts("-A MBED_POSTROUTING -o "@, "-A MBED_"@),
        starts("COMMIT\n"@, "COMMIT\n"@),
{
    reveal_strlit("-A MBED_");
    reveal_strlit("-A MBED_FORWARD -i ");
    reveal_strlit("-A MBED_MANGLE_FORWARD -o ");
    reveal_strlit("-A MBED_POSTROUTING -o ");
    assert("-A MBED_FORWARD -i "@.take(8) =~= "-A MBED_"@);
    assert("-A MBED_MANGLE_FORWARD -o "@.take(8) =~= "-A MBED_"@);
    assert("-A MBED_POSTROUTING -o "@.take(8) =~= "-A MBED_"@);
    assert("COMMIT\n"@.take("COMMIT\n"@.len() as int) =~= "COMMIT\n"@);
}

proof fn lemma_forwarded_to(
    hooks: bool,
    q: int,
    n: nat,
    d: DraftView,
    input: Seq<char>,
    outputs: Seq<Seq<char>>,
    id: Seq<char>,
    j: int,
)
    requires
        0 <= q < 6,
        is_isolated(hooks, q, n, d.text),
        is_inline(input),
        all_inline(outputs),
        is_inline(id),
        0 <= j,
    ensures
        isolated_result(hooks, q, n, forwarded_to(d, input, outputs, id, j)),
    decreases outputs.len() - j,
{
    if j < outputs.len() {
        let line = forward_line(input, outputs[j], id);
        assert(is_inline(outputs[j]));
        lemma_forward_line(hooks, input, outputs[j], id);
        lemma_append_rule(hooks, q, n, d.text, line);
        if let Ok(room) = counted(d) {
            lemma_forwarded_to(hooks, q, n, written(room, line), input, outputs, id, j + 1);
        }
    }
}

pub proof fn lemma_forward_line(hooks: bool, input: Seq<char>, output: Seq<char>, id: Seq<char>)
    requires
        is_inline(input),
        is_inline(output),
        is_inline(id),
    ensures
        is_one_line(forward_line(input, output, id)),
        is_owned_line(hooks, forward_line(input, output, id)),
        starts(forward_line(input, output, id), "-A MBED_"@),
{
    broadcast use {lemma_inline_add, lemma_starts_add};

    lemma_words();
    lemma_line_ends();
    lemma_literal_starts();
    let body = "-A MBED_FORWARD -i "@ + input + " -o "@ + output + " -m comment --comment mbed:"@
        + id;
    assert(is_inline(body));
    lemma_line_tail(body, " -j ACCEPT\n"@);
    assert(starts(body, "-A MBED_"@));
    lemma_starts_add(body, " -j ACCEPT\n"@, "-A MBED_"@);
}

proof fn lemma_forwarded_from(
    hooks: bool,
    q: int,
    n: nat,
    d: DraftView,
    inputs: Seq<Seq<char>>,
    outputs: Seq<Seq<char>>,
    id: Seq<char>,
    i: int,
)
    requires
        0 <= q < 6,
        is_isolated(hooks, q, n, d.text),
        all_inline(inputs),
        all_inline(outputs),
        is_inline(id),
        0 <= i,
    ensures
        isolated_result(hooks, q, n, forwarded_from(d, inputs, outputs, id, i)),
    decreases inputs.len() - i,
{
    if i < inputs.len() {
        assert(is_inline(inputs[i]));
        lemma_forwarded_to(hooks, q, n, d, inputs[i], outputs, id, 0);
        if let Ok(next) = forwarded_to(d, inputs[i], outputs, id, 0) {
            lemma_forwarded_from(hooks, q, n, next, inputs, outputs, id, i + 1);
        }
    }
}

pub proof fn lemma_forwarded(hooks: bool, q: int, n: nat, d: DraftView, c: RenderContextView, i: int)
    requires
        0 <= q < 6,
        is_isolated(hooks, q, n, d.text),
        is_inline_context(c),
        0 <= i,
    ensures
        isolated_result(hooks, q, n, forwarded(d, c, i)),
    decreases c.forwardings.len() - i,
{
    if i < c.forwardings.len() {
        let f = c.forwardings[i];
        assert(is_inline(f.id));
        lemma_zone_from(c.zones, f.source_zone, 0);
        lemma_zone_from(c.zones, f.destination_zone, 0);
        if !f.enabled {
            lemma_forwarded(hooks, q, n, d, c, i + 1);
        } else if let (Some(s), Some(t)) = (
            zone_from(c.zones, f.source_zone, 0),
            zone_from(c.zones, f.destination_zone, 0),
        ) {
            lemma_forwarded_from(hooks, q, n, d, s.networks, t.networks, f.id, 0);
            if let Ok(next) = forwarded_from(d, s.networks, t.networks, f.id, 0) {
                lemma_forwarded(hooks, q, n, next, c, i + 1);
            }
        }
    }
}

proof fn lemma_policy(
    hooks: bool,
    q: int,
    n: nat,
    d: Result<DraftView, IptablesRenderErrorView>,
    chain: Seq<char>,
    flag: Seq<char>,
    interface: Seq<char>,
    id: Seq<char>,
    verdict: FirewallVerdict,
)
    requires
        0 <= q < 6,
        isolated_result(hooks, q, n, d),
        chain == "MBED_INPUT"@ || chain == "MBED_OUTPUT"@ || chain == "MBED_FORWARD"@,
        is_inline(flag),
        is_inline(interface),
        is_inline(id),
    ensures
        isolated_result(hooks, q, n, policy(d, policy_line(chain, flag, interface, id, verdict))),
{
    broadcast use {lemma_inline_add, lemma_starts_add};

    lemma_words();
    lemma_line_ends();
    lemma_chain_start(chain);
    lemma_target(verdict, None, IpFamily::Ipv4);
    let target = target_of(verdict, None, IpFamily::Ipv4)->Some_0;
    let body = "-A "@ + chain + " "@ + flag + " "@ + interface
        + " -m comment --comment mbed:zone:"@ + id + " "@ + target;
    assert(is_inline(target));
    assert(is_inline(body));
    lemma_line_tail(body, "\n"@);
    assert(starts(body, "-A MBED_"@));
    lemma_starts_add(body, "\n"@, "-A MBED_"@);
    let line = policy_line(chain, flag, interface, id, verdict);
    assert(line == body + "\n"@);
    if let Ok(t) = d {
        lemma_append_rule(hooks, q, n, t.text, line);
    }
}

pub proof fn lemma_policy_one_line(
    chain: Seq<char>,
    flag: Seq<char>,
    interface: Seq<char>,
    id: Seq<char>,
    verdict: FirewallVerdict,
)
    requires
        chain == "MBED_INPUT"@ || chain == "MBED_OUTPUT"@ || chain == "MBED_FORWARD"@,
        is_inline(flag),
        is_inline(interface),
        is_inline(id),
    ensures
        is_one_line(policy_line(chain, flag, interface, id, verdict)),
{
    broadcast use lemma_inline_add;

    lemma_words();
    lemma_line_ends();
    lemma_target(verdict, None, IpFamily::Ipv4);
    let target = target_of(verdict, None, IpFamily::Ipv4)->Some_0;
    let body = "-A "@ + chain + " "@ + flag + " "@ + interface
        + " -m comment --comment mbed:zone:"@ + id + " "@ + target;
    assert(is_inline(target));
    assert(is_inline(body));
    lemma_line_tail(body, "\n"@);
}

proof fn lemma_zone_policies(hooks: bool, q: int, n: nat, d: DraftView, z: FirewallZoneView, i: int)
    requires
        0 <= q < 6,
        is_isolated(hooks, q, n, d.text),
        is_inline_zone(z),
        0 <= i,
    ensures
        isolated_result(hooks, q, n, zone_policies(d, z, i)),
    decreases z.networks.len() - i,
{
    if i < z.networks.len() {
        let name = z.networks[i];
        assert(is_inline(name));
        lemma_words();
        let start = Ok::<DraftView, IptablesRenderErrorView>(d);
        lemma_policy(hooks, q, n, start, "MBED_INPUT"@, "-i"@, name, z.id, z.input);
        let input = policy(start, policy_line("MBED_INPUT"@, "-i"@, name, z.id, z.input));
        lemma_policy(hooks, q, n, input, "MBED_OUTPUT"@, "-o"@, name, z.id, z.output);
        let output = policy(input, policy_line("MBED_OUTPUT"@, "-o"@, name, z.id, z.output));
        lemma_policy(hooks, q, n, output, "MBED_FORWARD"@, "-i"@, name, z.id, z.forward);
        if let Ok(next) = policy(output, policy_line("MBED_FORWARD"@, "-i"@, name, z.id, z.forward)) {
            lemma_zone_policies(hooks, q, n, next, z, i + 1);
        }
    }
}

pub proof fn lemma_policies(
    hooks: bool,
    q: int,
    n: nat,
    d: DraftView,
    zones: Seq<FirewallZoneView>,
    i: int,
)
    requires
        0 <= q < 6,
        is_isolated(hooks, q, n, d.text),
        inline_zones(zones),
        0 <= i,
    ensures
        isolated_result(hooks, q, n, policies(d, zones, i)),
    decreases zones.len() - i,
{
    if i < zones.len() {
        assert(is_inline_zone(zones[i]));
        if !zones[i].enabled {
            lemma_policies(hooks, q, n, d, zones, i + 1);
        } else {
            lemma_zone_policies(hooks, q, n, d, zones[i], 0);
            if let Ok(next) = zone_policies(d, zones[i], 0) {
                lemma_policies(hooks, q, n, next, zones, i + 1);
            }
        }
    }
}

pub proof fn lemma_zone_line(hooks: bool, interface: Seq<char>, id: Seq<char>)
    requires
        is_inline(interface),
        is_inline(id),
    ensures
        is_one_line(mtu_line(interface, id)),
        is_owned_line(hooks, mtu_line(interface, id)),
        starts(mtu_line(interface, id), "-A MBED_"@),
        is_one_line(masquerade_line(interface, id)),
        is_owned_line(hooks, masquerade_line(interface, id)),
        starts(masquerade_line(interface, id), "-A MBED_"@),
{
    broadcast use {lemma_inline_add, lemma_starts_add};

    lemma_words();
    lemma_line_ends();
    lemma_literal_starts();
    let a = "-A MBED_MANGLE_FORWARD -o "@ + interface
        + " -p tcp --tcp-flags SYN,RST SYN -m comment --comment mbed:mtu:"@ + id;
    assert(is_inline(a));
    lemma_line_tail(a, " -j TCPMSS --clamp-mss-to-pmtu\n"@);
    assert(starts(a, "-A MBED_"@));
    lemma_starts_add(a, " -j TCPMSS --clamp-mss-to-pmtu\n"@, "-A MBED_"@);
    let b = "-A MBED_POSTROUTING -o "@ + interface + " -m comment --comment mbed:masq:"@ + id;
    assert(is_inline(b));
    lemma_line_tail(b, " -j MASQUERADE\n"@);
    assert(starts(b, "-A MBED_"@));
    lemma_starts_add(b, " -j MASQUERADE\n"@, "-A MBED_"@);
}

proof fn lemma_zone_lines(
    hooks: bool,
    q: int,
    n: nat,
    d: DraftView,
    z: FirewallZoneView,
    mtu: bool,
    i: int,
)
    requires
        0 <= q < 6,
        is_isolated(hooks, q, n, d.text),
        is_inline_zone(z),
        0 <= i,
    ensures
        isolated_result(hooks, q, n, zone_lines(d, z, mtu, i)),
    decreases z.networks.len() - i,
{
    if i < z.networks.len() {
        assert(is_inline(z.networks[i]));
        lemma_zone_line(hooks, z.networks[i], z.id);
        let line = if mtu {
            mtu_line(z.networks[i], z.id)
        } else {
            masquerade_line(z.networks[i], z.id)
        };
        lemma_append_rule(hooks, q, n, d.text, line);
        if let Ok(room) = counted(d) {
            lemma_zone_lines(hooks, q, n, written(room, line), z, mtu, i + 1);
        }
    }
}

pub proof fn lemma_all_zone_lines(
    hooks: bool,
    q: int,
    n: nat,
    d: DraftView,
    zones: Seq<FirewallZoneView>,
    mtu: bool,
    i: int,
)
    requires
        0 <= q < 6,
        is_isolated(hooks, q, n, d.text),
        inline_zones(zones),
        0 <= i,
    ensures
        isolated_result(hooks, q, n, all_zone_lines(d, zones, mtu, i)),
    decreases zones.len() - i,
{
    if i < zones.len() {
        assert(is_inline_zone(zones[i]));
        lemma_all_zone_lines(hooks, q, n, d, zones, mtu, i + 1);
        lemma_zone_lines(hooks, q, n, d, zones[i], mtu, 0);
        if let Ok(next) = zone_lines(d, zones[i], mtu, 0) {
            lemma_all_zone_lines(hooks, q, n, next, zones, mtu, i + 1);
        }
    }
}

proof fn lemma_translation(r: FirewallNatRuleView, family: IpFamily)
    ensures
        translation(r, family) matches Ok(Some(t)) ==> is_inline(t),
{
    broadcast use lemma_inline_add;

    lemma_words();
    if let Some(p) = r.translation_port {
        lemma_port_inline(p);
    }
    if let Some(a) = r.translation_address {
        lemma_address_inline(a);
        assert(is_inline(endpoint(a, r.translation_port)));
    }
}

proof fn lemma_all_translated(
    hooks: bool,
    q: int,
    n: nat,
    d: DraftView,
    r: FirewallNatRuleView,
    matchers: Seq<Seq<char>>,
    family: IpFamily,
    i: int,
)
    requires
        0 <= q < 6,
        is_isolated(hooks, q, n, d.text),
        is_inline_nat(r),
        all_inline(matchers),
        0 <= i,
    ensures
        isolated_result(hooks, q, n, all_translated(d, r, matchers, family, i)),
    decreases matchers.len() - i,
{
    if i < matchers.len() {
        assert(is_inline(matchers[i]));
        lemma_translation(r, family);
        lemma_inline_empty();
        match translation(r, family) {
            Ok(Some(target)) => {
                let line = rule_line(nat_chain(r.kind), matchers[i], Seq::empty(), r.id, target);
                lemma_rule_line(hooks, nat_chain(r.kind), matchers[i], Seq::empty(), r.id, target);
                lemma_append_rule(hooks, q, n, d.text, line);
                if let Ok(room) = counted(d) {
                    lemma_all_translated(hooks, q, n, written(room, line), r, matchers, family, i + 1);
                }
            },
            Ok(None) => {
                lemma_all_translated(hooks, q, n, d, r, matchers, family, i + 1);
            },
            Err(_) => {},
        }
    }
}

pub proof fn lemma_translated(
    hooks: bool,
    q: int,
    n: nat,
    d: DraftView,
    c: RenderContextView,
    family: IpFamily,
    i: int,
)
    requires
        0 <= q < 6,
        is_isolated(hooks, q, n, d.text),
        is_inline_context(c),
        0 <= i,
    ensures
        isolated_result(hooks, q, n, translated(d, c, family, i)),
    decreases c.nat_rules.len() - i,
{
    if i < c.nat_rules.len() {
        let r = c.nat_rules[i];
        assert(is_inline_nat(r));
        let direction = if is_prerouting(r.kind) {
            FirewallDirection::Input
        } else {
            FirewallDirection::Forward
        };
        lemma_alternatives(c, r.matches, direction, family);
        lemma_translated(hooks, q, n, d, c, family, i + 1);
        if let Ok(matchers) = alternatives(c, r.matches, direction, family) {
            lemma_all_translated(hooks, q, n, d, r, matchers, family, 0);
            if let Ok(next) = all_translated(d, r, matchers, family, 0) {
                lemma_translated(hooks, q, n, next, c, family, i + 1);
            }
        }
    }
}

pub proof fn lemma_chain_words()
    ensures
        is_inline("INPUT"@),
        is_inline("MBED_INPUT"@),
        is_inline("mbed-agent-owned:v1:input"@),
        is_inline("OUTPUT"@),
        is_inline("MBED_OUTPUT"@),
        is_inline("mbed-agent-owned:v1:output"@),
        is_inline("FORWARD"@),
        is_inline("MBED_FORWARD"@),
        is_inline("mbed-agent-owned:v1:forward"@),
        is_inline("PREROUTING"@),
        is_inline("MBED_PREROUTING"@),
        is_inline("mbed-agent-owned:v1:prerouting"@),
        is_inline("POSTROUTING"@),
        is_inline("MBED_POSTROUTING"@),
        is_inline("mbed-agent-owned:v1:postrouting"@),
        is_inline("MBED_MANGLE_FORWARD"@),
        is_inline("mbed-agent-owned:v1:mangle-forward"@),
        is_inline(" -m comment --comment "@),
        is_inline(" -j "@),
{
    reveal(is_inline);
    assert(lacks("INPUT"@, '\n')) by {
        reveal_strlit("INPUT");
        let s = "INPUT"@;
        assert forall|i: int| 0 <= i < s.len() implies #[trigger] s[i] != '\n' by {
            assert(i == 0 || i == 1 || i == 2 || i == 3 || i == 4);
        }
    }
    assert(lacks("MBED_INPUT"@, '\n')) by {
        reveal_strlit("MBED_INPUT");
        let s = "MBED_INPUT"@;
        assert forall|i: int| 0 <= i < s.len() implies #[trigger] s[i] != '\n' by {
            assert(i == 0 || i == 1 || i == 2 || i == 3 || i == 4 || i == 5 || i == 6 || i == 7
                || i == 8 || i == 9);
        }
    }
    assert(lacks("mbed-agent-owned:v1:input"@, '\n')) by {
        reveal_strlit("mbed-agent-owned:v1:input");
        let s = "mbed-agent-owned:v1:input"@;
        assert forall|i: int| 0 <= i < s.len() implies #[trigger] s[i] != '\n' by {
            assert(i == 0 || i == 1 || i == 2 || i == 3 || i == 4 || i == 5 || i == 6 || i == 7
                || i == 8 || i == 9 || i == 10 || i == 11 || i == 12 || i == 13 || i == 14 || i == 15
                || i == 16 || i == 17 || i == 18 || i == 19 || i == 20 || i == 21 || i == 22 || i == 23
                || i == 24);
        }
    }
    assert(lacks("OUTPUT"@, '\n')) by {
        reveal_strlit("OUTPUT");
        let s = "OUTPUT"@;
        assert forall|i: int| 0 <= i < s.len() implies #[trigger] s[i] != '\n' by {
            assert(i == 0 || i == 1 || i == 2 || i == 3 || i == 4 || i == 5);
        }
    }
    assert(lacks("MBED_OUTPUT"@, '\n')) by {
        reveal_strlit("MBED_OUTPUT");
        let s = "MBED_OUTPUT"@;
        assert forall|i: int| 0 <= i < s.len() implies #[trigger] s[i] != '\n' by {
            assert(i == 0 || i == 1 || i == 2 || i == 3 || i == 4 || i == 5 || i == 6 || i == 7
                || i == 8 || i == 9 || i == 10);
        }
    }
    assert(lacks("mbed-agent-owned:v1:output"@, '\n')) by {
        reveal_strlit("mbed-agent-owned:v1:output");
        let s = "mbed-agent-owned:v1:output"@;
        assert forall|i: int| 0 <= i < s.len() implies #[trigger] s[i] != '\n' by {
            assert(i == 0 || i == 1 || i == 2 || i == 3 || i == 4 || i == 5 || i == 6 || i == 7
                || i == 8 || i == 9 || i == 10 || i == 11 || i == 12 || i == 13 || i == 14 || i == 15
                || i == 16 || i == 17 || i == 18 || i == 19 || i == 20 || i == 21 || i == 22 || i == 23
                || i == 24 || i == 25);
        }
    }
    assert(lacks("FORWARD"@, '\n')) by {
        reveal_strlit("FORWARD");
        let s = "FORWARD"@;
        assert forall|i: int| 0 <= i < s.len() implies #[trigger] s[i] != '\n' by {
            assert(i == 0 || i == 1 || i == 2 || i == 3 || i == 4 || i == 5 || i == 6);
        }
    }
    assert(lacks("MBED_FORWARD"@, '\n')) by {
        reveal_strlit("MBED_FORWARD");
        let s = "MBED_FORWARD"@;
        assert forall|i: int| 0 <= i < s.len() implies #[trigger] s[i] != '\n' by {
            assert(i == 0 || i == 1 || i == 2 || i == 3 || i == 4 || i == 5 || i == 6 || i == 7
                || i == 8 || i == 9 || i == 10 || i == 11);
        }
    }
    assert(lacks("mbed-agent-owned:v1:forward"@, '\n')) by {
        reveal_strlit("mbed-agent-owned:v1:forward");
        let s = "mbed-agent-owned:v1:forward"@;
        assert forall|i: int| 0 <= i < s.len() implies #[trigger] s[i] != '\n' by {
            assert(i == 0 || i == 1 || i == 2 || i == 3 || i == 4 || i == 5 || i == 6 || i == 7
                || i == 8 || i == 9 || i == 10 || i == 11 || i == 12 || i == 13 || i == 14 || i == 15
                || i == 16 || i == 17 || i == 18 || i == 19 || i == 20 || i == 21 || i == 22 || i == 23
                || i == 24 || i == 25 || i == 26);
        }
    }
    assert(lacks("PREROUTING"@, '\n')) by {
        reveal_strlit("PREROUTING");
        let s = "PREROUTING"@;
        assert forall|i: int| 0 <= i < s.len() implies #[trigger] s[i] != '\n' by {
            assert(i == 0 || i == 1 || i == 2 || i == 3 || i == 4 || i == 5 || i == 6 || i == 7
                || i == 8 || i == 9);
        }
    }
    assert(lacks("MBED_PREROUTING"@, '\n')) by {
        reveal_strlit("MBED_PREROUTING");
        let s = "MBED_PREROUTING"@;
        assert forall|i: int| 0 <= i < s.len() implies #[trigger] s[i] != '\n' by {
            assert(i == 0 || i == 1 || i == 2 || i == 3 || i == 4 || i == 5 || i == 6 || i == 7
                || i == 8 || i == 9 || i == 10 || i == 11 || i == 12 || i == 13 || i == 14);
        }
    }
    assert(lacks("mbed-agent-owned:v1:prerouting"@, '\n')) by {
        reveal_strlit("mbed-agent-owned:v1:prerouting");
        let s = "mbed-agent-owned:v1:prerouting"@;
        assert forall|i: int| 0 <= i < s.len() implies #[trigger] s[i] != '\n' by {
            assert(i == 0 || i == 1 || i == 2 || i == 3 || i == 4 || i == 5 || i == 6 || i == 7
                || i == 8 || i == 9 || i == 10 || i == 11 || i == 12 || i == 13 || i == 14 || i == 15
                || i == 16 || i == 17 || i == 18 || i == 19 || i == 20 || i == 21 || i == 22 || i == 23
                || i == 24 || i == 25 || i == 26 || i == 27 || i == 28 || i == 29);
        }
    }
    assert(lacks("POSTROUTING"@, '\n')) by {
        reveal_strlit("POSTROUTING");
        let s = "POSTROUTING"@;
        assert forall|i: int| 0 <= i < s.len() implies #[trigger] s[i] != '\n' by {
            assert(i == 0 || i == 1 || i == 2 || i == 3 || i == 4 || i == 5 || i == 6 || i == 7
                || i == 8 || i == 9 || i == 10);
        }
    }
    assert(lacks("MBED_POSTROUTING"@, '\n')) by {
        reveal_strlit("MBED_POSTROUTING");
        let s = "MBED_POSTROUTING"@;
        assert forall|i: int| 0 <= i < s.len() implies #[trigger] s[i] != '\n' by {
            assert(i == 0 || i == 1 || i == 2 || i == 3 || i == 4 || i == 5 || i == 6 || i == 7
                || i == 8 || i == 9 || i == 10 || i == 11 || i == 12 || i == 13 || i == 14 || i == 15);
        }
    }
    assert(lacks("mbed-agent-owned:v1:postrouting"@, '\n')) by {
        reveal_strlit("mbed-agent-owned:v1:postrouting");
        let s = "mbed-agent-owned:v1:postrouting"@;
        assert forall|i: int| 0 <= i < s.len() implies #[trigger] s[i] != '\n' by {
            assert(i == 0 || i == 1 || i == 2 || i == 3 || i == 4 || i == 5 || i == 6 || i == 7
                || i == 8 || i == 9 || i == 10 || i == 11 || i == 12 || i == 13 || i == 14 || i == 15
                || i == 16 || i == 17 || i == 18 || i == 19 || i == 20 || i == 21 || i == 22 || i == 23
                || i == 24 || i == 25 || i == 26 || i == 27 || i == 28 || i == 29 || i == 30);
        }
    }
    assert(lacks("MBED_MANGLE_FORWARD"@, '\n')) by {
        reveal_strlit("MBED_MANGLE_FORWARD");
        let s = "MBED_MANGLE_FORWARD"@;
        assert forall|i: int| 0 <= i < s.len() implies #[trigger] s[i] != '\n' by {
            assert(i == 0 || i == 1 || i == 2 || i == 3 || i == 4 || i == 5 || i == 6 || i == 7
                || i == 8 || i == 9 || i == 10 || i == 11 || i == 12 || i == 13 || i == 14 || i == 15
                || i == 16 || i == 17 || i == 18);
        }
    }
    assert(lacks("mbed-agent-owned:v1:mangle-forward"@, '\n')) by {
        reveal_strlit("mbed-agent-owned:v1:mangle-forward");
        let s = "mbed-agent-owned:v1:mangle-forward"@;
        assert forall|i: int| 0 <= i < s.len() implies #[trigger] s[i] != '\n' by {
            assert(i == 0 || i == 1 || i == 2 || i == 3 || i == 4 || i == 5 || i == 6 || i == 7
                || i == 8 || i == 9 || i == 10 || i == 11 || i == 12 || i == 13 || i == 14 || i == 15
                || i == 16 || i == 17 || i == 18 || i == 19 || i == 20 || i == 21 || i == 22 || i == 23
                || i == 24 || i == 25 || i == 26 || i == 27 || i == 28 || i == 29 || i == 30 || i == 31
                || i == 32 || i == 33);
        }
    }
    assert(lacks(" -m comment --comment "@, '\n')) by {
        reveal_strlit(" -m comment --comment ");
        let s = " -m comment --comment "@;
        assert forall|i: int| 0 <= i < s.len() implies #[trigger] s[i] != '\n' by {
            assert(i == 0 || i == 1 || i == 2 || i == 3 || i == 4 || i == 5 || i == 6 || i == 7
                || i == 8 || i == 9 || i == 10 || i == 11 || i == 12 || i == 13 || i == 14 || i == 15
                || i == 16 || i == 17 || i == 18 || i == 19 || i == 20 || i == 21);
        }
    }
    assert(lacks(" -j "@, '\n')) by {
        reveal_strlit(" -j ");
        let s = " -j "@;
        assert forall|i: int| 0 <= i < s.len() implies #[trigger] s[i] != '\n' by {
            assert(i == 0 || i == 1 || i == 2 || i == 3);
        }
    }
}

/// Whether the names of a chain have no line breaks, and the chain is a managed one.
pub open spec fn is_inline_chain(c: ChainBindingView) -> bool {
    is_inline(c.builtin) && is_inline(c.managed) && is_inline(c.marker) && starts(
        ":"@ + c.managed,
        ":MBED_"@,
    )
}

proof fn lemma_chains()
    ensures
        forall|k: int| 0 <= k < 6 ==> is_inline_chain(#[trigger] owned_chains()[k]),
{
    lemma_chain_words();
    reveal_strlit(":");
    reveal_strlit(":MBED_");
    reveal_strlit("MBED_INPUT");
    assert((":"@ + "MBED_INPUT"@).take(6) =~= ":MBED_"@);
    reveal_strlit("MBED_OUTPUT");
    assert((":"@ + "MBED_OUTPUT"@).take(6) =~= ":MBED_"@);
    reveal_strlit("MBED_FORWARD");
    assert((":"@ + "MBED_FORWARD"@).take(6) =~= ":MBED_"@);
    reveal_strlit("MBED_PREROUTING");
    assert((":"@ + "MBED_PREROUTING"@).take(6) =~= ":MBED_"@);
    reveal_strlit("MBED_POSTROUTING");
    assert((":"@ + "MBED_POSTROUTING"@).take(6) =~= ":MBED_"@);
    reveal_strlit("MBED_MANGLE_FORWARD");
    assert((":"@ + "MBED_MANGLE_FORWARD"@).take(6) =~= ":MBED_"@);
    assert forall|k: int| 0 <= k < 6 implies is_inline_chain(#[trigger] owned_chains()[k]) by {
        assert(k == 0 || k == 1 || k == 2 || k == 3 || k == 4 || k == 5);
    }
}

pub proof fn lemma_head_lines(hooks: bool, k: int)
    requires
        0 <= k < 6,
    ensures
        is_one_line(declare_line(owned_chains()[k])),
        is_owned_line(hooks, declare_line(owned_chains()[k])),
        is_one_line(hook_line(owned_chains()[k])),
        hooks ==> is_owned_line(hooks, hook_line(owned_chains()[k])),
        starts(declare_line(owned_chains()[k]), ":MBED_"@),
{
    broadcast use lemma_inline_add;

    lemma_words();
    lemma_chain_words();
    lemma_line_ends();
    lemma_chains();
    let c = owned_chains()[k];
    assert(is_inline_chain(c));
    let a = ":"@ + c.managed;
    lemma_line_tail(a, " - [0:0]\n"@);
    lemma_starts_add(a, " - [0:0]\n"@, ":MBED_"@);
    let b = "-A "@ + c.builtin + " -m comment --comment "@ + c.marker + " -j "@ + c.managed;
    assert(is_inline(b));
    lemma_line_tail(b, "\n"@);
    let h = hook_line(c);
    assert(h.take(h.len() as int) =~= h);
    assert(starts(h, hook_line(owned_chains()[k])));
}

proof fn lemma_hooks_differ(k: int, q: int)
    requires
        0 <= k < 6,
        0 <= q < 6,
    ensures
        starts(hook_line(owned_chains()[k]), hook_line(owned_chains()[q])) == (k == q),
{
    reveal_strlit("-A ");
    reveal_strlit(" -m comment --comment ");
    reveal_strlit("INPUT");
    reveal_strlit("OUTPUT");
    reveal_strlit("FORWARD");
    reveal_strlit("PREROUTING");
    reveal_strlit("POSTROUTING");
    reveal_strlit("mbed-agent-owned:v1:forward");
    reveal_strlit("mbed-agent-owned:v1:mangle-forward");
    let a = owned_chains()[k];
    let b = owned_chains()[q];
    let x = hook_line(a);
    let y = hook_line(b);
    assert(x[3] == a.builtin[0] && x[4] == a.builtin[1]);
    assert(y[3] == b.builtin[0] && y[4] == b.builtin[1]);
    if k == q {
        assert(x.take(x.len() as int) =~= x);
    } else if starts(x, y) {
        assert(x.take(y.len() as int)[3] == x[3]);
        assert(x.take(y.len() as int)[4] == x[4]);
        assert(a.builtin == "FORWARD"@ && b.builtin == "FORWARD"@);
        assert(x[52] == a.marker[20]);
        assert(y[52] == b.marker[20]);
        assert(x.take(y.len() as int)[52] == x[52]);
        assert(false);
    }
}

/// How many jumps to a chain the head of a table adds from `k` on.
pub open spec fn hooks_from(hooks: bool, q: int, table: Seq<char>, k: int) -> nat {
    if hooks && k <= q && owned_chains()[q].table == table {
        1
    } else {
        0
    }
}

proof fn lemma_headed(
    hooks: bool,
    q: int,
    n: nat,
    text: Seq<char>,
    table: Seq<char>,
    state: IptablesFamilyState,
    k: int,
)
    requires
        0 <= q < 6,
        is_isolated(hooks, q, n, text),
        hooks == (state == IptablesFamilyState::Absent),
        0 <= k,
    ensures
        is_isolated(
            hooks,
            q,
            (n + hooks_from(hooks, q, table, k)) as nat,
            headed(text, table, state, k),
        ),
    decreases 6 - k,
{
    if k < 6 {
        let c = owned_chains()[k];
        lemma_head_lines(hooks, k);
        if c.table != table {
            lemma_headed(hooks, q, n, text, table, state, k + 1);
        } else {
            lemma_append_other(hooks, q, n, text, declare_line(c));
            if hooks {
                lemma_hooks_differ(k, q);
                lemma_append(hooks, q, n, text + declare_line(c), hook_line(c));
                let m = if k == q {
                    (n + 1) as nat
                } else {
                    n
                };
                let next = text + declare_line(c) + hook_line(c);
                assert(is_isolated(hooks, q, m, next));
                lemma_headed(hooks, q, m, next, table, state, k + 1);
            } else {
                lemma_headed(hooks, q, n, text + declare_line(c), table, state, k + 1);
            }
        }
    }
}

proof fn lemma_table_words()
    ensures
        is_inline("*"@),
        is_inline("filter"@),
        is_inline("mangle"@),
        is_inline("nat"@),
{
    reveal(is_inline);
    assert(lacks("*"@, '\n')) by {
        reveal_strlit("*");
        let s = "*"@;
        assert forall|i: int| 0 <= i < s.len() implies #[trigger] s[i] != '\n' by {
            assert(i == 0);
        }
    }
    assert(lacks("filter"@, '\n')) by {
        reveal_strlit("filter");
        let s = "filter"@;
        assert forall|i: int| 0 <= i < s.len() implies #[trigger] s[i] != '\n' by {
            assert(i == 0 || i == 1 || i == 2 || i == 3 || i == 4 || i == 5);
        }
    }
    assert(lacks("mangle"@, '\n')) by {
        reveal_strlit("mangle");
        let s = "mangle"@;
        assert forall|i: int| 0 <= i < s.len() implies #[trigger] s[i] != '\n' by {
            assert(i == 0 || i == 1 || i == 2 || i == 3 || i == 4 || i == 5);
        }
    }
    assert(lacks("nat"@, '\n')) by {
        reveal_strlit("nat");
        let s = "nat"@;
        assert forall|i: int| 0 <= i < s.len() implies #[trigger] s[i] != '\n' by {
            assert(i == 0 || i == 1 || i == 2);
        }
    }
}

pub proof fn lemma_table_line(table: Seq<char>)
    requires
        table == "filter"@ || table == "mangle"@ || table == "nat"@,
    ensures
        is_one_line("*"@ + table + "\n"@),
{
    lemma_table_words();
    lemma_line_ends();
    lemma_inline_add("*"@, table);
    lemma_line_tail("*"@ + table, "\n"@);
}

proof fn lemma_opened(
    hooks: bool,
    q: int,
    n: nat,
    d: DraftView,
    table: Seq<char>,
    state: IptablesFamilyState,
)
    requires
        0 <= q < 6,
        is_isolated(hooks, q, n, d.text),
        hooks == (state == IptablesFamilyState::Absent),
        is_inline(table),
    ensures
        is_isolated(
            hooks,
            q,
            (n + hooks_from(hooks, q, table, 0)) as nat,
            opened(d, table, state).text,
        ),
{
    broadcast use lemma_inline_add;

    lemma_table_words();
    lemma_line_ends();
    let line = "*"@ + table + "\n"@;
    lemma_line_tail("*"@ + table, "\n"@);
    reveal_strlit("*");
    assert(line.take(1) =~= "*"@);
    lemma_append_other(hooks, q, n, d.text, line);
    assert(d.text + "*"@ + table + "\n"@ =~= d.text + line);
    lemma_headed(hooks, q, n, d.text + line, table, state, 0);
}

proof fn lemma_commit(hooks: bool, q: int, n: nat, text: Seq<char>)
    requires
        0 <= q < 6,
        is_isolated(hooks, q, n, text),
    ensures
        is_isolated(hooks, q, n, text + "COMMIT\n"@),
{
    lemma_line_ends();
    lemma_literal_starts();
    lemma_append_other(hooks, q, n, text, "COMMIT\n"@);
}

proof fn lemma_filter_table(
    hooks: bool,
    q: int,
    n: nat,
    d: DraftView,
    c: RenderContextView,
    family: IpFamily,
    state: IptablesFamilyState,
)
    requires
        0 <= q < 6,
        is_isolated(hooks, q, n, d.text),
        hooks == (state == IptablesFamilyState::Absent),
        is_inline_context(c),
    ensures
        isolated_result(
            hooks,
            q,
            (n + hooks_from(hooks, q, "filter"@, 0)) as nat,
            filter_table(d, c, family, state),
        ),
{
    lemma_table_words();
    let m = (n + hooks_from(hooks, q, "filter"@, 0)) as nat;
    lemma_opened(hooks, q, n, d, "filter"@, state);
    let f0 = opened(d, "filter"@, state);
    lemma_all_filtered(hooks, q, m, f0, c, family, 0);
    if let Ok(f1) = all_filtered(f0, c, family, 0) {
        lemma_forwarded(hooks, q, m, f1, c, 0);
        if let Ok(f2) = forwarded(f1, c, 0) {
            lemma_policies(hooks, q, m, f2, c.zones, 0);
            if let Ok(f3) = policies(f2, c.zones, 0) {
                lemma_commit(hooks, q, m, f3.text);
            }
        }
    }
}

proof fn lemma_mangle_table(
    hooks: bool,
    q: int,
    n: nat,
    d: DraftView,
    c: RenderContextView,
    state: IptablesFamilyState,
)
    requires
        0 <= q < 6,
        is_isolated(hooks, q, n, d.text),
        hooks == (state == IptablesFamilyState::Absent),
        is_inline_context(c),
    ensures
        isolated_result(
            hooks,
            q,
            (n + hooks_from(hooks, q, "mangle"@, 0)) as nat,
            mangle_table(d, c, state),
        ),
{
    lemma_table_words();
    let m = (n + hooks_from(hooks, q, "mangle"@, 0)) as nat;
    lemma_opened(hooks, q, n, d, "mangle"@, state);
    let m0 = opened(d, "mangle"@, state);
    lemma_all_zone_lines(hooks, q, m, m0, c.zones, true, 0);
    if let Ok(m1) = all_zone_lines(m0, c.zones, true, 0) {
        lemma_commit(hooks, q, m, m1.text);
    }
}

proof fn lemma_nat_table(
    hooks: bool,
    q: int,
    n: nat,
    d: DraftView,
    c: RenderContextView,
    family: IpFamily,
    state: IptablesFamilyState,
)
    requires
        0 <= q < 6,
        is_isolated(hooks, q, n, d.text),
        hooks == (state == IptablesFamilyState::Absent),
        is_inline_context(c),
    ensures
        isolated_result(
            hooks,
            q,
            (n + hooks_from(hooks, q, "nat"@, 0)) as nat,
            nat_table(d, c, family, state),
        ),
{
    lemma_table_words();
    let m = (n + hooks_from(hooks, q, "nat"@, 0)) as nat;
    lemma_opened(hooks, q, n, d, "nat"@, state);
    let n0 = opened(d, "nat"@, state);
    lemma_translated(hooks, q, m, n0, c, family, 0);
    if let Ok(n1) = translated(n0, c, family, 0) {
        lemma_all_zone_lines(hooks, q, m, n1, c.zones, false, 0);
        if let Ok(n2) = all_zone_lines(n1, c.zones, false, 0) {
            lemma_commit(hooks, q, m, n2.text);
        }
    }
}

proof fn lemma_tables(hooks: bool, q: int)
    requires
        0 <= q < 6,
    ensures
        hooks_from(hooks, q, "filter"@, 0) + hooks_from(hooks, q, "mangle"@, 0) + hooks_from(
            hooks,
            q,
            "nat"@,
            0,
        ) == (if hooks {
            1nat
        } else {
            0nat
        }),
{
    reveal_strlit("filter");
    reveal_strlit("mangle");
    reveal_strlit("nat");
    assert("filter"@[0] == 'f');
    assert("mangle"@[0] == 'm');
    assert("nat"@.len() == 3);
    let t = owned_chains()[q].table;
    assert(t == "filter"@ || t == "mangle"@ || t == "nat"@);
}

proof fn lemma_family_restore(
    c: RenderContextView,
    family: IpFamily,
    state: IptablesFamilyState,
    q: int,
)
    requires
        0 <= q < 6,
        is_inline_context(c),
    ensures
        family_restore(c, family, state) matches Ok(text) ==> is_isolated(
            state == IptablesFamilyState::Absent,
            q,
            if state == IptablesFamilyState::Absent {
                1
            } else {
                0
            },
            text,
        ),
{
    reveal(family_restore);
    let hooks = state == IptablesFamilyState::Absent;
    let d0 = DraftView { text: Seq::empty(), count: 0 };
    assert(is_isolated(hooks, q, 0, d0.text)) by {
        reveal(is_isolated);
    }
    lemma_tables(hooks, q);
    lemma_filter_table(hooks, q, 0, d0, c, family, state);
    let a = hooks_from(hooks, q, "filter"@, 0);
    if let Ok(d1) = filter_table(d0, c, family, state) {
        lemma_mangle_table(hooks, q, a, d1, c, state);
        let b = (a + hooks_from(hooks, q, "mangle"@, 0)) as nat;
        if let Ok(d2) = mangle_table(d1, c, state) {
            lemma_nat_table(hooks, q, b, d2, c, family, state);
        }
    }
}

/// Whether the names that an object holds have no line breaks.
pub open spec fn is_inline_object(o: FirewallObjectView) -> bool {
    match o {
        FirewallObjectView::Zone(z) => is_inline_zone(z),
        FirewallObjectView::Forwarding(f) => is_inline(f.id),
        FirewallObjectView::FilterRule(r) => is_inline_rule(r),
        FirewallObjectView::NatRule(r) => is_inline_nat(r),
        FirewallObjectView::AddressSet(s) => forall|i: int|
            0 <= i < s.entries.len() ==> (#[trigger] s.entries[i] matches FirewallSetEntryView::Mac(m)
                ==> is_inline(m)),
    }
}

pub proof fn lemma_filter_slot(
    rules: Seq<FirewallFilterRuleView>,
    r: FirewallFilterRuleView,
    i: int,
)
    requires
        0 <= i <= rules.len(),
    ensures
        0 <= filter_slot(rules, r, i) <= rules.len(),
    decreases rules.len() - i,
{
    if i < rules.len() {
        lemma_filter_slot(rules, r, i + 1);
    }
}

pub proof fn lemma_nat_slot(rules: Seq<FirewallNatRuleView>, r: FirewallNatRuleView, i: int)
    requires
        0 <= i <= rules.len(),
    ensures
        0 <= nat_slot(rules, r, i) <= rules.len(),
    decreases rules.len() - i,
{
    if i < rules.len() {
        lemma_nat_slot(rules, r, i + 1);
    }
}

proof fn lemma_with_object(c: RenderContextView, o: FirewallObjectView)
    requires
        is_inline_context(c),
        is_inline_object(o),
    ensures
        with_object(c, o) matches Some(next) ==> is_inline_context(next),
{
    match o {
        FirewallObjectView::FilterRule(r) => {
            let at = filter_slot(c.filter_rules, r, 0);
            lemma_filter_slot(c.filter_rules, r, 0);
            let next = c.filter_rules.insert(at, r);
            assert forall|i: int| 0 <= i < next.len() implies is_inline_rule(#[trigger] next[i]) by {
                if i < at {
                    assert(next[i] == c.filter_rules[i]);
                } else if i > at {
                    assert(next[i] == c.filter_rules[i - 1]);
                }
            }
        },
        FirewallObjectView::NatRule(r) => {
            let at = nat_slot(c.nat_rules, r, 0);
            lemma_nat_slot(c.nat_rules, r, 0);
            let next = c.nat_rules.insert(at, r);
            assert forall|i: int| 0 <= i < next.len() implies is_inline_nat(#[trigger] next[i]) by {
                if i < at {
                    assert(next[i] == c.nat_rules[i]);
                } else if i > at {
                    assert(next[i] == c.nat_rules[i - 1]);
                }
            }
        },
        FirewallObjectView::AddressSet(s) => {
            if let Some(e) = set_expanded(s) {
                let f = |x: FirewallSetEntryView| entry_text(x, e.kind);
                assert forall|i: int| 0 <= i < e.entries.len() implies is_inline(
                    #[trigger] e.entries[i],
                ) by {
                    assert(f(s.entries[i]) is Some);
                    match s.entries[i] {
                        FirewallSetEntryView::Network(n) => {
                            lemma_network_inline(n);
                        },
                        FirewallSetEntryView::Port(p) => {
                            lemma_port_inline(p);
                        },
                        FirewallSetEntryView::Mac(_) => {},
                    }
                }
                assert(all_inline(e.entries));
            }
        },
        _ => {},
    }
}

pub proof fn lemma_context(c: RenderContextView, objects: Seq<FirewallObjectView>, i: int)
    requires
        is_inline_context(c),
        forall|j: int| 0 <= j < objects.len() ==> is_inline_object(#[trigger] objects[j]),
        0 <= i,
    ensures
        context_of(c, objects, i) matches Some(next) ==> is_inline_context(next),
    decreases objects.len() - i,
{
    if i < objects.len() {
        assert(is_inline_object(objects[i]));
        lemma_with_object(c, objects[i]);
        if let Some(next) = with_object(c, objects[i]) {
            lemma_context(next, objects, i + 1);
        }
    }
}

/// The restore artifacts of both families change the managed chains only: every line opens or commits
/// a table, declares a managed chain, appends a rule to one, or, where the chains are absent, is one of
/// the six jumps to them. No line flushes a chain, and no rule of another chain is touched. The names
/// of the objects have to be free of line breaks.
pub proof fn law_restores_change_managed_chains_only(
    objects: Seq<FirewallObjectView>,
    valid: Seq<bool>,
    changes: Seq<FirewallPlannedChangeView>,
    ipv4_state: IptablesFamilyState,
    ipv6_state: IptablesFamilyState,
    k: int,
)
    requires
        iptables_stage(objects, valid, changes, ipv4_state, ipv6_state) is Ok,
        forall|j: int|
            0 <= j < projected(objects, valid, changes)->Ok_0.len() ==> is_inline_object(
                #[trigger] projected(objects, valid, changes)->Ok_0[j],
            ),
    ensures
        ({
            let stage = iptables_stage(objects, valid, changes, ipv4_state, ipv6_state)->Ok_0;
            &&& opens_line(stage.ipv4_restore, k) ==> is_owned_line(
                ipv4_state == IptablesFamilyState::Absent,
                stage.ipv4_restore.skip(k),
            )
            &&& opens_line(stage.ipv6_restore, k) ==> is_owned_line(
                ipv6_state == IptablesFamilyState::Absent,
                stage.ipv6_restore.skip(k),
            )
        }),
{
    let owned = projected(objects, valid, changes)->Ok_0;
    lemma_context(empty_context(), owned, 0);
    let c = context_of(empty_context(), owned, 0)->Some_0;
    lemma_family_restore(c, IpFamily::Ipv4, ipv4_state, 0);
    lemma_family_restore(c, IpFamily::Ipv6, ipv6_state, 0);
    reveal(is_isolated);
}

/// How many jumps to a managed chain a restore artifact appends: one where the chains are absent, and
/// none where they are there.
pub open spec fn jumps(state: IptablesFamilyState) -> nat {
    if state == IptablesFamilyState::Absent {
        1
    } else {
        0
    }
}

/// Each of the six managed chains gets exactly one jump from its built-in chain: the restore artifact of
/// a family appends it once where the chains are absent, and not again where they are there. The names
/// of the objects have to be free of line breaks.
pub proof fn law_managed_chains_get_one_jump(
    objects: Seq<FirewallObjectView>,
    valid: Seq<bool>,
    changes: Seq<FirewallPlannedChangeView>,
    ipv4_state: IptablesFamilyState,
    ipv6_state: IptablesFamilyState,
    q: int,
)
    requires
        iptables_stage(objects, valid, changes, ipv4_state, ipv6_state) is Ok,
        forall|j: int|
            0 <= j < projected(objects, valid, changes)->Ok_0.len() ==> is_inline_object(
                #[trigger] projected(objects, valid, changes)->Ok_0[j],
            ),
        0 <= q < 6,
    ensures
        ({
            let stage = iptables_stage(objects, valid, changes, ipv4_state, ipv6_state)->Ok_0;
            let jump = hook_line(owned_chains()[q]);
            &&& line_count(stage.ipv4_restore, jump, stage.ipv4_restore.len() as int) == jumps(
                ipv4_state,
            )
            &&& line_count(stage.ipv6_restore, jump, stage.ipv6_restore.len() as int) == jumps(
                ipv6_state,
            )
        }),
{
    let owned = projected(objects, valid, changes)->Ok_0;
    lemma_context(empty_context(), owned, 0);
    let c = context_of(empty_context(), owned, 0)->Some_0;
    lemma_family_restore(c, IpFamily::Ipv4, ipv4_state, q);
    lemma_family_restore(c, IpFamily::Ipv6, ipv6_state, q);
    reveal(is_isolated);
}

} // verus!
