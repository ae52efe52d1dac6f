//! What the kernel commands of a plan say: each is read back as what it was asked for.

use vstd::prelude::*;

use crate::net::{address_format, address_value, network_format, network_value, IpAddr, IpNetwork};
use crate::net_laws::{law_address_round_trips, law_network_round_trips};
use crate::network_model::{
    NetworkFamily, NetworkInterfaceConfigView, NetworkObjectView, NetworkPlannedChangeView,
    NetworkPolicyAction, NetworkPolicyRuleView, NetworkRouteType, NetworkRouteView,
};
use crate::network_runtime::{address_part, fwmark_value, mark_value, number_part};
use crate::network_runtime_stage::{
    action_text, address_line, address_lines, bare, destination_text, family_flag, mark_text, may_own,
    maybe_lines, missing_lines, network_part, object_lines, profile_diff, replaced, route_line,
    route_type_word, rule_line, word_part,
};
use crate::number_laws::{law_hex_round_trips, law_sized_numbers_round_trip, lemma_hex};
use crate::parse::u32_value;
use crate::recognition_laws::{
    is_word, lemma_address_dark, lemma_address_some, lemma_decimal_word, lemma_network_word, lemma_space,
    lemma_tokens_glue,
};
use crate::json::JsonView;
use crate::restore_laws::{is_whole, lemma_lines_append, lemma_lines_one};
use crate::isolation_laws::{is_inline, is_one_line};
use crate::tally_laws::{is_dark, lemma_dark_add, lemma_dark_inline, lemma_tokens_join, lemma_tokens_word};
use crate::text::{chomp, decimal, hex, is_hex, is_white, lemma_find_from, lines, split_once, tokens};
use crate::net_laws::lemma_find_at;

verus! {

proof fn lemma_words_a()
    ensures
        is_word("-4"@),
        is_word("-6"@),
        is_word("route"@),
        is_word("rule"@),
        is_word("address"@),
        is_word("add"@),
        is_word("del"@),
        is_word("blackhole"@),
        is_word("unreachable"@),
        is_word("prohibit"@),
        is_word("default"@),
        is_word("186"@),
{
    reveal(is_dark);
    assert(is_word("-4"@)) by {
        reveal_strlit("-4");
        let s = "-4"@;
        assert forall|i: int| 0 <= i < s.len() implies !is_white(#[trigger] s[i]) by {
            assert(i == 0 || i == 1);
        }
    }
    assert(is_word("-6"@)) by {
        reveal_strlit("-6");
        let s = "-6"@;
        assert forall|i: int| 0 <= i < s.len() implies !is_white(#[trigger] s[i]) by {
            assert(i == 0 || i == 1);
        }
    }
    assert(is_word("route"@)) by {
        reveal_strlit("route");
        let s = "route"@;
        assert forall|i: int| 0 <= i < s.len() implies !is_white(#[trigger] s[i]) by {
            assert(i == 0 || i == 1 || i == 2 || i == 3 || i == 4);
        }
    }
    assert(is_word("rule"@)) by {
        reveal_strlit("rule");
        let s = "rule"@;
        assert forall|i: int| 0 <= i < s.len() implies !is_white(#[trigger] s[i]) by {
            assert(i == 0 || i == 1 || i == 2 || i == 3);
        }
    }
    assert(is_word("address"@)) by {
        reveal_strlit("address");
        let s = "address"@;
        assert forall|i: int| 0 <= i < s.len() implies !is_white(#[trigger] s[i]) by {
            assert(i == 0 || i == 1 || i == 2 || i == 3 || i == 4 || i == 5 || i == 6);
        }
    }
    assert(is_word("add"@)) by {
        reveal_strlit("add");
        let s = "add"@;
        assert forall|i: int| 0 <= i < s.len() implies !is_white(#[trigger] s[i]) by {
            assert(i == 0 || i == 1 || i == 2);
        }
    }
    assert(is_word("del"@)) by {
        reveal_strlit("del");
        let s = "del"@;
        assert forall|i: int| 0 <= i < s.len() implies !is_white(#[trigger] s[i]) by {
            assert(i == 0 || i == 1 || i == 2);
        }
    }
    assert(is_word("blackhole"@)) by {
        reveal_strlit("blackhole");
        let s = "blackhole"@;
        assert forall|i: int| 0 <= i < s.len() implies !is_white(#[trigger] s[i]) by {
            assert(i == 0 || i == 1 || i == 2 || i == 3 || i == 4 || i == 5 || i == 6 || i == 7
                || i == 8);
        }
    }
    assert(is_word("unreachable"@)) by {
        reveal_strlit("unreachable");
        let s = "unreachable"@;
        assert forall|i: int| 0 <= i < s.len() implies !is_white(#[trigger] s[i]) by {
            assert(i == 0 || i == 1 || i == 2 || i == 3 || i == 4 || i == 5 || i == 6 || i == 7
                || i == 8 || i == 9 || i == 10);
        }
    }
    assert(is_word("prohibit"@)) by {
        reveal_strlit("prohibit");
        let s = "prohibit"@;
        assert forall|i: int| 0 <= i < s.len() implies !is_white(#[trigger] s[i]) by {
            assert(i == 0 || i == 1 || i == 2 || i == 3 || i == 4 || i == 5 || i == 6 || i == 7);
        }
    }
    assert(is_word("default"@)) by {
        reveal_strlit("default");
        let s = "default"@;
        assert forall|i: int| 0 <= i < s.len() implies !is_white(#[trigger] s[i]) by {
            assert(i == 0 || i == 1 || i == 2 || i == 3 || i == 4 || i == 5 || i == 6);
        }
    }
    assert(is_word("186"@)) by {
        reveal_strlit("186");
        let s = "186"@;
        assert forall|i: int| 0 <= i < s.len() implies !is_white(#[trigger] s[i]) by {
            assert(i == 0 || i == 1 || i == 2);
        }
    }
}

proof fn lemma_words_b()
    ensures
        is_word("via"@),
        is_word("dev"@),
        is_word("src"@),
        is_word("table"@),
        is_word("proto"@),
        is_word("metric"@),
        is_word("priority"@),
        is_word("from"@),
        is_word("to"@),
        is_word("iifname"@),
        is_word("oifname"@),
        is_word("fwmark"@),
{
    reveal(is_dark);
    assert(is_word("via"@)) by {
        reveal_strlit("via");
        let s = "via"@;
        assert forall|i: int| 0 <= i < s.len() implies !is_white(#[trigger] s[i]) by {
            assert(i == 0 || i == 1 || i == 2);
        }
    }
    assert(is_word("dev"@)) by {
        reveal_strlit("dev");
        let s = "dev"@;
        assert forall|i: int| 0 <= i < s.len() implies !is_white(#[trigger] s[i]) by {
            assert(i == 0 || i == 1 || i == 2);
        }
    }
    assert(is_word("src"@)) by {
        reveal_strlit("src");
        let s = "src"@;
        assert forall|i: int| 0 <= i < s.len() implies !is_white(#[trigger] s[i]) by {
            assert(i == 0 || i == 1 || i == 2);
        }
    }
    assert(is_word("table"@)) by {
        reveal_strlit("table");
        let s = "table"@;
        assert forall|i: int| 0 <= i < s.len() implies !is_white(#[trigger] s[i]) by {
            assert(i == 0 || i == 1 || i == 2 || i == 3 || i == 4);
        }
    }
    assert(is_word("proto"@)) by {
        reveal_strlit("proto");
        let s = "proto"@;
        assert forall|i: int| 0 <= i < s.len() implies !is_white(#[trigger] s[i]) by {
            assert(i == 0 || i == 1 || i == 2 || i == 3 || i == 4);
        }
    }
    assert(is_word("metric"@)) by {
        reveal_strlit("metric");
        let s = "metric"@;
        assert forall|i: int| 0 <= i < s.len() implies !is_white(#[trigger] s[i]) by {
            assert(i == 0 || i == 1 || i == 2 || i == 3 || i == 4 || i == 5);
        }
    }
    assert(is_word("priority"@)) by {
        reveal_strlit("priority");
        let s = "priority"@;
        assert forall|i: int| 0 <= i < s.len() implies !is_white(#[trigger] s[i]) by {
            assert(i == 0 || i == 1 || i == 2 || i == 3 || i == 4 || i == 5 || i == 6 || i == 7);
        }
    }
    assert(is_word("from"@)) by {
        reveal_strlit("from");
        let s = "from"@;
        assert forall|i: int| 0 <= i < s.len() implies !is_white(#[trigger] s[i]) by {
            assert(i == 0 || i == 1 || i == 2 || i == 3);
        }
    }
    assert(is_word("to"@)) by {
        reveal_strlit("to");
        let s = "to"@;
        assert forall|i: int| 0 <= i < s.len() implies !is_white(#[trigger] s[i]) by {
            assert(i == 0 || i == 1);
        }
    }
    assert(is_word("iifname"@)) by {
        reveal_strlit("iifname");
        let s = "iifname"@;
        assert forall|i: int| 0 <= i < s.len() implies !is_white(#[trigger] s[i]) by {
            assert(i == 0 || i == 1 || i == 2 || i == 3 || i == 4 || i == 5 || i == 6);
        }
    }
    assert(is_word("oifname"@)) by {
        reveal_strlit("oifname");
        let s = "oifname"@;
        assert forall|i: int| 0 <= i < s.len() implies !is_white(#[trigger] s[i]) by {
            assert(i == 0 || i == 1 || i == 2 || i == 3 || i == 4 || i == 5 || i == 6);
        }
    }
    assert(is_word("fwmark"@)) by {
        reveal_strlit("fwmark");
        let s = "fwmark"@;
        assert forall|i: int| 0 <= i < s.len() implies !is_white(#[trigger] s[i]) by {
            assert(i == 0 || i == 1 || i == 2 || i == 3 || i == 4 || i == 5);
        }
    }
}

/// The words of the commands.
proof fn lemma_words()
    ensures
        is_word("-4"@),
        is_word("-6"@),
        is_word("route"@),
        is_word("rule"@),
        is_word("address"@),
        is_word("add"@),
        is_word("del"@),
        is_word("blackhole"@),
        is_word("unreachable"@),
        is_word("prohibit"@),
        is_word("default"@),
        is_word("186"@),
        is_word("via"@),
        is_word("dev"@),
        is_word("src"@),
        is_word("table"@),
        is_word("proto"@),
        is_word("metric"@),
        is_word("priority"@),
        is_word("from"@),
        is_word("to"@),
        is_word("iifname"@),
        is_word("oifname"@),
        is_word("fwmark"@),
{
    lemma_words_a();
    lemma_words_b();
}

/// The keys of the commands differ.
proof fn lemma_keys()
    ensures
        "via"@ != "dev"@,
        "via"@ != "src"@,
        "via"@ != "table"@,
        "via"@ != "proto"@,
        "via"@ != "metric"@,
        "via"@ != "priority"@,
        "via"@ != "from"@,
        "via"@ != "to"@,
        "via"@ != "iifname"@,
        "via"@ != "oifname"@,
        "via"@ != "fwmark"@,
        "dev"@ != "src"@,
        "dev"@ != "table"@,
        "dev"@ != "proto"@,
        "dev"@ != "metric"@,
        "dev"@ != "priority"@,
        "dev"@ != "from"@,
        "dev"@ != "to"@,
        "dev"@ != "iifname"@,
        "dev"@ != "oifname"@,
        "dev"@ != "fwmark"@,
        "src"@ != "table"@,
        "src"@ != "proto"@,
        "src"@ != "metric"@,
        "src"@ != "priority"@,
        "src"@ != "from"@,
        "src"@ != "to"@,
        "src"@ != "iifname"@,
        "src"@ != "oifname"@,
        "src"@ != "fwmark"@,
        "table"@ != "proto"@,
        "table"@ != "metric"@,
        "table"@ != "priority"@,
        "table"@ != "from"@,
        "table"@ != "to"@,
        "table"@ != "iifname"@,
        "table"@ != "oifname"@,
        "table"@ != "fwmark"@,
        "proto"@ != "metric"@,
        "proto"@ != "priority"@,
        "proto"@ != "from"@,
        "proto"@ != "to"@,
        "proto"@ != "iifname"@,
        "proto"@ != "oifname"@,
        "proto"@ != "fwmark"@,
        "metric"@ != "priority"@,
        "metric"@ != "from"@,
        "metric"@ != "to"@,
        "metric"@ != "iifname"@,
        "metric"@ != "oifname"@,
        "metric"@ != "fwmark"@,
        "priority"@ != "from"@,
        "priority"@ != "to"@,
        "priority"@ != "iifname"@,
        "priority"@ != "oifname"@,
        "priority"@ != "fwmark"@,
        "from"@ != "to"@,
        "from"@ != "iifname"@,
        "from"@ != "oifname"@,
        "from"@ != "fwmark"@,
        "to"@ != "iifname"@,
        "to"@ != "oifname"@,
        "to"@ != "fwmark"@,
        "iifname"@ != "oifname"@,
        "iifname"@ != "fwmark"@,
        "oifname"@ != "fwmark"@,
{
    reveal_strlit("via");
    reveal_strlit("dev");
    reveal_strlit("src");
    reveal_strlit("table");
    reveal_strlit("proto");
    reveal_strlit("metric");
    reveal_strlit("priority");
    reveal_strlit("from");
    reveal_strlit("to");
    reveal_strlit("iifname");
    reveal_strlit("oifname");
    reveal_strlit("fwmark");
    assert("via"@[0] != "dev"@[0]);
    assert("via"@[0] != "src"@[0]);
    assert("via"@.len() == 3 && "table"@.len() == 5);
    assert("via"@.len() == 3 && "proto"@.len() == 5);
    assert("via"@.len() == 3 && "metric"@.len() == 6);
    assert("via"@.len() == 3 && "priority"@.len() == 8);
    assert("via"@.len() == 3 && "from"@.len() == 4);
    assert("via"@.len() == 3 && "to"@.len() == 2);
    assert("via"@.len() == 3 && "iifname"@.len() == 7);
    assert("via"@.len() == 3 && "oifname"@.len() == 7);
    assert("via"@.len() == 3 && "fwmark"@.len() == 6);
    assert("dev"@[0] != "src"@[0]);
    assert("dev"@.len() == 3 && "table"@.len() == 5);
    assert("dev"@.len() == 3 && "proto"@.len() == 5);
    assert("dev"@.len() == 3 && "metric"@.len() == 6);
    assert("dev"@.len() == 3 && "priority"@.len() == 8);
    assert("dev"@.len() == 3 && "from"@.len() == 4);
    assert("dev"@.len() == 3 && "to"@.len() == 2);
    assert("dev"@.len() == 3 && "iifname"@.len() == 7);
    assert("dev"@.len() == 3 && "oifname"@.len() == 7);
    assert("dev"@.len() == 3 && "fwmark"@.len() == 6);
    assert("src"@.len() == 3 && "table"@.len() == 5);
    assert("src"@.len() == 3 && "proto"@.len() == 5);
    assert("src"@.len() == 3 && "metric"@.len() == 6);
    assert("src"@.len() == 3 && "priority"@.len() == 8);
    assert("src"@.len() == 3 && "from"@.len() == 4);
    assert("src"@.len() == 3 && "to"@.len() == 2);
    assert("src"@.len() == 3 && "iifname"@.len() == 7);
    assert("src"@.len() == 3 && "oifname"@.len() == 7);
    assert("src"@.len() == 3 && "fwmark"@.len() == 6);
    assert("table"@[0] != "proto"@[0]);
    assert("table"@.len() == 5 && "metric"@.len() == 6);
    assert("table"@.len() == 5 && "priority"@.len() == 8);
    assert("table"@.len() == 5 && "from"@.len() == 4);
    assert("table"@.len() == 5 && "to"@.len() == 2);
    assert("table"@.len() == 5 && "iifname"@.len() == 7);
    assert("table"@.len() == 5 && "oifname"@.len() == 7);
    assert("table"@.len() == 5 && "fwmark"@.len() == 6);
    assert("proto"@.len() == 5 && "metric"@.len() == 6);
    assert("proto"@.len() == 5 && "priority"@.len() == 8);
    assert("proto"@.len() == 5 && "from"@.len() == 4);
    assert("proto"@.len() == 5 && "to"@.len() == 2);
    assert("proto"@.len() == 5 && "iifname"@.len() == 7);
    assert("proto"@.len() == 5 && "oifname"@.len() == 7);
    assert("proto"@.len() == 5 && "fwmark"@.len() == 6);
    assert("metric"@.len() == 6 && "priority"@.len() == 8);
    assert("metric"@.len() == 6 && "from"@.len() == 4);
    assert("metric"@.len() == 6 && "to"@.len() == 2);
    assert("metric"@.len() == 6 && "iifname"@.len() == 7);
    assert("metric"@.len() == 6 && "oifname"@.len() == 7);
    assert("metric"@[0] != "fwmark"@[0]);
    assert("priority"@.len() == 8 && "from"@.len() == 4);
    assert("priority"@.len() == 8 && "to"@.len() == 2);
    assert("priority"@.len() == 8 && "iifname"@.len() == 7);
    assert("priority"@.len() == 8 && "oifname"@.len() == 7);
    assert("priority"@.len() == 8 && "fwmark"@.len() == 6);
    assert("from"@.len() == 4 && "to"@.len() == 2);
    assert("from"@.len() == 4 && "iifname"@.len() == 7);
    assert("from"@.len() == 4 && "oifname"@.len() == 7);
    assert("from"@.len() == 4 && "fwmark"@.len() == 6);
    assert("to"@.len() == 2 && "iifname"@.len() == 7);
    assert("to"@.len() == 2 && "oifname"@.len() == 7);
    assert("to"@.len() == 2 && "fwmark"@.len() == 6);
    assert("iifname"@[0] != "oifname"@[0]);
    assert("iifname"@.len() == 7 && "fwmark"@.len() == 6);
    assert("oifname"@.len() == 7 && "fwmark"@.len() == 6);
}

/// The value that a list of keys and values gives a key.
pub open spec fn given(t: Seq<Seq<char>>, key: Seq<char>) -> Option<Seq<char>>
    decreases t.len(),
{
    if t.len() < 2 {
        None
    } else if t[0] == key {
        Some(t[1])
    } else {
        given(t.skip(2), key)
    }
}

/// A key and its value, where it has one.
pub type Choice = (Seq<char>, Option<Seq<char>>);

/// The tokens of the keys from `i` on that have values.
pub open spec fn choice_tokens(c: Seq<Choice>, i: int) -> Seq<Seq<char>>
    decreases c.len() - i,
{
    if i < 0 || i >= c.len() {
        Seq::empty()
    } else {
        match c[i].1 {
            Some(v) => seq![c[i].0, v] + choice_tokens(c, i + 1),
            None => choice_tokens(c, i + 1),
        }
    }
}

/// The text of the keys from `i` on that have values, a space before each word.
pub open spec fn choice_text(c: Seq<Choice>, i: int) -> Seq<char>
    decreases c.len() - i,
{
    if i < 0 || i >= c.len() {
        Seq::empty()
    } else {
        match c[i].1 {
            Some(v) => seq![' '] + c[i].0 + seq![' '] + v + choice_text(c, i + 1),
            None => choice_text(c, i + 1),
        }
    }
}

/// Whether keys and values are words.
pub open spec fn are_words(c: Seq<Choice>) -> bool {
    forall|i: int|
        0 <= i < c.len() ==> is_word((#[trigger] c[i]).0) && (c[i].1 matches Some(v) ==> is_word(v))
}

pub proof fn lemma_choice_tokens(h: Seq<char>, c: Seq<Choice>, i: int)
    requires
        are_words(c),
        0 <= i,
    ensures
        choice_text(c, i).len() == 0 || choice_text(c, i)[0] == ' ',
        tokens(h + choice_text(c, i)) == tokens(h) + choice_tokens(c, i),
    decreases c.len() - i,
{
    if i < c.len() {
        assert(is_word(c[i].0));
        match c[i].1 {
            Some(v) => {
                let k = c[i].0;
                let rest = choice_text(c, i + 1);
                let g = h + seq![' '] + k;
                let f = g + seq![' '] + v;
                lemma_choice_tokens(f, c, i + 1);
                lemma_tokens_join(h, k);
                lemma_tokens_join(g, v);
                lemma_tokens_word(k);
                lemma_tokens_word(v);
                assert(h + choice_text(c, i) =~= f + rest);
                assert(tokens(h) + seq![k] + seq![v] + choice_tokens(c, i + 1) =~= tokens(h) + (
                seq![k, v] + choice_tokens(c, i + 1)));
            },
            None => {
                lemma_choice_tokens(h, c, i + 1);
            },
        }
    } else {
        assert(h + choice_text(c, i) =~= h);
        assert(tokens(h) + choice_tokens(c, i) =~= tokens(h));
    }
}

/// Whether no two keys are the same.
pub open spec fn are_distinct(c: Seq<Choice>) -> bool {
    forall|i: int, j: int| 0 <= i < j < c.len() ==> (#[trigger] c[i]).0 != (#[trigger] c[j]).0
}

pub proof fn lemma_not_chosen(c: Seq<Choice>, rest: Seq<Seq<char>>, i: int, key: Seq<char>)
    requires
        0 <= i,
        forall|j: int| i <= j < c.len() ==> (#[trigger] c[j]).0 != key,
    ensures
        given(choice_tokens(c, i) + rest, key) == given(rest, key),
    decreases c.len() - i,
{
    if i < c.len() {
        lemma_not_chosen(c, rest, i + 1, key);
        assert(c[i].0 != key);
        if let Some(v) = c[i].1 {
            let t = choice_tokens(c, i) + rest;
            assert(t[0] == c[i].0);
            assert(t.skip(2) =~= choice_tokens(c, i + 1) + rest);
        }
    } else {
        assert(choice_tokens(c, i) + rest =~= rest);
    }
}

pub proof fn lemma_chosen(c: Seq<Choice>, rest: Seq<Seq<char>>, i: int, k: int)
    requires
        are_distinct(c),
        0 <= i <= k < c.len(),
        given(rest, c[k].0) is None,
    ensures
        given(choice_tokens(c, i) + rest, c[k].0) == c[k].1,
    decreases k - i,
{
    let t = choice_tokens(c, i) + rest;
    if i < k {
        assert(c[i].0 != c[k].0);
        lemma_chosen(c, rest, i + 1, k);
        if let Some(v) = c[i].1 {
            assert(t[0] == c[i].0);
            assert(t.skip(2) =~= choice_tokens(c, i + 1) + rest);
        }
    } else {
        match c[k].1 {
            Some(v) => {
                assert(t[0] == c[k].0 && t[1] == v);
            },
            None => {
                assert forall|j: int| k + 1 <= j < c.len() implies (#[trigger] c[j]).0 != c[k].0 by {
                    assert(c[k].0 != c[j].0);
                }
                lemma_not_chosen(c, rest, k + 1, c[k].0);
            },
        }
    }
}

proof fn lemma_part_literals()
    ensures
        " via "@ == " "@ + "via"@ + " "@,
        " dev "@ == " "@ + "dev"@ + " "@,
        " src "@ == " "@ + "src"@ + " "@,
        " table "@ == " "@ + "table"@ + " "@,
        " metric "@ == " "@ + "metric"@ + " "@,
        " from "@ == " "@ + "from"@ + " "@,
        " to "@ == " "@ + "to"@ + " "@,
        " iifname "@ == " "@ + "iifname"@ + " "@,
        " oifname "@ == " "@ + "oifname"@ + " "@,
{
    reveal_strlit(" ");
    reveal_strlit(" via ");
    reveal_strlit("via");
    assert(" via "@ =~= " "@ + "via"@ + " "@);
    reveal_strlit(" dev ");
    reveal_strlit("dev");
    assert(" dev "@ =~= " "@ + "dev"@ + " "@);
    reveal_strlit(" src ");
    reveal_strlit("src");
    assert(" src "@ =~= " "@ + "src"@ + " "@);
    reveal_strlit(" table ");
    reveal_strlit("table");
    assert(" table "@ =~= " "@ + "table"@ + " "@);
    reveal_strlit(" metric ");
    reveal_strlit("metric");
    assert(" metric "@ =~= " "@ + "metric"@ + " "@);
    reveal_strlit(" from ");
    reveal_strlit("from");
    assert(" from "@ =~= " "@ + "from"@ + " "@);
    reveal_strlit(" to ");
    reveal_strlit("to");
    assert(" to "@ =~= " "@ + "to"@ + " "@);
    reveal_strlit(" iifname ");
    reveal_strlit("iifname");
    assert(" iifname "@ =~= " "@ + "iifname"@ + " "@);
    reveal_strlit(" oifname ");
    reveal_strlit("oifname");
    assert(" oifname "@ =~= " "@ + "oifname"@ + " "@);
}

/// Whether a name is there and is a word, or is not there.
pub open spec fn is_plain_name(s: Option<Seq<char>>) -> bool {
    s matches Some(x) ==> is_word(x)
}

/// Whether an address is given by a text.
pub open spec fn gives_address(text: Option<Seq<char>>, a: Option<IpAddr>) -> bool {
    match a {
        Some(x) => text is Some && address_value(text->Some_0) == Some(x),
        None => text is None,
    }
}

/// Whether a network is given by a text.
pub open spec fn gives_network(text: Option<Seq<char>>, n: Option<IpNetwork>) -> bool {
    match n {
        Some(x) => text is Some && network_value(text->Some_0) == Some(x),
        None => text is None,
    }
}

/// Whether a number is given by a text.
pub open spec fn gives_number(text: Option<Seq<char>>, n: Option<u32>) -> bool {
    match n {
        Some(x) => text is Some && u32_value(text->Some_0) == Some(x),
        None => text is None,
    }
}

/// Whether the tokens of a command are an operation on a route: its family, its type, its destination, and
/// behind them its next hop, device, source, table, metric, and the protocol of the agent.
pub open spec fn reads_route(t: Seq<Seq<char>>, op: Seq<char>, r: NetworkRouteView) -> bool {
    let d: int = if r.route_type == NetworkRouteType::Unicast {
        3
    } else {
        4
    };
    let o = t.skip(d + 1);
    &&& t.len() > d
    &&& t[0] == (match r.destination.address {
        IpAddr::V4(_) => "-4"@,
        IpAddr::V6(_) => "-6"@,
    })
    &&& t[1] == "route"@
    &&& t[2] == op
    &&& r.route_type == NetworkRouteType::Blackhole ==> t[3] == "blackhole"@
    &&& r.route_type == NetworkRouteType::Unreachable ==> t[3] == "unreachable"@
    &&& r.route_type == NetworkRouteType::Prohibit ==> t[3] == "prohibit"@
    &&& r.destination.prefix_len == 0 ==> t[d] == "default"@
    &&& r.destination.prefix_len > 0 ==> network_value(t[d]) == Some(r.destination)
    &&& reads_hop(o, r)
}

/// Whether keys and values say where a route goes on, in which table, and that it is the agent's.
pub open spec fn reads_hop(o: Seq<Seq<char>>, r: NetworkRouteView) -> bool {
    &&& gives_address(given(o, "via"@), r.gateway)
    &&& given(o, "dev"@) == r.output_interface
    &&& gives_address(given(o, "src"@), r.preferred_source)
    &&& gives_number(given(o, "table"@), Some(r.table))
    &&& gives_number(given(o, "metric"@), r.metric)
    &&& given(o, "proto"@) == Some("186"@)
}

proof fn lemma_address_word(a: IpAddr)
    ensures
        is_word(address_format(a)),
{
    lemma_address_dark(a);
    lemma_address_some(a);
}

proof fn lemma_hex_word(n: nat)
    ensures
        is_word(hex(n)),
{
    lemma_hex(n);
    reveal(is_dark);
    assert forall|i: int| 0 <= i < hex(n).len() implies !is_white(#[trigger] hex(n)[i]) by {
        assert(is_hex(hex(n)[i]));
    }
}

/// The tokens of the head of a command on a route.
proof fn lemma_route_head(op: Seq<char>, r: NetworkRouteView) -> (d: Seq<Seq<char>>)
    requires
        is_word(op),
    ensures
        tokens(
            family_flag(r.destination.address is V4) + " route "@ + op + " "@ + route_type_word(
                r.route_type,
            ) + destination_text(r.destination),
        ) == seq![family_flag(r.destination.address is V4), "route"@, op] + d,
        d == (match r.route_type {
            NetworkRouteType::Unicast => seq![destination_text(r.destination)],
            NetworkRouteType::Blackhole => seq!["blackhole"@, destination_text(r.destination)],
            NetworkRouteType::Unreachable => seq!["unreachable"@, destination_text(r.destination)],
            NetworkRouteType::Prohibit => seq!["prohibit"@, destination_text(r.destination)],
        }),
{
    lemma_words();
    lemma_space();
    lemma_network_word(r.destination);
    let flag = family_flag(r.destination.address is V4);
    let dest = destination_text(r.destination);
    let kind = route_type_word(r.route_type);
    assert(is_word(flag) && is_word(dest));
    reveal_strlit(" route ");
    reveal_strlit("route");
    assert(" route "@ =~= seq![' '] + "route"@ + seq![' ']);
    let tail = kind + dest;
    let a = flag + seq![' '] + "route"@;
    let b = a + seq![' '] + op;
    assert(flag + " route "@ + op + " "@ + kind + dest =~= b + seq![' '] + tail);
    lemma_tokens_join(b, tail);
    lemma_tokens_join(a, op);
    lemma_tokens_join(flag, "route"@);
    lemma_tokens_word(flag);
    lemma_tokens_word("route"@);
    lemma_tokens_word(op);
    lemma_tokens_word(dest);
    reveal_strlit("blackhole ");
    reveal_strlit("blackhole");
    reveal_strlit("unreachable ");
    reveal_strlit("unreachable");
    reveal_strlit("prohibit ");
    reveal_strlit("prohibit");
    assert("blackhole "@ =~= "blackhole"@ + seq![' ']);
    assert("unreachable "@ =~= "unreachable"@ + seq![' ']);
    assert("prohibit "@ =~= "prohibit"@ + seq![' ']);
    lemma_tokens_word("blackhole"@);
    lemma_tokens_word("unreachable"@);
    lemma_tokens_word("prohibit"@);
    lemma_tokens_join("blackhole"@, dest);
    lemma_tokens_join("unreachable"@, dest);
    lemma_tokens_join("prohibit"@, dest);
    let d = match r.route_type {
        NetworkRouteType::Unicast => seq![dest],
        NetworkRouteType::Blackhole => seq!["blackhole"@, dest],
        NetworkRouteType::Unreachable => seq!["unreachable"@, dest],
        NetworkRouteType::Prohibit => seq!["prohibit"@, dest],
    };
    assert(tokens(tail) =~= d) by {
        if r.route_type == NetworkRouteType::Unicast {
            assert(tail =~= dest);
        }
    }
    assert(tokens(b + seq![' '] + tail) =~= seq![flag, "route"@, op] + d);
    d
}

/// The options of a command on a route, one after the other.
spec fn route_choices(r: NetworkRouteView) -> Seq<Choice> {
    seq![
        ("via"@, address_part(r.gateway)),
        ("dev"@, r.output_interface),
        ("src"@, address_part(r.preferred_source)),
        ("table"@, Some(decimal(r.table as nat))),
        ("proto"@, Some("186"@)),
        ("metric"@, number_part(r.metric)),
    ]
}

proof fn lemma_route_words(r: NetworkRouteView)
    requires
        is_plain_name(r.output_interface),
    ensures
        address_part(r.gateway) matches Some(x) ==> is_word(x),
        address_part(r.preferred_source) matches Some(x) ==> is_word(x),
        number_part(r.metric) matches Some(x) ==> is_word(x),
        is_word(decimal(r.table as nat)),
{
    if let Some(a) = r.gateway {
        lemma_address_word(a);
    }
    if let Some(a) = r.preferred_source {
        lemma_address_word(a);
    }
    if let Some(n) = r.metric {
        lemma_decimal_word(n as nat);
    }
    lemma_decimal_word(r.table as nat);
}

/// A command on a route is one line, and its tokens are the head and the options.
proof fn lemma_route_tokens(op: Seq<char>, r: NetworkRouteView) -> (d: Seq<Seq<char>>)
    requires
        is_word(op),
        is_plain_name(r.output_interface),
    ensures
        route_line(op, r).len() > 0,
        route_line(op, r).last() == '\n',
        tokens(route_line(op, r).drop_last()) == seq![
            family_flag(r.destination.address is V4),
            "route"@,
            op,
        ] + d + choice_tokens(route_choices(r), 0),
        d == (match r.route_type {
            NetworkRouteType::Unicast => seq![destination_text(r.destination)],
            NetworkRouteType::Blackhole => seq!["blackhole"@, destination_text(r.destination)],
            NetworkRouteType::Unreachable => seq!["unreachable"@, destination_text(r.destination)],
            NetworkRouteType::Prohibit => seq!["prohibit"@, destination_text(r.destination)],
        }),
{
    lemma_words();
    lemma_part_literals();
    lemma_route_words(r);
    let d = lemma_route_head(op, r);
    let h = family_flag(r.destination.address is V4) + " route "@ + op + " "@ + route_type_word(
        r.route_type,
    ) + destination_text(r.destination);
    let c = route_choices(r);
    assert(are_words(c));
    lemma_choice_tokens(h, c, 0);
    let body = h + choice_text(c, 0);
    lemma_route_text(op, r);
    reveal_strlit("\n");
    assert(route_line(op, r).drop_last() =~= body);
    d
}

#[verifier::rlimit(40)]
proof fn lemma_route_text(op: Seq<char>, r: NetworkRouteView)
    ensures
        ({
            let h = family_flag(r.destination.address is V4) + " route "@ + op + " "@
                + route_type_word(r.route_type) + destination_text(r.destination);
            route_line(op, r) == h + choice_text(route_choices(r), 0) + "\n"@
        }),
{
    let h = family_flag(r.destination.address is V4) + " route "@ + op + " "@ + route_type_word(
        r.route_type,
    ) + destination_text(r.destination);
    let c = route_choices(r);
    lemma_part_literals();
    lemma_space();
    reveal_strlit(" proto 186");
    reveal_strlit("proto");
    reveal_strlit("186");
    assert(" proto 186"@ =~= seq![' '] + "proto"@ + seq![' '] + "186"@);
    let x1 = word_part(" via "@, c[0].1);
    let x2 = word_part(" dev "@, c[1].1);
    let x3 = word_part(" src "@, c[2].1);
    let x4 = " table "@ + decimal(r.table as nat);
    let x5 = " proto 186"@;
    let x6 = word_part(" metric "@, c[5].1);
    assert(choice_text(c, 0) =~= x1 + (x2 + (x3 + (x4 + (x5 + x6))))) by {
        assert(choice_text(c, 6) =~= Seq::empty());
        assert(choice_text(c, 5) =~= x6);
        assert(choice_text(c, 4) =~= x5 + x6);
        assert(choice_text(c, 3) =~= x4 + (x5 + x6));
        assert(choice_text(c, 2) =~= x3 + (x4 + (x5 + x6)));
        assert(choice_text(c, 1) =~= x2 + (x3 + (x4 + (x5 + x6))));
    }
    assert(route_line(op, r) == h + x1 + x2 + x3 + " table "@ + decimal(r.table as nat) + x5 + x6
        + "\n"@);
    assert(h + x1 + x2 + x3 + " table "@ + decimal(r.table as nat) =~= h + x1 + x2 + x3 + x4);
    lemma_six(h, x1, x2, x3, x4, x5, x6);
}

proof fn lemma_route_given(r: NetworkRouteView, k: int)
    requires
        0 <= k < 6,
    ensures
        given(choice_tokens(route_choices(r), 0), route_choices(r)[k].0) == route_choices(r)[k].1,
{
    lemma_keys();
    let c = route_choices(r);
    assert(are_distinct(c));
    let none = Seq::<Seq<char>>::empty();
    lemma_chosen(c, none, 0, k);
    assert(choice_tokens(c, 0) + none =~= choice_tokens(c, 0));
}

proof fn lemma_hop(r: NetworkRouteView)
    ensures
        reads_hop(choice_tokens(route_choices(r), 0), r),
{
    lemma_route_given(r, 0);
    lemma_route_given(r, 1);
    lemma_route_given(r, 2);
    lemma_route_given(r, 3);
    lemma_route_given(r, 4);
    lemma_route_given(r, 5);
    if let Some(a) = r.gateway {
        law_address_round_trips(a);
    }
    if let Some(a) = r.preferred_source {
        law_address_round_trips(a);
    }
    law_sized_numbers_round_trip(0, 0, r.table);
    if let Some(m) = r.metric {
        law_sized_numbers_round_trip(0, 0, m);
    }
}

/// A command on a route says of the route what there is to say: whoever reads it finds the family, the type,
/// the destination, the next hop, the device, the source, the table and the metric that were asked for. Only
/// a route to everything has the word for it in the place of its destination.
pub proof fn law_route_command_is_read_back(op: Seq<char>, r: NetworkRouteView)
    requires
        is_word(op),
        is_plain_name(r.output_interface),
    ensures
        route_line(op, r).len() > 0,
        route_line(op, r).last() == '\n',
        reads_route(tokens(route_line(op, r).drop_last()), op, r),
{
    let d = lemma_route_tokens(op, r);
    let t = tokens(route_line(op, r).drop_last());
    let flag = family_flag(r.destination.address is V4);
    let n: int = if r.route_type == NetworkRouteType::Unicast {
        3
    } else {
        4
    };
    assert(t[0] == flag && t[1] == "route"@ && t[2] == op);
    assert(t[3] == d[0]);
    assert(t[n] == destination_text(r.destination)) by {
        assert(t[n] == d[n - 3]);
    }
    let o = t.skip(n + 1);
    assert(o =~= choice_tokens(route_choices(r), 0));
    lemma_hop(r);
    law_network_round_trips(r.destination);
}

/// Whether two routes are the same to the kernel.
pub open spec fn is_same_route(a: NetworkRouteView, b: NetworkRouteView) -> bool {
    &&& a.route_type == b.route_type
    &&& (a.destination.address is V4) == (b.destination.address is V4)
    &&& a.destination.prefix_len == b.destination.prefix_len
    &&& a.destination.prefix_len > 0 ==> a.destination == b.destination
    &&& a.gateway == b.gateway
    &&& a.output_interface == b.output_interface
    &&& a.preferred_source == b.preferred_source
    &&& a.table == b.table
    &&& a.metric == b.metric
}

proof fn lemma_no_network(s: Seq<char>)
    requires
        forall|i: int| 0 <= i < s.len() ==> s[i] != '/',
    ensures
        network_value(s) is None,
{
    lemma_find_from(s, '/', 0);
}

proof fn lemma_plain_words()
    ensures
        network_value("default"@) is None,
        network_value("blackhole"@) is None,
        network_value("unreachable"@) is None,
        network_value("prohibit"@) is None,
        "default"@ != "blackhole"@,
        "default"@ != "unreachable"@,
        "default"@ != "prohibit"@,
        "blackhole"@ != "unreachable"@,
        "blackhole"@ != "prohibit"@,
        "unreachable"@ != "prohibit"@,
        "-4"@ != "-6"@,
        "add"@ != "del"@,
{
    reveal_strlit("default");
    reveal_strlit("blackhole");
    reveal_strlit("unreachable");
    reveal_strlit("prohibit");
    reveal_strlit("-4");
    reveal_strlit("-6");
    reveal_strlit("add");
    reveal_strlit("del");
    assert("-4"@[1] == '4' && "-6"@[1] == '6');
    assert("add"@[0] == 'a' && "del"@[0] == 'd');
    lemma_no_network("default"@);
    lemma_no_network("blackhole"@);
    lemma_no_network("unreachable"@);
    lemma_no_network("prohibit"@);
}

/// Routes that differ to the kernel have different commands, and so have the two operations.
pub proof fn law_different_routes_have_different_commands(
    op: Seq<char>,
    a: NetworkRouteView,
    other: Seq<char>,
    b: NetworkRouteView,
)
    requires
        is_word(op),
        is_word(other),
        is_plain_name(a.output_interface),
        is_plain_name(b.output_interface),
        !is_same_route(a, b) || op != other,
    ensures
        route_line(op, a) != route_line(other, b),
{
    if route_line(op, a) == route_line(other, b) {
        law_route_command_is_read_back(op, a);
        law_route_command_is_read_back(other, b);
        lemma_plain_words();
        let t = tokens(route_line(op, a).drop_last());
        assert(a.route_type == b.route_type);
        assert(is_same_route(a, b));
    }
}

/// Whether the tokens of a command are an operation on a policy rule: its family and priority, and behind them
/// what it matches and what it does.
pub open spec fn reads_rule(t: Seq<Seq<char>>, op: Seq<char>, r: NetworkPolicyRuleView) -> bool {
    let o = t.skip(3);
    &&& t.len() > 4
    &&& t[0] == (match r.family {
        NetworkFamily::Ipv4 => "-4"@,
        NetworkFamily::Ipv6 => "-6"@,
    })
    &&& t[1] == "rule"@
    &&& t[2] == op
    &&& gives_number(given(o, "priority"@), Some(r.priority))
    &&& gives_network(given(o, "from"@), r.source)
    &&& gives_network(given(o, "to"@), r.destination)
    &&& given(o, "iifname"@) == r.input_interface
    &&& given(o, "oifname"@) == r.output_interface
    &&& r.fwmark is None ==> given(o, "fwmark"@) is None
    &&& r.fwmark is Some ==> given(o, "fwmark"@) is Some && fwmark_value(
        Some(JsonView::Text(given(o, "fwmark"@)->Some_0)),
    ) == Some((r.fwmark, r.fwmark_mask))
    &&& r.action == NetworkPolicyAction::Lookup ==> gives_number(given(o, "table"@), Some(r.table))
    &&& r.action != NetworkPolicyAction::Lookup ==> given(o, "table"@) is None
    &&& r.action == NetworkPolicyAction::Blackhole ==> t.last() == "blackhole"@
    &&& r.action == NetworkPolicyAction::Unreachable ==> t.last() == "unreachable"@
    &&& r.action == NetworkPolicyAction::Prohibit ==> t.last() == "prohibit"@
}

/// The text of a mark with its mask.
spec fn mark_word(mark: Option<u32>, mask: Option<u32>) -> Option<Seq<char>> {
    match mark {
        None => None,
        Some(m) => Some(
            "0x"@ + hex(m as nat) + word_part(
                "/0x"@,
                match mask {
                    Some(k) => Some(hex(k as nat)),
                    None => None,
                },
            ),
        ),
    }
}

proof fn lemma_mark_value(n: u32)
    ensures
        mark_value("0x"@ + hex(n as nat)) == Some(n),
        is_dark("0x"@ + hex(n as nat)),
        forall|i: int| 0 <= i < ("0x"@ + hex(n as nat)).len() ==> ("0x"@ + hex(n as nat))[i] != '/',
{
    reveal_strlit("0x");
    let s = "0x"@ + hex(n as nat);
    law_hex_round_trips(n as nat, u32::MAX as nat);
    lemma_hex_word(n as nat);
    lemma_hex(n as nat);
    assert(s.take(2) =~= "0x"@);
    assert(s.skip(2) =~= hex(n as nat));
    assert(is_dark("0x"@)) by {
        reveal(is_dark);
    }
    lemma_dark_add("0x"@, hex(n as nat));
    assert forall|i: int| 0 <= i < s.len() implies s[i] != '/' by {
        if i >= 2 {
            assert(s[i] == hex(n as nat)[i - 2]);
            assert(is_hex(hex(n as nat)[i - 2]));
        }
    }
}

/// A mark is read back with its mask.
proof fn lemma_mark(mark: u32, mask: Option<u32>)
    ensures
        is_word(mark_word(Some(mark), mask)->Some_0),
        fwmark_value(Some(JsonView::Text(mark_word(Some(mark), mask)->Some_0))) == Some(
            (Some(mark), mask),
        ),
{
    lemma_mark_value(mark);
    reveal_strlit("0x");
    let a = "0x"@ + hex(mark as nat);
    let s = mark_word(Some(mark), mask)->Some_0;
    match mask {
        None => {
            assert(s =~= a);
            lemma_find_from(s, '/', 0);
            assert(split_once(s, '/') is None);
        },
        Some(k) => {
            lemma_mark_value(k);
            reveal_strlit("/0x");
            let b = "0x"@ + hex(k as nat);
            assert("/0x"@ =~= seq!['/'] + "0x"@);
            assert(s =~= a + seq!['/'] + b);
            assert(s[a.len() as int] == '/');
            assert forall|i: int| 0 <= i < a.len() implies s[i] != '/' by {
                assert(s[i] == a[i]);
            }
            lemma_find_at(s, '/', 0, a.len() as int);
            assert(s.take(a.len() as int) =~= a);
            assert(s.skip(a.len() as int + 1) =~= b);
            assert(is_dark(seq!['/'])) by {
                reveal(is_dark);
            }
            lemma_dark_add(a, seq!['/']);
            lemma_dark_add(a + seq!['/'], b);
        },
    }
}

/// The last tokens of a command on a rule.
spec fn action_tokens(r: NetworkPolicyRuleView) -> Seq<Seq<char>> {
    match r.action {
        NetworkPolicyAction::Lookup => seq!["table"@, decimal(r.table as nat)],
        NetworkPolicyAction::Blackhole => seq!["blackhole"@],
        NetworkPolicyAction::Unreachable => seq!["unreachable"@],
        NetworkPolicyAction::Prohibit => seq!["prohibit"@],
    }
}

proof fn lemma_action(r: NetworkPolicyRuleView)
    ensures
        tokens(action_text(r.action, r.table)) == action_tokens(r),
        action_text(r.action, r.table).len() > 0,
        action_text(r.action, r.table)[0] == ' ',
{
    lemma_words();
    lemma_part_literals();
    lemma_decimal_word(r.table as nat);
    lemma_space();
    reveal_strlit(" table ");
    let none = Seq::<char>::empty();
    assert(is_dark(none)) by {
        reveal(is_dark);
    }
    lemma_tokens_word(none);
    reveal_strlit(" blackhole");
    reveal_strlit("blackhole");
    reveal_strlit(" unreachable");
    reveal_strlit("unreachable");
    reveal_strlit(" prohibit");
    reveal_strlit("prohibit");
    let number = decimal(r.table as nat);
    lemma_tokens_join("table"@, number);
    lemma_tokens_word("table"@);
    lemma_tokens_word(number);
    lemma_tokens_join(none, "table"@ + seq![' '] + number);
    assert(" table "@ + number =~= none + seq![' '] + ("table"@ + seq![' '] + number));
    assert(" blackhole"@ =~= none + seq![' '] + "blackhole"@);
    assert(" unreachable"@ =~= none + seq![' '] + "unreachable"@);
    assert(" prohibit"@ =~= none + seq![' '] + "prohibit"@);
    lemma_tokens_join(none, "blackhole"@);
    lemma_tokens_join(none, "unreachable"@);
    lemma_tokens_join(none, "prohibit"@);
    lemma_tokens_word("blackhole"@);
    lemma_tokens_word("unreachable"@);
    lemma_tokens_word("prohibit"@);
    assert(tokens(action_text(r.action, r.table)) =~= action_tokens(r));
}

/// The options of a command on a rule, one after the other.
spec fn rule_choices(r: NetworkPolicyRuleView) -> Seq<Choice> {
    seq![
        ("priority"@, Some(decimal(r.priority as nat))),
        ("from"@, network_part(r.source)),
        ("to"@, network_part(r.destination)),
        ("iifname"@, r.input_interface),
        ("oifname"@, r.output_interface),
        ("fwmark"@, mark_word(r.fwmark, r.fwmark_mask)),
    ]
}

proof fn lemma_rule_head(op: Seq<char>, flag: Seq<char>)
    requires
        is_word(op),
        is_word(flag),
    ensures
        tokens(flag + " rule "@ + op) == seq![flag, "rule"@, op],
{
    lemma_words();
    reveal_strlit(" rule ");
    reveal_strlit("rule");
    assert(" rule "@ =~= seq![' '] + "rule"@ + seq![' ']);
    let a = flag + seq![' '] + "rule"@;
    let h = a + seq![' '] + op;
    lemma_tokens_join(a, op);
    lemma_tokens_join(flag, "rule"@);
    lemma_tokens_word(flag);
    lemma_tokens_word("rule"@);
    lemma_tokens_word(op);
    assert(flag + " rule "@ + op =~= h);
    assert(tokens(h) =~= seq![flag, "rule"@, op]);
}

proof fn lemma_six(
    h: Seq<char>,
    a: Seq<char>,
    b: Seq<char>,
    c: Seq<char>,
    d: Seq<char>,
    e: Seq<char>,
    f: Seq<char>,
)
    ensures
        h + (a + (b + (c + (d + (e + f))))) == h + a + b + c + d + e + f,
{
    let g = h + a + b;
    assert(h + (a + (b + (c + (d + (e + f))))) =~= g + (c + (d + (e + f))));
    assert(g + (c + (d + (e + f))) =~= g + c + d + e + f);
}

#[verifier::rlimit(40)]
proof fn lemma_rule_text(op: Seq<char>, r: NetworkPolicyRuleView)
    ensures
        rule_line(op, r) == family_flag(r.family == NetworkFamily::Ipv4) + " rule "@ + op
            + choice_text(rule_choices(r), 0) + action_text(r.action, r.table) + "\n"@,
{
    let h = family_flag(r.family == NetworkFamily::Ipv4) + " rule "@ + op;
    let c = rule_choices(r);
    lemma_part_literals();
    lemma_space();
    reveal_strlit(" priority ");
    reveal_strlit("priority");
    reveal_strlit(" fwmark 0x");
    reveal_strlit("fwmark");
    reveal_strlit("0x");
    assert(" priority "@ =~= seq![' '] + "priority"@ + seq![' ']);
    assert(" fwmark 0x"@ =~= seq![' '] + "fwmark"@ + seq![' '] + "0x"@);
    let x0 = " priority "@ + decimal(r.priority as nat);
    let x1 = word_part(" from "@, c[1].1);
    let x2 = word_part(" to "@, c[2].1);
    let x3 = word_part(" iifname "@, c[3].1);
    let x4 = word_part(" oifname "@, c[4].1);
    let x5 = mark_text(r.fwmark, r.fwmark_mask);
    assert(choice_text(c, 0) =~= x0 + (x1 + (x2 + (x3 + (x4 + x5))))) by {
        assert(choice_text(c, 6) =~= Seq::empty());
        assert(choice_text(c, 5) =~= x5);
        assert(choice_text(c, 4) =~= x4 + x5);
        assert(choice_text(c, 3) =~= x3 + (x4 + x5));
        assert(choice_text(c, 2) =~= x2 + (x3 + (x4 + x5)));
        assert(choice_text(c, 1) =~= x1 + (x2 + (x3 + (x4 + x5))));
    }
    let z = action_text(r.action, r.table);
    assert(rule_line(op, r) == h + " priority "@ + decimal(r.priority as nat) + x1 + x2 + x3 + x4
        + x5 + z + "\n"@);
    assert(h + " priority "@ + decimal(r.priority as nat) =~= h + x0);
    lemma_six(h, x0, x1, x2, x3, x4, x5);
}

proof fn lemma_rule_tokens(op: Seq<char>, r: NetworkPolicyRuleView)
    requires
        is_word(op),
        is_plain_name(r.input_interface),
        is_plain_name(r.output_interface),
    ensures
        rule_line(op, r).len() > 0,
        rule_line(op, r).last() == '\n',
        tokens(rule_line(op, r).drop_last()) == seq![
            family_flag(r.family == NetworkFamily::Ipv4),
            "rule"@,
            op,
        ] + choice_tokens(rule_choices(r), 0) + action_tokens(r),
{
    let flag = family_flag(r.family == NetworkFamily::Ipv4);
    lemma_words();
    lemma_rule_head(op, flag);
    lemma_action(r);
    lemma_rule_text(op, r);
    if let Some(n) = r.source {
        lemma_network_word(n);
    }
    if let Some(n) = r.destination {
        lemma_network_word(n);
    }
    if let Some(m) = r.fwmark {
        lemma_mark(m, r.fwmark_mask);
    }
    lemma_decimal_word(r.priority as nat);
    let c = rule_choices(r);
    assert(are_words(c));
    let h = flag + " rule "@ + op;
    let z = action_text(r.action, r.table);
    lemma_choice_tokens(h, c, 0);
    lemma_tokens_glue(h + choice_text(c, 0), z);
    let body = h + choice_text(c, 0) + z;
    reveal_strlit("\n");
    assert(rule_line(op, r).drop_last() =~= body);
}

proof fn lemma_rule_given(r: NetworkPolicyRuleView, k: int)
    requires
        0 <= k < 6,
    ensures
        given(choice_tokens(rule_choices(r), 0) + action_tokens(r), rule_choices(r)[k].0)
            == rule_choices(r)[k].1,
        given(choice_tokens(rule_choices(r), 0) + action_tokens(r), "table"@) == (if r.action
            == NetworkPolicyAction::Lookup {
            Some(decimal(r.table as nat))
        } else {
            None
        }),
{
    lemma_keys();
    let c = rule_choices(r);
    assert(are_distinct(c));
    let rest = action_tokens(r);
    let key = c[k].0;
    assert(key != "table"@);
    if r.action == NetworkPolicyAction::Lookup {
        assert(rest[0] == "table"@ && rest[1] == decimal(r.table as nat));
        assert(rest.skip(2).len() == 0);
        assert(given(rest.skip(2), key) is None);
    }
    lemma_chosen(c, rest, 0, k);
    lemma_not_chosen(c, rest, 0, "table"@);
}

/// A command on a policy rule says what the rule matches and what it does: the family, the priority, both
/// networks, both interfaces, the mark with its mask, and the table or the refusal that were asked for.
pub proof fn law_rule_command_is_read_back(op: Seq<char>, r: NetworkPolicyRuleView)
    requires
        is_word(op),
        is_plain_name(r.input_interface),
        is_plain_name(r.output_interface),
    ensures
        rule_line(op, r).len() > 0,
        rule_line(op, r).last() == '\n',
        reads_rule(tokens(rule_line(op, r).drop_last()), op, r),
{
    lemma_rule_tokens(op, r);
    let t = tokens(rule_line(op, r).drop_last());
    let flag = family_flag(r.family == NetworkFamily::Ipv4);
    assert(t[0] == flag && t[1] == "rule"@ && t[2] == op);
    let o = t.skip(3);
    assert(o =~= choice_tokens(rule_choices(r), 0) + action_tokens(r));
    assert(t.last() == action_tokens(r).last());
    lemma_rule_given(r, 0);
    lemma_rule_given(r, 1);
    lemma_rule_given(r, 2);
    lemma_rule_given(r, 3);
    lemma_rule_given(r, 4);
    lemma_rule_given(r, 5);
    law_sized_numbers_round_trip(0, 0, r.priority);
    law_sized_numbers_round_trip(0, 0, r.table);
    if let Some(n) = r.source {
        law_network_round_trips(n);
    }
    if let Some(n) = r.destination {
        law_network_round_trips(n);
    }
    if let Some(m) = r.fwmark {
        lemma_mark(m, r.fwmark_mask);
    }
}

/// Whether the tokens of a command are an operation on an address of a device.
pub open spec fn reads_address(
    t: Seq<Seq<char>>,
    op: Seq<char>,
    n: IpNetwork,
    device: Seq<char>,
) -> bool {
    &&& t.len() == 5
    &&& t[0] == "address"@
    &&& t[1] == op
    &&& network_value(t[2]) == Some(n)
    &&& t[3] == "dev"@
    &&& t[4] == device
}

/// A command on an address is one line that names the operation, the address with its prefix length, and the
/// device.
pub proof fn law_address_command_is_read_back(op: Seq<char>, n: IpNetwork, device: Seq<char>)
    requires
        is_word(op),
        is_word(device),
    ensures
        is_one_line(address_line(op, n, device)),
        reads_address(tokens(address_line(op, n, device).drop_last()), op, n, device),
{
    lemma_words();
    lemma_space();
    lemma_network_word(n);
    law_network_round_trips(n);
    reveal_strlit("address ");
    reveal_strlit("address");
    reveal_strlit(" dev ");
    reveal_strlit("dev");
    reveal_strlit("\n");
    let x = network_format(n);
    let a = "address"@ + seq![' '] + op;
    let b = a + seq![' '] + x;
    let c = b + seq![' '] + "dev"@;
    let body = c + seq![' '] + device;
    let line = address_line(op, n, device);
    assert(line =~= body + "\n"@);
    assert(line.drop_last() =~= body);
    lemma_tokens_join(c, device);
    lemma_tokens_join(b, "dev"@);
    lemma_tokens_join(a, x);
    lemma_tokens_join("address"@, op);
    lemma_tokens_word("address"@);
    lemma_tokens_word(op);
    lemma_tokens_word(x);
    lemma_tokens_word("dev"@);
    lemma_tokens_word(device);
    assert(tokens(body) =~= seq!["address"@, op, x, "dev"@, device]);
    assert(is_one_line(line)) by {
        reveal(is_one_line);
        lemma_dark_inline("address"@);
        lemma_dark_inline(op);
        lemma_dark_inline(x);
        lemma_dark_inline("dev"@);
        lemma_dark_inline(device);
        reveal(is_inline);
        assert forall|i: int| 0 <= i < body.len() implies #[trigger] body[i] != '\n' by {
            let na = "address"@.len() as int;
            let no = op.len() as int;
            let nx = x.len() as int;
            if i < na {
                assert(body[i] == "address"@[i]);
            } else if na < i < na + 1 + no {
                assert(body[i] == op[i - na - 1]);
            } else if na + 1 + no < i < na + 2 + no + nx {
                assert(body[i] == x[i - na - no - 2]);
            } else if na + 2 + no + nx < i < na + 6 + no + nx {
                assert(body[i] == "dev"@[i - na - no - nx - 3]);
            } else if na + 6 + no + nx < i {
                assert(body[i] == device[i - na - no - nx - 7]);
            }
        }
    }
}

/// The lines that an operation on each address of a list gives.
pub open spec fn address_commands(op: Seq<char>, addresses: Seq<IpNetwork>, device: Seq<char>) -> Seq<
    Seq<char>,
> {
    Seq::new(addresses.len(), |i: int| address_line(op, addresses[i], device).drop_last())
}

proof fn lemma_address_line_lines(op: Seq<char>, n: IpNetwork, device: Seq<char>)
    requires
        is_word(op),
        is_word(device),
    ensures
        lines(address_line(op, n, device)) == seq![address_line(op, n, device).drop_last()],
        is_whole(address_line(op, n, device)),
{
    law_address_command_is_read_back(op, n, device);
    let line = address_line(op, n, device);
    lemma_lines_one(line);
    let body = line.drop_last();
    reveal_strlit("\n");
    reveal_strlit(" dev ");
    lemma_dark_inline(device);
    assert(body.last() == device.last()) by {
        let h = "address "@ + op + " "@ + network_format(n) + " dev "@;
        assert(body =~= h + device);
    }
    assert(chomp(body) == body);
}

proof fn lemma_missing(
    batch: Seq<char>,
    op: Seq<char>,
    addresses: Seq<IpNetwork>,
    other: Seq<IpNetwork>,
    device: Seq<char>,
    i: int,
)
    requires
        is_word(op),
        is_word(device),
        is_whole(batch),
        0 <= i <= addresses.len(),
    ensures
        is_whole(missing_lines(batch, op, addresses, other, device, i)),
        lines(missing_lines(batch, op, addresses, other, device, i)) == lines(batch)
            + address_commands(
            op,
            lacking(addresses.skip(i), other),
            device,
        ),
    decreases addresses.len() - i,
{
    let rest = lacking(addresses.skip(i), other);
    if i == addresses.len() {
        assert(addresses.skip(i) =~= Seq::empty());
        reveal(Seq::filter);
        assert(address_commands(op, rest, device) =~= Seq::empty());
        assert(lines(batch) + Seq::<Seq<char>>::empty() =~= lines(batch));
    } else {
        let x = addresses[i];
        let tail = lacking(addresses.skip(i + 1), other);
        lemma_lacking(addresses, other, i);
        if other.contains(x) {
            lemma_missing(batch, op, addresses, other, device, i + 1);
        } else {
            let line = address_line(op, x, device);
            lemma_address_line_lines(op, x, device);
            lemma_lines_append(batch, line);
            assert(is_whole(batch + line)) by {
                assert((batch + line).last() == line.last());
            }
            lemma_missing(batch + line, op, addresses, other, device, i + 1);
            lemma_commands_first(op, x, tail, device);
            assert(lines(batch) + seq![line.drop_last()] + address_commands(op, tail, device)
                =~= lines(batch) + (seq![line.drop_last()] + address_commands(op, tail, device)));
        }
    }
}

proof fn lemma_commands_first(op: Seq<char>, x: IpNetwork, tail: Seq<IpNetwork>, device: Seq<char>)
    ensures
        address_commands(op, seq![x] + tail, device) == seq![
            address_line(op, x, device).drop_last(),
        ] + address_commands(op, tail, device),
{
    let a = address_commands(op, seq![x] + tail, device);
    let b = seq![address_line(op, x, device).drop_last()] + address_commands(op, tail, device);
    assert forall|k: int| 0 <= k < a.len() implies a[k] == b[k] by {
        if k > 0 {
            assert((seq![x] + tail)[k] == tail[k - 1]);
        }
    }
    assert(a =~= b);
}

proof fn lemma_lacking(addresses: Seq<IpNetwork>, other: Seq<IpNetwork>, i: int)
    requires
        0 <= i < addresses.len(),
    ensures
        lacking(addresses.skip(i), other) == (if other.contains(addresses[i]) {
            lacking(addresses.skip(i + 1), other)
        } else {
            seq![addresses[i]] + lacking(addresses.skip(i + 1), other)
        }),
{
    let p = |n: IpNetwork| !other.contains(n);
    let x = addresses[i];
    assert(addresses.skip(i) =~= seq![x] + addresses.skip(i + 1));
    Seq::filter_distributes_over_add(seq![x], addresses.skip(i + 1), p);
    reveal_with_fuel(Seq::filter, 2);
    assert(seq![x].drop_last() =~= Seq::empty());
    assert(Seq::<IpNetwork>::empty().filter(p) =~= Seq::empty());
    assert(seq![x].last() == x);
    assert(Seq::<IpNetwork>::empty() + addresses.skip(i + 1).filter(p) =~= addresses.skip(i + 1).filter(p));
    assert(seq![x].filter(p) =~= (if p(x) {
        seq![x]
    } else {
        Seq::empty()
    }));
}

proof fn lemma_all(
    batch: Seq<char>,
    op: Seq<char>,
    addresses: Seq<IpNetwork>,
    device: Seq<char>,
    i: int,
)
    requires
        is_word(op),
        is_word(device),
        is_whole(batch),
        0 <= i <= addresses.len(),
    ensures
        is_whole(address_lines(batch, op, addresses, device, i)),
        lines(address_lines(batch, op, addresses, device, i)) == lines(batch) + address_commands(
            op,
            addresses.skip(i),
            device,
        ),
    decreases addresses.len() - i,
{
    if i < addresses.len() {
        let line = address_line(op, addresses[i], device);
        lemma_address_line_lines(op, addresses[i], device);
        lemma_lines_append(batch, line);
        assert(is_whole(batch + line)) by {
            assert((batch + line).last() == line.last());
        }
        lemma_all(batch + line, op, addresses, device, i + 1);
        assert(address_commands(op, addresses.skip(i), device) =~= seq![line.drop_last()]
            + address_commands(op, addresses.skip(i + 1), device));
        assert(lines(batch) + seq![line.drop_last()] + address_commands(
            op,
            addresses.skip(i + 1),
            device,
        ) =~= lines(batch) + address_commands(op, addresses.skip(i), device));
    } else {
        assert(address_commands(op, addresses.skip(i), device) =~= Seq::empty());
        assert(lines(batch) + Seq::<Seq<char>>::empty() =~= lines(batch));
    }
}

/// Whether lines are operations on addresses of a device, one for each.
pub open spec fn read_addresses(
    l: Seq<Seq<char>>,
    op: Seq<char>,
    addresses: Seq<IpNetwork>,
    device: Seq<char>,
) -> bool {
    l.len() == addresses.len() && forall|i: int|
        0 <= i < l.len() ==> reads_address(tokens(#[trigger] l[i]), op, addresses[i], device)
}

proof fn lemma_read_addresses(op: Seq<char>, addresses: Seq<IpNetwork>, device: Seq<char>)
    requires
        is_word(op),
        is_word(device),
    ensures
        read_addresses(address_commands(op, addresses, device), op, addresses, device),
{
    let l = address_commands(op, addresses, device);
    assert forall|i: int| 0 <= i < l.len() implies reads_address(
        tokens(#[trigger] l[i]),
        op,
        addresses[i],
        device,
    ) by {
        law_address_command_is_read_back(op, addresses[i], device);
    }
}

/// A profile with other addresses.
pub open spec fn with_addresses(
    x: NetworkInterfaceConfigView,
    addresses: Seq<IpNetwork>,
) -> NetworkInterfaceConfigView {
    NetworkInterfaceConfigView { addresses, ..x }
}

/// The addresses of one list that another lacks.
pub open spec fn lacking(a: Seq<IpNetwork>, b: Seq<IpNetwork>) -> Seq<IpNetwork> {
    a.filter(|n: IpNetwork| !b.contains(n))
}

/// Whether the lines behind a batch take addresses from a device and give others to it.
pub open spec fn moves(
    t: Seq<char>,
    batch: Seq<char>,
    gone: Seq<IpNetwork>,
    new: Seq<IpNetwork>,
    device: Seq<char>,
) -> bool {
    exists|l: Seq<Seq<char>>, m: Seq<Seq<char>>|
        lines(t) == lines(batch) + l + m && #[trigger] read_addresses(l, "del"@, gone, device)
            && #[trigger] read_addresses(m, "add"@, new, device)
}

/// A profile that is created gets each of its addresses, and one that is removed loses each of them. One that is
/// changed loses exactly the addresses that it has no more, and gets exactly those that are new. Nothing else of
/// a profile may change.
pub proof fn law_profile_commands_move_its_addresses(
    batch: Seq<char>,
    b: NetworkInterfaceConfigView,
    a: NetworkInterfaceConfigView,
)
    requires
        is_whole(batch),
        is_word(a.device),
        is_word(b.device),
    ensures
        moves(
            object_lines(batch, "add"@, NetworkObjectView::Interface(a)),
            batch,
            Seq::empty(),
            a.addresses,
            a.device,
        ),
        moves(
            object_lines(batch, "del"@, NetworkObjectView::Interface(a)),
            batch,
            a.addresses,
            Seq::empty(),
            a.device,
        ),
        profile_diff(batch, b, a) is Ok <==> with_addresses(b, a.addresses) == a,
        profile_diff(batch, b, a) is Ok ==> moves(
            profile_diff(batch, b, a)->Ok_0,
            batch,
            lacking(b.addresses, a.addresses),
            lacking(a.addresses, b.addresses),
            b.device,
        ),
{
    lemma_words();
    lemma_all(batch, "add"@, a.addresses, a.device, 0);
    lemma_all(batch, "del"@, a.addresses, a.device, 0);
    assert(a.addresses.skip(0) =~= a.addresses);
    assert(b.addresses.skip(0) =~= b.addresses);
    lemma_read_addresses("add"@, a.addresses, a.device);
    lemma_read_addresses("del"@, a.addresses, a.device);
    let none = Seq::<IpNetwork>::empty();
    let nil = Seq::<Seq<char>>::empty();
    assert(read_addresses(nil, "del"@, none, a.device));
    assert(read_addresses(nil, "add"@, none, a.device));
    let up = address_commands("add"@, a.addresses, a.device);
    let down = address_commands("del"@, a.addresses, a.device);
    assert(lines(batch) + nil + up =~= lines(batch) + up);
    assert(lines(batch) + down + nil =~= lines(batch) + down);
    let gone = lacking(b.addresses, a.addresses);
    let new = lacking(a.addresses, b.addresses);
    if profile_diff(batch, b, a) is Ok {
        assert(bare(b) == bare(a));
        assert(b.device == bare(b).device && a.device == bare(a).device);
        let c = with_addresses(b, a.addresses);
        assert(c == NetworkInterfaceConfigView { addresses: a.addresses, ..bare(b) });
        assert(a == NetworkInterfaceConfigView { addresses: a.addresses, ..bare(a) });
        lemma_missing(batch, "del"@, b.addresses, a.addresses, b.device, 0);
        let mid = missing_lines(batch, "del"@, b.addresses, a.addresses, b.device, 0);
        lemma_missing(mid, "add"@, a.addresses, b.addresses, a.device, 0);
        lemma_read_addresses("del"@, gone, b.device);
        lemma_read_addresses("add"@, new, b.device);
        let l = address_commands("del"@, gone, b.device);
        let m = address_commands("add"@, new, b.device);
        assert(read_addresses(l, "del"@, gone, b.device));
        assert(read_addresses(m, "add"@, new, b.device));
    }
    if with_addresses(b, a.addresses) == a {
        assert(bare(b) == bare(a));
    }
}

/// A change of a route or of a policy rule removes what was there before and adds what is to be there, in this
/// order, and each command says which route or rule it is about.
pub proof fn law_changes_remove_and_add(batch: Seq<char>, c: NetworkPlannedChangeView)
    requires
        may_own(c.before, c.before_checks),
        may_own(c.after, c.after_checks),
        !(c.before matches Some(NetworkObjectView::Interface(_))),
        !(c.after matches Some(NetworkObjectView::Interface(_))),
        c.before matches Some(NetworkObjectView::Route(r)) ==> is_plain_name(r.output_interface),
        c.after matches Some(NetworkObjectView::Route(r)) ==> is_plain_name(r.output_interface),
        c.before matches Some(NetworkObjectView::PolicyRule(r)) ==> is_plain_name(r.input_interface)
            && is_plain_name(r.output_interface),
        c.after matches Some(NetworkObjectView::PolicyRule(r)) ==> is_plain_name(r.input_interface)
            && is_plain_name(r.output_interface),
    ensures
        replaced(batch, c.before, c.after, c.before_checks, c.after_checks) is Ok,
        exists|x: Seq<char>, y: Seq<char>|
            replaced(batch, c.before, c.after, c.before_checks, c.after_checks)->Ok_0 == batch + x + y
                && #[trigger] is_command_on(x, "del"@, c.before) && #[trigger] is_command_on(
                y,
                "add"@,
                c.after,
            ),
{
    lemma_words();
    let x = maybe_lines(Seq::empty(), "del"@, c.before);
    let y = maybe_lines(Seq::empty(), "add"@, c.after);
    lemma_command_on("del"@, c.before);
    lemma_command_on("add"@, c.after);
    let t = replaced(batch, c.before, c.after, c.before_checks, c.after_checks)->Ok_0;
    assert(maybe_lines(batch, "del"@, c.before) =~= batch + x);
    assert(t =~= batch + x + y);
    assert(is_command_on(x, "del"@, c.before) && is_command_on(y, "add"@, c.after));
}

/// Whether a text is the command on an object, where there is one.
pub open spec fn is_command_on(x: Seq<char>, op: Seq<char>, o: Option<NetworkObjectView>) -> bool {
    match o {
        None => x.len() == 0,
        Some(NetworkObjectView::Route(r)) => x.len() > 0 && x.last() == '\n' && reads_route(
            tokens(x.drop_last()),
            op,
            r,
        ),
        Some(NetworkObjectView::PolicyRule(r)) => x.len() > 0 && x.last() == '\n' && reads_rule(
            tokens(x.drop_last()),
            op,
            r,
        ),
        Some(_) => false,
    }
}

proof fn lemma_command_on(op: Seq<char>, o: Option<NetworkObjectView>)
    requires
        is_word(op),
        o matches Some(x) ==> x is Route || x is PolicyRule,
        o matches Some(NetworkObjectView::Route(r)) ==> is_plain_name(r.output_interface),
        o matches Some(NetworkObjectView::PolicyRule(r)) ==> is_plain_name(r.input_interface)
            && is_plain_name(r.output_interface),
    ensures
        is_command_on(maybe_lines(Seq::empty(), op, o), op, o),
{
    match o {
        None => {},
        Some(NetworkObjectView::Route(r)) => {
            law_route_command_is_read_back(op, r);
            assert(Seq::<char>::empty() + route_line(op, r) =~= route_line(op, r));
        },
        Some(NetworkObjectView::PolicyRule(r)) => {
            law_rule_command_is_read_back(op, r);
            assert(Seq::<char>::empty() + rule_line(op, r) =~= rule_line(op, r));
        },
        _ => {},
    }
}

} // verus!
