//! How the managed chains are counted, and that a further jump to one of them is never accepted.

use vstd::prelude::*;

use crate::firewall_iptables::{
    declares, family_state, is_absent, is_complete, is_malformed, is_marked, jumps_to, owned_chains, table_at,
    tally, tally_of, value_after, ChainBindingView, IptablesFamilyState, IptablesRenderErrorView,
    MAX_SAVE_BYTES,
};
use crate::isolation_laws::{is_inline, is_one_line, lemma_line_ends, lemma_line_tail, lemma_table_line};
use crate::restore_laws::{is_whole, lemma_lines_append, lemma_lines_one};
use crate::text::{
    byte_len, chomp, ink_end, is_ascii_control, is_white, lines, starts, tokens, tokens_from, white_end,
};

verus! {

pub proof fn lemma_white_end(s: Seq<char>, i: int)
    requires
        0 <= i <= s.len(),
    ensures
        i <= white_end(s, i) <= s.len(),
        white_end(s, i) < s.len() ==> !is_white(s[white_end(s, i)]),
        forall|k: int| i <= k < white_end(s, i) ==> is_white(#[trigger] s[k]),
    decreases s.len() - i,
{
    if i < s.len() && is_white(s[i]) {
        lemma_white_end(s, i + 1);
    }
}

pub proof fn lemma_ink_end(s: Seq<char>, i: int)
    requires
        0 <= i <= s.len(),
    ensures
        i <= ink_end(s, i) <= s.len(),
        ink_end(s, i) < s.len() ==> is_white(s[ink_end(s, i)]),
        forall|k: int| i <= k < ink_end(s, i) ==> !is_white(#[trigger] s[k]),
    decreases s.len() - i,
{
    if i < s.len() && !is_white(s[i]) {
        lemma_ink_end(s, i + 1);
    }
}

proof fn lemma_white_end_at(s: Seq<char>, i: int, e: int)
    requires
        0 <= i <= e <= s.len(),
        forall|k: int| i <= k < e ==> is_white(#[trigger] s[k]),
        e < s.len() ==> !is_white(s[e]),
    ensures
        white_end(s, i) == e,
    decreases e - i,
{
    if i < e {
        lemma_white_end_at(s, i + 1, e);
    }
}

proof fn lemma_ink_end_at(s: Seq<char>, i: int, e: int)
    requires
        0 <= i <= e <= s.len(),
        forall|k: int| i <= k < e ==> !is_white(#[trigger] s[k]),
        e < s.len() ==> is_white(s[e]),
    ensures
        ink_end(s, i) == e,
    decreases e - i,
{
    if i < e {
        lemma_ink_end_at(s, i + 1, e);
    }
}

proof fn lemma_tokens_acc(acc: Seq<Seq<char>>, s: Seq<char>, i: int)
    requires
        0 <= i <= s.len(),
    ensures
        tokens_from(acc, s, i) == acc + tokens_from(Seq::empty(), s, i),
    decreases s.len() - i,
{
    lemma_white_end(s, i);
    let j = white_end(s, i);
    lemma_ink_end(s, j);
    let e = ink_end(s, j);
    let none = Seq::<Seq<char>>::empty();
    if j < e {
        let w = s.subrange(j, e);
        lemma_tokens_acc(acc.push(w), s, e);
        lemma_tokens_acc(none.push(w), s, e);
        let rest = tokens_from(none, s, e);
        assert(acc.push(w) + rest =~= acc + (none.push(w) + rest));
    } else {
        assert(acc + none =~= acc);
    }
}

proof fn lemma_tokens_shift(acc: Seq<Seq<char>>, x: Seq<char>, b: Seq<char>, i: int)
    requires
        0 <= i <= b.len(),
    ensures
        tokens_from(acc, x + b, x.len() + i) == tokens_from(acc, b, i),
    decreases b.len() - i,
{
    let s = x + b;
    let n = x.len() as int;
    lemma_white_end(b, i);
    let j = white_end(b, i);
    lemma_ink_end(b, j);
    let e = ink_end(b, j);
    assert forall|k: int| n + i <= k < n + j implies is_white(#[trigger] s[k]) by {
        assert(s[k] == b[k - n]);
    }
    assert(j < b.len() ==> s[n + j] == b[j]);
    lemma_white_end_at(s, n + i, n + j);
    assert forall|k: int| n + j <= k < n + e implies !is_white(#[trigger] s[k]) by {
        assert(s[k] == b[k - n]);
    }
    assert(e < b.len() ==> s[n + e] == b[e]);
    lemma_ink_end_at(s, n + j, n + e);
    if j < e {
        assert(s.subrange(n + j, n + e) =~= b.subrange(j, e));
        lemma_tokens_shift(acc.push(b.subrange(j, e)), x, b, e);
    }
}

proof fn lemma_tokens_before(acc: Seq<Seq<char>>, a: Seq<char>, b: Seq<char>, i: int)
    requires
        0 <= i <= a.len(),
    ensures
        tokens_from(acc, a + seq![' '] + b, i) == tokens_from(acc, a, i) + tokens(b),
    decreases a.len() - i,
{
    let x = a + seq![' '];
    let s = x + b;
    assert(a + seq![' '] + b == s);
    let n = a.len() as int;
    lemma_white_end(a, i);
    let j = white_end(a, i);
    lemma_ink_end(a, j);
    let e = ink_end(a, j);
    assert(s[n] == ' ');
    assert(is_white(s[n]));
    if j < n {
        assert forall|k: int| i <= k < j implies is_white(#[trigger] s[k]) by {
            assert(s[k] == a[k]);
        }
        assert(s[j] == a[j]);
        lemma_white_end_at(s, i, j);
        assert forall|k: int| j <= k < e implies !is_white(#[trigger] s[k]) by {
            assert(s[k] == a[k]);
        }
        assert(e < n ==> s[e] == a[e]);
        lemma_ink_end_at(s, j, e);
        assert(j < e) by {
            if e == j {
                assert(is_white(a[e]));
            }
        }
        assert(s.subrange(j, e) =~= a.subrange(j, e));
        lemma_tokens_before(acc.push(a.subrange(j, e)), a, b, e);
    } else {
        assert(tokens_from(acc, a, i) == acc);
        lemma_white_end(b, 0);
        let w = white_end(b, 0);
        assert forall|k: int| i <= k < n + 1 + w implies is_white(#[trigger] s[k]) by {
            if k < n {
                assert(s[k] == a[k]);
            } else if k > n {
                assert(s[k] == b[k - n - 1]);
            }
        }
        assert(w < b.len() ==> s[n + 1 + w] == b[w]);
        lemma_white_end_at(s, i, n + 1 + w);
        assert forall|k: int| n + 1 <= k < n + 1 + w implies is_white(#[trigger] s[k]) by {
            assert(s[k] == b[k - n - 1]);
        }
        lemma_white_end_at(s, n + 1, n + 1 + w);
        lemma_ink_end(s, n + 1 + w);
        assert(tokens_from(acc, s, i) == tokens_from(acc, s, n + 1));
        lemma_tokens_shift(acc, x, b, 0);
        lemma_tokens_acc(acc, b, 0);
    }
}

/// The tokens of two texts with a space between them are those of both.
pub proof fn lemma_tokens_join(a: Seq<char>, b: Seq<char>)
    ensures
        tokens(a + seq![' '] + b) == tokens(a) + tokens(b),
{
    lemma_tokens_before(Seq::empty(), a, b, 0);
}

/// Whether no character of a text is white space.
#[verifier::opaque]
pub open spec fn is_dark(s: Seq<char>) -> bool {
    forall|i: int| 0 <= i < s.len() ==> !is_white(#[trigger] s[i])
}

pub broadcast proof fn lemma_dark_add(a: Seq<char>, b: Seq<char>)
    requires
        is_dark(a),
        is_dark(b),
    ensures
        #[trigger] is_dark(a + b),
{
    reveal(is_dark);
    assert forall|i: int| 0 <= i < (a + b).len() implies !is_white(#[trigger] (a + b)[i]) by {
        if i < a.len() {
            assert((a + b)[i] == a[i]);
        } else {
            assert((a + b)[i] == b[i - a.len()]);
        }
    }
}

pub proof fn lemma_dark_inline(s: Seq<char>)
    requires
        is_dark(s),
    ensures
        is_inline(s),
        s.len() > 0 ==> s.last() != '\r',
{
    reveal(is_dark);
    reveal(is_inline);
}

/// A word is its only token.
pub proof fn lemma_tokens_word(w: Seq<char>)
    requires
        is_dark(w),
    ensures
        tokens(w) == (if w.len() > 0 {
            seq![w]
        } else {
            Seq::empty()
        }),
{
    reveal(is_dark);
    let n = w.len() as int;
    if n > 0 {
        lemma_white_end_at(w, 0, 0);
        lemma_ink_end_at(w, 0, n);
        assert(w.subrange(0, n) =~= w);
        let one = Seq::<Seq<char>>::empty().push(w);
        lemma_white_end_at(w, n, n);
        lemma_ink_end_at(w, n, n);
        assert(tokens_from(one, w, n) == one);
        assert(one =~= seq![w]);
    } else {
        lemma_white_end_at(w, 0, 0);
        lemma_ink_end_at(w, 0, 0);
    }
}

/// The first occurrence of an option, where its value is asked for.
pub proof fn lemma_value_after(t: Seq<Seq<char>>, option: Seq<char>, i: int) -> (f: int)
    requires
        0 <= i,
        value_after(t, option, i) is Some,
    ensures
        i <= f && f + 1 < t.len() && t[f] == option,
        value_after(t, option, i) == Some(t[f + 1]),
        forall|j: int| i <= j < f ==> #[trigger] t[j] != option,
    decreases t.len() - i,
{
    if t[i] == option {
        i
    } else {
        lemma_value_after(t, option, i + 1)
    }
}

/// The table that is open, and what was counted of a chain.
pub open spec fn step_line(
    line: Seq<char>,
    c: ChainBindingView,
    st: (Seq<char>, (nat, nat, nat)),
) -> (Seq<char>, (nat, nat, nat)) {
    if starts(line, "*"@) {
        (line.skip(1), st.1)
    } else if line == "COMMIT"@ {
        (Seq::empty(), st.1)
    } else if st.0 != c.table {
        st
    } else {
        (st.0, plus(st.1, share(line, c)))
    }
}

/// What a line in the table of a chain adds to what is counted of it.
pub open spec fn share(line: Seq<char>, c: ChainBindingView) -> (nat, nat, nat) {
    (
        if declares(line, c) {
            1
        } else {
            0
        },
        if jumps_to(line, c) {
            1
        } else {
            0
        },
        if jumps_to(line, c) && is_marked(line, c) {
            1
        } else {
            0
        },
    )
}

pub open spec fn plus(a: (nat, nat, nat), b: (nat, nat, nat)) -> (nat, nat, nat) {
    (a.0 + b.0, a.1 + b.1, a.2 + b.2)
}

/// What the lines from `i` on come to.
pub open spec fn run(
    l: Seq<Seq<char>>,
    c: ChainBindingView,
    st: (Seq<char>, (nat, nat, nat)),
    i: int,
) -> (Seq<char>, (nat, nat, nat))
    decreases l.len() - i,
{
    if i < 0 || i >= l.len() {
        st
    } else {
        run(l, c, step_line(l[i], c, st), i + 1)
    }
}

pub proof fn lemma_run_tally(l: Seq<Seq<char>>, c: ChainBindingView, acc: (nat, nat, nat), i: int)
    requires
        0 <= i <= l.len(),
    ensures
        run(l, c, (table_at(l, i), acc), i).1 == tally(l, c, acc, i),
    decreases l.len() - i,
{
    if i < l.len() {
        let st = (table_at(l, i), acc);
        let next = step_line(l[i], c, st);
        assert(next.0 == table_at(l, i + 1));
        lemma_run_tally(l, c, next.1, i + 1);
    }
}

pub proof fn lemma_run_shift(
    p: Seq<Seq<char>>,
    l: Seq<Seq<char>>,
    c: ChainBindingView,
    st: (Seq<char>, (nat, nat, nat)),
    i: int,
)
    requires
        0 <= i <= l.len(),
    ensures
        run(p + l, c, st, p.len() + i) == run(l, c, st, i),
    decreases l.len() - i,
{
    if i < l.len() {
        assert((p + l)[p.len() + i] == l[i]);
        lemma_run_shift(p, l, c, step_line(l[i], c, st), i + 1);
    }
}

pub proof fn lemma_run_add(
    p: Seq<Seq<char>>,
    l: Seq<Seq<char>>,
    c: ChainBindingView,
    st: (Seq<char>, (nat, nat, nat)),
    i: int,
)
    requires
        0 <= i <= p.len(),
    ensures
        run(p + l, c, st, i) == run(l, c, run(p, c, st, i), 0),
    decreases p.len() - i,
{
    if i < p.len() {
        assert((p + l)[i] == p[i]);
        lemma_run_add(p, l, c, step_line(p[i], c, st), i + 1);
    } else {
        lemma_run_shift(p, l, c, st, 0);
    }
}

pub proof fn lemma_run_one(line: Seq<char>, c: ChainBindingView, st: (Seq<char>, (nat, nat, nat)))
    ensures
        run(seq![line], c, st, 0) == step_line(line, c, st),
{
    assert(run(seq![line], c, step_line(line, c, st), 1) == step_line(line, c, st));
}

proof fn lemma_run_more(
    l: Seq<Seq<char>>,
    c: ChainBindingView,
    t: Seq<char>,
    acc: (nat, nat, nat),
    more: (nat, nat, nat),
    i: int,
)
    requires
        0 <= i,
    ensures
        run(l, c, (t, plus(acc, more)), i) == (
            run(l, c, (t, acc), i).0,
            plus(run(l, c, (t, acc), i).1, more),
        ),
    decreases l.len() - i,
{
    if i < l.len() {
        let a = step_line(l[i], c, (t, acc));
        let b = step_line(l[i], c, (t, plus(acc, more)));
        assert(b.0 == a.0);
        assert(b.1 == plus(a.1, more));
        lemma_run_more(l, c, a.0, a.1, more, i + 1);
    }
}

proof fn lemma_table_at(l: Seq<Seq<char>>, c: ChainBindingView, acc: (nat, nat, nat), i: int, n: int)
    requires
        0 <= i <= n <= l.len(),
    ensures
        run(l.take(n), c, (table_at(l, i), acc), i).0 == table_at(l, n),
    decreases n - i,
{
    if i < n {
        assert(l.take(n)[i] == l[i]);
        let next = step_line(l[i], c, (table_at(l, i), acc));
        assert(next.0 == table_at(l, i + 1));
        lemma_table_at(l, c, next.1, i + 1, n);
    }
}

/// What a save counts of a chain.
pub proof fn lemma_tally_of(save: Seq<char>, c: ChainBindingView)
    ensures
        tally_of(save, c) == run(lines(save), c, (Seq::empty(), (0, 0, 0)), 0).1,
{
    lemma_run_tally(lines(save), c, (0, 0, 0), 0);
}

/// Whether a text can be a line of a save: without control characters but tabs.
pub open spec fn is_save_line(s: Seq<char>) -> bool {
    forall|i: int| 0 <= i < s.len() ==> !is_ascii_control(#[trigger] s[i]) || s[i] == '\t'
}

proof fn lemma_save_line(s: Seq<char>)
    requires
        is_save_line(s),
    ensures
        is_one_line(s + "\n"@),
        lines(s + "\n"@) == seq![s],
        is_whole(s + "\n"@),
{
    reveal_strlit("\n");
    assert(is_inline(s)) by {
        reveal(is_inline);
    }
    assert(is_one_line("\n"@)) by {
        reveal(is_one_line);
        reveal(is_inline);
    }
    lemma_line_tail(s, "\n"@);
    lemma_lines_one(s + "\n"@);
    assert((s + "\n"@).drop_last() =~= s);
    assert(chomp(s) == s) by {
        if s.len() > 0 {
            assert(!is_ascii_control(s[s.len() - 1]) || s[s.len() - 1] == '\t');
        }
    }
}

proof fn lemma_clean(a: Seq<char>, x: Seq<char>, b: Seq<char>)
    requires
        !is_malformed(a + b),
        forall|i: int|
            0 <= i < x.len() ==> !is_ascii_control(#[trigger] x[i]) || x[i] == '\n' || x[i] == '\t',
        byte_len(a + x + b) <= MAX_SAVE_BYTES,
    ensures
        !is_malformed(a + x + b),
{
    let s = a + b;
    let t = a + x + b;
    assert forall|i: int| 0 <= i < t.len() implies !(is_ascii_control(#[trigger] t[i]) && t[i] != '\n'
        && t[i] != '\t') by {
        if i < a.len() {
            assert(t[i] == a[i] && s[i] == a[i]);
            assert(!(is_ascii_control(s[i]) && s[i] != '\n' && s[i] != '\t'));
        } else if i < a.len() + x.len() {
            assert(t[i] == x[i - a.len()]);
        } else {
            let j = i - x.len();
            assert(t[i] == b[j - a.len()] && s[j] == b[j - a.len()]);
            assert(!(is_ascii_control(s[j]) && s[j] != '\n' && s[j] != '\t'));
        }
    }
}

/// A jump is no line that opens or commits a table, as long as it does not begin like one.
proof fn lemma_not_commit(jump: Seq<char>, c: ChainBindingView)
    requires
        jumps_to(jump, c),
    ensures
        jump != "COMMIT"@,
{
    if jump == "COMMIT"@ {
        reveal_strlit("COMMIT");
        reveal_strlit("-j");
        assert(is_dark(jump)) by {
            reveal(is_dark);
            assert forall|i: int| 0 <= i < jump.len() implies !is_white(#[trigger] jump[i]) by {
                assert(i == 0 || i == 1 || i == 2 || i == 3 || i == 4 || i == 5);
            }
        }
        lemma_tokens_word(jump);
        let f = lemma_value_after(tokens(jump), "-j"@, 0);
    }
}

/// One more jump to a managed chain is never accepted, be it marked or not: a save whose chains are the
/// agent's is foreign once such a line stands anywhere in the table of the chain.
pub proof fn law_further_jump_is_foreign(a: Seq<char>, b: Seq<char>, jump: Seq<char>, k: int)
    requires
        family_state(a + b) == Ok::<IptablesFamilyState, IptablesRenderErrorView>(
            IptablesFamilyState::AgentOwned,
        ),
        is_whole(a),
        0 <= k < 6,
        table_at(lines(a + b), lines(a).len() as int) == owned_chains()[k].table,
        is_save_line(jump),
        !starts(jump, "*"@),
        jumps_to(jump, owned_chains()[k]),
        byte_len(a + (jump + "\n"@) + b) <= MAX_SAVE_BYTES,
    ensures
        family_state(a + (jump + "\n"@) + b) == Err::<IptablesFamilyState, IptablesRenderErrorView>(
            IptablesRenderErrorView::ForeignChains,
        ),
{
    reveal_strlit("\n");
    let c = owned_chains()[k];
    let x = jump + "\n"@;
    let save = a + x + b;
    let zero = (Seq::<char>::empty(), (0nat, 0nat, 0nat));
    lemma_save_line(jump);
    lemma_lines_append(a, b);
    lemma_lines_append(a, x);
    assert(is_whole(a + x));
    lemma_lines_append(a + x, b);
    let la = lines(a);
    let lb = lines(b);
    lemma_tally_of(a + b, c);
    lemma_tally_of(save, c);
    lemma_run_add(la, lb, c, zero, 0);
    lemma_run_add(la, seq![jump], c, zero, 0);
    lemma_run_add(la + seq![jump], lb, c, zero, 0);
    lemma_run_one(jump, c, run(la, c, zero, 0));
    lemma_table_at(la + lb, c, (0, 0, 0), 0, la.len() as int);
    assert((la + lb).take(la.len() as int) =~= la);
    let st = run(la, c, zero, 0);
    assert(st.0 == c.table);
    lemma_not_commit(jump, c);
    lemma_run_more(lb, c, st.0, st.1, share(jump, c), 0);
    assert(tally_of(save, c) == plus(tally_of(a + b, c), share(jump, c)));
    assert(tally_of(a + b, c) == (1nat, 1nat, 1nat));
    assert(tally_of(save, c).1 == 2);
    assert forall|i: int| 0 <= i < x.len() implies !is_ascii_control(#[trigger] x[i]) || x[i] == '\n'
        || x[i] == '\t' by {
        if i < jump.len() {
            assert(x[i] == jump[i]);
        }
    }
    lemma_clean(a, x, b);
    assert(!is_absent(save));
    assert(!is_complete(save));
}

/// One more jump to a managed chain is never accepted, be it marked or not: a save whose chains are the
/// agent's is foreign once the table of the chain is opened again behind it with such a line.
pub proof fn law_appended_jump_is_foreign(s: Seq<char>, jump: Seq<char>, k: int)
    requires
        family_state(s) == Ok::<IptablesFamilyState, IptablesRenderErrorView>(
            IptablesFamilyState::AgentOwned,
        ),
        is_whole(s),
        0 <= k < 6,
        is_save_line(jump),
        !starts(jump, "*"@),
        jumps_to(jump, owned_chains()[k]),
        byte_len(
            s + (("*"@ + owned_chains()[k].table + "\n"@) + (jump + "\n"@) + "COMMIT\n"@),
        ) <= MAX_SAVE_BYTES,
    ensures
        family_state(
            s + (("*"@ + owned_chains()[k].table + "\n"@) + (jump + "\n"@) + "COMMIT\n"@),
        ) == Err::<IptablesFamilyState, IptablesRenderErrorView>(
            IptablesRenderErrorView::ForeignChains,
        ),
{
    reveal_strlit("\n");
    reveal_strlit("*");
    reveal_strlit("COMMIT\n");
    reveal_strlit("COMMIT");
    reveal_strlit("filter");
    reveal_strlit("mangle");
    reveal_strlit("nat");
    let c = owned_chains()[k];
    assert(c.table == "filter"@ || c.table == "mangle"@ || c.table == "nat"@);
    let x = "*"@ + c.table + "\n"@;
    let y = jump + "\n"@;
    let z = "COMMIT\n"@;
    let all = x + y + z;
    let save = s + all;
    let zero = (Seq::<char>::empty(), (0nat, 0nat, 0nat));
    lemma_table_line(c.table);
    lemma_lines_one(x);
    let open = "*"@ + c.table;
    assert(x.drop_last() =~= open);
    assert(open.last() == c.table.last());
    assert(chomp(open) == open);
    lemma_save_line(jump);
    lemma_line_ends();
    lemma_lines_one(z);
    assert(z.drop_last() =~= "COMMIT"@);
    assert(chomp("COMMIT"@) == "COMMIT"@);
    lemma_lines_append(x, y);
    assert(is_whole(x + y));
    lemma_lines_append(x + y, z);
    lemma_lines_append(s, all);
    let l = lines(s);
    lemma_tally_of(s, c);
    lemma_tally_of(save, c);
    let st = run(l, c, zero, 0);
    lemma_run_add(l, lines(all), c, zero, 0);
    lemma_run_add(seq![open] + seq![jump], seq!["COMMIT"@], c, st, 0);
    lemma_run_add(seq![open], seq![jump], c, st, 0);
    lemma_run_one(open, c, st);
    assert(starts(open, "*"@)) by {
        assert(open.take(1) =~= "*"@);
    }
    assert(open.skip(1) =~= c.table);
    lemma_run_one(jump, c, (c.table, st.1));
    lemma_not_commit(jump, c);
    let two = (c.table, plus(st.1, share(jump, c)));
    lemma_run_one("COMMIT"@, c, two);
    assert(!starts("COMMIT"@, "*"@)) by {
        assert("COMMIT"@[0] == 'C');
        assert("COMMIT"@.take(1)[0] == 'C');
    }
    assert(tally_of(save, c) == plus(tally_of(s, c), share(jump, c)));
    assert(tally_of(s, c) == (1nat, 1nat, 1nat));
    assert(tally_of(save, c).1 == 2);
    assert forall|i: int| 0 <= i < all.len() implies !is_ascii_control(#[trigger] all[i]) || all[i]
        == '\n' || all[i] == '\t' by {
        let n = x.len();
        let m = y.len();
        if i < n {
            assert(all[i] == x[i]);
            if 0 < i < n - 1 {
                assert(x[i] == c.table[i - 1]);
                assert(i - 1 == 0 || i - 1 == 1 || i - 1 == 2 || i - 1 == 3 || i - 1 == 4 || i - 1
                    == 5);
            }
        } else if i < n + m {
            assert(all[i] == y[i - n]);
            if i - n < jump.len() {
                assert(y[i - n] == jump[i - n]);
            }
        } else {
            let j = i - n - m;
            assert(all[i] == z[j]);
            assert(j == 0 || j == 1 || j == 2 || j == 3 || j == 4 || j == 5 || j == 6);
        }
    }
    let none = Seq::<char>::empty();
    assert(s + none =~= s);
    assert(s + all + none =~= save);
    lemma_clean(s, all, none);
    assert(!is_absent(save));
    assert(!is_complete(save));
}

} // verus!
