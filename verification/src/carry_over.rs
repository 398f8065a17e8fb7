//! Carry-over accounting: how many of the most recent user messages survive
//! compaction under an approximate token budget.
use vstd::prelude::*;

verus! {

/// Token budget under which recent user messages are carried over verbatim.
pub const COMPACT_USER_MESSAGE_MAX_TOKENS: usize = 20000;

/// Approximate token count of a message: one token per four characters,
/// rounded up.
pub open spec fn approx_tokens(s: Seq<char>) -> nat {
    ((s.len() + 3) / 4) as nat
}

/// The character views of a sequence of strings.
pub open spec fn seq_views(s: Seq<String>) -> Seq<Seq<char>> {
    s.map_values(|m: String| m@)
}

pub fn approx_token_count(s: &str) -> (r: usize)
    ensures
        r == approx_tokens(s@),
{
    let l = s.unicode_len();
    l / 4 + if l % 4 != 0 { 1 } else { 0 }
}

/// Greedy newest-first scan: walking `msgs` from the most recent end with
/// `remaining` budget, how many messages are selected and whether the scan
/// stopped on a message that did not fit whole.
pub open spec fn carry_over_scan(msgs: Seq<Seq<char>>, remaining: nat) -> (nat, bool)
    decreases msgs.len(),
{
    if msgs.len() == 0 || remaining == 0 {
        (0nat, false)
    } else {
        let t = approx_tokens(msgs.last());
        if t <= remaining {
            let rest = carry_over_scan(msgs.drop_last(), (remaining - t) as nat);
            ((rest.0 + 1) as nat, rest.1)
        } else {
            (1nat, true)
        }
    }
}

#[derive(Clone, Copy, Debug, PartialEq, Eq, Structural)]
pub struct CompactionCarryOverStats {
    pub selected_count: usize,
    pub total_count: usize,
    pub was_truncated: bool,
}

/// `round(100 * selected / max(total, 1))`, clamped to at most 100.
pub open spec fn percent_spec(selected: nat, total: nat) -> nat {
    let d = if total == 0 { 1nat } else { total };
    let rounded = (200 * selected + d) / (2 * d);
    if rounded > 100 {
        100nat
    } else {
        rounded
    }
}

impl CompactionCarryOverStats {
    pub fn percent(&self) -> (r: u64)
        ensures
            r == percent_spec(self.selected_count as nat, self.total_count as nat),
            r <= 100,
    {
        let s = self.selected_count as u128;
        let d: u128 = if self.total_count == 0 { 1 } else { self.total_count as u128 };
        let rounded = (200 * s + d) / (2 * d);
        let capped: u128 = if rounded > 100 { 100 } else { rounded };
        capped as u64
    }
}

/// The selected messages always number at most the messages scanned, and with
/// a positive budget at least the most recent message is selected.
pub proof fn lemma_carry_over_bounds(msgs: Seq<Seq<char>>, remaining: nat)
    ensures
        carry_over_scan(msgs, remaining).0 <= msgs.len(),
        remaining > 0 && msgs.len() > 0 ==> carry_over_scan(msgs, remaining).0 > 0,
    decreases msgs.len(),
{
    if msgs.len() > 0 && remaining > 0 {
        let t = approx_tokens(msgs.last());
        if t <= remaining {
            lemma_carry_over_bounds(msgs.drop_last(), (remaining - t) as nat);
        }
    }
}

/// A zero budget selects nothing and never reports truncation.
pub proof fn lemma_carry_over_zero_budget(msgs: Seq<Seq<char>>)
    ensures
        carry_over_scan(msgs, 0) == (0nat, false),
{
}

/// The derived percentage is always within 0 to 100, and empty stats give 0.
pub proof fn lemma_percent_bounds(selected: nat, total: nat)
    ensures
        percent_spec(selected, total) <= 100,
        percent_spec(0, 0) == 0,
{
    assert(1nat / 2nat == 0nat) by (nonlinear_arith);
}

pub fn compute_carry_over(user_messages: &Vec<String>, max_tokens: usize) -> (r:
    CompactionCarryOverStats)
    ensures
        r.total_count == user_messages@.len(),
        r.selected_count == carry_over_scan(seq_views(user_messages@), max_tokens as nat).0,
        r.was_truncated == carry_over_scan(seq_views(user_messages@), max_tokens as nat).1,
        r.selected_count <= r.total_count,
{
    let ghost msgs = seq_views(user_messages@);
    let ghost full = carry_over_scan(msgs, max_tokens as nat);
    proof {
        lemma_carry_over_bounds(msgs, max_tokens as nat);
    }
    let n = user_messages.len();
    if max_tokens == 0 {
        return CompactionCarryOverStats {
            selected_count: 0,
            total_count: n,
            was_truncated: false,
        };
    }
    let mut remaining: usize = max_tokens;
    let mut selected: usize = 0;
    let mut truncated = false;
    let mut done = false;
    let mut i: usize = n;
    proof {
        assert(msgs.take(n as int) =~= msgs);
    }
    while i > 0 && !done
        invariant
            i <= n,
            n == msgs.len(),
            msgs == seq_views(user_messages@),
            !done ==> selected + i <= n,
            selected <= n,
            full == carry_over_scan(msgs, max_tokens as nat),
            !done ==> truncated == false,
            !done ==> full == (
                (selected + carry_over_scan(msgs.take(i as int), remaining as nat).0) as nat,
                carry_over_scan(msgs.take(i as int), remaining as nat).1,
            ),
            done ==> full == (selected as nat, truncated),
        decreases i, (if done { 0int } else { 1int }),
    {
        let ghost pre = msgs.take(i as int);
        proof {
            assert(pre.last() == msgs[i - 1]);
            assert(pre.drop_last() =~= msgs.take(i - 1));
            lemma_carry_over_bounds(pre.drop_last(), 0nat);
        }
        if remaining == 0 {
            done = true;
        } else {
            let t = approx_token_count(user_messages[i - 1].as_str());
            if t <= remaining {
                selected = selected + 1;
                remaining = remaining - t;
                i = i - 1;
            } else {
                selected = selected + 1;
                truncated = true;
                done = true;
            }
        }
    }
    CompactionCarryOverStats { selected_count: selected, total_count: n, was_truncated: truncated }
}

/// The chronological suffix of messages that the greedy scan keeps.
pub open spec fn carry_over_selection(msgs: Seq<Seq<char>>, budget: nat) -> Seq<Seq<char>> {
    msgs.subrange(msgs.len() - carry_over_scan(msgs, budget).0, msgs.len() as int)
}

} // verus!
