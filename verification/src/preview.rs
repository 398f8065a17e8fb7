//! Compaction previews: the shared preview model, the remote-path summary
//! extraction and post-processing, and the final assembly of a local preview.
use vstd::prelude::*;
use crate::carry_over::COMPACT_USER_MESSAGE_MAX_TOKENS;
use crate::carry_over::CompactionCarryOverStats;
use crate::carry_over::carry_over_scan;
use crate::carry_over::compute_carry_over;
use crate::history::HistoryItem;
use crate::history::ItemView;
use crate::history::clone_history;
use crate::history::collect_user_messages;
use crate::history::get_last_assistant_message_from_turn;
use crate::history::ghost_snapshots;
use crate::history::ghosts_of;
use crate::history::hview;
use crate::history::last_assistant_text;
use crate::history::message_text;
use crate::history::role_text;
use crate::history::user_texts;
use crate::text::trim_spec;
use crate::text::trimmed;

verus! {

/// A computed-but-not-yet-committed compaction result.
#[derive(Debug, PartialEq, Eq)]
pub enum CompactionPreview {
    Local { summary_text: String, carry_over: CompactionCarryOverStats },
    Remote { replacement_history: Vec<HistoryItem>, carry_over: CompactionCarryOverStats },
}

/// A generator-agnostic normalized preview result.
#[derive(Debug, PartialEq, Eq)]
pub struct CompactionPreviewOutput {
    pub summary_text: String,
    pub carry_over: CompactionCarryOverStats,
    pub is_remote: bool,
}

pub open spec fn preview_summary(p: CompactionPreview) -> Seq<char> {
    match p {
        CompactionPreview::Local { summary_text, .. } => summary_text@,
        CompactionPreview::Remote { .. } => Seq::empty(),
    }
}

pub open spec fn preview_history(p: CompactionPreview) -> Seq<HistoryItem> {
    match p {
        CompactionPreview::Local { .. } => Seq::empty(),
        CompactionPreview::Remote { replacement_history, .. } => replacement_history@,
    }
}

pub open spec fn preview_carry(p: CompactionPreview) -> CompactionCarryOverStats {
    match p {
        CompactionPreview::Local { carry_over, .. } => carry_over,
        CompactionPreview::Remote { carry_over, .. } => carry_over,
    }
}

/// Carry-over stats computed over `msgs` under the fixed token budget.
pub open spec fn carry_stats_ok(stats: CompactionCarryOverStats, msgs: Seq<Seq<char>>) -> bool {
    &&& stats.total_count == msgs.len()
    &&& stats.selected_count == carry_over_scan(msgs, COMPACT_USER_MESSAGE_MAX_TOKENS as nat).0
    &&& stats.was_truncated == carry_over_scan(msgs, COMPACT_USER_MESSAGE_MAX_TOKENS as nat).1
}

pub open spec fn summary_prefix_view() -> Seq<char> {
    "Summary of the conversation so far:"@
}

pub fn summary_prefix() -> (r: &'static str)
    ensures
        r@ == summary_prefix_view(),
{
    "Summary of the conversation so far:"
}

pub open spec fn summary_placeholder_view() -> Seq<char> {
    "(compaction preview summary unavailable; apply still works)"@
}

fn summary_placeholder() -> (r: String)
    ensures
        r@ == summary_placeholder_view(),
{
    String::from_str("(compaction preview summary unavailable; apply still works)")
}

/// The trimmed text of the first user message that precedes the first
/// compaction boundary marker, when there is one.
pub open spec fn remote_summary(h: Seq<ItemView>) -> Option<Seq<char>>
    decreases h.len(),
{
    if h.len() == 0 {
        None
    } else if h.first() is Compaction {
        None
    } else {
        match role_text(h.first(), "user"@) {
            Some(t) => Some(trim_spec(t)),
            None => remote_summary(h.drop_first()),
        }
    }
}

/// The remote summary, or the fixed placeholder when none was found or the
/// found one is empty after trimming.
pub open spec fn resolved_remote_summary(h: Seq<ItemView>) -> Seq<char> {
    match remote_summary(h) {
        Some(s) => if s.len() > 0 {
            s
        } else {
            summary_placeholder_view()
        },
        None => summary_placeholder_view(),
    }
}

pub fn extract_remote_summary_text(replacement_history: &[HistoryItem]) -> (r: String)
    ensures
        r@ == resolved_remote_summary(hview(replacement_history@)),
{
    let ghost full = hview(replacement_history@);
    let user_role = String::from_str("user");
    let n = replacement_history.len();
    let mut i: usize = 0;
    proof {
        assert(hview(replacement_history@.skip(0)) =~= full);
    }
    while i < n
        invariant
            i <= n,
            n == replacement_history@.len(),
            user_role@ == "user"@,
            full == hview(replacement_history@),
            remote_summary(full) == remote_summary(hview(replacement_history@.skip(i as int))),
        decreases n - i,
    {
        let ghost suf = hview(replacement_history@.skip(i as int));
        proof {
            assert(suf.first() == replacement_history@[i as int]@);
            assert(suf.drop_first() =~= hview(replacement_history@.skip(i + 1)));
        }
        let is_compaction = match &replacement_history[i] {
            HistoryItem::Compaction => true,
            _ => false,
        };
        if is_compaction {
            return summary_placeholder();
        }
        if let Some(t) = message_text(&replacement_history[i], &user_role) {
            let tr = trimmed(t.as_str());
            proof {
                assert(remote_summary(full) == Some(trim_spec(t@)));
            }
            if tr.as_str().is_empty() {
                return summary_placeholder();
            }
            return tr;
        }
        i = i + 1;
    }
    proof {
        assert(hview(replacement_history@.skip(n as int)) =~= Seq::<ItemView>::empty());
    }
    summary_placeholder()
}

pub fn preview_from_remote_replacement_history(replacement_history: Vec<HistoryItem>) -> (r:
    CompactionPreviewOutput)
    ensures
        r.summary_text@ == resolved_remote_summary(hview(replacement_history@)),
        carry_stats_ok(r.carry_over, user_texts(hview(replacement_history@))),
        r.is_remote == true,
{
    let summary_text = extract_remote_summary_text(replacement_history.as_slice());
    let user_messages = collect_user_messages(replacement_history.as_slice());
    let carry_over = compute_carry_over(&user_messages, COMPACT_USER_MESSAGE_MAX_TOKENS);
    CompactionPreviewOutput { summary_text, carry_over, is_remote: true }
}

/// Post-processing of a provider-returned replacement history: re-attach the
/// ghost snapshots of the original history so undo survives, then build the
/// remote preview with its carry-over stats.
pub fn run_remote_compact_preview(
    history_snapshot: &[HistoryItem],
    replacement_history: Vec<HistoryItem>,
) -> (r: CompactionPreview)
    ensures
        r is Remote,
        hview(preview_history(r)) == hview(replacement_history@) + ghosts_of(
            hview(history_snapshot@),
        ),
        carry_stats_ok(preview_carry(r), user_texts(hview(preview_history(r)))),
{
    let ghost orig = hview(replacement_history@);
    let mut rh = replacement_history;
    let mut ghosts = ghost_snapshots(history_snapshot);
    if ghosts.len() > 0 {
        rh.append(&mut ghosts);
        proof {
            assert(hview(rh@) =~= orig + ghosts_of(hview(history_snapshot@)));
        }
    } else {
        proof {
            assert(hview(rh@) =~= orig + ghosts_of(hview(history_snapshot@)));
        }
    }
    let output = preview_from_remote_replacement_history(clone_history(rh.as_slice()));
    CompactionPreview::Remote { replacement_history: rh, carry_over: output.carry_over }
}

/// The summary text of a local preview: the fixed prefix, a newline, then the
/// last assistant message of the final (cloned, drained) history, or nothing
/// after the newline when there is none.
pub open spec fn local_summary_view(h: Seq<ItemView>) -> Seq<char> {
    summary_prefix_view() + seq!['\n'] + (match last_assistant_text(h) {
        Some(t) => t,
        None => Seq::empty(),
    })
}

/// The final step of local preview generation, over the drained clone of the
/// history: build the summary text and the carry-over stats.
pub fn finish_local_preview(history: &[HistoryItem]) -> (r: CompactionPreviewOutput)
    ensures
        r.summary_text@ == local_summary_view(hview(history@)),
        carry_stats_ok(r.carry_over, user_texts(hview(history@))),
        r.is_remote == false,
{
    let mut summary_text = summary_prefix().to_owned();
    summary_text.append("\n");
    proof {
        reveal_strlit("\n");
        assert("\n"@ =~= seq!['\n']);
    }
    match get_last_assistant_message_from_turn(history) {
        Some(t) => {
            summary_text.append(t.as_str());
        },
        None => {
            proof {
                assert(summary_text@ =~= local_summary_view(hview(history@)));
            }
        },
    }
    let user_messages = collect_user_messages(history);
    let carry_over = compute_carry_over(&user_messages, COMPACT_USER_MESSAGE_MAX_TOKENS);
    CompactionPreviewOutput { summary_text, carry_over, is_remote: false }
}

/// Wraps a normalized local-generation output into the local preview variant.
pub fn run_local_compact_preview(output: CompactionPreviewOutput) -> (r: CompactionPreview)
    ensures
        r is Local,
        preview_summary(r) == output.summary_text@,
        preview_carry(r) == output.carry_over,
{
    CompactionPreview::Local {
        summary_text: output.summary_text,
        carry_over: output.carry_over,
    }
}

} // verus!
