//! Applying a preview: computing the replacement history, the durable audit
//! record, and the events to emit. The caller performs the side effects in
//! this order: history swap, persistence, event emission.
use vstd::prelude::*;
use crate::history::HistoryItem;
use crate::history::ItemView;
use crate::history::build_compacted_history;
use crate::history::built_history;
use crate::history::clone_history;
use crate::history::collect_user_messages;
use crate::history::ghost_snapshots;
use crate::history::ghosts_of;
use crate::history::hview;
use crate::history::lemma_ghosts_append;
use crate::history::lemma_ghosts_idempotent;
use crate::history::lemma_no_ghosts;
use crate::history::user_msg_view;
use crate::history::user_texts;
use crate::carry_over::COMPACT_USER_MESSAGE_MAX_TOKENS;
use crate::carry_over::carry_over_selection;
use crate::preview::CompactionPreview;
use crate::preview::preview_history;
use crate::preview::preview_summary;

verus! {

/// An event to send to the session's listeners.
#[derive(Debug, PartialEq, Eq)]
pub enum SessionEvent {
    /// The marker event that a compaction was applied.
    ContextCompacted,
    /// A warning with its message text.
    Warning { message: String },
}

#[verifier::ext_equal]
pub enum SessionEventView {
    ContextCompacted,
    Warning(Seq<char>),
}

impl View for SessionEvent {
    type V = SessionEventView;

    open spec fn view(&self) -> SessionEventView {
        match self {
            SessionEvent::ContextCompacted => SessionEventView::ContextCompacted,
            SessionEvent::Warning { message } => SessionEventView::Warning(message@),
        }
    }
}

pub open spec fn events_view(events: Seq<SessionEvent>) -> Seq<SessionEventView> {
    events.map_values(|e: SessionEvent| e@)
}

/// The durable audit record of an applied compaction: exactly one of
/// `message` (local path) or `replacement_history` (remote path) carries the
/// payload.
#[derive(Debug, PartialEq, Eq)]
pub struct CompactedRecord {
    pub message: String,
    pub replacement_history: Option<Vec<HistoryItem>>,
}

/// Everything an apply changes, computed up front: the full replacement for
/// the live history, the audit record to persist, and the events to emit, in
/// emission order.
#[derive(Debug, PartialEq, Eq)]
pub struct ApplyPlan {
    pub new_history: Vec<HistoryItem>,
    pub rollout: CompactedRecord,
    pub events: Vec<SessionEvent>,
}

pub open spec fn accuracy_warning_view() -> Seq<char> {
    "Heads up: Long conversations and multiple compactions can cause the model to be less accurate. Start a new conversation when possible to keep conversations small and targeted."@
}

/// Applying a local preview: rebuild the history from the initial context,
/// the carried-over user messages and the summary, re-attach every ghost
/// snapshot of the pre-compaction history, record the summary, and emit the
/// compaction event followed by the fixed accuracy warning.
pub fn apply_local(
    history_snapshot: &[HistoryItem],
    initial_context: Vec<HistoryItem>,
    summary_text: String,
) -> (r: ApplyPlan)
    ensures
        hview(r.new_history@) == built_history(
            hview(initial_context@),
            user_texts(hview(history_snapshot@)),
            summary_text@,
        ) + ghosts_of(hview(history_snapshot@)),
        r.rollout.message@ == summary_text@,
        r.rollout.replacement_history is None,
        events_view(r.events@) == seq![
            SessionEventView::ContextCompacted,
            SessionEventView::Warning(accuracy_warning_view()),
        ],
{
    let user_messages = collect_user_messages(history_snapshot);
    let mut new_history = build_compacted_history(initial_context, &user_messages, &summary_text);
    let mut ghosts = ghost_snapshots(history_snapshot);
    let ghost built = hview(new_history@);
    new_history.append(&mut ghosts);
    proof {
        assert(hview(new_history@) =~= built + ghosts_of(hview(history_snapshot@)));
    }
    let rollout = CompactedRecord { message: summary_text, replacement_history: None };
    let mut events: Vec<SessionEvent> = Vec::new();
    events.push(SessionEvent::ContextCompacted);
    events.push(SessionEvent::Warning {
        message: String::from_str(
            "Heads up: Long conversations and multiple compactions can cause the model to be less accurate. Start a new conversation when possible to keep conversations small and targeted.",
        ),
    });
    proof {
        assert(events_view(events@) =~= seq![
            SessionEventView::ContextCompacted,
            SessionEventView::Warning(accuracy_warning_view()),
        ]);
    }
    ApplyPlan { new_history, rollout, events }
}

/// Applying a remote preview: the (ghost-snapshot-augmented) replacement
/// history replaces the live one and is persisted whole; only the compaction
/// event is emitted, no accuracy warning.
pub fn apply_remote(replacement_history: Vec<HistoryItem>) -> (r: ApplyPlan)
    ensures
        hview(r.new_history@) == hview(replacement_history@),
        r.rollout.message@ == Seq::<char>::empty(),
        r.rollout.replacement_history matches Some(h) && hview(h@) == hview(replacement_history@),
        events_view(r.events@) == seq![SessionEventView::ContextCompacted],
{
    let new_history = clone_history(replacement_history.as_slice());
    let rollout = CompactedRecord {
        message: String::new(),
        replacement_history: Some(replacement_history),
    };
    let mut events: Vec<SessionEvent> = Vec::new();
    events.push(SessionEvent::ContextCompacted);
    proof {
        assert(events_view(events@) =~= seq![SessionEventView::ContextCompacted]);
    }
    ApplyPlan { new_history, rollout, events }
}

/// Dispatches an apply on the preview's variant.
pub fn apply_compaction_preview(
    preview: CompactionPreview,
    history_snapshot: &[HistoryItem],
    initial_context: Vec<HistoryItem>,
) -> (r: ApplyPlan)
    ensures
        preview is Local ==> {
            &&& hview(r.new_history@) == built_history(
                hview(initial_context@),
                user_texts(hview(history_snapshot@)),
                preview_summary(preview),
            ) + ghosts_of(hview(history_snapshot@))
            &&& r.rollout.message@ == preview_summary(preview)
            &&& r.rollout.replacement_history is None
            &&& events_view(r.events@) == seq![
                SessionEventView::ContextCompacted,
                SessionEventView::Warning(accuracy_warning_view()),
            ]
        },
        preview is Remote ==> {
            &&& hview(r.new_history@) == hview(preview_history(preview))
            &&& r.rollout.message@ == Seq::<char>::empty()
            &&& r.rollout.replacement_history matches Some(h) && hview(h@) == hview(
                preview_history(preview),
            )
            &&& events_view(r.events@) == seq![SessionEventView::ContextCompacted]
        },
{
    match preview {
        CompactionPreview::Local { summary_text, carry_over: _ } => apply_local(
            history_snapshot,
            initial_context,
            summary_text,
        ),
        CompactionPreview::Remote { replacement_history, carry_over: _ } => apply_remote(
            replacement_history,
        ),
    }
}

/// Ghost snapshots present in the pre-compaction history are present, in the
/// same order, in the history a local apply builds: its ghost snapshots are
/// exactly those of the initial context followed by those of the old history.
pub proof fn lemma_apply_local_preserves_ghosts(
    ctx: Seq<ItemView>,
    msgs: Seq<Seq<char>>,
    summary: Seq<char>,
    old_history: Seq<ItemView>,
)
    ensures
        ghosts_of(built_history(ctx, msgs, summary) + ghosts_of(old_history)) == ghosts_of(ctx)
            + ghosts_of(old_history),
{
    let sel = carry_over_selection(msgs, COMPACT_USER_MESSAGE_MAX_TOKENS as nat).map_values(
        |t: Seq<char>| user_msg_view(t),
    );
    let tail = seq![user_msg_view(summary)];
    let built = built_history(ctx, msgs, summary);
    lemma_ghosts_append(built, ghosts_of(old_history));
    lemma_ghosts_idempotent(old_history);
    lemma_ghosts_append(ctx + sel, tail);
    lemma_ghosts_append(ctx, sel);
    lemma_no_ghosts(sel);
    lemma_no_ghosts(tail);
    assert(ghosts_of(built) =~= ghosts_of(ctx));
}

/// Ghost snapshots present in the original history are present, in the same
/// order, in the ghost-snapshot-augmented replacement history that a remote
/// apply installs.
pub proof fn lemma_apply_remote_preserves_ghosts(repl: Seq<ItemView>, old_history: Seq<ItemView>)
    ensures
        ghosts_of(repl + ghosts_of(old_history)) == ghosts_of(repl) + ghosts_of(old_history),
{
    lemma_ghosts_append(repl, ghosts_of(old_history));
    lemma_ghosts_idempotent(old_history);
}

} // verus!
