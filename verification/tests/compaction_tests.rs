use compaction::apply::SessionEvent;
use compaction::apply::apply_compaction_preview;
use compaction::apply::apply_local;
use compaction::apply::apply_remote;
use compaction::carry_over::CompactionCarryOverStats;
use compaction::carry_over::compute_carry_over;
use compaction::history::ContentItem;
use compaction::history::HistoryItem;
use compaction::history::collect_user_messages;
use compaction::history::content_items_to_text;
use compaction::history::get_last_assistant_message_from_turn;
use compaction::history::user_message;
use compaction::local_preview::AttemptDecision;
use compaction::local_preview::CompactError;
use compaction::local_preview::record_initial_input;
use compaction::local_preview::StreamEvent;
use compaction::local_preview::drain_preview_to_completed;
use compaction::local_preview::local_preview_step;
use compaction::local_preview::remove_first_item;
use compaction::preview::CompactionPreview;
use compaction::preview::extract_remote_summary_text;
use compaction::preview::finish_local_preview;
use compaction::preview::preview_from_remote_replacement_history;
use compaction::preview::run_local_compact_preview;
use compaction::preview::run_remote_compact_preview;
use compaction::render::render;
use compaction::render::render_compaction_preview;

fn message(role: &str, text: &str) -> HistoryItem {
    HistoryItem::Message {
        role: role.to_string(),
        content: vec![ContentItem::InputText { text: text.to_string() }],
    }
}

fn ghost(id: &str) -> HistoryItem {
    HistoryItem::GhostSnapshot { id: id.to_string() }
}

#[test]
fn carry_over_zero_budget_selects_nothing() {
    let msgs = vec!["x".repeat(10), "y".repeat(10)];
    let stats = compute_carry_over(&msgs, 0);
    assert_eq!(stats.selected_count, 0);
    assert_eq!(stats.total_count, 2);
    assert!(!stats.was_truncated);
}

#[test]
fn carry_over_positive_budget_selects_at_least_the_newest() {
    let msgs = vec!["x".repeat(4000), "y".repeat(4000)];
    let stats = compute_carry_over(&msgs, 1);
    assert!(stats.selected_count > 0);
    assert!(stats.selected_count <= msgs.len());
}

#[test]
fn carry_over_scans_newest_first_and_flags_the_boundary() {
    // Token costs (one per four characters, rounded up): 25, 13, 5.
    let msgs = vec!["a".repeat(100), "b".repeat(50), "c".repeat(20)];

    // All three fit in a budget of 60.
    let stats = compute_carry_over(&msgs, 60);
    assert_eq!(stats.selected_count, 3);
    assert_eq!(stats.total_count, 3);
    assert!(!stats.was_truncated);

    // With 10, "c" (5) fits, "b" (13) does not: it is kept but flagged, and
    // the scan stops there, so "a" is never counted.
    let stats = compute_carry_over(&msgs, 10);
    assert_eq!(stats.selected_count, 2);
    assert_eq!(stats.total_count, 3);
    assert!(stats.was_truncated);
}

#[test]
fn percent_rounds_and_never_divides_by_zero() {
    let zero = CompactionCarryOverStats { selected_count: 0, total_count: 0, was_truncated: false };
    assert_eq!(zero.percent(), 0);

    let third = CompactionCarryOverStats { selected_count: 1, total_count: 3, was_truncated: false };
    assert_eq!(third.percent(), 33);

    let two_thirds =
        CompactionCarryOverStats { selected_count: 2, total_count: 3, was_truncated: false };
    assert_eq!(two_thirds.percent(), 67);

    let over = CompactionCarryOverStats { selected_count: 7, total_count: 2, was_truncated: false };
    assert_eq!(over.percent(), 100);
}

#[test]
fn content_text_joins_pieces_with_newlines() {
    let content = vec![
        ContentItem::InputText { text: "x".to_string() },
        ContentItem::Other,
        ContentItem::OutputText { text: "y".to_string() },
    ];
    assert_eq!(content_items_to_text(&content), Some("x\ny".to_string()));
    assert_eq!(content_items_to_text(&[ContentItem::Other]), None);
}

#[test]
fn collect_user_messages_keeps_only_user_texts_in_order() {
    let history = vec![
        message("user", "one"),
        message("assistant", "reply"),
        ghost("g"),
        message("user", "two"),
    ];
    assert_eq!(
        collect_user_messages(&history),
        vec!["one".to_string(), "two".to_string()]
    );
}

#[test]
fn last_assistant_message_comes_from_the_end() {
    let history = vec![
        message("assistant", "old"),
        message("user", "q"),
        message("assistant", "new"),
        message("user", "later"),
    ];
    assert_eq!(
        get_last_assistant_message_from_turn(&history),
        Some("new".to_string())
    );
    assert_eq!(get_last_assistant_message_from_turn(&[message("user", "q")]), None);
}

#[test]
fn remote_summary_takes_first_user_text_before_the_boundary() {
    let history = vec![
        message("assistant", "noise"),
        message("user", "  Discussed X \n"),
        message("user", "second"),
        HistoryItem::Compaction,
        message("user", "after"),
    ];
    assert_eq!(extract_remote_summary_text(&history), "Discussed X".to_string());
}

#[test]
fn remote_summary_falls_back_to_the_placeholder() {
    let placeholder = "(compaction preview summary unavailable; apply still works)";

    // No user message at all.
    assert_eq!(
        extract_remote_summary_text(&[message("assistant", "a")]),
        placeholder.to_string()
    );
    // The boundary marker stops the scan before the user message.
    let boundary_first = vec![HistoryItem::Compaction, message("user", "late")];
    assert_eq!(extract_remote_summary_text(&boundary_first), placeholder.to_string());
    // A whitespace-only candidate is empty after trimming.
    assert_eq!(
        extract_remote_summary_text(&[message("user", "   ")]),
        placeholder.to_string()
    );
}

#[test]
fn render_shows_label_percent_and_apply_hint() {
    assert_eq!(
        render("S", 50, false, false),
        "(compaction preview)\n\nS\n\nRetained recent user messages: 50%\n\nApply this preview with /compact --apply"
    );
    assert_eq!(
        render("S", 7, true, true),
        "(compaction preview - remote)\n\nS\n\nRetained recent user messages: 7% (last message truncated)\n\nApply this preview with /compact --apply"
    );
}

#[test]
fn render_preview_dispatches_on_the_variant() {
    let local = CompactionPreview::Local {
        summary_text: "sum".to_string(),
        carry_over: CompactionCarryOverStats {
            selected_count: 1,
            total_count: 1,
            was_truncated: false,
        },
    };
    let text = render_compaction_preview(&local);
    assert!(text.starts_with("(compaction preview)\n\nsum\n\n"));
    assert!(text.contains("100%"));
    assert!(text.ends_with("Apply this preview with /compact --apply"));

    let remote = CompactionPreview::Remote {
        replacement_history: vec![message("user", "remote sum")],
        carry_over: CompactionCarryOverStats {
            selected_count: 0,
            total_count: 0,
            was_truncated: false,
        },
    };
    let text = render_compaction_preview(&remote);
    assert!(text.starts_with("(compaction preview - remote)\n\nremote sum\n\n"));
    assert!(text.contains("0%"));
}

#[test]
fn drain_appends_items_until_completed() {
    let mut history = vec![message("user", "q")];
    let events = vec![
        StreamEvent::RateLimits,
        StreamEvent::OutputItemDone { item: message("assistant", "part") },
        StreamEvent::Other,
        StreamEvent::Completed,
        StreamEvent::OutputItemDone { item: message("assistant", "ignored") },
    ];
    let r = drain_preview_to_completed(&mut history, events);
    assert!(r.is_ok());
    assert_eq!(history.len(), 2);
    assert_eq!(history[1], message("assistant", "part"));
}

#[test]
fn drain_without_completed_is_a_stream_error() {
    let mut history = vec![];
    let r = drain_preview_to_completed(&mut history, vec![StreamEvent::RateLimits]);
    assert_eq!(
        r,
        Err(CompactError::Stream {
            message: "stream closed before response.completed".to_string()
        })
    );
}

#[test]
fn drain_propagates_the_streams_own_error() {
    let mut history = vec![];
    let events = vec![
        StreamEvent::OutputItemDone { item: message("assistant", "kept") },
        StreamEvent::Failed { error: CompactError::Interrupted },
        StreamEvent::Completed,
    ];
    let r = drain_preview_to_completed(&mut history, events);
    assert_eq!(r, Err(CompactError::Interrupted));
    assert_eq!(history.len(), 1);
}

#[test]
fn overflow_with_one_item_fails_and_never_retries() {
    let overflow: Result<(), CompactError> = Err(CompactError::ContextWindowExceeded);
    assert_eq!(local_preview_step(&overflow, 1, 0, 5), AttemptDecision::Fail);
    assert_eq!(local_preview_step(&overflow, 1, 3, 5), AttemptDecision::Fail);
}

#[test]
fn overflow_with_more_items_shrinks_and_converges() {
    let mut history = vec![message("user", "a"), message("user", "b"), message("user", "c")];
    let mut shrinks = 0;
    loop {
        let overflow: Result<(), CompactError> = Err(CompactError::ContextWindowExceeded);
        match local_preview_step(&overflow, history.len(), 0, 5) {
            AttemptDecision::Shrink => {
                remove_first_item(&mut history);
                shrinks += 1;
            }
            AttemptDecision::Fail => break,
            _ => unreachable!(),
        }
    }
    assert_eq!(shrinks, 2);
    assert_eq!(history, vec![message("user", "c")]);
}

#[test]
fn transient_errors_back_off_until_retries_run_out() {
    let transient: Result<(), CompactError> =
        Err(CompactError::Transient { message: "again".to_string() });
    assert_eq!(local_preview_step(&transient, 3, 0, 2), AttemptDecision::Backoff);
    assert_eq!(local_preview_step(&transient, 3, 1, 2), AttemptDecision::Backoff);
    assert_eq!(local_preview_step(&transient, 3, 2, 2), AttemptDecision::Fail);
    let interrupted: Result<(), CompactError> = Err(CompactError::Interrupted);
    assert_eq!(local_preview_step(&interrupted, 3, 0, 2), AttemptDecision::Fail);
    let done: Result<(), CompactError> = Ok(());
    assert_eq!(local_preview_step(&done, 3, 0, 2), AttemptDecision::Finish);
}

#[test]
fn finish_builds_prefix_then_last_assistant_message() {
    let history = vec![message("user", "q"), message("assistant", "Discussed X")];
    let out = finish_local_preview(&history);
    assert_eq!(out.summary_text, "Summary of the conversation so far:\nDiscussed X");
    assert!(!out.is_remote);
    assert_eq!(out.carry_over.total_count, 1);
    assert_eq!(out.carry_over.selected_count, 1);

    let out = finish_local_preview(&[message("user", "q")]);
    assert_eq!(out.summary_text, "Summary of the conversation so far:\n");

    let wrapped = run_local_compact_preview(finish_local_preview(&history));
    match wrapped {
        CompactionPreview::Local { summary_text, carry_over } => {
            assert_eq!(summary_text, "Summary of the conversation so far:\nDiscussed X");
            assert_eq!(carry_over.total_count, 1);
        }
        CompactionPreview::Remote { .. } => panic!("local preview expected"),
    }
}

#[test]
fn remote_preview_reattaches_ghost_snapshots() {
    let live = vec![message("user", "q"), ghost("undo-1"), message("assistant", "a")];
    let replacement = vec![message("user", "summary of it all")];
    let preview = run_remote_compact_preview(&live, replacement);
    match preview {
        CompactionPreview::Remote { replacement_history, carry_over } => {
            assert_eq!(
                replacement_history,
                vec![message("user", "summary of it all"), ghost("undo-1")]
            );
            assert_eq!(carry_over.total_count, 1);
            assert_eq!(carry_over.selected_count, 1);
        }
        CompactionPreview::Local { .. } => panic!("remote preview expected"),
    }
}

#[test]
fn remote_output_extracts_summary_and_counts_carry_over() {
    let replacement = vec![message("user", " the summary ")];
    let out = preview_from_remote_replacement_history(replacement);
    assert_eq!(out.summary_text, "the summary");
    assert!(out.is_remote);
    assert_eq!(out.carry_over.total_count, 1);
}

#[test]
fn apply_local_rebuilds_history_and_keeps_ghosts_in_order() {
    let live = vec![
        message("user", "hello"),
        ghost("undo-1"),
        message("assistant", "noise"),
        message("user", "again"),
        ghost("undo-2"),
    ];
    let ctx = vec![message("developer", "ctx")];
    let summary = "Summary of the conversation so far:\nDiscussed X".to_string();
    let plan = apply_local(&live, ctx, summary.clone());

    assert_eq!(
        plan.new_history,
        vec![
            message("developer", "ctx"),
            user_message("hello".to_string()),
            user_message("again".to_string()),
            user_message(summary.clone()),
            ghost("undo-1"),
            ghost("undo-2"),
        ]
    );
    assert_eq!(plan.rollout.message, summary);
    assert!(plan.rollout.replacement_history.is_none());
    assert_eq!(plan.events.len(), 2);
    assert_eq!(plan.events[0], SessionEvent::ContextCompacted);
    match &plan.events[1] {
        SessionEvent::Warning { message } => assert!(message.starts_with("Heads up:")),
        SessionEvent::ContextCompacted => panic!("warning expected after the marker event"),
    }
}

#[test]
fn apply_remote_swaps_persists_and_emits_no_warning() {
    let replacement = vec![message("user", "sum"), ghost("undo-1")];
    let plan = apply_remote(replacement.clone());
    assert_eq!(plan.new_history, replacement);
    assert_eq!(plan.rollout.message, "");
    assert_eq!(plan.rollout.replacement_history, Some(replacement));
    assert_eq!(plan.events, vec![SessionEvent::ContextCompacted]);
}

#[test]
fn apply_dispatches_on_the_preview_variant() {
    let live = vec![message("user", "hi"), ghost("undo-1")];
    let stats = CompactionCarryOverStats { selected_count: 1, total_count: 1, was_truncated: false };
    let local = CompactionPreview::Local {
        summary_text: "S".to_string(),
        carry_over: stats.clone(),
    };
    let plan = apply_compaction_preview(local, &live, vec![]);
    assert!(plan.rollout.replacement_history.is_none());
    assert_eq!(plan.rollout.message, "S");
    assert_eq!(plan.new_history.last(), Some(&ghost("undo-1")));

    let remote = CompactionPreview::Remote {
        replacement_history: vec![message("user", "R")],
        carry_over: stats,
    };
    let plan = apply_compaction_preview(remote, &live, vec![]);
    assert_eq!(plan.rollout.replacement_history, Some(vec![message("user", "R")]));
    assert_eq!(plan.rollout.message, "");
    assert_eq!(plan.events, vec![SessionEvent::ContextCompacted]);
}

#[test]
fn initial_input_becomes_one_user_message() {
    let mut history: Vec<HistoryItem> = vec![];
    record_initial_input(&mut history, &vec!["a".to_string(), "b".to_string()]);
    assert_eq!(history.len(), 1);
    match &history[0] {
        HistoryItem::Message { role, content } => {
            assert_eq!(role, "user");
            assert_eq!(content_items_to_text(content), Some("a\nb".to_string()));
        }
        _ => panic!("a message was expected"),
    }
}
