//! Deterministic rendering of a compaction preview into human-readable text.
use vstd::prelude::*;
use crate::carry_over::percent_spec;
use crate::history::hview;
use crate::preview::CompactionPreview;
use crate::preview::extract_remote_summary_text;
use crate::preview::resolved_remote_summary;
use crate::text::dec_str;
use crate::text::u64_to_string;

verus! {

pub open spec fn label_view(is_remote: bool) -> Seq<char> {
    if is_remote {
        "(compaction preview - remote)"@
    } else {
        "(compaction preview)"@
    }
}

pub open spec fn trunc_note_view(was_truncated: bool) -> Seq<char> {
    if was_truncated {
        " (last message truncated)"@
    } else {
        Seq::empty()
    }
}

pub open spec fn apply_hint_view() -> Seq<char> {
    "Apply this preview with /compact --apply"@
}

/// The exact rendered text: label, summary, retained-percentage line with an
/// optional truncation note, and the fixed apply hint, separated by blank
/// lines.
pub open spec fn render_spec(
    summary: Seq<char>,
    percent: nat,
    was_truncated: bool,
    is_remote: bool,
) -> Seq<char> {
    label_view(is_remote) + "\n\n"@ + summary + "\n\n"@ + "Retained recent user messages: "@
        + dec_str(percent) + "%"@ + trunc_note_view(was_truncated) + "\n\n"@ + apply_hint_view()
}

pub fn render(summary_text: &str, percent: u64, was_truncated: bool, is_remote: bool) -> (r:
    String)
    ensures
        r@ == render_spec(summary_text@, percent as nat, was_truncated, is_remote),
{
    let mut s: String = if is_remote {
        "(compaction preview - remote)".to_owned()
    } else {
        "(compaction preview)".to_owned()
    };
    s.append("\n\n");
    s.append(summary_text);
    s.append("\n\n");
    s.append("Retained recent user messages: ");
    let p = u64_to_string(percent);
    s.append(p.as_str());
    s.append("%");
    if was_truncated {
        s.append(" (last message truncated)");
    }
    s.append("\n\n");
    s.append("Apply this preview with /compact --apply");
    proof {
        assert(s@ =~= render_spec(summary_text@, percent as nat, was_truncated, is_remote));
    }
    s
}

/// The rendered text of a preview: the local summary or the extracted remote
/// summary, with the variant's label and the carry-over percentage.
pub open spec fn render_preview_spec(p: CompactionPreview) -> Seq<char> {
    match p {
        CompactionPreview::Local { summary_text, carry_over } => render_spec(
            summary_text@,
            percent_spec(carry_over.selected_count as nat, carry_over.total_count as nat),
            carry_over.was_truncated,
            false,
        ),
        CompactionPreview::Remote { replacement_history, carry_over } => render_spec(
            resolved_remote_summary(hview(replacement_history@)),
            percent_spec(carry_over.selected_count as nat, carry_over.total_count as nat),
            carry_over.was_truncated,
            true,
        ),
    }
}

pub fn render_compaction_preview(preview: &CompactionPreview) -> (r: String)
    ensures
        r@ == render_preview_spec(*preview),
{
    match preview {
        CompactionPreview::Local { summary_text, carry_over } => render(
            summary_text.as_str(),
            carry_over.percent(),
            carry_over.was_truncated,
            false,
        ),
        CompactionPreview::Remote { replacement_history, carry_over } => {
            let summary_text = extract_remote_summary_text(replacement_history.as_slice());
            render(summary_text.as_str(), carry_over.percent(), carry_over.was_truncated, true)
        },
    }
}

/// Rendered output always ends with the literal apply hint and starts with
/// the label of the preview's variant.
pub proof fn lemma_render_hint_and_label(
    summary: Seq<char>,
    percent: nat,
    was_truncated: bool,
    is_remote: bool,
)
    ensures
        ({
            let out = render_spec(summary, percent, was_truncated, is_remote);
            &&& out.len() >= apply_hint_view().len() + label_view(is_remote).len()
            &&& out.subrange(out.len() - apply_hint_view().len(), out.len() as int)
                == apply_hint_view()
            &&& out.subrange(0, label_view(is_remote).len() as int) == label_view(is_remote)
        }),
{
    let out = render_spec(summary, percent, was_truncated, is_remote);
    assert(out.subrange(out.len() - apply_hint_view().len(), out.len() as int) =~= apply_hint_view());
    assert(out.subrange(0, label_view(is_remote).len() as int) =~= label_view(is_remote));
}

} // verus!
