//! The local preview generation protocol: draining a streamed exchange into a
//! cloned history, and the retry state machine that shrinks the prompt on
//! context overflow and backs off on transient errors.
use vstd::prelude::*;
use crate::carry_over::seq_views;
use crate::history::ContentItem;
use crate::history::ContentView;
use crate::history::HistoryItem;
use crate::history::ItemView;
use crate::history::cviews;
use crate::history::hview;

verus! {

broadcast use vstd::seq::Seq::group_seq_extra;

/// The errors local preview generation distinguishes.
#[derive(Debug, PartialEq, Eq)]
pub enum CompactError {
    /// User cancellation: aborts immediately, never retried.
    Interrupted,
    /// The prompt no longer fits the model's context window.
    ContextWindowExceeded,
    /// A stream protocol violation, with its message.
    Stream { message: String },
    /// Any other (transient) transport or provider error.
    Transient { message: String },
}

#[verifier::ext_equal]
pub enum ErrorView {
    Interrupted,
    ContextWindowExceeded,
    Stream(Seq<char>),
    Transient(Seq<char>),
}

impl View for CompactError {
    type V = ErrorView;

    open spec fn view(&self) -> ErrorView {
        match self {
            CompactError::Interrupted => ErrorView::Interrupted,
            CompactError::ContextWindowExceeded => ErrorView::ContextWindowExceeded,
            CompactError::Stream { message } => ErrorView::Stream(message@),
            CompactError::Transient { message } => ErrorView::Transient(message@),
        }
    }
}

pub open spec fn res_view(r: Result<(), CompactError>) -> Result<(), ErrorView> {
    match r {
        Ok(()) => Ok(()),
        Err(e) => Err(e@),
    }
}

/// One event of a streamed model exchange, as delivered.
#[derive(Debug, PartialEq, Eq)]
pub enum StreamEvent {
    /// A finished output item to append to the cloned history.
    OutputItemDone { item: HistoryItem },
    /// A rate-limit notice; observed but not acted upon in preview mode.
    RateLimits,
    /// The terminal completion signal: the attempt succeeded.
    Completed,
    /// Any other event kind; ignored.
    Other,
    /// The stream yielded an error.
    Failed { error: CompactError },
}

pub open spec fn stream_closed_view() -> Seq<char> {
    "stream closed before response.completed"@
}

/// The items a drain appends: every finished output item before the first
/// terminal event (completion or error), in delivery order.
pub open spec fn drain_items(events: Seq<StreamEvent>) -> Seq<ItemView>
    decreases events.len(),
{
    if events.len() == 0 {
        Seq::empty()
    } else {
        match events.first() {
            StreamEvent::OutputItemDone { item } => seq![item@] + drain_items(events.drop_first()),
            StreamEvent::Completed => Seq::empty(),
            StreamEvent::Failed { .. } => Seq::empty(),
            _ => drain_items(events.drop_first()),
        }
    }
}

/// How a drain ends: success at the first completion signal, the stream's own
/// error if it fails first, and a protocol-violation error when the event
/// sequence ends without a terminal event.
pub open spec fn drain_outcome(events: Seq<StreamEvent>) -> Result<(), ErrorView>
    decreases events.len(),
{
    if events.len() == 0 {
        Err(ErrorView::Stream(stream_closed_view()))
    } else {
        match events.first() {
            StreamEvent::Completed => Ok(()),
            StreamEvent::Failed { error } => Err(error@),
            _ => drain_outcome(events.drop_first()),
        }
    }
}

/// Drains one attempt's delivered events into the cloned history.
#[verifier::loop_isolation(false)]
pub fn drain_preview_to_completed(history: &mut Vec<HistoryItem>, events: Vec<StreamEvent>) -> (r:
    Result<(), CompactError>)
    ensures
        hview(final(history)@) == hview(old(history)@) + drain_items(events@),
        res_view(r) == drain_outcome(events@),
{
    let ghost all = events@;
    let mut evs = events;
    let ghost base = hview(old(history)@);
    proof {
        assert(hview(history@) =~= base + Seq::<ItemView>::empty());
    }
    let ghost mut appended = Seq::<ItemView>::empty();
    while evs.len() > 0
        invariant
            hview(history@) == base + appended,
            drain_items(all) == appended + drain_items(evs@),
            drain_outcome(all) == drain_outcome(evs@),
        decreases evs@.len(),
    {
        let ghost before = evs@;
        let ev = evs.remove(0);
        proof {
            assert(before.first() == ev);
            assert(before.drop_first() =~= evs@);
        }
        match ev {
            StreamEvent::OutputItemDone { item } => {
                history.push(item);
                proof {
                    appended = appended.push(item@);
                    assert(hview(history@) =~= base + appended);
                    assert(drain_items(before) =~= seq![item@] + drain_items(evs@));
                    assert(appended + drain_items(evs@) =~= appended.drop_last() + drain_items(
                        before,
                    ));
                }
            },
            StreamEvent::RateLimits => {
            },
            StreamEvent::Completed => {
                proof {
                    assert(drain_items(before) =~= Seq::<ItemView>::empty());
                    assert(appended + drain_items(before) =~= appended);
                    assert(drain_outcome(before) == Ok::<(), ErrorView>(()));
                }
                return Ok(());
            },
            StreamEvent::Other => {
            },
            StreamEvent::Failed { error } => {
                proof {
                    assert(drain_items(before) =~= Seq::<ItemView>::empty());
                    assert(appended + drain_items(before) =~= appended);
                    assert(drain_outcome(before) == Err::<(), ErrorView>(error@));
                }
                return Err(error);
            },
        }
    }
    proof {
        assert(drain_items(evs@) =~= Seq::<ItemView>::empty());
        assert(appended + drain_items(evs@) =~= appended);
        assert(drain_outcome(evs@) == Err::<(), ErrorView>(ErrorView::Stream(
            stream_closed_view(),
        )));
    }
    Err(CompactError::Stream { message: String::from_str("stream closed before response.completed") })
}

/// What the retry loop does after one attempt.
#[derive(Clone, Copy, Debug, PartialEq, Eq, Structural)]
pub enum AttemptDecision {
    /// The attempt completed: stop and build the preview.
    Finish,
    /// Context overflow with more than one prompt item: drop the oldest item,
    /// reset the retry counter, and retry.
    Shrink,
    /// A transient error with retries left: back off and retry.
    Backoff,
    /// Propagate the attempt's error to the caller.
    Fail,
}

pub open spec fn step_spec(
    outcome: Result<(), ErrorView>,
    prompt_len: nat,
    retries: u64,
    max_retries: u64,
) -> AttemptDecision {
    match outcome {
        Ok(()) => AttemptDecision::Finish,
        Err(ErrorView::Interrupted) => AttemptDecision::Fail,
        Err(ErrorView::ContextWindowExceeded) => if prompt_len > 1 {
            AttemptDecision::Shrink
        } else {
            AttemptDecision::Fail
        },
        Err(_) => if retries < max_retries {
            AttemptDecision::Backoff
        } else {
            AttemptDecision::Fail
        },
    }
}

/// Decides what to do after one streaming attempt, given the prompt size that
/// was used and the retry budget.
pub fn local_preview_step(
    outcome: &Result<(), CompactError>,
    prompt_len: usize,
    retries: u64,
    max_retries: u64,
) -> (d: AttemptDecision)
    ensures
        d == step_spec(res_view(*outcome), prompt_len as nat, retries, max_retries),
{
    match outcome {
        Ok(()) => AttemptDecision::Finish,
        Err(CompactError::Interrupted) => AttemptDecision::Fail,
        Err(CompactError::ContextWindowExceeded) => {
            if prompt_len > 1 {
                AttemptDecision::Shrink
            } else {
                AttemptDecision::Fail
            }
        },
        Err(_) => {
            if retries < max_retries {
                AttemptDecision::Backoff
            } else {
                AttemptDecision::Fail
            }
        },
    }
}

/// Drops the oldest prompt item before a shrink retry.
pub fn remove_first_item(history: &mut Vec<HistoryItem>)
    requires
        old(history)@.len() > 0,
    ensures
        hview(final(history)@) == hview(old(history)@).drop_first(),
{
    let _oldest = history.remove(0);
    proof {
        assert(hview(history@) =~= hview(old(history)@).drop_first());
    }
}

/// Context overflow with exactly one prompt item propagates the error: the
/// input cannot shrink further, so the step never retries.
pub proof fn lemma_overflow_single_item_fails(retries: u64, max_retries: u64)
    ensures
        step_spec(Err(ErrorView::ContextWindowExceeded), 1, retries, max_retries)
            == AttemptDecision::Fail,
{
}

/// The retry loop's termination measure.
pub open spec fn loop_measure(prompt_len: int, retries: int, max_retries: int) -> int {
    prompt_len * (max_retries + 2) + (max_retries - retries)
}

/// Every retrying decision strictly decreases the loop measure: a shrink
/// removes one prompt item (possible only with more than one) and resets the
/// retry counter; a backoff spends one of the bounded retries. So the local
/// generation loop converges: it cannot retry forever.
pub proof fn lemma_local_loop_converges(
    outcome: Result<(), ErrorView>,
    prompt_len: nat,
    retries: u64,
    max_retries: u64,
)
    requires
        prompt_len >= 1,
        retries <= max_retries,
    ensures
        step_spec(outcome, prompt_len, retries, max_retries) == AttemptDecision::Shrink
            ==> prompt_len > 1,
        step_spec(outcome, prompt_len, retries, max_retries) == AttemptDecision::Shrink
            ==> loop_measure(prompt_len - 1, 0, max_retries as int) < loop_measure(
            prompt_len as int,
            retries as int,
            max_retries as int,
        ),
        step_spec(outcome, prompt_len, retries, max_retries) == AttemptDecision::Backoff
            ==> retries < max_retries && loop_measure(
            prompt_len as int,
            retries as int + 1,
            max_retries as int,
        ) < loop_measure(prompt_len as int, retries as int, max_retries as int),
        loop_measure(prompt_len as int, retries as int, max_retries as int) >= 0,
{
    let p = prompt_len as int;
    let m = max_retries as int;
    let r = retries as int;
    assert((p - 1) * (m + 2) == p * (m + 2) - (m + 2)) by (nonlinear_arith);
    assert(p * (m + 2) >= m + 2) by (nonlinear_arith)
        requires
            p >= 1,
            m >= 0,
    ;
}

/// The initial user input as one history item holding each text piece.
pub open spec fn initial_input_view(ts: Seq<Seq<char>>) -> ItemView {
    ItemView::Message {
        role: "user"@,
        content: ts.map_values(|t: Seq<char>| ContentView::InputText(t)),
    }
}

/// Records the caller's new input into the cloned history, as the local
/// generator does before its first attempt.
pub fn record_initial_input(history: &mut Vec<HistoryItem>, input: &Vec<String>)
    ensures
        hview(final(history)@) == hview(old(history)@).push(initial_input_view(seq_views(input@))),
{
    let ghost ts = seq_views(input@);
    let mut content: Vec<ContentItem> = Vec::new();
    let mut i: usize = 0;
    proof {
        assert(cviews(content@) =~= ts.take(0).map_values(|t: Seq<char>| ContentView::InputText(t)));
    }
    while i < input.len()
        invariant
            i <= input@.len(),
            ts == seq_views(input@),
            cviews(content@) == ts.take(i as int).map_values(
                |t: Seq<char>| ContentView::InputText(t),
            ),
        decreases input@.len() - i,
    {
        content.push(ContentItem::InputText { text: input[i].clone() });
        proof {
            assert(cviews(content@) =~= ts.take(i + 1).map_values(
                |t: Seq<char>| ContentView::InputText(t),
            ));
        }
        i = i + 1;
    }
    proof {
        assert(ts.take(ts.len() as int) =~= ts);
    }
    history.push(HistoryItem::Message { role: String::from_str("user"), content });
    proof {
        assert(hview(history@) =~= hview(old(history)@).push(initial_input_view(ts)));
    }
}

} // verus!
