//! The conversation-history data model: messages, ghost snapshots (undo
//! markers that must survive compaction), and compaction boundary markers,
//! together with the text extraction and history-building helpers.
use vstd::prelude::*;
use crate::carry_over::COMPACT_USER_MESSAGE_MAX_TOKENS;
use crate::carry_over::carry_over_selection;
use crate::carry_over::compute_carry_over;
use crate::carry_over::seq_views;
use crate::text::join_nl;
use crate::text::lemma_join_nl_push;

verus! {

broadcast use vstd::seq::Seq::group_seq_extra;

#[derive(Debug, PartialEq, Eq)]
pub enum ContentItem {
    InputText { text: String },
    OutputText { text: String },
    Other,
}

#[derive(Debug, PartialEq, Eq)]
pub enum HistoryItem {
    Message { role: String, content: Vec<ContentItem> },
    GhostSnapshot { id: String },
    Compaction,
    Other,
}

#[verifier::ext_equal]
pub enum ContentView {
    InputText(Seq<char>),
    OutputText(Seq<char>),
    Other,
}

#[verifier::ext_equal]
pub enum ItemView {
    Message { role: Seq<char>, content: Seq<ContentView> },
    GhostSnapshot { id: Seq<char> },
    Compaction,
    Other,
}

impl View for ContentItem {
    type V = ContentView;

    open spec fn view(&self) -> ContentView {
        match self {
            ContentItem::InputText { text } => ContentView::InputText(text@),
            ContentItem::OutputText { text } => ContentView::OutputText(text@),
            ContentItem::Other => ContentView::Other,
        }
    }
}

impl View for HistoryItem {
    type V = ItemView;

    open spec fn view(&self) -> ItemView {
        match self {
            HistoryItem::Message { role, content } => ItemView::Message {
                role: role@,
                content: content@.map_values(|c: ContentItem| c@),
            },
            HistoryItem::GhostSnapshot { id } => ItemView::GhostSnapshot { id: id@ },
            HistoryItem::Compaction => ItemView::Compaction,
            HistoryItem::Other => ItemView::Other,
        }
    }
}

/// The item views of a history.
pub open spec fn hview(h: Seq<HistoryItem>) -> Seq<ItemView> {
    h.map_values(|i: HistoryItem| i@)
}

/// The content views of a content list.
pub open spec fn cviews(content: Seq<ContentItem>) -> Seq<ContentView> {
    content.map_values(|c: ContentItem| c@)
}

impl Clone for ContentItem {
    fn clone(&self) -> (r: Self)
        ensures
            r@ == self@,
    {
        match self {
            ContentItem::InputText { text } => ContentItem::InputText { text: text.clone() },
            ContentItem::OutputText { text } => ContentItem::OutputText { text: text.clone() },
            ContentItem::Other => ContentItem::Other,
        }
    }
}

impl Clone for HistoryItem {
    fn clone(&self) -> (r: Self)
        ensures
            r@ == self@,
    {
        match self {
            HistoryItem::Message { role, content } => {
                let mut c: Vec<ContentItem> = Vec::new();
                let mut i: usize = 0;
                while i < content.len()
                    invariant
                        i <= content@.len(),
                        cviews(c@) == cviews(content@.take(i as int)),
                    decreases content@.len() - i,
                {
                    c.push(content[i].clone());
                    proof {
                        assert(content@.take(i + 1) =~= content@.take(i as int).push(
                            content@[i as int],
                        ));
                        assert(cviews(c@) =~= cviews(content@.take(i + 1)));
                    }
                    i = i + 1;
                }
                proof {
                    assert(content@.take(content@.len() as int) =~= content@);
                }
                HistoryItem::Message { role: role.clone(), content: c }
            },
            HistoryItem::GhostSnapshot { id } => HistoryItem::GhostSnapshot { id: id.clone() },
            HistoryItem::Compaction => HistoryItem::Compaction,
            HistoryItem::Other => HistoryItem::Other,
        }
    }
}

/// The text pieces of a content list, in order.
pub open spec fn texts_of(content: Seq<ContentView>) -> Seq<Seq<char>>
    decreases content.len(),
{
    if content.len() == 0 {
        Seq::empty()
    } else {
        let rest = texts_of(content.drop_first());
        match content.first() {
            ContentView::InputText(t) => seq![t] + rest,
            ContentView::OutputText(t) => seq![t] + rest,
            ContentView::Other => rest,
        }
    }
}

pub open spec fn text_of_one(c: ContentView) -> Seq<Seq<char>> {
    match c {
        ContentView::InputText(t) => seq![t],
        ContentView::OutputText(t) => seq![t],
        ContentView::Other => Seq::empty(),
    }
}

pub proof fn lemma_texts_of_push(content: Seq<ContentView>, c: ContentView)
    ensures
        texts_of(content.push(c)) == texts_of(content) + text_of_one(c),
    decreases content.len(),
{
    let p = content.push(c);
    if content.len() == 0 {
        assert(p.first() == c);
        assert(p.drop_first() =~= Seq::<ContentView>::empty());
        assert(texts_of(Seq::<ContentView>::empty()) =~= Seq::<Seq<char>>::empty());
        assert(texts_of(content) =~= Seq::<Seq<char>>::empty());
        assert(texts_of(p) =~= texts_of(content) + text_of_one(c));
    } else {
        assert(p.first() == content.first());
        assert(p.drop_first() =~= content.drop_first().push(c));
        lemma_texts_of_push(content.drop_first(), c);
        assert(texts_of(p) =~= texts_of(content) + text_of_one(c));
    }
}

/// The joined text of a message's content: its text pieces joined with
/// newlines, or nothing when it has no text piece.
pub open spec fn content_text(content: Seq<ContentView>) -> Option<Seq<char>> {
    if texts_of(content).len() == 0 {
        None
    } else {
        Some(join_nl(texts_of(content)))
    }
}

pub fn content_items_to_text(content: &[ContentItem]) -> (r: Option<String>)
    ensures
        r is Some <==> content_text(cviews(content@)) is Some,
        r matches Some(s) ==> content_text(cviews(content@)) == Some(s@),
{
    let ghost full = cviews(content@);
    let mut found = false;
    let mut s = String::new();
    let mut i: usize = 0;
    proof {
        assert(cviews(content@.take(0)) =~= Seq::<ContentView>::empty());
    }
    while i < content.len()
        invariant
            i <= content@.len(),
            full == cviews(content@),
            found <==> texts_of(cviews(content@.take(i as int))).len() > 0,
            found ==> s@ == join_nl(texts_of(cviews(content@.take(i as int)))),
        decreases content@.len() - i,
    {
        let ghost pre = cviews(content@.take(i as int));
        proof {
            assert(content@.take(i + 1) =~= content@.take(i as int).push(content@[i as int]));
            assert(cviews(content@.take(i + 1)) =~= pre.push(content@[i as int]@));
            lemma_texts_of_push(pre, content@[i as int]@);
        }
        let piece: Option<&String> = match &content[i] {
            ContentItem::InputText { text } => Some(text),
            ContentItem::OutputText { text } => Some(text),
            ContentItem::Other => None,
        };
        if let Some(text) = piece {
            if found {
                s.append("\n");
                s.append(text.as_str());
                proof {
                    reveal_strlit("\n");
                    assert("\n"@ =~= seq!['\n']);
                    lemma_join_nl_push(texts_of(pre), text@);
                    assert(texts_of(cviews(content@.take(i + 1))) =~= texts_of(pre).push(text@));
                }
            } else {
                s = text.clone();
                found = true;
                proof {
                    lemma_join_nl_push(texts_of(pre), text@);
                    assert(texts_of(cviews(content@.take(i + 1))) =~= texts_of(pre).push(text@));
                }
            }
        }
        i = i + 1;
    }
    proof {
        assert(content@.take(content@.len() as int) =~= content@);
    }
    if found {
        Some(s)
    } else {
        None
    }
}

/// The message's joined text when it is a message with the given role.
pub open spec fn role_text(i: ItemView, role_name: Seq<char>) -> Option<Seq<char>> {
    match i {
        ItemView::Message { role, content } => if role == role_name {
            content_text(content)
        } else {
            None
        },
        _ => None,
    }
}

pub fn message_text(item: &HistoryItem, role_name: &String) -> (r: Option<String>)
    ensures
        r is Some <==> role_text(item@, role_name@) is Some,
        r matches Some(s) ==> role_text(item@, role_name@) == Some(s@),
{
    match item {
        HistoryItem::Message { role, content } => {
            if role.eq(role_name) {
                content_items_to_text(content.as_slice())
            } else {
                None
            }
        },
        _ => None,
    }
}

/// The texts of all user messages of a history, in order.
pub open spec fn user_texts(h: Seq<ItemView>) -> Seq<Seq<char>>
    decreases h.len(),
{
    if h.len() == 0 {
        Seq::empty()
    } else {
        let rest = user_texts(h.drop_first());
        match role_text(h.first(), "user"@) {
            Some(t) => seq![t] + rest,
            None => rest,
        }
    }
}

pub proof fn lemma_user_texts_push(h: Seq<ItemView>, i: ItemView)
    ensures
        user_texts(h.push(i)) == user_texts(h) + (match role_text(i, "user"@) {
            Some(t) => seq![t],
            None => Seq::empty(),
        }),
    decreases h.len(),
{
    let p = h.push(i);
    if h.len() == 0 {
        assert(p.first() == i);
        assert(p.drop_first() =~= Seq::<ItemView>::empty());
        assert(user_texts(Seq::<ItemView>::empty()) =~= Seq::<Seq<char>>::empty());
        assert(user_texts(h) =~= Seq::<Seq<char>>::empty());
        assert(user_texts(p) =~= user_texts(h) + (match role_text(i, "user"@) {
            Some(t) => seq![t],
            None => Seq::<Seq<char>>::empty(),
        }));
    } else {
        assert(p.first() == h.first());
        assert(p.drop_first() =~= h.drop_first().push(i));
        lemma_user_texts_push(h.drop_first(), i);
        assert(user_texts(p) =~= user_texts(h) + (match role_text(i, "user"@) {
            Some(t) => seq![t],
            None => Seq::<Seq<char>>::empty(),
        }));
    }
}

pub fn collect_user_messages(history: &[HistoryItem]) -> (r: Vec<String>)
    ensures
        seq_views(r@) == user_texts(hview(history@)),
{
    let user_role = String::from_str("user");
    let mut r: Vec<String> = Vec::new();
    let mut i: usize = 0;
    proof {
        assert(hview(history@.take(0)) =~= Seq::<ItemView>::empty());
        assert(seq_views(r@) =~= user_texts(hview(history@.take(0))));
    }
    while i < history.len()
        invariant
            i <= history@.len(),
            user_role@ == "user"@,
            seq_views(r@) == user_texts(hview(history@.take(i as int))),
        decreases history@.len() - i,
    {
        let ghost pre = hview(history@.take(i as int));
        proof {
            assert(history@.take(i + 1) =~= history@.take(i as int).push(history@[i as int]));
            assert(hview(history@.take(i + 1)) =~= pre.push(history@[i as int]@));
            lemma_user_texts_push(pre, history@[i as int]@);
        }
        if let Some(t) = message_text(&history[i], &user_role) {
            r.push(t);
        }
        proof {
            assert(seq_views(r@) =~= user_texts(hview(history@.take(i + 1))));
        }
        i = i + 1;
    }
    proof {
        assert(history@.take(history@.len() as int) =~= history@);
    }
    r
}

/// The text of the most recent assistant message that has text.
pub open spec fn last_assistant_text(h: Seq<ItemView>) -> Option<Seq<char>>
    decreases h.len(),
{
    if h.len() == 0 {
        None
    } else {
        match role_text(h.last(), "assistant"@) {
            Some(t) => Some(t),
            None => last_assistant_text(h.drop_last()),
        }
    }
}

pub fn get_last_assistant_message_from_turn(history: &[HistoryItem]) -> (r: Option<String>)
    ensures
        r is Some <==> last_assistant_text(hview(history@)) is Some,
        r matches Some(s) ==> last_assistant_text(hview(history@)) == Some(s@),
{
    let assistant_role = String::from_str("assistant");
    let mut i: usize = history.len();
    proof {
        assert(hview(history@.take(history@.len() as int)) =~= hview(history@));
    }
    while i > 0
        invariant
            i <= history@.len(),
            assistant_role@ == "assistant"@,
            last_assistant_text(hview(history@)) == last_assistant_text(
                hview(history@.take(i as int)),
            ),
        decreases i,
    {
        let ghost pre = hview(history@.take(i as int));
        proof {
            assert(pre.last() == history@[i - 1]@);
            assert(pre.drop_last() =~= hview(history@.take(i - 1)));
        }
        if let Some(t) = message_text(&history[i - 1], &assistant_role) {
            return Some(t);
        }
        i = i - 1;
    }
    None
}

/// Whether an item is a ghost snapshot (the undo marker).
pub open spec fn is_ghost_item(i: ItemView) -> bool {
    i is GhostSnapshot
}

/// The ghost snapshots of a history, in order.
pub open spec fn ghost_pred() -> spec_fn(ItemView) -> bool {
    |i: ItemView| is_ghost_item(i)
}

pub open spec fn ghosts_of(h: Seq<ItemView>) -> Seq<ItemView> {
    h.filter(ghost_pred())
}

pub fn ghost_snapshots(history: &[HistoryItem]) -> (r: Vec<HistoryItem>)
    ensures
        hview(r@) == ghosts_of(hview(history@)),
{
    let mut r: Vec<HistoryItem> = Vec::new();
    let mut i: usize = 0;
    proof {
        assert(hview(history@.take(0)) =~= Seq::<ItemView>::empty());
        assert(hview(r@) =~= ghosts_of(hview(history@.take(0))));
    }
    while i < history.len()
        invariant
            i <= history@.len(),
            hview(r@) == ghosts_of(hview(history@.take(i as int))),
        decreases history@.len() - i,
    {
        let ghost pre = hview(history@.take(i as int));
        proof {
            assert(history@.take(i + 1) =~= history@.take(i as int).push(history@[i as int]));
            assert(hview(history@.take(i + 1)) =~= pre.push(history@[i as int]@));
            assert(pre.push(history@[i as int]@).drop_last() =~= pre);
        }
        let keep = match &history[i] {
            HistoryItem::GhostSnapshot { .. } => true,
            _ => false,
        };
        if keep {
            r.push(history[i].clone());
        }
        proof {
            assert(hview(r@) =~= ghosts_of(hview(history@.take(i + 1))));
        }
        i = i + 1;
    }
    proof {
        assert(history@.take(history@.len() as int) =~= history@);
    }
    r
}

/// A user message holding one text piece.
pub open spec fn user_msg_view(t: Seq<char>) -> ItemView {
    ItemView::Message { role: "user"@, content: seq![ContentView::InputText(t)] }
}

pub fn user_message(text: String) -> (r: HistoryItem)
    ensures
        r@ == user_msg_view(text@),
{
    let ghost t = text@;
    let mut content: Vec<ContentItem> = Vec::new();
    content.push(ContentItem::InputText { text });
    let r = HistoryItem::Message { role: String::from_str("user"), content };
    proof {
        assert(cviews(content@) =~= seq![ContentView::InputText(t)]);
        assert(r@ =~= user_msg_view(t));
    }
    r
}

/// The compacted history: the initial context, then the carried-over recent
/// user messages, then the summary text, each text as a user message.
pub open spec fn built_history(ctx: Seq<ItemView>, msgs: Seq<Seq<char>>, summary: Seq<char>)
    -> Seq<ItemView> {
    ctx + carry_over_selection(msgs, COMPACT_USER_MESSAGE_MAX_TOKENS as nat).map_values(
        |t: Seq<char>| user_msg_view(t),
    ) + seq![user_msg_view(summary)]
}

pub fn build_compacted_history(
    initial_context: Vec<HistoryItem>,
    user_messages: &Vec<String>,
    summary_text: &String,
) -> (r: Vec<HistoryItem>)
    ensures
        hview(r@) == built_history(
            hview(initial_context@),
            seq_views(user_messages@),
            summary_text@,
        ),
{
    let ghost ctx = hview(initial_context@);
    let ghost msgs = seq_views(user_messages@);
    let ghost budget = COMPACT_USER_MESSAGE_MAX_TOKENS as nat;
    let stats = compute_carry_over(user_messages, COMPACT_USER_MESSAGE_MAX_TOKENS);
    let mut r = initial_context;
    let start = user_messages.len() - stats.selected_count;
    let ghost sel = carry_over_selection(msgs, budget);
    proof {
        assert(sel =~= msgs.subrange(start as int, msgs.len() as int));
    }
    let mut i = start;
    while i < user_messages.len()
        invariant
            start <= i <= user_messages@.len(),
            msgs == seq_views(user_messages@),
            sel == carry_over_selection(msgs, budget),
            sel == msgs.subrange(start as int, msgs.len() as int),
            hview(r@) == ctx + msgs.subrange(start as int, i as int).map_values(
                |t: Seq<char>| user_msg_view(t),
            ),
        decreases user_messages@.len() - i,
    {
        r.push(user_message(user_messages[i].clone()));
        proof {
            assert(msgs.subrange(start as int, i + 1) =~= msgs.subrange(start as int, i as int)
                .push(msgs[i as int]));
            assert(msgs.subrange(start as int, i + 1).map_values(|t: Seq<char>| user_msg_view(t))
                =~= msgs.subrange(start as int, i as int).map_values(
                |t: Seq<char>| user_msg_view(t),
            ).push(user_msg_view(msgs[i as int])));
            assert(hview(r@) =~= ctx + msgs.subrange(start as int, i + 1).map_values(
                |t: Seq<char>| user_msg_view(t),
            ));
        }
        i = i + 1;
    }
    r.push(user_message(summary_text.clone()));
    proof {
        assert(hview(r@) =~= built_history(ctx, msgs, summary_text@));
    }
    r
}

pub fn clone_history(items: &[HistoryItem]) -> (r: Vec<HistoryItem>)
    ensures
        hview(r@) == hview(items@),
{
    let mut r: Vec<HistoryItem> = Vec::new();
    let mut i: usize = 0;
    proof {
        assert(hview(r@) =~= hview(items@.take(0)));
    }
    while i < items.len()
        invariant
            i <= items@.len(),
            hview(r@) == hview(items@.take(i as int)),
        decreases items@.len() - i,
    {
        r.push(items[i].clone());
        proof {
            assert(hview(r@) =~= hview(items@.take(i + 1)));
        }
        i = i + 1;
    }
    proof {
        assert(items@.take(items@.len() as int) =~= items@);
    }
    r
}

/// Ghost snapshots of a concatenation are the concatenated ghost snapshots.
pub proof fn lemma_ghosts_append(a: Seq<ItemView>, b: Seq<ItemView>)
    ensures
        ghosts_of(a + b) == ghosts_of(a) + ghosts_of(b),
{
    Seq::filter_distributes_over_add(a, b, ghost_pred());
}

/// A history without ghost snapshots contributes none.
pub proof fn lemma_no_ghosts(s: Seq<ItemView>)
    requires
        forall|i: int| 0 <= i < s.len() ==> !is_ghost_item(#[trigger] s[i]),
    ensures
        ghosts_of(s) == Seq::<ItemView>::empty(),
    decreases s.len(),
{
    reveal(Seq::filter);
    if s.len() > 0 {
        let dl = s.drop_last();
        assert forall|i: int| 0 <= i < dl.len() implies !is_ghost_item(#[trigger] dl[i]) by {
            assert(dl[i] == s[i]);
        }
        lemma_no_ghosts(dl);
        assert(s =~= dl.push(s.last()));
        assert(!is_ghost_item(s[s.len() - 1]));
        assert(ghosts_of(dl.push(s.last())) == ghosts_of(dl));
    }
}

/// Filtering for ghost snapshots twice changes nothing.
pub proof fn lemma_ghosts_idempotent(s: Seq<ItemView>)
    ensures
        ghosts_of(ghosts_of(s)) == ghosts_of(s),
    decreases s.len(),
{
    reveal(Seq::filter);
    if s.len() > 0 {
        let dl = s.drop_last();
        lemma_ghosts_idempotent(dl);
        assert(s =~= dl.push(s.last()));
        if ghost_pred()(s.last()) {
            assert(ghosts_of(s) == ghosts_of(dl).push(s.last()));
            assert(ghosts_of(ghosts_of(dl).push(s.last())) == ghosts_of(ghosts_of(dl)).push(
                s.last(),
            ));
        } else {
            assert(ghosts_of(s) == ghosts_of(dl));
        }
    }
}

} // verus!
