//! What holds of the library across its operations.

use vstd::prelude::*;

use crate::app::{
    app_wf, card_at_spec, event_spec, InputEvent, empty_tab, holds_path, mark_saved_spec, new_tab_spec,
    open_document_spec, remove_tab_spec, same_path, select_back, select_next, shortcut_spec,
    switcher_key_spec, toggled, AppView, Card, Key, Mode, OutcomeView,
};
use crate::edit::{
    lemma_line_start, line_start_of, menu_result, prepended_text, typed_wrap_of, wrap_pair_of, wrapped_bytes,
    wrapped_text, MenuItem,
};
use crate::highlight::{concat, lines_keep_ends, markdown_check};
use crate::preview::{
    blocks_of, code_formats, end_spec, is_break, marker_text, push_seg, reset_line, start_spec, line_pieces, no_formats, run_spec, split_acc, step_spec, BlockView, EndTag,
    MdEvent, PreviewStateView, SegmentView, StartTag,
};
use crate::text::truncated;
use vstd::arithmetic::div_mod::{lemma_fundamental_div_mod, lemma_mod_self_0, lemma_small_mod};

verus! {

/// Closing a tab never closes the last one: the state keeps at least one
/// tab and a shown tab that exists.
pub proof fn law_close_keeps_a_tab(a: AppView, idx: nat)
    requires
        app_wf(a),
        a.tabs.len() > 1 ==> idx < a.tabs.len(),
    ensures
        app_wf(remove_tab_spec(a, idx)),
        a.tabs.len() == 1 ==> remove_tab_spec(a, idx) == a,
        a.tabs.len() > 1 ==> remove_tab_spec(a, idx).tabs.len() == a.tabs.len() - 1,
{
}

/// A new tab is empty, stands at the end, and is the one shown.
pub proof fn law_new_tab_is_shown_and_empty(a: AppView)
    requires
        app_wf(a),
        a.tabs.len() < isize::MAX,
    ensures
        app_wf(new_tab_spec(a)),
        new_tab_spec(a).tabs.len() == a.tabs.len() + 1,
        new_tab_spec(a).tabs[new_tab_spec(a).active_tab as int] == empty_tab(),
        new_tab_spec(a).tabs.take(a.tabs.len() as int) == a.tabs,
{
    assert(new_tab_spec(a).tabs.take(a.tabs.len() as int) =~= a.tabs);
}

/// Switching the mode twice leaves it as it was.
pub proof fn law_toggle_twice(m: Mode)
    ensures
        toggled(toggled(m)) == m,
        toggled(m) != m,
{
}

/// Once the preview has taken in a markdown text, the same text does not
/// count as changed again: the stored hash is the text's own.
pub proof fn law_markdown_changed_once(stored: u64, markdown: Seq<char>)
    ensures
        !markdown_check(markdown_check(stored, markdown).1, markdown).0,
        markdown_check(markdown_check(stored, markdown).1, markdown).1 == markdown_check(stored, markdown).1,
{
}

/// After the shown tab was saved to a path, it has no unsaved edits, and
/// saving it again writes to that same path.
pub proof fn law_save_then_save_writes_same_file(a: AppView, path: Seq<char>)
    requires
        app_wf(a),
    ensures
        app_wf(mark_saved_spec(a, path)),
        !mark_saved_spec(a, path).tabs[a.active_tab as int].dirty,
        shortcut_spec(mark_saved_spec(a, path), Key::S, true, false).1 == OutcomeView::WriteFile(path),
        shortcut_spec(mark_saved_spec(a, path), Key::S, true, true).1 == OutcomeView::SaveAs,
{
}

/// Opening a file shows a tab that holds it; opening it again adds no tab
/// and shows that same tab. It holds for any path that equals itself as
/// paths compare, which `Path`'s `==` gives every path.
pub proof fn law_open_twice_adds_no_tab(a: AppView, path: Seq<char>, c1: Seq<char>, c2: Seq<char>)
    requires
        app_wf(a),
        a.tabs.len() < isize::MAX,
        same_path(path, path),
    ensures
        holds_path(
            open_document_spec(a, path, c1).tabs[open_document_spec(a, path, c1).active_tab as int],
            path,
        ),
        open_document_spec(open_document_spec(a, path, c1), path, c2) == open_document_spec(a, path, c1),
{
    let b = open_document_spec(a, path, c1);
    if exists|i: int| 0 <= i < a.tabs.len() && holds_path(#[trigger] a.tabs[i], path) {
        lemma_first_holder_exists(a, path);
        lemma_first_holder_exists(b, path);
    } else {
        let n = a.tabs.len() as int;
        assert(holds_path(b.tabs[n], path));
        lemma_first_holder_exists(b, path);
        let k = choose|i: int|
            0 <= i < b.tabs.len() && holds_path(#[trigger] b.tabs[i], path) && forall|j: int|
                0 <= j < i ==> !holds_path(#[trigger] b.tabs[j], path);
        if k < n {
            assert(b.tabs[k] == a.tabs[k]);
        }
    }
}

/// When some tab holds the file, there is a first one.
proof fn lemma_first_holder_exists(a: AppView, path: Seq<char>)
    requires
        exists|i: int| 0 <= i < a.tabs.len() && holds_path(#[trigger] a.tabs[i], path),
    ensures
        exists|i: int|
            0 <= i < a.tabs.len() && holds_path(#[trigger] a.tabs[i], path) && forall|j: int|
                0 <= j < i ==> !holds_path(#[trigger] a.tabs[j], path),
{
    let w = choose|i: int| 0 <= i < a.tabs.len() && holds_path(#[trigger] a.tabs[i], path);
    lemma_first_holder_below(a, path, w);
}

proof fn lemma_first_holder_below(a: AppView, path: Seq<char>, w: int)
    requires
        0 <= w < a.tabs.len(),
        holds_path(a.tabs[w], path),
    ensures
        exists|i: int|
            0 <= i < a.tabs.len() && holds_path(#[trigger] a.tabs[i], path) && forall|j: int|
                0 <= j < i ==> !holds_path(#[trigger] a.tabs[j], path),
    decreases w,
{
    if exists|j: int| 0 <= j < w && holds_path(#[trigger] a.tabs[j], path) {
        let j = choose|j: int| 0 <= j < w && holds_path(#[trigger] a.tabs[j], path);
        lemma_first_holder_below(a, path, j);
    } else {
        assert(0 <= w < a.tabs.len() && holds_path(a.tabs[w], path) && forall|j: int|
            0 <= j < w ==> !holds_path(#[trigger] a.tabs[j], path));
    }
}

/// In the tab switcher, one card on and then one card back (or back and
/// then on) returns to the card it started from.
pub proof fn law_next_then_back(a: AppView)
    requires
        a.tab_switcher_selection <= a.tabs.len(),
    ensures
        select_back(select_next(a)).tab_switcher_selection == a.tab_switcher_selection,
        select_next(select_back(a)).tab_switcher_selection == a.tab_switcher_selection,
{
    let n = a.tabs.len();
    let s = a.tab_switcher_selection;
    if s < n {
        lemma_small_mod((s + 1) as nat, (n + 1) as nat);
    } else {
        lemma_mod_self_0((n + 1) as int);
    }
    if s > 0 {
        lemma_small_mod(s, (n + 1) as nat);
    } else {
        lemma_mod_self_0((n + 1) as int);
    }
}

/// In the tab switcher, a row up and then a row down returns to the card
/// it started from, when there is a row above.
pub proof fn law_up_then_down(a: AppView)
    requires
        4 <= a.tab_switcher_selection <= a.tabs.len(),
    ensures
        switcher_key_spec(switcher_key_spec(a, Key::ArrowUp, false).0, Key::ArrowDown, false).0.tab_switcher_selection
            == a.tab_switcher_selection,
{
}

/// The tab switcher keeps its selection on a card: a tab or the new-tab
/// card.
pub proof fn law_selection_stays_on_a_card(a: AppView, key: Key, shift: bool)
    requires
        app_wf(a),
        a.tabs.len() < isize::MAX,
        a.tab_switcher_selection <= a.tabs.len(),
    ensures
        switcher_key_spec(a, key, shift).0.tab_switcher_selection <= switcher_key_spec(a, key, shift).0.tabs.len(),
        app_wf(switcher_key_spec(a, key, shift).0),
{
    let n = a.tabs.len();
    let s = a.tab_switcher_selection;
    assert((s + 1) % (n + 1) <= n);
}

/// Every tab has a card of its own, at its place in the grid, four to a
/// row, and the new-tab card follows the last tab.
pub proof fn law_cards_follow_tabs(a: AppView, i: nat)
    requires
        app_wf(a),
        i <= a.tabs.len(),
    ensures
        i < a.tabs.len() ==> (card_at_spec(a, i / 4, i % 4) matches Card::Tab { index, .. } && index == i),
        i == a.tabs.len() ==> (card_at_spec(a, i / 4, i % 4) matches Card::NewTab { .. }),
{
    lemma_fundamental_div_mod(i as int, 4);
    assert(i / 4 * 4 + i % 4 == i);
}

/// Wrapping a selection adds the two marks around it and keeps every other
/// byte of the text: taking the marks out gives the text back.
pub proof fn law_wrap_keeps_text(t: Seq<u8>, a: nat, b: nat, l: Seq<u8>, r: Seq<u8>)
    requires
        a <= t.len(),
        b <= t.len(),
    ensures
        ({
            let s: int = if a <= b { a as int } else { b as int };
            let e: int = if a <= b { b as int } else { a as int };
            let ll: int = l.len() as int;
            let rl: int = r.len() as int;
            let w = wrapped_bytes(t, a, b, l, r);
            &&& w.len() == t.len() + ll + rl
            &&& w.subrange(s, s + ll) == l
            &&& w.subrange(e + ll, e + ll + rl) == r
            &&& w.take(s) + w.subrange(s + ll, e + ll) + w.skip(e + ll + rl) == t
        }),
{
    let s: int = if a <= b { a as int } else { b as int };
    let e: int = if a <= b { b as int } else { a as int };
    let ll: int = l.len() as int;
    let rl: int = r.len() as int;
    let w = wrapped_bytes(t, a, b, l, r);
    assert(w.subrange(s, s + ll) =~= l);
    assert(w.subrange(e + ll, e + ll + rl) =~= r);
    assert(w.take(s) + w.subrange(s + ll, e + ll) + w.skip(e + ll + rl) =~= t);
}

/// The start of the cursor's line is where the line begins: at the text's
/// start or just after a newline, with no newline between it and the
/// cursor.
pub proof fn law_line_start_is_line_start(t: Seq<u8>, cursor: nat)
    requires
        cursor <= t.len(),
    ensures
        line_start_of(t, cursor) <= cursor,
        line_start_of(t, cursor) == 0 || t[line_start_of(t, cursor) - 1] == 10,
        forall|j: int| line_start_of(t, cursor) <= j < cursor ==> t[j] != 10,
{
    lemma_line_start(t, cursor);
}

/// A label is never longer than the limit (when the limit is at least one
/// character), and a name that fits is left as it is.
pub proof fn law_truncate_fits(s: Seq<char>, max: nat)
    ensures
        max >= 1 ==> truncated(s, max).len() <= max,
        s.len() <= max ==> truncated(s, max) == s,
        s.len() > max && max >= 1 ==> truncated(s, max).take(max - 1) == s.take(max - 1)
            && truncated(s, max).last() == '\u{2026}',
{
    if s.len() > max && max >= 1 {
        assert(truncated(s, max).take(max - 1) =~= s.take(max - 1));
    }
}

/// The lines of a code block, each with its newline, make up the code, and
/// none of them is empty.
pub proof fn law_code_lines_make_up_code(text: Seq<char>)
    ensures
        concat(lines_keep_ends(text)) == text,
        forall|k: int| 0 <= k < lines_keep_ends(text).len() ==> #[trigger] lines_keep_ends(text)[k].len() > 0,
    decreases text.len(),
{
    if text.len() > 0 {
        law_code_lines_make_up_code(text.drop_last());
        let prev = lines_keep_ends(text.drop_last());
        let c = text.last();
        if prev.len() > 0 && prev.last().last() != '\n' {
            let next = prev.update(prev.len() - 1, prev.last().push(c));
            assert(next.drop_last() =~= prev.drop_last());
            assert(concat(next) =~= concat(prev.drop_last()) + prev.last().push(c));
            assert(concat(prev) == concat(prev.drop_last()) + prev.last());
            assert(prev.last().push(c) =~= prev.last() + seq![c]);
            assert(text =~= text.drop_last() + seq![c]);
            assert(concat(next) =~= concat(prev) + seq![c]);
            assert(concat(next) =~= text);
        } else {
            let next = prev.push(seq![c]);
            assert(next.drop_last() =~= prev);
            assert(text =~= text.drop_last() + seq![c]);
            assert(concat(next) =~= text);
        }
    }
}

/// One thing that happens to the editor while it takes in a batch of input:
/// an input event, a file that the open dialog read (path and content), or
/// the shown tab saved to a path.
pub enum BatchStep {
    Event(InputEvent),
    Opened(Seq<char>, Seq<char>),
    Saved(Seq<char>),
}

/// The state after one step of a batch; `switching` tells whether the tab
/// switcher was shown when the batch began.
pub open spec fn batch_step(a: AppView, step: BatchStep, switching: bool) -> AppView {
    match step {
        BatchStep::Event(ev) => event_spec(a, ev, switching).0,
        BatchStep::Opened(path, content) => open_document_spec(a, path, content),
        BatchStep::Saved(path) => mark_saved_spec(a, path),
    }
}

/// The state after the steps of a batch, one after the other.
pub open spec fn run_batch(a: AppView, steps: Seq<BatchStep>, switching: bool) -> AppView
    decreases steps.len(),
{
    if steps.len() == 0 {
        a
    } else {
        batch_step(run_batch(a, steps.drop_last(), switching), steps.last(), switching)
    }
}

proof fn lemma_step_keeps_state_valid(a: AppView, step: BatchStep, switching: bool)
    requires
        app_wf(a),
        a.tabs.len() < isize::MAX,
        switching ==> a.tab_switcher_selection <= a.tabs.len(),
    ensures
        app_wf(batch_step(a, step, switching)),
        batch_step(a, step, switching).tabs.len() <= a.tabs.len() + 1,
        switching ==> batch_step(a, step, switching).tab_switcher_selection <= batch_step(
            a,
            step,
            switching,
        ).tabs.len(),
{
    match step {
        BatchStep::Event(ev) => {
            match ev {
                InputEvent::KeyDown { key, ctrl, shift } => {
                    if switching {
                        law_selection_stays_on_a_card(a, key, shift);
                    } else {
                        law_close_keeps_a_tab(a, a.active_tab);
                    }
                },
                _ => {},
            }
        },
        BatchStep::Opened(path, content) => {
            if exists|i: int| 0 <= i < a.tabs.len() && holds_path(#[trigger] a.tabs[i], path) {
                lemma_first_holder_exists(a, path);
            }
        },
        BatchStep::Saved(path) => {},
    }
}

/// Whatever input events a batch holds, and whatever files the dialogs read
/// or the saves wrote, the editor keeps at least one tab and a shown tab
/// that exists; and when the switcher takes the keys of the batch, its
/// selection stays on a card.
pub proof fn law_batch_keeps_state_valid(a: AppView, steps: Seq<BatchStep>, switching: bool)
    requires
        app_wf(a),
        a.tabs.len() + steps.len() <= isize::MAX,
        switching ==> a.tab_switcher_selection <= a.tabs.len(),
    ensures
        app_wf(run_batch(a, steps, switching)),
        run_batch(a, steps, switching).tabs.len() <= a.tabs.len() + steps.len(),
        switching ==> run_batch(a, steps, switching).tab_switcher_selection <= run_batch(
            a,
            steps,
            switching,
        ).tabs.len(),
    decreases steps.len(),
{
    if steps.len() > 0 {
        law_batch_keeps_state_valid(a, steps.drop_last(), switching);
        lemma_step_keeps_state_valid(run_batch(a, steps.drop_last(), switching), steps.last(), switching);
    }
}

/// Whether an event completes a block of the preview.
pub open spec fn ends_block(e: MdEvent) -> bool {
    match e {
        MdEvent::End(EndTag::Paragraph) => true,
        MdEvent::End(EndTag::Heading(_)) => true,
        MdEvent::End(EndTag::CodeBlock) => true,
        MdEvent::End(EndTag::Item) => true,
        MdEvent::Rule => true,
        _ => false,
    }
}

/// The number of events that complete a block.
pub open spec fn block_event_count(evs: Seq<MdEvent>) -> nat
    decreases evs.len(),
{
    if evs.len() == 0 {
        0
    } else {
        block_event_count(evs.drop_last()) + if ends_block(evs.last()) {
            1nat
        } else {
            0nat
        }
    }
}

/// The preview renders one block for each end of a paragraph, a heading, a
/// code block or a list item, and for each rule, and none for any other
/// event.
pub proof fn law_one_block_per_element(evs: Seq<MdEvent>)
    ensures
        blocks_of(evs).len() == block_event_count(evs),
    decreases evs.len(),
{
    if evs.len() > 0 {
        law_one_block_per_element(evs.drop_last());
        let (s, bs) = run_spec(evs.drop_last());
        let e = evs.last();
        assert(step_spec(s, e).1 is Some <==> ends_block(e));
    }
}

/// The segments of a sequence of lines, one line after the other.
pub open spec fn flatten(lines: Seq<Seq<SegmentView>>) -> Seq<SegmentView>
    decreases lines.len(),
{
    if lines.len() == 0 {
        seq![]
    } else {
        flatten(lines.drop_last()) + lines.last()
    }
}

/// The segments that are not line breaks, in order.
pub open spec fn without_breaks(segs: Seq<SegmentView>) -> Seq<SegmentView>
    decreases segs.len(),
{
    if segs.len() == 0 {
        seq![]
    } else {
        without_breaks(segs.drop_last()) + if is_break(segs.last()) {
            seq![]
        } else {
            seq![segs.last()]
        }
    }
}

/// Whether every line holds a segment and no line break.
pub open spec fn lines_are_clean(lines: Seq<Seq<SegmentView>>) -> bool {
    forall|k: int|
        0 <= k < lines.len() ==> #[trigger] lines[k].len() > 0 && forall|j: int|
            0 <= j < lines[k].len() ==> !is_break(#[trigger] lines[k][j])
}

proof fn lemma_split_acc(segs: Seq<SegmentView>)
    ensures
        flatten(split_acc(segs).0) + split_acc(segs).1 == without_breaks(segs),
        lines_are_clean(split_acc(segs).0),
        forall|j: int| 0 <= j < split_acc(segs).1.len() ==> !is_break(#[trigger] split_acc(segs).1[j]),
    decreases segs.len(),
{
    if segs.len() > 0 {
        lemma_split_acc(segs.drop_last());
        let (done, cur) = split_acc(segs.drop_last());
        if is_break(segs.last()) {
            if cur.len() > 0 {
                assert(done.push(cur).drop_last() =~= done);
                assert(flatten(done.push(cur)) + seq![] =~= without_breaks(segs));
                assert(lines_are_clean(done.push(cur)));
            } else {
                assert(flatten(done) + seq![] =~= without_breaks(segs));
            }
        } else {
            assert(flatten(done) + cur.push(segs.last()) =~= without_breaks(segs));
            let c2 = cur.push(segs.last());
            assert(forall|j: int| 0 <= j < c2.len() ==> !is_break(#[trigger] c2[j]));
        }
    }
}

/// The lines of a paragraph hold all its segments but the line breaks, in
/// order, and each line holds a segment and no break.
pub proof fn law_lines_keep_segments(segs: Seq<SegmentView>)
    ensures
        flatten(line_pieces(segs)) == without_breaks(segs),
        lines_are_clean(line_pieces(segs)),
{
    lemma_split_acc(segs);
    let (done, cur) = split_acc(segs);
    if cur.len() > 0 {
        assert(done.push(cur).drop_last() =~= done);
        assert(lines_are_clean(done.push(cur)));
    } else {
        assert(flatten(done) =~= flatten(done) + cur);
    }
}

/// Ending a code block leaves the walk outside code: the text that follows
/// is document text again and goes onto the current line with the formats
/// in force, not into the code.
pub proof fn law_code_block_end_leaves_code(s: PreviewStateView, t: String)
    ensures
        !end_spec(s, EndTag::CodeBlock).0.in_code,
        step_spec(end_spec(s, EndTag::CodeBlock).0, MdEvent::Text(t)).0.line_segs == s.line_segs.push(
            SegmentView { text: t@, fmts: s.fmts },
        ),
        step_spec(end_spec(s, EndTag::CodeBlock).0, MdEvent::Text(t)).0.code_text == s.code_text,
{
}

/// After any events, a code block and then a paragraph render as the code
/// block with its code and language, then the paragraph with its text, at
/// the depth of lists and quotes in force.
pub proof fn law_code_block_then_paragraph(
    evs: Seq<MdEvent>,
    lang: Option<String>,
    code: String,
    text: String,
)
    ensures
        blocks_of(
            evs + seq![
                MdEvent::Start(StartTag::CodeBlock(lang)),
                MdEvent::Text(code),
                MdEvent::End(EndTag::CodeBlock),
                MdEvent::Start(StartTag::Paragraph),
                MdEvent::Text(text),
                MdEvent::End(EndTag::Paragraph),
            ],
        ) == blocks_of(evs) + seq![
            BlockView::CodeBlock {
                code: code@,
                lang: match lang {
                    Some(l) => l@,
                    None => seq![],
                },
            },
            BlockView::Paragraph {
                segs: seq![SegmentView { text: text@, fmts: no_formats() }],
                list_depth: run_spec(evs).0.list_stack.len(),
                quote_depth: run_spec(evs).0.quote_depth,
            },
        ],
{
    let e1 = evs.push(MdEvent::Start(StartTag::CodeBlock(lang)));
    let e2 = e1.push(MdEvent::Text(code));
    let e3 = e2.push(MdEvent::End(EndTag::CodeBlock));
    let e4 = e3.push(MdEvent::Start(StartTag::Paragraph));
    let e5 = e4.push(MdEvent::Text(text));
    let e6 = e5.push(MdEvent::End(EndTag::Paragraph));
    assert(e1.drop_last() =~= evs);
    assert(e2.drop_last() =~= e1);
    assert(e3.drop_last() =~= e2);
    assert(e4.drop_last() =~= e3);
    assert(e5.drop_last() =~= e4);
    assert(e6.drop_last() =~= e5);
    let s0 = run_spec(evs).0;
    assert(run_spec(e1).1 == run_spec(evs).1);
    assert(run_spec(e2).1 == run_spec(evs).1);
    assert(run_spec(e2).0.code_text =~= code@);
    assert(run_spec(e3).1 == run_spec(evs).1.push(run_spec(e3).1.last()));
    assert(run_spec(e4).1 == run_spec(e3).1);
    assert(run_spec(e5).1 == run_spec(e3).1);
    assert(run_spec(e5).0.line_segs =~= seq![SegmentView { text: text@, fmts: no_formats() }]);
    assert(run_spec(e5).0.list_stack == s0.list_stack);
    assert(run_spec(e5).0.quote_depth == s0.quote_depth);
    assert(e6 =~= evs + seq![
        MdEvent::Start(StartTag::CodeBlock(lang)),
        MdEvent::Text(code),
        MdEvent::End(EndTag::CodeBlock),
        MdEvent::Start(StartTag::Paragraph),
        MdEvent::Text(text),
        MdEvent::End(EndTag::Paragraph),
    ]);
    assert(run_spec(e6).1 =~= blocks_of(evs) + seq![
        BlockView::CodeBlock {
            code: code@,
            lang: match lang {
                Some(l) => l@,
                None => seq![],
            },
        },
        BlockView::Paragraph {
            segs: seq![SegmentView { text: text@, fmts: no_formats() }],
            list_depth: s0.list_stack.len(),
            quote_depth: s0.quote_depth,
        },
    ]);
}

/// Closing the tab at `idx`, when there is more than one, takes out exactly
/// that tab: the tabs before it keep their places, those after it move one
/// place down, and the shown index stays, pulled back onto the last tab
/// when it falls past the end.
pub proof fn law_close_takes_out_that_tab(a: AppView, idx: nat)
    requires
        app_wf(a),
        a.tabs.len() > 1,
        idx < a.tabs.len(),
    ensures
        remove_tab_spec(a, idx).tabs.len() + 1 == a.tabs.len(),
        forall|j: int| 0 <= j < idx ==> #[trigger] remove_tab_spec(a, idx).tabs[j] == a.tabs[j],
        forall|j: int| idx <= j < a.tabs.len() - 1 ==> #[trigger] remove_tab_spec(a, idx).tabs[j] == a.tabs[j + 1],
        remove_tab_spec(a, idx).active_tab == if a.active_tab + 1 < a.tabs.len() {
            a.active_tab
        } else {
            (a.tabs.len() - 2) as nat
        },
{
}

/// Without Ctrl a key is no shortcut: it goes on to the editor and changes
/// nothing, but for F11, which switches the mode, and Escape in focus mode,
/// which goes back to writing.
pub proof fn law_plain_keys_pass_on(a: AppView, key: Key, shift: bool)
    requires
        key != Key::F11,
        !(key == Key::Escape && a.mode == Mode::Focus),
    ensures
        shortcut_spec(a, key, false, shift) == (a, OutcomeView::PassOn),
        event_spec(a, InputEvent::KeyDown { key, ctrl: false, shift }, false) == (a, OutcomeView::PassOn),
{
}

/// Ctrl+W closes the shown tab, and only it, when there is more than one.
pub proof fn law_ctrl_w_closes_shown_tab(a: AppView, shift: bool)
    requires
        app_wf(a),
        a.tabs.len() > 1,
    ensures
        shortcut_spec(a, Key::W, true, shift).1 == OutcomeView::Consumed,
        shortcut_spec(a, Key::W, true, shift).0.tabs.len() + 1 == a.tabs.len(),
        forall|j: int|
            0 <= j < a.active_tab ==> #[trigger] shortcut_spec(a, Key::W, true, shift).0.tabs[j] == a.tabs[j],
        forall|j: int|
            a.active_tab <= j < a.tabs.len() - 1 ==> #[trigger] shortcut_spec(a, Key::W, true, shift).0.tabs[j]
                == a.tabs[j + 1],
{
    law_close_takes_out_that_tab(a, a.active_tab);
}

/// A typed opening bracket wraps the selection in itself and its own
/// closing bracket; a typed emphasis mark, backtick or quote wraps it in
/// itself on both sides; every pair opens with the typed character; and
/// any other character, a closing bracket among them, wraps nothing.
pub proof fn law_typed_marks_pair_up(t: Seq<char>, p: nat, s: nat, c: char)
    requires
        p != s,
    ensures
        typed_wrap_of(t, p, s, seq!['(']) == Some(wrapped_text(t, p, s, seq!['('], seq![')'])),
        typed_wrap_of(t, p, s, seq!['[']) == Some(wrapped_text(t, p, s, seq!['['], seq![']'])),
        typed_wrap_of(t, p, s, seq!['{']) == Some(wrapped_text(t, p, s, seq!['{'], seq!['}'])),
        typed_wrap_of(t, p, s, seq!['<']) == Some(wrapped_text(t, p, s, seq!['<'], seq!['>'])),
        (c == '*' || c == '`' || c == '"' || c == '\'' || c == '_') ==> typed_wrap_of(t, p, s, seq![c]) == Some(
            wrapped_text(t, p, s, seq![c], seq![c]),
        ),
        wrap_pair_of(seq![c]) matches Some((l, r)) ==> l == c,
        !(c == '*' || c == '`' || c == '"' || c == '\'' || c == '_' || c == '(' || c == '[' || c == '{' || c
            == '<') ==> typed_wrap_of(t, p, s, seq![c]) is None,
{
}

/// The marks of a heading of level `k`: `k` times `#`, then a space.
pub open spec fn heading_marks(k: nat) -> Seq<char> {
    Seq::new(k, |i: int| '#').push(' ')
}

/// What each context-menu entry does to any text: the heading entries put
/// one, two or three `#` marks and a space before the cursor's line, the
/// quote `> ` and the bullet `- `; with a selection, bold wraps it in `**`,
/// italic in `*`, strikethrough in `~~`, inline code in backticks and a
/// link in `[` and `](url)`.
pub proof fn law_menu_entries(t: Seq<char>, p: nat, s: nat)
    ensures
        menu_result(t, MenuItem::Heading1, p, s) == Some(prepended_text(t, p, heading_marks(1))),
        menu_result(t, MenuItem::Heading2, p, s) == Some(prepended_text(t, p, heading_marks(2))),
        menu_result(t, MenuItem::Heading3, p, s) == Some(prepended_text(t, p, heading_marks(3))),
        menu_result(t, MenuItem::Blockquote, p, s) == Some(prepended_text(t, p, seq!['>', ' '])),
        menu_result(t, MenuItem::BulletList, p, s) == Some(prepended_text(t, p, seq!['-', ' '])),
        p != s ==> menu_result(t, MenuItem::Bold, p, s) == Some(wrapped_text(t, p, s, seq!['*', '*'], seq!['*', '*'])),
        p != s ==> menu_result(t, MenuItem::Italic, p, s) == Some(wrapped_text(t, p, s, seq!['*'], seq!['*'])),
        p != s ==> menu_result(t, MenuItem::Strikethrough, p, s) == Some(
            wrapped_text(t, p, s, seq!['~', '~'], seq!['~', '~']),
        ),
        p != s ==> menu_result(t, MenuItem::InlineCode, p, s) == Some(wrapped_text(t, p, s, seq!['`'], seq!['`'])),
        p != s ==> menu_result(t, MenuItem::Link, p, s) == Some(
            wrapped_text(t, p, s, seq!['['], seq![']', '(', 'u', 'r', 'l', ')']),
        ),
{
    assert(heading_marks(1) =~= seq!['#', ' ']);
    assert(heading_marks(2) =~= seq!['#', '#', ' ']);
    assert(heading_marks(3) =~= seq!['#', '#', '#', ' ']);
}

/// What each Ctrl shortcut does: Ctrl+O asks for the open dialog and
/// Ctrl+S for a save (to the document's file when it has one, else through
/// the dialog; with Shift always through the dialog), neither changing the
/// state; Ctrl+N adds an empty tab at the end and shows it; Ctrl+Tab shows
/// the switcher on its new-tab card; Ctrl+Shift+F, like F11, switches the
/// mode; and Escape in focus mode goes back to writing.
pub proof fn law_ctrl_shortcuts(a: AppView, shift: bool)
    requires
        app_wf(a),
    ensures
        shortcut_spec(a, Key::O, true, shift) == (a, OutcomeView::OpenFile),
        shortcut_spec(a, Key::S, true, true) == (a, OutcomeView::SaveAs),
        shortcut_spec(a, Key::S, true, false) == (
            a,
            match a.tabs[a.active_tab as int].file_path {
                Some(p) => OutcomeView::WriteFile(p),
                None => OutcomeView::SaveAs,
            },
        ),
        shortcut_spec(a, Key::N, true, shift).1 == OutcomeView::Consumed,
        shortcut_spec(a, Key::N, true, shift).0.tabs == a.tabs.push(empty_tab()),
        shortcut_spec(a, Key::N, true, shift).0.active_tab == a.tabs.len(),
        shortcut_spec(a, Key::Tab, true, shift).1 == OutcomeView::Consumed,
        shortcut_spec(a, Key::Tab, true, shift).0.show_tab_switcher,
        shortcut_spec(a, Key::Tab, true, shift).0.tab_switcher_selection == a.tabs.len(),
        shortcut_spec(a, Key::Tab, true, shift).0.tabs == a.tabs,
        shortcut_spec(a, Key::F, true, true).0.mode != a.mode,
        shortcut_spec(a, Key::F11, false, shift).0.mode != a.mode,
        shortcut_spec(a, Key::F11, false, shift).0.tabs == a.tabs,
        a.mode == Mode::Focus ==> shortcut_spec(a, Key::Escape, false, shift) == (
            AppView { mode: Mode::Writing, ..a },
            OutcomeView::Consumed,
        ),
{
}

/// The end of an inline element turns its own format off and leaves the
/// others as they were.
pub proof fn law_format_ends_turn_off(s: PreviewStateView)
    ensures
        !end_spec(s, EndTag::Emphasis).0.fmts.italic,
        !end_spec(s, EndTag::Strong).0.fmts.bold,
        !end_spec(s, EndTag::Strikethrough).0.fmts.strike,
        !end_spec(s, EndTag::Link).0.fmts.link,
        end_spec(s, EndTag::Emphasis).0.fmts.bold == s.fmts.bold,
        end_spec(s, EndTag::Strong).0.fmts.italic == s.fmts.italic,
        end_spec(s, EndTag::Strikethrough).0.fmts.bold == s.fmts.bold,
        end_spec(s, EndTag::Link).0.fmts.italic == s.fmts.italic,
        end_spec(s, EndTag::Emphasis).0.line_segs == s.line_segs,
        end_spec(s, EndTag::Strong).0.line_segs == s.line_segs,
        end_spec(s, EndTag::Strikethrough).0.line_segs == s.line_segs,
        end_spec(s, EndTag::Link).0.line_segs == s.line_segs,
{
}

/// After any events outside a code block, a paragraph, a heading or a
/// list item holding one text renders as one block with that text and no format: a paragraph or
/// an item at the depth of lists and quotes in force, a heading at the
/// level that its end tag gives.
pub proof fn law_text_blocks(evs: Seq<MdEvent>, text: String, level: u8)
    requires
        !run_spec(evs).0.in_code,
    ensures
        blocks_of(evs + seq![MdEvent::Start(StartTag::Paragraph), MdEvent::Text(text), MdEvent::End(EndTag::Paragraph)])
            == blocks_of(evs).push(
            BlockView::Paragraph {
                segs: seq![SegmentView { text: text@, fmts: no_formats() }],
                list_depth: run_spec(evs).0.list_stack.len(),
                quote_depth: run_spec(evs).0.quote_depth,
            },
        ),
        blocks_of(evs + seq![MdEvent::Start(StartTag::Heading), MdEvent::Text(text), MdEvent::End(EndTag::Heading(level))])
            == blocks_of(evs).push(
            BlockView::Heading { segs: seq![SegmentView { text: text@, fmts: no_formats() }], level },
        ),
        blocks_of(evs + seq![MdEvent::Start(StartTag::Item), MdEvent::Text(text), MdEvent::End(EndTag::Item)])
            == blocks_of(evs).push(
            BlockView::Item {
                segs: seq![SegmentView { text: text@, fmts: no_formats() }],
                list_depth: run_spec(evs).0.list_stack.len(),
                quote_depth: run_spec(evs).0.quote_depth,
            },
        ),
{
    lemma_one_text_block(evs, StartTag::Paragraph, text, EndTag::Paragraph);
    lemma_one_text_block(evs, StartTag::Heading, text, EndTag::Heading(level));
    lemma_one_text_block(evs, StartTag::Item, text, EndTag::Item);
}

/// The end of a paragraph, a heading or a list item leaves an empty line
/// with no format in force, and keeps the depths of lists and quotes; the
/// end of a code block keeps the current line.
pub proof fn law_block_ends_clear_the_line(s: PreviewStateView, level: u8)
    ensures
        end_spec(s, EndTag::Paragraph).0.line_segs.len() == 0,
        end_spec(s, EndTag::Heading(level)).0.line_segs.len() == 0,
        end_spec(s, EndTag::Item).0.line_segs.len() == 0,
        end_spec(s, EndTag::Paragraph).0.fmts == no_formats(),
        end_spec(s, EndTag::Heading(level)).0.fmts == no_formats(),
        end_spec(s, EndTag::Item).0.fmts == no_formats(),
        end_spec(s, EndTag::Paragraph).0.list_stack == s.list_stack,
        end_spec(s, EndTag::Item).0.quote_depth == s.quote_depth,
        end_spec(s, EndTag::CodeBlock).0.line_segs == s.line_segs,
{
}

/// A list or a block quote nests one level deeper while it is open, and its
/// end returns to the depth before it.
pub proof fn law_nesting_depths(s: PreviewStateView, first: Option<u64>)
    ensures
        start_spec(s, StartTag::List(first)).list_stack.len() == s.list_stack.len() + 1,
        start_spec(s, StartTag::List(first)).list_stack.last() == (first is Some),
        end_spec(start_spec(s, StartTag::List(first)), EndTag::List).0.list_stack == s.list_stack,
        start_spec(s, StartTag::BlockQuote).quote_depth == s.quote_depth + 1,
        end_spec(start_spec(s, StartTag::BlockQuote), EndTag::BlockQuote).0.quote_depth == s.quote_depth,
        s.quote_depth == 0 ==> end_spec(s, EndTag::BlockQuote).0.quote_depth == 0,
        s.list_stack.len() == 0 ==> end_spec(s, EndTag::List).0.list_stack.len() == 0,
{
    assert(start_spec(s, StartTag::List(first)).list_stack.drop_last() =~= s.list_stack);
}

/// Each inline event outside text adds one segment to the current line:
/// inline code as its text between backticks in the code format, a line
/// break as a newline with no format, and a task marker as a ballot box
/// (checked or not) and a space in the code format; the code being read is
/// left as it is.
pub proof fn law_inline_events(s: PreviewStateView, t: String, checked: bool)
    ensures
        step_spec(s, MdEvent::Code(t)).0.line_segs == s.line_segs.push(
            SegmentView { text: seq!['`'] + t@ + seq!['`'], fmts: code_formats() },
        ),
        step_spec(s, MdEvent::SoftBreak).0.line_segs == s.line_segs.push(
            SegmentView { text: seq!['\n'], fmts: no_formats() },
        ),
        step_spec(s, MdEvent::HardBreak).0.line_segs == s.line_segs.push(
            SegmentView { text: seq!['\n'], fmts: no_formats() },
        ),
        step_spec(s, MdEvent::TaskListMarker(checked)).0.line_segs == s.line_segs.push(
            SegmentView {
                text: seq![if checked { '\u{2611}' } else { '\u{2610}' }, ' '],
                fmts: code_formats(),
            },
        ),
        code_formats().inline_code && !code_formats().bold && !code_formats().italic,
        step_spec(s, MdEvent::Code(t)).0.code_text == s.code_text,
        step_spec(s, MdEvent::Rule).1 == Some(BlockView::Rule),
{
    assert(marker_text(checked) =~= seq![if checked { '\u{2611}' } else { '\u{2610}' }, ' ']);
}

/// One more event: the walk steps once from where the events before it
/// left it.
proof fn lemma_run_push(evs: Seq<MdEvent>, e: MdEvent)
    ensures
        run_spec(evs.push(e)).0 == step_spec(run_spec(evs).0, e).0,
        run_spec(evs.push(e)).1 == match step_spec(run_spec(evs).0, e).1 {
            Some(x) => run_spec(evs).1.push(x),
            None => run_spec(evs).1,
        },
{
    assert(evs.push(e).drop_last() =~= evs);
}

/// The walk over a start tag, a text and an end tag, after any events that
/// leave it outside code.
proof fn lemma_one_text_block(evs: Seq<MdEvent>, start: StartTag, text: String, end: EndTag)
    requires
        !run_spec(evs).0.in_code,
        start is Paragraph || start is Heading || start is Item,
    ensures
        run_spec(evs + seq![MdEvent::Start(start), MdEvent::Text(text), MdEvent::End(end)]).1 == match end_spec(
            push_seg(reset_line(run_spec(evs).0), text@, no_formats()),
            end,
        ).1 {
            Some(x) => run_spec(evs).1.push(x),
            None => run_spec(evs).1,
        },
{
    let e1 = evs.push(MdEvent::Start(start));
    let e2 = e1.push(MdEvent::Text(text));
    let e3 = e2.push(MdEvent::End(end));
    lemma_run_push(evs, MdEvent::Start(start));
    lemma_run_push(e1, MdEvent::Text(text));
    lemma_run_push(e2, MdEvent::End(end));
    assert(run_spec(e1).0 == reset_line(run_spec(evs).0));
    assert(run_spec(e2).0 == push_seg(reset_line(run_spec(evs).0), text@, no_formats()));
    assert(e3 =~= evs + seq![MdEvent::Start(start), MdEvent::Text(text), MdEvent::End(end)]);
}

} // verus!
