//! The markdown preview: the events of the markdown parser, the state that
//! the preview keeps while it walks them, and the blocks that it renders.

use pulldown_cmark::{CodeBlockKind, Event, Options, Parser, Tag, TagEnd};
use vstd::prelude::*;

use crate::text::{all_space, is_blank};

verus! {

/// The inline formats in force for a run of text.
#[derive(Clone, Copy, Debug, PartialEq, Eq, Structural)]
pub struct ActiveFormats {
    pub bold: bool,
    pub italic: bool,
    pub strike: bool,
    pub inline_code: bool,
    pub link: bool,
}

/// No format at all.
pub open spec fn no_formats() -> ActiveFormats {
    ActiveFormats { bold: false, italic: false, strike: false, inline_code: false, link: false }
}

/// The format of inline code and of task list markers.
pub open spec fn code_formats() -> ActiveFormats {
    ActiveFormats { inline_code: true, ..no_formats() }
}

impl Default for ActiveFormats {
    fn default() -> (r: Self)
        ensures
            r == no_formats(),
    {
        ActiveFormats { bold: false, italic: false, strike: false, inline_code: false, link: false }
    }
}

/// A run of text with its formats.
pub struct Segment {
    pub text: String,
    pub fmts: ActiveFormats,
}

/// What a segment holds, as plain values.
pub struct SegmentView {
    pub text: Seq<char>,
    pub fmts: ActiveFormats,
}

impl View for Segment {
    type V = SegmentView;

    open spec fn view(&self) -> SegmentView {
        SegmentView { text: self.text@, fmts: self.fmts }
    }
}

/// The views of a sequence of segments.
pub open spec fn segs_view(v: Seq<Segment>) -> Seq<SegmentView> {
    v.map_values(|s: Segment| s@)
}

/// The tag that an element starts with.
pub enum StartTag {
    Paragraph,
    Heading,
    /// A code block: the language of a fenced block, `None` for an indented one.
    CodeBlock(Option<String>),
    /// A list: the number of its first item when it is ordered.
    List(Option<u64>),
    Item,
    BlockQuote,
    Emphasis,
    Strong,
    Strikethrough,
    Link,
    Other,
}

/// The tag that an element ends with.
pub enum EndTag {
    Paragraph,
    /// A heading, with its level from 1 to 6.
    Heading(u8),
    CodeBlock,
    List,
    Item,
    BlockQuote,
    Emphasis,
    Strong,
    Strikethrough,
    Link,
    Other,
}

/// One event of the markdown parser.
pub enum MdEvent {
    Start(StartTag),
    End(EndTag),
    Text(String),
    Code(String),
    SoftBreak,
    HardBreak,
    Rule,
    TaskListMarker(bool),
    Other,
}

/// A piece of the preview to render, in document order.
pub enum Block {
    /// A paragraph, with the depth of lists and of quotes it stands in.
    Paragraph { segs: Vec<Segment>, list_depth: usize, quote_depth: usize },
    /// A heading and its level.
    Heading { segs: Vec<Segment>, level: u8 },
    /// A code block and its language (empty when it has none).
    CodeBlock { code: String, lang: String },
    /// A list item, with the depth of lists and of quotes it stands in.
    Item { segs: Vec<Segment>, list_depth: usize, quote_depth: usize },
    /// A horizontal rule.
    Rule,
}

/// What a block holds, as plain values.
pub enum BlockView {
    Paragraph { segs: Seq<SegmentView>, list_depth: nat, quote_depth: nat },
    Heading { segs: Seq<SegmentView>, level: u8 },
    CodeBlock { code: Seq<char>, lang: Seq<char> },
    Item { segs: Seq<SegmentView>, list_depth: nat, quote_depth: nat },
    Rule,
}

impl View for Block {
    type V = BlockView;

    open spec fn view(&self) -> BlockView {
        match self {
            Block::Paragraph { segs, list_depth, quote_depth } => BlockView::Paragraph {
                segs: segs_view(segs@),
                list_depth: *list_depth as nat,
                quote_depth: *quote_depth as nat,
            },
            Block::Heading { segs, level } => BlockView::Heading {
                segs: segs_view(segs@),
                level: *level,
            },
            Block::CodeBlock { code, lang } => BlockView::CodeBlock { code: code@, lang: lang@ },
            Block::Item { segs, list_depth, quote_depth } => BlockView::Item {
                segs: segs_view(segs@),
                list_depth: *list_depth as nat,
                quote_depth: *quote_depth as nat,
            },
            Block::Rule => BlockView::Rule,
        }
    }
}

/// The views of a sequence of blocks.
pub open spec fn blocks_view(v: Seq<Block>) -> Seq<BlockView> {
    v.map_values(|b: Block| b@)
}

/// The view of an optional block.
pub open spec fn opt_block_view(b: Option<Block>) -> Option<BlockView> {
    match b {
        Some(x) => Some(x@),
        None => None,
    }
}

/// The state of the walk over the events: the segments of the current line,
/// the formats in force, the code block being read, the open lists (whether
/// each is ordered) and the depth of block quotes.
pub struct PreviewState {
    pub line_segs: Vec<Segment>,
    pub fmts: ActiveFormats,
    pub in_code: bool,
    pub code_text: String,
    pub code_lang: String,
    pub list_stack: Vec<bool>,
    pub quote_depth: usize,
}

/// What the state of the walk holds, as plain values.
pub struct PreviewStateView {
    pub line_segs: Seq<SegmentView>,
    pub fmts: ActiveFormats,
    pub in_code: bool,
    pub code_text: Seq<char>,
    pub code_lang: Seq<char>,
    pub list_stack: Seq<bool>,
    pub quote_depth: nat,
}

impl View for PreviewState {
    type V = PreviewStateView;

    open spec fn view(&self) -> PreviewStateView {
        PreviewStateView {
            line_segs: segs_view(self.line_segs@),
            fmts: self.fmts,
            in_code: self.in_code,
            code_text: self.code_text@,
            code_lang: self.code_lang@,
            list_stack: self.list_stack@,
            quote_depth: self.quote_depth as nat,
        }
    }
}

/// The state before the first event.
pub open spec fn initial_state() -> PreviewStateView {
    PreviewStateView {
        line_segs: seq![],
        fmts: no_formats(),
        in_code: false,
        code_text: seq![],
        code_lang: seq![],
        list_stack: seq![],
        quote_depth: 0,
    }
}

/// The state with an empty current line and no format in force.
pub open spec fn reset_line(s: PreviewStateView) -> PreviewStateView {
    PreviewStateView { line_segs: seq![], fmts: no_formats(), ..s }
}

/// The state with one more segment on the current line.
pub open spec fn push_seg(s: PreviewStateView, text: Seq<char>, fmts: ActiveFormats) -> PreviewStateView {
    PreviewStateView { line_segs: s.line_segs.push(SegmentView { text, fmts }), ..s }
}

/// The state after the start of an element.
pub open spec fn start_spec(s: PreviewStateView, t: StartTag) -> PreviewStateView {
    match t {
        StartTag::Paragraph => reset_line(s),
        StartTag::Heading => reset_line(s),
        StartTag::Item => reset_line(s),
        StartTag::CodeBlock(lang) => PreviewStateView {
            in_code: true,
            code_text: seq![],
            code_lang: match lang {
                Some(l) => l@,
                None => seq![],
            },
            ..s
        },
        StartTag::List(first) => PreviewStateView { list_stack: s.list_stack.push(first is Some), ..s },
        StartTag::BlockQuote => PreviewStateView { quote_depth: s.quote_depth + 1, ..s },
        StartTag::Emphasis => PreviewStateView { fmts: ActiveFormats { italic: true, ..s.fmts }, ..s },
        StartTag::Strong => PreviewStateView { fmts: ActiveFormats { bold: true, ..s.fmts }, ..s },
        StartTag::Strikethrough => PreviewStateView { fmts: ActiveFormats { strike: true, ..s.fmts }, ..s },
        StartTag::Link => PreviewStateView { fmts: ActiveFormats { link: true, ..s.fmts }, ..s },
        StartTag::Other => s,
    }
}

/// The state after the end of an element, and the block that it completes.
pub open spec fn end_spec(s: PreviewStateView, t: EndTag) -> (PreviewStateView, Option<BlockView>) {
    match t {
        EndTag::Paragraph => (
            reset_line(s),
            Some(BlockView::Paragraph {
                segs: s.line_segs,
                list_depth: s.list_stack.len(),
                quote_depth: s.quote_depth,
            }),
        ),
        EndTag::Heading(level) => (reset_line(s), Some(BlockView::Heading { segs: s.line_segs, level })),
        EndTag::CodeBlock => (
            PreviewStateView { in_code: false, ..s },
            Some(BlockView::CodeBlock { code: s.code_text, lang: s.code_lang }),
        ),
        EndTag::List => (
            PreviewStateView {
                list_stack: if s.list_stack.len() > 0 {
                    s.list_stack.drop_last()
                } else {
                    s.list_stack
                },
                ..s
            },
            None,
        ),
        EndTag::Item => (
            reset_line(s),
            Some(BlockView::Item {
                segs: s.line_segs,
                list_depth: s.list_stack.len(),
                quote_depth: s.quote_depth,
            }),
        ),
        EndTag::BlockQuote => (
            PreviewStateView {
                quote_depth: if s.quote_depth > 0 {
                    (s.quote_depth - 1) as nat
                } else {
                    0
                },
                ..s
            },
            None,
        ),
        EndTag::Emphasis => (PreviewStateView { fmts: ActiveFormats { italic: false, ..s.fmts }, ..s }, None),
        EndTag::Strong => (PreviewStateView { fmts: ActiveFormats { bold: false, ..s.fmts }, ..s }, None),
        EndTag::Strikethrough => (PreviewStateView { fmts: ActiveFormats { strike: false, ..s.fmts }, ..s }, None),
        EndTag::Link => (PreviewStateView { fmts: ActiveFormats { link: false, ..s.fmts }, ..s }, None),
        EndTag::Other => (s, None),
    }
}

/// The text of a task list marker: a checked or an empty ballot box and a space.
pub open spec fn marker_text(checked: bool) -> Seq<char> {
    if checked {
        seq!['\u{2611}', ' ']
    } else {
        seq!['\u{2610}', ' ']
    }
}

/// The state after one event, and the block that the event completes.
pub open spec fn step_spec(s: PreviewStateView, e: MdEvent) -> (PreviewStateView, Option<BlockView>) {
    match e {
        MdEvent::Start(t) => (start_spec(s, t), None),
        MdEvent::End(t) => end_spec(s, t),
        MdEvent::Text(t) => (
            if s.in_code {
                PreviewStateView { code_text: s.code_text + t@, ..s }
            } else {
                push_seg(s, t@, s.fmts)
            },
            None,
        ),
        MdEvent::Code(t) => (push_seg(s, seq!['`'] + t@ + seq!['`'], code_formats()), None),
        MdEvent::SoftBreak => (push_seg(s, seq!['\n'], no_formats()), None),
        MdEvent::HardBreak => (push_seg(s, seq!['\n'], no_formats()), None),
        MdEvent::Rule => (s, Some(BlockView::Rule)),
        MdEvent::TaskListMarker(checked) => (push_seg(s, marker_text(checked), code_formats()), None),
        MdEvent::Other => (s, None),
    }
}

/// The state after a sequence of events from the initial state, and the
/// blocks that they complete, in order.
pub open spec fn run_spec(evs: Seq<MdEvent>) -> (PreviewStateView, Seq<BlockView>)
    decreases evs.len(),
{
    if evs.len() == 0 {
        (initial_state(), seq![])
    } else {
        let (s, bs) = run_spec(evs.drop_last());
        let (s2, b) = step_spec(s, evs.last());
        (
            s2,
            match b {
                Some(x) => bs.push(x),
                None => bs,
            },
        )
    }
}

/// The blocks that a sequence of events renders to.
pub open spec fn blocks_of(evs: Seq<MdEvent>) -> Seq<BlockView> {
    run_spec(evs).1
}

/// An event of pulldown-cmark's parser.
#[verifier::external_type_specification]
#[verifier::external_body]
pub struct ExEvent<'a>(Event<'a>);

/// The tag that pulldown-cmark gives the start of an element.
#[verifier::external_type_specification]
#[verifier::external_body]
pub struct ExTag<'a>(Tag<'a>);

/// The tag that pulldown-cmark gives the end of an element.
#[verifier::external_type_specification]
#[verifier::external_body]
pub struct ExTagEnd(TagEnd);

/// The events, each taken as an `MdEvent`, that pulldown-cmark's parser
/// yields for `text` with tables, strikethrough, task lists and heading
/// attributes switched on.
pub uninterp spec fn markdown_events(text: Seq<char>) -> Seq<MdEvent>;

/// Takes a start tag of pulldown-cmark as a `StartTag`, variant for variant;
/// the tags that the preview does not tell apart become `Other`.
#[verifier::external_body]
fn convert_start(tag: Tag) -> StartTag {
    match tag {
        Tag::Paragraph => StartTag::Paragraph,
        Tag::Heading { .. } => StartTag::Heading,
        Tag::CodeBlock(CodeBlockKind::Fenced(lang)) => StartTag::CodeBlock(Some(lang.to_string())),
        Tag::CodeBlock(CodeBlockKind::Indented) => StartTag::CodeBlock(None),
        Tag::List(first) => StartTag::List(first),
        Tag::Item => StartTag::Item,
        Tag::BlockQuote(_) => StartTag::BlockQuote,
        Tag::Emphasis => StartTag::Emphasis,
        Tag::Strong => StartTag::Strong,
        Tag::Strikethrough => StartTag::Strikethrough,
        Tag::Link { .. } => StartTag::Link,
        _ => StartTag::Other,
    }
}

/// Takes an end tag of pulldown-cmark as an `EndTag`, variant for variant;
/// a heading level becomes its number.
#[verifier::external_body]
fn convert_end(tag: TagEnd) -> EndTag {
    match tag {
        TagEnd::Paragraph => EndTag::Paragraph,
        TagEnd::Heading(level) => EndTag::Heading(level as u8),
        TagEnd::CodeBlock => EndTag::CodeBlock,
        TagEnd::List(_) => EndTag::List,
        TagEnd::Item => EndTag::Item,
        TagEnd::BlockQuote(_) => EndTag::BlockQuote,
        TagEnd::Emphasis => EndTag::Emphasis,
        TagEnd::Strong => EndTag::Strong,
        TagEnd::Strikethrough => EndTag::Strikethrough,
        TagEnd::Link => EndTag::Link,
        _ => EndTag::Other,
    }
}

/// Takes an event of pulldown-cmark as an `MdEvent`, variant for variant.
#[verifier::external_body]
fn convert_event(event: Event) -> MdEvent {
    match event {
        Event::Start(tag) => MdEvent::Start(convert_start(tag)),
        Event::End(tag) => MdEvent::End(convert_end(tag)),
        Event::Text(t) => MdEvent::Text(t.to_string()),
        Event::Code(t) => MdEvent::Code(t.to_string()),
        Event::SoftBreak => MdEvent::SoftBreak,
        Event::HardBreak => MdEvent::HardBreak,
        Event::Rule => MdEvent::Rule,
        Event::TaskListMarker(checked) => MdEvent::TaskListMarker(checked),
        _ => MdEvent::Other,
    }
}

/// Runs pulldown-cmark's `Parser::new_ext` over `text` with tables,
/// strikethrough, task lists and heading attributes, and collects its
/// events. The contract claims only that the result is the one that
/// `markdown_events` names, a function of the text alone.
#[verifier::external_body]
fn parse_markdown(text: &str) -> (events: Vec<MdEvent>)
    ensures
        events@ == markdown_events(text@),
{
    let opts = Options::ENABLE_TABLES | Options::ENABLE_STRIKETHROUGH | Options::ENABLE_TASKLISTS
        | Options::ENABLE_HEADING_ATTRIBUTES;
    Parser::new_ext(text, opts).map(convert_event).collect()
}

/// A copy of a string.
fn copy_string(s: &String) -> (r: String)
    ensures
        r@ == s@,
{
    s.clone()
}

impl PreviewState {
    /// The state before the first event.
    pub fn new() -> (s: Self)
        ensures
            s@ == initial_state(),
    {
        let s = PreviewState {
            line_segs: Vec::new(),
            fmts: ActiveFormats::default(),
            in_code: false,
            code_text: String::new(),
            code_lang: String::new(),
            list_stack: Vec::new(),
            quote_depth: 0,
        };
        assert(segs_view(s.line_segs@) =~= seq![]);
        s
    }

    /// Empties the current line and hands back its segments.
    fn take_line(&mut self) -> (segs: Vec<Segment>)
        ensures
            segs@ == old(self).line_segs@,
            final(self)@ == reset_line(old(self)@),
    {
        let mut segs: Vec<Segment> = Vec::new();
        std::mem::swap(&mut segs, &mut self.line_segs);
        self.fmts = ActiveFormats::default();
        assert(segs_view(self.line_segs@) =~= seq![]);
        segs
    }

    /// Adds a segment to the current line.
    fn push_segment(&mut self, text: String, fmts: ActiveFormats)
        ensures
            final(self)@ == push_seg(old(self)@, text@, fmts),
    {
        let ghost old_segs = self.line_segs@;
        self.line_segs.push(Segment { text, fmts });
        assert(segs_view(self.line_segs@) =~= segs_view(old_segs).push(SegmentView { text: text@, fmts }));
    }

    /// Takes in the start of an element.
    fn start(&mut self, t: &StartTag)
        requires
            old(self).quote_depth < usize::MAX,
        ensures
            final(self)@ == start_spec(old(self)@, *t),
    {
        match t {
            StartTag::Paragraph | StartTag::Heading | StartTag::Item => {
                let _ = self.take_line();
            },
            StartTag::CodeBlock(lang) => {
                self.in_code = true;
                self.code_text = String::new();
                self.code_lang = match lang {
                    Some(l) => copy_string(l),
                    None => String::new(),
                };
            },
            StartTag::List(first) => {
                self.list_stack.push(first.is_some());
            },
            StartTag::BlockQuote => {
                self.quote_depth = self.quote_depth + 1;
            },
            StartTag::Emphasis => {
                self.fmts.italic = true;
            },
            StartTag::Strong => {
                self.fmts.bold = true;
            },
            StartTag::Strikethrough => {
                self.fmts.strike = true;
            },
            StartTag::Link => {
                self.fmts.link = true;
            },
            StartTag::Other => {},
        }
    }

    /// Takes in the end of an element, and hands back the block it completes.
    fn end(&mut self, t: &EndTag) -> (b: Option<Block>)
        ensures
            (final(self)@, opt_block_view(b)) == end_spec(old(self)@, *t),
    {
        match t {
            EndTag::Paragraph => {
                let list_depth = self.list_stack.len();
                let quote_depth = self.quote_depth;
                let segs = self.take_line();
                Some(Block::Paragraph { segs, list_depth, quote_depth })
            },
            EndTag::Heading(level) => {
                let segs = self.take_line();
                Some(Block::Heading { segs, level: *level })
            },
            EndTag::CodeBlock => {
                self.in_code = false;
                Some(Block::CodeBlock { code: copy_string(&self.code_text), lang: copy_string(&self.code_lang) })
            },
            EndTag::List => {
                let _ = self.list_stack.pop();
                None
            },
            EndTag::Item => {
                let list_depth = self.list_stack.len();
                let quote_depth = self.quote_depth;
                let segs = self.take_line();
                Some(Block::Item { segs, list_depth, quote_depth })
            },
            EndTag::BlockQuote => {
                if self.quote_depth > 0 {
                    self.quote_depth = self.quote_depth - 1;
                }
                None
            },
            EndTag::Emphasis => {
                self.fmts.italic = false;
                None
            },
            EndTag::Strong => {
                self.fmts.bold = false;
                None
            },
            EndTag::Strikethrough => {
                self.fmts.strike = false;
                None
            },
            EndTag::Link => {
                self.fmts.link = false;
                None
            },
            EndTag::Other => None,
        }
    }

    /// Takes in one event, and hands back the block it completes.
    pub fn step(&mut self, e: &MdEvent) -> (b: Option<Block>)
        requires
            old(self).quote_depth < usize::MAX,
        ensures
            (final(self)@, opt_block_view(b)) == step_spec(old(self)@, *e),
    {
        match e {
            MdEvent::Start(t) => {
                self.start(t);
                None
            },
            MdEvent::End(t) => self.end(t),
            MdEvent::Text(t) => {
                if self.in_code {
                    self.code_text.append(t.as_str());
                } else {
                    let fmts = self.fmts;
                    self.push_segment(copy_string(t), fmts);
                }
                None
            },
            MdEvent::Code(t) => {
                let tick = "`";
                proof {
                    reveal_strlit("`");
                }
                let text = String::from_str(tick).concat(t.as_str()).concat(tick);
                assert(text@ =~= seq!['`'] + t@ + seq!['`']);
                self.push_segment(text, ActiveFormats { inline_code: true, ..ActiveFormats::default() });
                None
            },
            MdEvent::SoftBreak | MdEvent::HardBreak => {
                let nl = "\n";
                proof {
                    reveal_strlit("\n");
                }
                let text = String::from_str(nl);
                assert(text@ =~= seq!['\n']);
                self.push_segment(text, ActiveFormats::default());
                None
            },
            MdEvent::Rule => Some(Block::Rule),
            MdEvent::TaskListMarker(checked) => {
                let marker = if *checked {
                    let m = "\u{2611} ";
                    proof {
                        reveal_strlit("\u{2611} ");
                    }
                    m
                } else {
                    let m = "\u{2610} ";
                    proof {
                        reveal_strlit("\u{2610} ");
                    }
                    m
                };
                let text = String::from_str(marker);
                assert(text@ =~= marker_text(*checked));
                self.push_segment(text, ActiveFormats { inline_code: true, ..ActiveFormats::default() });
                None
            },
            MdEvent::Other => None,
        }
    }
}

/// The blocks that the preview renders for a sequence of parser events.
pub fn blocks_from_events(events: &Vec<MdEvent>) -> (bs: Vec<Block>)
    ensures
        blocks_view(bs@) == blocks_of(events@),
{
    let mut state = PreviewState::new();
    let mut bs: Vec<Block> = Vec::new();
    let mut i: usize = 0;
    while i < events.len()
        invariant
            i <= events.len(),
            state@ == run_spec(events@.take(i as int)).0,
            blocks_view(bs@) == run_spec(events@.take(i as int)).1,
            state.quote_depth <= i,
        decreases events.len() - i,
    {
        let ghost prefix = events@.take(i as int);
        let ghost next = events@.take(i + 1);
        assert(next.drop_last() =~= prefix);
        assert(next.last() == events@[i as int]);
        let ghost old_bs = bs@;
        match state.step(&events[i]) {
            Some(b) => {
                bs.push(b);
                assert(blocks_view(bs@) =~= blocks_view(old_bs).push(b@));
            },
            None => {},
        }
        i = i + 1;
    }
    assert(events@.take(events.len() as int) =~= events@);
    bs
}

/// The blocks that the preview renders for `markdown`, in document order.
pub fn preview_blocks(markdown: &str) -> (bs: Vec<Block>)
    ensures
        blocks_view(bs@) == blocks_of(markdown_events(markdown@)),
{
    let events = parse_markdown(markdown);
    blocks_from_events(&events)
}

/// Whether a segment is a line break.
pub open spec fn is_break(s: SegmentView) -> bool {
    s.text == seq!['\n']
}

/// Walks the segments from the first: the finished lines, and the segments
/// of the line not yet finished. A break finishes the line, which is kept
/// only when it holds a segment.
pub open spec fn split_acc(segs: Seq<SegmentView>) -> (Seq<Seq<SegmentView>>, Seq<SegmentView>)
    decreases segs.len(),
{
    if segs.len() == 0 {
        (seq![], seq![])
    } else {
        let (done, cur) = split_acc(segs.drop_last());
        if is_break(segs.last()) {
            (
                if cur.len() > 0 {
                    done.push(cur)
                } else {
                    done
                },
                seq![],
            )
        } else {
            (done, cur.push(segs.last()))
        }
    }
}

/// The lines that a run of segments shows: the segments between breaks,
/// without the breaks and without empty lines.
pub open spec fn line_pieces(segs: Seq<SegmentView>) -> Seq<Seq<SegmentView>> {
    let (done, cur) = split_acc(segs);
    if cur.len() > 0 {
        done.push(cur)
    } else {
        done
    }
}

/// The views of a sequence of lines of segments.
pub open spec fn pieces_view(v: Seq<Vec<Segment>>) -> Seq<Seq<SegmentView>> {
    v.map_values(|p: Vec<Segment>| segs_view(p@))
}

/// Whether a segment is a line break.
pub fn segment_is_break(seg: &Segment) -> (b: bool)
    ensures
        b == is_break(seg@),
{
    let t = seg.text.as_str();
    if t.unicode_len() == 1 {
        let c = t.get_char(0);
        assert(c == '\n' ==> t@ =~= seq!['\n']);
        c == '\n'
    } else {
        false
    }
}

/// A copy of a segment.
fn copy_segment(seg: &Segment) -> (r: Segment)
    ensures
        r@ == seg@,
{
    Segment { text: copy_string(&seg.text), fmts: seg.fmts }
}

/// Splits a run of segments into the lines that the preview renders one
/// label each.
pub fn split_lines(segs: &Vec<Segment>) -> (lines: Vec<Vec<Segment>>)
    ensures
        pieces_view(lines@) == line_pieces(segs_view(segs@)),
{
    let ghost sv = segs_view(segs@);
    let mut done: Vec<Vec<Segment>> = Vec::new();
    let mut cur: Vec<Segment> = Vec::new();
    let mut i: usize = 0;
    while i < segs.len()
        invariant
            i <= segs.len(),
            sv == segs_view(segs@),
            pieces_view(done@) == split_acc(sv.take(i as int)).0,
            segs_view(cur@) == split_acc(sv.take(i as int)).1,
        decreases segs.len() - i,
    {
        let ghost next = sv.take(i + 1);
        assert(next.drop_last() =~= sv.take(i as int));
        assert(next.last() == segs@[i as int]@);
        if segment_is_break(&segs[i]) {
            if cur.len() > 0 {
                let mut line: Vec<Segment> = Vec::new();
                std::mem::swap(&mut line, &mut cur);
                let ghost old_done = done@;
                done.push(line);
                assert(pieces_view(done@) =~= pieces_view(old_done).push(segs_view(line@)));
            }
            assert(segs_view(cur@) =~= seq![]);
        } else {
            let ghost old_cur = cur@;
            cur.push(copy_segment(&segs[i]));
            assert(segs_view(cur@) =~= segs_view(old_cur).push(segs@[i as int]@));
        }
        i = i + 1;
    }
    assert(sv.take(segs.len() as int) =~= sv);
    if cur.len() > 0 {
        let ghost old_done = done@;
        done.push(cur);
        assert(pieces_view(done@) =~= pieces_view(old_done).push(segs_view(cur@)));
    }
    done
}

/// Whether a paragraph shows nothing: no segment, or one segment of white
/// space only.
pub open spec fn blank_line(segs: Seq<SegmentView>) -> bool {
    segs.len() == 0 || (segs.len() == 1 && all_space(segs[0].text))
}

/// Whether a run of segments shows nothing, so that only a gap is rendered
/// for it.
pub fn is_blank_line(segs: &Vec<Segment>) -> (b: bool)
    ensures
        b == blank_line(segs_view(segs@)),
{
    if segs.len() == 0 {
        true
    } else if segs.len() == 1 {
        is_blank(segs[0].text.as_str())
    } else {
        false
    }
}

/// The point size of a heading of the given level.
pub open spec fn heading_size_of(level: u8) -> u32 {
    if level == 1 {
        24
    } else if level == 2 {
        20
    } else if level == 3 {
        17
    } else if level == 4 {
        15
    } else {
        14
    }
}

/// The point size of a heading of the given level.
pub fn heading_size(level: u8) -> (size: u32)
    ensures
        size == heading_size_of(level),
{
    if level == 1 {
        24
    } else if level == 2 {
        20
    } else if level == 3 {
        17
    } else if level == 4 {
        15
    } else {
        14
    }
}

/// The gaps before and after a heading of the given level.
pub fn heading_gaps(level: u8) -> (gaps: (u32, u32))
    ensures
        gaps == (if level == 1 { (12u32, 4u32) } else { (8u32, 2u32) }),
{
    if level == 1 {
        (12, 4)
    } else {
        (8, 2)
    }
}

/// How a line of a paragraph or an item is laid out.
#[derive(Clone, Copy, Debug, PartialEq, Eq, Structural)]
pub enum LineKind {
    /// A list entry: spaces of indent, then a bullet.
    Bullet { indent: usize },
    /// A line in a block quote.
    Quote,
    /// A plain line.
    Plain,
}

/// The layout of a line at the given depth of lists and of quotes: inside a
/// list a bullet with 16 spaces for each level below the first (as many as
/// fit in a `usize`), else a quote frame inside a quote, else plain.
pub open spec fn line_kind_of(list_depth: nat, quote_depth: nat) -> LineKind {
    if list_depth > 0 {
        let spaces = (list_depth - 1) * 16;
        LineKind::Bullet {
            indent: if spaces <= usize::MAX {
                spaces as usize
            } else {
                usize::MAX
            },
        }
    } else if quote_depth > 0 {
        LineKind::Quote
    } else {
        LineKind::Plain
    }
}

/// The layout of a line at the given depth of lists and of quotes.
pub fn line_kind(list_depth: usize, quote_depth: usize) -> (k: LineKind)
    ensures
        k == line_kind_of(list_depth as nat, quote_depth as nat),
{
    if list_depth > 0 {
        let levels = list_depth - 1;
        let indent = if levels <= usize::MAX / 16 {
            levels * 16
        } else {
            usize::MAX
        };
        LineKind::Bullet { indent }
    } else if quote_depth > 0 {
        LineKind::Quote
    } else {
        LineKind::Plain
    }
}

/// The font family of a run of text.
#[derive(Clone, Copy, Debug, PartialEq, Eq, Structural)]
pub enum FontKind {
    Bold,
    Monospace,
    Proportional,
}

/// The font family of a run of text: bold wins over inline code, which
/// wins over the plain proportional font.
pub open spec fn font_of(fmts: ActiveFormats) -> FontKind {
    if fmts.bold {
        FontKind::Bold
    } else if fmts.inline_code {
        FontKind::Monospace
    } else {
        FontKind::Proportional
    }
}

/// The font family of a run of text.
pub fn font_for(fmts: ActiveFormats) -> (f: FontKind)
    ensures
        f == font_of(fmts),
{
    if fmts.bold {
        FontKind::Bold
    } else if fmts.inline_code {
        FontKind::Monospace
    } else {
        FontKind::Proportional
    }
}

/// How a run of text is drawn: its font family, whether it takes the link
/// color (else the text color), whether it is italic, underlined or struck
/// through.
#[derive(Clone, Copy, Debug, PartialEq, Eq, Structural)]
pub struct SegmentStyle {
    pub font: FontKind,
    pub link_color: bool,
    pub italic: bool,
    pub underline: bool,
    pub strikethrough: bool,
}

/// How a run of text is drawn: links take the link color and an underline,
/// italic text is italic, struck text is struck through.
pub open spec fn segment_style_of(fmts: ActiveFormats) -> SegmentStyle {
    SegmentStyle {
        font: font_of(fmts),
        link_color: fmts.link,
        italic: fmts.italic,
        underline: fmts.link,
        strikethrough: fmts.strike,
    }
}

/// How a run of text is drawn.
pub fn segment_style(fmts: ActiveFormats) -> (style: SegmentStyle)
    ensures
        style == segment_style_of(fmts),
{
    SegmentStyle {
        font: font_for(fmts),
        link_color: fmts.link,
        italic: fmts.italic,
        underline: fmts.link,
        strikethrough: fmts.strike,
    }
}

/// How a heading is drawn: its point size, the gaps before and after it, and
/// its lines.
pub struct HeadingLayout {
    pub size: u32,
    pub before: u32,
    pub after: u32,
    pub lines: Vec<Vec<Segment>>,
}

/// How a heading of the given level is drawn; a heading with no segment is
/// not drawn at all.
pub fn heading_layout(segs: &Vec<Segment>, level: u8) -> (layout: Option<HeadingLayout>)
    ensures
        segs@.len() == 0 <==> layout is None,
        layout matches Some(h) ==> {
            &&& h.size == heading_size_of(level)
            &&& (h.before, h.after) == (if level == 1 { (12u32, 4u32) } else { (8u32, 2u32) })
            &&& pieces_view(h.lines@) == line_pieces(segs_view(segs@))
        },
{
    if segs.len() == 0 {
        return None;
    }
    let (before, after) = heading_gaps(level);
    Some(HeadingLayout { size: heading_size(level), before, after, lines: split_lines(segs) })
}

} // verus!
