//! Markdown parsing into a small block/inline tree.
//!
//! `pulldown-cmark` tokenizes the text into events; the fold of those events
//! into paragraphs, headings, code blocks and lists is verified here.

use pulldown_cmark::{CodeBlockKind, Event, Parser, Tag, TagEnd};
use vstd::prelude::*;

verus! {

/// Represents a parsed Markdown block.
#[derive(Debug, PartialEq)]
pub enum MarkdownBlock {
    /// A paragraph of text.
    Paragraph(Vec<Inline>),
    /// An ATX heading. Levels 4–6 are stored as 3.
    Heading {
        /// Heading level from 1 to 3.
        level: u8,
        /// Inline content of the heading.
        inlines: Vec<Inline>,
    },
    /// A fenced code block.
    CodeBlock {
        /// Optional language label.
        language: Option<String>,
        /// The raw code content.
        content: String,
    },
    /// A bulleted list.
    List(Vec<ListItem>),
}

/// Represents a list item.
#[derive(Debug, PartialEq)]
pub struct ListItem {
    /// Inlines within the list item.
    pub inlines: Vec<Inline>,
}

/// Represents an inline Markdown element.
#[derive(Debug, PartialEq)]
pub enum Inline {
    /// Plain text.
    Text(String),
    /// Inline code segment.
    Code(String),
    /// Strong (bold) span. Nested inlines keep inner marks.
    Strong(Vec<Inline>),
    /// Emphasis (italic) span. Nested inlines keep inner marks.
    Emphasis(Vec<Inline>),
    /// A hyperlink. Nested inlines are the visible text.
    Link {
        /// Visible link text.
        text: Vec<Inline>,
        /// Destination URL.
        href: String,
    },
}

/// Mathematical view of an [`Inline`].
pub enum InlineView {
    /// Plain text.
    Text(Seq<char>),
    /// Inline code.
    Code(Seq<char>),
    /// Strong span.
    Strong(Seq<InlineView>),
    /// Emphasis span.
    Emphasis(Seq<InlineView>),
    /// Link with visible text and destination.
    Link(Seq<InlineView>, Seq<char>),
}

/// View of one inline.
pub open spec fn inline_view(i: Inline) -> InlineView
    decreases i,
{
    match i {
        Inline::Text(s) => InlineView::Text(s@),
        Inline::Code(s) => InlineView::Code(s@),
        Inline::Strong(v) => {
            proof {
                assert(decreases_to!(v => v@));
            }
            InlineView::Strong(inlines_view(v@))
        },
        Inline::Emphasis(v) => {
            proof {
                assert(decreases_to!(v => v@));
            }
            InlineView::Emphasis(inlines_view(v@))
        },
        Inline::Link { text, href } => {
            proof {
                assert(decreases_to!(text => text@));
            }
            InlineView::Link(inlines_view(text@), href@)
        },
    }
}

/// Views of a sequence of inlines.
pub open spec fn inlines_view(v: Seq<Inline>) -> Seq<InlineView>
    decreases v,
{
    if v.len() == 0 {
        Seq::empty()
    } else {
        proof {
            assert(v.drop_last() =~= v.subrange(0, v.len() - 1));
            assert(decreases_to!(v => v.subrange(0, v.len() - 1)));
            assert(decreases_to!(v => v[v.len() - 1]));
        }
        inlines_view(v.drop_last()).push(inline_view(v[v.len() - 1]))
    }
}

/// Mathematical view of a [`MarkdownBlock`].
pub enum BlockView {
    /// Paragraph.
    Paragraph(Seq<InlineView>),
    /// Heading with level and inlines.
    Heading(u8, Seq<InlineView>),
    /// Code block with language and content.
    CodeBlock(Option<Seq<char>>, Seq<char>),
    /// List of item inlines.
    List(Seq<Seq<InlineView>>),
}

/// Views of list items.
pub open spec fn items_view(v: Seq<ListItem>) -> Seq<Seq<InlineView>> {
    v.map_values(|it: ListItem| inlines_view(it.inlines@))
}

/// Characters of an optional string.
pub open spec fn opt_text(o: Option<String>) -> Option<Seq<char>> {
    match o {
        Some(s) => Some(s@),
        None => None,
    }
}

/// View of one block.
pub open spec fn block_view(b: MarkdownBlock) -> BlockView {
    match b {
        MarkdownBlock::Paragraph(v) => BlockView::Paragraph(inlines_view(v@)),
        MarkdownBlock::Heading { level, inlines } => BlockView::Heading(level, inlines_view(inlines@)),
        MarkdownBlock::CodeBlock { language, content } => BlockView::CodeBlock(
            opt_text(language),
            content@,
        ),
        MarkdownBlock::List(items) => BlockView::List(items_view(items@)),
    }
}

/// Views of a sequence of blocks.
pub open spec fn blocks_view(v: Seq<MarkdownBlock>) -> Seq<BlockView> {
    v.map_values(|b: MarkdownBlock| block_view(b))
}

/// The `pulldown-cmark` events the block fold reads, as plain values.
#[derive(Debug, Clone, PartialEq, Eq)]
pub enum MdEvent {
    /// Start of a list.
    StartList,
    /// Start of a list item.
    StartItem,
    /// Start of a paragraph.
    StartParagraph,
    /// Start of a heading of the given level (1–6).
    StartHeading(u8),
    /// Start of a code block: the fence's language text, or `None` when indented.
    StartCodeBlock(Option<String>),
    /// Start of strong emphasis.
    StartStrong,
    /// Start of emphasis.
    StartEmphasis,
    /// Start of a link to the given destination.
    StartLink(String),
    /// Text.
    Text(String),
    /// Inline code.
    Code(String),
    /// End of a paragraph.
    EndParagraph,
    /// End of a heading.
    EndHeading,
    /// End of a code block.
    EndCodeBlock,
    /// End of a list item.
    EndItem,
    /// End of a list.
    EndList,
    /// End of strong emphasis.
    EndStrong,
    /// End of emphasis.
    EndEmphasis,
    /// End of a link.
    EndLink,
    /// Any other event.
    Other,
}

/// Mathematical view of an [`MdEvent`].
pub enum MdEventView {
    /// Start of a list.
    StartList,
    /// Start of a list item.
    StartItem,
    /// Start of a paragraph.
    StartParagraph,
    /// Start of a heading.
    StartHeading(u8),
    /// Start of a code block.
    StartCodeBlock(Option<Seq<char>>),
    /// Start of strong emphasis.
    StartStrong,
    /// Start of emphasis.
    StartEmphasis,
    /// Start of a link.
    StartLink(Seq<char>),
    /// Text.
    Text(Seq<char>),
    /// Inline code.
    Code(Seq<char>),
    /// End of a paragraph.
    EndParagraph,
    /// End of a heading.
    EndHeading,
    /// End of a code block.
    EndCodeBlock,
    /// End of a list item.
    EndItem,
    /// End of a list.
    EndList,
    /// End of strong emphasis.
    EndStrong,
    /// End of emphasis.
    EndEmphasis,
    /// End of a link.
    EndLink,
    /// Any other event.
    Other,
}

impl View for MdEvent {
    type V = MdEventView;

    open spec fn view(&self) -> MdEventView {
        match self {
            MdEvent::StartList => MdEventView::StartList,
            MdEvent::StartItem => MdEventView::StartItem,
            MdEvent::StartParagraph => MdEventView::StartParagraph,
            MdEvent::StartHeading(l) => MdEventView::StartHeading(*l),
            MdEvent::StartCodeBlock(lang) => MdEventView::StartCodeBlock(opt_text(*lang)),
            MdEvent::StartStrong => MdEventView::StartStrong,
            MdEvent::StartEmphasis => MdEventView::StartEmphasis,
            MdEvent::StartLink(d) => MdEventView::StartLink(d@),
            MdEvent::Text(t) => MdEventView::Text(t@),
            MdEvent::Code(c) => MdEventView::Code(c@),
            MdEvent::EndParagraph => MdEventView::EndParagraph,
            MdEvent::EndHeading => MdEventView::EndHeading,
            MdEvent::EndCodeBlock => MdEventView::EndCodeBlock,
            MdEvent::EndItem => MdEventView::EndItem,
            MdEvent::EndList => MdEventView::EndList,
            MdEvent::EndStrong => MdEventView::EndStrong,
            MdEvent::EndEmphasis => MdEventView::EndEmphasis,
            MdEvent::EndLink => MdEventView::EndLink,
            MdEvent::Other => MdEventView::Other,
        }
    }
}

/// Views of a sequence of events.
pub open spec fn events_view(v: Seq<MdEvent>) -> Seq<MdEventView> {
    v.map_values(|e: MdEvent| e@)
}

#[verifier::external_type_specification]
#[verifier::external_body]
pub struct ExEvent<'a>(Event<'a>);

#[verifier::external_type_specification]
#[verifier::external_body]
pub struct ExTag<'a>(Tag<'a>);

#[verifier::external_type_specification]
#[verifier::external_body]
pub struct ExTagEnd(TagEnd);

/// The events `pulldown_cmark::Parser::new` yields for `text` (no extensions),
/// restricted to the kinds in [`MdEvent`].
pub uninterp spec fn markdown_event_stream(text: Seq<char>) -> Seq<MdEventView>;

/// Converts a `pulldown_cmark::Tag` that starts an element, one variant each.
#[verifier::external_body]
fn md_start(tag: Tag<'_>) -> MdEvent {
    match tag {
        Tag::List(_) => MdEvent::StartList,
        Tag::Item => MdEvent::StartItem,
        Tag::Paragraph => MdEvent::StartParagraph,
        Tag::Heading { level, .. } => MdEvent::StartHeading(level as u8),
        Tag::CodeBlock(CodeBlockKind::Fenced(lang)) => MdEvent::StartCodeBlock(Some(lang.into_string())),
        Tag::CodeBlock(CodeBlockKind::Indented) => MdEvent::StartCodeBlock(None),
        Tag::Strong => MdEvent::StartStrong,
        Tag::Emphasis => MdEvent::StartEmphasis,
        Tag::Link { dest_url, .. } => MdEvent::StartLink(dest_url.into_string()),
        _ => MdEvent::Other,
    }
}

/// Converts a `pulldown_cmark::TagEnd`, one variant each.
#[verifier::external_body]
fn md_end(tag: TagEnd) -> MdEvent {
    match tag {
        TagEnd::Paragraph => MdEvent::EndParagraph,
        TagEnd::Heading(_) => MdEvent::EndHeading,
        TagEnd::CodeBlock => MdEvent::EndCodeBlock,
        TagEnd::Item => MdEvent::EndItem,
        TagEnd::List(_) => MdEvent::EndList,
        TagEnd::Strong => MdEvent::EndStrong,
        TagEnd::Emphasis => MdEvent::EndEmphasis,
        TagEnd::Link => MdEvent::EndLink,
        _ => MdEvent::Other,
    }
}

/// Converts a `pulldown_cmark::Event`, one variant each.
#[verifier::external_body]
fn md_event(e: Event<'_>) -> MdEvent {
    match e {
        Event::Start(tag) => md_start(tag),
        Event::End(tag) => md_end(tag),
        Event::Text(t) => MdEvent::Text(t.into_string()),
        Event::Code(c) => MdEvent::Code(c.into_string()),
        _ => MdEvent::Other,
    }
}

/// Runs `pulldown_cmark::Parser::new` over `text` and converts each event;
/// the contract names the converted stream `markdown_event_stream` of the text.
#[verifier::external_body]
fn markdown_events(text: &str) -> (r: Vec<MdEvent>)
    ensures
        events_view(r@) == markdown_event_stream(text@),
{
    let mut out = Vec::new();
    for e in Parser::new(text) {
        out.push(md_event(e));
    }
    out
}

/// State of the event fold.
pub struct FoldView {
    /// Blocks emitted so far.
    pub blocks: Seq<BlockView>,
    /// Open inline containers, innermost last.
    pub stack: Seq<Seq<InlineView>>,
    /// Destinations of the open links, innermost last.
    pub hrefs: Seq<Seq<char>>,
    /// Inside a code block.
    pub in_code: bool,
    /// Language of the open code block.
    pub lang: Option<Seq<char>>,
    /// Code text collected so far.
    pub code: Seq<char>,
    /// Inside a list item.
    pub in_item: bool,
    /// Items of the open list.
    pub items: Seq<Seq<InlineView>>,
    /// Level of the open heading.
    pub heading: Option<u8>,
}

/// Fold state before the first event.
pub open spec fn fold_start() -> FoldView {
    FoldView {
        blocks: Seq::empty(),
        stack: seq![Seq::empty()],
        hrefs: Seq::empty(),
        in_code: false,
        lang: None,
        code: Seq::empty(),
        in_item: false,
        items: Seq::empty(),
        heading: None,
    }
}

/// All open containers' inlines, outermost first.
pub open spec fn flatten(stack: Seq<Seq<InlineView>>) -> Seq<InlineView>
    decreases stack.len(),
{
    if stack.len() == 0 {
        Seq::empty()
    } else {
        flatten(stack.drop_last()) + stack.last()
    }
}

/// `x` added to the innermost container.
pub open spec fn push_to(stack: Seq<Seq<InlineView>>, x: InlineView) -> Seq<Seq<InlineView>> {
    if stack.len() > 0 {
        stack.update(stack.len() - 1, stack.last().push(x))
    } else {
        seq![seq![x]]
    }
}

/// The innermost container's inlines (none at the root) and the stack without it.
pub open spec fn popped(stack: Seq<Seq<InlineView>>) -> (Seq<Seq<InlineView>>, Seq<InlineView>) {
    if stack.len() <= 1 {
        (stack, Seq::empty())
    } else {
        (stack.drop_last(), stack.last())
    }
}

/// Heading levels 4–6 are shown as 3.
pub open spec fn clamp_level(level: u8) -> u8 {
    if level < 3 {
        level
    } else {
        3
    }
}

/// Fold state after one event.
pub open spec fn fold_step(st: FoldView, ev: MdEventView) -> FoldView {
    match ev {
        MdEventView::StartList => FoldView { items: Seq::empty(), ..st },
        MdEventView::StartItem => FoldView { in_item: true, stack: seq![Seq::empty()], ..st },
        MdEventView::StartParagraph => if st.in_item {
            st
        } else {
            FoldView { stack: seq![Seq::empty()], ..st }
        },
        MdEventView::StartHeading(l) => FoldView {
            stack: seq![Seq::empty()],
            heading: Some(clamp_level(l)),
            ..st
        },
        MdEventView::StartCodeBlock(k) => FoldView {
            in_code: true,
            code: Seq::empty(),
            lang: match k {
                Some(l) => if l.len() > 0 {
                    Some(l)
                } else {
                    None
                },
                None => None,
            },
            ..st
        },
        MdEventView::StartStrong => FoldView { stack: st.stack.push(Seq::empty()), ..st },
        MdEventView::StartEmphasis => FoldView { stack: st.stack.push(Seq::empty()), ..st },
        MdEventView::StartLink(d) => FoldView {
            hrefs: st.hrefs.push(d),
            stack: st.stack.push(Seq::empty()),
            ..st
        },
        MdEventView::Text(t) => if st.in_code {
            FoldView { code: st.code + t, ..st }
        } else {
            FoldView { stack: push_to(st.stack, InlineView::Text(t)), ..st }
        },
        MdEventView::Code(c) => FoldView { stack: push_to(st.stack, InlineView::Code(c)), ..st },
        MdEventView::EndParagraph => if st.in_item {
            st
        } else {
            FoldView {
                blocks: st.blocks.push(BlockView::Paragraph(flatten(st.stack))),
                stack: seq![Seq::empty()],
                ..st
            }
        },
        MdEventView::EndHeading => FoldView {
            blocks: st.blocks.push(
                BlockView::Heading(
                    match st.heading {
                        Some(l) => l,
                        None => 1,
                    },
                    flatten(st.stack),
                ),
            ),
            stack: seq![Seq::empty()],
            heading: None,
            ..st
        },
        MdEventView::EndCodeBlock => FoldView {
            blocks: st.blocks.push(BlockView::CodeBlock(st.lang, st.code)),
            lang: None,
            code: Seq::empty(),
            in_code: false,
            ..st
        },
        MdEventView::EndItem => FoldView {
            items: st.items.push(flatten(st.stack)),
            stack: seq![Seq::empty()],
            in_item: false,
            ..st
        },
        MdEventView::EndList => FoldView {
            blocks: st.blocks.push(BlockView::List(st.items)),
            items: Seq::empty(),
            ..st
        },
        MdEventView::EndStrong => {
            let (s, nested) = popped(st.stack);
            FoldView { stack: push_to(s, InlineView::Strong(nested)), ..st }
        },
        MdEventView::EndEmphasis => {
            let (s, nested) = popped(st.stack);
            FoldView { stack: push_to(s, InlineView::Emphasis(nested)), ..st }
        },
        MdEventView::EndLink => {
            let (s, nested) = popped(st.stack);
            let href = if st.hrefs.len() > 0 {
                st.hrefs.last()
            } else {
                Seq::empty()
            };
            FoldView {
                stack: push_to(s, InlineView::Link(nested, href)),
                hrefs: if st.hrefs.len() > 0 {
                    st.hrefs.drop_last()
                } else {
                    st.hrefs
                },
                ..st
            }
        },
        MdEventView::Other => st,
    }
}

/// Fold state after the first `k` events.
pub open spec fn fold_upto(events: Seq<MdEventView>, k: int) -> FoldView
    decreases k,
{
    if k <= 0 {
        fold_start()
    } else {
        fold_step(fold_upto(events, k - 1), events[k - 1])
    }
}

/// Blocks of a whole event stream.
pub open spec fn blocks_of(events: Seq<MdEventView>) -> Seq<BlockView> {
    fold_upto(events, events.len() as int).blocks
}

/// Views of a stack of inline containers.
pub open spec fn stack_view(s: Seq<Vec<Inline>>) -> Seq<Seq<InlineView>> {
    s.map_values(|v: Vec<Inline>| inlines_view(v@))
}

/// Char views of strings.
pub open spec fn strs_view(s: Seq<String>) -> Seq<Seq<char>> {
    s.map_values(|x: String| x@)
}

pub(crate) proof fn lemma_inlines_view_push(v: Seq<Inline>, x: Inline)
    ensures
        inlines_view(v.push(x)) == inlines_view(v).push(inline_view(x)),
{
    assert(v.push(x).drop_last() =~= v);
}

proof fn lemma_inlines_view_concat(a: Seq<Inline>, b: Seq<Inline>)
    ensures
        inlines_view(a + b) == inlines_view(a) + inlines_view(b),
    decreases b.len(),
{
    if b.len() == 0 {
        assert(a + b =~= a);
        assert(inlines_view(a) + inlines_view(b) =~= inlines_view(a));
    } else {
        lemma_inlines_view_concat(a, b.drop_last());
        assert((a + b).drop_last() =~= a + b.drop_last());
        assert((a + b)[(a + b).len() - 1] == b[b.len() - 1]);
        assert(inlines_view(a) + inlines_view(b) =~= (inlines_view(a) + inlines_view(
            b.drop_last(),
        )).push(inline_view(b[b.len() - 1])));
    }
}

proof fn lemma_inlines_view_len(v: Seq<Inline>)
    ensures
        inlines_view(v).len() == v.len(),
    decreases v.len(),
{
    if v.len() > 0 {
        lemma_inlines_view_len(v.drop_last());
    }
}

fn reset_inlines(stack: &mut Vec<Vec<Inline>>)
    ensures
        stack_view(final(stack)@) == seq![Seq::<InlineView>::empty()],
{
    stack.clear();
    let e: Vec<Inline> = Vec::new();
    stack.push(e);
    assert(inlines_view(e@) =~= Seq::<InlineView>::empty());
    assert(stack_view(stack@) =~= seq![Seq::<InlineView>::empty()]);
}

fn push_inline(stack: &mut Vec<Vec<Inline>>, inline: Inline)
    ensures
        stack_view(final(stack)@) == push_to(stack_view(old(stack)@), inline_view(inline)),
{
    let ghost x = inline_view(inline);
    let ghost sv = stack_view(stack@);
    match stack.pop() {
        Some(mut cur) => {
            let ghost c0 = cur@;
            cur.push(inline);
            proof {
                lemma_inlines_view_push(c0, inline);
            }
            stack.push(cur);
            assert(stack_view(stack@) =~= sv.update(sv.len() - 1, sv.last().push(x)));
        },
        None => {
            let mut v: Vec<Inline> = Vec::new();
            v.push(inline);
            proof {
                lemma_inlines_view_push(Seq::empty(), inline);
                assert(Seq::<Inline>::empty().push(inline) =~= v@);
                assert(inlines_view(Seq::<Inline>::empty()) =~= Seq::<InlineView>::empty());
            }
            stack.push(v);
            assert(stack_view(stack@) =~= seq![seq![x]]);
        },
    }
}

fn pop_nested_inlines(stack: &mut Vec<Vec<Inline>>) -> (r: Vec<Inline>)
    ensures
        (stack_view(final(stack)@), inlines_view(r@)) == popped(stack_view(old(stack)@)),
{
    let ghost sv = stack_view(stack@);
    if stack.len() <= 1 {
        let e: Vec<Inline> = Vec::new();
        assert(inlines_view(e@) =~= Seq::<InlineView>::empty());
        return e;
    }
    match stack.pop() {
        Some(v) => {
            assert(stack_view(stack@) =~= sv.drop_last());
            v
        },
        None => Vec::new(),
    }
}

proof fn lemma_flatten_merge(s: Seq<Seq<InlineView>>)
    requires
        s.len() >= 2,
    ensures
        flatten(s.drop_last().drop_last().push(s[s.len() - 2] + s[s.len() - 1])) == flatten(s),
{
    let t = s.drop_last().drop_last();
    let a = s[s.len() - 2];
    let b = s[s.len() - 1];
    assert(t.push(a + b).drop_last() =~= t);
    assert(t.push(a + b).last() == a + b);
    assert(flatten(t.push(a + b)) == flatten(t) + (a + b));
    assert(s.drop_last().drop_last() =~= t);
    assert(s.drop_last().last() == a);
    assert(flatten(s.drop_last()) == flatten(t) + a);
    assert(flatten(s) == flatten(t) + a + b);
    assert(flatten(t) + a + b =~= flatten(t) + (a + b));
}

fn take_root_inlines(stack: &mut Vec<Vec<Inline>>) -> (r: Vec<Inline>)
    ensures
        inlines_view(r@) == flatten(stack_view(old(stack)@)),
        stack_view(final(stack)@) == seq![Seq::<InlineView>::empty()],
{
    let ghost orig = flatten(stack_view(stack@));
    while stack.len() > 1
        invariant
            flatten(stack_view(stack@)) == orig,
        decreases stack.len(),
    {
        let ghost sv = stack_view(stack@);
        let ghost n = stack@.len();
        let mut nested = match stack.pop() {
            Some(v) => v,
            None => Vec::new(),
        };
        let mut parent = match stack.pop() {
            Some(v) => v,
            None => Vec::new(),
        };
        let ghost a = parent@;
        let ghost b = nested@;
        parent.append(&mut nested);
        proof {
            lemma_inlines_view_concat(a, b);
            assert(parent@ =~= a + b);
        }
        stack.push(parent);
        proof {
            assert(stack_view(stack@) =~= sv.drop_last().drop_last().push(sv[n - 2] + sv[n - 1]));
            lemma_flatten_merge(sv);
        }
    }
    let ghost sv = stack_view(stack@);
    let inlines = match stack.pop() {
        Some(v) => v,
        None => Vec::new(),
    };
    proof {
        if sv.len() == 1 {
            assert(sv.drop_last() =~= Seq::<Seq<InlineView>>::empty());
            assert(flatten(sv.drop_last()) == Seq::<InlineView>::empty());
            assert(flatten(sv) == Seq::<InlineView>::empty() + sv[0]);
            assert(Seq::<InlineView>::empty() + sv[0] =~= sv[0]);
            assert(sv[0] == inlines_view(inlines@));
        } else {
            assert(inlines_view(inlines@) =~= Seq::<InlineView>::empty());
        }
    }
    let e: Vec<Inline> = Vec::new();
    stack.push(e);
    assert(inlines_view(e@) =~= Seq::<InlineView>::empty());
    assert(stack_view(stack@) =~= seq![Seq::<InlineView>::empty()]);
    inlines
}

struct Fold {
    blocks: Vec<MarkdownBlock>,
    stack: Vec<Vec<Inline>>,
    hrefs: Vec<String>,
    in_code: bool,
    lang: Option<String>,
    code: String,
    in_item: bool,
    items: Vec<ListItem>,
    heading: Option<u8>,
}

impl Fold {
    spec fn view_fold(&self) -> FoldView {
        FoldView {
            blocks: blocks_view(self.blocks@),
            stack: stack_view(self.stack@),
            hrefs: strs_view(self.hrefs@),
            in_code: self.in_code,
            lang: opt_text(self.lang),
            code: self.code@,
            in_item: self.in_item,
            items: items_view(self.items@),
            heading: self.heading,
        }
    }

    fn emit(&mut self, b: MarkdownBlock)
        ensures
            final(self).view_fold() == (FoldView {
                blocks: old(self).view_fold().blocks.push(block_view(b)),
                ..old(self).view_fold()
            }),
    {
        let ghost prev = self.blocks@;
        self.blocks.push(b);
        assert(blocks_view(self.blocks@) =~= blocks_view(prev).push(block_view(b)));
    }

    fn step(&mut self, ev: MdEvent)
        ensures
            final(self).view_fold() == fold_step(old(self).view_fold(), ev@),
    {
        let ghost st = self.view_fold();
        match ev {
            MdEvent::StartList => {
                self.items = Vec::new();
                assert(items_view(self.items@) =~= Seq::<Seq<InlineView>>::empty());
            },
            MdEvent::StartItem => {
                self.in_item = true;
                reset_inlines(&mut self.stack);
            },
            MdEvent::StartParagraph => {
                if !self.in_item {
                    reset_inlines(&mut self.stack);
                }
            },
            MdEvent::StartHeading(level) => {
                reset_inlines(&mut self.stack);
                self.heading = Some(
                    if level < 3 {
                        level
                    } else {
                        3
                    },
                );
            },
            MdEvent::StartCodeBlock(kind) => {
                self.in_code = true;
                self.code = String::new();
                self.lang = match kind {
                    Some(l) => if l.unicode_len() > 0 {
                        Some(l)
                    } else {
                        None
                    },
                    None => None,
                };
            },
            MdEvent::StartStrong | MdEvent::StartEmphasis => {
                let e: Vec<Inline> = Vec::new();
                let ghost sv = stack_view(self.stack@);
                self.stack.push(e);
                assert(inlines_view(e@) =~= Seq::<InlineView>::empty());
                assert(stack_view(self.stack@) =~= sv.push(Seq::empty()));
            },
            MdEvent::StartLink(dest) => {
                let ghost hv = strs_view(self.hrefs@);
                let ghost d = dest@;
                self.hrefs.push(dest);
                assert(strs_view(self.hrefs@) =~= hv.push(d));
                let e: Vec<Inline> = Vec::new();
                let ghost sv = stack_view(self.stack@);
                self.stack.push(e);
                assert(inlines_view(e@) =~= Seq::<InlineView>::empty());
                assert(stack_view(self.stack@) =~= sv.push(Seq::empty()));
            },
            MdEvent::Text(t) => {
                if self.in_code {
                    self.code.append(t.as_str());
                } else {
                    push_inline(&mut self.stack, Inline::Text(t));
                }
            },
            MdEvent::Code(c) => {
                push_inline(&mut self.stack, Inline::Code(c));
            },
            MdEvent::EndParagraph => {
                if !self.in_item {
                    let inl = take_root_inlines(&mut self.stack);
                    self.emit(MarkdownBlock::Paragraph(inl));
                }
            },
            MdEvent::EndHeading => {
                let level = match self.heading.take() {
                    Some(l) => l,
                    None => 1,
                };
                let inl = take_root_inlines(&mut self.stack);
                self.emit(MarkdownBlock::Heading { level, inlines: inl });
            },
            MdEvent::EndCodeBlock => {
                let language = self.lang.take();
                let mut content = String::new();
                std::mem::swap(&mut content, &mut self.code);
                self.emit(MarkdownBlock::CodeBlock { language, content });
                self.in_code = false;
            },
            MdEvent::EndItem => {
                let inl = take_root_inlines(&mut self.stack);
                let ghost iv = items_view(self.items@);
                let item = ListItem { inlines: inl };
                let ghost itv = inlines_view(item.inlines@);
                self.items.push(item);
                assert(items_view(self.items@) =~= iv.push(itv));
                self.in_item = false;
            },
            MdEvent::EndList => {
                let mut items: Vec<ListItem> = Vec::new();
                std::mem::swap(&mut items, &mut self.items);
                assert(items_view(self.items@) =~= Seq::<Seq<InlineView>>::empty());
                self.emit(MarkdownBlock::List(items));
            },
            MdEvent::EndStrong => {
                let nested = pop_nested_inlines(&mut self.stack);
                push_inline(&mut self.stack, Inline::Strong(nested));
            },
            MdEvent::EndEmphasis => {
                let nested = pop_nested_inlines(&mut self.stack);
                push_inline(&mut self.stack, Inline::Emphasis(nested));
            },
            MdEvent::EndLink => {
                let nested = pop_nested_inlines(&mut self.stack);
                let ghost hv = strs_view(self.hrefs@);
                let href = match self.hrefs.pop() {
                    Some(h) => h,
                    None => String::new(),
                };
                proof {
                    if hv.len() > 0 {
                        assert(strs_view(self.hrefs@) =~= hv.drop_last());
                    }
                }
                push_inline(&mut self.stack, Inline::Link { text: nested, href });
            },
            MdEvent::Other => {},
        }
    }
}

fn copy_event(e: &MdEvent) -> (r: MdEvent)
    ensures
        r@ == e@,
{
    match e {
        MdEvent::StartList => MdEvent::StartList,
        MdEvent::StartItem => MdEvent::StartItem,
        MdEvent::StartParagraph => MdEvent::StartParagraph,
        MdEvent::StartHeading(l) => MdEvent::StartHeading(*l),
        MdEvent::StartCodeBlock(lang) => MdEvent::StartCodeBlock(
            match lang {
                Some(l) => Some(l.clone()),
                None => None,
            },
        ),
        MdEvent::StartStrong => MdEvent::StartStrong,
        MdEvent::StartEmphasis => MdEvent::StartEmphasis,
        MdEvent::StartLink(d) => MdEvent::StartLink(d.clone()),
        MdEvent::Text(t) => MdEvent::Text(t.clone()),
        MdEvent::Code(c) => MdEvent::Code(c.clone()),
        MdEvent::EndParagraph => MdEvent::EndParagraph,
        MdEvent::EndHeading => MdEvent::EndHeading,
        MdEvent::EndCodeBlock => MdEvent::EndCodeBlock,
        MdEvent::EndItem => MdEvent::EndItem,
        MdEvent::EndList => MdEvent::EndList,
        MdEvent::EndStrong => MdEvent::EndStrong,
        MdEvent::EndEmphasis => MdEvent::EndEmphasis,
        MdEvent::EndLink => MdEvent::EndLink,
        MdEvent::Other => MdEvent::Other,
    }
}

/// Folds converted Markdown events into blocks.
pub fn markdown_blocks(events: &[MdEvent]) -> (r: Vec<MarkdownBlock>)
    ensures
        blocks_view(r@) == blocks_of(events_view(events@)),
{
    let ghost ev = events_view(events@);
    let mut f = Fold {
        blocks: Vec::new(),
        stack: Vec::new(),
        hrefs: Vec::new(),
        in_code: false,
        lang: None,
        code: String::new(),
        in_item: false,
        items: Vec::new(),
        heading: None,
    };
    reset_inlines(&mut f.stack);
    proof {
        assert(blocks_view(f.blocks@) =~= Seq::<BlockView>::empty());
        assert(strs_view(f.hrefs@) =~= Seq::<Seq<char>>::empty());
        assert(items_view(f.items@) =~= Seq::<Seq<InlineView>>::empty());
        assert(f.view_fold() == fold_start());
    }
    let mut i: usize = 0;
    while i < events.len()
        invariant
            i <= events.len(),
            ev == events_view(events@),
            ev.len() == events.len(),
            f.view_fold() == fold_upto(ev, i as int),
        decreases events.len() - i,
    {
        let e = copy_event(&events[i]);
        assert(ev[i as int] == e@);
        f.step(e);
        i += 1;
    }
    f.blocks
}

/// Parses a Markdown string into a sequence of blocks.
pub fn parse_markdown(text: &str) -> (r: Vec<MarkdownBlock>)
    ensures
        blocks_view(r@) == blocks_of(markdown_event_stream(text@)),
{
    let events = markdown_events(text);
    markdown_blocks(events.as_slice())
}

/// Every heading block has level at most 3.
pub open spec fn headings_clamped(bs: Seq<BlockView>) -> bool {
    forall|j: int| 0 <= j < bs.len() ==> (#[trigger] bs[j] matches BlockView::Heading(l, _) ==> l <= 3)
}

proof fn lemma_fold_headings_clamped(events: Seq<MdEventView>, k: int)
    requires
        0 <= k <= events.len(),
    ensures
        headings_clamped(fold_upto(events, k).blocks),
        fold_upto(events, k).heading matches Some(l) ==> l <= 3,
    decreases k,
{
    if k > 0 {
        lemma_fold_headings_clamped(events, k - 1);
        let st = fold_upto(events, k - 1);
        let nx = fold_upto(events, k);
        assert forall|j: int| 0 <= j < nx.blocks.len() implies (#[trigger] nx.blocks[j] matches BlockView::Heading(
            l,
            _,
        ) ==> l <= 3) by {
            if j < st.blocks.len() {
                assert(nx.blocks[j] == st.blocks[j]);
            }
        }
    }
}

/// Heading levels 4–6 are stored as 3: no parsed heading is deeper than 3.
pub proof fn law_heading_levels_at_most_three(events: Seq<MdEventView>)
    ensures
        headings_clamped(blocks_of(events)),
{
    lemma_fold_headings_clamped(events, events.len() as int);
}

/// Texts joined end to end, in order.
pub open spec fn concat_texts(ts: Seq<Seq<char>>) -> Seq<char>
    decreases ts.len(),
{
    if ts.len() == 0 {
        Seq::empty()
    } else {
        concat_texts(ts.drop_last()) + ts.last()
    }
}

/// A fenced or indented code block as events: its start, one `Text` event
/// per piece of code, and its end.
pub open spec fn code_block_events(lang: Option<Seq<char>>, ts: Seq<Seq<char>>) -> Seq<MdEventView> {
    seq![MdEventView::StartCodeBlock(lang)] + ts.map_values(|t: Seq<char>| MdEventView::Text(t))
        + seq![MdEventView::EndCodeBlock]
}

/// The fold over the first `k` events only depends on those events.
proof fn lemma_fold_prefix(e: Seq<MdEventView>, pre: Seq<MdEventView>, k: int)
    requires
        0 <= k <= pre.len() <= e.len(),
        e.take(pre.len() as int) == pre,
    ensures
        fold_upto(e, k) == fold_upto(pre, k),
    decreases k,
{
    if k > 0 {
        lemma_fold_prefix(e, pre, k - 1);
        assert(e[k - 1] == e.take(pre.len() as int)[k - 1]);
    }
}

proof fn lemma_fold_code_texts(
    pre: Seq<MdEventView>,
    lang: Option<Seq<char>>,
    ts: Seq<Seq<char>>,
    j: int,
)
    requires
        0 <= j <= ts.len(),
    ensures
        ({
            let e = pre + code_block_events(lang, ts);
            let st = fold_upto(e, pre.len() + 1 + j);
            &&& st.in_code
            &&& st.code == concat_texts(ts.take(j))
            &&& st.blocks == blocks_of(pre)
            &&& st.lang == (match lang {
                Some(l) => if l.len() > 0 {
                    Some(l)
                } else {
                    None
                },
                None => None,
            })
        }),
    decreases j,
{
    let e = pre + code_block_events(lang, ts);
    if j == 0 {
        assert(e.take(pre.len() as int) =~= pre);
        lemma_fold_prefix(e, pre, pre.len() as int);
        assert(e[pre.len() as int] == MdEventView::StartCodeBlock(lang));
        assert(ts.take(0) =~= Seq::<Seq<char>>::empty());
    } else {
        lemma_fold_code_texts(pre, lang, ts, j - 1);
        assert(e[pre.len() + j] == MdEventView::Text(ts[j - 1]));
        assert(ts.take(j).drop_last() =~= ts.take(j - 1));
    }
}

/// The content of a code block is every piece of text between its start and
/// its end, joined in order: after any events, a code block adds exactly one
/// block, holding the block's language (none when blank) and that text.
pub proof fn law_code_block_keeps_all_text(
    pre: Seq<MdEventView>,
    lang: Option<Seq<char>>,
    ts: Seq<Seq<char>>,
)
    ensures
        blocks_of(pre + code_block_events(lang, ts)) == blocks_of(pre).push(
            BlockView::CodeBlock(
                match lang {
                    Some(l) => if l.len() > 0 {
                        Some(l)
                    } else {
                        None
                    },
                    None => None,
                },
                concat_texts(ts),
            ),
        ),
{
    let e = pre + code_block_events(lang, ts);
    lemma_fold_code_texts(pre, lang, ts, ts.len() as int);
    assert(ts.take(ts.len() as int) =~= ts);
    assert(e.len() == pre.len() + ts.len() + 2);
    assert(e[e.len() - 1] == MdEventView::EndCodeBlock);
}

fn copy_inlines(v: &Vec<Inline>) -> (r: Vec<Inline>)
    ensures
        inlines_view(r@) == inlines_view(v@),
    decreases v@,
{
    let mut out: Vec<Inline> = Vec::new();
    let mut i: usize = 0;
    assert(v@.take(0) =~= Seq::<Inline>::empty());
    while i < v.len()
        invariant
            i <= v.len(),
            inlines_view(out@) == inlines_view(v@.take(i as int)),
        decreases v.len() - i,
    {
        proof {
            assert(decreases_to!(v@ => v@[i as int]));
        }
        let c = copy_inline(&v[i]);
        let ghost prev = out@;
        out.push(c);
        proof {
            lemma_inlines_view_push(prev, c);
            lemma_inlines_view_push(v@.take(i as int), v@[i as int]);
            assert(v@.take(i as int).push(v@[i as int]) =~= v@.take(i + 1));
            assert(out@ =~= prev.push(c));
        }
        i += 1;
    }
    assert(v@.take(v.len() as int) =~= v@);
    out
}

fn copy_inline(x: &Inline) -> (r: Inline)
    ensures
        inline_view(r) == inline_view(*x),
    decreases x,
{
    match x {
        Inline::Text(s) => Inline::Text(s.clone()),
        Inline::Code(s) => Inline::Code(s.clone()),
        Inline::Strong(v) => {
            proof {
                assert(decreases_to!(x => v@));
            }
            Inline::Strong(copy_inlines(v))
        },
        Inline::Emphasis(v) => {
            proof {
                assert(decreases_to!(x => v@));
            }
            Inline::Emphasis(copy_inlines(v))
        },
        Inline::Link { text, href } => {
            proof {
                assert(decreases_to!(x => text@));
            }
            Inline::Link { text: copy_inlines(text), href: href.clone() }
        },
    }
}

impl Clone for Inline {
    fn clone(&self) -> (r: Self)
        ensures
            inline_view(r) == inline_view(*self),
    {
        copy_inline(self)
    }
}

impl Clone for ListItem {
    fn clone(&self) -> (r: Self)
        ensures
            inlines_view(r.inlines@) == inlines_view(self.inlines@),
    {
        ListItem { inlines: copy_inlines(&self.inlines) }
    }
}

impl Clone for MarkdownBlock {
    fn clone(&self) -> (r: Self)
        ensures
            block_view(r) == block_view(*self),
    {
        match self {
            MarkdownBlock::Paragraph(v) => MarkdownBlock::Paragraph(copy_inlines(v)),
            MarkdownBlock::Heading { level, inlines } => MarkdownBlock::Heading {
                level: *level,
                inlines: copy_inlines(inlines),
            },
            MarkdownBlock::CodeBlock { language, content } => MarkdownBlock::CodeBlock {
                language: match language {
                    Some(l) => Some(l.clone()),
                    None => None,
                },
                content: content.clone(),
            },
            MarkdownBlock::List(items) => {
                let mut out: Vec<ListItem> = Vec::new();
                let mut i: usize = 0;
                while i < items.len()
                    invariant
                        i <= items.len(),
                        items_view(out@) == items_view(items@.take(i as int)),
                    decreases items.len() - i,
                {
                    let it = ListItem { inlines: copy_inlines(&items[i].inlines) };
                    let ghost prev = out@;
                    out.push(it);
                    proof {
                        assert(out@ =~= prev.push(it));
                        assert(items@.take(i + 1) =~= items@.take(i as int).push(items@[i as int]));
                        assert(items_view(out@) =~= items_view(prev).push(inlines_view(it.inlines@)));
                        assert(items_view(items@.take(i + 1)) =~= items_view(items@.take(i as int)).push(
                            inlines_view(items@[i as int].inlines@),
                        ));
                    }
                    i += 1;
                }
                assert(items@.take(items.len() as int) =~= items@);
                MarkdownBlock::List(out)
            },
        }
    }
}

} // verus!
