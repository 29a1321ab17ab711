//! Wrap opportunities for long Markdown words, and the styled runs of
//! inline Markdown.
//!
//! Words longer than [`MAX_WORD_CHARS`] get zero-width wrap breaks so a single
//! unbroken token (long URLs, hashes, identifiers) can wrap instead of forcing
//! the row wider than the window. Inline marks become runs of text in one
//! style each; the shell maps a style to its font, color and underline.

use crate::markdown::{inline_view, inlines_view, lemma_inlines_view_push, Inline, InlineView};
use crate::text::{
    byte_offset, chars_of, is_whitespace, is_ws, join, lemma_utf8_len_concat, owned, push_char,
    utf8_len,
};
use vstd::prelude::*;

verus! {

/// Maximum characters a single word segment may occupy before it is split.
pub const MAX_WORD_CHARS: usize = 40;

/// Chunking state after the first `i` chars of a word of `n` chars: the
/// finished chunks as char ranges, the open chunk's start, and its length.
pub open spec fn chunk_fold(max: int, i: int) -> (Seq<(int, int)>, int, int)
    decreases i,
{
    if i <= 0 {
        (Seq::empty(), 0, 0)
    } else {
        let (chunks, start, count) = chunk_fold(max, i - 1);
        if count == max {
            (chunks.push((start, i - 1)), i - 1, 1)
        } else {
            (chunks, start, count + 1)
        }
    }
}

/// Char ranges of the chunks of a word of `n` chars: the whole word when it
/// has at most `max` chars, otherwise consecutive runs of `max` chars (the
/// last one shorter).
pub open spec fn chunk_ranges(n: int, max: int) -> Seq<(int, int)> {
    if n <= max {
        seq![(0, n)]
    } else {
        let (chunks, start, count) = chunk_fold(max, n);
        if start < n {
            chunks.push((start, n))
        } else {
            chunks
        }
    }
}

/// The chunks of `w` for `max` chars each.
pub open spec fn chunks_of(w: Seq<char>, max: int) -> Seq<Seq<char>> {
    chunk_ranges(w.len() as int, max).map_values(|r: (int, int)| w.subrange(r.0, r.1))
}

proof fn lemma_chunk_fold_bounds(max: int, i: int)
    requires
        i >= 0,
    ensures
        0 <= chunk_fold(max, i).1 <= i,
        forall|k: int|
            0 <= k < chunk_fold(max, i).0.len() ==> 0 <= (#[trigger] chunk_fold(max, i).0[k]).0
                <= chunk_fold(max, i).0[k].1 <= i,
    decreases i,
{
    if i > 0 {
        lemma_chunk_fold_bounds(max, i - 1);
    }
}

/// Splits a word into chunks of at most `max_chars` characters, respecting
/// UTF-8 boundaries. Returns the word unchanged when it is short enough.
pub fn split_long_word(word: &str, max_chars: usize) -> (r: Vec<&str>)
    ensures
        r@.map_values(|c: &str| c@) == chunks_of(word@, max_chars as int),
{
    let n = word.unicode_len();
    if n <= max_chars {
        let v = vec![word];
        proof {
            assert(word@.subrange(0, n as int) =~= word@);
            assert(v@.map_values(|c: &str| c@) =~= chunks_of(word@, max_chars as int));
        }
        return v;
    }
    let mut chunks: Vec<&str> = Vec::new();
    let mut start: usize = 0;
    let mut count: usize = 0;
    let mut i: usize = 0;
    while i < n
        invariant
            i <= n,
            n == word@.len(),
            (chunk_fold(max_chars as int, i as int).1 == start),
            (chunk_fold(max_chars as int, i as int).2 == count),
            count <= i,
            chunks@.map_values(|c: &str| c@) == chunk_fold(max_chars as int, i as int).0.map_values(
                |r: (int, int)| word@.subrange(r.0, r.1),
            ),
        decreases n - i,
    {
        proof {
            lemma_chunk_fold_bounds(max_chars as int, i as int);
        }
        if count == max_chars {
            let piece = word.substring_char(start, i);
            let ghost prev = chunks@;
            chunks.push(piece);
            proof {
                let f = chunk_fold(max_chars as int, i as int);
                assert(chunk_fold(max_chars as int, i + 1).0 == f.0.push((start as int, i as int)));
                assert(chunks@.map_values(|c: &str| c@) =~= prev.map_values(|c: &str| c@).push(
                    piece@,
                ));
                assert(f.0.push((start as int, i as int)).map_values(
                    |r: (int, int)| word@.subrange(r.0, r.1),
                ) =~= f.0.map_values(|r: (int, int)| word@.subrange(r.0, r.1)).push(
                    word@.subrange(start as int, i as int),
                ));
            }
            start = i;
            count = 0;
        }
        count += 1;
        i += 1;
    }
    proof {
        lemma_chunk_fold_bounds(max_chars as int, n as int);
    }
    let ghost f = chunk_fold(max_chars as int, n as int);
    let ghost prev = chunks@;
    if start < n {
        let piece = word.substring_char(start, n);
        chunks.push(piece);
        proof {
            assert(chunks@.map_values(|c: &str| c@) =~= prev.map_values(|c: &str| c@).push(
                piece@,
            ));
            assert(f.0.push((start as int, n as int)).map_values(
                |r: (int, int)| word@.subrange(r.0, r.1),
            ) =~= f.0.map_values(|r: (int, int)| word@.subrange(r.0, r.1)).push(
                word@.subrange(start as int, n as int),
            ));
        }
    }
    proof {
        assert(chunks@.map_values(|c: &str| c@) =~= chunks_of(word@, max_chars as int));
    }
    chunks
}

/// A word with zero-width spaces between its chunks of [`MAX_WORD_CHARS`].
pub open spec fn broken_word(w: Seq<char>) -> Seq<char> {
    join(chunks_of(w, 40), seq!['\u{200B}'])
}

/// Wrap state after the first `i` chars of `t`: the text written so far and
/// the start of the open word.
pub open spec fn wrap_fold(t: Seq<char>, i: int) -> (Seq<char>, int)
    decreases i,
{
    if i <= 0 {
        (Seq::empty(), 0)
    } else {
        let (out, ws) = wrap_fold(t, i - 1);
        if is_ws(t[i - 1]) {
            (out + broken_word(t.subrange(ws, i - 1)) + seq![t[i - 1]], i)
        } else {
            (out, ws)
        }
    }
}

/// `t` with every whitespace-separated word broken by [`broken_word`].
pub open spec fn wrap_breaks_text(t: Seq<char>) -> Seq<char> {
    let (out, ws) = wrap_fold(t, t.len() as int);
    out + broken_word(t.subrange(ws, t.len() as int))
}

proof fn lemma_wrap_fold_start(t: Seq<char>, i: int)
    requires
        0 <= i <= t.len(),
    ensures
        0 <= wrap_fold(t, i).1 <= i,
    decreases i,
{
    if i > 0 {
        lemma_wrap_fold_start(t, i - 1);
    }
}

fn append_word(output: &mut String, word: &str)
    ensures
        final(output)@ == old(output)@ + broken_word(word@),
{
    let chunks = split_long_word(word, MAX_WORD_CHARS);
    let ghost cv = chunks@.map_values(|c: &str| c@);
    let ghost base = output@;
    let mut i: usize = 0;
    while i < chunks.len()
        invariant
            i <= chunks.len(),
            cv == chunks@.map_values(|c: &str| c@),
            cv == chunks_of(word@, 40),
            output@ == base + join(cv.take(i as int), seq!['\u{200B}']),
        decreases chunks.len() - i,
    {
        if i > 0 {
            push_char(output, '\u{200B}');
        }
        output.append(chunks[i]);
        proof {
            assert(cv.take(i + 1).drop_last() =~= cv.take(i as int));
            assert(cv[i as int] == chunks@[i as int]@);
            if i == 0 {
                assert(join(cv.take(1), seq!['\u{200B}']) == cv[0]);
                assert(join(cv.take(0), seq!['\u{200B}']) =~= Seq::<char>::empty());
            }
            assert(output@ =~= base + join(cv.take(i + 1), seq!['\u{200B}']));
        }
        i += 1;
    }
    assert(cv.take(chunks.len() as int) =~= cv);
}

/// Inserts zero-width spaces into words longer than [`MAX_WORD_CHARS`].
pub fn with_wrap_breaks(text: &str) -> (r: String)
    ensures
        r@ == wrap_breaks_text(text@),
{
    let cs = chars_of(text);
    let n = cs.len();
    let mut output = String::new();
    let mut word_start: usize = 0;
    let mut i: usize = 0;
    while i < n
        invariant
            i <= n,
            n == text@.len(),
            cs@ == text@,
            (output@, word_start as int) == wrap_fold(text@, i as int),
        decreases n - i,
    {
        proof {
            lemma_wrap_fold_start(text@, i as int);
        }
        let ch = cs[i];
        if is_whitespace(ch) {
            let word = text.substring_char(word_start, i);
            append_word(&mut output, word);
            push_char(&mut output, ch);
            word_start = i + 1;
        }
        i += 1;
    }
    proof {
        lemma_wrap_fold_start(text@, n as int);
    }
    let word = text.substring_char(word_start, n);
    append_word(&mut output, word);
    output
}

/// Marks in effect on a piece of inline text.
#[derive(Clone, Copy, Debug, PartialEq, Eq, Structural)]
pub struct SpanFlags {
    /// Inside strong emphasis.
    pub strong: bool,
    /// Inside emphasis.
    pub emphasis: bool,
    /// Inline code.
    pub code: bool,
    /// Inside a link.
    pub link: bool,
}

impl SpanFlags {
    /// No marks.
    pub fn plain() -> (r: Self)
        ensures
            r == plain_flags(),
    {
        SpanFlags { strong: false, emphasis: false, code: false, link: false }
    }
}

/// No marks.
pub open spec fn plain_flags() -> SpanFlags {
    SpanFlags { strong: false, emphasis: false, code: false, link: false }
}

/// Text style of a run: monospace family for code, bold weight for strong
/// text, italic for emphasis, the accent color for code and links, and an
/// underline for links. The shell's theme keeps the accent apart from the
/// primary text color, so equal styles are exactly equal fonts, colors and
/// underlines.
#[derive(Clone, Copy, Debug, PartialEq, Eq, Structural)]
pub struct RunStyle {
    /// Monospace (`Courier New`) rather than the UI family (`Inter`).
    pub monospace: bool,
    /// Font weight.
    pub weight: u16,
    /// Italic face.
    pub italic: bool,
    /// Accent color rather than the primary text color.
    pub accent: bool,
    /// Underlined.
    pub underline: bool,
}

/// A run of text bytes in one style.
#[derive(Clone, Copy, Debug, PartialEq, Eq, Structural)]
pub struct StyledRun {
    /// Byte length of the run.
    pub len: usize,
    /// Style of the run.
    pub style: RunStyle,
}

/// Style of text under `f` in a block of weight `base_weight`.
pub open spec fn style_of(f: SpanFlags, base_weight: u16) -> RunStyle {
    RunStyle {
        monospace: f.code,
        weight: if f.strong {
            700u16
        } else {
            base_weight
        },
        italic: f.emphasis,
        accent: f.code || f.link,
        underline: f.link,
    }
}

fn style_for(f: SpanFlags, base_weight: u16) -> (r: RunStyle)
    ensures
        r == style_of(f, base_weight),
{
    RunStyle {
        monospace: f.code,
        weight: if f.strong {
            700
        } else {
            base_weight
        },
        italic: f.emphasis,
        accent: f.code || f.link,
        underline: f.link,
    }
}

/// Text pieces of inlines, in reading order, each with the marks around it.
pub open spec fn pieces_of(inls: Seq<InlineView>, f: SpanFlags) -> Seq<(Seq<char>, SpanFlags)>
    decreases inls,
{
    if inls.len() == 0 {
        Seq::empty()
    } else {
        proof {
            assert(inls.drop_last() =~= inls.subrange(0, inls.len() - 1));
            assert(decreases_to!(inls => inls.subrange(0, inls.len() - 1)));
            assert(decreases_to!(inls => inls[inls.len() - 1]));
        }
        pieces_of(inls.drop_last(), f) + piece_of(inls[inls.len() - 1], f)
    }
}

/// Text pieces of one inline.
pub open spec fn piece_of(i: InlineView, f: SpanFlags) -> Seq<(Seq<char>, SpanFlags)>
    decreases i,
{
    match i {
        InlineView::Text(t) => seq![(t, f)],
        InlineView::Code(t) => seq![(t, SpanFlags { code: true, ..f })],
        InlineView::Strong(v) => pieces_of(v, SpanFlags { strong: true, ..f }),
        InlineView::Emphasis(v) => pieces_of(v, SpanFlags { emphasis: true, ..f }),
        InlineView::Link(v, _) => pieces_of(v, SpanFlags { link: true, ..f }),
    }
}

/// Views of text pieces.
pub open spec fn pieces_view(v: Seq<(String, SpanFlags)>) -> Seq<(Seq<char>, SpanFlags)> {
    v.map_values(|p: (String, SpanFlags)| (p.0@, p.1))
}

fn flatten_pieces(inlines: &[Inline], f: SpanFlags, out: &mut Vec<(String, SpanFlags)>)
    ensures
        pieces_view(final(out)@) == pieces_view(old(out)@) + pieces_of(inlines_view(inlines@), f),
    decreases inlines@,
{
    let ghost base = pieces_view(out@);
    let mut i: usize = 0;
    assert(inlines@.take(0) =~= Seq::<Inline>::empty());
    assert(base + pieces_of(inlines_view(inlines@.take(0)), f) =~= base);
    while i < inlines.len()
        invariant
            i <= inlines.len(),
            pieces_view(out@) == base + pieces_of(inlines_view(inlines@.take(i as int)), f),
        decreases inlines.len() - i,
    {
        let ghost prefix = inlines@.take(i as int);
        proof {
            assert(inlines@.take(i + 1) =~= prefix.push(inlines@[i as int]));
            lemma_inlines_view_push(prefix, inlines@[i as int]);
            let w = inlines_view(prefix).push(inline_view(inlines@[i as int]));
            assert(w.drop_last() =~= inlines_view(prefix));
            assert(w[w.len() - 1] == inline_view(inlines@[i as int]));
        }
        let ghost before = pieces_view(out@);
        match &inlines[i] {
            Inline::Text(t) => {
                out.push((owned(t.as_str()), f));
                assert(pieces_view(out@) =~= before + seq![(t@, f)]);
            },
            Inline::Code(t) => {
                out.push((owned(t.as_str()), SpanFlags { code: true, ..f }));
                assert(pieces_view(out@) =~= before + seq![(t@, SpanFlags { code: true, ..f })]);
            },
            Inline::Strong(v) => {
                proof {
                    assert(decreases_to!(inlines@ => inlines@[i as int]));
                    assert(decreases_to!(inlines@[i as int] => *v));
                    assert(decreases_to!(*v => v@));
                }
                flatten_pieces(v.as_slice(), SpanFlags { strong: true, ..f }, out);
            },
            Inline::Emphasis(v) => {
                proof {
                    assert(decreases_to!(inlines@ => inlines@[i as int]));
                    assert(decreases_to!(inlines@[i as int] => *v));
                    assert(decreases_to!(*v => v@));
                }
                flatten_pieces(v.as_slice(), SpanFlags { emphasis: true, ..f }, out);
            },
            Inline::Link { text, .. } => {
                proof {
                    assert(decreases_to!(inlines@ => inlines@[i as int]));
                    assert(decreases_to!(inlines@[i as int] => *text));
                    assert(decreases_to!(*text => text@));
                }
                flatten_pieces(text.as_slice(), SpanFlags { link: true, ..f }, out);
            },
        }
        proof {
            let x = inline_view(inlines@[i as int]);
            assert(pieces_view(out@) == before + piece_of(x, f));
            let w = inlines_view(prefix).push(x);
            assert(inlines_view(inlines@.take(i + 1)) == w);
            assert(pieces_of(w, f) == pieces_of(inlines_view(prefix), f) + piece_of(x, f));
            assert(pieces_view(out@) =~= base + pieces_of(inlines_view(inlines@.take(i + 1)), f));
        }
        i += 1;
    }
    assert(inlines@.take(inlines.len() as int) =~= inlines@);
}

/// Appends wrapped text `t` in style `st`: it extends the last run when the
/// styles agree, else starts a run; empty text adds nothing.
pub open spec fn add_piece(acc: (Seq<char>, Seq<StyledRun>), t: Seq<char>, st: RunStyle) -> (
    Seq<char>,
    Seq<StyledRun>,
) {
    if t.len() == 0 {
        acc
    } else if acc.1.len() > 0 && acc.1.last().style == st {
        (
            acc.0 + t,
            acc.1.update(
                acc.1.len() - 1,
                StyledRun { len: (acc.1.last().len + utf8_len(t)) as usize, style: st },
            ),
        )
    } else {
        (acc.0 + t, acc.1.push(StyledRun { len: utf8_len(t) as usize, style: st }))
    }
}

/// Text and runs of pieces: each piece's text with wrap breaks, in the
/// style of its marks.
pub open spec fn runs_fold(ps: Seq<(Seq<char>, SpanFlags)>, base_weight: u16) -> (
    Seq<char>,
    Seq<StyledRun>,
)
    decreases ps.len(),
{
    if ps.len() == 0 {
        (Seq::empty(), Seq::empty())
    } else {
        add_piece(
            runs_fold(ps.drop_last(), base_weight),
            wrap_breaks_text(ps.last().0),
            style_of(ps.last().1, base_weight),
        )
    }
}

/// Text and styled runs of inline Markdown.
pub open spec fn styled_parts_spec(inls: Seq<InlineView>, base_weight: u16) -> (
    Seq<char>,
    Seq<StyledRun>,
) {
    runs_fold(pieces_of(inls, plain_flags()), base_weight)
}

/// Concatenated wrapped texts of pieces.
pub open spec fn pieces_text(ps: Seq<(Seq<char>, SpanFlags)>) -> Seq<char>
    decreases ps.len(),
{
    if ps.len() == 0 {
        Seq::empty()
    } else {
        pieces_text(ps.drop_last()) + wrap_breaks_text(ps.last().0)
    }
}

/// Sum of run lengths.
pub open spec fn runs_len(rs: Seq<StyledRun>) -> int
    decreases rs.len(),
{
    if rs.len() == 0 {
        0
    } else {
        runs_len(rs.drop_last()) + rs.last().len
    }
}

proof fn lemma_runs_len_update_last(rs: Seq<StyledRun>, r: StyledRun)
    requires
        rs.len() > 0,
    ensures
        runs_len(rs.update(rs.len() - 1, r)) == runs_len(rs) - rs.last().len + r.len,
{
    assert(rs.update(rs.len() - 1, r).drop_last() =~= rs.drop_last());
}

proof fn lemma_runs_fold_text(ps: Seq<(Seq<char>, SpanFlags)>, base_weight: u16)
    ensures
        runs_fold(ps, base_weight).0 == pieces_text(ps),
    decreases ps.len(),
{
    if ps.len() > 0 {
        lemma_runs_fold_text(ps.drop_last(), base_weight);
        let t = wrap_breaks_text(ps.last().0);
        if t.len() == 0 {
            assert(pieces_text(ps.drop_last()) + t =~= pieces_text(ps.drop_last()));
        }
    }
}

proof fn lemma_pieces_text_prefix(ps: Seq<(Seq<char>, SpanFlags)>, j: int)
    requires
        0 <= j <= ps.len(),
    ensures
        utf8_len(pieces_text(ps.take(j))) <= utf8_len(pieces_text(ps)),
    decreases ps.len() - j,
{
    if j < ps.len() {
        lemma_pieces_text_prefix(ps, j + 1);
        assert(ps.take(j + 1).drop_last() =~= ps.take(j));
        lemma_utf8_len_concat(pieces_text(ps.take(j)), wrap_breaks_text(ps[j].0));
    } else {
        assert(ps.take(j) =~= ps);
    }
}

/// Run lengths add up to the text's byte length, every run is non-empty, and
/// neighboring runs differ in style.
pub open spec fn runs_cover(text: Seq<char>, rs: Seq<StyledRun>) -> bool {
    &&& runs_len(rs) == utf8_len(text)
    &&& forall|k: int| 0 <= k < rs.len() ==> #[trigger] rs[k].len > 0
    &&& forall|k: int| 0 < k < rs.len() ==> #[trigger] rs[k].style != rs[k - 1].style
}

proof fn lemma_runs_fold_cover(ps: Seq<(Seq<char>, SpanFlags)>, base_weight: u16)
    requires
        utf8_len(pieces_text(ps)) <= usize::MAX,
    ensures
        runs_cover(runs_fold(ps, base_weight).0, runs_fold(ps, base_weight).1),
    decreases ps.len(),
{
    if ps.len() > 0 {
        let prev = runs_fold(ps.drop_last(), base_weight);
        lemma_pieces_text_prefix(ps, ps.len() - 1);
        assert(ps.take(ps.len() - 1) =~= ps.drop_last());
        lemma_runs_fold_cover(ps.drop_last(), base_weight);
        lemma_runs_fold_text(ps.drop_last(), base_weight);
        let t = wrap_breaks_text(ps.last().0);
        let st = style_of(ps.last().1, base_weight);
        lemma_utf8_len_concat(prev.0, t);
        if t.len() > 0 {
            assert(utf8_len(t) > 0) by {
                assert(t.drop_last() + seq![t.last()] =~= t);
            }
            if prev.1.len() > 0 && prev.1.last().style == st {
                let r = StyledRun { len: (prev.1.last().len + utf8_len(t)) as usize, style: st };
                lemma_runs_len_update_last(prev.1, r);
                assert(prev.1.last().len <= runs_len(prev.1)) by {
                    lemma_runs_len_nonneg(prev.1.drop_last());
                }
            } else {
                assert(prev.1.push(StyledRun { len: utf8_len(t) as usize, style: st }).drop_last()
                    =~= prev.1);
            }
        }
    }
}

proof fn lemma_runs_len_nonneg(rs: Seq<StyledRun>)
    ensures
        runs_len(rs) >= 0,
    decreases rs.len(),
{
    if rs.len() > 0 {
        lemma_runs_len_nonneg(rs.drop_last());
    }
}

/// The styled runs of inline Markdown cover its text exactly: their lengths
/// add up to the text's UTF-8 byte length, none is empty, and neighboring
/// runs differ in style.
pub proof fn law_styled_runs_cover_text(inls: Seq<InlineView>, base_weight: u16)
    requires
        utf8_len(styled_parts_spec(inls, base_weight).0) <= usize::MAX,
    ensures
        runs_cover(styled_parts_spec(inls, base_weight).0, styled_parts_spec(inls, base_weight).1),
{
    let ps = pieces_of(inls, plain_flags());
    lemma_runs_fold_text(ps, base_weight);
    lemma_runs_fold_cover(ps, base_weight);
}

/// Text and styled runs of inline Markdown: marks nest, code is
/// monospace, links are underlined, long words get wrap breaks, and
/// adjacent pieces in the same style share one run.
pub fn styled_text_parts(inlines: &[Inline], base_weight: u16) -> (r: (String, Vec<StyledRun>))
    requires
        utf8_len(styled_parts_spec(inlines_view(inlines@), base_weight).0) <= usize::MAX,
    ensures
        (r.0@, r.1@) == styled_parts_spec(inlines_view(inlines@), base_weight),
{
    let mut pieces: Vec<(String, SpanFlags)> = Vec::new();
    flatten_pieces(inlines, SpanFlags::plain(), &mut pieces);
    let ghost ps = pieces_of(inlines_view(inlines@), plain_flags());
    assert(pieces_view(pieces@) =~= ps);
    proof {
        lemma_runs_fold_text(ps, base_weight);
    }
    let mut text = String::new();
    let mut runs: Vec<StyledRun> = Vec::new();
    let mut used: usize = 0;
    let mut i: usize = 0;
    assert(ps.take(0) =~= Seq::<(Seq<char>, SpanFlags)>::empty());
    while i < pieces.len()
        invariant
            i <= pieces.len(),
            ps == pieces_view(pieces@),
            utf8_len(pieces_text(ps)) <= usize::MAX,
            (text@, runs@) == runs_fold(ps.take(i as int), base_weight),
            used == utf8_len(text@),
        decreases pieces.len() - i,
    {
        proof {
            assert(ps.take(i + 1).drop_last() =~= ps.take(i as int));
            assert(ps.take(i + 1).last() == ps[i as int]);
            assert(ps[i as int] == (pieces@[i as int].0@, pieces@[i as int].1));
            lemma_pieces_text_prefix(ps, i + 1);
            lemma_runs_fold_text(ps.take(i + 1), base_weight);
            lemma_runs_fold_text(ps.take(i as int), base_weight);
        }
        let piece = with_wrap_breaks(pieces[i].0.as_str());
        let st = style_for(pieces[i].1, base_weight);
        let pc = chars_of(piece.as_str());
        let n = pc.len();
        if n > 0 {
            let w = byte_offset(pc.as_slice(), n);
            proof {
                assert(pc@.take(n as int) =~= pc@);
                lemma_utf8_len_concat(text@, piece@);
            }
            let wl = w as usize;
            let k = runs.len();
            if k > 0 && runs[k - 1].style == st {
                let last = runs[k - 1];
                proof {
                    lemma_runs_fold_cover(ps.take(i as int), base_weight);
                    lemma_runs_len_nonneg(runs@.drop_last());
                    assert(runs@.drop_last().push(runs@.last()) =~= runs@);
                }
                runs.set(k - 1, StyledRun { len: last.len + wl, style: st });
            } else {
                runs.push(StyledRun { len: wl, style: st });
            }
            text.append(piece.as_str());
            used = used + wl;
        } else {
            assert(piece@ =~= Seq::<char>::empty());
        }
        i += 1;
    }
    assert(ps.take(pieces.len() as int) =~= ps);
    (text, runs)
}

/// `t` without zero-width spaces: the text a reader sees.
pub open spec fn strip_zwsp(t: Seq<char>) -> Seq<char>
    decreases t.len(),
{
    if t.len() == 0 {
        Seq::empty()
    } else if t.last() == '\u{200B}' {
        strip_zwsp(t.drop_last())
    } else {
        strip_zwsp(t.drop_last()).push(t.last())
    }
}

proof fn lemma_strip_concat(a: Seq<char>, b: Seq<char>)
    ensures
        strip_zwsp(a + b) == strip_zwsp(a) + strip_zwsp(b),
    decreases b.len(),
{
    if b.len() == 0 {
        assert(a + b =~= a);
        assert(strip_zwsp(a) + strip_zwsp(b) =~= strip_zwsp(a));
    } else {
        lemma_strip_concat(a, b.drop_last());
        assert((a + b).drop_last() =~= a + b.drop_last());
        assert((a + b).last() == b.last());
        if b.last() != '\u{200B}' {
            assert(strip_zwsp(a) + strip_zwsp(b.drop_last()).push(b.last()) =~= (strip_zwsp(a)
                + strip_zwsp(b.drop_last())).push(b.last()));
        }
    }
}

proof fn lemma_strip_plain(t: Seq<char>)
    requires
        !t.contains('\u{200B}'),
    ensures
        strip_zwsp(t) == t,
    decreases t.len(),
{
    if t.len() > 0 {
        assert(!t.drop_last().contains('\u{200B}')) by {
            if t.drop_last().contains('\u{200B}') {
                let j = choose|j: int| 0 <= j < t.len() - 1 && t.drop_last()[j] == '\u{200B}';
                assert(t[j] == '\u{200B}');
            }
        }
        lemma_strip_plain(t.drop_last());
        assert(t[t.len() - 1] == t.last());
        assert(t.drop_last().push(t.last()) =~= t);
    }
}

/// Chunking invariant: consecutive ordered ranges from 0 up to the open
/// chunk's start, whose length is between 1 and `max` once a char is seen.
pub open spec fn chunk_state_ok(c: Seq<(int, int)>, s: int, k: int, i: int, max: int) -> bool {
    &&& (i == 0 ==> c.len() == 0 && s == 0 && k == 0)
    &&& (i >= 1 ==> 1 <= k <= max && s + k == i)
    &&& (c.len() == 0 ==> s == 0)
    &&& (c.len() > 0 ==> c[0].0 == 0 && c.last().1 == s)
    &&& forall|j: int| 0 <= j < c.len() ==> (#[trigger] c[j]).0 <= c[j].1
    &&& forall|j: int| 0 <= j < c.len() ==> (#[trigger] c[j]).1 - c[j].0 == max
    &&& forall|j: int| 0 <= j < c.len() - 1 ==> (#[trigger] c[j]).1 == c[j + 1].0
}

proof fn lemma_chunk_fold_ok(max: int, i: int)
    requires
        max >= 1,
        i >= 0,
    ensures
        chunk_state_ok(chunk_fold(max, i).0, chunk_fold(max, i).1, chunk_fold(max, i).2, i, max),
    decreases i,
{
    if i > 0 {
        lemma_chunk_fold_ok(max, i - 1);
        let (c, s, k) = chunk_fold(max, i - 1);
        if k == max {
            let c2 = c.push((s, i - 1));
            assert forall|j: int| 0 <= j < c2.len() - 1 implies (#[trigger] c2[j]).1 == c2[j + 1].0 by {
                if j < c.len() - 1 {
                    assert(c2[j] == c[j] && c2[j + 1] == c[j + 1]);
                } else {
                    assert(c2[j] == c.last());
                }
            }
            assert forall|j: int| 0 <= j < c2.len() implies (#[trigger] c2[j]).0 <= c2[j].1 by {
                if j < c.len() {
                    assert(c2[j] == c[j]);
                }
            }
            assert forall|j: int| 0 <= j < c2.len() implies (#[trigger] c2[j]).1 - c2[j].0 == max by {
                if j < c.len() {
                    assert(c2[j] == c[j]);
                }
            }
        }
    }
}

/// Concatenation of the pieces a list of ranges cuts out of `w`.
pub open spec fn pieces_at(w: Seq<char>, r: Seq<(int, int)>) -> Seq<Seq<char>> {
    r.map_values(|x: (int, int)| w.subrange(x.0, x.1))
}

proof fn lemma_join_ranges(w: Seq<char>, r: Seq<(int, int)>, b: int)
    requires
        r.len() > 0,
        0 <= r[0].0,
        r.last().1 == b,
        b <= w.len(),
        forall|j: int| 0 <= j < r.len() ==> (#[trigger] r[j]).0 <= r[j].1,
        forall|j: int| 0 <= j < r.len() - 1 ==> (#[trigger] r[j]).1 == r[j + 1].0,
    ensures
        join(pieces_at(w, r), Seq::empty()) == w.subrange(r[0].0, b),
    decreases r.len(),
{
    if r.len() == 1 {
        assert(pieces_at(w, r)[0] == w.subrange(r[0].0, r[0].1));
    } else {
        let q = r.drop_last();
        assert forall|j: int| 0 <= j < q.len() implies (#[trigger] q[j]).0 <= q[j].1 by {
            assert(q[j] == r[j]);
        }
        assert forall|j: int| 0 <= j < q.len() - 1 implies (#[trigger] q[j]).1 == q[j + 1].0 by {
            assert(q[j] == r[j] && q[j + 1] == r[j + 1]);
        }
        assert(q.last() == r[r.len() - 2]);
        assert(r[r.len() - 2].1 == r[r.len() - 1].0);
        assert forall|j: int| 0 <= j < r.len() implies r[0].0 <= (#[trigger] r[j]).0 && r[j].1 <= b by {
            lemma_ranges_between(r, j);
        }
        lemma_join_ranges(w, q, q.last().1);
        assert(pieces_at(w, r).drop_last() =~= pieces_at(w, q));
        assert(pieces_at(w, r).last() == w.subrange(r.last().0, b));
        assert(w.subrange(r[0].0, q.last().1) + Seq::<char>::empty() + w.subrange(r.last().0, b)
            =~= w.subrange(r[0].0, b));
    }
}

proof fn lemma_ranges_between(r: Seq<(int, int)>, j: int)
    requires
        0 <= j < r.len(),
        forall|k: int| 0 <= k < r.len() ==> (#[trigger] r[k]).0 <= r[k].1,
        forall|k: int| 0 <= k < r.len() - 1 ==> (#[trigger] r[k]).1 == r[k + 1].0,
    ensures
        r[0].0 <= r[j].0,
        r[j].1 <= r.last().1,
    decreases r.len(),
{
    lemma_ranges_from_start(r, j);
    lemma_ranges_to_end(r, j);
}

proof fn lemma_ranges_from_start(r: Seq<(int, int)>, j: int)
    requires
        0 <= j < r.len(),
        forall|k: int| 0 <= k < r.len() ==> (#[trigger] r[k]).0 <= r[k].1,
        forall|k: int| 0 <= k < r.len() - 1 ==> (#[trigger] r[k]).1 == r[k + 1].0,
    ensures
        r[0].0 <= r[j].0,
    decreases j,
{
    if j > 0 {
        lemma_ranges_from_start(r, j - 1);
        assert(r[j - 1].1 == r[j].0);
    }
}

proof fn lemma_ranges_to_end(r: Seq<(int, int)>, j: int)
    requires
        0 <= j < r.len(),
        forall|k: int| 0 <= k < r.len() ==> (#[trigger] r[k]).0 <= r[k].1,
        forall|k: int| 0 <= k < r.len() - 1 ==> (#[trigger] r[k]).1 == r[k + 1].0,
    ensures
        r[j].1 <= r.last().1,
    decreases r.len() - j,
{
    if j < r.len() - 1 {
        lemma_ranges_to_end(r, j + 1);
        assert(r[j].1 == r[j + 1].0);
    }
}

/// The chunks of a word joined back together give the word.
proof fn lemma_chunks_rejoin(w: Seq<char>, max: int)
    requires
        max >= 1,
    ensures
        join(chunks_of(w, max), Seq::empty()) == w,
{
    let n = w.len() as int;
    let r = chunk_ranges(n, max);
    assert(chunks_of(w, max) == pieces_at(w, r));
    if n <= max {
        assert(w.subrange(0, n) =~= w);
        assert(pieces_at(w, r)[0] == w.subrange(0, n));
    } else {
        lemma_chunk_fold_ok(max, n);
        let (c, s, k) = chunk_fold(max, n);
        let r2 = c.push((s, n));
        assert(r == r2);
        assert forall|j: int| 0 <= j < r2.len() implies (#[trigger] r2[j]).0 <= r2[j].1 by {
            if j < c.len() {
                assert(r2[j] == c[j]);
            }
        }
        assert forall|j: int| 0 <= j < r2.len() - 1 implies (#[trigger] r2[j]).1 == r2[j + 1].0 by {
            if j < c.len() - 1 {
                assert(r2[j] == c[j] && r2[j + 1] == c[j + 1]);
            } else {
                assert(r2[j] == c.last());
            }
        }
        if c.len() > 0 {
            assert(r2[0] == c[0]);
        }
        lemma_join_ranges(w, r2, n);
        assert(w.subrange(0, n) =~= w);
    }
}

proof fn lemma_strip_join_zwsp(parts: Seq<Seq<char>>)
    ensures
        strip_zwsp(join(parts, seq!['\u{200B}'])) == join(
            parts.map_values(|p: Seq<char>| strip_zwsp(p)),
            Seq::empty(),
        ),
    decreases parts.len(),
{
    let sp = parts.map_values(|p: Seq<char>| strip_zwsp(p));
    if parts.len() == 1 {
        assert(sp[0] == strip_zwsp(parts[0]));
    } else if parts.len() > 1 {
        lemma_strip_join_zwsp(parts.drop_last());
        let j = join(parts.drop_last(), seq!['\u{200B}']);
        lemma_strip_concat(j + seq!['\u{200B}'], parts.last());
        lemma_strip_concat(j, seq!['\u{200B}']);
        assert(seq!['\u{200B}'].drop_last() =~= Seq::<char>::empty());
        assert(seq!['\u{200B}'].last() == '\u{200B}');
        assert(strip_zwsp(Seq::<char>::empty()) =~= Seq::<char>::empty());
        assert(strip_zwsp(seq!['\u{200B}']) =~= Seq::<char>::empty());
        assert(sp.drop_last() =~= parts.drop_last().map_values(|p: Seq<char>| strip_zwsp(p)));
        assert(join(sp, Seq::empty()) == join(sp.drop_last(), Seq::empty()) + Seq::<char>::empty()
            + sp.last());
        assert(strip_zwsp(j) + Seq::<char>::empty() =~= strip_zwsp(j));
    }
}

proof fn lemma_strip_broken_word(w: Seq<char>)
    requires
        !w.contains('\u{200B}'),
    ensures
        strip_zwsp(broken_word(w)) == w,
{
    let cs = chunks_of(w, 40);
    lemma_strip_join_zwsp(cs);
    let r = chunk_ranges(w.len() as int, 40);
    lemma_chunk_ranges_within(w.len() as int, 40);
    assert(cs.map_values(|p: Seq<char>| strip_zwsp(p)) =~= cs) by {
        assert forall|j: int| 0 <= j < cs.len() implies strip_zwsp(cs[j]) == cs[j] by {
            let x = r[j];
            assert(cs[j] == w.subrange(x.0, x.1));
            assert(!w.subrange(x.0, x.1).contains('\u{200B}')) by {
                if w.subrange(x.0, x.1).contains('\u{200B}') {
                    let k = choose|k: int| 0 <= k < x.1 - x.0 && w.subrange(x.0, x.1)[k] == '\u{200B}';
                    assert(w[x.0 + k] == '\u{200B}');
                }
            }
            lemma_strip_plain(cs[j]);
        }
    }
    lemma_chunks_rejoin(w, 40);
}

proof fn lemma_chunk_ranges_within(n: int, max: int)
    requires
        n >= 0,
        max >= 1,
    ensures
        forall|j: int|
            0 <= j < chunk_ranges(n, max).len() ==> 0 <= (#[trigger] chunk_ranges(n, max)[j]).0
                <= chunk_ranges(n, max)[j].1 <= n,
{
    if n > max {
        lemma_chunk_fold_bounds(max, n);
        lemma_chunk_fold_ok(max, n);
        let (c, s, k) = chunk_fold(max, n);
        assert forall|j: int| 0 <= j < chunk_ranges(n, max).len() implies 0 <= (#[trigger] chunk_ranges(
            n,
            max,
        )[j]).0 <= chunk_ranges(n, max)[j].1 <= n by {
            if j < c.len() {
                assert(chunk_ranges(n, max)[j] == c[j]);
            }
        }
    }
}

proof fn lemma_wrap_fold_strip(t: Seq<char>, i: int)
    requires
        0 <= i <= t.len(),
        !t.contains('\u{200B}'),
    ensures
        0 <= wrap_fold(t, i).1 <= i,
        strip_zwsp(wrap_fold(t, i).0) == t.subrange(0, wrap_fold(t, i).1),
    decreases i,
{
    if i == 0 {
        assert(t.subrange(0, 0) =~= Seq::<char>::empty());
    } else {
        lemma_wrap_fold_strip(t, i - 1);
        let (out, ws) = wrap_fold(t, i - 1);
        if is_ws(t[i - 1]) {
            let word = t.subrange(ws, i - 1);
            assert(!word.contains('\u{200B}')) by {
                if word.contains('\u{200B}') {
                    let k = choose|k: int| 0 <= k < word.len() && word[k] == '\u{200B}';
                    assert(t[ws + k] == '\u{200B}');
                }
            }
            lemma_strip_broken_word(word);
            lemma_strip_concat(out + broken_word(word), seq![t[i - 1]]);
            lemma_strip_concat(out, broken_word(word));
            assert(t[i - 1] != '\u{200B}');
            assert(seq![t[i - 1]].drop_last() =~= Seq::<char>::empty());
            assert(seq![t[i - 1]].last() == t[i - 1]);
            assert(strip_zwsp(Seq::<char>::empty()) =~= Seq::<char>::empty());
            assert(Seq::<char>::empty().push(t[i - 1]) =~= seq![t[i - 1]]);
            assert(strip_zwsp(seq![t[i - 1]]) =~= seq![t[i - 1]]);
            assert(t.subrange(0, ws) + word + seq![t[i - 1]] =~= t.subrange(0, i));
        }
    }
}

/// Wrap breaks only add zero-width spaces: removing them gives back the
/// text (for text that had none).
pub proof fn law_wrap_breaks_keep_visible_text(t: Seq<char>)
    requires
        !t.contains('\u{200B}'),
    ensures
        strip_zwsp(wrap_breaks_text(t)) == t,
{
    let n = t.len() as int;
    lemma_wrap_fold_strip(t, n);
    let (out, ws) = wrap_fold(t, n);
    let word = t.subrange(ws, n);
    assert(!word.contains('\u{200B}')) by {
        if word.contains('\u{200B}') {
            let k = choose|k: int| 0 <= k < word.len() && word[k] == '\u{200B}';
            assert(t[ws + k] == '\u{200B}');
        }
    }
    lemma_strip_broken_word(word);
    lemma_strip_concat(out, broken_word(word));
    assert(t.subrange(0, ws) + word =~= t);
}

/// A long word's chunks join back into the word, and none holds more than
/// `max` chars.
pub proof fn law_chunks_rejoin_word(w: Seq<char>, max: int)
    requires
        max >= 1,
    ensures
        join(chunks_of(w, max), Seq::empty()) == w,
        forall|j: int| 0 <= j < chunks_of(w, max).len() ==> (#[trigger] chunks_of(w, max)[j]).len() <= max,
{
    lemma_chunks_rejoin(w, max);
    let n = w.len() as int;
    lemma_chunk_ranges_within(n, max);
    let r = chunk_ranges(n, max);
    if n > max {
        lemma_chunk_fold_ok(max, n);
    }
    assert forall|j: int| 0 <= j < chunks_of(w, max).len() implies (#[trigger] chunks_of(w, max)[j]).len()
        <= max by {
        assert(chunks_of(w, max)[j] == w.subrange(r[j].0, r[j].1));
        if n > max {
            let (c, s, k) = chunk_fold(max, n);
            if j < c.len() {
                assert(r[j] == c[j]);
            }
        }
    }
}

} // verus!
