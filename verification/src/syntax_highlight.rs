//! Syntax highlighting for fenced Markdown code blocks.
//!
//! Tokenizing and coloring are syntect's; this module picks the syntax and
//! theme, cuts the text into lines, and turns syntect's styled ranges into
//! [`HighlightedLine`]s, falling back to plain lines whenever syntect has no
//! answer.

use crate::text::{
    trim_end_char, trim_end_exec, chars_of, lower_chars, lower_seq, owned, split_char, split_chars, string_of, str_eq, trim, trim_str,
};
use syntect::easy::HighlightLines;
use syntect::highlighting::ThemeSet;
use syntect::parsing::SyntaxSet;
use vstd::prelude::*;

verus! {

/// Light or dark appearance of the shell.
#[derive(Debug, Clone, Copy, PartialEq, Eq, Structural)]
pub enum ColorScheme {
    /// Dark appearance.
    Dark,
    /// Light appearance.
    Light,
}

/// A colored span of source text within a highlighted line.
#[derive(Debug, PartialEq, Eq)]
pub struct HighlightedSpan {
    /// Source text for this span.
    pub text: String,
    /// Foreground RGB color.
    pub rgb: (u8, u8, u8),
}

impl Clone for HighlightedSpan {
    fn clone(&self) -> (r: Self)
        ensures
            r@ == self@,
    {
        HighlightedSpan { text: self.text.clone(), rgb: self.rgb }
    }
}

impl View for HighlightedSpan {
    type V = (Seq<char>, (u8, u8, u8));

    open spec fn view(&self) -> (Seq<char>, (u8, u8, u8)) {
        (self.text@, self.rgb)
    }
}

/// One line of highlighted source, as ordered spans.
#[derive(Debug, Clone, PartialEq, Eq)]
pub struct HighlightedLine {
    /// Colored spans that reconstruct the line (without trailing newline).
    pub spans: Vec<HighlightedSpan>,
}

impl View for HighlightedLine {
    type V = Seq<(Seq<char>, (u8, u8, u8))>;

    open spec fn view(&self) -> Seq<(Seq<char>, (u8, u8, u8))> {
        self.spans@.map_values(|s: HighlightedSpan| s@)
    }
}

/// Views of a list of highlighted lines.
pub open spec fn lines_view(v: Seq<HighlightedLine>) -> Seq<Seq<(Seq<char>, (u8, u8, u8))>> {
    v.map_values(|l: HighlightedLine| l@)
}

/// Default foreground of a scheme.
pub open spec fn default_fg(scheme: ColorScheme) -> (u8, u8, u8) {
    match scheme {
        ColorScheme::Dark => (0xcdu8, 0xd6u8, 0xf4u8),
        ColorScheme::Light => (0x4cu8, 0x4fu8, 0x69u8),
    }
}

fn default_foreground(scheme: ColorScheme) -> (r: (u8, u8, u8))
    ensures
        r == default_fg(scheme),
{
    match scheme {
        ColorScheme::Dark => (0xcd, 0xd6, 0xf4),
        ColorScheme::Light => (0x4c, 0x4f, 0x69),
    }
}

/// One single-span line per `'\n'`-separated piece of `content`.
pub open spec fn plain_spec(content: Seq<char>, rgb: (u8, u8, u8)) -> Seq<
    Seq<(Seq<char>, (u8, u8, u8))>,
> {
    split_char(content, '\n').map_values(|l: Seq<char>| seq![(l, rgb)])
}

fn span_line(text: &[char], rgb: (u8, u8, u8)) -> (r: HighlightedLine)
    ensures
        r@ == seq![(text@, rgb)],
{
    let mut spans: Vec<HighlightedSpan> = Vec::new();
    spans.push(HighlightedSpan { text: string_of(text), rgb });
    let r = HighlightedLine { spans };
    assert(r@ =~= seq![(text@, rgb)]);
    r
}

/// Plain lines in `rgb`, one per `'\n'`-separated piece of `content`.
pub fn plain_lines(content: &str, rgb: (u8, u8, u8)) -> (r: Vec<HighlightedLine>)
    ensures
        lines_view(r@) == plain_spec(content@, rgb),
{
    let cs = chars_of(content);
    let pieces = split_chars(cs.as_slice(), '\n');
    let ghost p = split_char(content@, '\n');
    let mut out: Vec<HighlightedLine> = Vec::new();
    let mut i: usize = 0;
    while i < pieces.len()
        invariant
            i <= pieces.len(),
            crate::text::chars_list(pieces@) == p,
            p == split_char(content@, '\n'),
            lines_view(out@) == plain_spec(content@, rgb).take(i as int),
        decreases pieces.len() - i,
    {
        let line = span_line(pieces[i].as_slice(), rgb);
        let ghost prev = out@;
        out.push(line);
        proof {
            assert(pieces@[i as int]@ == p[i as int]);
            assert(lines_view(out@) =~= lines_view(prev).push(line@));
            assert(plain_spec(content@, rgb).take(i + 1) =~= plain_spec(content@, rgb).take(
                i as int,
            ).push(seq![(p[i as int], rgb)]));
        }
        i += 1;
    }
    assert(plain_spec(content@, rgb).take(pieces.len() as int) =~= plain_spec(content@, rgb));
    out
}

/// A syntect range's text without its line ending.
pub open spec fn range_text(t: Seq<char>) -> Seq<char> {
    trim_end_char(trim_end_char(t, '\n'), '\r')
}

/// Spans kept from styled ranges: each range's text without its line
/// ending, in order, dropping those left empty.
pub open spec fn kept_spans(ranges: Seq<((u8, u8, u8), Seq<char>)>) -> Seq<
    (Seq<char>, (u8, u8, u8)),
>
    decreases ranges.len(),
{
    if ranges.len() == 0 {
        Seq::empty()
    } else {
        let prev = kept_spans(ranges.drop_last());
        let t = range_text(ranges.last().1);
        if t.len() == 0 {
            prev
        } else {
            prev.push((t, ranges.last().0))
        }
    }
}

/// The spans of one highlighted line; a line with no text keeps a single
/// empty span in the default color.
pub open spec fn line_spans(ranges: Seq<((u8, u8, u8), Seq<char>)>, fg: (u8, u8, u8)) -> Seq<
    (Seq<char>, (u8, u8, u8)),
> {
    if kept_spans(ranges).len() == 0 {
        seq![(Seq::empty(), fg)]
    } else {
        kept_spans(ranges)
    }
}

/// Char views of styled ranges.
pub open spec fn ranges_view(v: Seq<((u8, u8, u8), String)>) -> Seq<((u8, u8, u8), Seq<char>)> {
    v.map_values(|r: ((u8, u8, u8), String)| (r.0, r.1@))
}

/// One highlighted line from syntect's styled ranges for it.
pub fn line_from_ranges(ranges: &[((u8, u8, u8), String)], fg: (u8, u8, u8)) -> (r: HighlightedLine)
    ensures
        r@ == line_spans(ranges_view(ranges@), fg),
{
    let ghost rv = ranges_view(ranges@);
    let mut spans: Vec<HighlightedSpan> = Vec::new();
    let mut i: usize = 0;
    while i < ranges.len()
        invariant
            i <= ranges.len(),
            rv == ranges_view(ranges@),
            spans@.map_values(|s: HighlightedSpan| s@) == kept_spans(rv.take(i as int)),
        decreases ranges.len() - i,
    {
        let (rgb, ref text) = ranges[i];
        let cs = chars_of(text.as_str());
        let a = trim_end_exec(cs.as_slice(), '\n');
        let head = crate::text::slice_to_vec(cs.as_slice(), 0, a);
        let b = trim_end_exec(head.as_slice(), '\r');
        proof {
            assert(rv.take(i + 1).drop_last() =~= rv.take(i as int));
            assert(rv.take(i + 1).last() == (rgb, text@));
            assert(head@ == trim_end_char(text@, '\n'));
        }
        if b > 0 {
            let kept = crate::text::slice_to_vec(head.as_slice(), 0, b);
            let ghost prev = spans@;
            spans.push(HighlightedSpan { text: string_of(kept.as_slice()), rgb });
            assert(spans@.map_values(|s: HighlightedSpan| s@) =~= prev.map_values(
                |s: HighlightedSpan| s@,
            ).push((kept@, rgb)));
        }
        i += 1;
    }
    assert(rv.take(ranges.len() as int) =~= rv);
    if spans.len() == 0 {
        let empty: Vec<char> = Vec::new();
        span_line(empty.as_slice(), fg)
    } else {
        HighlightedLine { spans }
    }
}

/// `content` cut after each `'\n'` (kept), without an empty last piece:
/// the lines syntect's `LinesWithEndings` yields.
pub open spec fn lines_with_endings_spec(content: Seq<char>) -> Seq<Seq<char>> {
    let p = split_char(content, '\n');
    Seq::new((p.len() - 1) as nat, |i: int| p[i].push('\n')) + (if p.last().len() > 0 {
        seq![p.last()]
    } else {
        Seq::empty()
    })
}

/// Cuts `content` into lines that keep their `'\n'`.
pub fn lines_with_endings(content: &str) -> (r: Vec<String>)
    ensures
        crate::text::strings_view(r@) == lines_with_endings_spec(content@),
{
    let cs = chars_of(content);
    let pieces = split_chars(cs.as_slice(), '\n');
    let ghost p = split_char(content@, '\n');
    proof {
        crate::text::lemma_split_char_nonempty(content@, '\n');
    }
    let n = pieces.len();
    let mut out: Vec<String> = Vec::new();
    let mut i: usize = 0;
    while i + 1 < n
        invariant
            n == pieces.len(),
            n >= 1,
            i + 1 <= n,
            crate::text::chars_list(pieces@) == p,
            p == split_char(content@, '\n'),
            crate::text::strings_view(out@) == Seq::new(i as nat, |j: int| p[j].push('\n')),
        decreases n - i,
    {
        let mut line = string_of(pieces[i].as_slice());
        line.append("\n");
        let ghost prev = out@;
        out.push(line);
        proof {
            reveal_strlit("\n");
            assert(pieces@[i as int]@ == p[i as int]);
            assert(line@ =~= p[i as int].push('\n'));
            assert(crate::text::strings_view(out@) =~= crate::text::strings_view(prev).push(line@));
            assert(crate::text::strings_view(out@) =~= Seq::new((i + 1) as nat, |j: int| p[j].push('\n')));
        }
        i += 1;
    }
    let ghost body = out@;
    assert(pieces@[n - 1]@ == p.last());
    if pieces[n - 1].len() > 0 {
        out.push(string_of(pieces[n - 1].as_slice()));
        assert(crate::text::strings_view(out@) =~= crate::text::strings_view(body).push(p.last()));
    }
    assert(crate::text::strings_view(out@) =~= lines_with_endings_spec(content@));
    out
}

/// Views of syntect's styled ranges for each line.
pub open spec fn raw_view(v: Seq<Vec<((u8, u8, u8), String)>>) -> Seq<
    Seq<((u8, u8, u8), Seq<char>)>,
> {
    v.map_values(|x: Vec<((u8, u8, u8), String)>| ranges_view(x@))
}

/// View of syntect's answer for a whole text.
pub open spec fn raw_opt_view(raw: Option<Vec<Vec<((u8, u8, u8), String)>>>) -> Option<
    Seq<Seq<((u8, u8, u8), Seq<char>)>>,
> {
    match raw {
        Some(v) => Some(raw_view(v@)),
        None => None,
    }
}

/// Highlighted lines from styled ranges, one per line.
pub open spec fn hl_lines(ls: Seq<Seq<((u8, u8, u8), Seq<char>)>>, fg: (u8, u8, u8)) -> Seq<
    Seq<(Seq<char>, (u8, u8, u8))>,
> {
    ls.map_values(|r: Seq<((u8, u8, u8), Seq<char>)>| line_spans(r, fg))
}

/// Highlighted lines from syntect's styled ranges, one per line of
/// `content`, plus an empty line after a final `'\n'`; without ranges, the
/// plain lines.
pub open spec fn finish_spec(
    raw: Option<Seq<Seq<((u8, u8, u8), Seq<char>)>>>,
    content: Seq<char>,
    fg: (u8, u8, u8),
) -> Seq<Seq<(Seq<char>, (u8, u8, u8))>> {
    match raw {
        None => plain_spec(content, fg),
        Some(ls) => hl_lines(ls, fg) + (if content.len()
            > 0 && content.last() == '\n' {
            seq![seq![(Seq::<char>::empty(), fg)]]
        } else {
            Seq::empty()
        }),
    }
}

/// Highlighted lines from syntect's styled ranges for each line of
/// `content` (`None`: syntect had no answer, so plain lines).
pub fn finish_highlight(
    raw: Option<Vec<Vec<((u8, u8, u8), String)>>>,
    content: &str,
    scheme: ColorScheme,
) -> (r: Vec<HighlightedLine>)
    ensures
        lines_view(r@) == finish_spec(raw_opt_view(raw), content@, default_fg(scheme)),
{
    let fg = default_foreground(scheme);
    match raw {
        None => plain_lines(content, fg),
        Some(ls) => {
            let ghost rv = raw_view(ls@);
            let mut out: Vec<HighlightedLine> = Vec::new();
            let mut i: usize = 0;
            while i < ls.len()
                invariant
                    i <= ls.len(),
                    rv == raw_view(ls@),
                    lines_view(out@) == hl_lines(rv.take(i as int), fg),
                decreases ls.len() - i,
            {
                let line = line_from_ranges(ls[i].as_slice(), fg);
                let ghost prev = out@;
                out.push(line);
                proof {
                    assert(rv[i as int] == ranges_view(ls@[i as int]@));
                    assert(lines_view(out@) =~= lines_view(prev).push(line@));
                    assert(hl_lines(rv.take(i + 1), fg) =~= hl_lines(rv.take(i as int), fg).push(
                        line_spans(rv[i as int], fg),
                    ));
                }
                i += 1;
            }
            assert(rv.take(ls.len() as int) =~= rv);
            let cs = chars_of(content);
            let ghost body = out@;
            if cs.len() > 0 && cs[cs.len() - 1] == '\n' {
                let empty: Vec<char> = Vec::new();
                let last = span_line(empty.as_slice(), fg);
                out.push(last);
                assert(lines_view(out@) =~= lines_view(body).push(last@));
            }
            proof {
                let tail = if content@.len() > 0 && content@.last() == '\n' {
                    seq![seq![(Seq::<char>::empty(), fg)]]
                } else {
                    Seq::empty()
                };
                assert(lines_view(out@) =~= hl_lines(rv, fg) + tail);
            }
            out
        },
    }
}

#[verifier::external_type_specification]
#[verifier::external_body]
pub struct ExSyntaxSet(SyntaxSet);

#[verifier::external_type_specification]
#[verifier::external_body]
pub struct ExThemeSet(ThemeSet);

#[verifier::external_type_specification]
#[verifier::external_body]
pub struct ExHighlightLines<'a>(HighlightLines<'a>);

/// The text a list of styled ranges covers, in order.
pub open spec fn ranges_text(v: Seq<((u8, u8, u8), Seq<char>)>) -> Seq<char>
    decreases v.len(),
{
    if v.len() == 0 {
        Seq::empty()
    } else {
        ranges_text(v.drop_last()) + v.last().1
    }
}

/// How a syntax was looked up in syntect's bundled syntax set.
#[derive(Debug, Clone, Copy, PartialEq, Eq, Structural)]
pub enum SyntaxLookup {
    /// `SyntaxSet::find_syntax_by_name`.
    ByName,
    /// `SyntaxSet::find_syntax_by_extension`.
    ByExtension,
    /// `SyntaxSet::find_syntax_by_token`.
    ByToken,
}

/// Name of the syntax `SyntaxSet::find_syntax_by_name` finds for `name` in
/// syntect's bundled syntaxes (`load_defaults_newlines`).
pub uninterp spec fn bundled_syntax_by_name(name: Seq<char>) -> Option<Seq<char>>;

/// Name of the syntax `SyntaxSet::find_syntax_by_extension` finds for `ext`
/// in syntect's bundled syntaxes.
pub uninterp spec fn bundled_syntax_by_extension(ext: Seq<char>) -> Option<Seq<char>>;

/// Name of the syntax `SyntaxSet::find_syntax_by_token` finds for `token` in
/// syntect's bundled syntaxes.
pub uninterp spec fn bundled_syntax_by_token(token: Seq<char>) -> Option<Seq<char>>;

/// Whether syntect's bundled themes (`ThemeSet::load_defaults`) hold a theme
/// of that name.
pub uninterp spec fn bundled_has_theme(name: Seq<char>) -> bool;

/// What `HighlightLines::highlight_line` returns for `line` (each range as
/// its foreground color and text; `None` on syntect's error), for the bundled
/// syntax looked up by `lookup` with `arg`, the bundled theme `theme`, after
/// the highlighter was fed the lines `earlier`.
pub uninterp spec fn bundled_line_ranges(
    lookup: SyntaxLookup,
    arg: Seq<char>,
    theme: Seq<char>,
    earlier: Seq<Seq<char>>,
    line: Seq<char>,
) -> Option<Seq<((u8, u8, u8), Seq<char>)>>;

/// The bundled syntax found by `lookup` with `arg`, by name.
pub open spec fn bundled_lookup(lookup: SyntaxLookup, arg: Seq<char>) -> Option<Seq<char>> {
    match lookup {
        SyntaxLookup::ByName => bundled_syntax_by_name(arg),
        SyntaxLookup::ByExtension => bundled_syntax_by_extension(arg),
        SyntaxLookup::ByToken => bundled_syntax_by_token(arg),
    }
}

/// syntect's bundled syntaxes and themes, loaded once and reused. Its sets
/// are only ever the bundled ones: the fields are private and
/// [`CodeHighlighter::load_defaults`] is the only constructor.
pub struct CodeHighlighter {
    syntaxes: SyntaxSet,
    themes: ThemeSet,
}

/// syntect's bundled syntaxes for lines that keep their `'\n'`
/// (`SyntaxSet::load_defaults_newlines`).
#[verifier::external_body]
fn load_syntax_set() -> SyntaxSet {
    SyntaxSet::load_defaults_newlines()
}

/// syntect's bundled themes (`ThemeSet::load_defaults`).
#[verifier::external_body]
fn load_theme_set() -> ThemeSet {
    ThemeSet::load_defaults()
}

/// `SyntaxSet::find_syntax_by_name` on the bundled syntaxes, with the found
/// syntax's name; the source returns a syntax whose name equals `name`.
#[verifier::external_body]
fn find_by_name(h: &CodeHighlighter, name: &str) -> (r: Option<String>)
    ensures
        opt_string_view(r) == bundled_syntax_by_name(name@),
        r matches Some(n) ==> n@ == name@,
{
    h.syntaxes.find_syntax_by_name(name).map(|s| s.name.clone())
}

/// `SyntaxSet::find_syntax_by_extension` on the bundled syntaxes, with the
/// found syntax's name.
#[verifier::external_body]
fn find_by_extension(h: &CodeHighlighter, ext: &str) -> (r: Option<String>)
    ensures
        opt_string_view(r) == bundled_syntax_by_extension(ext@),
{
    h.syntaxes.find_syntax_by_extension(ext).map(|s| s.name.clone())
}

/// `SyntaxSet::find_syntax_by_token` on the bundled syntaxes, with the found
/// syntax's name.
#[verifier::external_body]
fn find_by_token(h: &CodeHighlighter, token: &str) -> (r: Option<String>)
    ensures
        opt_string_view(r) == bundled_syntax_by_token(token@),
{
    h.syntaxes.find_syntax_by_token(token).map(|s| s.name.clone())
}

/// A syntect line highlighter with what it was built from and the lines it
/// has been fed so far.
pub struct LineHighlighter<'a> {
    inner: HighlightLines<'a>,
    lookup: Ghost<SyntaxLookup>,
    arg: Ghost<Seq<char>>,
    theme: Ghost<Seq<char>>,
    fed: Ghost<Seq<Seq<char>>>,
}

impl<'a> LineHighlighter<'a> {
    /// How its syntax was looked up.
    pub closed spec fn lookup(&self) -> SyntaxLookup {
        self.lookup@
    }

    /// The argument of that lookup.
    pub closed spec fn arg(&self) -> Seq<char> {
        self.arg@
    }

    /// Its theme's name.
    pub closed spec fn theme(&self) -> Seq<char> {
        self.theme@
    }

    /// The lines it has been fed, in order.
    pub closed spec fn fed(&self) -> Seq<Seq<char>> {
        self.fed@
    }
}

/// `HighlightLines::new` for the bundled syntax `SyntaxSet::find_syntax_by_name`
/// finds for `name` and the bundled theme named `theme` (`BTreeMap::get` on
/// `ThemeSet::themes`); `None` when either is missing. The highlighter has
/// been fed no line yet.
#[verifier::external_body]
fn highlighter_by_name<'a>(h: &'a CodeHighlighter, name: &str, theme: &str) -> (r: Option<LineHighlighter<'a>>)
    ensures
        r is Some <==> (bundled_syntax_by_name(name@) is Some && bundled_has_theme(theme@)),
        r matches Some(hl) ==> {
            &&& hl.lookup() == SyntaxLookup::ByName
            &&& hl.arg() == name@
            &&& hl.theme() == theme@
            &&& hl.fed() == Seq::<Seq<char>>::empty()
        },
{
    let syntax = h.syntaxes.find_syntax_by_name(name)?;
    let t = h.themes.themes.get(theme)?;
    Some(LineHighlighter {
        inner: HighlightLines::new(syntax, t),
        lookup: Ghost(SyntaxLookup::ByName),
        arg: Ghost(name@),
        theme: Ghost(theme@),
        fed: Ghost(Seq::empty()),
    })
}

/// `HighlightLines::new` for the bundled syntax `SyntaxSet::find_syntax_by_extension`
/// finds for `ext` and the bundled theme named `theme` (`BTreeMap::get` on
/// `ThemeSet::themes`); `None` when either is missing. The highlighter has
/// been fed no line yet.
#[verifier::external_body]
fn highlighter_by_extension<'a>(h: &'a CodeHighlighter, ext: &str, theme: &str) -> (r: Option<LineHighlighter<'a>>)
    ensures
        r is Some <==> (bundled_syntax_by_extension(ext@) is Some && bundled_has_theme(theme@)),
        r matches Some(hl) ==> {
            &&& hl.lookup() == SyntaxLookup::ByExtension
            &&& hl.arg() == ext@
            &&& hl.theme() == theme@
            &&& hl.fed() == Seq::<Seq<char>>::empty()
        },
{
    let syntax = h.syntaxes.find_syntax_by_extension(ext)?;
    let t = h.themes.themes.get(theme)?;
    Some(LineHighlighter {
        inner: HighlightLines::new(syntax, t),
        lookup: Ghost(SyntaxLookup::ByExtension),
        arg: Ghost(ext@),
        theme: Ghost(theme@),
        fed: Ghost(Seq::empty()),
    })
}

/// `HighlightLines::new` for the bundled syntax `SyntaxSet::find_syntax_by_token`
/// finds for `token` and the bundled theme named `theme` (`BTreeMap::get` on
/// `ThemeSet::themes`); `None` when either is missing. The highlighter has
/// been fed no line yet.
#[verifier::external_body]
fn highlighter_by_token<'a>(h: &'a CodeHighlighter, token: &str, theme: &str) -> (r: Option<LineHighlighter<'a>>)
    ensures
        r is Some <==> (bundled_syntax_by_token(token@) is Some && bundled_has_theme(theme@)),
        r matches Some(hl) ==> {
            &&& hl.lookup() == SyntaxLookup::ByToken
            &&& hl.arg() == token@
            &&& hl.theme() == theme@
            &&& hl.fed() == Seq::<Seq<char>>::empty()
        },
{
    let syntax = h.syntaxes.find_syntax_by_token(token)?;
    let t = h.themes.themes.get(theme)?;
    Some(LineHighlighter {
        inner: HighlightLines::new(syntax, t),
        lookup: Ghost(SyntaxLookup::ByToken),
        arg: Ghost(token@),
        theme: Ghost(theme@),
        fed: Ghost(Seq::empty()),
    })
}

/// `HighlightLines::highlight_line` on the next line, each styled range as
/// its foreground color and text; `None` on syntect's error. The ranges
/// cover the line exactly, in order (`HighlightIterator` yields consecutive
/// slices of the line).
#[verifier::external_body]
fn highlight_line(h: &CodeHighlighter, hl: &mut LineHighlighter<'_>, line: &str) -> (r: Option<
    Vec<((u8, u8, u8), String)>,
>)
    ensures
        match r {
            Some(v) => bundled_line_ranges(
                old(hl).lookup(),
                old(hl).arg(),
                old(hl).theme(),
                old(hl).fed(),
                line@,
            ) == Some(ranges_view(v@)) && ranges_text(ranges_view(v@)) == line@,
            None => bundled_line_ranges(
                old(hl).lookup(),
                old(hl).arg(),
                old(hl).theme(),
                old(hl).fed(),
                line@,
            ) is None,
        },
        final(hl).lookup() == old(hl).lookup(),
        final(hl).arg() == old(hl).arg(),
        final(hl).theme() == old(hl).theme(),
        final(hl).fed() == old(hl).fed().push(line@),
{
    hl.inner.highlight_line(line, &h.syntaxes).ok().map(
        |v| v.into_iter().map(|(st, t)| ((st.foreground.r, st.foreground.g, st.foreground.b), t.to_string())).collect(),
    )
}

/// Optional string as an optional char sequence.
pub open spec fn opt_string_view(o: Option<String>) -> Option<Seq<char>> {
    match o {
        Some(s) => Some(s@),
        None => None,
    }
}

/// Syntax name a lower-cased fence language stands for (the key itself
/// when it is no known alias).
pub open spec fn alias_of(key: Seq<char>) -> Seq<char> {
    if key == "rs"@ {
        "Rust"@
    } else if key == "py"@ || key == "python"@ {
        "Python"@
    } else if key == "js"@ || key == "javascript"@ || key == "jsx"@ {
        "JavaScript"@
    } else if key == "ts"@ || key == "typescript"@ || key == "tsx"@ {
        "TypeScript"@
    } else if key == "go"@ || key == "golang"@ {
        "Go"@
    } else if key == "c"@ {
        "C"@
    } else if key == "cpp"@ || key == "c++"@ || key == "cc"@ || key == "cxx"@ {
        "C++"@
    } else if key == "sh"@ || key == "bash"@ || key == "shell"@ || key == "zsh"@ {
        "Bash"@
    } else if key == "json"@ {
        "JSON"@
    } else if key == "toml"@ {
        "TOML"@
    } else if key == "yaml"@ || key == "yml"@ {
        "YAML"@
    } else if key == "html"@ || key == "htm"@ {
        "HTML"@
    } else if key == "css"@ {
        "CSS"@
    } else if key == "sql"@ {
        "SQL"@
    } else if key == "md"@ || key == "markdown"@ {
        "Markdown"@
    } else {
        key
    }
}

/// Syntax name for a lower-cased fence language.
pub fn syntax_alias<'a>(key: &'a str) -> (r: &'a str)
    ensures
        r@ == alias_of(key@),
{
    if str_eq(key, "rs") {
        "Rust"
    } else if str_eq(key, "py") || str_eq(key, "python") {
        "Python"
    } else if str_eq(key, "js") || str_eq(key, "javascript") || str_eq(key, "jsx") {
        "JavaScript"
    } else if str_eq(key, "ts") || str_eq(key, "typescript") || str_eq(key, "tsx") {
        "TypeScript"
    } else if str_eq(key, "go") || str_eq(key, "golang") {
        "Go"
    } else if str_eq(key, "c") {
        "C"
    } else if str_eq(key, "cpp") || str_eq(key, "c++") || str_eq(key, "cc") || str_eq(key, "cxx") {
        "C++"
    } else if str_eq(key, "sh") || str_eq(key, "bash") || str_eq(key, "shell") || str_eq(key, "zsh") {
        "Bash"
    } else if str_eq(key, "json") {
        "JSON"
    } else if str_eq(key, "toml") {
        "TOML"
    } else if str_eq(key, "yaml") || str_eq(key, "yml") {
        "YAML"
    } else if str_eq(key, "html") || str_eq(key, "htm") {
        "HTML"
    } else if str_eq(key, "css") {
        "CSS"
    } else if str_eq(key, "sql") {
        "SQL"
    } else if str_eq(key, "md") || str_eq(key, "markdown") {
        "Markdown"
    } else {
        key
    }
}


/// The lookup that resolves a lower-cased fence language `key`: the aliased
/// name as a name, then as an extension, then `key` as a token, then as an
/// extension; the plain-text syntax counts as no match.
pub open spec fn resolve_spec(key: Seq<char>) -> Option<(SyntaxLookup, Seq<char>)> {
    let mapped = alias_of(key);
    let found = if bundled_syntax_by_name(mapped) is Some {
        Some((SyntaxLookup::ByName, mapped, bundled_syntax_by_name(mapped)->0))
    } else if bundled_syntax_by_extension(mapped) is Some {
        Some((SyntaxLookup::ByExtension, mapped, bundled_syntax_by_extension(mapped)->0))
    } else if bundled_syntax_by_token(key) is Some {
        Some((SyntaxLookup::ByToken, key, bundled_syntax_by_token(key)->0))
    } else if bundled_syntax_by_extension(key) is Some {
        Some((SyntaxLookup::ByExtension, key, bundled_syntax_by_extension(key)->0))
    } else {
        None
    };
    match found {
        Some((l, a, n)) => if n == "Plain Text"@ {
            None
        } else {
            Some((l, a))
        },
        None => None,
    }
}

/// Looks the fence language up: by the aliased name, then as an extension,
/// then as a token, then the lower-cased key as an extension; the plain-text
/// syntax counts as no match. Returns the lookup that found it.
fn resolve_syntax(h: &CodeHighlighter, language: &str) -> (r: Option<(SyntaxLookup, String)>)
    ensures
        match r {
            Some((l, a)) => resolve_spec(lower_seq(language@)) == Some((l, a@)),
            None => resolve_spec(lower_seq(language@)) is None,
        },
{
    let lowered = lower_chars(chars_of(language).as_slice());
    let key = string_of(lowered.as_slice());
    let mapped = syntax_alias(key.as_str());
    let found = match find_by_name(h, mapped) {
        Some(n) => Some((SyntaxLookup::ByName, owned(mapped), n)),
        None => match find_by_extension(h, mapped) {
            Some(n) => Some((SyntaxLookup::ByExtension, owned(mapped), n)),
            None => match find_by_token(h, key.as_str()) {
                Some(n) => Some((SyntaxLookup::ByToken, key.clone(), n)),
                None => match find_by_extension(h, key.as_str()) {
                    Some(n) => Some((SyntaxLookup::ByExtension, key.clone(), n)),
                    None => None,
                },
            },
        },
    };
    match found {
        Some((l, a, n)) => {
            if str_eq(n.as_str(), "Plain Text") {
                None
            } else {
                Some((l, a))
            }
        },
        None => None,
    }
}

/// Name of the bundled theme for a color scheme.
pub open spec fn theme_name(scheme: ColorScheme) -> Seq<char> {
    match scheme {
        ColorScheme::Dark => "base16-ocean.dark"@,
        ColorScheme::Light => "base16-ocean.light"@,
    }
}

fn scheme_theme_name(scheme: ColorScheme) -> (r: &'static str)
    ensures
        r@ == theme_name(scheme),
{
    match scheme {
        ColorScheme::Dark => "base16-ocean.dark",
        ColorScheme::Light => "base16-ocean.light",
    }
}

/// syntect's styled ranges for `lines`, fed one after another to a fresh
/// highlighter for the bundled syntax and theme; `None` as soon as one
/// line fails.
pub open spec fn bundled_styled_lines(
    lookup: SyntaxLookup,
    arg: Seq<char>,
    theme: Seq<char>,
    lines: Seq<Seq<char>>,
) -> Option<Seq<Seq<((u8, u8, u8), Seq<char>)>>>
    decreases lines.len(),
{
    if lines.len() == 0 {
        Some(Seq::empty())
    } else {
        match bundled_styled_lines(lookup, arg, theme, lines.drop_last()) {
            None => None,
            Some(prev) => match bundled_line_ranges(lookup, arg, theme, lines.drop_last(), lines.last()) {
                None => None,
                Some(r) => Some(prev.push(r)),
            },
        }
    }
}

/// syntect's styled ranges for each line of `content`; `None` as soon as
/// one line fails, so a text without lines always succeeds.
fn syntect_ranges(h: &CodeHighlighter, hl: &mut LineHighlighter<'_>, content: &str) -> (r: Option<
    Vec<Vec<((u8, u8, u8), String)>>,
>)
    requires
        old(hl).fed().len() == 0,
    ensures
        raw_opt_view(r) == bundled_styled_lines(
            old(hl).lookup(),
            old(hl).arg(),
            old(hl).theme(),
            lines_with_endings_spec(content@),
        ),
        r matches Some(v) ==> v.len() == lines_with_endings_spec(content@).len(),
        lines_with_endings_spec(content@).len() == 0 ==> r is Some,
{
    let lines = lines_with_endings(content);
    let ghost ls = lines_with_endings_spec(content@);
    let ghost lk = hl.lookup();
    let ghost ar = hl.arg();
    let ghost th = hl.theme();
    let mut out: Vec<Vec<((u8, u8, u8), String)>> = Vec::new();
    let mut i: usize = 0;
    assert(ls.take(0) =~= Seq::<Seq<char>>::empty());
    assert(raw_view(out@) =~= Seq::<Seq<((u8, u8, u8), Seq<char>)>>::empty());
    while i < lines.len()
        invariant
            i <= lines.len(),
            out.len() == i,
            crate::text::strings_view(lines@) == ls,
            ls == lines_with_endings_spec(content@),
            hl.lookup() == lk,
            hl.arg() == ar,
            hl.theme() == th,
            lk == old(hl).lookup(),
            ar == old(hl).arg(),
            th == old(hl).theme(),
            hl.fed() == ls.take(i as int),
            bundled_styled_lines(lk, ar, th, ls.take(i as int)) == Some(raw_view(out@)),
        decreases lines.len() - i,
    {
        assert(lines@[i as int]@ == ls[i as int]);
        assert(ls.take(i + 1).drop_last() =~= ls.take(i as int));
        assert(ls.take(i + 1).last() == ls[i as int]);
        match highlight_line(h, hl, lines[i].as_str()) {
            Some(r) => {
                let ghost prev = out@;
                out.push(r);
                assert(raw_view(out@) =~= raw_view(prev).push(ranges_view(r@)));
                assert(ls.take(i as int).push(ls[i as int]) =~= ls.take(i + 1));
            },
            None => {
                proof {
                    assert(bundled_styled_lines(lk, ar, th, ls.take(i + 1)) is None);
                    lemma_styled_lines_none(lk, ar, th, ls, i as int + 1);
                    assert(ls.take(ls.len() as int) =~= ls);
                }
                return None;
            },
        }
        i += 1;
    }
    assert(ls.take(lines.len() as int) =~= ls);
    Some(out)
}

/// Once a prefix of the lines fails, the whole text fails.
proof fn lemma_styled_lines_none(
    lookup: SyntaxLookup,
    arg: Seq<char>,
    theme: Seq<char>,
    ls: Seq<Seq<char>>,
    k: int,
)
    requires
        0 <= k <= ls.len(),
        bundled_styled_lines(lookup, arg, theme, ls.take(k)) is None,
    ensures
        bundled_styled_lines(lookup, arg, theme, ls) is None,
    decreases ls.len() - k,
{
    if k < ls.len() {
        assert(ls.take(k + 1).drop_last() =~= ls.take(k));
        lemma_styled_lines_none(lookup, arg, theme, ls, k + 1);
    } else {
        assert(ls.take(k) =~= ls);
    }
}

/// The fence language trimmed, unless it is missing or blank.
pub open spec fn language_key(language: Option<&str>) -> Option<Seq<char>> {
    match language {
        Some(l) => if trim(l@).len() > 0 {
            Some(trim(l@))
        } else {
            None
        },
        None => None,
    }
}

/// syntect's answer for a non-blank fence language: the styled ranges of
/// each line with the resolved bundled syntax and the scheme's theme, or
/// `None` when the language resolves to no syntax, the theme is missing or
/// a line fails.
pub open spec fn syntect_answer(lang: Seq<char>, content: Seq<char>, scheme: ColorScheme) -> Option<
    Seq<Seq<((u8, u8, u8), Seq<char>)>>,
> {
    match resolve_spec(lower_seq(lang)) {
        None => None,
        Some((l, a)) => if bundled_lookup(l, a) is Some && bundled_has_theme(theme_name(scheme)) {
            bundled_styled_lines(l, a, theme_name(scheme), lines_with_endings_spec(content))
        } else {
            None
        },
    }
}

/// What highlighting `content` for `language` gives: plain lines without a
/// language; otherwise the lines built from syntect's answer for the
/// resolved syntax and the scheme's theme, or plain lines when it had none.
pub open spec fn highlight_result(language: Option<&str>, content: Seq<char>, scheme: ColorScheme) -> Seq<
    Seq<(Seq<char>, (u8, u8, u8))>,
> {
    match language_key(language) {
        None => plain_spec(content, default_fg(scheme)),
        Some(l) => finish_spec(syntect_answer(l, content, scheme), content, default_fg(scheme)),
    }
}

impl CodeHighlighter {
    /// Loads syntect's bundled syntaxes and themes.
    pub fn load_defaults() -> (r: Self) {
        CodeHighlighter { syntaxes: load_syntax_set(), themes: load_theme_set() }
    }

    /// syntect's answer for the trimmed, non-blank fence language `lang`.
    fn syntect_lines(&self, lang: &str, content: &str, scheme: ColorScheme) -> (r: Option<
        Vec<Vec<((u8, u8, u8), String)>>,
    >)
        ensures
            raw_opt_view(r) == syntect_answer(lang@, content@, scheme),
    {
        let (lookup, arg) = match resolve_syntax(self, lang) {
            Some(x) => x,
            None => return None,
        };
        let theme = scheme_theme_name(scheme);
        let started = match lookup {
            SyntaxLookup::ByName => highlighter_by_name(self, arg.as_str(), theme),
            SyntaxLookup::ByExtension => highlighter_by_extension(self, arg.as_str(), theme),
            SyntaxLookup::ByToken => highlighter_by_token(self, arg.as_str(), theme),
        };
        let mut hl = match started {
            Some(x) => x,
            None => return None,
        };
        syntect_ranges(self, &mut hl, content)
    }

    /// Highlights `content` for an optional fenced-language identifier.
    ///
    /// When `language` is `None` or blank, returns plain lines in the
    /// scheme's default foreground. Unknown languages, and any line syntect
    /// fails on, fall back to plain text rather than failing.
    pub fn highlight(&self, language: Option<&str>, content: &str, scheme: ColorScheme) -> (r: Vec<
        HighlightedLine,
    >)
        ensures
            lines_view(r@) == highlight_result(language, content@, scheme),
    {
        let lang = match language {
            Some(l) => trim_str(l),
            None => Vec::new(),
        };
        if lang.len() == 0 {
            let fg = default_foreground(scheme);
            return plain_lines(content, fg);
        }
        let ls = string_of(lang.as_slice());
        let raw = self.syntect_lines(ls.as_str(), content, scheme);
        finish_highlight(raw, content, scheme)
    }
}

/// Highlights `content` for an optional fenced-language identifier.
///
/// When `language` is `None` or empty, returns plain monospaced lines using the
/// scheme's default foreground (no syntect tokenization).
///
/// Highlighting is line-oriented and safe to call repeatedly during streaming:
/// incomplete or unknown languages fall back to plain text rather than failing.
pub fn highlight_code(language: Option<&str>, content: &str, scheme: ColorScheme) -> (r: Vec<
    HighlightedLine,
>)
    ensures
        lines_view(r@) == highlight_result(language, content@, scheme),
{
    let lang_empty = match language {
        Some(l) => trim_str(l).len() == 0,
        None => true,
    };
    if lang_empty {
        let fg = default_foreground(scheme);
        return plain_lines(content, fg);
    }
    let h = CodeHighlighter::load_defaults();
    h.highlight(language, content, scheme)
}

} // verus!
