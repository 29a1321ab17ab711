//! Perf Harness control-plane command parsing.

use crate::text::{
    all_digits, chars_eq, chars_of, dec, digits_value, is_ws, lemma_dec_digits, parse_i32,
    parse_i32_chars, parse_int, slice_to_vec, starts, starts_with_chars, string_of, trim,
    trim_chars, trim_end, trim_start, trim_str,
};
use vstd::prelude::*;

verus! {

/// Commands the Perf Harness may send to a Harness Build window.
#[derive(Debug, Clone, PartialEq, Eq)]
pub enum HarnessControlCommand {
    /// Select/open a fixture thread by id.
    OpenThread {
        /// Thread id in the isolated DB.
        thread_id: String,
    },
    /// Scroll the message list by a delta (positive = down).
    ScrollMessages {
        /// Scroll delta in logical pixels.
        delta: i32,
    },
    /// No-op ping used by Drive Smoke / liveness.
    Ping,
}

/// Mathematical view of a [`HarnessControlCommand`].
pub enum HarnessCommandView {
    /// `open <id>`.
    OpenThread(Seq<char>),
    /// `scroll <n>`.
    ScrollMessages(i32),
    /// `ping`.
    Ping,
}

impl View for HarnessControlCommand {
    type V = HarnessCommandView;

    open spec fn view(&self) -> HarnessCommandView {
        match self {
            HarnessControlCommand::OpenThread { thread_id } => HarnessCommandView::OpenThread(
                thread_id@,
            ),
            HarnessControlCommand::ScrollMessages { delta } => HarnessCommandView::ScrollMessages(
                *delta,
            ),
            HarnessControlCommand::Ping => HarnessCommandView::Ping,
        }
    }
}

/// Thread id of an `open <id>` line (already trimmed), when it names one.
pub open spec fn open_arg(l: Seq<char>) -> Option<Seq<char>> {
    if starts(l, "open "@) {
        let a = trim(l.subrange("open "@.len() as int, l.len() as int));
        if a.len() > 0 {
            Some(a)
        } else {
            None
        }
    } else {
        None
    }
}

/// Delta of a `scroll <n>` line (already trimmed), when `n` parses as an `i32`.
pub open spec fn scroll_arg(l: Seq<char>) -> Option<i32> {
    if starts(l, "scroll "@) {
        parse_i32(trim(l.subrange("scroll "@.len() as int, l.len() as int)))
    } else {
        None
    }
}

/// The command a control-plane line parses to.
pub open spec fn harness_parse(line: Seq<char>) -> Option<HarnessCommandView> {
    let l = trim(line);
    if l == "ping"@ {
        Some(HarnessCommandView::Ping)
    } else if open_arg(l) is Some {
        Some(HarnessCommandView::OpenThread(open_arg(l)->0))
    } else if scroll_arg(l) is Some {
        Some(HarnessCommandView::ScrollMessages(scroll_arg(l)->0))
    } else {
        None
    }
}

/// Decimal text of an integer, with a leading `-` when negative
/// (`i32`'s `Display`).
pub open spec fn int_text(v: int) -> Seq<char> {
    if v < 0 {
        seq!['-'] + dec((-v) as nat)
    } else {
        dec(v as nat)
    }
}

/// The line the harness sends for a command.
pub open spec fn harness_command_text(c: HarnessCommandView) -> Seq<char> {
    match c {
        HarnessCommandView::Ping => "ping"@,
        HarnessCommandView::OpenThread(id) => "open "@ + id,
        HarnessCommandView::ScrollMessages(d) => "scroll "@ + int_text(d as int),
    }
}

/// Text after `p` when `l` starts with `p`, trimmed.
fn trimmed_rest(l: &[char], p: &str) -> (r: Option<Vec<char>>)
    ensures
        match r {
            Some(a) => starts(l@, p@) && a@ == trim(l@.subrange(p@.len() as int, l@.len() as int)),
            None => !starts(l@, p@),
        },
{
    let pv = chars_of(p);
    if starts_with_chars(l, pv.as_slice()) {
        let rest = slice_to_vec(l, pv.len(), l.len());
        Some(trim_chars(rest.as_slice()))
    } else {
        None
    }
}

/// Parses a single-line control-plane command (`open <id>`, `scroll <n>`, `ping`).
///
/// The line is trimmed first; `ping` wins, then `open` with a non-empty id,
/// then `scroll` with an `i32` delta.
pub fn parse_harness_command(line: &str) -> (r: Option<HarnessControlCommand>)
    ensures
        ({
            let l = trim(line@);
            match r {
                Some(HarnessControlCommand::Ping) => l == "ping"@,
                Some(HarnessControlCommand::OpenThread { thread_id }) => l != "ping"@ && open_arg(
                    l,
                ) == Some(thread_id@),
                Some(HarnessControlCommand::ScrollMessages { delta }) => l != "ping"@ && open_arg(
                    l,
                ) is None && scroll_arg(l) == Some(delta),
                None => l != "ping"@ && open_arg(l) is None && scroll_arg(l) is None,
            }
        }),
        match r {
            Some(c) => harness_parse(line@) == Some(c@),
            None => harness_parse(line@) is None,
        },
{
    let l = trim_str(line);
    let ping = chars_of("ping");
    if chars_eq(l.as_slice(), ping.as_slice()) {
        return Some(HarnessControlCommand::Ping);
    }
    if let Some(id) = trimmed_rest(l.as_slice(), "open ") {
        if id.len() > 0 {
            return Some(HarnessControlCommand::OpenThread { thread_id: string_of(id.as_slice()) });
        }
    }
    if let Some(arg) = trimmed_rest(l.as_slice(), "scroll ") {
        if let Some(delta) = parse_i32_chars(arg.as_slice()) {
            return Some(HarnessControlCommand::ScrollMessages { delta });
        }
    }
    None
}

proof fn lemma_trim_start_len(s: Seq<char>)
    ensures
        trim_start(s).len() <= s.len(),
        trim_start(s).len() == s.len() ==> trim_start(s) == s,
    decreases s.len(),
{
    if s.len() > 0 && is_ws(s[0]) {
        lemma_trim_start_len(s.drop_first());
    }
}

proof fn lemma_trim_end_len(s: Seq<char>)
    ensures
        trim_end(s).len() <= s.len(),
        trim_end(s).len() == s.len() ==> trim_end(s) == s,
    decreases s.len(),
{
    if s.len() > 0 && is_ws(s.last()) {
        lemma_trim_end_len(s.drop_last());
    }
}

/// A non-empty text that trimming leaves alone starts and ends with a
/// visible char.
proof fn lemma_trimmed_ends(s: Seq<char>)
    requires
        s.len() > 0,
        trim(s) == s,
    ensures
        !is_ws(s[0]),
        !is_ws(s.last()),
{
    lemma_trim_start_len(s);
    lemma_trim_end_len(trim_start(s));
    assert(trim_start(s) == s);
    assert(trim_end(s) == s);
    if is_ws(s[0]) {
        lemma_trim_start_len(s.drop_first());
    }
    if is_ws(s.last()) {
        lemma_trim_end_len(s.drop_last());
    }
}

/// A text whose first and last chars are visible is its own trim.
proof fn lemma_visible_ends_trim(s: Seq<char>)
    requires
        s.len() > 0,
        !is_ws(s[0]),
        !is_ws(s.last()),
    ensures
        trim(s) == s,
{
}

proof fn lemma_int_text_parses(d: i32)
    ensures
        int_text(d as int).len() > 0,
        is_ws(int_text(d as int)[0]) == false,
        !is_ws(int_text(d as int).last()),
        parse_i32(int_text(d as int)) == Some(d),
{
    let t = int_text(d as int);
    if d < 0 {
        let n = (-(d as int)) as nat;
        lemma_dec_digits(n);
        assert(t.drop_first() =~= dec(n));
        assert(is_ws(t.last()) == false) by {
            assert(t.last() == dec(n).last());
            assert(crate::text::is_digit(dec(n)[dec(n).len() - 1]));
        }
        assert(parse_int(t) == Some(-(n as int)));
    } else {
        let n = d as nat;
        lemma_dec_digits(n);
        assert(crate::text::is_digit(t[0]));
        assert(crate::text::is_digit(t[t.len() - 1]));
        assert(parse_int(t) == Some(n as int));
    }
}

/// Parsing the line the harness sends for a command gives the command back,
/// for every thread id that is non-empty and has no surrounding whitespace
/// and every `i32` delta.
pub proof fn law_harness_command_round_trip(c: HarnessCommandView)
    requires
        c matches HarnessCommandView::OpenThread(id) ==> id.len() > 0 && trim(id) == id,
    ensures
        harness_parse(harness_command_text(c)) == Some(c),
{
    reveal_strlit("ping");
    reveal_strlit("open ");
    reveal_strlit("scroll ");
    match c {
        HarnessCommandView::Ping => {
            lemma_visible_ends_trim("ping"@);
        },
        HarnessCommandView::OpenThread(id) => {
            lemma_trimmed_ends(id);
            let l = "open "@ + id;
            assert(l.last() == id.last());
            lemma_visible_ends_trim(l);
            assert(l.subrange(5, l.len() as int) =~= id);
            assert(l != "ping"@) by {
                assert(l.len() != 4);
            }
            assert(starts(l, "open "@)) by {
                assert(l.subrange(0, 5) =~= "open "@);
            }
        },
        HarnessCommandView::ScrollMessages(d) => {
            lemma_int_text_parses(d);
            let t = int_text(d as int);
            let l = "scroll "@ + t;
            assert(l.last() == t.last());
            lemma_visible_ends_trim(l);
            lemma_visible_ends_trim(t);
            assert(l.subrange(7, l.len() as int) =~= t);
            assert(l != "ping"@) by {
                assert(l.len() != 4);
            }
            assert(!starts(l, "open "@)) by {
                assert(l[0] != "open "@[0]);
            }
            assert(starts(l, "scroll "@)) by {
                assert(l.subrange(0, 7) =~= "scroll "@);
            }
        },
    }
}

} // verus!
