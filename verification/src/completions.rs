//! Composer completion logic for `@` context commands, memories, and artifacts.
//!
//! Cursor positions are byte offsets into the composer text, as in the editor;
//! the specifications relate them to char positions through `utf8_len`.

use crate::packaging::{join_path, path_join};
use crate::text::{
    lemma_lex_asym, lemma_lex_neg_trans, lex_lt, owned, push_char, slice_to_vec, string_of, strings_view, str_eq, trim_end_char,
    trim_end_exec, byte_offset, char_width, chars_eq, chars_of, contains, contains_chars, is_whitespace, is_ws,
    lemma_utf8_len_take_mono, lemma_utf8_len_take_step, lower_chars, lower_seq, starts,
    starts_with_chars, str_starts_with, strip_prefix_str, to_lowercase, unicode_lowercase, is_ascii_text,
    utf8_len, utf8_width,
};
use vstd::prelude::*;

verus! {

/// Char index where the whitespace-delimited token that ends at char `k` starts.
pub open spec fn token_start(s: Seq<char>, k: int) -> int
    decreases k,
{
    if k <= 0 {
        0
    } else if is_ws(s[k - 1]) {
        k
    } else {
        token_start(s, k - 1)
    }
}

/// The byte offset `b` falls between two chars of `s`.
pub open spec fn is_char_boundary(s: Seq<char>, b: int) -> bool {
    exists|k: int| 0 <= k <= s.len() && #[trigger] utf8_len(s.take(k)) == b
}

/// Char index of the byte cursor, after clamping it to the text length.
pub open spec fn cursor_char(s: Seq<char>, cursor: int) -> int {
    if cursor >= utf8_len(s) {
        s.len() as int
    } else {
        choose|k: int| 0 <= k <= s.len() && #[trigger] utf8_len(s.take(k)) == cursor
    }
}

/// Char index where the token before the cursor starts.
pub open spec fn cursor_token_start(s: Seq<char>, cursor: int) -> int {
    token_start(s, cursor_char(s, cursor))
}

/// The token that ends at the cursor.
pub open spec fn cursor_token(s: Seq<char>, cursor: int) -> Seq<char> {
    s.subrange(cursor_token_start(s, cursor), cursor_char(s, cursor))
}

/// Inputs on which the token lookup is defined: the cursor lies on a char
/// boundary, or past the end (where it is clamped to the text length).
pub open spec fn token_cursor_ok(s: Seq<char>, cursor: int) -> bool {
    cursor >= utf8_len(s) || is_char_boundary(s, cursor)
}

proof fn lemma_token_start_bounds(s: Seq<char>, k: int)
    requires
        0 <= k <= s.len(),
    ensures
        0 <= token_start(s, k) <= k,
        token_start(s, k) > 0 ==> is_ws(s[token_start(s, k) - 1]),
        forall|j: int| token_start(s, k) <= j < k ==> !is_ws(#[trigger] s[j]),
    decreases k,
{
    if k > 0 && !is_ws(s[k - 1]) {
        lemma_token_start_bounds(s, k - 1);
    }
}

/// Returns the whitespace-delimited token ending at `cursor` and its start byte.
pub fn token_before_cursor(text: &str, cursor: usize) -> (r: (usize, &str))
    requires
        token_cursor_ok(text@, cursor as int),
    ensures
        r.0 == utf8_len(text@.take(cursor_token_start(text@, cursor as int))),
        r.1@ == cursor_token(text@, cursor as int),
{
    let cs = chars_of(text);
    let n = cs.len();
    let ghost s = text@;
    let mut k: usize = 0;
    let mut b: u128 = 0;
    assert(s.take(0) =~= Seq::<char>::empty());
    while k < n && b < cursor as u128
        invariant
            n == cs@.len(),
            cs@ == s,
            k <= n,
            b == utf8_len(s.take(k as int)),
            b <= 4 * k,
            k > 0 ==> utf8_len(s.take(k - 1)) < cursor,
        decreases n - k,
    {
        proof {
            lemma_utf8_len_take_step(s, k as int);
        }
        b = b + char_width(cs[k]) as u128;
        k += 1;
    }
    proof {
        assert(s.take(n as int) =~= s);
        let cc = cursor_char(s, cursor as int);
        if cursor >= utf8_len(s) {
            if k < n {
                lemma_utf8_len_take_mono(s, k as int, n as int);
            }
            assert(k == n);
        } else {
            let kc = choose|j: int| 0 <= j <= s.len() && #[trigger] utf8_len(s.take(j)) == cursor;
            assert(cc == kc);
            if k == n && b < cursor {
                assert(false);
            }
            if kc > k {
                lemma_utf8_len_take_mono(s, k as int, kc);
            }
            if kc < k {
                if kc < k - 1 {
                    lemma_utf8_len_take_mono(s, kc, k - 1);
                }
            }
            assert(kc == k);
        }
        assert(cc == k);
    }
    let mut t: usize = k;
    while t > 0 && !is_whitespace(cs[t - 1])
        invariant
            n == cs@.len(),
            cs@ == s,
            t <= k <= n,
            token_start(s, t as int) == token_start(s, k as int),
        decreases t,
    {
        t -= 1;
    }
    assert(token_start(s, t as int) == t as int);
    let bt = byte_offset(cs.as_slice(), t);
    proof {
        if t < k {
            lemma_utf8_len_take_mono(s, t as int, k as int);
        }
        if cursor >= utf8_len(s) {
            assert(b == utf8_len(s));
        }
    }
    let start = bt as usize;
    let token = text.substring_char(t, k);
    (start, token)
}

/// A context command completion: `(command, label, token_start, token_end)`.
pub type CommandCompletion = (String, String, usize, usize);

/// Whether command `c` completes the lower-cased token `tl`: `c` extends it
/// and is not already fully typed.
pub open spec fn command_fits(c: Seq<char>, tl: Seq<char>) -> bool {
    starts(lower_seq(c), tl) && c != tl
}

/// The first `(command, label)` of the `@` command catalog that completes `tl`.
pub open spec fn command_for(tl: Seq<char>) -> Option<(Seq<char>, Seq<char>)> {
    if command_fits("@file:"@, tl) {
        Some(("@file:"@, "Attach file"@))
    } else if command_fits("@memory:"@, tl) {
        Some(("@memory:"@, "Attach memory"@))
    } else if command_fits("@artifact:"@, tl) {
        Some(("@artifact:"@, "Attach artifact"@))
    } else if command_fits("@screenshot"@, tl) {
        Some(("@screenshot"@, "Capture screenshot"@))
    } else if command_fits("@clipboard"@, tl) {
        Some(("@clipboard"@, "Attach clipboard"@))
    } else {
        None
    }
}

fn command_fits_exec(c: &str, tl: &[char]) -> (r: bool)
    ensures
        r == command_fits(c@, tl@),
{
    let cv = chars_of(c);
    let lc = lower_chars(cv.as_slice());
    starts_with_chars(lc.as_slice(), tl) && !chars_eq(cv.as_slice(), tl)
}

fn completion(c: &str, l: &str, start: usize, cursor: usize) -> (r: CommandCompletion)
    ensures
        r.0@ == c@,
        r.1@ == l@,
        r.2 == start,
        r.3 == cursor,
{
    (String::from_str(c), String::from_str(l), start, cursor)
}

/// Suggests an `@` context command matching the token at the cursor.
pub fn command_completion(text: &str, cursor: usize) -> (r: Option<CommandCompletion>)
    requires
        token_cursor_ok(text@, cursor as int),
    ensures
        ({
            let tok = cursor_token(text@, cursor as int);
            match r {
                None => !starts(tok, seq!['@']) || command_for(lower_seq(tok)) is None,
                Some(c) => {
                    &&& starts(tok, seq!['@'])
                    &&& command_for(lower_seq(tok)) == Some((c.0@, c.1@))
                    &&& c.2 == utf8_len(text@.take(cursor_token_start(text@, cursor as int)))
                    &&& c.3 == (if cursor < utf8_len(text@) {
                        cursor as int
                    } else {
                        utf8_len(text@) as int
                    })
                },
            }
        }),
{
    let (start, token) = token_before_cursor(text, cursor);
    let all = chars_of(text);
    let total = byte_offset(all.as_slice(), all.len());
    proof {
        assert(all@.take(all@.len() as int) =~= text@);
    }
    let end: usize = if (cursor as u128) < total {
        cursor
    } else {
        total as usize
    };
    let cursor = end;
    let tv = chars_of(token);
    let at: [char; 1] = ['@'];
    proof {
        assert(at@ =~= seq!['@']);
    }
    if !starts_with_chars(tv.as_slice(), &at) {
        return None;
    }
    let tl = lower_chars(tv.as_slice());
    let t = tl.as_slice();
    if command_fits_exec("@file:", t) {
        Some(completion("@file:", "Attach file", start, cursor))
    } else if command_fits_exec("@memory:", t) {
        Some(completion("@memory:", "Attach memory", start, cursor))
    } else if command_fits_exec("@artifact:", t) {
        Some(completion("@artifact:", "Attach artifact", start, cursor))
    } else if command_fits_exec("@screenshot", t) {
        Some(completion("@screenshot", "Capture screenshot", start, cursor))
    } else if command_fits_exec("@clipboard", t) {
        Some(completion("@clipboard", "Attach clipboard", start, cursor))
    } else {
        None
    }
}

/// Extracts the `@memory:` prefix at the cursor, if the token is a memory ref.
pub fn memory_completion_prefix(text: &str, cursor: usize) -> (r: Option<&str>)
    requires
        token_cursor_ok(text@, cursor as int),
    ensures
        match r {
            Some(p) => cursor_token(text@, cursor as int) == "@memory:"@ + p@,
            None => !starts(cursor_token(text@, cursor as int), "@memory:"@),
        },
{
    let (_, token) = token_before_cursor(text, cursor);
    strip_prefix_str(token, "@memory:")
}

/// Extracts the `@artifact:` prefix at the cursor, if the token is an artifact ref.
pub fn artifact_completion_prefix(text: &str, cursor: usize) -> (r: Option<&str>)
    requires
        token_cursor_ok(text@, cursor as int),
    ensures
        match r {
            Some(p) => cursor_token(text@, cursor as int) == "@artifact:"@ + p@,
            None => !starts(cursor_token(text@, cursor as int), "@artifact:"@),
        },
{
    let (_, token) = token_before_cursor(text, cursor);
    strip_prefix_str(token, "@artifact:")
}

/// Returns true when the token at `cursor` is an `@file:` path completion.
pub fn file_path_completion_active(text: &str, cursor: usize) -> (r: bool)
    requires
        token_cursor_ok(text@, cursor as int),
    ensures
        r == starts(cursor_token(text@, cursor as int), "@file:"@),
{
    let (_, token) = token_before_cursor(text, cursor);
    str_starts_with(token, "@file:")
}

/// The char views of an `(id, title)` pair.
pub open spec fn pair_view(p: (String, String)) -> (Seq<char>, Seq<char>) {
    (p.0@, p.1@)
}

/// The char views of a list of `(id, title)` pairs.
pub open spec fn pairs_view(v: Seq<(String, String)>) -> Seq<(Seq<char>, Seq<char>)> {
    v.map_values(|p: (String, String)| pair_view(p))
}

/// An `(id, title)` candidate matches `prefix` when the id starts with it or the
/// lower-cased title contains the lower-cased prefix.
pub open spec fn candidate_matches(prefix: Seq<char>, item: (Seq<char>, Seq<char>)) -> bool {
    starts(item.0, prefix) || contains(unicode_lowercase(item.1), unicode_lowercase(prefix))
}

/// The matching candidates, in input order.
pub open spec fn matching_candidates(prefix: Seq<char>, items: Seq<(Seq<char>, Seq<char>)>) -> Seq<
    (Seq<char>, Seq<char>),
>
    decreases items.len(),
{
    if items.len() == 0 {
        Seq::empty()
    } else {
        let rest = matching_candidates(prefix, items.drop_last());
        if candidate_matches(prefix, items.last()) {
            rest.push(items.last())
        } else {
            rest
        }
    }
}

/// [`candidate_matches`] on ASCII text, where lower-casing is ASCII's.
pub open spec fn candidate_matches_ascii(prefix: Seq<char>, item: (Seq<char>, Seq<char>)) -> bool {
    starts(item.0, prefix) || contains(lower_seq(item.1), lower_seq(prefix))
}

/// [`matching_candidates`] on ASCII text.
pub open spec fn matching_candidates_ascii(prefix: Seq<char>, items: Seq<(Seq<char>, Seq<char>)>) -> Seq<
    (Seq<char>, Seq<char>),
>
    decreases items.len(),
{
    if items.len() == 0 {
        Seq::empty()
    } else {
        let rest = matching_candidates_ascii(prefix, items.drop_last());
        if candidate_matches_ascii(prefix, items.last()) {
            rest.push(items.last())
        } else {
            rest
        }
    }
}

/// The typed prefix and every title are ASCII.
pub open spec fn ascii_candidates(prefix: Seq<char>, items: Seq<(Seq<char>, Seq<char>)>) -> bool {
    &&& is_ascii_text(prefix)
    &&& forall|i: int| 0 <= i < items.len() ==> is_ascii_text(#[trigger] items[i].1)
}

/// At most the first `n` elements.
pub open spec fn take_at_most<T>(s: Seq<T>, n: nat) -> Seq<T> {
    if s.len() > n {
        s.take(n as int)
    } else {
        s
    }
}

/// Most completion candidates shown at once.
pub const MAX_COMPLETIONS: usize = 8;

/// Filters `(id, title)` memory candidates against a typed prefix.
///
/// Keeps the first eight candidates whose id starts with `prefix` or whose
/// title contains it, ignoring case.
pub fn filter_memory_completions(prefix: &str, memories: Vec<(String, String)>) -> (r: Vec<
    (String, String),
>)
    ensures
        pairs_view(r@) == take_at_most(
            matching_candidates(prefix@, pairs_view(memories@)),
            MAX_COMPLETIONS as nat,
        ),
        ascii_candidates(prefix@, pairs_view(memories@)) ==> pairs_view(r@) == take_at_most(
            matching_candidates_ascii(prefix@, pairs_view(memories@)),
            MAX_COMPLETIONS as nat,
        ),
{
    let prefix_lower = to_lowercase(prefix);
    let pv = chars_of(prefix);
    let plv = chars_of(prefix_lower.as_str());
    let mut out: Vec<(String, String)> = Vec::new();
    let mut i: usize = 0;
    while i < memories.len()
        invariant
            i <= memories.len(),
            pv@ == prefix@,
            plv@ == unicode_lowercase(prefix@),
            pairs_view(out@) == matching_candidates(
                prefix@,
                pairs_view(memories@).take(i as int),
            ),
            is_ascii_text(prefix@) ==> plv@ == lower_seq(prefix@),
            ascii_candidates(prefix@, pairs_view(memories@)) ==> pairs_view(out@)
                == matching_candidates_ascii(prefix@, pairs_view(memories@).take(i as int)),
        decreases memories.len() - i,
    {
        let id = &memories[i].0;
        let title = &memories[i].1;
        let idv = chars_of(id.as_str());
        let tl = to_lowercase(title.as_str());
        let tlv = chars_of(tl.as_str());
        proof {
            if ascii_candidates(prefix@, pairs_view(memories@)) {
                assert(pairs_view(memories@)[i as int].1 == title@);
            }
        }
        let keep = starts_with_chars(idv.as_slice(), pv.as_slice()) || contains_chars(
            tlv.as_slice(),
            plv.as_slice(),
        );
        let ghost before = out@;
        if keep {
            out.push((id.clone(), title.clone()));
        }
        proof {
            let items = pairs_view(memories@);
            assert(items.take(i + 1).drop_last() =~= items.take(i as int));
            assert(items.take(i + 1).last() == pair_view(memories@[i as int]));
            if keep {
                assert(pairs_view(out@) =~= pairs_view(before).push(
                    pair_view(memories@[i as int]),
                ));
            }
        }
        i += 1;
    }
    assert(pairs_view(memories@).take(memories.len() as int) =~= pairs_view(memories@));
    let ghost full = out@;
    assert(pairs_view(out@) =~= pairs_view(full));
    out.truncate(MAX_COMPLETIONS);
    proof {
        if full.len() > 8 {
            assert(pairs_view(out@) =~= pairs_view(full).take(8));
        }
    }
    out
}

/// Filters `(id, title)` artifact candidates (panel list) against a typed prefix.
pub fn filter_artifact_completions(prefix: &str, artifacts: Vec<(String, String)>) -> (r: Vec<
    (String, String),
>)
    ensures
        pairs_view(r@) == take_at_most(
            matching_candidates(prefix@, pairs_view(artifacts@)),
            MAX_COMPLETIONS as nat,
        ),
        ascii_candidates(prefix@, pairs_view(artifacts@)) ==> pairs_view(r@) == take_at_most(
            matching_candidates_ascii(prefix@, pairs_view(artifacts@)),
            MAX_COMPLETIONS as nat,
        ),
{
    filter_memory_completions(prefix, artifacts)
}

/// The path typed after `@file:` in a token: an opening `"` is dropped along
/// with every closing one.
pub open spec fn file_token_prefix(token: Seq<char>) -> Option<Seq<char>> {
    if starts(token, "@file:"@) {
        let p = token.skip(6);
        if p.len() > 0 && p[0] == '"' {
            Some(trim_end_char(p.skip(1), '"'))
        } else {
            Some(p)
        }
    } else {
        None
    }
}

/// The path being completed after `@file:` at the cursor, if any.
pub fn file_completion_prefix(text: &str, cursor: usize) -> (r: Option<String>)
    requires
        token_cursor_ok(text@, cursor as int),
    ensures
        match r {
            Some(p) => file_token_prefix(cursor_token(text@, cursor as int)) == Some(p@),
            None => file_token_prefix(cursor_token(text@, cursor as int)) is None,
        },
{
    proof {
        reveal_strlit("@file:");
    }
    let (_, token) = token_before_cursor(text, cursor);
    match strip_prefix_str(token, "@file:") {
        Some(p) => {
            assert(token@.skip(6) =~= p@);
            assert(token@.subrange(0, 6) =~= "@file:"@);
            assert(starts(token@, "@file:"@));
            let cs = chars_of(p);
            if cs.len() > 0 && cs[0] == '"' {
                let rest = slice_to_vec(cs.as_slice(), 1, cs.len());
                assert(rest@ =~= p@.skip(1));
                let n = trim_end_exec(rest.as_slice(), '"');
                let kept = slice_to_vec(rest.as_slice(), 0, n);
                assert(kept@ =~= rest@.take(n as int));
                Some(string_of(kept.as_slice()))
            } else {
                Some(owned(p))
            }
        },
        None => None,
    }
}

/// `Path::parent` on a text path.
pub uninterp spec fn std_path_parent(p: Seq<char>) -> Option<Seq<char>>;

/// `Path::file_name` on a text path.
pub uninterp spec fn std_path_file_name(p: Seq<char>) -> Option<Seq<char>>;

/// The parent of a path (`Path::parent`), its result named by `std_path_parent`;
/// the parent of a UTF-8 path is a slice of it, so UTF-8 as well.
#[verifier::external_body]
fn path_parent(p: &str) -> (r: Option<String>)
    ensures
        match r {
            Some(x) => std_path_parent(p@) == Some(x@),
            None => std_path_parent(p@) is None,
        },
{
    std::path::Path::new(p).parent().map(|q| q.to_string_lossy().into_owned())
}

/// The last component of a path (`Path::file_name`), its result named by
/// `std_path_file_name`; a slice of a UTF-8 path, so UTF-8 as well.
#[verifier::external_body]
pub(crate) fn path_file_name(p: &str) -> (r: Option<String>)
    ensures
        match r {
            Some(x) => std_path_file_name(p@) == Some(x@),
            None => std_path_file_name(p@) is None,
        },
{
    std::path::Path::new(p).file_name().map(|q| q.to_string_lossy().into_owned())
}

/// A path's parent, or `home` when it has none.
pub open spec fn parent_or(p: Seq<char>, home: Seq<char>) -> Seq<char> {
    match std_path_parent(p) {
        Some(x) => x,
        None => home,
    }
}

/// A path's last component, or nothing.
pub open spec fn file_name_or_empty(p: Seq<char>) -> Seq<char> {
    match std_path_file_name(p) {
        Some(x) => x,
        None => Seq::empty(),
    }
}

/// The paths whose directory status decides where `prefix` is completed:
/// the prefix, the prefix under `home`, its parent (else `home`), and that
/// parent under `home`.
pub open spec fn probe_targets(prefix: Seq<char>, home: Seq<char>) -> Seq<Seq<char>> {
    seq![
        prefix,
        path_join(home, prefix),
        parent_or(prefix, home),
        path_join(home, parent_or(prefix, home)),
    ]
}

/// Directory to list and file-name prefix to match for a typed `prefix`,
/// given which of the [`probe_targets`] are directories (`d`).
pub open spec fn split_spec(prefix: Seq<char>, home: Seq<char>, cwd: Seq<char>, d: Seq<bool>) -> (
    Seq<char>,
    Seq<char>,
) {
    if prefix.len() == 0 || prefix == "/"@ {
        (home, Seq::empty())
    } else if prefix.last() == '/' {
        let full = path_join(home, prefix);
        if d[0] {
            (prefix, Seq::empty())
        } else if d[1] {
            (full, Seq::empty())
        } else {
            (parent_or(full, home), file_name_or_empty(full))
        }
    } else if d[0] {
        (prefix, Seq::empty())
    } else {
        let parent = parent_or(prefix, home);
        let dir = if prefix[0] == '/' {
            parent
        } else if parent.len() == 0 {
            cwd
        } else if d[2] {
            parent
        } else if d[3] {
            path_join(home, parent)
        } else {
            parent
        };
        (dir, file_name_or_empty(prefix))
    }
}

fn parent_or_exec(p: &str, home: &str) -> (r: String)
    ensures
        r@ == parent_or(p@, home@),
{
    match path_parent(p) {
        Some(x) => x,
        None => owned(home),
    }
}

fn file_name_or_empty_exec(p: &str) -> (r: String)
    ensures
        r@ == file_name_or_empty(p@),
{
    match path_file_name(p) {
        Some(x) => x,
        None => String::new(),
    }
}

/// The paths whose directory status [`split_path_prefix`] needs, in order.
pub fn path_probe_targets(prefix: &str, home: &str) -> (r: Vec<String>)
    ensures
        strings_view(r@) == probe_targets(prefix@, home@),
{
    let parent = parent_or_exec(prefix, home);
    let mut r: Vec<String> = Vec::new();
    r.push(owned(prefix));
    r.push(join_path(home, prefix));
    let under = join_path(home, parent.as_str());
    r.push(parent);
    r.push(under);
    assert(strings_view(r@) =~= probe_targets(prefix@, home@));
    r
}

/// Splits a typed path into the directory to list and the file-name prefix
/// to match; `is_dir` tells which of [`path_probe_targets`] are directories.
pub fn split_path_prefix(prefix: &str, home: &str, cwd: &str, is_dir: &[bool]) -> (r: (String, String))
    requires
        is_dir.len() == 4,
    ensures
        (r.0@, r.1@) == split_spec(prefix@, home@, cwd@, is_dir@),
{
    let cs = chars_of(prefix);
    let n = cs.len();
    if n == 0 || str_eq(prefix, "/") {
        return (owned(home), String::new());
    }
    if cs[n - 1] == '/' {
        let full = join_path(home, prefix);
        if is_dir[0] {
            return (owned(prefix), String::new());
        }
        if is_dir[1] {
            return (full, String::new());
        }
        let dir = parent_or_exec(full.as_str(), home);
        let name = file_name_or_empty_exec(full.as_str());
        return (dir, name);
    }
    if is_dir[0] {
        return (owned(prefix), String::new());
    }
    let parent = parent_or_exec(prefix, home);
    let dir = if cs[0] == '/' {
        parent
    } else if parent.unicode_len() == 0 {
        owned(cwd)
    } else if is_dir[2] {
        parent
    } else if is_dir[3] {
        join_path(home, parent.as_str())
    } else {
        parent
    };
    (dir, file_name_or_empty_exec(prefix))
}

/// Directory text a file completion is appended to: the typed directory, the
/// parent of a partial name, or `home` (each ending in `/`).
pub open spec fn dir_prefix_spec(base: Seq<char>, home: Seq<char>, base_is_dir: bool) -> Seq<char> {
    if base.len() > 0 && base.last() == '/' {
        if base == "/"@ {
            home.push('/')
        } else {
            base
        }
    } else if base.len() == 0 {
        home.push('/')
    } else if base_is_dir {
        base.push('/')
    } else {
        match std_path_parent(base) {
            Some(d) => if d.len() > 0 {
                d.push('/')
            } else {
                home.push('/')
            },
            None => home.push('/'),
        }
    }
}

/// Directory text a chosen file completion is appended to.
pub fn completion_dir_prefix(base: &str, home: &str, base_is_dir: bool) -> (r: String)
    ensures
        r@ == dir_prefix_spec(base@, home@, base_is_dir),
{
    let cs = chars_of(base);
    let n = cs.len();
    let mut h = owned(home);
    push_char(&mut h, '/');
    if n > 0 && cs[n - 1] == '/' {
        if str_eq(base, "/") {
            h
        } else {
            owned(base)
        }
    } else if n == 0 {
        h
    } else if base_is_dir {
        let mut b = owned(base);
        push_char(&mut b, '/');
        b
    } else {
        match path_parent(base) {
            Some(d) => {
                if d.unicode_len() > 0 {
                    let mut d2 = d;
                    push_char(&mut d2, '/');
                    d2
                } else {
                    h
                }
            },
            None => h,
        }
    }
}

/// A listed name shown as a completion: directories get a trailing `/`.
pub open spec fn shown_name(name: Seq<char>, is_dir: bool) -> Seq<char> {
    if is_dir {
        name.push('/')
    } else {
        name
    }
}

/// Whether a listed name is offered for a lower-cased file prefix `lp`.
pub open spec fn name_offered(name: Seq<char>, lp: Seq<char>) -> bool {
    name != "."@ && name != ".."@ && (lp.len() == 0 || starts(lower_seq(name), lp))
}

/// Offered names, shown, in listing order.
pub open spec fn offered_names(entries: Seq<(Seq<char>, bool)>, lp: Seq<char>) -> Seq<Seq<char>>
    decreases entries.len(),
{
    if entries.len() == 0 {
        Seq::empty()
    } else {
        let prev = offered_names(entries.drop_last(), lp);
        if name_offered(entries.last().0, lp) {
            prev.push(shown_name(entries.last().0, entries.last().1))
        } else {
            prev
        }
    }
}

/// Whether a shown name names a directory.
pub open spec fn shown_dir(a: Seq<char>) -> bool {
    a.len() > 0 && a.last() == '/'
}

/// Completion order: directories first, then by text.
pub open spec fn listed_before(a: Seq<char>, b: Seq<char>) -> bool {
    (shown_dir(a) && !shown_dir(b)) || (shown_dir(a) == shown_dir(b) && lex_lt(a, b, 0))
}

/// Insertion of `x` into ordered `s`, after everything it is not listed before.
pub open spec fn insert_listed(s: Seq<Seq<char>>, x: Seq<char>) -> Seq<Seq<char>>
    decreases s.len(),
{
    if s.len() == 0 {
        seq![x]
    } else if listed_before(x, s.last()) {
        insert_listed(s.drop_last(), x).push(s.last())
    } else {
        s.push(x)
    }
}

/// Names in completion order (stable insertion sort by [`listed_before`]).
pub open spec fn order_listed(s: Seq<Seq<char>>) -> Seq<Seq<char>>
    decreases s.len(),
{
    if s.len() == 0 {
        s
    } else {
        insert_listed(order_listed(s.drop_last()), s.last())
    }
}

/// What [`select_path_completions`] returns.
pub open spec fn path_completions_spec(entries: Seq<(Seq<char>, bool)>, file_prefix: Seq<char>) -> Seq<
    Seq<char>,
> {
    take_at_most(order_listed(offered_names(entries, lower_seq(file_prefix))), 8)
}

/// Char views of listed `(name, is_dir)` entries.
pub open spec fn entries_view(v: Seq<(String, bool)>) -> Seq<(Seq<char>, bool)> {
    v.map_values(|e: (String, bool)| (e.0@, e.1))
}

fn before_listed(a: &[char], b: &[char]) -> (r: bool)
    ensures
        r == listed_before(a@, b@),
{
    let ad = a.len() > 0 && a[a.len() - 1] == '/';
    let bd = b.len() > 0 && b[b.len() - 1] == '/';
    if ad != bd {
        return ad;
    }
    let mut i: usize = 0;
    while i < a.len() && i < b.len() && a[i] == b[i]
        invariant
            i <= a.len(),
            i <= b.len(),
            lex_lt(a@, b@, 0) == lex_lt(a@, b@, i as int),
        decreases a.len() - i,
    {
        i += 1;
    }
    if i >= a.len() {
        i < b.len()
    } else if i >= b.len() {
        false
    } else {
        a[i] < b[i]
    }
}

/// Index at which [`insert_listed`] places `x`.
pub open spec fn listed_pos(s: Seq<Seq<char>>, x: Seq<char>) -> int
    decreases s.len(),
{
    if s.len() == 0 || !listed_before(x, s.last()) {
        s.len() as int
    } else {
        listed_pos(s.drop_last(), x)
    }
}

proof fn lemma_insert_listed_at(s: Seq<Seq<char>>, x: Seq<char>)
    ensures
        0 <= listed_pos(s, x) <= s.len(),
        insert_listed(s, x) == s.take(listed_pos(s, x)).push(x) + s.skip(listed_pos(s, x)),
    decreases s.len(),
{
    let p = listed_pos(s, x);
    if s.len() == 0 || !listed_before(x, s.last()) {
        assert(s.take(p).push(x) + s.skip(p) =~= s.push(x));
        if s.len() == 0 {
            assert(seq![x] =~= s.push(x));
        }
    } else {
        let t = s.drop_last();
        lemma_insert_listed_at(t, x);
        assert(t.take(p) =~= s.take(p));
        assert(t.skip(p).push(s.last()) =~= s.skip(p));
        assert(insert_listed(s, x) =~= s.take(p).push(x) + s.skip(p));
    }
}

fn insert_shown(out: &mut Vec<Vec<char>>, x: Vec<char>)
    ensures
        crate::text::chars_list(final(out)@) == insert_listed(crate::text::chars_list(old(out)@), x@),
{
    let ghost s = crate::text::chars_list(out@);
    let mut j: usize = out.len();
    assert(s.take(j as int) =~= s);
    while j > 0 && before_listed(x.as_slice(), out[j - 1].as_slice())
        invariant
            j <= out.len(),
            s == crate::text::chars_list(out@),
            listed_pos(s, x@) == listed_pos(s.take(j as int), x@),
        decreases j,
    {
        assert(s.take(j as int).drop_last() =~= s.take(j - 1));
        assert(s.take(j as int).last() == out@[j - 1]@);
        j -= 1;
    }
    proof {
        if j > 0 {
            assert(s.take(j as int).last() == out@[j - 1]@);
        }
        assert(listed_pos(s.take(j as int), x@) == j);
        lemma_insert_listed_at(s, x@);
    }
    let ghost xv = x@;
    out.insert(j, x);
    proof {
        assert(crate::text::chars_list(out@) =~= s.take(j as int).push(xv) + s.skip(j as int));
    }
}

/// Completions from a directory's `(name, is_dir)` entries for a typed file
/// prefix: names starting with it (ASCII case ignored; `.` and `..` never),
/// directories with a trailing `/` and listed first, then by text; at most
/// eight.
pub fn select_path_completions(entries: &[(String, bool)], file_prefix: &str) -> (r: Vec<String>)
    ensures
        strings_view(r@) == path_completions_spec(entries_view(entries@), file_prefix@),
{
    let lp = lower_chars(chars_of(file_prefix).as_slice());
    let ghost ev = entries_view(entries@);
    let mut ordered: Vec<Vec<char>> = Vec::new();
    let mut i: usize = 0;
    while i < entries.len()
        invariant
            i <= entries.len(),
            ev == entries_view(entries@),
            lp@ == lower_seq(file_prefix@),
            crate::text::chars_list(ordered@) == order_listed(offered_names(ev.take(i as int), lp@)),
        decreases entries.len() - i,
    {
        let (ref name, is_dir) = entries[i];
        proof {
            assert(ev.take(i + 1).drop_last() =~= ev.take(i as int));
            assert(ev.take(i + 1).last() == (name@, is_dir));
        }
        let nv = chars_of(name.as_str());
        let lowered = lower_chars(nv.as_slice());
        let offered = !str_eq(name.as_str(), ".") && !str_eq(name.as_str(), "..") && (lp.len() == 0
            || starts_with_chars(lowered.as_slice(), lp.as_slice()));
        let ghost prev_names = offered_names(ev.take(i as int), lp@);
        assert(offered == name_offered(name@, lp@));
        if offered {
            let mut shown = nv;
            if is_dir {
                shown.push('/');
            }
            assert(shown@ == shown_name(name@, is_dir));
            insert_shown(&mut ordered, shown);
            proof {
                assert(offered_names(ev.take(i + 1), lp@) == prev_names.push(shown_name(name@, is_dir)));
                assert(prev_names.push(shown_name(name@, is_dir)).drop_last() =~= prev_names);
            }
        } else {
            assert(offered_names(ev.take(i + 1), lp@) == prev_names);
        }
        i += 1;
    }
    assert(ev.take(entries.len() as int) =~= ev);
    let mut out: Vec<String> = Vec::new();
    let mut k: usize = 0;
    let lim = if ordered.len() < 8 {
        ordered.len()
    } else {
        8
    };
    while k < lim
        invariant
            k <= lim <= ordered.len(),
            lim == (if ordered.len() < 8 {
                ordered.len()
            } else {
                8
            }),
            strings_view(out@) == crate::text::chars_list(ordered@).take(k as int),
        decreases lim - k,
    {
        let ghost prev = out@;
        let item = string_of(ordered[k].as_slice());
        out.push(item);
        proof {
            assert(crate::text::chars_list(ordered@)[k as int] == ordered@[k as int]@);
            assert(strings_view(out@) =~= strings_view(prev).push(item@));
            assert(strings_view(out@) =~= crate::text::chars_list(ordered@).take(k + 1));
        }
        k += 1;
    }
    assert(crate::text::chars_list(ordered@).take(lim as int) =~= take_at_most(
        crate::text::chars_list(ordered@),
        8,
    ));
    out
}

/// Names in completion order: none is listed after a name it comes before.
pub open spec fn is_listed_order(s: Seq<Seq<char>>) -> bool {
    forall|i: int, j: int| 0 <= i < j < s.len() ==> !listed_before(#[trigger] s[j], #[trigger] s[i])
}

proof fn lemma_listed_asym(x: Seq<char>, y: Seq<char>)
    requires
        listed_before(x, y),
    ensures
        !listed_before(y, x),
{
    if shown_dir(x) == shown_dir(y) {
        lemma_lex_asym(x, y, 0);
    }
}

proof fn lemma_listed_neg_trans(a: Seq<char>, b: Seq<char>, c: Seq<char>)
    requires
        listed_before(c, a),
    ensures
        listed_before(c, b) || listed_before(b, a),
{
    if shown_dir(c) == shown_dir(a) && shown_dir(b) == shown_dir(c) {
        lemma_lex_neg_trans(a, b, c, 0);
    }
}

proof fn lemma_listed_pos_facts(s: Seq<Seq<char>>, x: Seq<char>)
    ensures
        0 <= listed_pos(s, x) <= s.len(),
        forall|k: int| listed_pos(s, x) <= k < s.len() ==> listed_before(x, #[trigger] s[k]),
        listed_pos(s, x) > 0 ==> !listed_before(x, s[listed_pos(s, x) - 1]),
    decreases s.len(),
{
    if s.len() > 0 && listed_before(x, s.last()) {
        let t = s.drop_last();
        lemma_listed_pos_facts(t, x);
        assert forall|k: int| listed_pos(s, x) <= k < s.len() implies listed_before(
            x,
            #[trigger] s[k],
        ) by {
            if k < t.len() {
                assert(s[k] == t[k]);
            }
        }
        if listed_pos(s, x) > 0 {
            assert(s[listed_pos(s, x) - 1] == t[listed_pos(s, x) - 1]);
        }
    }
}

proof fn lemma_insert_listed_keeps(s: Seq<Seq<char>>, x: Seq<char>)
    requires
        is_listed_order(s),
    ensures
        is_listed_order(insert_listed(s, x)),
        insert_listed(s, x).to_multiset() == s.to_multiset().insert(x),
{
    lemma_insert_listed_at(s, x);
    lemma_listed_pos_facts(s, x);
    let p = listed_pos(s, x);
    let r = insert_listed(s, x);
    assert(r =~= s.insert(p, x));
    vstd::seq_lib::to_multiset_insert(s, p, x);
    assert forall|i: int, j: int| 0 <= i < j < r.len() implies !listed_before(
        #[trigger] r[j],
        #[trigger] r[i],
    ) by {
        if j < p {
            assert(r[i] == s[i] && r[j] == s[j]);
        } else if j == p {
            assert(r[i] == s[i] && r[j] == x);
            if i < p - 1 {
                assert(!listed_before(s[p - 1], s[i]));
                if listed_before(x, s[i]) {
                    lemma_listed_neg_trans(s[i], s[p - 1], x);
                }
            }
        } else if i == p {
            assert(r[i] == x && r[j] == s[j - 1]);
            assert(listed_before(x, s[j - 1]));
            lemma_listed_asym(x, s[j - 1]);
        } else if i < p {
            assert(r[i] == s[i] && r[j] == s[j - 1]);
        } else {
            assert(r[i] == s[i - 1] && r[j] == s[j - 1]);
        }
    }
}

proof fn lemma_order_listed_keeps(s: Seq<Seq<char>>)
    ensures
        is_listed_order(order_listed(s)),
        order_listed(s).to_multiset() == s.to_multiset(),
    decreases s.len(),
{
    if s.len() == 0 {
        assert(is_listed_order(order_listed(s)));
    } else {
        lemma_order_listed_keeps(s.drop_last());
        lemma_insert_listed_keeps(order_listed(s.drop_last()), s.last());
        assert(s.drop_last().push(s.last()) =~= s);
        vstd::seq_lib::to_multiset_build(s.drop_last(), s.last());
    }
}

/// File completions are offered directories first, then in text order, and
/// before the cut to eight they are exactly the offered names, each as often
/// as it was listed.
pub proof fn law_path_completions_ordered(entries: Seq<(Seq<char>, bool)>, file_prefix: Seq<char>)
    ensures
        is_listed_order(order_listed(offered_names(entries, lower_seq(file_prefix)))),
        order_listed(offered_names(entries, lower_seq(file_prefix))).to_multiset() == offered_names(
            entries,
            lower_seq(file_prefix),
        ).to_multiset(),
        is_listed_order(path_completions_spec(entries, file_prefix)),
{
    let o = order_listed(offered_names(entries, lower_seq(file_prefix)));
    lemma_order_listed_keeps(offered_names(entries, lower_seq(file_prefix)));
    let r = path_completions_spec(entries, file_prefix);
    assert forall|i: int, j: int| 0 <= i < j < r.len() implies !listed_before(
        #[trigger] r[j],
        #[trigger] r[i],
    ) by {
        assert(r[i] == o[i] && r[j] == o[j]);
    }
}

} // verus!
