//! Single-instance IPC: the wire format that carries a [`LaunchIntent`] from a
//! secondary process to the primary, and how the primary applies it.

use crate::launch::{paths_of, IntentView, LaunchIntent, LaunchKind};
use crate::text::{
    chars_eq, chars_list, chars_of, concat2, lemma_split_char_nonempty, owned, slice_to_vec,
    split_char, split_chars, string_of, str_eq,
};
use vstd::prelude::*;

verus! {

/// First line of every IPC message.
pub const IPC_MAGIC: &'static str = "ronin-ipc-v1";

/// Intent delivered from a secondary process to the primary.
#[derive(Debug, Clone, PartialEq, Eq)]
pub struct IncomingLaunch {
    /// CLI intent to apply in the running instance.
    pub intent: LaunchIntent,
    /// Whether the primary should raise/focus its window.
    pub focus: bool,
}

/// Wire word for a launch kind.
pub open spec fn kind_word(k: LaunchKind) -> Seq<char> {
    match k {
        LaunchKind::OpenPersisted => "open"@,
        LaunchKind::NewThread => "new"@,
        LaunchKind::OpenWithOllama => "ollama"@,
        LaunchKind::Quick => "quick"@,
    }
}

/// `lines` each followed by a newline.
pub open spec fn lines_text(lines: Seq<Seq<char>>) -> Seq<char>
    decreases lines.len(),
{
    if lines.len() == 0 {
        Seq::empty()
    } else {
        lines_text(lines.drop_last()) + lines.last() + seq!['\n']
    }
}

/// The message lines for `intent`: magic, kind, focus flag, one line per path, `.`.
pub open spec fn message_lines(intent: IntentView, focus: bool) -> Seq<Seq<char>> {
    seq![IPC_MAGIC@, kind_word(intent.kind), if focus {
        "focus"@
    } else {
        "nofocus"@
    }] + intent.paths + seq!["."@]
}

/// The bytes a secondary sends for `intent`.
pub open spec fn message_text(intent: IntentView, focus: bool) -> Seq<char> {
    lines_text(message_lines(intent, focus))
}

fn push_line(out: &mut String, line: &str)
    ensures
        final(out)@ == old(out)@ + line@ + seq!['\n'],
{
    out.append(line);
    out.append("\n");
    proof {
        reveal_strlit("\n");
    }
}

/// Encodes an IPC launch message (magic, kind, focus, paths, terminator).
pub fn encode_incoming(intent: &LaunchIntent, focus: bool) -> (r: String)
    ensures
        r@ == message_text(intent@, focus),
{
    let kind = match intent.kind() {
        LaunchKind::OpenPersisted => "open",
        LaunchKind::NewThread => "new",
        LaunchKind::OpenWithOllama => "ollama",
        LaunchKind::Quick => "quick",
    };
    let paths = intent.attach_paths();
    let ghost lines = message_lines(intent@, focus);
    let mut out = String::new();
    assert(lines[1] == kind@);
    assert(lines.take(0) =~= Seq::<Seq<char>>::empty());
    assert(lines.take(1).drop_last() =~= lines.take(0));
    assert(lines.take(2).drop_last() =~= lines.take(1));
    assert(lines.take(3).drop_last() =~= lines.take(2));
    assert(out@ =~= lines_text(lines.take(0)));
    push_line(&mut out, IPC_MAGIC);
    assert(out@ =~= lines_text(lines.take(1)));
    push_line(&mut out, kind);
    assert(out@ =~= lines_text(lines.take(2)));
    let fw = if focus {
        "focus"
    } else {
        "nofocus"
    };
    assert(lines[2] == fw@);
    push_line(&mut out, fw);
    assert(out@ =~= lines_text(lines.take(3)));
    let mut i: usize = 0;
    while i < paths.len()
        invariant
            i <= paths.len(),
            lines == message_lines(intent@, focus),
            paths_of(paths@) == intent@.paths,
            out@ == lines_text(lines.take(3 + i)),
        decreases paths.len() - i,
    {
        push_line(&mut out, paths[i].as_str());
        proof {
            assert(lines.take(3 + i + 1).drop_last() =~= lines.take(3 + i));
            assert(lines[3 + i] == paths@[i as int]@);
        }
        i += 1;
    }
    push_line(&mut out, ".");
    proof {
        let n = lines.len();
        assert(n == 4 + paths@.len());
        assert(lines.take(n as int).drop_last() =~= lines.take(3 + paths@.len() as int));
        assert(lines.take(n as int) =~= lines);
    }
    out
}

/// `str::lines`: the pieces between `\n`s, without an empty piece after a
/// final `\n`, and with the `\r` of each `\r\n` ending removed.
pub open spec fn str_lines(s: Seq<char>) -> Seq<Seq<char>> {
    let pieces = split_char(s, '\n');
    let n = pieces.len() as int;
    let body = if pieces[n - 1].len() == 0 {
        pieces.take(n - 1)
    } else {
        pieces
    };
    Seq::new(
        body.len(),
        |i: int|
            if i < n - 1 && body[i].len() > 0 && body[i].last() == '\r' {
                body[i].drop_last()
            } else {
                body[i]
            },
    )
}

/// Non-empty path lines from index `i` on, up to a `.` line.
pub open spec fn collect_paths(lines: Seq<Seq<char>>, i: int) -> Seq<Seq<char>>
    decreases lines.len() - i,
{
    if i < 0 || i >= lines.len() || lines[i] == "."@ {
        Seq::empty()
    } else if lines[i].len() == 0 {
        collect_paths(lines, i + 1)
    } else {
        seq![lines[i]] + collect_paths(lines, i + 1)
    }
}

/// Launch kind named by a wire word.
pub open spec fn kind_of_word(w: Seq<char>) -> Option<LaunchKind> {
    if w == "open"@ {
        Some(LaunchKind::OpenPersisted)
    } else if w == "new"@ {
        Some(LaunchKind::NewThread)
    } else if w == "ollama"@ {
        Some(LaunchKind::OpenWithOllama)
    } else if w == "quick"@ {
        Some(LaunchKind::Quick)
    } else {
        None
    }
}

/// Mathematical view of an [`IncomingLaunch`].
pub struct IncomingView {
    /// Intent.
    pub intent: IntentView,
    /// Focus request.
    pub focus: bool,
}

impl View for IncomingLaunch {
    type V = IncomingView;

    open spec fn view(&self) -> IncomingView {
        IncomingView { intent: self.intent@, focus: self.focus }
    }
}

/// What [`decode_incoming`] returns for a received message: the launch, or the
/// protocol error text.
pub open spec fn decode_result(buf: Seq<char>) -> Result<IncomingView, Seq<char>> {
    let lines = str_lines(buf);
    if lines.len() < 1 {
        Err("missing magic"@)
    } else if lines[0] != IPC_MAGIC@ {
        Err("bad magic: "@ + lines[0])
    } else if lines.len() < 2 {
        Err("missing kind"@)
    } else if lines.len() < 3 {
        Err("missing focus"@)
    } else {
        match kind_of_word(lines[1]) {
            Some(k) => Ok(
                IncomingView {
                    intent: IntentView { kind: k, paths: collect_paths(lines, 3) },
                    focus: lines[2] == "focus"@,
                },
            ),
            None => Err("unknown kind: "@ + lines[1]),
        }
    }
}

fn str_lines_exec(s: &str) -> (r: Vec<Vec<char>>)
    ensures
        chars_list(r@) == str_lines(s@),
{
    let cs = chars_of(s);
    let pieces = split_chars(cs.as_slice(), '\n');
    proof {
        lemma_split_char_nonempty(s@, '\n');
    }
    let n = pieces.len();
    let ghost pv = chars_list(pieces@);
    let m = if pieces[n - 1].len() == 0 {
        n - 1
    } else {
        n
    };
    let ghost body = if pv[n - 1].len() == 0 {
        pv.take(n - 1)
    } else {
        pv
    };
    assert(pv[n - 1] == pieces@[n - 1]@);
    assert(body.len() == m);
    let mut out: Vec<Vec<char>> = Vec::new();
    let mut i: usize = 0;
    while i < m
        invariant
            i <= m <= n,
            n == pieces.len(),
            pv == chars_list(pieces@),
            pv.len() == n,
            pv == split_char(s@, '\n'),
            body.len() == m,
            n >= 1,
            body == (if pv[n - 1].len() == 0 {
                pv.take(n - 1)
            } else {
                pv
            }),
            forall|j: int| 0 <= j < m ==> body[j] == pv[j],
            chars_list(out@) == str_lines(s@).take(i as int),
        decreases m - i,
    {
        let p = &pieces[i];
        assert(pv[i as int] == p@);
        let line = if i + 1 < n && p.len() > 0 && p[p.len() - 1] == '\r' {
            slice_to_vec(p.as_slice(), 0, p.len() - 1)
        } else {
            slice_to_vec(p.as_slice(), 0, p.len())
        };
        proof {
            assert(p@.subrange(0, p@.len() as int) =~= p@);
            if p@.len() > 0 {
                assert(p@.subrange(0, p@.len() - 1) =~= p@.drop_last());
            }
        }
        assert(body[i as int] == p@);
        proof {
            if p@.len() > 0 {
                assert(p@.last() == p@[p@.len() - 1]);
            }
        }
        assert(str_lines(s@).len() == m);
        assert(str_lines(s@)[i as int] == (if i < n - 1 && body[i as int].len() > 0 && body[
            i as int].last() == '\r' {
            body[i as int].drop_last()
        } else {
            body[i as int]
        }));
        assert(str_lines(s@)[i as int] == line@);
        let ghost prev = out@;
        out.push(line);
        assert(chars_list(out@) =~= str_lines(s@).take(i + 1)) by {
            assert(chars_list(out@) =~= chars_list(prev).push(line@));
        }
        i += 1;
    }
    assert(str_lines(s@).take(m as int) =~= str_lines(s@));
    out
}

fn kind_from_word(w: &[char]) -> (r: Option<LaunchKind>)
    ensures
        r == kind_of_word(w@),
{
    let open = chars_of("open");
    let new = chars_of("new");
    let ollama = chars_of("ollama");
    let quick = chars_of("quick");
    if chars_eq(w, open.as_slice()) {
        Some(LaunchKind::OpenPersisted)
    } else if chars_eq(w, new.as_slice()) {
        Some(LaunchKind::NewThread)
    } else if chars_eq(w, ollama.as_slice()) {
        Some(LaunchKind::OpenWithOllama)
    } else if chars_eq(w, quick.as_slice()) {
        Some(LaunchKind::Quick)
    } else {
        None
    }
}

/// Decodes an IPC launch message; the error is the protocol problem found.
pub fn decode_incoming(buf: &str) -> (r: Result<IncomingLaunch, String>)
    ensures
        match r {
            Ok(launch) => decode_result(buf@) == Ok::<IncomingView, Seq<char>>(launch@),
            Err(e) => decode_result(buf@) == Err::<IncomingView, Seq<char>>(e@),
        },
{
    let lines = str_lines_exec(buf);
    let ghost lv = chars_list(lines@);
    if lines.len() < 1 {
        return Err(owned("missing magic"));
    }
    let magic = chars_of(IPC_MAGIC);
    assert(lv[0] == lines@[0]@);
    if !chars_eq(lines[0].as_slice(), magic.as_slice()) {
        let m = string_of(lines[0].as_slice());
        return Err(concat2("bad magic: ", m.as_str()));
    }
    if lines.len() < 2 {
        return Err(owned("missing kind"));
    }
    if lines.len() < 3 {
        return Err(owned("missing focus"));
    }
    assert(lv[1] == lines@[1]@);
    assert(lv[2] == lines@[2]@);
    let focus_word = chars_of("focus");
    let focus = chars_eq(lines[2].as_slice(), focus_word.as_slice());
    let mut attach_paths: Vec<String> = Vec::new();
    let mut i: usize = 3;
    let dot = chars_of(".");
    while i < lines.len()
        invariant
            3 <= i <= lines.len(),
            lv == chars_list(lines@),
            dot@ == "."@,
            collect_paths(lv, 3) == paths_of(attach_paths@) + collect_paths(lv, i as int),
        decreases lines.len() - i,
    {
        let line = &lines[i];
        assert(lv[i as int] == line@);
        if chars_eq(line.as_slice(), dot.as_slice()) {
            i = lines.len();
        } else {
            if line.len() > 0 {
                let ghost prev = attach_paths@;
                let p = string_of(line.as_slice());
                attach_paths.push(p);
                assert(paths_of(attach_paths@) =~= paths_of(prev).push(line@));
                assert(paths_of(prev) + (seq![line@] + collect_paths(lv, i + 1)) =~= paths_of(
                    attach_paths@,
                ) + collect_paths(lv, i + 1));
            }
            i += 1;
        }
    }
    assert(paths_of(attach_paths@) + Seq::<Seq<char>>::empty() =~= paths_of(attach_paths@));
    match kind_from_word(lines[1].as_slice()) {
        Some(k) => Ok(IncomingLaunch { intent: LaunchIntent::from_kind(k, attach_paths), focus }),
        None => {
            let w = string_of(lines[1].as_slice());
            Err(concat2("unknown kind: ", w.as_str()))
        },
    }
}

/// A path that the line protocol carries unchanged: non-empty, without a
/// newline, not the `.` terminator, and not ending in a carriage return.
pub open spec fn wire_safe_path(p: Seq<char>) -> bool {
    p.len() > 0 && !p.contains('\n') && p != "."@ && p.last() != '\r'
}

/// A line of the protocol that `str_lines` gives back unchanged.
pub open spec fn plain_line(l: Seq<char>) -> bool {
    !l.contains('\n') && !(l.len() > 0 && l.last() == '\r')
}

proof fn lemma_split_append_plain(s: Seq<char>, l: Seq<char>)
    requires
        !l.contains('\n'),
    ensures
        split_char(s + l, '\n') == split_char(s, '\n').update(
            split_char(s, '\n').len() - 1,
            split_char(s, '\n').last() + l,
        ),
    decreases l.len(),
{
    lemma_split_char_nonempty(s, '\n');
    if l.len() == 0 {
        assert(s + l =~= s);
        assert(split_char(s, '\n').last() + l =~= split_char(s, '\n').last());
        assert(split_char(s, '\n').update(split_char(s, '\n').len() - 1, split_char(s, '\n').last())
            =~= split_char(s, '\n'));
    } else {
        let l0 = l.drop_last();
        assert(!l0.contains('\n')) by {
            if l0.contains('\n') {
                let k = choose|k: int| 0 <= k < l0.len() && l0[k] == '\n';
                assert(l[k] == '\n');
            }
        }
        lemma_split_append_plain(s, l0);
        assert((s + l).drop_last() =~= s + l0);
        assert((s + l).last() == l.last());
        assert(l.last() != '\n') by {
            assert(l[l.len() - 1] == l.last());
        }
        let prev = split_char(s + l0, '\n');
        lemma_split_char_nonempty(s + l0, '\n');
        assert(split_char(s + l, '\n') == prev.update(prev.len() - 1, prev.last().push(l.last())));
        let sp = split_char(s, '\n');
        assert(prev.len() == sp.len());
        assert(prev.last() == sp.last() + l0);
        assert((sp.last() + l0).push(l.last()) =~= sp.last() + l);
        assert(prev.update(prev.len() - 1, prev.last().push(l.last())) =~= sp.update(
            sp.len() - 1,
            sp.last() + l,
        ));
        assert(split_char(s + l, '\n') =~= split_char(s, '\n').update(
            split_char(s, '\n').len() - 1,
            split_char(s, '\n').last() + l,
        ));
    }
}

proof fn lemma_split_lines_text(ls: Seq<Seq<char>>)
    requires
        forall|i: int| 0 <= i < ls.len() ==> !(#[trigger] ls[i]).contains('\n'),
    ensures
        split_char(lines_text(ls), '\n') == ls.push(Seq::empty()),
    decreases ls.len(),
{
    if ls.len() == 0 {
        assert(split_char(Seq::<char>::empty(), '\n') =~= seq![Seq::<char>::empty()]);
        assert(ls.push(Seq::empty()) =~= seq![Seq::<char>::empty()]);
    } else {
        let init = ls.drop_last();
        assert forall|i: int| 0 <= i < init.len() implies !(#[trigger] init[i]).contains('\n') by {
            assert(init[i] == ls[i]);
        }
        lemma_split_lines_text(init);
        let base = lines_text(init);
        let l = ls.last();
        assert(!l.contains('\n')) by {
            assert(ls[ls.len() - 1] == l);
        }
        lemma_split_append_plain(base, l);
        let t = base + l;
        assert(lines_text(ls) == t + seq!['\n']);
        assert((t + seq!['\n']).drop_last() =~= t);
        assert(split_char(t, '\n') =~= init.push(l));
        assert(init.push(l) =~= ls);
    }
}

proof fn lemma_str_lines_text(ls: Seq<Seq<char>>)
    requires
        forall|i: int| 0 <= i < ls.len() ==> plain_line(#[trigger] ls[i]),
    ensures
        str_lines(lines_text(ls)) == ls,
{
    assert forall|i: int| 0 <= i < ls.len() implies !(#[trigger] ls[i]).contains('\n') by {
        assert(plain_line(ls[i]));
    }
    lemma_split_lines_text(ls);
    let pieces = ls.push(Seq::<char>::empty());
    assert(pieces.take(pieces.len() - 1) =~= ls);
    assert forall|i: int| 0 <= i < ls.len() implies str_lines(lines_text(ls))[i] == ls[i] by {
        assert(plain_line(ls[i]));
    }
    assert(str_lines(lines_text(ls)) =~= ls);
}

proof fn lemma_collect_paths(lines: Seq<Seq<char>>, paths: Seq<Seq<char>>, j: int)
    requires
        lines.len() == paths.len() + 4,
        lines[lines.len() - 1] == "."@,
        forall|k: int| 0 <= k < paths.len() ==> lines[3 + k] == paths[k],
        forall|k: int| 0 <= k < paths.len() ==> wire_safe_path(#[trigger] paths[k]),
        0 <= j <= paths.len(),
    ensures
        collect_paths(lines, 3 + j) == paths.skip(j),
    decreases paths.len() - j,
{
    if j == paths.len() {
        assert(paths.skip(j) =~= Seq::<Seq<char>>::empty());
    } else {
        lemma_collect_paths(lines, paths, j + 1);
        assert(wire_safe_path(paths[j]));
        assert(lines[3 + j] == paths[j]);
        assert(seq![paths[j]] + paths.skip(j + 1) =~= paths.skip(j));
    }
}

/// What a secondary sends is what the primary receives: decoding an encoded
/// launch gives back its intent and focus request, for every path the line
/// protocol can carry.
pub proof fn law_ipc_round_trip(intent: IntentView, focus: bool)
    requires
        forall|i: int| 0 <= i < intent.paths.len() ==> wire_safe_path(#[trigger] intent.paths[i]),
    ensures
        decode_result(message_text(intent, focus)) == Ok::<IncomingView, Seq<char>>(
            IncomingView { intent, focus },
        ),
{
    reveal_strlit("ronin-ipc-v1");
    reveal_strlit("open");
    reveal_strlit("new");
    reveal_strlit("ollama");
    reveal_strlit("quick");
    reveal_strlit("focus");
    reveal_strlit("nofocus");
    reveal_strlit(".");
    let ls = message_lines(intent, focus);
    let fw: Seq<char> = if focus {
        "focus"@
    } else {
        "nofocus"@
    };
    assert(ls[0] == IPC_MAGIC@);
    assert(ls[1] == kind_word(intent.kind));
    assert(ls[2] == fw);
    assert(ls[ls.len() - 1] == "."@);
    assert forall|i: int| 0 <= i < ls.len() implies plain_line(#[trigger] ls[i]) by {
        if 3 <= i < ls.len() - 1 {
            assert(ls[i] == intent.paths[i - 3]);
            assert(wire_safe_path(intent.paths[i - 3]));
        } else if i == 0 {
            assert(!ls[0].contains('\n'));
        } else if i == 1 {
            assert(!ls[1].contains('\n'));
        } else if i == 2 {
            assert(!ls[2].contains('\n'));
        } else {
            assert(!ls[i].contains('\n'));
        }
    }
    lemma_str_lines_text(ls);
    assert forall|k: int| 0 <= k < intent.paths.len() implies ls[3 + k] == intent.paths[k] by {}
    lemma_collect_paths(ls, intent.paths, 0);
    assert(intent.paths.skip(0) =~= intent.paths);
    assert(kind_of_word(kind_word(intent.kind)) == Some(intent.kind));
    assert((fw == "focus"@) == focus);
}

/// Describes how a primary instance should apply a remote launch intent.
#[derive(Debug, Clone, PartialEq, Eq)]
pub struct AppliedIntent {
    /// Create and select a new thread.
    pub create_new_thread: bool,
    /// Open the compact quick-mode overlay (not the full shell chrome).
    pub open_quick_overlay: bool,
    /// Prefer the Ollama provider path when opening.
    pub prefer_ollama: bool,
    /// Paths to attach into the composer / pending attachments.
    pub attach_paths: Vec<String>,
    /// Raise/focus the application window.
    pub focus_window: bool,
}

/// Maps an incoming IPC launch to concrete primary-side actions.
pub fn plan_incoming_launch(incoming: &IncomingLaunch) -> (r: AppliedIntent)
    ensures
        paths_of(r.attach_paths@) == incoming@.intent.paths,
        r.focus_window == incoming.focus,
        r.create_new_thread == (incoming@.intent.kind == LaunchKind::NewThread || (
        incoming@.intent.kind == LaunchKind::OpenPersisted && incoming@.intent.paths.len() > 0)),
        r.open_quick_overlay == (incoming@.intent.kind == LaunchKind::Quick),
        r.prefer_ollama == (incoming@.intent.kind == LaunchKind::OpenWithOllama),
{
    let paths = incoming.intent.attach_paths();
    let mut attach_paths: Vec<String> = Vec::new();
    let mut i: usize = 0;
    while i < paths.len()
        invariant
            i <= paths.len(),
            paths_of(attach_paths@) == paths_of(paths@).take(i as int),
        decreases paths.len() - i,
    {
        let ghost prev = attach_paths@;
        let c = paths[i].clone();
        attach_paths.push(c);
        assert(paths_of(attach_paths@) =~= paths_of(prev).push(c@));
        assert(paths_of(attach_paths@) =~= paths_of(paths@).take(i + 1));
        i += 1;
    }
    assert(paths_of(paths@).take(paths@.len() as int) =~= paths_of(paths@));
    let kind = incoming.intent.kind();
    AppliedIntent {
        create_new_thread: match kind {
            LaunchKind::NewThread => true,
            LaunchKind::OpenPersisted => paths.len() > 0,
            _ => false,
        },
        open_quick_overlay: match kind {
            LaunchKind::Quick => true,
            _ => false,
        },
        prefer_ollama: match kind {
            LaunchKind::OpenWithOllama => true,
            _ => false,
        },
        attach_paths,
        focus_window: incoming.focus,
    }
}

/// Errors from single-instance lock / IPC operations.
#[derive(Debug, Clone, PartialEq, Eq)]
pub enum InstanceError {
    /// Filesystem or socket I/O failed (the I/O error's text).
    Io(String),
    /// Lock could not be acquired or released.
    Lock(String),
    /// Wire protocol was invalid or incomplete.
    Protocol(String),
}

/// Display text of an instance error.
pub open spec fn instance_error_text(e: InstanceError) -> Seq<char> {
    match e {
        InstanceError::Io(m) => "instance ipc error: "@ + m@,
        InstanceError::Lock(m) => "instance lock error: "@ + m@,
        InstanceError::Protocol(m) => "invalid ipc message: "@ + m@,
    }
}

impl InstanceError {
    /// Display text of the error.
    pub fn message(&self) -> (r: String)
        ensures
            r@ == instance_error_text(*self),
    {
        match self {
            InstanceError::Io(m) => concat2("instance ipc error: ", m.as_str()),
            InstanceError::Lock(m) => concat2("instance lock error: ", m.as_str()),
            InstanceError::Protocol(m) => concat2("invalid ipc message: ", m.as_str()),
        }
    }
}

/// Parses a received IPC message; a malformed one is a protocol error.
pub fn parse_incoming(buf: &str) -> (r: Result<IncomingLaunch, InstanceError>)
    ensures
        match decode_result(buf@) {
            Ok(v) => r matches Ok(launch) && launch@ == v,
            Err(e) => r matches Err(InstanceError::Protocol(m)) && m@ == e,
        },
{
    match decode_incoming(buf) {
        Ok(launch) => Ok(launch),
        Err(e) => Err(InstanceError::Protocol(e)),
    }
}

} // verus!
