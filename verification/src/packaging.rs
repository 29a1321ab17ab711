//! Linux packaging helpers: .desktop entries, install path planning, icon inventory.
//!
//! Paths are held as text; joining follows `PathBuf::push` on Unix.

use crate::text::{
    chars_eq, chars_list, chars_of, concat2, contains, dec, fmt_u64, has_visible, is_ws, join,
    lemma_split_join, lemma_trim_end_concat, lemma_trim_end_concat_blank, lemma_trim_end_visible, lemma_trim_nonempty,
    lower_chars, lower_seq, occurs_at, owned, push_char, slice_to_vec, split_char, split_chars,
    str_contains, str_eq, string_of, strings_view, trim, trim_chars, trim_end, trim_start,
    trim_str,
};
use std::collections::BTreeMap;
use vstd::prelude::*;

verus! {

/// Application display name for launchers.
pub const DESKTOP_NAME: &'static str = "Ronin";

/// Freedesktop icon name (without extension / size).
pub const APP_ICON_NAME: &'static str = "ronin";

/// Short launcher description.
pub const DESKTOP_COMMENT: &'static str = "Native intelligence for Linux \u{2014} local-first AI workbench";

/// PNG icon sizes shipped with packaging.
pub fn required_icon_sizes() -> (r: &'static [u32])
    ensures
        r@ == seq![48u32, 128u32, 256u32],
{
    let v: &'static [u32] = &[48, 128, 256];
    assert(v@ =~= seq![48u32, 128u32, 256u32]);
    v
}

/// User vs system install layout under a prefix.
#[derive(Debug, Clone, Copy, PartialEq, Eq, Structural)]
pub enum InstallMode {
    /// `$prefix/bin`, `$prefix/share/...` (e.g. `~/.local`).
    User,
    /// Same layout under `/usr/local` (or similar).
    System,
}

/// `base` joined with `p` as `PathBuf::push` does on Unix: an absolute `p`
/// replaces `base`; otherwise a `/` separates them unless `base` is empty or
/// already ends in `/`.
pub open spec fn path_join(base: Seq<char>, p: Seq<char>) -> Seq<char> {
    if p.len() > 0 && p[0] == '/' {
        p
    } else if base.len() > 0 && base.last() != '/' {
        base + seq!['/'] + p
    } else {
        base + p
    }
}

/// `Path::join` on text paths.
pub fn join_path(base: &str, p: &str) -> (r: String)
    ensures
        r@ == path_join(base@, p@),
{
    let pn = p.unicode_len();
    if pn > 0 && p.get_char(0) == '/' {
        return owned(p);
    }
    let bn = base.unicode_len();
    let mut r = owned(base);
    if bn > 0 && base.get_char(bn - 1) != '/' {
        push_char(&mut r, '/');
    }
    r.append(p);
    proof {
        if bn > 0 {
            assert(base@.last() == base@[bn - 1]);
        }
    }
    r
}

/// `{size}x{size}`.
pub open spec fn size_dir(size: u32) -> Seq<char> {
    dec(size as nat) + "x"@ + dec(size as nat)
}

fn size_dir_exec(size: u32) -> (r: String)
    ensures
        r@ == size_dir(size),
{
    let mut r = fmt_u64(size as u64);
    r.append("x");
    let s = fmt_u64(size as u64);
    r.append(s.as_str());
    r
}

/// Path of the `size` PNG icon under an icon theme root `root`.
pub open spec fn png_icon_path(root: Seq<char>, size: u32) -> Seq<char> {
    path_join(path_join(path_join(root, size_dir(size)), "apps"@), "ronin.png"@)
}

fn png_icon_path_exec(root: &str, size: u32) -> (r: String)
    ensures
        r@ == png_icon_path(root@, size),
{
    let d = size_dir_exec(size);
    let a = join_path(root, d.as_str());
    let b = join_path(a.as_str(), "apps");
    join_path(b.as_str(), "ronin.png")
}

/// Views of a size-keyed path map.
pub open spec fn paths_view(m: Map<u32, String>) -> Map<u32, Seq<char>> {
    m.map_values(|s: String| s@)
}

/// PNG paths for the shipped sizes under icon theme root `root`.
pub open spec fn png_paths(root: Seq<char>) -> Map<u32, Seq<char>> {
    map![
        48u32 => png_icon_path(root, 48),
        128u32 => png_icon_path(root, 128),
        256u32 => png_icon_path(root, 256),
    ]
}

/// `u32` keys follow the total order that `BTreeMap` relies on.
pub open spec fn u32_keys_ordered() -> bool {
    vstd::laws_cmp::obeys_cmp::<u32>()
}

proof fn lemma_u32_keys_ordered()
    ensures
        u32_keys_ordered(),
{
    broadcast use vstd::laws_cmp::group_laws_cmp;

}

/// PNG paths for the first `i` of `sizes` under `root`.
pub open spec fn png_paths_upto(root: Seq<char>, sizes: Seq<u32>, i: int) -> Map<u32, Seq<char>>
    decreases i,
{
    if i <= 0 {
        Map::empty()
    } else {
        png_paths_upto(root, sizes, i - 1).insert(sizes[i - 1], png_icon_path(root, sizes[i - 1]))
    }
}

fn png_map(root: &str) -> (r: BTreeMap<u32, String>)
    ensures
        paths_view(r@) == png_paths(root@),
{
    proof {
        lemma_u32_keys_ordered();
    }
    let sizes = required_icon_sizes();
    let mut m: BTreeMap<u32, String> = BTreeMap::new();
    let mut i: usize = 0;
    assert(paths_view(m@) =~= Map::<u32, Seq<char>>::empty());
    while i < sizes.len()
        invariant
            i <= sizes.len(),
            u32_keys_ordered(),
            sizes@ == seq![48u32, 128u32, 256u32],
            paths_view(m@) == png_paths_upto(root@, sizes@, i as int),
        decreases sizes.len() - i,
    {
        let size = sizes[i];
        let p = png_icon_path_exec(root, size);
        let ghost prev = m@;
        m.insert(size, p);
        assert(paths_view(m@) =~= paths_view(prev).insert(size, p@));
        i += 1;
    }
    proof {
        reveal_with_fuel(png_paths_upto, 4);
        assert(png_paths_upto(root@, sizes@, 3) =~= png_paths(root@));
    }
    m
}

/// Planned install destinations for binary, desktop entry, and icons.
#[derive(Debug, Clone, PartialEq, Eq)]
pub struct InstallPlan {
    /// Install prefix (`~/.local`, `/usr/local`, …).
    pub prefix: String,
    /// Source binary path used at install time.
    pub binary_source: String,
    /// Destination for the `ronin` binary.
    pub binary_dest: String,
    /// Destination `.desktop` path.
    pub desktop_dest: String,
    /// Destination scalable SVG icon.
    pub icon_svg_dest: String,
    /// Destination PNG icons keyed by size.
    pub icon_png_dests: BTreeMap<u32, String>,
}

/// Source icon paths under the packaging directory.
#[derive(Debug, Clone, PartialEq, Eq)]
pub struct IconAssetPaths {
    /// Scalable SVG.
    pub svg: String,
    /// Raster icons by size.
    pub pngs: BTreeMap<u32, String>,
}

/// Plans install destinations under `prefix`.
pub fn plan_install(prefix: &str, _mode: InstallMode, binary_source: &str) -> (r: InstallPlan)
    ensures
        r.prefix@ == prefix@,
        r.binary_source@ == binary_source@,
        r.binary_dest@ == path_join(path_join(prefix@, "bin"@), "ronin"@),
        r.desktop_dest@ == path_join(
            path_join(path_join(prefix@, "share"@), "applications"@),
            "ronin.desktop"@,
        ),
        r.icon_svg_dest@ == path_join(
            path_join(path_join(prefix@, "share"@), "icons/hicolor/scalable/apps"@),
            "ronin.svg"@,
        ),
        paths_view(r.icon_png_dests@) == png_paths(
            path_join(path_join(prefix@, "share"@), "icons/hicolor"@),
        ),
{
    let share = join_path(prefix, "share");
    let theme = join_path(share.as_str(), "icons/hicolor");
    let icon_png_dests = png_map(theme.as_str());
    let bin = join_path(prefix, "bin");
    let apps = join_path(share.as_str(), "applications");
    let scalable = join_path(share.as_str(), "icons/hicolor/scalable/apps");
    InstallPlan {
        prefix: owned(prefix),
        binary_source: owned(binary_source),
        binary_dest: join_path(bin.as_str(), "ronin"),
        desktop_dest: join_path(apps.as_str(), "ronin.desktop"),
        icon_svg_dest: join_path(scalable.as_str(), "ronin.svg"),
        icon_png_dests,
    }
}

/// Resolves packaging-dir icon asset paths.
pub fn icon_asset_paths(packaging_dir: &str) -> (r: IconAssetPaths)
    ensures
        r.svg@ == path_join(
            path_join(path_join(packaging_dir@, "icons"@), "hicolor/scalable/apps"@),
            "ronin.svg"@,
        ),
        paths_view(r.pngs@) == png_paths(path_join(path_join(packaging_dir@, "icons"@), "hicolor"@)),
{
    let icons = join_path(packaging_dir, "icons");
    let theme = join_path(icons.as_str(), "hicolor");
    let pngs = png_map(theme.as_str());
    let scalable = join_path(icons.as_str(), "hicolor/scalable/apps");
    IconAssetPaths { svg: join_path(scalable.as_str(), "ronin.svg"), pngs }
}

/// Desktop entry categories (freedesktop).
pub const DESKTOP_CATEGORIES: [&'static str; 3] = ["Utility", "Development", "Office"];

/// The required categories, in order.
pub open spec fn categories_spec() -> Seq<Seq<char>> {
    seq!["Utility"@, "Development"@, "Office"@]
}

fn desktop_categories() -> (r: &'static [&'static str])
    ensures
        r@.map_values(|c: &str| c@) == categories_spec(),
{
    let v: &'static [&'static str] = &["Utility", "Development", "Office"];
    assert(v@.map_values(|c: &str| c@) =~= categories_spec());
    v
}

fn join_strs(parts: &[&str], sep: &str) -> (r: String)
    ensures
        r@ == join(parts@.map_values(|c: &str| c@), sep@),
{
    let ghost pv = parts@.map_values(|c: &str| c@);
    let mut r = String::new();
    let mut i: usize = 0;
    while i < parts.len()
        invariant
            i <= parts.len(),
            pv == parts@.map_values(|c: &str| c@),
            r@ == join(pv.take(i as int), sep@),
        decreases parts.len() - i,
    {
        if i > 0 {
            r.append(sep);
        }
        r.append(parts[i]);
        proof {
            assert(pv.take(i + 1).drop_last() =~= pv.take(i as int));
            if i == 0 {
                assert(join(pv.take(1), sep@) == pv[0]);
            }
        }
        i += 1;
    }
    assert(pv.take(parts.len() as int) =~= pv);
    r
}

/// The canonical Ronin `.desktop` file text for `exec_path`.
pub open spec fn desktop_text(exec_path: Seq<char>) -> Seq<char> {
    "[Desktop Entry]\nType=Application\nVersion=1.0\nName="@ + DESKTOP_NAME@
        + "\nGenericName=AI Workbench\nComment="@ + DESKTOP_COMMENT@ + "\nExec="@ + exec_path
        + "\nIcon="@ + APP_ICON_NAME@ + "\nTerminal=false\nCategories="@ + join(
        categories_spec(),
        ";"@,
    ) + ";\nKeywords=AI;chat;LLM;ollama;assistant;\nStartupNotify=true\n"@
}

/// Builds the canonical Ronin `.desktop` file body for `exec_path`.
pub fn desktop_file_contents(exec_path: &str) -> (r: String)
    ensures
        r@ == desktop_text(exec_path@),
{
    let categories = join_strs(desktop_categories(), ";");
    let mut r = owned("[Desktop Entry]\nType=Application\nVersion=1.0\nName=");
    r.append(DESKTOP_NAME);
    r.append("\nGenericName=AI Workbench\nComment=");
    r.append(DESKTOP_COMMENT);
    r.append("\nExec=");
    r.append(exec_path);
    r.append("\nIcon=");
    r.append(APP_ICON_NAME);
    r.append("\nTerminal=false\nCategories=");
    r.append(categories.as_str());
    r.append(";\nKeywords=AI;chat;LLM;ollama;assistant;\nStartupNotify=true\n");
    r
}

/// Parsed required fields from a `.desktop` file.
#[derive(Debug, Clone, PartialEq, Eq)]
pub struct DesktopRequiredFields {
    /// `Type=`
    pub entry_type: String,
    /// `Name=`
    pub name: String,
    /// `Exec=`
    pub exec_command: String,
    /// `Icon=`
    pub icon: String,
    /// `Comment=`
    pub comment: String,
    /// `Categories=` split on `;` (empty trailing ignored).
    pub categories: Vec<String>,
    /// `Terminal=`
    pub terminal: bool,
}

/// Mathematical view of [`DesktopRequiredFields`].
pub struct FieldsView {
    /// `Type=` value.
    pub entry_type: Seq<char>,
    /// `Name=` value.
    pub name: Seq<char>,
    /// `Exec=` value.
    pub exec_command: Seq<char>,
    /// `Icon=` value.
    pub icon: Seq<char>,
    /// `Comment=` value.
    pub comment: Seq<char>,
    /// Non-empty trimmed `Categories=` items.
    pub categories: Seq<Seq<char>>,
    /// `Terminal=` flag.
    pub terminal: bool,
}

impl View for DesktopRequiredFields {
    type V = FieldsView;

    open spec fn view(&self) -> FieldsView {
        FieldsView {
            entry_type: self.entry_type@,
            name: self.name@,
            exec_command: self.exec_command@,
            icon: self.icon@,
            comment: self.comment@,
            categories: strings_view(self.categories@),
            terminal: self.terminal,
        }
    }
}

/// The trimmed non-empty pieces among the first `k` of `parts`.
pub open spec fn trimmed_nonempty(parts: Seq<Seq<char>>, k: int) -> Seq<Seq<char>>
    decreases k,
{
    if k <= 0 {
        Seq::empty()
    } else {
        let rest = trimmed_nonempty(parts, k - 1);
        if trim(parts[k - 1]).len() > 0 {
            rest.push(trim(parts[k - 1]))
        } else {
            rest
        }
    }
}

/// Items of a `Categories=` value.
pub open spec fn category_items(value: Seq<char>) -> Seq<Seq<char>> {
    trimmed_nonempty(split_char(value, ';'), split_char(value, ';').len() as int)
}

/// Index of the first `c` in `s` at or after `i`, if any.
pub open spec fn first_index_from(s: Seq<char>, c: char, i: int) -> Option<int>
    decreases s.len() - i,
{
    if i < 0 || i >= s.len() {
        None
    } else if s[i] == c {
        Some(i)
    } else {
        first_index_from(s, c, i + 1)
    }
}

/// Fields seen so far while scanning a desktop file.
pub struct DesktopScan {
    /// Inside the `[Desktop Entry]` group.
    pub in_entry: bool,
    /// Last `Type=` value.
    pub entry_type: Option<Seq<char>>,
    /// Last `Name=` value.
    pub name: Option<Seq<char>>,
    /// Last `Exec=` value.
    pub exec_command: Option<Seq<char>>,
    /// Last `Icon=` value.
    pub icon: Option<Seq<char>>,
    /// Last `Comment=` value.
    pub comment: Option<Seq<char>>,
    /// Last `Categories=` items.
    pub categories: Option<Seq<Seq<char>>>,
    /// Last `Terminal=` flag.
    pub terminal: Option<bool>,
}

/// Nothing seen yet.
pub open spec fn scan_start() -> DesktopScan {
    DesktopScan {
        in_entry: false,
        entry_type: None,
        name: None,
        exec_command: None,
        icon: None,
        comment: None,
        categories: None,
        terminal: None,
    }
}

/// Scan state after one raw line: blank and `#` lines are skipped, `[..]`
/// headers switch groups, and `key=value` lines of the `[Desktop Entry]` group
/// record the value of the keys Ronin needs (the last one wins).
pub open spec fn scan_line(st: DesktopScan, raw: Seq<char>) -> DesktopScan {
    let line = trim(raw);
    if line.len() == 0 || line[0] == '#' {
        st
    } else if line[0] == '[' {
        DesktopScan { in_entry: line == "[Desktop Entry]"@, ..st }
    } else if !st.in_entry {
        st
    } else {
        match first_index_from(line, '=', 0) {
            None => st,
            Some(i) => {
                let key = line.take(i);
                let value = line.skip(i + 1);
                if key == "Type"@ {
                    DesktopScan { entry_type: Some(value), ..st }
                } else if key == "Name"@ {
                    DesktopScan { name: Some(value), ..st }
                } else if key == "Exec"@ {
                    DesktopScan { exec_command: Some(value), ..st }
                } else if key == "Icon"@ {
                    DesktopScan { icon: Some(value), ..st }
                } else if key == "Comment"@ {
                    DesktopScan { comment: Some(value), ..st }
                } else if key == "Categories"@ {
                    DesktopScan { categories: Some(category_items(value)), ..st }
                } else if key == "Terminal"@ {
                    DesktopScan {
                        terminal: Some(lower_seq(value) == "true"@ || lower_seq(value) == "1"@),
                        ..st
                    }
                } else {
                    st
                }
            },
        }
    }
}

/// Scan state after the first `k` lines.
pub open spec fn scan_lines(lines: Seq<Seq<char>>, k: int) -> DesktopScan
    decreases k,
{
    if k <= 0 {
        scan_start()
    } else {
        scan_line(scan_lines(lines, k - 1), lines[k - 1])
    }
}

/// Scan state of a whole file. Its lines are the pieces between `\n`s; the
/// `\r` of a `\r\n` ending and an empty last piece vanish under trimming and
/// blank-line skipping, as with `str::lines`.
pub open spec fn desktop_scan(content: Seq<char>) -> DesktopScan {
    scan_lines(split_char(content, '\n'), split_char(content, '\n').len() as int)
}

/// What [`parse_desktop_required_fields`] returns for `content`.
pub open spec fn parse_result(content: Seq<char>) -> Result<FieldsView, Seq<char>> {
    let st = desktop_scan(content);
    if st.entry_type is None {
        Err("missing Type"@)
    } else if st.name is None {
        Err("missing Name"@)
    } else if st.exec_command is None {
        Err("missing Exec"@)
    } else if st.icon is None {
        Err("missing Icon"@)
    } else if st.comment is None {
        Err("missing Comment"@)
    } else if st.categories is None {
        Err("missing Categories"@)
    } else {
        Ok(
            FieldsView {
                entry_type: st.entry_type->0,
                name: st.name->0,
                exec_command: st.exec_command->0,
                icon: st.icon->0,
                comment: st.comment->0,
                categories: st.categories->0,
                terminal: match st.terminal {
                    Some(b) => b,
                    None => false,
                },
            },
        )
    }
}

struct ScanState {
    in_entry: bool,
    entry_type: Option<Vec<char>>,
    name: Option<Vec<char>>,
    exec_command: Option<Vec<char>>,
    icon: Option<Vec<char>>,
    comment: Option<Vec<char>>,
    categories: Option<Vec<Vec<char>>>,
    terminal: Option<bool>,
}

spec fn opt_chars(o: Option<Vec<char>>) -> Option<Seq<char>> {
    match o {
        Some(v) => Some(v@),
        None => None,
    }
}

impl ScanState {
    spec fn view_scan(&self) -> DesktopScan {
        DesktopScan {
            in_entry: self.in_entry,
            entry_type: opt_chars(self.entry_type),
            name: opt_chars(self.name),
            exec_command: opt_chars(self.exec_command),
            icon: opt_chars(self.icon),
            comment: opt_chars(self.comment),
            categories: match self.categories {
                Some(v) => Some(chars_list(v@)),
                None => None,
            },
            terminal: self.terminal,
        }
    }
}

fn category_items_exec(value: &[char]) -> (r: Vec<Vec<char>>)
    ensures
        chars_list(r@) == category_items(value@),
{
    let parts = split_chars(value, ';');
    let ghost pv = chars_list(parts@);
    let mut out: Vec<Vec<char>> = Vec::new();
    let mut i: usize = 0;
    while i < parts.len()
        invariant
            i <= parts.len(),
            pv == chars_list(parts@),
            pv == split_char(value@, ';'),
            chars_list(out@) == trimmed_nonempty(pv, i as int),
        decreases parts.len() - i,
    {
        let t = trim_chars(parts[i].as_slice());
        proof {
            assert(pv[i as int] == parts@[i as int]@);
        }
        if t.len() > 0 {
            let ghost prev = out@;
            out.push(t);
            assert(chars_list(out@) =~= chars_list(prev).push(t@));
        }
        i += 1;
    }
    out
}

fn first_index_exec(s: &[char], c: char) -> (r: Option<usize>)
    ensures
        match r {
            Some(i) => i < s.len() && first_index_from(s@, c, 0) == Some(i as int),
            None => first_index_from(s@, c, 0) is None,
        },
{
    let mut i: usize = 0;
    while i < s.len()
        invariant
            i <= s.len(),
            first_index_from(s@, c, 0) == first_index_from(s@, c, i as int),
        decreases s.len() - i,
    {
        if s[i] == c {
            return Some(i);
        }
        i += 1;
    }
    None
}

fn chars_are(v: &[char], lit: &str) -> (r: bool)
    ensures
        r == (v@ == lit@),
{
    let l = chars_of(lit);
    chars_eq(v, l.as_slice())
}

fn scan_line_exec(st: &mut ScanState, raw: &[char])
    ensures
        final(st).view_scan() == scan_line(old(st).view_scan(), raw@),
{
    let line = trim_chars(raw);
    if line.len() == 0 || line[0] == '#' {
        return;
    }
    if line[0] == '[' {
        st.in_entry = chars_are(line.as_slice(), "[Desktop Entry]");
        return;
    }
    if !st.in_entry {
        return;
    }
    let eq = match first_index_exec(line.as_slice(), '=') {
        Some(i) => i,
        None => {
            return;
        },
    };
    let key = slice_to_vec(line.as_slice(), 0, eq);
    let value = slice_to_vec(line.as_slice(), eq + 1, line.len());
    proof {
        assert(key@ =~= line@.take(eq as int));
        assert(value@ =~= line@.skip(eq + 1));
    }
    if chars_are(key.as_slice(), "Type") {
        st.entry_type = Some(value);
    } else if chars_are(key.as_slice(), "Name") {
        st.name = Some(value);
    } else if chars_are(key.as_slice(), "Exec") {
        st.exec_command = Some(value);
    } else if chars_are(key.as_slice(), "Icon") {
        st.icon = Some(value);
    } else if chars_are(key.as_slice(), "Comment") {
        st.comment = Some(value);
    } else if chars_are(key.as_slice(), "Categories") {
        st.categories = Some(category_items_exec(value.as_slice()));
    } else if chars_are(key.as_slice(), "Terminal") {
        let lv = lower_chars(value.as_slice());
        let t = chars_are(lv.as_slice(), "true") || chars_are(lv.as_slice(), "1");
        st.terminal = Some(t);
    }
}

fn string_of_vec(v: Vec<char>) -> (r: String)
    ensures
        r@ == v@,
{
    string_of(v.as_slice())
}

/// Parses required freedesktop fields from desktop file text.
pub fn parse_desktop_required_fields(content: &str) -> (r: Result<DesktopRequiredFields, String>)
    ensures
        match r {
            Ok(f) => parse_result(content@) == Ok::<FieldsView, Seq<char>>(f@),
            Err(e) => parse_result(content@) == Err::<FieldsView, Seq<char>>(e@),
        },
{
    let cs = chars_of(content);
    let lines = split_chars(cs.as_slice(), '\n');
    let ghost lv = chars_list(lines@);
    let mut st = ScanState {
        in_entry: false,
        entry_type: None,
        name: None,
        exec_command: None,
        icon: None,
        comment: None,
        categories: None,
        terminal: None,
    };
    let mut i: usize = 0;
    while i < lines.len()
        invariant
            i <= lines.len(),
            lv == chars_list(lines@),
            lv == split_char(content@, '\n'),
            st.view_scan() == scan_lines(lv, i as int),
        decreases lines.len() - i,
    {
        proof {
            assert(lv[i as int] == lines@[i as int]@);
        }
        scan_line_exec(&mut st, lines[i].as_slice());
        i += 1;
    }
    let ScanState { in_entry: _, entry_type, name, exec_command, icon, comment, categories, terminal } = st;
    let entry_type = match entry_type {
        Some(v) => string_of_vec(v),
        None => {
            return Err(owned("missing Type"));
        },
    };
    let name = match name {
        Some(v) => string_of_vec(v),
        None => {
            return Err(owned("missing Name"));
        },
    };
    let exec_command = match exec_command {
        Some(v) => string_of_vec(v),
        None => {
            return Err(owned("missing Exec"));
        },
    };
    let icon = match icon {
        Some(v) => string_of_vec(v),
        None => {
            return Err(owned("missing Icon"));
        },
    };
    let comment = match comment {
        Some(v) => string_of_vec(v),
        None => {
            return Err(owned("missing Comment"));
        },
    };
    let cats = match categories {
        Some(v) => v,
        None => {
            return Err(owned("missing Categories"));
        },
    };
    let mut categories: Vec<String> = Vec::new();
    let mut k: usize = 0;
    while k < cats.len()
        invariant
            k <= cats.len(),
            strings_view(categories@) == chars_list(cats@).take(k as int),
        decreases cats.len() - k,
    {
        let s = string_of(cats[k].as_slice());
        let ghost prev = categories@;
        categories.push(s);
        assert(strings_view(categories@) =~= strings_view(prev).push(cats@[k as int]@));
        assert(chars_list(cats@).take(k + 1) =~= chars_list(cats@).take(k as int).push(
            cats@[k as int]@,
        ));
        k += 1;
    }
    assert(chars_list(cats@).take(cats@.len() as int) =~= chars_list(cats@));
    let terminal = match terminal {
        Some(b) => b,
        None => false,
    };
    Ok(DesktopRequiredFields { entry_type, name, exec_command, icon, comment, categories, terminal })
}

/// What [`validate_desktop_file`] returns for `content`: the first problem found, in order.
pub open spec fn validate_result(content: Seq<char>) -> Result<(), Seq<char>> {
    if !contains(content, "[Desktop Entry]"@) {
        Err("missing [Desktop Entry] group"@)
    } else {
        match parse_result(content) {
            Err(e) => Err(e),
            Ok(f) => if f.entry_type != "Application"@ {
                Err("Type must be Application, got "@ + f.entry_type)
            } else if f.name != DESKTOP_NAME@ {
                Err("Name must be "@ + DESKTOP_NAME@)
            } else if f.icon != APP_ICON_NAME@ {
                Err("Icon must be "@ + APP_ICON_NAME@)
            } else if trim(f.exec_command).len() == 0 {
                Err("Exec must not be empty"@)
            } else if trim(f.comment).len() == 0 {
                Err("Comment must not be empty"@)
            } else if f.categories.len() == 0 {
                Err("Categories must not be empty"@)
            } else if !f.categories.contains("Utility"@) {
                Err("Categories must include "@ + "Utility"@)
            } else if !f.categories.contains("Development"@) {
                Err("Categories must include "@ + "Development"@)
            } else if !f.categories.contains("Office"@) {
                Err("Categories must include "@ + "Office"@)
            } else if f.terminal {
                Err("Terminal must be false for a GUI app"@)
            } else {
                Ok(())
            },
        }
    }
}

fn has_category(cats: &Vec<String>, want: &str) -> (r: bool)
    ensures
        r == strings_view(cats@).contains(want@),
{
    let mut i: usize = 0;
    while i < cats.len()
        invariant
            i <= cats.len(),
            forall|j: int| 0 <= j < i ==> cats@[j]@ != want@,
        decreases cats.len() - i,
    {
        if str_eq(cats[i].as_str(), want) {
            assert(strings_view(cats@)[i as int] == want@);
            return true;
        }
        i += 1;
    }
    assert forall|j: int| 0 <= j < strings_view(cats@).len() implies strings_view(cats@)[j]
        != want@ by {
        assert(strings_view(cats@)[j] == cats@[j]@);
    }
    false
}

/// Validates that a desktop file has the fields Ronin packaging requires.
pub fn validate_desktop_file(content: &str) -> (r: Result<(), String>)
    ensures
        match r {
            Ok(_) => validate_result(content@) is Ok,
            Err(e) => validate_result(content@) == Err::<(), Seq<char>>(e@),
        },
{
    if !str_contains(content, "[Desktop Entry]") {
        return Err(owned("missing [Desktop Entry] group"));
    }
    let fields = match parse_desktop_required_fields(content) {
        Ok(f) => f,
        Err(e) => {
            return Err(e);
        },
    };
    if !str_eq(fields.entry_type.as_str(), "Application") {
        return Err(concat2("Type must be Application, got ", fields.entry_type.as_str()));
    }
    if !str_eq(fields.name.as_str(), DESKTOP_NAME) {
        return Err(concat2("Name must be ", DESKTOP_NAME));
    }
    if !str_eq(fields.icon.as_str(), APP_ICON_NAME) {
        return Err(concat2("Icon must be ", APP_ICON_NAME));
    }
    if trim_str(fields.exec_command.as_str()).len() == 0 {
        return Err(owned("Exec must not be empty"));
    }
    if trim_str(fields.comment.as_str()).len() == 0 {
        return Err(owned("Comment must not be empty"));
    }
    if fields.categories.len() == 0 {
        return Err(owned("Categories must not be empty"));
    }
    let required = desktop_categories();
    assert(required@.len() == required@.map_values(|c: &str| c@).len());
    let mut i: usize = 0;
    while i < required.len()
        invariant
            i <= required.len(),
            contains(content@, "[Desktop Entry]"@),
            parse_result(content@) == Ok::<FieldsView, Seq<char>>(fields@),
            fields@.entry_type == "Application"@,
            fields@.name == DESKTOP_NAME@,
            fields@.icon == APP_ICON_NAME@,
            trim(fields@.exec_command).len() > 0,
            trim(fields@.comment).len() > 0,
            fields@.categories.len() > 0,
            required@.map_values(|c: &str| c@) == categories_spec(),
            required@.len() == 3,
            forall|j: int|
                0 <= j < i ==> strings_view(fields.categories@).contains(
                    #[trigger] categories_spec()[j],
                ),
        decreases required.len() - i,
    {
        let want = required[i];
        assert(categories_spec()[i as int] == want@);
        if !has_category(&fields.categories, want) {
            proof {
                if i > 0 {
                    assert(strings_view(fields.categories@).contains(categories_spec()[0]));
                }
                if i > 1 {
                    assert(strings_view(fields.categories@).contains(categories_spec()[1]));
                }
            }
            return Err(concat2("Categories must include ", want));
        }
        i += 1;
    }
    proof {
        assert(strings_view(fields.categories@).contains(categories_spec()[0]));
        assert(strings_view(fields.categories@).contains(categories_spec()[1]));
        assert(strings_view(fields.categories@).contains(categories_spec()[2]));
    }
    if fields.terminal {
        return Err(owned("Terminal must be false for a GUI app"));
    }
    Ok(())
}

impl InstallPlan {
    /// Human-readable dry-run copy operations (no filesystem writes).
    pub fn dry_run_operations(&self, packaging_dir: &str) -> (r: Vec<String>)
        ensures
            strings_view(r@) == dry_run_text(
                self.binary_source@,
                self.binary_dest@,
                self.desktop_dest@,
                self.icon_svg_dest@,
                paths_view(self.icon_png_dests@),
                packaging_dir@,
            ),
    {
        broadcast use vstd::std_specs::btree::group_btree_axioms;

        proof {
            lemma_u32_keys_ordered();
        }
        let mut ops: Vec<String> = Vec::new();
        ops.push(install_line(self.binary_source.as_str(), self.binary_dest.as_str()));
        let desktop_src = concat2(packaging_dir, "/ronin.desktop");
        ops.push(install_line(desktop_src.as_str(), self.desktop_dest.as_str()));
        let assets = icon_asset_paths(packaging_dir);
        ops.push(install_line(assets.svg.as_str(), self.icon_svg_dest.as_str()));
        let ghost src_root = path_join(path_join(packaging_dir@, "icons"@), "hicolor"@);
        let ghost dests = paths_view(self.icon_png_dests@);
        let ghost base = seq![
            install_text(self.binary_source@, self.binary_dest@),
            install_text(packaging_dir@ + "/ronin.desktop"@, self.desktop_dest@),
            install_text(assets.svg@, self.icon_svg_dest@),
        ];
        assert(strings_view(ops@) =~= base);
        let sizes = required_icon_sizes();
        let mut k: usize = 0;
        while k < sizes.len()
            invariant
                k <= sizes.len(),
                u32_keys_ordered(),
                sizes@ == seq![48u32, 128u32, 256u32],
                paths_view(assets.pngs@) == png_paths(src_root),
                dests == paths_view(self.icon_png_dests@),
                strings_view(ops@) == base + png_install_lines(src_root, dests, k as int),
            decreases sizes.len() - k,
        {
            let size = sizes[k];
            assert(icon_sizes()[k as int] == size);
            assert(size == 48 || size == 128 || size == 256);
            assert(png_paths(src_root).contains_key(size) && png_paths(src_root)[size]
                == png_icon_path(src_root, size));
            let src = assets.pngs.get(&size);
            let dest = self.icon_png_dests.get(&size);
            match (src, dest) {
                (Some(s), Some(d)) => {
                    let ghost prev = ops@;
                    let line = install_line(s.as_str(), d.as_str());
                    ops.push(line);
                    proof {
                        assert(strings_view(ops@) =~= strings_view(prev).push(line@));
                        assert(s@ == png_icon_path(src_root, size));
                        assert(dests.contains_key(size) && dests[size] == d@);
                    }
                },
                _ => {
                    proof {
                        assert(paths_view(assets.pngs@).contains_key(size));
                        assert(!dests.contains_key(size));
                    }
                },
            }
            k += 1;
        }
        ops
    }
}

/// `install -D {src} {dest}`.
pub open spec fn install_text(src: Seq<char>, dest: Seq<char>) -> Seq<char> {
    "install -D "@ + src + " "@ + dest
}

fn install_line(src: &str, dest: &str) -> (r: String)
    ensures
        r@ == install_text(src@, dest@),
{
    let mut r = owned("install -D ");
    r.append(src);
    r.append(" ");
    r.append(dest);
    r
}

/// The shipped sizes in order.
pub open spec fn icon_sizes() -> Seq<u32> {
    seq![48u32, 128u32, 256u32]
}

/// Install lines for the first `k` shipped sizes that have a destination.
pub open spec fn png_install_lines(src_root: Seq<char>, dests: Map<u32, Seq<char>>, k: int) -> Seq<
    Seq<char>,
>
    decreases k,
{
    if k <= 0 {
        Seq::empty()
    } else {
        let rest = png_install_lines(src_root, dests, k - 1);
        let size = icon_sizes()[k - 1];
        if dests.contains_key(size) {
            rest.push(install_text(png_icon_path(src_root, size), dests[size]))
        } else {
            rest
        }
    }
}

/// The dry-run lines: binary, desktop entry, scalable icon, then each shipped
/// PNG size that has a destination.
pub open spec fn dry_run_text(
    binary_source: Seq<char>,
    binary_dest: Seq<char>,
    desktop_dest: Seq<char>,
    svg_dest: Seq<char>,
    png_dests: Map<u32, Seq<char>>,
    packaging_dir: Seq<char>,
) -> Seq<Seq<char>> {
    let icons = path_join(packaging_dir, "icons"@);
    seq![
        install_text(binary_source, binary_dest),
        install_text(packaging_dir + "/ronin.desktop"@, desktop_dest),
        install_text(path_join(path_join(icons, "hicolor/scalable/apps"@), "ronin.svg"@), svg_dest),
    ] + png_install_lines(path_join(icons, "hicolor"@), png_dests, 3)
}

/// Strictly increasing keys.
pub open spec fn keys_ascending(ks: Seq<u32>) -> bool {
    forall|i: int, j: int| 0 <= i < j < ks.len() ==> ks[i] < ks[j]
}

/// Paths an uninstall removes: binary, desktop entry, scalable icon, then the
/// PNG icons in increasing size order.
pub open spec fn uninstall_paths(
    binary_dest: Seq<char>,
    desktop_dest: Seq<char>,
    svg_dest: Seq<char>,
    png_dests: Map<u32, Seq<char>>,
    ks: Seq<u32>,
) -> Seq<Seq<char>> {
    seq![binary_dest, desktop_dest, svg_dest] + ks.map_values(|k: u32| png_dests[k])
}

/// Lists every path an uninstall should remove for `plan`.
pub fn plan_uninstall(plan: &InstallPlan) -> (r: Vec<String>)
    ensures
        exists|ks: Seq<u32>|
            {
                &&& keys_ascending(ks)
                &&& ks.to_set() == plan.icon_png_dests@.dom()
                &&& strings_view(r@) == uninstall_paths(
                    plan.binary_dest@,
                    plan.desktop_dest@,
                    plan.icon_svg_dest@,
                    paths_view(plan.icon_png_dests@),
                    ks,
                )
            },
{
    broadcast use vstd::std_specs::btree::group_btree_axioms;

    proof {
        lemma_u32_keys_ordered();
    }
    let mut paths: Vec<String> = Vec::new();
    paths.push(plan.binary_dest.clone());
    paths.push(plan.desktop_dest.clone());
    paths.push(plan.icon_svg_dest.clone());
    let ghost base = strings_view(paths@);
    assert(base =~= seq![plan.binary_dest@, plan.desktop_dest@, plan.icon_svg_dest@]);
    let ghost m = plan.icon_png_dests@;
    let vals = plan.icon_png_dests.values();
    let ghost ks = choose|ks: Seq<u32>|
        {
            &&& vstd::std_specs::btree::increasing_seq(ks)
            &&& ks.to_set() == m.dom()
            &&& ks.no_duplicates()
            &&& vstd::std_specs::iter::IteratorSpec::remaining(&vals) == ks.map(|i: int, k: u32| &m[k])
        };
    let ghost rem = vstd::std_specs::iter::IteratorSpec::remaining(&vals);
    for p in it: vals
        invariant
            base == seq![plan.binary_dest@, plan.desktop_dest@, plan.icon_svg_dest@],
            it.seq() == rem,
            strings_view(paths@) == base + rem.take(it.index()).map_values(|v: &String| v@),
    {
        let ghost prev = paths@;
        let q = p.clone();
        paths.push(q);
        proof {
            let k = it.index();
            assert(p == it.seq()[k]);
            assert(p == rem[k]);
            assert(rem.take(k + 1) =~= rem.take(k).push(rem[k]));
            assert(strings_view(paths@) =~= strings_view(prev).push(q@));
            assert(rem.take(k + 1).map_values(|v: &String| v@) =~= rem.take(k).map_values(
                |v: &String| v@,
            ).push(p@));
        }
    }
    proof {
        assert(rem.take(rem.len() as int) =~= rem);
        assert(rem.map_values(|v: &String| v@) =~= ks.map_values(
            |k: u32| paths_view(m)[k],
        ));
        lemma_increasing_keys(ks);
    }
    paths
}

proof fn lemma_increasing_keys(ks: Seq<u32>)
    requires
        u32_keys_ordered(),
        vstd::std_specs::btree::increasing_seq(ks),
    ensures
        keys_ascending(ks),
{
    broadcast use vstd::std_specs::btree::group_btree_axioms;

    assert forall|i: int, j: int| 0 <= i < j < ks.len() implies ks[i] < ks[j] by {
        assert(vstd::std_specs::cmp::OrdSpec::cmp_spec(&ks[i], &ks[j]) is Less);
    }
}

/// The lines of [`desktop_text`]; the closing newline leaves an empty last piece.
pub open spec fn desktop_lines(exec_path: Seq<char>) -> Seq<Seq<char>> {
    seq![
        "[Desktop Entry]"@,
        "Type=Application"@,
        "Version=1.0"@,
        "Name=Ronin"@,
        "GenericName=AI Workbench"@,
        "Comment="@ + DESKTOP_COMMENT@,
        "Exec="@ + exec_path,
        "Icon=ronin"@,
        "Terminal=false"@,
        "Categories=Utility;Development;Office;"@,
        "Keywords=AI;chat;LLM;ollama;assistant;"@,
        "StartupNotify=true"@,
        Seq::<char>::empty(),
    ]
}

proof fn lemma_join_take_step(ls: Seq<Seq<char>>, sep: Seq<char>, k: int)
    requires
        1 <= k < ls.len(),
    ensures
        join(ls.take(k + 1), sep) == join(ls.take(k), sep) + sep + ls[k],
{
    assert(ls.take(k + 1).drop_last() =~= ls.take(k));
}

proof fn lemma_categories_joined()
    ensures
        join(categories_spec(), ";"@) == "Utility;Development;Office"@,
{
    reveal_strlit(";");
    reveal_strlit("Utility");
    reveal_strlit("Development");
    reveal_strlit("Office");
    reveal_strlit("Utility;Development;Office");
    let cs = categories_spec();
    assert(join(cs.take(1), ";"@) == cs[0]);
    lemma_join_take_step(cs, ";"@, 1);
    lemma_join_take_step(cs, ";"@, 2);
    assert(cs.take(3) =~= cs);
    assert(join(cs, ";"@) =~= "Utility;Development;Office"@);
}

proof fn lemma_head_pieces()
    ensures
        "[Desktop Entry]\nType=Application\nVersion=1.0\nName="@ == "[Desktop Entry]"@ + seq![
            '\n',
        ] + "Type=Application"@ + seq!['\n'] + "Version=1.0"@ + seq!['\n'] + "Name="@,
        "Name="@ + DESKTOP_NAME@ == "Name=Ronin"@,
        "\nGenericName=AI Workbench\nComment="@ == seq!['\n'] + "GenericName=AI Workbench"@
            + seq!['\n'] + "Comment="@,
        "\nExec="@ == seq!['\n'] + "Exec="@,
{
    reveal_strlit("[Desktop Entry]\nType=Application\nVersion=1.0\nName=");
    reveal_strlit("[Desktop Entry]");
    reveal_strlit("Type=Application");
    reveal_strlit("Version=1.0");
    reveal_strlit("Name=");
    reveal_strlit("Ronin");
    reveal_strlit("Name=Ronin");
    reveal_strlit("\nGenericName=AI Workbench\nComment=");
    reveal_strlit("GenericName=AI Workbench");
    reveal_strlit("Comment=");
    reveal_strlit("\nExec=");
    reveal_strlit("Exec=");
    assert("[Desktop Entry]\nType=Application\nVersion=1.0\nName="@ =~= "[Desktop Entry]"@
        + seq!['\n'] + "Type=Application"@ + seq!['\n'] + "Version=1.0"@ + seq!['\n'] + "Name="@);
    assert("Name="@ + DESKTOP_NAME@ =~= "Name=Ronin"@);
    assert("\nGenericName=AI Workbench\nComment="@ =~= seq!['\n'] + "GenericName=AI Workbench"@
        + seq!['\n'] + "Comment="@);
    assert("\nExec="@ =~= seq!['\n'] + "Exec="@);
}

proof fn lemma_tail_pieces()
    ensures
        "\nIcon="@ + APP_ICON_NAME@ == seq!['\n'] + "Icon=ronin"@,
        "\nTerminal=false\nCategories="@ == seq!['\n'] + "Terminal=false"@ + seq!['\n']
            + "Categories="@,
        "Categories="@ + "Utility;Development;Office"@ + ";"@
            == "Categories=Utility;Development;Office;"@,
        ";\nKeywords=AI;chat;LLM;ollama;assistant;\nStartupNotify=true\n"@ == ";"@ + seq!['\n']
            + "Keywords=AI;chat;LLM;ollama;assistant;"@ + seq!['\n'] + "StartupNotify=true"@
            + seq!['\n'],
{
    reveal_strlit("\nIcon=");
    reveal_strlit("ronin");
    reveal_strlit("Icon=ronin");
    reveal_strlit("\nTerminal=false\nCategories=");
    reveal_strlit("Terminal=false");
    reveal_strlit("Categories=");
    reveal_strlit("Utility;Development;Office");
    reveal_strlit(";");
    reveal_strlit("Categories=Utility;Development;Office;");
    reveal_strlit(";\nKeywords=AI;chat;LLM;ollama;assistant;\nStartupNotify=true\n");
    reveal_strlit("Keywords=AI;chat;LLM;ollama;assistant;");
    reveal_strlit("StartupNotify=true");
    assert("\nIcon="@ + APP_ICON_NAME@ =~= seq!['\n'] + "Icon=ronin"@);
    assert("\nTerminal=false\nCategories="@ =~= seq!['\n'] + "Terminal=false"@ + seq!['\n']
        + "Categories="@);
    assert("Categories="@ + "Utility;Development;Office"@ + ";"@
        =~= "Categories=Utility;Development;Office;"@);
    assert(";\nKeywords=AI;chat;LLM;ollama;assistant;\nStartupNotify=true\n"@ =~= ";"@ + seq![
        '\n',
    ] + "Keywords=AI;chat;LLM;ollama;assistant;"@ + seq!['\n'] + "StartupNotify=true"@ + seq![
        '\n',
    ]);
}

spec fn desktop_head() -> Seq<char> {
    "[Desktop Entry]\nType=Application\nVersion=1.0\nName="@ + DESKTOP_NAME@
        + "\nGenericName=AI Workbench\nComment="@ + DESKTOP_COMMENT@ + "\nExec="@
}

spec fn desktop_tail() -> Seq<char> {
    "\nIcon="@ + APP_ICON_NAME@ + "\nTerminal=false\nCategories="@ + join(
        categories_spec(),
        ";"@,
    ) + ";\nKeywords=AI;chat;LLM;ollama;assistant;\nStartupNotify=true\n"@
}

proof fn lemma_lines_head(p: Seq<char>)
    ensures
        join(desktop_lines(p).take(7), seq!['\n']) == desktop_head() + p,
{
    let ls = desktop_lines(p);
    let nl = seq!['\n'];
    lemma_head_pieces();
    assert(join(ls.take(1), nl) == ls[0]);
    lemma_join_take_step(ls, nl, 1);
    lemma_join_take_step(ls, nl, 2);
    lemma_join_take_step(ls, nl, 3);
    lemma_join_take_step(ls, nl, 4);
    lemma_join_take_step(ls, nl, 5);
    lemma_join_take_step(ls, nl, 6);
    let j5 = join(ls.take(5), nl);
    assert(j5 =~= ls[0] + nl + ls[1] + nl + ls[2] + nl + ("Name="@ + DESKTOP_NAME@) + nl + ls[4]);
    assert(desktop_head() =~= j5 + nl + "Comment="@ + DESKTOP_COMMENT@ + nl + "Exec="@);
    assert(join(ls.take(7), nl) =~= j5 + nl + ls[5] + nl + ls[6]);
}

spec fn tail_lines_text(l7: Seq<char>, l8: Seq<char>, l9: Seq<char>, l10: Seq<char>, l11: Seq<char>) -> Seq<char> {
    let nl = seq!['\n'];
    nl + l7 + (nl + l8) + (nl + l9) + (nl + l10) + (nl + l11) + nl
}

proof fn lemma_tail_text()
    ensures
        desktop_tail() == tail_lines_text(
            "Icon=ronin"@,
            "Terminal=false"@,
            "Categories=Utility;Development;Office;"@,
            "Keywords=AI;chat;LLM;ollama;assistant;"@,
            "StartupNotify=true"@,
        ),
{
    let nl = seq!['\n'];
    lemma_categories_joined();
    lemma_tail_pieces();
    let cats = "Utility;Development;Office"@;
    assert(desktop_tail() =~= (nl + "Icon=ronin"@) + (nl + "Terminal=false"@ + nl + "Categories="@)
        + cats + (";"@ + nl + "Keywords=AI;chat;LLM;ollama;assistant;"@ + nl
        + "StartupNotify=true"@ + nl));
}

proof fn lemma_lines_tail(p: Seq<char>)
    ensures
        join(desktop_lines(p), seq!['\n']) == join(desktop_lines(p).take(7), seq!['\n'])
            + tail_lines_text(ls_at(p, 7), ls_at(p, 8), ls_at(p, 9), ls_at(p, 10), ls_at(p, 11)),
{
    let ls = desktop_lines(p);
    let nl = seq!['\n'];
    let j7 = join(ls.take(7), nl);
    lemma_join_take_step(ls, nl, 7);
    let a8 = nl + ls[7];
    assert(join(ls.take(8), nl) =~= j7 + a8);
    lemma_join_take_step(ls, nl, 8);
    let a9 = a8 + (nl + ls[8]);
    assert(join(ls.take(9), nl) =~= j7 + a9);
    lemma_join_take_step(ls, nl, 9);
    let a10 = a9 + (nl + ls[9]);
    assert(join(ls.take(10), nl) =~= j7 + a10);
    lemma_join_take_step(ls, nl, 10);
    let a11 = a10 + (nl + ls[10]);
    assert(join(ls.take(11), nl) =~= j7 + a11);
    lemma_join_take_step(ls, nl, 11);
    let a12 = a11 + (nl + ls[11]);
    assert(join(ls.take(12), nl) =~= j7 + a12);
    lemma_join_take_step(ls, nl, 12);
    assert(ls[12] =~= Seq::<char>::empty());
    assert(join(ls.take(13), nl) =~= j7 + (a12 + nl));
    assert(ls.take(13) =~= ls);
}

spec fn ls_at(p: Seq<char>, k: int) -> Seq<char> {
    desktop_lines(p)[k]
}

proof fn lemma_desktop_text_is_lines(p: Seq<char>)
    ensures
        desktop_text(p) == join(desktop_lines(p), seq!['\n']),
{
    lemma_lines_head(p);
    lemma_lines_tail(p);
    lemma_tail_text();
    assert(desktop_text(p) =~= desktop_head() + p + desktop_tail());
}

proof fn lemma_concat_free(a: Seq<char>, b: Seq<char>, c: char)
    requires
        !a.contains(c),
        !b.contains(c),
    ensures
        !(a + b).contains(c),
{
    if (a + b).contains(c) {
        let i = choose|i: int| 0 <= i < (a + b).len() && (a + b)[i] == c;
        if i < a.len() {
            assert(a[i] == c);
        } else {
            assert(b[i - a.len()] == c);
        }
    }
}

proof fn lemma_fixed_lines_single()
    ensures
        !"[Desktop Entry]"@.contains('\n'),
        !"Type=Application"@.contains('\n'),
        !"Version=1.0"@.contains('\n'),
        !"Name=Ronin"@.contains('\n'),
        !"GenericName=AI Workbench"@.contains('\n'),
        !("Comment="@ + DESKTOP_COMMENT@).contains('\n'),
        !"Exec="@.contains('\n'),
        !"Icon=ronin"@.contains('\n'),
        !"Terminal=false"@.contains('\n'),
        !"Categories=Utility;Development;Office;"@.contains('\n'),
        !"Keywords=AI;chat;LLM;ollama;assistant;"@.contains('\n'),
        !"StartupNotify=true"@.contains('\n'),
{
    reveal_strlit("[Desktop Entry]");
    reveal_strlit("Type=Application");
    reveal_strlit("Version=1.0");
    reveal_strlit("Name=Ronin");
    reveal_strlit("GenericName=AI Workbench");
    reveal_strlit("Comment=");
    reveal_strlit("Native intelligence for Linux \u{2014} local-first AI workbench");
    reveal_strlit("Exec=");
    reveal_strlit("Icon=ronin");
    reveal_strlit("Terminal=false");
    reveal_strlit("Categories=Utility;Development;Office;");
    reveal_strlit("Keywords=AI;chat;LLM;ollama;assistant;");
    reveal_strlit("StartupNotify=true");
    lemma_concat_free("Comment="@, DESKTOP_COMMENT@, '\n');
}

/// Split at newlines, the generated text gives back its lines.
proof fn lemma_desktop_text_split(p: Seq<char>)
    requires
        !p.contains('\n'),
    ensures
        split_char(desktop_text(p), '\n') == desktop_lines(p),
{
    let ls = desktop_lines(p);
    lemma_fixed_lines_single();
    lemma_concat_free("Exec="@, p, '\n');
    assert(!Seq::<char>::empty().contains('\n'));
    assert forall|i: int| 0 <= i < ls.len() implies !(#[trigger] ls[i]).contains('\n') by {
        assert(0 <= i < 13);
    }
    lemma_desktop_text_is_lines(p);
    lemma_split_join(ls, '\n');
}

proof fn lemma_first_index_at(s: Seq<char>, c: char, i: int, k: int)
    requires
        0 <= i <= k < s.len(),
        s[k] == c,
        forall|j: int| i <= j < k ==> s[j] != c,
    ensures
        first_index_from(s, c, i) == Some(k),
    decreases k - i,
{
    if i < k {
        lemma_first_index_at(s, c, i + 1, k);
    }
}

/// A `key=value` line without surrounding whitespace whose first `=` is at `k`.
proof fn lemma_entry_line(line: Seq<char>, k: int)
    requires
        0 < k < line.len(),
        line[k] == '=',
        forall|j: int| 0 <= j < k ==> line[j] != '=',
        !is_ws(line[0]),
        !is_ws(line.last()),
    ensures
        trim(line) == line,
        first_index_from(line, '=', 0) == Some(k),
{
    lemma_first_index_at(line, '=', 0, k);
}

spec fn is_field_key(key: Seq<char>) -> bool {
    ||| key == "Type"@
    ||| key == "Name"@
    ||| key == "Exec"@
    ||| key == "Icon"@
    ||| key == "Comment"@
    ||| key == "Categories"@
    ||| key == "Terminal"@
}

proof fn lemma_scan_other_key(st: DesktopScan, line: Seq<char>, k: int)
    requires
        st.in_entry,
        0 < k < line.len(),
        line[k] == '=',
        forall|j: int| 0 <= j < k ==> line[j] != '=',
        !is_ws(line[0]),
        !is_ws(line.last()),
        line[0] != '#',
        line[0] != '[',
        !is_field_key(line.take(k)),
    ensures
        scan_line(st, line) == st,
{
    lemma_entry_line(line, k);
}

proof fn lemma_scan_ignored_lines(st: DesktopScan)
    requires
        st.in_entry,
    ensures
        scan_line(st, "Version=1.0"@) == st,
        scan_line(st, "GenericName=AI Workbench"@) == st,
        scan_line(st, "Keywords=AI;chat;LLM;ollama;assistant;"@) == st,
        scan_line(st, "StartupNotify=true"@) == st,
        scan_line(st, Seq::empty()) == st,
{
    reveal_strlit("Type");
    reveal_strlit("Name");
    reveal_strlit("Exec");
    reveal_strlit("Icon");
    reveal_strlit("Comment");
    reveal_strlit("Categories");
    reveal_strlit("Terminal");
    reveal_strlit("Version=1.0");
    reveal_strlit("GenericName=AI Workbench");
    reveal_strlit("Keywords=AI;chat;LLM;ollama;assistant;");
    reveal_strlit("StartupNotify=true");
    reveal_strlit("Version");
    reveal_strlit("GenericName");
    reveal_strlit("Keywords");
    assert("Version=1.0"@.take(7) =~= "Version"@);
    assert("GenericName=AI Workbench"@.take(11) =~= "GenericName"@);
    assert("Keywords=AI;chat;LLM;ollama;assistant;"@.take(8) =~= "Keywords"@);
    assert("Version"@[0] != "Comment"@[0]);
    assert("Keywords"@[0] != "Terminal"@[0]);
    assert(!is_field_key("Version"@));
    assert(!is_field_key("GenericName"@));
    assert(!is_field_key("Keywords"@));
    reveal_strlit("StartupNotify");
    assert("StartupNotify=true"@.take(13) =~= "StartupNotify"@);
    assert(!is_field_key("StartupNotify"@));
    lemma_scan_other_key(st, "Version=1.0"@, 7);
    lemma_scan_other_key(st, "GenericName=AI Workbench"@, 11);
    lemma_scan_other_key(st, "Keywords=AI;chat;LLM;ollama;assistant;"@, 8);
    lemma_scan_other_key(st, "StartupNotify=true"@, 13);
    assert(trim(Seq::<char>::empty()).len() == 0);
}

proof fn lemma_scan_header(st: DesktopScan)
    ensures
        scan_line(st, "[Desktop Entry]"@) == (DesktopScan { in_entry: true, ..st }),
{
    reveal_strlit("[Desktop Entry]");
    assert(trim("[Desktop Entry]"@) == "[Desktop Entry]"@);
}

proof fn lemma_scan_text_fields(st: DesktopScan)
    requires
        st.in_entry,
    ensures
        scan_line(st, "Type=Application"@) == (DesktopScan {
            entry_type: Some("Application"@),
            ..st
        }),
        scan_line(st, "Name=Ronin"@) == (DesktopScan { name: Some(DESKTOP_NAME@), ..st }),
        scan_line(st, "Icon=ronin"@) == (DesktopScan { icon: Some(APP_ICON_NAME@), ..st }),
{
    reveal_strlit("Exec");
    reveal_strlit("Type");
    reveal_strlit("Name");
    reveal_strlit("Icon");
    reveal_strlit("Comment");
    reveal_strlit("Type=Application");
    reveal_strlit("Application");
    reveal_strlit("Name=Ronin");
    reveal_strlit("Ronin");
    reveal_strlit("Icon=ronin");
    reveal_strlit("ronin");
    lemma_entry_line("Type=Application"@, 4);
    assert("Type=Application"@.take(4) =~= "Type"@);
    assert("Type=Application"@.skip(5) =~= "Application"@);
    lemma_entry_line("Name=Ronin"@, 4);
    assert("Name=Ronin"@.take(4) =~= "Name"@);
    assert("Name=Ronin"@.skip(5) =~= "Ronin"@);
    assert("Name"@[0] != "Type"@[0]);
    lemma_entry_line("Icon=ronin"@, 4);
    assert("Icon=ronin"@.take(4) =~= "Icon"@);
    assert("Icon=ronin"@.skip(5) =~= "ronin"@);
    assert("Icon"@[0] != "Type"@[0]);
    assert("Icon"@[0] != "Name"@[0]);
    assert("Icon"@[0] != "Exec"@[0]);
}

proof fn lemma_scan_exec(st: DesktopScan, p: Seq<char>)
    requires
        st.in_entry,
    ensures
        scan_line(st, "Exec="@ + p) == (DesktopScan { exec_command: Some(trim_end(p)), ..st }),
{
    reveal_strlit("Exec=");
    reveal_strlit("Exec");
    reveal_strlit("Type");
    reveal_strlit("Name");
    let raw = "Exec="@ + p;
    if has_visible(p) {
        lemma_trim_end_concat("Exec="@, p);
    } else {
        lemma_trim_end_concat_blank("Exec="@, p);
        assert(trim_end("Exec="@) == "Exec="@);
        assert("Exec="@ + trim_end(p) =~= "Exec="@);
    }
    assert(trim_start(raw) == raw);
    let line = "Exec="@ + trim_end(p);
    assert(trim(raw) == line);
    assert(line[4] == '=');
    lemma_first_index_at(line, '=', 0, 4);
    assert(line.take(4) =~= "Exec"@);
    assert(line.skip(5) =~= trim_end(p));
    assert("Exec"@[0] != "Type"@[0]);
    assert("Exec"@[0] != "Name"@[0]);
}

proof fn lemma_scan_terminal(st: DesktopScan)
    requires
        st.in_entry,
    ensures
        scan_line(st, "Terminal=false"@) == (DesktopScan { terminal: Some(false), ..st }),
{
    reveal_strlit("Type");
    reveal_strlit("Name");
    reveal_strlit("Exec");
    reveal_strlit("Icon");
    reveal_strlit("Comment");
    reveal_strlit("Categories");
    reveal_strlit("Terminal");
    reveal_strlit("Terminal=false");
    reveal_strlit("false");
    reveal_strlit("true");
    reveal_strlit("1");
    let line = "Terminal=false"@;
    lemma_entry_line(line, 8);
    assert(line.take(8) =~= "Terminal"@);
    assert(line.skip(9) =~= "false"@);
    assert(lower_seq("false"@).len() == 5);
}

proof fn lemma_category_items()
    ensures
        category_items("Utility;Development;Office;"@) == categories_spec(),
{
    reveal_strlit(";");
    reveal_strlit("Utility");
    reveal_strlit("Development");
    reveal_strlit("Office");
    reveal_strlit("Utility;Development;Office;");
    reveal_strlit("Utility;Development;Office");
    lemma_categories_joined();
    let cs = categories_spec();
    let parts = cs.push(Seq::<char>::empty());
    assert(";"@ =~= seq![';']);
    assert(parts.drop_last() =~= cs);
    assert(join(parts, seq![';']) =~= "Utility;Development;Office;"@);
    assert(!Seq::<char>::empty().contains(';'));
    assert forall|i: int| 0 <= i < parts.len() implies !(#[trigger] parts[i]).contains(';') by {
        assert(0 <= i < 4);
    }
    lemma_split_join(parts, ';');
    assert(trim("Utility"@) == "Utility"@);
    assert(trim("Development"@) == "Development"@);
    assert(trim("Office"@) == "Office"@);
    assert(trim(Seq::<char>::empty()).len() == 0);
    assert(trimmed_nonempty(parts, 0) =~= Seq::<Seq<char>>::empty());
    assert(trimmed_nonempty(parts, 1) =~= seq!["Utility"@]);
    assert(trimmed_nonempty(parts, 2) =~= seq!["Utility"@, "Development"@]);
    assert(trimmed_nonempty(parts, 3) =~= cs);
    assert(trimmed_nonempty(parts, 4) =~= cs);
}

proof fn lemma_scan_categories(st: DesktopScan)
    requires
        st.in_entry,
    ensures
        scan_line(st, "Categories=Utility;Development;Office;"@) == (DesktopScan {
            categories: Some(categories_spec()),
            ..st
        }),
{
    reveal_strlit("Type");
    reveal_strlit("Name");
    reveal_strlit("Exec");
    reveal_strlit("Icon");
    reveal_strlit("Comment");
    reveal_strlit("Categories");
    reveal_strlit("Categories=Utility;Development;Office;");
    reveal_strlit("Utility;Development;Office;");
    let line = "Categories=Utility;Development;Office;"@;
    lemma_entry_line(line, 10);
    assert(line.take(10) =~= "Categories"@);
    assert(line.skip(11) =~= "Utility;Development;Office;"@);
    lemma_category_items();
}

proof fn lemma_scan_comment(st: DesktopScan)
    requires
        st.in_entry,
    ensures
        scan_line(st, "Comment="@ + DESKTOP_COMMENT@) == (DesktopScan {
            comment: Some(DESKTOP_COMMENT@),
            ..st
        }),
{
    reveal_strlit("Type");
    reveal_strlit("Name");
    reveal_strlit("Exec");
    reveal_strlit("Icon");
    reveal_strlit("Comment");
    reveal_strlit("Comment=");
    reveal_strlit("Native intelligence for Linux \u{2014} local-first AI workbench");
    let c = "Comment="@ + DESKTOP_COMMENT@;
    assert(c[0] == 'C');
    assert(c.last() == 'h');
    assert(c[7] == '=');
    assert forall|j: int| 0 <= j < 7 implies c[j] != '=' by {
        assert(c[j] == "Comment="@[j]);
    }
    lemma_entry_line(c, 7);
    assert(c.take(7) =~= "Comment"@);
    assert(c.skip(8) =~= DESKTOP_COMMENT@);
}

/// The scan of the generated text sees every field it writes.
proof fn lemma_desktop_scan(p: Seq<char>)
    requires
        !p.contains('\n'),
    ensures
        desktop_scan(desktop_text(p)) == (DesktopScan {
            in_entry: true,
            entry_type: Some("Application"@),
            name: Some(DESKTOP_NAME@),
            exec_command: Some(trim_end(p)),
            icon: Some(APP_ICON_NAME@),
            comment: Some(DESKTOP_COMMENT@),
            categories: Some(categories_spec()),
            terminal: Some(false),
        }),
{
    lemma_desktop_text_split(p);
    let ls = desktop_lines(p);
    let s0 = scan_start();
    assert(scan_lines(ls, 0) == s0);
    lemma_scan_header(s0);
    let s1 = DesktopScan { in_entry: true, ..s0 };
    assert(scan_lines(ls, 1) == s1);
    lemma_scan_text_fields(s1);
    let s2 = DesktopScan { entry_type: Some("Application"@), ..s1 };
    assert(scan_lines(ls, 2) == s2);
    lemma_scan_ignored_lines(s2);
    assert(scan_lines(ls, 3) == s2);
    lemma_scan_text_fields(s2);
    let s4 = DesktopScan { name: Some(DESKTOP_NAME@), ..s2 };
    assert(scan_lines(ls, 4) == s4);
    lemma_scan_ignored_lines(s4);
    assert(scan_lines(ls, 5) == s4);
    lemma_scan_comment(s4);
    let s6 = DesktopScan { comment: Some(DESKTOP_COMMENT@), ..s4 };
    assert(scan_lines(ls, 6) == s6);
    lemma_scan_exec(s6, p);
    let s7 = DesktopScan { exec_command: Some(trim_end(p)), ..s6 };
    assert(scan_lines(ls, 7) == s7);
    lemma_scan_text_fields(s7);
    let s8 = DesktopScan { icon: Some(APP_ICON_NAME@), ..s7 };
    assert(scan_lines(ls, 8) == s8);
    lemma_scan_terminal(s8);
    let s9 = DesktopScan { terminal: Some(false), ..s8 };
    assert(scan_lines(ls, 9) == s9);
    lemma_scan_categories(s9);
    let s10 = DesktopScan { categories: Some(categories_spec()), ..s9 };
    assert(scan_lines(ls, 10) == s10);
    lemma_scan_ignored_lines(s10);
    assert(scan_lines(ls, 11) == s10);
    assert(scan_lines(ls, 12) == s10);
    assert(scan_lines(ls, 13) == s10);
}

/// Parsing the desktop entry generated for any one-line exec path gives
/// back the canonical fields and that exec path, less its trailing whitespace.
pub proof fn law_desktop_file_round_trip(exec_path: Seq<char>)
    requires
        !exec_path.contains('\n'),
    ensures
        parse_result(desktop_text(exec_path)) == Ok::<FieldsView, Seq<char>>(
            FieldsView {
                entry_type: "Application"@,
                name: DESKTOP_NAME@,
                exec_command: trim_end(exec_path),
                icon: APP_ICON_NAME@,
                comment: DESKTOP_COMMENT@,
                categories: categories_spec(),
                terminal: false,
            },
        ),
{
    lemma_desktop_scan(exec_path);
}

proof fn lemma_desktop_text_has_group(p: Seq<char>)
    ensures
        contains(desktop_text(p), "[Desktop Entry]"@),
{
    reveal_strlit("[Desktop Entry]\nType=Application\nVersion=1.0\nName=");
    reveal_strlit("[Desktop Entry]");
    let t = desktop_text(p);
    assert(t.subrange(0, 15) =~= "[Desktop Entry]"@);
    assert(occurs_at(t, "[Desktop Entry]"@, 0));
}

/// The desktop entry generated for any one-line exec path that is not
/// blank passes validation.
pub proof fn law_generated_desktop_file_validates(exec_path: Seq<char>)
    requires
        !exec_path.contains('\n'),
        trim(exec_path).len() > 0,
    ensures
        validate_result(desktop_text(exec_path)) is Ok,
{
    law_desktop_file_round_trip(exec_path);
    lemma_desktop_text_has_group(exec_path);
    lemma_trim_nonempty(exec_path);
    lemma_trim_end_visible(exec_path);
    lemma_trim_nonempty(trim_end(exec_path));
    reveal_strlit("Native intelligence for Linux \u{2014} local-first AI workbench");
    assert(trim(DESKTOP_COMMENT@) == DESKTOP_COMMENT@);
    let cs = categories_spec();
    assert(cs[0] == "Utility"@);
    assert(cs[1] == "Development"@);
    assert(cs[2] == "Office"@);
}

} // verus!
