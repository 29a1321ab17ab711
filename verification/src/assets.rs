//! Bundled icon catalog for the shell's asset source.
//!
//! The shell serves the SVG bytes; this module knows which icon paths exist
//! and which of them a directory listing covers.

use crate::icons::{icon_path_text, IconName};
use crate::text::{chars_of, starts, str_eq, str_starts_with};
use vstd::prelude::*;

verus! {

/// Asset paths of the bundled icons, in catalog order.
pub open spec fn icon_paths_spec() -> Seq<Seq<char>> {
    seq![
        "icons/plus.svg"@,
        "icons/search.svg"@,
        "icons/menu.svg"@,
        "icons/ellipsis.svg"@,
        "icons/ellipsis-vertical.svg"@,
        "icons/copy.svg"@,
        "icons/refresh-cw.svg"@,
        "icons/paperclip.svg"@,
        "icons/camera.svg"@,
        "icons/settings.svg"@,
        "icons/send.svg"@,
        "icons/chevrons-up-down.svg"@,
        "icons/message-square-plus.svg"@,
        "icons/user.svg"@,
        "icons/x.svg"@,
        "icons/minus.svg"@,
        "icons/maximize-2.svg"@,
        "icons/keyboard.svg"@,
        "icons/folder.svg"@,
        "icons/clipboard.svg"@,
        "icons/file.svg"@,
        "icons/sparkles.svg"@,
        "icons/box.svg"@,
        "icons/rotate-ccw.svg"@,
        "icons/pencil.svg"@,
        "icons/zoom-in.svg"@,
        "icons/zoom-out.svg"@,
        "icons/help-circle.svg"@,
        "icons/log-out.svg"@,
        "icons/check.svg"@,
        "icons/chevron-left.svg"@,
        "icons/chevron-right.svg"@,
        "icons/image.svg"@,
        "icons/panel-left.svg"@,
        "icons/panel-left-close.svg"@,
        "icons/sun.svg"@,
        "icons/moon.svg"@,
        "icons/square.svg"@
    ]
}

/// Asset paths of the bundled icons, in catalog order.
pub fn icon_asset_paths() -> (r: Vec<&'static str>)
    ensures
        r@.map_values(|p: &'static str| p@) == icon_paths_spec(),
{
    let mut v: Vec<&'static str> = Vec::new();
    v.push("icons/plus.svg");
    v.push("icons/search.svg");
    v.push("icons/menu.svg");
    v.push("icons/ellipsis.svg");
    v.push("icons/ellipsis-vertical.svg");
    v.push("icons/copy.svg");
    v.push("icons/refresh-cw.svg");
    v.push("icons/paperclip.svg");
    v.push("icons/camera.svg");
    v.push("icons/settings.svg");
    v.push("icons/send.svg");
    v.push("icons/chevrons-up-down.svg");
    v.push("icons/message-square-plus.svg");
    v.push("icons/user.svg");
    v.push("icons/x.svg");
    v.push("icons/minus.svg");
    v.push("icons/maximize-2.svg");
    v.push("icons/keyboard.svg");
    v.push("icons/folder.svg");
    v.push("icons/clipboard.svg");
    v.push("icons/file.svg");
    v.push("icons/sparkles.svg");
    v.push("icons/box.svg");
    v.push("icons/rotate-ccw.svg");
    v.push("icons/pencil.svg");
    v.push("icons/zoom-in.svg");
    v.push("icons/zoom-out.svg");
    v.push("icons/help-circle.svg");
    v.push("icons/log-out.svg");
    v.push("icons/check.svg");
    v.push("icons/chevron-left.svg");
    v.push("icons/chevron-right.svg");
    v.push("icons/image.svg");
    v.push("icons/panel-left.svg");
    v.push("icons/panel-left-close.svg");
    v.push("icons/sun.svg");
    v.push("icons/moon.svg");
    v.push("icons/square.svg");
    assert(v@.map_values(|p: &'static str| p@) =~= icon_paths_spec());
    v
}

/// Whether an asset path lies under a listing prefix: the whole `icons`
/// directory for an empty prefix or `icons`, else the path itself or a path
/// below it.
pub open spec fn under_prefix(asset_path: Seq<char>, prefix: Seq<char>) -> bool {
    if prefix.len() == 0 || prefix == "icons"@ {
        starts(asset_path, "icons/"@)
    } else {
        asset_path == prefix || (starts(asset_path, prefix) && asset_path.len() > prefix.len()
            && asset_path[prefix.len() as int] == '/')
    }
}

/// Whether `asset_path` is listed under `prefix`.
pub fn icon_is_under_prefix(asset_path: &str, prefix: &str) -> (r: bool)
    ensures
        r == under_prefix(asset_path@, prefix@),
{
    if prefix.unicode_len() == 0 || str_eq(prefix, "icons") {
        return str_starts_with(asset_path, "icons/");
    }
    if str_eq(asset_path, prefix) {
        return true;
    }
    if !str_starts_with(asset_path, prefix) {
        return false;
    }
    let a = chars_of(asset_path);
    let n = prefix.unicode_len();
    n < a.len() && a[n] == '/'
}

/// `s` without leading and trailing `'/'` (`str::trim_matches('/')`).
pub open spec fn trim_slashes(s: Seq<char>) -> Seq<char>
    decreases s.len(),
{
    if s.len() > 0 && s[0] == '/' {
        trim_slashes(s.drop_first())
    } else if s.len() > 0 && s.last() == '/' {
        trim_slashes(s.drop_last())
    } else {
        s
    }
}

fn trim_slashes_exec(s: &str) -> (r: String)
    ensures
        r@ == trim_slashes(s@),
{
    let cs = chars_of(s);
    let mut a: usize = 0;
    let mut b: usize = cs.len();
    assert(cs@.subrange(0, cs.len() as int) =~= s@);
    while a < b && (cs[a] == '/' || cs[b - 1] == '/')
        invariant
            a <= b <= cs.len(),
            trim_slashes(s@) == trim_slashes(cs@.subrange(a as int, b as int)),
            cs@ == s@,
        decreases b - a,
    {
        let ghost t = cs@.subrange(a as int, b as int);
        if cs[a] == '/' {
            assert(t.drop_first() =~= cs@.subrange(a + 1, b as int));
            a += 1;
        } else {
            assert(t.drop_last() =~= cs@.subrange(a as int, b - 1));
            b -= 1;
        }
    }
    crate::text::string_of(crate::text::slice_to_vec(cs.as_slice(), a, b).as_slice())
}

/// Icon paths a listing of `path` covers, in catalog order.
pub open spec fn listed_under(paths: Seq<Seq<char>>, prefix: Seq<char>) -> Seq<Seq<char>>
    decreases paths.len(),
{
    if paths.len() == 0 {
        Seq::empty()
    } else if under_prefix(paths.last(), prefix) {
        listed_under(paths.drop_last(), prefix).push(paths.last())
    } else {
        listed_under(paths.drop_last(), prefix)
    }
}

/// Compile-time bundled SVG icons, keyed by `icons/<name>.svg`.
#[derive(Clone, Copy, Debug, Default)]
pub struct RoninAssets;

impl RoninAssets {
    /// Icon paths under `path` (surrounding `'/'` ignored).
    pub fn list(&self, path: &str) -> (r: Vec<&'static str>)
        ensures
            r@.map_values(|p: &'static str| p@) == listed_under(icon_paths_spec(), trim_slashes(path@)),
    {
        let prefix = trim_slashes_exec(path);
        let all = icon_asset_paths();
        let ghost ps = icon_paths_spec();
        let mut out: Vec<&'static str> = Vec::new();
        let mut i: usize = 0;
        while i < all.len()
            invariant
                i <= all.len(),
                all@.map_values(|p: &'static str| p@) == ps,
                prefix@ == trim_slashes(path@),
                out@.map_values(|p: &'static str| p@) == listed_under(ps.take(i as int), prefix@),
            decreases all.len() - i,
        {
            proof {
                assert(ps.take(i + 1).drop_last() =~= ps.take(i as int));
                assert(ps.take(i + 1).last() == all@[i as int]@);
            }
            if icon_is_under_prefix(all[i], prefix.as_str()) {
                let ghost prev = out@;
                out.push(all[i]);
                assert(out@.map_values(|p: &'static str| p@) =~= prev.map_values(|p: &'static str| p@).push(
                    all@[i as int]@,
                ));
            }
            i += 1;
        }
        assert(ps.take(all.len() as int) =~= ps);
        out
    }

    /// Whether the catalog has an icon at exactly `path`.
    pub fn has(&self, path: &str) -> (r: bool)
        ensures
            r == icon_paths_spec().contains(path@),
    {
        let all = icon_asset_paths();
        let ghost ps = icon_paths_spec();
        let mut i: usize = 0;
        while i < all.len()
            invariant
                i <= all.len(),
                all@.map_values(|p: &'static str| p@) == ps,
                ps == icon_paths_spec(),
                forall|j: int| 0 <= j < i ==> ps[j] != path@,
            decreases all.len() - i,
        {
            if str_eq(all[i], path) {
                assert(ps.len() == all.len());
                assert(ps[i as int] == path@);
                assert(ps.contains(path@));
                return true;
            }
            i += 1;
        }
        false
    }
}

/// Every icon the shell names has its SVG in the bundled catalog.
pub proof fn law_every_icon_is_bundled(name: IconName)
    ensures
        icon_paths_spec().contains(icon_path_text(name)),
{
    match name {
        IconName::Plus => assert(icon_paths_spec()[0] == icon_path_text(name)),
        IconName::Search => assert(icon_paths_spec()[1] == icon_path_text(name)),
        IconName::Menu => assert(icon_paths_spec()[2] == icon_path_text(name)),
        IconName::Ellipsis => assert(icon_paths_spec()[3] == icon_path_text(name)),
        IconName::EllipsisVertical => assert(icon_paths_spec()[4] == icon_path_text(name)),
        IconName::Copy => assert(icon_paths_spec()[5] == icon_path_text(name)),
        IconName::Refresh => assert(icon_paths_spec()[6] == icon_path_text(name)),
        IconName::Paperclip => assert(icon_paths_spec()[7] == icon_path_text(name)),
        IconName::Camera => assert(icon_paths_spec()[8] == icon_path_text(name)),
        IconName::Settings => assert(icon_paths_spec()[9] == icon_path_text(name)),
        IconName::Send => assert(icon_paths_spec()[10] == icon_path_text(name)),
        IconName::ChevronsUpDown => assert(icon_paths_spec()[11] == icon_path_text(name)),
        IconName::MessageSquarePlus => assert(icon_paths_spec()[12] == icon_path_text(name)),
        IconName::User => assert(icon_paths_spec()[13] == icon_path_text(name)),
        IconName::X => assert(icon_paths_spec()[14] == icon_path_text(name)),
        IconName::Minus => assert(icon_paths_spec()[15] == icon_path_text(name)),
        IconName::Maximize => assert(icon_paths_spec()[16] == icon_path_text(name)),
        IconName::Keyboard => assert(icon_paths_spec()[17] == icon_path_text(name)),
        IconName::Folder => assert(icon_paths_spec()[18] == icon_path_text(name)),
        IconName::Clipboard => assert(icon_paths_spec()[19] == icon_path_text(name)),
        IconName::File => assert(icon_paths_spec()[20] == icon_path_text(name)),
        IconName::Sparkles => assert(icon_paths_spec()[21] == icon_path_text(name)),
        IconName::Box => assert(icon_paths_spec()[22] == icon_path_text(name)),
        IconName::RotateCcw => assert(icon_paths_spec()[23] == icon_path_text(name)),
        IconName::Pencil => assert(icon_paths_spec()[24] == icon_path_text(name)),
        IconName::ZoomIn => assert(icon_paths_spec()[25] == icon_path_text(name)),
        IconName::ZoomOut => assert(icon_paths_spec()[26] == icon_path_text(name)),
        IconName::HelpCircle => assert(icon_paths_spec()[27] == icon_path_text(name)),
        IconName::LogOut => assert(icon_paths_spec()[28] == icon_path_text(name)),
        IconName::Check => assert(icon_paths_spec()[29] == icon_path_text(name)),
        IconName::ChevronLeft => assert(icon_paths_spec()[30] == icon_path_text(name)),
        IconName::ChevronRight => assert(icon_paths_spec()[31] == icon_path_text(name)),
        IconName::Image => assert(icon_paths_spec()[32] == icon_path_text(name)),
        IconName::PanelLeft => assert(icon_paths_spec()[33] == icon_path_text(name)),
        IconName::PanelLeftClose => assert(icon_paths_spec()[34] == icon_path_text(name)),
        IconName::Sun => assert(icon_paths_spec()[35] == icon_path_text(name)),
        IconName::Moon => assert(icon_paths_spec()[36] == icon_path_text(name)),
        IconName::Square => assert(icon_paths_spec()[37] == icon_path_text(name)),
    }
}

} // verus!
