use ronin::assets::{icon_asset_paths, icon_is_under_prefix, RoninAssets};

#[test]
fn catalog_lists_every_bundled_icon() {
    let all = icon_asset_paths();
    assert_eq!(all.len(), 38);
    assert_eq!(all[0], "icons/plus.svg");
    assert_eq!(all[37], "icons/square.svg");
    assert!(all.iter().all(|p| p.starts_with("icons/") && p.ends_with(".svg")));
}

#[test]
fn listing_respects_the_prefix() {
    let a = RoninAssets;
    assert_eq!(a.list("icons").len(), 38);
    assert_eq!(a.list("/icons/").len(), 38);
    assert_eq!(a.list("").len(), 38);
    assert_eq!(a.list("icons/x.svg"), vec!["icons/x.svg"]);
    assert!(a.list("icons/x").is_empty());
    assert!(a.list("fonts").is_empty());
    assert!(a.has("icons/moon.svg"));
    assert!(!a.has("icons/moon"));
}

#[test]
fn prefix_matching_needs_a_path_separator() {
    assert!(icon_is_under_prefix("icons/plus.svg", ""));
    assert!(icon_is_under_prefix("icons/plus.svg", "icons"));
    assert!(icon_is_under_prefix("a/b/c", "a/b"));
    assert!(!icon_is_under_prefix("a/bc", "a/b"));
    assert!(icon_is_under_prefix("a/b", "a/b"));
}
