use ronin::packaging::{
    desktop_file_contents, icon_asset_paths, join_path, parse_desktop_required_fields,
    plan_install, plan_uninstall, required_icon_sizes, validate_desktop_file, InstallMode,
};

#[test]
fn join_path_follows_pathbuf_push() {
    assert_eq!(join_path("/usr", "bin"), "/usr/bin");
    assert_eq!(join_path("/usr/", "bin"), "/usr/bin");
    assert_eq!(join_path("", "bin"), "bin");
    assert_eq!(join_path("/usr", "/etc"), "/etc");
}

#[test]
fn generated_desktop_file_validates_and_parses() {
    let text = desktop_file_contents("/home/u/.local/bin/ronin");
    assert!(text.starts_with("[Desktop Entry]\nType=Application\n"));
    assert!(text.contains("Categories=Utility;Development;Office;\n"));
    assert_eq!(validate_desktop_file(&text), Ok(()));
    let f = parse_desktop_required_fields(&text).expect("fields");
    assert_eq!(f.entry_type, "Application");
    assert_eq!(f.name, "Ronin");
    assert_eq!(f.exec_command, "/home/u/.local/bin/ronin");
    assert_eq!(f.categories, vec!["Utility", "Development", "Office"]);
    assert!(!f.terminal);
}

#[test]
fn validation_reports_first_problem() {
    assert_eq!(validate_desktop_file("Name=x"), Err("missing [Desktop Entry] group".to_string()));
    assert_eq!(
        validate_desktop_file("[Desktop Entry]\nType=Link\n"),
        Err("missing Name".to_string())
    );
    let t = "[Desktop Entry]\nType=Service\nName=Ronin\nExec=r\nIcon=ronin\nComment=c\nCategories=Utility;\n";
    assert_eq!(validate_desktop_file(t), Err("Type must be Application, got Service".to_string()));
    let t2 = "[Desktop Entry]\nType=Application\nName=Ronin\nExec=r\nIcon=ronin\nComment=c\nCategories=Utility; Development ;\n";
    assert_eq!(validate_desktop_file(t2), Err("Categories must include Office".to_string()));
    let t3 = "[Desktop Entry]\r\nType=Application\r\nName=Ronin\r\nExec=r\r\nIcon=ronin\r\nComment=c\r\nCategories=Utility;Development;Office\r\nTerminal=TRUE\r\n";
    assert_eq!(validate_desktop_file(t3), Err("Terminal must be false for a GUI app".to_string()));
}

#[test]
fn parser_ignores_other_groups_and_comments() {
    let t = "# c\n[Other]\nType=Nope\n[Desktop Entry]\nType=Application\nName=N\nExec=e\nIcon=i\nComment=c\nCategories=A\n";
    let f = parse_desktop_required_fields(t).expect("fields");
    assert_eq!(f.entry_type, "Application");
    assert_eq!(f.categories, vec!["A"]);
}

#[test]
fn install_plan_layout() {
    let plan = plan_install("/home/u/.local", InstallMode::User, "target/release/ronin");
    assert_eq!(plan.binary_dest, "/home/u/.local/bin/ronin");
    assert_eq!(plan.desktop_dest, "/home/u/.local/share/applications/ronin.desktop");
    assert_eq!(
        plan.icon_svg_dest,
        "/home/u/.local/share/icons/hicolor/scalable/apps/ronin.svg"
    );
    assert_eq!(
        plan.icon_png_dests.get(&128).map(String::as_str),
        Some("/home/u/.local/share/icons/hicolor/128x128/apps/ronin.png")
    );
    let un = plan_uninstall(&plan);
    assert_eq!(un.len(), 6);
    assert_eq!(un[3], "/home/u/.local/share/icons/hicolor/48x48/apps/ronin.png");
    assert_eq!(un[5], "/home/u/.local/share/icons/hicolor/256x256/apps/ronin.png");
    assert_eq!(required_icon_sizes(), &[48, 128, 256]);
}

#[test]
fn dry_run_lists_copy_operations() {
    let plan = plan_install("/opt", InstallMode::System, "bin/ronin");
    let ops = plan.dry_run_operations("packaging");
    assert_eq!(ops.len(), 6);
    assert_eq!(ops[0], "install -D bin/ronin /opt/bin/ronin");
    assert_eq!(ops[1], "install -D packaging/ronin.desktop /opt/share/applications/ronin.desktop");
    assert_eq!(
        ops[3],
        "install -D packaging/icons/hicolor/48x48/apps/ronin.png /opt/share/icons/hicolor/48x48/apps/ronin.png"
    );
    let assets = icon_asset_paths("packaging");
    assert_eq!(assets.svg, "packaging/icons/hicolor/scalable/apps/ronin.svg");
}

#[test]
fn desktop_round_trip_keeps_exec_path_less_trailing_space() {
    let text = desktop_file_contents("/opt/ronin --flag=1  ");
    let f = parse_desktop_required_fields(&text).expect("fields");
    assert_eq!(f.exec_command, "/opt/ronin --flag=1");
    assert_eq!(f.icon, "ronin");
    assert_eq!(f.comment, "Native intelligence for Linux \u{2014} local-first AI workbench");
    assert_eq!(validate_desktop_file(&text), Ok(()));
}

#[test]
fn blank_exec_path_parses_but_fails_validation() {
    let text = desktop_file_contents("   ");
    let f = parse_desktop_required_fields(&text).expect("fields");
    assert_eq!(f.exec_command, "");
    assert_eq!(validate_desktop_file(&text), Err("Exec must not be empty".to_string()));
}

#[test]
fn multi_line_exec_path_can_override_fields() {
    let text = desktop_file_contents("ronin\nType=Link");
    assert_eq!(
        validate_desktop_file(&text),
        Err("Type must be Application, got Link".to_string())
    );
}
