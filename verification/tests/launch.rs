use ronin::instance::{
    decode_incoming, encode_incoming, parse_incoming, plan_incoming_launch, IncomingLaunch,
    InstanceError,
};
use ronin::{parse_launch_intent, ronin_paths_from_env, LaunchIntent, LauncherError};

#[test]
fn parses_default_new_attach_and_provider() {
    assert_eq!(
        parse_launch_intent(&[]),
        Ok(LaunchIntent::OpenPersisted { attach_paths: vec![] })
    );
    assert_eq!(
        parse_launch_intent(&["--attach", "a.txt", "--new", "--attach", "b"]),
        Ok(LaunchIntent::NewThread { attach_paths: vec!["a.txt".to_string(), "b".to_string()] })
    );
    assert_eq!(
        parse_launch_intent(&["--provider", "ollama"]),
        Ok(LaunchIntent::OpenWithOllama { attach_paths: vec![] })
    );
}

#[test]
fn rejects_unknown_and_incomplete_flags() {
    assert_eq!(
        parse_launch_intent(&["--provider", "openai"]),
        Err(LauncherError::UnsupportedFlag { flag: "--provider openai".to_string() })
    );
    assert_eq!(
        parse_launch_intent(&["--attach"]),
        Err(LauncherError::UnsupportedFlag { flag: "--attach".to_string() })
    );
    assert_eq!(
        parse_launch_intent(&["--provider"]),
        Err(LauncherError::UnsupportedFlag { flag: "--provider".to_string() })
    );
    let e = parse_launch_intent(&["-x"]).unwrap_err();
    assert_eq!(
        e.message(),
        "unsupported launch flag '-x'. supported flags: --new, --provider ollama, --attach <path>"
    );
    assert_eq!(
        LauncherError::MissingHome.message(),
        "HOME is required when XDG directories are not set"
    );
}

#[test]
fn xdg_paths_prefer_env_then_home() {
    let p = ronin_paths_from_env(Some("/cfg"), None, Some("/home/u")).expect("paths");
    assert_eq!(p.config_dir, "/cfg/ronin");
    assert_eq!(p.data_dir, "/home/u/.local/share/ronin");
    assert_eq!(ronin_paths_from_env(None, Some("/d"), None), Err(LauncherError::MissingHome));
}

#[test]
fn ipc_message_round_trips() {
    let intent = LaunchIntent::Quick { attach_paths: vec!["/tmp/a b.txt".to_string()] };
    let wire = encode_incoming(&intent, true);
    assert_eq!(wire, "ronin-ipc-v1\nquick\nfocus\n/tmp/a b.txt\n.\n");
    let back = decode_incoming(&wire).expect("decode");
    assert_eq!(back, IncomingLaunch { intent, focus: true });
}

#[test]
fn ipc_decode_errors() {
    assert_eq!(decode_incoming(""), Err("missing magic".to_string()));
    assert_eq!(decode_incoming("nope\n"), Err("bad magic: nope".to_string()));
    assert_eq!(decode_incoming("ronin-ipc-v1\n"), Err("missing kind".to_string()));
    assert_eq!(decode_incoming("ronin-ipc-v1\nnew\n"), Err("missing focus".to_string()));
    assert_eq!(
        decode_incoming("ronin-ipc-v1\nweird\nfocus\n"),
        Err("unknown kind: weird".to_string())
    );
    let got = decode_incoming("ronin-ipc-v1\r\nnew\r\nnofocus\r\n\r\np\r\n.\r\nignored\r\n").expect("ok");
    assert_eq!(
        got,
        IncomingLaunch {
            intent: LaunchIntent::NewThread { attach_paths: vec!["p".to_string()] },
            focus: false
        }
    );
}

#[test]
fn incoming_launch_plans() {
    let plan = plan_incoming_launch(&IncomingLaunch {
        intent: LaunchIntent::OpenPersisted { attach_paths: vec!["x".to_string()] },
        focus: true,
    });
    assert!(plan.create_new_thread);
    assert!(!plan.open_quick_overlay);
    assert!(!plan.prefer_ollama);
    assert_eq!(plan.attach_paths, vec!["x".to_string()]);
    assert!(plan.focus_window);
    let q = plan_incoming_launch(&IncomingLaunch {
        intent: LaunchIntent::Quick { attach_paths: vec![] },
        focus: false,
    });
    assert!(q.open_quick_overlay && !q.create_new_thread && !q.focus_window);
    let o = plan_incoming_launch(&IncomingLaunch {
        intent: LaunchIntent::OpenWithOllama { attach_paths: vec![] },
        focus: false,
    });
    assert!(o.prefer_ollama);
    let e = plan_incoming_launch(&IncomingLaunch {
        intent: LaunchIntent::OpenPersisted { attach_paths: vec![] },
        focus: false,
    });
    assert!(!e.create_new_thread);
}

#[test]
fn parse_incoming_reports_protocol_errors() {
    assert_eq!(
        parse_incoming("nope\n"),
        Err(InstanceError::Protocol("bad magic: nope".to_string()))
    );
    let err = parse_incoming("").unwrap_err();
    assert_eq!(err.message(), "invalid ipc message: missing magic");
    assert_eq!(
        InstanceError::Lock("busy".to_string()).message(),
        "instance lock error: busy"
    );
    assert_eq!(
        InstanceError::Io("denied".to_string()).message(),
        "instance ipc error: denied"
    );
    let wire = encode_incoming(&LaunchIntent::NewThread { attach_paths: vec![] }, false);
    assert_eq!(
        parse_incoming(&wire),
        Ok(IncomingLaunch { intent: LaunchIntent::NewThread { attach_paths: vec![] }, focus: false })
    );
}

#[test]
fn runtime_dir_prefers_xdg_runtime() {
    use_runtime_dir();
}

fn use_runtime_dir() {
    assert_eq!(
        ronin::launch::runtime_dir_from_env(Some("/run/user/1"), Some("/home/u")),
        Ok("/run/user/1/ronin".to_string())
    );
    assert_eq!(
        ronin::launch::runtime_dir_from_env(None, Some("/home/u")),
        Ok("/home/u/.ronin-runtime/ronin".to_string())
    );
    assert_eq!(ronin::launch::runtime_dir_from_env(None, None), Err(LauncherError::MissingHome));
}

#[test]
fn quick_flag_routes_to_quick_mode_and_last_mode_wins() {
    assert_eq!(
        parse_launch_intent(&["--quick", "--attach", "x.png"]),
        Ok(LaunchIntent::Quick { attach_paths: vec!["x.png".to_string()] })
    );
    assert_eq!(
        parse_launch_intent(&["--quick", "--new"]),
        Ok(LaunchIntent::NewThread { attach_paths: vec![] })
    );
    assert_eq!(
        parse_launch_intent(&["--new", "--quick"]),
        Ok(LaunchIntent::Quick { attach_paths: vec![] })
    );
}
