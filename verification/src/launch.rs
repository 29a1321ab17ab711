//! Launch intent parsed from command-line arguments, and XDG path resolution.

use crate::packaging::{join_path, path_join};
use crate::text::{concat2, concat3, owned, str_eq};
use vstd::prelude::*;

verus! {

/// User-requested launch behavior parsed from CLI arguments.
#[derive(Debug, Clone, PartialEq, Eq)]
pub enum LaunchIntent {
    /// Open Ronin with the default persisted shell state.
    OpenPersisted {
        /// File paths to attach when the app opens.
        attach_paths: Vec<String>,
    },
    /// Open Ronin with a newly created empty chat selected.
    NewThread {
        /// File paths to attach when the app opens.
        attach_paths: Vec<String>,
    },
    /// Open Ronin with Ollama selected as the local provider.
    OpenWithOllama {
        /// File paths to attach when the app opens.
        attach_paths: Vec<String>,
    },
    /// Open the compact quick-mode overlay.
    Quick {
        /// File paths to attach when the app opens.
        attach_paths: Vec<String>,
    },
}

/// Which launch behavior an intent asks for.
#[derive(Debug, Clone, Copy, PartialEq, Eq, Structural)]
pub enum LaunchKind {
    /// [`LaunchIntent::OpenPersisted`].
    OpenPersisted,
    /// [`LaunchIntent::NewThread`].
    NewThread,
    /// [`LaunchIntent::OpenWithOllama`].
    OpenWithOllama,
    /// [`LaunchIntent::Quick`].
    Quick,
}

/// Mathematical view of a [`LaunchIntent`]: its kind and attach paths.
pub struct IntentView {
    /// Launch behavior.
    pub kind: LaunchKind,
    /// Paths to attach.
    pub paths: Seq<Seq<char>>,
}

/// Char views of a list of strings.
pub open spec fn paths_of(v: Seq<String>) -> Seq<Seq<char>> {
    v.map_values(|s: String| s@)
}

impl View for LaunchIntent {
    type V = IntentView;

    open spec fn view(&self) -> IntentView {
        match self {
            LaunchIntent::OpenPersisted { attach_paths } => IntentView {
                kind: LaunchKind::OpenPersisted,
                paths: paths_of(attach_paths@),
            },
            LaunchIntent::NewThread { attach_paths } => IntentView {
                kind: LaunchKind::NewThread,
                paths: paths_of(attach_paths@),
            },
            LaunchIntent::OpenWithOllama { attach_paths } => IntentView {
                kind: LaunchKind::OpenWithOllama,
                paths: paths_of(attach_paths@),
            },
            LaunchIntent::Quick { attach_paths } => IntentView {
                kind: LaunchKind::Quick,
                paths: paths_of(attach_paths@),
            },
        }
    }
}

impl LaunchIntent {
    /// Builds the intent of `kind` with `attach_paths`.
    pub fn from_kind(kind: LaunchKind, attach_paths: Vec<String>) -> (r: Self)
        ensures
            r@ == (IntentView { kind, paths: paths_of(attach_paths@) }),
    {
        match kind {
            LaunchKind::OpenPersisted => LaunchIntent::OpenPersisted { attach_paths },
            LaunchKind::NewThread => LaunchIntent::NewThread { attach_paths },
            LaunchKind::OpenWithOllama => LaunchIntent::OpenWithOllama { attach_paths },
            LaunchKind::Quick => LaunchIntent::Quick { attach_paths },
        }
    }

    /// The intent's kind.
    pub fn kind(&self) -> (r: LaunchKind)
        ensures
            r == self@.kind,
    {
        match self {
            LaunchIntent::OpenPersisted { .. } => LaunchKind::OpenPersisted,
            LaunchIntent::NewThread { .. } => LaunchKind::NewThread,
            LaunchIntent::OpenWithOllama { .. } => LaunchKind::OpenWithOllama,
            LaunchIntent::Quick { .. } => LaunchKind::Quick,
        }
    }

    /// The paths to attach.
    pub fn attach_paths(&self) -> (r: &Vec<String>)
        ensures
            paths_of(r@) == self@.paths,
    {
        match self {
            LaunchIntent::OpenPersisted { attach_paths } => attach_paths,
            LaunchIntent::NewThread { attach_paths } => attach_paths,
            LaunchIntent::OpenWithOllama { attach_paths } => attach_paths,
            LaunchIntent::Quick { attach_paths } => attach_paths,
        }
    }
}

/// Errors returned by Ronin launcher setup.
#[derive(Debug, Clone, PartialEq, Eq)]
pub enum LauncherError {
    /// No home directory was available for fallback XDG paths.
    MissingHome,
    /// CLI argument is not supported by the launcher.
    UnsupportedFlag {
        /// Unsupported flag supplied by the user.
        flag: String,
    },
}

/// Mathematical view of a [`LauncherError`].
pub enum LauncherErrorView {
    /// No home directory.
    MissingHome,
    /// Unsupported flag text.
    UnsupportedFlag(Seq<char>),
}

impl View for LauncherError {
    type V = LauncherErrorView;

    open spec fn view(&self) -> LauncherErrorView {
        match self {
            LauncherError::MissingHome => LauncherErrorView::MissingHome,
            LauncherError::UnsupportedFlag { flag } => LauncherErrorView::UnsupportedFlag(flag@),
        }
    }
}

/// User-visible text of a launcher error.
pub open spec fn launcher_error_text(e: LauncherErrorView) -> Seq<char> {
    match e {
        LauncherErrorView::MissingHome => "HOME is required when XDG directories are not set"@,
        LauncherErrorView::UnsupportedFlag(flag) => "unsupported launch flag '"@ + flag
            + "'. supported flags: --new, --provider ollama, --attach <path>"@,
    }
}

impl LauncherError {
    /// User-visible message.
    pub fn message(&self) -> (r: String)
        ensures
            r@ == launcher_error_text(self@),
    {
        match self {
            LauncherError::MissingHome => owned("HOME is required when XDG directories are not set"),
            LauncherError::UnsupportedFlag { flag } => concat3(
                "unsupported launch flag '",
                flag.as_str(),
                "'. supported flags: --new, --provider ollama, --attach <path>",
            ),
        }
    }
}

/// Result of scanning `args` from index `i` with state `st`: flags are
/// consumed left to right; `--attach` and `--provider` take the next argument,
/// and the last of `--new`, `--quick` and `--provider ollama` sets the mode.
pub open spec fn scan_args(args: Seq<Seq<char>>, i: int, st: IntentView) -> Result<
    IntentView,
    LauncherErrorView,
>
    decreases args.len() - i,
{
    if i < 0 || i >= args.len() {
        Ok(st)
    } else {
        let a = args[i];
        if a == "--new"@ {
            scan_args(args, i + 1, IntentView { kind: LaunchKind::NewThread, ..st })
        } else if a == "--quick"@ {
            scan_args(args, i + 1, IntentView { kind: LaunchKind::Quick, ..st })
        } else if a == "--attach"@ {
            if i + 1 < args.len() {
                scan_args(args, i + 2, IntentView { paths: st.paths.push(args[i + 1]), ..st })
            } else {
                Err(LauncherErrorView::UnsupportedFlag("--attach"@))
            }
        } else if a == "--provider"@ {
            if i + 1 < args.len() {
                if args[i + 1] == "ollama"@ {
                    scan_args(args, i + 2, IntentView { kind: LaunchKind::OpenWithOllama, ..st })
                } else {
                    Err(LauncherErrorView::UnsupportedFlag("--provider "@ + args[i + 1]))
                }
            } else {
                Err(LauncherErrorView::UnsupportedFlag("--provider"@))
            }
        } else {
            Err(LauncherErrorView::UnsupportedFlag(a))
        }
    }
}

/// What [`parse_launch_intent`] returns for `args`.
pub open spec fn launch_result(args: Seq<Seq<char>>) -> Result<IntentView, LauncherErrorView> {
    scan_args(args, 0, IntentView { kind: LaunchKind::OpenPersisted, paths: Seq::empty() })
}

/// Char views of argument slices.
pub open spec fn args_view(args: Seq<&str>) -> Seq<Seq<char>> {
    args.map_values(|a: &str| a@)
}

/// Parses CLI launch intent from arguments after the binary name.
pub fn parse_launch_intent(args: &[&str]) -> (r: Result<LaunchIntent, LauncherError>)
    ensures
        match r {
            Ok(intent) => launch_result(args_view(args@)) == Ok::<IntentView, LauncherErrorView>(
                intent@,
            ),
            Err(e) => launch_result(args_view(args@)) == Err::<IntentView, LauncherErrorView>(e@),
        },
{
    let ghost av = args_view(args@);
    let mut kind = LaunchKind::OpenPersisted;
    let mut attach_paths: Vec<String> = Vec::new();
    let mut i: usize = 0;
    let ghost start = IntentView { kind: LaunchKind::OpenPersisted, paths: Seq::empty() };
    assert(paths_of(attach_paths@) =~= Seq::<Seq<char>>::empty());
    assert(launch_result(av) == scan_args(av, 0, start));
    while i < args.len()
        invariant
            i <= args.len(),
            av == args_view(args@),
            av.len() == args.len(),
            launch_result(av) == scan_args(
                av,
                i as int,
                IntentView { kind, paths: paths_of(attach_paths@) },
            ),
        decreases args.len() - i,
    {
        let arg = args[i];
        assert(av[i as int] == arg@);
        if str_eq(arg, "--new") {
            kind = LaunchKind::NewThread;
            i += 1;
        } else if str_eq(arg, "--quick") {
            kind = LaunchKind::Quick;
            i += 1;
        } else if str_eq(arg, "--attach") {
            if i + 1 < args.len() {
                let p = owned(args[i + 1]);
                assert(av[i + 1] == args[i + 1]@);
                let ghost prev = attach_paths@;
                attach_paths.push(p);
                assert(paths_of(attach_paths@) =~= paths_of(prev).push(p@));
                i += 2;
            } else {
                return Err(LauncherError::UnsupportedFlag { flag: owned("--attach") });
            }
        } else if str_eq(arg, "--provider") {
            if i + 1 < args.len() {
                let provider = args[i + 1];
                assert(av[i + 1] == provider@);
                if str_eq(provider, "ollama") {
                    kind = LaunchKind::OpenWithOllama;
                    i += 2;
                } else {
                    return Err(
                        LauncherError::UnsupportedFlag { flag: concat2("--provider ", provider) },
                    );
                }
            } else {
                return Err(LauncherError::UnsupportedFlag { flag: owned("--provider") });
            }
        } else {
            return Err(LauncherError::UnsupportedFlag { flag: owned(arg) });
        }
    }
    Ok(LaunchIntent::from_kind(kind, attach_paths))
}

/// Ronin config and data directories.
#[derive(Debug, Clone, PartialEq, Eq)]
pub struct RoninPaths {
    /// Configuration directory.
    pub config_dir: String,
    /// Data directory.
    pub data_dir: String,
}

/// Base directory: the XDG value when set, otherwise `home` joined with `fallback`.
pub open spec fn xdg_base(xdg: Option<Seq<char>>, home: Option<Seq<char>>, fallback: Seq<char>) -> Option<Seq<char>> {
    match xdg {
        Some(x) => Some(x),
        None => match home {
            Some(h) => Some(path_join(h, fallback)),
            None => None,
        },
    }
}

/// Characters of an optional string slice.
pub open spec fn opt_str(o: Option<&str>) -> Option<Seq<char>> {
    match o {
        Some(s) => Some(s@),
        None => None,
    }
}

fn base_dir(xdg: Option<&str>, home: Option<&str>, fallback: &str) -> (r: Option<String>)
    ensures
        match r {
            Some(s) => xdg_base(opt_str(xdg), opt_str(home), fallback@) == Some(s@),
            None => xdg_base(opt_str(xdg), opt_str(home), fallback@) is None,
        },
{
    match xdg {
        Some(x) => Some(owned(x)),
        None => match home {
            Some(h) => Some(join_path(h, fallback)),
            None => None,
        },
    }
}

/// Builds Ronin config/data paths from XDG environment values.
pub fn ronin_paths_from_env(
    xdg_config_home: Option<&str>,
    xdg_data_home: Option<&str>,
    home: Option<&str>,
) -> (r: Result<RoninPaths, LauncherError>)
    ensures
        match r {
            Ok(p) => {
                &&& xdg_base(opt_str(xdg_config_home), opt_str(home), ".config"@) matches Some(c)
                    && p.config_dir@ == path_join(c, "ronin"@)
                &&& xdg_base(opt_str(xdg_data_home), opt_str(home), ".local/share"@) matches Some(d)
                    && p.data_dir@ == path_join(d, "ronin"@)
            },
            Err(e) => e@ == LauncherErrorView::MissingHome && (xdg_base(
                opt_str(xdg_config_home),
                opt_str(home),
                ".config"@,
            ) is None || xdg_base(opt_str(xdg_data_home), opt_str(home), ".local/share"@) is None),
        },
{
    let config_base = match base_dir(xdg_config_home, home, ".config") {
        Some(c) => c,
        None => {
            return Err(LauncherError::MissingHome);
        },
    };
    let data_base = match base_dir(xdg_data_home, home, ".local/share") {
        Some(d) => d,
        None => {
            return Err(LauncherError::MissingHome);
        },
    };
    Ok(
        RoninPaths {
            config_dir: join_path(config_base.as_str(), "ronin"),
            data_dir: join_path(data_base.as_str(), "ronin"),
        },
    )
}

/// Runtime directory for the single-instance lock and socket:
/// `$XDG_RUNTIME_DIR/ronin`, else `$HOME/.ronin-runtime/ronin`.
pub fn runtime_dir_from_env(xdg_runtime_dir: Option<&str>, home: Option<&str>) -> (r: Result<
    String,
    LauncherError,
>)
    ensures
        match r {
            Ok(d) => xdg_base(opt_str(xdg_runtime_dir), opt_str(home), ".ronin-runtime"@) matches Some(b)
                && d@ == path_join(b, "ronin"@),
            Err(e) => e@ == LauncherErrorView::MissingHome && xdg_base(
                opt_str(xdg_runtime_dir),
                opt_str(home),
                ".ronin-runtime"@,
            ) is None,
        },
{
    match base_dir(xdg_runtime_dir, home, ".ronin-runtime") {
        Some(b) => Ok(join_path(b.as_str(), "ronin")),
        None => Err(LauncherError::MissingHome),
    }
}

} // verus!
