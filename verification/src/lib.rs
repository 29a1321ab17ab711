//! Presentation and state logic of the Ronin desktop shell, with contracts.

pub mod artifacts_panel;
pub mod assets;
pub mod attachment_preview;
pub mod attachment_size;
pub mod chrome;
pub mod command_palette;
pub mod companion;
pub mod completions;
pub mod composer;
pub mod composer_ingest;
pub mod composer_keys;
pub mod composer_pickers;
pub mod context_indicator;
pub mod folder_attach;
pub mod frame_profile;
pub mod global_search;
pub mod harness_control;
pub mod icons;
pub mod instance;
pub mod keyboard_nav;
pub mod launch;
pub mod markdown;
pub mod markdown_view;
pub mod memory_management;
pub mod message_branches;
pub mod model_picker;
pub mod packaging;
pub mod plus_menu;
pub mod provider_settings;
pub mod quick_mode;
pub mod settings_view;
pub mod shortcut_coach;
pub mod switch_profile;
pub mod syntax_highlight;
pub mod text;
pub mod thread_titles;
pub mod visual_polish;

pub use launch::{
    parse_launch_intent, ronin_paths_from_env, LaunchIntent, LauncherError, RoninPaths,
};
use vstd::prelude::*;

verus! {

} // verus!
