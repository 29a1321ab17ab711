//! Provider settings: Test Connection, import/export, and persona presentation.

use crate::text::concat2;
use vstd::prelude::*;

verus! {

/// Label for the Test Connection action in provider settings.
pub fn test_connection_button_label() -> (r: &'static str)
    ensures
        r@ == "Test Connection"@,
{
    "Test Connection"
}

/// Label for exporting provider settings to a TOML file.
pub fn export_provider_config_button_label() -> (r: &'static str)
    ensures
        r@ == "Export Provider Config"@,
{
    "Export Provider Config"
}

/// Label for importing provider settings from a TOML file.
pub fn import_provider_config_button_label() -> (r: &'static str)
    ensures
        r@ == "Import Provider Config"@,
{
    "Import Provider Config"
}

/// Clarifies that exports never include API keys or other secrets.
pub fn export_excludes_secrets_notice() -> (r: &'static str)
    ensures
        r@ == "Exports include base URLs and model defaults only — API keys and tokens are never exported."@,
{
    "Exports include base URLs and model defaults only — API keys and tokens are never exported."
}

/// Section heading for the system-prompt / persona editor.
pub fn system_prompt_section_title() -> (r: &'static str)
    ensures
        r@ == "System Prompt"@,
{
    "System Prompt"
}

/// Label for the built-in Ronin capability-boundary prompt (always shown).
pub fn built_in_system_prompt_label() -> (r: &'static str)
    ensures
        r@ == "Built-in Ronin (default)"@,
{
    "Built-in Ronin (default)"
}

/// Label for the append mode option.
pub fn persona_mode_append_label() -> (r: &'static str)
    ensures
        r@ == "Append to built-in"@,
{
    "Append to built-in"
}

/// Label for the replace mode option.
pub fn persona_mode_replace_label() -> (r: &'static str)
    ensures
        r@ == "Replace built-in"@,
{
    "Replace built-in"
}

/// Label for the custom persona text field.
pub fn custom_persona_field_label() -> (r: &'static str)
    ensures
        r@ == "Custom persona"@,
{
    "Custom persona"
}

/// Label for the inspectable effective prompt preview.
pub fn effective_system_prompt_label() -> (r: &'static str)
    ensures
        r@ == "Effective system prompt (sent to the model)"@,
{
    "Effective system prompt (sent to the model)"
}

/// Notice that only this visible prompt is sent as the system message.
pub fn no_hidden_instructions_notice() -> (r: &'static str)
    ensures
        r@ == "No hidden system instructions are sent beyond what is shown above. Explicit attachments and enabled profile memories appear as separate, visible context."@,
{
    "No hidden system instructions are sent beyond what is shown above. Explicit attachments and enabled profile memories appear as separate, visible context."
}

/// Formats a provider-config import failure for display.
pub fn format_import_config_error(error: &str) -> (r: String)
    ensures
        r@ == "Import failed: "@ + error@,
{
    concat2("Import failed: ", error)
}

} // verus!
