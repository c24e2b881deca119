//! The inputs and views of the control endpoints for models and settings.
use vstd::prelude::*;

use crate::text::{trim, trim_str};

verus! {

/// A new order of the configured models, by their hashes.
pub struct ModelOrder {
    pub model_hashes: Vec<String>,
}

/// The group switch: disabled models leave Cursor's model picker.
pub struct SetModelsEnabled {
    pub model_hashes: Vec<String>,
    pub enabled: bool,
}

/// The name and place of a duplicated model.
pub struct DuplicateModel {
    pub display_name: String,
    pub sort_order: i64,
}

/// How much of the statistics storage a clear removes.
#[derive(Clone, Copy, Debug, PartialEq, Eq, Structural)]
pub enum StatisticsStorageScope {
    Details,
    All,
}

impl Default for StatisticsStorageScope {
    fn default() -> (r: Self)
        ensures
            r == StatisticsStorageScope::Details,
    {
        StatisticsStorageScope::Details
    }
}

/// The body of a storage clear.
pub struct ClearStorageInput {
    pub scope: StatisticsStorageScope,
}

/// The scope that a storage clear works on: the one named in the body, or the details alone
/// where no body came.
pub fn clear_scope(input: Option<ClearStorageInput>) -> (r: StatisticsStorageScope)
    ensures
        r == (match input {
            Some(body) => body.scope,
            None => StatisticsStorageScope::Details,
        }),
{
    match input {
        Some(body) => body.scope,
        None => StatisticsStorageScope::Details,
    }
}

/// The stored settings of commit message generation.
pub struct CommitSettings {
    pub model_id: String,
    pub prompt: String,
}

/// Settings view for commit message generation. An empty `model_id` means pass-through (Cursor's
/// own request is forwarded unchanged); a non-empty one names a configured built-in or plugin
/// model. An empty `prompt` means the built-in default, which `default_prompt` shows.
pub struct CommitSettingsView {
    pub model_id: String,
    pub prompt: String,
    pub default_prompt: String,
}

impl CommitSettingsView {
    /// The view of the stored settings beside the built-in prompt, trimmed.
    pub fn new(settings: CommitSettings, built_in_prompt: &str) -> (r: Self)
        ensures
            r.model_id@ == settings.model_id@,
            r.prompt@ == settings.prompt@,
            r.default_prompt@ == trim(built_in_prompt@),
    {
        CommitSettingsView {
            model_id: settings.model_id,
            prompt: settings.prompt,
            default_prompt: trim_str(built_in_prompt),
        }
    }
}

} // verus!
