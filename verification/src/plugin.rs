//! What the library reads of a model that a plugin provides.
use vstd::prelude::*;

verus! {

/// A model offered by a plugin, with the effective variant tiers (user overrides folded in).
pub struct PluginModelDescriptor {
    pub id: String,
    pub plugin_id: String,
    pub plugin_name: String,
    pub provider_id: String,
    pub model_id: String,
    pub display_name: String,
    pub description: Option<String>,
    pub icon: String,
    pub provider_type: String,
    pub max_output_tokens: Option<u64>,
    pub images: bool,
    pub enabled: bool,
    pub effort_options: Vec<String>,
    pub context_options: Vec<String>,
}

} // verus!
