//! Built-in automatic memory plugin component: its configuration and diagnostics.

use vstd::prelude::*;
use crate::automatic::{config_error, default_config, AutomaticMemoryConfig, ConfigView};
use crate::in_memory::IN_MEMORY_PROVIDER;
use crate::text::{concat, concat3, find_chars, first_place, opt_text, to_chars};

verus! {

/// Plugin kind for automatic memory configuration.
pub const MEMORY_PLUGIN_KIND: &'static str = "memory";

/// The code of diagnostics of a memory configuration.
pub const INVALID_CONFIG_CODE: &'static str = "memory.invalid_config";

/// The text with quotes and escapes that the `Debug` format gives.
pub uninterp spec fn debug_text(value: Seq<char>) -> Seq<char>;

/// The `Debug` format of a text depends on the text alone.
#[verifier::external_body]
fn debug_format(value: &str) -> (r: String)
    ensures
        r@ == debug_text(value@),
{
    format!("{value:?}")
}

/// Configuration of the plugin component.
#[derive(Debug, PartialEq)]
pub struct MemoryPluginConfig {
    /// Provider identifier.
    pub provider: String,
    /// Priority of the installation.
    pub priority: i32,
    /// Automatic memory configuration.
    pub automatic: AutomaticMemoryConfig,
}

/// What a plugin configuration says.
pub struct PluginConfigView {
    pub provider: Seq<char>,
    pub priority: int,
    pub automatic: ConfigView,
}

impl View for MemoryPluginConfig {
    type V = PluginConfigView;

    open spec fn view(&self) -> PluginConfigView {
        PluginConfigView {
            provider: self.provider@,
            priority: self.priority as int,
            automatic: self.automatic@,
        }
    }
}

impl Clone for MemoryPluginConfig {
    fn clone(&self) -> (r: Self)
        ensures
            r@ == self@,
    {
        MemoryPluginConfig {
            provider: self.provider.clone(),
            priority: self.priority,
            automatic: self.automatic.clone(),
        }
    }
}

impl Default for MemoryPluginConfig {
    fn default() -> (r: Self)
        ensures
            r@ == (PluginConfigView {
                provider: IN_MEMORY_PROVIDER@,
                priority: 0,
                automatic: default_config(),
            }),
    {
        MemoryPluginConfig {
            provider: IN_MEMORY_PROVIDER.to_owned(),
            priority: 0,
            automatic: AutomaticMemoryConfig::default(),
        }
    }
}

/// The fault of a plugin configuration, as validation reports it.
pub open spec fn plugin_fault(config: PluginConfigView) -> Option<Seq<char>> {
    if config.provider != IN_MEMORY_PROVIDER@ {
        Some(
            "provider must be 'in_memory' in the reference automatic component, got "@
                + debug_text(config.provider),
        )
    } else {
        match config_error(config.automatic) {
            Some(error) => Some(error.message),
            None => None,
        }
    }
}

/// The fault of a plugin configuration, as registration reports it.
pub open spec fn registration_fault(config: PluginConfigView) -> Option<Seq<char>> {
    if config.provider != IN_MEMORY_PROVIDER@ {
        Some(
            "memory provider "@ + debug_text(config.provider)
                + " is not supported by the reference component"@,
        )
    } else {
        plugin_fault(config)
    }
}

fn automatic_fault(config: &AutomaticMemoryConfig) -> (r: Option<String>)
    ensures
        opt_text(r) == match config_error(config@) {
            Some(error) => Some(error.message),
            None => None,
        },
{
    match config.validate() {
        Ok(()) => None,
        Err(error) => Some(error.to_text()),
    }
}

impl MemoryPluginConfig {
    /// The message of the diagnostic for this configuration, where it is faulty.
    pub fn diagnostic(&self) -> (r: Option<String>)
        ensures
            opt_text(r) == plugin_fault(self@),
    {
        if self.provider != IN_MEMORY_PROVIDER.to_owned() {
            return Some(
                concat(
                    "provider must be 'in_memory' in the reference automatic component, got ",
                    debug_format(self.provider.as_str()).as_str(),
                ),
            );
        }
        automatic_fault(&self.automatic)
    }

    /// Why this configuration cannot be registered, where it cannot.
    pub fn registration_error(&self) -> (r: Option<String>)
        ensures
            opt_text(r) == registration_fault(self@),
    {
        if self.provider != IN_MEMORY_PROVIDER.to_owned() {
            return Some(
                concat3(
                    "memory provider ",
                    debug_format(self.provider.as_str()).as_str(),
                    " is not supported by the reference component",
                ),
            );
        }
        automatic_fault(&self.automatic)
    }
}

/// Tells whether the failure of a registration says that the kind is registered already, which
/// makes registering idempotent.
pub fn is_registered_already(message: &str) -> (r: bool)
    ensures
        r == (first_place(message@, "already registered"@) is Some),
{
    find_chars(&to_chars(message), &to_chars("already registered")).is_some()
}

/// A configuration is registered exactly where it has no diagnostic.
pub proof fn valid_configurations_register(config: PluginConfigView)
    ensures
        plugin_fault(config) is None <==> registration_fault(config) is None,
        plugin_fault(config) is None <==> config.provider == IN_MEMORY_PROVIDER@ && config_error(
            config.automatic,
        ) is None,
{
}

} // verus!
