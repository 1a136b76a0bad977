//! Installation handles, plugin configuration and JSON values.

use nemo_relay_memory::installation::{
    saturated_count, InstallationSlot, InstallationTarget, DEFAULT_INSTALLATION_NAME,
};
use nemo_relay_memory::metadata::FlowError;
use nemo_relay_memory::plugin::{is_registered_already, MemoryPluginConfig};
use nemo_relay_memory::{AutomaticMemoryConfig, Json, JsonObject, MemoryInstallation};

#[test]
fn scope_installation_disappears_on_pop_and_close_is_idempotent() {
    let mut installation = MemoryInstallation::new(
        InstallationTarget::Scope {
            scope_id: "scope-1".to_string(),
        },
        "scope-memory",
    );
    assert!(!installation.is_closed());
    assert!(!installation
        .close(Err(FlowError::NotFound("scope-1".to_string())))
        .unwrap());
    assert!(installation.is_closed());
    assert!(!installation.close(Ok(true)).unwrap());
}

#[test]
fn a_global_installation_closes_once() {
    let mut installation =
        MemoryInstallation::new(InstallationTarget::Global, DEFAULT_INSTALLATION_NAME);
    assert_eq!(installation.name(), "automatic_memory");
    assert_eq!(
        installation.close(Err(FlowError::NotFound("gone".to_string()))),
        Err(FlowError::NotFound("gone".to_string()))
    );
    assert!(!installation.is_closed());
    assert!(installation.close(Ok(true)).unwrap());
    assert!(!installation.close(Ok(true)).unwrap());
}

#[test]
fn a_slot_holds_one_installation() {
    let mut slot = InstallationSlot::new();
    assert!(slot.occupied().is_none());
    slot.fill(MemoryInstallation::new(
        InstallationTarget::Global,
        "automatic_memory",
    ));
    assert_eq!(
        slot.occupied(),
        Some("automatic memory is already installed")
    );
    assert!(slot.take().is_some());
    assert!(slot.take().is_none());
    assert!(slot.occupied().is_none());
}

#[test]
fn counts_saturate() {
    assert_eq!(saturated_count(7), 7);
    assert_eq!(saturated_count(usize::MAX), u32::MAX);
}

#[test]
fn plugin_config_installs_reference_automatic_memory_and_rejects_unknown_provider() {
    let mut config = MemoryPluginConfig::default();
    assert_eq!(config.provider, "in_memory");
    assert_eq!(config.priority, 0);
    assert!(config.diagnostic().is_none());
    assert!(config.registration_error().is_none());

    config.provider = "remote\"x".to_string();
    assert_eq!(
        config.diagnostic().as_deref(),
        Some("provider must be 'in_memory' in the reference automatic component, got \"remote\\\"x\"")
    );
    assert_eq!(
        config.registration_error().as_deref(),
        Some("memory provider \"remote\\\"x\" is not supported by the reference component")
    );

    let config = MemoryPluginConfig {
        automatic: AutomaticMemoryConfig {
            max_items: 0,
            ..AutomaticMemoryConfig::default()
        },
        ..MemoryPluginConfig::default()
    };
    assert_eq!(
        config.diagnostic().as_deref(),
        Some("max_items must be positive and no greater than max_candidates")
    );
    assert_eq!(config.registration_error(), config.diagnostic());
}

#[test]
fn registering_twice_is_no_failure() {
    assert!(is_registered_already(
        "plugin kind 'memory' is already registered"
    ));
    assert!(!is_registered_already("plugin registry is poisoned"));
    assert!(!is_registered_already(""));
}

#[test]
fn json_values_are_those_of_the_parser() {
    let parsed = |text: &str| Json {
        value: serde_json::from_str(text).expect("valid JSON"),
    };
    let mut object = JsonObject::new();
    object.insert("b", Json::array(vec![Json::null(), Json::boolean(true)]));
    object.insert("a", Json::text("x\"y"));
    object.insert("n", Json::integer(-7));
    object.insert("a", Json::text("z"));
    let value = Json::object(object.clone());
    assert_eq!(value, parsed("{\"a\":\"z\",\"b\":[null,true],\"n\":-7}"));
    assert_eq!(value.to_text(), "{\"a\":\"z\",\"b\":[null,true],\"n\":-7}");
    assert_eq!(
        value.to_bytes().expect("bytes"),
        value.to_text().into_bytes()
    );
    assert_eq!(object.keys(), ["a", "b", "n"]);
    assert_eq!(value.member("n"), Some(Json::integer(-7)));
    assert_eq!(value.member("missing"), None);
    assert_eq!(Json::text("a").member("a"), None);
    assert!(value.is_object());
    assert!(!Json::null().is_object());
    assert_eq!(Json::boolean(false).as_bool(), Some(false));
    assert_eq!(Json::text("false").as_bool(), None);
    assert!(parsed("0.0").same(&parsed("-0.0")));
    assert!(!parsed("1").same(&parsed("1.0")));
}
