use codex_supervisor::models::{InjectParams, ModelEntry, ModelRegistry, ProviderRef, RegistryError};

fn entry(served_name: &str) -> ModelEntry {
    ModelEntry {
        served_name: served_name.to_string(),
        provider: ProviderRef {
            id: "p".to_string(),
            base_url: None,
            wire_api: None,
        },
        endpoint_probe: None,
        inject: Some(InjectParams {
            temperature: Some("0.0".to_string()),
        }),
    }
}

#[test]
fn a_key_leads_to_what_was_registered_last() {
    let mut registry = ModelRegistry::new();
    registry.insert("a".to_string(), entry("one"));
    registry.insert("b".to_string(), entry("two"));
    registry.insert("a".to_string(), entry("three"));
    assert_eq!(registry.resolve("a"), Ok(&entry("three")));
    assert_eq!(registry.resolve("b"), Ok(&entry("two")));
    let error = registry.resolve("c").expect_err("unknown");
    assert_eq!(
        error,
        RegistryError::UnknownModel {
            key: "c".to_string()
        }
    );
    assert_eq!(error.message(), "unknown model key: c");
}

#[test]
fn a_served_model_leads_back_to_its_key() {
    let mut registry = ModelRegistry::new();
    registry.insert("a".to_string(), entry("m"));
    registry.insert("b".to_string(), entry("m"));
    assert_eq!(registry.key_serving("m").as_deref(), Some("a"));
    assert_eq!(registry.key_serving("n"), None);
}
