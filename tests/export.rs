use one_publish::export::{sanitize_for_export, sanitize_with, validate_import, ConfigExport, ConfigProfile, ImportError, CONFIG_VERSION};
use one_publish::keyed::StrMap;
use one_publish::value::{PublishSpec, SpecValue, SPEC_VERSION};

fn spec_with(parameters: StrMap<SpecValue>, path: &str) -> PublishSpec {
    PublishSpec {
        version: SPEC_VERSION,
        provider_id: "dotnet".to_string(),
        project_path: path.to_string(),
        parameters,
    }
}

#[test]
fn sanitize_removes_project_path() {
    let spec = spec_with(StrMap::new(), "/Users/test/project.csproj");
    let sanitized = sanitize_for_export(&spec);
    assert_eq!(sanitized.project_path, "");
}

#[test]
fn sanitize_removes_absolute_output() {
    let mut parameters = StrMap::new();
    parameters.insert("output".to_string(), SpecValue::String("/Users/test/publish".to_string()));
    let sanitized = sanitize_for_export(&spec_with(parameters, ""));
    assert_eq!(sanitized.parameters.get("output"), Some(&SpecValue::String("<local-path>".to_string())));
}

#[test]
fn sanitize_preserves_relative_output() {
    let mut parameters = StrMap::new();
    parameters.insert("output".to_string(), SpecValue::String("./publish".to_string()));
    let sanitized = sanitize_for_export(&spec_with(parameters, ""));
    assert_eq!(sanitized.parameters.get("output"), Some(&SpecValue::String("./publish".to_string())));
}

#[test]
fn sanitize_with_masks_target_dir_only_when_told() {
    let mut parameters = StrMap::new();
    parameters.insert("target_dir".to_string(), SpecValue::String("/abs".to_string()));
    parameters.insert("release".to_string(), SpecValue::Bool(true));
    let spec = spec_with(parameters, "/x");
    let kept = sanitize_with(&spec, true, false);
    assert_eq!(kept.parameters.get("target_dir"), Some(&SpecValue::String("/abs".to_string())));
    let masked = sanitize_with(&spec, false, true);
    assert_eq!(masked.parameters.get("target_dir"), Some(&SpecValue::String("<local-path>".to_string())));
    assert_eq!(masked.parameters.get("release"), Some(&SpecValue::Bool(true)));
    assert_eq!(masked.parameters.len(), 2);
}

fn profile(provider: &str, parameters: StrMap<SpecValue>) -> ConfigProfile {
    ConfigProfile {
        name: "Test Profile".to_string(),
        provider_id: provider.to_string(),
        parameters,
        created_at: "2026-02-08T10:00:00Z".to_string(),
        is_system_default: false,
    }
}

#[test]
fn validate_accepts_valid_config() {
    let mut map = StrMap::new();
    map.insert("configuration".to_string(), SpecValue::String("Release".to_string()));
    let config = ConfigExport {
        version: CONFIG_VERSION,
        exported_at: "2026-02-08T10:00:00Z".to_string(),
        profiles: vec![profile("dotnet", map)],
    };
    assert!(validate_import(&config).is_ok());
}

#[test]
fn validate_rejects_unsupported_version() {
    let config = ConfigExport { version: 999, exported_at: String::new(), profiles: vec![] };
    assert!(validate_import(&config).is_err());
}

#[test]
fn validate_rejects_invalid_provider() {
    let config = ConfigExport {
        version: CONFIG_VERSION,
        exported_at: String::new(),
        profiles: vec![profile("invalid_provider", StrMap::new())],
    };
    assert!(validate_import(&config).is_err());
}

#[test]
fn validate_rejects_invalid_parameter_type() {
    let mut map = StrMap::new();
    map.insert("configuration".to_string(), SpecValue::Bool(false));
    let config = ConfigExport {
        version: CONFIG_VERSION,
        exported_at: String::new(),
        profiles: vec![profile("dotnet", map)],
    };
    match validate_import(&config) {
        Err(ImportError::ValidationFailed(m)) => assert!(m.contains("configuration")),
        _ => panic!("expected ValidationFailed"),
    }
}

#[test]
fn validate_lets_unknown_parameters_through() {
    let mut map = StrMap::new();
    map.insert("not_in_schema".to_string(), SpecValue::Null);
    let config = ConfigExport {
        version: CONFIG_VERSION,
        exported_at: String::new(),
        profiles: vec![profile("cargo", map)],
    };
    assert!(validate_import(&config).is_ok());
}
