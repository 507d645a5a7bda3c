use one_publish::compiler::{compile, compile_with_renderer, CompileError};
use one_publish::errors::{AppError, ErrorKind};
use one_publish::keyed::StrMap;
use one_publish::provider::{list_providers, Provider, ProviderKind, ProviderRegistry};
use one_publish::value::{PublishSpec, SpecValue, SPEC_VERSION};

fn spec_for(provider: &str, path: &str, parameters: StrMap<SpecValue>) -> PublishSpec {
    PublishSpec {
        version: SPEC_VERSION,
        provider_id: provider.to_string(),
        project_path: path.to_string(),
        parameters,
    }
}

#[test]
fn dotnet_spec_compiles() {
    let spec = spec_for("dotnet", "/tmp/demo.csproj", StrMap::new());
    let plan = compile(&spec).expect("compile");
    assert_eq!(plan.steps.len(), 1);
    assert_eq!(plan.steps[0].id, "dotnet.publish");
    assert_eq!(plan.steps[0].title, "dotnet publish");
    assert_eq!(plan.steps[0].kind, "process");
    assert_eq!(plan.spec, spec);
}

#[test]
fn cargo_spec_compiles() {
    let spec = spec_for("cargo", "/tmp/Cargo.toml", StrMap::new());
    let plan = compile(&spec).expect("compile");
    assert_eq!(plan.steps.len(), 1);
    assert_eq!(plan.steps[0].id, "cargo.build");
}

#[test]
fn go_spec_compiles() {
    let spec = spec_for("go", "/tmp/go.mod", StrMap::new());
    let plan = compile(&spec).expect("compile");
    assert_eq!(plan.steps.len(), 1);
    assert_eq!(plan.steps[0].id, "go.build");
}

#[test]
fn java_spec_compiles() {
    let spec = spec_for("java", "/tmp/build.gradle", StrMap::new());
    let plan = compile(&spec).expect("compile");
    assert_eq!(plan.steps.len(), 1);
    assert_eq!(plan.steps[0].id, "gradle.build");
    assert_eq!(plan.steps[0].title, "./gradlew build");
}

#[test]
fn plan_payload_carries_path_and_parameters() {
    let mut parameters = StrMap::new();
    parameters.insert("release".to_string(), SpecValue::Bool(true));
    let spec = spec_for("cargo", "/tmp/Cargo.toml", parameters);
    let plan = compile(&spec).expect("compile");
    let payload = &plan.steps[0].payload;
    assert_eq!(payload.get("project_path"), Some(&SpecValue::String("/tmp/Cargo.toml".to_string())));
    match payload.get("parameters") {
        Some(SpecValue::Dict(m)) => assert_eq!(m.get("release"), Some(&SpecValue::Bool(true))),
        _ => panic!("expected parameters map"),
    }
}

#[test]
fn wrong_spec_version_is_rejected() {
    let mut spec = spec_for("cargo", "/tmp/Cargo.toml", StrMap::new());
    spec.version = 2;
    match compile(&spec) {
        Err(CompileError::UnsupportedSpecVersion(v)) => assert_eq!(v, 2),
        _ => panic!("expected UnsupportedSpecVersion"),
    }
}

#[test]
fn dotnet_spec_with_parameters_compiles_with_renderer() {
    let mut parameters = StrMap::new();
    parameters.insert("configuration".to_string(), SpecValue::String("Release".to_string()));
    parameters.insert("runtime".to_string(), SpecValue::String("osx-arm64".to_string()));
    parameters.insert("self_contained".to_string(), SpecValue::Bool(true));
    let spec = spec_for("dotnet", "/tmp/demo.csproj", parameters);
    let plan = compile_with_renderer(&spec).expect("compile");
    assert_eq!(plan.steps.len(), 1);
    assert_eq!(plan.steps[0].id, "dotnet.publish");
}

#[test]
fn cargo_spec_with_release_flag_compiles_with_renderer() {
    let mut parameters = StrMap::new();
    parameters.insert("release".to_string(), SpecValue::Bool(true));
    parameters.insert("target".to_string(), SpecValue::String("x86_64-apple-darwin".to_string()));
    let spec = spec_for("cargo", "/tmp/Cargo.toml", parameters);
    let plan = compile_with_renderer(&spec).expect("compile");
    assert_eq!(plan.steps.len(), 1);
    assert_eq!(plan.steps[0].id, "cargo.build");
}

#[test]
fn compile_with_renderer_rejects_unknown_parameter() {
    let mut parameters = StrMap::new();
    parameters.insert("nonexistent".to_string(), SpecValue::Bool(true));
    let spec = spec_for("cargo", "/tmp/Cargo.toml", parameters);
    match compile_with_renderer(&spec) {
        Err(CompileError::RenderError(m)) => assert!(m.contains("nonexistent")),
        _ => panic!("expected RenderError"),
    }
}

#[test]
fn registry_resolves_dotnet_provider() {
    let r = ProviderRegistry::new();
    let p = r.get("dotnet").expect("provider");
    assert_eq!(p.manifest().id, "dotnet");
}

#[test]
fn registry_resolves_cargo_provider() {
    let r = ProviderRegistry::new();
    let p = r.get("cargo").expect("provider");
    assert_eq!(p.manifest().id, "cargo");
}

#[test]
fn registry_resolves_go_provider() {
    let r = ProviderRegistry::new();
    let p = r.get("go").expect("provider");
    assert_eq!(p.manifest().id, "go");
}

#[test]
fn registry_resolves_java_provider() {
    let r = ProviderRegistry::new();
    let p = r.get("java").expect("provider");
    assert_eq!(p.manifest().id, "java");
}

#[test]
fn registry_unknown_provider_is_error() {
    let r = ProviderRegistry::new();
    let err = match r.get("nope") {
        Ok(_) => panic!("expected error"),
        Err(e) => e,
    };
    match err {
        CompileError::UnsupportedProvider(id) => assert_eq!(id, "nope"),
        _ => panic!("unexpected error"),
    }
}

#[test]
fn dotnet_provider_loads_schema() {
    let p = Provider::new(ProviderKind::Dotnet);
    let schema = p.get_schema().expect("schema");
    assert!(schema.parameters.contains_key("configuration"));
    assert!(schema.parameters.contains_key("runtime"));
}

#[test]
fn cargo_provider_loads_schema() {
    let p = Provider::new(ProviderKind::Cargo);
    let schema = p.get_schema().expect("schema");
    assert!(schema.parameters.contains_key("release"));
    assert!(schema.parameters.contains_key("target"));
}

#[test]
fn go_provider_loads_schema() {
    let p = Provider::new(ProviderKind::Go);
    let schema = p.get_schema().expect("schema");
    assert!(schema.parameters.contains_key("output"));
    assert!(schema.parameters.contains_key("tags"));
}

#[test]
fn java_provider_loads_schema() {
    let p = Provider::new(ProviderKind::Java);
    let schema = p.get_schema().expect("schema");
    assert!(schema.parameters.contains_key("task"));
    assert!(schema.parameters.contains_key("offline"));
}

#[test]
fn list_providers_includes_core_toolchains() {
    let ids: Vec<String> = list_providers().into_iter().map(|p| p.id).collect();
    assert!(ids.contains(&"dotnet".to_string()));
    assert!(ids.contains(&"cargo".to_string()));
    assert!(ids.contains(&"go".to_string()));
    assert!(ids.contains(&"java".to_string()));
}

#[test]
fn maps_compile_error_to_kind() {
    let e: AppError = CompileError::UnsupportedProvider("x".to_string()).into();
    assert_eq!(e.kind, ErrorKind::UnsupportedProvider);
    assert_eq!(e.code.as_deref(), Some("unsupported_provider"));

    let e: AppError = CompileError::UnsupportedSpecVersion(999).into();
    assert_eq!(e.kind, ErrorKind::UnsupportedSpecVersion);
    assert_eq!(e.code.as_deref(), Some("unsupported_spec_version"));
    assert_eq!(e.message, "unsupported spec version: 999");
}
